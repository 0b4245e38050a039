use frame_transport::codec::{
    decode, encode, ChoiceRange, Fraction, ParameterObject, PodProperty, PodValue, Rectangle,
};
use frame_transport::negotiate::{
    build_buffer_request, build_offer, on_format_selected, FormatCandidate, FrameFormat,
    NegotiationError,
};
use frame_transport::vocab::{
    fourcc_to_video_format, DATA_TYPE_DESCRIPTOR, FOURCC_ABGR8888, FOURCC_ARGB8888,
    FOURCC_XBGR8888, FOURCC_XRGB8888, KEY_BUFFERS_DATA_TYPE, KEY_MEDIA_SUBTYPE, KEY_MEDIA_TYPE,
    KEY_VIDEO_FORMAT, KEY_VIDEO_MODIFIER, KEY_VIDEO_SIZE, KEY_VIDEO_FRAMERATE, MEDIA_SUBTYPE_RAW,
    MEDIA_TYPE_VIDEO, OBJECT_TYPE_FORMAT, OBJECT_TYPE_PARAM_BUFFERS, PARAM_ID_BUFFERS,
    PARAM_ID_ENUM_FORMAT, VIDEO_FORMAT_BGRA, VIDEO_FORMAT_BGRX, VIDEO_FORMAT_RGBA,
    VIDEO_FORMAT_RGBX,
};

#[test]
fn fourcc_table_matches_vocabulary() {
    assert_eq!(fourcc_to_video_format(FOURCC_ARGB8888), Some(VIDEO_FORMAT_BGRA));
    assert_eq!(fourcc_to_video_format(FOURCC_ABGR8888), Some(VIDEO_FORMAT_RGBA));
    assert_eq!(fourcc_to_video_format(FOURCC_XRGB8888), Some(VIDEO_FORMAT_BGRX));
    assert_eq!(fourcc_to_video_format(FOURCC_XBGR8888), Some(VIDEO_FORMAT_RGBX));
    assert_eq!(fourcc_to_video_format(0x1234_5678), None);
}

#[test]
fn modifier_words_split_exactly() {
    let format = FrameFormat {
        width: 640,
        height: 480,
        pixel_format: VIDEO_FORMAT_BGRA,
        modifier: 0x0123_4567_89ab_cdef,
    };
    assert_eq!(format.modifier_hi(), 0x0123_4567);
    assert_eq!(format.modifier_lo(), 0x89ab_cdef);
}

/// The offer for one RGBA candidate with modifier 0 at 30 fps: one format
/// object with video/raw media, format RGBA, a mandatory not-yet-fixated
/// modifier of 0, a size range [1x1, 8192x8192] defaulting to 256x256, and a
/// framerate range [0, 1000] defaulting to 30.
#[test]
fn offer_for_one_rgba_candidate() {
    let candidates = vec![FormatCandidate { code: FOURCC_ABGR8888, modifier: 0 }];
    let offer = build_offer(&candidates, 30);
    assert_eq!(offer.len(), 1);
    let obj = &offer[0];
    assert_eq!(obj.object_type, OBJECT_TYPE_FORMAT);
    assert_eq!(obj.object_id, PARAM_ID_ENUM_FORMAT);
    assert_eq!(obj.properties.len(), 6);
    assert_eq!(
        obj.properties[0],
        PodProperty { key: KEY_MEDIA_TYPE, flags: 0, value: PodValue::Id(MEDIA_TYPE_VIDEO) }
    );
    assert_eq!(
        obj.properties[1],
        PodProperty { key: KEY_MEDIA_SUBTYPE, flags: 0, value: PodValue::Id(MEDIA_SUBTYPE_RAW) }
    );
    assert_eq!(
        obj.properties[2],
        PodProperty { key: KEY_VIDEO_FORMAT, flags: 0, value: PodValue::Id(VIDEO_FORMAT_RGBA) }
    );
    assert_eq!(
        obj.properties[3],
        PodProperty {
            key: KEY_VIDEO_MODIFIER,
            flags: 0x18,
            value: PodValue::Choice {
                flags: 0,
                range: ChoiceRange::Long { default: 0, min: 0, max: 0 },
            },
        }
    );
    assert_eq!(
        obj.properties[4],
        PodProperty {
            key: KEY_VIDEO_SIZE,
            flags: 0,
            value: PodValue::Choice {
                flags: 0,
                range: ChoiceRange::Rect {
                    default: Rectangle { width: 256, height: 256 },
                    min: Rectangle { width: 1, height: 1 },
                    max: Rectangle { width: 8192, height: 8192 },
                },
            },
        }
    );
    assert_eq!(
        obj.properties[5],
        PodProperty {
            key: KEY_VIDEO_FRAMERATE,
            flags: 0,
            value: PodValue::Choice {
                flags: 0,
                range: ChoiceRange::Frac {
                    default: Fraction { num: 30, denom: 1 },
                    min: Fraction { num: 0, denom: 1 },
                    max: Fraction { num: 1000, denom: 1 },
                },
            },
        }
    );
}

#[test]
fn offer_drops_unknown_candidates_silently() {
    let candidates = vec![
        FormatCandidate { code: 0xdead_beef, modifier: 0 },
        FormatCandidate { code: FOURCC_ARGB8888, modifier: 3 },
        FormatCandidate { code: 0x0bad_0bad, modifier: 0 },
    ];
    let offer = build_offer(&candidates, 60);
    assert_eq!(offer.len(), 1);
    assert_eq!(
        offer[0].properties[2],
        PodProperty { key: KEY_VIDEO_FORMAT, flags: 0, value: PodValue::Id(VIDEO_FORMAT_BGRA) }
    );
}

#[test]
fn offer_is_empty_only_without_expressible_candidates() {
    let none = build_offer(&vec![FormatCandidate { code: 7, modifier: 0 }], 30);
    assert!(none.is_empty());
    let some = build_offer(
        &vec![
            FormatCandidate { code: 7, modifier: 0 },
            FormatCandidate { code: FOURCC_XBGR8888, modifier: 0 },
        ],
        30,
    );
    assert_eq!(some.len(), 1);
}

#[test]
fn offer_has_one_entry_per_distinct_format() {
    let candidates = vec![
        FormatCandidate { code: FOURCC_ARGB8888, modifier: 1 },
        FormatCandidate { code: FOURCC_ARGB8888, modifier: 2 },
        FormatCandidate { code: FOURCC_XRGB8888, modifier: 3 },
    ];
    let offer = build_offer(&candidates, 30);
    assert_eq!(offer.len(), 2);
    assert_eq!(
        offer[0].properties[3],
        PodProperty {
            key: KEY_VIDEO_MODIFIER,
            flags: 0x18,
            value: PodValue::Choice {
                flags: 0,
                range: ChoiceRange::Long { default: 1, min: 1, max: 1 },
            },
        }
    );
    assert_eq!(
        offer[1].properties[2],
        PodProperty { key: KEY_VIDEO_FORMAT, flags: 0, value: PodValue::Id(VIDEO_FORMAT_BGRX) }
    );
}

fn selected_format_object(with_size: bool, format: u32) -> ParameterObject {
    let mut properties = vec![
        PodProperty { key: KEY_MEDIA_TYPE, flags: 0, value: PodValue::Id(MEDIA_TYPE_VIDEO) },
        PodProperty { key: KEY_MEDIA_SUBTYPE, flags: 0, value: PodValue::Id(MEDIA_SUBTYPE_RAW) },
        PodProperty { key: KEY_VIDEO_FORMAT, flags: 0, value: PodValue::Id(format) },
        PodProperty { key: KEY_VIDEO_MODIFIER, flags: 0, value: PodValue::Long(5) },
    ];
    if with_size {
        properties.push(PodProperty {
            key: KEY_VIDEO_SIZE,
            flags: 0,
            value: PodValue::Rect(Rectangle { width: 1920, height: 1080 }),
        });
    }
    ParameterObject { object_type: OBJECT_TYPE_FORMAT, object_id: 4, properties }
}

#[test]
fn selected_format_is_pinned_down() {
    let bytes = encode(&selected_format_object(true, VIDEO_FORMAT_BGRA));
    let (format, request) = on_format_selected(&bytes).expect("concrete format must be accepted");
    assert_eq!(
        format,
        FrameFormat { width: 1920, height: 1080, pixel_format: VIDEO_FORMAT_BGRA, modifier: 5 }
    );
    let req = decode(&request).expect("the follow-up request must decode");
    assert_eq!(req.object_type, OBJECT_TYPE_PARAM_BUFFERS);
    assert_eq!(req.object_id, PARAM_ID_BUFFERS);
    assert_eq!(
        req.properties,
        vec![PodProperty {
            key: KEY_BUFFERS_DATA_TYPE,
            flags: 0,
            value: PodValue::Id(DATA_TYPE_DESCRIPTOR),
        }]
    );
}

/// The full 64-bit modifier travels losslessly: the offer carries it whole in
/// its choice, the encoding round-trips it, and the selection reader recovers
/// every bit, high word included.
#[test]
fn modifier_is_carried_losslessly() {
    let modifier: u64 = 0x00ff_4567_89ab_cdef;
    let offer = build_offer(&vec![FormatCandidate { code: FOURCC_ARGB8888, modifier }], 30);
    assert_eq!(
        offer[0].properties[3].value,
        PodValue::Choice {
            flags: 0,
            range: ChoiceRange::Long {
                default: modifier as i64,
                min: modifier as i64,
                max: modifier as i64,
            },
        }
    );
    let wire = encode(&offer[0]);
    let back = decode(&wire).expect("the offer must decode");
    assert_eq!(back, offer[0]);

    let mut chosen = selected_format_object(true, VIDEO_FORMAT_BGRA);
    chosen.properties[3] =
        PodProperty { key: KEY_VIDEO_MODIFIER, flags: 0, value: PodValue::Long(modifier as i64) };
    let (format, _) = on_format_selected(&encode(&chosen)).expect("format must be accepted");
    assert_eq!(format.modifier, modifier);
    assert_eq!(format.modifier_hi(), 0x00ff_4567);
    assert_eq!(format.modifier_lo(), 0x89ab_cdef);
}

#[test]
fn selected_format_without_size_is_unrecognized() {
    let bytes = encode(&selected_format_object(false, VIDEO_FORMAT_BGRA));
    assert_eq!(on_format_selected(&bytes), Err(NegotiationError::UnrecognizedFormat));
}

#[test]
fn selected_format_outside_vocabulary_is_unrecognized() {
    let bytes = encode(&selected_format_object(true, 999));
    assert_eq!(on_format_selected(&bytes), Err(NegotiationError::UnrecognizedFormat));
}

#[test]
fn selected_format_from_garbage_is_malformed() {
    let bytes = vec![9, 9, 9];
    assert_eq!(on_format_selected(&bytes), Err(NegotiationError::MalformedParameterObject));
}

#[test]
fn buffer_request_asks_for_descriptors() {
    let req = build_buffer_request();
    assert_eq!(req.object_type, OBJECT_TYPE_PARAM_BUFFERS);
    assert_eq!(req.object_id, PARAM_ID_BUFFERS);
    assert_eq!(req.properties.len(), 1);
    assert_eq!(req.properties[0].value, PodValue::Id(DATA_TYPE_DESCRIPTOR));
}
