//! Format negotiator.
//!
//! Builds the ranked offer the session opens negotiation with — one format
//! object per distinct expressible pixel format among the caller's candidates —
//! and turns the remote endpoint's chosen format back into a concrete
//! [`FrameFormat`], together with the follow-up request for descriptor-backed
//! buffers.

use vstd::prelude::*;

use crate::codec::{
    encode, ChoiceRange, CodecError, Fraction, ParameterObject, PodProperty, PodValue, Rectangle,
    spec_decode, spec_encode_object, decode,
};
use crate::vocab::{
    spec_fourcc_to_video_format, fourcc_to_video_format, video_format_supported,
    KEY_BUFFERS_DATA_TYPE, KEY_MEDIA_SUBTYPE, KEY_MEDIA_TYPE, KEY_VIDEO_FORMAT, KEY_VIDEO_MODIFIER,
    KEY_VIDEO_FRAMERATE, KEY_VIDEO_SIZE, MEDIA_SUBTYPE_RAW, MEDIA_TYPE_VIDEO,
    OBJECT_TYPE_PARAM_BUFFERS, OBJECT_TYPE_FORMAT, PARAM_ID_BUFFERS, PARAM_ID_ENUM_FORMAT,
    PROP_FLAG_DONT_FIXATE, PROP_FLAG_MANDATORY, DATA_TYPE_DESCRIPTOR,
};

verus! {

/// The default frame size an offer proposes inside its size range.
pub const DEFAULT_SIZE: u32 = 256;

/// The largest frame edge an offer admits.
pub const MAX_SIZE: u32 = 8192;

/// The largest frame rate an offer admits.
pub const MAX_FRAMERATE: u32 = 1000;

/// One caller-supplied candidate: a fourcc pixel-format code and a layout
/// modifier.
#[derive(Clone, Copy, Debug, PartialEq, Eq, Structural)]
pub struct FormatCandidate {
    pub code: u32,
    pub modifier: u64,
}

/// The negotiated description of every subsequent frame until renegotiation.
/// Immutable once accepted; replaced wholesale, never partially mutated.
#[derive(Clone, Copy, Debug, PartialEq, Eq, Structural)]
pub struct FrameFormat {
    pub width: u32,
    pub height: u32,
    pub pixel_format: u32,
    pub modifier: u64,
}

/// Negotiation failed for the current parameter object.
#[derive(Clone, Copy, Debug, PartialEq, Eq, Structural)]
pub enum NegotiationError {
    /// The remote endpoint's bytes are no well-formed parameter object; the
    /// object is dropped and the session continues.
    MalformedParameterObject,
    /// The remote endpoint chose a format without a concrete supported pixel
    /// format or without a concrete size; fatal for this session.
    UnrecognizedFormat,
}

impl FrameFormat {
    /// The high 32 bits of the layout modifier.
    pub fn modifier_hi(&self) -> (r: u32)
        ensures
            r == (self.modifier >> 32) as u32,
    {
        (self.modifier >> 32) as u32
    }

    /// The low 32 bits of the layout modifier.
    pub fn modifier_lo(&self) -> (r: u32)
        ensures
            r == (self.modifier & 0xFFFF_FFFF) as u32,
    {
        (self.modifier & 0xFFFF_FFFF) as u32
    }
}

/// The property list of one format offer: video/raw media, the pixel format,
/// the full 64-bit layout modifier as a mandatory, not-yet-fixated choice, a
/// size range and a framerate range around the requested defaults.
pub open spec fn spec_offer_props(format: u32, modifier: u64, fps: u32) -> Seq<PodProperty> {
    seq![
        PodProperty { key: KEY_MEDIA_TYPE, flags: 0, value: PodValue::Id(MEDIA_TYPE_VIDEO) },
        PodProperty { key: KEY_MEDIA_SUBTYPE, flags: 0, value: PodValue::Id(MEDIA_SUBTYPE_RAW) },
        PodProperty { key: KEY_VIDEO_FORMAT, flags: 0, value: PodValue::Id(format) },
        PodProperty {
            key: KEY_VIDEO_MODIFIER,
            flags: PROP_FLAG_MANDATORY | PROP_FLAG_DONT_FIXATE,
            value: PodValue::Choice {
                flags: 0,
                range: ChoiceRange::Long {
                    default: modifier as i64,
                    min: modifier as i64,
                    max: modifier as i64,
                },
            },
        },
        PodProperty {
            key: KEY_VIDEO_SIZE,
            flags: 0,
            value: PodValue::Choice {
                flags: 0,
                range: ChoiceRange::Rect {
                    default: Rectangle { width: DEFAULT_SIZE, height: DEFAULT_SIZE },
                    min: Rectangle { width: 1, height: 1 },
                    max: Rectangle { width: MAX_SIZE, height: MAX_SIZE },
                },
            },
        },
        PodProperty {
            key: KEY_VIDEO_FRAMERATE,
            flags: 0,
            value: PodValue::Choice {
                flags: 0,
                range: ChoiceRange::Frac {
                    default: Fraction { num: fps, denom: 1 },
                    min: Fraction { num: 0, denom: 1 },
                    max: Fraction { num: MAX_FRAMERATE, denom: 1 },
                },
            },
        },
    ]
}

/// Builds one format offer object.
pub fn format_offer_object(format: u32, modifier: u64, fps: u32) -> (r: ParameterObject)
    ensures
        r.object_type == OBJECT_TYPE_FORMAT,
        r.object_id == PARAM_ID_ENUM_FORMAT,
        r.properties@ == spec_offer_props(format, modifier, fps),
{
    let mut properties: Vec<PodProperty> = Vec::new();
    properties.push(
        PodProperty { key: KEY_MEDIA_TYPE, flags: 0, value: PodValue::Id(MEDIA_TYPE_VIDEO) },
    );
    properties.push(
        PodProperty { key: KEY_MEDIA_SUBTYPE, flags: 0, value: PodValue::Id(MEDIA_SUBTYPE_RAW) },
    );
    properties.push(PodProperty { key: KEY_VIDEO_FORMAT, flags: 0, value: PodValue::Id(format) });
    properties.push(
        PodProperty {
            key: KEY_VIDEO_MODIFIER,
            flags: PROP_FLAG_MANDATORY | PROP_FLAG_DONT_FIXATE,
            value: PodValue::Choice {
                flags: 0,
                range: ChoiceRange::Long {
                    default: modifier as i64,
                    min: modifier as i64,
                    max: modifier as i64,
                },
            },
        },
    );
    properties.push(
        PodProperty {
            key: KEY_VIDEO_SIZE,
            flags: 0,
            value: PodValue::Choice {
                flags: 0,
                range: ChoiceRange::Rect {
                    default: Rectangle { width: DEFAULT_SIZE, height: DEFAULT_SIZE },
                    min: Rectangle { width: 1, height: 1 },
                    max: Rectangle { width: MAX_SIZE, height: MAX_SIZE },
                },
            },
        },
    );
    properties.push(
        PodProperty {
            key: KEY_VIDEO_FRAMERATE,
            flags: 0,
            value: PodValue::Choice {
                flags: 0,
                range: ChoiceRange::Frac {
                    default: Fraction { num: fps, denom: 1 },
                    min: Fraction { num: 0, denom: 1 },
                    max: Fraction { num: MAX_FRAMERATE, denom: 1 },
                },
            },
        },
    );
    assert(properties@ =~= spec_offer_props(format, modifier, fps));
    ParameterObject {
        object_type: OBJECT_TYPE_FORMAT,
        object_id: PARAM_ID_ENUM_FORMAT,
        properties,
    }
}

/// The (pixel format, modifier) pairs an offer is built from: candidates in
/// order, those outside the vocabulary dropped, one entry per distinct pixel
/// format (the first candidate of each format wins).
pub open spec fn spec_selected(cands: Seq<FormatCandidate>, seen: Set<u32>) -> Seq<(u32, u64)>
    decreases cands.len(),
{
    if cands.len() == 0 {
        Seq::empty()
    } else {
        match spec_fourcc_to_video_format(cands[0].code) {
            None => spec_selected(cands.skip(1), seen),
            Some(f) => if seen.contains(f) {
                spec_selected(cands.skip(1), seen)
            } else {
                seq![(f, cands[0].modifier)] + spec_selected(cands.skip(1), seen.insert(f))
            },
        }
    }
}

/// Every pair an offer is built from carries a pixel format of the supported
/// vocabulary, whatever has been offered before.
proof fn lemma_selected_supported(cands: Seq<FormatCandidate>, seen: Set<u32>)
    ensures
        forall|j: int|
            #![auto]
            0 <= j < spec_selected(cands, seen).len() ==> video_format_supported(
                spec_selected(cands, seen)[j].0,
            ),
    decreases cands.len(),
{
    if cands.len() > 0 {
        let res = spec_selected(cands, seen);
        match spec_fourcc_to_video_format(cands[0].code) {
            None => {
                let sub = spec_selected(cands.skip(1), seen);
                lemma_selected_supported(cands.skip(1), seen);
                assert forall|j: int| 0 <= j < res.len() implies video_format_supported(
                    res[j].0,
                ) by {
                    assert(res[j] == sub[j]);
                    assert(video_format_supported(sub[j].0));
                };
            },
            Some(f) => {
                if seen.contains(f) {
                    let sub = spec_selected(cands.skip(1), seen);
                    lemma_selected_supported(cands.skip(1), seen);
                    assert forall|j: int| 0 <= j < res.len() implies video_format_supported(
                        res[j].0,
                    ) by {
                        assert(res[j] == sub[j]);
                        assert(video_format_supported(sub[j].0));
                    };
                } else {
                    let sub = spec_selected(cands.skip(1), seen.insert(f));
                    lemma_selected_supported(cands.skip(1), seen.insert(f));
                    assert(video_format_supported(f));
                    assert forall|j: int| 0 <= j < res.len() implies video_format_supported(
                        res[j].0,
                    ) by {
                        if j > 0 {
                            assert(res[j] == sub[j - 1]);
                            assert(video_format_supported(sub[j - 1].0));
                        } else {
                            assert(res[0].0 == f);
                        }
                    };
                }
            },
        }
    }
}

/// As long as some candidate maps to a pixel format not offered yet, the
/// offer is not empty.
proof fn lemma_selected_nonempty(cands: Seq<FormatCandidate>, seen: Set<u32>)
    requires
        exists|j: int|
            0 <= j < cands.len() && ((#[trigger] spec_fourcc_to_video_format(cands[j].code))
                matches Some(f) && !seen.contains(f)),
    ensures
        spec_selected(cands, seen).len() > 0,
    decreases cands.len(),
{
    let j = choose|j: int|
        0 <= j < cands.len() && ((#[trigger] spec_fourcc_to_video_format(cands[j].code))
            matches Some(f) && !seen.contains(f));
    match spec_fourcc_to_video_format(cands[0].code) {
        None => {
            assert(spec_fourcc_to_video_format(cands.skip(1)[j - 1].code) == spec_fourcc_to_video_format(
                cands[j].code,
            ));
            lemma_selected_nonempty(cands.skip(1), seen);
        },
        Some(f0) => {
            if seen.contains(f0) {
                assert(j != 0);
                assert(spec_fourcc_to_video_format(cands.skip(1)[j - 1].code)
                    == spec_fourcc_to_video_format(cands[j].code));
                lemma_selected_nonempty(cands.skip(1), seen);
            }
        },
    }
}

/// The offer never names a pixel format outside the supported vocabulary, and
/// is never empty when at least one candidate the vocabulary can express is
/// given.
pub proof fn lemma_offer_vocabulary(cands: Seq<FormatCandidate>)
    ensures
        forall|j: int|
            #![auto]
            0 <= j < spec_selected(cands, Set::empty()).len() ==> video_format_supported(
                spec_selected(cands, Set::empty())[j].0,
            ),
        (exists|j: int|
            0 <= j < cands.len() && (#[trigger] spec_fourcc_to_video_format(cands[j].code))
                is Some) ==> spec_selected(cands, Set::empty()).len() > 0,
{
    lemma_selected_supported(cands, Set::empty());
    if exists|j: int|
        0 <= j < cands.len() && (#[trigger] spec_fourcc_to_video_format(cands[j].code)) is Some {
        let j = choose|j: int|
            0 <= j < cands.len() && (#[trigger] spec_fourcc_to_video_format(cands[j].code))
                is Some;
        assert(!Set::<u32>::empty().contains(
            spec_fourcc_to_video_format(cands[j].code)->Some_0,
        ));
        lemma_selected_nonempty(cands, Set::empty());
    }
}

/// Builds the offer for one negotiation round: one "enumerate formats" object
/// per distinct expressible pixel format among `candidates`, in order of first
/// appearance, each proposing `target_fps` as the default frame rate.
pub fn build_offer(candidates: &Vec<FormatCandidate>, target_fps: u32) -> (r: Vec<ParameterObject>)
    ensures
        r@.len() == spec_selected(candidates@, Set::empty()).len(),
        forall|i: int|
            0 <= i < r@.len() ==> {
                let sel = spec_selected(candidates@, Set::empty())[i];
                &&& (#[trigger] r@[i]).object_type == OBJECT_TYPE_FORMAT
                &&& r@[i].object_id == PARAM_ID_ENUM_FORMAT
                &&& r@[i].properties@ == spec_offer_props(sel.0, sel.1, target_fps)
            },
{
    let ghost all = spec_selected(candidates@, Set::empty());
    let mut out: Vec<ParameterObject> = Vec::new();
    let mut seen: Vec<u32> = Vec::new();
    let ghost seen_set = Set::<u32>::empty();
    let ghost offered = Seq::<(u32, u64)>::empty();
    let mut i: usize = 0;
    assert(candidates@.skip(0) =~= candidates@);
    assert(offered + spec_selected(candidates@, Set::empty()) =~= spec_selected(
        candidates@,
        Set::empty(),
    ));
    while i < candidates.len()
        invariant
            i <= candidates@.len(),
            all == spec_selected(candidates@, Set::empty()),
            all == offered + spec_selected(candidates@.skip(i as int), seen_set),
            out@.len() == offered.len(),
            forall|x: u32| seen_set.contains(x) <==> seen@.contains(x),
            forall|k: int|
                0 <= k < out@.len() ==> {
                    &&& (#[trigger] out@[k]).object_type == OBJECT_TYPE_FORMAT
                    &&& out@[k].object_id == PARAM_ID_ENUM_FORMAT
                    &&& out@[k].properties@ == spec_offer_props(
                        offered[k].0,
                        offered[k].1,
                        target_fps,
                    )
                },
        decreases candidates@.len() - i,
    {
        let cand = candidates[i];
        let ghost at = candidates@.skip(i as int);
        assert(at[0] == cand);
        assert(at.skip(1) =~= candidates@.skip(i + 1));
        match fourcc_to_video_format(cand.code) {
            None => {},
            Some(f) => {
                let mut already = false;
                let mut k: usize = 0;
                while k < seen.len()
                    invariant
                        k <= seen@.len(),
                        already <==> exists|m: int| 0 <= m < k && seen@[m] == f,
                    decreases seen@.len() - k,
                {
                    if seen[k] == f {
                        already = true;
                    }
                    k = k + 1;
                }
                assert(already <==> seen_set.contains(f)) by {
                    if seen@.contains(f) {
                        let m = choose|m: int| 0 <= m < seen@.len() && seen@[m] == f;
                        assert(exists|m: int| 0 <= m < seen@.len() && seen@[m] == f);
                    }
                };
                if !already {
                    let obj = format_offer_object(f, cand.modifier, target_fps);
                    out.push(obj);
                    let ghost olds = seen@;
                    seen.push(f);
                    proof {
                        assert forall|x: u32| #[trigger] seen@.contains(x) <==> olds.contains(x)
                            || x == f by {
                            if seen@.contains(x) {
                                let m = choose|m: int| 0 <= m < seen@.len() && seen@[m] == x;
                                if m < olds.len() {
                                    assert(olds[m] == x);
                                }
                            }
                            if olds.contains(x) {
                                let m = choose|m: int| 0 <= m < olds.len() && olds[m] == x;
                                assert(seen@[m] == x);
                            }
                            if x == f {
                                assert(seen@[olds.len() as int] == x);
                            }
                        };
                        offered = offered + seq![(f, cand.modifier)];
                        seen_set = seen_set.insert(f);
                        assert(offered + spec_selected(candidates@.skip(i + 1), seen_set)
                            =~= all);
                    }
                }
            },
        }
        i = i + 1;
    }
    assert(candidates@.skip(candidates@.len() as int) =~= Seq::<FormatCandidate>::empty());
    assert(offered + Seq::<(u32, u64)>::empty() =~= offered);
    out
}


/// The value of the first property carrying `key`, or `None` when no property
/// carries it.
pub open spec fn spec_find(props: Seq<PodProperty>, key: u32) -> Option<PodValue>
    decreases props.len(),
{
    if props.len() == 0 {
        None
    } else if props[0].key == key {
        Some(props[0].value)
    } else {
        spec_find(props.skip(1), key)
    }
}

/// Finds the value of the first property carrying `key`.
fn find_value(props: &Vec<PodProperty>, key: u32) -> (r: Option<PodValue>)
    ensures
        r == spec_find(props@, key),
    decreases props@.len(),
{
    let mut i: usize = 0;
    assert(props@.skip(0) =~= props@);
    while i < props.len()
        invariant
            i <= props@.len(),
            spec_find(props@, key) == spec_find(props@.skip(i as int), key),
        decreases props@.len() - i,
    {
        assert(props@.skip(i as int)[0] == props@[i as int]);
        assert(props@.skip(i as int).skip(1) =~= props@.skip(i + 1));
        if props[i].key == key {
            return Some(props[i].value);
        }
        i = i + 1;
    }
    assert(props@.skip(props@.len() as int) =~= Seq::<PodProperty>::empty());
    None
}

/// The frame format a selected-format object pins down: `None` unless the
/// object carries a concrete supported pixel format and a concrete size. The
/// modifier is read in full from a concrete 64-bit long and defaults to 0
/// (implementation-defined linear layout) when absent or not concrete.
pub open spec fn spec_format_of(props: Seq<PodProperty>) -> Option<FrameFormat> {
    match (spec_find(props, KEY_VIDEO_FORMAT), spec_find(props, KEY_VIDEO_SIZE)) {
        (Some(PodValue::Id(f)), Some(PodValue::Rect(r))) => if video_format_supported(f) {
            Some(
                FrameFormat {
                    width: r.width,
                    height: r.height,
                    pixel_format: f,
                    modifier: match spec_find(props, KEY_VIDEO_MODIFIER) {
                        Some(PodValue::Long(m)) => m as u64,
                        _ => 0,
                    },
                },
            )
        } else {
            None
        },
        _ => None,
    }
}

/// Reads the remote endpoint's chosen format out of a decoded parameter
/// object. Fails with `UnrecognizedFormat` exactly when the object lacks a
/// concrete supported pixel format or a concrete size.
pub fn format_from_object(obj: &ParameterObject) -> (r: Result<FrameFormat, NegotiationError>)
    ensures
        match spec_format_of(obj.properties@) {
            Some(f) => r == Ok::<FrameFormat, NegotiationError>(f),
            None => r == Err::<FrameFormat, NegotiationError>(NegotiationError::UnrecognizedFormat),
        },
{
    let format = match find_value(&obj.properties, KEY_VIDEO_FORMAT) {
        Some(PodValue::Id(f)) => f,
        _ => {
            return Err(NegotiationError::UnrecognizedFormat);
        },
    };
    if format_in_vocabulary(format) {
        let size = match find_value(&obj.properties, KEY_VIDEO_SIZE) {
            Some(PodValue::Rect(r)) => r,
            _ => {
                return Err(NegotiationError::UnrecognizedFormat);
            },
        };
        let modifier: u64 = match find_value(&obj.properties, KEY_VIDEO_MODIFIER) {
            Some(PodValue::Long(m)) => m as u64,
            _ => 0,
        };
        Ok(
            FrameFormat {
                width: size.width,
                height: size.height,
                pixel_format: format,
                modifier,
            },
        )
    } else {
        Err(NegotiationError::UnrecognizedFormat)
    }
}

/// Whether `format` is a pixel format of the supported vocabulary.
fn format_in_vocabulary(format: u32) -> (r: bool)
    ensures
        r == video_format_supported(format),
{
    format == crate::vocab::VIDEO_FORMAT_BGRA || format == crate::vocab::VIDEO_FORMAT_RGBA
        || format == crate::vocab::VIDEO_FORMAT_BGRX || format == crate::vocab::VIDEO_FORMAT_RGBX
}

/// The single property of the follow-up buffer-parameters object: request
/// descriptor-backed buffers.
pub open spec fn spec_buffer_request_props() -> Seq<PodProperty> {
    seq![
        PodProperty {
            key: KEY_BUFFERS_DATA_TYPE,
            flags: 0,
            value: PodValue::Id(DATA_TYPE_DESCRIPTOR),
        },
    ]
}

/// Builds the follow-up request for descriptor-backed buffers that is issued
/// as soon as a format is selected. The remote side may refuse it; mapped
/// buffers are then still staged by copying.
pub fn build_buffer_request() -> (r: ParameterObject)
    ensures
        r.object_type == OBJECT_TYPE_PARAM_BUFFERS,
        r.object_id == PARAM_ID_BUFFERS,
        r.properties@ == spec_buffer_request_props(),
{
    let mut properties: Vec<PodProperty> = Vec::new();
    properties.push(
        PodProperty {
            key: KEY_BUFFERS_DATA_TYPE,
            flags: 0,
            value: PodValue::Id(DATA_TYPE_DESCRIPTOR),
        },
    );
    assert(properties@ =~= spec_buffer_request_props());
    ParameterObject {
        object_type: OBJECT_TYPE_PARAM_BUFFERS,
        object_id: PARAM_ID_BUFFERS,
        properties,
    }
}

/// What `on_format_selected` returns for given raw bytes: the malformed
/// error, the unrecognized error, or the pinned-down frame format.
pub open spec fn spec_selected_format(bytes: Seq<u8>) -> Result<FrameFormat, NegotiationError> {
    match spec_decode(bytes) {
        None => Err(NegotiationError::MalformedParameterObject),
        Some(t) => match spec_format_of(t.2) {
            None => Err(NegotiationError::UnrecognizedFormat),
            Some(f) => Ok(f),
        },
    }
}

/// Reacts to the remote endpoint's selected format: decodes the raw object,
/// pins the frame format down, and hands back the encoded follow-up request
/// for descriptor-backed buffers to be sent to the endpoint.
pub fn on_format_selected(bytes: &Vec<u8>) -> (r: Result<
    (FrameFormat, Vec<u8>),
    NegotiationError,
>)
    ensures
        match spec_selected_format(bytes@) {
            Ok(f) => r matches Ok(p) && p.0 == f && p.1@ == spec_encode_object(
                OBJECT_TYPE_PARAM_BUFFERS,
                PARAM_ID_BUFFERS,
                spec_buffer_request_props(),
            ),
            Err(e) => r matches Err(e2) && e2 == e,
        },
{
    let obj = match decode(bytes) {
        Ok(obj) => obj,
        Err(CodecError::MalformedParameterObject) => {
            return Err(NegotiationError::MalformedParameterObject);
        },
    };
    let format = match format_from_object(&obj) {
        Ok(f) => f,
        Err(e) => {
            return Err(e);
        },
    };
    let request = build_buffer_request();
    let encoded = encode(&request);
    Ok((format, encoded))
}

} // verus!
