//! The negotiation vocabulary: the identifiers both endpoints understand.
//!
//! Object types, parameter ids, property keys and media identifiers match the
//! remote streaming endpoint's structured-object wire vocabulary, and the
//! pixel-format table maps the compositor's fourcc codes onto it. Candidates
//! whose fourcc is outside this table cannot be expressed on the wire and are
//! silently dropped from offers.

use vstd::prelude::*;

verus! {

/// Object type of a format-negotiation object.
pub const OBJECT_TYPE_FORMAT: u32 = 0x40003;

/// Object type of a buffer-parameters object.
pub const OBJECT_TYPE_PARAM_BUFFERS: u32 = 0x40004;

/// Parameter id under which format offers are enumerated.
pub const PARAM_ID_ENUM_FORMAT: u32 = 3;

/// Parameter id under which buffer parameters are requested.
pub const PARAM_ID_BUFFERS: u32 = 5;

/// Property key: the media type of a format object.
pub const KEY_MEDIA_TYPE: u32 = 1;

/// Property key: the media subtype of a format object.
pub const KEY_MEDIA_SUBTYPE: u32 = 2;

/// Property key: the pixel format of a video format object.
pub const KEY_VIDEO_FORMAT: u32 = 0x20001;

/// Property key: the layout modifier of a video format object.
pub const KEY_VIDEO_MODIFIER: u32 = 0x20002;

/// Property key: the frame size of a video format object.
pub const KEY_VIDEO_SIZE: u32 = 0x20003;

/// Property key: the frame rate of a video format object.
pub const KEY_VIDEO_FRAMERATE: u32 = 0x20004;

/// Property key: the buffer data representation of a buffer-parameters object.
pub const KEY_BUFFERS_DATA_TYPE: u32 = 6;

/// Media type identifier: video.
pub const MEDIA_TYPE_VIDEO: u32 = 2;

/// Media subtype identifier: raw frames.
pub const MEDIA_SUBTYPE_RAW: u32 = 1;

/// Buffer data representation: descriptor-backed buffers.
pub const DATA_TYPE_DESCRIPTOR: u32 = 3;

/// Property flag: the remote endpoint must honour this property.
pub const PROP_FLAG_MANDATORY: u32 = 0x8;

/// Property flag: do not fixate this property to a single value yet.
pub const PROP_FLAG_DONT_FIXATE: u32 = 0x10;

/// Wire identifier of the RGBx pixel format.
pub const VIDEO_FORMAT_RGBX: u32 = 7;

/// Wire identifier of the BGRx pixel format.
pub const VIDEO_FORMAT_BGRX: u32 = 8;

/// Wire identifier of the RGBA pixel format.
pub const VIDEO_FORMAT_RGBA: u32 = 11;

/// Wire identifier of the BGRA pixel format.
pub const VIDEO_FORMAT_BGRA: u32 = 12;

/// Fourcc code of 32-bit ARGB; the byte order on the wire is reversed, so it
/// maps to BGRA.
pub const FOURCC_ARGB8888: u32 = 0x34325241;

/// Fourcc code of 32-bit ABGR; maps to RGBA.
pub const FOURCC_ABGR8888: u32 = 0x34324241;

/// Fourcc code of 32-bit XRGB; maps to BGRx.
pub const FOURCC_XRGB8888: u32 = 0x34325258;

/// Fourcc code of 32-bit XBGR; maps to RGBx.
pub const FOURCC_XBGR8888: u32 = 0x34324258;

/// Whether `format` is a pixel format of the supported vocabulary.
pub open spec fn video_format_supported(format: u32) -> bool {
    format == VIDEO_FORMAT_BGRA || format == VIDEO_FORMAT_RGBA || format == VIDEO_FORMAT_BGRX
        || format == VIDEO_FORMAT_RGBX
}

/// The pixel format a fourcc code stands for, or `None` when the vocabulary
/// cannot express it.
pub open spec fn spec_fourcc_to_video_format(fourcc: u32) -> Option<u32> {
    if fourcc == FOURCC_ARGB8888 {
        Some(VIDEO_FORMAT_BGRA)
    } else if fourcc == FOURCC_ABGR8888 {
        Some(VIDEO_FORMAT_RGBA)
    } else if fourcc == FOURCC_XRGB8888 {
        Some(VIDEO_FORMAT_BGRX)
    } else if fourcc == FOURCC_XBGR8888 {
        Some(VIDEO_FORMAT_RGBX)
    } else {
        None
    }
}

/// Maps a fourcc code to the pixel format identifier the wire vocabulary uses
/// for it.
pub fn fourcc_to_video_format(fourcc: u32) -> (r: Option<u32>)
    ensures
        r == spec_fourcc_to_video_format(fourcc),
{
    match fourcc {
        FOURCC_ARGB8888 => Some(VIDEO_FORMAT_BGRA),
        FOURCC_ABGR8888 => Some(VIDEO_FORMAT_RGBA),
        FOURCC_XRGB8888 => Some(VIDEO_FORMAT_BGRX),
        FOURCC_XBGR8888 => Some(VIDEO_FORMAT_RGBX),
        _ => None,
    }
}

} // verus!
