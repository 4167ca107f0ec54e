//! Media types, media subtypes and the keys of format properties, by their
//! numbers, and the ranges of numbers that belong to each kind of media.

use vstd::prelude::*;

use super::audio::SPA_FORMAT_AUDIO_FORMAT;
use crate::utils::names::{debug_name, pascal, replaced, spec_debug_name, spec_pascal, spec_replaced};

verus! {

/// The media type of which nothing is known.
pub const SPA_MEDIA_TYPE_UNKNOWN: u32 = 0;

/// The media type of video.
pub const SPA_MEDIA_TYPE_VIDEO: u32 = 2;

/// The media type of images.
pub const SPA_MEDIA_TYPE_IMAGE: u32 = 3;

/// The media type of binary data.
pub const SPA_MEDIA_TYPE_BINARY: u32 = 4;

/// The media type of streams.
pub const SPA_MEDIA_TYPE_STREAM: u32 = 5;

/// The media type of application data.
pub const SPA_MEDIA_TYPE_APPLICATION: u32 = 6;

/// The first of the audio subtypes.
pub const SPA_MEDIA_SUBTYPE_MP3: u32 = 0x10001;

/// The video subtypes come after this number.
pub const SPA_MEDIA_SUBTYPE_START_VIDEO: u32 = 0x20000;

/// The first of the video subtypes.
pub const SPA_MEDIA_SUBTYPE_H264: u32 = 0x20001;

/// The image subtypes come after this number.
pub const SPA_MEDIA_SUBTYPE_START_IMAGE: u32 = 0x30000;

/// The first of the image subtypes.
pub const SPA_MEDIA_SUBTYPE_JPEG: u32 = 0x30001;

/// The binary subtypes come after this number.
pub const SPA_MEDIA_SUBTYPE_START_BINARY: u32 = 0x40000;

/// The stream subtypes come after this number.
pub const SPA_MEDIA_SUBTYPE_START_STREAM: u32 = 0x50000;

/// The first of the stream subtypes.
pub const SPA_MEDIA_SUBTYPE_MIDI: u32 = 0x50001;

/// The application subtypes come after this number.
pub const SPA_MEDIA_SUBTYPE_START_APPLICATION: u32 = 0x60000;

/// The first of the application subtypes.
pub const SPA_MEDIA_SUBTYPE_CONTROL: u32 = 0x60001;

/// The keys of the video properties come after this number.
pub const SPA_FORMAT_START_VIDEO: u32 = 0x20000;

/// Key of the property that holds the pixel format of video: the first of
/// the keys of the video properties.
pub const SPA_FORMAT_VIDEO_FORMAT: u32 = 0x20001;

/// The keys of the image properties come after this number.
pub const SPA_FORMAT_START_IMAGE: u32 = 0x30000;

/// The keys of the binary properties come after this number.
pub const SPA_FORMAT_START_BINARY: u32 = 0x40000;

/// The keys of the stream properties come after this number.
pub const SPA_FORMAT_START_STREAM: u32 = 0x50000;

/// The keys of the application properties come after this number.
pub const SPA_FORMAT_START_APPLICATION: u32 = 0x60000;

/// The name of a key of format properties in the registry, without what
/// these names have in common, as words with a space between them.
pub open spec fn spec_format_words(name: Seq<char>) -> Seq<char> {
    spec_replaced(spec_replaced(name, "Spa:Pod:Object:Param:Format:"@, ""@), ":"@, " "@)
}

/// The name of a key of format properties in the registry as words; see
/// [`spec_format_words`].
pub fn format_words(name: &str) -> (r: String)
    ensures
        r@ == spec_format_words(name@),
{
    let keys = replaced(name, "Spa:Pod:Object:Param:Format:", "");
    replaced(keys.as_str(), ":", " ")
}

/// Different media types, by their numbers.
#[derive(Debug, PartialEq, Eq, Clone, Copy, Structural)]
pub struct MediaType(pub u32);

impl MediaType {
    /// Obtain a [`MediaType`] from its number.
    pub fn from_raw(raw: u32) -> (r: Self)
        ensures
            r.0 == raw,
    {
        Self(raw)
    }

    /// Get the number of this `MediaType`.
    pub fn as_raw(&self) -> (r: u32)
        ensures
            r == self.0,
    {
        self.0
    }

    /// The name under which this media type is printed for debugging,
    /// given the short name that the registry has for it: that name in
    /// Pascal case.
    pub fn debug_name(&self, registered: Option<&str>) -> (r: String)
        ensures
            r@ == spec_debug_name(
                "MediaType"@,
                "Unsupported media type"@,
                match registered {
                    None => None,
                    Some(name) => Some(spec_pascal(name@)),
                },
            ),
    {
        match registered {
            None => debug_name("MediaType", "Unsupported media type", None),
            Some(name) => {
                let converted = pascal(name);
                debug_name("MediaType", "Unsupported media type", Some(converted.as_str()))
            },
        }
    }
}

/// Different media subtypes, by their numbers.
#[derive(Debug, PartialEq, Eq, Clone, Copy, Structural)]
pub struct MediaSubtype(pub u32);

impl MediaSubtype {
    /// Whether this is a subtype of audio other than raw samples: one from
    /// the first audio subtype up to where the video subtypes begin.
    pub fn is_audio(&self) -> (r: bool)
        ensures
            r <==> SPA_MEDIA_SUBTYPE_MP3 <= self.0 < SPA_MEDIA_SUBTYPE_START_VIDEO,
    {
        SPA_MEDIA_SUBTYPE_MP3 <= self.0 && self.0 < SPA_MEDIA_SUBTYPE_START_VIDEO
    }

    /// Whether this is a subtype of video: one from the first video subtype
    /// up to where the image subtypes begin.
    pub fn is_video(&self) -> (r: bool)
        ensures
            r <==> SPA_MEDIA_SUBTYPE_H264 <= self.0 < SPA_MEDIA_SUBTYPE_START_IMAGE,
    {
        SPA_MEDIA_SUBTYPE_H264 <= self.0 && self.0 < SPA_MEDIA_SUBTYPE_START_IMAGE
    }

    /// Whether this is a subtype of images: one from the first image subtype
    /// up to where the binary subtypes begin.
    pub fn is_image(&self) -> (r: bool)
        ensures
            r <==> SPA_MEDIA_SUBTYPE_JPEG <= self.0 < SPA_MEDIA_SUBTYPE_START_BINARY,
    {
        SPA_MEDIA_SUBTYPE_JPEG <= self.0 && self.0 < SPA_MEDIA_SUBTYPE_START_BINARY
    }

    /// Whether this is a subtype of binary data: one from where the binary
    /// subtypes begin up to where the stream subtypes begin.
    pub fn is_binary(&self) -> (r: bool)
        ensures
            r <==> SPA_MEDIA_SUBTYPE_START_BINARY <= self.0 < SPA_MEDIA_SUBTYPE_START_STREAM,
    {
        SPA_MEDIA_SUBTYPE_START_BINARY <= self.0 && self.0 < SPA_MEDIA_SUBTYPE_START_STREAM
    }

    /// Whether this is a subtype of streams: one from the first stream
    /// subtype up to where the application subtypes begin.
    pub fn is_stream(&self) -> (r: bool)
        ensures
            r <==> SPA_MEDIA_SUBTYPE_MIDI <= self.0 < SPA_MEDIA_SUBTYPE_START_APPLICATION,
    {
        SPA_MEDIA_SUBTYPE_MIDI <= self.0 && self.0 < SPA_MEDIA_SUBTYPE_START_APPLICATION
    }

    /// Whether this is a subtype of application data: one from the first
    /// application subtype up to the largest number, which is not one.
    pub fn is_application(&self) -> (r: bool)
        ensures
            r <==> SPA_MEDIA_SUBTYPE_CONTROL <= self.0 < u32::MAX,
    {
        SPA_MEDIA_SUBTYPE_CONTROL <= self.0 && self.0 < u32::MAX
    }

    /// Obtain a [`MediaSubtype`] from its number.
    pub fn from_raw(raw: u32) -> (r: Self)
        ensures
            r.0 == raw,
    {
        Self(raw)
    }

    /// Get the number of this `MediaSubtype`.
    pub fn as_raw(&self) -> (r: u32)
        ensures
            r == self.0,
    {
        self.0
    }

    /// The name under which this media subtype is printed for debugging,
    /// given the short name that the registry has for it: that name in
    /// Pascal case.
    pub fn debug_name(&self, registered: Option<&str>) -> (r: String)
        ensures
            r@ == spec_debug_name(
                "MediaSubtype"@,
                "Unsupported media subtype"@,
                match registered {
                    None => None,
                    Some(name) => Some(spec_pascal(name@)),
                },
            ),
    {
        match registered {
            None => debug_name("MediaSubtype", "Unsupported media subtype", None),
            Some(name) => {
                let converted = pascal(name);
                debug_name("MediaSubtype", "Unsupported media subtype", Some(converted.as_str()))
            },
        }
    }
}

/// The keys of the properties of a format, by their numbers.
#[derive(Debug, PartialEq, Eq, Clone, Copy, Structural)]
pub struct FormatProperties(pub u32);

impl FormatProperties {
    /// Whether this is the key of an audio property: one from the first
    /// audio key up to where the video keys begin.
    pub fn is_audio(&self) -> (r: bool)
        ensures
            r <==> SPA_FORMAT_AUDIO_FORMAT <= self.0 < SPA_FORMAT_START_VIDEO,
    {
        SPA_FORMAT_AUDIO_FORMAT <= self.0 && self.0 < SPA_FORMAT_START_VIDEO
    }

    /// Whether this is the key of a video property: one from the first
    /// video key up to where the image keys begin.
    pub fn is_video(&self) -> (r: bool)
        ensures
            r <==> SPA_FORMAT_VIDEO_FORMAT <= self.0 < SPA_FORMAT_START_IMAGE,
    {
        SPA_FORMAT_VIDEO_FORMAT <= self.0 && self.0 < SPA_FORMAT_START_IMAGE
    }

    /// Whether this is the key of an image property: one from where the
    /// image keys begin up to where the binary keys begin.
    pub fn is_image(&self) -> (r: bool)
        ensures
            r <==> SPA_FORMAT_START_IMAGE <= self.0 < SPA_FORMAT_START_BINARY,
    {
        SPA_FORMAT_START_IMAGE <= self.0 && self.0 < SPA_FORMAT_START_BINARY
    }

    /// Whether this is the key of a binary property: one from where the
    /// binary keys begin up to where the stream keys begin.
    pub fn is_binary(&self) -> (r: bool)
        ensures
            r <==> SPA_FORMAT_START_BINARY <= self.0 < SPA_FORMAT_START_STREAM,
    {
        SPA_FORMAT_START_BINARY <= self.0 && self.0 < SPA_FORMAT_START_STREAM
    }

    /// Whether this is the key of a stream property: one from where the
    /// stream keys begin up to where the application keys begin.
    pub fn is_stream(&self) -> (r: bool)
        ensures
            r <==> SPA_FORMAT_START_STREAM <= self.0 < SPA_FORMAT_START_APPLICATION,
    {
        SPA_FORMAT_START_STREAM <= self.0 && self.0 < SPA_FORMAT_START_APPLICATION
    }

    /// Whether this is the key of an application property: one from where
    /// the application keys begin up to the largest number, which is not
    /// one.
    pub fn is_application(&self) -> (r: bool)
        ensures
            r <==> SPA_FORMAT_START_APPLICATION <= self.0 < u32::MAX,
    {
        SPA_FORMAT_START_APPLICATION <= self.0 && self.0 < u32::MAX
    }

    /// Obtain a [`FormatProperties`] from its number.
    pub fn from_raw(raw: u32) -> (r: Self)
        ensures
            r.0 == raw,
    {
        Self(raw)
    }

    /// Get the number of this `FormatProperties`.
    pub fn as_raw(&self) -> (r: u32)
        ensures
            r == self.0,
    {
        self.0
    }

    /// The name under which this key is printed for debugging, given the
    /// name that the registry has for it: the words of that name, in
    /// Pascal case.
    pub fn debug_name(&self, registered: Option<&str>) -> (r: String)
        ensures
            r@ == spec_debug_name(
                "FormatProperties"@,
                "Unsupported format"@,
                match registered {
                    None => None,
                    Some(name) => Some(spec_pascal(spec_format_words(name@))),
                },
            ),
    {
        match registered {
            None => debug_name("FormatProperties", "Unsupported format", None),
            Some(name) => {
                let words = format_words(name);
                let converted = pascal(words.as_str());
                debug_name("FormatProperties", "Unsupported format", Some(converted.as_str()))
            },
        }
    }
}

} // verus!
