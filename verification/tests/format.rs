use libspa::param::audio::{
    SPA_FORMAT_AUDIO_CHANNELS, SPA_FORMAT_AUDIO_FORMAT, SPA_FORMAT_MEDIA_SUBTYPE,
    SPA_FORMAT_MEDIA_TYPE, SPA_MEDIA_SUBTYPE_RAW,
};
use libspa::param::format::{
    FormatProperties, MediaSubtype, MediaType, SPA_FORMAT_VIDEO_FORMAT, SPA_MEDIA_SUBTYPE_CONTROL,
    SPA_MEDIA_SUBTYPE_H264, SPA_MEDIA_SUBTYPE_JPEG, SPA_MEDIA_SUBTYPE_MIDI, SPA_MEDIA_SUBTYPE_MP3,
    SPA_MEDIA_TYPE_APPLICATION, SPA_MEDIA_TYPE_UNKNOWN,
};
use libspa::param::audio::{AudioFormat, SPA_AUDIO_FORMAT_ENCODED, SPA_AUDIO_FORMAT_UNKNOWN};
use libspa::param::{ParamType, SPA_PARAM_ENUM_FORMAT, SPA_PARAM_FORMAT, SPA_PARAM_PROCESS_LATENCY};
use libspa::utils::names::{
    debug_name, replaced, type_words, SPA_TYPE_VENDOR_OTHER, SPA_TYPE_VENDOR_PIPEWIRE,
};
use libspa::utils::SpaTypes;
use libspa::param::format::format_words;

/// Which kinds of media a subtype belongs to, in the order audio, video,
/// image, binary, stream, application.
fn subtype_kinds(raw: u32) -> [bool; 6] {
    let subtype = MediaSubtype::from_raw(raw);
    [
        subtype.is_audio(),
        subtype.is_video(),
        subtype.is_image(),
        subtype.is_binary(),
        subtype.is_stream(),
        subtype.is_application(),
    ]
}

/// Which kinds of media a key belongs to, in the same order.
fn key_kinds(raw: u32) -> [bool; 6] {
    let key = FormatProperties::from_raw(raw);
    [
        key.is_audio(),
        key.is_video(),
        key.is_image(),
        key.is_binary(),
        key.is_stream(),
        key.is_application(),
    ]
}

const NO_KIND: [bool; 6] = [false; 6];
const AUDIO: [bool; 6] = [true, false, false, false, false, false];
const VIDEO: [bool; 6] = [false, true, false, false, false, false];
const IMAGE: [bool; 6] = [false, false, true, false, false, false];
const BINARY: [bool; 6] = [false, false, false, true, false, false];
const STREAM: [bool; 6] = [false, false, false, false, true, false];
const APPLICATION: [bool; 6] = [false, false, false, false, false, true];

#[test]
fn a_media_subtype_belongs_to_the_kind_in_whose_range_it_lies() {
    assert_eq!(subtype_kinds(0), NO_KIND);
    assert_eq!(subtype_kinds(SPA_MEDIA_SUBTYPE_RAW), NO_KIND);
    assert_eq!(subtype_kinds(0x10000), NO_KIND);
    assert_eq!(subtype_kinds(SPA_MEDIA_SUBTYPE_MP3), AUDIO);
    assert_eq!(subtype_kinds(0x1ffff), AUDIO);
    assert_eq!(subtype_kinds(0x20000), NO_KIND);
    assert_eq!(subtype_kinds(SPA_MEDIA_SUBTYPE_H264), VIDEO);
    assert_eq!(subtype_kinds(0x2ffff), VIDEO);
    assert_eq!(subtype_kinds(0x30000), NO_KIND);
    assert_eq!(subtype_kinds(SPA_MEDIA_SUBTYPE_JPEG), IMAGE);
    assert_eq!(subtype_kinds(0x3ffff), IMAGE);
    assert_eq!(subtype_kinds(0x40000), BINARY);
    assert_eq!(subtype_kinds(0x4ffff), BINARY);
    assert_eq!(subtype_kinds(0x50000), NO_KIND);
    assert_eq!(subtype_kinds(SPA_MEDIA_SUBTYPE_MIDI), STREAM);
    assert_eq!(subtype_kinds(0x5ffff), STREAM);
    assert_eq!(subtype_kinds(0x60000), NO_KIND);
    assert_eq!(subtype_kinds(SPA_MEDIA_SUBTYPE_CONTROL), APPLICATION);
    assert_eq!(subtype_kinds(u32::MAX - 1), APPLICATION);
    assert_eq!(subtype_kinds(u32::MAX), NO_KIND);
}

#[test]
fn a_format_key_belongs_to_the_kind_in_whose_range_it_lies() {
    assert_eq!(key_kinds(0), NO_KIND);
    assert_eq!(key_kinds(SPA_FORMAT_MEDIA_TYPE), NO_KIND);
    assert_eq!(key_kinds(SPA_FORMAT_MEDIA_SUBTYPE), NO_KIND);
    assert_eq!(key_kinds(0x10000), NO_KIND);
    assert_eq!(key_kinds(SPA_FORMAT_AUDIO_FORMAT), AUDIO);
    assert_eq!(key_kinds(SPA_FORMAT_AUDIO_CHANNELS), AUDIO);
    assert_eq!(key_kinds(0x1ffff), AUDIO);
    assert_eq!(key_kinds(0x20000), NO_KIND);
    assert_eq!(key_kinds(SPA_FORMAT_VIDEO_FORMAT), VIDEO);
    assert_eq!(key_kinds(0x2ffff), VIDEO);
    assert_eq!(key_kinds(0x30000), IMAGE);
    assert_eq!(key_kinds(0x3ffff), IMAGE);
    assert_eq!(key_kinds(0x40000), BINARY);
    assert_eq!(key_kinds(0x4ffff), BINARY);
    assert_eq!(key_kinds(0x50000), STREAM);
    assert_eq!(key_kinds(0x5ffff), STREAM);
    assert_eq!(key_kinds(0x60000), APPLICATION);
    assert_eq!(key_kinds(u32::MAX - 1), APPLICATION);
    assert_eq!(key_kinds(u32::MAX), NO_KIND);
}

#[test]
fn media_and_parameter_types_keep_their_numbers() {
    assert_eq!(MediaType::from_raw(SPA_MEDIA_TYPE_UNKNOWN).as_raw(), 0);
    assert_eq!(MediaType::from_raw(SPA_MEDIA_TYPE_APPLICATION).as_raw(), 6);
    assert_eq!(MediaType::from_raw(77), MediaType(77));
    assert_eq!(MediaSubtype::from_raw(SPA_MEDIA_SUBTYPE_RAW).as_raw(), 1);
    assert_eq!(FormatProperties::from_raw(SPA_FORMAT_AUDIO_FORMAT).as_raw(), 0x10001);
    assert_eq!(ParamType::from_raw(SPA_PARAM_ENUM_FORMAT).as_raw(), 3);
    assert_eq!(ParamType::from_raw(SPA_PARAM_FORMAT).as_raw(), 4);
    assert_eq!(ParamType::from_raw(SPA_PARAM_PROCESS_LATENCY), ParamType(16));
}

#[test]
fn mod_debug_format() {
    // types, by the names that the registry has for them
    assert_eq!("SpaTypes::None", SpaTypes(1).debug_name(Some("Spa:None")));
    assert_eq!(
        "SpaTypes::PointerBuffer",
        SpaTypes(0x10001).debug_name(Some("Spa:Pointer:Buffer"))
    );
    assert_eq!(
        "SpaTypes::EventDevice",
        SpaTypes(0x20001).debug_name(Some("Spa:Pod:Object:Event:Device"))
    );
    assert_eq!(
        "SpaTypes::CommandDevice",
        SpaTypes(0x30001).debug_name(Some("Spa:Pod:Object:Command:Device"))
    );
    assert_eq!(
        "SpaTypes::ObjectParamPropInfo",
        SpaTypes(0x40001).debug_name(Some("Spa:Pod:Object:Param:PropInfo"))
    );
    assert_eq!(
        "SpaTypes::ObjectProfiler",
        SpaTypes(0x4000a).debug_name(Some("Spa:Pod:Object:Profiler"))
    );
    assert_eq!(
        "SpaTypes::ObjectParamProcessLatency",
        SpaTypes(0x4000c).debug_name(Some("Spa:Pod:Object:Param:ProcessLatency"))
    );
    assert_eq!(
        "SpaTypes::VendorPipeWire",
        SpaTypes(SPA_TYPE_VENDOR_PIPEWIRE).debug_name(None)
    );
    assert_eq!(
        "SpaTypes::VendorOther",
        SpaTypes(SPA_TYPE_VENDOR_OTHER).debug_name(None)
    );

    // media types, subtypes and format keys
    assert_eq!("MediaType::Audio", MediaType(1).debug_name(Some("audio")));
    assert_eq!(
        "MediaSubtype::Raw",
        MediaSubtype(SPA_MEDIA_SUBTYPE_RAW).debug_name(Some("raw"))
    );
    assert_eq!(
        "FormatProperties::VideoTransferFunction",
        FormatProperties(0x2000e)
            .debug_name(Some("Spa:Pod:Object:Param:Format:Video:transferFunction"))
    );

    // audio formats
    assert_eq!(
        "AudioFormat::Unknown",
        AudioFormat(SPA_AUDIO_FORMAT_UNKNOWN).debug_name(None)
    );
    assert_eq!(
        "AudioFormat::S24_32LE",
        AudioFormat(0x10b).debug_name(Some("S24_32LE"))
    );
}

#[test]
fn what_the_registry_does_not_know_is_printed_as_unknown() {
    assert_eq!("Unknown", SpaTypes(0x999).debug_name(None));
    assert_eq!("Unsupported media type", MediaType(99).debug_name(None));
    assert_eq!("Unsupported media subtype", MediaSubtype(99).debug_name(None));
    assert_eq!("Unsupported format", FormatProperties(99).debug_name(None));
    assert_eq!("Unsupported", AudioFormat(99).debug_name(None));
    assert_eq!("Unknown", ParamType(99).debug_name(None));
    assert_eq!("ParamType::Format", ParamType(SPA_PARAM_FORMAT).debug_name(Some("Format")));
    // the two formats that have their names without the registry keep them
    assert_eq!(
        "AudioFormat::Unknown",
        AudioFormat(SPA_AUDIO_FORMAT_UNKNOWN).debug_name(Some("other"))
    );
    assert_eq!(
        "AudioFormat::Encoded",
        AudioFormat(SPA_AUDIO_FORMAT_ENCODED).debug_name(None)
    );
    // and so do the two vendor types
    assert_eq!(
        "SpaTypes::VendorOther",
        SpaTypes(SPA_TYPE_VENDOR_OTHER).debug_name(Some("Spa:None"))
    );
}

#[test]
fn a_name_is_printed_behind_the_name_of_its_type() {
    assert_eq!(debug_name("Owner", "nothing", Some("Name")), "Owner::Name");
    assert_eq!(debug_name("Owner", "nothing", Some("")), "Owner::");
    assert_eq!(debug_name("Owner", "nothing", None), "nothing");
}

#[test]
fn the_names_of_the_registry_are_taken_apart_into_words() {
    assert_eq!(type_words("Spa:Pointer:Buffer"), "Pointer Buffer");
    assert_eq!(type_words("Spa:Pod:Object:Event:Node"), "Event Node");
    assert_eq!(type_words("Spa:Pod:Object:Command:Node"), "Command Node");
    assert_eq!(type_words("Spa:Pod:Object:Param:Props"), "Object Param Props");
    assert_eq!(type_words("Spa:Pod:Struct"), "Struct");
    assert_eq!(type_words("Spa:Int"), "Int");
    assert_eq!(type_words("Spa:Pod"), "Pod");
    assert_eq!(type_words("plain"), "plain");
    assert_eq!(
        format_words("Spa:Pod:Object:Param:Format:Audio:rate"),
        "Audio rate"
    );
    assert_eq!(format_words("Spa:Other:thing"), "Spa Other thing");
}

#[test]
fn occurrences_are_replaced_from_the_left() {
    assert_eq!(replaced("a:b:c", ":", " "), "a b c");
    assert_eq!(replaced("a:b:c", ":", ""), "abc");
    assert_eq!(replaced("a:b:c", ":", "::"), "a::b::c");
    assert_eq!(replaced(":", ":", "colon"), "colon");
    assert_eq!(replaced("", ":", "colon"), "");
    assert_eq!(replaced("abc", "abcd", "x"), "abc");
    assert_eq!(replaced("abc", "abc", "x"), "x");
    // no occurrence begins inside another
    assert_eq!(replaced("aaa", "aa", "b"), "ba");
    assert_eq!(replaced("aaaa", "aa", "b"), "bb");
    assert_eq!(replaced("ababa", "aba", "x"), "xba");
    // what was put in is not looked at again
    assert_eq!(replaced("ab", "b", "bb"), "abb");
    assert_eq!(replaced("xay", "a", "aa"), "xaay");
    // characters, not bytes
    assert_eq!(replaced("grün→blau", "→", "->"), "grün->blau");
    assert_eq!(replaced("ééé", "é", "e"), "eee");
    // nothing is replaced where there is nothing to look for
    assert_eq!(replaced("abc", "", "x"), "abc");
    // the same as the standard library has it, where the pattern is not empty
    for (text, from, to) in [
        ("Spa:Pod:Object:Param:Props", "Spa:Pod:Object", "Object"),
        ("aaaaa", "aa", "ab"),
        ("abcabcabc", "bca", ""),
        ("::::", "::", ":"),
    ] {
        assert_eq!(replaced(text, from, to), text.replace(from, to));
    }
}
