//! Raw audio: its sample format, rate and channels, and how they stand as
//! the properties of a format object.

use vstd::prelude::*;
use vstd::string::StringExecFns;

use crate::pod::model::{Fixed, Kind, PropertyView, ValueView};
use crate::pod::value::{Property, Value, ValueArray};
use crate::pod::wire::{i32_from_bits, spec_i32_from_bits};
use crate::utils::names::{debug_name, spec_debug_name};
use crate::utils::Id;

verus! {

/// The most channels that raw audio can have.
pub const MAX_CHANNELS: usize = 64;

/// The number of the format of which nothing is known.
pub const SPA_AUDIO_FORMAT_UNKNOWN: u32 = 0;

/// The number of the format of encoded audio.
pub const SPA_AUDIO_FORMAT_ENCODED: u32 = 1;

/// The formats with interleaved samples come after this number.
pub const SPA_AUDIO_FORMAT_START_INTERLEAVED: u32 = 0x100;

/// The formats with planar samples come after this number.
pub const SPA_AUDIO_FORMAT_START_PLANAR: u32 = 0x200;

/// Other formats come after this number.
pub const SPA_AUDIO_FORMAT_START_OTHER: u32 = 0x400;

/// The position array explicitly contains unpositioned channels.
pub const SPA_AUDIO_FLAG_UNPOSITIONED: u32 = 1;

/// Key of the property that holds the media type of a format.
pub const SPA_FORMAT_MEDIA_TYPE: u32 = 1;

/// Key of the property that holds the media subtype of a format.
pub const SPA_FORMAT_MEDIA_SUBTYPE: u32 = 2;

/// Key of the property that holds the sample format of audio.
pub const SPA_FORMAT_AUDIO_FORMAT: u32 = 0x10001;

/// Key of the property that holds the sample rate of audio.
pub const SPA_FORMAT_AUDIO_RATE: u32 = 0x10003;

/// Key of the property that holds the number of channels of audio.
pub const SPA_FORMAT_AUDIO_CHANNELS: u32 = 0x10004;

/// Key of the property that holds the positions of the channels of audio.
pub const SPA_FORMAT_AUDIO_POSITION: u32 = 0x10005;

/// The media type of audio.
pub const SPA_MEDIA_TYPE_AUDIO: u32 = 1;

/// The media subtype of raw samples.
pub const SPA_MEDIA_SUBTYPE_RAW: u32 = 1;

/// A sample format, by its number.
#[derive(Debug, PartialEq, Eq, Clone, Copy, Structural)]
pub struct AudioFormat(pub u32);

impl AudioFormat {
    /// Whether the samples of all channels stand one after the other.
    pub fn is_interleaved(&self) -> (r: bool)
        ensures
            r <==> SPA_AUDIO_FORMAT_START_INTERLEAVED < self.0 < SPA_AUDIO_FORMAT_START_PLANAR,
    {
        SPA_AUDIO_FORMAT_START_INTERLEAVED < self.0 && self.0 < SPA_AUDIO_FORMAT_START_PLANAR
    }

    /// Whether the samples of each channel stand by themselves.
    pub fn is_planar(&self) -> (r: bool)
        ensures
            r <==> SPA_AUDIO_FORMAT_START_PLANAR < self.0 < SPA_AUDIO_FORMAT_START_OTHER,
    {
        SPA_AUDIO_FORMAT_START_PLANAR < self.0 && self.0 < SPA_AUDIO_FORMAT_START_OTHER
    }

    /// Obtain an [`AudioFormat`] from its number.
    pub fn from_raw(raw: u32) -> (r: Self)
        ensures
            r.0 == raw,
    {
        Self(raw)
    }

    /// Get the number of this `AudioFormat`.
    pub fn as_raw(&self) -> (r: u32)
        ensures
            r == self.0,
    {
        self.0
    }

    /// The name under which this format is printed for debugging, given
    /// the short name that the registry has for it. The unknown format and
    /// the encoded one have their names without the registry.
    pub fn debug_name(&self, registered: Option<&str>) -> (r: String)
        ensures
            r@ == if self.0 == SPA_AUDIO_FORMAT_UNKNOWN {
                "AudioFormat::Unknown"@
            } else if self.0 == SPA_AUDIO_FORMAT_ENCODED {
                "AudioFormat::Encoded"@
            } else {
                spec_debug_name(
                    "AudioFormat"@,
                    "Unsupported"@,
                    match registered {
                        None => None,
                        Some(name) => Some(name@),
                    },
                )
            },
    {
        if self.0 == SPA_AUDIO_FORMAT_UNKNOWN {
            String::from_str("AudioFormat::Unknown")
        } else if self.0 == SPA_AUDIO_FORMAT_ENCODED {
            String::from_str("AudioFormat::Encoded")
        } else {
            debug_name("AudioFormat", "Unsupported", registered)
        }
    }
}

/// Flags of raw audio.
#[derive(Debug, PartialEq, Eq, Clone, Copy, Structural)]
pub struct AudioInfoRawFlags {
    bits: u32,
}

impl AudioInfoRawFlags {
    /// The bits of the set.
    pub closed spec fn spec_bits(self) -> u32 {
        self.bits
    }

    /// The set without any flag.
    pub fn empty() -> (r: Self)
        ensures
            r.bits() == 0,
    {
        AudioInfoRawFlags { bits: 0 }
    }

    /// The position array explicitly contains unpositioned channels.
    pub fn unpositioned() -> (r: Self)
        ensures
            r.bits() == SPA_AUDIO_FLAG_UNPOSITIONED,
    {
        AudioInfoRawFlags { bits: SPA_AUDIO_FLAG_UNPOSITIONED }
    }

    /// The bits of the set.
    #[verifier::when_used_as_spec(spec_bits)]
    pub fn bits(self) -> (r: u32)
        ensures
            r == self.bits(),
    {
        self.bits
    }

    /// The set with exactly the given bits, known or not.
    pub fn from_bits_retain(bits: u32) -> (r: Self)
        ensures
            r.bits() == bits,
    {
        AudioInfoRawFlags { bits }
    }

    /// Whether every flag of `other` is in `self`.
    pub fn contains(self, other: Self) -> (r: bool)
        ensures
            r <==> self.bits() & other.bits() == other.bits(),
    {
        self.bits & other.bits == other.bits
    }
}

/// What is known of raw audio.
#[derive(Debug, PartialEq, Eq, Clone, Copy)]
pub struct AudioInfoRaw {
    format: AudioFormat,
    flags: AudioInfoRawFlags,
    rate: u32,
    channels: u32,
    position: [u32; 64],
}

/// What is known of raw audio, for specifications.
pub struct AudioInfoRawView {
    /// The number of the sample format.
    pub format: u32,
    /// The bits of the flags.
    pub flags: u32,
    /// The number of samples a second, or zero.
    pub rate: u32,
    /// The number of channels, or zero.
    pub channels: u32,
    /// The positions of the channels.
    pub position: Seq<u32>,
}

impl AudioInfoRawView {
    /// Whether the channels have positions.
    pub open spec fn positioned(self) -> bool {
        self.flags & SPA_AUDIO_FLAG_UNPOSITIONED != SPA_AUDIO_FLAG_UNPOSITIONED
    }

    /// A property without flags that holds an id.
    pub open spec fn id_property(key: u32, id: u32) -> PropertyView {
        PropertyView { key, flags: 0, value: ValueView::Fixed(Fixed::Id(id)) }
    }

    /// A property without flags that holds an integer.
    pub open spec fn int_property(key: u32, value: i32) -> PropertyView {
        PropertyView { key, flags: 0, value: ValueView::Fixed(Fixed::Int(value)) }
    }

    /// The properties that say what is known: the media type and subtype,
    /// and then the format, the rate and the channels as far as they are
    /// known, and the positions if the channels have them.
    pub open spec fn properties(self) -> Seq<PropertyView> {
        let media = seq![
            Self::id_property(SPA_FORMAT_MEDIA_TYPE, SPA_MEDIA_TYPE_AUDIO),
            Self::id_property(SPA_FORMAT_MEDIA_SUBTYPE, SPA_MEDIA_SUBTYPE_RAW),
        ];
        let format = if self.format != SPA_AUDIO_FORMAT_UNKNOWN {
            seq![Self::id_property(SPA_FORMAT_AUDIO_FORMAT, self.format)]
        } else {
            Seq::empty()
        };
        let rate = if self.rate != 0 {
            seq![Self::int_property(SPA_FORMAT_AUDIO_RATE, spec_i32_from_bits(self.rate))]
        } else {
            Seq::empty()
        };
        let channels = if self.channels != 0 {
            seq![Self::int_property(SPA_FORMAT_AUDIO_CHANNELS, spec_i32_from_bits(self.channels))]
        } else {
            Seq::empty()
        };
        let position = if self.channels != 0 && self.positioned() {
            seq![
                PropertyView {
                    key: SPA_FORMAT_AUDIO_POSITION,
                    flags: 0,
                    value: ValueView::Array(
                        Kind::Id,
                        Seq::new(self.channels as nat, |i: int| Fixed::Id(self.position[i])),
                    ),
                },
            ]
        } else {
            Seq::empty()
        };
        media + format + rate + channels + position
    }
}

impl View for AudioInfoRaw {
    type V = AudioInfoRawView;

    closed spec fn view(&self) -> AudioInfoRawView {
        AudioInfoRawView {
            format: self.format.0,
            flags: self.flags.bits(),
            rate: self.rate,
            channels: self.channels,
            position: self.position@,
        }
    }
}

impl AudioInfoRaw {
    /// Raw audio of which nothing is known.
    pub fn new() -> (r: Self)
        ensures
            r@.format == SPA_AUDIO_FORMAT_UNKNOWN,
            r@.flags == SPA_AUDIO_FLAG_UNPOSITIONED,
            r@.rate == 0,
            r@.channels == 0,
            r@.position.len() == 64,
            forall|i: int| 0 <= i < 64 ==> r@.position[i] == 0,
    {
        AudioInfoRaw {
            format: AudioFormat(SPA_AUDIO_FORMAT_UNKNOWN),
            flags: AudioInfoRawFlags::unpositioned(),
            rate: 0,
            channels: 0,
            position: [0;64],
        }
    }

    /// Says which sample format the audio has.
    pub fn set_format(&mut self, format: AudioFormat)
        ensures
            final(self)@ == (AudioInfoRawView { format: format.0, ..old(self)@ }),
    {
        self.format = format;
    }

    /// The sample format.
    pub fn format(&self) -> (r: AudioFormat)
        ensures
            r.0 == self@.format,
    {
        self.format
    }

    /// Sets the flags.
    pub fn set_flags(&mut self, flags: AudioInfoRawFlags)
        ensures
            final(self)@ == (AudioInfoRawView { flags: flags.bits(), ..old(self)@ }),
    {
        self.flags = flags;
    }

    /// The flags.
    pub fn flags(&self) -> (r: AudioInfoRawFlags)
        ensures
            r.bits() == self@.flags,
    {
        self.flags
    }

    /// Says how many samples a second there are.
    pub fn set_rate(&mut self, rate: u32)
        ensures
            final(self)@ == (AudioInfoRawView { rate, ..old(self)@ }),
    {
        self.rate = rate;
    }

    /// The number of samples a second.
    pub fn rate(&self) -> (r: u32)
        ensures
            r == self@.rate,
    {
        self.rate
    }

    /// Says how many channels there are.
    pub fn set_channels(&mut self, channels: u32)
        ensures
            final(self)@ == (AudioInfoRawView { channels, ..old(self)@ }),
    {
        self.channels = channels;
    }

    /// The number of channels.
    pub fn channels(&self) -> (r: u32)
        ensures
            r == self@.channels,
    {
        self.channels
    }

    /// Sets the positions of the channels. The channels count as positioned
    /// from then on if the first position is not zero, and as unpositioned
    /// if it is.
    pub fn set_position(&mut self, position: [u32; 64])
        ensures
            final(self)@ == (AudioInfoRawView {
                position: position@,
                flags: if position@[0] == 0 {
                    old(self)@.flags | SPA_AUDIO_FLAG_UNPOSITIONED
                } else {
                    old(self)@.flags & !SPA_AUDIO_FLAG_UNPOSITIONED
                },
                ..old(self)@
            }),
    {
        self.position = position;
        if position[0] == 0 {
            self.flags = AudioInfoRawFlags::from_bits_retain(
                self.flags.bits() | SPA_AUDIO_FLAG_UNPOSITIONED,
            );
        } else {
            self.flags = AudioInfoRawFlags::from_bits_retain(
                self.flags.bits() & !SPA_AUDIO_FLAG_UNPOSITIONED,
            );
        }
    }

    /// The positions of the channels.
    pub fn position(&self) -> (r: [u32; 64])
        ensures
            r@ == self@.position,
    {
        self.position
    }

    /// The properties of a format object that say what is known of the
    /// audio. Channels that have positions are at most [`MAX_CHANNELS`].
    pub fn properties(&self) -> (r: Vec<Property>)
        requires
            self@.channels != 0 && self@.positioned() ==> self@.channels <= MAX_CHANNELS,
        ensures
            r@.len() == self@.properties().len(),
            forall|i: int| 0 <= i < r@.len() ==> (#[trigger] r@[i])@ == self@.properties()[i],
    {
        let mut props: Vec<Property> = Vec::new();
        let ghost mut expected: Seq<PropertyView> = Seq::empty();
        props.push(Property::new(SPA_FORMAT_MEDIA_TYPE, Value::Id(Id(SPA_MEDIA_TYPE_AUDIO))));
        props.push(Property::new(SPA_FORMAT_MEDIA_SUBTYPE, Value::Id(Id(SPA_MEDIA_SUBTYPE_RAW))));
        proof {
            expected = seq![
                AudioInfoRawView::id_property(SPA_FORMAT_MEDIA_TYPE, SPA_MEDIA_TYPE_AUDIO),
                AudioInfoRawView::id_property(SPA_FORMAT_MEDIA_SUBTYPE, SPA_MEDIA_SUBTYPE_RAW),
            ];
        }
        assert(props@.len() == expected.len());
        assert(forall|i: int| 0 <= i < props@.len() ==> (#[trigger] props@[i])@ == expected[i]);
        if self.format.0 != SPA_AUDIO_FORMAT_UNKNOWN {
            props.push(Property::new(SPA_FORMAT_AUDIO_FORMAT, Value::Id(Id(self.format.0))));
            proof {
                expected = expected.push(
                    AudioInfoRawView::id_property(SPA_FORMAT_AUDIO_FORMAT, self.format.0),
                );
            }
        }
        assert(props@.len() == expected.len());
        assert(forall|i: int| 0 <= i < props@.len() ==> (#[trigger] props@[i])@ == expected[i]);
        if self.rate != 0 {
            props.push(Property::new(SPA_FORMAT_AUDIO_RATE, Value::Int(i32_from_bits(self.rate))));
            proof {
                expected = expected.push(
                    AudioInfoRawView::int_property(
                        SPA_FORMAT_AUDIO_RATE,
                        spec_i32_from_bits(self.rate),
                    ),
                );
            }
        }
        assert(props@.len() == expected.len());
        assert(forall|i: int| 0 <= i < props@.len() ==> (#[trigger] props@[i])@ == expected[i]);
        if self.channels != 0 {
            props.push(
                Property::new(
                    SPA_FORMAT_AUDIO_CHANNELS,
                    Value::Int(i32_from_bits(self.channels)),
                ),
            );
            proof {
                expected = expected.push(
                    AudioInfoRawView::int_property(
                        SPA_FORMAT_AUDIO_CHANNELS,
                        spec_i32_from_bits(self.channels),
                    ),
                );
            }
            if !self.flags.contains(AudioInfoRawFlags::unpositioned()) {
                let mut array: Vec<Id> = Vec::new();
                let mut i: usize = 0;
                while i < self.channels as usize
                    invariant
                        i <= self.channels <= 64,
                        array@.len() == i,
                        forall|j: int| 0 <= j < i ==> array@[j] == Id(self.position@[j]),
                    decreases self.channels - i,
                {
                    array.push(Id(self.position[i]));
                    i += 1;
                }
                let value = Value::ValueArray(ValueArray::Id(array));
                proof {
                    let elements = Seq::new(
                        self@.channels as nat,
                        |i: int| Fixed::Id(self@.position[i]),
                    );
                    assert(crate::utils::spec_fixed_seq(array@) =~= elements);
                    expected = expected.push(
                        PropertyView {
                            key: SPA_FORMAT_AUDIO_POSITION,
                            flags: 0,
                            value: ValueView::Array(Kind::Id, elements),
                        },
                    );
                }
                props.push(Property::new(SPA_FORMAT_AUDIO_POSITION, value));
            }
        }
        assert(props@.len() == expected.len());
        assert(forall|i: int| 0 <= i < props@.len() ==> (#[trigger] props@[i])@ == expected[i]);
        assert(expected =~= self@.properties());
        props
    }
}

} // verus!
