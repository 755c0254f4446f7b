//! The commands that start and stop a sound.
//!
//! Both name an entity and one of its eight channels in one 16-bit word:
//! the channel in the low three bits, the entity above them. The word is
//! read as a signed number and shifted down, so that an entity from 4096 on
//! comes out with its three high bits set.

use crate::cmd::Cmd;
use crate::error::{NetError, NetFault};
use crate::flags::{
    announces_attenuation, announces_volume, lemma_sound_flags, sound_flags_byte, SoundFlags,
    SOUND_ALL,
};
use crate::quant::{Coord, CoordVector};
use crate::text::{concat, fmt_binary, radix_digits};
use crate::wire::{
    le_bytes16, le_u16, lemma_bytes16_round_trip, lemma_low_bytes16_wrap, put_i16, signed16,
    truncated, Reader,
};
use vstd::prelude::*;

verus! {

/// The word that names an entity and a channel: thirteen bits of the entity
/// above three bits of the channel.
pub open spec fn entity_channel(entity_id: u16, channel: u8) -> int {
    (entity_id % 8192) * 8 + channel % 8
}

/// The entity that a word names: its thirteen high bits, the highest of
/// them repeated upwards.
pub open spec fn entity_of(word: int) -> u16 {
    if word / 8 >= 4096 {
        (word / 8 + 57344) as u16
    } else {
        (word / 8) as u16
    }
}

/// The channel that a word names: its three low bits.
pub open spec fn channel_of(word: int) -> u8 {
    (word % 8) as u8
}

/// An entity and a channel that a word can name and give back.
pub open spec fn packable(entity_id: u16, channel: u8) -> bool {
    channel < 8 && (entity_id < 4096 || entity_id >= 61440)
}

/// The coordinate whose two bytes start `s`.
pub open spec fn coord_at(s: Seq<u8>) -> Coord {
    Coord { eighths: signed16(le_u16(s)) as i16 }
}

/// The error for a flags byte with a bit that is no flag.
pub open spec fn invalid_sound_flags(bits: u8) -> NetFault {
    NetFault::Other("Invalid value for SoundFlags: "@ + radix_digits(bits as nat, 2))
}

/// A word gives back the entity and the channel it was made of.
pub proof fn lemma_entity_channel(entity_id: u16, channel: u8)
    requires
        packable(entity_id, channel),
    ensures
        0 <= entity_channel(entity_id, channel) < 65536,
        entity_of(entity_channel(entity_id, channel)) == entity_id,
        channel_of(entity_channel(entity_id, channel)) == channel,
{
}

/// Reads a coordinate: two bytes, a signed count of eighths of a unit.
pub fn read_coord(reader: &mut Reader) -> (r: Result<Coord, NetError>)
    ensures
        old(reader).remaining().len() >= 2 ==> (r matches Ok(c) && c == coord_at(
            old(reader).remaining(),
        ) && final(reader).remaining() == old(reader).remaining().skip(2)),
        old(reader).remaining().len() < 2 ==> (r matches Err(e) && e@ == truncated()
            && final(reader).remaining() == old(reader).remaining()),
{
    let eighths: i16 = reader.read_i16()?;
    Ok(Coord { eighths })
}

/// Appends a coordinate: two bytes, a signed count of eighths of a unit.
pub fn write_coord(writer: &mut Vec<u8>, coord: Coord)
    ensures
        final(writer)@ == old(writer)@ + le_bytes16(coord.eighths as int),
{
    put_i16(writer, coord.eighths);
}

/// Reads the word that names an entity and a channel.
fn read_entity_channel(reader: &mut Reader) -> (r: Result<(u16, u8), NetError>)
    ensures
        old(reader).remaining().len() >= 2 ==> (r matches Ok(x) && x.0 == entity_of(
            le_u16(old(reader).remaining()),
        ) && x.1 == channel_of(le_u16(old(reader).remaining())) && final(reader).remaining()
            == old(reader).remaining().skip(2)),
        old(reader).remaining().len() < 2 ==> (r matches Err(e) && e@ == truncated()
            && final(reader).remaining() == old(reader).remaining()),
{
    let signed: i16 = reader.read_i16()?;
    let word: i32 = if signed < 0 {
        signed as i32 + 65536
    } else {
        signed as i32
    };
    let high: i32 = word / 8;
    let entity_id: u16 = if high >= 4096 {
        (high + 57344) as u16
    } else {
        high as u16
    };
    let channel: u8 = (word % 8) as u8;
    Ok((entity_id, channel))
}

/// Appends the word that names an entity and a channel.
fn write_entity_channel(writer: &mut Vec<u8>, entity_id: u16, channel: u8)
    ensures
        final(writer)@ == old(writer)@ + le_bytes16(entity_channel(entity_id, channel)),
{
    let word: i32 = (entity_id % 8192) as i32 * 8 + (channel % 8) as i32;
    let signed: i16 = if word < 32768 {
        word as i16
    } else {
        (word - 65536) as i16
    };
    proof {
        lemma_low_bytes16_wrap(word - 65536);
    }
    put_i16(writer, signed);
}

/// A sound starts.
///
/// The volume and the attenuation are optional: a flags byte at the start
/// of the content says which of them follow.
#[derive(Clone, Copy, Debug, PartialEq, Eq, Structural)]
pub struct ServerCmdSound {
    pub volume: Option<u8>,
    pub attenuation: Option<u8>,
    pub entity_id: u16,
    pub channel: u8,
    pub sound_id: u8,
    pub position: CoordVector,
}

impl View for ServerCmdSound {
    type V = ServerCmdSound;

    open spec fn view(&self) -> ServerCmdSound {
        *self
    }
}

/// The bytes of an optional field: the byte if it is there, nothing if not.
pub open spec fn optional_byte(field: Option<u8>) -> Seq<u8> {
    match field {
        Some(b) => seq![b],
        None => Seq::empty(),
    }
}

/// Reads a field of one byte that is there only if `present` says so.
pub fn read_optional_u8(reader: &mut Reader, present: bool) -> (r: Result<Option<u8>, NetError>)
    ensures
        !present ==> (r matches Ok(None) && final(reader).remaining() == old(reader).remaining()),
        present && old(reader).remaining().len() >= 1 ==> (r matches Ok(Some(b)) && b == old(
            reader,
        ).remaining()[0] && final(reader).remaining() == old(reader).remaining().skip(1)),
        present && old(reader).remaining().len() < 1 ==> (r matches Err(e) && e@ == truncated()
            && final(reader).remaining() == old(reader).remaining()),
{
    if present {
        let b: u8 = reader.read_u8()?;
        Ok(Some(b))
    } else {
        Ok(None)
    }
}

/// Appends a field of one byte if it is there.
pub fn write_optional_u8(writer: &mut Vec<u8>, field: Option<u8>)
    ensures
        final(writer)@ == old(writer)@ + optional_byte(field),
{
    match field {
        Some(b) => {
            writer.push(b);
            proof {
                assert(writer@ =~= old(writer)@ + optional_byte(field));
            }
        },
        None => {
            proof {
                assert(writer@ =~= old(writer)@ + optional_byte(field));
            }
        },
    }
}

impl ServerCmdSound {
    /// Where the word of entity and channel starts in a content with the
    /// given flags byte: behind the flags and the optional fields.
    pub open spec fn word_at(bits: u8) -> int {
        1 + (if announces_volume(bits) {
            1int
        } else {
            0int
        }) + (if announces_attenuation(bits) {
            1int
        } else {
            0int
        })
    }
}

impl Cmd for ServerCmdSound {
    open spec fn wire_code() -> u8 {
        6
    }

    open spec fn valid(v: ServerCmdSound) -> bool {
        packable(v.entity_id, v.channel)
    }

    /// The flags byte, which has one bit set for each optional field that
    /// is there and no other; the volume and the attenuation, one byte each,
    /// as far as they are there; the word of entity and channel; the sound,
    /// one byte; the three coordinates of the position.
    open spec fn encode(v: ServerCmdSound) -> Seq<u8> {
        seq![sound_flags_byte(v.volume is Some, v.attenuation is Some)] + optional_byte(v.volume)
            + optional_byte(v.attenuation) + le_bytes16(entity_channel(v.entity_id, v.channel))
            + seq![v.sound_id] + le_bytes16(v.position.x.eighths as int) + le_bytes16(
            v.position.y.eighths as int,
        ) + le_bytes16(v.position.z.eighths as int)
    }

    /// A field is there exactly if the flags byte has its bit; a flags byte
    /// with a bit that is no flag is an error.
    open spec fn decode(input: Seq<u8>) -> Result<(ServerCmdSound, int), NetFault> {
        if input.len() < 1 {
            Err(truncated())
        } else if input[0] > SOUND_ALL {
            Err(invalid_sound_flags(input[0]))
        } else {
            let at = ServerCmdSound::word_at(input[0]);
            if input.len() < at + 9 {
                Err(truncated())
            } else {
                Ok(
                    (
                        ServerCmdSound {
                            volume: if announces_volume(input[0]) {
                                Some(input[1])
                            } else {
                                None
                            },
                            attenuation: if announces_attenuation(input[0]) {
                                Some(input[at - 1])
                            } else {
                                None
                            },
                            entity_id: entity_of(le_u16(input.skip(at))),
                            channel: channel_of(le_u16(input.skip(at))),
                            sound_id: input[at + 2],
                            position: CoordVector {
                                x: coord_at(input.skip(at + 3)),
                                y: coord_at(input.skip(at + 5)),
                                z: coord_at(input.skip(at + 7)),
                            },
                        },
                        at + 9,
                    ),
                )
            }
        }
    }

    proof fn lemma_round_trip(v: ServerCmdSound, rest: Seq<u8>) {
        let s = Self::encode(v) + rest;
        let bits = sound_flags_byte(v.volume is Some, v.attenuation is Some);
        lemma_sound_flags(v.volume is Some, v.attenuation is Some);
        lemma_entity_channel(v.entity_id, v.channel);
        let word = entity_channel(v.entity_id, v.channel);
        lemma_bytes16_round_trip(word);
        lemma_bytes16_round_trip(v.position.x.eighths as int);
        lemma_bytes16_round_trip(v.position.y.eighths as int);
        lemma_bytes16_round_trip(v.position.z.eighths as int);
        let at = ServerCmdSound::word_at(bits);
        assert(s[0] == bits);
        assert(Self::encode(v).len() == at + 9);
        assert(le_u16(s.skip(at)) == le_u16(le_bytes16(word))) by {
            assert(s.skip(at)[0] == le_bytes16(word)[0]);
            assert(s.skip(at)[1] == le_bytes16(word)[1]);
        }
        assert(s[at + 2] == v.sound_id);
        assert(coord_at(s.skip(at + 3)) == v.position.x) by {
            assert(s.skip(at + 3)[0] == le_bytes16(v.position.x.eighths as int)[0]);
            assert(s.skip(at + 3)[1] == le_bytes16(v.position.x.eighths as int)[1]);
        }
        assert(coord_at(s.skip(at + 5)) == v.position.y) by {
            assert(s.skip(at + 5)[0] == le_bytes16(v.position.y.eighths as int)[0]);
            assert(s.skip(at + 5)[1] == le_bytes16(v.position.y.eighths as int)[1]);
        }
        assert(coord_at(s.skip(at + 7)) == v.position.z) by {
            assert(s.skip(at + 7)[0] == le_bytes16(v.position.z.eighths as int)[0]);
            assert(s.skip(at + 7)[1] == le_bytes16(v.position.z.eighths as int)[1]);
        }
        if v.volume is Some {
            assert(s[1] == v.volume->0);
        }
        if v.attenuation is Some {
            assert(s[at - 1] == v.attenuation->0);
        }
    }

    fn code(&self) -> (r: u8) {
        6
    }

    fn read_content(reader: &mut Reader) -> (r: Result<ServerCmdSound, NetError>) {
        let ghost s = reader.remaining();
        let flags_bits: u8 = reader.read_u8()?;
        let flags = match SoundFlags::from_bits(flags_bits) {
            Some(f) => f,
            None => {
                let digits = fmt_binary(flags_bits);
                return Err(
                    NetError::Other(concat("Invalid value for SoundFlags: ", digits.as_str())),
                );
            },
        };
        let ghost at = ServerCmdSound::word_at(flags_bits);
        let with_volume = flags.contains(SoundFlags::volume());
        let with_attenuation = flags.contains(SoundFlags::attenuation());
        let volume = read_optional_u8(reader, with_volume)?;
        let ghost s1 = reader.remaining();
        let attenuation = read_optional_u8(reader, with_attenuation)?;
        proof {
            if with_volume {
                assert(s.skip(1)[0] == s[1]);
            }
            assert(reader.remaining() =~= s.skip(at));
            if with_attenuation {
                assert(s1[0] == s[at - 1]);
            }
        }
        let (entity_id, channel) = read_entity_channel(reader)?;
        let sound_id: u8 = reader.read_u8()?;
        proof {
            assert(s.skip(at).skip(2) =~= s.skip(at + 2));
            assert(s.skip(at + 2)[0] == s[at + 2]);
            assert(s.skip(at + 2).skip(1) =~= s.skip(at + 3));
        }
        let x = read_coord(reader)?;
        proof {
            assert(s.skip(at + 3).skip(2) =~= s.skip(at + 5));
        }
        let y = read_coord(reader)?;
        proof {
            assert(s.skip(at + 5).skip(2) =~= s.skip(at + 7));
        }
        let z = read_coord(reader)?;
        proof {
            assert(s.skip(at + 7).skip(2) =~= s.skip(at + 9));
        }
        Ok(
            ServerCmdSound {
                volume,
                attenuation,
                entity_id,
                channel,
                sound_id,
                position: CoordVector { x, y, z },
            },
        )
    }

    fn write_content(&self, writer: &mut Vec<u8>) -> (r: Result<(), NetError>) {
        let mut sound_flags = SoundFlags::empty();
        if self.volume.is_some() {
            sound_flags.insert(SoundFlags::volume());
        }
        if self.attenuation.is_some() {
            sound_flags.insert(SoundFlags::attenuation());
        }
        proof {
            lemma_sound_flags(self.volume is Some, self.attenuation is Some);
            assert(0u8 | 1u8 == 1u8 && 0u8 | 2u8 == 2u8 && 1u8 | 2u8 == 3u8) by (bit_vector);
        }
        writer.push(sound_flags.bits());
        write_optional_u8(writer, self.volume);
        write_optional_u8(writer, self.attenuation);
        write_entity_channel(writer, self.entity_id, self.channel);
        writer.push(self.sound_id);
        write_coord(writer, self.position.x);
        write_coord(writer, self.position.y);
        write_coord(writer, self.position.z);
        proof {
            assert(writer@ =~= old(writer)@ + Self::encode(self@));
        }
        Ok(())
    }
}

/// Each optional field of a sound command is there after decoding exactly
/// if it was there before encoding, and then with its value; the flags byte
/// that was written has the bit of a field exactly if the field is there.
pub proof fn lemma_sound_presence(v: ServerCmdSound, rest: Seq<u8>)
    requires
        ServerCmdSound::valid(v),
    ensures
        ServerCmdSound::decode(ServerCmdSound::encode(v) + rest) matches Ok((back, _))
            && back.volume == v.volume && back.attenuation == v.attenuation,
        announces_volume(ServerCmdSound::encode(v)[0]) == (v.volume is Some),
        announces_attenuation(ServerCmdSound::encode(v)[0]) == (v.attenuation is Some),
        ServerCmdSound::encode(v)[0] <= SOUND_ALL,
{
    ServerCmdSound::lemma_round_trip(v, rest);
    lemma_sound_flags(v.volume is Some, v.attenuation is Some);
}

/// A sound ends.
#[derive(Clone, Copy, Debug, PartialEq, Eq, Structural)]
pub struct ServerCmdStopSound {
    pub entity_id: u16,
    pub channel: u8,
}

impl View for ServerCmdStopSound {
    type V = ServerCmdStopSound;

    open spec fn view(&self) -> ServerCmdStopSound {
        *self
    }
}

impl Cmd for ServerCmdStopSound {
    open spec fn wire_code() -> u8 {
        16
    }

    open spec fn valid(v: ServerCmdStopSound) -> bool {
        packable(v.entity_id, v.channel)
    }

    /// The word of entity and channel.
    open spec fn encode(v: ServerCmdStopSound) -> Seq<u8> {
        le_bytes16(entity_channel(v.entity_id, v.channel))
    }

    open spec fn decode(input: Seq<u8>) -> Result<(ServerCmdStopSound, int), NetFault> {
        if input.len() < 2 {
            Err(truncated())
        } else {
            Ok(
                (
                    ServerCmdStopSound {
                        entity_id: entity_of(le_u16(input)),
                        channel: channel_of(le_u16(input)),
                    },
                    2,
                ),
            )
        }
    }

    proof fn lemma_round_trip(v: ServerCmdStopSound, rest: Seq<u8>) {
        let s = Self::encode(v) + rest;
        let word = entity_channel(v.entity_id, v.channel);
        lemma_entity_channel(v.entity_id, v.channel);
        lemma_bytes16_round_trip(word);
        assert(le_u16(s) == le_u16(le_bytes16(word)));
    }

    fn code(&self) -> (r: u8) {
        16
    }

    fn read_content(reader: &mut Reader) -> (r: Result<ServerCmdStopSound, NetError>) {
        let (entity_id, channel) = read_entity_channel(reader)?;
        Ok(ServerCmdStopSound { entity_id, channel })
    }

    fn write_content(&self, writer: &mut Vec<u8>) -> (r: Result<(), NetError>) {
        write_entity_channel(writer, self.entity_id, self.channel);
        Ok(())
    }
}

} // verus!
