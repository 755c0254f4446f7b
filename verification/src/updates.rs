//! Small commands that change one thing: a light style, or the name, the
//! score or the colors of a player.

use crate::cmd::Cmd;
use crate::error::{NetError, NetFault};
use crate::wire::{
    cstring_bytes, le_bytes16, le_u16, lemma_bytes16_round_trip, lemma_cstring_round_trip,
    put_cstring, put_i16, signed16, take_cstring, text_ok, truncated, Reader,
};
use vstd::prelude::*;

verus! {

/// A number of one byte and a text.
pub struct TaggedText {
    pub tag: u8,
    pub text: Seq<char>,
}

/// The bytes of a number of one byte and a text.
pub open spec fn tagged_text_bytes(v: TaggedText) -> Seq<u8> {
    seq![v.tag] + cstring_bytes(v.text)
}

/// What reading a number of one byte and a text from the start of `input`
/// gives.
pub open spec fn take_tagged_text(input: Seq<u8>) -> Result<(TaggedText, int), NetFault> {
    if input.len() < 1 {
        Err(truncated())
    } else {
        match take_cstring(input.skip(1)) {
            Err(e) => Err(e),
            Ok((text, n)) => Ok((TaggedText { tag: input[0], text }, 1 + n)),
        }
    }
}

/// Reading gives back a number and a text that were written.
pub proof fn lemma_tagged_text_round_trip(v: TaggedText, rest: Seq<u8>)
    requires
        text_ok(v.text),
    ensures
        take_tagged_text(tagged_text_bytes(v) + rest) == Ok::<(TaggedText, int), NetFault>(
            (v, tagged_text_bytes(v).len() as int),
        ),
{
    let s = tagged_text_bytes(v) + rest;
    assert(s[0] == v.tag);
    assert(s.skip(1) =~= cstring_bytes(v.text) + rest);
    lemma_cstring_round_trip(v.text, rest);
}

/// Reads a number of one byte and a text.
fn read_tagged_text(reader: &mut Reader) -> (r: Result<(u8, String), NetError>)
    ensures
        match take_tagged_text(old(reader).remaining()) {
            Ok((v, n)) => r matches Ok(x) && x.0 == v.tag && x.1@ == v.text && 0 <= n <= old(
                reader,
            ).remaining().len() && final(reader).remaining() == old(reader).remaining().skip(n),
            Err(fault) => r matches Err(e) && e@ == fault,
        },
{
    let ghost s = reader.remaining();
    let tag: u8 = reader.read_u8()?;
    let text = reader.read_cstring()?;
    proof {
        let n = take_cstring(s.skip(1))->Ok_0.1;
        assert(s.skip(1).skip(n) =~= s.skip(1 + n));
    }
    Ok((tag, text))
}

/// Appends a number of one byte and a text.
fn write_tagged_text(writer: &mut Vec<u8>, tag: u8, text: &str)
    ensures
        final(writer)@ == old(writer)@ + tagged_text_bytes(TaggedText { tag, text: text@ }),
{
    writer.push(tag);
    put_cstring(writer, text);
    proof {
        assert(writer@ =~= old(writer)@ + tagged_text_bytes(TaggedText { tag, text: text@ }));
    }
}

/// A pattern for animated light.
#[derive(Clone, Debug, PartialEq, Eq)]
pub struct ServerCmdLightStyle {
    pub id: u8,
    pub value: String,
}

impl View for ServerCmdLightStyle {
    type V = TaggedText;

    open spec fn view(&self) -> TaggedText {
        TaggedText { tag: self.id, text: self.value@ }
    }
}

impl Cmd for ServerCmdLightStyle {
    open spec fn wire_code() -> u8 {
        12
    }

    open spec fn valid(v: TaggedText) -> bool {
        text_ok(v.text)
    }

    /// The number of the style, one byte, then the pattern as a text.
    open spec fn encode(v: TaggedText) -> Seq<u8> {
        tagged_text_bytes(v)
    }

    open spec fn decode(input: Seq<u8>) -> Result<(TaggedText, int), NetFault> {
        take_tagged_text(input)
    }

    proof fn lemma_round_trip(v: TaggedText, rest: Seq<u8>) {
        lemma_tagged_text_round_trip(v, rest);
    }

    fn code(&self) -> (r: u8) {
        12
    }

    fn read_content(reader: &mut Reader) -> (r: Result<ServerCmdLightStyle, NetError>) {
        let (id, value) = read_tagged_text(reader)?;
        Ok(ServerCmdLightStyle { id, value })
    }

    fn write_content(&self, writer: &mut Vec<u8>) -> (r: Result<(), NetError>) {
        write_tagged_text(writer, self.id, self.value.as_str());
        Ok(())
    }
}

/// A player's name changes.
#[derive(Clone, Debug, PartialEq, Eq)]
pub struct ServerCmdUpdateName {
    pub player_id: u8,
    pub new_name: String,
}

impl View for ServerCmdUpdateName {
    type V = TaggedText;

    open spec fn view(&self) -> TaggedText {
        TaggedText { tag: self.player_id, text: self.new_name@ }
    }
}

impl Cmd for ServerCmdUpdateName {
    open spec fn wire_code() -> u8 {
        13
    }

    open spec fn valid(v: TaggedText) -> bool {
        text_ok(v.text)
    }

    /// The number of the player, one byte, then the name as a text.
    open spec fn encode(v: TaggedText) -> Seq<u8> {
        tagged_text_bytes(v)
    }

    open spec fn decode(input: Seq<u8>) -> Result<(TaggedText, int), NetFault> {
        take_tagged_text(input)
    }

    proof fn lemma_round_trip(v: TaggedText, rest: Seq<u8>) {
        lemma_tagged_text_round_trip(v, rest);
    }

    fn code(&self) -> (r: u8) {
        13
    }

    fn read_content(reader: &mut Reader) -> (r: Result<ServerCmdUpdateName, NetError>) {
        let (player_id, new_name) = read_tagged_text(reader)?;
        Ok(ServerCmdUpdateName { player_id, new_name })
    }

    fn write_content(&self, writer: &mut Vec<u8>) -> (r: Result<(), NetError>) {
        write_tagged_text(writer, self.player_id, self.new_name.as_str());
        Ok(())
    }
}

/// A player's score changes.
#[derive(Clone, Copy, Debug, PartialEq, Eq, Structural)]
pub struct ServerCmdUpdateFrags {
    pub player_id: u8,
    pub new_frags: i16,
}

impl View for ServerCmdUpdateFrags {
    type V = ServerCmdUpdateFrags;

    open spec fn view(&self) -> ServerCmdUpdateFrags {
        *self
    }
}

impl Cmd for ServerCmdUpdateFrags {
    open spec fn wire_code() -> u8 {
        14
    }

    open spec fn valid(v: ServerCmdUpdateFrags) -> bool {
        true
    }

    /// The number of the player, one byte, then the score, two bytes.
    open spec fn encode(v: ServerCmdUpdateFrags) -> Seq<u8> {
        seq![v.player_id] + le_bytes16(v.new_frags as int)
    }

    open spec fn decode(input: Seq<u8>) -> Result<(ServerCmdUpdateFrags, int), NetFault> {
        if input.len() < 3 {
            Err(truncated())
        } else {
            Ok(
                (
                    ServerCmdUpdateFrags {
                        player_id: input[0],
                        new_frags: signed16(le_u16(input.skip(1))) as i16,
                    },
                    3,
                ),
            )
        }
    }

    proof fn lemma_round_trip(v: ServerCmdUpdateFrags, rest: Seq<u8>) {
        let s = Self::encode(v) + rest;
        lemma_bytes16_round_trip(v.new_frags as int);
        assert(s[0] == v.player_id);
        assert(le_u16(s.skip(1)) == le_u16(le_bytes16(v.new_frags as int)));
    }

    fn code(&self) -> (r: u8) {
        14
    }

    fn read_content(reader: &mut Reader) -> (r: Result<ServerCmdUpdateFrags, NetError>) {
        let player_id: u8 = reader.read_u8()?;
        let new_frags: i16 = reader.read_i16()?;
        proof {
            assert(old(reader).remaining().skip(1).skip(2) =~= old(reader).remaining().skip(3));
        }
        Ok(ServerCmdUpdateFrags { player_id, new_frags })
    }

    fn write_content(&self, writer: &mut Vec<u8>) -> (r: Result<(), NetError>) {
        writer.push(self.player_id);
        put_i16(writer, self.new_frags);
        proof {
            assert(writer@ =~= old(writer)@ + Self::encode(self@));
        }
        Ok(())
    }
}

/// A player's colors change.
#[derive(Clone, Copy, Debug, PartialEq, Eq, Structural)]
pub struct ServerCmdUpdateColors {
    pub client_id: u8,
    pub colors: u8,
}

impl View for ServerCmdUpdateColors {
    type V = ServerCmdUpdateColors;

    open spec fn view(&self) -> ServerCmdUpdateColors {
        *self
    }
}

impl Cmd for ServerCmdUpdateColors {
    open spec fn wire_code() -> u8 {
        17
    }

    open spec fn valid(v: ServerCmdUpdateColors) -> bool {
        true
    }

    /// The number of the player and the colors, one byte each.
    open spec fn encode(v: ServerCmdUpdateColors) -> Seq<u8> {
        seq![v.client_id, v.colors]
    }

    open spec fn decode(input: Seq<u8>) -> Result<(ServerCmdUpdateColors, int), NetFault> {
        if input.len() < 2 {
            Err(truncated())
        } else {
            Ok((ServerCmdUpdateColors { client_id: input[0], colors: input[1] }, 2))
        }
    }

    proof fn lemma_round_trip(v: ServerCmdUpdateColors, rest: Seq<u8>) {
        let s = Self::encode(v) + rest;
        assert(s[0] == v.client_id);
        assert(s[1] == v.colors);
    }

    fn code(&self) -> (r: u8) {
        17
    }

    fn read_content(reader: &mut Reader) -> (r: Result<ServerCmdUpdateColors, NetError>) {
        let ghost s = reader.remaining();
        let client_id: u8 = reader.read_u8()?;
        let colors: u8 = reader.read_u8()?;
        proof {
            assert(s.skip(1)[0] == s[1]);
            assert(s.skip(1).skip(1) =~= s.skip(2));
        }
        Ok(ServerCmdUpdateColors { client_id, colors })
    }

    fn write_content(&self, writer: &mut Vec<u8>) -> (r: Result<(), NetError>) {
        writer.push(self.client_id);
        writer.push(self.colors);
        proof {
            assert(writer@ =~= old(writer)@ + Self::encode(self@));
        }
        Ok(())
    }
}

} // verus!
