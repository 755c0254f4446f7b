//! Commands: what they are, how their content lies on the wire, and the
//! commands of fixed or textual content.
//!
//! A command on the wire is its code, one byte, followed by its content.
//! Numbers are little-endian, texts end with a zero byte.

use crate::codes::ClientStat;
use crate::error::{NetError, NetFault};
use crate::quant::{Angle, AngleVector};
use crate::text::{concat, decimal_text, fmt_decimal};
use crate::wire::{
    cstring_bytes, le_bytes16, le_bytes32, le_u16, le_u32, lemma_bytes16_round_trip,
    lemma_bytes32_round_trip, lemma_cstring_round_trip, low_byte, put_cstring, put_i16, put_i32,
    put_i8, put_u32, signed16, signed32, signed8, take_cstring, text_ok, truncated, Reader,
};
use vstd::prelude::*;

verus! {

/// A command of the server or of the client.
///
/// The value of a command, its view, is what the contracts speak of:
/// `encode` gives the bytes of a value's content, `decode` says what the
/// start of some bytes holds, and a valid value comes back from its own
/// bytes whatever follows them.
pub trait Cmd: Sized + View {
    /// The code that starts the command on the wire.
    spec fn wire_code() -> u8;

    /// The values whose bytes give them back.
    spec fn valid(v: Self::V) -> bool;

    /// The bytes of the content.
    spec fn encode(v: Self::V) -> Seq<u8>;

    /// The content at the start of `input` and the number of bytes it takes,
    /// or the error that reading it ends in.
    spec fn decode(input: Seq<u8>) -> Result<(Self::V, int), NetFault>;

    /// Decoding what was encoded gives the value back, whatever follows.
    proof fn lemma_round_trip(v: Self::V, rest: Seq<u8>)
        requires
            Self::valid(v),
        ensures
            Self::decode(Self::encode(v) + rest) == Ok::<(Self::V, int), NetFault>(
                (v, Self::encode(v).len() as int),
            ),
    ;

    /// Returns the numeric value of this command's code.
    fn code(&self) -> (r: u8)
        ensures
            r == Self::wire_code(),
    ;

    /// Reads the content of a command from where the reader stands and
    /// leaves the reader behind it.
    fn read_content(reader: &mut Reader) -> (r: Result<Self, NetError>)
        ensures
            match Self::decode(old(reader).remaining()) {
                Ok((v, n)) => r matches Ok(c) && c@ == v && 0 <= n <= old(
                    reader,
                ).remaining().len() && final(reader).remaining() == old(reader).remaining().skip(
                    n,
                ),
                Err(fault) => r matches Err(e) && e@ == fault,
            },
    ;

    /// Appends this command's content to the given sink.
    fn write_content(&self, writer: &mut Vec<u8>) -> (r: Result<(), NetError>)
        ensures
            r is Ok,
            final(writer)@ == old(writer)@ + Self::encode(self@),
    ;

    /// Appends this command, code and content, to the given sink.
    fn write_cmd(&self, writer: &mut Vec<u8>) -> (r: Result<(), NetError>)
        ensures
            r is Ok,
            final(writer)@ == old(writer)@ + seq![Self::wire_code()] + Self::encode(self@),
    {
        writer.push(self.code());
        self.write_content(writer)
    }
}

/// The error for a statistic's number that names none.
pub open spec fn invalid_stat(id: u8) -> NetFault {
    NetFault::Other("Invalid value for ClientStat: "@ + decimal_text(id as int))
}

/// One of the client's numbers changes.
#[derive(Clone, Copy, Debug, PartialEq, Eq, Structural)]
pub struct ServerCmdUpdateStat {
    pub stat: ClientStat,
    pub value: i32,
}

impl View for ServerCmdUpdateStat {
    type V = ServerCmdUpdateStat;

    open spec fn view(&self) -> ServerCmdUpdateStat {
        *self
    }
}

impl Cmd for ServerCmdUpdateStat {
    open spec fn wire_code() -> u8 {
        3
    }

    open spec fn valid(v: ServerCmdUpdateStat) -> bool {
        true
    }

    /// The statistic's number, one byte, then the value, four bytes.
    open spec fn encode(v: ServerCmdUpdateStat) -> Seq<u8> {
        seq![v.stat.spec_code()] + le_bytes32(v.value as int)
    }

    open spec fn decode(input: Seq<u8>) -> Result<(ServerCmdUpdateStat, int), NetFault> {
        if input.len() < 1 {
            Err(truncated())
        } else if ClientStat::spec_from_u8(input[0]) is None {
            Err(invalid_stat(input[0]))
        } else if input.len() < 5 {
            Err(truncated())
        } else {
            Ok(
                (
                    ServerCmdUpdateStat {
                        stat: ClientStat::spec_from_u8(input[0])->0,
                        value: signed32(le_u32(input.skip(1))) as i32,
                    },
                    5,
                ),
            )
        }
    }

    proof fn lemma_round_trip(v: ServerCmdUpdateStat, rest: Seq<u8>) {
        let s = Self::encode(v) + rest;
        v.stat.lemma_code_round_trip(0);
        lemma_bytes32_round_trip(v.value as int);
        assert(s[0] == v.stat.spec_code());
        assert(le_u32(s.skip(1)) == le_u32(le_bytes32(v.value as int)));
    }

    fn code(&self) -> (r: u8) {
        3
    }

    fn read_content(reader: &mut Reader) -> (r: Result<ServerCmdUpdateStat, NetError>) {
        let stat_id: u8 = reader.read_u8()?;
        let stat = match ClientStat::from_u8(stat_id) {
            Some(c) => c,
            None => {
                let number = fmt_decimal(stat_id as i128);
                return Err(
                    NetError::Other(concat("Invalid value for ClientStat: ", number.as_str())),
                );
            },
        };
        let value: i32 = reader.read_i32()?;
        proof {
            assert(old(reader).remaining().skip(1).skip(4) =~= old(reader).remaining().skip(5));
        }
        Ok(ServerCmdUpdateStat { stat, value })
    }

    fn write_content(&self, writer: &mut Vec<u8>) -> (r: Result<(), NetError>) {
        writer.push(self.stat.code());
        put_i32(writer, self.value);
        proof {
            assert(writer@ =~= old(writer)@ + Self::encode(self@));
        }
        Ok(())
    }
}

/// The protocol version of the server.
#[derive(Clone, Copy, Debug, PartialEq, Eq, Structural)]
pub struct ServerCmdVersion {
    pub version: i32,
}

impl View for ServerCmdVersion {
    type V = ServerCmdVersion;

    open spec fn view(&self) -> ServerCmdVersion {
        *self
    }
}

impl Cmd for ServerCmdVersion {
    open spec fn wire_code() -> u8 {
        4
    }

    open spec fn valid(v: ServerCmdVersion) -> bool {
        true
    }

    /// The version, four bytes.
    open spec fn encode(v: ServerCmdVersion) -> Seq<u8> {
        le_bytes32(v.version as int)
    }

    open spec fn decode(input: Seq<u8>) -> Result<(ServerCmdVersion, int), NetFault> {
        if input.len() < 4 {
            Err(truncated())
        } else {
            Ok((ServerCmdVersion { version: signed32(le_u32(input)) as i32 }, 4))
        }
    }

    proof fn lemma_round_trip(v: ServerCmdVersion, rest: Seq<u8>) {
        let s = Self::encode(v) + rest;
        lemma_bytes32_round_trip(v.version as int);
        assert(le_u32(s) == le_u32(le_bytes32(v.version as int)));
    }

    fn code(&self) -> (r: u8) {
        4
    }

    fn read_content(reader: &mut Reader) -> (r: Result<ServerCmdVersion, NetError>) {
        let version: i32 = reader.read_i32()?;
        Ok(ServerCmdVersion { version })
    }

    fn write_content(&self, writer: &mut Vec<u8>) -> (r: Result<(), NetError>) {
        put_i32(writer, self.version);
        Ok(())
    }
}

/// The entity that the view follows.
#[derive(Clone, Copy, Debug, PartialEq, Eq, Structural)]
pub struct ServerCmdSetView {
    pub view_ent: i16,
}

impl View for ServerCmdSetView {
    type V = ServerCmdSetView;

    open spec fn view(&self) -> ServerCmdSetView {
        *self
    }
}

impl Cmd for ServerCmdSetView {
    open spec fn wire_code() -> u8 {
        5
    }

    open spec fn valid(v: ServerCmdSetView) -> bool {
        true
    }

    /// The entity's number, two bytes.
    open spec fn encode(v: ServerCmdSetView) -> Seq<u8> {
        le_bytes16(v.view_ent as int)
    }

    open spec fn decode(input: Seq<u8>) -> Result<(ServerCmdSetView, int), NetFault> {
        if input.len() < 2 {
            Err(truncated())
        } else {
            Ok((ServerCmdSetView { view_ent: signed16(le_u16(input)) as i16 }, 2))
        }
    }

    proof fn lemma_round_trip(v: ServerCmdSetView, rest: Seq<u8>) {
        let s = Self::encode(v) + rest;
        lemma_bytes16_round_trip(v.view_ent as int);
        assert(le_u16(s) == le_u16(le_bytes16(v.view_ent as int)));
    }

    fn code(&self) -> (r: u8) {
        5
    }

    fn read_content(reader: &mut Reader) -> (r: Result<ServerCmdSetView, NetError>) {
        let view_ent: i16 = reader.read_i16()?;
        Ok(ServerCmdSetView { view_ent })
    }

    fn write_content(&self, writer: &mut Vec<u8>) -> (r: Result<(), NetError>) {
        put_i16(writer, self.view_ent);
        Ok(())
    }
}

/// The server's clock.
///
/// The wire carries a single-precision number; it is held here as the 32
/// bits of its IEEE 754 image.
#[derive(Clone, Copy, Debug, PartialEq, Eq, Structural)]
pub struct ServerCmdTime {
    pub time_bits: u32,
}

impl View for ServerCmdTime {
    type V = ServerCmdTime;

    open spec fn view(&self) -> ServerCmdTime {
        *self
    }
}

impl Cmd for ServerCmdTime {
    open spec fn wire_code() -> u8 {
        7
    }

    open spec fn valid(v: ServerCmdTime) -> bool {
        true
    }

    /// The bit image of the time, four bytes.
    open spec fn encode(v: ServerCmdTime) -> Seq<u8> {
        le_bytes32(v.time_bits as int)
    }

    open spec fn decode(input: Seq<u8>) -> Result<(ServerCmdTime, int), NetFault> {
        if input.len() < 4 {
            Err(truncated())
        } else {
            Ok((ServerCmdTime { time_bits: le_u32(input) as u32 }, 4))
        }
    }

    proof fn lemma_round_trip(v: ServerCmdTime, rest: Seq<u8>) {
        let s = Self::encode(v) + rest;
        lemma_bytes32_round_trip(v.time_bits as int);
        assert(le_u32(s) == le_u32(le_bytes32(v.time_bits as int)));
    }

    fn code(&self) -> (r: u8) {
        7
    }

    fn read_content(reader: &mut Reader) -> (r: Result<ServerCmdTime, NetError>) {
        let time_bits: u32 = reader.read_u32()?;
        Ok(ServerCmdTime { time_bits })
    }

    fn write_content(&self, writer: &mut Vec<u8>) -> (r: Result<(), NetError>) {
        put_u32(writer, self.time_bits);
        Ok(())
    }
}

/// A line for the console.
#[derive(Clone, Debug, PartialEq, Eq)]
pub struct ServerCmdPrint {
    pub text: String,
}

impl View for ServerCmdPrint {
    type V = Seq<char>;

    open spec fn view(&self) -> Seq<char> {
        self.text@
    }
}

impl Cmd for ServerCmdPrint {
    open spec fn wire_code() -> u8 {
        8
    }

    open spec fn valid(v: Seq<char>) -> bool {
        text_ok(v)
    }

    /// The text and its zero byte.
    open spec fn encode(v: Seq<char>) -> Seq<u8> {
        cstring_bytes(v)
    }

    open spec fn decode(input: Seq<u8>) -> Result<(Seq<char>, int), NetFault> {
        take_cstring(input)
    }

    proof fn lemma_round_trip(v: Seq<char>, rest: Seq<u8>) {
        lemma_cstring_round_trip(v, rest);
    }

    fn code(&self) -> (r: u8) {
        8
    }

    fn read_content(reader: &mut Reader) -> (r: Result<ServerCmdPrint, NetError>) {
        let text = reader.read_cstring()?;
        Ok(ServerCmdPrint { text })
    }

    fn write_content(&self, writer: &mut Vec<u8>) -> (r: Result<(), NetError>) {
        put_cstring(writer, self.text.as_str());
        Ok(())
    }
}

/// Console input given by the server.
#[derive(Clone, Debug, PartialEq, Eq)]
pub struct ServerCmdStuffText {
    pub text: String,
}

impl View for ServerCmdStuffText {
    type V = Seq<char>;

    open spec fn view(&self) -> Seq<char> {
        self.text@
    }
}

impl Cmd for ServerCmdStuffText {
    open spec fn wire_code() -> u8 {
        9
    }

    open spec fn valid(v: Seq<char>) -> bool {
        text_ok(v)
    }

    /// The text and its zero byte.
    open spec fn encode(v: Seq<char>) -> Seq<u8> {
        cstring_bytes(v)
    }

    open spec fn decode(input: Seq<u8>) -> Result<(Seq<char>, int), NetFault> {
        take_cstring(input)
    }

    proof fn lemma_round_trip(v: Seq<char>, rest: Seq<u8>) {
        lemma_cstring_round_trip(v, rest);
    }

    fn code(&self) -> (r: u8) {
        9
    }

    fn read_content(reader: &mut Reader) -> (r: Result<ServerCmdStuffText, NetError>) {
        let text = reader.read_cstring()?;
        Ok(ServerCmdStuffText { text })
    }

    fn write_content(&self, writer: &mut Vec<u8>) -> (r: Result<(), NetError>) {
        put_cstring(writer, self.text.as_str());
        Ok(())
    }
}

/// The view turns to the given angles.
#[derive(Clone, Copy, Debug, PartialEq, Eq, Structural)]
pub struct ServerCmdSetAngle {
    pub angles: AngleVector,
}

impl View for ServerCmdSetAngle {
    type V = ServerCmdSetAngle;

    open spec fn view(&self) -> ServerCmdSetAngle {
        *self
    }
}

/// Reads an angle: one byte, a signed count of 256ths of a turn.
pub fn read_angle(reader: &mut Reader) -> (r: Result<Angle, NetError>)
    ensures
        old(reader).remaining().len() >= 1 ==> (r matches Ok(a) && a.steps as int == signed8(
            old(reader).remaining()[0] as int,
        ) && final(reader).remaining() == old(reader).remaining().skip(1)),
        old(reader).remaining().len() < 1 ==> (r matches Err(e) && e@ == truncated()
            && final(reader).remaining() == old(reader).remaining()),
{
    let steps: i8 = reader.read_i8()?;
    Ok(Angle { steps })
}

/// Appends an angle: one byte, a signed count of 256ths of a turn.
pub fn write_angle(writer: &mut Vec<u8>, angle: Angle)
    ensures
        final(writer)@ == old(writer)@.push(low_byte(angle.steps as int)),
{
    put_i8(writer, angle.steps);
}

impl Cmd for ServerCmdSetAngle {
    open spec fn wire_code() -> u8 {
        10
    }

    open spec fn valid(v: ServerCmdSetAngle) -> bool {
        true
    }

    /// The three angles, one byte each.
    open spec fn encode(v: ServerCmdSetAngle) -> Seq<u8> {
        seq![
            low_byte(v.angles.x.steps as int),
            low_byte(v.angles.y.steps as int),
            low_byte(v.angles.z.steps as int),
        ]
    }

    open spec fn decode(input: Seq<u8>) -> Result<(ServerCmdSetAngle, int), NetFault> {
        if input.len() < 3 {
            Err(truncated())
        } else {
            Ok(
                (
                    ServerCmdSetAngle {
                        angles: AngleVector {
                            x: Angle { steps: signed8(input[0] as int) as i8 },
                            y: Angle { steps: signed8(input[1] as int) as i8 },
                            z: Angle { steps: signed8(input[2] as int) as i8 },
                        },
                    },
                    3,
                ),
            )
        }
    }

    proof fn lemma_round_trip(v: ServerCmdSetAngle, rest: Seq<u8>) {
        let s = Self::encode(v) + rest;
        assert(s[0] == low_byte(v.angles.x.steps as int));
        assert(s[1] == low_byte(v.angles.y.steps as int));
        assert(s[2] == low_byte(v.angles.z.steps as int));
    }

    fn code(&self) -> (r: u8) {
        10
    }

    fn read_content(reader: &mut Reader) -> (r: Result<ServerCmdSetAngle, NetError>) {
        let ghost s = reader.remaining();
        let x = read_angle(reader)?;
        let y = read_angle(reader)?;
        let z = read_angle(reader)?;
        proof {
            assert(s.skip(1).skip(1).skip(1) =~= s.skip(3));
            assert(s.skip(1)[0] == s[1]);
            assert(s.skip(1).skip(1)[0] == s[2]);
        }
        Ok(ServerCmdSetAngle { angles: AngleVector { x, y, z } })
    }

    fn write_content(&self, writer: &mut Vec<u8>) -> (r: Result<(), NetError>) {
        write_angle(writer, self.angles.x);
        write_angle(writer, self.angles.y);
        write_angle(writer, self.angles.z);
        proof {
            assert(writer@ =~= old(writer)@ + Self::encode(self@));
        }
        Ok(())
    }
}

} // verus!
