//! Whole commands and whole messages: a message is a row of commands, each
//! its code and its content, with nothing between them.

use crate::cmd::{
    Cmd, ServerCmdPrint, ServerCmdSetAngle, ServerCmdSetView, ServerCmdStuffText, ServerCmdTime,
    ServerCmdUpdateStat, ServerCmdVersion,
};
use crate::codes::ServerCmdCode;
use crate::error::{NetError, NetFault};
use crate::server_info::{ServerCmdServerInfo, ServerInfoView};
use crate::sound::{ServerCmdSound, ServerCmdStopSound};
use crate::text::{concat, decimal_text, fmt_decimal};
use crate::updates::{
    ServerCmdLightStyle, ServerCmdUpdateColors, ServerCmdUpdateFrags, ServerCmdUpdateName,
    TaggedText,
};
use crate::wire::Reader;
use vstd::prelude::*;

verus! {

/// A command of the server.
#[derive(Clone, Debug, PartialEq, Eq)]
pub enum ServerCmd {
    NoOp,
    Disconnect,
    UpdateStat(ServerCmdUpdateStat),
    Version(ServerCmdVersion),
    SetView(ServerCmdSetView),
    Sound(ServerCmdSound),
    Time(ServerCmdTime),
    Print(ServerCmdPrint),
    StuffText(ServerCmdStuffText),
    SetAngle(ServerCmdSetAngle),
    ServerInfo(ServerCmdServerInfo),
    LightStyle(ServerCmdLightStyle),
    UpdateName(ServerCmdUpdateName),
    UpdateFrags(ServerCmdUpdateFrags),
    StopSound(ServerCmdStopSound),
    UpdateColors(ServerCmdUpdateColors),
}

/// The value of a [`ServerCmd`].
pub enum ServerCmdView {
    NoOp,
    Disconnect,
    UpdateStat(ServerCmdUpdateStat),
    Version(ServerCmdVersion),
    SetView(ServerCmdSetView),
    Sound(ServerCmdSound),
    Time(ServerCmdTime),
    Print(Seq<char>),
    StuffText(Seq<char>),
    SetAngle(ServerCmdSetAngle),
    ServerInfo(ServerInfoView),
    LightStyle(TaggedText),
    UpdateName(TaggedText),
    UpdateFrags(ServerCmdUpdateFrags),
    StopSound(ServerCmdStopSound),
    UpdateColors(ServerCmdUpdateColors),
}

impl View for ServerCmd {
    type V = ServerCmdView;

    open spec fn view(&self) -> ServerCmdView {
        match self {
            ServerCmd::NoOp => ServerCmdView::NoOp,
            ServerCmd::Disconnect => ServerCmdView::Disconnect,
            ServerCmd::UpdateStat(c) => ServerCmdView::UpdateStat(c@),
            ServerCmd::Version(c) => ServerCmdView::Version(c@),
            ServerCmd::SetView(c) => ServerCmdView::SetView(c@),
            ServerCmd::Sound(c) => ServerCmdView::Sound(c@),
            ServerCmd::Time(c) => ServerCmdView::Time(c@),
            ServerCmd::Print(c) => ServerCmdView::Print(c@),
            ServerCmd::StuffText(c) => ServerCmdView::StuffText(c@),
            ServerCmd::SetAngle(c) => ServerCmdView::SetAngle(c@),
            ServerCmd::ServerInfo(c) => ServerCmdView::ServerInfo(c@),
            ServerCmd::LightStyle(c) => ServerCmdView::LightStyle(c@),
            ServerCmd::UpdateName(c) => ServerCmdView::UpdateName(c@),
            ServerCmd::UpdateFrags(c) => ServerCmdView::UpdateFrags(c@),
            ServerCmd::StopSound(c) => ServerCmdView::StopSound(c@),
            ServerCmd::UpdateColors(c) => ServerCmdView::UpdateColors(c@),
        }
    }
}

/// The error for a command whose content this library does not read.
pub open spec fn unsupported(code: u8) -> NetFault {
    NetFault::Other("Unsupported server command: "@ + decimal_text(code as int))
}

/// A command made of a content that was read: the content as a command and
/// one byte more for the code.
pub open spec fn with_code<V>(
    content: Result<(V, int), NetFault>,
    wrap: spec_fn(V) -> ServerCmdView,
) -> Result<Option<(ServerCmdView, int)>, NetFault> {
    match content {
        Ok((v, n)) => Ok(Some((wrap(v), n + 1))),
        Err(e) => Err(e),
    }
}

impl ServerCmdView {
    /// The code that starts the command on the wire.
    pub open spec fn code(self) -> u8 {
        match self {
            ServerCmdView::NoOp => 1,
            ServerCmdView::Disconnect => 2,
            ServerCmdView::UpdateStat(_) => 3,
            ServerCmdView::Version(_) => 4,
            ServerCmdView::SetView(_) => 5,
            ServerCmdView::Sound(_) => 6,
            ServerCmdView::Time(_) => 7,
            ServerCmdView::Print(_) => 8,
            ServerCmdView::StuffText(_) => 9,
            ServerCmdView::SetAngle(_) => 10,
            ServerCmdView::ServerInfo(_) => 11,
            ServerCmdView::LightStyle(_) => 12,
            ServerCmdView::UpdateName(_) => 13,
            ServerCmdView::UpdateFrags(_) => 14,
            ServerCmdView::StopSound(_) => 16,
            ServerCmdView::UpdateColors(_) => 17,
        }
    }

    /// The commands whose bytes give them back.
    pub open spec fn valid(self) -> bool {
        match self {
            ServerCmdView::NoOp => true,
            ServerCmdView::Disconnect => true,
            ServerCmdView::UpdateStat(v) => ServerCmdUpdateStat::valid(v),
            ServerCmdView::Version(v) => ServerCmdVersion::valid(v),
            ServerCmdView::SetView(v) => ServerCmdSetView::valid(v),
            ServerCmdView::Sound(v) => ServerCmdSound::valid(v),
            ServerCmdView::Time(v) => ServerCmdTime::valid(v),
            ServerCmdView::Print(v) => ServerCmdPrint::valid(v),
            ServerCmdView::StuffText(v) => ServerCmdStuffText::valid(v),
            ServerCmdView::SetAngle(v) => ServerCmdSetAngle::valid(v),
            ServerCmdView::ServerInfo(v) => ServerCmdServerInfo::valid(v),
            ServerCmdView::LightStyle(v) => ServerCmdLightStyle::valid(v),
            ServerCmdView::UpdateName(v) => ServerCmdUpdateName::valid(v),
            ServerCmdView::UpdateFrags(v) => ServerCmdUpdateFrags::valid(v),
            ServerCmdView::StopSound(v) => ServerCmdStopSound::valid(v),
            ServerCmdView::UpdateColors(v) => ServerCmdUpdateColors::valid(v),
        }
    }

    /// The bytes of the content.
    pub open spec fn content(self) -> Seq<u8> {
        match self {
            ServerCmdView::NoOp => Seq::empty(),
            ServerCmdView::Disconnect => Seq::empty(),
            ServerCmdView::UpdateStat(v) => ServerCmdUpdateStat::encode(v),
            ServerCmdView::Version(v) => ServerCmdVersion::encode(v),
            ServerCmdView::SetView(v) => ServerCmdSetView::encode(v),
            ServerCmdView::Sound(v) => ServerCmdSound::encode(v),
            ServerCmdView::Time(v) => ServerCmdTime::encode(v),
            ServerCmdView::Print(v) => ServerCmdPrint::encode(v),
            ServerCmdView::StuffText(v) => ServerCmdStuffText::encode(v),
            ServerCmdView::SetAngle(v) => ServerCmdSetAngle::encode(v),
            ServerCmdView::ServerInfo(v) => ServerCmdServerInfo::encode(v),
            ServerCmdView::LightStyle(v) => ServerCmdLightStyle::encode(v),
            ServerCmdView::UpdateName(v) => ServerCmdUpdateName::encode(v),
            ServerCmdView::UpdateFrags(v) => ServerCmdUpdateFrags::encode(v),
            ServerCmdView::StopSound(v) => ServerCmdStopSound::encode(v),
            ServerCmdView::UpdateColors(v) => ServerCmdUpdateColors::encode(v),
        }
    }

    /// The bytes of the command: its code, then its content.
    pub open spec fn encode(self) -> Seq<u8> {
        seq![self.code()] + self.content()
    }
}

/// The command at the start of `input` and the number of bytes it takes;
/// none at the end of the input. A code that names no command is an error,
/// and so is the code that marks bad data; a command whose content is not
/// read here is an error of its own.
pub open spec fn decode_cmd(input: Seq<u8>) -> Result<Option<(ServerCmdView, int)>, NetFault> {
    if input.len() == 0 {
        Ok(None)
    } else {
        let rest = input.skip(1);
        match ServerCmdCode::spec_from_u8(input[0]) {
            None => Err(NetFault::InvalidResponse(input[0])),
            Some(ServerCmdCode::Bad) => Err(NetFault::InvalidResponse(input[0])),
            Some(ServerCmdCode::NoOp) => Ok(Some((ServerCmdView::NoOp, 1))),
            Some(ServerCmdCode::Disconnect) => Ok(Some((ServerCmdView::Disconnect, 1))),
            Some(ServerCmdCode::UpdateStat) => with_code(
                ServerCmdUpdateStat::decode(rest),
                |v| ServerCmdView::UpdateStat(v),
            ),
            Some(ServerCmdCode::Version) => with_code(
                ServerCmdVersion::decode(rest),
                |v| ServerCmdView::Version(v),
            ),
            Some(ServerCmdCode::SetView) => with_code(
                ServerCmdSetView::decode(rest),
                |v| ServerCmdView::SetView(v),
            ),
            Some(ServerCmdCode::Sound) => with_code(
                ServerCmdSound::decode(rest),
                |v| ServerCmdView::Sound(v),
            ),
            Some(ServerCmdCode::Time) => with_code(
                ServerCmdTime::decode(rest),
                |v| ServerCmdView::Time(v),
            ),
            Some(ServerCmdCode::Print) => with_code(
                ServerCmdPrint::decode(rest),
                |v| ServerCmdView::Print(v),
            ),
            Some(ServerCmdCode::StuffText) => with_code(
                ServerCmdStuffText::decode(rest),
                |v| ServerCmdView::StuffText(v),
            ),
            Some(ServerCmdCode::SetAngle) => with_code(
                ServerCmdSetAngle::decode(rest),
                |v| ServerCmdView::SetAngle(v),
            ),
            Some(ServerCmdCode::ServerInfo) => with_code(
                ServerCmdServerInfo::decode(rest),
                |v| ServerCmdView::ServerInfo(v),
            ),
            Some(ServerCmdCode::LightStyle) => with_code(
                ServerCmdLightStyle::decode(rest),
                |v| ServerCmdView::LightStyle(v),
            ),
            Some(ServerCmdCode::UpdateName) => with_code(
                ServerCmdUpdateName::decode(rest),
                |v| ServerCmdView::UpdateName(v),
            ),
            Some(ServerCmdCode::UpdateFrags) => with_code(
                ServerCmdUpdateFrags::decode(rest),
                |v| ServerCmdView::UpdateFrags(v),
            ),
            Some(ServerCmdCode::StopSound) => with_code(
                ServerCmdStopSound::decode(rest),
                |v| ServerCmdView::StopSound(v),
            ),
            Some(ServerCmdCode::UpdateColors) => with_code(
                ServerCmdUpdateColors::decode(rest),
                |v| ServerCmdView::UpdateColors(v),
            ),
            Some(_) => Err(unsupported(input[0])),
        }
    }
}

/// The values of a list of commands.
pub open spec fn cmd_views(list: Seq<ServerCmd>) -> Seq<ServerCmdView> {
    Seq::new(list.len(), |i: int| list[i]@)
}

/// The bytes of a row of commands.
pub open spec fn encode_all(cmds: Seq<ServerCmdView>) -> Seq<u8>
    decreases cmds.len(),
{
    if cmds.len() == 0 {
        Seq::empty()
    } else {
        encode_all(cmds.drop_last()) + cmds.last().encode()
    }
}

/// The commands that a message holds, one after the other from its start,
/// and the error that stopped the reading, if one did. What was read before
/// an error stays read.
pub open spec fn decode_all(input: Seq<u8>) -> (Seq<ServerCmdView>, Option<NetFault>)
    decreases input.len(),
{
    match decode_cmd(input) {
        Err(e) => (Seq::empty(), Some(e)),
        Ok(None) => (Seq::empty(), None),
        Ok(Some((cmd, n))) => {
            if 0 < n <= input.len() {
                let (more, end) = decode_all(input.skip(n));
                (seq![cmd] + more, end)
            } else {
                (seq![cmd], None)
            }
        },
    }
}

/// What is read after `prefix`, seen from the start.
pub open spec fn all_after(
    prefix: Seq<ServerCmdView>,
    tail: (Seq<ServerCmdView>, Option<NetFault>),
) -> (Seq<ServerCmdView>, Option<NetFault>) {
    (prefix + tail.0, tail.1)
}

impl ServerCmd {
    /// Returns the numeric value of this command's code.
    pub fn code(&self) -> (r: u8)
        ensures
            r == self@.code(),
    {
        match self {
            ServerCmd::NoOp => ServerCmdCode::NoOp.code(),
            ServerCmd::Disconnect => ServerCmdCode::Disconnect.code(),
            ServerCmd::UpdateStat(c) => c.code(),
            ServerCmd::Version(c) => c.code(),
            ServerCmd::SetView(c) => c.code(),
            ServerCmd::Sound(c) => c.code(),
            ServerCmd::Time(c) => c.code(),
            ServerCmd::Print(c) => c.code(),
            ServerCmd::StuffText(c) => c.code(),
            ServerCmd::SetAngle(c) => c.code(),
            ServerCmd::ServerInfo(c) => c.code(),
            ServerCmd::LightStyle(c) => c.code(),
            ServerCmd::UpdateName(c) => c.code(),
            ServerCmd::UpdateFrags(c) => c.code(),
            ServerCmd::StopSound(c) => c.code(),
            ServerCmd::UpdateColors(c) => c.code(),
        }
    }

    /// Reads one command from where the reader stands; none when the reader
    /// is at the end of its bytes.
    pub fn read_cmd(reader: &mut Reader) -> (r: Result<Option<ServerCmd>, NetError>)
        ensures
            match decode_cmd(old(reader).remaining()) {
                Ok(Some((v, n))) => r matches Ok(Some(c)) && c@ == v && 0 < n <= old(
                    reader,
                ).remaining().len() && final(reader).remaining() == old(reader).remaining().skip(
                    n,
                ),
                Ok(None) => r matches Ok(None) && final(reader).remaining() == old(
                    reader,
                ).remaining(),
                Err(fault) => r matches Err(e) && e@ == fault,
            },
    {
        let ghost s = reader.remaining();
        if reader.is_empty() {
            return Ok(None);
        }
        let code_num: u8 = reader.read_u8()?;
        let code = match ServerCmdCode::from_u8(code_num) {
            Some(c) => c,
            None => {
                return Err(NetError::InvalidResponse(code_num));
            },
        };
        let ghost rest = s.skip(1);
        proof {
            assert forall|n: int| 0 <= n <= rest.len() implies #[trigger] rest.skip(n) =~= s.skip(
                n + 1,
            ) by {}
        }
        let cmd = match code {
            ServerCmdCode::Bad => {
                return Err(NetError::InvalidResponse(code_num));
            },
            ServerCmdCode::NoOp => {
                proof {
                    assert(rest =~= s.skip(1));
                }
                ServerCmd::NoOp
            },
            ServerCmdCode::Disconnect => ServerCmd::Disconnect,
            ServerCmdCode::UpdateStat => ServerCmd::UpdateStat(
                ServerCmdUpdateStat::read_content(reader)?,
            ),
            ServerCmdCode::Version => ServerCmd::Version(ServerCmdVersion::read_content(reader)?),
            ServerCmdCode::SetView => ServerCmd::SetView(ServerCmdSetView::read_content(reader)?),
            ServerCmdCode::Sound => ServerCmd::Sound(ServerCmdSound::read_content(reader)?),
            ServerCmdCode::Time => ServerCmd::Time(ServerCmdTime::read_content(reader)?),
            ServerCmdCode::Print => ServerCmd::Print(ServerCmdPrint::read_content(reader)?),
            ServerCmdCode::StuffText => ServerCmd::StuffText(
                ServerCmdStuffText::read_content(reader)?,
            ),
            ServerCmdCode::SetAngle => ServerCmd::SetAngle(
                ServerCmdSetAngle::read_content(reader)?,
            ),
            ServerCmdCode::ServerInfo => ServerCmd::ServerInfo(
                ServerCmdServerInfo::read_content(reader)?,
            ),
            ServerCmdCode::LightStyle => ServerCmd::LightStyle(
                ServerCmdLightStyle::read_content(reader)?,
            ),
            ServerCmdCode::UpdateName => ServerCmd::UpdateName(
                ServerCmdUpdateName::read_content(reader)?,
            ),
            ServerCmdCode::UpdateFrags => ServerCmd::UpdateFrags(
                ServerCmdUpdateFrags::read_content(reader)?,
            ),
            ServerCmdCode::StopSound => ServerCmd::StopSound(
                ServerCmdStopSound::read_content(reader)?,
            ),
            ServerCmdCode::UpdateColors => ServerCmd::UpdateColors(
                ServerCmdUpdateColors::read_content(reader)?,
            ),
            _ => {
                let number = fmt_decimal(code_num as i128);
                return Err(
                    NetError::Other(concat("Unsupported server command: ", number.as_str())),
                );
            },
        };
        Ok(Some(cmd))
    }

    /// Appends this command, code and content, to the given sink.
    pub fn write_cmd(&self, writer: &mut Vec<u8>) -> (r: Result<(), NetError>)
        ensures
            r is Ok,
            final(writer)@ == old(writer)@ + self@.encode(),
    {
        let r = match self {
            ServerCmd::NoOp => {
                writer.push(self.code());
                Ok(())
            },
            ServerCmd::Disconnect => {
                writer.push(self.code());
                Ok(())
            },
            ServerCmd::UpdateStat(c) => c.write_cmd(writer),
            ServerCmd::Version(c) => c.write_cmd(writer),
            ServerCmd::SetView(c) => c.write_cmd(writer),
            ServerCmd::Sound(c) => c.write_cmd(writer),
            ServerCmd::Time(c) => c.write_cmd(writer),
            ServerCmd::Print(c) => c.write_cmd(writer),
            ServerCmd::StuffText(c) => c.write_cmd(writer),
            ServerCmd::SetAngle(c) => c.write_cmd(writer),
            ServerCmd::ServerInfo(c) => c.write_cmd(writer),
            ServerCmd::LightStyle(c) => c.write_cmd(writer),
            ServerCmd::UpdateName(c) => c.write_cmd(writer),
            ServerCmd::UpdateFrags(c) => c.write_cmd(writer),
            ServerCmd::StopSound(c) => c.write_cmd(writer),
            ServerCmd::UpdateColors(c) => c.write_cmd(writer),
        };
        proof {
            assert(writer@ =~= old(writer)@ + self@.encode());
        }
        r
    }
}

/// Reads the commands of a message one after the other until the message
/// ends or an error stops the reading. The commands that were read before
/// an error come back with it. An empty message holds no command and is no
/// error.
pub fn decode_message(msg: &[u8]) -> (r: (Vec<ServerCmd>, Option<NetError>))
    ensures
        cmd_views(r.0@) == decode_all(msg@).0,
        match decode_all(msg@).1 {
            Some(fault) => r.1 matches Some(e) && e@ == fault,
            None => r.1 is None,
        },
{
    let mut reader = Reader::new(msg);
    let mut list: Vec<ServerCmd> = Vec::new();
    proof {
        assert(cmd_views(list@) =~= Seq::<ServerCmdView>::empty());
        assert(cmd_views(list@) + decode_all(msg@).0 =~= decode_all(msg@).0);
    }
    loop
        invariant
            decode_all(msg@) == all_after(cmd_views(list@), decode_all(reader.remaining())),
        decreases reader.remaining().len(),
    {
        let ghost cur = reader.remaining();
        let ghost before = cmd_views(list@);
        match ServerCmd::read_cmd(&mut reader) {
            Err(e) => {
                proof {
                    assert(before + Seq::<ServerCmdView>::empty() =~= before);
                }
                return (list, Some(e));
            },
            Ok(None) => {
                proof {
                    assert(before + Seq::<ServerCmdView>::empty() =~= before);
                }
                return (list, None);
            },
            Ok(Some(cmd)) => {
                proof {
                    let first = decode_cmd(cur)->Ok_0->Some_0;
                    let tail = decode_all(cur.skip(first.1));
                    assert(before + (seq![cmd@] + tail.0) =~= before.push(cmd@) + tail.0);
                }
                list.push(cmd);
                proof {
                    assert(cmd_views(list@) =~= before.push(cmd@));
                }
            },
        }
    }
}

/// Writes a row of commands as one message.
pub fn encode_message(cmds: &Vec<ServerCmd>) -> (r: Vec<u8>)
    ensures
        r@ == encode_all(cmd_views(cmds@)),
{
    let ghost all = cmd_views(cmds@);
    let mut out: Vec<u8> = Vec::new();
    let mut i: usize = 0;
    proof {
        assert(all.take(0) =~= Seq::<ServerCmdView>::empty());
    }
    while i < cmds.len()
        invariant
            0 <= i <= cmds.len(),
            all == cmd_views(cmds@),
            out@ == encode_all(all.take(i as int)),
        decreases cmds.len() - i,
    {
        let _ = cmds[i].write_cmd(&mut out);
        proof {
            let now = all.take(i + 1);
            assert(now.drop_last() =~= all.take(i as int));
            assert(now.last() == cmds@[i as int]@);
        }
        i = i + 1;
    }
    proof {
        assert(all.take(i as int) =~= all);
    }
    out
}

/// An empty message holds no command and is no error.
pub proof fn lemma_empty_message()
    ensures
        decode_all(Seq::empty()) == (Seq::<ServerCmdView>::empty(), None::<NetFault>),
{
}

/// A valid command comes back from its own bytes, whatever follows them.
#[verifier::rlimit(50)]
pub proof fn lemma_cmd_round_trip(cmd: ServerCmdView, rest: Seq<u8>)
    requires
        cmd.valid(),
    ensures
        decode_cmd(cmd.encode() + rest) == Ok::<Option<(ServerCmdView, int)>, NetFault>(
            Some((cmd, cmd.encode().len() as int)),
        ),
{
    let s = cmd.encode() + rest;
    assert(s[0] == cmd.code());
    assert(s.skip(1) =~= cmd.content() + rest);
    match cmd {
        ServerCmdView::NoOp => {},
        ServerCmdView::Disconnect => {},
        ServerCmdView::UpdateStat(v) => {
            ServerCmdUpdateStat::lemma_round_trip(v, rest);
        },
        ServerCmdView::Version(v) => {
            ServerCmdVersion::lemma_round_trip(v, rest);
        },
        ServerCmdView::SetView(v) => {
            ServerCmdSetView::lemma_round_trip(v, rest);
        },
        ServerCmdView::Sound(v) => {
            ServerCmdSound::lemma_round_trip(v, rest);
        },
        ServerCmdView::Time(v) => {
            ServerCmdTime::lemma_round_trip(v, rest);
        },
        ServerCmdView::Print(v) => {
            ServerCmdPrint::lemma_round_trip(v, rest);
        },
        ServerCmdView::StuffText(v) => {
            ServerCmdStuffText::lemma_round_trip(v, rest);
        },
        ServerCmdView::SetAngle(v) => {
            ServerCmdSetAngle::lemma_round_trip(v, rest);
        },
        ServerCmdView::ServerInfo(v) => {
            ServerCmdServerInfo::lemma_round_trip(v, rest);
        },
        ServerCmdView::LightStyle(v) => {
            ServerCmdLightStyle::lemma_round_trip(v, rest);
        },
        ServerCmdView::UpdateName(v) => {
            ServerCmdUpdateName::lemma_round_trip(v, rest);
        },
        ServerCmdView::UpdateFrags(v) => {
            ServerCmdUpdateFrags::lemma_round_trip(v, rest);
        },
        ServerCmdView::StopSound(v) => {
            ServerCmdStopSound::lemma_round_trip(v, rest);
        },
        ServerCmdView::UpdateColors(v) => {
            ServerCmdUpdateColors::lemma_round_trip(v, rest);
        },
    }
}

/// A row of commands starts with its first command.
pub proof fn lemma_encode_all_front(head: ServerCmdView, tail: Seq<ServerCmdView>)
    ensures
        encode_all(seq![head] + tail) == head.encode() + encode_all(tail),
    decreases tail.len(),
{
    let all = seq![head] + tail;
    if tail.len() == 0 {
        assert(all.drop_last() =~= Seq::<ServerCmdView>::empty());
        assert(all.last() == head);
        assert(encode_all(all.drop_last()) =~= Seq::<u8>::empty());
        assert(encode_all(tail) =~= Seq::<u8>::empty());
        assert(encode_all(all) =~= head.encode() + encode_all(tail));
    } else {
        lemma_encode_all_front(head, tail.drop_last());
        assert(all.drop_last() =~= seq![head] + tail.drop_last());
        assert(all.last() == tail.last());
        assert(encode_all(all) =~= head.encode() + encode_all(tail));
    }
}

/// A row of valid commands comes back from its own bytes, all of them and
/// without an error.
pub proof fn lemma_message_round_trip(cmds: Seq<ServerCmdView>)
    requires
        forall|i: int| 0 <= i < cmds.len() ==> (#[trigger] cmds[i]).valid(),
    ensures
        decode_all(encode_all(cmds)) == (cmds, None::<NetFault>),
    decreases cmds.len(),
{
    if cmds.len() == 0 {
        assert(encode_all(cmds) =~= Seq::<u8>::empty());
        assert(cmds =~= Seq::<ServerCmdView>::empty());
    } else {
        let head = cmds[0];
        let tail = cmds.skip(1);
        assert(cmds =~= seq![head] + tail);
        lemma_encode_all_front(head, tail);
        let s = head.encode() + encode_all(tail);
        lemma_cmd_round_trip(head, encode_all(tail));
        let n = head.encode().len() as int;
        assert(s.skip(n) =~= encode_all(tail));
        assert forall|i: int| 0 <= i < tail.len() implies (#[trigger] tail[i]).valid() by {
            assert(tail[i] == cmds[i + 1]);
        }
        lemma_message_round_trip(tail);
    }
}

} // verus!
