//! The command that starts a session: the server's protocol version, its
//! limits and the names of the models and sounds to load.
//!
//! A list of names lies on the wire as one text after the other, closed by
//! an empty text.

use crate::cmd::Cmd;
use crate::error::{NetError, NetFault};
use crate::wire::{
    cstring_bytes, le_bytes32, le_u32, lemma_bytes32_round_trip, lemma_cstring_round_trip,
    lemma_text_len, put_cstring, put_i32, signed32, take_cstring, text_ok, truncated, Reader,
};
use vstd::prelude::*;

verus! {

/// The texts of a list of strings.
pub open spec fn texts(list: Seq<String>) -> Seq<Seq<char>> {
    Seq::new(list.len(), |i: int| list[i]@)
}

/// The names of a list on the wire, one after the other, without the empty
/// text that closes the list.
pub open spec fn names_body(names: Seq<Seq<char>>) -> Seq<u8>
    decreases names.len(),
{
    if names.len() == 0 {
        Seq::empty()
    } else {
        names_body(names.drop_last()) + cstring_bytes(names.last())
    }
}

/// A list of names on the wire: the names, then an empty text.
pub open spec fn names_bytes(names: Seq<Seq<char>>) -> Seq<u8> {
    names_body(names) + cstring_bytes(Seq::empty())
}

/// A list of names that the wire can carry and give back: no name is empty,
/// and none holds a zero byte.
pub open spec fn names_ok(names: Seq<Seq<char>>) -> bool {
    forall|i: int| 0 <= i < names.len() ==> (#[trigger] names[i]).len() > 0 && text_ok(names[i])
}

/// What reading a list of names from the start of `s` gives: the names
/// before the first empty text, and the number of bytes up to the end of
/// that empty text.
pub open spec fn take_names(s: Seq<u8>) -> Result<(Seq<Seq<char>>, int), NetFault>
    decreases s.len(),
{
    match take_cstring(s) {
        Err(e) => Err(e),
        Ok((name, n)) => {
            if name.len() == 0 {
                Ok((Seq::empty(), n))
            } else {
                proof {
                    lemma_text_len(s);
                }
                match take_names(s.skip(n)) {
                    Err(e) => Err(e),
                    Ok((more, m)) => Ok((seq![name] + more, n + m)),
                }
            }
        },
    }
}

/// What is read after `prefix` and `consumed` bytes, seen from the start.
pub open spec fn extended(
    prefix: Seq<Seq<char>>,
    consumed: int,
    tail: Result<(Seq<Seq<char>>, int), NetFault>,
) -> Result<(Seq<Seq<char>>, int), NetFault> {
    match tail {
        Ok((more, m)) => Ok((prefix + more, consumed + m)),
        Err(e) => Err(e),
    }
}

/// The names of a list start with its first name.
pub proof fn lemma_names_body_front(head: Seq<char>, tail: Seq<Seq<char>>)
    ensures
        names_body(seq![head] + tail) == cstring_bytes(head) + names_body(tail),
    decreases tail.len(),
{
    let all = seq![head] + tail;
    if tail.len() == 0 {
        assert(all.drop_last() =~= Seq::<Seq<char>>::empty());
        assert(all.last() == head);
        assert(names_body(all.drop_last()) =~= Seq::<u8>::empty());
        assert(names_body(tail) =~= Seq::<u8>::empty());
        assert(names_body(all) =~= cstring_bytes(head) + names_body(tail));
    } else {
        lemma_names_body_front(head, tail.drop_last());
        assert(all.drop_last() =~= seq![head] + tail.drop_last());
        assert(all.last() == tail.last());
        assert(names_body(all) =~= cstring_bytes(head) + names_body(tail));
    }
}

/// Reading gives back a list of names that was written, whatever follows.
pub proof fn lemma_names_round_trip(names: Seq<Seq<char>>, rest: Seq<u8>)
    requires
        names_ok(names),
    ensures
        take_names(names_bytes(names) + rest) == Ok::<(Seq<Seq<char>>, int), NetFault>(
            (names, names_bytes(names).len() as int),
        ),
    decreases names.len(),
{
    let s = names_bytes(names) + rest;
    let nothing = Seq::<char>::empty();
    assert(vstd::utf8::encode_utf8(nothing) =~= Seq::<u8>::empty());
    if names.len() == 0 {
        assert(s =~= cstring_bytes(nothing) + rest);
        lemma_cstring_round_trip(nothing, rest);
        assert(names =~= Seq::<Seq<char>>::empty());
    } else {
        let head = names[0];
        let tail = names.skip(1);
        assert(names =~= seq![head] + tail);
        lemma_names_body_front(head, tail);
        let after = names_bytes(tail) + rest;
        assert(s =~= cstring_bytes(head) + after);
        lemma_cstring_round_trip(head, after);
        let n = cstring_bytes(head).len() as int;
        assert(s.skip(n) =~= after);
        assert forall|i: int| 0 <= i < tail.len() implies (#[trigger] tail[i]).len() > 0
            && text_ok(tail[i]) by {
            assert(tail[i] == names[i + 1]);
        }
        lemma_names_round_trip(tail, rest);
        assert(names_bytes(names).len() == n + names_bytes(tail).len());
    }
}

/// Reads a list of names up to and with the empty text that closes it.
pub fn read_names(reader: &mut Reader) -> (r: Result<Vec<String>, NetError>)
    ensures
        match take_names(old(reader).remaining()) {
            Ok((names, n)) => r matches Ok(list) && texts(list@) == names && 0 <= n <= old(
                reader,
            ).remaining().len() && final(reader).remaining() == old(reader).remaining().skip(n),
            Err(fault) => r matches Err(e) && e@ == fault,
        },
{
    let ghost start = reader.remaining();
    let ghost mut consumed: int = 0;
    let mut list: Vec<String> = Vec::new();
    proof {
        assert(texts(list@) =~= Seq::<Seq<char>>::empty());
        assert(start.skip(0) =~= start);
        match take_names(start) {
            Ok((more, m)) => {
                assert(texts(list@) + more =~= more);
            },
            Err(_) => {},
        }
    }
    loop
        invariant
            start == old(reader).remaining(),
            0 <= consumed <= start.len(),
            reader.remaining() == start.skip(consumed),
            take_names(start) == extended(texts(list@), consumed, take_names(reader.remaining())),
        decreases reader.remaining().len(),
    {
        let ghost cur = reader.remaining();
        let ghost before = texts(list@);
        let name = match reader.read_cstring() {
            Ok(name) => name,
            Err(e) => {
                return Err(e);
            },
        };
        let ghost n = take_cstring(cur)->Ok_0.1;
        proof {
            assert(start.skip(consumed).skip(n) =~= start.skip(consumed + n));
        }
        if name.as_str().is_empty() {
            proof {
                assert(before + Seq::<Seq<char>>::empty() =~= before);
            }
            return Ok(list);
        }
        proof {
            match take_names(cur.skip(n)) {
                Ok((more, m)) => {
                    assert(before + (seq![name@] + more) =~= before.push(name@) + more);
                },
                Err(_) => {},
            }
        }
        list.push(name);
        proof {
            assert(texts(list@) =~= before.push(name@));
            consumed = consumed + n;
        }
    }
}

/// Appends a list of names and the empty text that closes it.
pub fn write_names(writer: &mut Vec<u8>, names: &Vec<String>)
    ensures
        final(writer)@ == old(writer)@ + names_bytes(texts(names@)),
{
    let ghost all = texts(names@);
    let mut i: usize = 0;
    proof {
        assert(all.take(0) =~= Seq::<Seq<char>>::empty());
        assert(writer@ =~= old(writer)@ + names_body(all.take(0)));
    }
    while i < names.len()
        invariant
            0 <= i <= names.len(),
            all == texts(names@),
            writer@ == old(writer)@ + names_body(all.take(i as int)),
        decreases names.len() - i,
    {
        put_cstring(writer, names[i].as_str());
        proof {
            let now = all.take(i + 1);
            assert(now.drop_last() =~= all.take(i as int));
            assert(now.last() == names@[i as int]@);
            assert(writer@ =~= old(writer)@ + names_body(now));
        }
        i = i + 1;
    }
    proof {
        assert(all.take(i as int) =~= all);
    }
    put_cstring(writer, "");
    proof {
        reveal_strlit("");
        assert(""@ =~= Seq::<char>::empty());
        assert(writer@ =~= old(writer)@ + names_bytes(all));
    }
}

/// The start of a session.
#[derive(Clone, Debug, PartialEq, Eq)]
pub struct ServerCmdServerInfo {
    pub protocol_version: i32,
    pub max_clients: u8,
    pub game_type: u8,
    pub model_precache: Vec<String>,
    pub sound_precache: Vec<String>,
}

/// The value of a [`ServerCmdServerInfo`].
pub struct ServerInfoView {
    pub protocol_version: i32,
    pub max_clients: u8,
    pub game_type: u8,
    pub model_precache: Seq<Seq<char>>,
    pub sound_precache: Seq<Seq<char>>,
}

impl View for ServerCmdServerInfo {
    type V = ServerInfoView;

    open spec fn view(&self) -> ServerInfoView {
        ServerInfoView {
            protocol_version: self.protocol_version,
            max_clients: self.max_clients,
            game_type: self.game_type,
            model_precache: texts(self.model_precache@),
            sound_precache: texts(self.sound_precache@),
        }
    }
}

impl Cmd for ServerCmdServerInfo {
    open spec fn wire_code() -> u8 {
        11
    }

    open spec fn valid(v: ServerInfoView) -> bool {
        names_ok(v.model_precache) && names_ok(v.sound_precache)
    }

    /// The protocol version, four bytes; the largest number of clients and
    /// the kind of game, one byte each; the list of model names; the list of
    /// sound names.
    open spec fn encode(v: ServerInfoView) -> Seq<u8> {
        le_bytes32(v.protocol_version as int) + seq![v.max_clients, v.game_type] + names_bytes(
            v.model_precache,
        ) + names_bytes(v.sound_precache)
    }

    open spec fn decode(input: Seq<u8>) -> Result<(ServerInfoView, int), NetFault> {
        if input.len() < 6 {
            Err(truncated())
        } else {
            match take_names(input.skip(6)) {
                Err(e) => Err(e),
                Ok((models, a)) => match take_names(input.skip(6 + a)) {
                    Err(e) => Err(e),
                    Ok((sounds, b)) => Ok(
                        (
                            ServerInfoView {
                                protocol_version: signed32(le_u32(input)) as i32,
                                max_clients: input[4],
                                game_type: input[5],
                                model_precache: models,
                                sound_precache: sounds,
                            },
                            6 + a + b,
                        ),
                    ),
                },
            }
        }
    }

    proof fn lemma_round_trip(v: ServerInfoView, rest: Seq<u8>) {
        let s = Self::encode(v) + rest;
        let models = names_bytes(v.model_precache);
        let sounds = names_bytes(v.sound_precache);
        lemma_bytes32_round_trip(v.protocol_version as int);
        assert(le_u32(s) == le_u32(le_bytes32(v.protocol_version as int)));
        assert(s[4] == v.max_clients);
        assert(s[5] == v.game_type);
        assert(s.skip(6) =~= models + (sounds + rest));
        lemma_names_round_trip(v.model_precache, sounds + rest);
        let a = models.len() as int;
        assert(s.skip(6 + a) =~= sounds + rest);
        lemma_names_round_trip(v.sound_precache, rest);
    }

    fn code(&self) -> (r: u8) {
        11
    }

    fn read_content(reader: &mut Reader) -> (r: Result<ServerCmdServerInfo, NetError>) {
        let ghost s = reader.remaining();
        let protocol_version: i32 = reader.read_i32()?;
        let max_clients: u8 = reader.read_u8()?;
        let game_type: u8 = reader.read_u8()?;
        proof {
            assert(s.skip(4)[0] == s[4]);
            assert(s.skip(4).skip(1)[0] == s[5]);
            assert(s.skip(4).skip(1).skip(1) =~= s.skip(6));
        }
        let model_precache = read_names(reader)?;
        let ghost a = take_names(s.skip(6))->Ok_0.1;
        proof {
            assert(s.skip(6).skip(a) =~= s.skip(6 + a));
        }
        let sound_precache = read_names(reader)?;
        let ghost b = take_names(s.skip(6 + a))->Ok_0.1;
        proof {
            assert(s.skip(6 + a).skip(b) =~= s.skip(6 + a + b));
        }
        Ok(
            ServerCmdServerInfo {
                protocol_version,
                max_clients,
                game_type,
                model_precache,
                sound_precache,
            },
        )
    }

    fn write_content(&self, writer: &mut Vec<u8>) -> (r: Result<(), NetError>) {
        put_i32(writer, self.protocol_version);
        writer.push(self.max_clients);
        writer.push(self.game_type);
        write_names(writer, &self.model_precache);
        write_names(writer, &self.sound_precache);
        proof {
            assert(writer@ =~= old(writer)@ + Self::encode(self@));
        }
        Ok(())
    }
}

} // verus!
