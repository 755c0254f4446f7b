//! The session driver: it takes the commands of each message that the
//! transport completes and says what is to be done about them.
//!
//! The driver loads nothing and prints nothing itself. It hands out what to
//! print and what to load, in the order in which the commands ask for it,
//! and keeps what the server announced at the start of the session. The
//! command that starts a session carries no text of its own; what a server
//! has to say then comes as a print.

use crate::error::{ClientError, ClientFault};
use crate::message::{decode_cmd, ServerCmd, ServerCmdView};
use crate::qsocket::{QSocket, QState};
use crate::server_info::{texts, ServerCmdServerInfo, ServerInfoView};
use crate::text::concat;
use crate::wire::Reader;
use vstd::prelude::*;
use vstd::utf8::encode_utf8;

verus! {

/// The protocol version that this client speaks.
pub const PROTOCOL_VERSION: i32 = 15;

/// What the server announced at the start of the session.
#[derive(Clone, Copy, Debug, PartialEq, Eq, Structural)]
pub struct ServerInfo {
    pub protocol_version: i32,
    pub max_clients: u8,
    pub game_type: u8,
}

/// The kind of a thing to load.
#[derive(Clone, Copy, Debug, PartialEq, Eq, Structural)]
pub enum AssetKind {
    /// The geometry of a level.
    Level,
    /// Any other model.
    Model,
    /// A sound.
    Sound,
}

/// A thing to load, by its name.
#[derive(Clone, Debug, PartialEq, Eq)]
pub struct LoadRequest {
    pub kind: AssetKind,
    pub name: String,
}

/// The value of a [`LoadRequest`].
pub struct LoadView {
    pub kind: AssetKind,
    pub name: Seq<char>,
}

impl View for LoadRequest {
    type V = LoadView;

    open spec fn view(&self) -> LoadView {
        LoadView { kind: self.kind, name: self.name@ }
    }
}

/// What the owner of the driver is to do.
#[derive(Clone, Debug, PartialEq, Eq)]
pub enum ClientAction {
    /// Show the text on the console.
    Print(String),
    /// Load the thing and do not go on before it is there.
    Load(LoadRequest),
    /// A command that the driver leaves to its owner.
    Deferred(ServerCmd),
}

/// The value of a [`ClientAction`].
pub enum ActionView {
    Print(Seq<char>),
    Load(LoadView),
    Deferred(ServerCmdView),
}

impl View for ClientAction {
    type V = ActionView;

    open spec fn view(&self) -> ActionView {
        match self {
            ClientAction::Print(text) => ActionView::Print(text@),
            ClientAction::Load(request) => ActionView::Load(request@),
            ClientAction::Deferred(cmd) => ActionView::Deferred(cmd@),
        }
    }
}

/// The values of a list of actions.
pub open spec fn action_views(list: Seq<ClientAction>) -> Seq<ActionView> {
    Seq::new(list.len(), |i: int| list[i]@)
}

/// True when the name is that of a level's geometry: its bytes end in
/// `.bsp`.
pub open spec fn is_level_name(name: Seq<char>) -> bool {
    let b = encode_utf8(name);
    b.len() >= 4 && b[b.len() - 4] == 0x2e && b[b.len() - 3] == 0x62 && b[b.len() - 2] == 0x73
        && b[b.len() - 1] == 0x70
}

/// True when the name is that of a model inside a level: its first byte is
/// an asterisk.
pub open spec fn is_inline_name(name: Seq<char>) -> bool {
    let b = encode_utf8(name);
    b.len() >= 1 && b[0] == 0x2a
}

/// What is loaded for a model's name: the geometry of a level for a level's
/// name, nothing for a model inside a level, the model otherwise.
pub open spec fn model_load(name: Seq<char>) -> Seq<ActionView> {
    if is_level_name(name) {
        seq![ActionView::Load(LoadView { kind: AssetKind::Level, name })]
    } else if is_inline_name(name) {
        Seq::empty()
    } else {
        seq![ActionView::Load(LoadView { kind: AssetKind::Model, name })]
    }
}

/// What is loaded for a list of models' names, in their order.
pub open spec fn model_loads(names: Seq<Seq<char>>) -> Seq<ActionView>
    decreases names.len(),
{
    if names.len() == 0 {
        Seq::empty()
    } else {
        model_loads(names.drop_last()) + model_load(names.last())
    }
}

/// What is loaded for a list of sounds' names: every sound, in their order.
pub open spec fn sound_loads(names: Seq<Seq<char>>) -> Seq<ActionView> {
    Seq::new(
        names.len(),
        |i: int| ActionView::Load(LoadView { kind: AssetKind::Sound, name: names[i] }),
    )
}

/// The value of a [`Client`].
pub struct ClientView {
    pub qsock: QState,
    pub server_info: Option<ServerInfo>,
    pub model_precache: Seq<Seq<char>>,
    pub sound_precache: Seq<Seq<char>>,
}

impl ClientView {
    /// What the start of a session does. A server of another protocol
    /// version is an error that names both versions. Otherwise the driver
    /// keeps what the server announced, and its owner loads the models, then
    /// the sounds.
    pub open spec fn informed(self, info: ServerInfoView) -> Result<
        (ClientView, Seq<ActionView>),
        ClientFault,
    > {
        if info.protocol_version != PROTOCOL_VERSION {
            Err(
                ClientFault::ProtocolMismatch {
                    got: info.protocol_version,
                    expected: PROTOCOL_VERSION,
                },
            )
        } else {
            Ok(
                (
                    ClientView {
                        qsock: self.qsock,
                        server_info: Some(
                            ServerInfo {
                                protocol_version: info.protocol_version,
                                max_clients: info.max_clients,
                                game_type: info.game_type,
                            },
                        ),
                        model_precache: info.model_precache,
                        sound_precache: info.sound_precache,
                    },
                    model_loads(info.model_precache) + sound_loads(info.sound_precache),
                ),
            )
        }
    }

    /// What one command does: nothing for the command that asks for nothing,
    /// a line on the console for a print, the start of the session for the
    /// server's announcement; every other command is left to the owner.
    pub open spec fn dispatched(self, cmd: ServerCmdView) -> Result<
        (ClientView, Seq<ActionView>),
        ClientFault,
    > {
        match cmd {
            ServerCmdView::NoOp => Ok((self, Seq::empty())),
            ServerCmdView::Print(text) => Ok((self, seq![ActionView::Print(text)])),
            ServerCmdView::ServerInfo(info) => self.informed(info),
            _ => Ok((self, seq![ActionView::Deferred(cmd)])),
        }
    }

    /// What a message does: its commands are read and dispatched one after
    /// the other until the message ends, or a command cannot be read, or
    /// its dispatch fails. What was done before an error stays done.
    pub open spec fn handled(self, input: Seq<u8>) -> Handled
        decreases input.len(),
    {
        match decode_cmd(input) {
            Err(e) => Handled {
                state: self,
                actions: Seq::empty(),
                error: Some(ClientFault::Net(e)),
            },
            Ok(None) => Handled { state: self, actions: Seq::empty(), error: None },
            Ok(Some((cmd, n))) => match self.dispatched(cmd) {
                Err(fault) => Handled { state: self, actions: Seq::empty(), error: Some(fault) },
                Ok((next, first)) => {
                    if 0 < n <= input.len() {
                        let rest = next.handled(input.skip(n));
                        Handled {
                            state: rest.state,
                            actions: first + rest.actions,
                            error: rest.error,
                        }
                    } else {
                        Handled { state: next, actions: first, error: None }
                    }
                },
            },
        }
    }
}

/// What a message did: the state it left, what is to be done, and the error
/// that ended it, if one did.
pub struct Handled {
    pub state: ClientView,
    pub actions: Seq<ActionView>,
    pub error: Option<ClientFault>,
}

impl Handled {
    /// The same with `prefix` done before.
    pub open spec fn after(self, prefix: Seq<ActionView>) -> Handled {
        Handled { state: self.state, actions: prefix + self.actions, error: self.error }
    }
}

/// The session driver.
#[derive(Debug)]
pub struct Client {
    pub qsock: QSocket,
    pub server_info: Option<ServerInfo>,
    pub model_precache: Vec<String>,
    pub sound_precache: Vec<String>,
}

impl View for Client {
    type V = ClientView;

    open spec fn view(&self) -> ClientView {
        ClientView {
            qsock: self.qsock@,
            server_info: self.server_info,
            model_precache: texts(self.model_precache@),
            sound_precache: texts(self.sound_precache@),
        }
    }
}

/// True when the name is that of a level's geometry.
fn level_name(name: &str) -> (r: bool)
    ensures
        r == is_level_name(name@),
{
    let b = name.as_bytes();
    let n = b.len();
    n >= 4 && b[n - 4] == 0x2e && b[n - 3] == 0x62 && b[n - 2] == 0x73 && b[n - 1] == 0x70
}

/// True when the name is that of a model inside a level.
fn inline_name(name: &str) -> (r: bool)
    ensures
        r == is_inline_name(name@),
{
    let b = name.as_bytes();
    b.len() >= 1 && b[0] == 0x2a
}

/// Adds to `actions` what is loaded for the models' names.
fn plan_models(actions: &mut Vec<ClientAction>, names: &Vec<String>)
    ensures
        action_views(final(actions)@) == action_views(old(actions)@) + model_loads(texts(names@)),
{
    let ghost all = texts(names@);
    let ghost start = action_views(actions@);
    let mut i: usize = 0;
    proof {
        assert(all.take(0) =~= Seq::<Seq<char>>::empty());
        assert(start + model_loads(all.take(0)) =~= start);
    }
    while i < names.len()
        invariant
            0 <= i <= names.len(),
            all == texts(names@),
            action_views(actions@) == start + model_loads(all.take(i as int)),
        decreases names.len() - i,
    {
        let name = &names[i];
        let ghost before = action_views(actions@);
        proof {
            let now = all.take(i + 1);
            assert(now.drop_last() =~= all.take(i as int));
            assert(now.last() == name@);
        }
        if level_name(name.as_str()) {
            actions.push(
                ClientAction::Load(LoadRequest { kind: AssetKind::Level, name: name.clone() }),
            );
            proof {
                assert(action_views(actions@) =~= before + model_load(name@));
            }
        } else if !inline_name(name.as_str()) {
            actions.push(
                ClientAction::Load(LoadRequest { kind: AssetKind::Model, name: name.clone() }),
            );
            proof {
                assert(action_views(actions@) =~= before + model_load(name@));
            }
        } else {
            proof {
                assert(action_views(actions@) =~= before + model_load(name@));
            }
        }
        proof {
            assert(start + model_loads(all.take(i as int)) + model_load(name@) =~= start + (
            model_loads(all.take(i as int)) + model_load(name@)));
        }
        i = i + 1;
    }
    proof {
        assert(all.take(i as int) =~= all);
    }
}

/// Adds to `actions` what is loaded for the sounds' names.
fn plan_sounds(actions: &mut Vec<ClientAction>, names: &Vec<String>)
    ensures
        action_views(final(actions)@) == action_views(old(actions)@) + sound_loads(texts(names@)),
{
    let ghost all = texts(names@);
    let ghost start = action_views(actions@);
    let mut i: usize = 0;
    proof {
        assert(start + sound_loads(all.take(0)) =~= start);
    }
    while i < names.len()
        invariant
            0 <= i <= names.len(),
            all == texts(names@),
            action_views(actions@) == start + sound_loads(all.take(i as int)),
        decreases names.len() - i,
    {
        let name = &names[i];
        let ghost before = action_views(actions@);
        actions.push(
            ClientAction::Load(LoadRequest { kind: AssetKind::Sound, name: name.clone() }),
        );
        proof {
            let load = ActionView::Load(LoadView { kind: AssetKind::Sound, name: name@ });
            assert(all[i as int] == name@);
            assert(action_views(actions@) =~= before.push(load));
            assert(sound_loads(all.take(i + 1)) =~= sound_loads(all.take(i as int)).push(load));
            assert(action_views(actions@) =~= start + sound_loads(all.take(i + 1)));
        }
        i = i + 1;
    }
    proof {
        assert(all.take(i as int) =~= all);
    }
}

impl Client {
    /// The driver of a new session.
    pub fn new(qsock: QSocket) -> (r: Client)
        ensures
            r@ == (ClientView {
                qsock: qsock@,
                server_info: None,
                model_precache: Seq::empty(),
                sound_precache: Seq::empty(),
            }),
    {
        let r = Client {
            qsock,
            server_info: None,
            model_precache: Vec::new(),
            sound_precache: Vec::new(),
        };
        proof {
            assert(texts(r.model_precache@) =~= Seq::<Seq<char>>::empty());
            assert(texts(r.sound_precache@) =~= Seq::<Seq<char>>::empty());
        }
        r
    }

    /// Takes the server's announcement of a session. On a server of another
    /// protocol version nothing changes and the error names both versions.
    /// Otherwise the driver keeps what was announced and adds to `actions`
    /// the things to load.
    pub fn update_server_info(
        &mut self,
        server_info_cmd: ServerCmdServerInfo,
        actions: &mut Vec<ClientAction>,
    ) -> (r: Result<(), ClientError>)
        ensures
            match old(self)@.informed(server_info_cmd@) {
                Ok((state, added)) => r is Ok && final(self)@ == state && action_views(
                    final(actions)@,
                ) == action_views(old(actions)@) + added,
                Err(fault) => r matches Err(e) && e@ == fault && final(self)@ == old(self)@
                    && final(actions)@ == old(actions)@,
            },
    {
        if server_info_cmd.protocol_version != PROTOCOL_VERSION {
            return Err(
                ClientError::ProtocolMismatch {
                    got: server_info_cmd.protocol_version,
                    expected: PROTOCOL_VERSION,
                },
            );
        }
        let ghost start = action_views(actions@);
        let ghost info = server_info_cmd@;
        plan_models(actions, &server_info_cmd.model_precache);
        plan_sounds(actions, &server_info_cmd.sound_precache);
        proof {
            assert(start + model_loads(info.model_precache) + sound_loads(info.sound_precache)
                =~= start + (model_loads(info.model_precache) + sound_loads(
                info.sound_precache,
            )));
        }
        self.server_info = Some(
            ServerInfo {
                protocol_version: server_info_cmd.protocol_version,
                max_clients: server_info_cmd.max_clients,
                game_type: server_info_cmd.game_type,
            },
        );
        self.model_precache = server_info_cmd.model_precache;
        self.sound_precache = server_info_cmd.sound_precache;
        Ok(())
    }

    /// Acts on one command and adds to `actions` what is to be done. On an
    /// error nothing changes.
    pub fn dispatch(&mut self, cmd: ServerCmd, actions: &mut Vec<ClientAction>) -> (r: Result<
        (),
        ClientError,
    >)
        ensures
            match old(self)@.dispatched(cmd@) {
                Ok((state, added)) => r is Ok && final(self)@ == state && action_views(
                    final(actions)@,
                ) == action_views(old(actions)@) + added,
                Err(fault) => r matches Err(e) && e@ == fault && final(self)@ == old(self)@
                    && final(actions)@ == old(actions)@,
            },
    {
        let ghost start = action_views(actions@);
        let ghost value = cmd@;
        match cmd {
            ServerCmd::NoOp => {
                proof {
                    assert(start + Seq::<ActionView>::empty() =~= start);
                }
                Ok(())
            },
            ServerCmd::Print(print_cmd) => {
                actions.push(ClientAction::Print(print_cmd.text));
                proof {
                    assert(action_views(actions@) =~= start + seq![ActionView::Print(value->Print_0)]);
                }
                Ok(())
            },
            ServerCmd::ServerInfo(server_info) => self.update_server_info(server_info, actions),
            other => {
                actions.push(ClientAction::Deferred(other));
                proof {
                    assert(action_views(actions@) =~= start + seq![ActionView::Deferred(value)]);
                }
                Ok(())
            },
        }
    }

    /// Acts on a message that the transport completed: reads its commands
    /// one after the other and dispatches each. Returns what is to be done,
    /// in order, and the error that ended the message, if one did. An empty
    /// message asks for nothing and is no error.
    pub fn parse_server_msg(&mut self, msg: &[u8]) -> (r: (Vec<ClientAction>, Result<
        (),
        ClientError,
    >))
        ensures
            final(self)@ == old(self)@.handled(msg@).state,
            action_views(r.0@) == old(self)@.handled(msg@).actions,
            match old(self)@.handled(msg@).error {
                Some(fault) => r.1 matches Err(e) && e@ == fault,
                None => r.1 is Ok,
            },
    {
        let mut reader = Reader::new(msg);
        let mut actions: Vec<ClientAction> = Vec::new();
        proof {
            assert(action_views(actions@) =~= Seq::<ActionView>::empty());
            let whole = self@.handled(msg@);
            assert(action_views(actions@) + whole.actions =~= whole.actions);
        }
        loop
            invariant
                old(self)@.handled(msg@) == self@.handled(reader.remaining()).after(
                    action_views(actions@),
                ),
            decreases reader.remaining().len(),
        {
            let ghost cur = reader.remaining();
            let ghost before = action_views(actions@);
            let ghost state = self@;
            let cmd = match ServerCmd::read_cmd(&mut reader) {
                Err(e) => {
                    proof {
                        assert(before + Seq::<ActionView>::empty() =~= before);
                    }
                    return (actions, Err(ClientError::Net(e)));
                },
                Ok(None) => {
                    proof {
                        assert(before + Seq::<ActionView>::empty() =~= before);
                    }
                    return (actions, Ok(()));
                },
                Ok(Some(cmd)) => cmd,
            };
            let ghost value = cmd@;
            match self.dispatch(cmd, &mut actions) {
                Err(e) => {
                    proof {
                        assert(before + Seq::<ActionView>::empty() =~= before);
                    }
                    return (actions, Err(e));
                },
                Ok(()) => {
                    proof {
                        let first = decode_cmd(cur)->Ok_0->Some_0;
                        let added = state.dispatched(value)->Ok_0.1;
                        let rest = self@.handled(cur.skip(first.1));
                        assert(before + (added + rest.actions) =~= (before + added)
                            + rest.actions);
                    }
                },
            }
        }
    }

    /// The error that ends the session when a thing to load is not found:
    /// one for the geometry of a level, none for anything else.
    pub fn missing_asset(request: &LoadRequest) -> (r: Option<ClientError>)
        ensures
            request.kind == AssetKind::Level ==> (r matches Some(e) && e@ == ClientFault::Other(
                "Model not found in pak archive: "@ + request.name@,
            )),
            request.kind != AssetKind::Level ==> r is None,
    {
        match request.kind {
            AssetKind::Level => Some(
                ClientError::Other(
                    concat("Model not found in pak archive: ", request.name.as_str()),
                ),
            ),
            _ => None,
        }
    }
}

} // verus!
