use quake_net::addr::Endpoint;
use quake_net::client::{
    AssetKind, Client, ClientAction, LoadRequest, ServerInfo, PROTOCOL_VERSION,
};
use quake_net::cmd::{ServerCmdPrint, ServerCmdVersion};
use quake_net::error::{ClientError, NetError};
use quake_net::message::{encode_message, ServerCmd};
use quake_net::qsocket::QSocket;
use quake_net::server_info::ServerCmdServerInfo;

fn client() -> Client {
    Client::new(QSocket::new(Endpoint::v4(10, 0, 0, 1, 26001)))
}

fn info(version: i32) -> ServerCmdServerInfo {
    ServerCmdServerInfo {
        protocol_version: version,
        max_clients: 8,
        game_type: 1,
        model_precache: vec![
            "maps/e1m1.bsp".to_string(),
            "*1".to_string(),
            "*2".to_string(),
            "progs/player.mdl".to_string(),
            "maps/b_nail0.bsp".to_string(),
            ".bsp".to_string(),
            "bsp".to_string(),
            "a.bspx".to_string(),
            "*x.bsp".to_string(),
        ],
        sound_precache: vec!["weapons/r_exp3.wav".to_string(), "*odd".to_string()],
    }
}

fn load(kind: AssetKind, name: &str) -> ClientAction {
    ClientAction::Load(LoadRequest { kind, name: name.to_string() })
}

fn print(text: &str) -> ServerCmd {
    ServerCmd::Print(ServerCmdPrint { text: text.to_string() })
}

#[test]
fn new_driver_knows_nothing_of_the_server() {
    let c = client();
    assert_eq!(PROTOCOL_VERSION, 15);
    assert_eq!(c.server_info, None);
    assert!(c.model_precache.is_empty());
    assert!(c.sound_precache.is_empty());
    assert_eq!(c.qsock.remote(), Endpoint::v4(10, 0, 0, 1, 26001));
}

#[test]
fn empty_message_asks_for_nothing() {
    let mut c = client();
    let (actions, result) = c.parse_server_msg(&[]);
    assert!(actions.is_empty());
    assert_eq!(result, Ok(()));
}

#[test]
fn print_goes_to_the_console_and_no_op_nowhere() {
    let mut c = client();
    let message = encode_message(&vec![ServerCmd::NoOp, print("one"), ServerCmd::NoOp, print("two")]);
    let (actions, result) = c.parse_server_msg(&message);
    assert_eq!(result, Ok(()));
    assert_eq!(
        actions,
        vec![ClientAction::Print("one".to_string()), ClientAction::Print("two".to_string())]
    );
}

#[test]
fn server_info_is_kept_and_asks_for_its_loads_in_order() {
    let mut c = client();
    let message = encode_message(&vec![ServerCmd::ServerInfo(info(15)), print("after")]);
    let (actions, result) = c.parse_server_msg(&message);
    assert_eq!(result, Ok(()));
    assert_eq!(
        actions,
        vec![
            load(AssetKind::Level, "maps/e1m1.bsp"),
            load(AssetKind::Model, "progs/player.mdl"),
            load(AssetKind::Level, "maps/b_nail0.bsp"),
            load(AssetKind::Level, ".bsp"),
            load(AssetKind::Model, "bsp"),
            load(AssetKind::Model, "a.bspx"),
            load(AssetKind::Level, "*x.bsp"),
            load(AssetKind::Sound, "weapons/r_exp3.wav"),
            load(AssetKind::Sound, "*odd"),
            ClientAction::Print("after".to_string()),
        ]
    );
    assert_eq!(
        c.server_info,
        Some(ServerInfo { protocol_version: 15, max_clients: 8, game_type: 1 })
    );
    assert_eq!(c.model_precache, info(15).model_precache);
    assert_eq!(c.sound_precache, info(15).sound_precache);
}

#[test]
fn server_of_another_version_is_an_error_with_both_versions() {
    let mut c = client();
    let message = encode_message(&vec![print("before"), ServerCmd::ServerInfo(info(14)), print("after")]);
    let (actions, result) = c.parse_server_msg(&message);
    assert_eq!(actions, vec![ClientAction::Print("before".to_string())]);
    let error = result.unwrap_err();
    assert_eq!(error, ClientError::ProtocolMismatch { got: 14, expected: 15 });
    assert_eq!(error.message(), "Incompatible protocol version (got 14, should be 15)");
    assert_eq!(c.server_info, None);
    assert!(c.model_precache.is_empty());
}

#[test]
fn update_server_info_adds_to_the_actions_given() {
    let mut c = client();
    let mut actions = vec![ClientAction::Print("kept".to_string())];
    assert_eq!(
        c.update_server_info(info(3), &mut actions),
        Err(ClientError::ProtocolMismatch { got: 3, expected: 15 })
    );
    assert_eq!(actions.len(), 1);
    assert_eq!(c.update_server_info(info(15), &mut actions), Ok(()));
    assert_eq!(actions.len(), 10);
    assert_eq!(actions[0], ClientAction::Print("kept".to_string()));
    assert_eq!(actions[1], load(AssetKind::Level, "maps/e1m1.bsp"));
}

#[test]
fn other_commands_are_left_to_the_owner() {
    let mut c = client();
    let version = ServerCmd::Version(ServerCmdVersion { version: 15 });
    let message = encode_message(&vec![version.clone(), ServerCmd::Disconnect]);
    let (actions, result) = c.parse_server_msg(&message);
    assert_eq!(result, Ok(()));
    assert_eq!(
        actions,
        vec![ClientAction::Deferred(version), ClientAction::Deferred(ServerCmd::Disconnect)]
    );
    let mut more = Vec::new();
    assert_eq!(c.dispatch(ServerCmd::NoOp, &mut more), Ok(()));
    assert!(more.is_empty());
    assert_eq!(c.dispatch(print("p"), &mut more), Ok(()));
    assert_eq!(more, vec![ClientAction::Print("p".to_string())]);
}

#[test]
fn message_that_cannot_be_read_ends_with_what_was_read() {
    let mut c = client();
    let mut message = encode_message(&vec![print("ok")]);
    message.push(200);
    message.push(1);
    let (actions, result) = c.parse_server_msg(&message);
    assert_eq!(actions, vec![ClientAction::Print("ok".to_string())]);
    assert_eq!(result, Err(ClientError::Net(NetError::InvalidResponse(200))));

    let (actions, result) = c.parse_server_msg(&[8, b'a']);
    assert!(actions.is_empty());
    assert_eq!(
        result,
        Err(ClientError::Net(NetError::InvalidData("unterminated string".to_string())))
    );
}

#[test]
fn only_missing_level_geometry_ends_the_session() {
    let level = LoadRequest { kind: AssetKind::Level, name: "maps/e1m1.bsp".to_string() };
    assert_eq!(
        Client::missing_asset(&level),
        Some(ClientError::Other("Model not found in pak archive: maps/e1m1.bsp".to_string()))
    );
    let model = LoadRequest { kind: AssetKind::Model, name: "progs/player.mdl".to_string() };
    assert_eq!(Client::missing_asset(&model), None);
    let sound = LoadRequest { kind: AssetKind::Sound, name: "misc/null.wav".to_string() };
    assert_eq!(Client::missing_asset(&sound), None);
}
