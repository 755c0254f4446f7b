use quake_net::cmd::{
    read_angle, write_angle, Cmd, ServerCmdPrint, ServerCmdSetAngle, ServerCmdSetView,
    ServerCmdStuffText, ServerCmdTime, ServerCmdUpdateStat, ServerCmdVersion,
};
use quake_net::codes::{ClientCmd, ClientStat, ServerCmdCode, TempEntity};
use quake_net::error::NetError;
use quake_net::flags::{
    ExtendedUpdateFlags, SoundFlags, UpdateFlags, EXTENDED_ALL, EXTENDED_ITEMS, EXTENDED_VIEW_HEIGHT,
    EXTENDED_WEAPON, UPDATE_ALL, UPDATE_LONG_ENTITY, UPDATE_MORE_BITS, UPDATE_SIGNAL,
};
use quake_net::message::{decode_message, encode_message, ServerCmd};
use quake_net::quant::{Angle, AngleVector, Coord, CoordVector};
use quake_net::server_info::{read_names, write_names, ServerCmdServerInfo};
use quake_net::sound::{
    read_coord, read_optional_u8, write_coord, write_optional_u8, ServerCmdSound,
    ServerCmdStopSound,
};
use quake_net::updates::{
    ServerCmdLightStyle, ServerCmdUpdateColors, ServerCmdUpdateFrags, ServerCmdUpdateName,
};
use quake_net::wire::{
    put_bytes, put_cstring, put_i16, put_i32, put_i8, put_u16_be, put_u32, put_u32_be, Reader,
};

fn content_of<C: Cmd>(cmd: &C) -> Vec<u8> {
    let mut out = Vec::new();
    cmd.write_content(&mut out).unwrap();
    out
}

fn whole_of<C: Cmd>(cmd: &C) -> Vec<u8> {
    let mut out = Vec::new();
    cmd.write_cmd(&mut out).unwrap();
    out
}

fn sound(volume: Option<u8>, attenuation: Option<u8>) -> ServerCmdSound {
    ServerCmdSound {
        volume,
        attenuation,
        entity_id: 5,
        channel: 3,
        sound_id: 7,
        position: CoordVector {
            x: Coord { eighths: 8 },
            y: Coord { eighths: -8 },
            z: Coord { eighths: 32767 },
        },
    }
}

fn server_info() -> ServerCmdServerInfo {
    ServerCmdServerInfo {
        protocol_version: 15,
        max_clients: 4,
        game_type: 1,
        model_precache: vec!["maps/e1m1.bsp".to_string(), "*1".to_string(), "progs/player.mdl".to_string()],
        sound_precache: vec!["weapons/r_exp3.wav".to_string()],
    }
}

#[test]
fn little_endian_numbers_are_written_low_byte_first() {
    let mut out = Vec::new();
    put_i16(&mut out, 0x1234);
    put_i16(&mut out, -2);
    put_i32(&mut out, 0x0102_0304);
    put_i32(&mut out, -1_000_000);
    put_u32(&mut out, 0xDEAD_BEEF);
    assert_eq!(
        out,
        vec![
            0x34, 0x12, 0xFE, 0xFF, 0x04, 0x03, 0x02, 0x01, 0xC0, 0xBD, 0xF0, 0xFF, 0xEF, 0xBE,
            0xAD, 0xDE
        ]
    );
}

#[test]
fn big_endian_numbers_are_written_high_byte_first() {
    let mut out = Vec::new();
    put_u16_be(&mut out, 0x1234);
    put_u32_be(&mut out, 0xDEAD_BEEF);
    assert_eq!(out, vec![0x12, 0x34, 0xDE, 0xAD, 0xBE, 0xEF]);
}

#[test]
fn reader_reads_each_width_and_moves_on() {
    let data = [0x80u8, 0xFF, 0x34, 0x12, 0xFE, 0xFF, 0xC0, 0xBD, 0xF0, 0xFF, 0xEF, 0xBE, 0xAD, 0xDE, 0x12, 0x34, 0xDE, 0xAD, 0xBE, 0xEF];
    let mut reader = Reader::new(&data);
    assert_eq!(reader.len(), 20);
    assert_eq!(reader.read_u8().unwrap(), 0x80);
    assert_eq!(reader.read_i8().unwrap(), -1);
    assert_eq!(reader.read_i16().unwrap(), 0x1234);
    assert_eq!(reader.read_i16().unwrap(), -2);
    assert_eq!(reader.read_i32().unwrap(), -1_000_000);
    assert_eq!(reader.read_u32().unwrap(), 0xDEAD_BEEF);
    assert_eq!(reader.read_u16_be().unwrap(), 0x1234);
    assert!(!reader.is_empty());
    assert_eq!(reader.read_u32_be().unwrap(), 0xDEAD_BEEF);
    assert!(reader.is_empty());
    assert_eq!(reader.len(), 0);
}

#[test]
fn reader_reports_a_field_cut_short_and_stays() {
    let data = [1u8, 2, 3];
    let mut reader = Reader::new(&data);
    let expected = NetError::InvalidData("failed to fill whole buffer".to_string());
    assert_eq!(reader.read_i32().unwrap_err(), expected);
    assert_eq!(reader.read_u32().unwrap_err(), expected);
    assert_eq!(reader.read_u32_be().unwrap_err(), expected);
    assert_eq!(reader.len(), 3);
    assert_eq!(reader.read_i16().unwrap(), 0x0201);
    assert_eq!(reader.read_i16().unwrap_err(), expected);
    assert_eq!(reader.read_u16_be().unwrap_err(), expected);
    assert_eq!(reader.read_u8().unwrap(), 3);
    assert_eq!(reader.read_u8().unwrap_err(), expected);
    assert_eq!(reader.read_i8().unwrap_err(), expected);
    assert!(reader.read_to_end().is_empty());
}

#[test]
fn signed_byte_is_written_as_twos_complement() {
    let mut out = Vec::new();
    put_i8(&mut out, -1);
    put_i8(&mut out, -128);
    put_i8(&mut out, 127);
    put_i8(&mut out, 0);
    assert_eq!(out, vec![0xFF, 0x80, 0x7F, 0x00]);
}

#[test]
fn text_is_written_with_its_terminator_and_read_back() {
    let mut out = vec![9u8];
    put_cstring(&mut out, "hi");
    put_cstring(&mut out, "");
    put_bytes(&mut out, &[7, 8]);
    assert_eq!(out, vec![9, b'h', b'i', 0, 0, 7, 8]);
    let mut reader = Reader::new(&out[1..]);
    assert_eq!(reader.read_cstring().unwrap(), "hi");
    assert_eq!(reader.read_cstring().unwrap(), "");
    assert_eq!(reader.read_to_end(), vec![7, 8]);
}

#[test]
fn text_with_more_than_ascii_comes_back() {
    let mut out = Vec::new();
    put_cstring(&mut out, "gr\u{fc}\u{df}e \u{4e16}\u{754c}");
    let mut reader = Reader::new(&out);
    assert_eq!(reader.read_cstring().unwrap(), "gr\u{fc}\u{df}e \u{4e16}\u{754c}");
    assert!(reader.is_empty());
}

#[test]
fn text_without_terminator_is_an_error() {
    let data = [b'a', b'b'];
    let mut reader = Reader::new(&data);
    assert_eq!(
        reader.read_cstring().unwrap_err(),
        NetError::InvalidData("unterminated string".to_string())
    );
    assert_eq!(reader.len(), 2);
    let nothing: [u8; 0] = [];
    let mut empty = Reader::new(&nothing);
    assert_eq!(
        empty.read_cstring().unwrap_err(),
        NetError::InvalidData("unterminated string".to_string())
    );
}

#[test]
fn text_that_is_no_utf8_is_an_error_with_the_reason() {
    let data = [b'a', 0xFF, 0, 1];
    let mut reader = Reader::new(&data);
    match reader.read_cstring() {
        Err(NetError::Other(reason)) => {
            assert_eq!(reason, "invalid utf-8 sequence of 1 bytes from index 1")
        }
        other => panic!("unexpected result: {:?}", other),
    }
    assert_eq!(reader.len(), 4);
}

#[test]
fn client_stat_codes_are_fixed() {
    assert_eq!(ClientStat::Health.code(), 0);
    assert_eq!(ClientStat::Armor.code(), 4);
    assert_eq!(ClientStat::KilledMonsters.code(), 14);
    assert_eq!(ClientStat::from_u8(10), Some(ClientStat::ActiveWeapon));
    assert_eq!(ClientStat::from_u8(15), None);
    for code in 0..=255u8 {
        match ClientStat::from_u8(code) {
            Some(stat) => assert_eq!(stat.code(), code),
            None => assert!(code > 14),
        }
    }
}

#[test]
fn server_command_codes_are_fixed() {
    assert_eq!(ServerCmdCode::Bad.code(), 0);
    assert_eq!(ServerCmdCode::NoOp.code(), 1);
    assert_eq!(ServerCmdCode::Disconnect.code(), 2);
    assert_eq!(ServerCmdCode::UpdateStat.code(), 3);
    assert_eq!(ServerCmdCode::SpawnStatic.code(), 20);
    assert_eq!(ServerCmdCode::SpawnBaseline.code(), 22);
    assert_eq!(ServerCmdCode::Cutscene.code(), 34);
    assert_eq!(ServerCmdCode::from_u8(21), None);
    assert_eq!(ServerCmdCode::from_u8(35), None);
    assert_eq!(ServerCmdCode::from_u8(11), Some(ServerCmdCode::ServerInfo));
    for code in 0..=255u8 {
        match ServerCmdCode::from_u8(code) {
            Some(c) => assert_eq!(c.code(), code),
            None => assert!(code == 21 || code > 34),
        }
    }
}

#[test]
fn client_command_and_effect_codes_are_fixed() {
    assert_eq!(ClientCmd::Bad.code(), 0);
    assert_eq!(ClientCmd::StringCmd.code(), 4);
    assert_eq!(ClientCmd::from_u8(3), Some(ClientCmd::Move));
    assert_eq!(ClientCmd::from_u8(5), None);
    assert_eq!(TempEntity::Spike.code(), 0);
    assert_eq!(TempEntity::Beam.code(), 13);
    assert_eq!(TempEntity::from_u8(11), Some(TempEntity::Teleport));
    assert_eq!(TempEntity::from_u8(14), None);
}

#[test]
fn update_stat_has_its_bytes() {
    let cmd = ServerCmdUpdateStat { stat: ClientStat::Armor, value: 100 };
    assert_eq!(cmd.code(), 3);
    assert_eq!(content_of(&cmd), vec![4, 100, 0, 0, 0]);
    assert_eq!(whole_of(&cmd), vec![3, 4, 100, 0, 0, 0]);
    let data = [4u8, 100, 0, 0, 0, 99];
    let mut reader = Reader::new(&data);
    assert_eq!(ServerCmdUpdateStat::read_content(&mut reader).unwrap(), cmd);
    assert_eq!(reader.len(), 1);
}

#[test]
fn update_stat_rejects_a_number_that_names_no_stat() {
    let data = [15u8, 0, 0, 0, 0];
    let mut reader = Reader::new(&data);
    assert_eq!(
        ServerCmdUpdateStat::read_content(&mut reader).unwrap_err(),
        NetError::Other("Invalid value for ClientStat: 15".to_string())
    );
    let short = [200u8];
    let mut reader = Reader::new(&short);
    assert_eq!(
        ServerCmdUpdateStat::read_content(&mut reader).unwrap_err(),
        NetError::Other("Invalid value for ClientStat: 200".to_string())
    );
}

#[test]
fn update_stat_cut_short_is_an_error() {
    let expected = NetError::InvalidData("failed to fill whole buffer".to_string());
    let data = [4u8, 1, 0, 0];
    let mut reader = Reader::new(&data);
    assert_eq!(ServerCmdUpdateStat::read_content(&mut reader).unwrap_err(), expected);
    let nothing: [u8; 0] = [];
    let mut reader = Reader::new(&nothing);
    assert_eq!(ServerCmdUpdateStat::read_content(&mut reader).unwrap_err(), expected);
}

#[test]
fn version_set_view_and_time_have_their_bytes() {
    let version = ServerCmdVersion { version: 15 };
    assert_eq!(whole_of(&version), vec![4, 15, 0, 0, 0]);
    let view = ServerCmdSetView { view_ent: -2 };
    assert_eq!(whole_of(&view), vec![5, 0xFE, 0xFF]);
    let time = ServerCmdTime { time_bits: 1.5f32.to_bits() };
    assert_eq!(whole_of(&time), vec![7, 0x00, 0x00, 0xC0, 0x3F]);

    let mut reader = Reader::new(&[15, 0, 0, 0]);
    assert_eq!(ServerCmdVersion::read_content(&mut reader).unwrap(), version);
    let mut reader = Reader::new(&[0xFE, 0xFF]);
    assert_eq!(ServerCmdSetView::read_content(&mut reader).unwrap(), view);
    let mut reader = Reader::new(&[0x00, 0x00, 0xC0, 0x3F]);
    let back = ServerCmdTime::read_content(&mut reader).unwrap();
    assert_eq!(f32::from_bits(back.time_bits), 1.5f32);
}

#[test]
fn print_and_stuff_text_have_their_bytes() {
    let print = ServerCmdPrint { text: "hello".to_string() };
    assert_eq!(whole_of(&print), vec![8, b'h', b'e', b'l', b'l', b'o', 0]);
    let stuff = ServerCmdStuffText { text: "bf\n".to_string() };
    assert_eq!(whole_of(&stuff), vec![9, b'b', b'f', b'\n', 0]);
    let mut reader = Reader::new(&[b'h', b'e', b'l', b'l', b'o', 0, 1]);
    assert_eq!(ServerCmdPrint::read_content(&mut reader).unwrap(), print);
    assert_eq!(reader.len(), 1);
    let mut reader = Reader::new(&[b'b', b'f', b'\n', 0]);
    assert_eq!(ServerCmdStuffText::read_content(&mut reader).unwrap(), stuff);
    let mut reader = Reader::new(&[b'b', b'f']);
    assert_eq!(
        ServerCmdStuffText::read_content(&mut reader).unwrap_err(),
        NetError::InvalidData("unterminated string".to_string())
    );
}

#[test]
fn set_angle_has_its_bytes() {
    let cmd = ServerCmdSetAngle {
        angles: AngleVector {
            x: Angle { steps: 64 },
            y: Angle { steps: -64 },
            z: Angle { steps: -128 },
        },
    };
    assert_eq!(whole_of(&cmd), vec![10, 0x40, 0xC0, 0x80]);
    let mut reader = Reader::new(&[0x40, 0xC0, 0x80]);
    assert_eq!(ServerCmdSetAngle::read_content(&mut reader).unwrap(), cmd);
    let mut reader = Reader::new(&[0x40, 0xC0]);
    assert_eq!(
        ServerCmdSetAngle::read_content(&mut reader).unwrap_err(),
        NetError::InvalidData("failed to fill whole buffer".to_string())
    );
}

#[test]
fn angle_and_coord_fields_have_their_bytes() {
    let mut out = Vec::new();
    write_angle(&mut out, Angle { steps: -1 });
    write_coord(&mut out, Coord { eighths: -12 });
    assert_eq!(out, vec![0xFF, 0xF4, 0xFF]);
    let mut reader = Reader::new(&out);
    assert_eq!(read_angle(&mut reader).unwrap(), Angle { steps: -1 });
    assert_eq!(read_coord(&mut reader).unwrap(), Coord { eighths: -12 });
    assert!(read_coord(&mut reader).is_err());
    assert!(read_angle(&mut reader).is_err());
}

#[test]
fn sound_flags_know_their_bits() {
    assert_eq!(SoundFlags::volume().bits(), 1);
    assert_eq!(SoundFlags::attenuation().bits(), 2);
    assert_eq!(SoundFlags::looping().bits(), 4);
    assert_eq!(SoundFlags::empty().bits(), 0);
    assert_eq!(SoundFlags::from_bits(8), None);
    assert_eq!(SoundFlags::from_bits(255), None);
    let all = SoundFlags::from_bits(7).unwrap();
    assert!(all.contains(SoundFlags::volume()));
    assert!(all.contains(SoundFlags::looping()));
    let mut flags = SoundFlags::empty();
    assert!(!flags.contains(SoundFlags::volume()));
    assert!(flags.contains(SoundFlags::empty()));
    flags.insert(SoundFlags::attenuation());
    assert_eq!(flags.bits(), 2);
    assert!(flags.contains(SoundFlags::attenuation()));
    assert!(!flags.contains(SoundFlags::volume()));
    flags.insert(SoundFlags::volume());
    assert_eq!(flags, SoundFlags::from_bits(3).unwrap());
}

#[test]
fn optional_field_is_read_and_written_only_when_present() {
    let mut out = Vec::new();
    write_optional_u8(&mut out, None);
    assert!(out.is_empty());
    write_optional_u8(&mut out, Some(0));
    assert_eq!(out, vec![0]);
    let mut reader = Reader::new(&out);
    assert_eq!(read_optional_u8(&mut reader, false).unwrap(), None);
    assert_eq!(reader.len(), 1);
    assert_eq!(read_optional_u8(&mut reader, true).unwrap(), Some(0));
    assert_eq!(read_optional_u8(&mut reader, false).unwrap(), None);
    assert!(read_optional_u8(&mut reader, true).is_err());
}

#[test]
fn sound_with_volume_only_has_its_bytes() {
    let cmd = sound(Some(200), None);
    assert_eq!(cmd.code(), 6);
    assert_eq!(
        content_of(&cmd),
        vec![1, 200, 43, 0, 7, 8, 0, 0xF8, 0xFF, 0xFF, 0x7F]
    );
}

#[test]
fn sound_with_each_subset_of_optional_fields_comes_back_with_that_subset() {
    let cases = [
        (None, None, 0u8, 10usize),
        (Some(0u8), None, 1, 11),
        (None, Some(0u8), 2, 11),
        (Some(0), Some(0), 3, 12),
        (Some(255), Some(64), 3, 12),
    ];
    for (volume, attenuation, flags, len) in cases {
        let cmd = sound(volume, attenuation);
        let bytes = content_of(&cmd);
        assert_eq!(bytes[0], flags);
        assert_eq!(bytes.len(), len);
        let mut reader = Reader::new(&bytes);
        let back = ServerCmdSound::read_content(&mut reader).unwrap();
        assert_eq!(back.volume, volume);
        assert_eq!(back.attenuation, attenuation);
        assert_eq!(back, cmd);
        assert!(reader.is_empty());
    }
}

#[test]
fn sound_reads_presence_from_the_flags_alone() {
    // the looping bit brings no field with it
    let data = [4u8, 43, 0, 7, 8, 0, 0xF8, 0xFF, 0xFF, 0x7F, 0xAA];
    let mut reader = Reader::new(&data);
    let back = ServerCmdSound::read_content(&mut reader).unwrap();
    assert_eq!(back, sound(None, None));
    assert_eq!(reader.len(), 1);
    // attenuation without volume: the byte behind the flags is the attenuation
    let data = [2u8, 9, 43, 0, 7, 8, 0, 0xF8, 0xFF, 0xFF, 0x7F];
    let mut reader = Reader::new(&data);
    assert_eq!(ServerCmdSound::read_content(&mut reader).unwrap(), sound(None, Some(9)));
}

#[test]
fn sound_rejects_flags_that_are_none() {
    let data = [8u8, 43, 0, 7, 8, 0, 0xF8, 0xFF, 0xFF, 0x7F];
    let mut reader = Reader::new(&data);
    assert_eq!(
        ServerCmdSound::read_content(&mut reader).unwrap_err(),
        NetError::Other("Invalid value for SoundFlags: 1000".to_string())
    );
    let data = [0xFFu8];
    let mut reader = Reader::new(&data);
    assert_eq!(
        ServerCmdSound::read_content(&mut reader).unwrap_err(),
        NetError::Other("Invalid value for SoundFlags: 11111111".to_string())
    );
}

#[test]
fn sound_cut_short_is_an_error() {
    let whole = content_of(&sound(Some(1), Some(2)));
    for len in 0..whole.len() {
        let mut reader = Reader::new(&whole[..len]);
        assert_eq!(
            ServerCmdSound::read_content(&mut reader).unwrap_err(),
            NetError::InvalidData("failed to fill whole buffer".to_string())
        );
    }
}

#[test]
fn sound_entity_and_channel_share_a_word() {
    let mut cmd = sound(None, None);
    cmd.entity_id = 4095;
    cmd.channel = 7;
    let bytes = content_of(&cmd);
    assert_eq!(&bytes[1..3], &[0xFF, 0x7F]);
    let mut reader = Reader::new(&bytes);
    assert_eq!(ServerCmdSound::read_content(&mut reader).unwrap(), cmd);

    // a word with its highest bit set gives an entity with its high bits set
    let data = [0u8, 0x01, 0x80, 7, 0, 0, 0, 0, 0, 0];
    let mut reader = Reader::new(&data);
    let back = ServerCmdSound::read_content(&mut reader).unwrap();
    assert_eq!(back.entity_id, 0xF000);
    assert_eq!(back.channel, 1);
    assert_eq!(content_of(&back), data.to_vec());

    // writing keeps the low thirteen bits of the entity and the low three of the channel
    cmd.entity_id = 8192 + 2;
    cmd.channel = 8 + 1;
    assert_eq!(&content_of(&cmd)[1..3], &[17, 0]);
}

#[test]
fn stop_sound_has_its_bytes() {
    let cmd = ServerCmdStopSound { entity_id: 5, channel: 3 };
    assert_eq!(whole_of(&cmd), vec![16, 43, 0]);
    let mut reader = Reader::new(&[43, 0]);
    assert_eq!(ServerCmdStopSound::read_content(&mut reader).unwrap(), cmd);
    let mut reader = Reader::new(&[43]);
    assert!(ServerCmdStopSound::read_content(&mut reader).is_err());
}

#[test]
fn small_updates_have_their_bytes() {
    let style = ServerCmdLightStyle { id: 3, value: "mmamam".to_string() };
    assert_eq!(whole_of(&style), vec![12, 3, b'm', b'm', b'a', b'm', b'a', b'm', 0]);
    let name = ServerCmdUpdateName { player_id: 1, new_name: "bob".to_string() };
    assert_eq!(whole_of(&name), vec![13, 1, b'b', b'o', b'b', 0]);
    let frags = ServerCmdUpdateFrags { player_id: 2, new_frags: -3 };
    assert_eq!(whole_of(&frags), vec![14, 2, 0xFD, 0xFF]);
    let colors = ServerCmdUpdateColors { client_id: 2, colors: 0x4D };
    assert_eq!(whole_of(&colors), vec![17, 2, 0x4D]);

    let mut reader = Reader::new(&[3, b'm', b'm', b'a', b'm', b'a', b'm', 0]);
    assert_eq!(ServerCmdLightStyle::read_content(&mut reader).unwrap(), style);
    let mut reader = Reader::new(&[1, b'b', b'o', b'b', 0]);
    assert_eq!(ServerCmdUpdateName::read_content(&mut reader).unwrap(), name);
    let mut reader = Reader::new(&[2, 0xFD, 0xFF]);
    assert_eq!(ServerCmdUpdateFrags::read_content(&mut reader).unwrap(), frags);
    let mut reader = Reader::new(&[2, 0x4D]);
    assert_eq!(ServerCmdUpdateColors::read_content(&mut reader).unwrap(), colors);

    let mut reader = Reader::new(&[1, b'b']);
    assert_eq!(
        ServerCmdUpdateName::read_content(&mut reader).unwrap_err(),
        NetError::InvalidData("unterminated string".to_string())
    );
    let mut reader = Reader::new(&[]);
    assert_eq!(
        ServerCmdLightStyle::read_content(&mut reader).unwrap_err(),
        NetError::InvalidData("failed to fill whole buffer".to_string())
    );
    let mut reader = Reader::new(&[2, 0xFD]);
    assert!(ServerCmdUpdateFrags::read_content(&mut reader).is_err());
    let mut reader = Reader::new(&[2]);
    assert!(ServerCmdUpdateColors::read_content(&mut reader).is_err());
}

#[test]
fn name_list_ends_with_an_empty_text() {
    let mut out = Vec::new();
    write_names(&mut out, &vec!["a".to_string(), "bc".to_string()]);
    assert_eq!(out, vec![b'a', 0, b'b', b'c', 0, 0]);
    let mut empty = Vec::new();
    write_names(&mut empty, &Vec::new());
    assert_eq!(empty, vec![0]);

    out.push(42);
    let mut reader = Reader::new(&out);
    assert_eq!(read_names(&mut reader).unwrap(), vec!["a".to_string(), "bc".to_string()]);
    assert_eq!(reader.len(), 1);
    let mut reader = Reader::new(&empty);
    assert!(read_names(&mut reader).unwrap().is_empty());
    assert!(reader.is_empty());
}

#[test]
fn name_list_without_its_end_is_an_error() {
    let mut reader = Reader::new(&[b'a', 0, b'b', 0]);
    assert_eq!(
        read_names(&mut reader).unwrap_err(),
        NetError::InvalidData("unterminated string".to_string())
    );
    let mut reader = Reader::new(&[b'a', 0, b'b']);
    assert_eq!(
        read_names(&mut reader).unwrap_err(),
        NetError::InvalidData("unterminated string".to_string())
    );
}

#[test]
fn server_info_has_its_bytes() {
    let cmd = ServerCmdServerInfo {
        protocol_version: 15,
        max_clients: 4,
        game_type: 1,
        model_precache: vec!["m".to_string()],
        sound_precache: vec!["s".to_string(), "t".to_string()],
    };
    assert_eq!(cmd.code(), 11);
    let bytes = vec![0x0F, 0x00, 0x00, 0x00, 0x04, 0x01, 0x6D, 0x00, 0x00, 0x73, 0x00, 0x74, 0x00, 0x00];
    assert_eq!(content_of(&cmd), bytes);
    let mut reader = Reader::new(&bytes);
    assert_eq!(ServerCmdServerInfo::read_content(&mut reader).unwrap(), cmd);
    assert!(reader.is_empty());
}

#[test]
fn server_info_without_names_has_one_zero_for_each_list() {
    let cmd = ServerCmdServerInfo {
        protocol_version: -2,
        max_clients: 1,
        game_type: 0,
        model_precache: Vec::new(),
        sound_precache: Vec::new(),
    };
    assert_eq!(content_of(&cmd), vec![0xFE, 0xFF, 0xFF, 0xFF, 1, 0, 0, 0]);
    let mut reader = Reader::new(&[0xFE, 0xFF, 0xFF, 0xFF, 1, 0, 0, 0, 9]);
    assert_eq!(ServerCmdServerInfo::read_content(&mut reader).unwrap(), cmd);
    assert_eq!(reader.len(), 1);
}

#[test]
fn server_info_length_is_eight_and_the_names_with_their_zeros() {
    let cmd = server_info();
    let names = cmd.model_precache.len() + cmd.sound_precache.len();
    let letters: usize =
        cmd.model_precache.iter().chain(cmd.sound_precache.iter()).map(|n| n.len()).sum();
    assert_eq!(content_of(&cmd).len(), 8 + names + letters);
}

#[test]
fn server_info_comes_back() {
    let cmd = server_info();
    let mut bytes = content_of(&cmd);
    bytes.push(1);
    let mut reader = Reader::new(&bytes);
    assert_eq!(ServerCmdServerInfo::read_content(&mut reader).unwrap(), cmd);
    assert_eq!(reader.len(), 1);
}

#[test]
fn server_info_cut_short_is_an_error_not_a_panic() {
    let whole = content_of(&server_info());
    for len in 0..whole.len() {
        let mut reader = Reader::new(&whole[..len]);
        match ServerCmdServerInfo::read_content(&mut reader) {
            Err(NetError::InvalidData(_)) => {}
            other => panic!("unexpected result at {}: {:?}", len, other),
        }
    }
}

#[test]
fn every_command_comes_back_from_its_bytes() {
    let cmds = vec![
        ServerCmd::NoOp,
        ServerCmd::UpdateStat(ServerCmdUpdateStat { stat: ClientStat::Rockets, value: -7 }),
        ServerCmd::Version(ServerCmdVersion { version: i32::MIN }),
        ServerCmd::SetView(ServerCmdSetView { view_ent: i16::MAX }),
        ServerCmd::Sound(sound(Some(1), None)),
        ServerCmd::Time(ServerCmdTime { time_bits: 0xFFFF_FFFF }),
        ServerCmd::Print(ServerCmdPrint { text: "one".to_string() }),
        ServerCmd::StuffText(ServerCmdStuffText { text: String::new() }),
        ServerCmd::SetAngle(ServerCmdSetAngle {
            angles: AngleVector {
                x: Angle { steps: 1 },
                y: Angle { steps: -1 },
                z: Angle { steps: 127 },
            },
        }),
        ServerCmd::ServerInfo(server_info()),
        ServerCmd::LightStyle(ServerCmdLightStyle { id: 0, value: "a".to_string() }),
        ServerCmd::UpdateName(ServerCmdUpdateName { player_id: 3, new_name: "n".to_string() }),
        ServerCmd::UpdateFrags(ServerCmdUpdateFrags { player_id: 3, new_frags: 10 }),
        ServerCmd::StopSound(ServerCmdStopSound { entity_id: 0xFFFF, channel: 0 }),
        ServerCmd::UpdateColors(ServerCmdUpdateColors { client_id: 1, colors: 2 }),
        ServerCmd::Disconnect,
    ];
    let expected_codes = [1u8, 3, 4, 5, 6, 7, 8, 9, 10, 11, 12, 13, 14, 16, 17, 2];
    for (cmd, code) in cmds.iter().zip(expected_codes) {
        assert_eq!(cmd.code(), code);
        let mut out = Vec::new();
        cmd.write_cmd(&mut out).unwrap();
        assert_eq!(out[0], code);
        let mut reader = Reader::new(&out);
        assert_eq!(ServerCmd::read_cmd(&mut reader).unwrap().as_ref(), Some(cmd));
        assert!(reader.is_empty());
        assert_eq!(ServerCmd::read_cmd(&mut reader).unwrap(), None);
    }
    let message = encode_message(&cmds);
    let (back, error) = decode_message(&message);
    assert_eq!(error, None);
    assert_eq!(back, cmds);
}

#[test]
fn empty_message_holds_nothing_and_is_no_error() {
    let (cmds, error) = decode_message(&[]);
    assert!(cmds.is_empty());
    assert_eq!(error, None);
    assert!(encode_message(&Vec::new()).is_empty());
}

#[test]
fn message_has_its_bytes() {
    let cmds = vec![
        ServerCmd::NoOp,
        ServerCmd::Version(ServerCmdVersion { version: 15 }),
        ServerCmd::Print(ServerCmdPrint { text: "x".to_string() }),
    ];
    assert_eq!(encode_message(&cmds), vec![1, 4, 15, 0, 0, 0, 8, b'x', 0]);
}

#[test]
fn unknown_code_ends_the_message_with_an_error() {
    let (cmds, error) = decode_message(&[1, 1, 99, 1]);
    assert_eq!(cmds, vec![ServerCmd::NoOp, ServerCmd::NoOp]);
    assert_eq!(error, Some(NetError::InvalidResponse(99)));
    let (cmds, error) = decode_message(&[21]);
    assert!(cmds.is_empty());
    assert_eq!(error, Some(NetError::InvalidResponse(21)));
}

#[test]
fn bad_code_ends_the_message_with_an_error() {
    let (cmds, error) = decode_message(&[2, 0, 1]);
    assert_eq!(cmds, vec![ServerCmd::Disconnect]);
    assert_eq!(error, Some(NetError::InvalidResponse(0)));
}

#[test]
fn command_without_a_reader_ends_the_message_with_an_error() {
    let (cmds, error) = decode_message(&[1, 25, 1]);
    assert_eq!(cmds, vec![ServerCmd::NoOp]);
    assert_eq!(error, Some(NetError::Other("Unsupported server command: 25".to_string())));
    let mut reader = Reader::new(&[15]);
    assert_eq!(
        ServerCmd::read_cmd(&mut reader).unwrap_err(),
        NetError::Other("Unsupported server command: 15".to_string())
    );
}

#[test]
fn command_cut_short_ends_the_message_with_an_error() {
    let (cmds, error) = decode_message(&[8, b'a', 0, 4, 15, 0]);
    assert_eq!(cmds, vec![ServerCmd::Print(ServerCmdPrint { text: "a".to_string() })]);
    assert_eq!(error, Some(NetError::InvalidData("failed to fill whole buffer".to_string())));
}

#[test]
fn update_flags_know_their_bits() {
    assert_eq!(UPDATE_MORE_BITS, 1 << 0);
    assert_eq!(UPDATE_SIGNAL, 1 << 7);
    assert_eq!(UPDATE_LONG_ENTITY, 1 << 14);
    assert_eq!(UPDATE_ALL, 0x7FFF);
    assert_eq!(UpdateFlags::empty().bits(), 0);
    assert_eq!(UpdateFlags::from_bits(0x8000), None);
    assert_eq!(UpdateFlags::from_bits(0xFFFF), None);
    let mut flags = UpdateFlags::from_bits(UPDATE_SIGNAL).unwrap();
    let long = UpdateFlags::from_bits(UPDATE_LONG_ENTITY).unwrap();
    assert!(!flags.contains(long));
    flags.insert(long);
    assert_eq!(flags.bits(), 0x4080);
    assert!(flags.contains(long));
    assert_eq!(UpdateFlags::from_bits(UPDATE_ALL).unwrap().bits(), 0x7FFF);
}

#[test]
fn extended_update_flags_know_their_bits() {
    assert_eq!(EXTENDED_VIEW_HEIGHT, 1 << 0);
    assert_eq!(EXTENDED_ITEMS, 1 << 9);
    assert_eq!(EXTENDED_WEAPON, 1 << 14);
    assert_eq!(EXTENDED_ALL, 0x7EFF);
    assert_eq!(ExtendedUpdateFlags::empty().bits(), 0);
    assert_eq!(ExtendedUpdateFlags::from_bits(0x0100), None);
    assert_eq!(ExtendedUpdateFlags::from_bits(0x8000), None);
    assert_eq!(ExtendedUpdateFlags::from_bits(0x7FFF), None);
    let mut flags = ExtendedUpdateFlags::from_bits(EXTENDED_ITEMS).unwrap();
    let weapon = ExtendedUpdateFlags::from_bits(EXTENDED_WEAPON).unwrap();
    assert!(!flags.contains(weapon));
    flags.insert(weapon);
    assert_eq!(flags.bits(), 0x4200);
    assert!(flags.contains(weapon));
    assert!(flags.contains(ExtendedUpdateFlags::empty()));
    assert_eq!(ExtendedUpdateFlags::from_bits(EXTENDED_ALL).unwrap().bits(), 0x7EFF);
}
