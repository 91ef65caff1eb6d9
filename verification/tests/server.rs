use vangers_srv::body::Body as PlayerBody;
use vangers_srv::callback::{OnUpdateError, OnUpdateOk};
use vangers_srv::client::auth;
use vangers_srv::config::{Config, Type as GameType};
use vangers_srv::game::Game;
use vangers_srv::player::Player;
use vangers_srv::protocol::{Action, Packet};
use vangers_srv::server::Server;

fn create_without_games() -> Server {
    Server::new(Default::default())
}

/// Returns a server with one unconfigured session.
fn create_ug() -> Server {
    let mut srv = Server::new(Default::default());
    let mut game = Game::new(1);
    game.attach_player(Player::new(11));
    srv.games.insert(1, game);
    srv
}

/// Returns a server with one configured session holding one player.
fn create_cg_p1() -> Server {
    let mut srv = Server::new(Default::default());

    let mut game = Game::new(1);
    game.config = Some(Config::new(GameType::PASSEMBLOSS));

    let mut player = Player::new(11);
    player.set_auth(b"player\0", b"\0");
    player.body = Some(PlayerBody::default());

    game.attach_player(player);
    srv.games.insert(1, game);
    srv
}

/// Returns a server with two sessions: an unconfigured one with one player
/// and a configured one with two players.
fn create_ug_p1_cg_p2() -> Server {
    let mut srv = Server::new(Default::default());

    {
        let mut game = Game::new(1);
        game.attach_player(Player::new(11));
        srv.games.insert(1, game);
    }

    {
        let mut game = Game::new(2);
        game.config = Some(Config::new(GameType::PASSEMBLOSS));

        let mut player = Player::new(21);
        player.set_auth(b"player1\0", b"\0");
        player.body = Some(PlayerBody::default());
        game.attach_player(player);

        let mut player = Player::new(22);
        player.set_auth(b"player2\0", b"\0");
        player.body = Some(PlayerBody::default());
        game.attach_player(player);

        srv.games.insert(2, game);
    }

    srv
}

fn get_request_packet() -> Packet {
    Packet::new(Action::GAMES_LIST_QUERY, &[])
}

#[test]
fn empty_games() {
    let request = get_request_packet();

    let mut srv = create_without_games();
    let query_response = srv.games_list_query(&request, 1);
    assert!(query_response.is_ok());

    match query_response.unwrap() {
        OnUpdateOk::Response(p) => {
            assert_eq!(p.action, Action::GAMES_LIST_RESPONSE);
            assert_eq!(p.data, &[0]);
        },
        t => panic!("unexpected responsed type: {:?}", t),
    }
}

#[test]
fn unconfigured_game() {
    let request = get_request_packet();
    let mut srv = create_ug();
    let query_response = srv.games_list_query(&request, 1);
    assert!(query_response.is_ok());

    match query_response.unwrap() {
        OnUpdateOk::Response(p) => {
            assert_eq!(p.action, Action::GAMES_LIST_RESPONSE);
            assert_eq!(p.data, &[0]);
        },
        t => panic!("unexpected responsed type: {:?}", t),
    }
}

#[test]
fn configured_games_1_players_1() {
    let request = get_request_packet();
    let mut srv = create_cg_p1();
    let query_response = srv.games_list_query(&request, 1);
    assert!(query_response.is_ok());

    match query_response.unwrap() {
        OnUpdateOk::Response(p) => {
            assert_eq!(p.action, Action::GAMES_LIST_RESPONSE);
            assert_eq!(p.data[0], 1); // count of games
            assert_eq!(p.data[1..5], 1u32.to_le_bytes()); // id of the single game
            assert_eq!(&p.data[5..], b"[Rust-SRV] [UNDEFINED TITLE]: 1 P 0:00:00\0".to_vec());
        },
        t => panic!("unexpected responsed type: {:?}", t),
    }
}

#[test]
fn configured_games_2_players_1_2() {
    let request = get_request_packet();
    let mut srv = create_ug_p1_cg_p2();
    let query_response = srv.games_list_query(&request, 1);
    assert!(query_response.is_ok());

    match query_response.unwrap() {
        OnUpdateOk::Response(p) => {
            assert_eq!(p.action, Action::GAMES_LIST_RESPONSE);
            assert_eq!(p.data[0], 1); // count of games
            assert_eq!(p.data[1..5], 2u32.to_le_bytes()); // id of the single game
            assert_eq!(&p.data[5..], b"[Rust-SRV] [UNDEFINED TITLE]: 2 P 0:00:00\0".to_vec());
        },
        t => panic!("unexpected responsed type: {:?}", t),
    }
}

#[test]
fn handshake_accepts_versions_one_and_two() {
    let mut buff = [0u8; 256];
    let hello = b"Vivat Sicher, Rock'n'Roll forever!!!\0\x01";
    buff[..hello.len()].copy_from_slice(hello);
    let (proto, reply) = auth(&buff).unwrap();
    assert_eq!(1, proto);
    assert_eq!(b"Enter, my son, please...\0\x01".to_vec(), reply);

    let mut buff2 = [0u8; 256];
    let hello2 = b"Vivat Sicher, Rock'n'Roll forever!!!\0\x02";
    buff2[..hello2.len()].copy_from_slice(hello2);
    let (proto2, reply2) = auth(&buff2).unwrap();
    assert_eq!(2, proto2);
    assert_eq!(b"Enter, my son, please...\0\x02".to_vec(), reply2);
}

#[test]
fn handshake_rejects_bad_header_and_version() {
    let mut buff = [0u8; 256];
    let hello = b"Vivat Sicher, Rock'n'Roll forever!!\0\x01"; // one '!' short
    buff[..hello.len()].copy_from_slice(hello);
    assert!(auth(&buff).is_err());

    let mut buff2 = [0u8; 256];
    let hello2 = b"Vivat Sicher, Rock'n'Roll forever!!!\0\x03";
    buff2[..hello2.len()].copy_from_slice(hello2);
    assert!(auth(&buff2).is_err());

    let buff3 = [7u8; 64]; // no null byte at all
    assert!(auth(&buff3).is_err());
}

#[test]
fn attach_creates_session_and_answers() {
    let mut srv = Server::new(0);
    srv.add_client(7);
    let attach = Packet::new(Action::ATTACH_TO_GAME, &[0, 0, 0, 0]);
    let r = srv.attach_to_game(&attach, 7);
    assert!(matches!(r, Ok(OnUpdateOk::Complete)));

    let out = srv.take_outbox();
    assert_eq!(1, out.len());
    let (to, p) = &out[0];
    assert_eq!(7, *to);
    assert_eq!(Action::ATTACH_TO_GAME_RESPONSE, p.action);
    assert_eq!(42, p.data.len());
    assert_eq!(1u32.to_le_bytes(), p.data[0..4]); // new session id = 1
    assert_eq!(0, p.data[4]); // not configured
    assert_eq!(1, p.data[9]); // slot = 1
    assert_eq!(vec![0u8; 32], p.data[10..42].to_vec()); // all offsets 0

    // the session now exists and holds the caller
    assert!(srv.games.get_game_by_id(1).is_some());
    assert!(srv.games.get_game_by_client_id(7).is_some());
}

#[test]
fn attach_rejects_double_attachment() {
    let mut srv = Server::new(0);
    srv.add_client(7);
    let attach = Packet::new(Action::ATTACH_TO_GAME, &[0, 0, 0, 0]);
    assert!(srv.attach_to_game(&attach, 7).is_ok());
    let r = srv.attach_to_game(&attach, 7);
    assert!(matches!(
        r,
        Err(OnUpdateError::AttachToGameError(
            vangers_srv::callback::attach_to_game::AttachToGameError::AlreadyAttached(7)
        ))
    ));
}

#[test]
fn attach_unknown_session_fails() {
    let mut srv = Server::new(0);
    srv.add_client(7);
    let attach = Packet::new(Action::ATTACH_TO_GAME, &[9, 0, 0, 0]);
    let r = srv.attach_to_game(&attach, 7);
    assert!(matches!(
        r,
        Err(OnUpdateError::AttachToGameError(
            vangers_srv::callback::attach_to_game::AttachToGameError::NotExists(9)
        ))
    ));
}

fn two_member_session() -> Server {
    let mut srv = Server::new(0);
    srv.add_client(1);
    srv.add_client(2);
    let attach0 = Packet::new(Action::ATTACH_TO_GAME, &[0, 0, 0, 0]);
    assert!(srv.attach_to_game(&attach0, 1).is_ok());
    let attach1 = Packet::new(Action::ATTACH_TO_GAME, &[1, 0, 0, 0]);
    assert!(srv.attach_to_game(&attach1, 2).is_ok());
    let _ = srv.take_outbox();
    srv
}

#[test]
fn register_name_broadcasts_to_peers() {
    let mut srv = two_member_session();
    let req = Packet::new(Action::REGISTER_NAME, b"Alice\0\0");
    assert!(srv.register_name(&req, 1).is_ok());

    let out = srv.take_outbox();
    assert_eq!(1, out.len());
    let (to, p) = &out[0];
    assert_eq!(2, *to); // only the session peer hears it
    assert_eq!(Action::PLAYERS_NAME, p.action);
    assert_eq!(b"\x01Alice\0".to_vec(), p.data);
    assert_eq!(&[0x08, 0x00, 0xD5, 0x01, 0x41, 0x6C, 0x69, 0x63, 0x65, 0x00], &p.as_bytes()[..]);
}

#[test]
fn register_name_truncates_long_names() {
    let mut srv = two_member_session();
    let req = Packet::new(Action::REGISTER_NAME, b"ABCDEFGHIJKLMNOPQRSTU\0\0");
    assert!(srv.register_name(&req, 1).is_ok());
    let out = srv.take_outbox();
    // slot byte, fifteen name bytes, and the null byte
    assert_eq!(b"\x01ABCDEFGHIJKLMNO\0".to_vec(), out[0].1.data);
}

#[test]
fn set_world_and_leave_world_events() {
    let mut srv = two_member_session();
    let req = Packet::new(Action::SET_WORLD, &[0x02, 0x80, 0x00]);
    assert!(srv.set_world(&req, 1).is_ok());

    let out = srv.take_outbox();
    // status to both, world note to the peer, answer to the caller
    assert_eq!(4, out.len());
    assert_eq!(Action::PLAYERS_STATUS, out[0].1.action);
    assert_eq!(vec![1u8, 1u8], out[0].1.data);
    assert_eq!(Action::PLAYERS_STATUS, out[1].1.action);
    assert_eq!(2, out[2].0);
    assert_eq!(Action::PLAYERS_WORLD, out[2].1.action);
    assert_eq!(vec![1u8, 2u8], out[2].1.data);
    assert_eq!(1, out[3].0);
    assert_eq!(Action::SET_WORLD_RESPONSE, out[3].1.action);
    assert_eq!(vec![2u8, 1u8], out[3].1.data); // world 2, created now

    let leave = Packet::new(Action::LEAVE_WORLD, &[]);
    assert!(srv.leave_world(&leave, 1).is_ok());
    let out = srv.take_outbox();
    assert_eq!(1, out.len());
    assert_eq!(2, out[0].0);
    assert_eq!(Action::PLAYERS_WORLD, out[0].1.action);
    assert_eq!(vec![1u8, 0u8], out[0].1.data);
}

#[test]
fn set_world_size_mismatch_is_rejected() {
    let mut srv = two_member_session();
    let req = Packet::new(Action::SET_WORLD, &[0x02, 0x80, 0x00]);
    assert!(srv.set_world(&req, 1).is_ok());
    let _ = srv.take_outbox();
    let req2 = Packet::new(Action::SET_WORLD, &[0x02, 0x7F, 0x00]);
    let r = srv.set_world(&req2, 2);
    assert!(matches!(
        r,
        Err(OnUpdateError::SetWorldError(
            vangers_srv::callback::set_world::SetWorldError::InvalidWorldSize(128, 127)
        ))
    ));
}

#[test]
fn direct_sending_respects_mask() {
    let mut srv = two_member_session();
    // mask bit 1 selects slot 2
    let req = Packet::new(Action::DIRECT_SENDING, &[0x02, 0x00, 0x00, 0x00, 0x68, 0x69, 0x00]);
    assert!(srv.direct_sending(&req, 1).is_ok());
    let out = srv.take_outbox();
    assert_eq!(1, out.len());
    assert_eq!(2, out[0].0);
    assert_eq!(Action::DIRECT_RECEIVING, out[0].1.action);
    assert_eq!(vec![0x01, 0x68, 0x69, 0x00], out[0].1.data);
    assert_eq!(&[0x05, 0x00, 0xCE, 0x01, 0x68, 0x69, 0x00], &out[0].1.as_bytes()[..]);

    // mask bit 2 selects slot 3, which nobody holds
    let req2 = Packet::new(Action::DIRECT_SENDING, &[0x04, 0x00, 0x00, 0x00, 0x68, 0x69, 0x00]);
    assert!(srv.direct_sending(&req2, 1).is_ok());
    assert!(srv.take_outbox().is_empty());
}

#[test]
fn close_socket_removes_player_and_empty_session() {
    let mut srv = two_member_session();
    let close = Packet::new(Action::CLOSE_SOCKET, &[]);
    assert!(srv.close_socket(&close, 1).is_ok());
    assert!(srv.games.get_game_by_client_id(1).is_none());
    assert!(srv.games.get_game_by_id(1).is_some()); // the peer remains

    assert!(srv.close_socket(&close, 2).is_ok());
    assert!(srv.games.get_game_by_client_id(2).is_none());
    assert!(srv.games.get_game_by_id(1).is_none()); // the session died
}

#[test]
fn leave_world_destroys_private_objects() {
    let mut srv = two_member_session();
    let set_world = Packet::new(Action::SET_WORLD, &[0x00, 0x80, 0x00]);
    assert!(srv.set_world(&set_world, 1).is_ok());
    let _ = srv.take_outbox();

    // a private object of slot 1: station 1, type code 9
    let private_id: i32 = (1 << 26) | (9 << 16) | 5;
    let mut create = private_id.to_le_bytes().to_vec();
    create.extend_from_slice(&6i32.to_le_bytes()); // time
    create.extend_from_slice(&[10, 0, 20, 0]); // pos
    create.extend_from_slice(&[15, 0]); // radius
    create.push(8); // screen half height (avatar-typed objects)
    create.extend_from_slice(&[0u8; 30]); // opaque body
    let req = Packet::new(Action::CREATE_OBJECT, &create);
    assert!(srv.create_object(&req, 1).is_ok());
    let _ = srv.take_outbox();
    {
        let game = srv.games.get_game_by_client_id(1).unwrap();
        assert_eq!(1, game.vanjects.len());
    }

    let leave = Packet::new(Action::LEAVE_WORLD, &[]);
    assert!(srv.leave_world(&leave, 1).is_ok());
    let out = srv.take_outbox();
    // one deletion to the peer, then the world note
    assert_eq!(2, out.len());
    assert_eq!(Action::DELETE_OBJECT, out[0].1.action);
    assert_eq!(&private_id.to_le_bytes()[..], &out[0].1.data[0..4]);
    assert_eq!(1, out[0].1.data[4]);

    let game = srv.games.get_game_by_client_id(1).unwrap();
    assert_eq!(0, game.vanjects.len());
}

#[test]
fn slot_allocator_returns_smallest_free_id() {
    let mut game = Game::new(1);
    assert_eq!(Some(1), game.get_uniq_player_id());
    assert_eq!(Some(1), game.attach_player(Player::new(100)));
    assert_eq!(Some(2), game.attach_player(Player::new(101)));
    assert_eq!(Some(3), game.get_uniq_player_id());

    // fill every slot; the thirty-second attachment must fail
    let mut cid = 102;
    for _ in 0..29 {
        assert!(game.attach_player(Player::new(cid)).is_some());
        cid += 1;
    }
    assert_eq!(None, game.get_uniq_player_id());
    assert_eq!(None, game.attach_player(Player::new(999)));
}

#[test]
fn bound_slots_are_distinct_and_in_range() {
    let mut game = Game::new(1);
    for cid in 0..10 {
        assert!(game.attach_player(Player::new(cid)).is_some());
    }
    let mut seen = Vec::new();
    for p in &game.players {
        let id = p.bind.as_ref().unwrap().id();
        assert!(1 <= id && id <= 31);
        assert!(!seen.contains(&id));
        seen.push(id);
    }
}

#[test]
fn server_time_answers_with_scaled_uptime() {
    let mut srv = Server::new(0);
    let req = Packet::new(Action::SERVER_TIME_QUERY, &[]);
    match srv.server_time_query(&req, 1) {
        Ok(OnUpdateOk::Response(p)) => {
            assert_eq!(Action::SERVER_TIME, p.action);
            assert_eq!(4, p.data.len());
            let v = u32::from_le_bytes([p.data[0], p.data[1], p.data[2], p.data[3]]);
            assert_eq!(0, v % 256); // uptime scaled by 256
        },
        r => panic!("unexpected result: {:?}", r),
    }
}

#[test]
fn set_game_data_configures_once() {
    let mut srv = two_member_session();
    let mut payload = b"arena\0".to_vec();
    payload.extend_from_slice(&1i32.to_le_bytes()); // initial_rnd
    payload.extend_from_slice(&4i32.to_le_bytes()); // game type: HUNTAGE
    payload.extend_from_slice(&100i32.to_le_bytes()); // initial_cash
    payload.extend_from_slice(&0i32.to_le_bytes()); // artefacts_using
    payload.extend_from_slice(&60i32.to_le_bytes()); // in_escave_time
    payload.extend_from_slice(&0i32.to_le_bytes()); // color
    let req = Packet::new(Action::SET_GAME_DATA, &payload);
    assert!(srv.set_game_data(&req, 1).is_ok());
    {
        let game = srv.games.get_game_by_client_id(1).unwrap();
        assert!(game.config.is_some());
        assert_eq!(b"arena\0".to_vec(), game.name);
    }

    // a second configuration is refused
    let r = srv.set_game_data(&req, 2);
    assert!(matches!(
        r,
        Err(OnUpdateError::SetGameDataError(
            vangers_srv::callback::set_game_data::SetGameDataError::AlreadyConfigured(1)
        ))
    ));

    // and now the session is listed
    let list = Packet::new(Action::GAMES_LIST_QUERY, &[]);
    match srv.games_list_query(&list, 1) {
        Ok(OnUpdateOk::Response(p)) => {
            assert_eq!(1, p.data[0]);
            assert_eq!(1u32.to_le_bytes(), p.data[1..5]);
        },
        r => panic!("unexpected result: {:?}", r),
    }
}

#[test]
fn get_game_data_echoes_configuration() {
    let mut srv = two_member_session();
    let r = srv.get_game_data(&Packet::new(Action::GET_GAME_DATA, &[]), 1);
    assert!(matches!(
        r,
        Err(OnUpdateError::GetGameDataError(
            vangers_srv::callback::get_game_data::GetGameDataError::NotConfigured(1)
        ))
    ));

    let mut payload = b"arena\0".to_vec();
    let cfg = [1i32, 4, 100, 0, 60, 0];
    for v in cfg.iter() {
        payload.extend_from_slice(&v.to_le_bytes());
    }
    assert!(srv.set_game_data(&Packet::new(Action::SET_GAME_DATA, &payload), 1).is_ok());

    match srv.get_game_data(&Packet::new(Action::GET_GAME_DATA, &[]), 1) {
        Ok(OnUpdateOk::Response(p)) => {
            assert_eq!(Action::GAME_DATA_RESPONSE, p.action);
            assert_eq!(payload, p.data);
        },
        r => panic!("unexpected result: {:?}", r),
    }
}

#[test]
fn update_object_requires_known_id() {
    let mut srv = two_member_session();
    let mut update = 77i32.to_le_bytes().to_vec();
    update.extend_from_slice(&[0u8; 12]);
    let r = srv.update_object(&Packet::new(Action::UPDATE_OBJECT, &update), 1);
    assert!(matches!(
        r,
        Err(OnUpdateError::UpdateObjectError(
            vangers_srv::callback::update_object::UpdateObjectError::VanjectNotFound(77)
        ))
    ));
}

#[test]
fn delete_object_broadcasts_even_for_unknown_ids() {
    let mut srv = two_member_session();
    let mut del = 77i32.to_le_bytes().to_vec();
    del.extend_from_slice(&1i32.to_le_bytes());
    assert!(srv.delete_object(&Packet::new(Action::DELETE_OBJECT, &del), 1).is_ok());
    let out = srv.take_outbox();
    assert_eq!(1, out.len());
    assert_eq!(2, out[0].0);
    assert_eq!(Action::DELETE_OBJECT, out[0].1.action);
    assert_eq!(&77i32.to_le_bytes()[..], &out[0].1.data[0..4]);
    assert_eq!(1, out[0].1.data[4]);
}
