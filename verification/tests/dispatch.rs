use vangers_srv::auth::Auth;
use vangers_srv::game::Game;
use vangers_srv::player::Player;
use vangers_srv::callback::OnUpdateError;
use vangers_srv::client::{Connection, MpscData};
use vangers_srv::protocol::{Action, Packet};
use vangers_srv::server::Server;

#[test]
fn name_utf8_decodes_code_page() {
    // 0x80 is not ASCII: CP866 maps it to the first Cyrillic capital
    let auth = Auth::new(&[0x80, 0x00], &[]);
    assert_eq!("\u{0410}", auth.name_utf8());
}

#[test]
fn dispatcher_routes_response_to_caller() {
    let mut srv = Server::new(0);
    srv.add_client(5);
    let r = srv.on_update(5, Packet::new(Action::GAMES_LIST_QUERY, &[]));
    assert!(r.is_ok());
    let out = srv.take_outbox();
    assert_eq!(1, out.len());
    assert_eq!(5, out[0].0);
    assert_eq!(Action::GAMES_LIST_RESPONSE, out[0].1.action);
    assert_eq!(vec![0u8], out[0].1.data);
}

#[test]
fn dispatcher_rejects_unknown_actions() {
    let mut srv = Server::new(0);
    srv.add_client(5);
    let r = srv.on_update(5, Packet::new(Action::HIDE_OBJECT, &[]));
    assert!(matches!(r, Err(OnUpdateError::NotImplementedAction(_))));
}

#[test]
fn protocol_two_gets_wall_clock_time_on_attach() {
    let mut srv = Server::new(0);
    srv.add_client(9);
    assert!(srv.handle_event(MpscData(9, Connection::Authenticated(2))).is_ok());
    assert!(
        srv.handle_event(
            MpscData(9, Connection::Updated(Packet::new(Action::ATTACH_TO_GAME, &[0, 0, 0, 0])))
        )
        .is_ok()
    );
    let out = srv.take_outbox();
    assert_eq!(2, out.len());
    assert_eq!(Action::ATTACH_TO_GAME_RESPONSE, out[0].1.action);
    assert_eq!(Action::Z_TIME_RESPONSE, out[1].1.action);
    assert_eq!(4, out[1].1.data.len());
}

#[test]
fn protocol_one_never_sees_wall_clock_time() {
    let mut srv = Server::new(0);
    srv.add_client(9);
    assert!(srv.handle_event(MpscData(9, Connection::Authenticated(1))).is_ok());
    assert!(
        srv.handle_event(
            MpscData(9, Connection::Updated(Packet::new(Action::ATTACH_TO_GAME, &[0, 0, 0, 0])))
        )
        .is_ok()
    );
    let out = srv.take_outbox();
    assert_eq!(1, out.len());
    assert_eq!(Action::ATTACH_TO_GAME_RESPONSE, out[0].1.action);
}

#[test]
fn disconnect_event_tears_the_client_down() {
    let mut srv = Server::new(0);
    srv.add_client(9);
    assert!(srv.handle_event(MpscData(9, Connection::Authenticated(1))).is_ok());
    assert!(
        srv.handle_event(
            MpscData(9, Connection::Updated(Packet::new(Action::ATTACH_TO_GAME, &[0, 0, 0, 0])))
        )
        .is_ok()
    );
    let _ = srv.take_outbox();
    assert!(srv.games.get_game_by_client_id(9).is_some());

    let _ = srv.handle_event(MpscData(9, Connection::Disconnected));
    assert!(srv.games.get_game_by_client_id(9).is_none());
    assert!(srv.games.get_game_by_id(1).is_none());
    assert_eq!(0, srv.clients.len());
}

#[test]
fn attach_rejects_short_payloads() {
    let mut srv = Server::new(0);
    srv.add_client(5);
    let r = srv.attach_to_game(&Packet::new(Action::ATTACH_TO_GAME, &[0, 0]), 5);
    assert!(matches!(
        r,
        Err(OnUpdateError::AttachToGameError(
            vangers_srv::callback::attach_to_game::AttachToGameError::IdEmpty
        ))
    ));
}

#[test]
fn handlers_reject_clients_outside_any_session() {
    let mut srv = Server::new(0);
    srv.add_client(5);
    assert!(matches!(
        srv.leave_world(&Packet::new(Action::LEAVE_WORLD, &[]), 5),
        Err(OnUpdateError::LeaveWorldError(
            vangers_srv::callback::leave_world::LeaveWorldError::PlayerNotFound(5)
        ))
    ));
    assert!(matches!(
        srv.close_socket(&Packet::new(Action::CLOSE_SOCKET, &[]), 5),
        Err(OnUpdateError::CloseSocketError(
            vangers_srv::callback::close_socket::CloseSocketError::PlayerNotFound(5)
        ))
    ));
    assert!(matches!(
        srv.set_game_data(&Packet::new(Action::SET_GAME_DATA, b"a\0"), 5),
        Err(OnUpdateError::SetGameDataError(
            vangers_srv::callback::set_game_data::SetGameDataError::PlayerNotFound(5)
        ))
    ));
    assert!(matches!(
        srv.delete_object(&Packet::new(Action::DELETE_OBJECT, &[0u8; 8]), 5),
        Err(OnUpdateError::DeleteObjectError(
            vangers_srv::callback::delete_object::DeleteObjectError::PlayerNotFound(5)
        ))
    ));
    assert!(matches!(
        srv.delete_object(&Packet::new(Action::DELETE_OBJECT, &[0u8; 4]), 5),
        Err(OnUpdateError::DeleteObjectError(
            vangers_srv::callback::delete_object::DeleteObjectError::SliceTooSmall
        ))
    ));
    assert!(matches!(
        srv.direct_sending(&Packet::new(Action::DIRECT_SENDING, &[0u8; 4]), 5),
        Err(OnUpdateError::DirectSendingError(
            vangers_srv::callback::direct_sending::DirectSendingError::Parse
        ))
    ));
    assert!(matches!(
        srv.set_world(&Packet::new(Action::SET_WORLD, &[1]), 5),
        Err(OnUpdateError::SetWorldError(
            vangers_srv::callback::set_world::SetWorldError::SliceTooSmall
        ))
    ));
}

#[test]
fn rejected_player_data_keeps_the_stored_blob() {
    let mut srv = Server::new(0);
    srv.add_client(9);
    assert!(
        srv.on_update(9, Packet::new(Action::ATTACH_TO_GAME, &[0, 0, 0, 0])).is_ok()
    );
    let _ = srv.take_outbox();

    // store a valid blob first
    let good = [7u8; 30];
    assert!(srv.set_player_data(&Packet::new(Action::SET_PLAYER_DATA, &good), 9).is_ok());
    let _ = srv.take_outbox();

    // a short blob is rejected and must change nothing
    let r = srv.set_player_data(&Packet::new(Action::SET_PLAYER_DATA, &[1, 2, 3]), 9);
    assert!(matches!(
        r,
        Err(OnUpdateError::SetPlayerDataError(
            vangers_srv::callback::set_player_data::SetPlayerDataError::SliceToBodyParse(_)
        ))
    ));
    assert!(srv.take_outbox().is_empty());
    let game = srv.games.get_game_by_client_id(9).unwrap();
    let body = game.players[0].body.as_ref().unwrap();
    assert_eq!(7, body.kills); // the earlier blob survived
}

#[test]
fn close_socket_removes_an_unbound_player_too() {
    let mut srv = Server::new(0);
    let mut game = Game::new(1);
    game.players.push(Player::new(44)); // in the session without a slot
    srv.games.insert(1, game);

    let close = Packet::new(Action::CLOSE_SOCKET, &[]);
    assert!(srv.close_socket(&close, 44).is_ok());
    assert!(srv.games.get_game_by_client_id(44).is_none());
    assert!(srv.games.get_game_by_id(1).is_none()); // the emptied session died
}
