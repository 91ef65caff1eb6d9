use vangers_srv::player::Player;
use vangers_srv::utils::slice_le_to_i32;
use vangers_srv::vanject::{
    client_id, get_station, get_vanject_type, get_world, is_non_global_vanject, is_non_static,
    is_players_vanject, is_private_vanject, Pos, Vanject,
};

#[test]
fn inline_functions_entering_escape() {
    // Clients send the below object ids right after creating a new session.
    const A: [u8; 4] = [83, 0, 0, 0];
    const B: [u8; 4] = [83, 0, 64, 0];
    const C: [u8; 4] = [83, 0, 128, 0];

    let a = slice_le_to_i32(&A);
    let b = slice_le_to_i32(&B);
    let c = slice_le_to_i32(&C);

    assert_eq!(0, client_id(a));
    assert_eq!(0, client_id(b));
    assert_eq!(0, client_id(c));

    assert_eq!(0, get_station(a));
    assert_eq!(0, get_station(b));
    assert_eq!(0, get_station(c));

    assert_eq!(0, get_world(a));
    assert_eq!(1, get_world(b));
    assert_eq!(2, get_world(c));

    assert_eq!(0, get_vanject_type(a));
    assert_eq!(0, get_vanject_type(b));
    assert_eq!(0, get_vanject_type(c));

    assert_eq!(true, is_non_static(a));
    assert_eq!(true, is_non_static(b));
    assert_eq!(true, is_non_static(c));

    assert_eq!(true, is_players_vanject(a));
    assert_eq!(true, is_players_vanject(b));
    assert_eq!(true, is_players_vanject(c));

    assert_eq!(false, is_private_vanject(a));
    assert_eq!(false, is_private_vanject(b));
    assert_eq!(false, is_private_vanject(c));

    assert_eq!(false, is_non_global_vanject(a));
    assert_eq!(false, is_non_global_vanject(b));
    assert_eq!(false, is_non_global_vanject(c));
}

#[test]
fn inline_functions_entering_world() {
    const A: [u8; 4] = [1, 0, 14, 132];
    let a = slice_le_to_i32(&A);

    assert_eq!(1, client_id(a));
    assert_eq!(1, get_station(a));
    assert_eq!(0, get_world(a));
    assert_eq!(917504, get_vanject_type(a));
    assert_eq!(false, is_non_static(a));
    assert_eq!(false, is_players_vanject(a));
    assert_eq!(false, is_private_vanject(a));
    assert_eq!(true, is_non_global_vanject(a));

    const B: [u8; 4] = [1, 0, 2, 4];
    let a = slice_le_to_i32(&B);
    assert_eq!(1, client_id(a));
    assert_eq!(1, get_station(a));
    assert_eq!(0, get_world(a));
    assert_eq!(131072, get_vanject_type(a));
    assert_eq!(true, is_non_static(a));
    assert_eq!(true, is_players_vanject(a));
    assert_eq!(false, is_private_vanject(a));
    assert_eq!(true, is_non_global_vanject(a));

    const C: [u8; 4] = [1, 0, 9, 4];
    let a = slice_le_to_i32(&C);
    assert_eq!(1, client_id(a));
    assert_eq!(1, get_station(a));
    assert_eq!(0, get_world(a));
    assert_eq!(589824, get_vanject_type(a));
    assert_eq!(true, is_non_static(a));
    assert_eq!(false, is_players_vanject(a));
    assert_eq!(true, is_private_vanject(a));
    assert_eq!(true, is_non_global_vanject(a));

    const D: [u8; 4] = [1, 0, 66, 4];
    let a = slice_le_to_i32(&D);
    assert_eq!(1, client_id(a));
    assert_eq!(1, get_station(a));
    assert_eq!(1, get_world(a));
    assert_eq!(131072, get_vanject_type(a));
    assert_eq!(true, is_non_static(a));
    assert_eq!(true, is_players_vanject(a));
    assert_eq!(false, is_private_vanject(a));
    assert_eq!(true, is_non_global_vanject(a));
}

#[test]
#[allow(non_snake_case)]
fn correct__NID_VANGER() {
    let slice = std::iter::empty()
        .chain(&[1, 0, 9, 4]) // id = 67698689
        .chain(&[6, 0, 0, 0]) // time = 6
        .chain(&[10, 0]) // pos.x = 10
        .chain(&[20, 0]) // pos.y = 20
        .chain(&[15, 0]) // radius = 15
        .chain(&[8u8]) // screen half height (avatar objects only)
        .chain(&[1u8, 2, 3, 4, 5, 6])
        .map(|&b| b)
        .collect::<Vec<_>>();

    let v = Vanject::create_from_slice(&slice);
    assert!(v.is_ok());
    let mut v = v.unwrap();

    assert_eq!(67698689, v.id);
    assert_eq!(6, v.time);
    assert_eq!(10, v.pos.x);
    assert_eq!(20, v.pos.y);
    assert_eq!(15, v.radius);
    assert_eq!(&[1u8, 2, 3, 4, 5, 6], &v.body[..]);

    assert_eq!(0, v.player_bind_id);
    let player_bind = {
        let mut player = Player::new(1);
        player.set_bind(4);
        player
    };

    // a bound player
    assert!(v.bind_to_player(&player_bind).is_ok());
    assert_eq!(4, v.player_bind_id);

    // an unbound player
    assert!(v.bind_to_player(&Player::new(32)).is_err());
    assert_eq!(4, v.player_bind_id);

    assert_eq!(
        &[1, 0, 9, 4, 4u8, 6, 0, 0, 0, 10, 0, 20, 0, 1, 2, 3, 4, 5, 6],
        &v.to_vangers_byte()[..]
    );
}

#[test]
#[allow(non_snake_case)]
fn small_length__not_NID_VANGER() {
    assert!(Vanject::create_from_slice(&[]).is_err());
    assert!(Vanject::create_from_slice(&[1]).is_err());
    assert!(Vanject::create_from_slice(&[1, 0, 9, 4]).is_err());
    assert!(Vanject::create_from_slice(&[1, 0, 9, 4, 6, 0, 0, 0, 10, 0, 20, 0, 15, 0]).is_err());
    assert!(
        Vanject::create_from_slice(&[1, 0, 9, 4, 6, 0, 0, 0, 10, 0, 20, 0, 15, 0, 111]).is_ok()
    );
}

#[test]
#[allow(non_snake_case)]
fn correct__not_NID_VANGER() {
    let slice = std::iter::empty()
        .chain(&[1, 1, 1, 1]) // id = 16843009
        .chain(&[6, 0, 0, 0]) // time = 6
        .chain(&[10, 0]) // pos.x = 10
        .chain(&[20, 0]) // pos.y = 20
        .chain(&[15, 0]) // radius = 15
        .chain(&[1u8, 2, 3, 4, 5, 6])
        .map(|&b| b)
        .collect::<Vec<_>>();

    let v = Vanject::create_from_slice(&slice);
    assert!(v.is_ok());
    let mut v = v.unwrap();

    assert_eq!(16843009, v.id);
    assert_eq!(6, v.time);
    assert_eq!(10, v.pos.x);
    assert_eq!(20, v.pos.y);
    assert_eq!(15, v.radius);
    assert_eq!(&[1u8, 2, 3, 4, 5, 6], &v.body[..]);

    assert_eq!(0, v.player_bind_id);
    let player_bind = {
        let mut player = Player::new(1);
        player.set_bind(4);
        player
    };

    assert!(v.bind_to_player(&player_bind).is_ok());
    assert_eq!(4, v.player_bind_id);

    assert!(v.bind_to_player(&Player::new(32)).is_err());
    assert_eq!(4, v.player_bind_id);

    assert_eq!(
        &[1, 1, 1, 1, 4u8, 6, 0, 0, 0, 10, 0, 20, 0, 1, 2, 3, 4, 5, 6],
        &v.to_vangers_byte()[..]
    );
}

#[test]
#[allow(non_snake_case)]
fn small_length__NID_VANGER() {
    assert!(Vanject::create_from_slice(&[]).is_err());
    assert!(Vanject::create_from_slice(&[1]).is_err());
    assert!(Vanject::create_from_slice(&[1, 1, 1, 1]).is_err());
    assert!(Vanject::create_from_slice(&[1, 1, 1, 1, 6, 0, 0, 0, 10, 0, 20, 0, 15]).is_err());
    assert!(Vanject::create_from_slice(&[1, 1, 1, 1, 6, 0, 0, 0, 10, 0, 20, 0, 15, 0]).is_ok());
}

fn get_vanject(is_nid_vanger: bool) -> Vanject {
    let slice = std::iter::empty()
        .chain(if is_nid_vanger {
            &[2, 0, 9, 4] // id = 67698690
        } else {
            &[2, 1, 1, 1] // id = 16843010
        })
        .chain(&[6, 0, 0, 0]) // time = 6
        .chain(&[10, 0]) // pos.x = 10
        .chain(&[20, 0]) // pos.y = 20
        .chain(&[15, 0]) // radius = 15
        .chain(if is_nid_vanger {
            &[8u8, 1u8, 2, 3, 4, 5, 6][..]
        } else {
            &[1u8, 2, 3, 4, 5, 6][..]
        })
        .map(|&b| b)
        .collect::<Vec<_>>();

    Vanject::create_from_slice(&slice).unwrap()
}

#[test]
#[allow(non_snake_case)]
fn vanject_correct__NID_VANGER() {
    let mut v = get_vanject(true);
    v.player_bind_id = 9;

    let upd = std::iter::empty()
        .chain(&[2, 0, 9, 4]) // id = 67698690
        .chain(&[7, 0, 0, 0]) // time = 7
        .chain(&[11, 0]) // pos.x = 11
        .chain(&[21, 0]) // pos.y = 21
        .chain(&[8u8]) // screen half height (avatar objects only)
        .chain(&[88]) // body = [88]
        .map(|&b| b)
        .collect::<Vec<_>>();

    assert!(v.update_from_slice(&upd).is_ok());

    assert_eq!(67698690, v.id);
    assert_eq!(7, v.time);
    assert_eq!(11, v.pos.x);
    assert_eq!(21, v.pos.y);
    assert_eq!(15, v.radius);
    assert_eq!(&[88], &v.body[..]);
    assert_eq!(9, v.player_bind_id);
}

#[test]
#[allow(non_snake_case)]
fn vanject_small_length__NID_VANGER() {
    let mut v = get_vanject(true);

    let id = v.id;
    let player_bind_id = v.player_bind_id;
    let time = v.time;
    let pos = v.pos;
    let radius = v.radius;
    let body = v.body.clone();

    let check = |v: &Vanject| {
        assert_eq!(id, v.id);
        assert_eq!(player_bind_id, v.player_bind_id);
        assert_eq!(time, v.time);
        assert_eq!(pos, v.pos);
        assert_eq!(radius, v.radius);
        assert_eq!(body, v.body);
    };

    assert!(v.update_from_slice(&[]).is_err());
    check(&v);
    assert!(v.update_from_slice(&[1]).is_err());
    check(&v);
    assert!(v.update_from_slice(&[2, 0, 9, 4]).is_err());
    check(&v);
    assert!(v.update_from_slice(&[2, 0, 9, 4, 6, 0, 0, 0, 10, 0, 20, 0]).is_err());
    check(&v);

    assert!(v.update_from_slice(&[2, 0, 9, 4, 7, 0, 0, 0, 11, 0, 21, 0, 8u8]).is_ok());
    assert_eq!(7, v.time);
    assert_eq!(Pos { x: 11, y: 21 }, v.pos);
    assert_eq!(radius, v.radius);
    assert_eq!(&[0u8][1..], &v.body[..]);

    assert!(v.update_from_slice(&[2, 0, 9, 4, 9, 0, 0, 0, 12, 0, 22, 0, 8u8, 110, 111]).is_ok());
    assert_eq!(9, v.time);
    assert_eq!(Pos { x: 12, y: 22 }, v.pos);
    assert_eq!(radius, v.radius);
    assert_eq!(&[110, 111], &v.body[..]);
}

#[test]
#[allow(non_snake_case)]
fn correct_not__NID_VANGER() {
    let mut v = get_vanject(false);
    v.player_bind_id = 9;

    let upd = std::iter::empty()
        .chain(&[2, 1, 1, 1]) // id = 16843010
        .chain(&[7, 0, 0, 0]) // time = 7
        .chain(&[11, 0]) // pos.x = 11
        .chain(&[21, 0]) // pos.y = 21
        .chain(&[88]) // body = [88]
        .map(|&b| b)
        .collect::<Vec<_>>();

    assert!(v.update_from_slice(&upd).is_ok());

    assert_eq!(16843010, v.id);
    assert_eq!(7, v.time);
    assert_eq!(11, v.pos.x);
    assert_eq!(21, v.pos.y);
    assert_eq!(15, v.radius);
    assert_eq!(&[88], &v.body[..]);
    assert_eq!(9, v.player_bind_id);
}

#[test]
#[allow(non_snake_case)]
fn small_length_not__NID_VANGER() {
    let mut v = get_vanject(false);

    let id = v.id;
    let player_bind_id = v.player_bind_id;
    let time = v.time;
    let pos = v.pos;
    let radius = v.radius;
    let body = v.body.clone();

    let check = |v: &Vanject| {
        assert_eq!(id, v.id);
        assert_eq!(player_bind_id, v.player_bind_id);
        assert_eq!(time, v.time);
        assert_eq!(pos, v.pos);
        assert_eq!(radius, v.radius);
        assert_eq!(body, v.body);
    };

    assert!(v.update_from_slice(&[]).is_err());
    check(&v);
    assert!(v.update_from_slice(&[1]).is_err());
    check(&v);
    assert!(v.update_from_slice(&[2, 1, 1, 1]).is_err());
    check(&v);
    assert!(v.update_from_slice(&[2, 1, 1, 1, 6, 0, 0, 0, 10, 0, 20]).is_err());
    check(&v);

    assert!(v.update_from_slice(&[2, 1, 1, 1, 9, 0, 0, 0, 11, 0, 21, 0]).is_ok());
    assert_eq!(9, v.time);
    assert_eq!(Pos { x: 11, y: 21 }, v.pos);
    assert_eq!(radius, v.radius);
    assert_eq!(&[0u8][1..], &v.body[..]);

    assert!(v.update_from_slice(&[2, 1, 1, 1, 11, 0, 0, 0, 12, 0, 22, 0, 111]).is_ok());
    assert_eq!(11, v.time);
    assert_eq!(Pos { x: 12, y: 22 }, v.pos);
    assert_eq!(radius, v.radius);
    assert_eq!(&[111], &v.body[..]);
}

#[test]
fn update_with_missmatch_id() {
    let mut v = get_vanject(true);

    let id = v.id;
    let player_bind_id = v.player_bind_id;
    let time = v.time;
    let pos = v.pos;
    let radius = v.radius;
    let body = v.body.clone();

    let check = |v: &Vanject| {
        assert_eq!(id, v.id);
        assert_eq!(player_bind_id, v.player_bind_id);
        assert_eq!(time, v.time);
        assert_eq!(pos, v.pos);
        assert_eq!(radius, v.radius);
        assert_eq!(body, v.body);
    };

    assert!(
        v.update_from_slice(&[5, 5, 5, 5, 1, 0, 0, 0, 10, 0, 15, 0, 1, 1, 1, 1, 1, 1]).is_err(),
    );

    check(&v);
}

#[test]
#[allow(non_snake_case)]
fn vanject_body_clone_is_deep() {
    // the serialize path copies the body; mutating the copy must not touch
    // the stored object
    let v = get_vanject(false);
    let mut wire = v.to_vangers_byte();
    wire[0] = 0xFF;
    assert_eq!(16843010, v.id);
}
