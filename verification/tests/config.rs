use vangers_srv::config::{Config, GameMode, Type};
use vangers_srv::prm::Passembloss;
use vangers_srv::utils::{slice_i32_to_vec_u8, slice_le_to_i32};

#[test]
fn serverdata_from_slice_wanwar_0() {
    let data = [1, Type::VAN_WAR.to_i32(), 3, 4, 5, 6, 7, 8, 9, 10, 11, 12];

    // check for too small slice
    assert!(Config::from_slice(&slice_i32_to_vec_u8(&data[0..data.len() - 2])).is_none());

    let sd = Config::from_slice(&slice_i32_to_vec_u8(&data[0..data.len() - 1]));
    assert!(sd.is_some());
    let sd = sd.unwrap();

    assert_eq!(1, sd.initial_rnd);
    assert_eq!(3, sd.initial_cash);
    assert_eq!(4, sd.artefacts_using);
    assert_eq!(5, sd.in_escave_time);
    assert_eq!(6, sd.color);
    assert_eq!(Type::VAN_WAR, sd.get_gametype());

    match sd.game_type {
        GameMode::VanWar(s) => {
            assert_eq!(7, s.nascency);
            assert_eq!(8, s.team_mode);
            assert_eq!(9, s.world_access);
            assert_eq!(10, s.max_kills);
        },
        gm => panic!("missmatch gamemode, expected: `WanWar`, actual: {:?}", gm),
    };
}

#[test]
fn serverdata_from_slice_mechosoma_1() {
    let data = [1, Type::MECHOSOMA.to_i32(), 3, 4, 5, 6, 7, 8, 9, 10, 11, 12];

    // check for too small slice
    assert!(Config::from_slice(&slice_i32_to_vec_u8(&data[0..data.len() - 2])).is_none());

    let sd = Config::from_slice(&slice_i32_to_vec_u8(&data[0..data.len() - 1]));
    assert!(sd.is_some());
    let sd = sd.unwrap();

    assert_eq!(1, sd.initial_rnd);
    assert_eq!(3, sd.initial_cash);
    assert_eq!(4, sd.artefacts_using);
    assert_eq!(5, sd.in_escave_time);
    assert_eq!(6, sd.color);
    assert_eq!(Type::MECHOSOMA, sd.get_gametype());

    match sd.game_type {
        GameMode::Mechosoma(s) => {
            assert_eq!(7, s.world);
            assert_eq!(8, s.product_quantity1);
            assert_eq!(9, s.product_quantity2);
            assert_eq!(10, s.one_at_a_time);
            assert_eq!(11, s.team_mode);
        },
        gm => panic!("missmatch gamemode, expected: `Mechosoma`, actual: {:?}", gm),
    };
}

#[test]
fn serverdata_from_slice_passembloss_2() {
    let data = [1i32, Type::PASSEMBLOSS.to_i32(), 3i32, 4i32, 5i32, 6i32, 7, 8, 9];

    // check for too small slice
    assert!(Config::from_slice(&slice_i32_to_vec_u8(&data[0..data.len() - 2])).is_none());

    let sd = Config::from_slice(&slice_i32_to_vec_u8(&data[0..data.len() - 1]));
    assert!(sd.is_some());
    let sd = sd.unwrap();

    assert_eq!(1, sd.initial_rnd);
    assert_eq!(3, sd.initial_cash);
    assert_eq!(4, sd.artefacts_using);
    assert_eq!(5, sd.in_escave_time);
    assert_eq!(6, sd.color);
    assert_eq!(Type::PASSEMBLOSS, sd.get_gametype());

    match sd.game_type {
        GameMode::Passembloss(s) => {
            assert_eq!(7, s.checkpoints_number);
            assert_eq!(8, s.random_escave);
        },
        gm => panic!("missmatch gamemode, expected: `Passembloss`, actual: {:?}", gm),
    };
}

#[test]
fn serverdata_from_slice_huntage_3() {
    let data = [1i32, Type::HUNTAGE.to_i32(), 3i32, 4i32, 5i32, 6i32, 7];

    // check for too small slice
    assert!(Config::from_slice(&slice_i32_to_vec_u8(&data[0..data.len() - 2])).is_none());

    let sd = Config::from_slice(&slice_i32_to_vec_u8(&data[0..data.len() - 1]));
    assert!(sd.is_some());
    let sd = sd.unwrap();

    assert_eq!(1, sd.initial_rnd);
    assert_eq!(3, sd.initial_cash);
    assert_eq!(4, sd.artefacts_using);
    assert_eq!(5, sd.in_escave_time);
    assert_eq!(6, sd.color);
    assert_eq!(Type::HUNTAGE, sd.get_gametype());
}

#[test]
fn serverdata_from_slice_mustodont_4() {
    let data = [1i32, Type::MUSTODONT.to_i32(), 3i32, 4i32, 5i32, 6i32, 7, 8, 9];

    // check for too small slice
    assert!(Config::from_slice(&slice_i32_to_vec_u8(&data[0..data.len() - 2])).is_none());

    let sd = Config::from_slice(&slice_i32_to_vec_u8(&data[0..data.len() - 1]));
    assert!(sd.is_some());
    let sd = sd.unwrap();

    assert_eq!(1, sd.initial_rnd);
    assert_eq!(3, sd.initial_cash);
    assert_eq!(4, sd.artefacts_using);
    assert_eq!(5, sd.in_escave_time);
    assert_eq!(6, sd.color);
    assert_eq!(Type::MUSTODONT, sd.get_gametype());

    match sd.game_type {
        GameMode::Mustodont(s) => {
            assert_eq!(7, s.unique_mechos_name);
            assert_eq!(8, s.team_mode);
        },
        gm => panic!("missmatch gamemode, expected: `Mustodont`, actual: {:?}", gm),
    };
}

#[test]
fn serverdata_from_slice_undefined_gametype() {
    let data = [1i32, -1, 3i32, 4i32, 5i32, 6i32, 7, 8];
    assert!(Config::from_slice(&slice_i32_to_vec_u8(&data)).is_none());

    let data = [1i32, 6, 3i32, 4i32, 5i32, 6i32, 7, 8];
    assert!(Config::from_slice(&slice_i32_to_vec_u8(&data)).is_none());
}

#[test]
fn passembloss_real_example() {
    let slice = [
        207, 204, 22, 84, 2, 0, 0, 0, 160, 134, 1, 0, 0, 0, 0, 0, 0, 0, 0, 0, 0, 0, 0, 0, 10, 0,
        0, 0, 0, 0, 0, 0, 0, 0, 0, 0, 0, 0, 0, 0, 0, 0, 0, 0,
    ];
    let cfg = Config::from_slice(&slice);

    assert!(cfg.is_some());
    let cfg = cfg.unwrap();

    assert_eq!(slice_le_to_i32(&slice[0..4]), cfg.initial_rnd);
    assert_eq!(Type::PASSEMBLOSS, cfg.get_gametype());
    assert_eq!(2i32, cfg.get_gametype().to_i32());
    assert_eq!(100000, cfg.initial_cash);
    assert_eq!(0, cfg.artefacts_using);
    if let GameMode::Passembloss(Passembloss { checkpoints_number, random_escave }) = cfg.game_type
    {
        assert_eq!(10, checkpoints_number);
        assert_eq!(0, random_escave);
    } else {
        panic!("`cfg.gametype` should be Passembloss, actual is: `{:?}`", cfg.game_type);
    }
}
