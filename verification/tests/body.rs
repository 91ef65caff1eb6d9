use vangers_srv::body::Body;
use vangers_srv::protocol::NetTransportReceive;

fn get_body_base_slice() -> Vec<u8> {
    vec![1u8, 2u8, 3u8, 4u8]
        .iter() // kills, deaths, color, world
        .chain(&5u32.to_le_bytes()) //beebos
        .chain(&6f32.to_le_bytes()) //rating
        .chain(&[7u8]) //car_index
        .chain(&8i16.to_le_bytes()) //data1
        .chain(&9i16.to_le_bytes()) //data2
        .chain(&10u32.to_le_bytes()) //birth_time
        .chain(&11u32.to_le_bytes()) //net_id
        .map(|&b| b)
        .collect::<Vec<_>>()
}

fn assert_base_fields(body: &Body) {
    assert_eq!(1, body.kills);
    assert_eq!(2, body.deaths);
    assert_eq!(3, body.color);
    assert_eq!(4, body.world);
    assert_eq!(5, body.beebos);
    // the rating is stored as the raw bits of the wire's 32-bit float
    assert_eq!(6f32.to_bits(), body.rating);
    assert_eq!(7, body.car_index);
    assert_eq!(8, body.data1);
    assert_eq!(9, body.data2);
    assert_eq!(10, body.birth_time);
    assert_eq!(11, body.net_id);
}

#[test]
fn body_from_slice_vanwar() {
    let mut data_base = get_body_base_slice();
    let stats = std::iter::empty()
        .chain(&20i32.to_le_bytes()) //max_live_time
        .chain(&21i32.to_le_bytes()) //min_live_time
        .chain(&22i32.to_le_bytes()) //kill_freq
        .chain(&23i32.to_le_bytes()) //death_freaq
        .map(|&b| b)
        .collect::<Vec<_>>();

    data_base.append(&mut stats.clone());

    let body = Body::from_slice(&data_base[..]);
    assert!(body.is_some());
    let body = body.unwrap();

    assert_base_fields(&body);
    assert_eq!(&stats, &body.stats);
}

#[test]
fn body_from_slice_mechosoma() {
    let mut data_base = get_body_base_slice();
    let stats = std::iter::empty()
        .chain(&20i32.to_le_bytes()) //item_count1
        .chain(&21i32.to_le_bytes()) //item_count2
        .chain(&22i32.to_le_bytes()) //max_transit_time
        .chain(&23i32.to_le_bytes()) //min_transit_time
        .chain(&24i32.to_le_bytes()) //sneak_count
        .chain(&25i32.to_le_bytes()) //lost_count
        .map(|&b| b)
        .collect::<Vec<_>>();

    data_base.append(&mut stats.clone());

    let body = Body::from_slice(&data_base[..]);
    assert!(body.is_some());
    let body = body.unwrap();

    assert_base_fields(&body);
    assert_eq!(&stats, &body.stats);
}

#[test]
fn body_from_slice_passembloss() {
    let mut data_base = get_body_base_slice();
    let stats = std::iter::empty()
        .chain(&20i32.to_le_bytes()) //total_time
        .chain(&21i32.to_le_bytes()) //checkpoint_lighting
        .chain(&22i32.to_le_bytes()) //min_time
        .chain(&23i32.to_le_bytes()) //max_time
        .map(|&b| b)
        .collect::<Vec<_>>();

    data_base.append(&mut stats.clone());

    let body = Body::from_slice(&data_base[..]);
    assert!(body.is_some());
    let body = body.unwrap();

    assert_base_fields(&body);
    assert_eq!(&stats, &body.stats);
}

#[test]
fn body_from_slice_mustodont() {
    let mut data_base = get_body_base_slice();
    let stats = std::iter::empty()
        .chain(&20i32.to_le_bytes()) //part_time1
        .chain(&21i32.to_le_bytes()) //part_time2
        .chain(&22i32.to_le_bytes()) //body_time
        .chain(&23i32.to_le_bytes()) //make_time
        .map(|&b| b)
        .collect::<Vec<_>>();

    data_base.append(&mut stats.clone());

    let body = Body::from_slice(&data_base[..]);
    assert!(body.is_some());
    let body = body.unwrap();

    assert_base_fields(&body);
    assert_eq!(&stats, &body.stats);
}

#[test]
fn body_from_slice_incorrect_size() {
    let assert_none = |data: &[u8]| {
        assert!(Body::from_slice(&data[..]).is_none());
        assert!(Body::from_slice(&data[..]).is_none());
        assert!(Body::from_slice(&data[..]).is_none());
        assert!(Body::from_slice(&data[..]).is_none());
    };

    assert_none(&[]);
    assert_none(&[1]);
    assert_none(&[1, 2, 3, 4, 5, 6]);
}
