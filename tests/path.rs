use conflux_keys::path::{parse_path, PathRequest, MAX_PATH_DEPTH};
use conflux_keys::status::AppSW;

#[test]
fn two_components_without_chain_id() {
    let data = [0, 0, 0, 0, 0, 0, 0, 1];
    assert_eq!(
        parse_path(&data, false),
        Ok(PathRequest { path: vec![0, 1], chain_id: None })
    );
}

#[test]
fn components_are_big_endian() {
    let data = [0x80, 0x00, 0x00, 0x2c, 0x01, 0x02, 0x03, 0x04];
    assert_eq!(
        parse_path(&data, false),
        Ok(PathRequest { path: vec![0x8000_002c, 0x0102_0304], chain_id: None })
    );
}

#[test]
fn trailing_chain_id_is_split_off() {
    let data = [0, 0, 0, 5, 0x00, 0x00, 0x04, 0x05];
    assert_eq!(
        parse_path(&data, true),
        Ok(PathRequest { path: vec![5], chain_id: Some(1029) })
    );
}

#[test]
fn partial_component_is_rejected() {
    assert_eq!(parse_path(&[0, 0, 0, 0, 1, 2, 3], false), Err(AppSW::WrongApduLength));
    assert_eq!(parse_path(&[0, 0, 0, 0, 1, 0, 0, 0, 9], true), Err(AppSW::WrongApduLength));
}

#[test]
fn empty_path_is_rejected() {
    assert_eq!(parse_path(&[], false), Err(AppSW::WrongApduLength));
    assert_eq!(parse_path(&[0, 0, 0, 1], true), Err(AppSW::WrongApduLength));
}

#[test]
fn payload_shorter_than_chain_id_is_rejected() {
    assert_eq!(parse_path(&[0, 1], true), Err(AppSW::WrongApduLength));
}

#[test]
fn deepest_path_is_accepted_and_one_more_rejected() {
    let deepest = vec![0u8; 4 * MAX_PATH_DEPTH];
    let parsed = parse_path(&deepest, false).unwrap();
    assert_eq!(parsed.path, vec![0u32; MAX_PATH_DEPTH]);
    let too_deep = vec![0u8; 4 * (MAX_PATH_DEPTH + 1)];
    assert_eq!(parse_path(&too_deep, false), Err(AppSW::WrongApduLength));
}
