use quickr_qr::QRCode;

#[test]
fn lib_should_have_size_21_for_version_1() {
    const VERSION_1_SIZE: u8 = 21;
    let qr_v1 = QRCode::new(1).unwrap();

    assert_eq!(qr_v1.size(), usize::from(VERSION_1_SIZE));
}

#[test]
fn lib_should_have_size_25_for_version_2() {
    const VERSION_2_SIZE: u8 = 25;
    let qr_v2 = QRCode::new(2).unwrap();

    assert_eq!(qr_v2.size(), usize::from(VERSION_2_SIZE));
}

#[test]
fn lib_should_have_size_57_for_version_10() {
    const VERSION_10_SIZE: u8 = 57;
    let qr_v10 = QRCode::new(10).unwrap();

    assert_eq!(qr_v10.size(), usize::from(VERSION_10_SIZE));
}

#[test]
fn lib_should_have_size_117_for_version_25() {
    const VERSION_25_SIZE: u8 = 117;
    let qr_v25 = QRCode::new(25).unwrap();

    assert_eq!(qr_v25.size(), usize::from(VERSION_25_SIZE));
}

#[test]
fn lib_should_have_size_177_for_version_40() {
    const VERSION_40_SIZE: u8 = 177;
    let qr_v40 = QRCode::new(40).unwrap();

    assert_eq!(qr_v40.size(), usize::from(VERSION_40_SIZE));
}

#[test]
fn should_have_dimentions_with_length_21_for_version_1() {
    const VERSION_1_DIMENTIONS_LENGTH: usize = 21;

    let qr_v1 = QRCode::new(1).unwrap();

    assert_eq!(qr_v1.bits().len() - 8, VERSION_1_DIMENTIONS_LENGTH);
    assert_eq!(qr_v1.bits()[qr_v1.size() - 1].len() - 8, VERSION_1_DIMENTIONS_LENGTH);
}

#[test]
fn should_have_dimentions_with_length_25_for_version_2() {
    const VERSION_2_DIMENTIONS_LENGTH: usize = 25;

    let qr_v2 = QRCode::new(2).unwrap();

    assert_eq!(qr_v2.bits().len() - 8, VERSION_2_DIMENTIONS_LENGTH);
    assert_eq!(qr_v2.bits()[qr_v2.size() - 1].len() - 8, VERSION_2_DIMENTIONS_LENGTH);
}

#[test]
fn should_have_dimentions_with_length_57_for_version_10() {
    const VERSION_10_DIMENTIONS_LENGTH: usize = 57;

    let qr_v10 = QRCode::new(10).unwrap();

    assert_eq!(qr_v10.bits().len() - 8, VERSION_10_DIMENTIONS_LENGTH);
    assert_eq!(qr_v10.bits()[qr_v10.size() - 1].len() - 8, VERSION_10_DIMENTIONS_LENGTH);
}

#[test]
fn should_have_dimentions_with_length_117_for_version_25() {
    const VERSION_25_DIMENTIONS_LENGTH: usize = 117;

    let qr_v25 = QRCode::new(25).unwrap();

    assert_eq!(qr_v25.bits().len() - 8, VERSION_25_DIMENTIONS_LENGTH);
    assert_eq!(qr_v25.bits()[qr_v25.size() - 1].len() - 8, VERSION_25_DIMENTIONS_LENGTH);
}

#[test]
fn should_have_dimentions_with_length_177_for_version_40() {
    const VERSION_40_DIMENTIONS_LENGTH: usize = 177;

    let qr_v40 = QRCode::new(40).unwrap();

    assert_eq!(qr_v40.bits().len() - 8, VERSION_40_DIMENTIONS_LENGTH);
    assert_eq!(qr_v40.bits()[qr_v40.size() - 1].len() - 8, VERSION_40_DIMENTIONS_LENGTH);
}

#[test]
fn calc_size_follows_the_formula_for_every_version() {
    for version in 1..=40u8 {
        let expected: usize = 21 + (usize::from(version) - 1) * 4;
        assert_eq!(QRCode::calc_size(version), expected);
        assert_eq!(QRCode::new(version).unwrap().size(), expected);
    }
}

#[test]
fn calc_size_of_the_first_and_the_last_versions() {
    assert_eq!(QRCode::calc_size(1), 21);
    assert_eq!(QRCode::calc_size(2), 25);
    assert_eq!(QRCode::calc_size(10), 57);
    assert_eq!(QRCode::calc_size(25), 117);
    assert_eq!(QRCode::calc_size(40), 177);
}

#[test]
fn calc_size_is_total() {
    assert_eq!(QRCode::calc_size(0), 17);
    assert_eq!(QRCode::calc_size(41), 181);
    assert_eq!(QRCode::calc_size(255), 1037);
}
