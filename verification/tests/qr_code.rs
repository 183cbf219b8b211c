use quickr_qr::qr_code::QRCode;

#[test]
fn qr_code_should_have_size_21_for_version_1() {
    const VERSION_1_SIZE: usize = 21;
    let qr_v1 = QRCode::new(1).unwrap();

    assert_eq!(qr_v1.size(), VERSION_1_SIZE);
}

#[test]
fn qr_code_should_have_size_25_for_version_2() {
    const VERSION_2_SIZE: usize = 25;
    let qr_v2 = QRCode::new(2).unwrap();

    assert_eq!(qr_v2.size(), VERSION_2_SIZE);
}

#[test]
fn qr_code_should_have_size_57_for_version_10() {
    const VERSION_10_SIZE: usize = 57;
    let qr_v10 = QRCode::new(10).unwrap();

    assert_eq!(qr_v10.size(), VERSION_10_SIZE);
}

#[test]
fn qr_code_should_have_size_117_for_version_25() {
    const VERSION_25_SIZE: usize = 117;
    let qr_v25 = QRCode::new(25).unwrap();

    assert_eq!(qr_v25.size(), VERSION_25_SIZE);
}

#[test]
fn qr_code_should_have_size_177_for_version_40() {
    const VERSION_40_SIZE: usize = 177;
    let qr_v40 = QRCode::new(40).unwrap();

    assert_eq!(qr_v40.size(), VERSION_40_SIZE);
}

#[test]
fn should_have_dimensions_with_length_21_for_version_1() {
    const VERSION_1_DIMENSIONS_LENGTH: usize = 21;

    let qr_v1 = QRCode::new(1).unwrap();

    assert_eq!(qr_v1.size(), VERSION_1_DIMENSIONS_LENGTH);
    assert_eq!(qr_v1.bits()[(qr_v1.size() - 1)].len() - 8, VERSION_1_DIMENSIONS_LENGTH);
}

#[test]
fn should_have_dimensions_with_length_25_for_version_2() {
    const VERSION_2_DIMENSIONS_LENGTH: usize = 25;

    let qr_v2 = QRCode::new(2).unwrap();

    assert_eq!(qr_v2.size(), VERSION_2_DIMENSIONS_LENGTH);
    assert_eq!(qr_v2.bits()[(qr_v2.size() - 1)].len() - 8, VERSION_2_DIMENSIONS_LENGTH);
}

#[test]
fn should_have_dimensions_with_length_57_for_version_10() {
    const VERSION_10_DIMENSIONS_LENGTH: usize = 57;

    let qr_v10 = QRCode::new(10).unwrap();

    assert_eq!(qr_v10.size(), VERSION_10_DIMENSIONS_LENGTH);
    assert_eq!(qr_v10.bits()[(qr_v10.size() - 1)].len() - 8, VERSION_10_DIMENSIONS_LENGTH);
}

#[test]
fn should_have_dimensions_with_length_117_for_version_25() {
    const VERSION_25_DIMENSIONS_LENGTH: usize = 117;

    let qr_v25 = QRCode::new(25).unwrap();

    assert_eq!(qr_v25.size(), VERSION_25_DIMENSIONS_LENGTH);
    assert_eq!(qr_v25.bits()[(qr_v25.size() - 1)].len() - 8, VERSION_25_DIMENSIONS_LENGTH);
}

#[test]
fn should_have_dimensions_with_length_177_for_version_40() {
    const VERSION_40_DIMENSIONS_LENGTH: usize = 177;

    let qr_v40 = QRCode::new(40).unwrap();

    assert_eq!(qr_v40.size(), VERSION_40_DIMENSIONS_LENGTH);
    assert_eq!(qr_v40.bits()[(qr_v40.size() - 1)].len() - 8, VERSION_40_DIMENSIONS_LENGTH);

}

#[test]
fn creates_correct_matrix() {
    let pattern: Vec<Vec<u8>> = vec![
        vec![1, 1],
        vec![1, 0],
    ];

    let generated_bits = QRCode::build_matrix_from_binary_pattern(&pattern);

    assert!(generated_bits[0][0].on);
    assert!(generated_bits[0][1].on);
    assert!(generated_bits[1][0].on);
    assert!(!generated_bits[1][1].on);

    for row in generated_bits {
        for bit in row  {
            assert!(bit.reserved);
        }
    }
}

#[test]
fn creates_correct_for_one() {
    let pattern: Vec<Vec<u8>> = vec![
        vec![1],
    ];

    let generated_bits = QRCode::build_matrix_from_binary_pattern(&pattern);

    assert!(generated_bits[0][0].on);
    assert_eq!(generated_bits.len(), 1);
    assert_eq!(generated_bits[0].len(), 1);
}

#[test]
fn applies_correct_finder_patterns_for_version_1() {
    let qr_v1 = QRCode::new(1).unwrap();

    assert!(qr_v1.at(0, 20).on);
    assert!(qr_v1.at(2, 18).on);
    assert!(!qr_v1.at(2, 19).on);
}

#[test]
fn reserves_bits_of_finder_pattern() {
    let qr_v1 = QRCode::new(1).unwrap();
    assert!(qr_v1.at(4, 20).reserved);
    assert!(qr_v1.at(2, 18).reserved);
    assert!(qr_v1.at(2, 19).reserved);
}

#[test]
fn adds_timing_pattern() {
    let qr_v1 = QRCode::new(1).unwrap();

    assert!(qr_v1.at(6, 8).on);
    assert!(qr_v1.at(6, 8).reserved);
    assert!(qr_v1.at(8, 6).on);
    assert!(qr_v1.at(8, 6).reserved);
    assert!(!qr_v1.at(6, 7).on);
    assert!(qr_v1.at(6, 7).reserved);
    assert!(!qr_v1.at(7, 6).on);
    assert!(qr_v1.at(7, 6).reserved);
}
