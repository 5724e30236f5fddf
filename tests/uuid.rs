use input_validation::{generate_id, result_helper, validate_file_uuid, validate_uuid, ValidationError};

const PNG_HEAD: [u8; 16] = [
    0x89, 0x50, 0x4E, 0x47, 0x0D, 0x0A, 0x1A, 0x0A, 0x00, 0x00, 0x00, 0x0D, 0x49, 0x48, 0x44, 0x52,
];

#[test]
fn validate_uuid_format() {
    // Pass
    assert!(validate_uuid("00000008-0004-0004-0004-000000000012"));

    // Fail
    assert!(!validate_uuid("000000000000000000000000000"));
    assert!(!validate_uuid("000000-000000-0000000000"));
    assert!(!validate_uuid("000000-000000-000000-0000"));
    assert!(!validate_uuid("--------------------------"));

    // Corner cases: the number closing each group is its length
    assert!(!validate_uuid("0000007-0004-0004-0004-000000000012"));
    assert!(!validate_uuid("000000009-0004-0004-0004-000000000012"));

    assert!(!validate_uuid("00000008-003-0004-0004-000000000012"));
    assert!(!validate_uuid("00000008-0004-003-0004-000000000012"));
    assert!(!validate_uuid("00000008-0004-0004-003-000000000012"));
    assert!(!validate_uuid("00000008-00005-0004-0004-000000000012"));
    assert!(!validate_uuid("00000008-0004-00005-0004-000000000012"));
    assert!(!validate_uuid("00000008-0004-0004-00005-000000000012"));

    assert!(!validate_uuid("00000008-0004-0004-003-00000000011"));
    assert!(!validate_uuid("00000008-0004-0004-003-0000000000013"));

    // two hyphens in a row
    assert!(!validate_uuid("00000008--0004-0004-0004-000000000012"));
    assert!(!validate_uuid("00000008-0004--0004-0004-000000000012"));
    assert!(!validate_uuid("00000008-0004-0004--0004-000000000012"));
    assert!(!validate_uuid("00000008-0004-0004-0004--000000000012"));

    // other separators than hyphens
    assert!(!validate_uuid("00000008 0004 0004 0004 000000000012"));
    assert!(!validate_uuid("00000008_0004_0004_0004_000000000012"));
    assert!(!validate_uuid("00000008000400040004000000000012"));
}

#[test]
fn validate_uuid_characters() {
    // Pass
    assert!(validate_uuid("00000000-0000-0000-0000-000000000000"));
    assert!(validate_uuid("12345678-1234-4567-8912-123456789012"));
    assert!(validate_uuid("abcdefab-abcd-abcd-abcd-abcdefabcdef"));
    assert!(validate_uuid("ABCDEFAB-ABCD-ABCD-ABCD-ABCDEFABCDEF"));

    // special characters
    assert!(!validate_uuid("*$[_0000-0000-0000-0000-000000000000"));
    assert!(!validate_uuid("00000000-*$[_-0000-0000-000000000000"));
    assert!(!validate_uuid("00000000-0000-*$[_-0000-000000000000"));
    assert!(!validate_uuid("00000000-0000-0000-*$[_-000000000000"));
    assert!(!validate_uuid("00000000-0000-0000-0000-*$[_00000000"));
    assert!(!validate_uuid("+@*%&/()-=0?'-^`~]-[}{!-¨_<>°§:;.,00"));

    // letters and digits that are not hexadecimal
    assert!(!validate_uuid("z0000000-0000-0000-0000-000000000000"));
    assert!(!validate_uuid("00000000-u000-0000-0000-000000000000"));
    assert!(!validate_uuid("00000000-0000-v000-0000-000000000000"));
    assert!(!validate_uuid("00000000-0000-0000-w000-000000000000"));
    assert!(!validate_uuid("00000000-0000-0000-0000-x00000000000"));
    assert!(!validate_uuid("z0000000-0000-0000-0000-000000000000"));

    assert!(!validate_uuid("Y0000000-0000-0000-0000-000000000000"));
    assert!(!validate_uuid("00000000-Z000-0000-0000-000000000000"));
    assert!(!validate_uuid("00000000-0000-U000-0000-000000000000"));
    assert!(!validate_uuid("00000000-0000-0000-V000-000000000000"));
    assert!(!validate_uuid("00000000-0000-0000-0000-W00000000000"));

    assert!(!validate_uuid("abcdefgh-ijkl-mnop-qrst-uvwxyz012345"));
    assert!(!validate_uuid("ABCDEFGH-IJKL-MNOP-QRST-UVWXYZ012345"));
}

#[test]
fn validate_uuid_each_hyphen_removed_or_group_shortened() {
    let good = "12345678-1234-4567-8912-123456789012";
    assert!(validate_uuid(good));
    for (i, c) in good.char_indices() {
        let mut without = String::from(&good[..i]);
        without.push_str(&good[i + 1..]);
        assert!(!validate_uuid(&without), "removed {:?} at {}", c, i);
        let mut replaced = String::from(&good[..i]);
        replaced.push('g');
        replaced.push_str(&good[i + 1..]);
        assert!(!validate_uuid(&replaced), "replaced {:?} at {}", c, i);
    }
    assert!(!validate_uuid(""));
    assert!(!validate_uuid("12345678-1234-4567-8912-1234567890123"));
}

#[test]
fn validate_file_uuid_bad_uuid() {
    assert!(result_helper(
        validate_file_uuid(&PNG_HEAD, "00000008_0004-0004-0004-000000000012"),
        false,
        Some(ValidationError::InvalidUuidFormat)
    ));
}

#[test]
fn generate_id_known_values() {
    assert_eq!(generate_id(&[]), "e129f27c-5103-5c5c-844b-cdf0a15e160d");
    assert_eq!(generate_id(b"hello"), "b7502f40-1152-59f2-ba10-69aeed522cdf");
    assert_eq!(generate_id(&PNG_HEAD), "95cd46d8-e1d8-55f5-8b83-e1818bd6d7d3");
}

#[test]
fn generate_id_is_deterministic() {
    let a = generate_id(&PNG_HEAD);
    let b = generate_id(&PNG_HEAD.to_vec());
    assert_eq!(a, b);
    assert_ne!(a, generate_id(&PNG_HEAD[..15]));
}

#[test]
fn generated_ids_are_well_formed() {
    for content in [&b""[..], &b"hello"[..], &PNG_HEAD[..]] {
        let id = generate_id(content);
        assert!(validate_uuid(&id));
        assert_eq!(id, id.to_lowercase());
    }
}

#[test]
fn validate_file_uuid_matching_and_not() {
    let id = generate_id(&PNG_HEAD);
    assert_eq!(validate_file_uuid(&PNG_HEAD, &id), Ok(true));
    assert_eq!(
        validate_file_uuid(&PNG_HEAD, "00000008-0004-0004-0004-000000000012"),
        Ok(false)
    );
    // Well formed, but the comparison is exact.
    assert_eq!(validate_file_uuid(&PNG_HEAD, &id.to_uppercase()), Ok(false));
}
