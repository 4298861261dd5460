use vault_manager::errors::VaultError;
use vault_manager::instructions::VaultInstruction;

#[test]
fn decode_tag_zero_is_init_user() {
    let r = VaultInstruction::unpack(&vec![0u8]).unwrap();
    assert!(matches!(r, VaultInstruction::InitUserAccount {}));
}

#[test]
fn decode_tag_one_carries_name() {
    let r = VaultInstruction::unpack(&vec![1u8, b'm', b'y', b'v']).unwrap();
    match r {
        VaultInstruction::InitVaultAccount { vault_name } => {
            assert_eq!(vault_name, b"myv".to_vec());
        }
        _ => panic!("wrong operation"),
    }
}

#[test]
fn decode_tag_one_empty_name() {
    let r = VaultInstruction::unpack(&vec![1u8]).unwrap();
    match r {
        VaultInstruction::InitVaultAccount { vault_name } => {
            assert_eq!(vault_name, Vec::<u8>::new());
        }
        _ => panic!("wrong operation"),
    }
}

#[test]
fn decode_rejects_invalid_utf8_name() {
    let r = VaultInstruction::unpack(&vec![1u8, 0xff, 0xfe]);
    assert_eq!(r.unwrap_err(), VaultError::MalformedInstruction);
}

#[test]
fn decode_accepts_multibyte_utf8_name() {
    // "é" encoded as 0xC3 0xA9
    let r = VaultInstruction::unpack(&vec![1u8, 0xc3, 0xa9]).unwrap();
    match r {
        VaultInstruction::InitVaultAccount { vault_name } => {
            assert_eq!(vault_name, vec![0xc3, 0xa9]);
        }
        _ => panic!("wrong operation"),
    }
}

#[test]
fn decode_rejects_utf8_surrogate_range() {
    // 0xED 0xA0 0x80 would be a UTF-16 surrogate; not valid UTF-8.
    let r = VaultInstruction::unpack(&vec![1u8, 0xed, 0xa0, 0x80]);
    assert_eq!(r.unwrap_err(), VaultError::MalformedInstruction);
}

#[test]
fn decode_empty_buffer_is_malformed() {
    let r = VaultInstruction::unpack(&Vec::new());
    assert_eq!(r.unwrap_err(), VaultError::MalformedInstruction);
}

#[test]
fn decode_unknown_tag_is_invalid_instruction() {
    let r = VaultInstruction::unpack(&vec![9u8]);
    assert_eq!(r.unwrap_err(), VaultError::InvalidInstruction);
}

#[test]
fn decode_tag_two_splits_payload_and_name() {
    let mut buf = vec![2u8];
    let payload: Vec<u8> = (0..64).map(|i| i as u8).collect();
    buf.extend_from_slice(&payload);
    buf.extend_from_slice(b"vlt");
    let r = VaultInstruction::unpack(&buf).unwrap();
    match r {
        VaultInstruction::InitAddInVault { vault_name, data } => {
            assert_eq!(vault_name, b"vlt".to_vec());
            assert_eq!(data, payload);
        }
        _ => panic!("wrong operation"),
    }
}

#[test]
fn decode_tag_two_short_payload_is_malformed() {
    let mut buf = vec![2u8];
    buf.extend_from_slice(&[7u8; 63]);
    let r = VaultInstruction::unpack(&buf);
    assert_eq!(r.unwrap_err(), VaultError::MalformedInstruction);
}

#[test]
fn decode_tag_three_reads_flag_index_payload_name() {
    let mut buf = vec![3u8, 1u8];
    buf.extend_from_slice(&[5, 1, 0, 0]); // little-endian 261
    let payload: Vec<u8> = (0..64).map(|i| (255 - i) as u8).collect();
    buf.extend_from_slice(&payload);
    buf.extend_from_slice(b"vlt");
    let r = VaultInstruction::unpack(&buf).unwrap();
    match r {
        VaultInstruction::EditVaultAccount { data, vault_name, index, delete } => {
            assert_eq!(delete, 1);
            assert_eq!(index, 261);
            assert_eq!(data, payload);
            assert_eq!(vault_name, b"vlt".to_vec());
        }
        _ => panic!("wrong operation"),
    }
}

#[test]
fn decode_tag_three_short_segment_is_malformed() {
    let buf = vec![3u8, 0, 1, 2, 3]; // flag + only part of the index
    let r = VaultInstruction::unpack(&buf);
    assert_eq!(r.unwrap_err(), VaultError::MalformedInstruction);
}

#[test]
fn unpack_data_splits_at_credential_width() {
    let mut buf: Vec<u8> = (0..64).map(|i| i as u8).collect();
    buf.push(200);
    let (head, rest) = VaultInstruction::unpack_data(&buf).unwrap();
    assert_eq!(head.len(), 64);
    assert_eq!(head[63], 63);
    assert_eq!(rest, vec![200]);
}

#[test]
fn unpack_data_short_input_fails() {
    let buf = vec![1u8; 10];
    assert_eq!(
        VaultInstruction::unpack_data(&buf).unwrap_err(),
        VaultError::MalformedInstruction
    );
}

#[test]
fn unpack_index_reads_little_endian() {
    let buf = vec![0x78, 0x56, 0x34, 0x12, 99];
    let (index, rest) = VaultInstruction::unpack_index(&buf).unwrap();
    assert_eq!(index, 0x12345678);
    assert_eq!(rest, vec![99]);
}

#[test]
fn unpack_index_short_input_fails() {
    let buf = vec![1u8, 2, 3];
    assert_eq!(
        VaultInstruction::unpack_index(&buf).unwrap_err(),
        VaultError::MalformedInstruction
    );
}

#[test]
fn unpack_name_stops_at_padding_zero() {
    let mut buf = b"myvault".to_vec();
    buf.resize(32, 0);
    buf.push(42);
    let (name, rest) = VaultInstruction::unpack_name(&buf).unwrap();
    assert_eq!(name, b"myvault".to_vec());
    assert_eq!(rest, vec![42]);
}

#[test]
fn unpack_name_short_field_fails() {
    let buf = vec![7u8; 31];
    assert_eq!(
        VaultInstruction::unpack_name(&buf).unwrap_err(),
        VaultError::DataUnpackError
    );
}

#[test]
fn unpack_name_invalid_utf8_fails() {
    let mut buf = vec![0xffu8, 0xfe];
    buf.resize(32, 0);
    assert_eq!(
        VaultInstruction::unpack_name(&buf).unwrap_err(),
        VaultError::DataUnpackError
    );
}

#[test]
fn slice_to_array_copies_credential_payload() {
    let buf: Vec<u8> = (0..64).map(|i| i as u8).collect();
    let copy = VaultInstruction::slice_to_array(&buf);
    assert_eq!(copy, buf);
}
