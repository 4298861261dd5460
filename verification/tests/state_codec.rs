use vault_manager::errors::VaultError;
use vault_manager::state::{
    decode_credentials, decode_user, decode_vault, encode_credentials, encode_user, encode_vault,
    pad_name, Credentials, UserAccount, VaultAccount,
};

fn cred(a: u8, b: u8) -> Credentials {
    Credentials { field: vec![a; 32], passkey: vec![b; 32] }
}

#[test]
fn credential_wire_form_is_field_then_passkey() {
    let c = cred(1, 2);
    let bytes = encode_credentials(&c);
    assert_eq!(bytes.len(), 64);
    assert_eq!(&bytes[..32], &[1u8; 32]);
    assert_eq!(&bytes[32..], &[2u8; 32]);
}

#[test]
fn credential_round_trip() {
    let c = cred(7, 9);
    let back = decode_credentials(&encode_credentials(&c)).unwrap();
    assert_eq!(back.field, c.field);
    assert_eq!(back.passkey, c.passkey);
}

#[test]
fn credential_decode_rejects_wrong_width() {
    assert_eq!(
        decode_credentials(&vec![0u8; 63]).unwrap_err(),
        VaultError::DataUnpackError
    );
    assert_eq!(
        decode_credentials(&vec![0u8; 65]).unwrap_err(),
        VaultError::DataUnpackError
    );
}

#[test]
fn user_wire_form_is_owner_count_addresses() {
    let u = UserAccount { user_address: vec![5; 32], vaults: vec![vec![8; 32]] };
    let bytes = encode_user(&u);
    assert_eq!(bytes.len(), 68);
    assert_eq!(&bytes[..32], &[5u8; 32]);
    assert_eq!(&bytes[32..36], &[1, 0, 0, 0]);
    assert_eq!(&bytes[36..], &[8u8; 32]);
}

#[test]
fn user_round_trip_with_two_vaults() {
    let u = UserAccount {
        user_address: vec![3; 32],
        vaults: vec![vec![10; 32], vec![11; 32]],
    };
    let back = decode_user(&encode_user(&u)).unwrap();
    assert_eq!(back.user_address, u.user_address);
    assert_eq!(back.vaults, u.vaults);
}

#[test]
fn user_decode_rejects_truncated_buffer() {
    let u = UserAccount { user_address: vec![3; 32], vaults: vec![vec![10; 32]] };
    let mut bytes = encode_user(&u);
    bytes.pop();
    assert_eq!(decode_user(&bytes).unwrap_err(), VaultError::DataUnpackError);
}

#[test]
fn user_decode_rejects_count_beyond_buffer() {
    let mut bytes = vec![0u8; 36];
    bytes[32] = 2; // claims two vault addresses, none present
    assert_eq!(decode_user(&bytes).unwrap_err(), VaultError::DataUnpackError);
}

#[test]
fn vault_wire_form_layout() {
    let v = VaultAccount {
        name: pad_name(&b"myv".to_vec()),
        user_account: vec![4; 32],
        data: vec![cred(1, 2)],
    };
    let bytes = encode_vault(&v);
    assert_eq!(bytes.len(), 132);
    assert_eq!(&bytes[..3], b"myv");
    assert_eq!(&bytes[3..32], &[0u8; 29]);
    assert_eq!(&bytes[32..64], &[4u8; 32]);
    assert_eq!(&bytes[64..68], &[1, 0, 0, 0]);
    assert_eq!(&bytes[68..100], &[1u8; 32]);
    assert_eq!(&bytes[100..132], &[2u8; 32]);
}

#[test]
fn vault_round_trip_with_two_credentials() {
    let v = VaultAccount {
        name: pad_name(&b"vault one".to_vec()),
        user_account: vec![6; 32],
        data: vec![cred(1, 2), cred(3, 4)],
    };
    let back = decode_vault(&encode_vault(&v)).unwrap();
    assert_eq!(back.name, v.name);
    assert_eq!(back.user_account, v.user_account);
    assert_eq!(back.data.len(), 2);
    assert_eq!(back.data[0].field, vec![1; 32]);
    assert_eq!(back.data[1].passkey, vec![4; 32]);
}

#[test]
fn vault_decode_rejects_truncated_buffer() {
    assert_eq!(decode_vault(&vec![0u8; 67]).unwrap_err(), VaultError::DataUnpackError);
}

#[test]
fn pad_name_truncates_past_width() {
    let long: Vec<u8> = (0..40).map(|i| i as u8 + 1).collect();
    let padded = pad_name(&long);
    assert_eq!(padded.len(), 32);
    assert_eq!(padded[31], 32);
}
