use vault_manager::errors::VaultError;
use vault_manager::utf8::check_utf8;

#[test]
fn utf8_judgement_matches_the_standard_library() {
    let cases: Vec<Vec<u8>> = vec![
        Vec::new(),
        b"plain ascii".to_vec(),
        vec![0xc3, 0xa9],                   // two-byte scalar
        vec![0xe2, 0x82, 0xac],             // three-byte scalar
        vec![0xf0, 0x9f, 0x92, 0xbb],       // four-byte scalar
        vec![0x80],                         // lone continuation
        vec![0xc0, 0xaf],                   // overlong two-byte form
        vec![0xe0, 0x80, 0x80],             // overlong three-byte form
        vec![0xed, 0xa0, 0x80],             // surrogate
        vec![0xf4, 0x90, 0x80, 0x80],       // above U+10FFFF
        vec![0xf0, 0x9f, 0x92],             // truncated four-byte form
        vec![0xc3],                         // truncated two-byte form
        vec![0x7f, 0xc2, 0x80, 0xdf, 0xbf], // boundary two-byte forms
    ];
    for c in cases {
        assert_eq!(check_utf8(&c), std::str::from_utf8(&c).is_ok(), "case {:?}", c);
    }
}

#[test]
fn every_error_has_a_description() {
    let all = [
        VaultError::MalformedInstruction,
        VaultError::InvalidInstruction,
        VaultError::DataUnpackError,
        VaultError::UnauthorizedCaller,
        VaultError::AddressMismatch,
        VaultError::AccountStateConflict,
        VaultError::IndexOutOfRange,
        VaultError::CapacityExceeded,
        VaultError::TransferFailed,
    ];
    for e in all {
        assert!(!e.describe().is_empty());
    }
}
