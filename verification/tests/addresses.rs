use vault_manager::pda::{
    derive_user_address, derive_vault_address, verify_user_address, verify_vault_address,
};

fn pid() -> Vec<u8> {
    vec![9u8; 32]
}

#[test]
fn user_address_is_deterministic() {
    let owner = vec![1u8; 32];
    let a = derive_user_address(&owner, &pid()).unwrap();
    let b = derive_user_address(&owner, &pid()).unwrap();
    assert_eq!(a.0, b.0);
    assert_eq!(a.1, b.1);
    assert_eq!(a.0.len(), 32);
}

#[test]
fn user_address_differs_from_owner() {
    // The derivation is real work: the address is not the owner identity
    // handed back, and differs across owners.
    let owner1 = vec![1u8; 32];
    let owner2 = vec![2u8; 32];
    let a = derive_user_address(&owner1, &pid()).unwrap();
    let b = derive_user_address(&owner2, &pid()).unwrap();
    assert_ne!(a.0, owner1);
    assert_ne!(a.0, b.0);
}

#[test]
fn vault_address_depends_on_name_and_owner() {
    let owner = vec![1u8; 32];
    let a = derive_vault_address(&owner, &b"one".to_vec(), &pid()).unwrap();
    let b = derive_vault_address(&owner, &b"two".to_vec(), &pid()).unwrap();
    let c = derive_vault_address(&vec![3u8; 32], &b"one".to_vec(), &pid()).unwrap();
    let a_again = derive_vault_address(&owner, &b"one".to_vec(), &pid()).unwrap();
    assert_ne!(a.0, b.0);
    assert_ne!(a.0, c.0);
    assert_eq!(a.0, a_again.0);
}

#[test]
fn vault_address_differs_from_user_address() {
    let owner = vec![1u8; 32];
    let u = derive_user_address(&owner, &pid()).unwrap();
    let v = derive_vault_address(&owner, &b"one".to_vec(), &pid()).unwrap();
    assert_ne!(u.0, v.0);
}

#[test]
fn verify_accepts_derived_and_rejects_foreign_keys() {
    let owner = vec![1u8; 32];
    let u = derive_user_address(&owner, &pid()).unwrap();
    assert!(verify_user_address(&u.0, &owner, &pid()));
    assert!(!verify_user_address(&owner, &owner, &pid()));
    assert!(!verify_user_address(&u.0, &vec![2u8; 32], &pid()));

    let v = derive_vault_address(&owner, &b"one".to_vec(), &pid()).unwrap();
    assert!(verify_vault_address(&v.0, &owner, &b"one".to_vec(), &pid()));
    assert!(!verify_vault_address(&v.0, &owner, &b"two".to_vec(), &pid()));
    assert!(!verify_vault_address(&u.0, &owner, &b"one".to_vec(), &pid()));
}

#[test]
fn oversized_seed_yields_no_address() {
    // A seed longer than the host's per-seed cap admits no derivation.
    let owner = vec![1u8; 32];
    let long_name = vec![7u8; 33];
    assert!(derive_vault_address(&owner, &long_name, &pid()).is_none());
}
