use vault_manager::account::{AccountState, RentSchedule};
use vault_manager::errors::VaultError;
use vault_manager::pda::{derive_user_address, derive_vault_address};
use vault_manager::processor::{
    process_add_in_vault, process_edit_vault, process_init_user_account, process_init_vault,
    process_instruction,
};
use vault_manager::state::{decode_user, decode_vault};

fn sched() -> RentSchedule {
    RentSchedule { base: 890880, per_byte: 6960 }
}

fn pid() -> Vec<u8> {
    vec![9u8; 32]
}

fn wallet() -> AccountState {
    AccountState {
        key: vec![1u8; 32],
        lamports: 1_000_000_000,
        data: Vec::new(),
        owner: vec![0u8; 32],
    }
}

fn empty_account_at(key: Vec<u8>) -> AccountState {
    AccountState { key, lamports: 0, data: Vec::new(), owner: vec![0u8; 32] }
}

/// Wallet, user account and vault account ("myv") after the two init
/// operations have run.
fn initialized_world() -> (AccountState, AccountState, AccountState) {
    let mut w = wallet();
    let user_key = derive_user_address(&w.key, &pid()).unwrap().0;
    let vault_key = derive_vault_address(&w.key, &b"myv".to_vec(), &pid()).unwrap().0;
    let mut user = empty_account_at(user_key);
    let mut vault = empty_account_at(vault_key);
    process_init_user_account(&pid(), &mut w, true, &mut user, &sched()).unwrap();
    process_init_vault(&pid(), &mut w, true, &mut user, &mut vault, &b"myv".to_vec(), &sched())
        .unwrap();
    (w, user, vault)
}

#[test]
fn init_user_creates_sized_empty_record() {
    let mut w = wallet();
    let user_key = derive_user_address(&w.key, &pid()).unwrap().0;
    let mut user = empty_account_at(user_key.clone());
    process_init_user_account(&pid(), &mut w, true, &mut user, &sched()).unwrap();
    assert_eq!(user.data.len(), 36);
    assert_eq!(user.owner, pid());
    let rec = decode_user(&user.data).unwrap();
    assert_eq!(rec.user_address, w.key);
    assert!(rec.vaults.is_empty());
    let floor = 890880 + 36 * 6960;
    assert_eq!(user.lamports, floor);
    assert_eq!(w.lamports, 1_000_000_000 - floor);
}

#[test]
fn init_user_requires_signer() {
    let mut w = wallet();
    let user_key = derive_user_address(&w.key, &pid()).unwrap().0;
    let mut user = empty_account_at(user_key);
    let r = process_init_user_account(&pid(), &mut w, false, &mut user, &sched());
    assert_eq!(r.unwrap_err(), VaultError::UnauthorizedCaller);
}

#[test]
fn init_user_rejects_wrong_account_key() {
    let mut w = wallet();
    let mut user = empty_account_at(vec![7u8; 32]);
    let r = process_init_user_account(&pid(), &mut w, true, &mut user, &sched());
    assert_eq!(r.unwrap_err(), VaultError::AddressMismatch);
}

#[test]
fn init_user_twice_is_idempotent() {
    let mut w = wallet();
    let user_key = derive_user_address(&w.key, &pid()).unwrap().0;
    let mut user = empty_account_at(user_key);
    process_init_user_account(&pid(), &mut w, true, &mut user, &sched()).unwrap();
    let lamports_after = (w.lamports, user.lamports);
    let data_after = user.data.clone();
    process_init_user_account(&pid(), &mut w, true, &mut user, &sched()).unwrap();
    assert_eq!((w.lamports, user.lamports), lamports_after);
    assert_eq!(user.data, data_after);
}

#[test]
fn init_vault_creates_and_registers_vault() {
    let (w, user, vault) = initialized_world();
    assert_eq!(vault.data.len(), 68);
    assert_eq!(vault.owner, pid());
    let vrec = decode_vault(&vault.data).unwrap();
    assert_eq!(&vrec.name[..3], b"myv");
    assert_eq!(vrec.name[3..], [0u8; 29]);
    assert_eq!(vrec.user_account, user.key);
    assert!(vrec.data.is_empty());
    let urec = decode_user(&user.data).unwrap();
    assert_eq!(urec.vaults, vec![vault.key.clone()]);
    assert_eq!(user.data.len(), 68);
    // The owner funded the vault's floor and the user account's growth.
    let user_floor_36 = 890880 + 36 * 6960;
    let user_floor_68 = 890880 + 68 * 6960;
    let vault_floor = 890880 + 68 * 6960;
    assert_eq!(vault.lamports, vault_floor);
    assert_eq!(user.lamports, user_floor_68);
    assert_eq!(
        w.lamports,
        1_000_000_000 - user_floor_36 - vault_floor - (user_floor_68 - user_floor_36)
    );
}

#[test]
fn init_vault_requires_initialized_user_account() {
    let mut w = wallet();
    let user_key = derive_user_address(&w.key, &pid()).unwrap().0;
    let vault_key = derive_vault_address(&w.key, &b"myv".to_vec(), &pid()).unwrap().0;
    let mut user = empty_account_at(user_key);
    let mut vault = empty_account_at(vault_key);
    let r = process_init_vault(
        &pid(),
        &mut w,
        true,
        &mut user,
        &mut vault,
        &b"myv".to_vec(),
        &sched(),
    );
    assert_eq!(r.unwrap_err(), VaultError::AccountStateConflict);
}

#[test]
fn init_vault_twice_fails_with_state_conflict() {
    let (mut w, mut user, mut vault) = initialized_world();
    let before = (
        w.lamports,
        user.lamports,
        vault.lamports,
        user.data.clone(),
        vault.data.clone(),
    );
    let r = process_init_vault(
        &pid(),
        &mut w,
        true,
        &mut user,
        &mut vault,
        &b"myv".to_vec(),
        &sched(),
    );
    assert_eq!(r.unwrap_err(), VaultError::AccountStateConflict);
    assert_eq!(
        (w.lamports, user.lamports, vault.lamports, user.data, vault.data),
        before
    );
}

#[test]
fn add_credential_appends_one_record() {
    let (mut w, _user, mut vault) = initialized_world();
    let mut payload = vec![1u8; 32];
    payload.extend_from_slice(&[2u8; 32]);
    let vault_lamports_before = vault.lamports;
    process_add_in_vault(&pid(), &mut w, true, &mut vault, &payload, &b"myv".to_vec(), &sched())
        .unwrap();
    assert_eq!(vault.data.len(), 132);
    let vrec = decode_vault(&vault.data).unwrap();
    assert_eq!(vrec.data.len(), 1);
    assert_eq!(vrec.data[0].field, vec![1u8; 32]);
    assert_eq!(vrec.data[0].passkey, vec![2u8; 32]);
    assert_eq!(vault.lamports, vault_lamports_before + 64 * 6960);
}

#[test]
fn add_credential_to_absent_vault_fails() {
    let mut w = wallet();
    let vault_key = derive_vault_address(&w.key, &b"myv".to_vec(), &pid()).unwrap().0;
    let mut vault = empty_account_at(vault_key);
    let payload = vec![3u8; 64];
    let r = process_add_in_vault(
        &pid(),
        &mut w,
        true,
        &mut vault,
        &payload,
        &b"myv".to_vec(),
        &sched(),
    );
    assert_eq!(r.unwrap_err(), VaultError::AccountStateConflict);
}

#[test]
fn add_credential_past_ceiling_fails_without_mutation() {
    let (mut w, _user, mut vault) = initialized_world();
    let payload = vec![5u8; 64];
    // Fill the vault right up to the ceiling: 158 records end at
    // 68 + 158 * 64 = 10180 > 10176, so the 158th append must fail.
    for _ in 0..157 {
        process_add_in_vault(
            &pid(),
            &mut w,
            true,
            &mut vault,
            &payload,
            &b"myv".to_vec(),
            &sched(),
        )
        .unwrap();
    }
    assert_eq!(vault.data.len(), 68 + 157 * 64);
    let before = (w.lamports, vault.lamports, vault.data.clone());
    let r = process_add_in_vault(
        &pid(),
        &mut w,
        true,
        &mut vault,
        &payload,
        &b"myv".to_vec(),
        &sched(),
    );
    assert_eq!(r.unwrap_err(), VaultError::CapacityExceeded);
    assert_eq!((w.lamports, vault.lamports, vault.data), before);
}

#[test]
fn edit_replaces_single_credential_in_place() {
    let (mut w, _user, mut vault) = initialized_world();
    let mut c1 = vec![1u8; 32];
    c1.extend_from_slice(&[2u8; 32]);
    let mut c2 = vec![3u8; 32];
    c2.extend_from_slice(&[4u8; 32]);
    process_add_in_vault(&pid(), &mut w, true, &mut vault, &c1, &b"myv".to_vec(), &sched())
        .unwrap();
    let size_before = vault.data.len();
    let lamports_before = (w.lamports, vault.lamports);
    process_edit_vault(
        &pid(),
        &mut w,
        true,
        &mut vault,
        &c2,
        0,
        0,
        &b"myv".to_vec(),
        &sched(),
    )
    .unwrap();
    assert_eq!(vault.data.len(), size_before);
    assert_eq!((w.lamports, vault.lamports), lamports_before);
    let vrec = decode_vault(&vault.data).unwrap();
    assert_eq!(vrec.data.len(), 1);
    assert_eq!(vrec.data[0].field, vec![3u8; 32]);
    assert_eq!(vrec.data[0].passkey, vec![4u8; 32]);
}

#[test]
fn delete_removes_credential_shrinks_and_refunds() {
    let (mut w, _user, mut vault) = initialized_world();
    let mut c2 = vec![3u8; 32];
    c2.extend_from_slice(&[4u8; 32]);
    process_add_in_vault(&pid(), &mut w, true, &mut vault, &c2, &b"myv".to_vec(), &sched())
        .unwrap();
    let size_before = vault.data.len();
    let wallet_before = w.lamports;
    let vault_before = vault.lamports;
    let unused = vec![0u8; 64];
    process_edit_vault(
        &pid(),
        &mut w,
        true,
        &mut vault,
        &unused,
        0,
        1,
        &b"myv".to_vec(),
        &sched(),
    )
    .unwrap();
    assert_eq!(vault.data.len(), size_before - 64);
    assert_eq!(w.lamports, wallet_before + 64 * 6960);
    assert_eq!(vault.lamports, vault_before - 64 * 6960);
    let vrec = decode_vault(&vault.data).unwrap();
    assert!(vrec.data.is_empty());
}

#[test]
fn delete_shifts_later_credentials_down() {
    let (mut w, _user, mut vault) = initialized_world();
    for b in 1..=3u8 {
        let mut c = vec![b; 32];
        c.extend_from_slice(&[b + 10; 32]);
        process_add_in_vault(&pid(), &mut w, true, &mut vault, &c, &b"myv".to_vec(), &sched())
            .unwrap();
    }
    let unused = vec![0u8; 64];
    process_edit_vault(
        &pid(),
        &mut w,
        true,
        &mut vault,
        &unused,
        1,
        1,
        &b"myv".to_vec(),
        &sched(),
    )
    .unwrap();
    let vrec = decode_vault(&vault.data).unwrap();
    assert_eq!(vrec.data.len(), 2);
    assert_eq!(vrec.data[0].field, vec![1u8; 32]);
    assert_eq!(vrec.data[1].field, vec![3u8; 32]);
}

#[test]
fn edit_at_len_fails_index_out_of_range_without_mutation() {
    let (mut w, _user, mut vault) = initialized_world();
    let mut c1 = vec![1u8; 32];
    c1.extend_from_slice(&[2u8; 32]);
    process_add_in_vault(&pid(), &mut w, true, &mut vault, &c1, &b"myv".to_vec(), &sched())
        .unwrap();
    let before = (w.lamports, vault.lamports, vault.data.clone());
    let r = process_edit_vault(
        &pid(),
        &mut w,
        true,
        &mut vault,
        &c1,
        1,
        0,
        &b"myv".to_vec(),
        &sched(),
    );
    assert_eq!(r.unwrap_err(), VaultError::IndexOutOfRange);
    assert_eq!((w.lamports, vault.lamports, vault.data), before);
}

#[test]
fn process_instruction_dispatches_on_the_tag() {
    let mut w = wallet();
    let user_key = derive_user_address(&w.key, &pid()).unwrap().0;
    let mut user = empty_account_at(user_key);
    let mut vault = empty_account_at(vec![2u8; 32]);
    process_instruction(
        &pid(),
        &mut w,
        true,
        &mut user,
        &mut vault,
        &sched(),
        &vec![0u8],
    )
    .unwrap();
    assert_eq!(user.data.len(), 36);
    assert!(vault.data.is_empty());

    let r = process_instruction(
        &pid(),
        &mut w,
        true,
        &mut user,
        &mut vault,
        &sched(),
        &vec![42u8],
    );
    assert_eq!(r.unwrap_err(), VaultError::InvalidInstruction);
}

#[test]
fn process_instruction_runs_a_whole_session() {
    let mut w = wallet();
    let user_key = derive_user_address(&w.key, &pid()).unwrap().0;
    let vault_key = derive_vault_address(&w.key, &b"myv".to_vec(), &pid()).unwrap().0;
    let mut user = empty_account_at(user_key);
    let mut vault = empty_account_at(vault_key);
    let s = sched();

    process_instruction(&pid(), &mut w, true, &mut user, &mut vault, &s, &vec![0u8]).unwrap();

    let mut init_vault = vec![1u8];
    init_vault.extend_from_slice(b"myv");
    process_instruction(&pid(), &mut w, true, &mut user, &mut vault, &s, &init_vault).unwrap();

    let mut add = vec![2u8];
    add.extend_from_slice(&[1u8; 32]);
    add.extend_from_slice(&[2u8; 32]);
    add.extend_from_slice(b"myv");
    process_instruction(&pid(), &mut w, true, &mut user, &mut vault, &s, &add).unwrap();

    let vrec = decode_vault(&vault.data).unwrap();
    assert_eq!(vrec.data.len(), 1);
    assert_eq!(vrec.data[0].field, vec![1u8; 32]);

    let mut del = vec![3u8, 1u8];
    del.extend_from_slice(&[0, 0, 0, 0]);
    del.extend_from_slice(&[0u8; 64]);
    del.extend_from_slice(b"myv");
    process_instruction(&pid(), &mut w, true, &mut user, &mut vault, &s, &del).unwrap();

    let vrec = decode_vault(&vault.data).unwrap();
    assert!(vrec.data.is_empty());
    assert_eq!(vault.data.len(), 68);
}
