use vstd::prelude::*;

use crate::account::{
    create_account, create_outcome, min_retained_balance, resize, resize_outcome, AccountState,
    AccountV, RentSchedule,
};
use crate::bytes::{bytes_eq, copy_bytes};
use crate::errors::VaultError;
use crate::instructions::{spec_unpack, VaultInstruction, VaultInstructionV};
use crate::pda::{user_address_matches, vault_address_matches, verify_user_address, verify_vault_address};
use crate::state::{
    decode_credentials, decode_user, decode_vault, encode_user, encode_vault, keys_bytes,
    lemma_creds_bytes_len, lemma_decode_user_wf, lemma_decode_vault_wf, lemma_user_round_trip,
    lemma_vault_round_trip, pad_name, spec_decode_credentials, spec_decode_user,
    spec_decode_vault, spec_encode_user, spec_encode_vault, spec_pad_name,
    UserAccount, UserV, VaultAccount, VaultV,
};

verus! {

/// Serialized size of a user record with no vaults.
pub open spec fn empty_user_size() -> int {
    36
}

/// Serialized size of a vault record with no credentials.
pub open spec fn empty_vault_size() -> int {
    68
}

/// Storage ceiling for a vault account in bytes.
pub open spec fn vault_capacity() -> int {
    10176
}

/// Outcome of the user-account-creation operation: after authorization and
/// address verification, an absent account is created sized for an empty
/// vault list and written; an already-initialized account is left unchanged
/// and the call still succeeds.
pub open spec fn init_user_outcome(
    pid: Seq<u8>,
    signer: bool,
    wallet: AccountV,
    user: AccountV,
    s: RentSchedule,
) -> Result<(AccountV, AccountV), VaultError> {
    if !signer {
        Err(VaultError::UnauthorizedCaller)
    } else if !user_address_matches(user.key, wallet.key, pid) {
        Err(VaultError::AddressMismatch)
    } else if user.data.len() != 0 {
        Ok((wallet, user))
    } else {
        match create_outcome(wallet, user, empty_user_size(), pid, s) {
            Err(e) => Err(e),
            Ok(cp) => Ok(
                (
                    cp.0,
                    AccountV {
                        data: spec_encode_user(
                            UserV { user_address: wallet.key, vaults: Seq::empty() },
                        ),
                        ..cp.1
                    },
                ),
            ),
        }
    }
}

/// Outcome of the vault-creation operation: after authorization, both
/// address checks and the user-account state checks, an absent vault is
/// created sized for an empty credential list, the user account grows by
/// one address slot (funded by the owner), and the new vault address is
/// appended to the user record. A vault that already exists fails.
pub open spec fn init_vault_outcome(
    pid: Seq<u8>,
    signer: bool,
    wallet: AccountV,
    user: AccountV,
    vault: AccountV,
    s: RentSchedule,
    name: Seq<u8>,
) -> Result<(AccountV, AccountV, AccountV), VaultError> {
    if !signer {
        Err(VaultError::UnauthorizedCaller)
    } else if !vault_address_matches(vault.key, wallet.key, name, pid) {
        Err(VaultError::AddressMismatch)
    } else if !user_address_matches(user.key, wallet.key, pid) {
        Err(VaultError::AddressMismatch)
    } else if user.data.len() == 0 || user.owner != pid {
        Err(VaultError::AccountStateConflict)
    } else {
        match spec_decode_user(user.data) {
            None => Err(VaultError::DataUnpackError),
            Some(urec) => {
                if vault.data.len() != 0 {
                    Err(VaultError::AccountStateConflict)
                } else if urec.vaults.len() >= u32::MAX {
                    Err(VaultError::CapacityExceeded)
                } else if user.data.len() + 32 > usize::MAX {
                    Err(VaultError::TransferFailed)
                } else {
                    match create_outcome(wallet, vault, empty_vault_size(), pid, s) {
                        Err(e) => Err(e),
                        Ok(cp) => match resize_outcome(user, cp.0, user.data.len() as int + 32, s) {
                            Err(e) => Err(e),
                            Ok(rp) => {
                                let new_urec = UserV {
                                    user_address: urec.user_address,
                                    vaults: urec.vaults.push(vault.key),
                                };
                                let new_vrec = VaultV {
                                    name: spec_pad_name(name),
                                    user_account: user.key,
                                    data: Seq::empty(),
                                };
                                Ok(
                                    (
                                        rp.1,
                                        AccountV { data: spec_encode_user(new_urec), ..rp.0 },
                                        AccountV { data: spec_encode_vault(new_vrec), ..cp.1 },
                                    ),
                                )
                            },
                        },
                    }
                }
            },
        }
    }
}

/// Outcome of appending one credential: after authorization and address
/// verification, an initialized vault below the storage ceiling grows by
/// one credential width (funded by the caller) and the decoded payload is
/// appended to its credential list.
pub open spec fn add_credential_outcome(
    pid: Seq<u8>,
    signer: bool,
    wallet: AccountV,
    vault: AccountV,
    s: RentSchedule,
    name: Seq<u8>,
    payload: Seq<u8>,
) -> Result<(AccountV, AccountV), VaultError> {
    if !signer {
        Err(VaultError::UnauthorizedCaller)
    } else if !vault_address_matches(vault.key, wallet.key, name, pid) {
        Err(VaultError::AddressMismatch)
    } else if vault.data.len() == 0 {
        Err(VaultError::AccountStateConflict)
    } else {
        match spec_decode_vault(vault.data) {
            None => Err(VaultError::DataUnpackError),
            Some(vrec) => {
                if vault.data.len() + 64 > vault_capacity() {
                    Err(VaultError::CapacityExceeded)
                } else {
                    match resize_outcome(vault, wallet, vault.data.len() as int + 64, s) {
                        Err(e) => Err(e),
                        Ok(rp) => {
                            let cred = spec_decode_credentials(payload)->Some_0;
                            let new_vrec = VaultV { data: vrec.data.push(cred), ..vrec };
                            Ok((rp.1, AccountV { data: spec_encode_vault(new_vrec), ..rp.0 }))
                        },
                    }
                }
            },
        }
    }
}

/// Outcome of editing or deleting the credential at `index`: an edit
/// replaces exactly that element in place, leaving size and balances
/// untouched; a delete removes it, shifts later entries down, shrinks the
/// account by one credential width and refunds the balance decrease to the
/// caller.
pub open spec fn edit_vault_outcome(
    pid: Seq<u8>,
    signer: bool,
    wallet: AccountV,
    vault: AccountV,
    s: RentSchedule,
    name: Seq<u8>,
    payload: Seq<u8>,
    index: u32,
    delete: u8,
) -> Result<(AccountV, AccountV), VaultError> {
    if !signer {
        Err(VaultError::UnauthorizedCaller)
    } else if !vault_address_matches(vault.key, wallet.key, name, pid) {
        Err(VaultError::AddressMismatch)
    } else if vault.data.len() == 0 {
        Err(VaultError::AccountStateConflict)
    } else {
        match spec_decode_vault(vault.data) {
            None => Err(VaultError::DataUnpackError),
            Some(vrec) => {
                if index >= vrec.data.len() {
                    Err(VaultError::IndexOutOfRange)
                } else if delete == 0 {
                    let cred = spec_decode_credentials(payload)->Some_0;
                    let new_vrec = VaultV {
                        data: vrec.data.update(index as int, cred),
                        ..vrec
                    };
                    Ok((wallet, AccountV { data: spec_encode_vault(new_vrec), ..vault }))
                } else {
                    match resize_outcome(vault, wallet, vault.data.len() as int - 64, s) {
                        Err(e) => Err(e),
                        Ok(rp) => {
                            let new_vrec = VaultV { data: vrec.data.remove(index as int), ..vrec };
                            Ok((rp.1, AccountV { data: spec_encode_vault(new_vrec), ..rp.0 }))
                        },
                    }
                }
            },
        }
    }
}

/// Creates the caller's user account if absent; a repeated call on an
/// existing account succeeds without changing anything.
pub fn process_init_user_account(
    program_id: &Vec<u8>,
    wallet: &mut AccountState,
    wallet_is_signer: bool,
    user_account: &mut AccountState,
    sched: &RentSchedule,
) -> (r: Result<(), VaultError>)
    requires
        program_id@.len() == 32,
        old(wallet)@.key.len() == 32,
    ensures
        (match init_user_outcome(
            program_id@,
            wallet_is_signer,
            old(wallet)@,
            old(user_account)@,
            *sched,
        ) {
            Ok(p) => r is Ok && final(wallet)@ == p.0 && final(user_account)@ == p.1,
            Err(e) => r == Err::<(), VaultError>(e) && *final(wallet) == *old(wallet) && *final(user_account) == *old(user_account),
        }),
{
    if !wallet_is_signer {
        return Err(VaultError::UnauthorizedCaller);
    }
    if !verify_user_address(&user_account.key, &wallet.key, program_id) {
        return Err(VaultError::AddressMismatch);
    }
    if user_account.data.len() != 0 {
        return Ok(());
    }
    let owner_key = copy_bytes(&wallet.key);
    let cr = create_account(wallet, user_account, 36, program_id, sched);
    match cr {
        Ok(()) => {},
        Err(e) => {
            return Err(e);
        },
    }
    let rec = UserAccount { user_address: owner_key, vaults: Vec::new() };
    assert(rec@.wf());
    assert(rec@ =~~= (UserV { user_address: old(wallet)@.key, vaults: Seq::empty() }));
    user_account.data = encode_user(&rec);
    proof {
        let o = init_user_outcome(
            program_id@,
            wallet_is_signer,
            old(wallet)@,
            old(user_account)@,
            *sched,
        );
        assert(user_account@ =~= o->Ok_0.1);
    }
    Ok(())
}

/// Creates the named vault for the caller, registers its address in the
/// user record, and funds both accounts; fails if the vault exists.
pub fn process_init_vault(
    program_id: &Vec<u8>,
    wallet: &mut AccountState,
    wallet_is_signer: bool,
    user_account: &mut AccountState,
    vault_account: &mut AccountState,
    vault_name: &Vec<u8>,
    sched: &RentSchedule,
) -> (r: Result<(), VaultError>)
    requires
        program_id@.len() == 32,
    ensures
        (match init_vault_outcome(
            program_id@,
            wallet_is_signer,
            old(wallet)@,
            old(user_account)@,
            old(vault_account)@,
            *sched,
            vault_name@,
        ) {
            Ok(p) => r is Ok && final(wallet)@ == p.0 && final(user_account)@ == p.1 && final(vault_account)@ == p.2,
            Err(e) => r == Err::<(), VaultError>(e) && *final(wallet) == *old(wallet) && *final(user_account) == *old(user_account) && *final(vault_account) == *old(vault_account),
        }),
{
    if !wallet_is_signer {
        return Err(VaultError::UnauthorizedCaller);
    }
    if !verify_vault_address(&vault_account.key, &wallet.key, vault_name, program_id) {
        return Err(VaultError::AddressMismatch);
    }
    if !verify_user_address(&user_account.key, &wallet.key, program_id) {
        return Err(VaultError::AddressMismatch);
    }
    if user_account.data.len() == 0 || !bytes_eq(&user_account.owner, program_id) {
        return Err(VaultError::AccountStateConflict);
    }
    let user_rec = match decode_user(&user_account.data) {
        Ok(u) => u,
        Err(e) => {
            return Err(e);
        },
    };
    if vault_account.data.len() != 0 {
        return Err(VaultError::AccountStateConflict);
    }
    if user_rec.vaults.len() >= u32::MAX as usize {
        return Err(VaultError::CapacityExceeded);
    }
    let old_size = user_account.data.len();
    let new_size = match old_size.checked_add(32) {
        Some(v) => v,
        None => {
            return Err(VaultError::TransferFailed);
        },
    };
    // Check every funding move up front, so that a late failure cannot
    // leave a partial mutation behind.
    let vault_floor = match min_retained_balance(sched, 68) {
        Some(v) => v,
        None => {
            return Err(VaultError::TransferFailed);
        },
    };
    if wallet.lamports < vault_floor {
        return Err(VaultError::TransferFailed);
    }
    match vault_account.lamports.checked_add(vault_floor) {
        Some(_) => {},
        None => {
            return Err(VaultError::TransferFailed);
        },
    }
    let old_floor = match min_retained_balance(sched, old_size as u64) {
        Some(v) => v,
        None => {
            return Err(VaultError::TransferFailed);
        },
    };
    let new_floor = match min_retained_balance(sched, new_size as u64) {
        Some(v) => v,
        None => {
            return Err(VaultError::TransferFailed);
        },
    };
    proof {
        let pb = sched.per_byte as int;
        assert(pb * (new_size as int) >= pb * (old_size as int)) by (nonlinear_arith)
            requires
                pb >= 0,
                new_size as int >= old_size as int,
        ;
    }
    let grow_diff = new_floor - old_floor;
    if wallet.lamports - vault_floor < grow_diff {
        return Err(VaultError::TransferFailed);
    }
    match user_account.lamports.checked_add(grow_diff) {
        Some(_) => {},
        None => {
            return Err(VaultError::TransferFailed);
        },
    }
    // All checks passed; perform the mutations.
    let user_key = copy_bytes(&user_account.key);
    let vault_key = copy_bytes(&vault_account.key);
    let cr = create_account(wallet, vault_account, 68, program_id, sched);
    match cr {
        Ok(()) => {},
        Err(e) => {
            // The funding checks above rule this branch out.
            proof {
                assert(false);
            }
            return Err(e);
        },
    }
    let rr = resize(user_account, wallet, new_size, sched);
    match rr {
        Ok(()) => {},
        Err(e) => {
            // The funding checks above rule this branch out.
            proof {
                assert(false);
            }
            return Err(e);
        },
    }
    let mut new_user_rec = user_rec;
    new_user_rec.vaults.push(vault_key);
    proof {
        lemma_decode_user_wf(old(user_account)@.data);
        let urec = spec_decode_user(old(user_account)@.data)->Some_0;
        assert(vault_key@ == old(vault_account)@.key);
        assert forall|k: int| 0 <= k < new_user_rec@.vaults.len() implies new_user_rec@.vaults[k]
            == urec.vaults.push(old(vault_account)@.key)[k] by {
            assert(new_user_rec@.vaults[k] == new_user_rec.vaults@[k]@);
        }
        assert(new_user_rec@.vaults =~= urec.vaults.push(old(vault_account)@.key));
        assert(new_user_rec@ =~~= (UserV {
            user_address: urec.user_address,
            vaults: urec.vaults.push(old(vault_account)@.key),
        }));
        assert(new_user_rec@.wf());
    }
    user_account.data = encode_user(&new_user_rec);
    let vault_rec = VaultAccount {
        name: pad_name(vault_name),
        user_account: user_key,
        data: Vec::new(),
    };
    proof {
        assert(vault_rec@ =~~= (VaultV {
            name: spec_pad_name(vault_name@),
            user_account: old(user_account)@.key,
            data: Seq::empty(),
        }));
        assert(vault_rec@.wf());
    }
    vault_account.data = encode_vault(&vault_rec);
    proof {
        let o = init_vault_outcome(
            program_id@,
            wallet_is_signer,
            old(wallet)@,
            old(user_account)@,
            old(vault_account)@,
            *sched,
            vault_name@,
        );
        assert(o is Ok);
        assert(user_account@ =~= o->Ok_0.1);
        assert(vault_account@ =~= o->Ok_0.2);
    }
    Ok(())
}

/// Appends one credential payload to the named vault, growing the account
/// and funding the growth from the caller's wallet.
pub fn process_add_in_vault(
    program_id: &Vec<u8>,
    wallet: &mut AccountState,
    wallet_is_signer: bool,
    vault_account: &mut AccountState,
    data: &Vec<u8>,
    vault_name: &Vec<u8>,
    sched: &RentSchedule,
) -> (r: Result<(), VaultError>)
    requires
        program_id@.len() == 32,
        data@.len() == 64,
    ensures
        (match add_credential_outcome(
            program_id@,
            wallet_is_signer,
            old(wallet)@,
            old(vault_account)@,
            *sched,
            vault_name@,
            data@,
        ) {
            Ok(p) => r is Ok && final(wallet)@ == p.0 && final(vault_account)@ == p.1,
            Err(e) => r == Err::<(), VaultError>(e) && *final(wallet) == *old(wallet) && *final(vault_account) == *old(vault_account),
        }),
{
    if !wallet_is_signer {
        return Err(VaultError::UnauthorizedCaller);
    }
    if !verify_vault_address(&vault_account.key, &wallet.key, vault_name, program_id) {
        return Err(VaultError::AddressMismatch);
    }
    if vault_account.data.len() == 0 {
        return Err(VaultError::AccountStateConflict);
    }
    let vault_rec = match decode_vault(&vault_account.data) {
        Ok(v) => v,
        Err(e) => {
            return Err(e);
        },
    };
    let old_size = vault_account.data.len();
    if old_size > 10112 {
        return Err(VaultError::CapacityExceeded);
    }
    let cred = match decode_credentials(data) {
        Ok(c) => c,
        Err(_) => {
            // A 64-byte payload always decodes; see the requires clause.
            proof {
                assert(false);
            }
            return Err(VaultError::DataUnpackError);
        },
    };
    let rr = resize(vault_account, wallet, old_size + 64, sched);
    match rr {
        Ok(()) => {},
        Err(e) => {
            return Err(e);
        },
    }
    let mut new_rec = vault_rec;
    new_rec.data.push(cred);
    proof {
        lemma_decode_vault_wf(old(vault_account)@.data);
        let vrec = spec_decode_vault(old(vault_account)@.data)->Some_0;
        let new_vrec = VaultV {
            data: vrec.data.push(spec_decode_credentials(data@)->Some_0),
            ..vrec
        };
        assert(new_rec@.data =~= new_vrec.data);
        assert(new_rec@ =~~= new_vrec);
        assert(new_rec@.wf());
    }
    vault_account.data = encode_vault(&new_rec);
    proof {
        let o = add_credential_outcome(
            program_id@,
            wallet_is_signer,
            old(wallet)@,
            old(vault_account)@,
            *sched,
            vault_name@,
            data@,
        );
        assert(o is Ok);
        assert(vault_account@ =~= o->Ok_0.1);
    }
    Ok(())
}

/// Replaces or removes the credential at `index` in the named vault; a
/// removal shrinks the account and refunds the caller.
pub fn process_edit_vault(
    program_id: &Vec<u8>,
    wallet: &mut AccountState,
    wallet_is_signer: bool,
    vault_account: &mut AccountState,
    data: &Vec<u8>,
    index: u32,
    delete: u8,
    vault_name: &Vec<u8>,
    sched: &RentSchedule,
) -> (r: Result<(), VaultError>)
    requires
        program_id@.len() == 32,
        data@.len() == 64,
    ensures
        (match edit_vault_outcome(
            program_id@,
            wallet_is_signer,
            old(wallet)@,
            old(vault_account)@,
            *sched,
            vault_name@,
            data@,
            index,
            delete,
        ) {
            Ok(p) => r is Ok && final(wallet)@ == p.0 && final(vault_account)@ == p.1,
            Err(e) => r == Err::<(), VaultError>(e) && *final(wallet) == *old(wallet) && *final(vault_account) == *old(vault_account),
        }),
{
    if !wallet_is_signer {
        return Err(VaultError::UnauthorizedCaller);
    }
    if !verify_vault_address(&vault_account.key, &wallet.key, vault_name, program_id) {
        return Err(VaultError::AddressMismatch);
    }
    if vault_account.data.len() == 0 {
        return Err(VaultError::AccountStateConflict);
    }
    let vault_rec = match decode_vault(&vault_account.data) {
        Ok(v) => v,
        Err(e) => {
            return Err(e);
        },
    };
    if index as usize >= vault_rec.data.len() {
        return Err(VaultError::IndexOutOfRange);
    }
    let idx = index as usize;
    if delete == 0 {
        let cred = match decode_credentials(data) {
            Ok(c) => c,
            Err(_) => {
                // A 64-byte payload always decodes; see the requires clause.
                proof {
                    assert(false);
                }
                return Err(VaultError::DataUnpackError);
            },
        };
        let mut new_rec = vault_rec;
        new_rec.data.remove(idx);
        new_rec.data.insert(idx, cred);
        proof {
            lemma_decode_vault_wf(old(vault_account)@.data);
            let vrec = spec_decode_vault(old(vault_account)@.data)->Some_0;
            let new_vrec = VaultV {
                data: vrec.data.update(idx as int, spec_decode_credentials(data@)->Some_0),
                ..vrec
            };
            assert(new_rec@.data =~= new_vrec.data);
            assert(new_rec@ =~~= new_vrec);
            assert(new_rec@.wf());
        }
        vault_account.data = encode_vault(&new_rec);
        proof {
            let o = edit_vault_outcome(
                program_id@,
                wallet_is_signer,
                old(wallet)@,
                old(vault_account)@,
                *sched,
                vault_name@,
                data@,
                index,
                delete,
            );
            assert(o is Ok);
            assert(vault_account@ =~= o->Ok_0.1);
            assert(wallet@ == o->Ok_0.0);
        }
        Ok(())
    } else {
        let old_size = vault_account.data.len();
        let rr = resize(vault_account, wallet, old_size - 64, sched);
        match rr {
            Ok(()) => {},
            Err(e) => {
                return Err(e);
            },
        }
        let mut new_rec = vault_rec;
        new_rec.data.remove(idx);
        proof {
            lemma_decode_vault_wf(old(vault_account)@.data);
            let vrec = spec_decode_vault(old(vault_account)@.data)->Some_0;
            let new_vrec = VaultV { data: vrec.data.remove(idx as int), ..vrec };
            assert(new_rec@.data =~= new_vrec.data);
            assert(new_rec@ =~~= new_vrec);
            assert(new_rec@.wf());
        }
        vault_account.data = encode_vault(&new_rec);
        proof {
            let o = edit_vault_outcome(
                program_id@,
                wallet_is_signer,
                old(wallet)@,
                old(vault_account)@,
                *sched,
                vault_name@,
                data@,
                index,
                delete,
            );
            assert(o is Ok);
            assert(vault_account@ =~= o->Ok_0.1);
        }
        Ok(())
    }
}

/// Outcome of one full invocation: decode the instruction buffer, then
/// dispatch to the operation's handler; accounts an operation does not
/// involve are untouched.
pub open spec fn process_outcome(
    pid: Seq<u8>,
    signer: bool,
    wallet: AccountV,
    user: AccountV,
    vault: AccountV,
    s: RentSchedule,
    data: Seq<u8>,
) -> Result<(AccountV, AccountV, AccountV), VaultError> {
    match spec_unpack(data) {
        Err(e) => Err(e),
        Ok(op) => match op {
            VaultInstructionV::InitUserAccount => {
                match init_user_outcome(pid, signer, wallet, user, s) {
                    Err(e) => Err(e),
                    Ok(p) => Ok((p.0, p.1, vault)),
                }
            },
            VaultInstructionV::InitVaultAccount { vault_name } => {
                init_vault_outcome(pid, signer, wallet, user, vault, s, vault_name)
            },
            VaultInstructionV::InitAddInVault { vault_name, data: payload } => {
                match add_credential_outcome(pid, signer, wallet, vault, s, vault_name, payload) {
                    Err(e) => Err(e),
                    Ok(p) => Ok((p.0, user, p.1)),
                }
            },
            VaultInstructionV::EditVaultAccount { data: payload, vault_name, index, delete } => {
                match edit_vault_outcome(
                    pid,
                    signer,
                    wallet,
                    vault,
                    s,
                    vault_name,
                    payload,
                    index,
                    delete,
                ) {
                    Err(e) => Err(e),
                    Ok(p) => Ok((p.0, user, p.1)),
                }
            },
        },
    }
}

/// Decodes `instruction_data` and performs the operation on the modelled
/// accounts; on any failure every account is exactly as it was.
pub fn process_instruction(
    program_id: &Vec<u8>,
    wallet: &mut AccountState,
    wallet_is_signer: bool,
    user_account: &mut AccountState,
    vault_account: &mut AccountState,
    sched: &RentSchedule,
    instruction_data: &Vec<u8>,
) -> (r: Result<(), VaultError>)
    requires
        program_id@.len() == 32,
        old(wallet)@.key.len() == 32,
    ensures
        (match process_outcome(
            program_id@,
            wallet_is_signer,
            old(wallet)@,
            old(user_account)@,
            old(vault_account)@,
            *sched,
            instruction_data@,
        ) {
            Ok(p) => r is Ok && final(wallet)@ == p.0 && final(user_account)@ == p.1 && final(vault_account)@ == p.2,
            Err(e) => r == Err::<(), VaultError>(e) && *final(wallet) == *old(wallet) && *final(user_account) == *old(user_account) && *final(vault_account) == *old(vault_account),
        }),
{
    let instruction = match VaultInstruction::unpack(instruction_data) {
        Ok(op) => op,
        Err(e) => {
            return Err(e);
        },
    };
    match instruction {
        VaultInstruction::InitUserAccount {} => {
            process_init_user_account(program_id, wallet, wallet_is_signer, user_account, sched)
        },
        VaultInstruction::InitVaultAccount { vault_name } => {
            process_init_vault(
                program_id,
                wallet,
                wallet_is_signer,
                user_account,
                vault_account,
                &vault_name,
                sched,
            )
        },
        VaultInstruction::InitAddInVault { vault_name, data } => {
            process_add_in_vault(
                program_id,
                wallet,
                wallet_is_signer,
                vault_account,
                &data,
                &vault_name,
                sched,
            )
        },
        VaultInstruction::EditVaultAccount { data, vault_name, index, delete } => {
            process_edit_vault(
                program_id,
                wallet,
                wallet_is_signer,
                vault_account,
                &data,
                index,
                delete,
                &vault_name,
                sched,
            )
        },
    }
}


/// Law: creating the user account is idempotent — after one successful
/// call, a second call by the same signer succeeds and leaves both the
/// wallet and the user account exactly as the first call left them.
pub proof fn lemma_init_user_idempotent(
    pid: Seq<u8>,
    wallet: AccountV,
    user: AccountV,
    s: RentSchedule,
)
    requires
        init_user_outcome(pid, true, wallet, user, s) is Ok,
    ensures
        ({
            let p = init_user_outcome(pid, true, wallet, user, s)->Ok_0;
            init_user_outcome(pid, true, p.0, p.1, s) == Ok::<(AccountV, AccountV), VaultError>(p)
        }),
{
    let p = init_user_outcome(pid, true, wallet, user, s)->Ok_0;
    if user.data.len() == 0 {
        assert(keys_bytes(Seq::<Seq<u8>>::empty()) =~= Seq::<u8>::empty());
        assert(p.1.data.len() != 0);
        assert(p.0.key == wallet.key);
        assert(p.1.key == user.key);
    }
}

/// Law: vault creation is not idempotent — after one successful creation,
/// a second call for the same owner and name fails with
/// `AccountStateConflict` and (by the handler's contract) changes nothing.
pub proof fn lemma_init_vault_not_idempotent(
    pid: Seq<u8>,
    wallet: AccountV,
    user: AccountV,
    vault: AccountV,
    s: RentSchedule,
    name: Seq<u8>,
)
    requires
        user.key.len() == 32,
        vault.key.len() == 32,
        init_vault_outcome(pid, true, wallet, user, vault, s, name) is Ok,
    ensures
        ({
            let p = init_vault_outcome(pid, true, wallet, user, vault, s, name)->Ok_0;
            init_vault_outcome(pid, true, p.0, p.1, p.2, s, name) == Err::<
                (AccountV, AccountV, AccountV),
                VaultError,
            >(VaultError::AccountStateConflict)
        }),
{
    let p = init_vault_outcome(pid, true, wallet, user, vault, s, name)->Ok_0;
    lemma_decode_user_wf(user.data);
    let urec = spec_decode_user(user.data)->Some_0;
    let new_urec = UserV { user_address: urec.user_address, vaults: urec.vaults.push(vault.key) };
    assert(new_urec.wf());
    lemma_user_round_trip(new_urec);
    assert(p.0.key == wallet.key);
    assert(p.1.key == user.key);
    assert(p.2.key == vault.key);
    assert(p.1.owner == pid);
    assert(p.1.data == spec_encode_user(new_urec));
    assert(p.1.data.len() != 0);
    assert(p.2.data.len() != 0);
    assert(spec_decode_user(p.1.data) == Some(new_urec));
}

/// Law: a successful edit replaces exactly the addressed credential; every
/// other credential, the account's byte size and both balances are
/// unchanged.
pub proof fn lemma_edit_replaces_exactly_one(
    pid: Seq<u8>,
    wallet: AccountV,
    vault: AccountV,
    s: RentSchedule,
    name: Seq<u8>,
    payload: Seq<u8>,
    index: u32,
)
    requires
        payload.len() == 64,
        edit_vault_outcome(pid, true, wallet, vault, s, name, payload, index, 0) is Ok,
    ensures
        ({
            let p = edit_vault_outcome(pid, true, wallet, vault, s, name, payload, index, 0)->Ok_0;
            let vrec = spec_decode_vault(vault.data)->Some_0;
            let new = spec_decode_vault(p.1.data)->Some_0;
            &&& p.0 == wallet
            &&& p.1.lamports == vault.lamports
            &&& p.1.data.len() == vault.data.len()
            &&& new.data.len() == vrec.data.len()
            &&& new.data[index as int] == spec_decode_credentials(payload)->Some_0
            &&& forall|j: int|
                0 <= j < vrec.data.len() && j != index ==> new.data[j] == vrec.data[j]
        }),
{
    lemma_decode_vault_wf(vault.data);
    let vrec = spec_decode_vault(vault.data)->Some_0;
    let cred = spec_decode_credentials(payload)->Some_0;
    let new_vrec = VaultV { data: vrec.data.update(index as int, cred), ..vrec };
    assert(cred.wf());
    assert(new_vrec.wf());
    lemma_vault_round_trip(new_vrec);
    lemma_creds_bytes_len(vrec.data);
    lemma_creds_bytes_len(new_vrec.data);
}

/// Law: a successful delete removes exactly the addressed credential,
/// shifts every later credential down by one index, and shrinks the
/// account by exactly one credential width.
pub proof fn lemma_delete_removes_exactly_one(
    pid: Seq<u8>,
    wallet: AccountV,
    vault: AccountV,
    s: RentSchedule,
    name: Seq<u8>,
    payload: Seq<u8>,
    index: u32,
    delete: u8,
)
    requires
        delete != 0,
        edit_vault_outcome(pid, true, wallet, vault, s, name, payload, index, delete) is Ok,
    ensures
        ({
            let p = edit_vault_outcome(
                pid,
                true,
                wallet,
                vault,
                s,
                name,
                payload,
                index,
                delete,
            )->Ok_0;
            let vrec = spec_decode_vault(vault.data)->Some_0;
            let new = spec_decode_vault(p.1.data)->Some_0;
            &&& p.1.data.len() == vault.data.len() - 64
            &&& new.data.len() == vrec.data.len() - 1
            &&& forall|j: int| 0 <= j < index ==> new.data[j] == vrec.data[j]
            &&& forall|j: int|
                index <= j < new.data.len() ==> new.data[j] == vrec.data[j + 1]
        }),
{
    lemma_decode_vault_wf(vault.data);
    let vrec = spec_decode_vault(vault.data)->Some_0;
    let new_vrec = VaultV { data: vrec.data.remove(index as int), ..vrec };
    assert(new_vrec.wf());
    lemma_vault_round_trip(new_vrec);
    lemma_creds_bytes_len(vrec.data);
    lemma_creds_bytes_len(new_vrec.data);
}

/// Law: an append that would push the vault past its storage ceiling fails
/// with `CapacityExceeded`; by the handler's contract such a failure
/// mutates nothing.
pub proof fn lemma_add_past_ceiling_fails(
    pid: Seq<u8>,
    wallet: AccountV,
    vault: AccountV,
    s: RentSchedule,
    name: Seq<u8>,
    payload: Seq<u8>,
)
    requires
        vault_address_matches(vault.key, wallet.key, name, pid),
        vault.data.len() != 0,
        spec_decode_vault(vault.data) is Some,
        vault.data.len() + 64 > vault_capacity(),
    ensures
        add_credential_outcome(pid, true, wallet, vault, s, name, payload) == Err::<
            (AccountV, AccountV),
            VaultError,
        >(VaultError::CapacityExceeded),
{
}

} // verus!
