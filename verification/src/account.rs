use vstd::prelude::*;

use crate::bytes::copy_bytes;
use crate::errors::VaultError;

verus! {

/// A host-ledger storage account as this component sees it: a key, a
/// balance, a resizable byte buffer, and the owner tag of the program that
/// may write it.
#[derive(Debug)]
pub struct AccountState {
    pub key: Vec<u8>,
    pub lamports: u64,
    pub data: Vec<u8>,
    pub owner: Vec<u8>,
}

/// Mathematical image of an account.
#[verifier::ext_equal]
pub ghost struct AccountV {
    pub key: Seq<u8>,
    pub lamports: u64,
    pub data: Seq<u8>,
    pub owner: Seq<u8>,
}

impl View for AccountState {
    type V = AccountV;

    open spec fn view(&self) -> AccountV {
        AccountV {
            key: self.key@,
            lamports: self.lamports,
            data: self.data@,
            owner: self.owner@,
        }
    }
}

/// The host's minimum-retained-balance schedule, linear in the account's
/// byte size: an account of `size` bytes must keep
/// `base + per_byte * size` to remain valid.
#[derive(Debug)]
pub struct RentSchedule {
    pub base: u64,
    pub per_byte: u64,
}

/// Smallest balance an account of `size` bytes must retain.
pub open spec fn spec_min_balance(s: RentSchedule, size: int) -> int {
    s.base + s.per_byte * size
}

/// Computes the retained-balance floor for a size, or nothing when the
/// floor leaves `u64`.
pub fn min_retained_balance(s: &RentSchedule, size: u64) -> (r: Option<u64>)
    ensures
        match r {
            Some(v) => v == spec_min_balance(*s, size as int),
            None => spec_min_balance(*s, size as int) > u64::MAX,
        },
{
    match s.per_byte.checked_mul(size) {
        Some(p) => p.checked_add(s.base),
        None => None,
    }
}

/// Both balance moves of a transfer stay inside `u64`.
pub open spec fn transfer_ok(from: AccountV, to: AccountV, amount: u64) -> bool {
    from.lamports >= amount && to.lamports + amount <= u64::MAX
}

/// Moves `amount` between two accounts' balances; fails, changing nothing,
/// when the source is short or the destination balance would leave `u64`.
pub fn transfer(from: &mut AccountState, to: &mut AccountState, amount: u64) -> (r: Result<
    (),
    VaultError,
>)
    ensures
        (r is Ok <==> transfer_ok(old(from)@, old(to)@, amount)),
        (r is Ok ==> final(from)@ == (AccountV {
            lamports: (old(from)@.lamports - amount) as u64,
            ..old(from)@
        }) && final(to)@ == (AccountV {
            lamports: (old(to)@.lamports + amount) as u64,
            ..old(to)@
        })),
        (r is Err ==> *final(from) == *old(from) && *final(to) == *old(to) && r == Err::<
            (),
            VaultError,
        >(VaultError::TransferFailed)),
{
    if from.lamports < amount {
        return Err(VaultError::TransferFailed);
    }
    match to.lamports.checked_add(amount) {
        Some(new_to) => {
            from.lamports = from.lamports - amount;
            to.lamports = new_to;
            Ok(())
        },
        None => Err(VaultError::TransferFailed),
    }
}

/// The buffer of `data` brought to length `new_size`: bytes below the old
/// length survive verbatim, any grown tail is zero.
pub open spec fn resized_data(data: Seq<u8>, new_size: int) -> Seq<u8> {
    Seq::new(new_size as nat, |i: int| if i < data.len() { data[i] } else { 0u8 })
}

/// Outcome of resizing `account` to `new_size` bytes against `payer`:
/// growth moves the retained-balance increase from the payer to the
/// account, shrinking refunds the decrease from the account to the payer,
/// and the buffer keeps its surviving bytes and zero-fills growth. Any
/// balance move that cannot be performed fails the whole operation.
pub open spec fn resize_outcome(
    account: AccountV,
    payer: AccountV,
    new_size: int,
    s: RentSchedule,
) -> Result<(AccountV, AccountV), VaultError> {
    let old_size = account.data.len() as int;
    let old_floor = spec_min_balance(s, old_size);
    let new_floor = spec_min_balance(s, new_size);
    if old_floor > u64::MAX || new_floor > u64::MAX {
        Err(VaultError::TransferFailed)
    } else if new_size >= old_size {
        let diff = (new_floor - old_floor) as u64;
        if payer.lamports < diff || account.lamports + diff > u64::MAX {
            Err(VaultError::TransferFailed)
        } else {
            Ok(
                (
                    AccountV {
                        lamports: (account.lamports + diff) as u64,
                        data: resized_data(account.data, new_size),
                        ..account
                    },
                    AccountV { lamports: (payer.lamports - diff) as u64, ..payer },
                ),
            )
        }
    } else {
        let diff = (old_floor - new_floor) as u64;
        if account.lamports < diff || payer.lamports + diff > u64::MAX {
            Err(VaultError::TransferFailed)
        } else {
            Ok(
                (
                    AccountV {
                        lamports: (account.lamports - diff) as u64,
                        data: resized_data(account.data, new_size),
                        ..account
                    },
                    AccountV { lamports: (payer.lamports + diff) as u64, ..payer },
                ),
            )
        }
    }
}

/// Resizes `account`'s byte buffer to `new_size`, reconciling balances with
/// `payer` under the schedule; on failure nothing changes.
pub fn resize(
    account: &mut AccountState,
    payer: &mut AccountState,
    new_size: usize,
    s: &RentSchedule,
) -> (r: Result<(), VaultError>)
    ensures
        match resize_outcome(old(account)@, old(payer)@, new_size as int, *s) {
            Ok(p) => r is Ok && final(account)@ == p.0 && final(payer)@ == p.1,
            Err(e) => r == Err::<(), VaultError>(e) && *final(account) == *old(account)
                && *final(payer) == *old(payer),
        },
{
    let old_size = account.data.len();
    let old_floor = match min_retained_balance(s, old_size as u64) {
        Some(v) => v,
        None => {
            return Err(VaultError::TransferFailed);
        },
    };
    let new_floor = match min_retained_balance(s, new_size as u64) {
        Some(v) => v,
        None => {
            return Err(VaultError::TransferFailed);
        },
    };
    proof {
        let pb = s.per_byte as int;
        let a = old_size as int;
        let b = new_size as int;
        if b >= a {
            assert(pb * b >= pb * a) by (nonlinear_arith)
                requires
                    pb >= 0,
                    b >= a,
            ;
        } else {
            assert(pb * a >= pb * b) by (nonlinear_arith)
                requires
                    pb >= 0,
                    a >= b,
            ;
        }
    }
    if new_size >= old_size {
        let diff = new_floor - old_floor;
        let r = transfer(payer, account, diff);
        match r {
            Ok(()) => {},
            Err(e) => {
                return Err(e);
            },
        }
        while account.data.len() < new_size
            invariant
                old(account)@.data.len() <= account.data@.len() <= new_size,
                account.data@ == resized_data(old(account)@.data, account.data@.len() as int),
                account@.key == old(account)@.key,
                account@.owner == old(account)@.owner,
                account@.lamports == (old(account)@.lamports + diff) as u64,
            decreases new_size - account.data@.len(),
        {
            account.data.push(0);
            assert(account.data@ =~= resized_data(
                old(account)@.data,
                account.data@.len() as int,
            ));
        }
        assert(account@ =~= resize_outcome(
            old(account)@,
            old(payer)@,
            new_size as int,
            *s,
        )->Ok_0.0);
        Ok(())
    } else {
        let diff = old_floor - new_floor;
        let r = transfer(account, payer, diff);
        match r {
            Ok(()) => {},
            Err(e) => {
                return Err(e);
            },
        }
        account.data.truncate(new_size);
        assert(account.data@ =~= resized_data(old(account)@.data, new_size as int));
        assert(account@ =~= resize_outcome(
            old(account)@,
            old(payer)@,
            new_size as int,
            *s,
        )->Ok_0.0);
        Ok(())
    }
}

/// Law: a successful resize preserves every byte below the smaller of the
/// two sizes verbatim and, on growth, zero-fills the new tail; the buffer
/// ends at exactly the requested length.
pub proof fn lemma_resize_preserves_bytes(
    account: AccountV,
    payer: AccountV,
    new_size: int,
    s: RentSchedule,
)
    requires
        new_size >= 0,
        resize_outcome(account, payer, new_size, s) is Ok,
    ensures
        ({
            let a = resize_outcome(account, payer, new_size, s)->Ok_0.0;
            &&& a.data.len() == new_size
            &&& forall|i: int|
                0 <= i < new_size && i < account.data.len() ==> a.data[i] == account.data[i]
            &&& forall|i: int| account.data.len() <= i < new_size ==> a.data[i] == 0
        }),
{
}

/// Outcome of allocating `account` at `size` bytes, funded by `payer` to
/// the retained-balance floor and tagged as owned by `program_id`.
pub open spec fn create_outcome(
    payer: AccountV,
    account: AccountV,
    size: int,
    program_id: Seq<u8>,
    s: RentSchedule,
) -> Result<(AccountV, AccountV), VaultError> {
    let floor = spec_min_balance(s, size);
    if floor > u64::MAX {
        Err(VaultError::TransferFailed)
    } else if payer.lamports < floor || account.lamports + floor > u64::MAX {
        Err(VaultError::TransferFailed)
    } else {
        Ok(
            (
                AccountV { lamports: (payer.lamports - floor) as u64, ..payer },
                AccountV {
                    key: account.key,
                    lamports: (account.lamports + floor) as u64,
                    data: Seq::new(size as nat, |i: int| 0u8),
                    owner: program_id,
                },
            ),
        )
    }
}

/// Allocates the account's buffer at `size` zeroed bytes, funds it from
/// `payer` to the retained-balance floor, and tags it as owned by
/// `program_id`; on failure nothing changes.
pub fn create_account(
    payer: &mut AccountState,
    account: &mut AccountState,
    size: usize,
    program_id: &Vec<u8>,
    s: &RentSchedule,
) -> (r: Result<(), VaultError>)
    ensures
        match create_outcome(old(payer)@, old(account)@, size as int, program_id@, *s) {
            Ok(p) => r is Ok && final(payer)@ == p.0 && final(account)@ == p.1,
            Err(e) => r == Err::<(), VaultError>(e) && *final(account) == *old(account)
                && *final(payer) == *old(payer),
        },
{
    let floor = match min_retained_balance(s, size as u64) {
        Some(v) => v,
        None => {
            return Err(VaultError::TransferFailed);
        },
    };
    let r = transfer(payer, account, floor);
    match r {
        Ok(()) => {},
        Err(e) => {
            return Err(e);
        },
    }
    let mut zeroed: Vec<u8> = Vec::new();
    while zeroed.len() < size
        invariant
            zeroed.len() <= size,
            zeroed@ =~= Seq::new(zeroed.len() as nat, |i: int| 0u8),
        decreases size - zeroed@.len(),
    {
        zeroed.push(0);
        assert(zeroed@ =~= Seq::new(zeroed.len() as nat, |i: int| 0u8));
    }
    account.data = zeroed;
    account.owner = copy_bytes(program_id);
    assert(account@ =~= create_outcome(
        old(payer)@,
        old(account)@,
        size as int,
        program_id@,
        *s,
    )->Ok_0.1);
    Ok(())
}

} // verus!
