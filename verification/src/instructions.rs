use vstd::prelude::*;

use crate::bytes::{read_u32_le, spec_u32_from_le, subvec, copy_bytes};
use crate::errors::VaultError;
use crate::utf8::{check_utf8, is_valid_utf8};

verus! {

/// Width of a credential payload on the wire and in storage.
pub open spec fn cred_len() -> int {
    64
}

/// A decoded operation, dispatched on by the processor.
#[derive(Debug)]
pub enum VaultInstruction {
    /// Create the caller's user account if it is absent.
    InitUserAccount {},
    /// Create the named vault and register it with the user account.
    InitVaultAccount { vault_name: Vec<u8> },
    /// Append one credential payload to the named vault.
    InitAddInVault { vault_name: Vec<u8>, data: Vec<u8> },
    /// Replace (`delete == 0`) or remove (`delete != 0`) the credential at
    /// `index` in the named vault.
    EditVaultAccount { data: Vec<u8>, vault_name: Vec<u8>, index: u32, delete: u8 },
}

/// The mathematical image of a decoded operation.
pub ghost enum VaultInstructionV {
    InitUserAccount,
    InitVaultAccount { vault_name: Seq<u8> },
    InitAddInVault { vault_name: Seq<u8>, data: Seq<u8> },
    EditVaultAccount { data: Seq<u8>, vault_name: Seq<u8>, index: u32, delete: u8 },
}

impl View for VaultInstruction {
    type V = VaultInstructionV;

    open spec fn view(&self) -> VaultInstructionV {
        match self {
            VaultInstruction::InitUserAccount {} => VaultInstructionV::InitUserAccount,
            VaultInstruction::InitVaultAccount { vault_name } => {
                VaultInstructionV::InitVaultAccount { vault_name: vault_name@ }
            },
            VaultInstruction::InitAddInVault { vault_name, data } => {
                VaultInstructionV::InitAddInVault { vault_name: vault_name@, data: data@ }
            },
            VaultInstruction::EditVaultAccount { data, vault_name, index, delete } => {
                VaultInstructionV::EditVaultAccount {
                    data: data@,
                    vault_name: vault_name@,
                    index: *index,
                    delete: *delete,
                }
            },
        }
    }
}

/// What decoding an instruction buffer yields: the first byte picks the
/// operation, the remainder is laid out per operation, and a trailing vault
/// name must be well-formed UTF-8.
pub open spec fn spec_unpack(b: Seq<u8>) -> Result<VaultInstructionV, VaultError> {
    if b.len() == 0 {
        Err(VaultError::MalformedInstruction)
    } else if b[0] == 0 {
        Ok(VaultInstructionV::InitUserAccount)
    } else if b[0] == 1 {
        if is_valid_utf8(b.skip(1)) {
            Ok(VaultInstructionV::InitVaultAccount { vault_name: b.skip(1) })
        } else {
            Err(VaultError::MalformedInstruction)
        }
    } else if b[0] == 2 {
        if b.len() < 1 + cred_len() {
            Err(VaultError::MalformedInstruction)
        } else if is_valid_utf8(b.skip(1 + cred_len())) {
            Ok(VaultInstructionV::InitAddInVault {
                vault_name: b.skip(1 + cred_len()),
                data: b.subrange(1, 1 + cred_len()),
            })
        } else {
            Err(VaultError::MalformedInstruction)
        }
    } else if b[0] == 3 {
        if b.len() < 6 + cred_len() {
            Err(VaultError::MalformedInstruction)
        } else if is_valid_utf8(b.skip(6 + cred_len())) {
            Ok(VaultInstructionV::EditVaultAccount {
                data: b.subrange(6, 6 + cred_len()),
                vault_name: b.skip(6 + cred_len()),
                index: spec_u32_from_le(b[2], b[3], b[4], b[5]),
                delete: b[1],
            })
        } else {
            Err(VaultError::MalformedInstruction)
        }
    } else {
        Err(VaultError::InvalidInstruction)
    }
}

impl VaultInstruction {
    /// Decodes a raw instruction buffer into a typed operation.
    pub fn unpack(data: &Vec<u8>) -> (r: Result<VaultInstruction, VaultError>)
        ensures
            match r {
                Ok(op) => spec_unpack(data@) == Ok::<VaultInstructionV, VaultError>(op@),
                Err(e) => spec_unpack(data@) == Err::<VaultInstructionV, VaultError>(e),
            },
    {
        if data.len() == 0 {
            return Err(VaultError::MalformedInstruction);
        }
        let tag = data[0];
        if tag == 0 {
            Ok(VaultInstruction::InitUserAccount {})
        } else if tag == 1 {
            let name = subvec(data, 1, data.len());
            assert(name@ =~= data@.skip(1));
            if check_utf8(&name) {
                Ok(VaultInstruction::InitVaultAccount { vault_name: name })
            } else {
                Err(VaultError::MalformedInstruction)
            }
        } else if tag == 2 {
            if data.len() < 65 {
                return Err(VaultError::MalformedInstruction);
            }
            let payload = subvec(data, 1, 65);
            let name = subvec(data, 65, data.len());
            assert(name@ =~= data@.skip(65));
            if check_utf8(&name) {
                Ok(VaultInstruction::InitAddInVault { vault_name: name, data: payload })
            } else {
                Err(VaultError::MalformedInstruction)
            }
        } else if tag == 3 {
            if data.len() < 70 {
                return Err(VaultError::MalformedInstruction);
            }
            let delete = data[1];
            let index = read_u32_le(data, 2);
            let payload = subvec(data, 6, 70);
            let name = subvec(data, 70, data.len());
            assert(name@ =~= data@.skip(70));
            if check_utf8(&name) {
                Ok(VaultInstruction::EditVaultAccount { data: payload, vault_name: name, index, delete })
            } else {
                Err(VaultError::MalformedInstruction)
            }
        } else {
            Err(VaultError::InvalidInstruction)
        }
    }

    /// Splits a fixed-width credential payload off the front of a buffer.
    pub fn unpack_data(input: &Vec<u8>) -> (r: Result<(Vec<u8>, Vec<u8>), VaultError>)
        ensures
            match r {
                Ok(p) => {
                    &&& input@.len() >= cred_len()
                    &&& p.0@ == input@.subrange(0, cred_len())
                    &&& p.1@ == input@.skip(cred_len())
                },
                Err(e) => input@.len() < cred_len() && e == VaultError::MalformedInstruction,
            },
    {
        if input.len() < 64 {
            return Err(VaultError::MalformedInstruction);
        }
        let head = subvec(input, 0, 64);
        let rest = subvec(input, 64, input.len());
        assert(rest@ =~= input@.skip(64));
        Ok((head, rest))
    }

    /// Splits a 4-byte little-endian index off the front of a buffer.
    pub fn unpack_index(input: &Vec<u8>) -> (r: Result<(u32, Vec<u8>), VaultError>)
        ensures
            match r {
                Ok(p) => {
                    &&& input@.len() >= 4
                    &&& p.0 == spec_u32_from_le(input@[0], input@[1], input@[2], input@[3])
                    &&& p.1@ == input@.skip(4)
                },
                Err(e) => input@.len() < 4 && e == VaultError::MalformedInstruction,
            },
    {
        if input.len() < 4 {
            return Err(VaultError::MalformedInstruction);
        }
        let index = read_u32_le(input, 0);
        let rest = subvec(input, 4, input.len());
        assert(rest@ =~= input@.skip(4));
        Ok((index, rest))
    }

    /// Copies a payload that is known to hold exactly one credential record.
    pub fn slice_to_array(slice: &Vec<u8>) -> (r: Vec<u8>)
        requires
            slice@.len() == cred_len(),
        ensures
            r@ == slice@,
    {
        copy_bytes(slice)
    }

    /// Splits a fixed 32-byte zero-padded name field off the front of a
    /// buffer, keeping the bytes before the first padding zero; the kept
    /// bytes must be well-formed UTF-8.
    pub fn unpack_name(input: &Vec<u8>) -> (r: Result<(Vec<u8>, Vec<u8>), VaultError>)
        ensures
            match r {
                Ok(p) => {
                    &&& input@.len() >= 32
                    &&& p.0@ == name_prefix(input@.subrange(0, 32))
                    &&& is_valid_utf8(p.0@)
                    &&& p.1@ == input@.skip(32)
                },
                Err(e) => {
                    &&& e == VaultError::DataUnpackError
                    &&& (input@.len() < 32 || !is_valid_utf8(
                        name_prefix(input@.subrange(0, 32)),
                    ))
                },
            },
    {
        if input.len() < 32 {
            return Err(VaultError::DataUnpackError);
        }
        let field = subvec(input, 0, 32);
        let mut stop: usize = 0;
        while stop < 32 && field[stop] != 0
            invariant
                0 <= stop <= 32,
                field@.len() == 32,
                forall|j: int| 0 <= j < stop ==> field@[j] != 0,
            decreases 32 - stop,
        {
            stop = stop + 1;
        }
        proof {
            lemma_first_zero_at(field@, stop as int);
        }
        let name = subvec(&field, 0, stop);
        assert(name@ =~= name_prefix(input@.subrange(0, 32)));
        if !check_utf8(&name) {
            return Err(VaultError::DataUnpackError);
        }
        let rest = subvec(input, 32, input.len());
        assert(rest@ =~= input@.skip(32));
        Ok((name, rest))
    }
}

/// Index of the first zero byte of `s`, or `s.len()` if none occurs.
pub open spec fn first_zero(s: Seq<u8>) -> int
    decreases s.len(),
{
    if s.len() == 0 {
        0
    } else if s[0] == 0 {
        0
    } else {
        1 + first_zero(s.skip(1))
    }
}

/// The bytes of a zero-padded name field before its first padding zero.
pub open spec fn name_prefix(s: Seq<u8>) -> Seq<u8> {
    s.take(first_zero(s))
}

proof fn lemma_first_zero_at(s: Seq<u8>, idx: int)
    requires
        0 <= idx <= s.len(),
        forall|j: int| 0 <= j < idx ==> s[j] != 0,
        idx == s.len() || s[idx] == 0,
    ensures
        first_zero(s) == idx,
    decreases s.len(),
{
    if s.len() == 0 {
    } else if s[0] == 0 {
        assert(idx == 0);
    } else {
        assert(forall|j: int| 0 <= j < idx - 1 ==> s.skip(1)[j] == s[j + 1] && s[j + 1] != 0);
        assert(idx - 1 == s.skip(1).len() || s.skip(1)[idx - 1] == 0);
        lemma_first_zero_at(s.skip(1), idx - 1);
    }
}


} // verus!

