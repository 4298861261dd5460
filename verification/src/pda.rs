use vstd::prelude::*;

use crate::bytes::{bytes_eq, copy_bytes};

verus! {

/// The deterministic address derivation of the host ledger: the address and
/// disambiguating bump value that belong to an ordered list of seed byte
/// strings and a program identity, or nothing when the seeds allow no
/// derivable address. The address is, by construction on the host, not a
/// directly-controllable signing identity, so matching it is a sufficient
/// authorization proof for this program's own accounts.
pub uninterp spec fn pda_of(seeds: Seq<Seq<u8>>, program_id: Seq<u8>) -> Option<(Seq<u8>, u8)>;

/// The views of a list of seed byte strings.
pub open spec fn seeds_view(seeds: Seq<Vec<u8>>) -> Seq<Seq<u8>> {
    seeds.map_values(|s: Vec<u8>| s@)
}

/// Relies on solana_program's Pubkey::try_find_program_address: the returned
/// pair, and whether one is found at all, are a deterministic function of
/// the seed list and the program identity alone, and a returned address is
/// exactly 32 bytes wide.
#[verifier::external_body]
fn find_program_address(seeds: &Vec<Vec<u8>>, program_id: &Vec<u8>) -> (r: Option<(Vec<u8>, u8)>)
    requires
        program_id@.len() == 32,
    ensures
        match r {
            Some(p) => pda_of(seeds_view(seeds@), program_id@) == Some((p.0@, p.1)) && p.0@.len()
                == 32,
            None => pda_of(seeds_view(seeds@), program_id@) is None,
        },
{
    let seed_refs: Vec<&[u8]> = seeds.iter().map(|s| s.as_slice()).collect();
    let mut pid_bytes = [0u8; 32];
    pid_bytes.copy_from_slice(program_id.as_slice());
    let pid = solana_program::pubkey::Pubkey::new_from_array(pid_bytes);
    solana_program::pubkey::Pubkey::try_find_program_address(&seed_refs, &pid).map(
        |p: (solana_program::pubkey::Pubkey, u8)| (p.0.to_bytes().to_vec(), p.1),
    )
}

/// The fixed seed tag in front of an owner identity when deriving the
/// owner's user account address.
pub open spec fn user_seed_tag() -> Seq<u8> {
    seq![
        117u8, 115, 101, 114, 95, 97, 116, 95, 112, 97, 115, 115, 119, 111, 114, 100, 95, 109,
        97, 110, 97, 103, 101, 114,
    ]
}

/// The fixed seed tag in front of an owner identity and a vault name when
/// deriving a vault account address.
pub open spec fn vault_seed_tag() -> Seq<u8> {
    seq![118u8, 97, 117, 108, 116]
}

/// Seed list for a user account address: tag, then the owner identity.
pub open spec fn user_address_seeds(owner: Seq<u8>) -> Seq<Seq<u8>> {
    seq![user_seed_tag(), owner]
}

/// Seed list for a vault account address: tag, owner identity, vault name.
pub open spec fn vault_address_seeds(owner: Seq<u8>, name: Seq<u8>) -> Seq<Seq<u8>> {
    seq![vault_seed_tag(), owner, name]
}

fn user_seed_tag_vec() -> (r: Vec<u8>)
    ensures
        r@ == user_seed_tag(),
{
    let mut v: Vec<u8> = Vec::new();
    v.push(117);
    v.push(115);
    v.push(101);
    v.push(114);
    v.push(95);
    v.push(97);
    v.push(116);
    v.push(95);
    v.push(112);
    v.push(97);
    v.push(115);
    v.push(115);
    v.push(119);
    v.push(111);
    v.push(114);
    v.push(100);
    v.push(95);
    v.push(109);
    v.push(97);
    v.push(110);
    v.push(97);
    v.push(103);
    v.push(101);
    v.push(114);
    assert(v@ =~= user_seed_tag());
    v
}

fn vault_seed_tag_vec() -> (r: Vec<u8>)
    ensures
        r@ == vault_seed_tag(),
{
    let mut v: Vec<u8> = Vec::new();
    v.push(118);
    v.push(97);
    v.push(117);
    v.push(108);
    v.push(116);
    assert(v@ =~= vault_seed_tag());
    v
}

/// Derives the deterministic user account address and bump for an owner.
pub fn derive_user_address(owner: &Vec<u8>, program_id: &Vec<u8>) -> (r: Option<(Vec<u8>, u8)>)
    requires
        program_id@.len() == 32,
    ensures
        match r {
            Some(p) => pda_of(user_address_seeds(owner@), program_id@) == Some((p.0@, p.1))
                && p.0@.len() == 32,
            None => pda_of(user_address_seeds(owner@), program_id@) is None,
        },
{
    let mut seeds: Vec<Vec<u8>> = Vec::new();
    seeds.push(user_seed_tag_vec());
    seeds.push(copy_bytes(owner));
    proof {
        assert(seeds_view(seeds@) =~= user_address_seeds(owner@));
    }
    find_program_address(&seeds, program_id)
}

/// Derives the deterministic vault account address and bump for an owner
/// and a vault name.
pub fn derive_vault_address(owner: &Vec<u8>, name: &Vec<u8>, program_id: &Vec<u8>) -> (r: Option<
    (Vec<u8>, u8),
>)
    requires
        program_id@.len() == 32,
    ensures
        match r {
            Some(p) => pda_of(vault_address_seeds(owner@, name@), program_id@) == Some((p.0@, p.1))
                && p.0@.len() == 32,
            None => pda_of(vault_address_seeds(owner@, name@), program_id@) is None,
        },
{
    let mut seeds: Vec<Vec<u8>> = Vec::new();
    seeds.push(vault_seed_tag_vec());
    seeds.push(copy_bytes(owner));
    seeds.push(copy_bytes(name));
    proof {
        assert(seeds_view(seeds@) =~= vault_address_seeds(owner@, name@));
    }
    find_program_address(&seeds, program_id)
}

/// The supplied key is precisely the derivable user account address of the
/// owner. This predicate is the system's sole access-control check for user
/// accounts: every mutating handler requires it before touching bytes.
pub open spec fn user_address_matches(supplied: Seq<u8>, owner: Seq<u8>, program_id: Seq<u8>) -> bool {
    match pda_of(user_address_seeds(owner), program_id) {
        Some(p) => supplied == p.0,
        None => false,
    }
}

/// The supplied key is precisely the derivable vault account address of the
/// owner and name; the sole access-control check for vault accounts.
pub open spec fn vault_address_matches(
    supplied: Seq<u8>,
    owner: Seq<u8>,
    name: Seq<u8>,
    program_id: Seq<u8>,
) -> bool {
    match pda_of(vault_address_seeds(owner, name), program_id) {
        Some(p) => supplied == p.0,
        None => false,
    }
}

/// Recomputes the user account address and compares it with a supplied key.
pub fn verify_user_address(supplied: &Vec<u8>, owner: &Vec<u8>, program_id: &Vec<u8>) -> (r: bool)
    requires
        program_id@.len() == 32,
    ensures
        r == user_address_matches(supplied@, owner@, program_id@),
        (r ==> supplied@.len() == 32),
{
    match derive_user_address(owner, program_id) {
        Some(p) => bytes_eq(supplied, &p.0),
        None => false,
    }
}

/// Recomputes the vault account address and compares it with a supplied key.
pub fn verify_vault_address(
    supplied: &Vec<u8>,
    owner: &Vec<u8>,
    name: &Vec<u8>,
    program_id: &Vec<u8>,
) -> (r: bool)
    requires
        program_id@.len() == 32,
    ensures
        r == vault_address_matches(supplied@, owner@, name@, program_id@),
        (r ==> supplied@.len() == 32),
{
    match derive_vault_address(owner, name, program_id) {
        Some(p) => bytes_eq(supplied, &p.0),
        None => false,
    }
}

/// Law: address derivation is a pure deterministic function — the same
/// owner, name and program identity always yield the same derived address
/// and bump, for user accounts and for vault accounts alike.
pub proof fn lemma_derivation_deterministic(
    owner1: Seq<u8>,
    name1: Seq<u8>,
    pid1: Seq<u8>,
    owner2: Seq<u8>,
    name2: Seq<u8>,
    pid2: Seq<u8>,
)
    requires
        owner1 == owner2,
        name1 == name2,
        pid1 == pid2,
    ensures
        pda_of(user_address_seeds(owner1), pid1) == pda_of(user_address_seeds(owner2), pid2),
        pda_of(vault_address_seeds(owner1, name1), pid1) == pda_of(
            vault_address_seeds(owner2, name2),
            pid2,
        ),
{
}

} // verus!
