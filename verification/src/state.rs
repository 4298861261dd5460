use vstd::prelude::*;

use crate::bytes::{
    copy_bytes, push_bytes, push_u32_le, read_u32_le, spec_u32_from_le, spec_u32_le, subvec,
    lemma_u32_le_round_trip,
};
use crate::errors::VaultError;

verus! {

/// One encrypted credential entry: two fixed-width opaque ciphertext fields.
/// This component never interprets their contents.
#[derive(Debug)]
pub struct Credentials {
    pub field: Vec<u8>,
    pub passkey: Vec<u8>,
}

/// A vault: a fixed 32-byte zero-padded name, a back-reference to the owning
/// user account, and an ordered, index-addressable credential list.
#[derive(Debug)]
pub struct VaultAccount {
    pub name: Vec<u8>,
    pub user_account: Vec<u8>,
    pub data: Vec<Credentials>,
}

/// A user record: the owner identity and the addresses of the owner's
/// vaults, in creation order.
#[derive(Debug)]
pub struct UserAccount {
    pub user_address: Vec<u8>,
    pub vaults: Vec<Vec<u8>>,
}

/// Mathematical image of a credential entry.
#[verifier::ext_equal]
pub ghost struct CredentialsV {
    pub field: Seq<u8>,
    pub passkey: Seq<u8>,
}

/// Mathematical image of a vault record.
#[verifier::ext_equal]
pub ghost struct VaultV {
    pub name: Seq<u8>,
    pub user_account: Seq<u8>,
    pub data: Seq<CredentialsV>,
}

/// Mathematical image of a user record.
#[verifier::ext_equal]
pub ghost struct UserV {
    pub user_address: Seq<u8>,
    pub vaults: Seq<Seq<u8>>,
}

impl View for Credentials {
    type V = CredentialsV;

    open spec fn view(&self) -> CredentialsV {
        CredentialsV { field: self.field@, passkey: self.passkey@ }
    }
}

impl View for VaultAccount {
    type V = VaultV;

    open spec fn view(&self) -> VaultV {
        VaultV {
            name: self.name@,
            user_account: self.user_account@,
            data: self.data@.map_values(|c: Credentials| c@),
        }
    }
}

impl View for UserAccount {
    type V = UserV;

    open spec fn view(&self) -> UserV {
        UserV {
            user_address: self.user_address@,
            vaults: self.vaults@.map_values(|v: Vec<u8>| v@),
        }
    }
}

impl CredentialsV {
    /// Both ciphertext fields have their fixed width.
    pub open spec fn wf(self) -> bool {
        self.field.len() == 32 && self.passkey.len() == 32
    }
}

impl VaultV {
    /// Fixed-width fields are exact and the credential count fits its
    /// 4-byte wire counter.
    pub open spec fn wf(self) -> bool {
        &&& self.name.len() == 32
        &&& self.user_account.len() == 32
        &&& self.data.len() <= u32::MAX
        &&& forall|i: int| 0 <= i < self.data.len() ==> #[trigger] self.data[i].wf()
    }
}

impl UserV {
    /// The owner identity is one address wide and the vault count fits its
    /// 4-byte wire counter; every registered vault address is 32 bytes.
    pub open spec fn wf(self) -> bool {
        &&& self.user_address.len() == 32
        &&& self.vaults.len() <= u32::MAX
        &&& forall|i: int| 0 <= i < self.vaults.len() ==> #[trigger] self.vaults[i].len() == 32
    }
}

/// Concatenation of a list of 32-byte vault addresses.
pub open spec fn keys_bytes(ks: Seq<Seq<u8>>) -> Seq<u8>
    decreases ks.len(),
{
    if ks.len() == 0 {
        Seq::empty()
    } else {
        ks[0] + keys_bytes(ks.skip(1))
    }
}

/// Concatenation of a list of fixed-width credential records.
pub open spec fn creds_bytes(cs: Seq<CredentialsV>) -> Seq<u8>
    decreases cs.len(),
{
    if cs.len() == 0 {
        Seq::empty()
    } else {
        cs[0].field + cs[0].passkey + creds_bytes(cs.skip(1))
    }
}

/// Wire form of a credential record.
pub open spec fn spec_encode_credentials(c: CredentialsV) -> Seq<u8> {
    c.field + c.passkey
}

/// Wire form of a user record: owner identity, 4-byte little-endian vault
/// count, then the vault addresses.
pub open spec fn spec_encode_user(u: UserV) -> Seq<u8> {
    u.user_address + spec_u32_le(u.vaults.len() as u32) + keys_bytes(u.vaults)
}

/// Wire form of a vault record: zero-padded name, owning user account
/// address, 4-byte little-endian credential count, then the records.
pub open spec fn spec_encode_vault(v: VaultV) -> Seq<u8> {
    v.name + v.user_account + spec_u32_le(v.data.len() as u32) + creds_bytes(v.data)
}

/// The unique credential record stored in a 64-byte buffer, if the buffer
/// has exactly that length.
pub open spec fn spec_decode_credentials(b: Seq<u8>) -> Option<CredentialsV> {
    if b.len() == 64 {
        Some(CredentialsV { field: b.subrange(0, 32), passkey: b.subrange(32, 64) })
    } else {
        None
    }
}

/// The unique user record stored in `b`, if `b` carries a count that
/// consumes the buffer exactly.
pub open spec fn spec_decode_user(b: Seq<u8>) -> Option<UserV> {
    if b.len() < 36 {
        None
    } else {
        let n = spec_u32_from_le(b[32], b[33], b[34], b[35]) as int;
        if b.len() == 36 + 32 * n {
            Some(
                UserV {
                    user_address: b.subrange(0, 32),
                    vaults: Seq::new(n as nat, |i: int| b.subrange(36 + 32 * i, 68 + 32 * i)),
                },
            )
        } else {
            None
        }
    }
}

/// The unique vault record stored in `b`, if `b` carries a count that
/// consumes the buffer exactly.
pub open spec fn spec_decode_vault(b: Seq<u8>) -> Option<VaultV> {
    if b.len() < 68 {
        None
    } else {
        let n = spec_u32_from_le(b[64], b[65], b[66], b[67]) as int;
        if b.len() == 68 + 64 * n {
            Some(
                VaultV {
                    name: b.subrange(0, 32),
                    user_account: b.subrange(32, 64),
                    data: Seq::new(
                        n as nat,
                        |i: int| CredentialsV {
                            field: b.subrange(68 + 64 * i, 100 + 64 * i),
                            passkey: b.subrange(100 + 64 * i, 132 + 64 * i),
                        },
                    ),
                },
            )
        } else {
            None
        }
    }
}

pub proof fn lemma_keys_bytes_len(ks: Seq<Seq<u8>>)
    requires
        forall|i: int| 0 <= i < ks.len() ==> #[trigger] ks[i].len() == 32,
    ensures
        keys_bytes(ks).len() == 32 * ks.len(),
    decreases ks.len(),
{
    if ks.len() > 0 {
        lemma_keys_bytes_len(ks.skip(1));
    }
}

proof fn lemma_keys_bytes_at(ks: Seq<Seq<u8>>, i: int)
    requires
        forall|k: int| 0 <= k < ks.len() ==> #[trigger] ks[k].len() == 32,
        0 <= i < ks.len(),
    ensures
        keys_bytes(ks).subrange(32 * i, 32 * i + 32) =~= ks[i],
    decreases i,
{
    lemma_keys_bytes_len(ks);
    lemma_keys_bytes_len(ks.skip(1));
    if i == 0 {
        assert(keys_bytes(ks).subrange(0, 32) =~= ks[0]);
    } else {
        lemma_keys_bytes_at(ks.skip(1), i - 1);
        assert(keys_bytes(ks).subrange(32 * i, 32 * i + 32) =~= keys_bytes(ks.skip(1)).subrange(
            32 * (i - 1),
            32 * (i - 1) + 32,
        ));
    }
}

proof fn lemma_keys_bytes_push(ks: Seq<Seq<u8>>, x: Seq<u8>)
    ensures
        keys_bytes(ks.push(x)) =~= keys_bytes(ks) + x,
    decreases ks.len(),
{
    if ks.len() == 0 {
        assert(ks.push(x)[0] == x);
        assert(ks.push(x).skip(1) =~= Seq::<Seq<u8>>::empty());
        assert(keys_bytes(Seq::<Seq<u8>>::empty()) =~= Seq::<u8>::empty());
        assert(keys_bytes(ks) =~= Seq::<u8>::empty());
        assert(keys_bytes(ks.push(x)) =~= x + Seq::<u8>::empty());
    } else {
        assert(ks.push(x).skip(1) =~= ks.skip(1).push(x));
        lemma_keys_bytes_push(ks.skip(1), x);
    }
}

pub proof fn lemma_creds_bytes_len(cs: Seq<CredentialsV>)
    requires
        forall|i: int| 0 <= i < cs.len() ==> #[trigger] cs[i].wf(),
    ensures
        creds_bytes(cs).len() == 64 * cs.len(),
    decreases cs.len(),
{
    if cs.len() > 0 {
        assert(cs[0].wf());
        assert(forall|i: int|
            0 <= i < cs.skip(1).len() ==> #[trigger] cs.skip(1)[i].wf() && cs.skip(1)[i] == cs[i
                + 1]);
        lemma_creds_bytes_len(cs.skip(1));
    }
}

proof fn lemma_creds_bytes_at(cs: Seq<CredentialsV>, i: int)
    requires
        forall|k: int| 0 <= k < cs.len() ==> #[trigger] cs[k].wf(),
        0 <= i < cs.len(),
    ensures
        creds_bytes(cs).subrange(64 * i, 64 * i + 32) =~= cs[i].field,
        creds_bytes(cs).subrange(64 * i + 32, 64 * i + 64) =~= cs[i].passkey,
    decreases i,
{
    assert(cs[0].wf());
    assert(forall|k: int|
        0 <= k < cs.skip(1).len() ==> #[trigger] cs.skip(1)[k].wf() && cs.skip(1)[k] == cs[k + 1]);
    lemma_creds_bytes_len(cs);
    lemma_creds_bytes_len(cs.skip(1));
    if i == 0 {
        assert(creds_bytes(cs).subrange(0, 32) =~= cs[0].field);
        assert(creds_bytes(cs).subrange(32, 64) =~= cs[0].passkey);
    } else {
        lemma_creds_bytes_at(cs.skip(1), i - 1);
        assert(creds_bytes(cs).subrange(64 * i, 64 * i + 32) =~= creds_bytes(
            cs.skip(1),
        ).subrange(64 * (i - 1), 64 * (i - 1) + 32));
        assert(creds_bytes(cs).subrange(64 * i + 32, 64 * i + 64) =~= creds_bytes(
            cs.skip(1),
        ).subrange(64 * (i - 1) + 32, 64 * (i - 1) + 64));
    }
}

proof fn lemma_creds_bytes_push(cs: Seq<CredentialsV>, x: CredentialsV)
    ensures
        creds_bytes(cs.push(x)) =~= creds_bytes(cs) + x.field + x.passkey,
    decreases cs.len(),
{
    if cs.len() == 0 {
        assert(cs.push(x)[0] == x);
        assert(cs.push(x).skip(1) =~= Seq::<CredentialsV>::empty());
        assert(creds_bytes(Seq::<CredentialsV>::empty()) =~= Seq::<u8>::empty());
        assert(creds_bytes(cs) =~= Seq::<u8>::empty());
        assert(creds_bytes(cs.push(x)) =~= x.field + x.passkey + Seq::<u8>::empty());
    } else {
        assert(cs.push(x).skip(1) =~= cs.skip(1).push(x));
        lemma_creds_bytes_push(cs.skip(1), x);
    }
}

/// Encodes one credential record into its 64-byte wire form.
pub fn encode_credentials(c: &Credentials) -> (r: Vec<u8>)
    requires
        c@.wf(),
    ensures
        r@ == spec_encode_credentials(c@),
        r@.len() == 64,
{
    let mut out = copy_bytes(&c.field);
    push_bytes(&mut out, &c.passkey);
    out
}

/// Decodes a 64-byte buffer into a credential record.
pub fn decode_credentials(b: &Vec<u8>) -> (r: Result<Credentials, VaultError>)
    ensures
        match r {
            Ok(c) => spec_decode_credentials(b@) == Some(c@) && c@.wf(),
            Err(e) => spec_decode_credentials(b@) is None && e == VaultError::DataUnpackError,
        },
{
    if b.len() != 64 {
        return Err(VaultError::DataUnpackError);
    }
    let field = subvec(b, 0, 32);
    let passkey = subvec(b, 32, 64);
    let c = Credentials { field, passkey };
    proof {
        assert(c@ =~= spec_decode_credentials(b@)->Some_0);
    }
    Ok(c)
}

/// Encodes a user record into its wire form.
pub fn encode_user(u: &UserAccount) -> (r: Vec<u8>)
    requires
        u@.wf(),
    ensures
        r@ == spec_encode_user(u@),
        r@.len() == 36 + 32 * u@.vaults.len(),
{
    let mut out = copy_bytes(&u.user_address);
    let n = u.vaults.len();
    push_u32_le(&mut out, n as u32);
    let ghost prefix = u@.user_address + spec_u32_le(u@.vaults.len() as u32);
    assert(out@ =~= prefix + keys_bytes(u@.vaults.take(0)));
    let mut i: usize = 0;
    while i < n
        invariant
            i <= n == u.vaults@.len(),
            u@.wf(),
            u@.vaults.len() == n,
            prefix == u@.user_address + spec_u32_le(u@.vaults.len() as u32),
            out@ == prefix + keys_bytes(u@.vaults.take(i as int)),
        decreases n - i,
    {
        push_bytes(&mut out, &u.vaults[i]);
        proof {
            assert(u@.vaults.take(i + 1) =~= u@.vaults.take(i as int).push(u@.vaults[i as int]));
            lemma_keys_bytes_push(u@.vaults.take(i as int), u@.vaults[i as int]);
            assert(u@.vaults[i as int] == u.vaults@[i as int]@);
        }
        i = i + 1;
        assert(out@ =~= prefix + keys_bytes(u@.vaults.take(i as int)));
    }
    proof {
        assert(u@.vaults.take(n as int) =~= u@.vaults);
        lemma_keys_bytes_len(u@.vaults);
        assert(out@ =~= spec_encode_user(u@));
    }
    out
}

/// Decodes a buffer into a user record; the buffer must be consumed exactly.
pub fn decode_user(b: &Vec<u8>) -> (r: Result<UserAccount, VaultError>)
    ensures
        match r {
            Ok(u) => spec_decode_user(b@) == Some(u@) && u@.wf(),
            Err(e) => spec_decode_user(b@) is None && e == VaultError::DataUnpackError,
        },
{
    if b.len() < 36 {
        return Err(VaultError::DataUnpackError);
    }
    let n = read_u32_le(b, 32);
    let len = b.len();
    if (len - 36) as u64 != 32u64 * (n as u64) {
        return Err(VaultError::DataUnpackError);
    }
    assert(len == 36 + 32 * (n as int));
    let user_address = subvec(b, 0, 32);
    let mut vaults: Vec<Vec<u8>> = Vec::new();
    let mut i: usize = 0;
    while i < n as usize
        invariant
            i <= n,
            b@.len() <= usize::MAX,
            b@.len() == 36 + 32 * (n as int),
            vaults@.len() == i,
            forall|k: int|
                0 <= k < i ==> #[trigger] vaults@[k]@ == b@.subrange(36 + 32 * k, 68 + 32 * k),
        decreases n as int - i,
    {
        assert(36 + 32 * (i as int) + 32 <= b@.len());
        let start = 36 + 32 * i;
        let key = subvec(b, start, start + 32);
        vaults.push(key);
        i = i + 1;
    }
    let u = UserAccount { user_address, vaults };
    proof {
        let expect = spec_decode_user(b@)->Some_0;
        assert(u@.vaults =~~= expect.vaults);
        assert(u@ =~~= expect);
    }
    Ok(u)
}

/// Encodes a vault record into its wire form.
pub fn encode_vault(v: &VaultAccount) -> (r: Vec<u8>)
    requires
        v@.wf(),
    ensures
        r@ == spec_encode_vault(v@),
        r@.len() == 68 + 64 * v@.data.len(),
{
    let mut out = copy_bytes(&v.name);
    push_bytes(&mut out, &v.user_account);
    let n = v.data.len();
    push_u32_le(&mut out, n as u32);
    let ghost prefix = v@.name + v@.user_account + spec_u32_le(v@.data.len() as u32);
    assert(out@ =~= prefix + creds_bytes(v@.data.take(0)));
    let mut i: usize = 0;
    while i < n
        invariant
            i <= n == v.data@.len(),
            v@.wf(),
            v@.data.len() == n,
            prefix == v@.name + v@.user_account + spec_u32_le(v@.data.len() as u32),
            out@ == prefix + creds_bytes(v@.data.take(i as int)),
        decreases n - i,
    {
        push_bytes(&mut out, &v.data[i].field);
        push_bytes(&mut out, &v.data[i].passkey);
        proof {
            assert(v@.data.take(i + 1) =~= v@.data.take(i as int).push(v@.data[i as int]));
            lemma_creds_bytes_push(v@.data.take(i as int), v@.data[i as int]);
            assert(v@.data[i as int] == v.data@[i as int]@);
        }
        i = i + 1;
        assert(out@ =~= prefix + creds_bytes(v@.data.take(i as int)));
    }
    proof {
        assert(v@.data.take(n as int) =~= v@.data);
        lemma_creds_bytes_len(v@.data);
        assert(out@ =~= spec_encode_vault(v@));
    }
    out
}

/// Decodes a buffer into a vault record; the buffer must be consumed exactly.
pub fn decode_vault(b: &Vec<u8>) -> (r: Result<VaultAccount, VaultError>)
    ensures
        match r {
            Ok(v) => spec_decode_vault(b@) == Some(v@) && v@.wf(),
            Err(e) => spec_decode_vault(b@) is None && e == VaultError::DataUnpackError,
        },
{
    if b.len() < 68 {
        return Err(VaultError::DataUnpackError);
    }
    let n = read_u32_le(b, 64);
    let len = b.len();
    if (len - 68) as u64 != 64u64 * (n as u64) {
        return Err(VaultError::DataUnpackError);
    }
    assert(len == 68 + 64 * (n as int));
    let name = subvec(b, 0, 32);
    let user_account = subvec(b, 32, 64);
    let mut data: Vec<Credentials> = Vec::new();
    let mut i: usize = 0;
    while i < n as usize
        invariant
            i <= n,
            b@.len() <= usize::MAX,
            b@.len() == 68 + 64 * (n as int),
            data@.len() == i,
            forall|k: int|
                0 <= k < i ==> #[trigger] data@[k]@.field == b@.subrange(
                    68 + 64 * k,
                    100 + 64 * k,
                ) && data@[k]@.passkey == b@.subrange(100 + 64 * k, 132 + 64 * k),
        decreases n as int - i,
    {
        assert(68 + 64 * (i as int) + 64 <= b@.len());
        let start = 68 + 64 * i;
        let field = subvec(b, start, start + 32);
        let passkey = subvec(b, start + 32, start + 64);
        data.push(Credentials { field, passkey });
        i = i + 1;
    }
    let v = VaultAccount { name, user_account, data };
    proof {
        let expect = spec_decode_vault(b@)->Some_0;
        assert forall|k: int| 0 <= k < n as int implies v@.data[k] =~= expect.data[k] by {
            assert(v@.data[k] == data@[k]@);
            assert(data@[k]@.field == b@.subrange(68 + 64 * k, 100 + 64 * k));
            assert(data@[k]@.passkey == b@.subrange(100 + 64 * k, 132 + 64 * k));
        }
        assert(v@.data =~~= expect.data);
        assert(v@ =~~= expect);
    }
    Ok(v)
}

/// Law: decoding an encoded credential record yields the record back.
pub proof fn lemma_credentials_round_trip(c: CredentialsV)
    requires
        c.wf(),
    ensures
        spec_decode_credentials(spec_encode_credentials(c)) == Some(c),
{
    let b = spec_encode_credentials(c);
    assert(b.subrange(0, 32) =~= c.field);
    assert(b.subrange(32, 64) =~= c.passkey);
    assert(spec_decode_credentials(b)->Some_0 =~= c);
}

/// Law: decoding an encoded user record yields the record back.
pub proof fn lemma_user_round_trip(u: UserV)
    requires
        u.wf(),
    ensures
        spec_decode_user(spec_encode_user(u)) == Some(u),
{
    let b = spec_encode_user(u);
    lemma_keys_bytes_len(u.vaults);
    let n = u.vaults.len() as int;
    assert(b.len() == 36 + 32 * n);
    lemma_u32_le_round_trip(u.vaults.len() as u32);
    assert(b[32] == spec_u32_le(u.vaults.len() as u32)[0]);
    assert(b[33] == spec_u32_le(u.vaults.len() as u32)[1]);
    assert(b[34] == spec_u32_le(u.vaults.len() as u32)[2]);
    assert(b[35] == spec_u32_le(u.vaults.len() as u32)[3]);
    assert(spec_u32_from_le(b[32], b[33], b[34], b[35]) as int == n);
    assert(b.subrange(0, 32) =~= u.user_address);
    let dec = Seq::new(n as nat, |i: int| b.subrange(36 + 32 * i, 68 + 32 * i));
    assert forall|i: int| 0 <= i < n implies dec[i] =~= u.vaults[i] by {
        lemma_keys_bytes_at(u.vaults, i);
        assert(b.subrange(36 + 32 * i, 68 + 32 * i) =~= keys_bytes(u.vaults).subrange(
            32 * i,
            32 * i + 32,
        ));
    }
    assert(dec =~~= u.vaults);
    assert(spec_decode_user(b)->Some_0 =~~= u);
}

/// Law: decoding an encoded vault record yields the record back.
pub proof fn lemma_vault_round_trip(v: VaultV)
    requires
        v.wf(),
    ensures
        spec_decode_vault(spec_encode_vault(v)) == Some(v),
{
    let b = spec_encode_vault(v);
    lemma_creds_bytes_len(v.data);
    let n = v.data.len() as int;
    assert(b.len() == 68 + 64 * n);
    lemma_u32_le_round_trip(v.data.len() as u32);
    assert(b[64] == spec_u32_le(v.data.len() as u32)[0]);
    assert(b[65] == spec_u32_le(v.data.len() as u32)[1]);
    assert(b[66] == spec_u32_le(v.data.len() as u32)[2]);
    assert(b[67] == spec_u32_le(v.data.len() as u32)[3]);
    assert(spec_u32_from_le(b[64], b[65], b[66], b[67]) as int == n);
    assert(b.subrange(0, 32) =~= v.name);
    assert(b.subrange(32, 64) =~= v.user_account);
    let dec = Seq::new(
        n as nat,
        |i: int| CredentialsV {
            field: b.subrange(68 + 64 * i, 100 + 64 * i),
            passkey: b.subrange(100 + 64 * i, 132 + 64 * i),
        },
    );
    assert forall|i: int| 0 <= i < n implies dec[i] =~= v.data[i] by {
        lemma_creds_bytes_at(v.data, i);
        assert(b.subrange(68 + 64 * i, 100 + 64 * i) =~= creds_bytes(v.data).subrange(
            64 * i,
            64 * i + 32,
        ));
        assert(b.subrange(100 + 64 * i, 132 + 64 * i) =~= creds_bytes(v.data).subrange(
            64 * i + 32,
            64 * i + 64,
        ));
    }
    assert(dec =~~= v.data);
    assert(spec_decode_vault(b)->Some_0 =~~= v);
}

/// A decodable buffer holds a well-formed user record.
pub proof fn lemma_decode_user_wf(b: Seq<u8>)
    requires
        spec_decode_user(b) is Some,
    ensures
        spec_decode_user(b)->Some_0.wf(),
{
    let u = spec_decode_user(b)->Some_0;
    assert(forall|i: int| 0 <= i < u.vaults.len() ==> #[trigger] u.vaults[i].len() == 32);
}

/// A decodable buffer holds a well-formed vault record.
pub proof fn lemma_decode_vault_wf(b: Seq<u8>)
    requires
        spec_decode_vault(b) is Some,
    ensures
        spec_decode_vault(b)->Some_0.wf(),
{
    let v = spec_decode_vault(b)->Some_0;
    assert(forall|i: int| 0 <= i < v.data.len() ==> #[trigger] v.data[i].wf());
}

/// The fixed 32-byte zero-padded storage form of a vault name: bytes past
/// the width are dropped, missing bytes are zero.
pub open spec fn spec_pad_name(name: Seq<u8>) -> Seq<u8> {
    Seq::new(32, |i: int| if i < name.len() { name[i] } else { 0u8 })
}

/// Builds the fixed 32-byte zero-padded storage form of a vault name.
pub fn pad_name(name: &Vec<u8>) -> (r: Vec<u8>)
    ensures
        r@ == spec_pad_name(name@),
{
    let mut out: Vec<u8> = Vec::new();
    let mut i: usize = 0;
    while i < 32
        invariant
            i <= 32,
            out@.len() == i,
            forall|j: int| 0 <= j < i ==> out@[j] == spec_pad_name(name@)[j],
        decreases 32 - i,
    {
        if i < name.len() {
            let x = name[i];
            out.push(x);
        } else {
            out.push(0);
        }
        i = i + 1;
    }
    assert(out@ =~= spec_pad_name(name@));
    out
}

} // verus!
