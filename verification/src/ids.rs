//! Identifier types of the harness: 32-byte actor, code and message
//! identifiers, and the derivations that bind them together.

use vstd::prelude::*;

verus! {

/// A 32-byte actor (user or program) identifier.
#[derive(Clone, Copy, Debug)]
pub struct ActorId32(pub(crate) [u8; 32]);

/// A 32-byte code identifier.
#[derive(Clone, Copy, Debug)]
pub struct CodeId32(pub(crate) [u8; 32]);

/// A 32-byte message identifier, assigned by the ledger when a message is
/// queued.
#[derive(Clone, Copy, Debug)]
pub struct MessageId32(pub(crate) [u8; 32]);

impl View for ActorId32 {
    type V = Seq<u8>;

    closed spec fn view(&self) -> Seq<u8> {
        self.0@
    }
}

impl View for CodeId32 {
    type V = Seq<u8>;

    closed spec fn view(&self) -> Seq<u8> {
        self.0@
    }
}

impl View for MessageId32 {
    type V = Seq<u8>;

    closed spec fn view(&self) -> Seq<u8> {
        self.0@
    }
}

/// Compares two 32-byte arrays for equality of their contents.
fn bytes32_equal(a: &[u8; 32], b: &[u8; 32]) -> (r: bool)
    ensures
        r == (a@ == b@),
{
    let mut i: usize = 0;
    while i < 32
        invariant
            i <= 32,
            forall|j: int| 0 <= j < i ==> a@[j] == b@[j],
        decreases 32 - i,
    {
        if a[i] != b[i] {
            assert(a@[i as int] != b@[i as int]);
            return false;
        }
        i = i + 1;
    }
    proof {
        assert(a@ =~= b@);
    }
    true
}

impl ActorId32 {
    /// Creates an identifier from a 32-byte array.
    pub fn new(bytes: [u8; 32]) -> (r: Self)
        ensures
            r@ == bytes@,
    {
        ActorId32(bytes)
    }

    /// Returns the identifier as a byte array.
    pub fn as_bytes(&self) -> (r: &[u8; 32])
        ensures
            r@ == self@,
    {
        &self.0
    }

    /// True when both identifiers hold the same bytes.
    pub fn equals(&self, other: &ActorId32) -> (r: bool)
        ensures
            r == (self@ == other@),
    {
        bytes32_equal(&self.0, &other.0)
    }

    /// The actor identifier standing for a plain ledger account: the
    /// account's little-endian bytes placed at offsets 12 to 19 of an
    /// otherwise zero identifier, the same placement `gprimitives` uses for
    /// `ActorId::from(u64)`.
    pub fn from_account(account: u64) -> (r: Self)
        ensures
            r@ == actor_bytes_of_account(account),
    {
        let mut bytes: [u8; 32] = [0; 32];
        let mut k: usize = 0;
        while k < 8
            invariant
                k <= 8,
                bytes@.len() == 32,
                forall|j: int| 0 <= j < 32 && !(12 <= j < 20) ==> bytes@[j] == 0,
                forall|j: int| 12 <= j < 12 + k ==> bytes@[j] == account_byte_at(account, j),
            decreases 8 - k,
        {
            let shift: u64 = (8 * k) as u64;
            bytes[12 + k] = (account >> shift) as u8;
            k = k + 1;
        }
        proof {
            assert(bytes@ =~= actor_bytes_of_account(account));
        }
        ActorId32(bytes)
    }

    /// The ledger account standing for this actor identifier: the
    /// little-endian value of the bytes at offsets 12 to 19, inverting
    /// `from_account`.
    pub fn to_account(&self) -> (r: u64)
        ensures
            r == account_of_actor_bytes(self@),
    {
        (self.0[12] as u64) | (self.0[13] as u64) << 8u64 | (self.0[14] as u64) << 16u64 | (
        self.0[15] as u64) << 24u64 | (self.0[16] as u64) << 32u64 | (self.0[17] as u64) << 40u64
            | (self.0[18] as u64) << 48u64 | (self.0[19] as u64) << 56u64
    }
}

/// Byte `j` of the actor identifier that stands for `account`: zero outside
/// offsets 12 to 19, the little-endian account bytes inside them.
pub open spec fn account_byte_at(account: u64, j: int) -> u8 {
    if 12 <= j < 20 {
        (account >> ((j - 12) * 8)) as u8
    } else {
        0u8
    }
}

/// The 32 bytes of the actor identifier that stands for `account`.
pub open spec fn actor_bytes_of_account(account: u64) -> Seq<u8> {
    Seq::new(32, |j: int| account_byte_at(account, j))
}

/// The account read back from an actor identifier's bytes.
pub open spec fn account_of_actor_bytes(s: Seq<u8>) -> u64
    recommends
        s.len() == 32,
{
    (s[12] as u64) | (s[13] as u64) << 8 | (s[14] as u64) << 16 | (s[15] as u64) << 24 | (
    s[16] as u64) << 32 | (s[17] as u64) << 40 | (s[18] as u64) << 48 | (s[19] as u64) << 56
}

/// Round trip of the account embedding: reading the account back from the
/// identifier written for it returns that same account.
pub proof fn lemma_account_round_trip(account: u64)
    ensures
        account_of_actor_bytes(actor_bytes_of_account(account)) == account,
{
    let s = actor_bytes_of_account(account);
    let b0: u8 = s[12];
    let b1: u8 = s[13];
    let b2: u8 = s[14];
    let b3: u8 = s[15];
    let b4: u8 = s[16];
    let b5: u8 = s[17];
    let b6: u8 = s[18];
    let b7: u8 = s[19];
    assert((b0 as u64) | (b1 as u64) << 8 | (b2 as u64) << 16 | (b3 as u64) << 24 | (b4 as u64)
        << 32 | (b5 as u64) << 40 | (b6 as u64) << 48 | (b7 as u64) << 56 == account)
        by (bit_vector)
        requires
            b0 == (account >> 0) as u8,
            b1 == (account >> 8) as u8,
            b2 == (account >> 16) as u8,
            b3 == (account >> 24) as u8,
            b4 == (account >> 32) as u8,
            b5 == (account >> 40) as u8,
            b6 == (account >> 48) as u8,
            b7 == (account >> 56) as u8,
    ;
}

impl CodeId32 {
    /// Creates a code identifier from a 32-byte array.
    pub fn new(bytes: [u8; 32]) -> (r: Self)
        ensures
            r@ == bytes@,
    {
        CodeId32(bytes)
    }

    /// Returns the identifier as a byte array.
    pub fn as_bytes(&self) -> (r: &[u8; 32])
        ensures
            r@ == self@,
    {
        &self.0
    }

    /// True when both identifiers hold the same bytes.
    pub fn equals(&self, other: &CodeId32) -> (r: bool)
        ensures
            r == (self@ == other@),
    {
        bytes32_equal(&self.0, &other.0)
    }
}

impl MessageId32 {
    /// Creates a message identifier from a 32-byte array.
    pub fn new(bytes: [u8; 32]) -> (r: Self)
        ensures
            r@ == bytes@,
    {
        MessageId32(bytes)
    }

    /// Returns the identifier as a byte array.
    pub fn as_bytes(&self) -> (r: &[u8; 32])
        ensures
            r@ == self@,
    {
        &self.0
    }

    /// True when both identifiers hold the same bytes.
    pub fn equals(&self, other: &MessageId32) -> (r: bool)
        ensures
            r == (self@ == other@),
    {
        bytes32_equal(&self.0, &other.0)
    }

    /// The message identifier the model ledger assigns for the `nonce`-th
    /// queued message: the nonce's little-endian bytes in the first eight
    /// positions of an otherwise zero identifier.
    pub fn from_nonce(nonce: u64) -> (r: Self)
        ensures
            r@ == message_id_bytes_of_nonce(nonce),
    {
        let mut bytes: [u8; 32] = [0; 32];
        let mut k: usize = 0;
        while k < 8
            invariant
                k <= 8,
                bytes@.len() == 32,
                forall|j: int| 8 <= j < 32 ==> bytes@[j] == 0,
                forall|j: int| 0 <= j < k ==> bytes@[j] == nonce_byte_at(nonce, j),
            decreases 8 - k,
        {
            let shift: u64 = (8 * k) as u64;
            bytes[k] = (nonce >> shift) as u8;
            k = k + 1;
        }
        proof {
            assert(bytes@ =~= message_id_bytes_of_nonce(nonce));
        }
        MessageId32(bytes)
    }
}

/// Byte `j` of the model message identifier assigned from `nonce`.
pub open spec fn nonce_byte_at(nonce: u64, j: int) -> u8 {
    if 0 <= j < 8 {
        (nonce >> (j * 8)) as u8
    } else {
        0u8
    }
}

/// The 32 bytes of the model message identifier assigned from `nonce`.
pub open spec fn message_id_bytes_of_nonce(nonce: u64) -> Seq<u8> {
    Seq::new(32, |j: int| nonce_byte_at(nonce, j))
}

/// Message identifiers assigned from distinct nonces are distinct.
pub proof fn lemma_message_id_injective(n1: u64, n2: u64)
    requires
        n1 != n2,
    ensures
        message_id_bytes_of_nonce(n1) != message_id_bytes_of_nonce(n2),
{
    let s1 = message_id_bytes_of_nonce(n1);
    let s2 = message_id_bytes_of_nonce(n2);
    assert(!((n1 >> 0) as u8 == (n2 >> 0) as u8 && (n1 >> 8) as u8 == (n2 >> 8) as u8 && (n1
        >> 16) as u8 == (n2 >> 16) as u8 && (n1 >> 24) as u8 == (n2 >> 24) as u8 && (n1
        >> 32) as u8 == (n2 >> 32) as u8 && (n1 >> 40) as u8 == (n2 >> 40) as u8 && (n1
        >> 48) as u8 == (n2 >> 48) as u8 && (n1 >> 56) as u8 == (n2 >> 56) as u8)) by (bit_vector)
        requires
            n1 != n2,
    ;
    if s1 == s2 {
        assert(s1[0] == s2[0] && s1[1] == s2[1] && s1[2] == s2[2] && s1[3] == s2[3] && s1[4]
            == s2[4] && s1[5] == s2[5] && s1[6] == s2[6] && s1[7] == s2[7]);
        assert(s1[0] == (n1 >> 0) as u8 && s2[0] == (n2 >> 0) as u8);
        assert(s1[1] == (n1 >> 8) as u8 && s2[1] == (n2 >> 8) as u8);
        assert(s1[2] == (n1 >> 16) as u8 && s2[2] == (n2 >> 16) as u8);
        assert(s1[3] == (n1 >> 24) as u8 && s2[3] == (n2 >> 24) as u8);
        assert(s1[4] == (n1 >> 32) as u8 && s2[4] == (n2 >> 32) as u8);
        assert(s1[5] == (n1 >> 40) as u8 && s2[5] == (n2 >> 40) as u8);
        assert(s1[6] == (n1 >> 48) as u8 && s2[6] == (n2 >> 48) as u8);
        assert(s1[7] == (n1 >> 56) as u8 && s2[7] == (n2 >> 56) as u8);
        assert(false);
    }
}

/// Declares `gprimitives::ActorId`, the 32-byte actor identifier of the Gear
/// primitives crate, so that it can appear in signatures.
#[verifier::external_type_specification]
#[verifier::external_body]
pub struct ExActorId(gprimitives::ActorId);

impl ActorId32 {
    /// Relies on `gprimitives::ActorId::new`, which wraps the given 32-byte
    /// array unchanged.
    #[verifier::external_body]
    pub fn into_actor_id(self) -> gprimitives::ActorId {
        gprimitives::ActorId::new(self.0)
    }
}

/// What `gear_core` derives as the address of a program a user creates from
/// a code identifier and a salt.
pub uninterp spec fn user_program_address(code_id: Seq<u8>, salt: Seq<u8>) -> Seq<u8>;

/// Relies on `gear_core::ids::prelude::ActorIdExt::generate_from_user`: a
/// BLAKE2b-256 digest over a fixed tag, the code identifier and the salt —
/// a function of its arguments alone, 32 bytes long.
#[verifier::external_body]
pub fn derive_program_address(code_id: &CodeId32, salt: &Vec<u8>) -> (r: ActorId32)
    ensures
        r@ == user_program_address(code_id@, salt@),
        r@.len() == 32,
{
    let id = <gprimitives::ActorId as gear_core::ids::prelude::ActorIdExt>::generate_from_user(
        gprimitives::CodeId::new(code_id.0),
        salt.as_slice(),
    );
    ActorId32(id.into_bytes())
}

/// What `gear_core` derives as the code identifier of a wasm blob.
pub uninterp spec fn code_digest(wasm: Seq<u8>) -> Seq<u8>;

/// Relies on `gear_core::ids::prelude::CodeIdExt::generate`: the BLAKE2b-256
/// digest of the code — a function of the bytes alone, 32 bytes long.
#[verifier::external_body]
pub fn derive_code_id(wasm: &Vec<u8>) -> (r: CodeId32)
    ensures
        r@ == code_digest(wasm@),
        r@.len() == 32,
{
    let id = <gprimitives::CodeId as gear_core::ids::prelude::CodeIdExt>::generate(
        wasm.as_slice(),
    );
    CodeId32(id.into_bytes())
}

/// Copies a byte vector.
pub fn copy_bytes(v: &Vec<u8>) -> (r: Vec<u8>)
    ensures
        r@ == v@,
{
    let mut r: Vec<u8> = Vec::new();
    let mut i: usize = 0;
    while i < v.len()
        invariant
            i <= v.len(),
            r@ == v@.subrange(0, i as int),
        decreases v.len() - i,
    {
        r.push(v[i]);
        proof {
            assert(r@ =~= v@.subrange(0, i + 1));
        }
        i = i + 1;
    }
    proof {
        assert(r@ =~= v@);
    }
    r
}

/// Appends the bytes of `src` to `dst`.
pub fn append_bytes(dst: &mut Vec<u8>, src: &Vec<u8>)
    ensures
        final(dst)@ == old(dst)@ + src@,
{
    let ghost orig = dst@;
    let mut i: usize = 0;
    while i < src.len()
        invariant
            i <= src.len(),
            dst@ == orig + src@.subrange(0, i as int),
        decreases src.len() - i,
    {
        dst.push(src[i]);
        proof {
            assert(dst@ =~= orig + src@.subrange(0, i + 1));
        }
        i = i + 1;
    }
    proof {
        assert(dst@ =~= orig + src@);
    }
}

} // verus!
