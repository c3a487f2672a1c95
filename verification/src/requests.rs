//! Messages to the staking built-in actor: a partial mirror of the staking
//! interface, with a verified encoder producing the exact wire bytes — each
//! variant's index byte followed by its fields, amounts little-endian,
//! target lists behind a compact length prefix.

use vstd::prelude::*;
use crate::ids::ActorId32;

verus! {

/// A request to the staking built-in actor.
#[derive(Clone, Debug)]
pub enum Request {
    /// Bond up to `value` from the sender to self as the controller.
    Bond { value: u128, payee: RewardAccount },
    /// Add up to `value` to the sender's bonded amount.
    BondExtra { value: u128 },
    /// Unbond up to `value` to allow withdrawal after the unbonding period.
    Unbond { value: u128 },
    /// Withdraw unbonded chunks whose unbonding period has elapsed.
    WithdrawUnbonded { num_slashing_spans: u32 },
    /// Nominate `targets`, or update the existing targets.
    Nominate { targets: Vec<ActorId32> },
    /// Temporarily stop nominating while staying bonded.
    Chill,
    /// Request a stakers payout for the given era.
    PayoutStakers { validator_stash: ActorId32, era: u32 },
    /// Rebond a portion of the stash scheduled to be unlocked.
    Rebond { value: u128 },
    /// Set the reward destination.
    SetPayee { payee: RewardAccount },
}

/// Where staking rewards accumulate.
#[derive(Clone, Copy, Debug)]
pub enum RewardAccount {
    /// Pay to the sender's account and increase the amount at stake.
    Staked,
    /// Pay to the program's account without increasing the stake.
    Program,
    /// Pay to a custom account.
    Custom(ActorId32),
    /// Opt out of rewards.
    NoReward,
}

/// The little-endian bytes of a 32-bit amount.
pub open spec fn le_bytes_u32(v: u32) -> Seq<u8> {
    seq![(v >> 0) as u8, (v >> 8) as u8, (v >> 16) as u8, (v >> 24) as u8]
}

/// The little-endian bytes of a 128-bit amount.
pub open spec fn le_bytes_u128(v: u128) -> Seq<u8> {
    seq![
        (v >> 0) as u8,
        (v >> 8) as u8,
        (v >> 16) as u8,
        (v >> 24) as u8,
        (v >> 32) as u8,
        (v >> 40) as u8,
        (v >> 48) as u8,
        (v >> 56) as u8,
        (v >> 64) as u8,
        (v >> 72) as u8,
        (v >> 80) as u8,
        (v >> 88) as u8,
        (v >> 96) as u8,
        (v >> 104) as u8,
        (v >> 112) as u8,
        (v >> 120) as u8,
    ]
}

/// The canonical compact encoding of a 32-bit length: one, two, four or five
/// bytes depending on its size, the two low bits of the first byte naming
/// the mode.
pub open spec fn compact_bytes_u32(n: u32) -> Seq<u8> {
    if n < 64 {
        seq![(n << 2) as u8]
    } else if n < 16384 {
        seq![((n << 2) | 1) as u8, (((n << 2) | 1) >> 8) as u8]
    } else if n < 1073741824 {
        seq![
            ((n << 2) | 2) as u8,
            (((n << 2) | 2) >> 8) as u8,
            (((n << 2) | 2) >> 16) as u8,
            (((n << 2) | 2) >> 24) as u8,
        ]
    } else {
        seq![3u8] + le_bytes_u32(n)
    }
}

/// The wire bytes of a reward destination.
pub open spec fn reward_account_scale(a: RewardAccount) -> Seq<u8> {
    match a {
        RewardAccount::Staked => seq![0u8],
        RewardAccount::Program => seq![1u8],
        RewardAccount::Custom(id) => seq![2u8] + id@,
        RewardAccount::NoReward => seq![3u8],
    }
}

/// The wire bytes of a list of actor identifiers, back to front.
pub open spec fn ids_scale(s: Seq<ActorId32>) -> Seq<u8>
    decreases s.len(),
{
    if s.len() == 0 {
        Seq::empty()
    } else {
        ids_scale(s.drop_last()) + s.last()@
    }
}

/// The wire bytes of a staking request: the variant's index byte, then its
/// fields.
pub open spec fn request_scale(r: &Request) -> Seq<u8> {
    match r {
        Request::Bond { value, payee } => seq![0u8] + le_bytes_u128(*value)
            + reward_account_scale(*payee),
        Request::BondExtra { value } => seq![1u8] + le_bytes_u128(*value),
        Request::Unbond { value } => seq![2u8] + le_bytes_u128(*value),
        Request::WithdrawUnbonded { num_slashing_spans } => seq![3u8] + le_bytes_u32(
            *num_slashing_spans,
        ),
        Request::Nominate { targets } => seq![4u8] + compact_bytes_u32(targets@.len() as u32)
            + ids_scale(targets@),
        Request::Chill => seq![5u8],
        Request::PayoutStakers { validator_stash, era } => seq![6u8] + validator_stash@
            + le_bytes_u32(*era),
        Request::Rebond { value } => seq![7u8] + le_bytes_u128(*value),
        Request::SetPayee { payee } => seq![8u8] + reward_account_scale(*payee),
    }
}

/// Appends the little-endian bytes of a 32-bit amount.
fn push_u32_le(out: &mut Vec<u8>, v: u32)
    ensures
        final(out)@ == old(out)@ + le_bytes_u32(v),
{
    out.push((v >> 0u32) as u8);
    out.push((v >> 8u32) as u8);
    out.push((v >> 16u32) as u8);
    out.push((v >> 24u32) as u8);
    proof {
        assert(out@ =~= old(out)@ + le_bytes_u32(v));
    }
}

/// Appends the little-endian bytes of a 128-bit amount.
fn push_u128_le(out: &mut Vec<u8>, v: u128)
    ensures
        final(out)@ == old(out)@ + le_bytes_u128(v),
{
    let mut k: u32 = 0;
    while k < 16
        invariant
            k <= 16,
            out@.len() == old(out)@.len() + k,
            forall|j: int| 0 <= j < old(out)@.len() ==> out@[j] == old(out)@[j],
            forall|j: int|
                0 <= j < k ==> out@[old(out)@.len() + j] == le_bytes_u128(v)[j],
        decreases 16 - k,
    {
        proof {
            assert(le_bytes_u128(v)[k as int] == (v >> (k * 8)) as u8);
        }
        out.push((v >> ((k * 8) as u128)) as u8);
        k = k + 1;
    }
    proof {
        assert(out@ =~= old(out)@ + le_bytes_u128(v));
    }
}

/// Appends the canonical compact encoding of a 32-bit length.
fn push_compact_u32(out: &mut Vec<u8>, n: u32)
    ensures
        final(out)@ == old(out)@ + compact_bytes_u32(n),
{
    if n < 64 {
        out.push((n << 2u32) as u8);
    } else if n < 16384 {
        let v: u32 = (n << 2u32) | 1;
        out.push(v as u8);
        out.push((v >> 8u32) as u8);
    } else if n < 1073741824 {
        let v: u32 = (n << 2u32) | 2;
        out.push(v as u8);
        out.push((v >> 8u32) as u8);
        out.push((v >> 16u32) as u8);
        out.push((v >> 24u32) as u8);
    } else {
        out.push(3);
        push_u32_le(out, n);
    }
    proof {
        assert(out@ =~= old(out)@ + compact_bytes_u32(n));
    }
}

/// Appends the wire bytes of a reward destination.
fn push_reward_account(out: &mut Vec<u8>, a: &RewardAccount)
    ensures
        final(out)@ == old(out)@ + reward_account_scale(*a),
{
    match a {
        RewardAccount::Staked => {
            out.push(0);
        },
        RewardAccount::Program => {
            out.push(1);
        },
        RewardAccount::Custom(id) => {
            out.push(2);
            let bytes = id.as_bytes();
            let mut i: usize = 0;
            while i < 32
                invariant
                    i <= 32,
                    bytes@ == id@,
                    out@.len() == old(out)@.len() + 1 + i,
                    forall|j: int| 0 <= j < old(out)@.len() + 1 ==> out@[j] == old(out)@.push(2u8)[j],
                    forall|j: int| 0 <= j < i ==> out@[old(out)@.len() + 1 + j] == id@[j],
                decreases 32 - i,
            {
                out.push(bytes[i]);
                i = i + 1;
            }
        },
        RewardAccount::NoReward => {
            out.push(3);
        },
    }
    proof {
        assert(out@ =~= old(out)@ + reward_account_scale(*a));
    }
}

impl Request {
    /// The wire bytes of this request, as the staking built-in actor decodes
    /// them.
    pub fn encode(&self) -> (r: Vec<u8>)
        requires
            (self matches Request::Nominate { targets } ==> targets@.len() <= u32::MAX),
        ensures
            r@ == request_scale(self),
    {
        let mut out: Vec<u8> = Vec::new();
        match self {
            Request::Bond { value, payee } => {
                out.push(0);
                push_u128_le(&mut out, *value);
                push_reward_account(&mut out, payee);
            },
            Request::BondExtra { value } => {
                out.push(1);
                push_u128_le(&mut out, *value);
            },
            Request::Unbond { value } => {
                out.push(2);
                push_u128_le(&mut out, *value);
            },
            Request::WithdrawUnbonded { num_slashing_spans } => {
                out.push(3);
                push_u32_le(&mut out, *num_slashing_spans);
            },
            Request::Nominate { targets } => {
                out.push(4);
                push_compact_u32(&mut out, targets.len() as u32);
                let ghost prefix = out@;
                let mut i: usize = 0;
                while i < targets.len()
                    invariant
                        i <= targets@.len(),
                        out@ == prefix + ids_scale(targets@.take(i as int)),
                    decreases targets@.len() - i,
                {
                    let bytes = targets[i].as_bytes();
                    let ghost mid = out@;
                    let mut j: usize = 0;
                    while j < 32
                        invariant
                            j <= 32,
                            i < targets@.len(),
                            bytes@ == targets@[i as int]@,
                            out@.len() == mid.len() + j,
                            forall|k: int| 0 <= k < mid.len() ==> out@[k] == mid[k],
                            forall|k: int| 0 <= k < j ==> out@[mid.len() + k] == targets@[i as int]@[k],
                        decreases 32 - j,
                    {
                        out.push(bytes[j]);
                        j = j + 1;
                    }
                    proof {
                        assert(targets@.take(i + 1).drop_last() =~= targets@.take(i as int));
                        assert(out@ =~= mid + targets@[i as int]@);
                        assert(out@ =~= prefix + ids_scale(targets@.take(i + 1)));
                    }
                    i = i + 1;
                }
                proof {
                    assert(targets@.take(targets@.len() as int) =~= targets@);
                }
            },
            Request::Chill => {
                out.push(5);
            },
            Request::PayoutStakers { validator_stash, era } => {
                out.push(6);
                let bytes = validator_stash.as_bytes();
                let ghost mid = out@;
                let mut j: usize = 0;
                while j < 32
                    invariant
                        j <= 32,
                        bytes@ == validator_stash@,
                        out@.len() == mid.len() + j,
                        forall|k: int| 0 <= k < mid.len() ==> out@[k] == mid[k],
                        forall|k: int| 0 <= k < j ==> out@[mid.len() + k] == validator_stash@[k],
                    decreases 32 - j,
                {
                    out.push(bytes[j]);
                    j = j + 1;
                }
                proof {
                    assert(out@ =~= mid + validator_stash@);
                }
                push_u32_le(&mut out, *era);
            },
            Request::Rebond { value } => {
                out.push(7);
                push_u128_le(&mut out, *value);
            },
            Request::SetPayee { payee } => {
                out.push(8);
                push_reward_account(&mut out, payee);
            },
        }
        proof {
            assert(out@ =~= request_scale(self));
        }
        out
    }
}

} // verus!
