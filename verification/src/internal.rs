//! Internal helpers: royalty payout, storage accounting, access guards and
//! the hashed owner namespacing.
use vstd::prelude::*;

use crate::errors::NftError;
use crate::metadata::{Token, TokenId, TokenMetadata};
use crate::{Contract, OwnerTokens};

verus! {

// ---------------------------------------------------------------------------
// Storage accounting
// ---------------------------------------------------------------------------

/// The storage growth a mutation is charged for: the raw footprint delta,
/// clamped to zero when the mutation freed storage (freed space is
/// zero-cost, never a credit).
pub open spec fn spec_storage_delta(bytes_before: int, bytes_after: int) -> int {
    if bytes_after >= bytes_before {
        bytes_after - bytes_before
    } else {
        0
    }
}

/// What a mutation costs: the clamped footprint delta priced per byte.
pub open spec fn spec_required_cost(bytes_before: int, bytes_after: int, byte_cost: int) -> int {
    spec_storage_delta(bytes_before, bytes_after) * byte_cost
}

/// The refund owed once `required` has been charged against `attached`:
/// the full surplus, paid out only when it exceeds the one-unit dust
/// threshold (a smaller refund would cost more to transfer than it is worth).
pub open spec fn spec_refund(required: int, attached: int) -> Option<u128>
    recommends
        0 <= required <= attached <= u128::MAX,
{
    if attached - required > 1 {
        Some((attached - required) as u128)
    } else {
        None
    }
}

/// The whole accounting decision on one mutation: reject an attached deposit
/// below the required cost (naming the exact amount), otherwise refund the
/// surplus above the dust threshold.
pub open spec fn spec_reconcile(required: int, attached: int) -> Result<Option<u128>, NftError>
    recommends
        0 <= required <= u128::MAX,
        0 <= attached <= u128::MAX,
{
    if attached < required {
        Err(NftError::InsufficientDeposit { required: required as u128 })
    } else {
        Ok(spec_refund(required, attached))
    }
}

/// Clamped storage-footprint delta of a mutation, measured by the host
/// immediately before and after it.
pub fn storage_delta(bytes_before: u64, bytes_after: u64) -> (r: u64)
    ensures
        r == spec_storage_delta(bytes_before as int, bytes_after as int),
{
    if bytes_after >= bytes_before {
        bytes_after - bytes_before
    } else {
        0
    }
}

/// Charges the caller for `storage_used` bytes at `byte_cost` per byte.
/// Fails when the attached deposit does not cover the required cost; on
/// success returns `Some(refund)` exactly when a transfer of the surplus is
/// owed to the caller.
pub fn refund_deposit(storage_used: u64, byte_cost: u128, attached_deposit: u128) -> (r: Result<
    Option<u128>,
    NftError,
>)
    requires
        storage_used as int * byte_cost as int <= u128::MAX as int,
    ensures
        r == spec_reconcile(storage_used as int * byte_cost as int, attached_deposit as int),
{
    let required_cost: u128 = (storage_used as u128) * byte_cost;
    if attached_deposit < required_cost {
        return Err(NftError::InsufficientDeposit { required: required_cost });
    }
    let refund = attached_deposit - required_cost;
    if refund > 1 {
        Ok(Some(refund))
    } else {
        Ok(None)
    }
}

/// Law: the required cost is non-decreasing in the measured footprint delta,
/// and a mutation that shrank storage costs nothing.
pub proof fn lemma_required_cost_monotone(
    b1: int,
    a1: int,
    b2: int,
    a2: int,
    byte_cost: int,
)
    requires
        byte_cost >= 0,
        a1 - b1 <= a2 - b2,
    ensures
        spec_required_cost(b1, a1, byte_cost) <= spec_required_cost(b2, a2, byte_cost),
        a1 < b1 ==> spec_required_cost(b1, a1, byte_cost) == 0,
{
    assert(spec_storage_delta(b1, a1) <= spec_storage_delta(b2, a2));
    vstd::arithmetic::mul::lemma_mul_inequality(
        spec_storage_delta(b1, a1),
        spec_storage_delta(b2, a2),
        byte_cost,
    );
}

/// Law: when the caller attaches `required + k`, the caller is transferred
/// back exactly `k` if `k` exceeds the one-unit dust threshold, and nothing
/// is transferred when `k` is zero or one.
pub proof fn lemma_exact_refund(required: int, k: int)
    requires
        0 <= required,
        0 <= k,
        required + k <= u128::MAX,
    ensures
        k > 1 ==> spec_refund(required, required + k) == Some(k as u128),
        k <= 1 ==> spec_refund(required, required + k) is None,
        spec_reconcile(required, required + k) == Ok::<Option<u128>, NftError>(
            spec_refund(required, required + k),
        ),
{
}

// ---------------------------------------------------------------------------
// Royalty payout
// ---------------------------------------------------------------------------

/// Payout of a basis-point share of an amount, rounded down.
pub open spec fn spec_payout(royalty_percentage: int, amount_to_pay: int) -> int {
    royalty_percentage * amount_to_pay / 10_000
}

/// Law: a zero share pays nothing and the full 10 000 basis points pay the
/// whole amount.
pub proof fn lemma_payout_boundaries(amount_to_pay: int)
    requires
        amount_to_pay >= 0,
    ensures
        spec_payout(0, amount_to_pay) == 0,
        spec_payout(10_000, amount_to_pay) == amount_to_pay,
{
    assert(10_000 * amount_to_pay / 10_000 == amount_to_pay) by (nonlinear_arith);
}

// ---------------------------------------------------------------------------
// Access guards
// ---------------------------------------------------------------------------

/// Rejects a privileged call that attached no payment at all: a spam and
/// storage-griefing deterrent, independent of the exact storage accounting.
pub fn require_at_least_one_yocto(attached_deposit: u128) -> (r: Result<(), NftError>)
    ensures
        r == (if attached_deposit >= 1 {
            Ok::<(), NftError>(())
        } else {
            Err::<(), NftError>(NftError::PaymentRequired)
        }),
{
    if attached_deposit >= 1 {
        Ok(())
    } else {
        Err(NftError::PaymentRequired)
    }
}

// ---------------------------------------------------------------------------
// Approval-entry sizing
// ---------------------------------------------------------------------------

/// Storage bytes one approval entry takes: the account identifier's byte
/// length, four bytes of length prefix, and an eight-byte sequence number.
pub fn bytes_for_approved_account_id(account_id: &String) -> (r: u64)
    requires
        vstd::utf8::encode_utf8(account_id@).len() <= usize::MAX,
        vstd::utf8::encode_utf8(account_id@).len() + 12 <= u64::MAX,
    ensures
        r == vstd::utf8::encode_utf8(account_id@).len() + 4 + 8,
{
    account_id.as_str().len() as u64 + 4 + 8
}

// ---------------------------------------------------------------------------
// Owner namespacing
// ---------------------------------------------------------------------------

/// The SHA-256 digest of an account identifier's bytes, by name only: the
/// same identifier always yields the same digest.
pub uninterp spec fn sha256_of(account_id: Seq<char>) -> Seq<u8>;

/// Relies on `near_sdk::env::sha256`: the SHA-256 digest of the given bytes,
/// 32 bytes long, a function of the input alone.
#[verifier::external_body]
pub fn hash_account_id(account_id: &String) -> (r: Vec<u8>)
    ensures
        r@ == sha256_of(account_id@),
        r@.len() == 32,
{
    near_sdk::env::sha256(account_id.as_bytes())
}

// ---------------------------------------------------------------------------
// Owner-index entries
// ---------------------------------------------------------------------------

pub proof fn lemma_ids_index(v: Vec<String>, i: int)
    requires
        0 <= i < v@.len(),
    ensures
        v.deep_view().len() == v@.len(),
        v.deep_view()[i] == v@[i]@,
{
    assert(v.deep_view()[i] == v@[i].deep_view());
}

/// A copy of a string list with the very same elements.
pub fn clone_strings(v: &Vec<String>) -> (r: Vec<String>)
    ensures
        r@ == v@,
{
    let mut r: Vec<String> = Vec::new();
    let mut i: usize = 0;
    while i < v.len()
        invariant
            i <= v.len(),
            r@ == v@.take(i as int),
        decreases v.len() - i,
    {
        r.push(v[i].clone());
        proof {
            assert(v@.take(i as int + 1) =~= v@.take(i as int).push(v@[i as int]));
        }
        i = i + 1;
    }
    proof {
        assert(v@.take(v@.len() as int) =~= v@);
    }
    r
}

impl OwnerTokens {
    /// Whether this owner's set holds `token_id`.
    pub fn contains_token(&self, token_id: &String) -> (r: bool)
        ensures
            r == self.has(token_id@),
    {
        let mut i: usize = 0;
        while i < self.token_ids.len()
            invariant
                i <= self.token_ids.len(),
                forall|j: int| 0 <= j < i ==> self.ids()[j] != token_id@,
                self.ids().len() == self.token_ids@.len(),
            decreases self.token_ids.len() - i,
        {
            proof {
                lemma_ids_index(self.token_ids, i as int);
            }
            if self.token_ids[i] == *token_id {
                assert(self.ids()[i as int] == token_id@);
                return true;
            }
            i = i + 1;
        }
        proof {
            if self.has(token_id@) {
                let k = choose|k: int| 0 <= k < self.ids().len() && self.ids()[k] == token_id@;
                assert(self.ids()[k] != token_id@);
            }
        }
        false
    }

    /// Adds `token_id` to the set; idempotent when already present.
    pub fn insert_token(&mut self, token_id: String)
        ensures
            final(self).namespace == old(self).namespace,
            old(self).has(token_id@) ==> final(self).ids() == old(self).ids(),
            !old(self).has(token_id@) ==> final(self).ids() == old(self).ids().push(token_id@),
            forall|t: Seq<char>|
                #[trigger] final(self).has(t) <==> (old(self).has(t) || t == token_id@),
            old(self).wf() ==> final(self).wf(),
            final(self).ids().len() >= 1 || final(self).ids().len() >= old(self).ids().len(),
    {
        broadcast use vstd::seq_lib::lemma_seq_contains_after_push;

        if !self.contains_token(&token_id) {
            let ghost old_ids = self.ids();
            let ghost id_view = token_id@;
            self.token_ids.push(token_id);
            proof {
                assert forall|i: int| 0 <= i < self.token_ids@.len() implies self.ids()[i] == (
                if i < old_ids.len() {
                    old_ids[i]
                } else {
                    id_view
                }) by {
                    lemma_ids_index(self.token_ids, i);
                }
                assert(self.ids() =~= old_ids.push(id_view));
            }
        } else {
            proof {
                assert(self.has(token_id@));
            }
        }
    }

    /// Removes `token_id` from the set if present; leaves the set unchanged
    /// otherwise.
    pub fn remove_token(&mut self, token_id: &String)
        requires
            old(self).wf(),
        ensures
            final(self).namespace == old(self).namespace,
            !old(self).has(token_id@) ==> final(self).ids() == old(self).ids(),
            old(self).has(token_id@) ==> final(self).ids().len() == old(self).ids().len() - 1,
            forall|t: Seq<char>|
                #[trigger] final(self).has(t) <==> (old(self).has(t) && t != token_id@),
            final(self).ids().len() > 0 ==> final(self).wf(),
    {
        let mut i: usize = 0;
        let ghost old_ids = self.ids();
        while i < self.token_ids.len()
            invariant
                i <= self.token_ids.len(),
                *self == *old(self),
                old(self).wf(),
                old_ids == old(self).ids(),
                forall|j: int| 0 <= j < i ==> self.ids()[j] != token_id@,
                self.ids().len() == self.token_ids@.len(),
            decreases self.token_ids.len() - i,
        {
            proof {
                lemma_ids_index(self.token_ids, i as int);
            }
            if self.token_ids[i] == *token_id {
                self.token_ids.remove(i);
                proof {
                    assert forall|k: int| 0 <= k < self.token_ids@.len() implies self.ids()[k] == (
                    if k < i as int {
                        old_ids[k]
                    } else {
                        old_ids[k + 1]
                    }) by {
                        lemma_ids_index(self.token_ids, k);
                        lemma_ids_index(old(self).token_ids, if k < i as int {
                            k
                        } else {
                            k + 1
                        });
                    }
                    assert(self.ids() =~= old_ids.remove(i as int));
                    assert(old_ids[i as int] == token_id@);
                    assert forall|a: int, b: int|
                        0 <= a < b < self.ids().len() implies self.ids()[a] != self.ids()[b] by {
                        let oa = if a < i as int { a } else { a + 1 };
                        let ob = if b < i as int { b } else { b + 1 };
                        assert(self.ids()[a] == old_ids[oa]);
                        assert(self.ids()[b] == old_ids[ob]);
                        assert(old_ids[oa] != old_ids[ob]);
                    }
                    assert forall|t: Seq<char>| #[trigger]
                        self.has(t) <==> (old_ids.contains(t) && t != token_id@) by {
                        if self.has(t) {
                            let k = choose|k: int|
                                0 <= k < self.ids().len() && self.ids()[k] == t;
                            if k < i as int {
                                assert(old_ids[k] == t);
                                assert(old_ids.contains(t));
                                assert(t != token_id@);
                            } else {
                                assert(old_ids[k + 1] == t);
                                assert(old_ids.contains(t));
                                assert(t != token_id@);
                            }
                        }
                        if old_ids.contains(t) && t != token_id@ {
                            let k = choose|k: int| 0 <= k < old_ids.len() && old_ids[k] == t;
                            if k < i as int {
                                assert(self.ids()[k] == t);
                            } else {
                                assert(k != i);
                                assert(self.ids()[k - 1] == t);
                            }
                            assert(self.has(t));
                        }
                    }
                }
                return ;
            }
            i = i + 1;
        }
        proof {
            if self.has(token_id@) {
                let k = choose|k: int| 0 <= k < self.ids().len() && self.ids()[k] == token_id@;
                assert(self.ids()[k] != token_id@);
            }
        }
    }
}

} // verus!

verus! {

/// A copy of an owner entry with the same namespace bytes and token ids.
pub fn clone_owner_tokens(e: &OwnerTokens) -> (r: OwnerTokens)
    ensures
        r.namespace@ == e.namespace@,
        r.ids() == e.ids(),
        r.ids().len() == e.ids().len(),
{
    let r = OwnerTokens {
        namespace: crate::metadata::clone_bytes(&e.namespace),
        token_ids: clone_strings(&e.token_ids),
    };
    proof {
        assert forall|i: int| 0 <= i < r.token_ids@.len() implies r.ids()[i] == e.ids()[i] by {
            lemma_ids_index(r.token_ids, i);
            lemma_ids_index(e.token_ids, i);
        }
        assert(r.ids() =~= e.ids());
    }
    r
}

impl Contract {
    /// Rejects any caller other than the administrator.
    pub fn require_owner(&self, caller: &String) -> (r: Result<(), NftError>)
        ensures
            r == (if caller@ == self.owner_id@ {
                Ok::<(), NftError>(())
            } else {
                Err::<(), NftError>(NftError::Unauthorized)
            }),
    {
        if *caller == self.owner_id {
            Ok(())
        } else {
            Err(NftError::Unauthorized)
        }
    }

    /// Adds `token_id` to `account_id`'s set in the owner index, creating the
    /// set under its hashed namespace when the account holds nothing yet.
    /// Idempotent when the token is already recorded there.
    pub fn internal_add_token_to_owner(&mut self, account_id: &String, token_id: &TokenId)
        requires
            old(self).index_wf(),
        ensures
            final(self).index_wf(),
            final(self).tokens_per_owner@.dom() =~= old(self).tokens_per_owner@.dom().insert(
                account_id@,
            ),
            forall|o: Seq<char>, t: Seq<char>|
                #![trigger final(self).index_has(o, t)]
                #![trigger old(self).index_has(o, t)]
                final(self).index_has(o, t) <==> (old(self).index_has(o, t) || (o == account_id@
                    && t == token_id@)),
            forall|o: Seq<char>|
                o != account_id@ && #[trigger] old(self).tokens_per_owner@.contains_key(o)
                    ==> final(self).tokens_per_owner@[o] == old(self).tokens_per_owner@[o],
            old(self).tokens_per_owner@.contains_key(account_id@) ==> final(self).tokens_per_owner@[account_id@].namespace@ == old(self).tokens_per_owner@[account_id@].namespace@,
            !old(self).tokens_per_owner@.contains_key(account_id@) ==> final(self).tokens_per_owner@[account_id@].namespace@ == crate::spec_owner_namespace(account_id@),
            old(self).index_has(account_id@, token_id@) ==> final(self).tokens_per_owner@[account_id@].ids() == old(self).tokens_per_owner@[account_id@].ids(),
            old(self).tokens_per_owner@.contains_key(account_id@) && !old(self).index_has(
                account_id@,
                token_id@,
            ) ==> final(self).tokens_per_owner@[account_id@].ids() == old(self).tokens_per_owner@[account_id@].ids().push(token_id@),
            !old(self).tokens_per_owner@.contains_key(account_id@) ==> final(self).tokens_per_owner@[account_id@].ids() =~= seq![token_id@],
            final(self).tokens_by_id == old(self).tokens_by_id,
            final(self).token_metadata_by_id == old(self).token_metadata_by_id,
            final(self).owner_id == old(self).owner_id,
            final(self).metadata == old(self).metadata,
    {
        let existing: Option<OwnerTokens> = match self.tokens_per_owner.get(account_id.as_str()) {
            Some(e) => Some(clone_owner_tokens(e)),
            None => None,
        };
        match existing {
            Some(mut entry) => {
                proof {
                    assert(old(self).tokens_per_owner@[account_id@].wf());
                }
                entry.insert_token(token_id.clone());
                self.tokens_per_owner.insert(account_id.clone(), entry);
            },
            None => {
                let namespace = crate::owner_namespace_key(account_id);
                let mut token_ids: Vec<String> = Vec::new();
                token_ids.push(token_id.clone());
                let entry = OwnerTokens { namespace, token_ids };
                proof {
                    lemma_ids_index(entry.token_ids, 0);
                    assert(entry.ids() =~= seq![token_id@]);
                    assert(entry.wf());
                }
                self.tokens_per_owner.insert(account_id.clone(), entry);
            },
        }
    }

    /// Removes `token_id` from `account_id`'s set in the owner index. Fails
    /// with `InvariantViolation` (state corruption, never a user input error)
    /// when the account has no set at all. When the last token leaves, the
    /// whole entry is deleted rather than kept empty, so the index grows only
    /// with the owners that hold at least one token.
    pub fn internal_remove_token_from_owner(&mut self, account_id: &String, token_id: &TokenId) -> (r:
        Result<(), NftError>)
        requires
            old(self).index_wf(),
        ensures
            final(self).index_wf(),
            r is Err ==> {
                &&& r == Err::<(), NftError>(NftError::InvariantViolation)
                &&& *final(self) == *old(self)
                &&& !old(self).tokens_per_owner@.contains_key(account_id@)
            },
            r is Ok ==> {
                &&& old(self).tokens_per_owner@.contains_key(account_id@)
                &&& forall|o: Seq<char>, t: Seq<char>|
                    #![trigger final(self).index_has(o, t)]
                    #![trigger old(self).index_has(o, t)]
                    final(self).index_has(o, t) <==> (old(self).index_has(o, t) && !(o
                        == account_id@ && t == token_id@))
                &&& (old(self).tokens_per_owner@[account_id@].ids() =~= seq![token_id@]
                    ==> !final(self).tokens_per_owner@.contains_key(account_id@))
                &&& forall|o: Seq<char>|
                    o != account_id@ && #[trigger] old(self).tokens_per_owner@.contains_key(o)
                        ==> final(self).tokens_per_owner@[o] == old(self).tokens_per_owner@[o]
                &&& final(self).tokens_by_id == old(self).tokens_by_id
                &&& final(self).token_metadata_by_id == old(self).token_metadata_by_id
                &&& final(self).owner_id == old(self).owner_id
                &&& final(self).metadata == old(self).metadata
            },
    {
        let existing: Option<OwnerTokens> = match self.tokens_per_owner.get(account_id.as_str()) {
            Some(e) => Some(clone_owner_tokens(e)),
            None => None,
        };
        match existing {
            None => Err(NftError::InvariantViolation),
            Some(mut entry) => {
                proof {
                    assert(old(self).tokens_per_owner@[account_id@].wf());
                }
                entry.remove_token(token_id);
                if entry.token_ids.len() == 0 {
                    proof {
                        assert(entry.ids().len() == 0);
                        assert(old(self).tokens_per_owner@[account_id@].has(token_id@));
                        assert(old(self).tokens_per_owner@[account_id@].ids() =~= seq![token_id@]);
                    }
                    self.tokens_per_owner.remove(account_id.as_str());
                } else {
                    proof {
                        assert(entry.ids().len() > 0);
                        if old(self).tokens_per_owner@[account_id@].ids() =~= seq![token_id@] {
                            assert(old(self).tokens_per_owner@[account_id@].ids()[0]
                                == token_id@);
                            assert(old(self).tokens_per_owner@[account_id@].has(token_id@));
                            assert(false);
                        }
                    }
                    self.tokens_per_owner.insert(account_id.clone(), entry);
                }
                Ok(())
            },
        }
    }

    /// Records a newly created token: the token record, its metadata record
    /// and the owner-index entry are created together, so the index bijection
    /// and the pairing of the two stores hold from the moment the token
    /// exists.
    pub fn add_token(&mut self, token_id: TokenId, token: Token, token_metadata: TokenMetadata)
        requires
            old(self).wf(),
            !old(self).tokens_by_id@.contains_key(token_id@),
        ensures
            final(self).wf(),
            final(self).tokens_by_id@ == old(self).tokens_by_id@.insert(token_id@, token),
            final(self).token_metadata_by_id@ == old(self).token_metadata_by_id@.insert(
                token_id@,
                token_metadata,
            ),
            forall|o: Seq<char>, t: Seq<char>|
                #![trigger final(self).index_has(o, t)]
                #![trigger old(self).index_has(o, t)]
                final(self).index_has(o, t) <==> (old(self).index_has(o, t) || (o
                    == token.owner_id@ && t == token_id@)),
            final(self).owner_id == old(self).owner_id,
            final(self).metadata == old(self).metadata,
    {
        let owner = token.owner_id.clone();
        self.tokens_by_id.insert(token_id.clone(), token);
        self.token_metadata_by_id.insert(token_id.clone(), token_metadata);
        proof {
            assert(self.index_wf());
        }
        self.internal_add_token_to_owner(&owner, &token_id);
        proof {
            assert forall|o: Seq<char>, t: Seq<char>| #[trigger]
                final(self).index_has(o, t) implies final(self).owner_of(t, o) by {
                if o == token.owner_id@ && t == token_id@ {
                    assert(final(self).tokens_by_id@.contains_key(token_id@));
                } else {
                    assert(old(self).index_has(o, t));
                    assert(old(self).owner_of(t, o));
                    assert(t != token_id@);
                }
            }
            assert forall|o: Seq<char>, t: Seq<char>| #[trigger]
                final(self).owner_of(t, o) implies final(self).index_has(o, t) by {
                if t == token_id@ {
                    assert(o == token.owner_id@);
                } else {
                    assert(old(self).owner_of(t, o));
                    assert(old(self).index_has(o, t));
                }
            }
            assert(final(self).index_bijective());
            assert(final(self).stores_paired());
        }
    }
}

} // verus!
