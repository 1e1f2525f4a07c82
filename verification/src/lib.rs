//! Core of a non-fungible-token ledger: it tracks which account owns which
//! token, stores per-token metadata with a derived experience aggregate,
//! charges callers exactly for the storage their mutations consume (refunding
//! any overpayment), and computes royalty payouts from basis-point shares.
//!
//! Host-supplied facts (the caller's identity, the attached deposit, the
//! price of a storage byte, and the global storage footprint measured around
//! a mutation) enter through [`HostContext`]; the host performs the outbound
//! refund transfer and log emission that the operations here decide on.
use vstd::prelude::*;

pub mod errors;
pub mod events;
pub mod internal;
pub mod metadata;
pub mod nft_core;

use crate::metadata::{NFTContractMetadata, Token, TokenId, TokenMetadata};
use vstd::hash_map::StringHashMap;

verus! {

/// Converts a basis-point royalty share and an amount into an integer payout:
/// `floor(royalty_percentage * amount_to_pay / 10_000)`.
pub fn royalty_to_payout(royalty_percentage: u32, amount_to_pay: u128) -> (r: u128)
    requires
        royalty_percentage <= 10_000,
        royalty_percentage * amount_to_pay <= u128::MAX,
    ensures
        r == crate::internal::spec_payout(royalty_percentage as int, amount_to_pay as int),
{
    royalty_percentage as u128 * amount_to_pay / 10_000u128
}

// ---------------------------------------------------------------------------
// Storage-key namespacing
// ---------------------------------------------------------------------------

/// Key prefix of each persisted collection. The encoding (one tag byte for
/// the variant's position, followed for the inner variants by the 32-byte
/// namespace hash) must be reproduced bit-for-bit by any implementation
/// sharing persisted state.
pub enum StorageKey {
    TokensPerOwner,
    TokenPerOwnerInner { account_id_hash: Vec<u8> },
    TokensById,
    TokenMetadataById,
    NFTContractMetadata,
    TokensPerType,
    TokensPerTypeInner { token_type_hash: Vec<u8> },
    TokenTypesLocked,
}

impl StorageKey {
    /// The exact bytes of this key prefix.
    pub open spec fn spec_key_bytes(self) -> Seq<u8> {
        match self {
            StorageKey::TokensPerOwner => seq![0u8],
            StorageKey::TokenPerOwnerInner { account_id_hash } => seq![1u8] + account_id_hash@,
            StorageKey::TokensById => seq![2u8],
            StorageKey::TokenMetadataById => seq![3u8],
            StorageKey::NFTContractMetadata => seq![4u8],
            StorageKey::TokensPerType => seq![5u8],
            StorageKey::TokensPerTypeInner { token_type_hash } => seq![6u8] + token_type_hash@,
            StorageKey::TokenTypesLocked => seq![7u8],
        }
    }

    pub fn key_bytes(&self) -> (r: Vec<u8>)
        ensures
            r@ == self.spec_key_bytes(),
    {
        let mut r: Vec<u8> = Vec::new();
        match self {
            StorageKey::TokensPerOwner => {
                r.push(0u8);
            },
            StorageKey::TokenPerOwnerInner { account_id_hash } => {
                r.push(1u8);
                append_bytes(&mut r, account_id_hash);
            },
            StorageKey::TokensById => {
                r.push(2u8);
            },
            StorageKey::TokenMetadataById => {
                r.push(3u8);
            },
            StorageKey::NFTContractMetadata => {
                r.push(4u8);
            },
            StorageKey::TokensPerType => {
                r.push(5u8);
            },
            StorageKey::TokensPerTypeInner { token_type_hash } => {
                r.push(6u8);
                append_bytes(&mut r, token_type_hash);
            },
            StorageKey::TokenTypesLocked => {
                r.push(7u8);
            },
        }
        proof {
            assert(r@ =~= self.spec_key_bytes());
        }
        r
    }
}

pub fn append_bytes(out: &mut Vec<u8>, src: &Vec<u8>)
    ensures
        final(out)@ == old(out)@ + src@,
{
    let mut i: usize = 0;
    while i < src.len()
        invariant
            i <= src.len(),
            out@ == old(out)@ + src@.take(i as int),
        decreases src.len() - i,
    {
        out.push(src[i]);
        proof {
            assert(old(out)@ + src@.take(i as int + 1) =~= (old(out)@ + src@.take(i as int)).push(
                src@[i as int],
            ));
        }
        i = i + 1;
    }
    proof {
        assert(old(out)@ + src@.take(src@.len() as int) =~= old(out)@ + src@);
    }
}

/// The storage namespace of one owner's token set: the inner-collection tag
/// followed by the hash of the owner identifier. Account identifiers have
/// unbounded, attacker-influenced length; hashing yields a fixed-size,
/// collision-resistant namespace per owner.
pub open spec fn spec_owner_namespace(owner: Seq<char>) -> Seq<u8> {
    seq![1u8] + crate::internal::sha256_of(owner)
}

/// Builds the storage key under which `account_id`'s token set lives.
pub fn owner_namespace_key(account_id: &String) -> (r: Vec<u8>)
    ensures
        r@ == spec_owner_namespace(account_id@),
        r@.len() == 33,
{
    let hash = crate::internal::hash_account_id(account_id);
    let key = StorageKey::TokenPerOwnerInner { account_id_hash: hash };
    key.key_bytes()
}

// ---------------------------------------------------------------------------
// The host boundary
// ---------------------------------------------------------------------------

/// Facts the host supplies about the current call. The host reads them
/// before invoking an operation; the operation decides, and the host carries
/// out the decided refund transfer after the state mutation is final.
pub struct HostContext {
    /// The account that sent the current call.
    pub caller: String,
    /// Payment attached to the call, in the smallest denomination.
    pub attached_deposit: u128,
    /// Host price of one byte of persisted storage.
    pub storage_byte_cost: u128,
    /// Global storage footprint measured immediately before the mutation.
    pub storage_usage_before: u64,
    /// Global storage footprint measured immediately after the mutation.
    pub storage_usage_after: u64,
}

impl HostContext {
    /// What this call's mutation costs under the clamped-delta rule.
    pub open spec fn spec_required_cost(self) -> int {
        crate::internal::spec_required_cost(
            self.storage_usage_before as int,
            self.storage_usage_after as int,
            self.storage_byte_cost as int,
        )
    }
}

// ---------------------------------------------------------------------------
// The owner index
// ---------------------------------------------------------------------------

/// One owner's entry in the owner index: the storage namespace of the set
/// and the token identifiers the owner currently holds.
pub struct OwnerTokens {
    /// Namespace key this set is persisted under.
    pub namespace: Vec<u8>,
    /// The owned token ids; never empty and free of duplicates.
    pub token_ids: Vec<TokenId>,
}

impl OwnerTokens {
    /// The token ids as a sequence of character strings.
    pub open spec fn ids(self) -> Seq<Seq<char>> {
        self.token_ids.deep_view()
    }

    pub open spec fn has(self, token: Seq<char>) -> bool {
        self.ids().contains(token)
    }

    /// Structural invariant: an owner entry never exists empty, and no token
    /// id appears twice.
    pub open spec fn wf(self) -> bool {
        &&& self.ids().len() > 0
        &&& forall|i: int, j: int|
            0 <= i < j < self.ids().len() ==> self.ids()[i] != self.ids()[j]
    }
}

// ---------------------------------------------------------------------------
// The contract singleton
// ---------------------------------------------------------------------------

/// The whole persisted state: administrator, owner index, token store,
/// metadata store and contract-wide metadata. Exactly one call at a time
/// holds it by exclusive borrow.
pub struct Contract {
    /// The administrator: the only account allowed privileged mutations.
    pub owner_id: String,
    /// Owner index: the token ids each account holds.
    pub tokens_per_owner: StringHashMap<OwnerTokens>,
    /// Token store: ownership, approvals and royalties per token id.
    pub tokens_by_id: StringHashMap<Token>,
    /// Metadata store, keyed one-to-one with the token store.
    pub token_metadata_by_id: StringHashMap<TokenMetadata>,
    /// Contract-wide descriptive metadata.
    pub metadata: Option<NFTContractMetadata>,
}

impl Contract {
    /// Token `token` stands in owner `owner`'s index set.
    pub open spec fn index_has(self, owner: Seq<char>, token: Seq<char>) -> bool {
        self.tokens_per_owner@.contains_key(owner) && self.tokens_per_owner@[owner].has(token)
    }

    /// The token store records `owner` as `token`'s owner.
    pub open spec fn owner_of(self, token: Seq<char>, owner: Seq<char>) -> bool {
        self.tokens_by_id@.contains_key(token) && self.tokens_by_id@[token].owner_id@ == owner
    }

    /// Every owner entry is structurally well formed (non-empty, duplicate
    /// free).
    pub open spec fn index_wf(self) -> bool {
        forall|o: Seq<char>|
            #[trigger] self.tokens_per_owner@.contains_key(o) ==> self.tokens_per_owner@[o].wf()
    }

    /// Index bijection: a token stands in an owner's set iff the token store
    /// records that owner for it.
    pub open spec fn index_bijective(self) -> bool {
        forall|o: Seq<char>, t: Seq<char>| #[trigger]
            self.index_has(o, t) <==> #[trigger] self.owner_of(t, o)
    }

    /// A metadata record exists exactly for the tokens that exist.
    pub open spec fn stores_paired(self) -> bool {
        forall|t: Seq<char>|
            #![trigger self.token_metadata_by_id@.contains_key(t)]
            #![trigger self.tokens_by_id@.contains_key(t)]
            self.token_metadata_by_id@.contains_key(t) <==> self.tokens_by_id@.contains_key(t)
    }

    /// Well-formedness of the whole state, preserved by every operation.
    pub open spec fn wf(self) -> bool {
        self.index_wf() && self.index_bijective() && self.stores_paired()
    }

    /// Initializes the contract: the given administrator, empty stores, and
    /// the given contract-wide metadata.
    pub fn new(owner_id: String, metadata: NFTContractMetadata) -> (c: Contract)
        ensures
            c.owner_id == owner_id,
            c.tokens_per_owner@ == Map::<Seq<char>, OwnerTokens>::empty(),
            c.tokens_by_id@ == Map::<Seq<char>, Token>::empty(),
            c.token_metadata_by_id@ == Map::<Seq<char>, TokenMetadata>::empty(),
            c.metadata == Some(metadata),
            c.wf(),
    {
        let c = Contract {
            owner_id,
            tokens_per_owner: StringHashMap::new(),
            tokens_by_id: StringHashMap::new(),
            token_metadata_by_id: StringHashMap::new(),
            metadata: Some(metadata),
        };
        proof {
            assert(forall|o: Seq<char>| !c.tokens_per_owner@.contains_key(o));
            assert(forall|t: Seq<char>| !c.tokens_by_id@.contains_key(t));
            assert(forall|t: Seq<char>| !c.token_metadata_by_id@.contains_key(t));
        }
        c
    }

    /// Initializes the contract with this deployment's stock metadata.
    pub fn new_default_meta(owner_id: String) -> (c: Contract)
        ensures
            c.owner_id == owner_id,
            c.tokens_per_owner@ == Map::<Seq<char>, OwnerTokens>::empty(),
            c.tokens_by_id@ == Map::<Seq<char>, Token>::empty(),
            c.token_metadata_by_id@ == Map::<Seq<char>, TokenMetadata>::empty(),
            c.wf(),
            c.metadata matches Some(m) && {
                &&& m.spec_version@ == "nft-1.0.0"@
                &&& m.name@ == "Carbonite NFT Contract"@
                &&& m.symbol@ == "CARBONITE"@
                &&& m.icon is None
                &&& m.base_uri@ == "ipfs"@
                &&& m.reference@ == "ipfs://example.com/hash"@
                &&& m.reference_hash@ == Seq::new(32, |i: int| 5u8)
            },
    {
        let reference_hash: Vec<u8> = vec![5u8; 32];
        proof {
            assert(reference_hash@ =~= Seq::new(32, |i: int| 5u8));
        }
        Contract::new(
            owner_id,
            NFTContractMetadata {
                spec_version: String::from_str("nft-1.0.0"),
                name: String::from_str("Carbonite NFT Contract"),
                symbol: String::from_str("CARBONITE"),
                icon: None,
                base_uri: String::from_str("ipfs"),
                reference: String::from_str("ipfs://example.com/hash"),
                reference_hash,
            },
        )
    }

    /// Law: in a well-formed state, a token stands in owner `o`'s set exactly
    /// when the token store records `o` as its owner.
    pub proof fn lemma_index_bijection(self, o: Seq<char>, t: Seq<char>)
        requires
            self.wf(),
        ensures
            self.index_has(o, t) <==> (self.tokens_by_id@.contains_key(t)
                && self.tokens_by_id@[t].owner_id@ == o),
    {
        assert(self.index_has(o, t) <==> self.owner_of(t, o));
    }
}

} // verus!
