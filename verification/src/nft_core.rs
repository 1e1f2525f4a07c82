//! The core token operations: reading a token, replacing its gameplay
//! metadata (with the experience aggregate recomputed from scratch), and
//! replacing its media fields. Every mutating operation validates all its
//! preconditions — existence, authorization, minimum payment and the storage
//! deposit — before touching any store, so a failed call leaves the whole
//! state untouched.
use vstd::prelude::*;

use crate::errors::NftError;
use crate::internal::{refund_deposit, require_at_least_one_yocto, spec_reconcile, storage_delta};
use crate::metadata::{
    sum_xp, CarboniteMetadata, JsonToken, MetadataView, TokenId, TokenMetadata,
};
use crate::{Contract, HostContext};

verus! {

/// The metadata view after a gameplay update: the skill mapping is replaced
/// wholesale and the experience total recomputed as the sum of the new
/// mapping's values; the descriptive fields stay.
pub open spec fn updated_carbonite_view(
    old_md: MetadataView,
    skills: Seq<(Seq<char>, u64)>,
) -> MetadataView {
    MetadataView {
        title: old_md.title,
        media: old_md.media,
        media_hash: old_md.media_hash,
        skills: skills,
        total_xp: sum_xp(skills) as u128,
    }
}

/// The metadata view after a media customization: only the media reference
/// and its content hash change.
pub open spec fn updated_media_view(
    old_md: MetadataView,
    media: Seq<char>,
    media_hash: Seq<u8>,
) -> MetadataView {
    MetadataView {
        title: old_md.title,
        media: media,
        media_hash: media_hash,
        skills: old_md.skills,
        total_xp: old_md.total_xp,
    }
}

impl Contract {
    /// Both the token record and its metadata record exist.
    pub open spec fn has_record(self, token: Seq<char>) -> bool {
        self.tokens_by_id@.contains_key(token) && self.token_metadata_by_id@.contains_key(token)
    }

    /// A mutation that touches neither the owner index nor the token store
    /// and keeps the metadata store's key set preserves well-formedness.
    pub proof fn lemma_wf_after_metadata_update(pre: Contract, post: Contract)
        requires
            pre.wf(),
            post.tokens_per_owner == pre.tokens_per_owner,
            post.tokens_by_id == pre.tokens_by_id,
            post.token_metadata_by_id@.dom() == pre.token_metadata_by_id@.dom(),
        ensures
            post.wf(),
    {
        assert forall|o: Seq<char>| #[trigger]
            post.tokens_per_owner@.contains_key(o) implies post.tokens_per_owner@[o].wf() by {
            assert(pre.tokens_per_owner@.contains_key(o));
        }
        assert forall|o: Seq<char>, t: Seq<char>| #[trigger]
            post.index_has(o, t) implies post.owner_of(t, o) by {
            assert(pre.index_has(o, t));
            assert(pre.owner_of(t, o));
        }
        assert forall|o: Seq<char>, t: Seq<char>| #[trigger]
            post.owner_of(t, o) implies post.index_has(o, t) by {
            assert(pre.owner_of(t, o));
            assert(pre.index_has(o, t));
        }
        assert(post.index_bijective());
        assert forall|t: Seq<char>| #[trigger]
            post.token_metadata_by_id@.contains_key(t) implies post.tokens_by_id@.contains_key(
            t,
        ) by {
            assert(pre.token_metadata_by_id@.contains_key(t));
        }
        assert forall|t: Seq<char>| #[trigger]
            post.tokens_by_id@.contains_key(t) implies post.token_metadata_by_id@.contains_key(
            t,
        ) by {
            assert(pre.tokens_by_id@.contains_key(t));
        }
        assert(post.stores_paired());
    }
}

/// The externally callable face of the ledger core.
pub trait NonFungibleTokenCore {
    /// Information about the token with the given id, if it exists.
    fn nft_token(&self, token_id: TokenId) -> Option<JsonToken>;

    /// Replaces the token's gameplay metadata wholesale and recomputes its
    /// experience total; administrator-only, paid, storage-accounted.
    fn update_carbonite_metadata(
        &mut self,
        token_id: TokenId,
        carbonite_metadata: CarboniteMetadata,
        ctx: &HostContext,
    ) -> Result<Option<u128>, NftError>;

    /// Replaces the token's media reference and content hash;
    /// administrator-only, paid, storage-accounted.
    fn customize_nft(
        &mut self,
        token_id: TokenId,
        media: String,
        media_hash: Vec<u8>,
        ctx: &HostContext,
    ) -> Result<Option<u128>, NftError>;
}

impl NonFungibleTokenCore for Contract {
    fn nft_token(&self, token_id: TokenId) -> (r: Option<JsonToken>)
        ensures
            self.wf() ==> (r is Some <==> self.tokens_by_id@.contains_key(token_id@)),
            !self.tokens_by_id@.contains_key(token_id@) ==> r is None,
            r is Some ==> {
                &&& self.has_record(token_id@)
                &&& r->Some_0.token_id@ == token_id@
                &&& r->Some_0.owner_id@ == self.tokens_by_id@[token_id@]@.owner_id
                &&& r->Some_0.metadata@ == self.token_metadata_by_id@[token_id@]@
                &&& r->Some_0.approved_account_ids.deep_view()
                    == self.tokens_by_id@[token_id@]@.approved_account_ids
                &&& r->Some_0.royalty.deep_view() == self.tokens_by_id@[token_id@]@.royalty
            },
    {
        let token = match self.tokens_by_id.get(token_id.as_str()) {
            Some(t) => t.clone_record(),
            None => {
                return None;
            },
        };
        let metadata = match self.token_metadata_by_id.get(token_id.as_str()) {
            Some(m) => m.clone_record(),
            None => {
                return None;
            },
        };
        Some(
            JsonToken {
                token_id,
                owner_id: token.owner_id,
                metadata,
                approved_account_ids: token.approved_account_ids,
                royalty: token.royalty,
            },
        )
    }

    fn update_carbonite_metadata(
        &mut self,
        token_id: TokenId,
        carbonite_metadata: CarboniteMetadata,
        ctx: &HostContext,
    ) -> (r: Result<Option<u128>, NftError>)
        ensures
            old(self).wf() ==> final(self).wf(),
            r is Err ==> *final(self) == *old(self),
            !old(self).has_record(token_id@) ==> r == Err::<Option<u128>, NftError>(
                NftError::NotFound,
            ),
            old(self).has_record(token_id@) && ctx.caller@ != old(self).owner_id@ ==> r == Err::<
                Option<u128>,
                NftError,
            >(NftError::Unauthorized),
            old(self).has_record(token_id@) && ctx.caller@ == old(self).owner_id@
                && ctx.attached_deposit == 0 ==> r == Err::<Option<u128>, NftError>(
                NftError::PaymentRequired,
            ),
            old(self).has_record(token_id@) && ctx.caller@ == old(self).owner_id@
                && ctx.attached_deposit >= 1 ==> r == (if ctx.spec_required_cost() > u128::MAX {
                Err::<Option<u128>, NftError>(NftError::InsufficientDeposit { required: u128::MAX })
            } else {
                spec_reconcile(ctx.spec_required_cost(), ctx.attached_deposit as int)
            }),
            r is Ok ==> {
                &&& old(self).has_record(token_id@)
                &&& final(self).token_metadata_by_id@.contains_key(token_id@)
                &&& final(self).token_metadata_by_id@[token_id@]@ == updated_carbonite_view(
                    old(self).token_metadata_by_id@[token_id@]@,
                    carbonite_metadata@,
                )
                &&& final(self).token_metadata_by_id@.dom() =~= old(
                    self,
                ).token_metadata_by_id@.dom()
                &&& forall|t: Seq<char>|
                    t != token_id@ && #[trigger] old(self).token_metadata_by_id@.contains_key(t)
                        ==> final(self).token_metadata_by_id@[t] == old(
                        self,
                    ).token_metadata_by_id@[t]
                &&& final(self).tokens_by_id == old(self).tokens_by_id
                &&& final(self).tokens_per_owner == old(self).tokens_per_owner
                &&& final(self).owner_id == old(self).owner_id
                &&& final(self).metadata == old(self).metadata
            },
    {
        if !self.tokens_by_id.contains_key(token_id.as_str()) {
            return Err(NftError::NotFound);
        }
        let old_md = match self.token_metadata_by_id.get(token_id.as_str()) {
            Some(m) => m.clone_record(),
            None => {
                return Err(NftError::NotFound);
            },
        };
        if let Err(e) = self.require_owner(&ctx.caller) {
            return Err(e);
        }
        if let Err(e) = require_at_least_one_yocto(ctx.attached_deposit) {
            return Err(e);
        }
        let delta = storage_delta(ctx.storage_usage_before, ctx.storage_usage_after);
        if (delta as u128).checked_mul(ctx.storage_byte_cost).is_none() {
            return Err(NftError::InsufficientDeposit { required: u128::MAX });
        }
        let refund = match refund_deposit(delta, ctx.storage_byte_cost, ctx.attached_deposit) {
            Err(e) => {
                return Err(e);
            },
            Ok(refund) => refund,
        };
        let total_xp = crate::metadata::compute_total_xp(&carbonite_metadata);
        let new_md = TokenMetadata {
            title: old_md.title,
            media: old_md.media,
            media_hash: old_md.media_hash,
            carbonite_metadata,
            total_xp,
        };
        proof {
            assert(new_md@ =~= updated_carbonite_view(
                old(self).token_metadata_by_id@[token_id@]@,
                new_md.carbonite_metadata@,
            ));
        }
        self.token_metadata_by_id.insert(token_id, new_md);
        proof {
            assert(final(self).token_metadata_by_id@.dom() =~= old(
                self,
            ).token_metadata_by_id@.dom());
            if old(self).wf() {
                Contract::lemma_wf_after_metadata_update(*old(self), *self);
            }
        }
        Ok(refund)
    }

    fn customize_nft(
        &mut self,
        token_id: TokenId,
        media: String,
        media_hash: Vec<u8>,
        ctx: &HostContext,
    ) -> (r: Result<Option<u128>, NftError>)
        ensures
            old(self).wf() ==> final(self).wf(),
            r is Err ==> *final(self) == *old(self),
            !old(self).has_record(token_id@) ==> r == Err::<Option<u128>, NftError>(
                NftError::NotFound,
            ),
            old(self).has_record(token_id@) && ctx.caller@ != old(self).owner_id@ ==> r == Err::<
                Option<u128>,
                NftError,
            >(NftError::Unauthorized),
            old(self).has_record(token_id@) && ctx.caller@ == old(self).owner_id@
                && ctx.attached_deposit == 0 ==> r == Err::<Option<u128>, NftError>(
                NftError::PaymentRequired,
            ),
            old(self).has_record(token_id@) && ctx.caller@ == old(self).owner_id@
                && ctx.attached_deposit >= 1 ==> r == (if ctx.spec_required_cost() > u128::MAX {
                Err::<Option<u128>, NftError>(NftError::InsufficientDeposit { required: u128::MAX })
            } else {
                spec_reconcile(ctx.spec_required_cost(), ctx.attached_deposit as int)
            }),
            r is Ok ==> {
                &&& old(self).has_record(token_id@)
                &&& final(self).token_metadata_by_id@.contains_key(token_id@)
                &&& final(self).token_metadata_by_id@[token_id@]@ == updated_media_view(
                    old(self).token_metadata_by_id@[token_id@]@,
                    media@,
                    media_hash@,
                )
                &&& final(self).token_metadata_by_id@.dom() =~= old(
                    self,
                ).token_metadata_by_id@.dom()
                &&& forall|t: Seq<char>|
                    t != token_id@ && #[trigger] old(self).token_metadata_by_id@.contains_key(t)
                        ==> final(self).token_metadata_by_id@[t] == old(
                        self,
                    ).token_metadata_by_id@[t]
                &&& final(self).tokens_by_id == old(self).tokens_by_id
                &&& final(self).tokens_per_owner == old(self).tokens_per_owner
                &&& final(self).owner_id == old(self).owner_id
                &&& final(self).metadata == old(self).metadata
            },
    {
        if !self.tokens_by_id.contains_key(token_id.as_str()) {
            return Err(NftError::NotFound);
        }
        let old_md = match self.token_metadata_by_id.get(token_id.as_str()) {
            Some(m) => m.clone_record(),
            None => {
                return Err(NftError::NotFound);
            },
        };
        if let Err(e) = self.require_owner(&ctx.caller) {
            return Err(e);
        }
        if let Err(e) = require_at_least_one_yocto(ctx.attached_deposit) {
            return Err(e);
        }
        let delta = storage_delta(ctx.storage_usage_before, ctx.storage_usage_after);
        if (delta as u128).checked_mul(ctx.storage_byte_cost).is_none() {
            return Err(NftError::InsufficientDeposit { required: u128::MAX });
        }
        let refund = match refund_deposit(delta, ctx.storage_byte_cost, ctx.attached_deposit) {
            Err(e) => {
                return Err(e);
            },
            Ok(refund) => refund,
        };
        let new_md = TokenMetadata {
            title: old_md.title,
            media,
            media_hash,
            carbonite_metadata: old_md.carbonite_metadata,
            total_xp: old_md.total_xp,
        };
        proof {
            assert(new_md@ =~= updated_media_view(
                old(self).token_metadata_by_id@[token_id@]@,
                new_md.media@,
                new_md.media_hash@,
            ));
        }
        self.token_metadata_by_id.insert(token_id, new_md);
        proof {
            assert(final(self).token_metadata_by_id@.dom() =~= old(
                self,
            ).token_metadata_by_id@.dom());
            if old(self).wf() {
                Contract::lemma_wf_after_metadata_update(*old(self), *self);
            }
        }
        Ok(refund)
    }
}

} // verus!
