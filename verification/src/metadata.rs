//! Token records and per-token metadata, with their mathematical views.
use vstd::prelude::*;

verus! {

/// A token's unique string identifier.
pub type TokenId = String;

/// Mathematical view of a token record.
#[verifier::ext_equal]
pub ghost struct TokenView {
    pub owner_id: Seq<char>,
    pub approved_account_ids: Seq<(Seq<char>, u64)>,
    pub royalty: Seq<(Seq<char>, u32)>,
}

/// Ownership, approval and royalty record of one token.
pub struct Token {
    /// The account that owns the token.
    pub owner_id: String,
    /// Delegated spenders, each with its approval sequence number.
    pub approved_account_ids: Vec<(String, u64)>,
    /// Basis-point royalty share per account; the shares are meant to sum to
    /// at most 10 000, which minting does not enforce.
    pub royalty: Vec<(String, u32)>,
}

impl View for Token {
    type V = TokenView;

    open spec fn view(&self) -> TokenView {
        TokenView {
            owner_id: self.owner_id@,
            approved_account_ids: self.approved_account_ids.deep_view(),
            royalty: self.royalty.deep_view(),
        }
    }
}

/// Mathematical view of a metadata record.
#[verifier::ext_equal]
pub ghost struct MetadataView {
    pub title: Option<Seq<char>>,
    pub media: Seq<char>,
    pub media_hash: Seq<u8>,
    pub skills: Seq<(Seq<char>, u64)>,
    pub total_xp: u128,
}

/// Gameplay extension of a token's metadata: experience points per skill.
pub struct CarboniteMetadata {
    /// Skill name paired with its experience value.
    pub skills: Vec<(String, u64)>,
}

impl View for CarboniteMetadata {
    type V = Seq<(Seq<char>, u64)>;

    open spec fn view(&self) -> Seq<(Seq<char>, u64)> {
        self.skills.deep_view()
    }
}

/// Descriptive and gameplay metadata of one token, keyed one-to-one with the
/// token record. `total_xp` caches the sum of the skill values and must never
/// diverge from them.
pub struct TokenMetadata {
    /// Display title, if any.
    pub title: Option<String>,
    /// Media reference (a URI).
    pub media: String,
    /// Content hash of the referenced media.
    pub media_hash: Vec<u8>,
    /// The gameplay extension.
    pub carbonite_metadata: CarboniteMetadata,
    /// Derived aggregate: the sum of all skill experience values.
    pub total_xp: u128,
}

impl View for TokenMetadata {
    type V = MetadataView;

    open spec fn view(&self) -> MetadataView {
        MetadataView {
            title: self.title.deep_view(),
            media: self.media@,
            media_hash: self.media_hash@,
            skills: self.carbonite_metadata@,
            total_xp: self.total_xp,
        }
    }
}

/// Contract-wide descriptive metadata.
pub struct NFTContractMetadata {
    /// Version of the metadata standard this contract follows.
    pub spec_version: String,
    pub name: String,
    pub symbol: String,
    pub icon: Option<String>,
    pub base_uri: String,
    pub reference: String,
    pub reference_hash: Vec<u8>,
}

/// A token record and its metadata as one value, handed out to callers.
pub struct JsonToken {
    pub token_id: TokenId,
    pub owner_id: String,
    pub metadata: TokenMetadata,
    pub approved_account_ids: Vec<(String, u64)>,
    pub royalty: Vec<(String, u32)>,
}

// ---------------------------------------------------------------------------
// The experience aggregate
// ---------------------------------------------------------------------------

/// Sum of the experience values of a skill mapping.
pub open spec fn sum_xp(skills: Seq<(Seq<char>, u64)>) -> int
    decreases skills.len(),
{
    if skills.len() == 0 {
        0
    } else {
        sum_xp(skills.drop_last()) + skills.last().1
    }
}

pub proof fn lemma_skills_view_index(v: Vec<(String, u64)>, i: int)
    requires
        0 <= i < v@.len(),
    ensures
        v.deep_view().len() == v@.len(),
        v.deep_view()[i] == (v@[i].0@, v@[i].1),
{
    assert(v.deep_view()[i] == v@[i].deep_view());
}

pub proof fn lemma_sum_xp_bound(skills: Seq<(Seq<char>, u64)>)
    ensures
        0 <= sum_xp(skills) <= skills.len() * (u64::MAX as int),
    decreases skills.len(),
{
    if skills.len() > 0 {
        lemma_sum_xp_bound(skills.drop_last());
    }
}

/// Recomputes the experience total from scratch: the sum of the supplied
/// skill mapping's values, never combined with any previous total.
pub fn compute_total_xp(carbonite_metadata: &CarboniteMetadata) -> (r: u128)
    ensures
        r == sum_xp(carbonite_metadata@),
{
    let skills = &carbonite_metadata.skills;
    let mut total: u128 = 0;
    let mut i: usize = 0;
    proof {
        assert(carbonite_metadata@.take(0).len() == 0);
    }
    while i < skills.len()
        invariant
            i <= skills.len(),
            skills@ == carbonite_metadata.skills@,
            carbonite_metadata@.len() == skills.len(),
            total == sum_xp(carbonite_metadata@.take(i as int)),
        decreases skills.len() - i,
    {
        proof {
            lemma_sum_xp_bound(carbonite_metadata@.take(i as int));
            assert(carbonite_metadata@.take(i as int).len() * (u64::MAX as int) <= (usize::MAX
                as int) * (u64::MAX as int)) by (nonlinear_arith)
                requires
                    0 <= carbonite_metadata@.take(i as int).len() <= usize::MAX as int,
            ;
            assert((usize::MAX as int) * (u64::MAX as int) + (u64::MAX as int) <= u128::MAX as int)
                by (nonlinear_arith);
            assert(carbonite_metadata@.take(i as int + 1).drop_last() =~= carbonite_metadata@.take(
                i as int,
            ));
            assert(carbonite_metadata@.take(i as int + 1).last() == carbonite_metadata@[i as int]);
            assert(carbonite_metadata@ == carbonite_metadata.skills.deep_view());
            lemma_skills_view_index(carbonite_metadata.skills, i as int);
            assert(carbonite_metadata@[i as int] == (carbonite_metadata.skills@[i as int].0@,
            carbonite_metadata.skills@[i as int].1));
            assert(carbonite_metadata@[i as int].1 == carbonite_metadata.skills@[i as int].1);
            assert(sum_xp(carbonite_metadata@.take(i as int + 1)) == sum_xp(
                carbonite_metadata@.take(i as int),
            ) + carbonite_metadata@[i as int].1);
        }
        let pair = &skills[i];
        total = total + (pair.1 as u128);
        i = i + 1;
    }
    proof {
        assert(carbonite_metadata@.take(skills.len() as int) =~= carbonite_metadata@);
    }
    total
}

// ---------------------------------------------------------------------------
// Deep copies with known views
// ---------------------------------------------------------------------------

pub fn clone_bytes(v: &Vec<u8>) -> (r: Vec<u8>)
    ensures
        r@ == v@,
{
    let mut r: Vec<u8> = Vec::new();
    let mut i: usize = 0;
    while i < v.len()
        invariant
            i <= v.len(),
            r@ == v@.take(i as int),
        decreases v.len() - i,
    {
        r.push(v[i]);
        proof {
            assert(v@.take(i as int + 1) =~= v@.take(i as int).push(v@[i as int]));
        }
        i = i + 1;
    }
    proof {
        assert(v@.take(v@.len() as int) =~= v@);
    }
    r
}

pub fn clone_pairs<V: Copy>(v: &Vec<(String, V)>) -> (r: Vec<(String, V)>)
    ensures
        r@ == v@,
{
    let mut r: Vec<(String, V)> = Vec::new();
    let mut i: usize = 0;
    while i < v.len()
        invariant
            i <= v.len(),
            r@ == v@.take(i as int),
        decreases v.len() - i,
    {
        let pair = &v[i];
        r.push((pair.0.clone(), pair.1));
        proof {
            assert(v@.take(i as int + 1) =~= v@.take(i as int).push(v@[i as int]));
        }
        i = i + 1;
    }
    proof {
        assert(v@.take(v@.len() as int) =~= v@);
    }
    r
}

pub fn clone_opt_string(v: &Option<String>) -> (r: Option<String>)
    ensures
        r == v,
{
    match v {
        Option::None => Option::None,
        Option::Some(s) => Option::Some(s.clone()),
    }
}

impl CarboniteMetadata {
    /// A copy with the same skills.
    pub fn clone_record(&self) -> (r: CarboniteMetadata)
        ensures
            r@ == self@,
    {
        CarboniteMetadata { skills: clone_pairs(&self.skills) }
    }
}

impl TokenMetadata {
    /// A copy with the same view.
    pub fn clone_record(&self) -> (r: TokenMetadata)
        ensures
            r@ == self@,
    {
        let r = TokenMetadata {
            title: clone_opt_string(&self.title),
            media: self.media.clone(),
            media_hash: clone_bytes(&self.media_hash),
            carbonite_metadata: self.carbonite_metadata.clone_record(),
            total_xp: self.total_xp,
        };
        proof {
            assert(r@ =~= self@);
        }
        r
    }
}

impl Token {
    /// A copy with the same view.
    pub fn clone_record(&self) -> (r: Token)
        ensures
            r@ == self@,
    {
        let r = Token {
            owner_id: self.owner_id.clone(),
            approved_account_ids: clone_pairs(&self.approved_account_ids),
            royalty: clone_pairs(&self.royalty),
        };
        proof {
            assert(r@ =~= self@);
        }
        r
    }
}

} // verus!
