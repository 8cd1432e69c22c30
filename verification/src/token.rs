//! Tokens: the capability values that gate every cell access.
//!
//! A token governs a fixed set of brands.  Possession of `&Token` grants
//! read access to every cell of those brands; possession of `&mut Token`
//! grants write access.  The token's state records whether its authority is
//! currently its own (`Whole`), delegated to sub-tokens (`SplitInert`),
//! suspended into a union token (`UnionInert`), or gone for good (`Retired`).

use vstd::prelude::*;

use crate::brand::Brand;
use crate::brand::Minter;

verus! {

/// Why an access or an algebra operation was rejected.
#[derive(Clone, Copy, Debug, PartialEq, Eq, Structural)]
pub enum AccessError {
    /// The cell's brand is not among the brands the token governs.
    BrandMismatch,
    /// The operation would open a second exclusive window over brands whose
    /// authority is currently delegated (split or unioned), or the tokens
    /// handed to `merge`, `union` or `release` do not fit together.
    CapabilityViolation,
    /// The token was retired by a `merge` or a `release` and grants nothing.
    UseAfterRelease,
}

/// The authority state of a token.
pub enum TokenState {
    /// The token's authority is its own: reads and writes go through.
    Whole,
    /// The token was split; `children` are the sub-token ids, one per
    /// governed brand, in the order of the brands.  The token is inert
    /// until all sub-tokens are merged back.
    SplitInert { children: Vec<u64> },
    /// The token was unioned into the token with id `union_tid` and is
    /// inert until that token is released.
    UnionInert { union_tid: u64 },
    /// The token was consumed by a `merge` or a `release`.
    Retired,
}

/// Where a token came from.  Set at creation and never changed.
#[derive(Clone, Copy, Debug, PartialEq, Eq, Structural)]
pub enum Origin {
    /// Issued by `Minter::mint` or `Minter::mint_group`.
    Minted,
    /// Produced by splitting the token with id `parent_tid`.
    SplitChild { parent_tid: u64 },
    /// Produced by unioning the tokens with ids `left_tid` and `right_tid`.
    UnionOf { left_tid: u64, right_tid: u64 },
}

/// A capability: the sole gate to every cell whose brand it governs.
///
/// Tokens cannot be cloned or forged; they exist only through minting,
/// splitting and unioning.  Exclusive access to cells is inherited from
/// exclusive access to the token, exactly as shared/exclusive references
/// are enforced on any other value.
pub struct Token {
    tid: u64,
    brands: Vec<u64>,
    state: TokenState,
    origin: Origin,
}

/// No id occurs twice in `s`.
pub open spec fn no_dup(s: Seq<u64>) -> bool {
    forall|i: int, j: int| 0 <= i < j < s.len() ==> s[i] != s[j]
}

/// No id occurs in both `a` and `b`.
pub open spec fn disjoint_ids(a: Seq<u64>, b: Seq<u64>) -> bool {
    forall|x: u64| a.contains(x) ==> !b.contains(x)
}

impl Token {
    /// The token's own unique id.
    pub closed spec fn tid_spec(&self) -> u64 {
        self.tid
    }

    /// The brands this token governs (when its state is `Whole`).
    pub closed spec fn brands_spec(&self) -> Seq<u64> {
        self.brands@
    }

    /// The token's authority state.
    pub closed spec fn state_spec(&self) -> TokenState {
        self.state
    }

    /// The token's provenance.
    pub closed spec fn origin_spec(&self) -> Origin {
        self.origin
    }

    /// Well-formedness: at least one brand, no brand twice, and a split
    /// record lists exactly one child per brand.
    pub open spec fn wf(&self) -> bool {
        &&& self.brands_spec().len() >= 1
        &&& no_dup(self.brands_spec())
        &&& (self.state_spec() matches TokenState::SplitInert { children } ==> {
            &&& children@.len() == self.brands_spec().len()
            &&& no_dup(children@)
        })
    }

    /// Whether `brand_id` is among the governed brands.
    pub open spec fn governs(&self, brand_id: u64) -> bool {
        self.brands_spec().contains(brand_id)
    }

    /// Whether the token's authority is currently its own.
    pub open spec fn is_whole(&self) -> bool {
        self.state_spec() is Whole
    }

    /// The outcome of presenting this token for a cell of brand `brand_id`:
    /// a retired token is a use after release; an inert token would open a
    /// second window over delegated brands; a whole token must govern the
    /// brand.
    pub open spec fn access_for(&self, brand_id: u64) -> Result<(), AccessError> {
        match self.state_spec() {
            TokenState::Whole => if self.governs(brand_id) {
                Ok(())
            } else {
                Err(AccessError::BrandMismatch)
            },
            TokenState::SplitInert { .. } => Err(AccessError::CapabilityViolation),
            TokenState::UnionInert { .. } => Err(AccessError::CapabilityViolation),
            TokenState::Retired => Err(AccessError::UseAfterRelease),
        }
    }

    /// Builds a fresh whole token.  Only the minting and splitting code in
    /// this crate can call it; outside the crate, tokens are unforgeable.
    pub(crate) fn assemble(tid: u64, brands: Vec<u64>, origin: Origin) -> (t: Token)
        ensures
            t.tid_spec() == tid,
            t.brands_spec() == brands@,
            t.state_spec() is Whole,
            t.origin_spec() == origin,
    {
        Token { tid, brands, state: TokenState::Whole, origin }
    }

    /// Whether the token's authority is currently its own, as a runtime
    /// value: at scope exit a caller can flag a token left split or
    /// unioned instead of silently discarding it.
    pub fn is_active(&self) -> (r: bool)
        ensures
            r == self.is_whole(),
    {
        matches!(self.state, TokenState::Whole)
    }

    /// Whether this token governs `brand`, as a runtime value —
    /// independent of the token's current state.
    pub fn governs_brand(&self, brand: &Brand) -> (r: bool)
        ensures
            r == self.governs(brand.id_spec()),
    {
        contains_id(&self.brands, brand.id_value())
    }

    /// Runtime access check against a brand id.
    pub(crate) fn check_access_id(&self, brand_id: u64) -> (r: Result<(), AccessError>)
        ensures
            r == self.access_for(brand_id),
    {
        match &self.state {
            TokenState::Whole => {
                if contains_id(&self.brands, brand_id) {
                    Ok(())
                } else {
                    Err(AccessError::BrandMismatch)
                }
            },
            TokenState::SplitInert { .. } => Err(AccessError::CapabilityViolation),
            TokenState::UnionInert { .. } => Err(AccessError::CapabilityViolation),
            TokenState::Retired => Err(AccessError::UseAfterRelease),
        }
    }
}

/// The rejection an inert or retired token earns: `Retired` is a use after
/// release, a delegated (split or unioned) state would admit a second
/// exclusive window.  Only meaningful for non-`Whole` states.
pub open spec fn inert_error(s: TokenState) -> AccessError {
    match s {
        TokenState::Retired => AccessError::UseAfterRelease,
        _ => AccessError::CapabilityViolation,
    }
}

/// `t1` is `t0` retired: same identity, same brands, authority gone.
pub open spec fn retired_version(t0: Token, t1: Token) -> bool {
    &&& t1.tid_spec() == t0.tid_spec()
    &&& t1.brands_spec() == t0.brands_spec()
    &&& t1.origin_spec() == t0.origin_spec()
    &&& t1.state_spec() is Retired
}

/// `t1` is `t0` suspended into the union token with id `union_tid`.
pub open spec fn suspended_version(t0: Token, t1: Token, union_tid: u64) -> bool {
    &&& t1.tid_spec() == t0.tid_spec()
    &&& t1.brands_spec() == t0.brands_spec()
    &&& t1.origin_spec() == t0.origin_spec()
    &&& t1.state_spec() == (TokenState::UnionInert { union_tid })
}

/// `t1` is `t0` with its own authority back.
pub open spec fn restored_version(t0: Token, t1: Token) -> bool {
    &&& t1.tid_spec() == t0.tid_spec()
    &&& t1.brands_spec() == t0.brands_spec()
    &&& t1.origin_spec() == t0.origin_spec()
    &&& t1.state_spec() is Whole
}

/// What `Token::split` did: the parent `t0` became the inert `t1`, and
/// `subs` are fresh whole sub-tokens, the `i`-th governing exactly the
/// `i`-th parent brand; the parent's split record lists their ids.
pub open spec fn split_post(t0: Token, t1: Token, m0: Minter, m1: Minter, subs: Seq<Token>) -> bool {
    &&& t0.state_spec() is Whole
    &&& subs.len() == t0.brands_spec().len()
    &&& forall|i: int| 0 <= i < subs.len() ==> (#[trigger] subs[i]).tid_spec() == m0.next_spec() + i
    &&& forall|i: int| 0 <= i < subs.len() ==> (#[trigger] subs[i]).brands_spec().len() == 1
    &&& forall|i: int| 0 <= i < subs.len() ==> (#[trigger] subs[i]).brands_spec()[0]
        == t0.brands_spec()[i]
    &&& forall|i: int| 0 <= i < subs.len() ==> (#[trigger] subs[i]).state_spec() is Whole
    &&& forall|i: int| 0 <= i < subs.len() ==> (#[trigger] subs[i]).origin_spec() == (
    Origin::SplitChild { parent_tid: t0.tid_spec() })
    &&& forall|i: int| 0 <= i < subs.len() ==> (#[trigger] subs[i]).wf()
    &&& t1.tid_spec() == t0.tid_spec()
    &&& t1.brands_spec() == t0.brands_spec()
    &&& t1.origin_spec() == t0.origin_spec()
    &&& (t1.state_spec() matches TokenState::SplitInert { children } && {
        &&& children@.len() == subs.len()
        &&& forall|i: int| 0 <= i < subs.len() ==> #[trigger] children@[i] == subs[i].tid_spec()
    })
    &&& m1.next_spec() == m0.next_spec() + subs.len()
}

/// Whether `subs` are exactly the outstanding sub-tokens recorded by the
/// split parent `t0`, in order, each with its own authority intact.
pub open spec fn merge_fits(t0: Token, subs: Seq<Token>) -> bool {
    t0.state_spec() matches TokenState::SplitInert { children } && {
        &&& subs.len() == children@.len()
        &&& forall|i: int| 0 <= i < subs.len() ==> (#[trigger] subs[i]).tid_spec() == children@[i]
        &&& forall|i: int| 0 <= i < subs.len() ==> (#[trigger] subs[i]).state_spec() is Whole
    }
}

/// The rejection `Token::merge` reports when `subs` do not reconstitute
/// the parent `t0`.
pub open spec fn merge_reject(t0: Token) -> AccessError {
    if t0.state_spec() is Retired {
        AccessError::UseAfterRelease
    } else {
        AccessError::CapabilityViolation
    }
}

/// What `Token::merge` did: the parent `t0` became the whole `t1` again,
/// and every sub-token was retired in place.
pub open spec fn merge_post(t0: Token, t1: Token, subs0: Seq<Token>, subs1: Seq<Token>) -> bool {
    &&& restored_version(t0, t1)
    &&& subs1.len() == subs0.len()
    &&& forall|i: int|
        0 <= i < subs0.len() ==> retired_version(#[trigger] subs0[i], subs1[i])
}

/// Whether two tokens may be unioned: both whole, not the same token, and
/// no brand in common — a brand unioned with itself would let the union
/// pass as a grant of new rights over it.
pub open spec fn union_fits(a: Token, b: Token) -> bool {
    &&& a.state_spec() is Whole
    &&& b.state_spec() is Whole
    &&& a.tid_spec() != b.tid_spec()
    &&& disjoint_ids(a.brands_spec(), b.brands_spec())
}

/// The rejection `Token::union` reports for inputs that do not fit.
pub open spec fn union_reject(a: Token, b: Token) -> AccessError {
    if a.state_spec() is Retired || b.state_spec() is Retired {
        AccessError::UseAfterRelease
    } else {
        AccessError::CapabilityViolation
    }
}

/// What `Token::union` did: a fresh whole token `u` governing the brands
/// of both inputs, both inputs suspended until `u` is released.
pub open spec fn union_post(
    a0: Token,
    a1: Token,
    b0: Token,
    b1: Token,
    m0: Minter,
    m1: Minter,
    u: Token,
) -> bool {
    &&& u.tid_spec() == m0.next_spec()
    &&& m1.next_spec() == m0.next_spec() + 1
    &&& u.brands_spec() == a0.brands_spec() + b0.brands_spec()
    &&& u.state_spec() is Whole
    &&& u.origin_spec() == (Origin::UnionOf { left_tid: a0.tid_spec(), right_tid: b0.tid_spec() })
    &&& u.wf()
    &&& suspended_version(a0, a1, u.tid_spec())
    &&& suspended_version(b0, b1, u.tid_spec())
}

/// Whether `u` is the live union of exactly `a` and `b`.
pub open spec fn release_fits(u: Token, a: Token, b: Token) -> bool {
    &&& u.state_spec() is Whole
    &&& (u.origin_spec() matches Origin::UnionOf { left_tid, right_tid } && left_tid
        == a.tid_spec() && right_tid == b.tid_spec())
    &&& a.state_spec() == (TokenState::UnionInert { union_tid: u.tid_spec() })
    &&& b.state_spec() == (TokenState::UnionInert { union_tid: u.tid_spec() })
}

/// The rejection `Token::release` reports.
pub open spec fn release_reject(u: Token) -> AccessError {
    if u.state_spec() is Retired {
        AccessError::UseAfterRelease
    } else {
        AccessError::CapabilityViolation
    }
}

/// What `Token::release` did: the union token was retired and both
/// originals got their own authority back, each again governing exactly
/// its own brands.
pub open spec fn release_post(
    u0: Token,
    u1: Token,
    a0: Token,
    a1: Token,
    b0: Token,
    b1: Token,
) -> bool {
    &&& retired_version(u0, u1)
    &&& restored_version(a0, a1)
    &&& restored_version(b0, b1)
}

impl Token {
    /// Splits the token into one independent sub-token per governed brand,
    /// in the order the brands were minted.
    ///
    /// Consumes exclusive access to the parent: until `merge` is given all
    /// sub-tokens back, the parent is inert and every access through it is
    /// rejected, so the sub-tokens' write windows can never overlap a
    /// window opened through the parent.  The sub-tokens are mutually
    /// independent: each governs exactly one brand, and no brand twice.
    pub fn split(&mut self, minter: &mut Minter) -> (r: Result<Vec<Token>, AccessError>)
        requires
            old(self).wf(),
            old(minter).next_spec() + old(self).brands_spec().len() <= u64::MAX,
        ensures
            final(self).wf(),
            r is Ok <==> old(self).is_whole(),
            r matches Ok(subs) ==> split_post(
                *old(self),
                *final(self),
                *old(minter),
                *final(minter),
                subs@,
            ),
            r matches Err(e) ==> {
                &&& e == inert_error(old(self).state_spec())
                &&& *final(self) == *old(self)
                &&& *final(minter) == *old(minter)
            },
    {
        match self.state {
            TokenState::Whole => {},
            TokenState::Retired => {
                return Err(AccessError::UseAfterRelease);
            },
            _ => {
                return Err(AccessError::CapabilityViolation);
            },
        }
        let ghost t0 = *self;
        let ghost m0 = *minter;
        let n = self.brands.len();
        let mut subs: Vec<Token> = Vec::new();
        let mut children: Vec<u64> = Vec::new();
        let mut i: usize = 0;
        while i < n
            invariant
                i <= n,
                n == t0.brands_spec().len(),
                m0.next_spec() + n <= u64::MAX,
                minter.next_spec() == m0.next_spec() + i,
                self.tid_spec() == t0.tid_spec(),
                self.brands_spec() == t0.brands_spec(),
                self.state_spec() is Whole,
                self.origin_spec() == t0.origin_spec(),
                subs@.len() == i,
                children@.len() == i,
                forall|j: int| 0 <= j < i ==> (#[trigger] subs@[j]).tid_spec() == m0.next_spec()
                    + j,
                forall|j: int| 0 <= j < i ==> (#[trigger] subs@[j]).brands_spec().len() == 1,
                forall|j: int| 0 <= j < i ==> (#[trigger] subs@[j]).brands_spec()[0]
                    == t0.brands_spec()[j],
                forall|j: int| 0 <= j < i ==> (#[trigger] subs@[j]).state_spec() is Whole,
                forall|j: int| 0 <= j < i ==> (#[trigger] subs@[j]).origin_spec() == (
                Origin::SplitChild { parent_tid: t0.tid_spec() }),
                forall|j: int| 0 <= j < i ==> #[trigger] children@[j] == subs@[j].tid_spec(),
            decreases n - i,
        {
            let id = minter.fresh_id();
            let b = self.brands[i];
            let mut bs: Vec<u64> = Vec::new();
            bs.push(b);
            subs.push(Token::assemble(id, bs, Origin::SplitChild { parent_tid: self.tid }));
            children.push(id);
            i += 1;
        }
        self.state = TokenState::SplitInert { children };
        Ok(subs)
    }

    /// Merges all outstanding sub-tokens of a split back into the parent.
    ///
    /// Succeeds exactly when handed the sub-tokens this token's split
    /// produced — same ids, same order, each still whole — and then
    /// restores the parent's own authority and retires every sub-token in
    /// place.  The minter never issues an id twice and tokens cannot be
    /// cloned, so matching the recorded ids identifies the very sub-tokens
    /// of the split.  A wrong, incomplete or reordered bundle, or a
    /// sub-token whose authority is itself delegated, reconstitutes
    /// nothing and is rejected outright.
    pub fn merge(&mut self, subs: &mut Vec<Token>) -> (r: Result<(), AccessError>)
        requires
            old(self).wf(),
        ensures
            final(self).wf(),
            r is Ok <==> merge_fits(*old(self), old(subs)@),
            r is Ok ==> merge_post(*old(self), *final(self), old(subs)@, final(subs)@),
            r matches Err(e) ==> {
                &&& e == merge_reject(*old(self))
                &&& *final(self) == *old(self)
                &&& final(subs)@ == old(subs)@
            },
    {
        let kids: Vec<u64> = match &self.state {
            TokenState::SplitInert { children } => copy_ids(children),
            TokenState::Retired => {
                return Err(AccessError::UseAfterRelease);
            },
            _ => {
                return Err(AccessError::CapabilityViolation);
            },
        };
        if subs.len() != kids.len() {
            return Err(AccessError::CapabilityViolation);
        }
        let n = kids.len();
        let mut i: usize = 0;
        while i < n
            invariant
                i <= n,
                subs@ == old(subs)@,
                subs@.len() == n,
                kids@.len() == n,
                old(self).wf(),
                *self == *old(self),
                old(self).state_spec() matches TokenState::SplitInert { children } && children@
                    == kids@,
                forall|k: int| 0 <= k < i ==> (#[trigger] subs@[k]).tid_spec() == kids@[k],
                forall|k: int| 0 <= k < i ==> (#[trigger] subs@[k]).state_spec() is Whole,
            decreases n - i,
        {
            if subs[i].tid != kids[i] {
                return Err(AccessError::CapabilityViolation);
            }
            match subs[i].state {
                TokenState::Whole => {},
                _ => {
                    return Err(AccessError::CapabilityViolation);
                },
            }
            i += 1;
        }
        let ghost subs0 = subs@;
        let mut j: usize = 0;
        while j < n
            invariant
                j <= n,
                subs@.len() == n,
                subs0.len() == n,
                old(self).wf(),
                *self == *old(self),
                forall|k: int| 0 <= k < j ==> retired_version(#[trigger] subs0[k], subs@[k]),
                forall|k: int| j <= k < n ==> #[trigger] subs@[k] == subs0[k],
            decreases n - j,
        {
            let slot = &mut subs[j];
            slot.state = TokenState::Retired;
            j += 1;
        }
        self.state = TokenState::Whole;
        Ok(())
    }

    /// Unions two independent whole tokens into one fresh token governing
    /// the brands of both, for one bounded critical section.
    ///
    /// Both inputs are suspended for the union's lifetime: every access
    /// through them is rejected until `release`, so the union's exclusive
    /// window can never overlap a window opened through an original.  A
    /// token is never unioned with itself or with a token sharing any of
    /// its brands: the union must not pass as a grant of new rights over a
    /// brand already held.
    pub fn union(&mut self, other: &mut Token, minter: &mut Minter) -> (r: Result<
        Token,
        AccessError,
    >)
        requires
            old(self).wf(),
            old(other).wf(),
            old(minter).next_spec() < u64::MAX,
        ensures
            final(self).wf(),
            final(other).wf(),
            r is Ok <==> union_fits(*old(self), *old(other)),
            r matches Ok(u) ==> union_post(
                *old(self),
                *final(self),
                *old(other),
                *final(other),
                *old(minter),
                *final(minter),
                u,
            ),
            r matches Err(e) ==> {
                &&& e == union_reject(*old(self), *old(other))
                &&& *final(self) == *old(self)
                &&& *final(other) == *old(other)
                &&& *final(minter) == *old(minter)
            },
    {
        if matches!(self.state, TokenState::Retired) || matches!(
            other.state,
            TokenState::Retired,
        ) {
            return Err(AccessError::UseAfterRelease);
        }
        if !matches!(self.state, TokenState::Whole) || !matches!(other.state, TokenState::Whole) {
            return Err(AccessError::CapabilityViolation);
        }
        if self.tid == other.tid {
            return Err(AccessError::CapabilityViolation);
        }
        if overlaps_ids(&self.brands, &other.brands) {
            return Err(AccessError::CapabilityViolation);
        }
        let utid = minter.fresh_id();
        let combined = concat_ids(&self.brands, &other.brands);
        let u = Token::assemble(
            utid,
            combined,
            Origin::UnionOf { left_tid: self.tid, right_tid: other.tid },
        );
        proof {
            lemma_no_dup_concat(self.brands_spec(), other.brands_spec());
        }
        self.state = TokenState::UnionInert { union_tid: utid };
        other.state = TokenState::UnionInert { union_tid: utid };
        Ok(u)
    }

    /// Releases a union token, restoring its two originals.
    ///
    /// Succeeds exactly when called on the live union of `left` and
    /// `right` (in that order); then the union token is retired and each
    /// original again independently governs only its own brands.
    pub fn release(&mut self, left: &mut Token, right: &mut Token) -> (r: Result<
        (),
        AccessError,
    >)
        requires
            old(self).wf(),
            old(left).wf(),
            old(right).wf(),
        ensures
            final(self).wf(),
            final(left).wf(),
            final(right).wf(),
            r is Ok <==> release_fits(*old(self), *old(left), *old(right)),
            r is Ok ==> release_post(
                *old(self),
                *final(self),
                *old(left),
                *final(left),
                *old(right),
                *final(right),
            ),
            r matches Err(e) ==> {
                &&& e == release_reject(*old(self))
                &&& *final(self) == *old(self)
                &&& *final(left) == *old(left)
                &&& *final(right) == *old(right)
            },
    {
        match self.state {
            TokenState::Whole => {},
            TokenState::Retired => {
                return Err(AccessError::UseAfterRelease);
            },
            _ => {
                return Err(AccessError::CapabilityViolation);
            },
        }
        let (lt, rt) = match self.origin {
            Origin::UnionOf { left_tid, right_tid } => (left_tid, right_tid),
            _ => {
                return Err(AccessError::CapabilityViolation);
            },
        };
        if left.tid != lt || right.tid != rt {
            return Err(AccessError::CapabilityViolation);
        }
        let left_suspended = match &left.state {
            TokenState::UnionInert { union_tid } => *union_tid == self.tid,
            _ => false,
        };
        if !left_suspended {
            return Err(AccessError::CapabilityViolation);
        }
        let right_suspended = match &right.state {
            TokenState::UnionInert { union_tid } => *union_tid == self.tid,
            _ => false,
        };
        if !right_suspended {
            return Err(AccessError::CapabilityViolation);
        }
        left.state = TokenState::Whole;
        right.state = TokenState::Whole;
        self.state = TokenState::Retired;
        Ok(())
    }
}

/// Concatenating two duplicate-free, disjoint id sequences keeps them
/// duplicate-free.
proof fn lemma_no_dup_concat(a: Seq<u64>, b: Seq<u64>)
    requires
        no_dup(a),
        no_dup(b),
        disjoint_ids(a, b),
    ensures
        no_dup(a + b),
{
    assert forall|i: int, j: int| 0 <= i < j < (a + b).len() implies (a + b)[i] != (a + b)[j] by {
        if i < a.len() && j >= a.len() {
            assert(a.contains(a[i]));
            assert(b.contains(b[j - a.len()]));
        }
    }
}

/// A copy of an id list.
fn copy_ids(v: &Vec<u64>) -> (r: Vec<u64>)
    ensures
        r@ == v@,
{
    let mut r: Vec<u64> = Vec::new();
    let mut i: usize = 0;
    while i < v.len()
        invariant
            i <= v@.len(),
            r@ == v@.subrange(0, i as int),
        decreases v@.len() - i,
    {
        r.push(v[i]);
        i += 1;
    }
    r
}

/// The ids of `a` followed by the ids of `b`.
fn concat_ids(a: &Vec<u64>, b: &Vec<u64>) -> (r: Vec<u64>)
    ensures
        r@ == a@ + b@,
{
    let mut r = copy_ids(a);
    let mut i: usize = 0;
    while i < b.len()
        invariant
            i <= b@.len(),
            r@ == a@ + b@.subrange(0, i as int),
        decreases b@.len() - i,
    {
        r.push(b[i]);
        i += 1;
    }
    r
}

/// Whether the two id lists share an id.
fn overlaps_ids(a: &Vec<u64>, b: &Vec<u64>) -> (r: bool)
    ensures
        r == !disjoint_ids(a@, b@),
{
    let mut i: usize = 0;
    while i < a.len()
        invariant
            i <= a@.len(),
            forall|k: int| 0 <= k < i ==> !b@.contains(#[trigger] a@[k]),
        decreases a@.len() - i,
    {
        if contains_id(b, a[i]) {
            assert(a@.contains(a@[i as int]));
            return true;
        }
        i += 1;
    }
    proof {
        assert forall|x: u64| a@.contains(x) implies !b@.contains(x) by {
            let k = choose|k: int| 0 <= k < a@.len() && a@[k] == x;
            assert(!b@.contains(a@[k]));
        }
    }
    false
}

/// Whether `ids` holds `x`.
fn contains_id(ids: &Vec<u64>, x: u64) -> (r: bool)
    ensures
        r == ids@.contains(x),
{
    let mut i: usize = 0;
    while i < ids.len()
        invariant
            i <= ids@.len(),
            forall|k: int| 0 <= k < i ==> ids@[k] != x,
        decreases ids@.len() - i,
    {
        if ids[i] == x {
            return true;
        }
        i += 1;
    }
    false
}

} // verus!
