//! The laws of the capability algebra, proved from the contracts that the
//! executable operations ensure.
//!
//! Each proof function takes the transition relations of the operations it
//! speaks about (`mint_post`, `split_post`, ...) as premises; callers obtain
//! those relations directly from the operations' `ensures` clauses.

use vstd::prelude::*;

use crate::brand::mint_post;
use crate::brand::Brand;
use crate::brand::Minter;
use crate::ghost_cell::GhostCell;
use crate::token::merge_fits;
use crate::token::merge_post;
use crate::token::release_fits;
use crate::token::release_post;
use crate::token::split_post;
use crate::token::union_fits;
use crate::token::union_post;
use crate::token::AccessError;
use crate::token::Token;
use crate::token::TokenState;

verus! {

/// Brand distinctness: two independently minted brands are never equal, and
/// a cell tagged with one minting's brand is never accessible through the
/// other minting's token — in either direction.
///
/// The premise `ma1.next_spec() <= mb0.next_spec()` says only that the
/// second mint came at or after the first on the same counter; every
/// operation of this library only ever grows the counter.
pub proof fn lemma_brand_distinctness(
    ma0: Minter,
    ma1: Minter,
    b1: Brand,
    t1: Token,
    mb0: Minter,
    mb1: Minter,
    b2: Brand,
    t2: Token,
)
    requires
        mint_post(ma0, ma1, b1, t1),
        mint_post(mb0, mb1, b2, t2),
        ma1.next_spec() <= mb0.next_spec(),
    ensures
        b1.id_spec() != b2.id_spec(),
        !t2.governs(b1.id_spec()),
        t2.access_for(b1.id_spec()) == Err::<(), AccessError>(AccessError::BrandMismatch),
        !t1.governs(b2.id_spec()),
        t1.access_for(b2.id_spec()) == Err::<(), AccessError>(AccessError::BrandMismatch),
        t1.access_for(b1.id_spec()) == Ok::<(), AccessError>(()),
        t2.access_for(b2.id_spec()) == Ok::<(), AccessError>(()),
{
    assert(t1.brands_spec()[0] == b1.id_spec());
    assert(t2.brands_spec()[0] == b2.id_spec());
}

/// Read sharing: a read through a token that passes the access check
/// returns exactly the stored value.  The result depends only on the cell
/// and the token, so any number of interleaved reads through the same token
/// observe the same value absent an intervening write.
pub proof fn lemma_read_sharing<T>(c: GhostCell<T>, t: Token)
    requires
        t.access_for(c.brand_spec()) is Ok,
    ensures
        c.read_spec(t) == Ok::<T, AccessError>(c.value_spec()),
{
}

/// No second window, delegated case: while a token's authority is delegated
/// — to the sub-tokens of a split or into a union — every access through it
/// is rejected as a capability violation, whatever the brand.
pub proof fn lemma_inert_rejects_all(t: Token)
    requires
        t.state_spec() matches TokenState::SplitInert { .. } || t.state_spec()
            matches TokenState::UnionInert { .. },
    ensures
        forall|bid: u64| t.access_for(bid) == Err::<(), AccessError>(
            AccessError::CapabilityViolation,
        ),
{
}

/// No window at all, retired case: a token retired by a merge or a release
/// rejects every access as a use after release, whatever the brand.
pub proof fn lemma_retired_rejects_all(t: Token)
    requires
        t.state_spec() is Retired,
    ensures
        forall|bid: u64| t.access_for(bid) == Err::<(), AccessError>(AccessError::UseAfterRelease),
{
}

/// Merge is owed: the sub-tokens a split hands out always fit their parent,
/// as long as each is still whole — so `merge(split(token))` cannot be
/// rejected.
pub proof fn lemma_split_always_merges(
    t0: Token,
    t1: Token,
    m0: Minter,
    m1: Minter,
    subs: Seq<Token>,
)
    requires
        split_post(t0, t1, m0, m1, subs),
    ensures
        merge_fits(t1, subs),
{
}

/// Split/merge round trip: merging the sub-tokens of a split yields a token
/// granting exactly the access of the original — same identity, same
/// brands, and the same outcome for every conceivable access.
pub proof fn lemma_split_merge_round_trip(
    t0: Token,
    t1: Token,
    t2: Token,
    m0: Minter,
    m1: Minter,
    subs: Seq<Token>,
    retired: Seq<Token>,
)
    requires
        split_post(t0, t1, m0, m1, subs),
        merge_post(t1, t2, subs, retired),
    ensures
        t2.tid_spec() == t0.tid_spec(),
        t2.brands_spec() == t0.brands_spec(),
        t2.state_spec() is Whole,
        forall|bid: u64| #[trigger] t2.access_for(bid) == t0.access_for(bid),
{
}

/// Split partition: the sub-tokens of one split cover exactly the parent's
/// brands, and are mutually disjoint — two distinct sub-tokens never govern
/// a common brand, so exclusive windows through them can never meet.
pub proof fn lemma_split_disjointness(
    t0: Token,
    t1: Token,
    m0: Minter,
    m1: Minter,
    subs: Seq<Token>,
)
    requires
        t0.wf(),
        split_post(t0, t1, m0, m1, subs),
    ensures
        forall|i: int, bid: u64|
            0 <= i < subs.len() ==> ((#[trigger] subs[i].governs(bid)) <==> bid
                == t0.brands_spec()[i]),
        forall|i: int, j: int, bid: u64|
            0 <= i < subs.len() && 0 <= j < subs.len() && i != j && #[trigger] subs[i].governs(bid)
                ==> !(#[trigger] subs[j].governs(bid)),
        forall|bid: u64| #[trigger]
            t0.governs(bid) <==> exists|i: int|
                0 <= i < subs.len() && #[trigger] subs[i].governs(bid),
{
    assert forall|i: int, bid: u64| 0 <= i < subs.len() implies ((#[trigger] subs[i].governs(bid))
        <==> bid == t0.brands_spec()[i]) by {
        assert(subs[i].brands_spec().len() == 1);
        assert(subs[i].brands_spec()[0] == t0.brands_spec()[i]);
        if subs[i].governs(bid) {
            let k = choose|k: int|
                0 <= k < subs[i].brands_spec().len() && subs[i].brands_spec()[k] == bid;
            assert(k == 0);
        } else {
            assert(bid == t0.brands_spec()[i] ==> subs[i].brands_spec().contains(bid)) by {
                if bid == t0.brands_spec()[i] {
                    assert(subs[i].brands_spec()[0] == bid);
                }
            }
        }
    }
    assert forall|bid: u64| #[trigger] t0.governs(bid) implies exists|i: int|
        0 <= i < subs.len() && #[trigger] subs[i].governs(bid) by {
        let k = choose|k: int|
            0 <= k < t0.brands_spec().len() && t0.brands_spec()[k] == bid;
        assert(subs[k].governs(bid));
    }
    assert forall|bid: u64|
        (exists|i: int| 0 <= i < subs.len() && #[trigger] subs[i].governs(bid)) implies #[trigger]
        t0.governs(bid) by {
        let i = choose|i: int| 0 <= i < subs.len() && #[trigger] subs[i].governs(bid);
        assert(t0.brands_spec()[i] == bid);
        assert(t0.brands_spec().contains(bid));
    }
}

/// Union coverage: the union token governs exactly the brands of its two
/// inputs, and grants access precisely where one of them would have; while
/// it lives, both inputs reject everything.
pub proof fn lemma_union_grants_both(
    a0: Token,
    a1: Token,
    b0: Token,
    b1: Token,
    m0: Minter,
    m1: Minter,
    u: Token,
)
    requires
        union_post(a0, a1, b0, b1, m0, m1, u),
    ensures
        forall|bid: u64| #[trigger] u.governs(bid) <==> a0.governs(bid) || b0.governs(bid),
        forall|bid: u64| #[trigger] u.access_for(bid) is Ok <==> a0.governs(bid) || b0.governs(
            bid,
        ),
        forall|bid: u64| #[trigger] a1.access_for(bid) == Err::<(), AccessError>(
            AccessError::CapabilityViolation,
        ),
        forall|bid: u64| #[trigger] b1.access_for(bid) == Err::<(), AccessError>(
            AccessError::CapabilityViolation,
        ),
{
    assert forall|bid: u64| #[trigger] u.governs(bid) <==> a0.governs(bid) || b0.governs(bid) by {
        let a = a0.brands_spec();
        let b = b0.brands_spec();
        if u.governs(bid) {
            let k = choose|k: int| 0 <= k < (a + b).len() && (a + b)[k] == bid;
            if k < a.len() {
                assert(a[k] == bid);
                assert(a0.governs(bid));
            } else {
                assert(b[k - a.len()] == bid);
                assert(b0.governs(bid));
            }
        }
        if a0.governs(bid) {
            let k = choose|k: int| 0 <= k < a.len() && a[k] == bid;
            assert((a + b)[k] == bid);
            assert(u.governs(bid));
        }
        if b0.governs(bid) {
            let k = choose|k: int| 0 <= k < b.len() && b[k] == bid;
            assert((a + b)[a.len() + k] == bid);
            assert(u.governs(bid));
        }
    }
}

/// Release is owed: a live union always fits a release with the two tokens
/// it was built from.
pub proof fn lemma_union_always_releases(
    a0: Token,
    a1: Token,
    b0: Token,
    b1: Token,
    m0: Minter,
    m1: Minter,
    u: Token,
)
    requires
        union_post(a0, a1, b0, b1, m0, m1, u),
    ensures
        release_fits(u, a1, b1),
{
}

/// Union/release round trip: after the union token is released, each
/// original again grants exactly the access it granted before the union —
/// its own cells and no others — and the union token itself is dead.
pub proof fn lemma_union_release_round_trip(
    a0: Token,
    a1: Token,
    a2: Token,
    b0: Token,
    b1: Token,
    b2: Token,
    m0: Minter,
    m1: Minter,
    u0: Token,
    u1: Token,
)
    requires
        union_fits(a0, b0),
        union_post(a0, a1, b0, b1, m0, m1, u0),
        release_post(u0, u1, a1, a2, b1, b2),
    ensures
        forall|bid: u64| #[trigger] a2.access_for(bid) == a0.access_for(bid),
        forall|bid: u64| #[trigger] b2.access_for(bid) == b0.access_for(bid),
        forall|bid: u64| #[trigger] u1.access_for(bid) == Err::<(), AccessError>(
            AccessError::UseAfterRelease,
        ),
{
}

} // verus!
