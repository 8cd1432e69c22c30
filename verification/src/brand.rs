//! Brands and the minter that issues them.
//!
//! A brand is a process-unique, unforgeable identifier with no behaviour of
//! its own: it only partitions cells into access domains.  Uniqueness is
//! carried by a generation counter: the minter hands out strictly
//! increasing ids, so no two minted brands are ever equal, even when minted
//! by identical code at identical call sites.

use vstd::prelude::*;

use crate::token::Origin;
use crate::token::Token;

verus! {

/// An unforgeable access-domain identifier.
///
/// Brands cannot be cloned, copied or constructed outside this crate: the
/// only source is `Minter::mint` and `Minter::mint_group`, which never
/// issue the same id twice.
pub struct Brand {
    id: u64,
}

impl Brand {
    /// The brand's unique id.
    pub closed spec fn id_spec(&self) -> u64 {
        self.id
    }

    /// The id as a runtime value, for the access checks in this crate.
    pub(crate) fn id_value(&self) -> (r: u64)
        ensures
            r == self.id_spec(),
    {
        self.id
    }
}

/// The generation counter behind brand and token ids.
///
/// Every id a minter issues is at least `next_spec()` at the time of the
/// call, and `next_spec()` only ever grows; two ids issued by the same
/// minter therefore never collide.
pub struct Minter {
    next: u64,
}

/// What `Minter::mint` did: one fresh brand, one fresh whole token
/// governing exactly that brand.
pub open spec fn mint_post(m0: Minter, m1: Minter, b: Brand, t: Token) -> bool {
    &&& b.id_spec() == m0.next_spec()
    &&& t.tid_spec() == m0.next_spec() + 1
    &&& m1.next_spec() == m0.next_spec() + 2
    &&& t.brands_spec().len() == 1
    &&& t.brands_spec()[0] == b.id_spec()
    &&& t.state_spec() is Whole
    &&& t.origin_spec() is Minted
    &&& t.wf()
}

/// What `Minter::mint_group` did: `bs.len()` fresh sibling brands, one per
/// declared field of a composite, and one fresh whole token governing all
/// of them, in declaration order.
pub open spec fn mint_group_post(m0: Minter, m1: Minter, bs: Seq<Brand>, t: Token) -> bool {
    &&& bs.len() >= 1
    &&& forall|i: int| 0 <= i < bs.len() ==> #[trigger] bs[i].id_spec() == m0.next_spec() + i
    &&& t.tid_spec() == m0.next_spec() + bs.len()
    &&& m1.next_spec() == m0.next_spec() + bs.len() + 1
    &&& t.brands_spec().len() == bs.len()
    &&& forall|i: int| 0 <= i < bs.len() ==> #[trigger] t.brands_spec()[i] == bs[i].id_spec()
    &&& t.state_spec() is Whole
    &&& t.origin_spec() is Minted
    &&& t.wf()
}

impl Minter {
    /// The next id this minter will issue.
    pub closed spec fn next_spec(&self) -> u64 {
        self.next
    }

    /// A fresh minter.  Distinctness of brands is per minter: brands from
    /// two different minters are not comparable, so a program keeps one.
    pub fn new() -> (m: Minter)
        ensures
            m.next_spec() == 0,
    {
        Minter { next: 0 }
    }

    /// Issues one fresh id.
    pub(crate) fn fresh_id(&mut self) -> (id: u64)
        requires
            old(self).next_spec() < u64::MAX,
        ensures
            id == old(self).next_spec(),
            final(self).next_spec() == old(self).next_spec() + 1,
    {
        let id = self.next;
        self.next = self.next + 1;
        id
    }

    /// Mints a fresh brand and the one token bound to it.
    ///
    /// The brand is distinct from every brand this minter has issued or
    /// will issue, even for two calls with identical surrounding state:
    /// distinctness is tied to the invocation, through the counter.
    /// Minting cannot fail.
    pub fn mint(&mut self) -> (r: (Brand, Token))
        requires
            old(self).next_spec() + 2 <= u64::MAX,
        ensures
            mint_post(*old(self), *final(self), r.0, r.1),
    {
        let brand_id = self.fresh_id();
        let tid = self.fresh_id();
        let mut ids: Vec<u64> = Vec::new();
        ids.push(brand_id);
        let token = Token::assemble(tid, ids, Origin::Minted);
        (Brand { id: brand_id }, token)
    }

    /// Mints `k` fresh sibling brands — one per declared field of a
    /// composite — and one token governing all of them.
    ///
    /// The token starts whole: it alone grants access to every field's
    /// cells.  Splitting it yields one independent sub-token per brand, in
    /// the order minted here.
    pub fn mint_group(&mut self, k: usize) -> (r: (Vec<Brand>, Token))
        requires
            1 <= k,
            old(self).next_spec() + k + 1 <= u64::MAX,
        ensures
            r.0@.len() == k,
            mint_group_post(*old(self), *final(self), r.0@, r.1),
    {
        let ghost m0 = *self;
        let mut brands: Vec<Brand> = Vec::new();
        let mut ids: Vec<u64> = Vec::new();
        let mut i: usize = 0;
        while i < k
            invariant
                i <= k,
                m0.next_spec() + k + 1 <= u64::MAX,
                self.next_spec() == m0.next_spec() + i,
                brands@.len() == i,
                ids@.len() == i,
                forall|j: int| 0 <= j < i ==> #[trigger] brands@[j].id_spec() == m0.next_spec() + j,
                forall|j: int| 0 <= j < i ==> #[trigger] ids@[j] == m0.next_spec() + j,
            decreases k - i,
        {
            let id = self.fresh_id();
            brands.push(Brand { id });
            ids.push(id);
            i += 1;
        }
        let tid = self.fresh_id();
        let token = Token::assemble(tid, ids, Origin::Minted);
        (brands, token)
    }
}

} // verus!
