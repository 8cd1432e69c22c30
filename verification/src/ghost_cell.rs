//! Cells: values reachable only through a token of the matching brand.
//!
//! A `GhostCell` owns one value and carries the id of the brand it was
//! constructed under.  It exposes no direct access: `read` demands a shared
//! reference to a governing token, `write` an exclusive one, and both are
//! checked against the token's brands and state at the call.  Every alias
//! of the cell obeys the same gate, so the token's own shared/exclusive
//! borrow discipline is inherited by all cells of its brands.
//!
//! The cell owns its value, so a write borrows the cell exclusively as
//! well as the token: the token borrow carries the brand-level guarantee —
//! no other window over any cell of the brand while it lives — and the
//! cell borrow the value-level one.  The brand and state checks happen at
//! run time, each a single counter comparison against the token's ids.

use vstd::prelude::*;

use crate::brand::Brand;
use crate::token::AccessError;
use crate::token::Token;

verus! {

/// A value of type `T`, tagged with the brand it was constructed under and
/// disclosed only to tokens governing that brand.
pub struct GhostCell<T> {
    brand: u64,
    value: T,
}

impl<T> GhostCell<T> {
    /// The id of the brand this cell belongs to.
    pub closed spec fn brand_spec(&self) -> u64 {
        self.brand
    }

    /// The value the cell currently holds.
    pub closed spec fn value_spec(&self) -> T {
        self.value
    }

    /// What `read` returns, as a value: the content when the token is
    /// whole and governs the cell's brand, the rejection otherwise.
    pub open spec fn read_spec(&self, token: Token) -> Result<T, AccessError> {
        match token.access_for(self.brand_spec()) {
            Ok(()) => Ok(self.value_spec()),
            Err(e) => Err(e),
        }
    }

    /// Creates a cell that belongs to `brand`, consuming `value`.  From
    /// here on the value is reachable only through a token governing that
    /// brand.  Construction cannot fail.
    pub fn new(brand: &Brand, value: T) -> (c: Self)
        ensures
            c.brand_spec() == brand.id_spec(),
            c.value_spec() == value,
    {
        GhostCell { brand: brand.id_value(), value }
    }

    /// Unwraps the cell back into its plain value.
    pub fn into_inner(self) -> (v: T)
        ensures
            v == self.value_spec(),
    {
        self.value
    }

    /// The access check alone: what presenting `token` for this cell
    /// yields, without touching the content.
    pub fn can_access(&self, token: &Token) -> (r: Result<(), AccessError>)
        ensures
            r == token.access_for(self.brand_spec()),
    {
        token.check_access_id(self.brand)
    }

    /// Reads through a shared token reference.
    ///
    /// Any number of such calls may be outstanding at once; all observe
    /// the same value absent an intervening write.  Rejected — never a
    /// silent wrong-cell access — when the token does not govern this
    /// cell's brand or its authority is delegated or retired.
    pub fn read<'a>(&'a self, token: &'a Token) -> (r: Result<&'a T, AccessError>)
        ensures
            r is Ok <==> self.read_spec(*token) is Ok,
            r matches Ok(v) ==> self.read_spec(*token) == Ok::<T, AccessError>(*v),
            r matches Err(e) ==> self.read_spec(*token) == Err::<T, AccessError>(e),
    {
        match token.check_access_id(self.brand) {
            Ok(()) => Ok(&self.value),
            Err(e) => Err(e),
        }
    }

    /// Writes through an exclusive token reference.
    ///
    /// On success the returned reference is the one live access path into
    /// any cell of this brand: it borrows the token exclusively, so no
    /// other read or write of the brand can be outstanding while it lives.
    /// The token itself is not changed.
    pub fn write<'a>(&'a mut self, token: &'a mut Token) -> (r: Result<&'a mut T, AccessError>)
        ensures
            *final(token) == *old(token),
            r is Ok <==> old(token).access_for(old(self).brand_spec()) is Ok,
            r matches Ok(v) ==> {
                &&& *v == old(self).value_spec()
                &&& final(self).brand_spec() == old(self).brand_spec()
                &&& final(self).value_spec() == *final(v)
            },
            r matches Err(e) ==> {
                &&& *final(self) == *old(self)
                &&& old(token).access_for(old(self).brand_spec()) == Err::<(), AccessError>(e)
            },
    {
        match token.check_access_id(self.brand) {
            Ok(()) => Ok(&mut self.value),
            Err(e) => Err(e),
        }
    }

    /// Returns the content directly from an exclusive borrow of the cell
    /// itself, with no token.
    ///
    /// Sound without a check: every access path to the cell goes through a
    /// reference to it, so an exclusive borrow of the cell guarantees that
    /// no token-mediated read or write of it is outstanding.
    pub fn get_mut(&mut self) -> (v: &mut T)
        ensures
            *v == old(self).value_spec(),
            final(self).brand_spec() == old(self).brand_spec(),
            final(self).value_spec() == *final(v),
    {
        &mut self.value
    }

    /// Replaces the content through an exclusive token reference,
    /// returning the previous value.  On rejection the offered value comes
    /// back untouched in the error.
    pub fn replace(&mut self, token: &mut Token, value: T) -> (r: Result<T, (AccessError, T)>)
        ensures
            *final(token) == *old(token),
            r is Ok <==> old(token).access_for(old(self).brand_spec()) is Ok,
            r matches Ok(prev) ==> {
                &&& prev == old(self).value_spec()
                &&& final(self).brand_spec() == old(self).brand_spec()
                &&& final(self).value_spec() == value
            },
            r matches Err(back) ==> {
                &&& *final(self) == *old(self)
                &&& back.1 == value
                &&& old(token).access_for(old(self).brand_spec()) == Err::<(), AccessError>(back.0)
            },
    {
        match self.write(token) {
            Ok(slot) => {
                let mut prev = value;
                std::mem::swap(slot, &mut prev);
                Ok(prev)
            },
            Err(e) => Err((e, value)),
        }
    }
}

impl<T: Clone> GhostCell<T> {
    /// A new cell of the same brand holding a clone of the content, made
    /// under read access to the token.
    pub fn clone(&self, token: &Token) -> (r: Result<GhostCell<T>, AccessError>)
        ensures
            r is Ok <==> token.access_for(self.brand_spec()) is Ok,
            r matches Ok(c) ==> {
                &&& c.brand_spec() == self.brand_spec()
                &&& vstd::pervasive::cloned::<T>(self.value_spec(), c.value_spec())
            },
            r matches Err(e) ==> token.access_for(self.brand_spec()) == Err::<(), AccessError>(e),
    {
        match self.read(token) {
            Ok(v) => Ok(GhostCell { brand: self.brand, value: v.clone() }),
            Err(e) => Err(e),
        }
    }
}

} // verus!
