//! Brand-scoped capability cells.
//!
//! A `Minter` issues process-unique `Brand`s, each paired with a `Token`.
//! A `GhostCell` stores a value under one brand and discloses it only to a
//! token governing that brand: a shared token reference grants reads, an
//! exclusive token reference grants writes.  Tokens can be split into
//! per-brand sub-tokens, merged back, and unioned across two groups; while
//! derived tokens are outstanding the originals are inert, so no two
//! exclusive windows can ever be open over the same brand.

use vstd::prelude::*;

pub mod brand;
pub mod entity;
pub mod ghost_cell;
pub mod laws;
pub mod token;

pub use brand::Brand;
pub use brand::Minter;
pub use entity::attack;
pub use entity::attack2;
pub use entity::Entity;
pub use entity::Hand;
pub use entity::Ring;
pub use ghost_cell::GhostCell;
pub use token::AccessError;
pub use token::Origin;
pub use token::Token;
pub use token::TokenState;
