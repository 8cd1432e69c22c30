//! A composite consumer of the capability algebra: a game entity whose
//! fields live in cells of sibling brands under one group token.
//!
//! This module validates the algebra end to end: `attack` mutates two
//! entities under one whole token, and `attack2` does the same work through
//! per-field sub-tokens — split, write disjointly, merge — proving that the
//! round trip leaves the group token as it was.

use vstd::prelude::*;

use crate::brand::Brand;
use crate::brand::Minter;
use crate::ghost_cell::GhostCell;
use crate::token::inert_error;
use crate::token::AccessError;
use crate::token::Token;

verus! {

/// A power-up item carried by an entity.
#[derive(Clone, Copy, Debug, PartialEq, Eq, Structural)]
pub struct Ring {
    pub power: u32,
}

/// What an entity wields.
#[derive(Clone, Copy, Debug, PartialEq, Eq, Structural)]
pub enum Hand {
    Shield { durability: u32 },
    Sword { sharpness: u32 },
}

/// A game entity: each field is a cell under its own brand, so that a
/// split of the group token can hand out disjoint per-field write rights.
pub struct Entity {
    pub hp: GhostCell<u32>,
    pub rings: GhostCell<Vec<Ring>>,
    pub hand: GhostCell<Hand>,
    pub energy: GhostCell<u32>,
}

/// `a - b`, stopping at zero.
pub open spec fn sat_sub(a: u32, b: u32) -> u32 {
    if a >= b {
        (a - b) as u32
    } else {
        0
    }
}

/// `a + b`, stopping at the largest value.
pub open spec fn sat_add(a: u32, b: u32) -> u32 {
    if a + b > u32::MAX {
        u32::MAX
    } else {
        (a + b) as u32
    }
}

/// The offensive power of a hand: a sword cuts with its sharpness, a
/// shield only bashes.
pub open spec fn hand_power(h: Hand) -> u32 {
    match h {
        Hand::Sword { sharpness } => sharpness,
        Hand::Shield { durability } => durability / 8,
    }
}

/// How much of an incoming blow a hand blocks.
pub open spec fn hand_block(h: Hand) -> u32 {
    match h {
        Hand::Shield { durability } => durability / 2,
        Hand::Sword { .. } => 0,
    }
}

/// The damage a hand deals through a defending hand.
pub open spec fn damage_dealt(attacker: Hand, defender: Hand) -> u32 {
    sat_sub(hand_power(attacker), hand_block(defender))
}

/// The energy an attack with these hands costs the attacker.
pub open spec fn attack_cost_of(attacker: Hand, defender: Hand) -> u32 {
    damage_dealt(attacker, defender) / 2
}

/// The energy defending against these hands costs the defender.
pub open spec fn defend_cost_of(attacker: Hand, defender: Hand) -> u32 {
    damage_dealt(attacker, defender) / 4
}

/// The access outcome of reading both entities' hands, in order: the
/// attacker's, then the defender's.
pub open spec fn hands_check(a: Entity, d: Entity, t: Token) -> Result<(), AccessError> {
    if t.access_for(a.hand.brand_spec()) is Err {
        t.access_for(a.hand.brand_spec())
    } else {
        t.access_for(d.hand.brand_spec())
    }
}

/// The access outcome of a whole attack: both hands are read, then the
/// attacker's energy, the defender's energy and the defender's hp are
/// written, checked in that order before anything is touched.
pub open spec fn attack_check(a: Entity, d: Entity, t: Token) -> Result<(), AccessError> {
    if t.access_for(a.hand.brand_spec()) is Err {
        t.access_for(a.hand.brand_spec())
    } else if t.access_for(d.hand.brand_spec()) is Err {
        t.access_for(d.hand.brand_spec())
    } else if t.access_for(a.energy.brand_spec()) is Err {
        t.access_for(a.energy.brand_spec())
    } else if t.access_for(d.energy.brand_spec()) is Err {
        t.access_for(d.energy.brand_spec())
    } else {
        t.access_for(d.hp.brand_spec())
    }
}

/// What an attack did: the attacker paid the attack cost, the defender
/// paid the defend cost and took the damage; everything else is untouched.
pub open spec fn attack_effect(a0: Entity, a1: Entity, d0: Entity, d1: Entity) -> bool {
    let ah = a0.hand.value_spec();
    let dh = d0.hand.value_spec();
    &&& a1.hp == a0.hp
    &&& a1.rings == a0.rings
    &&& a1.hand == a0.hand
    &&& a1.energy.brand_spec() == a0.energy.brand_spec()
    &&& a1.energy.value_spec() == sat_sub(a0.energy.value_spec(), attack_cost_of(ah, dh))
    &&& d1.rings == d0.rings
    &&& d1.hand == d0.hand
    &&& d1.energy.brand_spec() == d0.energy.brand_spec()
    &&& d1.energy.value_spec() == sat_sub(d0.energy.value_spec(), defend_cost_of(ah, dh))
    &&& d1.hp.brand_spec() == d0.hp.brand_spec()
    &&& d1.hp.value_spec() == sat_sub(d0.hp.value_spec(), damage_dealt(ah, dh))
}

/// The entity's cells stand under the token's brands in declaration order:
/// hp, rings, hand, energy — an entity is "typed by its group".  A group
/// token minted with `mint_group(4)` and an entity built from those four
/// brands satisfy it.
pub open spec fn entity_layout(e: Entity, t: Token) -> bool {
    &&& t.brands_spec().len() == 4
    &&& t.brands_spec()[0] == e.hp.brand_spec()
    &&& t.brands_spec()[1] == e.rings.brand_spec()
    &&& t.brands_spec()[2] == e.hand.brand_spec()
    &&& t.brands_spec()[3] == e.energy.brand_spec()
}

impl Entity {
    /// Builds an entity whose four cells are tagged with the four given
    /// brands — normally the brands of one `mint_group(4)` call, in order.
    pub fn new(
        hp_brand: &Brand,
        rings_brand: &Brand,
        hand_brand: &Brand,
        energy_brand: &Brand,
        hp: u32,
        rings: Vec<Ring>,
        hand: Hand,
        energy: u32,
    ) -> (e: Entity)
        ensures
            e.hp.brand_spec() == hp_brand.id_spec(),
            e.hp.value_spec() == hp,
            e.rings.brand_spec() == rings_brand.id_spec(),
            e.rings.value_spec() == rings,
            e.hand.brand_spec() == hand_brand.id_spec(),
            e.hand.value_spec() == hand,
            e.energy.brand_spec() == energy_brand.id_spec(),
            e.energy.value_spec() == energy,
    {
        Entity {
            hp: GhostCell::new(hp_brand, hp),
            rings: GhostCell::new(rings_brand, rings),
            hand: GhostCell::new(hand_brand, hand),
            energy: GhostCell::new(energy_brand, energy),
        }
    }

    /// The damage this entity would deal to `other`, from the two hands.
    pub fn calculate_damage(&self, other: &Entity, token: &Token) -> (r: Result<u32, AccessError>)
        ensures
            r is Ok <==> hands_check(*self, *other, *token) is Ok,
            r matches Ok(v) ==> v == damage_dealt(self.hand.value_spec(), other.hand.value_spec()),
            r matches Err(e) ==> Err::<(), AccessError>(e) == hands_check(*self, *other, *token),
    {
        let ah = match self.hand.read(token) {
            Ok(h) => *h,
            Err(e) => {
                return Err(e);
            },
        };
        let dh = match other.hand.read(token) {
            Ok(h) => *h,
            Err(e) => {
                return Err(e);
            },
        };
        Ok(damage_dealt_value(ah, dh))
    }

    /// The energy attacking `other` would cost this entity.
    pub fn calculate_attack_cost(&self, other: &Entity, token: &Token) -> (r: Result<
        u32,
        AccessError,
    >)
        ensures
            r is Ok <==> hands_check(*self, *other, *token) is Ok,
            r matches Ok(v) ==> v == attack_cost_of(
                self.hand.value_spec(),
                other.hand.value_spec(),
            ),
            r matches Err(e) ==> Err::<(), AccessError>(e) == hands_check(*self, *other, *token),
    {
        let ah = match self.hand.read(token) {
            Ok(h) => *h,
            Err(e) => {
                return Err(e);
            },
        };
        let dh = match other.hand.read(token) {
            Ok(h) => *h,
            Err(e) => {
                return Err(e);
            },
        };
        Ok(damage_dealt_value(ah, dh) / 2)
    }

    /// The energy defending against `other` would cost this entity.
    pub fn calculate_defend_cost(&self, other: &Entity, token: &Token) -> (r: Result<
        u32,
        AccessError,
    >)
        ensures
            r is Ok <==> hands_check(*self, *other, *token) is Ok,
            r matches Ok(v) ==> v == defend_cost_of(
                other.hand.value_spec(),
                self.hand.value_spec(),
            ),
            r matches Err(e) ==> Err::<(), AccessError>(e) == hands_check(*self, *other, *token),
    {
        let dh = match self.hand.read(token) {
            Ok(h) => *h,
            Err(e) => {
                return Err(e);
            },
        };
        let ah = match other.hand.read(token) {
            Ok(h) => *h,
            Err(e) => {
                return Err(e);
            },
        };
        Ok(damage_dealt_value(ah, dh) / 4)
    }

    /// Spends `cost` energy, stopping at zero.
    pub fn use_energy(&mut self, cost: u32, token: &mut Token) -> (r: Result<(), AccessError>)
        ensures
            *final(token) == *old(token),
            r is Ok <==> old(token).access_for(old(self).energy.brand_spec()) is Ok,
            r matches Err(e) ==> {
                &&& *final(self) == *old(self)
                &&& Err::<(), AccessError>(e) == old(token).access_for(
                    old(self).energy.brand_spec(),
                )
            },
            r is Ok ==> {
                &&& final(self).hp == old(self).hp
                &&& final(self).rings == old(self).rings
                &&& final(self).hand == old(self).hand
                &&& final(self).energy.brand_spec() == old(self).energy.brand_spec()
                &&& final(self).energy.value_spec() == sat_sub(
                    old(self).energy.value_spec(),
                    cost,
                )
            },
    {
        let slot = match self.energy.write(token) {
            Ok(s) => s,
            Err(e) => {
                return Err(e);
            },
        };
        let cur = *slot;
        *slot = if cur >= cost {
            cur - cost
        } else {
            0
        };
        Ok(())
    }

    /// Takes `amount` damage, stopping at zero hp.
    pub fn damage(&mut self, amount: u32, token: &mut Token) -> (r: Result<(), AccessError>)
        ensures
            *final(token) == *old(token),
            r is Ok <==> old(token).access_for(old(self).hp.brand_spec()) is Ok,
            r matches Err(e) ==> {
                &&& *final(self) == *old(self)
                &&& Err::<(), AccessError>(e) == old(token).access_for(old(self).hp.brand_spec())
            },
            r is Ok ==> {
                &&& final(self).rings == old(self).rings
                &&& final(self).hand == old(self).hand
                &&& final(self).energy == old(self).energy
                &&& final(self).hp.brand_spec() == old(self).hp.brand_spec()
                &&& final(self).hp.value_spec() == sat_sub(old(self).hp.value_spec(), amount)
            },
    {
        let slot = match self.hp.write(token) {
            Ok(s) => s,
            Err(e) => {
                return Err(e);
            },
        };
        let cur = *slot;
        *slot = if cur >= amount {
            cur - amount
        } else {
            0
        };
        Ok(())
    }

    /// Hardens a wielded shield by two points of durability, stopping at
    /// the largest value.  Only a shield can be reinforced.
    pub fn reinforce_shield(&mut self, token: &mut Token) -> (r: Result<(), AccessError>)
        requires
            old(self).hand.value_spec() is Shield,
        ensures
            *final(token) == *old(token),
            r is Ok <==> old(token).access_for(old(self).hand.brand_spec()) is Ok,
            r matches Err(e) ==> {
                &&& *final(self) == *old(self)
                &&& Err::<(), AccessError>(e) == old(token).access_for(old(self).hand.brand_spec())
            },
            r is Ok ==> {
                &&& final(self).hp == old(self).hp
                &&& final(self).rings == old(self).rings
                &&& final(self).energy == old(self).energy
                &&& final(self).hand.brand_spec() == old(self).hand.brand_spec()
                &&& final(self).hand.value_spec() == (Hand::Shield {
                    durability: sat_add(old(self).hand.value_spec()->durability, 2),
                })
            },
    {
        let slot = match self.hand.write(token) {
            Ok(s) => s,
            Err(e) => {
                return Err(e);
            },
        };
        let hardened = match *slot {
            Hand::Shield { durability } => {
                if durability > u32::MAX - 2 {
                    u32::MAX
                } else {
                    durability + 2
                }
            },
            Hand::Sword { .. } => 0,
        };
        *slot = Hand::Shield { durability: hardened };
        Ok(())
    }

    /// The wielder's energy powers up one of its rings: the ring at
    /// `index` gains a quarter of the current energy.
    pub fn power_up_ring(&mut self, index: usize, token: &mut Token) -> (r: Result<
        (),
        AccessError,
    >)
        requires
            index < old(self).rings.value_spec()@.len(),
        ensures
            *final(token) == *old(token),
            r is Ok <==> (old(token).access_for(old(self).energy.brand_spec()) is Ok && old(
                token,
            ).access_for(old(self).rings.brand_spec()) is Ok),
            r matches Err(e) ==> {
                &&& *final(self) == *old(self)
                &&& Err::<(), AccessError>(e) == (if old(token).access_for(
                    old(self).energy.brand_spec(),
                ) is Err {
                    old(token).access_for(old(self).energy.brand_spec())
                } else {
                    old(token).access_for(old(self).rings.brand_spec())
                })
            },
            r is Ok ==> {
                &&& final(self).hp == old(self).hp
                &&& final(self).hand == old(self).hand
                &&& final(self).energy == old(self).energy
                &&& final(self).rings.brand_spec() == old(self).rings.brand_spec()
                &&& final(self).rings.value_spec()@ == old(self).rings.value_spec()@.update(
                    index as int,
                    Ring {
                        power: sat_add(
                            old(self).rings.value_spec()@[index as int].power,
                            old(self).energy.value_spec() / 4,
                        ),
                    },
                )
            },
    {
        let boost = match self.energy.read(token) {
            Ok(v) => *v / 4,
            Err(e) => {
                return Err(e);
            },
        };
        let slot = match self.rings.write(token) {
            Ok(s) => s,
            Err(e) => {
                return Err(e);
            },
        };
        let cur = slot[index].power;
        let grown = if cur > u32::MAX - boost {
            u32::MAX
        } else {
            cur + boost
        };
        slot.set(index, Ring { power: grown });
        Ok(())
    }
}

/// The damage formula as a runtime value.
fn damage_dealt_value(attacker: Hand, defender: Hand) -> (r: u32)
    ensures
        r == damage_dealt(attacker, defender),
{
    let p = match attacker {
        Hand::Sword { sharpness } => sharpness,
        Hand::Shield { durability } => durability / 8,
    };
    let b = match defender {
        Hand::Shield { durability } => durability / 2,
        Hand::Sword { .. } => 0,
    };
    if p >= b {
        p - b
    } else {
        0
    }
}

/// One attack of `a` on `d` under a single token governing the brands of
/// both entities' cells.
///
/// All five accesses are checked before anything is written, so the attack
/// either fully happens or leaves both entities untouched.
pub fn attack(a: &mut Entity, d: &mut Entity, token: &mut Token) -> (r: Result<(), AccessError>)
    ensures
        *final(token) == *old(token),
        r is Ok <==> attack_check(*old(a), *old(d), *old(token)) is Ok,
        r matches Err(e) ==> {
            &&& Err::<(), AccessError>(e) == attack_check(*old(a), *old(d), *old(token))
            &&& *final(a) == *old(a)
            &&& *final(d) == *old(d)
        },
        r is Ok ==> attack_effect(*old(a), *final(a), *old(d), *final(d)),
{
    let dmg = match a.calculate_damage(d, token) {
        Ok(v) => v,
        Err(e) => {
            return Err(e);
        },
    };
    let a_cost = match a.calculate_attack_cost(d, token) {
        Ok(v) => v,
        Err(e) => {
            return Err(e);
        },
    };
    let d_cost = match d.calculate_defend_cost(a, token) {
        Ok(v) => v,
        Err(e) => {
            return Err(e);
        },
    };
    match a.energy.can_access(token) {
        Ok(()) => {},
        Err(e) => {
            return Err(e);
        },
    }
    match d.energy.can_access(token) {
        Ok(()) => {},
        Err(e) => {
            return Err(e);
        },
    }
    match d.hp.can_access(token) {
        Ok(()) => {},
        Err(e) => {
            return Err(e);
        },
    }
    match a.use_energy(a_cost, token) {
        Ok(()) => {},
        Err(e) => {
            return Err(e);
        },
    }
    match d.use_energy(d_cost, token) {
        Ok(()) => {},
        Err(e) => {
            return Err(e);
        },
    }
    match d.damage(dmg, token) {
        Ok(()) => {},
        Err(e) => {
            return Err(e);
        },
    }
    Ok(())
}

/// The same attack, carried out through per-field sub-tokens.
///
/// The group token is split into one sub-token per field brand; the hands
/// are read through the hand sub-token, the writes go through the energy
/// and hp sub-tokens — disjoint capabilities that could be held
/// concurrently — and the bundle is merged back, leaving the group token
/// whole and governing exactly what it did before.
pub fn attack2(a: &mut Entity, d: &mut Entity, token: &mut Token, minter: &mut Minter) -> (r:
    Result<(), AccessError>)
    requires
        old(token).wf(),
        entity_layout(*old(a), *old(token)),
        entity_layout(*old(d), *old(token)),
        old(minter).next_spec() + 4 <= u64::MAX,
    ensures
        final(token).wf(),
        r is Ok <==> old(token).is_whole(),
        r matches Err(e) ==> {
            &&& e == inert_error(old(token).state_spec())
            &&& *final(a) == *old(a)
            &&& *final(d) == *old(d)
            &&& *final(token) == *old(token)
            &&& *final(minter) == *old(minter)
        },
        r is Ok ==> {
            &&& attack_effect(*old(a), *final(a), *old(d), *final(d))
            &&& final(token).tid_spec() == old(token).tid_spec()
            &&& final(token).brands_spec() == old(token).brands_spec()
            &&& final(token).is_whole()
            &&& final(minter).next_spec() == old(minter).next_spec() + 4
        },
{
    let mut subs = match token.split(minter) {
        Ok(s) => s,
        Err(e) => {
            return Err(e);
        },
    };
    let ah = match a.hand.read(&subs[2]) {
        Ok(h) => *h,
        Err(e) => {
            return Err(e);
        },
    };
    let dh = match d.hand.read(&subs[2]) {
        Ok(h) => *h,
        Err(e) => {
            return Err(e);
        },
    };
    let dmg = damage_dealt_value(ah, dh);
    let a_cost = dmg / 2;
    let d_cost = dmg / 4;
    match a.use_energy(a_cost, &mut subs[3]) {
        Ok(()) => {},
        Err(e) => {
            return Err(e);
        },
    }
    match d.use_energy(d_cost, &mut subs[3]) {
        Ok(()) => {},
        Err(e) => {
            return Err(e);
        },
    }
    match d.damage(dmg, &mut subs[0]) {
        Ok(()) => {},
        Err(e) => {
            return Err(e);
        },
    }
    match token.merge(&mut subs) {
        Ok(()) => {},
        Err(e) => {
            return Err(e);
        },
    }
    Ok(())
}

} // verus!
