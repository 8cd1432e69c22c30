//! The composite consumer: entities under group tokens.

use ghost_cell::entity::attack;
use ghost_cell::entity::attack2;
use ghost_cell::AccessError;
use ghost_cell::Entity;
use ghost_cell::Hand;
use ghost_cell::Minter;
use ghost_cell::Ring;
use ghost_cell::Token;

fn fighters(minter: &mut Minter) -> (Entity, Entity, Token) {
    let (brands, token) = minter.mint_group(4);
    let a = Entity::new(
        &brands[0],
        &brands[1],
        &brands[2],
        &brands[3],
        100,
        vec![Ring { power: 7 }],
        Hand::Sword { sharpness: 40 },
        50,
    );
    let d = Entity::new(
        &brands[0],
        &brands[1],
        &brands[2],
        &brands[3],
        100,
        vec![],
        Hand::Shield { durability: 60 },
        50,
    );
    (a, d, token)
}

// sword 40 against shield 60: power 40, block 30, damage 10,
// attack cost 5, defend cost 2
#[test]
fn attack_exact_values() {
    let mut minter = Minter::new();
    let (mut a, mut d, mut token) = fighters(&mut minter);
    attack(&mut a, &mut d, &mut token).unwrap();
    assert_eq!(*a.energy.read(&token).unwrap(), 45);
    assert_eq!(*a.hp.read(&token).unwrap(), 100);
    assert_eq!(*d.energy.read(&token).unwrap(), 48);
    assert_eq!(*d.hp.read(&token).unwrap(), 90);
}

#[test]
fn attack2_matches_attack() {
    let mut minter = Minter::new();
    let (mut a, mut d, mut token) = fighters(&mut minter);
    attack2(&mut a, &mut d, &mut token, &mut minter).unwrap();
    // the group token came back whole: it still reads everything
    assert_eq!(*a.energy.read(&token).unwrap(), 45);
    assert_eq!(*d.energy.read(&token).unwrap(), 48);
    assert_eq!(*d.hp.read(&token).unwrap(), 90);
    // and a second round still works
    attack2(&mut a, &mut d, &mut token, &mut minter).unwrap();
    assert_eq!(*d.hp.read(&token).unwrap(), 80);
}

#[test]
fn cross_group_attack_needs_a_union() {
    let mut minter = Minter::new();
    let (mut a, _spar, mut token_a) = fighters(&mut minter);
    let (_spar2, mut d, mut token_b) = fighters(&mut minter);

    // with only one group's token the other entity is out of reach,
    // and nothing is written
    assert_eq!(
        attack(&mut a, &mut d, &mut token_a),
        Err(AccessError::BrandMismatch)
    );
    assert_eq!(*d.hp.read(&token_b).unwrap(), 100);

    // one union token covers both groups for the critical section
    let mut both = token_a.union(&mut token_b, &mut minter).unwrap();
    attack(&mut a, &mut d, &mut both).unwrap();
    assert_eq!(*d.hp.read(&both).unwrap(), 90);

    // after release the groups are independent again
    both.release(&mut token_a, &mut token_b).unwrap();
    assert_eq!(*a.energy.read(&token_a).unwrap(), 45);
    assert_eq!(*d.hp.read(&token_b).unwrap(), 90);
    assert_eq!(d.hp.read(&token_a).err(), Some(AccessError::BrandMismatch));
}

#[test]
fn entities_in_a_vec() {
    let mut minter = Minter::new();
    let (a, d, mut token) = fighters(&mut minter);
    let mut entities = vec![a, d];
    let (head, tail) = entities.split_at_mut(1);
    attack(&mut head[0], &mut tail[0], &mut token).unwrap();
    assert_eq!(*entities[1].hp.read(&token).unwrap(), 90);
}

// energy 40: the ring gains 40 / 4 = 10
#[test]
fn power_up_ring_exact_value() {
    let mut minter = Minter::new();
    let (brands, mut token) = minter.mint_group(4);
    let mut e = Entity::new(
        &brands[0],
        &brands[1],
        &brands[2],
        &brands[3],
        100,
        vec![Ring { power: 7 }, Ring { power: 3 }],
        Hand::Sword { sharpness: 1 },
        40,
    );
    e.power_up_ring(0, &mut token).unwrap();
    let rings = e.rings.read(&token).unwrap();
    assert_eq!(rings[0], Ring { power: 17 });
    assert_eq!(rings[1], Ring { power: 3 });
}

#[test]
fn saturation_stops_at_the_edges() {
    let mut minter = Minter::new();
    let (brands, mut token) = minter.mint_group(4);
    let mut a = Entity::new(
        &brands[0],
        &brands[1],
        &brands[2],
        &brands[3],
        1,
        vec![Ring { power: u32::MAX - 2 }],
        Hand::Sword { sharpness: u32::MAX },
        12,
    );
    let mut d = Entity::new(
        &brands[0],
        &brands[1],
        &brands[2],
        &brands[3],
        5,
        vec![],
        Hand::Sword { sharpness: 0 },
        1,
    );
    // a ring boost past the largest value stops there: 12 / 4 = 3 added
    // to u32::MAX - 2
    a.power_up_ring(0, &mut token).unwrap();
    let rings = a.rings.read(&token).unwrap();
    assert_eq!(rings[0], Ring { power: u32::MAX });

    attack(&mut a, &mut d, &mut token).unwrap();
    // damage u32::MAX against 5 hp: hp stops at zero
    assert_eq!(*d.hp.read(&token).unwrap(), 0);
    // costs larger than the reserves: energy stops at zero
    assert_eq!(*a.energy.read(&token).unwrap(), 0);
    assert_eq!(*d.energy.read(&token).unwrap(), 0);
}

#[test]
fn reinforce_shield_exact_value() {
    let mut minter = Minter::new();
    let (brands, mut token) = minter.mint_group(4);
    let mut e = Entity::new(
        &brands[0],
        &brands[1],
        &brands[2],
        &brands[3],
        100,
        vec![],
        Hand::Shield { durability: 60 },
        0,
    );
    e.reinforce_shield(&mut token).unwrap();
    assert_eq!(
        *e.hand.read(&token).unwrap(),
        Hand::Shield { durability: 62 }
    );

    // through the hand's own sub-token as well
    let mut subs = token.split(&mut minter).unwrap();
    e.reinforce_shield(&mut subs[2]).unwrap();
    token.merge(&mut subs).unwrap();
    assert_eq!(
        *e.hand.read(&token).unwrap(),
        Hand::Shield { durability: 64 }
    );
}

#[test]
fn attack_rejected_while_group_is_split() {
    let mut minter = Minter::new();
    let (mut a, mut d, mut token) = fighters(&mut minter);
    let mut subs = token.split(&mut minter).unwrap();
    assert_eq!(
        attack(&mut a, &mut d, &mut token),
        Err(AccessError::CapabilityViolation)
    );
    token.merge(&mut subs).unwrap();
    attack(&mut a, &mut d, &mut token).unwrap();
    assert_eq!(*d.hp.read(&token).unwrap(), 90);
}
