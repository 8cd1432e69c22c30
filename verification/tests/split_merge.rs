//! Splitting a group token into per-field sub-tokens and merging back.

use ghost_cell::AccessError;
use ghost_cell::GhostCell;
use ghost_cell::Minter;

#[test]
fn split_merge_round_trip() {
    let mut minter = Minter::new();
    let (brands, mut parent) = minter.mint_group(3);
    let mut f1 = GhostCell::new(&brands[0], 10u32);
    let mut f2 = GhostCell::new(&brands[1], 20u32);
    let mut f3 = GhostCell::new(&brands[2], 30u32);

    let mut subs = parent.split(&mut minter).unwrap();
    assert_eq!(subs.len(), 3);

    // write through each sub-token
    *f1.write(&mut subs[0]).unwrap() = 11;
    *f2.write(&mut subs[1]).unwrap() = 21;
    *f3.write(&mut subs[2]).unwrap() = 31;

    // merge, then the parent grants exactly what it did before:
    // all three writes are visible through it
    parent.merge(&mut subs).unwrap();
    assert_eq!(*f1.read(&parent).unwrap(), 11);
    assert_eq!(*f2.read(&parent).unwrap(), 21);
    assert_eq!(*f3.read(&parent).unwrap(), 31);
}

#[test]
fn split_disjointness() {
    let mut minter = Minter::new();
    let (brands, mut parent) = minter.mint_group(3);
    let mut f1 = GhostCell::new(&brands[0], 1u32);
    let mut f2 = GhostCell::new(&brands[1], 2u32);

    let mut subs = parent.split(&mut minter).unwrap();
    let (head, tail) = subs.split_at_mut(1);
    let sub1 = &mut head[0];
    let sub2 = &mut tail[0];

    // both sub-tokens are held exclusively at the same time, and each
    // write succeeds without disturbing the other field
    let w1 = f1.write(sub1).unwrap();
    let w2 = f2.write(sub2).unwrap();
    *w1 = 100;
    *w2 = 200;
    assert_eq!(*f1.read(sub1).unwrap(), 100);
    assert_eq!(*f2.read(sub2).unwrap(), 200);

    // a sub-token never reaches a sibling's field
    assert_eq!(f2.read(sub1), Err(AccessError::BrandMismatch));
    assert_eq!(f1.read(sub2), Err(AccessError::BrandMismatch));
}

#[test]
fn parent_inert_while_split() {
    let mut minter = Minter::new();
    let (brands, mut parent) = minter.mint_group(2);
    let mut cell = GhostCell::new(&brands[0], 7u32);

    let mut subs = parent.split(&mut minter).unwrap();

    // no second window: the parent rejects reads and writes while the
    // sub-tokens are outstanding
    assert_eq!(cell.read(&parent), Err(AccessError::CapabilityViolation));
    assert!(matches!(
        cell.write(&mut parent),
        Err(AccessError::CapabilityViolation)
    ));
    // and it cannot be split again either
    assert!(matches!(
        parent.split(&mut minter),
        Err(AccessError::CapabilityViolation)
    ));

    parent.merge(&mut subs).unwrap();
    assert_eq!(*cell.read(&parent).unwrap(), 7);
}

#[test]
fn merge_rejects_wrong_bundle() {
    let mut minter = Minter::new();
    let (_brands, mut parent) = minter.mint_group(3);
    let mut subs = parent.split(&mut minter).unwrap();

    // reordered bundle: rejected, nothing changes
    subs.swap(0, 2);
    assert_eq!(
        parent.merge(&mut subs),
        Err(AccessError::CapabilityViolation)
    );
    subs.swap(0, 2);

    // incomplete bundle: rejected
    let last = subs.pop().unwrap();
    assert_eq!(
        parent.merge(&mut subs),
        Err(AccessError::CapabilityViolation)
    );
    subs.push(last);

    // a foreign token in place of a sub-token: rejected
    let (_b, stranger) = minter.mint();
    let real = std::mem::replace(&mut subs[1], stranger);
    assert_eq!(
        parent.merge(&mut subs),
        Err(AccessError::CapabilityViolation)
    );
    subs[1] = real;

    // the true bundle still merges
    assert_eq!(parent.merge(&mut subs), Ok(()));
}

#[test]
fn merge_rejects_sub_whose_authority_is_delegated() {
    let mut minter = Minter::new();
    let (_brands, mut parent) = minter.mint_group(2);
    let mut subs = parent.split(&mut minter).unwrap();

    // split a sub-token in turn: the bundle no longer fits until that
    // inner split is merged back
    let mut inner = subs[0].split(&mut minter).unwrap();
    assert_eq!(
        parent.merge(&mut subs),
        Err(AccessError::CapabilityViolation)
    );
    subs[0].merge(&mut inner).unwrap();
    assert_eq!(parent.merge(&mut subs), Ok(()));
}

#[test]
fn retired_sub_token_is_dead() {
    let mut minter = Minter::new();
    let (brands, mut parent) = minter.mint_group(2);
    let mut cell = GhostCell::new(&brands[0], 3u32);

    let mut subs = parent.split(&mut minter).unwrap();
    parent.merge(&mut subs).unwrap();

    // the sub-tokens were retired in place by the merge
    assert_eq!(cell.read(&subs[0]), Err(AccessError::UseAfterRelease));
    assert!(matches!(
        cell.write(&mut subs[0]),
        Err(AccessError::UseAfterRelease)
    ));
    assert!(matches!(
        subs[0].split(&mut minter),
        Err(AccessError::UseAfterRelease)
    ));

    // merging again reconstitutes nothing
    assert_eq!(
        parent.merge(&mut subs),
        Err(AccessError::CapabilityViolation)
    );
}

#[test]
fn single_brand_token_splits_into_one() {
    let mut minter = Minter::new();
    let (brand, mut token) = minter.mint();
    let cell = GhostCell::new(&brand, 9u8);
    let mut subs = token.split(&mut minter).unwrap();
    assert_eq!(subs.len(), 1);
    assert_eq!(*cell.read(&subs[0]).unwrap(), 9);
    token.merge(&mut subs).unwrap();
    assert_eq!(*cell.read(&token).unwrap(), 9);
}
