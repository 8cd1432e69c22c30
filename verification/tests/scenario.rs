//! Minting, cell construction, and gated access.

use ghost_cell::AccessError;
use ghost_cell::GhostCell;
use ghost_cell::Minter;

#[test]
fn mint_write_read_scenario() {
    let mut minter = Minter::new();
    let (brand_r, mut token) = minter.mint();
    let mut cell = GhostCell::new(&brand_r, 5i32);

    // write through the exclusive token reference
    *cell.write(&mut token).unwrap() = 6;

    // two shared borrows of the same token both observe the write
    let first = cell.read(&token).unwrap();
    let second = cell.read(&token).unwrap();
    assert_eq!(*first, 6);
    assert_eq!(*second, 6);

    // a token from a different minting is rejected, read and write alike
    let (_other_brand, mut other_token) = minter.mint();
    assert_eq!(cell.read(&other_token), Err(AccessError::BrandMismatch));
    assert!(matches!(
        cell.write(&mut other_token),
        Err(AccessError::BrandMismatch)
    ));
    assert_eq!(*cell.read(&token).unwrap(), 6);
}

#[test]
fn brand_distinctness() {
    // identical code at the same call site, run twice: the brands differ
    let mut minter = Minter::new();
    let mut minted = Vec::new();
    for value in 0u32..2 {
        let (brand, token) = minter.mint();
        let cell = GhostCell::new(&brand, value);
        minted.push((cell, token));
    }
    let (cell_a, token_a) = &minted[0];
    let (cell_b, token_b) = &minted[1];
    assert_eq!(*cell_a.read(token_a).unwrap(), 0);
    assert_eq!(*cell_b.read(token_b).unwrap(), 1);
    assert_eq!(cell_a.read(token_b), Err(AccessError::BrandMismatch));
    assert_eq!(cell_b.read(token_a), Err(AccessError::BrandMismatch));
}

#[test]
fn read_sharing() {
    let mut minter = Minter::new();
    let (brand, token) = minter.mint();
    let cell = GhostCell::new(&brand, 42u64);
    let mut held = Vec::new();
    for _ in 0..8 {
        held.push(cell.read(&token).unwrap());
    }
    for r in &held {
        assert_eq!(**r, 42);
    }
}

#[test]
fn many_cells_one_brand() {
    let mut minter = Minter::new();
    let (brand, mut token) = minter.mint();
    let mut left = GhostCell::new(&brand, String::from("left"));
    let right = GhostCell::new(&brand, String::from("right"));
    assert_eq!(cell_text(&right, &token), "right");
    cell_text_mut(&mut left, &mut token).push_str("!");
    assert_eq!(cell_text(&left, &token), "left!");
}

fn cell_text(cell: &GhostCell<String>, token: &ghost_cell::Token) -> String {
    cell.read(token).unwrap().clone()
}

fn cell_text_mut<'a>(
    cell: &'a mut GhostCell<String>,
    token: &'a mut ghost_cell::Token,
) -> &'a mut String {
    cell.write(token).unwrap()
}

#[test]
fn get_mut_needs_no_token() {
    let mut minter = Minter::new();
    let (brand, token) = minter.mint();
    let mut cell = GhostCell::new(&brand, 10u32);
    *cell.get_mut() += 5;
    assert_eq!(*cell.read(&token).unwrap(), 15);
}

#[test]
fn clone_keeps_the_brand() {
    let mut minter = Minter::new();
    let (brand, mut token) = minter.mint();
    let cell = GhostCell::new(&brand, 10u32);
    let mut copy = cell.clone(&token).unwrap();
    // the copy answers to the same token, independently of the original
    *copy.write(&mut token).unwrap() = 99;
    assert_eq!(*copy.read(&token).unwrap(), 99);
    assert_eq!(*cell.read(&token).unwrap(), 10);

    let (_b2, other_token) = minter.mint();
    assert!(matches!(
        cell.clone(&other_token),
        Err(AccessError::BrandMismatch)
    ));
}

#[test]
fn into_inner_unwraps() {
    let mut minter = Minter::new();
    let (brand, _token) = minter.mint();
    let cell = GhostCell::new(&brand, vec![1u8, 2, 3]);
    assert_eq!(cell.into_inner(), vec![1u8, 2, 3]);
}

#[test]
fn replace_returns_previous_value() {
    let mut minter = Minter::new();
    let (brand, mut token) = minter.mint();
    let mut cell = GhostCell::new(&brand, 10u32);
    assert_eq!(cell.replace(&mut token, 11), Ok(10));
    assert_eq!(*cell.read(&token).unwrap(), 11);

    // a rejected replace hands the offered value back
    let (_b2, mut other_token) = minter.mint();
    match cell.replace(&mut other_token, 99) {
        Err((AccessError::BrandMismatch, offered)) => assert_eq!(offered, 99),
        other => panic!("expected a brand mismatch, got {:?}", other.map(|_| ())),
    }
    assert_eq!(*cell.read(&token).unwrap(), 11);
}

#[test]
fn can_access_reports_without_touching() {
    let mut minter = Minter::new();
    let (brand, token) = minter.mint();
    let (_b2, other_token) = minter.mint();
    let cell = GhostCell::new(&brand, 1u8);
    assert_eq!(cell.can_access(&token), Ok(()));
    assert_eq!(
        cell.can_access(&other_token),
        Err(AccessError::BrandMismatch)
    );
}
