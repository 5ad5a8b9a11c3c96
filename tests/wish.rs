use std::str::FromStr;

use anchor_lang::prelude::Pubkey;
use wall_of_wish::address::Address;
use wall_of_wish::ledger::{
    create_wish, create_wish_at, derive_key, id, new_wish, CreateWish, ErrorCode, Ledger,
};
use wall_of_wish::record::{discriminator, space_for, AWish};

const T: i64 = 1_700_000_000;

fn alice() -> Address {
    Address::new([7u8; 32])
}

fn bob() -> Address {
    Address::new([42u8; 32])
}

fn key_of(author: &Address, title: &str) -> Address {
    derive_key(&id(), author, title).expect("an address is found").0
}

#[test]
fn program_id_matches_base58() {
    let expected = Pubkey::from_str("9xQeWvG816bUx9EPjHmaT23yvVM2ZWbrrpZb9PusVFin").unwrap();
    assert_eq!(id().bytes, expected.to_bytes());
}

#[test]
fn peace_on_earth_scenario() {
    let mut ledger = Ledger::new(id());
    let w = create_wish_at(&mut ledger, &alice(), "Peace on Earth".to_string(), T).unwrap();
    assert_eq!(w.title, "Peace on Earth");
    assert_eq!(w.author, alice());
    assert_eq!(w.timestamp, T);
    assert_eq!(ledger.len(), 1);

    let again = create_wish_at(&mut ledger, &alice(), "Peace on Earth".to_string(), T + 5);
    assert_eq!(again.unwrap_err(), ErrorCode::DuplicateRecord);
    assert_eq!(ledger.len(), 1);

    let empty = create_wish_at(&mut ledger, &alice(), String::new(), T);
    assert_eq!(empty.unwrap_err(), ErrorCode::EmptyTitle);
    assert_eq!(ledger.len(), 1);

    let b = create_wish_at(&mut ledger, &bob(), "Peace on Earth".to_string(), T).unwrap();
    assert_eq!(b.author, bob());
    assert_eq!(ledger.len(), 2);
    let ka = key_of(&alice(), "Peace on Earth");
    let kb = key_of(&bob(), "Peace on Earth");
    assert_ne!(ka, kb);
    assert!(ledger.contains(&ka));
    assert!(ledger.contains(&kb));
}

#[test]
fn created_wish_reads_back_from_store() {
    let mut ledger = Ledger::new(id());
    create_wish_at(&mut ledger, &alice(), "Peace on Earth".to_string(), -12).unwrap();
    let key = key_of(&alice(), "Peace on Earth");
    let w = ledger.read_wish(&key).unwrap();
    assert_eq!(w.title, "Peace on Earth");
    assert_eq!(w.timestamp, -12);
    assert_eq!(w.author, alice());
    let data = ledger.account_data(&key).unwrap();
    assert_eq!(data.len(), 8 + 4 + 14 + 8 + 32);
}

#[test]
fn empty_title_refused_for_every_author() {
    for author in [alice(), bob(), Address::new([0u8; 32])] {
        let mut ledger = Ledger::new(id());
        let r = create_wish_at(&mut ledger, &author, String::new(), T);
        assert_eq!(r.unwrap_err(), ErrorCode::EmptyTitle);
        assert_eq!(ledger.len(), 0);
        let r = create_wish(&mut ledger, &author, String::new());
        assert_eq!(r.unwrap_err(), ErrorCode::EmptyTitle);
        assert_eq!(ledger.len(), 0);
    }
}

#[test]
fn create_with_clock_leaves_store_unchanged_when_clock_fails() {
    let mut ledger = Ledger::new(id());
    match create_wish(&mut ledger, &alice(), "hello".to_string()) {
        Err(ErrorCode::ClockUnavailable) => assert_eq!(ledger.len(), 0),
        Ok(w) => {
            assert_eq!(w.title, "hello");
            assert_eq!(ledger.len(), 1);
        }
        Err(e) => panic!("unexpected error {:?}", e),
    }
}

#[test]
fn derive_key_is_deterministic_and_separates_inputs() {
    let a1 = derive_key(&id(), &alice(), "Peace on Earth").unwrap();
    let a2 = derive_key(&id(), &alice(), "Peace on Earth").unwrap();
    assert_eq!(a1.0, a2.0);
    assert_eq!(a1.1, a2.1);
    assert_ne!(a1.0, key_of(&bob(), "Peace on Earth"));
    assert_ne!(a1.0, key_of(&alice(), "Peace on Earth!"));
    assert_ne!(key_of(&alice(), "ab"), key_of(&alice(), "ba"));
}

#[test]
fn derive_key_agrees_with_runtime_derivation() {
    let program = Pubkey::new_from_array(id().bytes);
    let author = alice();
    let (expected, bump) =
        Pubkey::find_program_address(&[b"wish", &author.bytes, "Peace on Earth".as_bytes()], &program);
    let (key, found_bump) = derive_key(&id(), &author, "Peace on Earth").unwrap();
    assert_eq!(key.bytes, expected.to_bytes());
    assert_eq!(found_bump, bump);
    assert_ne!(key, author);
}

#[test]
fn title_over_seed_limit_has_no_address() {
    let long = "x".repeat(33);
    assert!(derive_key(&id(), &alice(), &long).is_none());
    assert_eq!(CreateWish::new(&id(), &alice(), &long).unwrap_err(), ErrorCode::AddressNotFound);
    let mut ledger = Ledger::new(id());
    let r = create_wish_at(&mut ledger, &alice(), long, T);
    assert_eq!(r.unwrap_err(), ErrorCode::AddressNotFound);
    assert_eq!(ledger.len(), 0);
}

#[test]
fn space_is_exact_for_each_title_length() {
    for n in [0usize, 1, 14, 31, 32] {
        let title = "a".repeat(n);
        let c = CreateWish::new(&id(), &alice(), &title).unwrap();
        assert_eq!(c.space, 8 + 4 + n + 8 + 32);
        assert_eq!(c.author, alice());
        assert_eq!(c.wish, key_of(&alice(), &title));
        let w = AWish { title, timestamp: T, author: alice() };
        assert_eq!(w.to_bytes().len(), c.space);
    }
}

#[test]
fn space_counts_bytes_not_characters() {
    let c = CreateWish::new(&id(), &alice(), "√2").unwrap();
    assert_eq!(c.space, 8 + 4 + 4 + 8 + 32);
}

#[test]
fn discriminator_is_hashed_type_name() {
    assert_eq!(discriminator(), vec![217u8, 196, 247, 217, 127, 81, 81, 202]);
}

#[test]
fn layout_is_bit_exact() {
    let w = AWish { title: "Hi".to_string(), timestamp: -2, author: bob() };
    let bytes = w.to_bytes();
    let mut expected = vec![217u8, 196, 247, 217, 127, 81, 81, 202];
    expected.extend_from_slice(&[2, 0, 0, 0]);
    expected.extend_from_slice(b"Hi");
    expected.extend_from_slice(&[0xfe, 0xff, 0xff, 0xff, 0xff, 0xff, 0xff, 0xff]);
    expected.extend_from_slice(&[42u8; 32]);
    assert_eq!(bytes, expected);
}

#[test]
fn layout_round_trips() {
    for (title, ts) in [("Peace on Earth", T), ("", 0), ("Paix ✓ sur Terre", i64::MIN), ("z", i64::MAX)] {
        let w = AWish { title: title.to_string(), timestamp: ts, author: alice() };
        let back = AWish::from_bytes(&w.to_bytes()).unwrap();
        assert_eq!(back.title, title);
        assert_eq!(back.timestamp, ts);
        assert_eq!(back.author, alice());
    }
}

#[test]
fn malformed_records_are_refused() {
    let w = AWish { title: "Hi".to_string(), timestamp: 3, author: bob() };
    let good = w.to_bytes();

    let mut bad_tag = good.clone();
    bad_tag[0] ^= 1;
    assert!(AWish::from_bytes(&bad_tag).is_none());

    assert!(AWish::from_bytes(&good[..good.len() - 1]).is_none());
    assert!(AWish::from_bytes(&good[..5]).is_none());

    let mut longer = good.clone();
    longer.push(0);
    assert!(AWish::from_bytes(&longer).is_none());

    let mut bad_utf8 = good.clone();
    bad_utf8[12] = 0xff;
    assert!(AWish::from_bytes(&bad_utf8).is_none());
}

#[test]
fn same_as_compares_bytes() {
    assert!(alice().same_as(&alice()));
    assert!(!alice().same_as(&bob()));
    let mut b = [7u8; 32];
    b[31] = 8;
    assert!(!alice().same_as(&Address::new(b)));
}

#[test]
fn account_data_absent_for_unknown_key() {
    let ledger = Ledger::new(id());
    assert!(ledger.account_data(&alice()).is_none());
    assert!(ledger.read_wish(&alice()).is_none());
    assert!(!ledger.contains(&alice()));
    assert_eq!(ledger.program_id(), id());
}

#[test]
fn space_for_adds_fixed_parts_to_title_bytes() {
    assert_eq!(space_for(""), 52);
    assert_eq!(space_for("Peace on Earth"), 66);
    assert_eq!(space_for(&"q".repeat(1000)), 1052);
}

#[test]
fn new_wish_fills_fields_and_refuses_empty_title() {
    let w = new_wish(&bob(), "Peace on Earth".to_string(), T).unwrap();
    assert_eq!(w.title, "Peace on Earth");
    assert_eq!(w.timestamp, T);
    assert_eq!(w.author, bob());
    assert_eq!(new_wish(&bob(), String::new(), T).unwrap_err(), ErrorCode::EmptyTitle);
}
