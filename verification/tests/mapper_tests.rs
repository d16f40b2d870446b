use std::collections::{HashMap, HashSet};

use conference_mapper::conference::Conference;
use conference_mapper::normalize::normalize;
use conference_mapper::store::MappingStore;
use rand::distr::{Alphanumeric, SampleString};

fn temp_store() -> MappingStore {
    let db = sled::Config::new().temporary(true).open().unwrap();
    MappingStore::new(db)
}

#[test]
fn normalization_lowercases_and_keeps_at() {
    let n = normalize("Room@Conference.Example.Com");
    assert_eq!(n, "room@conference.example.com");
}

#[test]
fn normalization_percent_encodes_other_bytes() {
    assert_eq!(normalize("a b@x"), "a%20b@x");
    assert_eq!(normalize("caf\u{e9}@muc"), "caf%C3%A9@muc");
    assert_eq!(normalize("a%40b@x"), "a%2540b@x");
    assert_eq!(normalize("A-b._~@X"), "a-b._~@x");
}

#[test]
fn name_path_is_idempotent() {
    let mut store = temp_store();
    let first = store.insert_conference(0, "room@conference.example.com", 6);
    let second = store.insert_conference(0, "room@conference.example.com", 6);
    assert_eq!(first.id, second.id);
    assert_eq!(first.conference, "room@conference.example.com");
    assert_eq!(second.conference, "room@conference.example.com");
    assert_eq!(first.message, "Successfully created conference mapping");
    assert_eq!(second.message, "Successfully created conference mapping");

    let looked_up = store.resolve_by_id(first.id);
    assert_eq!(looked_up.conference, "room@conference.example.com");
}

#[test]
fn round_trip_returns_normalized_name() {
    let mut store = temp_store();
    let created = store.resolve_or_create("Some Room@Conference.Example.Com", 6);
    assert_eq!(created.message, "Successfully created conference mapping");
    let found = store.resolve_by_id(created.id);
    assert_eq!(found.id, created.id);
    assert_eq!(found.conference, normalize("Some Room@Conference.Example.Com"));
    assert_eq!(found.message, "Successfully retrieved conference mapping");
}

#[test]
fn normalization_makes_case_variants_collide() {
    let mut store = temp_store();
    let upper = store.resolve_or_create("Room@Conference.Example.Com", 6);
    let lower = store.resolve_or_create("room@conference.example.com", 6);
    assert_eq!(upper.id, lower.id);
    assert!(upper.conference.contains('@'));
    assert_eq!(upper.conference, lower.conference);
}

#[test]
fn unknown_id_reports_not_found() {
    let store = temp_store();
    let r = store.resolve_by_id(999999);
    assert_eq!(r.id, 999999);
    assert_eq!(r.conference, "");
    assert_eq!(r.message, "No conference mapping was found");
}

#[test]
fn no_input_reports_nothing_provided() {
    let mut store = temp_store();
    let r = store.insert_conference(0, "", 6);
    assert_eq!(r.id, 0);
    assert_eq!(r.conference, "");
    assert_eq!(r.message, "No conference or id provided");
}

#[test]
fn default_conference_is_empty() {
    let c = Conference::default();
    assert_eq!(c.id, 0);
    assert_eq!(c.message, "");
    assert_eq!(c.conference, "");
}

#[test]
fn ids_are_stable_across_store_instances() {
    let mut store_a = temp_store();
    let mut store_b = temp_store();
    let a = store_a.resolve_or_create("room@conference.example.com", 9);
    let b = store_b.resolve_or_create("room@conference.example.com", 9);
    assert_eq!(a.id, b.id);
}

#[test]
fn invalid_stored_bytes_report_decode_error() {
    let mut store = temp_store();
    let key: Vec<u8> = b"123456".to_vec();
    store.put(&key, &[0xff, 0xfe]).unwrap();
    let r = store.resolve_by_id(123456);
    assert_eq!(r.id, 123456);
    assert_eq!(r.conference, "");
    assert_eq!(r.message, "Stored conference name is not valid UTF-8");
}

#[test]
fn store_get_returns_what_put_wrote() {
    let mut store = temp_store();
    let key: Vec<u8> = b"424242".to_vec();
    assert_eq!(store.get(&key).unwrap(), None);
    store.put(&key, b"some@name").unwrap();
    assert_eq!(store.get(&key).unwrap(), Some(b"some@name".to_vec()));
    store.put(&key, b"other@name").unwrap();
    assert_eq!(store.get(&key).unwrap(), Some(b"other@name".to_vec()));
}

#[test]
fn collision_stress_with_six_digits() {
    let mut store = temp_store();
    let mut names: HashSet<String> = HashSet::new();
    while names.len() < 1000 {
        let name = format!(
            "{}@muc.jitsi.meet",
            Alphanumeric.sample_string(&mut rand::rng(), 12).to_lowercase()
        );
        names.insert(name);
    }

    let mut last_writer: HashMap<u64, String> = HashMap::new();
    let mut collisions = 0;
    for name in &names {
        let r = store.resolve_or_create(name, 6);
        assert_eq!(r.message, "Successfully created conference mapping");
        assert!(r.id >= 100000 && r.id < 1000000);
        if let Some(prev) = last_writer.get(&r.id) {
            if prev != &r.conference {
                collisions += 1;
            }
        }
        last_writer.insert(r.id, r.conference);
    }
    // With one thousand names in a space of nine hundred thousand ids,
    // more than a handful of collisions would point at a broken hash.
    assert!(collisions <= 10, "too many collisions: {}", collisions);

    // Last write wins: every id resolves to the name most recently stored
    // under it.
    for (id, name) in &last_writer {
        let r = store.resolve_by_id(*id);
        assert_eq!(&r.conference, name);
        assert_eq!(r.message, "Successfully retrieved conference mapping");
    }
}
