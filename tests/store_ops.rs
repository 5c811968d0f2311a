use std::collections::HashMap;

use pokemon_store::{
    normalize, parse_names, provider_url, settle, FetchAllQuery, PokeAPIResponse, PokeType, Pokemon,
    PokemonInput, ServiceError, Store, TypeName,
};

fn input(name: &str, kind: &str, level: u8, hp: u16) -> PokemonInput {
    PokemonInput { name: name.to_string(), type_: kind.to_string(), level, hp }
}

fn record(id: u128, name: &str) -> Pokemon {
    Pokemon { id, name: name.to_string(), type_: "normal".to_string(), level: 5, hp: 40 }
}

fn response(name: &str, kinds: &[&str]) -> PokeAPIResponse {
    PokeAPIResponse {
        name: name.to_string(),
        types: kinds
            .iter()
            .map(|k| PokeType { poke_type: TypeName { name: k.to_string() } })
            .collect(),
    }
}

fn store_with(ids: &[u128]) -> Store {
    let mut map = HashMap::new();
    for &id in ids {
        map.insert(id, record(id, "filler"));
    }
    Store::from_loaded(Some(map))
}

#[test]
fn create_assigns_an_unused_id() {
    let mut store = store_with(&[0, 1, 2, 3]);
    let before: Vec<u128> = store.records().keys().copied().collect();
    let p = store.create_one(input("eevee", "normal", 10, 55));
    assert!(!before.contains(&p.id));
    assert_eq!(p.name, "eevee");
    assert_eq!(p.type_, "normal");
    assert_eq!(p.level, 10);
    assert_eq!(p.hp, 55);
    assert_eq!(store.len(), 5);
}

#[test]
fn get_after_create_returns_the_created_record() {
    let mut store = Store::new();
    let p = store.create_one(input("pikachu", "electric", 12, 35));
    assert_eq!(store.get_one(p.id), Ok(p));
}

#[test]
fn get_of_missing_id_is_not_found() {
    let store = store_with(&[4]);
    assert_eq!(store.get_one(5), Err(ServiceError::NotFound));
    assert_eq!(store.get_one(4), Ok(record(4, "filler")));
}

#[test]
fn delete_then_get_is_not_found() {
    let mut store = Store::new();
    let p = store.create_one(input("onix", "rock", 20, 35));
    assert_eq!(store.delete_one(p.id), Ok(()));
    assert_eq!(store.get_one(p.id), Err(ServiceError::NotFound));
    assert_eq!(store.len(), 0);
}

#[test]
fn delete_of_missing_id_is_not_found() {
    let mut store = store_with(&[1, 2]);
    assert_eq!(store.delete_one(9), Err(ServiceError::NotFound));
    assert_eq!(store.len(), 2);
}

#[test]
fn update_of_missing_id_changes_nothing() {
    let mut store = store_with(&[1, 2]);
    let before = store.records().clone();
    assert_eq!(store.update_one(7, record(7, "mew")), Err(ServiceError::NotFound));
    assert_eq!(store.records(), &before);
}

#[test]
fn update_replaces_the_record() {
    let mut store = store_with(&[1, 2]);
    assert_eq!(store.update_one(2, record(2, "mew")), Ok(()));
    assert_eq!(store.get_one(2), Ok(record(2, "mew")));
    assert_eq!(store.len(), 2);
}

#[test]
fn update_keeps_the_body_id_under_the_path_id() {
    let mut store = store_with(&[1]);
    assert_eq!(store.update_one(1, record(8, "mew")), Ok(()));
    assert_eq!(store.get_one(1), Ok(record(8, "mew")));
}

#[test]
fn batch_stores_only_the_successful_fetches() {
    let mut store = Store::new();
    let stored = store.fetch_and_store_many(vec![Some(response("x", &["fire"])), None]);
    assert_eq!(stored.len(), 1);
    assert_eq!(stored[0].name, "x");
    assert_eq!(stored[0].type_, "fire");
    assert_eq!(store.len(), 1);
    assert_eq!(store.get_one(stored[0].id), Ok(stored[0].clone()));
    assert_eq!(settle(Ok(stored.len()), true), Ok(1));
}

#[test]
fn batch_keeps_input_order_and_distinct_ids() {
    let mut store = store_with(&[0]);
    let stored = store.fetch_and_store_many(vec![
        Some(response("a", &[])),
        None,
        Some(response("b", &["water", "ice"])),
        Some(response("c", &["grass"])),
    ]);
    let names: Vec<&str> = stored.iter().map(|p| p.name.as_str()).collect();
    assert_eq!(names, vec!["a", "b", "c"]);
    assert_eq!(stored[0].type_, "unknown");
    assert_eq!(stored[1].type_, "water");
    assert_ne!(stored[0].id, stored[1].id);
    assert_ne!(stored[1].id, stored[2].id);
    assert_ne!(stored[0].id, stored[2].id);
    assert_eq!(store.len(), 4);
}

#[test]
fn batch_of_failures_stores_nothing() {
    let mut store = store_with(&[3]);
    let stored = store.fetch_and_store_many(vec![None, None]);
    assert!(stored.is_empty());
    assert_eq!(store.len(), 1);
}

#[test]
fn single_and_batch_normalize_alike() {
    let mut store = Store::new();
    let single = store
        .fetch_and_store_one(Some(response("ditto", &["normal"])))
        .unwrap();
    let batch = store.fetch_and_store_many(vec![Some(response("ditto", &["normal"]))]);
    assert_eq!(batch.len(), 1);
    assert_eq!(batch[0].name, single.name);
    assert_eq!(batch[0].type_, single.type_);
    assert_eq!(batch[0].level, single.level);
    assert_eq!(batch[0].hp, single.hp);
    assert_ne!(batch[0].id, single.id);
    assert_eq!(store.len(), 2);
}

#[test]
fn single_fetch_failure_is_upstream_and_changes_nothing() {
    let mut store = store_with(&[1]);
    assert_eq!(store.fetch_and_store_one(None), Err(ServiceError::Upstream));
    assert_eq!(store.len(), 1);
}

#[test]
fn fifty_creations_give_fifty_distinct_ids() {
    let mut store = store_with(&[10, 20]);
    let mut ids = Vec::new();
    for i in 0..50u8 {
        ids.push(store.create_one(input("clone", "normal", i, 1)).id);
    }
    let mut sorted = ids.clone();
    sorted.sort();
    sorted.dedup();
    assert_eq!(sorted.len(), 50);
    assert_eq!(store.len(), 52);
}

#[test]
fn fresh_id_keeps_an_unused_candidate() {
    let store = store_with(&[0, 1]);
    assert_eq!(store.fresh_id(5), 5);
}

#[test]
fn fresh_id_replaces_a_used_candidate_by_the_least_free_id() {
    let store = store_with(&[0, 1, 3]);
    assert_eq!(store.fresh_id(1), 2);
    assert_eq!(store.fresh_id(3), 2);
}

#[test]
fn generated_ids_avoid_existing_ones() {
    let store = store_with(&[0, 1, 2]);
    for _ in 0..20 {
        assert!(!store.contains(store.generate_id()));
    }
}

#[test]
fn normalize_takes_the_first_type() {
    let p = normalize(&response("bulbasaur", &["grass", "poison"]), 42);
    assert_eq!(
        p,
        Pokemon { id: 42, name: "bulbasaur".to_string(), type_: "grass".to_string(), level: 1, hp: 100 }
    );
}

#[test]
fn normalize_without_types_gives_unknown() {
    let p = normalize(&response("missingno", &[]), 7);
    assert_eq!(p.type_, "unknown");
    assert_eq!(p.level, 1);
    assert_eq!(p.hp, 100);
    assert_eq!(p.id, 7);
}

#[test]
fn parse_names_splits_trims_and_drops_empties() {
    assert_eq!(parse_names(" ditto, ,pikachu ,,bulbasaur "), vec!["ditto", "pikachu", "bulbasaur"]);
}

#[test]
fn parse_names_of_empty_list() {
    assert!(parse_names("").is_empty());
    assert!(parse_names(" , ,\t").is_empty());
}

#[test]
fn parse_names_trims_unicode_space() {
    assert_eq!(parse_names("\u{a0}mew\u{3000},\tabra\n"), vec!["mew", "abra"]);
    assert_eq!(parse_names("mr mime"), vec!["mr mime"]);
}

#[test]
fn query_identifiers() {
    let q = FetchAllQuery { names: "ditto,pikachu,bulbasaur".to_string() };
    assert_eq!(q.identifiers(), vec!["ditto", "pikachu", "bulbasaur"]);
}

#[test]
fn settle_reports_persistence_failure() {
    assert_eq!(settle(Ok::<u8, ServiceError>(3), false), Err(ServiceError::Persistence));
    assert_eq!(settle(Ok::<u8, ServiceError>(3), true), Ok(3));
    assert_eq!(settle(Err::<u8, ServiceError>(ServiceError::NotFound), false), Err(ServiceError::NotFound));
}

#[test]
fn status_codes_of_errors() {
    assert_eq!(ServiceError::NotFound.status_code(), 404);
    assert_eq!(ServiceError::Upstream.status_code(), 502);
    assert_eq!(ServiceError::Persistence.status_code(), 500);
}

#[test]
fn failed_load_gives_an_empty_store() {
    assert_eq!(Store::from_loaded(None).len(), 0);
    assert_eq!(store_with(&[1, 2, 3]).len(), 3);
}

#[test]
fn provider_url_appends_the_identifier() {
    assert_eq!(provider_url("ditto"), "https://pokeapi.co/api/v2/pokemon/ditto");
}
