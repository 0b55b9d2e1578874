//! Behavior of the access layer over the store.

use reason_store::access::{get_reason, set_reason, AccessError, CallerContext, Config};
use reason_store::api::{api_key_error_status, check_api_key, ApiKeyError};
use reason_store::store::Store;

fn fresh_store() -> Store {
    Store::new()
}

fn cfg() -> Config {
    Config {
        whitelist: vec![42],
        credential: String::from("secret"),
    }
}

fn bot(user_id: u64) -> CallerContext {
    CallerContext::BotCommand { user_id }
}

fn api(credential: &str) -> CallerContext {
    CallerContext::ApiRequest {
        credential: String::from(credential),
    }
}

#[test]
fn write_then_read() {
    let mut store = fresh_store();
    let cfg = cfg();
    let updated = set_reason(&mut store, &cfg, &bot(42), &vec![7], "banned for spam").unwrap();
    assert_eq!(updated, vec![7]);
    let rec = get_reason(&store, &cfg, &bot(99), 7).unwrap().unwrap();
    assert_eq!(rec.user_id, 7);
    assert_eq!(rec.reason, "banned for spam");
}

#[test]
fn never_written_is_absent_not_error() {
    let store = fresh_store();
    let cfg = cfg();
    let found = get_reason(&store, &cfg, &bot(5), 12345).unwrap();
    assert!(found.is_none());
}

#[test]
fn overwrite_leaves_only_second_reason() {
    let mut store = fresh_store();
    let cfg = cfg();
    set_reason(&mut store, &cfg, &bot(42), &vec![7], "first").unwrap();
    set_reason(&mut store, &cfg, &bot(42), &vec![7], "second").unwrap();
    let rec = get_reason(&store, &cfg, &bot(42), 7).unwrap().unwrap();
    assert_eq!(rec.reason, "second");
}

#[test]
fn unwhitelisted_bot_cannot_write() {
    let mut store = fresh_store();
    let cfg = cfg();
    let r = set_reason(&mut store, &cfg, &bot(99), &vec![7], "test");
    assert!(matches!(r, Err(AccessError::Forbidden)));
    assert!(get_reason(&store, &cfg, &bot(99), 7).unwrap().is_none());
}

#[test]
fn wrong_credential_cannot_write() {
    let mut store = fresh_store();
    let cfg = cfg();
    let r = set_reason(&mut store, &cfg, &api("wrong"), &vec![7], "test");
    assert!(matches!(r, Err(AccessError::Forbidden)));
    assert!(get_reason(&store, &cfg, &bot(99), 7).unwrap().is_none());
}

#[test]
fn right_credential_writes_and_reads() {
    let mut store = fresh_store();
    let cfg = cfg();
    let updated = set_reason(&mut store, &cfg, &api("secret"), &vec![3, 4], "spam").unwrap();
    assert_eq!(updated, vec![3, 4]);
    let rec = get_reason(&store, &cfg, &api("secret"), 4).unwrap().unwrap();
    assert_eq!(rec.reason, "spam");
}

#[test]
fn wrong_credential_cannot_read() {
    let mut store = fresh_store();
    let cfg = cfg();
    set_reason(&mut store, &cfg, &bot(42), &vec![7], "x").unwrap();
    let r = get_reason(&store, &cfg, &api("wrong"), 7);
    assert!(matches!(r, Err(AccessError::Forbidden)));
}

#[test]
fn empty_ids_rejected() {
    let mut store = fresh_store();
    let cfg = cfg();
    let r = set_reason(&mut store, &cfg, &bot(42), &vec![], "reason");
    assert!(matches!(r, Err(AccessError::InvalidInput)));
}

#[test]
fn empty_reason_rejected() {
    let mut store = fresh_store();
    let cfg = cfg();
    let r = set_reason(&mut store, &cfg, &bot(42), &vec![7], "");
    assert!(matches!(r, Err(AccessError::InvalidInput)));
    assert!(get_reason(&store, &cfg, &bot(42), 7).unwrap().is_none());
}

#[test]
fn many_ids_all_updated_in_order() {
    let mut store = fresh_store();
    let cfg = cfg();
    let updated =
        set_reason(&mut store, &cfg, &bot(42), &vec![1, 2, 3], "shared reason").unwrap();
    assert_eq!(updated, vec![1, 2, 3]);
    for u in [1u64, 2, 3] {
        let rec = get_reason(&store, &cfg, &bot(1), u).unwrap().unwrap();
        assert_eq!(rec.user_id, u);
        assert_eq!(rec.reason, "shared reason");
    }
}

#[test]
fn empty_reason_is_a_valid_stored_value() {
    // The store itself accepts empty text; only the access layer's input
    // check refuses it. An overwrite with a one-space reason still works.
    let mut store = fresh_store();
    let cfg = cfg();
    set_reason(&mut store, &cfg, &bot(42), &vec![9], " ").unwrap();
    let rec = get_reason(&store, &cfg, &bot(42), 9).unwrap().unwrap();
    assert_eq!(rec.reason, " ");
}

#[test]
fn api_read_after_bot_write() {
    // whitelist = {42}, credential = "secret": author 42 writes through
    // the chat path, the HTTP path reads it back with the right header
    // and is turned away with the wrong one.
    let mut store = fresh_store();
    let cfg = cfg();
    set_reason(&mut store, &cfg, &bot(42), &vec![7, 8], "banned for spam").unwrap();

    let accepted = check_api_key(&vec![String::from("secret")], &cfg.credential).unwrap();
    let caller = CallerContext::ApiRequest { credential: accepted };
    let rec = get_reason(&store, &cfg, &caller, 7).unwrap().unwrap();
    assert_eq!(rec.user_id, 7);
    assert_eq!(rec.reason, "banned for spam");

    let refused = check_api_key(&vec![String::from("wrong")], &cfg.credential);
    assert_eq!(refused, Err(ApiKeyError::Invalid));
    assert_eq!(api_key_error_status(&ApiKeyError::Invalid), 400);
}
