//! The chat-command decisions.

use reason_store::access::{get_reason, set_reason, AccessError, CallerContext, Config};
use reason_store::bot::{lookup_command, setreason_command, BotReply};
use reason_store::store::Store;

fn fresh_store() -> Store {
    Store::new()
}

fn cfg() -> Config {
    Config {
        whitelist: vec![42],
        credential: String::from("secret"),
    }
}

fn toks(words: &[&str]) -> Vec<String> {
    words.iter().map(|w| String::from(*w)).collect()
}

#[test]
fn whitelisted_author_sets_reasons_for_all_ids() {
    // whitelist = {42}: author 42 issues `setreason 7 8 banned for spam`.
    let mut store = fresh_store();
    let cfg = cfg();
    let r = setreason_command(&mut store, &cfg, 42, &toks(&["7", "8", "banned", "for", "spam"]));
    assert_eq!(r, Ok(BotReply::Saved));
    for u in [7u64, 8] {
        let rec = get_reason(&store, &cfg, &CallerContext::BotCommand { user_id: 1 }, u)
            .unwrap()
            .unwrap();
        assert_eq!(rec.reason, "banned for spam");
    }
}

#[test]
fn unwhitelisted_author_is_refused_and_nothing_is_written() {
    // author 99 is not whitelisted: `setreason 7 test` must change nothing.
    let mut store = fresh_store();
    let cfg = cfg();
    let r = setreason_command(&mut store, &cfg, 99, &toks(&["7", "test"]));
    assert_eq!(r, Ok(BotReply::NoPermission));
    let found = get_reason(&store, &cfg, &CallerContext::BotCommand { user_id: 99 }, 7).unwrap();
    assert!(found.is_none());
}

#[test]
fn setreason_without_tokens_asks_for_an_id() {
    let mut store = fresh_store();
    let r = setreason_command(&mut store, &cfg(), 42, &toks(&[]));
    assert_eq!(r, Ok(BotReply::NoUserId));
}

#[test]
fn setreason_with_no_leading_ids_is_invalid() {
    let mut store = fresh_store();
    let r = setreason_command(&mut store, &cfg(), 42, &toks(&["abc", "reason"]));
    assert_eq!(r, Ok(BotReply::InvalidUserIds));
}

#[test]
fn setreason_with_ids_but_no_reason_asks_for_an_id() {
    let mut store = fresh_store();
    let r = setreason_command(&mut store, &cfg(), 42, &toks(&["7", "8"]));
    assert_eq!(r, Ok(BotReply::NoUserId));
}

#[test]
fn lookup_without_tokens_asks_for_an_id() {
    let store = fresh_store();
    let r = lookup_command(&store, &cfg(), 5, &toks(&[]));
    assert_eq!(r, Ok(BotReply::NoUserId));
}

#[test]
fn lookup_with_bad_token_is_invalid() {
    let store = fresh_store();
    let r = lookup_command(&store, &cfg(), 5, &toks(&["x7"]));
    assert_eq!(r, Ok(BotReply::InvalidUserId));
}

#[test]
fn lookup_finds_what_was_set() {
    let mut store = fresh_store();
    let cfg = cfg();
    set_reason(
        &mut store,
        &cfg,
        &CallerContext::BotCommand { user_id: 42 },
        &vec![7],
        "banned for spam",
    )
    .unwrap();
    let r = lookup_command(&store, &cfg, 5, &toks(&["7"]));
    assert_eq!(r, Ok(BotReply::Reason(String::from("banned for spam"))));
}

#[test]
fn lookup_reports_absence() {
    let store = fresh_store();
    let r = lookup_command(&store, &cfg(), 5, &toks(&["7"]));
    assert_eq!(r, Ok(BotReply::NotFound));
}

#[test]
fn leading_run_stops_at_first_non_id() {
    // `setreason 7 8x hello`: only 7 is a target; the reason is "8x hello".
    let mut store = fresh_store();
    let cfg = cfg();
    let r = setreason_command(&mut store, &cfg, 42, &toks(&["7", "8x", "hello"]));
    assert_eq!(r, Ok(BotReply::Saved));
    let rec = get_reason(&store, &cfg, &CallerContext::BotCommand { user_id: 1 }, 7)
        .unwrap()
        .unwrap();
    assert_eq!(rec.reason, "8x hello");
}

#[test]
fn empty_remainder_tokens_are_an_invalid_reason() {
    // A front-end that hands an empty token after the ids yields an
    // empty reason text, which the access layer refuses.
    let mut store = fresh_store();
    let r = setreason_command(&mut store, &cfg(), 42, &toks(&["7", ""]));
    assert_eq!(r, Err(AccessError::InvalidInput));
}

#[test]
fn lookup_uses_only_the_first_token() {
    let mut store = fresh_store();
    let cfg = cfg();
    set_reason(
        &mut store,
        &cfg,
        &CallerContext::BotCommand { user_id: 42 },
        &vec![7],
        "kept",
    )
    .unwrap();
    let r = lookup_command(&store, &cfg, 5, &toks(&["7", "trailing", "words"]));
    assert_eq!(r, Ok(BotReply::Reason(String::from("kept"))));
}

#[test]
fn zero_and_largest_ids_are_ordinary_keys() {
    let mut store = fresh_store();
    let cfg = cfg();
    let r = setreason_command(
        &mut store,
        &cfg,
        42,
        &toks(&["0", "18446744073709551615", "edge ids"]),
    );
    assert_eq!(r, Ok(BotReply::Saved));
    for u in [0u64, u64::MAX] {
        let rec = get_reason(&store, &cfg, &CallerContext::BotCommand { user_id: 1 }, u)
            .unwrap()
            .unwrap();
        assert_eq!(rec.reason, "edge ids");
    }
}

#[test]
fn an_overflowing_token_ends_the_id_run() {
    // 18446744073709551616 does not fit in a u64, so it begins the reason.
    let mut store = fresh_store();
    let cfg = cfg();
    let r = setreason_command(&mut store, &cfg, 42, &toks(&["7", "18446744073709551616", "x"]));
    assert_eq!(r, Ok(BotReply::Saved));
    let rec = get_reason(&store, &cfg, &CallerContext::BotCommand { user_id: 1 }, 7)
        .unwrap()
        .unwrap();
    assert_eq!(rec.reason, "18446744073709551616 x");
}
