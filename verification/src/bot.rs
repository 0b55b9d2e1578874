//! The chat-command decisions: how a `lookup` or `setreason` message,
//! already split into tokens, is answered. The session and message
//! transport stay outside; these functions take the author, the tokens
//! and the shared state, and decide the reply and the writes.

use vstd::prelude::*;
use vstd::string::StringExecFns;
use crate::access::AccessError;
use crate::access::CallerContext;
use crate::access::Config;
use crate::access::write_all;
use crate::access::in_whitelist;
use crate::access::set_reason;
use crate::access::get_reason;
use crate::keys::parseable;
use crate::keys::dec_val;
use crate::store::Store;

verus! {

/// The UTF-8 bytes of a token.
pub open spec fn token_bytes(t: String) -> Seq<u8> {
    vstd::utf8::encode_utf8(t@)
}

/// Whether a token is a valid user-id token: a decimal numeral that fits
/// in a `u64`.
pub open spec fn token_is_id(t: String) -> bool {
    parseable(token_bytes(t))
}

/// The user id a valid token denotes.
pub open spec fn token_id(t: String) -> u64 {
    dec_val(token_bytes(t)) as u64
}

/// The length of the maximal leading run of valid user-id tokens.
pub open spec fn id_run_len(toks: Seq<String>) -> int
    decreases toks.len(),
{
    if toks.len() == 0 {
        0
    } else if !token_is_id(toks[0]) {
        0
    } else {
        1 + id_run_len(toks.drop_first())
    }
}

/// The user ids of the maximal leading run, in order.
pub open spec fn run_ids(toks: Seq<String>) -> Seq<u64> {
    Seq::new(id_run_len(toks) as nat, |j: int| token_id(toks[j]))
}

/// The tokens joined back into one text with single spaces between them.
pub open spec fn join_spaced(toks: Seq<String>) -> Seq<char>
    decreases toks.len(),
{
    if toks.len() == 0 {
        Seq::empty()
    } else if toks.len() == 1 {
        toks[0]@
    } else {
        join_spaced(toks.drop_last()) + seq![' '] + toks.last()@
    }
}

proof fn lemma_id_run_len_at(toks: Seq<String>, i: int)
    requires
        0 <= i <= toks.len(),
        forall|j: int| 0 <= j < i ==> token_is_id(#[trigger] toks[j]),
        i == toks.len() || !token_is_id(toks[i]),
    ensures
        id_run_len(toks) == i,
    decreases toks.len(),
{
    if i == 0 {
    } else {
        assert(token_is_id(toks[0]));
        let rest = toks.drop_first();
        assert(forall|j: int| 0 <= j < i - 1 ==> token_is_id(#[trigger] rest[j]));
        assert(i - 1 == rest.len() || !token_is_id(rest[i - 1]));
        lemma_id_run_len_at(rest, i - 1);
    }
}

/// The reply a chat command earns. The front-end renders each variant as
/// its message; `Reason` carries the stored text to show.
#[derive(Debug, PartialEq, Eq)]
pub enum BotReply {
    /// The author may not use the mutating command.
    NoPermission,
    /// No user id was given.
    NoUserId,
    /// The one given user-id token does not parse.
    InvalidUserId,
    /// The leading run of user-id tokens is empty.
    InvalidUserIds,
    /// No record exists for the asked-for user id.
    NotFound,
    /// The reason text on record for the asked-for user id.
    Reason(String),
    /// Every given user id now carries the new reason.
    Saved,
}

/// Answers a `lookup` command: the first token names the user id, and
/// the reply is the stored reason, a not-found notice, or a complaint
/// about the missing or malformed id. Lookup is public: no whitelist
/// check.
pub fn lookup_command(
    store: &Store,
    cfg: &Config,
    author_id: u64,
    tokens: &Vec<String>,
) -> (r: Result<BotReply, AccessError>)
    ensures
        tokens@.len() == 0 ==> r == Ok::<BotReply, AccessError>(BotReply::NoUserId),
        tokens@.len() > 0 && !token_is_id(tokens@[0]) ==> r == Ok::<BotReply, AccessError>(
            BotReply::InvalidUserId,
        ),
        tokens@.len() > 0 && token_is_id(tokens@[0]) ==> match r {
            Ok(reply) => match reply {
                BotReply::Reason(s) => store@.contains_key(token_id(tokens@[0]))
                    && s@ == store@.index(token_id(tokens@[0])),
                BotReply::NotFound => !store@.contains_key(token_id(tokens@[0])),
                _ => false,
            },
            Err(_) => false,
        },
{
    if tokens.len() == 0 {
        return Ok(BotReply::NoUserId);
    }
    match crate::keys::parse_u64(tokens[0].as_str()) {
        None => Ok(BotReply::InvalidUserId),
        Some(id) => {
            let caller = CallerContext::BotCommand { user_id: author_id };
            match get_reason(store, cfg, &caller, id) {
                Ok(Some(rec)) => Ok(BotReply::Reason(rec.reason)),
                Ok(None) => Ok(BotReply::NotFound),
                Err(e) => Err(e),
            }
        },
    }
}

/// Answers a `setreason` command: after the whitelist check, the maximal
/// leading run of valid user-id tokens names the targets, and the rest
/// of the message is the reason text. Every check that fails leaves the
/// store untouched.
pub fn setreason_command(
    store: &mut Store,
    cfg: &Config,
    author_id: u64,
    tokens: &Vec<String>,
) -> (r: Result<BotReply, AccessError>)
    ensures
        !cfg.whitelist@.contains(author_id) ==> r == Ok::<BotReply, AccessError>(
            BotReply::NoPermission,
        ) && final(store)@ == old(store)@,
        cfg.whitelist@.contains(author_id) && tokens@.len() == 0 ==> r == Ok::<
            BotReply,
            AccessError,
        >(BotReply::NoUserId) && final(store)@ == old(store)@,
        cfg.whitelist@.contains(author_id) && tokens@.len() > 0 && id_run_len(tokens@) == 0 ==> r
            == Ok::<BotReply, AccessError>(BotReply::InvalidUserIds) && final(store)@ == old(store)@,
        cfg.whitelist@.contains(author_id) && tokens@.len() > 0 && id_run_len(tokens@)
            == tokens@.len() ==> r == Ok::<BotReply, AccessError>(BotReply::NoUserId) && final(store)@ == old(store)@,
        cfg.whitelist@.contains(author_id) && 0 < id_run_len(tokens@) < tokens@.len() ==> {
            let ids = run_ids(tokens@);
            let reason = join_spaced(tokens@.skip(id_run_len(tokens@)));
            &&& reason.len() == 0 ==> r == Err::<BotReply, AccessError>(AccessError::InvalidInput)
                && final(store)@ == old(store)@
            &&& reason.len() > 0 ==> match r {
                Ok(reply) => reply == BotReply::Saved && final(store)@ == write_all(old(store)@, ids, reason),
                Err(_) => false,
            }
        },
{
    if !in_whitelist(&cfg.whitelist, author_id) {
        return Ok(BotReply::NoPermission);
    }
    if tokens.len() == 0 {
        return Ok(BotReply::NoUserId);
    }
    let mut i: usize = 0;
    let mut ids: Vec<u64> = Vec::new();
    let mut stop = false;
    while i < tokens.len() && !stop
        invariant
            i <= tokens@.len(),
            forall|j: int| 0 <= j < i ==> token_is_id(#[trigger] tokens@[j]),
            ids@.len() == i,
            forall|j: int| 0 <= j < i ==> ids@[j] == token_id(#[trigger] tokens@[j]),
            stop ==> i < tokens@.len() && !token_is_id(tokens@[i as int]),
        decreases tokens@.len() + (if stop { 0int } else { 1int }) - i,
    {
        match crate::keys::parse_u64(tokens[i].as_str()) {
            Some(v) => {
                ids.push(v);
                i = i + 1;
            },
            None => {
                stop = true;
            },
        }
    }
    proof {
        lemma_id_run_len_at(tokens@, i as int);
        assert(ids@ =~= run_ids(tokens@));
    }
    if ids.len() == 0 {
        return Ok(BotReply::InvalidUserIds);
    }
    if i == tokens.len() {
        return Ok(BotReply::NoUserId);
    }
    let mut reason = String::new();
    let mut j: usize = i;
    while j < tokens.len()
        invariant
            i <= j <= tokens@.len(),
            reason@ == join_spaced(tokens@.subrange(i as int, j as int)),
        decreases tokens@.len() - j,
    {
        let ghost before = tokens@.subrange(i as int, j as int);
        let ghost after = tokens@.subrange(i as int, j + 1);
        if j > i {
            reason.append(" ");
            proof {
                reveal_strlit(" ");
                assert(" "@ =~= seq![' ']);
            }
        }
        reason.append(tokens[j].as_str());
        proof {
            if j == i {
                assert(after.len() == 1);
                assert(after[0] == tokens@[j as int]);
                assert(reason@ =~= join_spaced(after));
            } else {
                assert(after.drop_last() =~= before);
                assert(after.last() == tokens@[j as int]);
                assert(reason@ =~= join_spaced(after));
            }
        }
        j = j + 1;
    }
    proof {
        assert(tokens@.subrange(i as int, tokens@.len() as int) =~= tokens@.skip(i as int));
    }
    let caller = CallerContext::BotCommand { user_id: author_id };
    match set_reason(store, cfg, &caller, &ids, reason.as_str()) {
        Ok(_) => Ok(BotReply::Saved),
        Err(e) => Err(e),
    }
}

} // verus!
