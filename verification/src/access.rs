//! The access layer: the one entry point both front-ends call. It
//! authorizes the caller, validates the input, performs the store
//! operations, and reports results through one error taxonomy.

use vstd::prelude::*;
use crate::store::Store;
use crate::store::StoreError;

verus! {

/// One stored record: a user id and the reason text kept for it.
#[derive(Debug, Clone, PartialEq, Eq)]
pub struct ReasonRecord {
    pub user_id: u64,
    pub reason: String,
}

/// Which front-end calls, and with what identity.
#[derive(Debug, Clone)]
pub enum CallerContext {
    /// A chat command; the author's user id decides whitelist membership.
    BotCommand { user_id: u64 },
    /// An HTTP request; the presented credential is compared to the
    /// process credential.
    ApiRequest { credential: String },
}

/// Process-lifetime configuration: the whitelist of user ids allowed to
/// mutate through the chat interface, and the shared secret that
/// authorizes HTTP calls. Both are read-only after startup.
pub struct Config {
    pub whitelist: Vec<u64>,
    pub credential: String,
}

/// Why an access-layer call failed.
#[derive(Debug, PartialEq, Eq)]
pub enum AccessError {
    /// Missing required input: an empty id list or an empty reason.
    InvalidInput,
    /// The caller is not allowed to perform the operation.
    Forbidden,
    /// The store failed. `updated` lists the user ids already written, in
    /// input order, before the failure; empty for a read.
    StoreFailure { updated: Vec<u64>, error: StoreError },
}

/// Whether `caller` may mutate records: a chat author must be on the
/// whitelist; an HTTP caller must present the exact credential.
pub open spec fn may_write(cfg: Config, caller: CallerContext) -> bool {
    match caller {
        CallerContext::BotCommand { user_id } => cfg.whitelist@.contains(user_id),
        CallerContext::ApiRequest { credential } => credential@ == cfg.credential@,
    }
}

/// Whether `caller` may read records: lookup is public for chat users,
/// while HTTP callers still need the credential.
pub open spec fn may_read(cfg: Config, caller: CallerContext) -> bool {
    match caller {
        CallerContext::BotCommand { .. } => true,
        CallerContext::ApiRequest { credential } => credential@ == cfg.credential@,
    }
}

/// The store contents after writing `reason` for each id of `ids` in
/// order. Later writes win, and ids outside `ids` keep their records.
pub open spec fn write_all(
    m: Map<u64, Seq<char>>,
    ids: Seq<u64>,
    reason: Seq<char>,
) -> Map<u64, Seq<char>>
    decreases ids.len(),
{
    if ids.len() == 0 {
        m
    } else {
        write_all(m, ids.drop_last(), reason).insert(ids.last(), reason)
    }
}

/// Write-then-read consistency: after a run of writes that includes `u`,
/// the record for `u` holds exactly the written reason.
pub proof fn lemma_write_then_read(m: Map<u64, Seq<char>>, ids: Seq<u64>, reason: Seq<char>, u: u64)
    requires
        ids.contains(u),
    ensures
        write_all(m, ids, reason).contains_key(u),
        write_all(m, ids, reason)[u] == reason,
    decreases ids.len(),
{
    if ids.last() != u {
        assert(ids.drop_last().contains(u)) by {
            let i = choose|i: int| 0 <= i < ids.len() && ids[i] == u;
            assert(ids.drop_last()[i] == u);
        }
        lemma_write_then_read(m, ids.drop_last(), reason, u);
    }
}

/// Ids left out of a run of writes keep their records exactly.
pub proof fn lemma_write_all_untouched(
    m: Map<u64, Seq<char>>,
    ids: Seq<u64>,
    reason: Seq<char>,
    u: u64,
)
    requires
        !ids.contains(u),
    ensures
        write_all(m, ids, reason).contains_key(u) == m.contains_key(u),
        m.contains_key(u) ==> write_all(m, ids, reason)[u] == m[u],
    decreases ids.len(),
{
    if ids.len() > 0 {
        assert(!ids.drop_last().contains(u)) by {
            assert(forall|i: int|
                0 <= i < ids.drop_last().len() ==> #[trigger] ids.drop_last()[i] == ids[i]);
        }
        assert(ids.last() != u) by {
            assert(ids[ids.len() - 1] == ids.last());
        }
        lemma_write_all_untouched(m, ids.drop_last(), reason, u);
    }
}

/// A run of one id is one plain insert.
pub proof fn lemma_write_one(m: Map<u64, Seq<char>>, u: u64, reason: Seq<char>)
    ensures
        write_all(m, seq![u], reason) == m.insert(u, reason),
{
    let s = seq![u];
    assert(s.drop_last() =~= Seq::<u64>::empty());
    assert(write_all(m, s.drop_last(), reason) == m);
    assert(s.last() == u);
}

/// Overwrite: writing `r1` and then `r2` for the same id leaves the store
/// exactly as if only `r2` had been written — no trace of `r1` remains.
pub proof fn lemma_overwrite(m: Map<u64, Seq<char>>, u: u64, r1: Seq<char>, r2: Seq<char>)
    ensures
        write_all(write_all(m, seq![u], r1), seq![u], r2) == write_all(m, seq![u], r2),
{
    lemma_write_one(m, u, r1);
    lemma_write_one(m.insert(u, r1), u, r2);
    lemma_write_one(m, u, r2);
    assert(m.insert(u, r1).insert(u, r2) =~= m.insert(u, r2));
}

/// Whether `id` is on the whitelist.
pub fn in_whitelist(list: &Vec<u64>, id: u64) -> (r: bool)
    ensures
        r == list@.contains(id),
{
    let mut i: usize = 0;
    while i < list.len()
        invariant
            i <= list@.len(),
            forall|j: int| 0 <= j < i ==> list@[j] != id,
        decreases list@.len() - i,
    {
        if list[i] == id {
            return true;
        }
        i = i + 1;
    }
    false
}

/// Decides write authorization for `caller` under `cfg`.
pub fn allowed_to_write(cfg: &Config, caller: &CallerContext) -> (r: bool)
    ensures
        r == may_write(*cfg, *caller),
{
    match caller {
        CallerContext::BotCommand { user_id } => in_whitelist(&cfg.whitelist, *user_id),
        CallerContext::ApiRequest { credential } => *credential == cfg.credential,
    }
}

/// Decides read authorization for `caller` under `cfg`.
pub fn allowed_to_read(cfg: &Config, caller: &CallerContext) -> (r: bool)
    ensures
        r == may_read(*cfg, *caller),
{
    match caller {
        CallerContext::BotCommand { .. } => true,
        CallerContext::ApiRequest { credential } => *credential == cfg.credential,
    }
}

/// Writes `reason` for every id of `user_ids`, in order, after checking
/// input and authorization. Not atomic across ids: the first store
/// failure stops the run, and the error carries exactly the ids already
/// written. An unauthorized or invalid call never touches the store.
pub fn set_reason(
    store: &mut Store,
    cfg: &Config,
    caller: &CallerContext,
    user_ids: &Vec<u64>,
    reason: &str,
) -> (r: Result<Vec<u64>, AccessError>)
    ensures
        user_ids@.len() == 0 || reason@.len() == 0 ==> r == Err::<Vec<u64>, AccessError>(
            AccessError::InvalidInput,
        ) && final(store)@ == old(store)@,
        user_ids@.len() > 0 && reason@.len() > 0 && !may_write(*cfg, *caller) ==> r == Err::<
            Vec<u64>,
            AccessError,
        >(AccessError::Forbidden) && final(store)@ == old(store)@,
        user_ids@.len() > 0 && reason@.len() > 0 && may_write(*cfg, *caller) ==> match r {
            Ok(updated) => updated@ == user_ids@ && final(store)@ == write_all(old(store)@, user_ids@, reason@),
            Err(_) => false,
        },
{
    if user_ids.len() == 0 || reason.is_empty() {
        return Err(AccessError::InvalidInput);
    }
    if !allowed_to_write(cfg, caller) {
        return Err(AccessError::Forbidden);
    }
    let mut updated: Vec<u64> = Vec::new();
    let mut i: usize = 0;
    while i < user_ids.len()
        invariant
            i <= user_ids@.len(),
            updated@ == user_ids@.subrange(0, i as int),
            store@ == write_all(old(store)@, user_ids@.subrange(0, i as int), reason@),
        decreases user_ids@.len() - i,
    {
        let u = user_ids[i];
        match store.put(u, reason) {
            Ok(()) => {
                updated.push(u);
                proof {
                    assert(user_ids@.subrange(0, i + 1).drop_last() =~= user_ids@.subrange(
                        0,
                        i as int,
                    ));
                    assert(user_ids@.subrange(0, i + 1).last() == user_ids@[i as int]);
                }
                i = i + 1;
            },
            Err(error) => {
                return Err(AccessError::StoreFailure { updated, error });
            },
        }
    }
    proof {
        assert(user_ids@.subrange(0, user_ids@.len() as int) =~= user_ids@);
    }
    Ok(updated)
}

/// Reads the record for `user_id`: `None` when never written, which is
/// not an error. Chat callers read freely; HTTP callers need the
/// credential.
pub fn get_reason(
    store: &Store,
    cfg: &Config,
    caller: &CallerContext,
    user_id: u64,
) -> (r: Result<Option<ReasonRecord>, AccessError>)
    ensures
        !may_read(*cfg, *caller) ==> r == Err::<Option<ReasonRecord>, AccessError>(
            AccessError::Forbidden,
        ),
        may_read(*cfg, *caller) ==> match r {
            Ok(found) => match found {
                Some(rec) => store@.contains_key(user_id) && rec.user_id == user_id
                    && rec.reason@ == store@[user_id],
                None => !store@.contains_key(user_id),
            },
            Err(_) => false,
        },
{
    if !allowed_to_read(cfg, caller) {
        return Err(AccessError::Forbidden);
    }
    match store.get(user_id) {
        Ok(Some(reason)) => Ok(Some(ReasonRecord { user_id, reason })),
        Ok(None) => Ok(None),
        Err(error) => Err(AccessError::StoreFailure { updated: Vec::new(), error }),
    }
}

/// Partial failure: when a write run stops after its first id, exactly
/// that id is updated, and any id not written keeps its record.
pub proof fn lemma_partial_failure(
    m: Map<u64, Seq<char>>,
    u1: u64,
    u3: u64,
    reason: Seq<char>,
)
    requires
        u3 != u1,
    ensures
        write_all(m, seq![u1], reason) == m.insert(u1, reason),
        write_all(m, seq![u1], reason).contains_key(u3) == m.contains_key(u3),
        m.contains_key(u3) ==> write_all(m, seq![u1], reason)[u3] == m[u3],
{
    lemma_write_one(m, u1, reason);
}

} // verus!
