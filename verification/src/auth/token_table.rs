//! Rotations run against the table of stored refresh tokens: what each step
//! the rotation asks for does to the table and answers, and what whole runs
//! of rotations then do.
use vstd::prelude::*;

use crate::auth::rotation::{fails_with, is_run, RotationAction, RotationEvent, RotationStage};
use crate::auth::tokens::{
    is_before, issued_at, opt_text, sha256_hex, IssuedToken, NewRefreshToken, RefreshToken, Timestamp,
    REFRESH_TOKEN_LIFETIME_MICROS,
};

verus! {

/// `after` is `before` with the row of `n` appended: same id, user, digest,
/// address, agent and expiry, neither revoked nor replaced.
pub open spec fn inserts(before: Seq<RefreshToken>, n: NewRefreshToken, after: Seq<RefreshToken>) -> bool {
    &&& after.len() == before.len() + 1
    &&& after.drop_last() == before
    &&& after.last().id == n.id
    &&& after.last().user_id == n.user_id
    &&& after.last().token_hash@ == n.token_hash@
    &&& after.last().ip_address == n.ip_address
    &&& opt_text(after.last().user_agent) == opt_text(n.user_agent)
    &&& after.last().expires_at == n.expires_at
    &&& after.last().revoked_at is None
    &&& after.last().replaced_by_token_id is None
}

/// Row `y` is row `x` revoked in favour of token `replaced_by`.
pub open spec fn revoked_row(x: RefreshToken, replaced_by: u128, y: RefreshToken) -> bool {
    &&& y.id == x.id
    &&& y.user_id == x.user_id
    &&& y.token_hash@ == x.token_hash@
    &&& y.ip_address == x.ip_address
    &&& opt_text(y.user_agent) == opt_text(x.user_agent)
    &&& y.expires_at == x.expires_at
    &&& y.revoked_at is Some
    &&& y.replaced_by_token_id == Some(replaced_by)
}

/// `after` is `before` with every row of id `id` that is not revoked yet
/// revoked in favour of `replaced_by`, and every other row unchanged.
pub open spec fn revokes(before: Seq<RefreshToken>, id: u128, replaced_by: u128, after: Seq<RefreshToken>) -> bool {
    &&& after.len() == before.len()
    &&& forall|k: int|
        0 <= k < before.len() ==> if before[k].id == id && before[k].revoked_at is None {
            revoked_row(before[k], replaced_by, #[trigger] after[k])
        } else {
            after[k] == before[k]
        }
}

/// Some row of id `id` is not revoked yet.
pub open spec fn revocable(table: Seq<RefreshToken>, id: u128) -> bool {
    exists|k: int| 0 <= k < table.len() && (#[trigger] table[k]).id == id && table[k].revoked_at is None
}

/// `after` holds exactly the rows of `before` that belong to another user than
/// `user`.
pub open spec fn deletes_user(before: Seq<RefreshToken>, user: u128, after: Seq<RefreshToken>) -> bool {
    forall|x: RefreshToken| #[trigger] after.contains(x) <==> (before.contains(x) && x.user_id != user)
}

/// The table `before`, asked `request`, answers `event` and becomes `after`.
/// A fetch finds some row with the digest, or answers that none has it; a
/// revocation reports a changed row exactly when some row of that id was not
/// revoked yet.
pub open spec fn table_step(
    before: Seq<RefreshToken>,
    request: RotationAction,
    event: RotationEvent,
    after: Seq<RefreshToken>,
) -> bool {
    match request {
        RotationAction::FetchForUpdate(h) => {
            &&& after == before
            &&& match event {
                RotationEvent::Fetched(None) => forall|x: RefreshToken|
                    #[trigger] before.contains(x) ==> x.token_hash@ != h@,
                RotationEvent::Fetched(Some(r)) => before.contains(r) && r.token_hash@ == h@,
                _ => false,
            }
        },
        RotationAction::DeleteUserTokens(u) => event is Done && deletes_user(before, u, after),
        RotationAction::Insert(n) => event is Done && inserts(before, n, after),
        RotationAction::Revoke { id, replaced_by } => {
            &&& revokes(before, id, replaced_by, after)
            &&& event matches RotationEvent::RowsAffected(m) && (m > 0 <==> revocable(before, id))
        },
        RotationAction::Commit => event is Done && after == before,
        RotationAction::Finish(_) => false,
    }
}

/// The step that event `k` answers: the first request for `k == 0`, else the
/// action asked for at step `k - 1`.
pub open spec fn request_of(first: RotationAction, actions: Seq<RotationAction>, k: int) -> RotationAction {
    if k == 0 {
        first
    } else {
        actions[k - 1]
    }
}

/// A run of the rotation (see `is_run`) whose events are the table's answers:
/// the table went through `tables`, answering `first` and then each action.
pub open spec fn is_table_run(
    first: RotationAction,
    tables: Seq<Seq<RefreshToken>>,
    stages: Seq<RotationStage>,
    events: Seq<RotationEvent>,
    times: Seq<Timestamp>,
    actions: Seq<RotationAction>,
) -> bool {
    &&& is_run(stages, events, times, actions)
    &&& tables.len() == stages.len()
    &&& forall|k: int|
        0 <= k < events.len() ==> #[trigger] table_step(
            tables[k],
            request_of(first, actions, k),
            events[k],
            tables[k + 1],
        )
}

/// A rotation of `token` that has run to its end, against a table.
pub open spec fn finished_run(
    token: Seq<char>,
    first: RotationAction,
    tables: Seq<Seq<RefreshToken>>,
    stages: Seq<RotationStage>,
    events: Seq<RotationEvent>,
    times: Seq<Timestamp>,
    actions: Seq<RotationAction>,
) -> bool {
    &&& first matches RotationAction::FetchForUpdate(h) && h@ == sha256_hex(token)
    &&& is_table_run(first, tables, stages, events, times, actions)
    &&& stages[0] is Fetching
    &&& stages.last() is Finished
}

/// The table holds a row with digest `h`.
pub open spec fn holds_digest(table: Seq<RefreshToken>, h: Seq<char>) -> bool {
    exists|x: RefreshToken| #[trigger] table.contains(x) && x.token_hash@ == h
}

/// The one step of a table run at position `k`.
proof fn run_step(
    first: RotationAction,
    tables: Seq<Seq<RefreshToken>>,
    stages: Seq<RotationStage>,
    events: Seq<RotationEvent>,
    times: Seq<Timestamp>,
    actions: Seq<RotationAction>,
    k: int,
)
    requires
        is_table_run(first, tables, stages, events, times, actions),
        0 <= k < events.len(),
    ensures
        crate::auth::rotation::rotation_step(stages[k], events[k], times[k], stages[k + 1], actions[k]),
        table_step(tables[k], request_of(first, actions, k), events[k], tables[k + 1]),
{
    assert(table_step(tables[k], request_of(first, actions, k), events[k], tables[k + 1]));
}

/// A live token is exchanged to the end. Where the table holds a row with the
/// digest of `token`, and every such row is neither revoked nor expired when
/// the rotation looks, a rotation of `token` run to its end against the table
/// takes four steps and hands out a new token `t2`. The table then holds the
/// successor row: for the user of the presented row, storing the digest of
/// `t2`, with the same address and agent, expiring a week after the look, not
/// revoked; and the presented row is revoked in favour of it. This holds
/// where the successor's random id is not the id of a stored row.
pub proof fn law_live_token_exchanged(
    token: Seq<char>,
    first: RotationAction,
    tables: Seq<Seq<RefreshToken>>,
    stages: Seq<RotationStage>,
    events: Seq<RotationEvent>,
    times: Seq<Timestamp>,
    actions: Seq<RotationAction>,
)
    requires
        finished_run(token, first, tables, stages, events, times, actions),
        holds_digest(tables[0], sha256_hex(token)),
        forall|x: RefreshToken|
            #[trigger] tables[0].contains(x) && x.token_hash@ == sha256_hex(token) ==> x.revoked_at is None
                && !is_before(x.expires_at, times[0]),
        actions.len() > 0 && actions[0] is Insert ==> forall|x: RefreshToken|
            #[trigger] tables[0].contains(x) ==> x.id != actions[0]->Insert_0.id,
    ensures
        events.len() == 4,
        events[0] matches RotationEvent::Fetched(Some(r)) && {
            &&& tables[0].contains(r)
            &&& r.token_hash@ == sha256_hex(token)
            &&& actions[0] matches RotationAction::Insert(n) && {
                &&& actions[3] matches RotationAction::Finish(Ok(t2)) && {
                    let row = tables[4][tables[0].len() as int];
                    &&& tables[4].len() == tables[0].len() + 1
                    &&& row.id == n.id
                    &&& row.user_id == r.user_id
                    &&& row.token_hash@ == sha256_hex(t2@)
                    &&& row.ip_address == r.ip_address
                    &&& opt_text(row.user_agent) == opt_text(r.user_agent)
                    &&& row.expires_at == times[0].micros + REFRESH_TOKEN_LIFETIME_MICROS
                    &&& row.revoked_at is None
                    &&& revokes(tables[0], r.id, n.id, tables[4].drop_last())
                }
                &&& forall|k: int|
                    0 <= k < tables[0].len() && #[trigger] tables[0][k] == r ==> revoked_row(
                        r,
                        n.id,
                        tables[4][k],
                    )
            }
        },
{
    let t0 = tables[0];
    let h = sha256_hex(token);
    run_step(first, tables, stages, events, times, actions, 0);
    let x = choose|x: RefreshToken| #[trigger] t0.contains(x) && x.token_hash@ == h;
    if events[0] matches RotationEvent::Fetched(None) {
        assert(t0.contains(x));
        assert(false);
    }
    let r = events[0]->Fetched_0->Some_0;
    assert(t0.contains(r));
    let n = actions[0]->Insert_0;
    assert(stages[1] is Inserting);
    assert(events.len() >= 2);
    run_step(first, tables, stages, events, times, actions, 1);
    let t2 = tables[2];
    assert(t2.drop_last() == t0);
    let kr = choose|kr: int| 0 <= kr < t0.len() && t0[kr] == r;
    assert(t2[kr] == t0[kr]);
    assert(revocable(t2, r.id));
    assert(stages[2] is Revoking);
    assert(events.len() >= 3);
    run_step(first, tables, stages, events, times, actions, 2);
    assert(stages[3] is Committing);
    assert(events.len() >= 4);
    run_step(first, tables, stages, events, times, actions, 3);
    assert(stages[4] is Finished);
    if events.len() > 4 {
        run_step(first, tables, stages, events, times, actions, 4);
    }
    let t3 = tables[3];
    let last = t0.len() as int;
    assert(t2[last].id == n.id);
    assert(t0.contains(t0[0]) ==> t0[0].id != n.id);
    if t2[last].id == r.id {
        assert(t0.contains(r));
        assert(false);
    }
    assert(t3[last] == t2[last]);
    assert(tables[4].drop_last() =~= t3.drop_last());
    assert forall|k: int| 0 <= k < t0.len() implies if t0[k].id == r.id && t0[k].revoked_at is None {
        revoked_row(t0[k], n.id, #[trigger] tables[4].drop_last()[k])
    } else {
        tables[4].drop_last()[k] == t0[k]
    } by {
        assert(t2[k] == t0[k]);
        assert(tables[4].drop_last()[k] == t3[k]);
    }
    assert forall|k: int| 0 <= k < t0.len() && #[trigger] t0[k] == r implies revoked_row(
        r,
        n.id,
        tables[4][k],
    ) by {
        assert(t2[k] == t0[k]);
        assert(t0.contains(t0[k]));
    }
}

/// Row `x` of the table is the stored form of `n`: same id, user, digest,
/// address, agent and expiry.
pub open spec fn stores(n: NewRefreshToken, x: RefreshToken) -> bool {
    &&& x.id == n.id
    &&& x.user_id == n.user_id
    &&& x.token_hash@ == n.token_hash@
    &&& x.ip_address == n.ip_address
    &&& opt_text(x.user_agent) == opt_text(n.user_agent)
    &&& x.expires_at == n.expires_at
}

/// An issued token is exchanged. Take a token issued at `at` for `user_id`,
/// `ip_address` and `user_agent`, whose row the table holds, not revoked, as
/// its only row with that digest. A rotation of the token run to its end, at
/// an instant not later than a week after `at`, takes four steps and hands
/// out a new token `t2`; the table then holds a successor row for the same
/// user, address and agent, storing the digest of `t2`, not revoked, expiring
/// a week after the rotation; and the issued row is revoked in favour of it.
/// This holds where the successor's random id is not the id of a stored row.
pub proof fn law_issued_token_exchanged(
    issued: IssuedToken,
    user_id: u128,
    ip_address: Option<crate::config::IpAddress>,
    user_agent: Option<Seq<char>>,
    at: Timestamp,
    first: RotationAction,
    tables: Seq<Seq<RefreshToken>>,
    stages: Seq<RotationStage>,
    events: Seq<RotationEvent>,
    times: Seq<Timestamp>,
    actions: Seq<RotationAction>,
)
    requires
        issued_at(issued, user_id, ip_address, user_agent, at),
        finished_run(issued.token@, first, tables, stages, events, times, actions),
        exists|k: int|
            0 <= k < tables[0].len() && stores(issued.row, #[trigger] tables[0][k])
                && tables[0][k].revoked_at is None,
        forall|x: RefreshToken|
            #[trigger] tables[0].contains(x) && x.token_hash@ == issued.row.token_hash@ ==> stores(
                issued.row,
                x,
            ) && x.revoked_at is None,
        !is_before((at.micros + REFRESH_TOKEN_LIFETIME_MICROS) as i64, times[0]),
        actions.len() > 0 && actions[0] is Insert ==> forall|x: RefreshToken|
            #[trigger] tables[0].contains(x) ==> x.id != actions[0]->Insert_0.id,
    ensures
        events.len() == 4,
        actions[3] matches RotationAction::Finish(Ok(t2)) && {
            let row = tables[4][tables[0].len() as int];
            &&& tables[4].len() == tables[0].len() + 1
            &&& row.user_id == user_id
            &&& row.token_hash@ == sha256_hex(t2@)
            &&& row.ip_address == ip_address
            &&& opt_text(row.user_agent) == user_agent
            &&& row.expires_at == times[0].micros + REFRESH_TOKEN_LIFETIME_MICROS
            &&& row.revoked_at is None
            &&& forall|k: int|
                0 <= k < tables[0].len() && stores(issued.row, #[trigger] tables[0][k])
                    && tables[0][k].revoked_at is None ==> revoked_row(
                    tables[0][k],
                    row.id,
                    tables[4][k],
                )
        },
{
    let t0 = tables[0];
    let token = issued.token@;
    let k0 = choose|k: int|
        0 <= k < t0.len() && stores(issued.row, #[trigger] t0[k]) && t0[k].revoked_at is None;
    assert(t0.contains(t0[k0]));
    assert(holds_digest(t0, sha256_hex(token)));
    law_live_token_exchanged(token, first, tables, stages, events, times, actions);
    let r = events[0]->Fetched_0->Some_0;
    assert(stores(issued.row, r));
    let n = actions[0]->Insert_0;
    assert forall|k: int|
        0 <= k < t0.len() && stores(issued.row, #[trigger] t0[k]) && t0[k].revoked_at is None
            implies revoked_row(t0[k], n.id, tables[4][k]) by {
        assert(t0[k].id == r.id);
        assert(tables[4].drop_last()[k] == tables[4][k]);
    }
}

/// An expired token is refused and changes nothing: where the table holds a
/// row with the digest of `token` and every such row is not revoked and
/// expired before the rotation looks (to the nanosecond), a rotation of
/// `token` run to its end fails with "Token Expired" in one step, deletes,
/// inserts, revokes and commits nothing, and leaves the table as it was.
pub proof fn law_expired_token_refused(
    token: Seq<char>,
    first: RotationAction,
    tables: Seq<Seq<RefreshToken>>,
    stages: Seq<RotationStage>,
    events: Seq<RotationEvent>,
    times: Seq<Timestamp>,
    actions: Seq<RotationAction>,
)
    requires
        finished_run(token, first, tables, stages, events, times, actions),
        times[0].valid(),
        holds_digest(tables[0], sha256_hex(token)),
        forall|x: RefreshToken|
            #[trigger] tables[0].contains(x) && x.token_hash@ == sha256_hex(token) ==> x.revoked_at
                is None && x.expires_at * 1000 < times[0].micros * 1000 + times[0].sub_micro_nanos,
    ensures
        events.len() == 1,
        fails_with(actions[0], "Token Expired"@),
        tables[1] == tables[0],
        tables.last() == tables[0],
{
    let t0 = tables[0];
    let h = sha256_hex(token);
    run_step(first, tables, stages, events, times, actions, 0);
    let x = choose|x: RefreshToken| #[trigger] t0.contains(x) && x.token_hash@ == h;
    if events[0] matches RotationEvent::Fetched(None) {
        assert(t0.contains(x));
        assert(false);
    }
    let r = events[0]->Fetched_0->Some_0;
    assert(t0.contains(r));
    assert(is_before(r.expires_at, times[0]));
    assert(stages[1] is Finished);
    if events.len() > 1 {
        run_step(first, tables, stages, events, times, actions, 1);
    }
}

/// A replayed token purges its user. Where the table holds a row with the
/// digest of `token` and every such row is revoked already, a rotation of
/// `token` run to its end deletes the tokens of the found row's user, commits,
/// and fails as token theft, in three steps; the table then holds exactly the
/// rows of the other users.
pub proof fn law_revoked_token_purges_user(
    token: Seq<char>,
    first: RotationAction,
    tables: Seq<Seq<RefreshToken>>,
    stages: Seq<RotationStage>,
    events: Seq<RotationEvent>,
    times: Seq<Timestamp>,
    actions: Seq<RotationAction>,
)
    requires
        finished_run(token, first, tables, stages, events, times, actions),
        holds_digest(tables[0], sha256_hex(token)),
        forall|x: RefreshToken|
            #[trigger] tables[0].contains(x) && x.token_hash@ == sha256_hex(token) ==> x.revoked_at is Some,
    ensures
        events.len() == 3,
        events[0] matches RotationEvent::Fetched(Some(r)) && {
            &&& tables[0].contains(r)
            &&& r.token_hash@ == sha256_hex(token)
            &&& actions[0] == RotationAction::DeleteUserTokens(r.user_id)
            &&& forall|x: RefreshToken|
                #[trigger] tables[3].contains(x) <==> (tables[0].contains(x) && x.user_id != r.user_id)
        },
        actions[1] == RotationAction::Commit,
        fails_with(actions[2], "Token Already revoked. (Token Theft)"@),
{
    let t0 = tables[0];
    let h = sha256_hex(token);
    run_step(first, tables, stages, events, times, actions, 0);
    let x = choose|x: RefreshToken| #[trigger] t0.contains(x) && x.token_hash@ == h;
    if events[0] matches RotationEvent::Fetched(None) {
        assert(t0.contains(x));
        assert(false);
    }
    let r = events[0]->Fetched_0->Some_0;
    assert(t0.contains(r));
    assert(stages[1] is Purging);
    assert(events.len() >= 2);
    run_step(first, tables, stages, events, times, actions, 1);
    assert(stages[2] is PurgeCommitting);
    assert(events.len() >= 3);
    run_step(first, tables, stages, events, times, actions, 2);
    assert(stages[3] is Finished);
    if events.len() > 3 {
        run_step(first, tables, stages, events, times, actions, 3);
    }
}

/// An unknown token is not found: where no row holds the digest of `token`, a
/// rotation of `token` run to its end fails with "Token Not Found" at once and
/// leaves the table as it was.
pub proof fn law_unknown_token_not_found(
    token: Seq<char>,
    first: RotationAction,
    tables: Seq<Seq<RefreshToken>>,
    stages: Seq<RotationStage>,
    events: Seq<RotationEvent>,
    times: Seq<Timestamp>,
    actions: Seq<RotationAction>,
)
    requires
        finished_run(token, first, tables, stages, events, times, actions),
        !holds_digest(tables[0], sha256_hex(token)),
    ensures
        events.len() == 1,
        fails_with(actions[0], "Token Not Found"@),
        tables[1] == tables[0],
{
    run_step(first, tables, stages, events, times, actions, 0);
    if let RotationEvent::Fetched(Some(r)) = events[0] {
        assert(tables[0].contains(r));
        assert(false);
    }
    assert(stages[1] is Finished);
    if events.len() > 1 {
        run_step(first, tables, stages, events, times, actions, 1);
    }
}

/// One whole rotation against a table: the first request, the tables, the
/// stages, the events, the times and the actions of the run.
pub type TableRun = (
    RotationAction,
    Seq<Seq<RefreshToken>>,
    Seq<RotationStage>,
    Seq<RotationEvent>,
    Seq<Timestamp>,
    Seq<RotationAction>,
);

/// `run` is a rotation of `token` run to its end against a table.
pub open spec fn finished(token: Seq<char>, run: TableRun) -> bool {
    finished_run(token, run.0, run.1, run.2, run.3, run.4, run.5)
}

/// A token replayed after its exchange is refused as theft, and its successor
/// goes with it. Take a table with exactly one row for the digest of `token`,
/// live when first presented. A rotation of `token` hands out `successor`;
/// presenting `token` again to the table it left fails as token theft and
/// leaves no row of that row's user; presenting `successor` after that fails
/// with "Token Not Found". This holds where the successor's random id is not
/// the id of a stored row and its random secret has a digest that no row held
/// before and that differs from the digest of `token`.
pub proof fn law_replay_after_exchange(
    token: Seq<char>,
    exchange: TableRun,
    replay: TableRun,
    successor: Seq<char>,
    later: TableRun,
)
    requires
        finished(token, exchange),
        finished(token, replay),
        finished(successor, later),
        replay.1[0] == exchange.1.last(),
        later.1[0] == replay.1.last(),
        holds_digest(exchange.1[0], sha256_hex(token)),
        forall|x: RefreshToken, y: RefreshToken|
            #[trigger] exchange.1[0].contains(x) && #[trigger] exchange.1[0].contains(y)
                && x.token_hash@ == sha256_hex(token) && y.token_hash@ == sha256_hex(token) ==> x == y,
        forall|x: RefreshToken|
            #[trigger] exchange.1[0].contains(x) && x.token_hash@ == sha256_hex(token) ==> x.revoked_at
                is None && !is_before(x.expires_at, exchange.4[0]),
        exchange.5.len() > 0 && exchange.5[0] is Insert ==> forall|x: RefreshToken|
            #[trigger] exchange.1[0].contains(x) ==> x.id != exchange.5[0]->Insert_0.id,
        exchange.5.last() matches RotationAction::Finish(Ok(s)) && s@ == successor,
        sha256_hex(successor) != sha256_hex(token),
        !holds_digest(exchange.1[0], sha256_hex(successor)),
    ensures
        fails_with(replay.5.last(), "Token Already revoked. (Token Theft)"@),
        forall|x: RefreshToken, y: RefreshToken|
            #[trigger] exchange.1[0].contains(x) && x.token_hash@ == sha256_hex(token)
                && #[trigger] replay.1.last().contains(y) ==> y.user_id != x.user_id,
        later.5.len() == 1,
        fails_with(later.5[0], "Token Not Found"@),
{
    let (f1, tb1, st1, ev1, tm1, ac1) = exchange;
    let (f2, tb2, st2, ev2, tm2, ac2) = replay;
    let (f3, tb3, st3, ev3, tm3, ac3) = later;
    let h = sha256_hex(token);
    let hs = sha256_hex(successor);
    let t0 = tb1[0];
    law_live_token_exchanged(token, f1, tb1, st1, ev1, tm1, ac1);
    let r = ev1[0]->Fetched_0->Some_0;
    let n = ac1[0]->Insert_0;
    let t4 = tb1[4];
    assert(tb1.last() == t4);
    let front = t4.drop_last();
    let len = t0.len() as int;
    // Every row of the table after the exchange comes from a row before it,
    // or is the successor.
    assert forall|y: RefreshToken| #[trigger] t4.contains(y) implies (y == t4[len] || exists|k: int|
        0 <= k < len && front[k] == y) by {
        let k = choose|k: int| 0 <= k < t4.len() && t4[k] == y;
        if k < len {
            assert(front[k] == y);
        }
    }
    // The presented row is now revoked, and is the only row with its digest.
    let kr = choose|kr: int| 0 <= kr < len && t0[kr] == r;
    assert(t0.contains(t0[kr]));
    assert(t4.contains(front[kr])) by {
        assert(t4[kr] == front[kr]);
    }
    assert(holds_digest(t4, h));
    assert forall|y: RefreshToken| #[trigger] t4.contains(y) && y.token_hash@ == h implies y.revoked_at
        is Some && y.user_id == r.user_id by {
        if y != t4[len] {
            let k = choose|k: int| 0 <= k < len && front[k] == y;
            assert(t0.contains(t0[k]));
            assert(t0[k].token_hash@ == h);
            assert(t0[k] == r);
        }
    }
    law_revoked_token_purges_user(token, f2, tb2, st2, ev2, tm2, ac2);
    let r2 = ev2[0]->Fetched_0->Some_0;
    assert(r2.user_id == r.user_id);
    let t_end = tb2[3];
    assert(tb2.last() == t_end);
    assert(ac2.last() == ac2[2]);
    assert forall|x: RefreshToken, y: RefreshToken|
        #[trigger] t0.contains(x) && x.token_hash@ == h && #[trigger] t_end.contains(y) implies y.user_id
        != x.user_id by {
        assert(x == r);
    }
    // The successor's row went with its user; no other row has its digest.
    if holds_digest(t_end, hs) {
        let y = choose|y: RefreshToken| #[trigger] t_end.contains(y) && y.token_hash@ == hs;
        assert(t4.contains(y));
        if y != t4[len] {
            let k = choose|k: int| 0 <= k < len && front[k] == y;
            assert(t0.contains(t0[k]));
            assert(t0[k].token_hash@ == hs);
            assert(false);
        }
    }
    law_unknown_token_not_found(successor, f3, tb3, st3, ev3, tm3, ac3);
}

} // verus!
