//! Rotation of a refresh token inside one database transaction: the decisions
//! of the exchange, as a machine that names each database step for the caller
//! to perform and is told its outcome.
use vstd::prelude::*;

use crate::auth::error::Error;
use crate::auth::tokens::{
    base64_url_no_pad, digest, generate_random_secure_token, is_before, is_url_safe_base64,
    new_refresh_token, now_timestamp, opt_text, sha256_hex, NewRefreshToken, RefreshToken, Timestamp,
    REFRESH_TOKEN_BYTES, REFRESH_TOKEN_LIFETIME_MICROS,
};
use crate::ids::{is_v4_uuid, new_uuid};

verus! {

broadcast use vstd::string::group_string_axioms;

/// A database step that the rotation asks for, inside its transaction.
#[derive(Debug)]
pub enum RotationAction {
    /// Select the stored token with this digest, locking its row.
    FetchForUpdate(String),
    /// Delete every refresh token of this user.
    DeleteUserTokens(u128),
    /// Insert this token.
    Insert(NewRefreshToken),
    /// Set `revoked_at` to now and `replaced_by_token_id` to `replaced_by` on
    /// token `id`, where it is not revoked yet, and report the rows changed.
    Revoke { id: u128, replaced_by: u128 },
    /// Commit the transaction.
    Commit,
    /// Stop with this result; a transaction not committed is rolled back.
    Finish(Result<String, Error>),
}

/// The outcome of the step last asked for.
#[derive(Debug)]
pub enum RotationEvent {
    /// The stored token found by `FetchForUpdate`, if any.
    Fetched(Option<RefreshToken>),
    /// `DeleteUserTokens`, `Insert` or `Commit` went through.
    Done,
    /// `Revoke` went through and changed this many rows.
    RowsAffected(u64),
}

/// Where a rotation stands.
#[derive(Debug)]
pub enum RotationStage {
    /// Waiting for the stored token.
    Fetching,
    /// The token was already revoked: waiting for its user's tokens to go.
    Purging,
    /// Waiting for the purge to be committed.
    PurgeCommitting,
    /// Waiting for the successor `new_id` of token `old_id` to be inserted.
    Inserting { old_id: u128, new_id: u128, new_token: String },
    /// Waiting for the old token to be revoked.
    Revoking { new_token: String },
    /// Waiting for the commit.
    Committing { new_token: String },
    /// Done.
    Finished,
}

/// One rotation of a refresh token.
#[derive(Debug)]
pub struct Rotation {
    pub stage: RotationStage,
}

impl RotationStage {
    /// Whether `event` answers the step this stage waits for.
    pub open spec fn spec_accepts(&self, event: &RotationEvent) -> bool {
        match self {
            RotationStage::Fetching => event is Fetched,
            RotationStage::Purging => event is Done,
            RotationStage::PurgeCommitting => event is Done,
            RotationStage::Inserting { .. } => event is Done,
            RotationStage::Revoking { .. } => event is RowsAffected,
            RotationStage::Committing { .. } => event is Done,
            RotationStage::Finished => false,
        }
    }
}

/// The `AuthError` with this text.
pub open spec fn auth_error(e: Error, text: Seq<char>) -> bool {
    e matches Error::AuthError(t) && t@ == text
}

/// A finish with the `AuthError` of this text.
pub open spec fn fails_with(a: RotationAction, text: Seq<char>) -> bool {
    a matches RotationAction::Finish(Err(e)) && auth_error(e, text)
}

/// An `AuthError` with the given text.
fn auth_error_of(text: &str) -> (e: Error)
    ensures
        auth_error(e, text@),
{
    Error::AuthError(text.to_owned())
}

/// One step of a rotation: from stage `before`, told `event` at time `now`,
/// it asks for `a` and moves to stage `after`.
pub open spec fn rotation_step(
    before: RotationStage,
    event: RotationEvent,
    now: Timestamp,
    after: RotationStage,
    a: RotationAction,
) -> bool {
    match (before, event) {
        (RotationStage::Fetching, RotationEvent::Fetched(None)) => {
            &&& fails_with(a, "Token Not Found"@)
            &&& after is Finished
        },
        (RotationStage::Fetching, RotationEvent::Fetched(Some(t))) => {
            if t.revoked_at is Some {
                &&& a == RotationAction::DeleteUserTokens(t.user_id)
                &&& after is Purging
            } else if is_before(t.expires_at, now) {
                &&& fails_with(a, "Token Expired"@)
                &&& after is Finished
            } else {
                &&& a matches RotationAction::Insert(n)
                &&& after matches RotationStage::Inserting {
                    old_id,
                    new_id,
                    new_token,
                }
                &&& old_id == t.id
                &&& is_v4_uuid(new_id)
                &&& exists|bytes: Seq<u8>|
                    bytes.len() == REFRESH_TOKEN_BYTES && new_token@ == base64_url_no_pad(bytes)
                &&& new_token@.len() == 43
                &&& forall|i: int|
                    0 <= i < new_token@.len() ==> is_url_safe_base64(
                        #[trigger] new_token@[i],
                    )
                &&& n.id == new_id
                &&& n.user_id == t.user_id
                &&& n.token_hash@ == sha256_hex(new_token@)
                &&& n.ip_address == t.ip_address
                &&& opt_text(n.user_agent) == opt_text(t.user_agent)
                &&& n.expires_at == now.micros + REFRESH_TOKEN_LIFETIME_MICROS
            }
        },
        (RotationStage::Purging, _) => {
            &&& a == RotationAction::Commit
            &&& after is PurgeCommitting
        },
        (RotationStage::PurgeCommitting, _) => {
            &&& fails_with(a, "Token Already revoked. (Token Theft)"@)
            &&& after is Finished
        },
        (RotationStage::Inserting { old_id, new_id, new_token }, _) => {
            &&& a == RotationAction::Revoke { id: old_id, replaced_by: new_id }
            &&& after matches RotationStage::Revoking { new_token: t2 }
            &&& t2@ == new_token@
        },
        (RotationStage::Revoking { new_token }, RotationEvent::RowsAffected(n)) => {
            if n == 0 {
                &&& fails_with(a, "Concurrent rotation detected"@)
                &&& after is Finished
            } else {
                &&& a == RotationAction::Commit
                &&& after matches RotationStage::Committing { new_token: t2 }
                &&& t2@ == new_token@
            }
        },
        (RotationStage::Committing { new_token }, _) => {
            &&& a matches RotationAction::Finish(Ok(t2))
            &&& t2@ == new_token@
            &&& after is Finished
        },
        _ => false,
    }
}

impl Rotation {
    /// Starts rotating the refresh token `current_token`: asks for the stored
    /// token with its digest.
    pub fn start(current_token: &str) -> (r: (Rotation, RotationAction))
        ensures
            r.0.stage is Fetching,
            r.1 matches RotationAction::FetchForUpdate(h) && h@ == sha256_hex(current_token@),
    {
        (Rotation { stage: RotationStage::Fetching }, RotationAction::FetchForUpdate(digest(current_token)))
    }

    /// Whether `event` answers the step this rotation waits for.
    pub fn accepts(&self, event: &RotationEvent) -> (b: bool)
        ensures
            b == self.stage.spec_accepts(event),
    {
        match (&self.stage, event) {
            (RotationStage::Fetching, RotationEvent::Fetched(_)) => true,
            (RotationStage::Purging, RotationEvent::Done) => true,
            (RotationStage::PurgeCommitting, RotationEvent::Done) => true,
            (RotationStage::Inserting { .. }, RotationEvent::Done) => true,
            (RotationStage::Revoking { .. }, RotationEvent::RowsAffected(_)) => true,
            (RotationStage::Committing { .. }, RotationEvent::Done) => true,
            _ => false,
        }
    }

    /// Takes the outcome of the last step and names the next one, at time
    /// `now`.
    ///
    /// A token that is not stored fails with "Token Not Found". A token
    /// already revoked has been used twice: all tokens of its user are
    /// deleted, that is committed, and the rotation fails with "Token Already
    /// revoked. (Token Theft)". A token whose expiry lies before `now`, to the
    /// nanosecond, fails with "Token Expired". Otherwise a successor with a fresh id and a fresh random secret is
    /// inserted for the same user, address and agent, expiring a week from
    /// `now` cut to whole microseconds; the old token is revoked and linked to it; where no row changed,
    /// another rotation got there first and this one fails with "Concurrent
    /// rotation detected"; otherwise the transaction is committed and the
    /// successor's secret is the result.
    pub fn step(&mut self, event: RotationEvent, now: Timestamp) -> (a: RotationAction)
        requires
            old(self).stage.spec_accepts(&event),
            now.valid(),
        ensures
            rotation_step(old(self).stage, event, now, final(self).stage, a),
    {
        let mut stage = RotationStage::Finished;
        std::mem::swap(&mut stage, &mut self.stage);
        match stage {
            RotationStage::Fetching => {
                let found = match event {
                    RotationEvent::Fetched(f) => f,
                    _ => {
                        return RotationAction::Finish(Err(auth_error_of("unexpected event")));
                    },
                };
                match found {
                    None => RotationAction::Finish(Err(auth_error_of("Token Not Found"))),
                    Some(t) => {
                        if t.revoked_at.is_some() {
                            self.stage = RotationStage::Purging;
                            RotationAction::DeleteUserTokens(t.user_id)
                        } else if t.expires_at < now.micros || (t.expires_at == now.micros
                            && now.sub_micro_nanos > 0) {
                            RotationAction::Finish(Err(auth_error_of("Token Expired")))
                        } else {
                            let new_id = new_uuid();
                            let new_token = generate_random_secure_token(REFRESH_TOKEN_BYTES);
                            let row = new_refresh_token(
                                new_id,
                                t.user_id,
                                new_token.as_str(),
                                t.ip_address,
                                t.user_agent,
                                now.micros,
                            );
                            self.stage = RotationStage::Inserting { old_id: t.id, new_id, new_token };
                            RotationAction::Insert(row)
                        }
                    },
                }
            },
            RotationStage::Purging => {
                self.stage = RotationStage::PurgeCommitting;
                RotationAction::Commit
            },
            RotationStage::PurgeCommitting => RotationAction::Finish(
                Err(auth_error_of("Token Already revoked. (Token Theft)")),
            ),
            RotationStage::Inserting { old_id, new_id, new_token } => {
                self.stage = RotationStage::Revoking { new_token };
                RotationAction::Revoke { id: old_id, replaced_by: new_id }
            },
            RotationStage::Revoking { new_token } => {
                let n = match event {
                    RotationEvent::RowsAffected(n) => n,
                    _ => 0,
                };
                if n == 0 {
                    RotationAction::Finish(Err(auth_error_of("Concurrent rotation detected")))
                } else {
                    self.stage = RotationStage::Committing { new_token };
                    RotationAction::Commit
                }
            },
            RotationStage::Committing { new_token } => RotationAction::Finish(Ok(new_token)),
            RotationStage::Finished => RotationAction::Finish(Err(auth_error_of("unexpected event"))),
        }
    }
    /// `step` at the current time: the step is the one `step` takes at some
    /// instant of the clock's range.
    pub fn advance(&mut self, event: RotationEvent) -> (a: RotationAction)
        requires
            old(self).stage.spec_accepts(&event),
        ensures
            exists|now: Timestamp|
                now.valid() && rotation_step(
                    old(self).stage,
                    event,
                    now,
                    final(self).stage,
                    a,
                ),
    {
        let now = now_timestamp();
        self.step(event, now)
    }
}

/// What the stored token found for the presented one decides, for every token
/// and every readable instant `now`: no token fails with "Token Not Found" at
/// once; a revoked token, and only a revoked one, has its user's tokens
/// deleted; a token not revoked whose expiry lies before `now` (to the
/// nanosecond) fails with "Token Expired" at once, asking for no change to the
/// table; any other token gets a successor inserted for its user, expiring a
/// week after `now`.
pub proof fn law_fetched_token_decides(
    found: Option<RefreshToken>,
    now: Timestamp,
    after: RotationStage,
    a: RotationAction,
)
    requires
        now.valid(),
        rotation_step(RotationStage::Fetching, RotationEvent::Fetched(found), now, after, a),
    ensures
        match found {
            None => fails_with(a, "Token Not Found"@) && after is Finished,
            Some(t) => if t.revoked_at is Some {
                a == RotationAction::DeleteUserTokens(t.user_id) && after is Purging
            } else if t.expires_at * 1000 < now.micros * 1000 + now.sub_micro_nanos {
                fails_with(a, "Token Expired"@) && after is Finished
            } else {
                &&& after is Inserting
                &&& a matches RotationAction::Insert(n)
                &&& n.user_id == t.user_id
                &&& n.expires_at == now.micros + REFRESH_TOKEN_LIFETIME_MICROS
            },
        },
        !(a is Revoke) && !(a is Commit) && !(a matches RotationAction::Finish(Ok(_))),
{
}

/// `stages[0]` went, told `events[k]` at `times[k]` in turn, through the stages
/// of `stages`, asking for `actions[k]` at each step.
pub open spec fn is_run(
    stages: Seq<RotationStage>,
    events: Seq<RotationEvent>,
    times: Seq<Timestamp>,
    actions: Seq<RotationAction>,
) -> bool {
    &&& stages.len() == events.len() + 1
    &&& times.len() == events.len()
    &&& actions.len() == events.len()
    &&& forall|k: int|
        0 <= k < events.len() ==> rotation_step(
            #[trigger] stages[k],
            events[k],
            times[k],
            stages[k + 1],
            actions[k],
        )
}

/// The first five steps of a run, as far as it goes: a rotation takes at
/// most four steps, so a fifth one shows that a run ended.
proof fn lemma_first_steps(
    stages: Seq<RotationStage>,
    events: Seq<RotationEvent>,
    times: Seq<Timestamp>,
    actions: Seq<RotationAction>,
)
    requires
        is_run(stages, events, times, actions),
    ensures
        forall|k: int|
            0 <= k < 5 && k < events.len() ==> rotation_step(
                #[trigger] stages[k],
                events[k],
                times[k],
                stages[k + 1],
                actions[k],
            ),
{
    assert forall|k: int| 0 <= k < 5 && k < events.len() implies rotation_step(
        #[trigger] stages[k],
        events[k],
        times[k],
        stages[k + 1],
        actions[k],
    ) by {}
}

/// A live refresh token is exchanged: the rotation started with `token` looks
/// up the digest under which the token was stored, and where the row it finds
/// is neither revoked nor expired at `now`, the next step inserts a successor
/// for the same user, expiring a week after `now`.
pub proof fn law_live_token_rotates(
    token: Seq<char>,
    lookup: RotationAction,
    stored: RefreshToken,
    now: Timestamp,
    after: RotationStage,
    a: RotationAction,
)
    requires
        lookup matches RotationAction::FetchForUpdate(h) && h@ == sha256_hex(token),
        stored.token_hash@ == sha256_hex(token),
        stored.revoked_at is None,
        !is_before(stored.expires_at, now),
        rotation_step(
            RotationStage::Fetching,
            RotationEvent::Fetched(Some(stored)),
            now,
            after,
            a,
        ),
    ensures
        lookup matches RotationAction::FetchForUpdate(h) && h@ == stored.token_hash@,
        a matches RotationAction::Insert(n) && n.user_id == stored.user_id && n.expires_at
            == now.micros + REFRESH_TOKEN_LIFETIME_MICROS,
        after is Inserting,
{
}

/// A replayed refresh token (one already revoked) never yields a new token:
/// the rotation deletes all tokens of its user, commits that, and fails as
/// token theft, and there is no further step.
pub proof fn law_replayed_token_purges_user(
    stages: Seq<RotationStage>,
    events: Seq<RotationEvent>,
    times: Seq<Timestamp>,
    actions: Seq<RotationAction>,
)
    requires
        is_run(stages, events, times, actions),
        stages.len() > 1,
        stages[0] is Fetching,
        events[0] matches RotationEvent::Fetched(Some(t)) && t.revoked_at is Some,
    ensures
        events.len() <= 3,
        events[0] matches RotationEvent::Fetched(Some(t)) && actions[0]
            == RotationAction::DeleteUserTokens(t.user_id),
        events.len() > 1 ==> actions[1] == RotationAction::Commit,
        events.len() > 2 ==> fails_with(actions[2], "Token Already revoked. (Token Theft)"@),
        forall|k: int|
            0 <= k < actions.len() ==> !(#[trigger] actions[k] is Insert) && !(
            actions[k] matches RotationAction::Finish(Ok(_))),
{
    lemma_first_steps(stages, events, times, actions);
}

/// A rotation that hands out a new token `tok` did so at its fourth step, after
/// finding the presented token stored, neither revoked nor expired; inserting a
/// successor for the same user that stores the digest of `tok`; revoking the
/// presented token in favour of that successor, which changed a row; and
/// committing.
pub proof fn law_new_token_only_after_commit(
    stages: Seq<RotationStage>,
    events: Seq<RotationEvent>,
    times: Seq<Timestamp>,
    actions: Seq<RotationAction>,
    k: int,
)
    requires
        is_run(stages, events, times, actions),
        stages[0] is Fetching,
        0 <= k < events.len(),
        actions[k] matches RotationAction::Finish(Ok(_)),
    ensures
        k == 3,
        events[0] matches RotationEvent::Fetched(Some(t)) && {
            &&& t.revoked_at is None
            &&& !is_before(t.expires_at, times[0])
            &&& actions[0] matches RotationAction::Insert(n) && {
                &&& n.user_id == t.user_id
                &&& actions[3] matches RotationAction::Finish(Ok(tok)) && n.token_hash@
                    == sha256_hex(tok@)
                &&& actions[1] == RotationAction::Revoke { id: t.id, replaced_by: n.id }
            }
        },
        events[2] matches RotationEvent::RowsAffected(m) && m > 0,
        actions[2] == RotationAction::Commit,
{
    lemma_first_steps(stages, events, times, actions);
}

} // verus!
