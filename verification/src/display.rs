//! Shared display state and the staleness gate.
//!
//! Every query event carries an issuance timestamp. An empty-text event
//! clears the display synchronously and raises the acceptance threshold.
//! Background aggregation for a non-empty event ends in a commit attempt,
//! and the threshold admits an attempt only when its issuance timestamp is
//! strictly greater than the last accepted one, so the display always
//! reflects the most recently issued query, whatever order the background
//! tasks complete in.

use vstd::prelude::*;

verus! {

/// One renderable row of the result list.
#[derive(Debug, PartialEq, Eq)]
pub struct DisplayEntry {
    /// The main text of the row: the translation on success, an error
    /// description on failure.
    pub title: String,
    /// The secondary line naming the provider and what clicking does.
    pub subtitle: String,
    /// Whether activating the row copies `title` (successful translations
    /// get a copy action; failed ones are inert).
    pub copy_action: bool,
}

/// The mathematical state of the display: what is shown and the issuance
/// timestamp of the last accepted event.
#[verifier::ext_equal]
pub ghost struct DisplayModel {
    pub items: Seq<DisplayEntry>,
    pub last_accepted: u64,
}

/// One event as it reaches the display state, in lock-acquisition order:
/// a `Clear` is applied synchronously at its own issuance time, a `Commit`
/// is a background task's attempt, applied whenever that task happens to
/// finish.
pub ghost enum QueryStep {
    Clear { at: u64 },
    Commit { at: u64, items: Seq<DisplayEntry> },
}

pub open spec fn step_time(s: QueryStep) -> u64 {
    match s {
        QueryStep::Clear { at } => at,
        QueryStep::Commit { at, .. } => at,
    }
}

/// What one event does to the display: a clear always wins and raises the
/// threshold to its own time; a commit is accepted only if strictly newer
/// than the last accepted event.
pub open spec fn apply_step(m: DisplayModel, s: QueryStep) -> DisplayModel {
    match s {
        QueryStep::Clear { at } => DisplayModel { items: Seq::empty(), last_accepted: at },
        QueryStep::Commit { at, items } => if at > m.last_accepted {
            DisplayModel { items: items, last_accepted: at }
        } else {
            m
        },
    }
}

pub open spec fn apply_steps(m: DisplayModel, steps: Seq<QueryStep>) -> DisplayModel
    decreases steps.len(),
{
    if steps.len() == 0 {
        m
    } else {
        apply_steps(apply_step(m, steps[0]), steps.drop_first())
    }
}

/// The physical constraint on a real session: a clear is applied at the very
/// moment it is issued, so every step applied before it was issued before it.
pub open spec fn clears_monotone(steps: Seq<QueryStep>) -> bool {
    forall|i: int, j: int|
        0 <= i < j < steps.len() && steps[j] is Clear ==> step_time(steps[i]) < step_time(steps[j])
}

/// The shared display state: the rendered items and the acceptance
/// threshold. The host keeps it behind one lock; all verified transitions go
/// through the methods below.
pub struct DisplayState {
    items: Vec<DisplayEntry>,
    last_accepted_issued_at: u64,
}

impl View for DisplayState {
    type V = DisplayModel;

    closed spec fn view(&self) -> DisplayModel {
        DisplayModel { items: self.items@, last_accepted: self.last_accepted_issued_at }
    }
}

impl DisplayState {
    pub fn new() -> (s: Self)
        ensures
            s@.items =~= Seq::<DisplayEntry>::empty(),
            s@.last_accepted == 0,
    {
        DisplayState { items: Vec::new(), last_accepted_issued_at: 0 }
    }

    /// The rows currently shown.
    pub fn items(&self) -> (r: &Vec<DisplayEntry>)
        ensures
            r@ == self@.items,
    {
        &self.items
    }

    /// The issuance timestamp of the last accepted event.
    pub fn last_accepted_issued_at(&self) -> (r: u64)
        ensures
            r == self@.last_accepted,
    {
        self.last_accepted_issued_at
    }

    /// An empty-text event: synchronously clear the list and raise the
    /// acceptance threshold to this event's own issuance time, so that every
    /// older in-flight task's later commit attempt is a no-op.
    pub fn on_empty_query(&mut self, now: u64)
        ensures
            final(self)@ == apply_step(old(self)@, QueryStep::Clear { at: now }),
    {
        self.items = Vec::new();
        self.last_accepted_issued_at = now;
        proof {
            assert(self@ =~= apply_step(old(self)@, QueryStep::Clear { at: now }));
        }
    }

    /// The staleness gate: accept an aggregated result only if its query was
    /// issued strictly after the last accepted event; otherwise discard it
    /// entirely, leaving the state untouched.
    pub fn try_commit(&mut self, issued_at: u64, items: Vec<DisplayEntry>) -> (committed: bool)
        ensures
            final(self)@ == apply_step(
                old(self)@,
                QueryStep::Commit { at: issued_at, items: items@ },
            ),
            committed <==> issued_at > old(self)@.last_accepted,
    {
        if issued_at > self.last_accepted_issued_at {
            self.last_accepted_issued_at = issued_at;
            self.items = items;
            proof {
                assert(self@ =~= apply_step(
                    old(self)@,
                    QueryStep::Commit { at: issued_at, items: items@ },
                ));
            }
            true
        } else {
            proof {
                assert(self@ =~= apply_step(
                    old(self)@,
                    QueryStep::Commit { at: issued_at, items: items@ },
                ));
            }
            false
        }
    }

    /// The dispatcher's decision on one keystroke event: an empty text is an
    /// immediate synchronous clear and spawns nothing; a non-empty text
    /// leaves the state untouched and asks the caller to spawn background
    /// aggregation for `(text, now)`.
    pub fn on_query_changed(&mut self, text: &str, now: u64) -> (spawn: bool)
        ensures
            spawn <==> text@.len() > 0,
            !spawn ==> final(self)@ == apply_step(old(self)@, QueryStep::Clear { at: now }),
            spawn ==> final(self)@ == old(self)@,
    {
        if text.unicode_len() == 0 {
            self.on_empty_query(now);
            false
        } else {
            true
        }
    }
}

/// Steps that are all commit attempts no newer than the current threshold
/// change nothing: superseded work is discarded wherever it lands.
pub proof fn lemma_stale_steps_noop(m: DisplayModel, steps: Seq<QueryStep>)
    requires
        forall|i: int|
            0 <= i < steps.len() ==> steps[i] is Commit && step_time(steps[i]) <= m.last_accepted,
    ensures
        apply_steps(m, steps) == m,
    decreases steps.len(),
{
    if steps.len() > 0 {
        assert(apply_step(m, steps[0]) == m);
        lemma_stale_steps_noop(m, steps.drop_first());
    }
}

/// The acceptance threshold never decreases over a session whose clears obey
/// the physical time constraint: `lastAcceptedIssuedAt` is monotonically
/// non-decreasing for the lifetime of the session.
pub proof fn lemma_threshold_monotone(m: DisplayModel, steps: Seq<QueryStep>)
    requires
        clears_monotone(steps),
        forall|j: int|
            0 <= j < steps.len() && steps[j] is Clear ==> step_time(steps[j]) >= m.last_accepted,
    ensures
        apply_steps(m, steps).last_accepted >= m.last_accepted,
    decreases steps.len(),
{
    if steps.len() > 0 {
        let m1 = apply_step(m, steps[0]);
        assert(m1.last_accepted >= m.last_accepted);
        assert forall|j: int|
            0 <= j < steps.drop_first().len() && steps.drop_first()[j] is Clear implies step_time(
            steps.drop_first()[j],
        ) >= m1.last_accepted by {
            assert(steps.drop_first()[j] == steps[j + 1]);
            assert(step_time(steps[0]) < step_time(steps[j + 1]));
        }
        lemma_threshold_monotone(m1, steps.drop_first());
    }
}

/// After a clear at time `t`, a commit attempt of any query issued at or
/// before `t` is a no-op: the clear has made all older in-flight work stale.
pub proof fn lemma_clear_blocks_older(
    m: DisplayModel,
    t: u64,
    t_old: u64,
    items: Seq<DisplayEntry>,
)
    requires
        t_old <= t,
    ensures
        apply_step(
            apply_step(m, QueryStep::Clear { at: t }),
            QueryStep::Commit { at: t_old, items: items },
        ) == apply_step(m, QueryStep::Clear { at: t }),
{
}

/// The event with the strictly greatest issuance time wins: whatever order
/// the background tasks complete in, once the session settles the display
/// holds exactly that event's content (its items, or nothing if it was a
/// clear), and the threshold equals its issuance time.
pub proof fn lemma_latest_issued_wins(m: DisplayModel, steps: Seq<QueryStep>, k: int)
    requires
        clears_monotone(steps),
        0 <= k < steps.len(),
        step_time(steps[k]) > m.last_accepted,
        forall|i: int| 0 <= i < steps.len() && i != k ==> step_time(steps[i]) < step_time(steps[k]),
    ensures
        apply_steps(m, steps).last_accepted == step_time(steps[k]),
        apply_steps(m, steps).items == (match steps[k] {
            QueryStep::Clear { .. } => Seq::<DisplayEntry>::empty(),
            QueryStep::Commit { items, .. } => items,
        }),
    decreases steps.len(),
{
    let m1 = apply_step(m, steps[0]);
    if k == 0 {
        let rest = steps.drop_first();
        assert forall|i: int| 0 <= i < rest.len() implies rest[i] is Commit && step_time(rest[i])
            <= m1.last_accepted by {
            assert(rest[i] == steps[i + 1]);
            assert(step_time(steps[i + 1]) < step_time(steps[0]));
            if rest[i] is Clear {
                assert(step_time(steps[0]) < step_time(steps[i + 1]));
            }
            assert(m1.last_accepted == step_time(steps[0]));
        }
        lemma_stale_steps_noop(m1, rest);
    } else {
        assert(step_time(steps[0]) < step_time(steps[k]));
        assert(m1.last_accepted < step_time(steps[k]));
        let rest = steps.drop_first();
        assert forall|i: int, j: int|
            0 <= i < j < rest.len() && rest[j] is Clear implies step_time(rest[i]) < step_time(
            rest[j],
        ) by {
            assert(rest[i] == steps[i + 1]);
            assert(rest[j] == steps[j + 1]);
        }
        assert(rest[k - 1] == steps[k]);
        assert forall|i: int| 0 <= i < rest.len() && i != k - 1 implies #[trigger] step_time(
            rest[i],
        ) < step_time(rest[k - 1]) by {
            assert(rest[i] == steps[i + 1]);
        }
        lemma_latest_issued_wins(m1, rest, k - 1);
    }
}

} // verus!
