//! The scoring engine: a priority score for one task, from its idle time and
//! from the batching context of the state.
use vstd::prelude::*;
use crate::types::{AppState, Task, TaskV, HOUR_MS};

verus! {

/// The score of a done task: below every score a pending task can reach.
pub const DONE_SCORE: i32 = -1073741824;

/// The parts a score is made of.
#[derive(Debug, Clone, Copy, PartialEq, Eq, Structural)]
pub struct ScoreBreakdown {
    /// Reserved; always zero.
    pub urgency: i32,
    pub aging: i32,
    pub batch_bonus: i32,
    /// Reserved; always zero.
    pub quick_win: i32,
    /// Reserved; always false.
    pub sla_override: bool,
}

/// A task with its score and the breakdown of that score.
#[derive(Debug)]
pub struct Recommendation {
    pub task: Task,
    pub score: i32,
    pub breakdown: ScoreBreakdown,
}

/// The aging step for a task idle `idle` milliseconds: 3 from three hours on,
/// 2 from one hour, 1 from thirty minutes, else 0.
pub open spec fn aging_of(idle: int) -> i32 {
    if idle >= 3 * HOUR_MS {
        3
    } else if idle >= HOUR_MS {
        2
    } else if idle >= HOUR_MS / 2 {
        1
    } else {
        0
    }
}

/// The batching bonus: 2 where a context tag is set, it was set less than an
/// hour before `now`, and the task carries that tag; else 0.
pub open spec fn batch_bonus_of(now: i64, tag: Option<Seq<char>>, started: Option<i64>, t: TaskV) -> i32 {
    match (tag, started) {
        (Some(g), Some(st)) => if now - st < HOUR_MS && t.tags.contains(g) {
            2
        } else {
            0
        },
        _ => 0,
    }
}

/// The breakdown of the score of `t` at time `now` in a state whose batching
/// context is `tag` and `started`.
pub open spec fn breakdown_of(now: i64, tag: Option<Seq<char>>, started: Option<i64>, t: TaskV) -> ScoreBreakdown {
    if t.done {
        ScoreBreakdown { urgency: 0, aging: 0, batch_bonus: 0, quick_win: 0, sla_override: false }
    } else {
        ScoreBreakdown {
            urgency: 0,
            aging: aging_of(now - t.last_touched_ms),
            batch_bonus: batch_bonus_of(now, tag, started, t),
            quick_win: 0,
            sla_override: false,
        }
    }
}

/// The score: the sentinel for a done task, else three times the aging step
/// plus twice the batching bonus.
pub open spec fn score_of(now: i64, tag: Option<Seq<char>>, started: Option<i64>, t: TaskV) -> int {
    if t.done {
        DONE_SCORE as int
    } else {
        3 * aging_of(now - t.last_touched_ms) + 2 * batch_bonus_of(now, tag, started, t)
    }
}

/// A done task scores strictly below any pending task, in particular one
/// with neither aging nor batching bonus.
pub proof fn lemma_done_scores_lowest(
    now: i64,
    tag: Option<Seq<char>>,
    started: Option<i64>,
    done: TaskV,
    pending: TaskV,
)
    requires
        done.done,
        !pending.done,
    ensures
        score_of(now, tag, started, done) < score_of(now, tag, started, pending),
        score_of(now, tag, started, pending) >= 0,
{
}

/// The current tag of a state, as characters.
pub open spec fn ctx_tag(s: &AppState) -> Option<Seq<char>> {
    crate::types::opt_str_view(s.current_tag)
}

/// Whether `tags` holds a tag equal to `g`.
fn has_tag(tags: &Vec<String>, g: &String) -> (r: bool)
    ensures
        r == crate::types::tags_view(tags@).contains(g@),
{
    let ghost tv = crate::types::tags_view(tags@);
    let mut k: usize = 0;
    while k < tags.len()
        invariant
            0 <= k <= tags@.len(),
            tv == crate::types::tags_view(tags@),
            forall|j: int| 0 <= j < k ==> tv[j] != g@,
        decreases tags@.len() - k,
    {
        if tags[k] == *g {
            assert(tv[k as int] == g@);
            return true;
        }
        k = k + 1;
    }
    false
}

/// Scores `t` at time `now` against the batching context of `state`.
pub fn score_task(now: i64, state: &AppState, t: &Task) -> (r: Recommendation)
    ensures
        r.task@ == t@,
        r.score as int == score_of(now, ctx_tag(state), state.context_started_ms, t@),
        r.breakdown == breakdown_of(now, ctx_tag(state), state.context_started_ms, t@),
{
    if t.done {
        return Recommendation {
            task: t.duplicate(),
            score: DONE_SCORE,
            breakdown: ScoreBreakdown { urgency: 0, aging: 0, batch_bonus: 0, quick_win: 0, sla_override: false },
        };
    }
    let idle: i128 = now as i128 - t.last_touched_ms as i128;
    let aging: i32 = if idle >= (3 * HOUR_MS) as i128 {
        3
    } else if idle >= HOUR_MS as i128 {
        2
    } else if idle >= (HOUR_MS / 2) as i128 {
        1
    } else {
        0
    };
    let mut batch_bonus: i32 = 0;
    match (&state.current_tag, state.context_started_ms) {
        (Some(g), Some(st)) => {
            let since: i128 = now as i128 - st as i128;
            if since < HOUR_MS as i128 && has_tag(&t.tags, g) {
                batch_bonus = 2;
            }
        },
        _ => {},
    }
    let score: i32 = 3 * aging + 2 * batch_bonus;
    Recommendation {
        task: t.duplicate(),
        score,
        breakdown: ScoreBreakdown { urgency: 0, aging, batch_bonus, quick_win: 0, sla_override: false },
    }
}

} // verus!
