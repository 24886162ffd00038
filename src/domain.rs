//! The views over the store: the best next task, the full sorted listing and
//! the scored listing, with the orders they are ranked by.
use vstd::prelude::*;
use crate::types::{AppState, Status, Task, TaskV, first_tag, tasks_view};
use crate::score::{Recommendation, score_task, score_of, breakdown_of, ctx_tag};

verus! {

/// Lexicographic order on character sequences (the order of `str`).
pub open spec fn chars_lt(a: Seq<char>, b: Seq<char>) -> bool
    decreases a.len(),
{
    if a.len() == 0 {
        b.len() > 0
    } else if b.len() == 0 {
        false
    } else if a[0] != b[0] {
        a[0] < b[0]
    } else {
        chars_lt(a.drop_first(), b.drop_first())
    }
}

proof fn lemma_chars_lt_trans(a: Seq<char>, b: Seq<char>, c: Seq<char>)
    requires
        chars_lt(a, b),
        chars_lt(b, c),
    ensures
        chars_lt(a, c),
    decreases a.len(),
{
    if a.len() > 0 && b.len() > 0 && c.len() > 0 && a[0] == b[0] && b[0] == c[0] {
        lemma_chars_lt_trans(a.drop_first(), b.drop_first(), c.drop_first());
    }
}

proof fn lemma_chars_lt_total(a: Seq<char>, b: Seq<char>)
    ensures
        a != b ==> chars_lt(a, b) || chars_lt(b, a),
        !(chars_lt(a, b) && chars_lt(b, a)),
    decreases a.len(),
{
    if a.len() > 0 && b.len() > 0 {
        lemma_chars_lt_total(a.drop_first(), b.drop_first());
        if a[0] == b[0] && a != b {
            assert(a =~= seq![a[0]] + a.drop_first());
            assert(b =~= seq![b[0]] + b.drop_first());
        }
    } else if a.len() == 0 && b.len() == 0 {
        assert(a =~= b);
    }
}

/// `lt` is a strict weak order: if `a < b` then every `c` is above `a` or below `b`.
proof fn lemma_chars_lt_weak(a: Seq<char>, b: Seq<char>, c: Seq<char>)
    requires
        chars_lt(a, b),
    ensures
        chars_lt(a, c) || chars_lt(c, b),
{
    lemma_chars_lt_total(a, c);
    lemma_chars_lt_total(c, b);
    lemma_chars_lt_total(a, b);
    if chars_lt(c, a) {
        lemma_chars_lt_trans(c, a, b);
    }
}

/// A task that may be recommended: pending, neither blocked nor archived.
pub open spec fn eligible_next(t: TaskV) -> bool {
    !t.done && t.status != Status::Blocked && t.status != Status::Archived
}

/// A task that the listings show: any but an archived one.
pub open spec fn listed(t: TaskV) -> bool {
    t.status != Status::Archived
}

/// Order on due timestamps: an absent one comes first, then by time.
pub open spec fn due_lt(a: Option<i64>, b: Option<i64>) -> bool {
    match (a, b) {
        (None, Some(_)) => true,
        (Some(x), Some(y)) => x < y,
        _ => false,
    }
}

/// The score of `t` in state `s` at time `now`.
pub open spec fn task_score(now: i64, s: &AppState, t: TaskV) -> int {
    score_of(now, ctx_tag(s), s.context_started_ms, t)
}

/// Pending work order: higher score first, then longer idle, then earlier due.
pub open spec fn ranks_before(sa: int, a: TaskV, sb: int, b: TaskV) -> bool {
    sa > sb || (sa == sb && (a.last_touched_ms < b.last_touched_ms || (a.last_touched_ms
        == b.last_touched_ms && due_lt(a.due_ts, b.due_ts))))
}

/// Listing order: pending before done; pending by `ranks_before`; done by
/// first tag, then by title.
pub open spec fn list_lt(sa: int, a: TaskV, sb: int, b: TaskV) -> bool {
    if a.done != b.done {
        !a.done
    } else if !a.done {
        ranks_before(sa, a, sb, b)
    } else {
        chars_lt(first_tag(a), first_tag(b)) || (first_tag(a) == first_tag(b) && chars_lt(
            a.title,
            b.title,
        ))
    }
}

/// The order a view sorts by: the listing order, or else by descending score.
pub open spec fn order_lt(by_listing: bool, sa: int, a: TaskV, sb: int, b: TaskV) -> bool {
    if by_listing {
        list_lt(sa, a, sb, b)
    } else {
        sa > sb
    }
}

proof fn lemma_order_weak(by_listing: bool, sa: int, a: TaskV, sb: int, b: TaskV, sc: int, c: TaskV)
    requires
        order_lt(by_listing, sa, a, sb, b),
    ensures
        order_lt(by_listing, sa, a, sc, c) || order_lt(by_listing, sc, c, sb, b),
        !order_lt(by_listing, sb, b, sa, a),
{
    if by_listing && a.done && b.done {
        lemma_chars_lt_total(first_tag(a), first_tag(b));
        lemma_chars_lt_total(a.title, b.title);
    }
    if by_listing && a.done && b.done && c.done {
        lemma_chars_lt_total(first_tag(a), first_tag(b));
        lemma_chars_lt_total(first_tag(a), first_tag(c));
        lemma_chars_lt_total(first_tag(c), first_tag(b));
        if chars_lt(first_tag(a), first_tag(b)) {
            lemma_chars_lt_weak(first_tag(a), first_tag(b), first_tag(c));
        } else {
            lemma_chars_lt_weak(a.title, b.title, c.title);
            lemma_chars_lt_total(a.title, c.title);
        }
    }
}

/// `out` is the listed tasks of `s`, each scored, sorted by `order_lt`, with
/// tasks that tie kept in store order; `p` gives the store index of each.
pub open spec fn arranged(now: i64, s: &AppState, by_listing: bool, out: Seq<TaskV>, p: Seq<int>) -> bool {
    let tv = tasks_view(s.tasks@);
    &&& p.len() == out.len()
    &&& forall|k: int|
        0 <= k < out.len() ==> 0 <= #[trigger] p[k] < tv.len() && listed(tv[p[k]]) && out[k]
            == tv[p[k]]
    &&& forall|a: int, b: int| 0 <= a < b < out.len() ==> p[a] != p[b]
    &&& forall|j: int|
        0 <= j < tv.len() && listed(#[trigger] tv[j]) ==> exists|k: int|
            0 <= k < out.len() && p[k] == j
    &&& forall|a: int, b: int|
        0 <= a < b < out.len() ==> !order_lt(
            by_listing,
            task_score(now, s, out[b]),
            out[b],
            task_score(now, s, out[a]),
            out[a],
        )
    &&& forall|a: int, b: int|
        0 <= a < b < out.len() && !order_lt(
            by_listing,
            task_score(now, s, out[a]),
            out[a],
            task_score(now, s, out[b]),
            out[b],
        ) ==> p[a] < p[b]
}

/// The tasks of a sequence of recommendations.
pub open spec fn recs_tasks(rs: Seq<Recommendation>) -> Seq<TaskV> {
    rs.map_values(|r: Recommendation| r.task@)
}

/// A recommendation carries the score and breakdown of its task in `s` at `now`.
pub open spec fn scored_in(now: i64, s: &AppState, r: Recommendation) -> bool {
    &&& r.score as int == task_score(now, s, r.task@)
    &&& r.breakdown == breakdown_of(now, ctx_tag(s), s.context_started_ms, r.task@)
}

fn due_before(a: Option<i64>, b: Option<i64>) -> (r: bool)
    ensures
        r == due_lt(a, b),
{
    match (a, b) {
        (None, Some(_)) => true,
        (Some(x), Some(y)) => x < y,
        _ => false,
    }
}

fn rec_ranks_before(a: &Recommendation, b: &Recommendation) -> (r: bool)
    ensures
        r == ranks_before(a.score as int, a.task@, b.score as int, b.task@),
{
    a.score > b.score || (a.score == b.score && (a.task.last_touched_ms < b.task.last_touched_ms
        || (a.task.last_touched_ms == b.task.last_touched_ms && due_before(
        a.task.due_ts,
        b.task.due_ts,
    ))))
}

/// Whether `a` comes before `b` in the order of `str`.
fn str_lt(a: &String, b: &String) -> (r: bool)
    ensures
        r == chars_lt(a@, b@),
{
    let sa = a.as_str();
    let sb = b.as_str();
    let la = sa.unicode_len();
    let lb = sb.unicode_len();
    let mut i: usize = 0;
    proof {
        assert(a@.subrange(0, la as int) =~= a@);
        assert(b@.subrange(0, lb as int) =~= b@);
    }
    while i < la && i < lb
        invariant
            sa@ == a@,
            sb@ == b@,
            la == a@.len(),
            lb == b@.len(),
            0 <= i <= la,
            i <= lb,
            chars_lt(a@, b@) == chars_lt(a@.subrange(i as int, la as int), b@.subrange(i as int, lb as int)),
        decreases la - i,
    {
        let ca = sa.get_char(i);
        let cb = sb.get_char(i);
        let ghost ra = a@.subrange(i as int, la as int);
        let ghost rb = b@.subrange(i as int, lb as int);
        assert(ra.drop_first() =~= a@.subrange(i + 1, la as int));
        assert(rb.drop_first() =~= b@.subrange(i + 1, lb as int));
        if ca != cb {
            return ca < cb;
        }
        i = i + 1;
    }
    i < lb
}

fn first_tag_lt_eq(a: &Task, b: &Task) -> (r: (bool, bool))
    ensures
        r.0 == chars_lt(first_tag(a@), first_tag(b@)),
        r.1 == (first_tag(a@) == first_tag(b@)),
{
    let empty = String::new();
    let ta = if a.tags.len() > 0 { &a.tags[0] } else { &empty };
    let tb = if b.tags.len() > 0 { &b.tags[0] } else { &empty };
    proof {
        assert(ta@ == first_tag(a@));
        assert(tb@ == first_tag(b@));
    }
    (str_lt(ta, tb), *ta == *tb)
}

fn rec_order_lt(by_listing: bool, a: &Recommendation, b: &Recommendation) -> (r: bool)
    ensures
        r == order_lt(by_listing, a.score as int, a.task@, b.score as int, b.task@),
{
    if !by_listing {
        return a.score > b.score;
    }
    if a.task.done != b.task.done {
        !a.task.done
    } else if !a.task.done {
        rec_ranks_before(a, b)
    } else {
        let (tag_lt, tag_eq) = first_tag_lt_eq(&a.task, &b.task);
        tag_lt || (tag_eq && str_lt(&a.task.title, &b.task.title))
    }
}

/// `rec` is the best next task of `state` at `now`: it scores an eligible
/// task, no eligible task ranks before it, and it ranks before every
/// eligible task that precedes it in the store.
pub open spec fn best_next(now: i64, state: &AppState, rec: Recommendation) -> bool {
    &&& eligible_next(rec.task@)
    &&& scored_in(now, state, rec)
    &&& exists|i: int|
        0 <= i < state.tasks@.len() && rec.task@ == state.tasks@[i]@ && (forall|j: int|
            0 <= j < state.tasks@.len() && eligible_next(#[trigger] state.tasks@[j]@)
                ==> !ranks_before(
                task_score(now, state, state.tasks@[j]@),
                state.tasks@[j]@,
                rec.score as int,
                rec.task@,
            )) && (forall|j: int|
            0 <= j < i && eligible_next(#[trigger] state.tasks@[j]@) ==> ranks_before(
                rec.score as int,
                rec.task@,
                task_score(now, state, state.tasks@[j]@),
                state.tasks@[j]@,
            ))
}

/// The best next task: among the tasks that are pending and neither blocked
/// nor archived, the first in store order of those that no other ranks
/// before; none where no task is eligible.
pub fn compute_recommendation(now_ms: i64, state: &AppState) -> (r: Option<Recommendation>)
    ensures
        r.is_none() <==> forall|j: int|
            0 <= j < state.tasks@.len() ==> !eligible_next(#[trigger] state.tasks@[j]@),
        r matches Some(rec) ==> !rec.task.done && rec.task.status != Status::Blocked
            && rec.task.status != Status::Archived && best_next(now_ms, state, rec),
{
    let mut best: Option<Recommendation> = None;
    let ghost mut bi: int = 0;
    let mut k: usize = 0;
    while k < state.tasks.len()
        invariant
            0 <= k <= state.tasks@.len(),
            best.is_none() <==> forall|j: int|
                0 <= j < k ==> !eligible_next(#[trigger] state.tasks@[j]@),
            best matches Some(rec) ==> {
                &&& 0 <= bi < k
                &&& eligible_next(state.tasks@[bi]@)
                &&& rec.task@ == state.tasks@[bi]@
                &&& scored_in(now_ms, state, rec)
                &&& forall|j: int|
                    0 <= j < k && eligible_next(#[trigger] state.tasks@[j]@) ==> !ranks_before(
                        task_score(now_ms, state, state.tasks@[j]@),
                        state.tasks@[j]@,
                        rec.score as int,
                        rec.task@,
                    )
                &&& forall|j: int|
                    0 <= j < bi && eligible_next(#[trigger] state.tasks@[j]@) ==> ranks_before(
                        rec.score as int,
                        rec.task@,
                        task_score(now_ms, state, state.tasks@[j]@),
                        state.tasks@[j]@,
                    )
            },
        decreases state.tasks@.len() - k,
    {
        let t = &state.tasks[k];
        if !t.done && t.status != Status::Blocked && t.status != Status::Archived {
            let rec = score_task(now_ms, state, t);
            let better = match &best {
                None => true,
                Some(b) => rec_ranks_before(&rec, b),
            };
            if better {
                proof {
                    bi = k as int;
                }
                best = Some(rec);
            }
        }
        k = k + 1;
    }
    best
}

/// Scores the listed tasks of `state` and sorts them by `order_lt`, keeping
/// store order among ties.
fn arrange(now: i64, state: &AppState, by_listing: bool) -> (r: (Vec<Recommendation>, Ghost<Seq<int>>))
    ensures
        arranged(now, state, by_listing, recs_tasks(r.0@), r.1@),
        forall|k: int| 0 <= k < r.0@.len() ==> scored_in(now, state, #[trigger] r.0@[k]),
{
    let ghost tv = tasks_view(state.tasks@);
    let mut out: Vec<Recommendation> = Vec::new();
    let ghost mut p: Seq<int> = Seq::empty();
    let mut i: usize = 0;
    while i < state.tasks.len()
        invariant
            0 <= i <= state.tasks@.len(),
            tv == tasks_view(state.tasks@),
            p.len() == out@.len(),
            forall|k: int| 0 <= k < out@.len() ==> scored_in(now, state, #[trigger] out@[k]),
            forall|k: int|
                0 <= k < out@.len() ==> 0 <= #[trigger] p[k] < i && listed(tv[p[k]])
                    && out@[k].task@ == tv[p[k]],
            forall|a: int, b: int| 0 <= a < b < out@.len() ==> p[a] != p[b],
            forall|j: int|
                0 <= j < i && listed(#[trigger] tv[j]) ==> exists|k: int|
                    0 <= k < out@.len() && p[k] == j,
            forall|a: int, b: int|
                0 <= a < b < out@.len() ==> !order_lt(
                    by_listing,
                    out@[b].score as int,
                    out@[b].task@,
                    out@[a].score as int,
                    out@[a].task@,
                ),
            forall|a: int, b: int|
                0 <= a < b < out@.len() && !order_lt(
                    by_listing,
                    out@[a].score as int,
                    out@[a].task@,
                    out@[b].score as int,
                    out@[b].task@,
                ) ==> p[a] < p[b],
        decreases state.tasks@.len() - i,
    {
        if state.tasks[i].status != Status::Archived {
            let rec = score_task(now, state, &state.tasks[i]);
            let mut pos: usize = 0;
            while pos < out.len() && !rec_order_lt(by_listing, &rec, &out[pos])
                invariant
                    0 <= pos <= out@.len(),
                    forall|k: int|
                        0 <= k < pos ==> !order_lt(
                            by_listing,
                            rec.score as int,
                            rec.task@,
                            #[trigger] out@[k].score as int,
                            out@[k].task@,
                        ),
                decreases out@.len() - pos,
            {
                pos = pos + 1;
            }
            let ghost old_out = out@;
            let ghost old_p = p;
            proof {
                assert forall|k: int| pos <= k < old_out.len() implies #[trigger] order_lt(
                    by_listing,
                    rec.score as int,
                    rec.task@,
                    old_out[k].score as int,
                    old_out[k].task@,
                ) by {
                    if k > pos {
                        lemma_order_weak(
                            by_listing,
                            rec.score as int,
                            rec.task@,
                            old_out[pos as int].score as int,
                            old_out[pos as int].task@,
                            old_out[k].score as int,
                            old_out[k].task@,
                        );
                    }
                }
                assert forall|k: int| pos <= k < old_out.len() implies !#[trigger] order_lt(
                    by_listing,
                    old_out[k].score as int,
                    old_out[k].task@,
                    rec.score as int,
                    rec.task@,
                ) by {
                    if order_lt(
                        by_listing,
                        old_out[k].score as int,
                        old_out[k].task@,
                        rec.score as int,
                        rec.task@,
                    ) {
                        lemma_order_weak(
                            by_listing,
                            old_out[k].score as int,
                            old_out[k].task@,
                            rec.score as int,
                            rec.task@,
                            old_out[pos as int].score as int,
                            old_out[pos as int].task@,
                        );
                    }
                }
                p = p.insert(pos as int, i as int);
            }
            out.insert(pos, rec);
            proof {
                assert forall|j: int| 0 <= j <= i && listed(#[trigger] tv[j]) implies exists|k: int|
                    0 <= k < out@.len() && p[k] == j by {
                    if j == i {
                        assert(p[pos as int] == j);
                    } else {
                        let k0 = choose|k: int| 0 <= k < old_out.len() && old_p[k] == j;
                        if k0 < pos {
                            assert(p[k0] == j);
                        } else {
                            assert(p[k0 + 1] == j);
                        }
                    }
                }
            }
        }
        i = i + 1;
    }
    proof {
        let rt = recs_tasks(out@);
        assert forall|j: int| 0 <= j < tv.len() && listed(#[trigger] tv[j]) implies exists|k: int|
            0 <= k < rt.len() && p[k] == j by {
            let k0 = choose|k: int| 0 <= k < out@.len() && p[k] == j;
            assert(0 <= k0 < rt.len() && p[k0] == j);
        }
    }
    (out, Ghost(p))
}

/// Every task but the archived ones, sorted by `list_lt`: pending tasks first,
/// by score, idle time and due time; done tasks after them, by first tag and
/// title; ties keep store order.
pub fn compute_sorted_tasks(now_ms: i64, state: &AppState) -> (r: Vec<Task>)
    ensures
        exists|p: Seq<int>| arranged(now_ms, state, true, tasks_view(r@), p),
        forall|k: int| 0 <= k < r@.len() ==> (#[trigger] r@[k]).status != Status::Archived,
        forall|a: int, b: int| 0 <= a < b < r@.len() && r@[a].done ==> r@[b].done,
{
    let (recs, Ghost(p)) = arrange(now_ms, state, true);
    let mut out: Vec<Task> = Vec::new();
    let mut k: usize = 0;
    while k < recs.len()
        invariant
            0 <= k <= recs@.len(),
            tasks_view(out@) =~= recs_tasks(recs@).subrange(0, k as int),
        decreases recs@.len() - k,
    {
        let t = recs[k].task.duplicate();
        let ghost prev = out@;
        out.push(t);
        proof {
            assert(out@ == prev.push(t));
            assert(tasks_view(out@) =~= tasks_view(prev).push(t@));
            assert(recs_tasks(recs@)[k as int] == recs@[k as int].task@);
            assert(recs_tasks(recs@).subrange(0, k + 1) =~= recs_tasks(recs@).subrange(0, k as int).push(t@));
        }
        k = k + 1;
    }
    proof {
        let ov = tasks_view(out@);
        let tv = tasks_view(state.tasks@);
        assert(ov =~= recs_tasks(recs@));
        assert forall|k: int| 0 <= k < out@.len() implies (#[trigger] out@[k]).status
            != Status::Archived by {
            assert(ov[k] == tv[p[k]]);
        }
        assert forall|a: int, b: int| 0 <= a < b < out@.len() && out@[a].done implies out@[b].done by {
            assert(ov[a].done == out@[a].done);
            assert(ov[b].done == out@[b].done);
            assert(!order_lt(true, task_score(now_ms, state, ov[b]), ov[b], task_score(now_ms, state, ov[a]), ov[a]));
        }
    }
    out
}

/// `rs` is the scored listing of `s` at `now`: arranged by descending score,
/// each recommendation carrying its task's score and breakdown.
pub open spec fn scored_listing(now: i64, s: &AppState, rs: Seq<Recommendation>, p: Seq<int>) -> bool {
    &&& arranged(now, s, false, recs_tasks(rs), p)
    &&& forall|k: int| 0 <= k < rs.len() ==> scored_in(now, s, #[trigger] rs[k])
}

/// Every task but the archived ones, each with its score and breakdown,
/// sorted by descending score; ties keep store order.
pub fn compute_scored_tasks(now_ms: i64, state: &AppState) -> (r: Vec<Recommendation>)
    ensures
        exists|p: Seq<int>| scored_listing(now_ms, state, r@, p),
{
    let (recs, Ghost(p)) = arrange(now_ms, state, false);
    proof {
        assert(scored_listing(now_ms, state, recs@, p));
    }
    recs
}

} // verus!
