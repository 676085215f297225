//! `subject.txt`: the threads of a board, the last changed first.

use crate::metadent::{parse_u64, parsed_u64};
use crate::text::{chars_of, string_of};
use crate::thread::{push_subject_line, subject_text, thread_views, Thread, ThreadView};
use vstd::prelude::*;

verus! {

/// The seconds for which caches keep `subject.txt`.
pub const SUBJECT_TXT_MAX_AGE: u32 = 1;

/// The moment at which a thread was last changed; zero where it is not on
/// record as a number.
pub open spec fn modified_at(t: ThreadView) -> u64 {
    match parsed_u64(t.last_modified, 10) {
        Some(at) => at,
        None => 0,
    }
}

/// `sorted` with `x` put behind every thread that was changed at the same
/// moment or later.
pub open spec fn inserted(sorted: Seq<ThreadView>, x: ThreadView) -> Seq<ThreadView>
    decreases sorted.len(),
{
    if sorted.len() == 0 {
        seq![x]
    } else if modified_at(sorted.last()) >= modified_at(x) {
        sorted.push(x)
    } else {
        inserted(sorted.drop_last(), x).push(sorted.last())
    }
}

/// The threads in the order of `subject.txt`: the last changed first, and
/// threads changed at the same moment in the order in which they came.
pub open spec fn newest_first(ts: Seq<ThreadView>) -> Seq<ThreadView>
    decreases ts.len(),
{
    if ts.len() == 0 {
        ts
    } else {
        inserted(newest_first(ts.drop_last()), ts.last())
    }
}

/// No thread stands before one that was changed later.
pub open spec fn ordered(ts: Seq<ThreadView>) -> bool {
    forall|i: int, j: int|
        0 <= i < j < ts.len() ==> modified_at(#[trigger] ts[i]) >= modified_at(#[trigger] ts[j])
}

/// Putting a thread into an ordered list at index `p` is what `inserted`
/// does, where all before `p` were changed no earlier and all from `p` on
/// were changed earlier.
pub proof fn lemma_inserted_at(sorted: Seq<ThreadView>, x: ThreadView, p: int)
    requires
        0 <= p <= sorted.len(),
        forall|j: int| p <= j < sorted.len() ==> modified_at(#[trigger] sorted[j]) < modified_at(x),
        p > 0 ==> modified_at(sorted[p - 1]) >= modified_at(x),
    ensures
        inserted(sorted, x) == sorted.insert(p, x),
    decreases sorted.len() - p,
{
    if sorted.len() == 0 {
        assert(sorted.insert(0, x) == seq![x]);
    } else if p == sorted.len() {
        assert(sorted.insert(p, x) == sorted.push(x));
    } else {
        assert(modified_at(sorted[sorted.len() - 1]) < modified_at(x));
        let front = sorted.drop_last();
        assert forall|j: int| p <= j < front.len() implies modified_at(#[trigger] front[j])
            < modified_at(x) by {
            assert(front[j] == sorted[j]);
        }
        if p > 0 {
            assert(front[p - 1] == sorted[p - 1]);
        }
        lemma_inserted_at(front, x, p);
        assert(front.insert(p, x).push(sorted.last()) == sorted.insert(p, x));
    }
}

/// Putting a thread into an ordered list leaves it ordered.
pub proof fn lemma_inserted_ordered(sorted: Seq<ThreadView>, x: ThreadView)
    requires
        ordered(sorted),
    ensures
        ordered(inserted(sorted, x)),
        inserted(sorted, x).len() == sorted.len() + 1,
        forall|k: int|
            0 <= k < inserted(sorted, x).len() ==> (#[trigger] inserted(sorted, x)[k] == x
                || exists|m: int| 0 <= m < sorted.len() && sorted[m] == inserted(sorted, x)[k]),
    decreases sorted.len(),
{
    let out = inserted(sorted, x);
    if sorted.len() == 0 {
    } else if modified_at(sorted.last()) >= modified_at(x) {
        assert forall|i: int, j: int| 0 <= i < j < out.len() implies modified_at(
            #[trigger] out[i],
        ) >= modified_at(#[trigger] out[j]) by {
            if j == sorted.len() {
                assert(out[i] == sorted[i]);
                if i < sorted.len() - 1 {
                    assert(modified_at(sorted[i]) >= modified_at(sorted[sorted.len() - 1]));
                }
            } else {
                assert(out[i] == sorted[i] && out[j] == sorted[j]);
            }
        }
        assert forall|k: int| 0 <= k < out.len() implies (#[trigger] out[k] == x || exists|m: int|
            0 <= m < sorted.len() && sorted[m] == out[k]) by {
            if k < sorted.len() {
                assert(sorted[k] == out[k]);
            }
        }
    } else {
        let front = sorted.drop_last();
        assert forall|i: int, j: int| 0 <= i < j < front.len() implies modified_at(
            #[trigger] front[i],
        ) >= modified_at(#[trigger] front[j]) by {
            assert(front[i] == sorted[i] && front[j] == sorted[j]);
        }
        lemma_inserted_ordered(front, x);
        let mid = inserted(front, x);
        assert forall|i: int, j: int| 0 <= i < j < out.len() implies modified_at(
            #[trigger] out[i],
        ) >= modified_at(#[trigger] out[j]) by {
            if j == out.len() - 1 {
                assert(out[j] == sorted.last());
                assert(out[i] == mid[i]);
                if mid[i] == x {
                } else {
                    let m = choose|m: int| 0 <= m < front.len() && front[m] == mid[i];
                    assert(front[m] == sorted[m]);
                    assert(modified_at(sorted[m]) >= modified_at(sorted[sorted.len() - 1]));
                }
            } else {
                assert(out[i] == mid[i] && out[j] == mid[j]);
            }
        }
        assert forall|k: int| 0 <= k < out.len() implies (#[trigger] out[k] == x || exists|m: int|
            0 <= m < sorted.len() && sorted[m] == out[k]) by {
            if k == out.len() - 1 {
                assert(sorted[sorted.len() - 1] == out[k]);
            } else {
                assert(out[k] == mid[k]);
                if mid[k] != x {
                    let m = choose|m: int| 0 <= m < front.len() && front[m] == mid[k];
                    assert(sorted[m] == out[k]);
                }
            }
        }
    }
}

/// In the order of `subject.txt` no thread stands before one that was
/// changed later, and every thread has its place.
pub proof fn lemma_newest_first_ordered(ts: Seq<ThreadView>)
    ensures
        ordered(newest_first(ts)),
        newest_first(ts).len() == ts.len(),
    decreases ts.len(),
{
    if ts.len() > 0 {
        lemma_newest_first_ordered(ts.drop_last());
        lemma_inserted_ordered(newest_first(ts.drop_last()), ts.last());
    }
}

/// The threads that stand at the given indices.
pub open spec fn picked(ts: Seq<ThreadView>, order: Seq<usize>) -> Seq<ThreadView> {
    Seq::new(order.len(), |k: int| ts[order[k] as int])
}

/// The moment at which a thread was last changed.
fn modified_at_of(t: &Thread) -> (r: u64)
    ensures
        r == modified_at(t@),
{
    let v = chars_of(t.last_modified.as_str());
    assert(v@.subrange(0, v.len() as int) == v@);
    match parse_u64(&v, 0, v.len(), 10) {
        Some(at) => at,
        None => 0,
    }
}

/// The indices of the threads in the order of `subject.txt`.
pub fn subject_order(threads: &Vec<Thread>) -> (order: Vec<usize>)
    ensures
        order@.len() == threads@.len(),
        forall|k: int| 0 <= k < order@.len() ==> (#[trigger] order@[k]) < threads@.len(),
        picked(thread_views(threads@), order@) == newest_first(thread_views(threads@)),
{
    let ghost views = thread_views(threads@);
    let mut order: Vec<usize> = Vec::new();
    let mut n: usize = 0;
    assert(views.take(0) == Seq::<ThreadView>::empty());
    assert(picked(views, order@) == Seq::<ThreadView>::empty());
    while n < threads.len()
        invariant
            n <= threads.len(),
            views == thread_views(threads@),
            order@.len() == n,
            forall|k: int| 0 <= k < order@.len() ==> (#[trigger] order@[k]) < n,
            picked(views, order@) == newest_first(views.take(n as int)),
        decreases threads.len() - n,
    {
        let at = modified_at_of(&threads[n]);
        let ghost sorted = picked(views, order@);
        let ghost x = views[n as int];
        let mut p: usize = order.len();
        while p > 0 && modified_at_of(&threads[order[p - 1]]) < at
            invariant
                p <= order.len(),
                order@.len() == n,
                n < threads.len(),
                views == thread_views(threads@),
                sorted == picked(views, order@),
                x == views[n as int],
                at == modified_at(x),
                forall|k: int| 0 <= k < order@.len() ==> (#[trigger] order@[k]) < n,
                forall|j: int|
                    p <= j < sorted.len() ==> modified_at(#[trigger] sorted[j]) < modified_at(x),
            decreases p,
        {
            assert(sorted[p - 1] == views[order@[p - 1] as int]);
            p -= 1;
        }
        proof {
            if p > 0 {
                assert(sorted[p - 1] == views[order@[p - 1] as int]);
            }
            lemma_inserted_at(sorted, x, p as int);
            assert(views.take(n + 1).drop_last() == views.take(n as int));
            assert(views.take(n + 1).last() == x);
        }
        let ghost before = order@;
        order.insert(p, n);
        assert(picked(views, order@) =~= sorted.insert(p as int, x)) by {
            assert forall|k: int| 0 <= k < order@.len() implies picked(views, order@)[k]
                == sorted.insert(p as int, x)[k] by {
                if k < p {
                    assert(order@[k] == before[k]);
                } else if k == p {
                } else {
                    assert(order@[k] == before[k - 1]);
                }
            }
        }
        n += 1;
    }
    assert(views.take(threads.len() as int) == views);
    order
}

/// The threads that are listed: those that are not archived, in their
/// order.
pub open spec fn listed(ts: Seq<ThreadView>) -> Seq<ThreadView>
    decreases ts.len(),
{
    if ts.len() == 0 {
        ts
    } else if ts.last().archived == 0 {
        listed(ts.drop_last()).push(ts.last())
    } else {
        listed(ts.drop_last())
    }
}

/// Copies of the threads that are listed.
pub fn listed_threads(threads: &Vec<Thread>) -> (r: Vec<Thread>)
    ensures
        thread_views(r@) == listed(thread_views(threads@)),
{
    let ghost views = thread_views(threads@);
    let mut out: Vec<Thread> = Vec::new();
    let mut i: usize = 0;
    assert(views.take(0) == Seq::<ThreadView>::empty());
    assert(thread_views(out@) == Seq::<ThreadView>::empty());
    while i < threads.len()
        invariant
            i <= threads.len(),
            views == thread_views(threads@),
            thread_views(out@) == listed(views.take(i as int)),
        decreases threads.len() - i,
    {
        assert(views.take(i + 1).drop_last() == views.take(i as int));
        assert(views.take(i + 1).last() == threads@[i as int]@);
        if threads[i].archived == 0 {
            let ghost before = thread_views(out@);
            out.push(threads[i].copy());
            assert(thread_views(out@) == before.push(threads@[i as int]@));
        }
        i += 1;
    }
    assert(views.take(threads.len() as int) == views);
    out
}

/// Writes the text of `subject.txt` for the threads of a board: a line for
/// each thread that is not archived, the last changed first.
pub fn route_subject_txt(threads: &Vec<Thread>) -> (r: String)
    ensures
        r@ == subject_text(newest_first(listed(thread_views(threads@)))),
{
    let kept = listed_threads(threads);
    subject_txt_of(&kept)
}

/// Writes the lines of `subject.txt` for these threads, the last changed
/// first.
pub fn subject_txt_of(threads: &Vec<Thread>) -> (r: String)
    ensures
        r@ == subject_text(newest_first(thread_views(threads@))),
{
    let order = subject_order(threads);
    let ghost views = thread_views(threads@);
    let ghost lines = picked(views, order@);
    let mut out: Vec<char> = Vec::new();
    let mut k: usize = 0;
    assert(lines.take(0) == Seq::<ThreadView>::empty());
    while k < order.len()
        invariant
            k <= order.len(),
            views == thread_views(threads@),
            lines == picked(views, order@),
            forall|j: int| 0 <= j < order@.len() ==> (#[trigger] order@[j]) < threads@.len(),
            out@ == subject_text(lines.take(k as int)),
        decreases order.len() - k,
    {
        assert(order@[k as int] < threads@.len());
        assert(lines.take(k + 1).drop_last() == lines.take(k as int));
        assert(lines.take(k + 1).last() == views[order@[k as int] as int]);
        push_subject_line(&mut out, &threads[order[k]]);
        k += 1;
    }
    assert(lines.take(order.len() as int) == lines);
    string_of(&out)
}

} // verus!
