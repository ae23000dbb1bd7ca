use vstd::prelude::*;

use crate::task::SuggestedRebuild;

verus! {

/// The tasks of `fetched` whose derivation has not been started yet, in their order.
pub open spec fn unstarted(
    fetched: Seq<SuggestedRebuild>,
    started: Set<Seq<char>>,
) -> Seq<SuggestedRebuild> {
    fetched.filter(|t: SuggestedRebuild| !started.contains(t.id()))
}

/// The pending tasks once those at the end whose derivation has already started are
/// dropped: what is left is empty, or ends with a task that may be handed out.
pub open spec fn skip_started(
    pending: Seq<SuggestedRebuild>,
    started: Set<Seq<char>>,
) -> Seq<SuggestedRebuild>
    decreases pending.len(),
{
    if pending.len() > 0 && started.contains(pending.last().id()) {
        skip_started(pending.drop_last(), started)
    } else {
        pending
    }
}

/// What one request for work does: tasks at the end of the queue whose derivation
/// has already started are dropped; then, where a task is left, the last one is handed
/// out and its derivation joins the started set; where none is, no task comes back
/// (the queue has to be refilled first).
pub open spec fn request_post(
    before: Dispatcher,
    after: Dispatcher,
    r: Option<SuggestedRebuild>,
) -> bool {
    let q = skip_started(before.pending(), before.started());
    if q.len() == 0 {
        &&& r is None
        &&& after.pending() == q
        &&& after.started() == before.started()
    } else {
        &&& r == Some(q.last())
        &&& after.pending() == q.drop_last()
        &&& after.started() == before.started().insert(q.last().id())
    }
}

/// After the skip, the task at the end (if any) has not been started; a queue whose
/// last task has not been started is left as it is.
pub proof fn lemma_skip_started(pending: Seq<SuggestedRebuild>, started: Set<Seq<char>>)
    ensures
        skip_started(pending, started).len() > 0 ==> !started.contains(
            skip_started(pending, started).last().id(),
        ),
        pending.len() > 0 && !started.contains(pending.last().id()) ==> skip_started(
            pending,
            started,
        ) == pending,
        skip_started(pending, started).len() <= pending.len(),
    decreases pending.len(),
{
    if pending.len() > 0 && started.contains(pending.last().id()) {
        lemma_skip_started(pending.drop_last(), started);
    }
}

/// What a refill does: the pending tasks become the fetched ones whose derivation
/// has not been started; the started set stays as it was.
pub open spec fn refill_post(
    before: Dispatcher,
    after: Dispatcher,
    fetched: Seq<SuggestedRebuild>,
) -> bool {
    &&& after.pending() == unstarted(fetched, before.started())
    &&& after.started() == before.started()
}

/// Whether `id` is one of the derivations in `started`.
fn is_started(started: &Vec<String>, id: &String) -> (r: bool)
    ensures
        r == started@.map_values(|s: String| s@).contains(id@),
{
    let ghost ids = started@.map_values(|s: String| s@);
    let mut i: usize = 0;
    while i < started.len()
        invariant
            i <= started.len(),
            ids == started@.map_values(|s: String| s@),
            forall|k: int| 0 <= k < i ==> ids[k] != id@,
        decreases started.len() - i,
    {
        if started[i] == *id {
            assert(ids[i as int] == id@);
            return true;
        }
        i = i + 1;
    }
    false
}

/// The tasks of `fetched` whose derivation is not in `started`, in their order.
fn filter_unstarted(started: &Vec<String>, fetched: &Vec<SuggestedRebuild>) -> (r: Vec<
    SuggestedRebuild,
>)
    ensures
        r@ == unstarted(fetched@, started@.map_values(|s: String| s@).to_set()),
{
    let ghost set = started@.map_values(|s: String| s@).to_set();
    let ghost pred = |t: SuggestedRebuild| !set.contains(t.id());
    let mut kept: Vec<SuggestedRebuild> = Vec::new();
    let mut i: usize = 0;
    while i < fetched.len()
        invariant
            i <= fetched.len(),
            set == started@.map_values(|s: String| s@).to_set(),
            pred == (|t: SuggestedRebuild| !set.contains(t.id())),
            kept@ == fetched@.take(i as int).filter(pred),
        decreases fetched.len() - i,
    {
        proof {
            reveal(Seq::filter);
        }
        let ghost prefix = fetched@.take(i as int + 1);
        assert(prefix.drop_last() =~= fetched@.take(i as int));
        assert(prefix.last() == fetched@[i as int]);
        let seen = is_started(started, &fetched[i].drv_path);
        assert(seen == set.contains(fetched@[i as int].id()));
        if !seen {
            kept.push(fetched[i].duplicate());
            assert(prefix.filter(pred) == fetched@.take(i as int).filter(pred).push(
                fetched@[i as int],
            ));
        } else {
            assert(prefix.filter(pred) == fetched@.take(i as int).filter(pred));
        }
        i = i + 1;
    }
    assert(fetched@.take(fetched@.len() as int) =~= fetched@);
    kept
}

/// The single owner of the scheduling state: the tasks waiting to be handed out
/// and the derivations that have been handed out during this run.
pub struct Dispatcher {
    to_build: Vec<SuggestedRebuild>,
    started: Vec<String>,
}

impl Dispatcher {
    /// The tasks not yet handed out; the next one to go is the last.
    pub closed spec fn pending(&self) -> Seq<SuggestedRebuild> {
        self.to_build@
    }

    /// The derivations handed out so far.
    pub closed spec fn started(&self) -> Set<Seq<char>> {
        self.started@.map_values(|s: String| s@).to_set()
    }

    pub fn new() -> (r: Self)
        ensures
            r.pending() == Seq::<SuggestedRebuild>::empty(),
            r.started() == Set::<Seq<char>>::empty(),
    {
        let r = Dispatcher { to_build: Vec::new(), started: Vec::new() };
        assert(r.started() =~= Set::<Seq<char>>::empty());
        r
    }

    /// Whether the derivation `id` has been handed out during this run.
    pub fn has_started(&self, id: &String) -> (r: bool)
        ensures
            r == self.started().contains(id@),
    {
        is_started(&self.started, id)
    }

    /// Records the derivation `id` as handed out.
    fn mark_started(&mut self, id: String)
        ensures
            final(self).pending() == old(self).pending(),
            final(self).started() == old(self).started().insert(id@),
    {
        let ghost before = self.started@.map_values(|s: String| s@);
        self.started.push(id);
        let ghost after = self.started@.map_values(|s: String| s@);
        assert(after =~= before.push(id@));
        assert forall|x: Seq<char>| after.contains(x) <==> before.contains(x) || x == id@ by {
            if after.contains(x) {
                let k = choose|k: int| 0 <= k < after.len() && after[k] == x;
                if k < before.len() {
                    assert(before[k] == x);
                }
            }
            if before.contains(x) {
                let k = choose|k: int| 0 <= k < before.len() && before[k] == x;
                assert(after[k] == x);
            }
            if x == id@ {
                assert(after[before.len() as int] == x);
            }
        }
        assert(self.started() =~= old(self).started().insert(id@));
    }

    /// Serves one request for work: drops pending tasks whose derivation has already
    /// started, then hands out the last pending task, recording its derivation as
    /// started before it leaves, or returns `None` where nothing is left to hand out.
    pub fn request_task(&mut self) -> (r: Option<SuggestedRebuild>)
        ensures
            request_post(*old(self), *final(self), r),
            r matches Some(t) ==> !old(self).started().contains(t.id()),
    {
        let ghost s = self.started();
        let ghost target = skip_started(self.pending(), s);
        proof {
            lemma_skip_started(self.pending(), s);
        }
        loop
            invariant
                s == old(self).started(),
                self.started() == s,
                target == skip_started(old(self).pending(), s),
                skip_started(self.pending(), s) == target,
            decreases self.to_build.len(),
        {
            let ghost before = self.pending();
            match self.to_build.pop() {
                None => {
                    return None;
                },
                Some(candidate) => {
                    if !self.has_started(&candidate.drv_path) {
                        assert(target == before);
                        let id = candidate.drv_path.clone();
                        self.mark_started(id);
                        return Some(candidate);
                    }
                },
            }
        }
    }

    /// Replaces the pending tasks with those of `fetched` that have not been started.
    /// An empty result means that all known work is exhausted.
    pub fn refill(&mut self, fetched: &Vec<SuggestedRebuild>)
        ensures
            refill_post(*old(self), *final(self), fetched@),
            fetched@.len() == 0 ==> final(self).pending().len() == 0,
    {
        let kept = filter_unstarted(&self.started, fetched);
        self.to_build = kept;
    }

    /// Refills from `fetched` and then serves the request that found the queue empty.
    /// `None` is the signal that nothing is left to build: the pool shuts down.
    pub fn refill_and_request(&mut self, fetched: &Vec<SuggestedRebuild>) -> (r: Option<
        SuggestedRebuild,
    >)
        ensures
            ({
                let q = unstarted(fetched@, old(self).started());
                if q.len() == 0 {
                    &&& r is None
                    &&& final(self).pending().len() == 0
                    &&& final(self).started() == old(self).started()
                } else {
                    &&& r == Some(q.last())
                    &&& final(self).pending() == q.drop_last()
                    &&& final(self).started() == old(self).started().insert(q.last().id())
                }
            }),
            fetched@.len() == 0 ==> r is None,
            r matches Some(t) ==> !old(self).started().contains(t.id()),
    {
        self.refill(fetched);
        proof {
            let q = unstarted(fetched@, old(self).started());
            lemma_unstarted_members(fetched@, old(self).started());
            if q.len() > 0 {
                assert(q.contains(q[q.len() - 1]));
                lemma_skip_started(q, old(self).started());
            }
        }
        self.request_task()
    }
}

} // verus!

verus! {

/// One event in the life of a dispatcher, with the reply it gives: a request for work
/// (`None`), or a refill from a freshly fetched list, which replies nothing.
pub open spec fn step_post(
    before: Dispatcher,
    after: Dispatcher,
    event: Option<Seq<SuggestedRebuild>>,
    reply: Option<SuggestedRebuild>,
) -> bool {
    match event {
        None => request_post(before, after, reply),
        Some(fetched) => refill_post(before, after, fetched) && reply is None,
    }
}

/// The derivations handed out by a sequence of replies, in order.
pub open spec fn dispatched(replies: Seq<Option<SuggestedRebuild>>) -> Seq<Seq<char>>
    decreases replies.len(),
{
    if replies.len() == 0 {
        Seq::empty()
    } else {
        let rest = dispatched(replies.drop_last());
        match replies.last() {
            Some(t) => rest.push(t.id()),
            None => rest,
        }
    }
}

/// Filtering keeps only tasks of the fetched list, none of them started.
pub proof fn lemma_unstarted_members(fetched: Seq<SuggestedRebuild>, started: Set<Seq<char>>)
    ensures
        forall|k: int|
            0 <= k < unstarted(fetched, started).len() ==> fetched.contains(
                #[trigger] unstarted(fetched, started)[k],
            ) && !started.contains(unstarted(fetched, started)[k].id()),
    decreases fetched.len(),
{
    reveal(Seq::filter);
    if fetched.len() > 0 {
        let init = fetched.drop_last();
        lemma_unstarted_members(init, started);
        let q0 = unstarted(init, started);
        let q = unstarted(fetched, started);
        assert forall|k: int| 0 <= k < q0.len() implies fetched.contains(#[trigger] q0[k]) by {
            let j = choose|j: int| 0 <= j < init.len() && init[j] == q0[k];
            assert(fetched[j] == q0[k]);
        }
        if !started.contains(fetched.last().id()) {
            assert(q == q0.push(fetched.last()));
            assert(fetched[fetched.len() - 1] == fetched.last());
        } else {
            assert(q == q0);
        }
    }
}

/// A refill keeps exactly the fetched tasks whose derivation has not been started:
/// a task is pending afterwards if and only if it was fetched and its derivation is
/// not in the started set.
pub proof fn lemma_refill_filter_correct(fetched: Seq<SuggestedRebuild>, started: Set<Seq<char>>)
    ensures
        forall|t: SuggestedRebuild|
            #[trigger] unstarted(fetched, started).contains(t) <==> fetched.contains(t)
                && !started.contains(t.id()),
{
    lemma_unstarted_members(fetched, started);
    let q = unstarted(fetched, started);
    assert forall|t: SuggestedRebuild| #[trigger] q.contains(t) <==> fetched.contains(t)
        && !started.contains(t.id()) by {
        if q.contains(t) {
            let k = choose|k: int| 0 <= k < q.len() && q[k] == t;
        }
        if fetched.contains(t) && !started.contains(t.id()) {
            let k = choose|k: int| 0 <= k < fetched.len() && fetched[k] == t;
            fetched.lemma_filter_contains(|t: SuggestedRebuild| !started.contains(t.id()), k);
        }
    }
}

/// Each event keeps every started derivation started, and a task handed out has a
/// derivation that was not started before and is started after.
proof fn lemma_step_reply_fresh(
    before: Dispatcher,
    after: Dispatcher,
    event: Option<Seq<SuggestedRebuild>>,
    reply: Option<SuggestedRebuild>,
)
    requires
        step_post(before, after, event, reply),
    ensures
        forall|x: Seq<char>| before.started().contains(x) ==> after.started().contains(x),
        reply matches Some(t) ==> !before.started().contains(t.id()) && after.started().contains(
            t.id(),
        ),
{
    if event is None {
        lemma_skip_started(before.pending(), before.started());
    }
}

/// No derivation is handed out twice in a run: from a fresh dispatcher, through any
/// sequence of requests and refills, whatever the fetched lists hold, the derivations
/// in the replies are all different.
pub proof fn lemma_no_duplicate_dispatch(
    states: Seq<Dispatcher>,
    events: Seq<Option<Seq<SuggestedRebuild>>>,
    replies: Seq<Option<SuggestedRebuild>>,
)
    requires
        states.len() == events.len() + 1,
        replies.len() == events.len(),
        states[0].pending().len() == 0,
        states[0].started() == Set::<Seq<char>>::empty(),
        forall|i: int|
            0 <= i < events.len() ==> step_post(
                #[trigger] states[i],
                states[i + 1],
                events[i],
                replies[i],
            ),
    ensures
        dispatched(replies).no_duplicates(),
{
    lemma_run_invariant(states, events, replies, events.len() as int);
    assert(replies.take(events.len() as int) =~= replies);
}

proof fn lemma_run_invariant(
    states: Seq<Dispatcher>,
    events: Seq<Option<Seq<SuggestedRebuild>>>,
    replies: Seq<Option<SuggestedRebuild>>,
    n: int,
)
    requires
        0 <= n <= events.len(),
        states.len() == events.len() + 1,
        replies.len() == events.len(),
        states[0].started() == Set::<Seq<char>>::empty(),
        forall|i: int|
            0 <= i < events.len() ==> step_post(
                #[trigger] states[i],
                states[i + 1],
                events[i],
                replies[i],
            ),
    ensures
        dispatched(replies.take(n)).no_duplicates(),
        forall|k: int|
            0 <= k < dispatched(replies.take(n)).len() ==> states[n].started().contains(
                #[trigger] dispatched(replies.take(n))[k],
            ),
    decreases n,
{
    if n > 0 {
        lemma_run_invariant(states, events, replies, n - 1);
        let i = n - 1;
        lemma_step_reply_fresh(states[i], states[i + 1], events[i], replies[i]);
        let prev = replies.take(i);
        let cur = replies.take(n);
        assert(cur.drop_last() =~= prev);
        assert(cur.last() == replies[i]);
    }
}

/// A fresh process starts with no derivation started, so its first refill keeps every
/// fetched task, those that an earlier run already built included.
pub proof fn lemma_fresh_start_keeps_all(fetched: Seq<SuggestedRebuild>)
    ensures
        unstarted(fetched, Set::<Seq<char>>::empty()) == fetched,
    decreases fetched.len(),
{
    reveal(Seq::filter);
    if fetched.len() > 0 {
        lemma_fresh_start_keeps_all(fetched.drop_last());
        assert(fetched.drop_last().push(fetched.last()) =~= fetched);
    }
}

} // verus!
