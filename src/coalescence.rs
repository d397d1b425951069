use vstd::prelude::*;
use crate::event::CoalescenceEvent;

verus! {

/// A group that fired: when (milliseconds on the caller's clock) and for how
/// many seconds it suppresses the group.
#[derive(Debug, Clone)]
pub struct CoalescenceEntry {
    pub group: String,
    pub start: u64,
    pub ttl: u64,
}

/// The cache of groups that fired recently, one entry per group, oldest first.
#[derive(Debug)]
pub struct Coalescences {
    entries: Vec<CoalescenceEntry>,
}

/// Milliseconds from `start` to `now`; none when the clock reads earlier.
pub open spec fn elapsed_ms(start: u64, now: u64) -> int {
    if now >= start {
        (now - start) as int
    } else {
        0
    }
}

/// The entry still suppresses its group at `now`: the time elapsed since it
/// was made does not exceed its window.
pub open spec fn is_live(e: CoalescenceEntry, now: u64) -> bool {
    elapsed_ms(e.start, now) <= e.ttl * 1000
}

/// The entries that are live at `now`, in order.
pub open spec fn live_entries(es: Seq<CoalescenceEntry>, now: u64) -> Seq<CoalescenceEntry>
    decreases es.len(),
{
    if es.len() == 0 {
        es
    } else if is_live(es.last(), now) {
        live_entries(es.drop_last(), now).push(es.last())
    } else {
        live_entries(es.drop_last(), now)
    }
}

/// Some entry is for `group`.
pub open spec fn holds_group(es: Seq<CoalescenceEntry>, group: Seq<char>) -> bool {
    exists|i: int| 0 <= i < es.len() && (#[trigger] es[i]).group@ == group
}

/// No two entries are for the same group.
pub open spec fn groups_unique(es: Seq<CoalescenceEntry>) -> bool {
    forall|i: int, j: int|
        0 <= i < es.len() && 0 <= j < es.len() && i != j ==> (#[trigger] es[i]).group@
            != (#[trigger] es[j]).group@
}

/// The group and window under which an event coalesces, when it has both.
pub open spec fn coalesces_under(e: CoalescenceEvent) -> Option<(Seq<char>, u64)> {
    match (e.coalescence_group, e.coalescence) {
        (Some(g), Some(t)) => Some((g@, t)),
        _ => None,
    }
}

/// An entry as plain values: its group, when it was made, its window.
pub open spec fn entry_view(e: CoalescenceEntry) -> (Seq<char>, u64, u64) {
    (e.group@, e.start, e.ttl)
}

/// The entries as plain values, in order.
pub open spec fn entry_views(es: Seq<CoalescenceEntry>) -> Seq<(Seq<char>, u64, u64)> {
    es.map_values(|e: CoalescenceEntry| entry_view(e))
}

/// Some entry is for `group`.
pub open spec fn has_group(vs: Seq<(Seq<char>, u64, u64)>, group: Seq<char>) -> bool {
    exists|i: int| 0 <= i < vs.len() && (#[trigger] vs[i]).0 == group
}

/// Whether the event fires given the cache's entries: an event with a group
/// and a window fires only when no entry holds its group; any other event
/// fires.
pub open spec fn fires(vs: Seq<(Seq<char>, u64, u64)>, e: CoalescenceEvent) -> bool {
    match coalesces_under(e) {
        Some((g, _)) => !has_group(vs, g),
        None => true,
    }
}

/// The cache's entries after the event passes at `now`: a firing event with a
/// group and a window adds an entry for its group, made at `now` with the
/// event's own window; otherwise the entries stay as they are.
pub open spec fn after_one(vs: Seq<(Seq<char>, u64, u64)>, e: CoalescenceEvent, now: u64) -> Seq<(Seq<char>, u64, u64)> {
    match coalesces_under(e) {
        Some((g, t)) => if has_group(vs, g) {
            vs
        } else {
            vs.push((g, now, t))
        },
        None => vs,
    }
}

/// The cache's entries after the events pass it in order at `now`.
pub open spec fn entries_after(vs: Seq<(Seq<char>, u64, u64)>, evs: Seq<CoalescenceEvent>, now: u64) -> Seq<(Seq<char>, u64, u64)>
    decreases evs.len(),
{
    if evs.len() == 0 {
        vs
    } else {
        after_one(entries_after(vs, evs.drop_last(), now), evs.last(), now)
    }
}

/// The events that fire, in order, when they pass the cache at `now`, each
/// against the entries that the events before it left.
pub open spec fn passing(vs: Seq<(Seq<char>, u64, u64)>, evs: Seq<CoalescenceEvent>, now: u64) -> Seq<CoalescenceEvent>
    decreases evs.len(),
{
    if evs.len() == 0 {
        evs
    } else {
        let kept = passing(vs, evs.drop_last(), now);
        if fires(entries_after(vs, evs.drop_last(), now), evs.last()) {
            kept.push(evs.last())
        } else {
            kept
        }
    }
}

proof fn lemma_has_group_views(es: Seq<CoalescenceEntry>, g: Seq<char>)
    ensures
        holds_group(es, g) <==> has_group(entry_views(es), g),
{
    let vs = entry_views(es);
    if holds_group(es, g) {
        let i = choose|i: int| 0 <= i < es.len() && (#[trigger] es[i]).group@ == g;
        assert(vs[i].0 == g);
    }
    if has_group(vs, g) {
        let i = choose|i: int| 0 <= i < vs.len() && (#[trigger] vs[i]).0 == g;
        assert(es[i].group@ == g);
    }
}

proof fn lemma_live_entries_contains(es: Seq<CoalescenceEntry>, now: u64, x: CoalescenceEntry)
    ensures
        live_entries(es, now).contains(x) <==> (es.contains(x) && is_live(x, now)),
    decreases es.len(),
{
    if es.len() > 0 {
        let rest = es.drop_last();
        lemma_live_entries_contains(rest, now, x);
        assert(es =~= rest.push(es.last()));
        if es.contains(x) && x != es.last() {
            let i = choose|i: int| 0 <= i < es.len() && es[i] == x;
            assert(rest[i] == x);
        }
        if rest.contains(x) {
            let i = choose|i: int| 0 <= i < rest.len() && rest[i] == x;
            assert(es[i] == x);
        }
        if is_live(es.last(), now) {
            let l = live_entries(rest, now);
            assert(live_entries(es, now) == l.push(es.last()));
            if l.contains(x) {
                let i = choose|i: int| 0 <= i < l.len() && l[i] == x;
                assert(l.push(es.last())[i] == x);
            }
            if l.push(es.last()).contains(x) && x != es.last() {
                let i = choose|i: int| 0 <= i < l.len() + 1 && l.push(es.last())[i] == x;
                assert(l[i] == x);
            }
            assert(l.push(es.last())[l.len() as int] == es.last());
        }
    }
}

proof fn lemma_window_entry(es: Seq<CoalescenceEntry>, e: CoalescenceEntry, now: u64)
    requires
        groups_unique(es),
        es.contains(e),
    ensures
        holds_group(live_entries(es, now), e.group@) <==> elapsed_ms(e.start, now) <= e.ttl * 1000,
{
    let live = live_entries(es, now);
    lemma_live_entries_contains(es, now, e);
    if elapsed_ms(e.start, now) <= e.ttl * 1000 {
        let i = choose|i: int| 0 <= i < live.len() && live[i] == e;
        assert(live[i].group@ == e.group@);
    }
    if holds_group(live, e.group@) {
        let i = choose|i: int| 0 <= i < live.len() && (#[trigger] live[i]).group@ == e.group@;
        let x = live[i];
        assert(live.contains(x));
        lemma_live_entries_contains(es, now, x);
        let a = choose|a: int| 0 <= a < es.len() && es[a] == x;
        let b = choose|b: int| 0 <= b < es.len() && es[b] == e;
        if a != b {
            assert(es[a].group@ != es[b].group@);
        }
    }
}

/// Once a group `g` has fired at `start` with a window of `ttl` seconds (its
/// entry is in the cache), pruning at `now` leaves the group in the cache, so
/// that its next event is held back, exactly while the time elapsed since
/// `start` does not exceed the window; after that the group's next event
/// fires again.
pub proof fn lemma_coalescence_window(
    es: Seq<CoalescenceEntry>,
    g: Seq<char>,
    start: u64,
    ttl: u64,
    now: u64,
)
    requires
        groups_unique(es),
        entry_views(es).contains((g, start, ttl)),
    ensures
        has_group(entry_views(live_entries(es, now)), g) <==> elapsed_ms(start, now) <= ttl * 1000,
{
    let i = choose|i: int| 0 <= i < entry_views(es).len() && entry_views(es)[i] == (g, start, ttl);
    let e = es[i];
    assert(es.contains(e));
    lemma_window_entry(es, e, now);
    lemma_has_group_views(live_entries(es, now), g);
}

impl Coalescences {
    /// The entries, oldest first.
    pub closed spec fn view(&self) -> Seq<CoalescenceEntry> {
        self.entries@
    }

    pub open spec fn wf(&self) -> bool {
        groups_unique(self@)
    }

    /// An empty cache.
    pub fn new() -> (r: Coalescences)
        ensures
            r@.len() == 0,
            r.wf(),
    {
        Coalescences { entries: Vec::new() }
    }

    /// The entries, oldest first.
    pub fn entries(&self) -> (r: &Vec<CoalescenceEntry>)
        ensures
            r@ == self@,
    {
        &self.entries
    }

    /// Drops every entry whose window has passed at `now`.
    pub fn prune(&mut self, now: u64)
        requires
            old(self).wf(),
        ensures
            final(self)@ == live_entries(old(self)@, now),
            final(self).wf(),
    {
        let mut kept: Vec<CoalescenceEntry> = Vec::new();
        let mut i: usize = 0;
        let ghost es = self.entries@;
        assert(es.subrange(0, 0) =~= Seq::<CoalescenceEntry>::empty());
        while i < self.entries.len()
            invariant
                es == self.entries@,
                groups_unique(es),
                i <= es.len(),
                kept@ == live_entries(es.subrange(0, i as int), now),
                forall|k: int| 0 <= k < kept@.len() ==> exists|j: int| 0 <= j < i && (#[trigger] kept@[k]) == es[j],
                groups_unique(kept@),
            decreases es.len() - i,
        {
            let ghost next = es.subrange(0, i + 1);
            assert(next.drop_last() =~= es.subrange(0, i as int));
            let e = &self.entries[i];
            let elapsed: u64 = if now >= e.start {
                now - e.start
            } else {
                0
            };
            let live = e.ttl > u64::MAX / 1000 || elapsed <= e.ttl * 1000;
            if live {
                let ghost before = kept@;
                proof {
                    assert forall|k: int| 0 <= k < before.len() implies before[k].group@ != es[i as int].group@ by {
                        let j = choose|j: int| 0 <= j < i && before[k] == es[j];
                        assert(es[j].group@ != es[i as int].group@);
                    }
                }
                kept.push(e.clone_entry());
                proof {
                    assert forall|k: int| 0 <= k < kept@.len() implies exists|j: int| 0 <= j < i + 1 && (#[trigger] kept@[k]) == es[j] by {
                        if k < before.len() {
                            assert(kept@[k] == before[k]);
                        } else {
                            assert(kept@[k] == es[i as int]);
                        }
                    }
                    assert forall|a: int, b: int| 0 <= a < kept@.len() && 0 <= b < kept@.len() && a != b implies (#[trigger] kept@[a]).group@ != (#[trigger] kept@[b]).group@ by {
                        if a < before.len() && b < before.len() {
                            assert(kept@[a] == before[a]);
                            assert(kept@[b] == before[b]);
                        } else if a < before.len() {
                            assert(kept@[a] == before[a]);
                        } else if b < before.len() {
                            assert(kept@[b] == before[b]);
                        }
                    }
                }
            }
            i = i + 1;
        }
        assert(es.subrange(0, es.len() as int) =~= es);
        self.entries = kept;
    }

    /// Whether some entry is for `group`.
    pub fn contains_group(&self, group: &String) -> (r: bool)
        ensures
            r == holds_group(self@, group@),
    {
        let mut i: usize = 0;
        while i < self.entries.len()
            invariant
                i <= self@.len(),
                self@ == self.entries@,
                forall|k: int| 0 <= k < i ==> (#[trigger] self@[k]).group@ != group@,
            decreases self.entries.len() - i,
        {
            if self.entries[i].group.eq(group) {
                assert(self@[i as int].group@ == group@);
                return true;
            }
            i = i + 1;
        }
        false
    }

    /// Lets an event through or holds it back: an event with a group and a
    /// window fires only when no entry holds its group, and then its group
    /// enters the cache at `now` with the event's own window; an event without
    /// both fires and leaves the cache unchanged.
    pub fn let_through(&mut self, e: &CoalescenceEvent, now: u64) -> (r: bool)
        requires
            old(self).wf(),
        ensures
            final(self).wf(),
            r == fires(entry_views(old(self)@), *e),
            entry_views(final(self)@) == after_one(entry_views(old(self)@), *e, now),
            !r ==> final(self)@ == old(self)@,
    {
        match (&e.coalescence_group, e.coalescence) {
            (Some(g), Some(t)) => {
                if self.contains_group(g) {
                    proof {
                        lemma_has_group_views(self@, g@);
                    }
                    false
                } else {
                    let ghost before = self.entries@;
                    self.entries.push(CoalescenceEntry { group: g.clone(), start: now, ttl: t });
                    assert(self.entries@.drop_last() =~= before);
                    assert forall|a: int, b: int| 0 <= a < self@.len() && 0 <= b < self@.len() && a != b implies (#[trigger] self@[a]).group@ != (#[trigger] self@[b]).group@ by {
                        if a < before.len() && b < before.len() {
                            assert(self@[a] == before[a]);
                            assert(self@[b] == before[b]);
                        } else if a < before.len() {
                            assert(self@[a] == before[a]);
                        } else if b < before.len() {
                            assert(self@[b] == before[b]);
                        }
                    }
                    proof {
                        lemma_has_group_views(before, g@);
                        assert(entry_views(self@) =~= entry_views(before).push((g@, now, t)));
                    }
                    true
                }
            },
            _ => true,
        }
    }
}

impl CoalescenceEntry {
    fn clone_entry(&self) -> (r: CoalescenceEntry)
        ensures
            r == *self,
    {
        CoalescenceEntry { group: self.group.clone(), start: self.start, ttl: self.ttl }
    }
}

} // verus!
