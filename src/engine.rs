use vstd::prelude::*;
use crate::coalescence::{
    Coalescences, CoalescenceEntry, entries_after, entry_views, groups_unique, live_entries, passing,
};
use crate::condition::{Condition, ConditionResult, explains, status_of};
use crate::event::{CoalescenceEvent, message_of, or_template, render_spec, rendered_as};
use crate::facts::FactValue;
use crate::status::Status;

verus! {

/// A condition tree and the events that fire when it is met.
#[derive(Debug)]
pub struct Rule {
    pub conditions: Condition,
    pub events: Vec<CoalescenceEvent>,
}

/// What checking a rule gave: the complete result tree and the events that
/// fired.
#[derive(Debug)]
pub struct RuleResult {
    pub condition_result: ConditionResult,
    pub events: Vec<CoalescenceEvent>,
}

/// `r` is the result of checking `rule` on the facts: the complete result
/// tree, and each event of the rule with its templated texts rendered against
/// the facts (or kept verbatim where there is no rendering), in order.
pub open spec fn rule_checked(r: RuleResult, rule: Rule, facts: FactValue) -> bool {
    &&& explains(r.condition_result, rule.conditions, facts)
    &&& r.events@.len() == rule.events@.len()
    &&& forall|i: int|
        0 <= i < r.events@.len() ==> rendered_as(#[trigger] r.events@[i], rule.events@[i], facts)
}

/// The rules whose conditions are met by the facts, in order.
pub open spec fn met_rules(rules: Seq<Rule>, facts: FactValue) -> Seq<Rule>
    decreases rules.len(),
{
    if rules.len() == 0 {
        rules
    } else if status_of(rules.last().conditions, facts) == Status::Met {
        met_rules(rules.drop_last(), facts).push(rules.last())
    } else {
        met_rules(rules.drop_last(), facts)
    }
}

/// `r` is what a run gave for a met `rule`: the complete result tree, and the
/// rule's rendered events (`rendered`) that passed a cache holding the groups
/// `before`, which then held `after`.
pub open spec fn fired_for(
    r: RuleResult,
    rendered: RuleResult,
    rule: Rule,
    facts: FactValue,
    before: Seq<(Seq<char>, u64, u64)>,
    after: Seq<(Seq<char>, u64, u64)>,
    now: u64,
) -> bool {
    &&& explains(r.condition_result, rule.conditions, facts)
    &&& r.condition_result.status == Status::Met
    &&& rule_checked(rendered, rule, facts)
    &&& r.events@ == passing(before, rendered.events@, now)
    &&& after == entries_after(before, rendered.events@, now)
}

/// `rs` is what a run gave for the met rules `met`, with the cache's groups
/// going from `first` to `last`: one result per met rule, in order, each
/// rule's events passing the cache as the rules before it left it.
pub open spec fn run_outcome(
    rs: Seq<RuleResult>,
    met: Seq<Rule>,
    facts: FactValue,
    first: Seq<(Seq<char>, u64, u64)>,
    last: Seq<(Seq<char>, u64, u64)>,
    rendered: Seq<RuleResult>,
    groups: Seq<Seq<(Seq<char>, u64, u64)>>,
    now: u64,
) -> bool {
    &&& rs.len() == met.len()
    &&& rendered.len() == rs.len()
    &&& groups.len() == rs.len() + 1
    &&& groups[0] == first
    &&& groups.last() == last
    &&& forall|j: int|
        0 <= j < rs.len() ==> fired_for(
            #[trigger] rs[j],
            rendered[j],
            met[j],
            facts,
            groups[j],
            groups[j + 1],
            now,
        )
}

/// Each event of a checked rule carries its message template rendered against
/// the facts, and the template verbatim where it has no rendering.
pub proof fn lemma_message_rendered(r: RuleResult, rule: Rule, facts: FactValue, i: int)
    requires
        rule_checked(r, rule, facts),
        0 <= i < rule.events@.len(),
    ensures
        message_of(r.events@[i]) == or_template(
            render_spec(message_of(rule.events@[i]), facts),
            message_of(rule.events@[i]),
        ),
{
    assert(rendered_as(r.events@[i], rule.events@[i], facts));
}

impl Rule {
    /// Checks the conditions on the facts and renders every event against them.
    pub fn check_value(&self, info: &FactValue) -> (r: RuleResult)
        ensures
            rule_checked(r, *self, *info),
    {
        let condition_result = self.conditions.check_value(info);
        let mut events: Vec<CoalescenceEvent> = Vec::new();
        let mut i: usize = 0;
        while i < self.events.len()
            invariant
                i <= self.events@.len(),
                events@.len() == i,
                forall|k: int| 0 <= k < i ==> rendered_as(#[trigger] events@[k], self.events@[k], *info),
            decreases self.events.len() - i,
        {
            let e = self.events[i].render(info);
            let ghost before = events@;
            events.push(e);
            assert forall|k: int| 0 <= k < i + 1 implies rendered_as(
                #[trigger] events@[k],
                self.events@[k],
                *info,
            ) by {
                if k < i {
                    assert(events@[k] == before[k]);
                } else {
                    assert(events@[k] == e);
                }
            }
            i = i + 1;
        }
        let r = RuleResult { condition_result, events };
        assert(r.events@ == events@);
        r
    }
}

/// Owns the rules, in the order they were added, and the cache that coalesces
/// their events.
#[derive(Debug)]
pub struct Engine {
    rules: Vec<Rule>,
    coalescences: Coalescences,
}

impl Engine {
    pub closed spec fn rules_view(&self) -> Seq<Rule> {
        self.rules@
    }

    pub closed spec fn wf(&self) -> bool {
        self.coalescences.wf()
    }

    /// The coalescence cache's entries, oldest first.
    pub closed spec fn cache_view(&self) -> Seq<CoalescenceEntry> {
        self.coalescences@
    }

    /// An engine with no rules and an empty cache.
    pub fn new() -> (r: Engine)
        ensures
            r.rules_view().len() == 0,
            r.cache_view().len() == 0,
            r.wf(),
    {
        Engine { rules: Vec::new(), coalescences: Coalescences::new() }
    }

    /// The rules, in the order they were added.
    pub fn rules(&self) -> (r: &Vec<Rule>)
        ensures
            r@ == self.rules_view(),
    {
        &self.rules
    }

    /// The coalescence cache.
    pub fn coalescences(&self) -> (r: &Coalescences)
        ensures
            self.wf() ==> r.wf(),
            r@ == self.cache_view(),
    {
        &self.coalescences
    }

    pub fn add_rule(&mut self, rule: Rule)
        ensures
            final(self).rules_view() == old(self).rules_view().push(rule),
            final(self).wf() == old(self).wf(),
            final(self).cache_view() == old(self).cache_view(),
    {
        self.rules.push(rule)
    }

    pub fn add_rules(&mut self, rules: Vec<Rule>)
        ensures
            final(self).rules_view() == old(self).rules_view() + rules@,
            final(self).wf() == old(self).wf(),
            final(self).cache_view() == old(self).cache_view(),
    {
        let mut rules = rules;
        self.rules.append(&mut rules);
    }

    /// Replaces the whole rule set.
    pub fn load_rules(&mut self, rules: Vec<Rule>)
        ensures
            final(self).rules_view() == rules@,
            final(self).wf() == old(self).wf(),
            final(self).cache_view() == old(self).cache_view(),
    {
        self.rules = rules;
    }

    /// Removes every rule.
    pub fn clear(&mut self)
        ensures
            final(self).rules_view().len() == 0,
            final(self).wf() == old(self).wf(),
            final(self).cache_view() == old(self).cache_view(),
    {
        self.rules.clear();
    }

    /// One run on a fact snapshot at `now` (milliseconds on the caller's
    /// clock): every rule is checked; only those that are met are kept, in
    /// order; the cache drops the groups whose window has passed; then each
    /// kept rule's events are rendered and passed through the cache, which
    /// drops an event whose group it still holds.
    pub fn run(&mut self, facts: &FactValue, now: u64) -> (r: Vec<RuleResult>)
        requires
            old(self).wf(),
        ensures
            final(self).wf(),
            groups_unique(final(self).cache_view()),
            final(self).rules_view() == old(self).rules_view(),
            r@.len() == met_rules(old(self).rules_view(), *facts).len(),
            exists|rendered: Seq<RuleResult>, groups: Seq<Seq<(Seq<char>, u64, u64)>>|
                run_outcome(
                    r@,
                    met_rules(old(self).rules_view(), *facts),
                    *facts,
                    entry_views(live_entries(old(self).cache_view(), now)),
                    entry_views(final(self).cache_view()),
                    rendered,
                    groups,
                    now,
                ),
    {
        self.coalescences.prune(now);
        let ghost first = entry_views(self.coalescences@);
        let ghost mut rendered_all: Seq<RuleResult> = Seq::empty();
        let ghost mut groups: Seq<Seq<(Seq<char>, u64, u64)>> = seq![first];
        let mut results: Vec<RuleResult> = Vec::new();
        let mut i: usize = 0;
        let ghost rules = self.rules@;
        assert(rules.subrange(0, 0) =~= Seq::<Rule>::empty());
        while i < self.rules.len()
            invariant
                rules == self.rules@,
                i <= rules.len(),
                self.coalescences.wf(),
                run_outcome(
                    results@,
                    met_rules(rules.subrange(0, i as int), *facts),
                    *facts,
                    first,
                    entry_views(self.coalescences@),
                    rendered_all,
                    groups,
                    now,
                ),
            decreases rules.len() - i,
        {
            let ghost pre = rules.subrange(0, i as int);
            let ghost next = rules.subrange(0, i + 1);
            assert(next.drop_last() =~= pre);
            assert(next.last() == rules[i as int]);
            let checked = self.rules[i].check_value(facts);
            if checked.condition_result.status.is_met() {
                let ghost rendered = checked;
                let ghost before_groups = entry_views(self.coalescences@);
                let RuleResult { condition_result, events } = checked;
                let fired = self.coalescences.sieve(events, now);
                let ghost before = results@;
                results.push(RuleResult { condition_result, events: fired });
                proof {
                    let old_rendered = rendered_all;
                    let old_groups = groups;
                    rendered_all = rendered_all.push(rendered);
                    groups = groups.push(entry_views(self.coalescences@));
                    assert forall|j: int| 0 <= j < results@.len() implies fired_for(
                        #[trigger] results@[j],
                        rendered_all[j],
                        met_rules(next, *facts)[j],
                        *facts,
                        groups[j],
                        groups[j + 1],
                        now,
                    ) by {
                        if j < before.len() {
                            assert(results@[j] == before[j]);
                            assert(met_rules(next, *facts)[j] == met_rules(pre, *facts)[j]);
                            assert(rendered_all[j] == old_rendered[j]);
                            assert(groups[j] == old_groups[j]);
                            assert(groups[j + 1] == old_groups[j + 1]);
                        } else {
                            assert(met_rules(next, *facts)[j] == rules[i as int]);
                            assert(groups[j] == before_groups);
                        }
                    }
                }
            } else {
                assert(met_rules(next, *facts) == met_rules(pre, *facts));
            }
            i = i + 1;
        }
        assert(rules.subrange(0, rules.len() as int) =~= rules);
        assert(first == entry_views(live_entries(old(self).cache_view(), now)));
        assert(run_outcome(
            results@,
            met_rules(old(self).rules_view(), *facts),
            *facts,
            entry_views(live_entries(old(self).cache_view(), now)),
            entry_views(self.cache_view()),
            rendered_all,
            groups,
            now,
        ));
        results
    }
}

impl Coalescences {
    /// Passes the events through the cache in order, as `let_through` does
    /// one by one; those it holds back are dropped.
    pub fn sieve(&mut self, events: Vec<CoalescenceEvent>, now: u64) -> (r: Vec<CoalescenceEvent>)
        requires
            old(self).wf(),
        ensures
            final(self).wf(),
            r@ == passing(entry_views(old(self)@), events@, now),
            entry_views(final(self)@) == entries_after(entry_views(old(self)@), events@, now),
    {
        let ghost gs = entry_views(self@);
        let mut fired: Vec<CoalescenceEvent> = Vec::new();
        let mut rest = events;
        let ghost all = rest@;
        let n = rest.len();
        let mut i: usize = 0;
        assert(all.subrange(0, all.len() as int) =~= all);
        assert(all.subrange(0, 0) =~= Seq::<CoalescenceEvent>::empty());
        while i < n
            invariant
                n == all.len(),
                rest@ == all.subrange(i as int, all.len() as int),
                i <= all.len(),
                self.wf(),
                fired@ == passing(gs, all.subrange(0, i as int), now),
                entry_views(self@) == entries_after(gs, all.subrange(0, i as int), now),
            decreases all.len() - i,
        {
            let ghost pre = all.subrange(0, i as int);
            let ghost next = all.subrange(0, i + 1);
            assert(next.drop_last() =~= pre);
            let e = rest.remove(0);
            assert(e == all[i as int]);
            assert(next.last() == e);
            assert(rest@ =~= all.subrange(i + 1, all.len() as int));
            if self.let_through(&e, now) {
                fired.push(e);
            }
            i = i + 1;
        }
        fired
    }
}

} // verus!
