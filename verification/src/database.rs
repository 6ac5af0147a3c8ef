//! The rule table and the activity log: user-defined rules with monotonic id
//! allocation, and an append-only bounded record of observed activity.

use crate::bounded::{evict_to, BoundedStore};
use crate::clock::now_millis;
use vstd::prelude::*;
use vstd::seq_lib::*;

verus! {

/// How many activity records the log retains before evicting the oldest.
pub const ACTIVITY_LOG_CAPACITY: usize = 1000;

/// A stored condition/action specification with an activation flag.
#[derive(Debug)]
pub struct Rule {
    pub id: i64,
    pub name: String,
    pub natural_language: String,
    pub rule_json: String,
    pub is_active: bool,
    /// Milliseconds since the Unix epoch.
    pub created_at: i64,
}

/// The caller-supplied fields of a rule about to be created.
#[derive(Debug)]
pub struct NewRule {
    pub name: String,
    pub natural_language: String,
    pub rule_json: String,
}

/// A timestamped entry describing locally observed user activity.
#[derive(Debug)]
pub struct ActivityRecord {
    pub id: i64,
    /// Milliseconds since the Unix epoch.
    pub timestamp: i64,
    pub activity: String,
    pub productive: bool,
    pub app: String,
    pub bundle_id: Option<String>,
    pub domain: Option<String>,
}

/// The caller-supplied fields of an activity record about to be logged.
#[derive(Debug)]
pub struct NewActivityRecord {
    /// Milliseconds since the Unix epoch.
    pub timestamp: i64,
    pub activity: String,
    pub productive: bool,
    pub app: String,
    pub bundle_id: Option<String>,
    pub domain: Option<String>,
}

/// An operation referenced an id absent from the table.
#[derive(Debug, PartialEq, Eq, Structural)]
pub enum StoreError {
    NotFound,
}

impl StoreError {
    /// The error string surfaced to callers of the command surface.
    pub fn message(&self) -> (r: String)
        ensures
            r@ == "Rule not found"@,
    {
        "Rule not found".to_owned()
    }
}

impl Clone for Rule {
    fn clone(&self) -> (r: Self)
        ensures
            r == *self,
    {
        Rule {
            id: self.id,
            name: self.name.clone(),
            natural_language: self.natural_language.clone(),
            rule_json: self.rule_json.clone(),
            is_active: self.is_active,
            created_at: self.created_at,
        }
    }
}

impl Clone for NewRule {
    fn clone(&self) -> (r: Self)
        ensures
            r == *self,
    {
        NewRule {
            name: self.name.clone(),
            natural_language: self.natural_language.clone(),
            rule_json: self.rule_json.clone(),
        }
    }
}

impl Clone for ActivityRecord {
    fn clone(&self) -> (r: Self)
        ensures
            r == *self,
    {
        ActivityRecord {
            id: self.id,
            timestamp: self.timestamp,
            activity: self.activity.clone(),
            productive: self.productive,
            app: self.app.clone(),
            bundle_id: (match &self.bundle_id {
                Some(s) => Some(s.clone()),
                None => None,
            }),
            domain: (match &self.domain {
                Some(s) => Some(s.clone()),
                None => None,
            }),
        }
    }
}

impl Clone for NewActivityRecord {
    fn clone(&self) -> (r: Self)
        ensures
            r == *self,
    {
        NewActivityRecord {
            timestamp: self.timestamp,
            activity: self.activity.clone(),
            productive: self.productive,
            app: self.app.clone(),
            bundle_id: (match &self.bundle_id {
                Some(s) => Some(s.clone()),
                None => None,
            }),
            domain: (match &self.domain {
                Some(s) => Some(s.clone()),
                None => None,
            }),
        }
    }
}

/// Some stored rule carries this id.
pub open spec fn has_rule_id(s: Seq<Rule>, id: i64) -> bool {
    exists|i: int| 0 <= i < s.len() && s[i].id == id
}

/// The position of the rule carrying `id` (unique under `ids_increasing`).
pub open spec fn rule_index(s: Seq<Rule>, id: i64) -> int {
    choose|i: int| 0 <= i < s.len() && s[i].id == id
}

/// Rule ids appear in strictly increasing order (so every id is unique).
pub open spec fn ids_increasing(s: Seq<Rule>) -> bool {
    forall|i: int, j: int| 0 <= i < j < s.len() ==> s[i].id < s[j].id
}

/// Activity ids appear in strictly increasing order.
pub open spec fn activity_ids_increasing(s: Seq<ActivityRecord>) -> bool {
    forall|i: int, j: int| 0 <= i < j < s.len() ==> s[i].id < s[j].id
}

proof fn lemma_ids_increasing_at(s: Seq<Rule>, a: int, b: int)
    requires
        ids_increasing(s),
        0 <= a < b < s.len(),
    ensures
        s[a].id < s[b].id,
{
}

/// `r` with its activation flag flipped.
pub open spec fn flip_active(r: Rule) -> Rule {
    Rule { is_active: !r.is_active, ..r }
}

/// The table after toggling the rule carrying `id` (unchanged if absent).
pub open spec fn toggle_in(s: Seq<Rule>, id: i64) -> Seq<Rule> {
    s.map(|i: int, r: Rule| if r.id == id { flip_active(r) } else { r })
}

/// The recency window: the last `min(limit, len)` records, oldest first;
/// empty when `limit <= 0`.
pub open spec fn recent_window(s: Seq<ActivityRecord>, limit: int) -> Seq<ActivityRecord> {
    if limit <= 0 {
        Seq::<ActivityRecord>::empty()
    } else if limit >= s.len() {
        s
    } else {
        s.skip(s.len() - limit)
    }
}

/// The record's timestamp lies in the inclusive range `[start, end]`.
pub open spec fn in_time_range(a: ActivityRecord, start: i64, end: i64) -> bool {
    start <= a.timestamp && a.timestamp <= end
}


proof fn lemma_activity_ids_increasing_at(s: Seq<ActivityRecord>, a: int, b: int)
    requires
        activity_ids_increasing(s),
        0 <= a < b < s.len(),
    ensures
        s[a].id < s[b].id,
{
}

/// Stable insertion of `r` into a sequence sorted by `created_at`
/// descending: `r` lands after every entry whose timestamp is not older.
pub open spec fn insert_desc(r: Rule, s: Seq<Rule>) -> Seq<Rule>
    decreases s.len(),
{
    if s.len() > 0 && s[0].created_at >= r.created_at {
        seq![s[0]] + insert_desc(r, s.drop_first())
    } else {
        seq![r] + s
    }
}

/// Stable sort by `created_at` descending: entries that share a timestamp
/// keep their input (creation) order.
pub open spec fn sort_desc(s: Seq<Rule>) -> Seq<Rule>
    decreases s.len(),
{
    if s.len() == 0 {
        s
    } else {
        insert_desc(s.last(), sort_desc(s.drop_last()))
    }
}

/// The stored activity record a logging request turns into.
pub open spec fn activity_record_of(n: NewActivityRecord, id: i64) -> ActivityRecord {
    ActivityRecord {
        id,
        timestamp: n.timestamp,
        activity: n.activity,
        productive: n.productive,
        app: n.app,
        bundle_id: n.bundle_id,
        domain: n.domain,
    }
}

proof fn lemma_insert_at(s: Seq<Rule>, r: Rule, j: int)
    requires
        0 <= j <= s.len(),
        forall|k: int| 0 <= k < j ==> s[k].created_at >= r.created_at,
        j < s.len() ==> s[j].created_at < r.created_at,
    ensures
        s.insert(j, r) == insert_desc(r, s),
    decreases j,
{
    if j == 0 {
        assert(s.insert(0, r) =~= seq![r] + s);
    } else {
        assert(s[0].created_at >= r.created_at);
        lemma_insert_at(s.drop_first(), r, j - 1);
        assert(s.insert(j, r) =~= seq![s[0]] + s.drop_first().insert(j - 1, r));
    }
}

fn insert_sorted(out: &mut Vec<Rule>, r: Rule)
    ensures
        final(out)@ == insert_desc(r, old(out)@),
{
    let ghost rr = r;
    let n = out.len();
    let mut j: usize = 0;
    while j < n && out[j].created_at >= r.created_at
        invariant
            n == out@.len(),
            j <= n,
            *out == *old(out),
            forall|k: int| 0 <= k < j ==> out@[k].created_at >= r.created_at,
        decreases n - j,
    {
        j += 1;
    }
    out.insert(j, r);
    proof {
        lemma_insert_at(old(out)@, rr, j as int);
    }
}

/// A copy of `rules`, stably sorted by `created_at` descending.
fn sorted_by_created_desc(rules: &Vec<Rule>) -> (r: Vec<Rule>)
    ensures
        r@ == sort_desc(rules@),
{
    let mut out: Vec<Rule> = Vec::new();
    let n = rules.len();
    let mut i: usize = 0;
    while i < n
        invariant
            n == rules@.len(),
            i <= n,
            out@ == sort_desc(rules@.take(i as int)),
        decreases n - i,
    {
        let item = rules[i].clone();
        insert_sorted(&mut out, item);
        i += 1;
        proof {
            let t = rules@.take(i as int);
            assert(t.drop_last() =~= rules@.take(i as int - 1));
            assert(t.last() == rules@[i as int - 1]);
        }
    }
    proof {
        assert(rules@.take(n as int) =~= rules@);
    }
    out
}

/// The in-memory store of rules and activity records. Rules are kept in
/// creation order; activity records are kept in a bounded FIFO log.
pub struct Database {
    rules: Vec<Rule>,
    activities: BoundedStore<ActivityRecord>,
    next_rule_id: i64,
    next_activity_id: i64,
}

impl Database {
    /// The stored rules, in creation order.
    pub closed spec fn rules_view(&self) -> Seq<Rule> {
        self.rules@
    }

    /// The retained activity records, oldest first.
    pub closed spec fn activities_view(&self) -> Seq<ActivityRecord> {
        self.activities@
    }

    /// The id the next created rule will receive.
    pub closed spec fn next_rule_id_spec(&self) -> int {
        self.next_rule_id as int
    }

    /// The id the next logged activity will receive.
    pub closed spec fn next_activity_id_spec(&self) -> int {
        self.next_activity_id as int
    }

    /// Well-formedness: ids are allocated monotonically and never reused
    /// (every stored id lies below the id counter, and stored ids strictly
    /// increase in creation order), and the activity log never exceeds its
    /// capacity.
    pub closed spec fn wf(&self) -> bool {
        &&& 1 <= self.next_rule_id
        &&& 1 <= self.next_activity_id
        &&& ids_increasing(self.rules@)
        &&& forall|i: int| 0 <= i < self.rules@.len() ==> self.rules@[i].id < self.next_rule_id
        &&& activity_ids_increasing(self.activities@)
        &&& forall|i: int|
            0 <= i < self.activities@.len() ==> self.activities@[i].id < self.next_activity_id
        &&& self.activities.wf()
        &&& self.activities.cap() == ACTIVITY_LOG_CAPACITY
    }

    pub fn new() -> (r: Self)
        ensures
            r.wf(),
            r.rules_view() == Seq::<Rule>::empty(),
            r.activities_view() == Seq::<ActivityRecord>::empty(),
            r.next_rule_id_spec() == 1,
            r.next_activity_id_spec() == 1,
    {
        Database {
            rules: Vec::new(),
            activities: BoundedStore::new(ACTIVITY_LOG_CAPACITY),
            next_rule_id: 1,
            next_activity_id: 1,
        }
    }

    /// Creates a rule with the given creation timestamp: allocates the next
    /// id (strictly above every id ever handed out), stores the rule active,
    /// and returns a copy.
    pub fn create_rule_at(&mut self, new_rule: NewRule, now_ms: i64) -> (r: Rule)
        requires
            old(self).wf(),
            old(self).next_rule_id_spec() < i64::MAX,
        ensures
            final(self).wf(),
            r.id == old(self).next_rule_id_spec(),
            r.name == new_rule.name,
            r.natural_language == new_rule.natural_language,
            r.rule_json == new_rule.rule_json,
            r.is_active == true,
            r.created_at == now_ms,
            final(self).rules_view() == old(self).rules_view().push(r),
            final(self).next_rule_id_spec() == old(self).next_rule_id_spec() + 1,
            forall|i: int|
                0 <= i < old(self).rules_view().len() ==> old(self).rules_view()[i].id < r.id,
            final(self).activities_view() == old(self).activities_view(),
            final(self).next_activity_id_spec() == old(self).next_activity_id_spec(),
    {
        let rule_id = self.next_rule_id;
        self.next_rule_id = self.next_rule_id + 1;
        let rule = Rule {
            id: rule_id,
            name: new_rule.name,
            natural_language: new_rule.natural_language,
            rule_json: new_rule.rule_json,
            is_active: true,
            created_at: now_ms,
        };
        let copy = rule.clone();
        self.rules.push(rule);
        copy
    }

    /// Creates a rule stamped with the current wall-clock time. The clock's
    /// value is not pinned; everything else about the new rule is.
    pub fn create_rule(&mut self, new_rule: NewRule) -> (r: Rule)
        requires
            old(self).wf(),
            old(self).next_rule_id_spec() < i64::MAX,
        ensures
            final(self).wf(),
            r.id == old(self).next_rule_id_spec(),
            r.name == new_rule.name,
            r.natural_language == new_rule.natural_language,
            r.rule_json == new_rule.rule_json,
            r.is_active == true,
            final(self).rules_view() == old(self).rules_view().push(r),
            final(self).next_rule_id_spec() == old(self).next_rule_id_spec() + 1,
            forall|i: int|
                0 <= i < old(self).rules_view().len() ==> old(self).rules_view()[i].id < r.id,
            final(self).activities_view() == old(self).activities_view(),
            final(self).next_activity_id_spec() == old(self).next_activity_id_spec(),
    {
        let now_ms = now_millis();
        self.create_rule_at(new_rule, now_ms)
    }

    /// Flips the activation flag of the rule carrying `rule_id`; `NotFound`
    /// (and no state change) exactly when no stored rule carries that id.
    pub fn toggle_rule(&mut self, rule_id: i64) -> (r: Result<(), StoreError>)
        requires
            old(self).wf(),
        ensures
            final(self).wf(),
            has_rule_id(old(self).rules_view(), rule_id) ==> r == Result::<(), StoreError>::Ok(())
                && final(self).rules_view() == toggle_in(old(self).rules_view(), rule_id),
            !has_rule_id(old(self).rules_view(), rule_id) ==> r == Result::<(), StoreError>::Err(
                StoreError::NotFound,
            ) && *final(self) == *old(self),
            final(self).activities_view() == old(self).activities_view(),
            final(self).next_rule_id_spec() == old(self).next_rule_id_spec(),
            final(self).next_activity_id_spec() == old(self).next_activity_id_spec(),
    {
        let n = self.rules.len();
        let mut i: usize = 0;
        while i < n
            invariant
                old(self).wf(),
                n == self.rules@.len(),
                i <= n,
                *self == *old(self),
                forall|k: int| 0 <= k < i ==> self.rules@[k].id != rule_id,
            decreases n - i,
        {
            if self.rules[i].id == rule_id {
                proof {
                    assert(old(self).rules@[i as int].id == rule_id);
                }
                let mut picked = self.rules.remove(i);
                picked.is_active = !picked.is_active;
                self.rules.insert(i, picked);
                proof {
                    let s = old(self).rules@;
                    assert forall|k: int| 0 <= k < s.len() implies self.rules@[k] == toggle_in(
                        s,
                        rule_id,
                    )[k] by {
                        if k < i {
                            lemma_ids_increasing_at(s, k, i as int);
                        } else if k > i {
                            lemma_ids_increasing_at(s, i as int, k);
                        }
                    }
                    assert(self.rules@ =~= toggle_in(s, rule_id));
                    assert forall|a: int, b: int|
                        0 <= a < b < self.rules@.len() implies self.rules@[a].id
                        < self.rules@[b].id by {
                        assert(self.rules@[a] == toggle_in(s, rule_id)[a]);
                        assert(self.rules@[b] == toggle_in(s, rule_id)[b]);
                        lemma_ids_increasing_at(s, a, b);
                    }
                    assert forall|k: int| 0 <= k < self.rules@.len() implies self.rules@[k].id
                        < self.next_rule_id by {
                        assert(self.rules@[k] == toggle_in(s, rule_id)[k]);
                        assert(s[k].id < self.next_rule_id);
                    }
                }
                return Ok(());
            }
            i += 1;
        }
        Err(StoreError::NotFound)
    }

    /// Removes the rule carrying `rule_id`; `NotFound` (and no state change)
    /// exactly when no stored rule carries that id. The id is never handed
    /// out again: the id counter is untouched.
    pub fn delete_rule(&mut self, rule_id: i64) -> (r: Result<(), StoreError>)
        requires
            old(self).wf(),
        ensures
            final(self).wf(),
            has_rule_id(old(self).rules_view(), rule_id) ==> r == Result::<(), StoreError>::Ok(())
                && final(self).rules_view() == old(self).rules_view().remove(
                rule_index(old(self).rules_view(), rule_id),
            ),
            !has_rule_id(old(self).rules_view(), rule_id) ==> r == Result::<(), StoreError>::Err(
                StoreError::NotFound,
            ) && *final(self) == *old(self),
            final(self).activities_view() == old(self).activities_view(),
            final(self).next_rule_id_spec() == old(self).next_rule_id_spec(),
            final(self).next_activity_id_spec() == old(self).next_activity_id_spec(),
    {
        let n = self.rules.len();
        let mut i: usize = 0;
        while i < n
            invariant
                old(self).wf(),
                n == self.rules@.len(),
                i <= n,
                *self == *old(self),
                forall|k: int| 0 <= k < i ==> self.rules@[k].id != rule_id,
            decreases n - i,
        {
            if self.rules[i].id == rule_id {
                proof {
                    assert(old(self).rules@[i as int].id == rule_id);
                }
                self.rules.remove(i);
                proof {
                    let s = old(self).rules@;
                    let ri = rule_index(s, rule_id);
                    assert(0 <= ri < s.len() && s[ri].id == rule_id) by {
                        assert(s[i as int].id == rule_id);
                    }
                    assert(ri == i) by {
                        if ri < i {
                            lemma_ids_increasing_at(s, ri, i as int);
                        } else if ri > i {
                            lemma_ids_increasing_at(s, i as int, ri);
                        }
                    }
                    assert forall|a: int, b: int|
                        0 <= a < b < self.rules@.len() implies self.rules@[a].id
                        < self.rules@[b].id by {
                        let oa: int = if a < i { a } else { a + 1 };
                        let ob: int = if b < i { b } else { b + 1 };
                        assert(self.rules@[a] == s[oa]);
                        assert(self.rules@[b] == s[ob]);
                        lemma_ids_increasing_at(s, oa, ob);
                    }
                    assert forall|k: int| 0 <= k < self.rules@.len() implies self.rules@[k].id
                        < self.next_rule_id by {
                        let ok: int = if k < i { k } else { k + 1 };
                        assert(self.rules@[k] == s[ok]);
                        assert(s[ok].id < self.next_rule_id);
                    }
                }
                return Ok(());
            }
            i += 1;
        }
        Err(StoreError::NotFound)
    }

    /// The id the next created rule will receive.
    pub fn next_rule_id(&self) -> (r: i64)
        ensures
            r == self.next_rule_id_spec(),
    {
        self.next_rule_id
    }

    /// The id the next logged activity will receive.
    pub fn next_activity_id(&self) -> (r: i64)
        ensures
            r == self.next_activity_id_spec(),
    {
        self.next_activity_id
    }

    /// Every stored rule, most recently created first; rules sharing a
    /// creation timestamp come in creation order.
    pub fn get_all_rules(&self) -> (r: Vec<Rule>)
        ensures
            r@ == sort_desc(self.rules_view()),
    {
        sorted_by_created_desc(&self.rules)
    }

    /// The active rules, most recently created first; rules sharing a
    /// creation timestamp come in creation order.
    pub fn get_active_rules(&self) -> (r: Vec<Rule>)
        ensures
            r@ == sort_desc(self.rules_view().filter(|x: Rule| x.is_active)),
    {
        let mut active: Vec<Rule> = Vec::new();
        let n = self.rules.len();
        let mut i: usize = 0;
        while i < n
            invariant
                n == self.rules@.len(),
                i <= n,
                active@ == self.rules@.take(i as int).filter(|x: Rule| x.is_active),
            decreases n - i,
        {
            if self.rules[i].is_active {
                active.push(self.rules[i].clone());
            }
            i += 1;
            proof {
                let t = self.rules@.take(i as int);
                assert(t.drop_last() =~= self.rules@.take(i as int - 1));
                assert(t.last() == self.rules@[i as int - 1]);
                reveal_with_fuel(Seq::filter, 2);
            }
        }
        proof {
            assert(self.rules@.take(n as int) =~= self.rules@);
        }
        sorted_by_created_desc(&active)
    }

    /// Appends an activity record under a fresh id and returns that id; once
    /// the log holds `ACTIVITY_LOG_CAPACITY` records the oldest is evicted.
    pub fn log_activity(&mut self, new_activity: NewActivityRecord) -> (r: i64)
        requires
            old(self).wf(),
            old(self).next_activity_id_spec() < i64::MAX,
        ensures
            final(self).wf(),
            r == old(self).next_activity_id_spec(),
            final(self).next_activity_id_spec() == old(self).next_activity_id_spec() + 1,
            final(self).activities_view() == evict_to(
                ACTIVITY_LOG_CAPACITY as int,
                old(self).activities_view().push(activity_record_of(new_activity, r)),
            ),
            forall|i: int|
                0 <= i < old(self).activities_view().len() ==> old(self).activities_view()[i].id
                    < r,
            final(self).rules_view() == old(self).rules_view(),
            final(self).next_rule_id_spec() == old(self).next_rule_id_spec(),
    {
        let ghost na = new_activity;
        let activity_id = self.next_activity_id;
        self.next_activity_id = self.next_activity_id + 1;
        let record = ActivityRecord {
            id: activity_id,
            timestamp: new_activity.timestamp,
            activity: new_activity.activity,
            productive: new_activity.productive,
            app: new_activity.app,
            bundle_id: new_activity.bundle_id,
            domain: new_activity.domain,
        };
        let ghost grec = record;
        self.activities.push(record);
        proof {
            let s = old(self).activities@;
            let pushed = s.push(grec);
            let cap = ACTIVITY_LOG_CAPACITY as int;
            let ev = evict_to(cap, pushed);
            assert(grec == activity_record_of(na, activity_id));
            let d: int = if pushed.len() <= cap {
                0
            } else {
                pushed.len() - cap
            };
            assert forall|a: int, b: int| 0 <= a < b < ev.len() implies ev[a].id < ev[b].id by {
                let pa = a + d;
                let pb = b + d;
                assert(ev[a] == pushed[pa]);
                assert(ev[b] == pushed[pb]);
                if pb == pushed.len() - 1 {
                    assert(pushed[pb] == grec);
                    assert(pushed[pa] == s[pa]);
                    assert(s[pa].id < activity_id);
                } else {
                    assert(pushed[pa] == s[pa]);
                    assert(pushed[pb] == s[pb]);
                    lemma_activity_ids_increasing_at(s, pa, pb);
                }
            }
            assert forall|k: int| 0 <= k < ev.len() implies ev[k].id < self.next_activity_id by {
                let pk = k + d;
                assert(ev[k] == pushed[pk]);
                if pk == pushed.len() - 1 {
                    assert(pushed[pk] == grec);
                } else {
                    assert(pushed[pk] == s[pk]);
                }
            }
        }
        activity_id
    }

    /// The last `min(limit, size)` activity records in chronological order
    /// (oldest of the window first); empty when `limit <= 0`.
    pub fn get_recent_activities(&self, limit: i64) -> (r: Vec<ActivityRecord>)
        requires
            self.wf(),
        ensures
            r@ == recent_window(self.activities_view(), limit as int),
    {
        proof {
            self.activities.lemma_wf_len();
        }
        let n = self.activities.len();
        if limit <= 0 {
            let empty: Vec<ActivityRecord> = Vec::new();
            return empty;
        }
        let start: usize = if limit >= (n as i64) {
            0
        } else {
            n - (limit as usize)
        };
        let mut out: Vec<ActivityRecord> = Vec::new();
        let mut i: usize = start;
        while i < n
            invariant
                self.wf(),
                n == self.activities_view().len(),
                start <= i <= n,
                out@ == self.activities_view().subrange(start as int, i as int),
            decreases n - i,
        {
            out.push(self.activities.get(i).clone());
            i += 1;
            proof {
                assert(self.activities_view().subrange(start as int, i as int) =~= self
                    .activities_view()
                    .subrange(start as int, i as int - 1)
                    .push(self.activities_view()[i as int - 1]));
            }
        }
        proof {
            assert(self.activities_view().subrange(start as int, n as int) =~= recent_window(
                self.activities_view(),
                limit as int,
            ));
        }
        out
    }

    /// Exactly the activity records whose timestamp lies in the inclusive
    /// range `[start_time, end_time]`, in stored (chronological) order;
    /// empty whenever `start_time > end_time`.
    pub fn get_activities_in_range(&self, start_time: i64, end_time: i64) -> (r: Vec<
        ActivityRecord,
    >)
        ensures
            r@ == self.activities_view().filter(
                |a: ActivityRecord| in_time_range(a, start_time, end_time),
            ),
            start_time > end_time ==> r@.len() == 0,
    {
        let n = self.activities.len();
        let mut out: Vec<ActivityRecord> = Vec::new();
        let mut i: usize = 0;
        while i < n
            invariant
                n == self.activities_view().len(),
                i <= n,
                out@ == self.activities_view().take(i as int).filter(
                    |a: ActivityRecord| in_time_range(a, start_time, end_time),
                ),
            decreases n - i,
        {
            let a = self.activities.get(i);
            if start_time <= a.timestamp && a.timestamp <= end_time {
                out.push(a.clone());
            }
            i += 1;
            proof {
                let t = self.activities_view().take(i as int);
                assert(t.drop_last() =~= self.activities_view().take(i as int - 1));
                assert(t.last() == self.activities_view()[i as int - 1]);
                reveal_with_fuel(Seq::filter, 2);
            }
        }
        proof {
            assert(self.activities_view().take(n as int) =~= self.activities_view());
            if start_time > end_time {
                let pred = |a: ActivityRecord| in_time_range(a, start_time, end_time);
                self.activities_view().lemma_all_neg_filter_empty(pred);
            }
        }
        out
    }
}

/// The sequence is ordered by creation timestamp, newest first.
pub open spec fn ordered_newest_first(s: Seq<Rule>) -> bool {
    forall|i: int, j: int| 0 <= i < j < s.len() ==> s[i].created_at >= s[j].created_at
}

proof fn lemma_sorted_created_at(s: Seq<Rule>, a: int, b: int)
    requires
        ordered_newest_first(s),
        0 <= a < b < s.len(),
    ensures
        s[a].created_at >= s[b].created_at,
{
}

proof fn lemma_insert_desc_position(r: Rule, s: Seq<Rule>)
    ensures
        exists|j: int|
            0 <= j <= s.len() && (forall|k: int| 0 <= k < j ==> s[k].created_at >= r.created_at)
                && (j < s.len() ==> s[j].created_at < r.created_at) && #[trigger] s.insert(j, r)
                == insert_desc(r, s),
    decreases s.len(),
{
    if s.len() > 0 && s[0].created_at >= r.created_at {
        lemma_insert_desc_position(r, s.drop_first());
        let t = s.drop_first();
        let j0 = choose|j: int|
            0 <= j <= t.len() && (forall|k: int| 0 <= k < j ==> t[k].created_at >= r.created_at)
                && (j < t.len() ==> t[j].created_at < r.created_at) && #[trigger] t.insert(j, r)
                == insert_desc(r, t);
        let j = j0 + 1;
        assert forall|k: int| 0 <= k < j implies s[k].created_at >= r.created_at by {
            if k > 0 {
                assert(s[k] == t[k - 1]);
            }
        }
        assert(s.insert(j, r) =~= seq![s[0]] + t.insert(j0, r));
        assert(s.insert(j, r) == insert_desc(r, s));
    } else {
        assert(s.insert(0, r) =~= seq![r] + s);
        assert(s.insert(0, r) == insert_desc(r, s));
    }
}

/// Law: the sequences the rule listings return are sorted by creation
/// timestamp, newest first (ties keep their relative order by
/// construction of `insert_desc`).
pub proof fn lemma_sort_desc_sorted(s: Seq<Rule>)
    ensures
        ordered_newest_first(sort_desc(s)),
    decreases s.len(),
{
    if s.len() > 0 {
        lemma_sort_desc_sorted(s.drop_last());
        let t = sort_desc(s.drop_last());
        let r = s.last();
        lemma_insert_desc_position(r, t);
        let j = choose|j: int|
            0 <= j <= t.len() && (forall|k: int| 0 <= k < j ==> t[k].created_at >= r.created_at)
                && (j < t.len() ==> t[j].created_at < r.created_at) && #[trigger] t.insert(j, r)
                == insert_desc(r, t);
        let out = t.insert(j, r);
        assert forall|a: int, b: int|
            0 <= a < b < out.len() implies out[a].created_at >= out[b].created_at by {
            if a < j && b < j {
                assert(out[a] == t[a] && out[b] == t[b]);
                lemma_sorted_created_at(t, a, b);
            } else if a < j && b == j {
                assert(out[a] == t[a] && out[b] == r);
            } else if a < j && b > j {
                assert(out[a] == t[a] && out[b] == t[b - 1]);
                lemma_sorted_created_at(t, a, b - 1);
            } else if a == j && b > j {
                assert(out[a] == r && out[b] == t[b - 1]);
                if b - 1 == j {
                    assert(t[j].created_at < r.created_at);
                } else {
                    assert(t[j].created_at < r.created_at);
                    lemma_sorted_created_at(t, j, b - 1);
                }
            } else {
                assert(out[a] == t[a - 1] && out[b] == t[b - 1]);
                lemma_sorted_created_at(t, a - 1, b - 1);
            }
        }
        assert(sort_desc(s) == out);
    }
}

/// Law: the sorted listing is a permutation of the stored rules: same
/// rules, same multiplicities, nothing added or lost.
pub proof fn lemma_sort_desc_permutes(s: Seq<Rule>)
    ensures
        sort_desc(s).to_multiset() == s.to_multiset(),
    decreases s.len(),
{
    broadcast use vstd::seq_lib::group_to_multiset_ensures;

    if s.len() > 0 {
        lemma_sort_desc_permutes(s.drop_last());
        let t = sort_desc(s.drop_last());
        let r = s.last();
        lemma_insert_desc_position(r, t);
        let j = choose|j: int|
            0 <= j <= t.len() && (forall|k: int| 0 <= k < j ==> t[k].created_at >= r.created_at)
                && (j < t.len() ==> t[j].created_at < r.created_at) && #[trigger] t.insert(j, r)
                == insert_desc(r, t);
        let out = t.insert(j, r);
        assert(out.remove(j) =~= t);
        assert(out[j] == r);
        assert(out.to_multiset().remove(r) =~= t.to_multiset());
        assert(out.contains(r));
        assert(out.to_multiset().count(r) > 0);
        assert(out.to_multiset() =~= t.to_multiset().insert(r));
        assert(s =~= s.drop_last().push(r));
        assert(s.to_multiset() =~= s.drop_last().to_multiset().insert(r));
    }
}

/// Law: toggling the same id twice restores the table exactly; in
/// particular every rule's activation flag is back to its original value.
pub proof fn lemma_toggle_involutive(s: Seq<Rule>, id: i64)
    ensures
        toggle_in(toggle_in(s, id), id) == s,
{
    let once = toggle_in(s, id);
    let twice = toggle_in(once, id);
    assert forall|k: int| 0 <= k < s.len() implies twice[k] == s[k] by {
        assert(once[k] == if s[k].id == id {
            flip_active(s[k])
        } else {
            s[k]
        });
    }
    assert(twice =~= s);
}

/// Law: ids are never reused within a process lifetime: the id the next
/// create will hand out lies strictly above every stored rule's id, and
/// neither toggling nor deleting lowers the counter.
pub proof fn lemma_next_id_fresh(db: &Database)
    requires
        db.wf(),
    ensures
        forall|i: int|
            0 <= i < db.rules_view().len() ==> db.rules_view()[i].id < db.next_rule_id_spec(),
{
}

/// Law: in a well-formed database no two stored rules share an id, so an
/// id identifies at most one rule.
pub proof fn lemma_rule_ids_unique(db: &Database)
    requires
        db.wf(),
    ensures
        forall|i: int, j: int|
            0 <= i < db.rules_view().len() && 0 <= j < db.rules_view().len() && i != j
                ==> db.rules_view()[i].id != db.rules_view()[j].id,
{
}

} // verus!
