//! Counters, not scans.
//!
//! Every aggregate is a row in `scope_counter`, moved by the same
//! transaction as the row that changes it, and `stats` is one statement over
//! at most one row per kind and status.

use vstd::prelude::*;

use crate::error::Error;
use crate::scope::{spec_scope_id, Scope, ScopeId};
use crate::text::{
    cat3, lemma_text_lt_asymmetric, lemma_text_lt_irreflexive, lemma_text_lt_total,
    lemma_text_lt_transitive, str_lt, text_lt,
};
use crate::sql::{sql_step, text, Statement, StepView, TxnBuilder, Value, ValueView};
use crate::types::{kind_label, status_label, MemoryKind, Status};

verus! {

/// One upsert: the counter for this scope, kind and status moves by `$4`,
/// never below zero.
pub const ADJUST_SQL: &'static str = "INSERT INTO scope_counter (scope_id, kind, status, count)
    VALUES ($1, $2, $3, $4)
    ON CONFLICT (scope_id, kind, status)
    DO UPDATE SET count = max(0, scope_counter.count + $4)";

/// The whole of `stats`: one statement, one scope, no memory table.
pub const STATS_SQL: &'static str = "SELECT kind, status, count FROM scope_counter WHERE scope_id = $1";

/// The step that moves one counter by `delta`.
pub open spec fn adjust_step(scope: Seq<char>, kind: MemoryKind, status: Status, delta: i64) -> StepView {
    sql_step(
        ADJUST_SQL@,
        seq![text(scope), text(kind_label(kind)), text(status_label(status)), ValueView::Integer(delta)],
    )
}

/// The `scope_counter` table.
#[derive(Clone, Copy, Debug, Default, PartialEq, Eq)]
pub struct Counters;

impl Counters {
    /// Stage the counter move for a memory entering `status`.
    pub fn adjust(txn: &mut TxnBuilder, scope: &ScopeId, kind: MemoryKind, status: &Status, delta: i64)
        ensures
            final(txn)@ == old(txn)@.push(adjust_step(scope@, kind, *status, delta)),
    {
        let st = Statement::with_params(
            ADJUST_SQL,
            vec![scope.value(), Value::text(kind.label()), Value::text(status.label()), Value::Integer(delta)],
        );
        assert(st@.params =~= adjust_step(scope@, kind, *status, delta)->Sql_0.params);
        txn.push(st);
    }

    /// Stage the counter move for one new memory.
    pub fn increment(txn: &mut TxnBuilder, scope: &ScopeId, kind: MemoryKind, status: &Status)
        ensures
            final(txn)@ == old(txn)@.push(adjust_step(scope@, kind, *status, 1)),
    {
        Self::adjust(txn, scope, kind, status, 1);
    }

    /// The statement `stats` runs: one read of the scope's counter rows.
    pub fn stats_statement(scope: &Scope) -> (st: Statement)
        ensures
            st@.sql == STATS_SQL@,
            st@.params == seq![text(spec_scope_id(*scope))],
    {
        let st = Statement::with_params(STATS_SQL, vec![ScopeId::of(scope).value()]);
        assert(st@.params =~= seq![text(spec_scope_id(*scope))]);
        st
    }
}

/// One row of `scope_counter`, as the stats read hands it back.
#[derive(Debug)]
pub struct CounterRow {
    /// The kind's label.
    pub kind: String,
    /// The state's label.
    pub status: String,
    /// The count the row holds.
    pub count: i64,
}

/// The maintained aggregates of one scope: bounded by the taxonomies rather
/// than by the data, with at most one entry per kind and one per state, each
/// label appearing once, in ascending label order.
#[derive(Debug)]
pub struct ScopeStats {
    /// Every memory the scope holds, in any state.
    pub total: u64,
    /// How many of each kind, by label.
    pub by_kind: Vec<(String, u64)>,
    /// How many in each state, by label.
    pub by_status: Vec<(String, u64)>,
}

/// An aggregate list, as the contracts speak of it.
pub open spec fn entries_view(v: Seq<(String, u64)>) -> Seq<(Seq<char>, u64)> {
    v.map_values(|e: (String, u64)| (e.0@, e.1))
}

/// `a + b`, saturating at `u64::MAX`.
pub open spec fn sat_add(a: u64, b: u64) -> u64 {
    if a + b > u64::MAX {
        u64::MAX
    } else {
        (a + b) as u64
    }
}

/// Whether `key` has an entry.
pub open spec fn has_key(list: Seq<(Seq<char>, u64)>, key: Seq<char>) -> bool {
    exists|i: int| 0 <= i < list.len() && list[i].0 == key
}

/// No label appears twice.
pub open spec fn keys_distinct(list: Seq<(Seq<char>, u64)>) -> bool {
    forall|i: int, j: int| 0 <= i < j < list.len() ==> list[i].0 != list[j].0
}

/// The labels are in ascending order, each one once.
pub open spec fn keys_sorted(list: Seq<(Seq<char>, u64)>) -> bool {
    forall|i: int, j: int| 0 <= i < j < list.len() ==> text_lt(list[i].0, list[j].0)
}

/// Where a new entry for `key` goes: before the first entry whose label does
/// not sort before it.
pub open spec fn insert_pos(list: Seq<(Seq<char>, u64)>, key: Seq<char>) -> int
    decreases list.len(),
{
    if list.len() == 0 {
        0
    } else if text_lt(list[0].0, key) {
        1 + insert_pos(list.drop_first(), key)
    } else {
        0
    }
}

/// `list` with `count` added to `key`'s entry, or with a new entry for `key`
/// in its place in label order when it has none.
pub open spec fn add_entry(list: Seq<(Seq<char>, u64)>, key: Seq<char>, count: u64) -> Seq<(Seq<char>, u64)> {
    if has_key(list, key) {
        Seq::new(
            list.len(),
            |j: int|
                if list[j].0 == key {
                    (key, sat_add(list[j].1, count))
                } else {
                    list[j]
                },
        )
    } else {
        list.insert(insert_pos(list, key), (key, count))
    }
}

/// The first `i` labels sort before `key` and the next does not: `i` is
/// where `key` goes.
proof fn lemma_insert_pos(list: Seq<(Seq<char>, u64)>, key: Seq<char>, i: int)
    requires
        0 <= i <= list.len(),
        forall|j: int| 0 <= j < i ==> text_lt(#[trigger] list[j].0, key),
        i < list.len() ==> !text_lt(list[i].0, key),
    ensures
        insert_pos(list, key) == i,
    decreases i,
{
    if i > 0 {
        let rest = list.drop_first();
        assert forall|j: int| 0 <= j < i - 1 implies text_lt(#[trigger] rest[j].0, key) by {
            assert(rest[j] == list[j + 1]);
        }
        if i < list.len() {
            assert(rest[i - 1] == list[i]);
        }
        lemma_insert_pos(rest, key, i - 1);
    }
}

/// Sorted labels are distinct.
proof fn lemma_sorted_distinct(list: Seq<(Seq<char>, u64)>)
    requires
        keys_sorted(list),
    ensures
        keys_distinct(list),
{
    assert forall|i: int, j: int| 0 <= i < j < list.len() implies list[i].0 != list[j].0 by {
        lemma_text_lt_irreflexive(list[i].0);
    }
}

/// The aggregates of a run of counter rows, or `None` when one of them holds
/// a negative count.
pub open spec fn spec_stats(rows: Seq<CounterRow>) -> Option<(u64, Seq<(Seq<char>, u64)>, Seq<(Seq<char>, u64)>)>
    decreases rows.len(),
{
    if rows.len() == 0 {
        Some((0u64, Seq::empty(), Seq::empty()))
    } else {
        match spec_stats(rows.drop_last()) {
            None => None,
            Some((total, by_kind, by_status)) => {
                let row = rows.last();
                if row.count < 0 {
                    None
                } else {
                    let c = row.count as u64;
                    Some((sat_add(total, c), add_entry(by_kind, row.kind@, c), add_entry(by_status, row.status@, c)))
                }
            },
        }
    }
}

impl ScopeStats {
    /// The aggregates, as the contracts speak of them.
    pub open spec fn view_parts(&self) -> (u64, Seq<(Seq<char>, u64)>, Seq<(Seq<char>, u64)>) {
        (self.total, entries_view(self.by_kind@), entries_view(self.by_status@))
    }
}

impl Default for ScopeStats {
    fn default() -> (s: ScopeStats)
        ensures
            s.total == 0,
            s.by_kind@.len() == 0,
            s.by_status@.len() == 0,
    {
        ScopeStats { total: 0, by_kind: Vec::new(), by_status: Vec::new() }
    }
}

/// Add `count` to `key`'s entry, keeping the labels in order.
fn add_to(list: &mut Vec<(String, u64)>, key: &String, count: u64)
    requires
        keys_sorted(entries_view(old(list)@)),
    ensures
        entries_view(final(list)@) == add_entry(entries_view(old(list)@), key@, count),
        keys_sorted(entries_view(final(list)@)),
        keys_distinct(entries_view(final(list)@)),
{
    let ghost before = entries_view(list@);
    let mut i: usize = 0;
    while i < list.len()
        invariant
            i <= list@.len(),
            entries_view(list@) == before,
            before == entries_view(old(list)@),
            keys_sorted(before),
            forall|j: int| 0 <= j < i ==> text_lt(#[trigger] before[j].0, key@),
        decreases list@.len() - i,
    {
        proof {
            assert(before[i as int].0 == list@[i as int].0@);
        }
        if list[i].0 == *key {
            let v = list[i].1;
            let sum = v.saturating_add(count);
            proof {
                assert(before[i as int].0 == key@);
                assert(has_key(before, key@));
            }
            list.set(i, (key.clone(), sum));
            proof {
                assert forall|j: int| 0 <= j < before.len() && j != i implies before[j].0 != key@ by {
                    lemma_text_lt_irreflexive(key@);
                    if j > i {
                        assert(text_lt(before[i as int].0, before[j].0));
                    }
                }
                assert(entries_view(list@) =~= add_entry(before, key@, count));
                assert(keys_sorted(entries_view(list@))) by {
                    assert forall|a: int, b: int| 0 <= a < b < entries_view(list@).len() implies text_lt(
                        entries_view(list@)[a].0,
                        entries_view(list@)[b].0,
                    ) by {
                        assert(entries_view(list@)[a].0 == before[a].0);
                        assert(entries_view(list@)[b].0 == before[b].0);
                    }
                }
                lemma_sorted_distinct(entries_view(list@));
            }
            return;
        }
        if str_lt(key.as_str(), list[i].0.as_str()) {
            proof {
                lemma_text_lt_asymmetric(key@, before[i as int].0);
                lemma_insert_pos(before, key@, i as int);
                assert(!has_key(before, key@)) by {
                    lemma_text_lt_irreflexive(key@);
                    if has_key(before, key@) {
                        let c = choose|c: int| 0 <= c < before.len() && before[c].0 == key@;
                        if c < i {
                            assert(text_lt(before[c].0, key@));
                        } else if c > i {
                            assert(text_lt(before[i as int].0, before[c].0));
                            lemma_text_lt_transitive(key@, before[i as int].0, before[c].0);
                        }
                    }
                }
            }
            list.insert(i, (key.clone(), count));
            proof {
                let after = entries_view(list@);
                assert(after =~= before.insert(i as int, (key@, count)));
                assert forall|a: int, b: int| 0 <= a < b < after.len() implies text_lt(after[a].0, after[b].0) by {
                    if b < i {
                    } else if b == i {
                        assert(after[a].0 == before[a].0);
                    } else if a == i {
                        assert(after[b].0 == before[b - 1].0);
                        if b - 1 > i {
                            assert(text_lt(before[i as int].0, before[b - 1].0));
                            lemma_text_lt_transitive(key@, before[i as int].0, before[b - 1].0);
                        }
                    } else if a < i {
                        assert(after[a].0 == before[a].0);
                        assert(after[b].0 == before[b - 1].0);
                    } else {
                        assert(after[a].0 == before[a - 1].0);
                        assert(after[b].0 == before[b - 1].0);
                    }
                }
                lemma_sorted_distinct(after);
            }
            return;
        }
        proof {
            lemma_text_lt_total(key@, before[i as int].0);
        }
        i = i + 1;
    }
    proof {
        lemma_insert_pos(before, key@, i as int);
        lemma_text_lt_irreflexive(key@);
        if has_key(before, key@) {
            let c = choose|c: int| 0 <= c < before.len() && before[c].0 == key@;
            assert(text_lt(before[c].0, key@));
        }
    }
    list.push((key.clone(), count));
    proof {
        let after = entries_view(list@);
        assert(after =~= before.insert(i as int, (key@, count)));
        assert forall|a: int, b: int| 0 <= a < b < after.len() implies text_lt(after[a].0, after[b].0) by {
            if b < i {
            } else {
                assert(after[a].0 == before[a].0);
            }
        }
        lemma_sorted_distinct(after);
    }
}

impl Counters {
    /// The scope's aggregates from the rows the stats read returned: the
    /// total, and the count of each kind and each state, each sum saturating
    /// at `u64::MAX`.
    ///
    /// Refused with [`Error::Integrity`] when a row holds a negative count.
    pub fn stats_from_rows(rows: Vec<CounterRow>) -> (r: Result<ScopeStats, Error>)
        ensures
            spec_stats(rows@) is None ==> (r matches Err(e) && e is Integrity),
            spec_stats(rows@) matches Some(parts) ==> (r matches Ok(st) && st.view_parts() == parts
                && keys_sorted(parts.1) && keys_sorted(parts.2) && keys_distinct(parts.1)
                && keys_distinct(parts.2)),
    {
        let mut stats = ScopeStats::default();
        let ghost all = rows@;
        let mut i: usize = 0;
        let n = rows.len();
        proof {
            assert(entries_view(stats.by_kind@) =~= Seq::<(Seq<char>, u64)>::empty());
            assert(entries_view(stats.by_status@) =~= Seq::<(Seq<char>, u64)>::empty());
        }
        while i < n
            invariant
                n == all.len(),
                rows@ == all,
                i <= n,
                spec_stats(all.subrange(0, i as int)) == Some(stats.view_parts()),
                keys_sorted(entries_view(stats.by_kind@)),
                keys_sorted(entries_view(stats.by_status@)),
            decreases n - i,
        {
            assert(all.subrange(0, i + 1).drop_last() =~= all.subrange(0, i as int));
            let row = &rows[i];
            if row.count < 0 {
                proof {
                    assert(all.subrange(0, i + 1).last() == all[i as int]);
                    assert(spec_stats(all.subrange(0, i + 1)) is None);
                    lemma_stats_prefix_none(all, i + 1);
                    assert(spec_stats(all) is None);
                }
                let mut m = cat3("scope_counter holds a negative count for ", row.kind.as_str(), "/");
                m.append(row.status.as_str());
                return Err(Error::Integrity(m));
            }
            let c = row.count as u64;
            stats.total = stats.total.saturating_add(c);
            add_to(&mut stats.by_kind, &row.kind, c);
            add_to(&mut stats.by_status, &row.status, c);
            i = i + 1;
        }
        assert(all.subrange(0, n as int) =~= all);
        proof {
            lemma_sorted_distinct(entries_view(stats.by_kind@));
            lemma_sorted_distinct(entries_view(stats.by_status@));
        }
        Ok(stats)
    }
}

/// Rows whose prefix holds a negative count have no aggregates.
proof fn lemma_stats_prefix_none(rows: Seq<CounterRow>, n: int)
    requires
        0 <= n <= rows.len(),
        spec_stats(rows.subrange(0, n)) is None,
    ensures
        spec_stats(rows) is None,
    decreases rows.len() - n,
{
    if n == rows.len() {
        assert(rows.subrange(0, n) =~= rows);
    } else {
        assert(rows.subrange(0, n + 1).drop_last() =~= rows.subrange(0, n));
        lemma_stats_prefix_none(rows, n + 1);
    }
}

} // verus!
