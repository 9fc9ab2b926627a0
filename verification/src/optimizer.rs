//! Merging of related changes on one object into fewer records.
//!
//! Records are grouped by schema and object; groups come out in the order in
//! which their first record arrived, and within a group maximal runs of
//! mergeable records of one kind become one record each.

use vstd::prelude::*;
use crate::schema::{
    change_models, trim_text, ChangeModel, ChangeType, DetailsModel, Kind, SchemaChange,
};
use crate::text::{
    append_str, chars_of, find_reading, first_reading, joined, same_text, seek_class,
    seek_class_from, skip_class, skip_class_from, string_of, text_of, trimmed, CharClass,
};

verus! {

/// The key by which records are grouped: schema, a dot, object.
pub open spec fn group_key(c: ChangeModel) -> Seq<char> {
    c.schema_name + seq!['.'] + c.object_name
}

/// The records of `x` whose key is `k`, in order.
pub open spec fn with_key(x: Seq<ChangeModel>, k: Seq<char>) -> Seq<ChangeModel>
    decreases x.len(),
{
    if x.len() == 0 {
        Seq::empty()
    } else if group_key(x.last()) == k {
        with_key(x.drop_last(), k).push(x.last())
    } else {
        with_key(x.drop_last(), k)
    }
}

/// The records of `x` whose key is not `k`, in order.
pub open spec fn without_key(x: Seq<ChangeModel>, k: Seq<char>) -> Seq<ChangeModel>
    decreases x.len(),
{
    if x.len() == 0 {
        Seq::empty()
    } else if group_key(x.last()) == k {
        without_key(x.drop_last(), k)
    } else {
        without_key(x.drop_last(), k).push(x.last())
    }
}

/// Whether a record that follows `first` directly in its group extends the
/// run that `first` starts.
pub open spec fn joins(first: ChangeModel, next: ChangeModel) -> bool {
    match first.kind {
        Kind::AddColumn => next.kind == Kind::AddColumn,
        Kind::AlterTable => next.kind == Kind::AlterTable && next.object_name == first.object_name,
        Kind::AddConstraint => next.kind == Kind::AddConstraint && next.object_name
            == first.object_name,
        _ => false,
    }
}

/// The end of the run that starts at `i`, given that it reaches `j` at
/// least.
pub open spec fn run_end(g: Seq<ChangeModel>, i: int, j: int) -> int
    decreases g.len() - j,
{
    if 0 <= i < j < g.len() && joins(g[i], g[j]) {
        run_end(g, i, j + 1)
    } else {
        j
    }
}

/// The part of `sql` from position `at` to the end; none where the
/// position lies beyond the end.
pub open spec fn clause_from(sql: Seq<char>, at: int) -> Option<Seq<char>> {
    if 0 <= at <= sql.len() {
        Some(sql.subrange(at, sql.len() as int))
    } else {
        None
    }
}

/// The part of `sql` from the first place at which it reads as `anchor`,
/// whatever the case of its letters, to the end; none where there is no such
/// place.
pub open spec fn anchored_clause(sql: Seq<char>, anchor: Seq<char>) -> Option<Seq<char>> {
    match first_reading(sql, anchor) {
        Some(i) => clause_from(sql, i),
        None => None,
    }
}

/// What follows the table name in an `ALTER TABLE` statement whose keyword
/// begins at position `at`, trimmed: the word after the keyword is the table
/// name. None where no white space follows the table name, or where nothing
/// but white space does.
pub open spec fn clause_after_name(sql: Seq<char>, at: int) -> Option<Seq<char>> {
    let start = at + "ALTER TABLE"@.len();
    let name = skip_class(sql, CharClass::Whitespace, start);
    let end = seek_class(sql, CharClass::Whitespace, name);
    if 0 <= at && start <= sql.len() && end < sql.len() && trimmed(
        sql.subrange(end, sql.len() as int),
    ).len() > 0 {
        Some(trimmed(sql.subrange(end, sql.len() as int)))
    } else {
        None
    }
}

/// What follows the table name in an `ALTER TABLE` statement, trimmed; the
/// keyword is found in any case. None where the keyword does not occur,
/// where no white space follows the table name, or where nothing but white
/// space does.
pub open spec fn alter_clause(sql: Seq<char>) -> Option<Seq<char>> {
    match first_reading(sql, "ALTER TABLE"@) {
        Some(i) => clause_after_name(sql, i),
        None => None,
    }
}

/// The clause that a statement contributes to a merged record of kind
/// `kind`.
pub open spec fn clause_of(kind: Kind, sql: Seq<char>) -> Option<Seq<char>> {
    match kind {
        Kind::AddColumn => anchored_clause(sql, "ADD COLUMN"@),
        Kind::AddConstraint => anchored_clause(sql, "ADD CONSTRAINT"@),
        Kind::AlterTable => alter_clause(sql),
        _ => None,
    }
}

/// The clauses that the records of a run contribute, in order; a record
/// without a clause contributes nothing.
pub open spec fn clauses_of(kind: Kind, run: Seq<ChangeModel>) -> Seq<Seq<char>>
    decreases run.len(),
{
    if run.len() == 0 {
        Seq::empty()
    } else {
        match clause_of(kind, run.last().details.sql) {
            Some(c) => clauses_of(kind, run.drop_last()).push(c),
            None => clauses_of(kind, run.drop_last()),
        }
    }
}

/// The statement of a merged record: `ALTER TABLE`, the object's name, the
/// clauses joined by commas, and a semicolon.
pub open spec fn merged_sql(kind: Kind, run: Seq<ChangeModel>) -> Seq<char> {
    "ALTER TABLE "@ + run[0].object_name + " "@ + joined(clauses_of(kind, run), ", "@) + ";"@
}

/// The record that stands for a whole run: the run's first record with the
/// combined statement of kind `kind`.
pub open spec fn merged_as(kind: Kind, run: Seq<ChangeModel>) -> ChangeModel {
    ChangeModel {
        details: DetailsModel { sql: merged_sql(kind, run), ..run[0].details },
        ..run[0]
    }
}

/// The record that stands for a whole run.
pub open spec fn merged(run: Seq<ChangeModel>) -> ChangeModel {
    merged_as(run[0].kind, run)
}

/// The records of one group from position `i` on, with each run of two or
/// more merged into one record.
pub open spec fn merge_from(g: Seq<ChangeModel>, i: int) -> Seq<ChangeModel>
    decreases g.len() - i,
{
    if i < 0 || i >= g.len() {
        Seq::empty()
    } else {
        let j = run_end(g, i, i + 1);
        if i + 1 < j <= g.len() {
            seq![merged(g.subrange(i, j))] + merge_from(g, j)
        } else {
            seq![g[i]] + merge_from(g, i + 1)
        }
    }
}

/// The records of one group, with each run of two or more merged into one.
pub open spec fn merge_group(g: Seq<ChangeModel>) -> Seq<ChangeModel> {
    merge_from(g, 0)
}

/// The optimized form of a batch: the group of the first record, merged,
/// then the optimized form of the records of all other groups.
pub open spec fn optimized(x: Seq<ChangeModel>) -> Seq<ChangeModel>
    decreases x.len(),
{
    if x.len() == 0 {
        Seq::empty()
    } else if without_key(x, group_key(x[0])).len() < x.len() {
        merge_group(with_key(x, group_key(x[0]))) + optimized(without_key(x, group_key(x[0])))
    } else {
        Seq::empty()
    }
}

/// Every record has key `k`.
pub open spec fn all_keyed(x: Seq<ChangeModel>, k: Seq<char>) -> bool {
    forall|i: int| 0 <= i < x.len() ==> group_key(#[trigger] x[i]) == k
}

/// No record has key `k`.
pub open spec fn none_keyed(x: Seq<ChangeModel>, k: Seq<char>) -> bool {
    forall|i: int| 0 <= i < x.len() ==> group_key(#[trigger] x[i]) != k
}

/// No record extends the run of the record before it.
pub open spec fn settled(g: Seq<ChangeModel>) -> bool {
    forall|i: int| 0 <= i && i + 1 < g.len() ==> !joins(#[trigger] g[i], g[i + 1])
}

/// Splitting by key keeps every record on one side, and the side of a key
/// holds only records of that key.
pub proof fn lemma_split_by_key(x: Seq<ChangeModel>, k: Seq<char>)
    ensures
        with_key(x, k).len() + without_key(x, k).len() == x.len(),
        all_keyed(with_key(x, k), k),
        none_keyed(without_key(x, k), k),
        forall|q: Seq<char>| none_keyed(x, q) ==> none_keyed(without_key(x, k), q),
        x.len() > 0 && group_key(x[0]) == k ==> with_key(x, k).len() > 0,
        all_keyed(x, k) ==> with_key(x, k) == x && without_key(x, k) == Seq::<ChangeModel>::empty(),
        none_keyed(x, k) ==> without_key(x, k) == x && with_key(x, k) == Seq::<ChangeModel>::empty(),
    decreases x.len(),
{
    if x.len() > 0 {
        let y = x.drop_last();
        lemma_split_by_key(y, k);
        assert forall|q: Seq<char>| none_keyed(x, q) implies none_keyed(without_key(x, k), q) by {
            assert forall|i: int| 0 <= i < y.len() implies group_key(#[trigger] y[i]) != q by {
                assert(y[i] == x[i]);
            }
            assert(group_key(x[x.len() - 1]) != q);
            assert(none_keyed(y, q));
            let w = without_key(x, k);
            let v = without_key(y, k);
            assert(none_keyed(v, q));
            assert forall|t: int| 0 <= t < w.len() implies group_key(#[trigger] w[t]) != q by {
                if t < v.len() {
                    assert(w[t] == v[t]);
                } else {
                    assert(w[t] == x.last());
                }
            }
        }
        if y.len() > 0 {
            assert(y[0] == x[0]);
        }
        if all_keyed(x, k) {
            assert forall|i: int| 0 <= i < y.len() implies group_key(#[trigger] y[i]) == k by {
                assert(y[i] == x[i]);
            }
            assert(group_key(x[x.len() - 1]) == k);
            assert(y.push(x.last()) =~= x);
        }
        if none_keyed(x, k) {
            assert forall|i: int| 0 <= i < y.len() implies group_key(#[trigger] y[i]) != k by {
                assert(y[i] == x[i]);
            }
            assert(group_key(x[x.len() - 1]) != k);
            assert(y.push(x.last()) =~= x);
        }
    }
}

/// Splitting by key distributes over concatenation.
pub proof fn lemma_split_concat(a: Seq<ChangeModel>, b: Seq<ChangeModel>, k: Seq<char>)
    ensures
        with_key(a + b, k) == with_key(a, k) + with_key(b, k),
        without_key(a + b, k) == without_key(a, k) + without_key(b, k),
    decreases b.len(),
{
    if b.len() == 0 {
        assert(a + b =~= a);
        assert(with_key(a, k) + with_key(b, k) =~= with_key(a, k));
        assert(without_key(a, k) + without_key(b, k) =~= without_key(a, k));
    } else {
        lemma_split_concat(a, b.drop_last(), k);
        assert((a + b).drop_last() =~= a + b.drop_last());
        assert((a + b).last() == b.last());
        if group_key(b.last()) == k {
            assert((with_key(a, k) + with_key(b.drop_last(), k)).push(b.last()) =~= with_key(a, k)
                + with_key(b.drop_last(), k).push(b.last()));
        } else {
            assert((without_key(a, k) + without_key(b.drop_last(), k)).push(b.last())
                =~= without_key(a, k) + without_key(b.drop_last(), k).push(b.last()));
        }
    }
}

/// The run that starts at `i` ends within the group, and the record at its
/// end, if there is one, does not extend it.
pub proof fn lemma_run_end(g: Seq<ChangeModel>, i: int, j: int)
    requires
        0 <= i < j <= g.len(),
    ensures
        j <= run_end(g, i, j) <= g.len(),
        run_end(g, i, j) < g.len() ==> !joins(g[i], g[run_end(g, i, j)]),
        forall|t: int| j <= t < run_end(g, i, j) ==> joins(g[i], g[t]),
    decreases g.len() - j,
{
    if j < g.len() && joins(g[i], g[j]) {
        lemma_run_end(g, i, j + 1);
    }
}

/// What merging from `i` on yields: no more records than it reads, a first
/// record that agrees with `g[i]` in kind, schema and object, and no record
/// that extends the run of the one before it.
pub proof fn lemma_merge_from(g: Seq<ChangeModel>, i: int)
    requires
        0 <= i <= g.len(),
    ensures
        merge_from(g, i).len() <= g.len() - i,
        i < g.len() ==> merge_from(g, i).len() > 0 && merge_from(g, i)[0].kind == g[i].kind
            && merge_from(g, i)[0].object_name == g[i].object_name && merge_from(g, i)[0].schema_name
            == g[i].schema_name,
        settled(merge_from(g, i)),
        forall|k: Seq<char>| all_keyed(g, k) ==> all_keyed(merge_from(g, i), k),
    decreases g.len() - i,
{
    if i < g.len() {
        let j = run_end(g, i, i + 1);
        lemma_run_end(g, i, i + 1);
        let next = if i + 1 < j {
            j
        } else {
            i + 1
        };
        let head = if i + 1 < j {
            merged(g.subrange(i, j))
        } else {
            g[i]
        };
        lemma_merge_from(g, next);
        let tail = merge_from(g, next);
        let out = merge_from(g, i);
        assert(out == seq![head] + tail);
        assert(g.subrange(i, j)[0] == g[i]);
        assert(head.kind == g[i].kind && head.object_name == g[i].object_name && head.schema_name
            == g[i].schema_name);
        assert forall|t: int| 0 <= t && t + 1 < out.len() implies !joins(#[trigger] out[t], out[t + 1]) by {
            if t == 0 {
                assert(out[1] == tail[0]);
                assert(!joins(g[i], g[next]));
            } else {
                assert(out[t] == tail[t - 1]);
                assert(out[t + 1] == tail[t]);
            }
        }
        assert forall|k: Seq<char>| all_keyed(g, k) implies all_keyed(out, k) by {
            assert(group_key(g[i]) == k);
            assert(group_key(head) == group_key(g[i]));
            assert forall|t: int| 0 <= t < out.len() implies group_key(#[trigger] out[t]) == k by {
                if t > 0 {
                    assert(out[t] == tail[t - 1]);
                }
            }
        }
    }
}

/// Merging leaves a group alone in which no record extends the run of the
/// one before it.
pub proof fn lemma_merge_settled(g: Seq<ChangeModel>, i: int)
    requires
        0 <= i <= g.len(),
        settled(g),
    ensures
        merge_from(g, i) == g.subrange(i, g.len() as int),
    decreases g.len() - i,
{
    if i < g.len() {
        lemma_merge_settled(g, i + 1);
        assert(run_end(g, i, i + 1) == i + 1) by {
            if i + 1 < g.len() {
                assert(!joins(g[i], g[i + 1]));
            }
        }
        assert(seq![g[i]] + g.subrange(i + 1, g.len() as int) =~= g.subrange(i, g.len() as int));
    } else {
        assert(g.subrange(i, g.len() as int) =~= Seq::empty());
    }
}

/// Merging a group twice is merging it once.
pub proof fn lemma_merge_group_idempotent(g: Seq<ChangeModel>)
    ensures
        merge_group(merge_group(g)) == merge_group(g),
{
    lemma_merge_from(g, 0);
    let m = merge_group(g);
    lemma_merge_settled(m, 0);
    assert(m.subrange(0, m.len() as int) =~= m);
}

/// A key that no record of a batch has, no record of its optimized form has;
/// and the optimized form is no longer than the batch.
pub proof fn lemma_optimized_keys(x: Seq<ChangeModel>)
    ensures
        optimized(x).len() <= x.len(),
        forall|q: Seq<char>| none_keyed(x, q) ==> none_keyed(optimized(x), q),
    decreases x.len(),
{
    if x.len() > 0 {
        let k = group_key(x[0]);
        lemma_split_by_key(x, k);
        let g = with_key(x, k);
        let r = without_key(x, k);
        lemma_merge_from(g, 0);
        lemma_optimized_keys(r);
        let m = merge_group(g);
        let o = optimized(r);
        assert(optimized(x) == m + o);
        assert forall|q: Seq<char>| none_keyed(x, q) implies none_keyed(optimized(x), q) by {
            assert(group_key(x[0]) != q);
            assert(none_keyed(r, q));
            assert(none_keyed(o, q));
            assert forall|t: int| 0 <= t < (m + o).len() implies group_key(#[trigger] (m + o)[t]) != q by {
                if t < m.len() {
                    assert(group_key(m[t]) == k);
                } else {
                    assert((m + o)[t] == o[t - m.len()]);
                }
            }
        }
    }
}

/// The optimized form of a batch is no longer than the batch.
pub proof fn lemma_optimized_no_longer(x: Seq<ChangeModel>)
    ensures
        optimized(x).len() <= x.len(),
{
    lemma_optimized_keys(x);
}

/// Optimizing twice is optimizing once.
pub proof fn lemma_optimized_idempotent(x: Seq<ChangeModel>)
    ensures
        optimized(optimized(x)) == optimized(x),
    decreases x.len(),
{
    if x.len() > 0 {
        let k = group_key(x[0]);
        lemma_split_by_key(x, k);
        let g = with_key(x, k);
        let r = without_key(x, k);
        let m = merge_group(g);
        let o = optimized(r);
        lemma_merge_from(g, 0);
        lemma_optimized_keys(r);
        lemma_optimized_idempotent(r);
        lemma_merge_group_idempotent(g);
        let y = m + o;
        assert(optimized(x) == y);
        assert(y[0] == m[0]);
        assert(group_key(y[0]) == k);
        lemma_split_concat(m, o, k);
        lemma_split_by_key(m, k);
        lemma_split_by_key(o, k);
        assert(with_key(y, k) =~= m);
        assert(without_key(y, k) =~= o);
        assert(o.len() < y.len());
    }
}

/// Records whose keys differ pairwise are never merged: the batch comes out
/// as it went in.
pub proof fn lemma_distinct_objects_unchanged(x: Seq<ChangeModel>)
    requires
        forall|i: int, j: int| 0 <= i < j < x.len() ==> group_key(x[i]) != group_key(x[j]),
    ensures
        optimized(x) == x,
    decreases x.len(),
{
    if x.len() > 0 {
        let k = group_key(x[0]);
        let head = seq![x[0]];
        let rest = x.drop_first();
        assert(x =~= head + rest);
        assert forall|i: int| 0 <= i < rest.len() implies group_key(#[trigger] rest[i]) != k by {
            assert(rest[i] == x[i + 1]);
        }
        assert forall|i: int, j: int| 0 <= i < j < rest.len() implies group_key(rest[i]) != group_key(
            rest[j],
        ) by {
            assert(rest[i] == x[i + 1] && rest[j] == x[j + 1]);
        }
        lemma_split_concat(head, rest, k);
        lemma_split_by_key(head, k);
        lemma_split_by_key(rest, k);
        assert(with_key(x, k) =~= head);
        assert(without_key(x, k) =~= rest);
        lemma_distinct_objects_unchanged(rest);
        assert(run_end(head, 0, 1) == 1);
        assert(merge_from(head, 1) =~= Seq::empty());
        assert(merge_group(head) =~= head);
    }
}

/// Two adjacent added columns on one object become one record: the first
/// record with the combined statement. Where both statements hold an
/// `ADD COLUMN` clause, the combined statement holds the two clauses with a
/// comma between them.
pub proof fn lemma_two_added_columns_merge(a: ChangeModel, b: ChangeModel)
    requires
        a.kind == Kind::AddColumn,
        b.kind == Kind::AddColumn,
        a.schema_name == b.schema_name,
        a.object_name == b.object_name,
    ensures
        optimized(seq![a, b]) == seq![merged(seq![a, b])],
        merged(seq![a, b]).kind == Kind::AddColumn,
        merged(seq![a, b]).object_name == a.object_name,
        match (clause_of(Kind::AddColumn, a.details.sql), clause_of(Kind::AddColumn, b.details.sql)) {
            (Some(ca), Some(cb)) => merged(seq![a, b]).details.sql == "ALTER TABLE "@ + a.object_name
                + " "@ + ca + ", "@ + cb + ";"@,
            _ => true,
        },
{
    let x = seq![a, b];
    let k = group_key(a);
    assert(group_key(b) == k);
    lemma_split_by_key(x, k);
    assert(joins(x[0], x[1]));
    assert(run_end(x, 0, 2) == 2);
    assert(run_end(x, 0, 1) == 2);
    assert(x.subrange(0, 2) =~= x);
    assert(merge_from(x, 2) =~= Seq::empty());
    assert(merge_group(x) =~= seq![merged(x)]);
    assert(optimized(Seq::<ChangeModel>::empty()) =~= Seq::empty());
    assert(optimized(x) =~= seq![merged(x)]);
    let one = x.drop_last();
    assert(one =~= seq![a]);
    assert(one.drop_last() =~= Seq::<ChangeModel>::empty());
    match (clause_of(Kind::AddColumn, a.details.sql), clause_of(Kind::AddColumn, b.details.sql)) {
        (Some(ca), Some(cb)) => {
            let none = Seq::<ChangeModel>::empty();
            assert(clauses_of(Kind::AddColumn, none) =~= Seq::empty());
            assert(one.last() == a);
            assert(clauses_of(Kind::AddColumn, one) =~= seq![ca]);
            assert(x.last() == b);
            assert(clauses_of(Kind::AddColumn, x) =~= seq![ca, cb]);
            assert(seq![ca, cb].drop_last() =~= seq![ca]);
            assert(joined(seq![ca], ", "@) == ca);
            assert(joined(seq![ca, cb], ", "@) =~= ca + ", "@ + cb);
            assert(merged(x).details.sql =~= "ALTER TABLE "@ + a.object_name + " "@ + ca + ", "@ + cb
                + ";"@);
        },
        _ => {},
    }
}

/// For a batch that is not empty, the optimized form is the merged group of
/// its first record followed by the optimized form of the other groups.
pub proof fn lemma_optimized_unfold(x: Seq<ChangeModel>)
    requires
        x.len() > 0,
    ensures
        optimized(x) == merge_group(with_key(x, group_key(x[0]))) + optimized(
            without_key(x, group_key(x[0])),
        ),
{
    lemma_split_by_key(x, group_key(x[0]));
}

/// Taking the records of one key out of a batch leaves the records of every
/// other key as they were.
pub proof fn lemma_with_key_of_rest(x: Seq<ChangeModel>, out: Seq<char>, k: Seq<char>)
    requires
        k != out,
    ensures
        with_key(without_key(x, out), k) == with_key(x, k),
    decreases x.len(),
{
    if x.len() > 0 {
        let y = x.drop_last();
        lemma_with_key_of_rest(y, out, k);
        if group_key(x.last()) != out {
            let w = without_key(y, out).push(x.last());
            assert(w.drop_last() =~= without_key(y, out));
            assert(w.last() == x.last());
        }
    }
}

/// The records of a key in the optimized batch are the merged group of that
/// key: merging happens within groups, and only there.
pub proof fn lemma_optimized_by_group(x: Seq<ChangeModel>, k: Seq<char>)
    ensures
        with_key(optimized(x), k) == merge_group(with_key(x, k)),
    decreases x.len(),
{
    if x.len() > 0 {
        let first = group_key(x[0]);
        lemma_split_by_key(x, first);
        let g = with_key(x, first);
        let r = without_key(x, first);
        let m = merge_group(g);
        let o = optimized(r);
        lemma_merge_from(g, 0);
        lemma_optimized_keys(r);
        lemma_optimized_by_group(r, k);
        lemma_split_concat(m, o, k);
        lemma_split_by_key(m, k);
        lemma_split_by_key(o, k);
        if k == first {
            assert(with_key(m, k) + with_key(o, k) =~= m);
        } else {
            assert(none_keyed(m, k));
            lemma_with_key_of_rest(x, first, k);
            assert(with_key(m, k) + with_key(o, k) =~= with_key(o, k));
        }
    }
}

/// The records stand in the order of their times of capture.
pub open spec fn in_time_order(g: Seq<ChangeModel>) -> bool {
    forall|i: int, j: int| 0 <= i <= j < g.len() ==> g[i].timestamp <= g[j].timestamp
}

/// Merging keeps the order of capture within a group: a merged record
/// stands at the time of the first record of its run.
pub proof fn lemma_merge_keeps_time_order(g: Seq<ChangeModel>, i: int)
    requires
        0 <= i <= g.len(),
        in_time_order(g),
    ensures
        in_time_order(merge_from(g, i)),
        forall|t: int|
            0 <= t < merge_from(g, i).len() ==> i < g.len() && g[i].timestamp <= (
            #[trigger] merge_from(g, i)[t]).timestamp,
        i < g.len() ==> merge_from(g, i)[0].timestamp == g[i].timestamp,
    decreases g.len() - i,
{
    if i < g.len() {
        let j = run_end(g, i, i + 1);
        lemma_run_end(g, i, i + 1);
        let next = if i + 1 < j {
            j
        } else {
            i + 1
        };
        let head = if i + 1 < j {
            merged(g.subrange(i, j))
        } else {
            g[i]
        };
        lemma_merge_keeps_time_order(g, next);
        let tail = merge_from(g, next);
        let out = merge_from(g, i);
        assert(out == seq![head] + tail);
        assert(g.subrange(i, j)[0] == g[i]);
        assert(head.timestamp == g[i].timestamp);
        assert forall|t: int| 0 <= t < out.len() implies g[i].timestamp <= (#[trigger] out[t]).timestamp by {
            if t > 0 {
                assert(out[t] == tail[t - 1]);
                assert(g[next].timestamp <= tail[t - 1].timestamp);
            }
        }
        assert forall|a: int, b: int| 0 <= a <= b < out.len() implies out[a].timestamp
            <= out[b].timestamp by {
            if a == 0 {
                assert(g[i].timestamp <= out[b].timestamp);
            } else {
                assert(out[a] == tail[a - 1] && out[b] == tail[b - 1]);
            }
        }
    }
}

/// Optimizing keeps the order of capture within each group: where the
/// records of a key stand in time order in the batch, they do in the
/// optimized batch.
pub proof fn lemma_optimized_keeps_time_order(x: Seq<ChangeModel>, k: Seq<char>)
    requires
        in_time_order(with_key(x, k)),
    ensures
        in_time_order(with_key(optimized(x), k)),
{
    lemma_optimized_by_group(x, k);
    lemma_merge_keeps_time_order(with_key(x, k), 0);
}

/// Whether two kinds are the same kind and one that may be merged.
pub open spec fn compatible(a: Kind, b: Kind) -> bool {
    match (a, b) {
        (Kind::AddColumn, Kind::AddColumn) => true,
        (Kind::AlterTable, Kind::AlterTable) => true,
        (Kind::DropColumn, Kind::DropColumn) => true,
        (Kind::AddConstraint, Kind::AddConstraint) => true,
        (Kind::DropConstraint, Kind::DropConstraint) => true,
        _ => false,
    }
}

/// The part of `sql` from position `at` to the end; none where the
/// position lies beyond the end.
pub fn clause_at(sql: &str, at: usize) -> (r: Option<String>)
    ensures
        text_of(r) == clause_from(sql@, at as int),
{
    let v = chars_of(sql);
    if at <= v.len() {
        Some(string_of(&v, at, v.len()))
    } else {
        None
    }
}

/// What follows the table name in an `ALTER TABLE` statement whose keyword
/// begins at position `at`, trimmed.
pub fn clause_after_table_at(sql: &str, at: usize) -> (r: Option<String>)
    ensures
        text_of(r) == clause_after_name(sql@, at as int),
{
    let v = chars_of(sql);
    let n = chars_of("ALTER TABLE").len();
    if at > v.len() || n > v.len() - at {
        return None;
    }
    let name = skip_class_from(&v, CharClass::Whitespace, at + n);
    let end = seek_class_from(&v, CharClass::Whitespace, name);
    if end >= v.len() {
        return None;
    }
    let tail = string_of(&v, end, v.len());
    let clause = trim_text(tail.as_str());
    if clause.as_str().unicode_len() > 0 {
        Some(clause)
    } else {
        None
    }
}

/// The part of `sql` from the first place at which it reads as `anchor`,
/// whatever the case of its letters, to the end.
pub fn clause_from_anchor(sql: &str, anchor: &str) -> (r: Option<String>)
    ensures
        text_of(r) == anchored_clause(sql@, anchor@),
{
    match find_reading(&chars_of(sql), anchor) {
        Some(i) => clause_at(sql, i),
        None => None,
    }
}

/// What follows the table name in an `ALTER TABLE` statement, trimmed; the
/// keyword is found in any case.
pub fn clause_after_table(sql: &str) -> (r: Option<String>)
    ensures
        text_of(r) == alter_clause(sql@),
{
    match find_reading(&chars_of(sql), "ALTER TABLE") {
        Some(i) => clause_after_table_at(sql, i),
        None => None,
    }
}

/// The clause that a statement contributes to a merged record of kind
/// `kind`.
pub fn clause_for(kind: &ChangeType, sql: &str) -> (r: Option<String>)
    ensures
        text_of(r) == clause_of(kind@, sql@),
{
    match kind {
        ChangeType::AddColumn => clause_from_anchor(sql, "ADD COLUMN"),
        ChangeType::AddConstraint => clause_from_anchor(sql, "ADD CONSTRAINT"),
        ChangeType::AlterTable => clause_after_table(sql),
        _ => None,
    }
}

/// The key by which a record is grouped.
pub fn key_of(c: &SchemaChange) -> (r: String)
    ensures
        r@ == group_key(c@),
{
    let mut key = String::new();
    append_str(&mut key, c.schema_name.as_str());
    push_dot(&mut key);
    append_str(&mut key, c.object_name.as_str());
    assert(key@ =~= group_key(c@));
    key
}

fn push_dot(s: &mut String)
    ensures
        final(s)@ == old(s)@ + seq!['.'],
{
    crate::text::push_char(s, '.');
    assert(old(s)@.push('.') =~= old(s)@ + seq!['.']);
}

/// Whether `next`, directly after `first` in its group, extends the run
/// that `first` starts.
pub fn extends_run(first: &SchemaChange, next: &SchemaChange) -> (r: bool)
    ensures
        r == joins(first@, next@),
{
    match first.change_type {
        ChangeType::AddColumn => matches!(next.change_type, ChangeType::AddColumn),
        ChangeType::AlterTable => matches!(next.change_type, ChangeType::AlterTable) && same_text(
            next.object_name.as_str(),
            first.object_name.as_str(),
        ),
        ChangeType::AddConstraint => matches!(next.change_type, ChangeType::AddConstraint)
            && same_text(next.object_name.as_str(), first.object_name.as_str()),
        _ => false,
    }
}

/// The record that stands for the run `changes`: its first record, with the
/// statement combined from the clauses of kind `kind`.
pub fn merge_as(kind: &ChangeType, changes: &Vec<SchemaChange>) -> (r: SchemaChange)
    requires
        changes.len() > 0,
    ensures
        r@ == merged_as(kind@, change_models(changes@)),
{
    let ghost run = change_models(changes@);
    let first = &changes[0];
    assert(run[0] == first@);
    let mut sql = String::new();
    append_str(&mut sql, "ALTER TABLE ");
    append_str(&mut sql, first.object_name.as_str());
    append_str(&mut sql, " ");
    let ghost prefix = sql@;
    assert(prefix =~= "ALTER TABLE "@ + run[0].object_name + " "@);
    let mut any = false;
    let mut i: usize = 0;
    assert(run.take(0) =~= Seq::empty());
    assert(prefix + Seq::<char>::empty() =~= prefix);
    while i < changes.len()
        invariant
            i <= changes.len(),
            run == change_models(changes@),
            any == (clauses_of(kind@, run.take(i as int)).len() > 0),
            sql@ == prefix + joined(clauses_of(kind@, run.take(i as int)), ", "@),
        decreases changes.len() - i,
    {
        let ghost before = clauses_of(kind@, run.take(i as int));
        proof {
            assert(run.take(i + 1).drop_last() =~= run.take(i as int));
            assert(run.take(i + 1).last() == changes@[i as int]@);
        }
        match clause_for(kind, changes[i].details.sql.as_str()) {
            Some(c) => {
                proof {
                    assert(before.push(c@).drop_last() =~= before);
                }
                if any {
                    append_str(&mut sql, ", ");
                    append_str(&mut sql, c.as_str());
                    assert(sql@ =~= prefix + (joined(before, ", "@) + ", "@ + c@));
                } else {
                    append_str(&mut sql, c.as_str());
                    assert(before.len() == 0);
                    assert(sql@ =~= prefix + c@);
                }
                any = true;
            },
            None => {},
        }
        i += 1;
    }
    assert(run.take(changes.len() as int) =~= run);
    append_str(&mut sql, ";");
    let mut merged = first.clone();
    merged.details.sql = sql;
    merged
}

/// The records `changes[from..to]`.
pub fn clone_range(changes: &Vec<SchemaChange>, from: usize, to: usize) -> (r: Vec<SchemaChange>)
    requires
        from <= to <= changes.len(),
    ensures
        change_models(r@) == change_models(changes@).subrange(from as int, to as int),
{
    let mut r: Vec<SchemaChange> = Vec::new();
    let mut i: usize = from;
    while i < to
        invariant
            from <= i <= to <= changes.len(),
            r.len() == i - from,
            forall|j: int| 0 <= j < r.len() ==> r@[j]@ == changes@[from + j]@,
        decreases to - i,
    {
        r.push(changes[i].clone());
        i += 1;
    }
    assert(change_models(r@) =~= change_models(changes@).subrange(from as int, to as int));
    r
}

/// Merges related changes into fewer records.
pub struct MigrationOptimizer;

impl MigrationOptimizer {
    /// Whether two kinds are the same kind and one that may be merged.
    pub fn are_compatible_operations(type1: &ChangeType, type2: &ChangeType) -> (r: bool)
        ensures
            r == compatible(type1@, type2@),
    {
        match (type1, type2) {
            (ChangeType::AddColumn, ChangeType::AddColumn) => true,
            (ChangeType::AlterTable, ChangeType::AlterTable) => true,
            (ChangeType::DropColumn, ChangeType::DropColumn) => true,
            (ChangeType::AddConstraint, ChangeType::AddConstraint) => true,
            (ChangeType::DropConstraint, ChangeType::DropConstraint) => true,
            _ => false,
        }
    }

    /// Whether two records concern the same object and have compatible
    /// kinds.
    pub fn can_merge(change1: &SchemaChange, change2: &SchemaChange) -> (r: bool)
        ensures
            r == (change1@.object_name == change2@.object_name && compatible(
                change1@.kind,
                change2@.kind,
            )),
    {
        same_text(change1.object_name.as_str(), change2.object_name.as_str())
            && MigrationOptimizer::are_compatible_operations(
            &change1.change_type,
            &change2.change_type,
        )
    }

    /// One record for a run of added columns: the first record, with the
    /// `ADD COLUMN` clauses of all of them in one statement.
    pub fn merge_add_columns(changes: Vec<SchemaChange>) -> (r: SchemaChange)
        requires
            changes.len() > 0,
        ensures
            r@ == merged_as(Kind::AddColumn, change_models(changes@)),
    {
        merge_as(&ChangeType::AddColumn, &changes)
    }

    /// One record for a run of table alterations: the first record, with
    /// what follows the table name in each statement, in one statement.
    pub fn merge_alter_tables(changes: Vec<SchemaChange>) -> (r: SchemaChange)
        requires
            changes.len() > 0,
        ensures
            r@ == merged_as(Kind::AlterTable, change_models(changes@)),
    {
        merge_as(&ChangeType::AlterTable, &changes)
    }

    /// One record for a run of added constraints: the first record, with the
    /// `ADD CONSTRAINT` clauses of all of them in one statement.
    pub fn merge_add_constraints(changes: Vec<SchemaChange>) -> (r: SchemaChange)
        requires
            changes.len() > 0,
        ensures
            r@ == merged_as(Kind::AddConstraint, change_models(changes@)),
    {
        merge_as(&ChangeType::AddConstraint, &changes)
    }

    /// Merges the runs within one group: each maximal run of two or more
    /// added columns, table alterations or added constraints becomes one
    /// record; every other record stays as it is, in its place.
    pub fn merge_table_changes(changes: Vec<SchemaChange>) -> (r: Vec<SchemaChange>)
        ensures
            change_models(r@) == merge_group(change_models(changes@)),
            r.len() <= changes.len(),
    {
        let ghost g = change_models(changes@);
        let mut result: Vec<SchemaChange> = Vec::new();
        let mut i: usize = 0;
        assert(change_models(result@) + merge_from(g, 0) =~= merge_group(g));
        while i < changes.len()
            invariant
                i <= changes.len(),
                g == change_models(changes@),
                merge_group(g) == change_models(result@) + merge_from(g, i as int),
            decreases changes.len() - i,
        {
            let mut j: usize = i + 1;
            while j < changes.len() && extends_run(&changes[i], &changes[j])
                invariant
                    i < j <= changes.len(),
                    g == change_models(changes@),
                    run_end(g, i as int, i + 1) == run_end(g, i as int, j as int),
                decreases changes.len() - j,
            {
                j += 1;
            }
            let ghost before = change_models(result@);
            if j > i + 1 {
                let run = clone_range(&changes, i, j);
                assert(g.subrange(i as int, j as int)[0] == g[i as int]);
                assert(joins(g[i as int], g[i + 1]));
                let merged = match changes[i].change_type {
                    ChangeType::AddColumn => MigrationOptimizer::merge_add_columns(run),
                    ChangeType::AlterTable => MigrationOptimizer::merge_alter_tables(run),
                    _ => MigrationOptimizer::merge_add_constraints(run),
                };
                result.push(merged);
                assert(change_models(result@) =~= before + seq![merged@]);
                assert(before + (seq![merged@] + merge_from(g, j as int)) =~= change_models(result@)
                    + merge_from(g, j as int));
                i = j;
            } else {
                let same = changes[i].clone();
                result.push(same);
                assert(change_models(result@) =~= before + seq![g[i as int]]);
                assert(before + (seq![g[i as int]] + merge_from(g, i + 1)) =~= change_models(result@)
                    + merge_from(g, i + 1));
                i += 1;
            }
        }
        proof {
            assert(change_models(result@) + merge_from(g, changes.len() as int) =~= change_models(
                result@,
            ));
            lemma_merge_from(g, 0);
        }
        result
    }

    /// Optimizes a batch of changes. Records are grouped by schema and
    /// object; the groups come out in the order in which their first records
    /// stand in the batch, each with its runs merged. The result is no
    /// longer than the batch, and optimizing it again changes nothing.
    pub fn optimize(changes: Vec<SchemaChange>) -> (r: Vec<SchemaChange>)
        ensures
            change_models(r@) == optimized(change_models(changes@)),
            r.len() <= changes.len(),
            optimized(change_models(r@)) == change_models(r@),
    {
        let ghost x = change_models(changes@);
        let mut remaining = changes;
        let mut result: Vec<SchemaChange> = Vec::new();
        assert(change_models(result@) + optimized(x) =~= optimized(x));
        while remaining.len() > 0
            invariant
                optimized(x) == change_models(result@) + optimized(change_models(remaining@)),
            decreases remaining.len(),
        {
            let ghost y = change_models(remaining@);
            let key = key_of(&remaining[0]);
            let ghost k = key@;
            assert(k == group_key(y[0]));
            let mut group: Vec<SchemaChange> = Vec::new();
            let mut rest: Vec<SchemaChange> = Vec::new();
            let mut i: usize = 0;
            assert(y.take(0) =~= Seq::empty());
            assert(change_models(group@) =~= Seq::empty());
            assert(change_models(rest@) =~= Seq::empty());
            while i < remaining.len()
                invariant
                    i <= remaining.len(),
                    y == change_models(remaining@),
                    k == key@,
                    change_models(group@) == with_key(y.take(i as int), k),
                    change_models(rest@) == without_key(y.take(i as int), k),
                decreases remaining.len() - i,
            {
                let ghost gb = change_models(group@);
                let ghost rb = change_models(rest@);
                proof {
                    assert(y.take(i + 1).drop_last() =~= y.take(i as int));
                    assert(y.take(i + 1).last() == remaining@[i as int]@);
                }
                let other = key_of(&remaining[i]);
                if same_text(other.as_str(), key.as_str()) {
                    group.push(remaining[i].clone());
                    assert(change_models(group@) =~= gb.push(remaining@[i as int]@));
                } else {
                    rest.push(remaining[i].clone());
                    assert(change_models(rest@) =~= rb.push(remaining@[i as int]@));
                }
                i += 1;
            }
            proof {
                assert(y.take(remaining.len() as int) =~= y);
                lemma_split_by_key(y, k);
            }
            let ghost before = change_models(result@);
            let mut merged = MigrationOptimizer::merge_table_changes(group);
            let ghost m = change_models(merged@);
            let ghost mv = merged@;
            let ghost rv = result@;
            result.append(&mut merged);
            proof {
                assert(result@ == rv + mv);
                assert(change_models(result@) =~= before + m);
                assert(before + (m + optimized(change_models(rest@))) =~= change_models(result@)
                    + optimized(change_models(rest@)));
            }
            remaining = rest;
        }
        proof {
            assert(change_models(remaining@) =~= Seq::empty());
            assert(change_models(result@) + Seq::<ChangeModel>::empty() =~= change_models(result@));
            lemma_optimized_no_longer(x);
            lemma_optimized_idempotent(x);
        }
        result
    }
}

} // verus!
