//! Catalog row handling: the typed records that catalog queries yield,
//! the rules deciding which rows are kept, the column ordering, and the
//! cardinality checks on single-row queries.

use vstd::prelude::*;

use crate::error::IntrospectionError;
use crate::model::{Column, ColumnV, column_views};

verus! {

/// One row of the catalog's attribute listing for a relation.
#[derive(Debug)]
pub struct ColumnRow {
    /// Attribute number; system attributes carry numbers below 1.
    pub num: i32,
    pub name: String,
    pub type_id: i32,
}

/// Mathematical view of a [`ColumnRow`].
#[verifier::ext_equal]
pub struct ColumnRowV {
    pub num: int,
    pub name: Seq<char>,
    pub type_id: int,
}

impl View for ColumnRow {
    type V = ColumnRowV;

    open spec fn view(&self) -> ColumnRowV {
        ColumnRowV { num: self.num as int, name: self.name@, type_id: self.type_id as int }
    }
}

impl Clone for ColumnRow {
    fn clone(&self) -> (res: Self)
        ensures
            res@ == self@,
    {
        ColumnRow { num: self.num, name: self.name.clone(), type_id: self.type_id }
    }
}

/// One row of the catalog's relation listing for a schema.
#[derive(Debug)]
pub struct RelationRow {
    pub oid: i32,
    pub name: String,
    /// The catalog's one-letter relation kind: `r` ordinary table, `v`
    /// view, other letters for indexes, sequences and the rest.
    pub kind: char,
}

/// Mathematical view of a [`RelationRow`].
#[verifier::ext_equal]
pub struct RelationRowV {
    pub oid: int,
    pub name: Seq<char>,
    pub kind: char,
}

impl View for RelationRow {
    type V = RelationRowV;

    open spec fn view(&self) -> RelationRowV {
        RelationRowV { oid: self.oid as int, name: self.name@, kind: self.kind }
    }
}

impl Clone for RelationRow {
    fn clone(&self) -> (res: Self)
        ensures
            res@ == self@,
    {
        RelationRow { oid: self.oid, name: self.name.clone(), kind: self.kind }
    }
}

pub open spec fn column_row_views(s: Seq<ColumnRow>) -> Seq<ColumnRowV> {
    s.map_values(|r: ColumnRow| r@)
}

pub open spec fn relation_row_views(s: Seq<RelationRow>) -> Seq<RelationRowV> {
    s.map_values(|r: RelationRow| r@)
}

/// Only ordinary tables and views take part in introspection.
pub open spec fn keeps_kind(k: char) -> bool {
    k == 'r' || k == 'v'
}

/// The relation rows that survive the kind restriction, in their original
/// order.
pub open spec fn kept_relations(s: Seq<RelationRowV>) -> Seq<RelationRowV>
    decreases s.len(),
{
    if s.len() == 0 {
        Seq::empty()
    } else if keeps_kind(s.last().kind) {
        kept_relations(s.drop_last()).push(s.last())
    } else {
        kept_relations(s.drop_last())
    }
}

/// The column rows that survive the system-attribute restriction
/// (attribute number at least 1), in their original order.
pub open spec fn user_columns(s: Seq<ColumnRowV>) -> Seq<ColumnRowV>
    decreases s.len(),
{
    if s.len() == 0 {
        Seq::empty()
    } else if s.last().num >= 1 {
        user_columns(s.drop_last()).push(s.last())
    } else {
        user_columns(s.drop_last())
    }
}

/// `x` placed into `s` before the first row with a strictly greater
/// attribute number; with `s` sorted this keeps `s` sorted and puts `x`
/// after any earlier row of equal number.
pub open spec fn insert_by_num(x: ColumnRowV, s: Seq<ColumnRowV>) -> Seq<ColumnRowV>
    decreases s.len(),
{
    if s.len() == 0 {
        seq![x]
    } else if x.num < s[0].num {
        seq![x] + s
    } else {
        seq![s[0]] + insert_by_num(x, s.subrange(1, s.len() as int))
    }
}

/// Stable sort of column rows by ascending attribute number.
pub open spec fn sort_by_num(s: Seq<ColumnRowV>) -> Seq<ColumnRowV>
    decreases s.len(),
{
    if s.len() == 0 {
        Seq::empty()
    } else {
        insert_by_num(s.last(), sort_by_num(s.drop_last()))
    }
}

pub open spec fn sorted_by_num(s: Seq<ColumnRowV>) -> bool {
    forall|i: int, j: int| 0 <= i < j < s.len() ==> s[i].num <= s[j].num
}

/// The column a single catalog attribute row describes.
pub open spec fn column_of_row(r: ColumnRowV) -> ColumnV {
    ColumnV { name: r.name, type_id: r.type_id }
}

pub open spec fn rows_to_columns(s: Seq<ColumnRowV>) -> Seq<ColumnV> {
    s.map_values(|r: ColumnRowV| column_of_row(r))
}

/// The columns a relation reports for a given sequence of catalog
/// attribute rows: system attributes dropped, the rest ordered by
/// ascending attribute number, names and type ids verbatim.
pub open spec fn columns_of_rows(s: Seq<ColumnRowV>) -> Seq<ColumnV> {
    rows_to_columns(sort_by_num(user_columns(s)))
}

proof fn lemma_insert_by_num_len(x: ColumnRowV, s: Seq<ColumnRowV>)
    ensures
        insert_by_num(x, s).len() == s.len() + 1,
    decreases s.len(),
{
    if s.len() == 0 {
    } else if x.num < s[0].num {
    } else {
        lemma_insert_by_num_len(x, s.subrange(1, s.len() as int));
    }
}

proof fn lemma_insert_by_num_lower_bound(x: ColumnRowV, s: Seq<ColumnRowV>, b: int)
    requires
        b <= x.num,
        forall|i: int| 0 <= i < s.len() ==> b <= s[i].num,
    ensures
        insert_by_num(x, s).len() == s.len() + 1,
        forall|i: int| 0 <= i < insert_by_num(x, s).len() ==> b <= insert_by_num(x, s)[i].num,
    decreases s.len(),
{
    lemma_insert_by_num_len(x, s);
    if s.len() == 0 {
    } else if x.num < s[0].num {
    } else {
        let tail = s.subrange(1, s.len() as int);
        lemma_insert_by_num_lower_bound(x, tail, b);
    }
}

proof fn lemma_insert_by_num_sorted(x: ColumnRowV, s: Seq<ColumnRowV>)
    requires
        sorted_by_num(s),
    ensures
        sorted_by_num(insert_by_num(x, s)),
    decreases s.len(),
{
    if s.len() == 0 {
    } else if x.num < s[0].num {
    } else {
        let tail = s.subrange(1, s.len() as int);
        assert(sorted_by_num(tail));
        lemma_insert_by_num_sorted(x, tail);
        lemma_insert_by_num_lower_bound(x, tail, s[0].num);
    }
}

proof fn lemma_sort_by_num_sorted(s: Seq<ColumnRowV>)
    ensures
        sorted_by_num(sort_by_num(s)),
    decreases s.len(),
{
    if s.len() == 0 {
    } else {
        lemma_sort_by_num_sorted(s.drop_last());
        lemma_insert_by_num_sorted(s.last(), sort_by_num(s.drop_last()));
    }
}

proof fn lemma_sort_by_num_lower_bound(s: Seq<ColumnRowV>, b: int)
    requires
        forall|i: int| 0 <= i < s.len() ==> b <= s[i].num,
    ensures
        forall|i: int| 0 <= i < sort_by_num(s).len() ==> b <= sort_by_num(s)[i].num,
    decreases s.len(),
{
    if s.len() == 0 {
    } else {
        lemma_sort_by_num_lower_bound(s.drop_last(), b);
        lemma_insert_by_num_lower_bound(s.last(), sort_by_num(s.drop_last()), b);
    }
}

proof fn lemma_user_columns_lower_bound(s: Seq<ColumnRowV>)
    ensures
        forall|i: int| 0 <= i < user_columns(s).len() ==> user_columns(s)[i].num >= 1,
    decreases s.len(),
{
    if s.len() == 0 {
    } else {
        lemma_user_columns_lower_bound(s.drop_last());
        if s.last().num >= 1 {
            let kept = user_columns(s.drop_last());
            assert forall|i: int| 0 <= i < user_columns(s).len() implies user_columns(s)[i].num
                >= 1 by {
                if i < kept.len() {
                    assert(user_columns(s)[i] == kept[i]);
                } else {
                    assert(user_columns(s)[i] == s.last());
                }
            }
        }
    }
}

/// The column rows a relation reports are ordered by ascending attribute
/// number, and every one of them carries an attribute number of at least
/// 1: no system attribute survives.
pub proof fn lemma_column_rows_ordered(s: Seq<ColumnRowV>)
    ensures
        sorted_by_num(sort_by_num(user_columns(s))),
        forall|i: int|
            0 <= i < sort_by_num(user_columns(s)).len() ==> sort_by_num(user_columns(s))[i].num
                >= 1,
{
    lemma_sort_by_num_sorted(user_columns(s));
    lemma_user_columns_lower_bound(s);
    lemma_sort_by_num_lower_bound(user_columns(s), 1);
}

/// The relations a schema reports only ever have a kept kind: an
/// ordinary table or a view. A sequence, an index or any other catalog
/// object kind never survives, whatever rows the catalog yielded.
pub proof fn lemma_kept_relations_kinds(s: Seq<RelationRowV>)
    ensures
        forall|i: int|
            0 <= i < kept_relations(s).len() ==> keeps_kind(#[trigger] kept_relations(s)[i].kind),
    decreases s.len(),
{
    if s.len() == 0 {
    } else {
        lemma_kept_relations_kinds(s.drop_last());
        if keeps_kind(s.last().kind) {
            let kept = kept_relations(s.drop_last());
            assert forall|i: int|
                0 <= i < kept_relations(s).len() implies keeps_kind(
                #[trigger] kept_relations(s)[i].kind,
            ) by {
                if i < kept.len() {
                    assert(kept_relations(s)[i] == kept[i]);
                } else {
                    assert(kept_relations(s)[i] == s.last());
                }
            }
        }
    }
}

proof fn lemma_insert_by_num_at(x: ColumnRowV, s: Seq<ColumnRowV>, idx: int)
    requires
        0 <= idx <= s.len(),
        forall|j: int| 0 <= j < idx ==> s[j].num <= x.num,
        idx < s.len() ==> x.num < s[idx].num,
    ensures
        insert_by_num(x, s) == s.subrange(0, idx) + seq![x] + s.subrange(idx, s.len() as int),
    decreases idx,
{
    if idx == 0 {
        assert(insert_by_num(x, s) =~= s.subrange(0, 0) + seq![x] + s.subrange(
            0,
            s.len() as int,
        ));
    } else {
        let tail = s.subrange(1, s.len() as int);
        lemma_insert_by_num_at(x, tail, idx - 1);
        assert(tail.subrange(0, idx - 1) =~= s.subrange(1, idx));
        assert(tail.subrange(idx - 1, tail.len() as int) =~= s.subrange(idx, s.len() as int));
        assert(insert_by_num(x, s) =~= s.subrange(0, idx) + seq![x] + s.subrange(
            idx,
            s.len() as int,
        ));
    }
}

/// Places `x` into the sorted vector `v`, keeping it sorted by attribute
/// number and putting `x` after any row of equal number already there.
fn insert_row_sorted(v: &mut Vec<ColumnRow>, x: ColumnRow)
    ensures
        column_row_views(final(v)@) == insert_by_num(x@, column_row_views(old(v)@)),
{
    let mut idx: usize = 0;
    while idx < v.len() && v[idx].num <= x.num
        invariant
            idx <= v.len(),
            forall|j: int| 0 <= j < idx ==> column_row_views(v@)[j].num <= x@.num,
        decreases v.len() - idx,
    {
        idx = idx + 1;
    }
    let ghost prev = v@;
    let ghost at = idx as int;
    v.insert(idx, x);
    proof {
        lemma_insert_by_num_at(x@, column_row_views(prev), at);
        assert(column_row_views(prev).subrange(0, at) =~= column_row_views(
            prev.subrange(0, at),
        ));
        assert(column_row_views(prev).subrange(at, prev.len() as int) =~= column_row_views(
            prev.subrange(at, prev.len() as int),
        ));
        assert(column_row_views(v@) =~= column_row_views(prev).subrange(0, at) + seq![x@]
            + column_row_views(prev).subrange(at, prev.len() as int));
    }
}

/// Drops the system attributes (number below 1) from the given catalog
/// rows and orders the rest by ascending attribute number, stably.
pub fn sorted_user_rows(rows: &Vec<ColumnRow>) -> (r: Vec<ColumnRow>)
    ensures
        column_row_views(r@) == sort_by_num(user_columns(column_row_views(rows@))),
        sorted_by_num(column_row_views(r@)),
        forall|i: int| 0 <= i < column_row_views(r@).len() ==> column_row_views(r@)[i].num >= 1,
{
    let mut out: Vec<ColumnRow> = Vec::new();
    let mut i: usize = 0;
    proof {
        assert(column_row_views(rows@).take(0) =~= Seq::<ColumnRowV>::empty());
    }
    while i < rows.len()
        invariant
            i <= rows.len(),
            column_row_views(out@) == sort_by_num(
                user_columns(column_row_views(rows@).take(i as int)),
            ),
        decreases rows.len() - i,
    {
        let ghost all = column_row_views(rows@);
        proof {
            assert(all.take(i as int + 1).drop_last() =~= all.take(i as int));
            assert(all.take(i as int + 1).last() == rows@[i as int]@);
        }
        if rows[i].num >= 1 {
            let x = rows[i].clone();
            insert_row_sorted(&mut out, x);
            proof {
                let kept = user_columns(all.take(i as int));
                assert(user_columns(all.take(i as int + 1)) =~= kept.push(rows@[i as int]@));
                assert(kept.push(rows@[i as int]@).drop_last() =~= kept);
            }
        }
        i = i + 1;
    }
    proof {
        assert(column_row_views(rows@).take(rows@.len() as int) =~= column_row_views(rows@));
        lemma_column_rows_ordered(column_row_views(rows@));
    }
    out
}

/// The columns of a relation, per [`columns_of_rows`], from the raw
/// catalog attribute rows.
pub fn columns_from_rows(rows: &Vec<ColumnRow>) -> (r: Vec<Column>)
    ensures
        column_views(r@) == columns_of_rows(column_row_views(rows@)),
{
    let sorted = sorted_user_rows(rows);
    let mut out: Vec<Column> = Vec::new();
    let mut i: usize = 0;
    while i < sorted.len()
        invariant
            i <= sorted.len(),
            column_views(out@) == rows_to_columns(column_row_views(sorted@).take(i as int)),
        decreases sorted.len() - i,
    {
        let ghost prev = out@;
        let row = &sorted[i];
        let c = Column { name: row.name.clone(), type_id: row.type_id };
        out.push(c);
        proof {
            crate::model::lemma_column_views_push(prev, c);
            let sv = column_row_views(sorted@);
            assert(sv.take(i as int + 1) =~= sv.take(i as int).push(sorted@[i as int]@));
            assert(column_views(out@) =~= rows_to_columns(sv.take(i as int + 1)));
        }
        i = i + 1;
    }
    proof {
        assert(column_row_views(sorted@).take(sorted@.len() as int) =~= column_row_views(sorted@));
    }
    out
}

/// The relation rows that take part in introspection: ordinary tables
/// and views only, in the order the catalog returned them.
pub fn filter_relations(rows: &Vec<RelationRow>) -> (r: Vec<RelationRow>)
    ensures
        relation_row_views(r@) == kept_relations(relation_row_views(rows@)),
{
    let mut out: Vec<RelationRow> = Vec::new();
    let mut i: usize = 0;
    proof {
        assert(relation_row_views(rows@).take(0) =~= Seq::<RelationRowV>::empty());
    }
    while i < rows.len()
        invariant
            i <= rows.len(),
            relation_row_views(out@) == kept_relations(
                relation_row_views(rows@).take(i as int),
            ),
        decreases rows.len() - i,
    {
        let ghost all = relation_row_views(rows@);
        proof {
            assert(all.take(i as int + 1).drop_last() =~= all.take(i as int));
            assert(all.take(i as int + 1).last() == rows@[i as int]@);
        }
        if rows[i].kind == 'r' || rows[i].kind == 'v' {
            let ghost prev = out@;
            let x = rows[i].clone();
            out.push(x);
            proof {
                assert(relation_row_views(out@) =~= relation_row_views(prev).push(
                    rows@[i as int]@,
                ));
            }
        }
        i = i + 1;
    }
    proof {
        assert(relation_row_views(rows@).take(rows@.len() as int) =~= relation_row_views(rows@));
    }
    out
}

/// The current database's name, from the rows of a query expected to
/// return exactly one row; any other cardinality is an error.
pub fn database_name_from_rows(rows: Vec<String>) -> (r: Result<String, IntrospectionError>)
    ensures
        rows@.len() == 1 ==> r is Ok && r->Ok_0@ == rows@[0]@,
        rows@.len() != 1 ==> r is Err && r->Err_0 == IntrospectionError::CardinalityError,
{
    if rows.len() == 1 {
        let mut rows = rows;
        match rows.pop() {
            Option::Some(name) => Result::Ok(name),
            Option::None => Result::Err(IntrospectionError::CardinalityError),
        }
    } else {
        Result::Err(IntrospectionError::CardinalityError)
    }
}

/// A schema's object id from the rows its name resolved to: no row means
/// the schema does not exist, more than one is a cardinality violation,
/// and no default is ever substituted.
pub fn schema_oid_from_rows(rows: &Vec<i32>) -> (r: Result<i32, IntrospectionError>)
    ensures
        rows@.len() == 0 ==> r is Err && r->Err_0 == IntrospectionError::NotFoundError,
        rows@.len() == 1 ==> r is Ok && r->Ok_0 == rows@[0],
        rows@.len() > 1 ==> r is Err && r->Err_0 == IntrospectionError::CardinalityError,
{
    if rows.len() == 0 {
        Result::Err(IntrospectionError::NotFoundError)
    } else if rows.len() == 1 {
        Result::Ok(rows[0])
    } else {
        Result::Err(IntrospectionError::CardinalityError)
    }
}

} // verus!
