//! The immutable tree that an introspection run produces, together with
//! the mathematical views its contracts are stated over.

use vstd::prelude::*;

verus! {

/// One catalog-visible attribute of a relation.
#[derive(Debug)]
pub struct Column {
    pub name: String,
    pub type_id: i32,
}

/// Mathematical view of a [`Column`].
#[verifier::ext_equal]
pub struct ColumnV {
    pub name: Seq<char>,
    pub type_id: int,
}

impl View for Column {
    type V = ColumnV;

    open spec fn view(&self) -> ColumnV {
        ColumnV { name: self.name@, type_id: self.type_id as int }
    }
}

/// A table or view: a named, columnar dataset. Column order is catalog
/// attribute order, ascending, with system attributes excluded.
#[derive(Debug)]
pub struct Relation {
    pub name: String,
    pub columns: Vec<Column>,
}

/// Mathematical view of a [`Relation`].
#[verifier::ext_equal]
pub struct RelationV {
    pub name: Seq<char>,
    pub columns: Seq<ColumnV>,
}

pub open spec fn column_views(s: Seq<Column>) -> Seq<ColumnV> {
    s.map_values(|c: Column| c@)
}

impl View for Relation {
    type V = RelationV;

    open spec fn view(&self) -> RelationV {
        RelationV { name: self.name@, columns: column_views(self.columns@) }
    }
}

/// A namespace grouping relations. Relation order is the order the
/// catalog listed them in, never re-sorted.
#[derive(Debug)]
pub struct Schema {
    pub name: String,
    pub relations: Vec<Relation>,
}

/// Mathematical view of a [`Schema`].
#[verifier::ext_equal]
pub struct SchemaV {
    pub name: Seq<char>,
    pub relations: Seq<RelationV>,
}

pub open spec fn relation_views(s: Seq<Relation>) -> Seq<RelationV> {
    s.map_values(|r: Relation| r@)
}

impl View for Schema {
    type V = SchemaV;

    open spec fn view(&self) -> SchemaV {
        SchemaV { name: self.name@, relations: relation_views(self.relations@) }
    }
}

/// Root of the tree. Schema order equals the order the schema selector
/// produced, not catalog return order.
#[derive(Debug)]
pub struct Database {
    name: String,
    pub schemas: Vec<Schema>,
}

/// Mathematical view of a [`Database`].
#[verifier::ext_equal]
pub struct DatabaseV {
    pub name: Seq<char>,
    pub schemas: Seq<SchemaV>,
}

pub open spec fn schema_views(s: Seq<Schema>) -> Seq<SchemaV> {
    s.map_values(|x: Schema| x@)
}

impl View for Database {
    type V = DatabaseV;

    closed spec fn view(&self) -> DatabaseV {
        DatabaseV { name: self.name@, schemas: schema_views(self.schemas@) }
    }
}

/// The result of a successful build: an owned, read-only snapshot.
#[derive(Debug)]
pub struct Introspection {
    pub database: Database,
}

/// Mathematical view of an [`Introspection`].
#[verifier::ext_equal]
pub struct IntrospectionV {
    pub database: DatabaseV,
}

impl View for Introspection {
    type V = IntrospectionV;

    open spec fn view(&self) -> IntrospectionV {
        IntrospectionV { database: self.database@ }
    }
}

/// Each schema's relations, concatenated in schema order, each schema's
/// internal order preserved.
pub open spec fn flattened_relations(schemas: Seq<SchemaV>) -> Seq<RelationV>
    decreases schemas.len(),
{
    if schemas.len() == 0 {
        Seq::empty()
    } else {
        flattened_relations(schemas.drop_last()) + schemas.last().relations
    }
}

pub proof fn lemma_column_views_push(s: Seq<Column>, c: Column)
    ensures
        column_views(s.push(c)) == column_views(s).push(c@),
{
    assert(column_views(s.push(c)) =~= column_views(s).push(c@));
}

pub proof fn lemma_column_views_take_step(s: Seq<Column>, i: int)
    requires
        0 <= i < s.len(),
    ensures
        column_views(s).take(i + 1) == column_views(s).take(i).push(s[i]@),
{
    assert(column_views(s).take(i + 1) =~= column_views(s).take(i).push(s[i]@));
}

pub proof fn lemma_relation_views_push(s: Seq<Relation>, r: Relation)
    ensures
        relation_views(s.push(r)) == relation_views(s).push(r@),
{
    assert(relation_views(s.push(r)) =~= relation_views(s).push(r@));
}

pub proof fn lemma_relation_views_take_step(s: Seq<Relation>, i: int)
    requires
        0 <= i < s.len(),
    ensures
        relation_views(s).take(i + 1) == relation_views(s).take(i).push(s[i]@),
{
    assert(relation_views(s).take(i + 1) =~= relation_views(s).take(i).push(s[i]@));
}

pub proof fn lemma_schema_views_push(s: Seq<Schema>, x: Schema)
    ensures
        schema_views(s.push(x)) == schema_views(s).push(x@),
{
    assert(schema_views(s.push(x)) =~= schema_views(s).push(x@));
}

impl Clone for Column {
    fn clone(&self) -> (res: Self)
        ensures
            res@ == self@,
    {
        Column { name: self.name.clone(), type_id: self.type_id }
    }
}

impl Clone for Relation {
    fn clone(&self) -> (res: Self)
        ensures
            res@ == self@,
    {
        let mut columns: Vec<Column> = Vec::new();
        let mut i: usize = 0;
        while i < self.columns.len()
            invariant
                i <= self.columns.len(),
                column_views(columns@) == column_views(self.columns@).take(i as int),
            decreases self.columns.len() - i,
        {
            let ghost prev = columns@;
            let c = self.columns[i].clone();
            columns.push(c);
            proof {
                lemma_column_views_push(prev, c);
                lemma_column_views_take_step(self.columns@, i as int);
            }
            i = i + 1;
        }
        proof {
            assert(column_views(self.columns@).take(self.columns@.len() as int) =~= column_views(
                self.columns@,
            ));
        }
        let res = Relation { name: self.name.clone(), columns };
        proof {
            assert(res@ =~= self@);
        }
        res
    }
}

impl Clone for Schema {
    fn clone(&self) -> (res: Self)
        ensures
            res@ == self@,
    {
        let mut relations: Vec<Relation> = Vec::new();
        let mut i: usize = 0;
        while i < self.relations.len()
            invariant
                i <= self.relations.len(),
                relation_views(relations@) == relation_views(self.relations@).take(i as int),
            decreases self.relations.len() - i,
        {
            let ghost prev = relations@;
            let r = self.relations[i].clone();
            relations.push(r);
            proof {
                lemma_relation_views_push(prev, r);
                lemma_relation_views_take_step(self.relations@, i as int);
            }
            i = i + 1;
        }
        proof {
            assert(relation_views(self.relations@).take(self.relations@.len() as int)
                =~= relation_views(self.relations@));
        }
        let res = Schema { name: self.name.clone(), relations };
        proof {
            assert(res@ =~= self@);
        }
        res
    }
}

impl Database {
    /// Assembles a database value; the builder and tests construct the
    /// tree through this, since the database's own name stays private.
    pub fn new(name: String, schemas: Vec<Schema>) -> (r: Database)
        ensures
            r@ == (DatabaseV { name: name@, schemas: schema_views(schemas@) }),
    {
        Database { name, schemas }
    }

    /// Pure projection of the tree: every schema's relations, in schema
    /// order, each schema's internal relation order preserved.
    pub fn relations(&self) -> (r: Vec<Relation>)
        ensures
            relation_views(r@) == flattened_relations(self@.schemas),
    {
        let mut out: Vec<Relation> = Vec::new();
        let mut i: usize = 0;
        while i < self.schemas.len()
            invariant
                i <= self.schemas.len(),
                relation_views(out@) == flattened_relations(
                    schema_views(self.schemas@).take(i as int),
                ),
            decreases self.schemas.len() - i,
        {
            let rels = &self.schemas[i].relations;
            let mut j: usize = 0;
            while j < rels.len()
                invariant
                    j <= rels.len(),
                    relation_views(out@) == flattened_relations(
                        schema_views(self.schemas@).take(i as int),
                    ) + relation_views(rels@).take(j as int),
                    i < self.schemas.len(),
                    rels == &self.schemas[i as int].relations,
                decreases rels.len() - j,
            {
                let ghost prev = out@;
                let r = rels[j].clone();
                out.push(r);
                proof {
                    lemma_relation_views_push(prev, r);
                    lemma_relation_views_take_step(rels@, j as int);
                    assert(relation_views(out@) =~= flattened_relations(
                        schema_views(self.schemas@).take(i as int),
                    ) + relation_views(rels@).take(j as int + 1));
                }
                j = j + 1;
            }
            proof {
                let sv = schema_views(self.schemas@);
                assert(sv.take(i as int + 1).drop_last() =~= sv.take(i as int));
                assert(relation_views(rels@).take(rels@.len() as int) =~= relation_views(rels@));
                assert(sv.take(i as int + 1).last() == self.schemas@[i as int]@);
                assert(relation_views(out@) =~= flattened_relations(sv.take(i as int + 1)));
            }
            i = i + 1;
        }
        proof {
            assert(schema_views(self.schemas@).take(self.schemas@.len() as int) =~= schema_views(
                self.schemas@,
            ));
        }
        out
    }
}

impl Introspection {
    /// Pure projection: the relations of every schema of the database, in
    /// schema order.
    pub fn relations(&self) -> (r: Vec<Relation>)
        ensures
            relation_views(r@) == flattened_relations(self@.database.schemas),
    {
        self.database.relations()
    }
}

} // verus!
