//! The introspection tree builder, as a step machine.
//!
//! One build is a sequence of catalog round-trips over a single read-only
//! session. The driver that owns the session performs the round-trips; the
//! machine here makes every decision: it hands the driver the next query
//! to run ([`Action`]), consumes what came back ([`Event`]), and either
//! asks for the next query, completes with the finished tree, or fails
//! with the first error. Round-trips are serialized on the one session, so
//! the machine asks for one query at a time; sibling fetches carry no
//! ordering dependency on each other, and the tree's order is imposed at
//! assembly time from the driving lists, never from completion order.
//!
//! An event that does not answer the pending action is treated as a
//! failed round-trip: the machine fails fast with a catalog query error,
//! as it does for any reported query failure.

use vstd::prelude::*;

use crate::catalog::{
    ColumnRow, ColumnRowV, RelationRow, RelationRowV, column_row_views, columns_from_rows,
    columns_of_rows, database_name_from_rows, filter_relations, kept_relations,
    relation_row_views, schema_oid_from_rows,
};
use crate::error::IntrospectionError;
use crate::model::{
    Database, DatabaseV, Introspection, IntrospectionV, Relation, RelationV, Schema, SchemaV,
    lemma_relation_views_push, lemma_schema_views_push, relation_views, schema_views,
};
use crate::selector::{
    comment_view, lemma_selected_schemas_nonempty, select_schemas, selected_schemas, string_views,
};

verus! {

/// The next catalog query the driver is to run.
#[derive(Debug)]
pub enum Action {
    /// Ask the session for the current database's name.
    FetchDatabaseName,
    /// Look up the database's shared comment, if any.
    FetchComment { database: String },
    /// Resolve a schema name to its object id.
    FetchSchemaOid { schema: String },
    /// List the relations of the schema with the given object id.
    FetchRelations { schema_oid: i32 },
    /// List the attribute rows of the relation with the given object id.
    FetchColumns { relation_oid: i32 },
}

/// Mathematical view of an [`Action`].
#[verifier::ext_equal]
pub enum ActionV {
    FetchDatabaseName,
    FetchComment { database: Seq<char> },
    FetchSchemaOid { schema: Seq<char> },
    FetchRelations { schema_oid: int },
    FetchColumns { relation_oid: int },
}

impl View for Action {
    type V = ActionV;

    open spec fn view(&self) -> ActionV {
        match self {
            Action::FetchDatabaseName => ActionV::FetchDatabaseName,
            Action::FetchComment { database } => ActionV::FetchComment { database: database@ },
            Action::FetchSchemaOid { schema } => ActionV::FetchSchemaOid { schema: schema@ },
            Action::FetchRelations { schema_oid } => ActionV::FetchRelations {
                schema_oid: *schema_oid as int,
            },
            Action::FetchColumns { relation_oid } => ActionV::FetchColumns {
                relation_oid: *relation_oid as int,
            },
        }
    }
}

pub open spec fn oid_views(s: Seq<i32>) -> Seq<int> {
    s.map_values(|x: i32| x as int)
}

/// What a catalog round-trip handed back.
#[derive(Debug)]
pub enum Event {
    /// The rows answering [`Action::FetchDatabaseName`], one string each.
    DatabaseNameRows(Vec<String>),
    /// The shared comment answering [`Action::FetchComment`], absent when
    /// the database carries none.
    CommentRow(Option<String>),
    /// The object ids answering [`Action::FetchSchemaOid`].
    SchemaOidRows(Vec<i32>),
    /// The rows answering [`Action::FetchRelations`], kinds unfiltered.
    RelationRows(Vec<RelationRow>),
    /// The rows answering [`Action::FetchColumns`], system attributes
    /// included, in whatever order the catalog yielded.
    ColumnRows(Vec<ColumnRow>),
    /// The round-trip itself failed.
    QueryFailed,
}

/// Mathematical view of an [`Event`].
#[verifier::ext_equal]
pub enum EventV {
    DatabaseNameRows(Seq<Seq<char>>),
    CommentRow(Option<Seq<char>>),
    SchemaOidRows(Seq<int>),
    RelationRows(Seq<RelationRowV>),
    ColumnRows(Seq<ColumnRowV>),
    QueryFailed,
}

impl View for Event {
    type V = EventV;

    open spec fn view(&self) -> EventV {
        match self {
            Event::DatabaseNameRows(rows) => EventV::DatabaseNameRows(string_views(rows@)),
            Event::CommentRow(c) => EventV::CommentRow(comment_view(*c)),
            Event::SchemaOidRows(rows) => EventV::SchemaOidRows(oid_views(rows@)),
            Event::RelationRows(rows) => EventV::RelationRows(relation_row_views(rows@)),
            Event::ColumnRows(rows) => EventV::ColumnRows(column_row_views(rows@)),
            Event::QueryFailed => EventV::QueryFailed,
        }
    }
}

/// Where a build stands between two round-trips.
///
/// The schema being worked on is always `names[built.len()]`, and in
/// `AwaitingColumns` the relation being worked on is
/// `rels[rel_built.len()]`: completed work stands in `built` and
/// `rel_built`, in its final order.
#[derive(Debug)]
pub enum BuildState {
    /// The database name round-trip is in flight.
    AwaitingDatabaseName,
    /// The shared-comment round-trip is in flight.
    AwaitingComment { database: String },
    /// Resolving the name `names[built.len()]` to an object id.
    AwaitingSchemaOid { database: String, names: Vec<String>, built: Vec<Schema> },
    /// Listing the relations of the schema `names[built.len()]`.
    AwaitingRelations { database: String, names: Vec<String>, built: Vec<Schema> },
    /// Fetching the columns of `rels[rel_built.len()]` within the schema
    /// `names[built.len()]`.
    AwaitingColumns {
        database: String,
        names: Vec<String>,
        built: Vec<Schema>,
        rels: Vec<RelationRow>,
        rel_built: Vec<Relation>,
    },
}

/// Mathematical view of a [`BuildState`].
#[verifier::ext_equal]
pub enum BuildStateV {
    AwaitingDatabaseName,
    AwaitingComment { database: Seq<char> },
    AwaitingSchemaOid { database: Seq<char>, names: Seq<Seq<char>>, built: Seq<SchemaV> },
    AwaitingRelations { database: Seq<char>, names: Seq<Seq<char>>, built: Seq<SchemaV> },
    AwaitingColumns {
        database: Seq<char>,
        names: Seq<Seq<char>>,
        built: Seq<SchemaV>,
        rels: Seq<RelationRowV>,
        rel_built: Seq<RelationV>,
    },
}

impl View for BuildState {
    type V = BuildStateV;

    open spec fn view(&self) -> BuildStateV {
        match self {
            BuildState::AwaitingDatabaseName => BuildStateV::AwaitingDatabaseName,
            BuildState::AwaitingComment { database } => BuildStateV::AwaitingComment {
                database: database@,
            },
            BuildState::AwaitingSchemaOid { database, names, built } => {
                BuildStateV::AwaitingSchemaOid {
                    database: database@,
                    names: string_views(names@),
                    built: schema_views(built@),
                }
            },
            BuildState::AwaitingRelations { database, names, built } => {
                BuildStateV::AwaitingRelations {
                    database: database@,
                    names: string_views(names@),
                    built: schema_views(built@),
                }
            },
            BuildState::AwaitingColumns { database, names, built, rels, rel_built } => {
                BuildStateV::AwaitingColumns {
                    database: database@,
                    names: string_views(names@),
                    built: schema_views(built@),
                    rels: relation_row_views(rels@),
                    rel_built: relation_views(rel_built@),
                }
            },
        }
    }
}

/// What one step of the machine decided.
#[derive(Debug)]
pub enum StepOutcome {
    /// The build goes on: the driver is to run `action` and hand the
    /// answer back together with `state`.
    Proceed { state: BuildState, action: Action },
    /// The build is finished; the whole tree stands in `result`.
    Complete { result: Introspection },
    /// The build failed; nothing of it is observable but the error.
    Failed { error: IntrospectionError },
}

/// Mathematical view of a [`StepOutcome`].
#[verifier::ext_equal]
pub enum StepOutcomeV {
    Proceed { state: BuildStateV, action: ActionV },
    Complete { result: IntrospectionV },
    Failed { error: IntrospectionError },
}

impl View for StepOutcome {
    type V = StepOutcomeV;

    open spec fn view(&self) -> StepOutcomeV {
        match self {
            StepOutcome::Proceed { state, action } => StepOutcomeV::Proceed {
                state: state@,
                action: action@,
            },
            StepOutcome::Complete { result } => StepOutcomeV::Complete { result: result@ },
            StepOutcome::Failed { error } => StepOutcomeV::Failed { error: *error },
        }
    }
}

/// The structural bounds a state carries between steps: work still to do
/// exists wherever the machine is waiting for an answer about it.
pub open spec fn state_wf(s: BuildStateV) -> bool {
    match s {
        BuildStateV::AwaitingDatabaseName => true,
        BuildStateV::AwaitingComment { .. } => true,
        BuildStateV::AwaitingSchemaOid { names, built, .. } => built.len() < names.len(),
        BuildStateV::AwaitingRelations { names, built, .. } => built.len() < names.len(),
        BuildStateV::AwaitingColumns { names, built, rels, rel_built, .. } => built.len()
            < names.len() && rel_built.len() < rels.len(),
    }
}

/// How a schema just finished joins the build: the tree completes when it
/// was the last selected name, otherwise resolution of the next name
/// begins. Schema order is the order of `names` alone.
pub open spec fn finish_schema_v(
    database: Seq<char>,
    names: Seq<Seq<char>>,
    built: Seq<SchemaV>,
    relations: Seq<RelationV>,
) -> StepOutcomeV {
    let built2 = built.push(SchemaV { name: names[built.len() as int], relations });
    if built2.len() == names.len() {
        StepOutcomeV::Complete {
            result: IntrospectionV { database: DatabaseV { name: database, schemas: built2 } },
        }
    } else {
        StepOutcomeV::Proceed {
            state: BuildStateV::AwaitingSchemaOid { database, names, built: built2 },
            action: ActionV::FetchSchemaOid { schema: names[built2.len() as int] },
        }
    }
}

/// The machine's transition function: what one answered round-trip does
/// to the build. A failed round-trip, or an answer that does not fit the
/// pending question, fails the build with a catalog query error; every
/// error is final.
pub open spec fn step_v(s: BuildStateV, e: EventV) -> StepOutcomeV
    recommends
        state_wf(s),
{
    match (s, e) {
        (_, EventV::QueryFailed) => StepOutcomeV::Failed {
            error: IntrospectionError::CatalogQueryError,
        },
        (BuildStateV::AwaitingDatabaseName, EventV::DatabaseNameRows(rows)) => {
            if rows.len() == 1 {
                StepOutcomeV::Proceed {
                    state: BuildStateV::AwaitingComment { database: rows[0] },
                    action: ActionV::FetchComment { database: rows[0] },
                }
            } else {
                StepOutcomeV::Failed { error: IntrospectionError::CardinalityError }
            }
        },
        (BuildStateV::AwaitingComment { database }, EventV::CommentRow(comment)) => {
            let names = selected_schemas(comment);
            StepOutcomeV::Proceed {
                state: BuildStateV::AwaitingSchemaOid {
                    database,
                    names,
                    built: Seq::empty(),
                },
                action: ActionV::FetchSchemaOid { schema: names[0] },
            }
        },
        (
            BuildStateV::AwaitingSchemaOid { database, names, built },
            EventV::SchemaOidRows(rows),
        ) => {
            if rows.len() == 0 {
                StepOutcomeV::Failed { error: IntrospectionError::NotFoundError }
            } else if rows.len() == 1 {
                StepOutcomeV::Proceed {
                    state: BuildStateV::AwaitingRelations { database, names, built },
                    action: ActionV::FetchRelations { schema_oid: rows[0] },
                }
            } else {
                StepOutcomeV::Failed { error: IntrospectionError::CardinalityError }
            }
        },
        (
            BuildStateV::AwaitingRelations { database, names, built },
            EventV::RelationRows(rows),
        ) => {
            let rels = kept_relations(rows);
            if rels.len() == 0 {
                finish_schema_v(database, names, built, Seq::empty())
            } else {
                StepOutcomeV::Proceed {
                    state: BuildStateV::AwaitingColumns {
                        database,
                        names,
                        built,
                        rels,
                        rel_built: Seq::empty(),
                    },
                    action: ActionV::FetchColumns { relation_oid: rels[0].oid },
                }
            }
        },
        (
            BuildStateV::AwaitingColumns { database, names, built, rels, rel_built },
            EventV::ColumnRows(rows),
        ) => {
            let rel = RelationV {
                name: rels[rel_built.len() as int].name,
                columns: columns_of_rows(rows),
            };
            let rel_built2 = rel_built.push(rel);
            if rel_built2.len() < rels.len() {
                StepOutcomeV::Proceed {
                    state: BuildStateV::AwaitingColumns {
                        database,
                        names,
                        built,
                        rels,
                        rel_built: rel_built2,
                    },
                    action: ActionV::FetchColumns {
                        relation_oid: rels[rel_built2.len() as int].oid,
                    },
                }
            } else {
                finish_schema_v(database, names, built, rel_built2)
            }
        },
        (_, _) => StepOutcomeV::Failed { error: IntrospectionError::CatalogQueryError },
    }
}

/// The selected names a state carries, empty before selection happened.
pub open spec fn names_of(s: BuildStateV) -> Seq<Seq<char>> {
    match s {
        BuildStateV::AwaitingSchemaOid { names, .. } => names,
        BuildStateV::AwaitingRelations { names, .. } => names,
        BuildStateV::AwaitingColumns { names, .. } => names,
        _ => Seq::empty(),
    }
}

/// The database name a state carries, empty before it was determined.
pub open spec fn database_of(s: BuildStateV) -> Seq<char> {
    match s {
        BuildStateV::AwaitingComment { database } => database,
        BuildStateV::AwaitingSchemaOid { database, .. } => database,
        BuildStateV::AwaitingRelations { database, .. } => database,
        BuildStateV::AwaitingColumns { database, .. } => database,
        _ => Seq::empty(),
    }
}

/// The schemas built so far stand under the selected names, in selector
/// order: `built[i]` is named `names[i]`.
pub open spec fn schemas_follow_names(s: BuildStateV) -> bool {
    match s {
        BuildStateV::AwaitingSchemaOid { names, built, .. } => forall|i: int|
            0 <= i < built.len() ==> built[i].name == names[i],
        BuildStateV::AwaitingRelations { names, built, .. } => forall|i: int|
            0 <= i < built.len() ==> built[i].name == names[i],
        BuildStateV::AwaitingColumns { names, built, .. } => forall|i: int|
            0 <= i < built.len() ==> built[i].name == names[i],
        _ => true,
    }
}

/// Every step keeps the machine well formed and keeps the built schemas
/// under the selected names in selector order; a step that continues
/// also keeps the selection and the database name themselves, once a
/// state carries them.
pub proof fn lemma_step_preserves_order(s: BuildStateV, e: EventV)
    requires
        state_wf(s),
        schemas_follow_names(s),
    ensures
        step_v(s, e) matches StepOutcomeV::Proceed { state, .. } ==> state_wf(state)
            && schemas_follow_names(state),
{
    match (s, e) {
        (BuildStateV::AwaitingComment { .. }, EventV::CommentRow(comment)) => {
            lemma_selected_schemas_nonempty(comment);
        },
        _ => {},
    }
}

/// Selector order wins over catalog return order: when a step completes
/// the build, the database lists exactly the selected schema names, in
/// the selector's order, under the database name determined at the
/// start. (No other step outcome makes a tree observable.)
pub proof fn lemma_completion_follows_selection(s: BuildStateV, e: EventV)
    requires
        state_wf(s),
        schemas_follow_names(s),
    ensures
        step_v(s, e) matches StepOutcomeV::Complete { result } ==> {
            &&& result.database.name == database_of(s)
            &&& result.database.schemas.len() == names_of(s).len()
            &&& forall|i: int|
                0 <= i < names_of(s).len() ==> result.database.schemas[i].name == names_of(s)[i]
        },
{
}

/// A selected schema name that resolves to no object id fails the whole
/// build with the not-found error: no tree value can come out of it, no
/// matter what had already resolved.
pub proof fn lemma_unresolved_schema_fails(s: BuildStateV)
    requires
        s is AwaitingSchemaOid,
    ensures
        step_v(s, EventV::SchemaOidRows(Seq::empty())) == (StepOutcomeV::Failed {
            error: IntrospectionError::NotFoundError,
        }),
{
}

/// Fail-fast: a failed round-trip at any point fails the whole build at
/// once, with the catalog query error.
pub proof fn lemma_query_failure_is_fatal(s: BuildStateV)
    ensures
        step_v(s, EventV::QueryFailed) == (StepOutcomeV::Failed {
            error: IntrospectionError::CatalogQueryError,
        }),
{
}

/// Exec check of [`state_wf`], for a driver that must establish `step`'s
/// precondition before calling it.
pub fn state_is_wf(state: &BuildState) -> (b: bool)
    ensures
        b == state_wf(state@),
{
    match state {
        BuildState::AwaitingDatabaseName => true,
        BuildState::AwaitingComment { .. } => true,
        BuildState::AwaitingSchemaOid { names, built, .. } => built.len() < names.len(),
        BuildState::AwaitingRelations { names, built, .. } => built.len() < names.len(),
        BuildState::AwaitingColumns { names, built, rels, rel_built, .. } => built.len()
            < names.len() && rel_built.len() < rels.len(),
    }
}

/// The state and first query of a fresh build: everything begins with the
/// database's name.
pub fn start() -> (r: (BuildState, Action))
    ensures
        r.0@ == BuildStateV::AwaitingDatabaseName,
        r.1@ == ActionV::FetchDatabaseName,
        state_wf(r.0@),
{
    (BuildState::AwaitingDatabaseName, Action::FetchDatabaseName)
}

fn finish_schema(
    database: String,
    names: Vec<String>,
    built: Vec<Schema>,
    relations: Vec<Relation>,
) -> (r: StepOutcome)
    requires
        built@.len() < names@.len(),
    ensures
        r@ == finish_schema_v(
            database@,
            string_views(names@),
            schema_views(built@),
            relation_views(relations@),
        ),
{
    let ghost spec_r = finish_schema_v(
        database@,
        string_views(names@),
        schema_views(built@),
        relation_views(relations@),
    );
    let name = names[built.len()].clone();
    let schema = Schema { name, relations };
    let ghost prev = built@;
    let mut built = built;
    built.push(schema);
    proof {
        lemma_schema_views_push(prev, schema);
    }
    if built.len() == names.len() {
        let r = StepOutcome::Complete {
            result: Introspection { database: Database::new(database, built) },
        };
        proof {
            assert(r@ =~~= spec_r);
        }
        r
    } else {
        let next = names[built.len()].clone();
        let r = StepOutcome::Proceed {
            state: BuildState::AwaitingSchemaOid { database, names, built },
            action: Action::FetchSchemaOid { schema: next },
        };
        proof {
            assert(r@ =~~= spec_r);
        }
        r
    }
}

/// One step of the build: consumes the answer to the pending query and
/// decides what happens next, exactly as [`step_v`] says.
pub fn step(state: BuildState, event: Event) -> (r: StepOutcome)
    requires
        state_wf(state@),
    ensures
        r@ == step_v(state@, event@),
{
    let ghost spec_r = step_v(state@, event@);
    match (state, event) {
        (_, Event::QueryFailed) => StepOutcome::Failed {
            error: IntrospectionError::CatalogQueryError,
        },
        (BuildState::AwaitingDatabaseName, Event::DatabaseNameRows(rows)) => {
            match database_name_from_rows(rows) {
                Result::Ok(name) => {
                    let action_name = name.clone();
                    let r = StepOutcome::Proceed {
                        state: BuildState::AwaitingComment { database: name },
                        action: Action::FetchComment { database: action_name },
                    };
                    proof {
                        assert(r@ =~~= spec_r);
                    }
                    r
                },
                Result::Err(error) => StepOutcome::Failed { error },
            }
        },
        (BuildState::AwaitingComment { database }, Event::CommentRow(comment)) => {
            let names = select_schemas(&comment);
            proof {
                lemma_selected_schemas_nonempty(comment_view(comment));
            }
            let schema = names[0].clone();
            let r = StepOutcome::Proceed {
                state: BuildState::AwaitingSchemaOid { database, names, built: Vec::new() },
                action: Action::FetchSchemaOid { schema },
            };
            proof {
                assert(schema_views(Seq::<Schema>::empty()) =~= Seq::<SchemaV>::empty());
                assert(r@ =~~= spec_r);
            }
            r
        },
        (
            BuildState::AwaitingSchemaOid { database, names, built },
            Event::SchemaOidRows(rows),
        ) => {
            match schema_oid_from_rows(&rows) {
                Result::Ok(schema_oid) => {
                    let r = StepOutcome::Proceed {
                        state: BuildState::AwaitingRelations { database, names, built },
                        action: Action::FetchRelations { schema_oid },
                    };
                    proof {
                        assert(r@ =~~= spec_r);
                    }
                    r
                },
                Result::Err(error) => StepOutcome::Failed { error },
            }
        },
        (
            BuildState::AwaitingRelations { database, names, built },
            Event::RelationRows(rows),
        ) => {
            let rels = filter_relations(&rows);
            if rels.len() == 0 {
                let r = finish_schema(database, names, built, Vec::new());
                proof {
                    assert(relation_views(Seq::<Relation>::empty())
                        =~= Seq::<RelationV>::empty());
                    assert(r@ =~~= spec_r);
                }
                r
            } else {
                let relation_oid = rels[0].oid;
                let r = StepOutcome::Proceed {
                    state: BuildState::AwaitingColumns {
                        database,
                        names,
                        built,
                        rels,
                        rel_built: Vec::new(),
                    },
                    action: Action::FetchColumns { relation_oid },
                };
                proof {
                    assert(relation_views(Seq::<Relation>::empty())
                        =~= Seq::<RelationV>::empty());
                    assert(r@ =~~= spec_r);
                }
                r
            }
        },
        (
            BuildState::AwaitingColumns { database, names, built, rels, rel_built },
            Event::ColumnRows(rows),
        ) => {
            let columns = columns_from_rows(&rows);
            let name = rels[rel_built.len()].name.clone();
            let relation = Relation { name, columns };
            let ghost prev = rel_built@;
            let mut rel_built = rel_built;
            rel_built.push(relation);
            proof {
                lemma_relation_views_push(prev, relation);
            }
            if rel_built.len() < rels.len() {
                let relation_oid = rels[rel_built.len()].oid;
                let r = StepOutcome::Proceed {
                    state: BuildState::AwaitingColumns {
                        database,
                        names,
                        built,
                        rels,
                        rel_built,
                    },
                    action: Action::FetchColumns { relation_oid },
                };
                proof {
                    assert(r@ =~~= spec_r);
                }
                r
            } else {
                let r = finish_schema(database, names, built, rel_built);
                proof {
                    assert(r@ =~~= spec_r);
                }
                r
            }
        },
        (_, _) => StepOutcome::Failed { error: IntrospectionError::CatalogQueryError },
    }
}

} // verus!
