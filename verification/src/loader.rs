//! The loader: configuration with a single validating constructor, and
//! the transactional apply protocol as an explicit state machine. A load
//! runs `Idle -> Checking -> Applying -> Committed` or ends in
//! `RolledBack`; the driver layer performs each requested piece of
//! database work and reports its outcome back, and every decision in
//! between — the safety check, change detection, statement order, commit
//! or rollback, checksum bookkeeping — is made and proved here.

use crate::checksum::{is_table_modified, spec_is_table_modified, spec_lookup, ChecksumMap};
use crate::error::{FixtureError, FixtureErrorModel};
use crate::fixture_file::{FixtureFile, FixtureFileModel, InsertSqlModel};
use crate::record_source::spec_records_of;
use crate::value::{duplicate_params, lemma_deep_view_push, SqlParam, SqlParamModel};
use vstd::prelude::*;

verus! {

/// The timezone location all datetime coercion of a load is interpreted
/// in, as minutes east of UTC. Coerced datetimes are bound in naive local
/// form, so the offset travels to the driver layer unused by compilation;
/// a load is refused without one all the same, as an explicit choice.
#[derive(Clone, Copy, PartialEq, Eq, Structural, Debug)]
pub struct Location {
    pub utc_offset_minutes: i32,
}

impl Location {
    /// Coordinated universal time.
    pub fn utc() -> (r: Location)
        ensures
            r.utc_offset_minutes == 0,
    {
        Location { utc_offset_minutes: 0 }
    }
}

/// One fixture source handed to the loader: a path and the text read from
/// it. Reading is the caller's affair; the library never touches a file
/// system.
#[derive(Clone, Debug)]
pub struct FixtureSource {
    pub path: String,
    pub content: String,
}

/// The mathematical model of a [`FixtureSource`].
pub struct FixtureSourceModel {
    pub path: Seq<char>,
    pub content: Seq<char>,
}

impl View for FixtureSource {
    type V = FixtureSourceModel;

    open spec fn view(&self) -> FixtureSourceModel {
        FixtureSourceModel { path: self.path@, content: self.content@ }
    }
}

impl DeepView for FixtureSource {
    type V = FixtureSourceModel;

    open spec fn deep_view(&self) -> FixtureSourceModel {
        self.view()
    }
}

/// The loader's configuration: named fields, filled by the caller,
/// validated once by [`Loader::new`].
#[derive(Clone, Debug)]
pub struct LoaderConfig {
    pub sources: Vec<FixtureSource>,
    pub skip_test_database_check: bool,
    pub location: Option<Location>,
}

impl LoaderConfig {
    /// An empty configuration: no sources, the safety check on, no
    /// location chosen yet.
    pub fn new() -> (r: LoaderConfig)
        ensures
            r.sources@.len() == 0,
            !r.skip_test_database_check,
            r.location is None,
    {
        LoaderConfig { sources: Vec::new(), skip_test_database_check: false, location: None }
    }

    /// Sets the timezone location.
    pub fn location(&mut self, location: Location)
        ensures
            final(self).location == Some(location),
            final(self).sources == old(self).sources,
            final(self).skip_test_database_check == old(self).skip_test_database_check,
    {
        self.location = Some(location);
    }

    /// Turns the test-database safety check off.
    pub fn skip_test_database_check(&mut self)
        ensures
            final(self).skip_test_database_check,
            final(self).sources == old(self).sources,
            final(self).location == old(self).location,
    {
        self.skip_test_database_check = true;
    }

    /// Appends fixture sources, keeping the order they are given in.
    pub fn files(&mut self, sources: Vec<FixtureSource>)
        ensures
            final(self).sources@ == old(self).sources@ + sources@,
            final(self).skip_test_database_check == old(self).skip_test_database_check,
            final(self).location == old(self).location,
    {
        let mut sources = sources;
        self.sources.append(&mut sources);
    }
}

/// The loader: owns the compiled fixture files, the safety-check flag,
/// the location, and the per-table checksum store. Created once per test
/// suite; loads may be run against it repeatedly.
#[derive(Debug)]
pub struct Loader {
    pub fixture_files: Vec<FixtureFile>,
    pub skip_test_database_check: bool,
    pub location: Option<Location>,
    pub tables_checksum: ChecksumMap,
}

impl Default for Loader {
    /// A loader with nothing configured: no fixture files, the safety
    /// check on, no location, and an empty checksum store.
    fn default() -> (r: Loader)
        ensures
            r.fixture_files@.len() == 0,
            !r.skip_test_database_check,
            r.location is None,
            r.tables_checksum@.len() == 0,
    {
        Loader {
            fixture_files: Vec::new(),
            skip_test_database_check: false,
            location: None,
            tables_checksum: ChecksumMap::new(),
        }
    }
}

/// The name looks like a test database's: it ends with `test`.
pub open spec fn spec_is_test_database(name: Seq<char>) -> bool {
    &&& name.len() >= 4
    &&& name[name.len() - 4] == 't'
    &&& name[name.len() - 3] == 'e'
    &&& name[name.len() - 2] == 's'
    &&& name[name.len() - 1] == 't'
}

/// The safety check: refuses to run destructive statements against a
/// database whose name does not look like a test database's, reporting
/// the offending name.
pub fn ensure_test_database(name: &str) -> (r: Result<(), FixtureError>)
    ensures
        r is Ok <==> spec_is_test_database(name@),
        r matches Err(e) ==> e@ == (FixtureErrorModel::DatabaseCheck { database_name: name@ }),
{
    let n = name.unicode_len();
    let ok = n >= 4 && name.get_char(n - 4) == 't' && name.get_char(n - 3) == 'e' && name.get_char(
        n - 2,
    ) == 's' && name.get_char(n - 1) == 't';
    if ok {
        Ok(())
    } else {
        Err(FixtureError::DatabaseCheck { database_name: name.to_owned() })
    }
}

/// What `Loader::new` guarantees of each compiled fixture file: its path
/// and derived file name, and its statements compiled from exactly what
/// its source parses to.
pub open spec fn spec_file_from_source(f: FixtureFileModel, s: FixtureSourceModel) -> bool {
    &&& f.path == s.path
    &&& f.file_name == crate::text::spec_base_name(s.path)
    &&& f.insert_sqls == crate::fixture_file::spec_compile_records(
        crate::text::spec_file_stem(crate::text::spec_base_name(s.path)),
        spec_records_of(s.content).unwrap(),
    )
}

impl Loader {
    /// Validates a configuration and compiles every fixture source, in
    /// order. A missing location is refused before anything else; the
    /// constructor succeeds exactly when a location is set and every
    /// source parses as a list of records, and then every fixture file
    /// is compiled from its source. A source that does not parse is a
    /// fatal compilation error naming the first such source's path, and
    /// no loader is produced.
    pub fn new(config: LoaderConfig) -> (r: Result<Loader, FixtureError>)
        ensures
            config.location is None <==> (r is Err && r->Err_0@ is MissingLocation),
            r is Ok <==> (config.location is Some && forall|j: int|
                0 <= j < config.sources@.len() ==> spec_records_of(
                    (#[trigger] config.sources.deep_view()[j]).content,
                ) is Some),
            config.location is Some ==> (r matches Err(e) ==> exists|j: int|
                {
                    &&& 0 <= j < config.sources@.len()
                    &&& spec_records_of(
                        (#[trigger] config.sources.deep_view()[j]).content,
                    ) is None
                    &&& forall|k: int|
                        0 <= k < j ==> spec_records_of(
                            (#[trigger] config.sources.deep_view()[k]).content,
                        ) is Some
                    &&& e@ == (FixtureErrorModel::InvalidFixtureFile {
                        path: config.sources.deep_view()[j].path,
                    })
                }),
            r matches Ok(loader) ==> {
                &&& loader.location == config.location
                &&& loader.skip_test_database_check == config.skip_test_database_check
                &&& loader.tables_checksum@.len() == 0
                &&& loader.fixture_files@.len() == config.sources@.len()
                &&& forall|j: int|
                    0 <= j < config.sources@.len() ==> spec_file_from_source(
                        #[trigger] loader.fixture_files.deep_view()[j],
                        config.sources.deep_view()[j],
                    )
            },
    {
        if config.location.is_none() {
            return Err(FixtureError::MissingLocation);
        }
        let mut fixture_files: Vec<FixtureFile> = Vec::new();
        let n = config.sources.len();
        let ghost cfg0 = config;
        for i in 0..n
            invariant
                config == cfg0,
                config.location is Some,
                n == config.sources.len(),
                fixture_files.len() == i,
                forall|j: int|
                    0 <= j < i ==> spec_records_of(
                        (#[trigger] config.sources.deep_view()[j]).content,
                    ) is Some,
                forall|j: int|
                    0 <= j < i ==> spec_file_from_source(
                        #[trigger] fixture_files.deep_view()[j],
                        config.sources.deep_view()[j],
                    ),
        {
            let source = &config.sources[i];
            let file = match FixtureFile::from_source(
                source.path.clone(),
                source.content.as_str(),
            ) {
                Ok(file) => file,
                Err(e) => {
                    proof {
                        assert(spec_records_of(
                            config.sources.deep_view()[i as int].content,
                        ) is None);
                        assert(config.sources.deep_view()[i as int].path
                            == config.sources@[i as int]@.path);
                    }
                    return Err(e);
                },
            };
            let ghost prev = fixture_files.deep_view();
            fixture_files.push(file);
            proof {
                assert(spec_records_of(config.sources.deep_view()[i as int].content) is Some);
                assert forall|j: int| 0 <= j < i + 1 implies spec_file_from_source(
                    #[trigger] fixture_files.deep_view()[j],
                    config.sources.deep_view()[j],
                ) by {
                    if j < i {
                        assert(fixture_files.deep_view()[j] == prev[j]);
                    } else {
                        assert(fixture_files.deep_view()[j] == fixture_files@[j].deep_view());
                        assert(config.sources.deep_view()[j].path == config.sources@[j]@.path);
                        assert(config.sources.deep_view()[j].content
                            == config.sources@[j]@.content);
                    }
                }
            }
        }
        Ok(
            Loader {
                fixture_files,
                skip_test_database_check: config.skip_test_database_check,
                location: config.location,
                tables_checksum: ChecksumMap::new(),
            },
        )
    }

    /// Opens a fresh load cycle against this loader's fixture files.
    pub fn begin_load(&self) -> (s: LoadSession)
        ensures
            s@.state == LoadState::Checking,
            s@.needs_database_check == !self.skip_test_database_check,
            s@.plan.len() == 0,
            s@.processed_tables.len() == 0,
            s@.executed == 0,
            !s@.failed,
            !s@.checksums_recorded,
    {
        let s = LoadSession {
            state: LoadState::Checking,
            needs_database_check: !self.skip_test_database_check,
            plan: Vec::new(),
            processed_tables: Vec::new(),
            executed: 0,
            failed: false,
            checksums_recorded: false,
        };
        proof {
            assert(s@.plan =~= Seq::<PlanStepModel>::empty());
            assert(s@.processed_tables =~= Seq::<Seq<char>>::empty());
        }
        s
    }
}

/// One unit of database work of a load, in execution order.
#[derive(Clone, Debug)]
pub enum PlanStep {
    /// Suspend (`false`) or restore (`true`) referential-integrity
    /// enforcement; the dialect adapter phrases the statement.
    ForeignKeyChecks(bool),
    /// Run one compiled statement — a DELETE (no parameters) or an
    /// INSERT — with its bound parameters.
    Statement { sql: String, params: Vec<SqlParam> },
}

/// The mathematical model of a [`PlanStep`].
pub enum PlanStepModel {
    ForeignKeyChecks(bool),
    Statement { sql: Seq<char>, params: Seq<SqlParamModel> },
}

impl View for PlanStep {
    type V = PlanStepModel;

    open spec fn view(&self) -> PlanStepModel {
        match self {
            PlanStep::ForeignKeyChecks(enabled) => PlanStepModel::ForeignKeyChecks(*enabled),
            PlanStep::Statement { sql, params } => PlanStepModel::Statement {
                sql: sql@,
                params: params.deep_view(),
            },
        }
    }
}

impl DeepView for PlanStep {
    type V = PlanStepModel;

    open spec fn deep_view(&self) -> PlanStepModel {
        self.view()
    }
}

/// The statements one fixture file contributes when its table is loaded:
/// its DELETE, then its INSERTs, in record order.
pub open spec fn spec_file_statements(f: FixtureFileModel) -> Seq<PlanStepModel> {
    seq![PlanStepModel::Statement { sql: f.spec_delete_sql(), params: Seq::empty() }]
        + f.insert_sqls.map_values(
        |ins: InsertSqlModel| PlanStepModel::Statement { sql: ins.sql, params: ins.params },
    )
}

/// Whether a file's table must be reloaded, given the stored checksums
/// and the freshly computed one.
pub open spec fn spec_file_changed(
    f: FixtureFileModel,
    stored: Seq<(Seq<char>, i64)>,
    fresh: Option<i64>,
) -> bool {
    spec_is_table_modified(spec_lookup(stored, f.spec_table()), fresh)
}

/// The statements of every changed file, in file order.
pub open spec fn spec_plan_body(
    files: Seq<FixtureFileModel>,
    stored: Seq<(Seq<char>, i64)>,
    fresh: Seq<Option<i64>>,
) -> Seq<PlanStepModel>
    decreases files.len(),
{
    if files.len() == 0 {
        Seq::empty()
    } else {
        spec_plan_body(files.drop_last(), stored, fresh.take(files.len() - 1)) + (
        if spec_file_changed(files.last(), stored, fresh[files.len() - 1]) {
            spec_file_statements(files.last())
        } else {
            Seq::empty()
        })
    }
}

/// The tables of the changed files, in file order.
pub open spec fn spec_changed_tables(
    files: Seq<FixtureFileModel>,
    stored: Seq<(Seq<char>, i64)>,
    fresh: Seq<Option<i64>>,
) -> Seq<Seq<char>>
    decreases files.len(),
{
    if files.len() == 0 {
        Seq::empty()
    } else {
        let rest = spec_changed_tables(files.drop_last(), stored, fresh.take(files.len() - 1));
        if spec_file_changed(files.last(), stored, fresh[files.len() - 1]) {
            rest.push(files.last().spec_table())
        } else {
            rest
        }
    }
}

/// The whole plan of one load round: nothing at all when no table
/// changed, otherwise the changed files' statements bracketed by the
/// foreign-key suspension and restoration.
pub open spec fn spec_build_plan(
    files: Seq<FixtureFileModel>,
    stored: Seq<(Seq<char>, i64)>,
    fresh: Seq<Option<i64>>,
) -> Seq<PlanStepModel> {
    let body = spec_plan_body(files, stored, fresh);
    if body.len() == 0 {
        Seq::empty()
    } else {
        seq![PlanStepModel::ForeignKeyChecks(false)] + body + seq![
            PlanStepModel::ForeignKeyChecks(true),
        ]
    }
}

/// A fixture file whose table did not change — whose freshly computed
/// checksum is non-zero and equals the stored one, for every file — adds
/// nothing to a load round: the plan is empty, no DELETE or INSERT is
/// queued for any table, and nothing runs inside a transaction.
pub proof fn lemma_unchanged_tables_are_skipped(
    files: Seq<FixtureFileModel>,
    stored: Seq<(Seq<char>, i64)>,
    fresh: Seq<Option<i64>>,
)
    requires
        fresh.len() == files.len(),
        forall|i: int|
            0 <= i < files.len() ==> !spec_file_changed(#[trigger] files[i], stored, fresh[i]),
    ensures
        spec_build_plan(files, stored, fresh) == Seq::<PlanStepModel>::empty(),
        spec_changed_tables(files, stored, fresh) == Seq::<Seq<char>>::empty(),
    decreases files.len(),
{
    if files.len() == 0 {
        assert(spec_plan_body(files, stored, fresh) =~= Seq::<PlanStepModel>::empty());
    } else {
        let shorter = files.drop_last();
        assert(forall|i: int|
            0 <= i < shorter.len() ==> !spec_file_changed(#[trigger] shorter[i], stored, fresh.take(
                files.len() - 1,
            )[i]));
        lemma_unchanged_tables_are_skipped(shorter, stored, fresh.take(files.len() - 1));
        assert(!spec_file_changed(files.last(), stored, fresh[files.len() - 1]));
        assert(spec_plan_body(files, stored, fresh) =~= Seq::<PlanStepModel>::empty());
    }
}

/// A fixture file with zero records compiles to exactly one statement:
/// its unconditional DELETE, with no parameters — and no INSERT.
pub proof fn lemma_empty_file_compiles_to_delete_only(f: FixtureFileModel)
    requires
        f.insert_sqls.len() == 0,
    ensures
        spec_file_statements(f).len() == 1,
        spec_file_statements(f)[0] == (PlanStepModel::Statement {
            sql: f.spec_delete_sql(),
            params: Seq::empty(),
        }),
{
}

/// Running no operations at all — the whole plan of a round in which no
/// table changed — leaves every table's rows exactly as they were.
pub proof fn lemma_empty_plan_preserves_rows(rows: Seq<Seq<SqlParamModel>>)
    ensures
        spec_apply_ops(Seq::<TableOp>::empty(), rows) == rows,
{
}

/// What one load does to one table's rows: each row is the bound
/// parameter list of the INSERT that put it there.
pub enum TableOp {
    /// Clear the whole table.
    DeleteAll,
    /// Append one row.
    Insert { params: Seq<SqlParamModel> },
}

/// The operations one fixture file performs on its table: clear it, then
/// insert every record, in record order.
pub open spec fn spec_file_ops(f: FixtureFileModel) -> Seq<TableOp> {
    seq![TableOp::DeleteAll] + f.insert_sqls.map_values(
        |ins: InsertSqlModel| TableOp::Insert { params: ins.params },
    )
}

/// Runs table operations, in order, over a table's rows.
pub open spec fn spec_apply_ops(
    ops: Seq<TableOp>,
    rows: Seq<Seq<SqlParamModel>>,
) -> Seq<Seq<SqlParamModel>>
    decreases ops.len(),
{
    if ops.len() == 0 {
        rows
    } else {
        let earlier = spec_apply_ops(ops.drop_last(), rows);
        match ops.last() {
            TableOp::DeleteAll => Seq::empty(),
            TableOp::Insert { params } => earlier.push(params),
        }
    }
}

/// The operations of a file walk in step with its statements: the first
/// statement is the DELETE and clears the table, and each following
/// statement is the INSERT that appends exactly the parameters its row
/// is made of.
pub proof fn lemma_file_ops_match_statements(f: FixtureFileModel)
    ensures
        spec_file_ops(f).len() == spec_file_statements(f).len(),
        spec_file_ops(f)[0] == TableOp::DeleteAll,
        forall|i: int|
            1 <= i < spec_file_ops(f).len() ==> {
                &&& (#[trigger] spec_file_ops(f)[i]) == (TableOp::Insert {
                    params: f.insert_sqls[i - 1].params,
                })
                &&& spec_file_statements(f)[i] == (PlanStepModel::Statement {
                    sql: f.insert_sqls[i - 1].sql,
                    params: f.insert_sqls[i - 1].params,
                })
            },
{
}

/// Operations that start by clearing the table land in the same state
/// whatever rows were there before.
proof fn lemma_apply_ops_ignores_initial_rows(
    ops: Seq<TableOp>,
    rows1: Seq<Seq<SqlParamModel>>,
    rows2: Seq<Seq<SqlParamModel>>,
)
    requires
        ops.len() > 0,
        ops[0] == TableOp::DeleteAll,
    ensures
        spec_apply_ops(ops, rows1) == spec_apply_ops(ops, rows2),
    decreases ops.len(),
{
    if ops.len() > 1 {
        assert(ops.drop_last()[0] == TableOp::DeleteAll);
        lemma_apply_ops_ignores_initial_rows(ops.drop_last(), rows1, rows2);
    }
}

/// Loading a fixture file is idempotent on its table: loading once more
/// over the rows a load left behind yields exactly those rows again, so
/// any number of loads of the same file ends in the state of one load.
pub proof fn lemma_load_idempotent(f: FixtureFileModel, rows: Seq<Seq<SqlParamModel>>)
    ensures
        spec_apply_ops(spec_file_ops(f), spec_apply_ops(spec_file_ops(f), rows))
            == spec_apply_ops(spec_file_ops(f), rows),
{
    let ops = spec_file_ops(f);
    assert(ops[0] == TableOp::DeleteAll);
    lemma_apply_ops_ignores_initial_rows(ops, spec_apply_ops(ops, rows), rows);
}

/// A table's rows after `n` consecutive loads of the same operations.
pub open spec fn spec_apply_ops_n(
    ops: Seq<TableOp>,
    rows: Seq<Seq<SqlParamModel>>,
    n: nat,
) -> Seq<Seq<SqlParamModel>>
    decreases n,
{
    if n == 0 {
        rows
    } else {
        spec_apply_ops(ops, spec_apply_ops_n(ops, rows, (n - 1) as nat))
    }
}

/// Loading the same fixture file any number of times leaves the table
/// exactly as one load does.
pub proof fn lemma_n_loads_equal_one(f: FixtureFileModel, rows: Seq<Seq<SqlParamModel>>, n: nat)
    requires
        n >= 1,
    ensures
        spec_apply_ops_n(spec_file_ops(f), rows, n) == spec_apply_ops(spec_file_ops(f), rows),
    decreases n,
{
    let ops = spec_file_ops(f);
    if n == 1 {
        assert(spec_apply_ops_n(ops, rows, 0) == rows);
    } else {
        lemma_n_loads_equal_one(f, rows, (n - 1) as nat);
        lemma_load_idempotent(f, rows);
    }
}

/// Where a load session stands.
#[derive(Clone, Copy, PartialEq, Eq, Structural, Debug)]
pub enum LoadState {
    /// No load in progress: fresh, or aborted before any transaction.
    Idle,
    /// The safety check and change detection run here, before any
    /// transaction is opened.
    Checking,
    /// A transaction is open and the plan's statements run in order.
    Applying,
    /// The transaction committed; checksum bookkeeping may remain.
    Committed,
    /// The transaction was rolled back after a statement failure.
    RolledBack,
}

/// What the driver layer is asked to do next.
#[derive(Clone, Copy, PartialEq, Eq, Structural, Debug)]
pub enum LoadRequest {
    /// Run the dialect's current-database query and report the name.
    FetchDatabaseName,
    /// Compute each fixture table's checksum and report them in file
    /// order, `None` for one that could not be computed.
    FetchChecksums,
    /// Open the transaction if none is open yet and run the plan step at
    /// this index.
    RunStep(usize),
    /// Commit the transaction.
    Commit,
    /// Roll the transaction back.
    Rollback,
    /// Recompute the checksums of the reloaded tables, in processed
    /// order, and hand them back for the store.
    RecordChecksums,
    /// The load cycle is over.
    Done,
}

/// One load cycle against a loader: created by [`Loader::begin_load`],
/// driven by alternating [`LoadSession::next_request`] with the
/// event methods until [`LoadRequest::Done`].
#[derive(Debug)]
pub struct LoadSession {
    pub state: LoadState,
    pub needs_database_check: bool,
    pub plan: Vec<PlanStep>,
    pub processed_tables: Vec<String>,
    pub executed: usize,
    pub failed: bool,
    pub checksums_recorded: bool,
}

/// The mathematical model of a [`LoadSession`].
pub struct LoadSessionModel {
    pub state: LoadState,
    pub needs_database_check: bool,
    pub plan: Seq<PlanStepModel>,
    pub processed_tables: Seq<Seq<char>>,
    pub executed: int,
    pub failed: bool,
    pub checksums_recorded: bool,
}

impl View for LoadSession {
    type V = LoadSessionModel;

    open spec fn view(&self) -> LoadSessionModel {
        LoadSessionModel {
            state: self.state,
            needs_database_check: self.needs_database_check,
            plan: self.plan.deep_view(),
            processed_tables: self.processed_tables.deep_view(),
            executed: self.executed as int,
            failed: self.failed,
            checksums_recorded: self.checksums_recorded,
        }
    }
}

/// The one request a session state admits. In particular: once a step
/// has failed, only a rollback can follow — never a commit, never
/// another statement.
pub open spec fn spec_next_request(s: LoadSessionModel) -> LoadRequest {
    match s.state {
        LoadState::Idle => LoadRequest::Done,
        LoadState::Checking => if s.needs_database_check {
            LoadRequest::FetchDatabaseName
        } else {
            LoadRequest::FetchChecksums
        },
        LoadState::Applying => if s.failed {
            LoadRequest::Rollback
        } else if s.executed < s.plan.len() {
            LoadRequest::RunStep(s.executed as usize)
        } else {
            LoadRequest::Commit
        },
        LoadState::Committed => if s.checksums_recorded {
            LoadRequest::Done
        } else {
            LoadRequest::RecordChecksums
        },
        LoadState::RolledBack => LoadRequest::Done,
    }
}

impl LoadSession {
    /// What the driver layer must do next.
    pub fn next_request(&self) -> (r: LoadRequest)
        ensures
            r == spec_next_request(self@),
    {
        match self.state {
            LoadState::Idle => LoadRequest::Done,
            LoadState::Checking => if self.needs_database_check {
                LoadRequest::FetchDatabaseName
            } else {
                LoadRequest::FetchChecksums
            },
            LoadState::Applying => if self.failed {
                LoadRequest::Rollback
            } else if self.executed < self.plan.len() {
                LoadRequest::RunStep(self.executed)
            } else {
                LoadRequest::Commit
            },
            LoadState::Committed => if self.checksums_recorded {
                LoadRequest::Done
            } else {
                LoadRequest::RecordChecksums
            },
            LoadState::RolledBack => LoadRequest::Done,
        }
    }

    /// The plan step at `index`.
    pub fn step(&self, index: usize) -> (s: &PlanStep)
        requires
            index < self@.plan.len(),
        ensures
            s@ == self@.plan[index as int],
    {
        &self.plan[index]
    }

    /// Feeds the fetched database name into the safety check. On a name
    /// that does not look like a test database's, the load aborts before
    /// any transaction, with an error naming it.
    pub fn on_database_name(&mut self, name: &str) -> (r: Result<(), FixtureError>)
        requires
            old(self)@.state == LoadState::Checking,
            old(self)@.needs_database_check,
        ensures
            r is Ok <==> spec_is_test_database(name@),
            r is Ok ==> final(self)@ == (LoadSessionModel {
                needs_database_check: false,
                ..old(self)@
            }),
            r matches Err(e) ==> {
                &&& e@ == (FixtureErrorModel::DatabaseCheck { database_name: name@ })
                &&& final(self)@ == (LoadSessionModel { state: LoadState::Idle, ..old(self)@ })
                &&& spec_next_request(final(self)@) == LoadRequest::Done
            },
    {
        match ensure_test_database(name) {
            Ok(_) => {
                self.needs_database_check = false;
                Ok(())
            },
            Err(e) => {
                self.state = LoadState::Idle;
                Err(e)
            },
        }
    }

    /// Feeds the freshly computed per-table checksums in, in file order.
    /// Change detection prunes the unchanged tables and the session
    /// enters `Applying` with the remaining statements as its plan.
    pub fn on_checksums(&mut self, loader: &Loader, fresh: &Vec<Option<i64>>)
        requires
            old(self)@.state == LoadState::Checking,
            !old(self)@.needs_database_check,
            fresh@.len() == loader.fixture_files@.len(),
        ensures
            final(self)@ == (LoadSessionModel {
                state: LoadState::Applying,
                plan: spec_build_plan(
                    loader.fixture_files.deep_view(),
                    loader.tables_checksum@,
                    fresh@,
                ),
                processed_tables: spec_changed_tables(
                    loader.fixture_files.deep_view(),
                    loader.tables_checksum@,
                    fresh@,
                ),
                executed: 0,
                failed: false,
                ..old(self)@
            }),
    {
        let ghost files: Seq<FixtureFileModel> = loader.fixture_files.deep_view();
        let ghost stored: Seq<(Seq<char>, i64)> = loader.tables_checksum@;
        let ghost freshv: Seq<Option<i64>> = fresh@;
        let n = loader.fixture_files.len();
        let mut body: Vec<PlanStep> = Vec::new();
        let mut processed: Vec<String> = Vec::new();
        proof {
            assert(files.take(0) =~= Seq::<FixtureFileModel>::empty());
            assert(body.deep_view() =~= spec_plan_body(files.take(0), stored, freshv.take(0)));
            assert(processed.deep_view() =~= spec_changed_tables(
                files.take(0),
                stored,
                freshv.take(0),
            ));
        }
        for i in 0..n
            invariant
                n == loader.fixture_files.len(),
                files == loader.fixture_files.deep_view(),
                stored == loader.tables_checksum@,
                freshv == fresh@,
                freshv.len() == n,
                body.deep_view() == spec_plan_body(files.take(i as int), stored, freshv.take(
                    i as int,
                )),
                processed.deep_view() == spec_changed_tables(
                    files.take(i as int),
                    stored,
                    freshv.take(i as int),
                ),
        {
            let file = &loader.fixture_files[i];
            let ghost fm = files[i as int];
            let table = file.file_stem();
            let stored_checksum = loader.tables_checksum.get(table.as_str());
            let fresh_checksum = fresh[i];
            proof {
                assert(files.take(i + 1).drop_last() =~= files.take(i as int));
                assert(files.take(i + 1).last() == fm);
                assert(freshv.take(i + 1).take(i as int) =~= freshv.take(i as int));
                assert(freshv.take(i + 1)[i as int] == freshv[i as int]);
            }
            if is_table_modified(stored_checksum, fresh_checksum) {
                assert(spec_file_changed(fm, stored, freshv[i as int]));
                let delete_sql = file.delete();
                let empty_params: Vec<SqlParam> = Vec::new();
                proof {
                    assert(empty_params.deep_view() =~= Seq::<SqlParamModel>::empty());
                }
                let delete_step = PlanStep::Statement { sql: delete_sql, params: empty_params };
                let ghost before_delete = body;
                body.push(delete_step);
                let ghost after_delete = spec_plan_body(files.take(i as int), stored, freshv.take(
                    i as int,
                )) + seq![
                    PlanStepModel::Statement { sql: fm.spec_delete_sql(), params: Seq::empty() },
                ];
                proof {
                    lemma_deep_view_push(body, before_delete, delete_step);
                    assert(body.deep_view() =~= after_delete);
                }
                let m = file.insert_sqls.len();
                for k in 0..m
                    invariant
                        n == loader.fixture_files.len(),
                        i < n,
                        files == loader.fixture_files.deep_view(),
                        fm == files[i as int],
                        m == loader.fixture_files[i as int].insert_sqls.len(),
                        fm.insert_sqls.len() == m,
                        body.deep_view() == after_delete + fm.insert_sqls.map_values(
                            |ins: InsertSqlModel| PlanStepModel::Statement {
                                sql: ins.sql,
                                params: ins.params,
                            },
                        ).take(k as int),
                {
                    let insert = &loader.fixture_files[i].insert_sqls[k];
                    let step = PlanStep::Statement {
                        sql: insert.sql.clone(),
                        params: duplicate_params(&insert.params),
                    };
                    proof {
                        assert(insert@ == fm.insert_sqls[k as int]);
                        assert(step@ == (PlanStepModel::Statement {
                            sql: fm.insert_sqls[k as int].sql,
                            params: fm.insert_sqls[k as int].params,
                        }));
                    }
                    let ghost before_insert = body;
                    body.push(step);
                    proof {
                        let mapped = fm.insert_sqls.map_values(
                            |ins: InsertSqlModel| PlanStepModel::Statement {
                                sql: ins.sql,
                                params: ins.params,
                            },
                        );
                        assert(mapped.take(k + 1).drop_last() =~= mapped.take(k as int));
                        assert(mapped[k as int] == (PlanStepModel::Statement {
                            sql: fm.insert_sqls[k as int].sql,
                            params: fm.insert_sqls[k as int].params,
                        }));
                        lemma_deep_view_push(body, before_insert, step);
                        assert(body.deep_view() =~= after_delete + mapped.take(k + 1));
                    }
                }
                processed.push(table);
                proof {
                    let mapped = fm.insert_sqls.map_values(
                        |ins: InsertSqlModel| PlanStepModel::Statement {
                            sql: ins.sql,
                            params: ins.params,
                        },
                    );
                    assert(mapped.take(m as int) =~= mapped);
                    assert(body.deep_view() =~= spec_plan_body(
                        files.take(i + 1),
                        stored,
                        freshv.take(i + 1),
                    ));
                    assert(processed.deep_view() =~= spec_changed_tables(
                        files.take(i + 1),
                        stored,
                        freshv.take(i + 1),
                    ));
                }
            } else {
                assert(!spec_file_changed(fm, stored, freshv[i as int]));
                proof {
                    assert(body.deep_view() =~= spec_plan_body(
                        files.take(i + 1),
                        stored,
                        freshv.take(i + 1),
                    ));
                    assert(processed.deep_view() =~= spec_changed_tables(
                        files.take(i + 1),
                        stored,
                        freshv.take(i + 1),
                    ));
                }
            }
        }
        proof {
            assert(files.take(n as int) =~= files);
            assert(freshv.take(n as int) =~= freshv);
        }
        let mut plan: Vec<PlanStep> = Vec::new();
        if body.len() > 0 {
            plan.push(PlanStep::ForeignKeyChecks(false));
            let mut body = body;
            let ghost body_model = body.deep_view();
            plan.append(&mut body);
            plan.push(PlanStep::ForeignKeyChecks(true));
            proof {
                assert(plan.deep_view() =~= seq![PlanStepModel::ForeignKeyChecks(false)]
                    + body_model + seq![PlanStepModel::ForeignKeyChecks(true)]);
            }
        } else {
            proof {
                assert(plan.deep_view() =~= Seq::<PlanStepModel>::empty());
                assert(body.deep_view().len() == 0);
            }
        }
        self.state = LoadState::Applying;
        self.plan = plan;
        self.processed_tables = processed;
        self.executed = 0;
        self.failed = false;
    }

    /// Notes that the current plan step executed successfully.
    pub fn on_step_ok(&mut self)
        requires
            old(self)@.state == LoadState::Applying,
            !old(self)@.failed,
            old(self)@.executed < old(self)@.plan.len(),
        ensures
            final(self)@ == (LoadSessionModel { executed: old(self)@.executed + 1, ..old(self)@ }),
    {
        // The plan length bounds `executed`, so the step count fits.
        let plan_len = self.plan.len();
        assert(self.executed < plan_len);
        self.executed = self.executed + 1;
    }

    /// Notes that the current plan step failed: the remaining statements
    /// are abandoned, a rollback is owed, and the driver's message is
    /// surfaced unmodified under the stable prefix.
    pub fn on_step_failed(&mut self, driver_message: &str) -> (e: FixtureError)
        requires
            old(self)@.state == LoadState::Applying,
            !old(self)@.failed,
        ensures
            e@ == (FixtureErrorModel::Statement { driver_message: driver_message@ }),
            final(self)@ == (LoadSessionModel { failed: true, ..old(self)@ }),
            spec_next_request(final(self)@) == LoadRequest::Rollback,
    {
        self.failed = true;
        FixtureError::Statement { driver_message: driver_message.to_owned() }
    }

    /// Notes that the transaction was rolled back; the load cycle is
    /// over and nothing of it is observable outside the transaction.
    pub fn on_rolled_back(&mut self)
        requires
            old(self)@.state == LoadState::Applying,
            old(self)@.failed,
        ensures
            final(self)@ == (LoadSessionModel { state: LoadState::RolledBack, ..old(self)@ }),
            spec_next_request(final(self)@) == LoadRequest::Done,
    {
        self.state = LoadState::RolledBack;
    }

    /// Notes that the transaction committed, which is only asked once
    /// every plan step succeeded.
    pub fn on_committed(&mut self)
        requires
            old(self)@.state == LoadState::Applying,
            !old(self)@.failed,
            old(self)@.executed == old(self)@.plan.len(),
        ensures
            final(self)@ == (LoadSessionModel { state: LoadState::Committed, ..old(self)@ }),
    {
        self.state = LoadState::Committed;
    }
}

/// What one lookup yields after the recomputed checksums of the
/// processed tables are stored over `stored`, later entries overriding
/// earlier ones, a failed recomputation (`None`) storing nothing.
pub open spec fn spec_recorded_lookup(
    stored: Seq<(Seq<char>, i64)>,
    processed: Seq<Seq<char>>,
    fresh: Seq<Option<i64>>,
    k: Seq<char>,
) -> Option<i64>
    decreases processed.len(),
{
    if processed.len() == 0 {
        spec_lookup(stored, k)
    } else {
        let rest = spec_recorded_lookup(stored, processed.drop_last(), fresh.take(
            processed.len() - 1,
        ), k);
        if processed.last() == k && fresh[processed.len() - 1] is Some {
            fresh[processed.len() - 1]
        } else {
            rest
        }
    }
}

impl LoadSession {
    /// Stores the recomputed checksums of the reloaded tables into the
    /// loader, for the next load round's change detection, and closes
    /// the bookkeeping.
    pub fn record_checksums(&mut self, loader: &mut Loader, fresh: &Vec<Option<i64>>)
        requires
            old(self)@.state == LoadState::Committed,
            !old(self)@.checksums_recorded,
            fresh@.len() == old(self)@.processed_tables.len(),
        ensures
            final(self)@ == (LoadSessionModel { checksums_recorded: true, ..old(self)@ }),
            final(loader).fixture_files == old(loader).fixture_files,
            final(loader).skip_test_database_check == old(loader).skip_test_database_check,
            final(loader).location == old(loader).location,
            forall|k: Seq<char>|
                spec_lookup(final(loader).tables_checksum@, k) == spec_recorded_lookup(
                    old(loader).tables_checksum@,
                    old(self)@.processed_tables,
                    fresh@,
                    k,
                ),
    {
        let ghost processedv: Seq<Seq<char>> = self.processed_tables.deep_view();
        let ghost freshv: Seq<Option<i64>> = fresh@;
        let ghost stored0: Seq<(Seq<char>, i64)> = loader.tables_checksum@;
        let n = self.processed_tables.len();
        proof {
            assert(processedv.take(0) =~= Seq::<Seq<char>>::empty());
        }
        for i in 0..n
            invariant
                n == self.processed_tables.len(),
                *self == *old(self),
                processedv == self.processed_tables.deep_view(),
                freshv == fresh@,
                freshv.len() == n,
                loader.fixture_files == old(loader).fixture_files,
                loader.skip_test_database_check == old(loader).skip_test_database_check,
                loader.location == old(loader).location,
                stored0 == old(loader).tables_checksum@,
                forall|k: Seq<char>|
                    spec_lookup(loader.tables_checksum@, k) == spec_recorded_lookup(
                        stored0,
                        processedv.take(i as int),
                        freshv.take(i as int),
                        k,
                    ),
        {
            proof {
                assert(processedv.take(i + 1).drop_last() =~= processedv.take(i as int));
                assert(processedv.take(i + 1).last() == processedv[i as int]);
                assert(freshv.take(i + 1).take(i as int) =~= freshv.take(i as int));
                assert(freshv.take(i + 1)[i as int] == freshv[i as int]);
            }
            match fresh[i] {
                Some(checksum) => {
                    let ghost before = loader.tables_checksum@;
                    let table = &self.processed_tables[i];
                    loader.tables_checksum.set(table.as_str(), checksum);
                    proof {
                        assert forall|k: Seq<char>|
                            spec_lookup(loader.tables_checksum@, k) == spec_recorded_lookup(
                                stored0,
                                processedv.take(i + 1),
                                freshv.take(i + 1),
                                k,
                            ) by {
                            if k == processedv[i as int] {
                            } else {
                                assert(spec_lookup(loader.tables_checksum@, k) == spec_lookup(
                                    before,
                                    k,
                                ));
                            }
                        }
                    }
                },
                None => {
                    proof {
                        assert forall|k: Seq<char>|
                            spec_lookup(loader.tables_checksum@, k) == spec_recorded_lookup(
                                stored0,
                                processedv.take(i + 1),
                                freshv.take(i + 1),
                                k,
                            ) by {}
                    }
                },
            }
        }
        proof {
            assert(processedv.take(n as int) =~= processedv);
            assert(freshv.take(n as int) =~= freshv);
        }
        self.checksums_recorded = true;
    }
}

/// Once a step of a session has failed, the one thing asked of the
/// driver layer is a rollback — never a commit, never another statement.
pub proof fn lemma_failed_session_only_rolls_back(s: LoadSessionModel)
    requires
        s.state == LoadState::Applying,
        s.failed,
    ensures
        spec_next_request(s) == LoadRequest::Rollback,
{
}

/// A commit is only ever asked of a session that failed no step and ran
/// its whole plan.
pub proof fn lemma_commit_only_after_whole_plan(s: LoadSessionModel)
    requires
        spec_next_request(s) == LoadRequest::Commit,
    ensures
        s.state == LoadState::Applying,
        !s.failed,
        s.executed >= s.plan.len(),
{
}

} // verus!
