//! Fixture files and their compiled statements. A fixture file owns an
//! ordered list of records; compiling it yields one unconditional DELETE
//! for the whole table plus one parameterized INSERT per record, in file
//! order. The table name is always the file name's stem.

use crate::error::{FixtureError, FixtureErrorModel};
use crate::text::{
    base_name, file_stem, i64_to_string, join_comma, seq_join_comma, spec_base_name,
    spec_file_stem, spec_i64_dec,
};
use crate::value::{
    coerce, raw_fragment, spec_coerce, starts_with_raw, FixtureValue, FixtureValueModel, SqlParam,
    SqlParamModel,
};
use vstd::prelude::*;

verus! {

/// One `column name -> raw scalar` pair of a record, in record order.
/// A key read as an integer names the column by its decimal rendering.
#[derive(Clone, Debug)]
pub struct FixtureEntry {
    pub key: FixtureValue,
    pub value: FixtureValue,
}

/// The mathematical model of a [`FixtureEntry`].
pub struct FixtureEntryModel {
    pub key: FixtureValueModel,
    pub value: FixtureValueModel,
}

impl View for FixtureEntry {
    type V = FixtureEntryModel;

    open spec fn view(&self) -> FixtureEntryModel {
        FixtureEntryModel { key: self.key@, value: self.value@ }
    }
}

impl DeepView for FixtureEntry {
    type V = FixtureEntryModel;

    open spec fn deep_view(&self) -> FixtureEntryModel {
        self.view()
    }
}

/// One row's worth of column/value pairs, in insertion order.
#[derive(Clone, Debug)]
pub struct FixtureRecord {
    pub entries: Vec<FixtureEntry>,
}

impl View for FixtureRecord {
    type V = Seq<FixtureEntryModel>;

    open spec fn view(&self) -> Seq<FixtureEntryModel> {
        self.entries.deep_view()
    }
}

impl DeepView for FixtureRecord {
    type V = Seq<FixtureEntryModel>;

    open spec fn deep_view(&self) -> Seq<FixtureEntryModel> {
        self.view()
    }
}

/// One compiled INSERT: the statement text with `?` placeholders, and the
/// bound parameters, whose count equals the placeholder count.
#[derive(Clone, Debug)]
pub struct InsertSql {
    pub sql: String,
    pub params: Vec<SqlParam>,
}

/// The mathematical model of an [`InsertSql`].
pub struct InsertSqlModel {
    pub sql: Seq<char>,
    pub params: Seq<SqlParamModel>,
}

impl View for InsertSql {
    type V = InsertSqlModel;

    open spec fn view(&self) -> InsertSqlModel {
        InsertSqlModel { sql: self.sql@, params: self.params.deep_view() }
    }
}

impl DeepView for InsertSql {
    type V = InsertSqlModel;

    open spec fn deep_view(&self) -> InsertSqlModel {
        self.view()
    }
}

/// The column name a key yields: a string key names the column itself, an
/// integer key names it by its decimal rendering, any other key kind is
/// unsupported.
pub open spec fn spec_key_name(k: FixtureValueModel) -> Option<Seq<char>> {
    match k {
        FixtureValueModel::Str(s) => Some(s),
        FixtureValueModel::Int(i) => Some(spec_i64_dec(i)),
        _ => None,
    }
}

/// An entry takes part in the generated statement only when its key names
/// a column and its value coerces; otherwise the column is omitted
/// entirely, placeholder included.
pub open spec fn spec_entry_kept(e: FixtureEntryModel) -> bool {
    spec_key_name(e.key) is Some && spec_coerce(e.value) is Some
}

/// The slot an entry contributes to the VALUES list: an inlined raw SQL
/// fragment, or a `?` placeholder for a bound parameter.
pub open spec fn spec_value_text(e: FixtureEntryModel) -> Seq<char> {
    match spec_coerce(e.value) {
        Some(SqlParamModel::Raw(fragment)) => fragment,
        _ => "?"@,
    }
}

/// An entry binds a parameter when it is kept and its value is not a raw
/// fragment.
pub open spec fn spec_entry_bound(e: FixtureEntryModel) -> bool {
    spec_entry_kept(e) && !(spec_coerce(e.value) matches Some(SqlParamModel::Raw(_)))
}

/// The column names of the kept entries, in record order.
pub open spec fn spec_columns(rec: Seq<FixtureEntryModel>) -> Seq<Seq<char>>
    decreases rec.len(),
{
    if rec.len() == 0 {
        Seq::empty()
    } else {
        let rest = spec_columns(rec.drop_last());
        if spec_entry_kept(rec.last()) {
            rest.push(spec_key_name(rec.last().key).unwrap())
        } else {
            rest
        }
    }
}

/// The VALUES slots of the kept entries, in record order.
pub open spec fn spec_value_texts(rec: Seq<FixtureEntryModel>) -> Seq<Seq<char>>
    decreases rec.len(),
{
    if rec.len() == 0 {
        Seq::empty()
    } else {
        let rest = spec_value_texts(rec.drop_last());
        if spec_entry_kept(rec.last()) {
            rest.push(spec_value_text(rec.last()))
        } else {
            rest
        }
    }
}

/// The bound parameters of a record, in record order: every kept entry's
/// coerced value except the raw fragments, which are inlined instead.
pub open spec fn spec_params(rec: Seq<FixtureEntryModel>) -> Seq<SqlParamModel>
    decreases rec.len(),
{
    if rec.len() == 0 {
        Seq::empty()
    } else {
        let rest = spec_params(rec.drop_last());
        if spec_entry_bound(rec.last()) {
            rest.push(spec_coerce(rec.last().value).unwrap())
        } else {
            rest
        }
    }
}

/// The full text of the INSERT a record compiles to.
pub open spec fn spec_insert_sql(table: Seq<char>, rec: Seq<FixtureEntryModel>) -> Seq<char> {
    "INSERT INTO "@ + table + " ("@ + seq_join_comma(spec_columns(rec)) + ") VALUES ("@
        + seq_join_comma(spec_value_texts(rec)) + ")"@
}

/// The column name an entry's key yields, or `None` for an unsupported
/// key kind.
fn key_name(k: &FixtureValue) -> (r: Option<String>)
    ensures
        match r {
            Some(name) => spec_key_name(k@) == Some(name@),
            None => spec_key_name(k@) is None,
        },
{
    match k {
        FixtureValue::Str(s) => Some(s.clone()),
        FixtureValue::Int(i) => Some(i64_to_string(*i)),
        _ => None,
    }
}

/// Compiles one record into its INSERT statement for `table`.
pub fn compile_record(table: &str, rec: &FixtureRecord) -> (r: InsertSql)
    ensures
        r.sql@ == spec_insert_sql(table@, rec@),
        r.params.deep_view() == spec_params(rec@),
{
    let ghost model: Seq<FixtureEntryModel> = rec@;
    let mut columns: Vec<String> = Vec::new();
    let mut value_texts: Vec<String> = Vec::new();
    let mut params: Vec<SqlParam> = Vec::new();
    assert(model.take(0) =~= Seq::<FixtureEntryModel>::empty());
    for i in 0..rec.entries.len()
        invariant
            model.len() == rec.entries.len(),
            forall|j: int| 0 <= j < rec.entries.len() ==> model[j] == rec.entries[j]@,
            columns.deep_view() == spec_columns(model.take(i as int)),
            value_texts.deep_view() == spec_value_texts(model.take(i as int)),
            params.deep_view() == spec_params(model.take(i as int)),
    {
        let entry = &rec.entries[i];
        let ghost e = model[i as int];
        let ghost prefix = model.take(i as int);
        proof {
            assert(model.take(i + 1).drop_last() =~= prefix);
            assert(model.take(i + 1).last() == e);
        }
        match key_name(&entry.key) {
            Some(name) => {
                match coerce(&entry.value) {
                    Some(p) => {
                        assert(spec_entry_kept(e));
                        columns.push(name);
                        match p {
                            SqlParam::Raw(fragment) => {
                                assert(!spec_entry_bound(e));
                                value_texts.push(fragment);
                            },
                            other => {
                                assert(spec_entry_bound(e));
                                value_texts.push("?".to_owned());
                                params.push(other);
                            },
                        }
                        proof {
                            assert(columns.deep_view() =~= spec_columns(model.take(i + 1)));
                            assert(value_texts.deep_view() =~= spec_value_texts(
                                model.take(i + 1),
                            ));
                            assert(params.deep_view() =~= spec_params(model.take(i + 1)));
                        }
                    },
                    None => {
                        assert(!spec_entry_kept(e) && !spec_entry_bound(e));
                        proof {
                            assert(columns.deep_view() =~= spec_columns(model.take(i + 1)));
                            assert(value_texts.deep_view() =~= spec_value_texts(
                                model.take(i + 1),
                            ));
                            assert(params.deep_view() =~= spec_params(model.take(i + 1)));
                        }
                    },
                }
            },
            None => {
                assert(!spec_entry_kept(e) && !spec_entry_bound(e));
                proof {
                    assert(columns.deep_view() =~= spec_columns(model.take(i + 1)));
                    assert(value_texts.deep_view() =~= spec_value_texts(model.take(i + 1)));
                    assert(params.deep_view() =~= spec_params(model.take(i + 1)));
                }
            },
        }
    }
    proof {
        assert(model.take(rec.entries.len() as int) =~= model);
    }
    let mut sql = String::new();
    sql.append("INSERT INTO ");
    sql.append(table);
    sql.append(" (");
    let joined_columns = join_comma(&columns);
    sql.append(joined_columns.as_str());
    sql.append(") VALUES (");
    let joined_values = join_comma(&value_texts);
    sql.append(joined_values.as_str());
    sql.append(")");
    proof {
        assert(sql@ =~= spec_insert_sql(table@, rec@));
    }
    InsertSql { sql, params }
}

/// A record binds no raw fragment as a parameter, ever: whatever the
/// record holds, every bound parameter of its compiled statement is a
/// typed value, and raw SQL reaches the database only as statement text.
pub proof fn lemma_params_never_raw(rec: Seq<FixtureEntryModel>)
    ensures
        forall|j: int|
            0 <= j < spec_params(rec).len() ==> !((#[trigger] spec_params(rec)[j]) is Raw),
    decreases rec.len(),
{
    if rec.len() > 0 {
        lemma_params_never_raw(rec.drop_last());
    }
}

/// The column list and the VALUES list of a compiled record are equally
/// long: every kept column has exactly one slot.
pub proof fn lemma_columns_values_aligned(rec: Seq<FixtureEntryModel>)
    ensures
        spec_columns(rec).len() == spec_value_texts(rec).len(),
    decreases rec.len(),
{
    if rec.len() > 0 {
        lemma_columns_values_aligned(rec.drop_last());
    }
}

/// How many kept entries of a record are inlined raw fragments.
pub open spec fn spec_raw_count(rec: Seq<FixtureEntryModel>) -> nat
    decreases rec.len(),
{
    if rec.len() == 0 {
        0
    } else {
        spec_raw_count(rec.drop_last()) + (
        if spec_entry_kept(rec.last()) && !spec_entry_bound(rec.last()) {
            1nat
        } else {
            0nat
        })
    }
}

/// Every VALUES slot of a compiled record is accounted for: one bound
/// parameter per placeholder slot, one inlined fragment per raw slot,
/// nothing else.
pub proof fn lemma_slots_are_params_or_fragments(rec: Seq<FixtureEntryModel>)
    ensures
        spec_value_texts(rec).len() == spec_params(rec).len() + spec_raw_count(rec),
    decreases rec.len(),
{
    if rec.len() > 0 {
        lemma_slots_are_params_or_fragments(rec.drop_last());
    }
}

/// A value carrying the `RAW=` prefix is inlined: in the compiled
/// statement, the slot of its column holds the suffix as literal SQL
/// text — not a `?` placeholder, and (with [`lemma_params_never_raw`])
/// no bound parameter.
pub proof fn lemma_raw_value_inlined(rec: Seq<FixtureEntryModel>, i: int, s: Seq<char>)
    requires
        0 <= i < rec.len(),
        rec[i].value == FixtureValueModel::Str(s),
        starts_with_raw(s),
        spec_key_name(rec[i].key) is Some,
    ensures
        spec_columns(rec.take(i)).len() < spec_value_texts(rec).len(),
        spec_value_texts(rec)[spec_columns(rec.take(i)).len() as int] == raw_fragment(s),
        spec_columns(rec)[spec_columns(rec.take(i)).len() as int] == spec_key_name(rec[i].key).unwrap(),
    decreases rec.len(),
{
    lemma_columns_values_aligned(rec);
    assert(spec_entry_kept(rec[i]));
    if i == rec.len() - 1 {
        assert(rec.drop_last() =~= rec.take(i));
        lemma_columns_values_aligned(rec.take(i));
    } else {
        let shorter = rec.drop_last();
        assert(shorter[i] == rec[i]);
        lemma_raw_value_inlined(shorter, i, s);
        assert(shorter.take(i) =~= rec.take(i));
        lemma_columns_values_aligned(shorter);
    }
}

/// A value carrying the `RAW=` prefix reaches the database as statement
/// text: the compiled INSERT of its record contains the suffix verbatim.
pub proof fn lemma_raw_fragment_in_statement_text(
    table: Seq<char>,
    rec: Seq<FixtureEntryModel>,
    i: int,
    s: Seq<char>,
)
    requires
        0 <= i < rec.len(),
        rec[i].value == FixtureValueModel::Str(s),
        starts_with_raw(s),
        spec_key_name(rec[i].key) is Some,
    ensures
        crate::text::spec_contains_subseq(spec_insert_sql(table, rec), raw_fragment(s)),
{
    lemma_raw_value_inlined(rec, i, s);
    let texts = spec_value_texts(rec);
    let slot = spec_columns(rec.take(i)).len() as int;
    crate::text::lemma_join_comma_contains(texts, slot);
    crate::text::lemma_contains_subseq_embed(
        "INSERT INTO "@ + table + " ("@ + seq_join_comma(spec_columns(rec)) + ") VALUES ("@,
        seq_join_comma(texts),
        ")"@,
        raw_fragment(s),
    );
    assert("INSERT INTO "@ + table + " ("@ + seq_join_comma(spec_columns(rec)) + ") VALUES ("@
        + seq_join_comma(texts) + ")"@ =~= spec_insert_sql(table, rec));
}

/// The INSERT statements a list of records compiles to, in record order.
pub open spec fn spec_compile_records(
    table: Seq<char>,
    recs: Seq<Seq<FixtureEntryModel>>,
) -> Seq<InsertSqlModel>
    decreases recs.len(),
{
    if recs.len() == 0 {
        Seq::empty()
    } else {
        spec_compile_records(table, recs.drop_last()).push(
            InsertSqlModel {
                sql: spec_insert_sql(table, recs.last()),
                params: spec_params(recs.last()),
            },
        )
    }
}

/// One fixture file: identified by its path, named after its file name,
/// and carrying the compiled INSERT statements of its records. Immutable
/// after compilation.
#[derive(Clone, Debug)]
pub struct FixtureFile {
    pub path: String,
    pub file_name: String,
    pub insert_sqls: Vec<InsertSql>,
}

/// The mathematical model of a [`FixtureFile`].
pub struct FixtureFileModel {
    pub path: Seq<char>,
    pub file_name: Seq<char>,
    pub insert_sqls: Seq<InsertSqlModel>,
}

impl View for FixtureFile {
    type V = FixtureFileModel;

    open spec fn view(&self) -> FixtureFileModel {
        FixtureFileModel {
            path: self.path@,
            file_name: self.file_name@,
            insert_sqls: self.insert_sqls.deep_view(),
        }
    }
}

impl DeepView for FixtureFile {
    type V = FixtureFileModel;

    open spec fn deep_view(&self) -> FixtureFileModel {
        self.view()
    }
}

impl FixtureFileModel {
    /// The table a fixture file loads: the file name without extension.
    pub open spec fn spec_table(self) -> Seq<char> {
        spec_file_stem(self.file_name)
    }

    /// The text of the DELETE that clears the table before reload.
    pub open spec fn spec_delete_sql(self) -> Seq<char> {
        "DELETE FROM "@ + self.spec_table()
    }
}

impl FixtureFile {
    /// Compiles the records of one fixture file, read from `path` and named
    /// `file_name`, into its statements.
    pub fn new(path: String, file_name: String, records: &Vec<FixtureRecord>) -> (f: FixtureFile)
        ensures
            f@.path == path@,
            f@.file_name == file_name@,
            f@.insert_sqls == spec_compile_records(spec_file_stem(file_name@), records.deep_view()),
    {
        let ghost recs: Seq<Seq<FixtureEntryModel>> = records.deep_view();
        let table = file_stem(file_name.as_str());
        let mut insert_sqls: Vec<InsertSql> = Vec::new();
        assert(insert_sqls.deep_view() =~= spec_compile_records(table@, recs.take(0)));
        for i in 0..records.len()
            invariant
                recs.len() == records.len(),
                forall|j: int| 0 <= j < records.len() ==> recs[j] == records[j]@,
                table@ == spec_file_stem(file_name@),
                insert_sqls.deep_view() == spec_compile_records(table@, recs.take(i as int)),
        {
            let compiled = compile_record(table.as_str(), &records[i]);
            insert_sqls.push(compiled);
            proof {
                assert(recs.take(i + 1).drop_last() =~= recs.take(i as int));
                assert(recs.take(i + 1).last() == recs[i as int]);
                assert(insert_sqls.deep_view() =~= spec_compile_records(table@, recs.take(i + 1)));
            }
        }
        proof {
            assert(recs.take(records.len() as int) =~= recs);
        }
        FixtureFile { path, file_name, insert_sqls }
    }

    /// Reads one fixture source: parses its records and compiles them,
    /// succeeding exactly when the text parses as a list of records. A
    /// source that does not is a fatal compilation error naming its path.
    pub fn from_source(path: String, content: &str) -> (r: Result<FixtureFile, FixtureError>)
        ensures
            r is Ok <==> crate::record_source::spec_records_of(content@) is Some,
            r matches Ok(f) ==> {
                &&& f@.path == path@
                &&& f@.file_name == spec_base_name(path@)
                &&& f@.insert_sqls == spec_compile_records(
                    spec_file_stem(spec_base_name(path@)),
                    crate::record_source::spec_records_of(content@).unwrap(),
                )
            },
            r matches Err(e) ==> e@ == (FixtureErrorModel::InvalidFixtureFile { path: path@ }),
    {
        match crate::record_source::records_from_source(content) {
            Some(records) => {
                let file_name = base_name(path.as_str());
                Ok(FixtureFile::new(path, file_name, &records))
            },
            None => Err(FixtureError::InvalidFixtureFile { path }),
        }
    }

    /// The table this file loads.
    pub fn file_stem(&self) -> (r: String)
        ensures
            r@ == self@.spec_table(),
    {
        file_stem(self.file_name.as_str())
    }

    /// The unconditional DELETE that clears this file's whole table before
    /// its records are re-inserted. It has no parameters.
    pub fn delete(&self) -> (r: String)
        ensures
            r@ == self@.spec_delete_sql(),
    {
        let mut sql = String::new();
        sql.append("DELETE FROM ");
        let table = self.file_stem();
        sql.append(table.as_str());
        proof {
            assert(sql@ =~= self@.spec_delete_sql());
        }
        sql
    }
}

} // verus!
