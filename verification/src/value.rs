//! The value layer: raw scalars as they come out of a parsed record file,
//! and the typed SQL parameters they are coerced into.

use crate::datetime::Datetime;
use vstd::prelude::*;

verus! {

/// One raw scalar read from a record file, before coercion. Real numbers
/// keep their decimal literal as written; the driver layer turns the
/// literal into a native float when binding, since the compiled form never
/// computes with it. A value of a kind the compiler does not map (a null,
/// a nested list or mapping) is `Unsupported`.
#[derive(Clone, Debug, PartialEq)]
pub enum FixtureValue {
    Str(String),
    Int(i64),
    Real(String),
    Bool(bool),
    Unsupported,
}

/// The mathematical model of a [`FixtureValue`].
pub enum FixtureValueModel {
    Str(Seq<char>),
    Int(int),
    Real(Seq<char>),
    Bool(bool),
    Unsupported,
}

impl View for FixtureValue {
    type V = FixtureValueModel;

    open spec fn view(&self) -> FixtureValueModel {
        match self {
            FixtureValue::Str(s) => FixtureValueModel::Str(s@),
            FixtureValue::Int(i) => FixtureValueModel::Int(*i as int),
            FixtureValue::Real(r) => FixtureValueModel::Real(r@),
            FixtureValue::Bool(b) => FixtureValueModel::Bool(*b),
            FixtureValue::Unsupported => FixtureValueModel::Unsupported,
        }
    }
}

impl DeepView for FixtureValue {
    type V = FixtureValueModel;

    open spec fn deep_view(&self) -> FixtureValueModel {
        self.view()
    }
}

/// A typed SQL parameter produced by coercion. Every variant but `Raw`
/// binds through the driver's native argument mechanism; `Raw` carries a
/// literal SQL fragment that is inlined into the statement text instead.
/// `Float` keeps the decimal literal as written (see [`FixtureValue`]).
#[derive(Clone, Debug, PartialEq)]
pub enum SqlParam {
    String(String),
    Datetime(Datetime),
    Integer(i64),
    Float(String),
    Boolean(bool),
    Raw(String),
}

/// The mathematical model of a [`SqlParam`].
pub enum SqlParamModel {
    String(Seq<char>),
    Datetime(Datetime),
    Integer(int),
    Float(Seq<char>),
    Boolean(bool),
    Raw(Seq<char>),
}

impl View for SqlParam {
    type V = SqlParamModel;

    open spec fn view(&self) -> SqlParamModel {
        match self {
            SqlParam::String(s) => SqlParamModel::String(s@),
            SqlParam::Datetime(d) => SqlParamModel::Datetime(*d),
            SqlParam::Integer(i) => SqlParamModel::Integer(*i as int),
            SqlParam::Float(f) => SqlParamModel::Float(f@),
            SqlParam::Boolean(b) => SqlParamModel::Boolean(*b),
            SqlParam::Raw(r) => SqlParamModel::Raw(r@),
        }
    }
}

impl DeepView for SqlParam {
    type V = SqlParamModel;

    open spec fn deep_view(&self) -> SqlParamModel {
        self.view()
    }
}

impl SqlParam {
    /// A copy of this parameter, equal in the model.
    pub fn duplicate(&self) -> (r: SqlParam)
        ensures
            r@ == self@,
    {
        match self {
            SqlParam::String(s) => SqlParam::String(s.clone()),
            SqlParam::Datetime(d) => SqlParam::Datetime(*d),
            SqlParam::Integer(i) => SqlParam::Integer(*i),
            SqlParam::Float(f) => SqlParam::Float(f.clone()),
            SqlParam::Boolean(b) => SqlParam::Boolean(*b),
            SqlParam::Raw(r) => SqlParam::Raw(r.clone()),
        }
    }
}

/// What pushing one element does to a vector's deep view.
pub proof fn lemma_deep_view_push<T: DeepView>(post: Vec<T>, pre: Vec<T>, x: T)
    requires
        post@ == pre@.push(x),
    ensures
        post.deep_view() == pre.deep_view().push(x.deep_view()),
{
    assert(post.deep_view() =~= pre.deep_view().push(x.deep_view()));
}

/// A copy of a parameter list, equal in the model.
pub fn duplicate_params(params: &Vec<SqlParam>) -> (r: Vec<SqlParam>)
    ensures
        r.deep_view() == params.deep_view(),
{
    let mut r: Vec<SqlParam> = Vec::new();
    for i in 0..params.len()
        invariant
            r.deep_view() == params.deep_view().take(i as int),
    {
        let ghost pre = r;
        let duplicated = params[i].duplicate();
        r.push(duplicated);
        proof {
            lemma_deep_view_push(r, pre, duplicated);
            assert(params.deep_view().take(i + 1).drop_last() =~= params.deep_view().take(
                i as int,
            ));
            assert(r.deep_view() =~= params.deep_view().take(i + 1));
        }
    }
    proof {
        assert(params.deep_view().take(params.len() as int) =~= params.deep_view());
    }
    r
}

/// `s` begins with the literal prefix `RAW=`.
pub open spec fn starts_with_raw(s: Seq<char>) -> bool {
    s.len() >= 4 && s[0] == 'R' && s[1] == 'A' && s[2] == 'W' && s[3] == '='
}

/// What remains of a `RAW=` value once the prefix is stripped.
pub open spec fn raw_fragment(s: Seq<char>) -> Seq<char> {
    s.skip(4)
}

/// Strips the `RAW=` prefix from `s`, or returns `None` when `s` does not
/// carry it.
fn strip_raw_prefix(s: &str) -> (r: Option<String>)
    ensures
        match r {
            Some(t) => starts_with_raw(s@) && t@ == raw_fragment(s@),
            None => !starts_with_raw(s@),
        },
{
    let n = s.unicode_len();
    if n < 4 {
        return None;
    }
    if s.get_char(0) == 'R' && s.get_char(1) == 'A' && s.get_char(2) == 'W' && s.get_char(3)
        == '=' {
        let rest = s.substring_char(4, n);
        proof {
            assert(rest@ =~= raw_fragment(s@));
        }
        Some(rest.to_owned())
    } else {
        None
    }
}

/// How a raw scalar is coerced into a typed SQL parameter.
///
/// A string is checked for the `RAW=` prefix before any other
/// interpretation; a non-raw string becomes a datetime when one of the
/// accepted formats matches, and stays a plain string parameter otherwise.
/// Integers, reals and booleans map directly to their own variants, and a
/// scalar of an unsupported kind yields `None`: its column is omitted from
/// the generated statement.
pub open spec fn spec_coerce(v: FixtureValueModel) -> Option<SqlParamModel> {
    match v {
        FixtureValueModel::Str(s) => if starts_with_raw(s) {
            Some(SqlParamModel::Raw(raw_fragment(s)))
        } else {
            match crate::datetime::spec_parse_datetime(s) {
                Some(dt) => Some(SqlParamModel::Datetime(dt)),
                None => Some(SqlParamModel::String(s)),
            }
        },
        FixtureValueModel::Int(i) => Some(SqlParamModel::Integer(i)),
        FixtureValueModel::Real(r) => Some(SqlParamModel::Float(r)),
        FixtureValueModel::Bool(b) => Some(SqlParamModel::Boolean(b)),
        FixtureValueModel::Unsupported => None,
    }
}

/// Coerces one raw scalar into a typed SQL parameter, or `None` for a
/// scalar of an unsupported kind.
pub fn coerce(v: &FixtureValue) -> (r: Option<SqlParam>)
    ensures
        r matches Some(p) ==> spec_coerce(v@) == Some(p@),
        r is None <==> spec_coerce(v@) is None,
{
    match v {
        FixtureValue::Str(s) => match strip_raw_prefix(s.as_str()) {
            Some(fragment) => Some(SqlParam::Raw(fragment)),
            None => match crate::datetime::try_str_to_date(s.as_str()) {
                Some(dt) => Some(SqlParam::Datetime(dt)),
                None => Some(SqlParam::String(s.clone())),
            },
        },
        FixtureValue::Int(i) => Some(SqlParam::Integer(*i)),
        FixtureValue::Real(r) => Some(SqlParam::Float(r.clone())),
        FixtureValue::Bool(b) => Some(SqlParam::Boolean(*b)),
        FixtureValue::Unsupported => None,
    }
}

} // verus!
