//! The PostgreSQL dialect adapter: the exact statement texts the loader's
//! driver layer runs against a PostgreSQL backend. PostgreSQL has no
//! whole-table checksum command, so the fingerprint query hashes an
//! ordered aggregate of the rows; and referential integrity is suspended
//! per session rather than per connection flag.

use crate::text::{spec_u64_dec, u64_to_string};
use vstd::prelude::*;

verus! {

/// PostgreSQL helper: carries the table names once the driver layer has
/// fetched them.
#[derive(Clone, Debug)]
pub struct PostgreSql {
    pub tables: Vec<String>,
}

impl Default for PostgreSql {
    /// An adapter that has not seen the database yet.
    fn default() -> (r: PostgreSql)
        ensures
            r.tables@.len() == 0,
    {
        PostgreSql { tables: Vec::new() }
    }
}

impl PostgreSql {
    /// The query that names the current database, for the safety check.
    pub fn database_name_sql() -> (r: &'static str)
        ensures
            r@ == "SELECT current_database()"@,
    {
        "SELECT current_database()"
    }

    /// The content fingerprint query for `table`: a hash over the rows in
    /// a fixed order, empty tables hashing the empty string.
    pub fn checksum_sql(table: &str) -> (r: String)
        ensures
            r@ == "SELECT md5(coalesce(string_agg(t::text, ',' ORDER BY t::text), '')) FROM "@
                + table@ + " t"@,
    {
        let mut sql = String::new();
        sql.append("SELECT md5(coalesce(string_agg(t::text, ',' ORDER BY t::text), '')) FROM ");
        sql.append(table);
        sql.append(" t");
        proof {
            assert(sql@ =~= "SELECT md5(coalesce(string_agg(t::text, ',' ORDER BY t::text), '')) FROM "@
                + table@ + " t"@);
        }
        sql
    }

    /// The statement that suspends or restores referential-integrity
    /// enforcement for the session.
    pub fn foreign_key_checks_sql(enabled: bool) -> (r: &'static str)
        ensures
            enabled ==> r@ == "SET session_replication_role = 'origin'"@,
            !enabled ==> r@ == "SET session_replication_role = 'replica'"@,
    {
        if enabled {
            "SET session_replication_role = 'origin'"
        } else {
            "SET session_replication_role = 'replica'"
        }
    }
}

/// `s` with every `?` replaced by a `$` placeholder, numbered upward
/// from `next`.
pub open spec fn spec_numbered_placeholders(s: Seq<char>, next: nat) -> Seq<char>
    decreases s.len(),
{
    if s.len() == 0 {
        Seq::empty()
    } else if s[0] == '?' {
        seq!['$'] + spec_u64_dec(next) + spec_numbered_placeholders(s.drop_first(), next + 1)
    } else {
        seq![s[0]] + spec_numbered_placeholders(s.drop_first(), next)
    }
}

impl PostgreSql {
    /// Rewrites a compiled statement's `?` placeholders to PostgreSQL's
    /// numbered `$1 .. $n` form, in order. The rewrite is literal, so an
    /// inlined raw fragment must not itself hold a `?`.
    pub fn numbered_placeholders(sql: &str) -> (r: String)
        requires
            sql@.len() < usize::MAX,
        ensures
            r@ == spec_numbered_placeholders(sql@, 1),
    {
        let n = sql.unicode_len();
        let mut r = String::new();
        let mut seg: usize = 0;
        let mut k: usize = 1;
        proof {
            assert(sql@.skip(0) =~= sql@);
            assert(sql@.subrange(0, 0) =~= Seq::<char>::empty());
        }
        for i in 0..n
            invariant
                n == sql@.len() < usize::MAX,
                seg <= i <= n,
                1 <= k <= i + 1,
                spec_numbered_placeholders(sql@, 1) == r@ + sql@.subrange(seg as int, i as int)
                    + spec_numbered_placeholders(sql@.skip(i as int), k as nat),
        {
            proof {
                assert(sql@.skip(i as int).drop_first() =~= sql@.skip(i + 1));
                assert(sql@.skip(i as int)[0] == sql@[i as int]);
            }
            if sql.get_char(i) == '?' {
                let run = sql.substring_char(seg, i);
                r.append(run);
                r.append("$");
                let number = u64_to_string(k as u64);
                r.append(number.as_str());
                proof {
                    reveal_strlit("$");
                    assert("$"@ =~= seq!['$']);
                    assert(sql@.subrange(i + 1, i + 1) =~= Seq::<char>::empty());
                    assert(spec_numbered_placeholders(sql@, 1) =~= r@ + sql@.subrange(
                        i + 1,
                        i + 1,
                    ) + spec_numbered_placeholders(sql@.skip(i + 1), (k + 1) as nat));
                }
                seg = i + 1;
                k = k + 1;
            } else {
                proof {
                    assert(sql@.subrange(seg as int, i + 1) =~= sql@.subrange(
                        seg as int,
                        i as int,
                    ) + seq![sql@[i as int]]);
                    assert(spec_numbered_placeholders(sql@, 1) =~= r@ + sql@.subrange(
                        seg as int,
                        i + 1,
                    ) + spec_numbered_placeholders(sql@.skip(i + 1), k as nat));
                }
            }
        }
        let tail = sql.substring_char(seg, n);
        r.append(tail);
        proof {
            assert(sql@.skip(n as int) =~= Seq::<char>::empty());
            assert(r@ =~= spec_numbered_placeholders(sql@, 1));
        }
        r
    }
}

/// One named constraint of a table, as PostgreSQL reports it; what a
/// driver layer needs to note which constraints it cannot defer.
#[derive(Clone, Debug)]
pub struct PgConstraint {
    pub table_name: String,
    pub constraint_name: String,
}

} // verus!
