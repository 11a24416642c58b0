//! Small verified text helpers: joining name lists for SQL statements,
//! rendering integers in decimal, and deriving table names from file names.

use vstd::prelude::*;

verus! {

/// The separator placed between column names and between value slots.
pub open spec fn comma_space() -> Seq<char> {
    seq![',', ' ']
}

/// `items` joined by `", "`, in order.
pub open spec fn seq_join_comma(items: Seq<Seq<char>>) -> Seq<char>
    decreases items.len(),
{
    if items.len() == 0 {
        Seq::empty()
    } else if items.len() == 1 {
        items[0]
    } else {
        seq_join_comma(items.drop_last()) + comma_space() + items.last()
    }
}

/// Joins the strings of `items` with `", "` between them.
pub fn join_comma(items: &Vec<String>) -> (r: String)
    ensures
        r@ == seq_join_comma(items.deep_view()),
{
    let ghost model: Seq<Seq<char>> = items.deep_view();
    let mut r = String::new();
    assert(r@ =~= seq_join_comma(model.take(0)));
    for i in 0..items.len()
        invariant
            model.len() == items.len(),
            forall|j: int| 0 <= j < items.len() ==> model[j] == items[j]@,
            r@ == seq_join_comma(model.take(i as int)),
    {
        if i != 0 {
            r.append(", ");
            proof {
                reveal_strlit(", ");
                assert(", "@ =~= comma_space());
            }
        }
        r.append(items[i].as_str());
        proof {
            assert(model.take(i + 1).drop_last() =~= model.take(i as int));
            assert(model.take(i + 1).last() == model[i as int]);
            if i == 0 {
                assert(r@ =~= seq_join_comma(model.take(1)));
            }
        }
    }
    proof {
        assert(model.take(items.len() as int) =~= model);
    }
    r
}

/// `needle` occurs in `hay` as a contiguous run of characters.
pub open spec fn spec_contains_subseq(hay: Seq<char>, needle: Seq<char>) -> bool {
    exists|k: int|
        0 <= k && k + needle.len() <= hay.len() && #[trigger] hay.subrange(k, k + needle.len())
            == needle
}

/// An occurrence stays an occurrence when text is put around it.
pub proof fn lemma_contains_subseq_embed(
    pre: Seq<char>,
    hay: Seq<char>,
    post: Seq<char>,
    needle: Seq<char>,
)
    requires
        spec_contains_subseq(hay, needle),
    ensures
        spec_contains_subseq(pre + hay + post, needle),
{
    let k = choose|k: int|
        0 <= k && k + needle.len() <= hay.len() && #[trigger] hay.subrange(k, k + needle.len())
            == needle;
    let shifted = pre.len() + k;
    assert((pre + hay + post).subrange(shifted as int, shifted + needle.len()) =~= hay.subrange(
        k,
        k + needle.len(),
    ));
}

/// Every joined item occurs contiguously in the joined text.
pub proof fn lemma_join_comma_contains(items: Seq<Seq<char>>, i: int)
    requires
        0 <= i < items.len(),
    ensures
        spec_contains_subseq(seq_join_comma(items), items[i]),
    decreases items.len(),
{
    let joined = seq_join_comma(items);
    let needle = items[i];
    if items.len() == 1 {
        assert(joined.subrange(0, 0 + needle.len() as int) =~= needle);
    } else if i == items.len() - 1 {
        let offset = joined.len() - needle.len();
        assert(joined.subrange(offset as int, offset as int + needle.len() as int) =~= needle);
    } else {
        let shorter = items.drop_last();
        assert(shorter[i] == items[i]);
        lemma_join_comma_contains(shorter, i);
        lemma_contains_subseq_embed(
            Seq::empty(),
            seq_join_comma(shorter),
            comma_space() + items.last(),
            items[i],
        );
        assert(Seq::empty() + seq_join_comma(shorter) + (comma_space() + items.last())
            =~= joined);
    }
}

/// The character for one decimal digit.
pub open spec fn digit_char(d: int) -> char {
    if d == 0 {
        '0'
    } else if d == 1 {
        '1'
    } else if d == 2 {
        '2'
    } else if d == 3 {
        '3'
    } else if d == 4 {
        '4'
    } else if d == 5 {
        '5'
    } else if d == 6 {
        '6'
    } else if d == 7 {
        '7'
    } else if d == 8 {
        '8'
    } else {
        '9'
    }
}

/// The decimal rendering of a non-negative integer, most significant digit
/// first, with no leading zero except for zero itself.
pub open spec fn spec_u64_dec(n: nat) -> Seq<char>
    decreases n,
{
    if n < 10 {
        seq![digit_char(n as int)]
    } else {
        spec_u64_dec(n / 10) + seq![digit_char((n % 10) as int)]
    }
}

/// The decimal rendering of a signed integer: a `-` sign followed by the
/// digits of its magnitude.
pub open spec fn spec_i64_dec(n: int) -> Seq<char> {
    if n >= 0 {
        spec_u64_dec(n as nat)
    } else {
        seq!['-'] + spec_u64_dec((-n) as nat)
    }
}

/// Appends the character for the digit `d` to `s`.
fn push_digit(s: &mut String, d: u64)
    requires
        d < 10,
    ensures
        final(s)@ == old(s)@ + seq![digit_char(d as int)],
{
    match d {
        0 => {
            s.append("0");
            proof {
                reveal_strlit("0");
            }
        },
        1 => {
            s.append("1");
            proof {
                reveal_strlit("1");
            }
        },
        2 => {
            s.append("2");
            proof {
                reveal_strlit("2");
            }
        },
        3 => {
            s.append("3");
            proof {
                reveal_strlit("3");
            }
        },
        4 => {
            s.append("4");
            proof {
                reveal_strlit("4");
            }
        },
        5 => {
            s.append("5");
            proof {
                reveal_strlit("5");
            }
        },
        6 => {
            s.append("6");
            proof {
                reveal_strlit("6");
            }
        },
        7 => {
            s.append("7");
            proof {
                reveal_strlit("7");
            }
        },
        8 => {
            s.append("8");
            proof {
                reveal_strlit("8");
            }
        },
        _ => {
            s.append("9");
            proof {
                reveal_strlit("9");
            }
        },
    }
    proof {
        assert(final(s)@ =~= old(s)@ + seq![digit_char(d as int)]);
    }
}

/// Renders `n` in decimal.
pub fn u64_to_string(n: u64) -> (r: String)
    ensures
        r@ == spec_u64_dec(n as nat),
    decreases n,
{
    if n < 10 {
        let mut r = String::new();
        push_digit(&mut r, n);
        proof {
            assert(r@ =~= seq![digit_char(n as int)]);
        }
        r
    } else {
        let mut r = u64_to_string(n / 10);
        push_digit(&mut r, n % 10);
        r
    }
}

/// Renders `n` in decimal, with a leading `-` when it is negative.
pub fn i64_to_string(n: i64) -> (r: String)
    ensures
        r@ == spec_i64_dec(n as int),
{
    if n >= 0 {
        u64_to_string(n as u64)
    } else {
        let magnitude: u64 = ((-(n as i128)) as u64);
        let mut r = String::new();
        r.append("-");
        proof {
            reveal_strlit("-");
            assert(r@ =~= seq!['-']);
        }
        let digits = u64_to_string(magnitude);
        r.append(digits.as_str());
        r
    }
}

/// The index of the last `.` of `s` that could separate an extension
/// (never the leading character), or `-1` when there is none.
pub open spec fn spec_last_dot(s: Seq<char>) -> int
    decreases s.len(),
{
    if s.len() <= 1 {
        -1
    } else if s.last() == '.' {
        s.len() - 1
    } else {
        spec_last_dot(s.drop_last())
    }
}

/// A file name without its extension: everything before the last `.`,
/// except that a lone leading `.` marks no extension.
pub open spec fn spec_file_stem(s: Seq<char>) -> Seq<char> {
    if spec_last_dot(s) >= 1 {
        s.take(spec_last_dot(s))
    } else {
        s
    }
}

/// The index of the last `/` of `s`, or `-1` when there is none.
pub open spec fn spec_last_slash(s: Seq<char>) -> int
    decreases s.len(),
{
    if s.len() == 0 {
        -1
    } else if s.last() == '/' {
        s.len() - 1
    } else {
        spec_last_slash(s.drop_last())
    }
}

/// The part of a `/`-separated path after its last separator.
pub open spec fn spec_base_name(s: Seq<char>) -> Seq<char> {
    if spec_last_slash(s) >= 0 {
        s.skip(spec_last_slash(s) + 1)
    } else {
        s
    }
}

/// Strips the extension, if any, from a file name.
pub fn file_stem(name: &str) -> (r: String)
    ensures
        r@ == spec_file_stem(name@),
{
    let n = name.unicode_len();
    let mut i: usize = n;
    proof {
        assert(name@.take(n as int) =~= name@);
    }
    while i > 1
        invariant
            i <= n,
            n == name@.len(),
            spec_last_dot(name@) == spec_last_dot(name@.take(i as int)),
        decreases i,
    {
        proof {
            assert(name@.take(i as int).drop_last() =~= name@.take(i - 1));
        }
        if name.get_char(i - 1) == '.' {
            let stem = name.substring_char(0, i - 1);
            proof {
                assert(stem@ =~= spec_file_stem(name@));
            }
            return stem.to_owned();
        }
        i = i - 1;
    }
    proof {
        if n > 0 {
            assert(name@.take(1).len() == 1);
        } else {
            assert(name@.take(0).len() == 0);
        }
    }
    name.to_owned()
}

/// The file name a `/`-separated path ends with.
pub fn base_name(path: &str) -> (r: String)
    ensures
        r@ == spec_base_name(path@),
{
    let n = path.unicode_len();
    let mut i: usize = n;
    proof {
        assert(path@.take(n as int) =~= path@);
    }
    while i > 0
        invariant
            i <= n,
            n == path@.len(),
            spec_last_slash(path@) == spec_last_slash(path@.take(i as int)),
        decreases i,
    {
        proof {
            assert(path@.take(i as int).drop_last() =~= path@.take(i - 1));
        }
        if path.get_char(i - 1) == '/' {
            let rest = path.substring_char(i, n);
            proof {
                assert(rest@ =~= spec_base_name(path@));
            }
            return rest.to_owned();
        }
        i = i - 1;
    }
    proof {
        assert(path@.take(0).len() == 0);
    }
    path.to_owned()
}

} // verus!
