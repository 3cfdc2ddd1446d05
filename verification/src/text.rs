//! Decimal rendering of integers into `String`s, verified against a
//! mathematical description of the decimal representation.
//!
//! Every notification the pipeline formats goes through these helpers,
//! so their contracts pin down the exact character sequences produced.

use vstd::prelude::*;
use vstd::string::StringExecFns;

verus! {

/// The character for a single decimal digit value.
pub open spec fn digit_char(d: int) -> char {
    if d == 0 {
        '0'
    } else if d == 1 {
        '1'
    } else if d == 2 {
        '2'
    } else if d == 3 {
        '3'
    } else if d == 4 {
        '4'
    } else if d == 5 {
        '5'
    } else if d == 6 {
        '6'
    } else if d == 7 {
        '7'
    } else if d == 8 {
        '8'
    } else {
        '9'
    }
}

/// The decimal representation of a natural number, most significant
/// digit first, with no leading zeros (`0` is rendered as `"0"`).
pub open spec fn dec_rep(n: nat) -> Seq<char>
    decreases n,
{
    if n < 10 {
        seq![digit_char(n as int)]
    } else {
        dec_rep(n / 10).push(digit_char((n % 10) as int))
    }
}

/// The decimal representation of an integer: a `-` sign followed by the
/// digits for negative values, the bare digits otherwise.
pub open spec fn dec_int(n: int) -> Seq<char> {
    if n < 0 {
        seq!['-'] + dec_rep((-n) as nat)
    } else {
        dec_rep(n as nat)
    }
}

pub(crate) fn digit_str(d: u64) -> (r: &'static str)
    requires
        d < 10,
    ensures
        r@ == seq![digit_char(d as int)],
{
    if d == 0 {
        proof {
            reveal_strlit("0");
            assert("0"@ =~= seq![digit_char(0)]);
        }
        "0"
    } else if d == 1 {
        proof {
            reveal_strlit("1");
            assert("1"@ =~= seq![digit_char(1)]);
        }
        "1"
    } else if d == 2 {
        proof {
            reveal_strlit("2");
            assert("2"@ =~= seq![digit_char(2)]);
        }
        "2"
    } else if d == 3 {
        proof {
            reveal_strlit("3");
            assert("3"@ =~= seq![digit_char(3)]);
        }
        "3"
    } else if d == 4 {
        proof {
            reveal_strlit("4");
            assert("4"@ =~= seq![digit_char(4)]);
        }
        "4"
    } else if d == 5 {
        proof {
            reveal_strlit("5");
            assert("5"@ =~= seq![digit_char(5)]);
        }
        "5"
    } else if d == 6 {
        proof {
            reveal_strlit("6");
            assert("6"@ =~= seq![digit_char(6)]);
        }
        "6"
    } else if d == 7 {
        proof {
            reveal_strlit("7");
            assert("7"@ =~= seq![digit_char(7)]);
        }
        "7"
    } else if d == 8 {
        proof {
            reveal_strlit("8");
            assert("8"@ =~= seq![digit_char(8)]);
        }
        "8"
    } else {
        proof {
            reveal_strlit("9");
            assert("9"@ =~= seq![digit_char(9)]);
        }
        "9"
    }
}

/// Appends the decimal digits of `n` to `s`.
pub fn append_u64(s: &mut String, n: u64)
    ensures
        final(s)@ == old(s)@ + dec_rep(n as nat),
    decreases n,
{
    if n < 10 {
        s.append(digit_str(n));
    } else {
        append_u64(s, n / 10);
        s.append(digit_str(n % 10));
        proof {
            assert(s@ =~= old(s)@ + dec_rep(n as nat));
        }
    }
}

/// Appends the decimal form of `n`, with a leading `-` when negative.
pub fn append_i64(s: &mut String, n: i64)
    ensures
        final(s)@ == old(s)@ + dec_int(n as int),
{
    if n < 0 {
        proof {
            reveal_strlit("-");
            assert("-"@ =~= seq!['-']);
        }
        s.append("-");
        let m: u64 = (-(n as i128)) as u64;
        append_u64(s, m);
        proof {
            assert(s@ =~= old(s)@ + dec_int(n as int));
        }
    } else {
        append_u64(s, n as u64);
    }
}

/// The decimal digits of `n` as a fresh `String`.
pub fn u64_string(n: u64) -> (r: String)
    ensures
        r@ == dec_rep(n as nat),
{
    let mut s = String::new();
    append_u64(&mut s, n);
    proof {
        assert(s@ =~= dec_rep(n as nat));
    }
    s
}

/// The views of a sequence of strings.
pub open spec fn views_of(parts: Seq<String>) -> Seq<Seq<char>> {
    parts.map_values(|s: String| s@)
}

/// The parts joined with `sep` between consecutive parts.
pub open spec fn join(parts: Seq<Seq<char>>, sep: Seq<char>) -> Seq<char>
    decreases parts.len(),
{
    if parts.len() == 0 {
        Seq::empty()
    } else if parts.len() == 1 {
        parts[0]
    } else {
        parts[0] + sep + join(parts.drop_first(), sep)
    }
}

/// Joining one more part appends a separator and the part.
pub proof fn lemma_join_push(parts: Seq<Seq<char>>, x: Seq<char>, sep: Seq<char>)
    requires
        parts.len() >= 1,
    ensures
        join(parts.push(x), sep) == join(parts, sep) + sep + x,
    decreases parts.len(),
{
    assert(parts.push(x)[0] == parts[0]);
    if parts.len() == 1 {
        assert(parts.push(x).drop_first() =~= seq![x]);
        assert(join(seq![x], sep) == x);
        assert(join(parts.push(x), sep) =~= join(parts, sep) + sep + x);
    } else {
        assert(parts.push(x).drop_first() =~= parts.drop_first().push(x));
        lemma_join_push(parts.drop_first(), x, sep);
        assert(join(parts.push(x), sep) =~= join(parts, sep) + sep + x);
    }
}

/// Joins the strings with `sep` between consecutive entries.
pub fn join_strings(parts: &Vec<String>, sep: &str) -> (r: String)
    ensures
        r@ == join(views_of(parts@), sep@),
{
    let mut s = String::new();
    let n = parts.len();
    if n == 0 {
        proof {
            assert(s@ =~= join(views_of(parts@), sep@));
        }
        return s;
    }
    s.append(parts[0].as_str());
    proof {
        assert(views_of(parts@).take(1) =~= seq![parts@[0]@]);
        assert(s@ =~= join(views_of(parts@).take(1), sep@));
    }
    let mut i: usize = 1;
    while i < n
        invariant
            1 <= i <= n,
            n == parts@.len(),
            s@ == join(views_of(parts@).take(i as int), sep@),
        decreases n - i,
    {
        s.append(sep);
        s.append(parts[i].as_str());
        proof {
            let m = views_of(parts@);
            assert(m.take(i as int + 1) =~= m.take(i as int).push(m[i as int]));
            lemma_join_push(m.take(i as int), m[i as int], sep@);
            assert(m[i as int] == parts@[i as int]@);
            assert(s@ =~= join(m.take(i as int + 1), sep@));
        }
        i = i + 1;
    }
    proof {
        assert(views_of(parts@).take(n as int) =~= views_of(parts@));
    }
    s
}

/// The decimal form of `n` as a fresh `String`, signed when negative.
pub fn i64_string(n: i64) -> (r: String)
    ensures
        r@ == dec_int(n as int),
{
    let mut s = String::new();
    append_i64(&mut s, n);
    proof {
        assert(s@ =~= dec_int(n as int));
    }
    s
}

} // verus!
