//! Small string routines shared by the modules: case-insensitive keyword
//! matching and decimal rendering of integers.
use vstd::prelude::*;
use vstd::string::*;

verus! {

/// The code of `c` with ASCII upper-case letters folded to lower case.
pub open spec fn folded(c: char) -> u32 {
    if 65 <= (c as u32) && (c as u32) <= 90 {
        ((c as u32) + 32) as u32
    } else {
        c as u32
    }
}

/// `s` spells the lower-case ASCII keyword `w`, letters compared without regard to case.
///
/// For the keywords of this crate (none of which holds the letter `k`) this is
/// exactly "`s` lowered to lower case equals `w`": the only characters whose lower
/// case is an ASCII letter are that letter, its capital, and the Kelvin sign.
pub open spec fn same_word(s: Seq<char>, w: Seq<char>) -> bool {
    &&& s.len() == w.len()
    &&& forall|i: int| 0 <= i < s.len() ==> #[trigger] folded(s[i]) == (w[i] as u32)
}

/// Decides `same_word(s@, w@)`.
pub fn matches_word(s: &str, w: &str) -> (r: bool)
    ensures
        r == same_word(s@, w@),
{
    let n = s.unicode_len();
    let m = w.unicode_len();
    if n != m {
        return false;
    }
    let mut i: usize = 0;
    while i < n
        invariant
            n == s@.len(),
            m == w@.len(),
            n == m,
            i <= n,
            forall|j: int| 0 <= j < i ==> #[trigger] folded(s@[j]) == (w@[j] as u32),
        decreases n - i,
    {
        let c = s.get_char(i);
        let d = w.get_char(i);
        let code: u32 = c as u32;
        let folded_code: u32 = if 65 <= code && code <= 90 {
            code + 32
        } else {
            code
        };
        if folded_code != (d as u32) {
            assert(folded(s@[i as int]) != (w@[i as int] as u32));
            return false;
        }
        i = i + 1;
    }
    true
}

/// The character of the decimal digit `d`.
pub open spec fn digit_char(d: int) -> char {
    if d == 0 {
        '0'
    } else if d == 1 {
        '1'
    } else if d == 2 {
        '2'
    } else if d == 3 {
        '3'
    } else if d == 4 {
        '4'
    } else if d == 5 {
        '5'
    } else if d == 6 {
        '6'
    } else if d == 7 {
        '7'
    } else if d == 8 {
        '8'
    } else {
        '9'
    }
}

/// The decimal digits of the natural number `n`, most significant first, without leading zeros.
pub open spec fn decimal(n: nat) -> Seq<char>
    decreases n,
{
    if n < 10 {
        seq![digit_char(n as int)]
    } else {
        decimal(n / 10) + seq![digit_char((n % 10) as int)]
    }
}

/// The decimal text of the integer `n`, with a leading `-` when it is negative.
pub open spec fn signed_decimal(n: int) -> Seq<char> {
    if n < 0 {
        seq!['-'] + decimal((-n) as nat)
    } else {
        decimal(n as nat)
    }
}

fn digit_text(d: u128) -> (s: String)
    requires
        d < 10,
    ensures
        s@ == seq![digit_char(d as int)],
{
    let t: &str = if d == 0 {
        proof {
            reveal_strlit("0");
        }
        "0"
    } else if d == 1 {
        proof {
            reveal_strlit("1");
        }
        "1"
    } else if d == 2 {
        proof {
            reveal_strlit("2");
        }
        "2"
    } else if d == 3 {
        proof {
            reveal_strlit("3");
        }
        "3"
    } else if d == 4 {
        proof {
            reveal_strlit("4");
        }
        "4"
    } else if d == 5 {
        proof {
            reveal_strlit("5");
        }
        "5"
    } else if d == 6 {
        proof {
            reveal_strlit("6");
        }
        "6"
    } else if d == 7 {
        proof {
            reveal_strlit("7");
        }
        "7"
    } else if d == 8 {
        proof {
            reveal_strlit("8");
        }
        "8"
    } else {
        proof {
            reveal_strlit("9");
        }
        "9"
    };
    t.to_owned()
}

/// Renders a natural number in decimal.
pub fn unsigned_text(n: u128) -> (s: String)
    ensures
        s@ == decimal(n as nat),
{
    let mut rest: u128 = n / 10;
    let mut out = digit_text(n % 10);
    while rest > 0
        invariant
            decimal(n as nat) == (if rest == 0 {
                seq![]
            } else {
                decimal(rest as nat)
            }) + out@,
        decreases rest,
    {
        let mut d = digit_text(rest % 10);
        assert(decimal(rest as nat) == (if rest / 10 == 0 {
            seq![]
        } else {
            decimal((rest / 10) as nat)
        }) + seq![digit_char((rest % 10) as int)]);
        let ghost before = out@;
        d.append(out.as_str());
        out = d;
        assert(decimal(n as nat) == (if rest / 10 == 0 {
            seq![]
        } else {
            decimal((rest / 10) as nat)
        }) + out@) by {
            assert(out@ == seq![digit_char((rest % 10) as int)] + before);
        }
        rest = rest / 10;
    }
    assert(decimal(n as nat) == out@) by {
        assert(seq![] + out@ == out@);
    }
    out
}

/// Renders a signed integer in decimal, as `Display` does for the integer types.
pub fn signed_text(n: i128) -> (s: String)
    ensures
        s@ == signed_decimal(n as int),
{
    if n < 0 {
        let magnitude: u128 = if n == i128::MIN {
            170141183460469231731687303715884105728u128
        } else {
            (-n) as u128
        };
        let digits = unsigned_text(magnitude);
        proof {
            reveal_strlit("-");
        }
        let mut out = "-".to_owned();
        out.append(digits.as_str());
        out
    } else {
        unsigned_text(n as u128)
    }
}

/// The parts written one after another with `sep` between neighbours.
pub open spec fn join_with(parts: Seq<Seq<char>>, sep: Seq<char>) -> Seq<char>
    decreases parts.len(),
{
    if parts.len() == 0 {
        seq![]
    } else if parts.len() == 1 {
        parts[0]
    } else {
        join_with(parts.drop_last(), sep) + sep + parts.last()
    }
}

/// The views of a list of strings.
pub open spec fn texts(v: Seq<String>) -> Seq<Seq<char>> {
    v.map_values(|s: String| s@)
}

/// Joins the strings with `sep` between neighbours.
pub fn join_strings(parts: &Vec<String>, sep: &str) -> (r: String)
    ensures
        r@ == join_with(texts(parts@), sep@),
{
    let mut out = String::new();
    let mut i: usize = 0;
    while i < parts.len()
        invariant
            i <= parts@.len(),
            out@ == join_with(texts(parts@.subrange(0, i as int)), sep@),
        decreases parts@.len() - i,
    {
        if i > 0 {
            out.append(sep);
        }
        out.append(parts[i].as_str());
        proof {
            let ps = texts(parts@.subrange(0, i + 1));
            assert(ps.drop_last() =~= texts(parts@.subrange(0, i as int)));
            assert(ps.last() == parts@[i as int]@);
            if i == 0 {
                assert(texts(parts@.subrange(0, 0)) =~= seq![]);
            }
        }
        i = i + 1;
    }
    assert(parts@.subrange(0, i as int) =~= parts@);
    out
}

} // verus!
