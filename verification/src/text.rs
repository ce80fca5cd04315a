//! Text concerns of the evaluator: rendering values for printing, and
//! reading typed values back from console input lines.
use crate::float::{f_text, float_text};
use crate::value::{Value, ValueV};
use vstd::prelude::*;
use vstd::string::StrSliceExecFns;
use vstd::string::StringExecFns;

verus! {

broadcast use vstd::std_specs::vec::group_vec_axioms, vstd::seq::group_seq_axioms;

/// The decimal digit character for `d` in 0..=9.
pub open spec fn digit_char(d: int) -> char {
    if d == 0 {
        '0'
    } else if d == 1 {
        '1'
    } else if d == 2 {
        '2'
    } else if d == 3 {
        '3'
    } else if d == 4 {
        '4'
    } else if d == 5 {
        '5'
    } else if d == 6 {
        '6'
    } else if d == 7 {
        '7'
    } else if d == 8 {
        '8'
    } else {
        '9'
    }
}

/// Decimal text of a nonnegative integer, most significant digit first.
pub open spec fn nat_text(n: int) -> Seq<char>
    decreases n,
{
    if n < 10 {
        seq![digit_char(n)]
    } else {
        nat_text(n / 10).push(digit_char(n % 10))
    }
}

/// Decimal text of an integer: a minus sign for negative values, then the
/// digits of the magnitude.
pub open spec fn int_text(i: int) -> Seq<char> {
    if i < 0 {
        seq!['-'] + nat_text(-i)
    } else {
        nat_text(i)
    }
}

/// The printed form of a value: text as itself, booleans and numbers in
/// their decimal forms, and the absent value as the fixed word "khali".
pub open spec fn render(v: ValueV) -> Seq<char> {
    match v {
        ValueV::Text(s) => s,
        ValueV::Boolean(b) => if b {
            "true"@
        } else {
            "false"@
        },
        ValueV::Integer(i) => int_text(i as int),
        ValueV::Float(bits) => float_text(bits),
        ValueV::Absent => "khali"@,
    }
}

/// The one-character string for a decimal digit.
fn digit_str(d: u64) -> (r: &'static str)
    requires
        d < 10,
    ensures
        r@ =~= seq![digit_char(d as int)],
{
    proof {
        reveal_strlit("0");
        reveal_strlit("1");
        reveal_strlit("2");
        reveal_strlit("3");
        reveal_strlit("4");
        reveal_strlit("5");
        reveal_strlit("6");
        reveal_strlit("7");
        reveal_strlit("8");
        reveal_strlit("9");
    }
    if d == 0 {
        "0"
    } else if d == 1 {
        "1"
    } else if d == 2 {
        "2"
    } else if d == 3 {
        "3"
    } else if d == 4 {
        "4"
    } else if d == 5 {
        "5"
    } else if d == 6 {
        "6"
    } else if d == 7 {
        "7"
    } else if d == 8 {
        "8"
    } else {
        "9"
    }
}

/// Decimal text of a `u64`.
fn u64_text(n: u64) -> (s: String)
    ensures
        s@ == nat_text(n as int),
    decreases n,
{
    if n < 10 {
        digit_str(n).to_owned()
    } else {
        let mut s = u64_text(n / 10);
        s.append(digit_str(n % 10));
        proof {
            assert(s@ =~= nat_text(n as int));
        }
        s
    }
}

/// Decimal text of an `i64`, minus sign included.
pub fn int_to_text(i: i64) -> (s: String)
    ensures
        s@ == int_text(i as int),
{
    if i >= 0 {
        u64_text(i as u64)
    } else {
        let m: u64 = (-(i as i128)) as u64;
        let mut s = String::new();
        s.append("-");
        let digits = u64_text(m);
        s.append(digits.as_str());
        proof {
            reveal_strlit("-");
            assert(s@ =~= int_text(i as int));
        }
        s
    }
}

/// The printed form of a value, as one line of output text.
pub fn render_value(v: &Value) -> (s: String)
    ensures
        s@ == render(v@),
{
    match v {
        Value::Text(s) => s.clone(),
        Value::Boolean(b) => if *b {
            "true".to_owned()
        } else {
            "false".to_owned()
        },
        Value::Integer(i) => int_to_text(*i),
        Value::Float(bits) => f_text(*bits),
        Value::Absent => "khali".to_owned(),
    }
}

/// Whether `c` carries the Unicode White_Space property, the rule by which
/// input lines are trimmed.
pub open spec fn is_space(c: char) -> bool {
    let u = c as u32;
    (9 <= u && u <= 13) || u == 32 || u == 0x85 || u == 0xa0 || u == 0x1680 || (0x2000 <= u && u
        <= 0x200a) || u == 0x2028 || u == 0x2029 || u == 0x202f || u == 0x205f || u == 0x3000
}

fn is_space_exec(c: char) -> (r: bool)
    ensures
        r == is_space(c),
{
    let u = c as u32;
    (9 <= u && u <= 13) || u == 32 || u == 0x85 || u == 0xa0 || u == 0x1680 || (0x2000 <= u && u
        <= 0x200a) || u == 0x2028 || u == 0x2029 || u == 0x202f || u == 0x205f || u == 0x3000
}

/// How many whitespace characters the text starts with.
pub open spec fn count_leading(s: Seq<char>) -> int
    decreases s,
{
    if s.len() == 0 {
        0
    } else if is_space(s[0]) {
        1 + count_leading(s.drop_first())
    } else {
        0
    }
}

/// How many whitespace characters the text ends with.
pub open spec fn count_trailing(s: Seq<char>) -> int
    decreases s,
{
    if s.len() == 0 {
        0
    } else if is_space(s.last()) {
        1 + count_trailing(s.drop_last())
    } else {
        0
    }
}

/// The text with leading and trailing whitespace removed.
pub open spec fn trim_spec(s: Seq<char>) -> Seq<char> {
    let rest = s.skip(count_leading(s));
    rest.take(rest.len() - count_trailing(rest))
}

proof fn lemma_count_leading(s: Seq<char>, i: int)
    requires
        0 <= i <= s.len(),
        forall|k: int| 0 <= k < i ==> is_space(s[k]),
        i < s.len() ==> !is_space(s[i]),
    ensures
        count_leading(s) == i,
    decreases i,
{
    if i == 0 {
    } else {
        lemma_count_leading(s.drop_first(), i - 1);
    }
}

proof fn lemma_count_trailing(s: Seq<char>, j: int)
    requires
        0 <= j <= s.len(),
        forall|k: int| j <= k < s.len() ==> is_space(s[k]),
        j > 0 ==> !is_space(s[j - 1]),
    ensures
        count_trailing(s) == s.len() - j,
    decreases s.len() - j,
{
    if j < s.len() {
        lemma_count_trailing(s.drop_last(), j);
    }
}

/// The line with surrounding whitespace removed, exactly as `trim_spec`
/// describes it.
pub fn trim(s: &str) -> (r: &str)
    ensures
        r@ == trim_spec(s@),
{
    let n = s.unicode_len();
    let mut i: usize = 0;
    while i < n && is_space_exec(s.get_char(i))
        invariant
            0 <= i <= n,
            n == s@.len(),
            forall|k: int| 0 <= k < i ==> is_space(s@[k]),
        decreases n - i,
    {
        i = i + 1;
    }
    proof {
        lemma_count_leading(s@, i as int);
    }
    let mut j: usize = n;
    while j > i && is_space_exec(s.get_char(j - 1))
        invariant
            i <= j <= n,
            n == s@.len(),
            forall|k: int| j <= k < n ==> is_space(s@[k]),
        decreases j,
    {
        j = j - 1;
    }
    let r = s.substring_char(i, j);
    proof {
        let rest = s@.skip(i as int);
        lemma_count_trailing(rest, j - i);
        assert(r@ =~= trim_spec(s@));
    }
    r
}

/// Whether `c` is a decimal digit.
pub open spec fn is_digit(c: char) -> bool {
    48 <= c as u32 && c as u32 <= 57
}

/// The value of a sequence of decimal digits, most significant first.
pub open spec fn digits_val(s: Seq<char>) -> int
    decreases s,
{
    if s.len() == 0 {
        0
    } else {
        digits_val(s.drop_last()) * 10 + (s.last() as u32 - 48)
    }
}

/// Whether every character of the text is a decimal digit.
pub open spec fn all_digits(s: Seq<char>) -> bool {
    forall|k: int| 0 <= k < s.len() ==> is_digit(s[k])
}

/// What reading the text as a signed 64-bit decimal integer yields: an
/// optional sign, then at least one digit, with the value in range;
/// anything else is a failure.
pub open spec fn parse_i64_spec(s: Seq<char>) -> Option<i64> {
    let neg = s.len() > 0 && s[0] == '-';
    let signed = s.len() > 0 && (s[0] == '-' || s[0] == '+');
    let ds = if signed {
        s.drop_first()
    } else {
        s
    };
    if ds.len() == 0 || !all_digits(ds) {
        Option::None
    } else {
        let v = if neg {
            -digits_val(ds)
        } else {
            digits_val(ds)
        };
        if i64::MIN <= v <= i64::MAX {
            Option::Some(v as i64)
        } else {
            Option::None
        }
    }
}

proof fn lemma_digits_val_nonneg(s: Seq<char>)
    requires
        all_digits(s),
    ensures
        digits_val(s) >= 0,
    decreases s,
{
    if s.len() > 0 {
        assert(all_digits(s.drop_last())) by {
            assert(forall|k: int| 0 <= k < s.len() - 1 ==> s.drop_last()[k] == s[k]);
        }
        lemma_digits_val_nonneg(s.drop_last());
    }
}

/// Reads the text as a signed 64-bit decimal integer.
pub fn parse_i64(t: &str) -> (r: Option<i64>)
    ensures
        r == parse_i64_spec(t@),
{
    let n = t.unicode_len();
    if n == 0 {
        return Option::None;
    }
    let first = t.get_char(0);
    let neg = first == '-';
    let signed = first == '-' || first == '+';
    let start: usize = if signed {
        1
    } else {
        0
    };
    if start == n {
        return Option::None;
    }
    let ghost ds = if signed {
        t@.drop_first()
    } else {
        t@
    };
    let sat: i128 = 0x8000_0000_0000_0001;
    let mut acc: i128 = 0;
    let mut i: usize = start;
    while i < n
        invariant
            start <= i <= n,
            n == t@.len(),
            n > 0,
            signed == (t@[0] == '-' || t@[0] == '+'),
            neg == (t@[0] == '-'),
            start == if signed {
                1int
            } else {
                0int
            },
            ds == if signed {
                t@.drop_first()
            } else {
                t@
            },
            sat == 0x8000_0000_0000_0001,
            forall|k: int| start <= k < i ==> is_digit(t@[k]),
            ({
                let dv = digits_val(t@.subrange(start as int, i as int));
                dv >= 0 && acc == if dv < sat {
                    dv
                } else {
                    sat as int
                }
            }),
        decreases n - i,
    {
        let c = t.get_char(i);
        let u = c as u32;
        if !(48 <= u && u <= 57) {
            proof {
                assert(!all_digits(ds)) by {
                    let bad: int = if signed {
                        i as int - 1
                    } else {
                        i as int
                    };
                    assert(ds[bad] == t@[i as int]);
                    assert(0 <= bad < ds.len() && !is_digit(ds[bad]));
                }
            }
            return Option::None;
        }
        let d = (u - 48) as i128;
        let ghost pre = t@.subrange(start as int, i as int);
        let ghost post = t@.subrange(start as int, i + 1);
        proof {
            assert(post.drop_last() =~= pre);
            assert(post.last() == t@[i as int]);
        }
        let step = acc * 10 + d;
        acc = if step > sat {
            sat
        } else {
            step
        };
        i = i + 1;
    }
    proof {
        let full = t@.subrange(start as int, n as int);
        assert(full =~= ds);
        assert(all_digits(ds));
    }
    if neg {
        let v = -acc;
        if v >= i64::MIN as i128 {
            Option::Some(v as i64)
        } else {
            Option::None
        }
    } else {
        if acc <= i64::MAX as i128 {
            Option::Some(acc as i64)
        } else {
            Option::None
        }
    }
}

/// What reading the text as a boolean yields: exactly the words "true"
/// and "false".
pub open spec fn parse_bool_spec(s: Seq<char>) -> Option<bool> {
    if s == "true"@ {
        Option::Some(true)
    } else if s == "false"@ {
        Option::Some(false)
    } else {
        Option::None
    }
}

/// Character-by-character text equality.
pub fn str_eq(a: &str, b: &str) -> (r: bool)
    ensures
        r == (a@ == b@),
{
    let la = a.unicode_len();
    let lb = b.unicode_len();
    if la != lb {
        proof {
            assert(a@ != b@) by {
                assert(a@.len() != b@.len());
            }
        }
        return false;
    }
    let mut i: usize = 0;
    while i < la
        invariant
            0 <= i <= la,
            la == a@.len(),
            la == b@.len(),
            forall|k: int| 0 <= k < i ==> a@[k] == b@[k],
        decreases la - i,
    {
        let ca = a.get_char(i);
        let cb = b.get_char(i);
        if ca != cb {
            return false;
        }
        i = i + 1;
    }
    proof {
        assert(a@ =~= b@);
    }
    true
}

/// Reads the text as a boolean.
pub fn parse_bool(t: &str) -> (r: Option<bool>)
    ensures
        r == parse_bool_spec(t@),
{
    if str_eq(t, "true") {
        Option::Some(true)
    } else if str_eq(t, "false") {
        Option::Some(false)
    } else {
        Option::None
    }
}

} // verus!
