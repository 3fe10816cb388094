use vstd::prelude::*;
use crate::error::{outcome, Failure, ParseError};
use crate::lines::chars_of;

verus! {

pub open spec fn is_digit(c: char) -> bool {
    '0' <= c && c <= '9'
}

pub open spec fn all_digits(d: Seq<char>) -> bool {
    forall|i: int| 0 <= i < d.len() ==> is_digit(#[trigger] d[i])
}

/// The number that the decimal digits `d` write; zero for no digits.
pub open spec fn digits_value(d: Seq<char>) -> nat
    decreases d.len(),
{
    if d.len() == 0 {
        0
    } else {
        digits_value(d.drop_last()) * 10 + (d.last() as int - '0' as int) as nat
    }
}

/// `t` without the one `+` sign it may start with.
pub open spec fn unsigned_digits(t: Seq<char>) -> Seq<char> {
    if t.len() > 0 && t[0] == '+' {
        t.drop_first()
    } else {
        t
    }
}

/// The `u32` that `t` writes in decimal: an optional `+`, then one or more
/// ASCII digits, and a value that fits.
pub open spec fn decimal_u32(t: Seq<char>) -> Option<u32> {
    let d = unsigned_digits(t);
    if d.len() > 0 && all_digits(d) && digits_value(d) <= u32::MAX {
        Some(digits_value(d) as u32)
    } else {
        None
    }
}

proof fn lemma_digits_value_prefix(d: Seq<char>, k: int)
    requires
        0 <= k <= d.len(),
        all_digits(d),
    ensures
        digits_value(d.take(k)) <= digits_value(d),
    decreases d.len(),
{
    if k < d.len() {
        let p = d.drop_last();
        assert(all_digits(p)) by {
            assert forall|i: int| 0 <= i < p.len() implies is_digit(#[trigger] p[i]) by {
                assert(p[i] == d[i]);
            }
        }
        lemma_digits_value_prefix(p, k);
        assert(p.take(k) =~= d.take(k));
    } else {
        assert(d.take(k) =~= d);
    }
}

/// Reads a `u32` written in decimal, as `str::parse::<u32>` does: an optional
/// `+`, then ASCII digits only.
pub fn parse_number(t: &str) -> (r: Option<u32>)
    ensures
        r == decimal_u32(t@),
{
    let v = chars_of(t);
    let start: usize = if v.len() > 0 && v[0] == '+' {
        1
    } else {
        0
    };
    let ghost d = unsigned_digits(t@);
    assert(d =~= v@.skip(start as int));
    let mut i = start;
    let mut acc: u64 = 0;
    while i < v.len()
        invariant
            v@ == t@,
            d == v@.skip(start as int),
            d == unsigned_digits(t@),
            start <= i <= v@.len(),
            all_digits(v@.subrange(start as int, i as int)),
            acc == digits_value(v@.subrange(start as int, i as int)),
            acc <= u32::MAX,
        decreases v@.len() - i,
    {
        let c = v[i];
        if c < '0' || c > '9' {
            proof {
                assert(d[i - start] == c);
                assert(!is_digit(d[i - start]));
                assert(!all_digits(d));
            }
            return None;
        }
        let next: u64 = acc * 10 + (c as u64 - '0' as u64);
        proof {
            let p = v@.subrange(start as int, i + 1);
            assert(p.drop_last() =~= v@.subrange(start as int, i as int));
            assert(all_digits(p)) by {
                assert forall|j: int| 0 <= j < p.len() implies is_digit(#[trigger] p[j]) by {
                    if j < p.len() - 1 {
                        assert(p[j] == v@.subrange(start as int, i as int)[j]);
                    }
                }
            }
            assert(p =~= d.take(i + 1 - start));
            assert(p.last() == c);
            assert(next == digits_value(p));
        }
        if next > u32::MAX as u64 {
            proof {
                if all_digits(d) {
                    lemma_digits_value_prefix(d, i + 1 - start);
                    assert(digits_value(d) > u32::MAX);
                }
            }
            return None;
        }
        acc = next;
        i = i + 1;
    }
    assert(v@.subrange(start as int, i as int) =~= d);
    if i == start {
        None
    } else {
        Some(acc as u32)
    }
}

/// The text that ends every percentage roll.
pub open spec fn roll_suffix() -> Seq<char> {
    "% (augmented)"@
}

/// `t` reads `+<digits>% (augmented)`, with one or more ASCII digits.
pub open spec fn is_roll(t: Seq<char>) -> bool {
    &&& t.len() > 14
    &&& t[0] == '+'
    &&& t.skip(t.len() - 13) == roll_suffix()
    &&& all_digits(t.subrange(1, t.len() - 13))
}

/// The number of a percentage roll `+<digits>% (augmented)`.
pub open spec fn roll_value(t: Seq<char>) -> Option<u32> {
    if is_roll(t) {
        decimal_u32(t.subrange(1, t.len() - 13))
    } else {
        None
    }
}

/// Relies on `regex::Regex::new` and `regex::Regex::captures` with the pattern
/// `^\+(\d+)% \(augmented\)$`: on a match, the first group is the digits between
/// `+` and `% (augmented)`. `\d` matches the Unicode decimal digits, which are
/// the ASCII digits and no other ASCII character.
#[verifier::external_body]
fn roll_capture(roll: &str) -> (r: Option<String>)
    ensures
        match r {
            Some(d) => {
                &&& roll@ == seq!['+'] + d@ + roll_suffix()
                &&& d@.len() > 0
                &&& forall|i: int| 0 <= i < d@.len() ==> is_digit(d@[i]) || d@[i] as u32 >= 128
            },
            None => !is_roll(roll@),
        },
{
    let pattern = regex::Regex::new(r"^\+(\d+)% \(augmented\)$").unwrap();
    match pattern.captures(roll) {
        Some(caps) => match caps.get(1) {
            Some(m) => Some(m.as_str().to_string()),
            None => None,
        },
        None => None,
    }
}

/// Reads the number of a percentage roll such as `+142% (augmented)`.
pub fn extract_map_roll(roll: &str) -> (r: Result<u32, ParseError>)
    ensures
        outcome(r) == match roll_value(roll@) {
            Some(n) => Ok(n),
            None => Err(Failure::MalformedPercentageRoll(roll@)),
        },
{
    match roll_capture(roll) {
        Some(d) => {
            proof {
                reveal_strlit("% (augmented)");
                let t = roll@;
                assert(t.subrange(1, t.len() - 13) =~= d@);
                assert(t.skip(t.len() - 13) =~= roll_suffix());
                assert(t[0] == '+');
                assert(unsigned_digits(d@) == d@);
            }
            match parse_number(d.as_str()) {
                Some(n) => Ok(n),
                None => Err(ParseError::MalformedPercentageRoll(roll.to_string())),
            }
        },
        None => Err(ParseError::MalformedPercentageRoll(roll.to_string())),
    }
}

} // verus!
