use vstd::prelude::*;
use vstd::string::*;

verus! {

pub open spec fn is_digit(c: char) -> bool {
    '0' <= c <= '9'
}

/// Where the run of digits of `s` that starts at `i` ends.
pub open spec fn digit_run(s: Seq<char>, i: int) -> int
    decreases s.len() - i,
{
    if 0 <= i < s.len() && is_digit(s[i]) {
        digit_run(s, i + 1)
    } else {
        i
    }
}

/// Where the integer part of a number that starts at `i` ends: `0`, or a
/// digit from 1 to 9 and the digits after it; `i` itself when there is none.
pub open spec fn int_end(s: Seq<char>, i: int) -> int {
    if 0 <= i < s.len() && s[i] == '0' {
        i + 1
    } else if 0 <= i < s.len() && is_digit(s[i]) {
        digit_run(s, i)
    } else {
        i
    }
}

/// Where the fraction `.` digits that starts at `i` ends; `i` when there is none,
/// `-1` when a `.` has no digit after it.
pub open spec fn frac_end(s: Seq<char>, i: int) -> int {
    if 0 <= i < s.len() && s[i] == '.' {
        if digit_run(s, i + 1) > i + 1 { digit_run(s, i + 1) } else { -1 }
    } else {
        i
    }
}

/// Where the exponent `e`, optional sign, digits, that starts at `i` ends;
/// `i` when there is none, `-1` when it has no digit.
pub open spec fn exp_end(s: Seq<char>, i: int) -> int {
    if 0 <= i < s.len() && (s[i] == 'e' || s[i] == 'E') {
        let k = if i + 1 < s.len() && (s[i + 1] == '+' || s[i + 1] == '-') { i + 2 } else { i + 1 };
        if digit_run(s, k) > k { digit_run(s, k) } else { -1 }
    } else {
        i
    }
}

/// A JSON number literal: an optional `-`, an integer part without leading
/// zeros, an optional fraction and an optional exponent.
pub open spec fn is_number_literal(s: Seq<char>) -> bool {
    let a = if s.len() > 0 && s[0] == '-' { 1int } else { 0int };
    let b = int_end(s, a);
    &&& b > a
    &&& frac_end(s, b) >= 0
    &&& exp_end(s, frac_end(s, b)) == s.len()
}

/// A JSON number, held as its literal text (`123`, `-0.5`, `1e20`).
#[derive(Debug)]
pub struct JsonNumber {
    text: String,
}

impl View for JsonNumber {
    type V = Seq<char>;

    closed spec fn view(&self) -> Seq<char> {
        self.text@
    }
}

fn digit_run_of(s: &str, n: usize, i: usize) -> (r: usize)
    requires
        n == s@.len(),
        i <= n,
    ensures
        r == digit_run(s@, i as int),
        i <= r <= n,
{
    let mut j: usize = i;
    while j < n && is_digit_char(s.get_char(j))
        invariant
            n == s@.len(),
            i <= j <= n,
            digit_run(s@, i as int) == digit_run(s@, j as int),
        decreases n - j,
    {
        j = j + 1;
    }
    j
}

fn is_digit_char(c: char) -> (r: bool)
    ensures
        r == is_digit(c),
{
    '0' <= c && c <= '9'
}

impl JsonNumber {
    #[verifier::type_invariant]
    spec fn inv(&self) -> bool {
        is_number_literal(self.text@)
    }

    /// Reads a JSON number literal; `None` when `s` is not one.
    pub fn parse(s: &str) -> (r: Option<JsonNumber>)
        ensures
            r is Some <==> is_number_literal(s@),
            r matches Some(n) ==> n@ == s@,
    {
        let n = s.unicode_len();
        let a: usize = if n > 0 && s.get_char(0) == '-' { 1 } else { 0 };
        let b: usize = if a < n && s.get_char(a) == '0' {
            a + 1
        } else if a < n && is_digit_char(s.get_char(a)) {
            digit_run_of(s, n, a)
        } else {
            a
        };
        if b <= a {
            return None;
        }
        let f: usize = if b < n && s.get_char(b) == '.' {
            let d = digit_run_of(s, n, b + 1);
            if d > b + 1 {
                d
            } else {
                return None;
            }
        } else {
            b
        };
        let e: usize = if f < n && (s.get_char(f) == 'e' || s.get_char(f) == 'E') {
            let k: usize = if f + 1 < n && (s.get_char(f + 1) == '+' || s.get_char(f + 1) == '-') {
                f + 2
            } else {
                f + 1
            };
            let d = digit_run_of(s, n, k);
            if d > k {
                d
            } else {
                return None;
            }
        } else {
            f
        };
        if e != n {
            return None;
        }
        Some(JsonNumber { text: s.to_owned() })
    }

    /// The literal text, which is always a JSON number literal.
    pub fn text(&self) -> (r: &String)
        ensures
            r@ == self@,
            is_number_literal(self@),
    {
        proof {
            use_type_invariant(self);
        }
        &self.text
    }

    /// A copy of the number.
    pub fn copy(&self) -> (r: JsonNumber)
        ensures
            r@ == self@,
    {
        proof {
            use_type_invariant(self);
        }
        JsonNumber { text: self.text.clone() }
    }

    /// The number `123`.
    pub fn mock_integer() -> (r: JsonNumber)
        ensures
            r@ == "123"@,
    {
        proof {
            reveal_strlit("123");
            reveal_with_fuel(digit_run, 4);
        }
        JsonNumber { text: "123".to_owned() }
    }

    /// The number `123.45`.
    pub fn mock_decimal() -> (r: JsonNumber)
        ensures
            r@ == "123.45"@,
    {
        proof {
            reveal_strlit("123.45");
            reveal_with_fuel(digit_run, 4);
        }
        JsonNumber { text: "123.45".to_owned() }
    }
}

} // verus!
