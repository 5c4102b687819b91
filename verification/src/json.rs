//! The manifest wire format: a JSON object with a `version` string and an
//! `assets` array of objects with `url`, `path`, `size` and an optional
//! `checksum`; unknown members are ignored. The grammar is stated by spec
//! functions over the document's characters, and the executable parser is
//! proved to return exactly what they describe.

use vstd::prelude::*;
use crate::text::push_char;

verus! {

/// JSON whitespace.
pub open spec fn is_ws(c: char) -> bool {
    c == ' ' || c == '\n' || c == '\r' || c == '\t'
}

/// Index of the first non-whitespace character at or after `i`.
pub open spec fn spec_ws(s: Seq<char>, i: int) -> int
    decreases s.len() - i,
{
    if 0 <= i < s.len() && is_ws(s[i]) {
        spec_ws(s, i + 1)
    } else {
        i
    }
}

fn char_is_ws(c: char) -> (r: bool)
    ensures
        r == is_ws(c),
{
    c == ' ' || c == '\n' || c == '\r' || c == '\t'
}

fn skip_ws(s: &str, i: usize) -> (r: usize)
    requires
        i <= s@.len(),
    ensures
        r == spec_ws(s@, i as int),
        i <= r <= s@.len(),
{
    let n = s.unicode_len();
    let mut j = i;
    while j < n && char_is_ws(s.get_char(j))
        invariant
            n == s@.len(),
            i <= j <= n,
            spec_ws(s@, i as int) == spec_ws(s@, j as int),
        decreases n - j,
    {
        j += 1;
    }
    j
}

/// A decimal digit.
pub open spec fn is_digit(c: char) -> bool {
    48 <= c as u32 <= 57
}

/// Value of one decimal digit character.
pub open spec fn spec_digit_val(c: char) -> int {
    c as u32 - 48
}

/// Index of the end of the run of decimal digits that starts at `i`.
pub open spec fn spec_digits_end(s: Seq<char>, i: int) -> int
    decreases s.len() - i,
{
    if 0 <= i < s.len() && is_digit(s[i]) {
        spec_digits_end(s, i + 1)
    } else {
        i
    }
}

/// Numeric value of the digits in `s[i..e)`.
pub open spec fn spec_digits_val(s: Seq<char>, i: int, e: int) -> int
    decreases e - i,
{
    if i < e {
        spec_digits_val(s, i, e - 1) * 10 + spec_digit_val(s[e - 1])
    } else {
        0
    }
}

pub proof fn lemma_digits_end_bounds(s: Seq<char>, i: int)
    requires
        0 <= i <= s.len(),
    ensures
        i <= spec_digits_end(s, i) <= s.len(),
    decreases s.len() - i,
{
    if i < s.len() && is_digit(s[i]) {
        lemma_digits_end_bounds(s, i + 1);
    }
}

fn char_is_digit(c: char) -> (r: bool)
    ensures
        r == is_digit(c),
{
    let v = c as u32;
    48 <= v && v <= 57
}

fn digits_end(s: &str, i: usize) -> (r: usize)
    requires
        i <= s@.len(),
    ensures
        r == spec_digits_end(s@, i as int),
        i <= r <= s@.len(),
{
    let n = s.unicode_len();
    let mut j = i;
    while j < n && char_is_digit(s.get_char(j))
        invariant
            n == s@.len(),
            i <= j <= n,
            spec_digits_end(s@, i as int) == spec_digits_end(s@, j as int),
        decreases n - j,
    {
        j += 1;
    }
    j
}

pub proof fn lemma_digits_val_nonneg(s: Seq<char>, i: int, e: int)
    requires
        forall|k: int| i <= k < e ==> is_digit(s[k]),
    ensures
        0 <= spec_digits_val(s, i, e),
    decreases e - i,
{
    if i < e {
        lemma_digits_val_nonneg(s, i, e - 1);
    }
}

/// Reading further digits never lowers the value.
pub proof fn lemma_digits_val_mono(s: Seq<char>, i: int, e1: int, e2: int)
    requires
        i <= e1 <= e2,
        forall|k: int| i <= k < e2 ==> is_digit(s[k]),
    ensures
        spec_digits_val(s, i, e1) <= spec_digits_val(s, i, e2),
    decreases e2 - e1,
{
    if e1 < e2 {
        lemma_digits_val_nonneg(s, i, e2 - 1);
        lemma_digits_val_mono(s, i, e1, e2 - 1);
    }
}

/// Parses the manifest's size field: an unsigned decimal integer with no
/// leading zero, no fraction, no exponent, fitting in 64 bits. What may
/// legally follow it is the caller's concern.
pub open spec fn spec_parse_u64(s: Seq<char>, i: int) -> Option<(u64, int)> {
    let e = spec_digits_end(s, i);
    if e == i {
        None
    } else if s[i] == '0' && e > i + 1 {
        None
    } else if spec_digits_val(s, i, e) > u64::MAX {
        None
    } else {
        Some((spec_digits_val(s, i, e) as u64, e))
    }
}

proof fn lemma_digit_run(s: Seq<char>, i: int, j: int)
    requires
        0 <= i <= j,
        j == spec_digits_end(s, i),
    ensures
        forall|k: int| i <= k < j ==> is_digit(s[k]),
    decreases j - i,
{
    if i < spec_digits_end(s, i) {
        assert(is_digit(s[i]));
        lemma_digit_run(s, i + 1, j);
    }
}

fn parse_u64(s: &str, i: usize) -> (r: Option<(u64, usize)>)
    requires
        i <= s@.len(),
    ensures
        match r {
            Some(p) => spec_parse_u64(s@, i as int) == Some((p.0, p.1 as int)) && i < p.1
                <= s@.len(),
            None => spec_parse_u64(s@, i as int) is None,
        },
{
    let n = s.unicode_len();
    let e = digits_end(s, i);
    proof {
        lemma_digit_run(s@, i as int, e as int);
    }
    if e == i {
        return None;
    }
    if s.get_char(i) == '0' && e > i + 1 {
        return None;
    }
    let mut val: u64 = 0;
    let mut j = i;
    while j < e
        invariant
            i <= j <= e <= n,
            n == s@.len(),
            e == spec_digits_end(s@, i as int),
            forall|k: int| i <= k < e ==> is_digit(s@[k]),
            val == spec_digits_val(s@, i as int, j as int),
        decreases e - j,
    {
        let d = (s.get_char(j) as u32 - 48) as u64;
        if val > (u64::MAX - d) / 10 {
            proof {
                // the digits read so far already overflow, and more digits
                // only grow the value
                assert(val * 10 + d > u64::MAX) by (nonlinear_arith)
                    requires
                        val > (u64::MAX - d) / 10,
                        d <= 9,
                ;
                assert(spec_digits_val(s@, i as int, j + 1) == val * 10 + d);
                lemma_digits_val_mono(s@, i as int, j + 1, e as int);
            }
            return None;
        }
        proof {
            assert(val * 10 + d <= u64::MAX) by (nonlinear_arith)
                requires
                    val <= (u64::MAX - d) / 10,
                    d <= 9,
            ;
        }
        val = val * 10 + d;
        j += 1;
    }
    Some((val, e))
}

/// A hex digit (either case).
pub open spec fn is_hex(c: char) -> bool {
    is_digit(c) || (97 <= c as u32 <= 102) || (65 <= c as u32 <= 70)
}

/// Value of one hex digit character.
pub open spec fn spec_hex_val(c: char) -> int {
    if is_digit(c) {
        c as u32 - 48
    } else if 97 <= c as u32 <= 102 {
        c as u32 - 87
    } else {
        c as u32 - 55
    }
}

/// Value of the four hex digits at `i`.
pub open spec fn spec_hex4(s: Seq<char>, i: int) -> Option<u32> {
    if 0 <= i && i + 4 <= s.len() && is_hex(s[i]) && is_hex(s[i + 1]) && is_hex(s[i + 2])
        && is_hex(s[i + 3]) {
        Some(
            (spec_hex_val(s[i]) * 4096 + spec_hex_val(s[i + 1]) * 256 + spec_hex_val(s[i + 2]) * 16
                + spec_hex_val(s[i + 3])) as u32,
        )
    } else {
        None
    }
}

/// The character with code point `v`; meaningful only when `v` is a
/// Unicode scalar value.
pub open spec fn char_of(v: u32) -> char {
    choose|c: char| #[trigger] (c as u32) == v
}

proof fn lemma_char_of(c: char, v: u32)
    requires
        c as u32 == v,
    ensures
        char_of(v) == c,
{
    assert(exists|x: char| #[trigger] (x as u32) == v);
}

/// A `\u` escape starting at the backslash at `i`: one scalar from the
/// base plane, or a surrogate pair making one supplementary character;
/// unpaired surrogates are refused.
pub open spec fn spec_u_escape(s: Seq<char>, i: int) -> Option<(char, int)> {
    match spec_hex4(s, i + 2) {
        None => None,
        Some(v) => if v < 0xD800 || v >= 0xE000 {
            Some((char_of(v), i + 6))
        } else if v < 0xDC00 {
            if i + 8 <= s.len() && s[i + 6] == '\\' && s[i + 7] == 'u' {
                match spec_hex4(s, i + 8) {
                    None => None,
                    Some(w) => if 0xDC00 <= w < 0xE000 {
                        Some(
                            (
                                char_of(
                                    (0x10000 + (v - 0xD800) * 0x400 + (w - 0xDC00)) as u32,
                                ),
                                i + 12,
                            ),
                        )
                    } else {
                        None
                    },
                }
            } else {
                None
            }
        } else {
            None
        },
    }
}

/// An escape sequence starting at the backslash at `i`.
pub open spec fn spec_escape(s: Seq<char>, i: int) -> Option<(char, int)> {
    if i < 0 || i + 2 > s.len() {
        None
    } else {
        let e = s[i + 1];
        if e == '"' {
            Some(('"', i + 2))
        } else if e == '\\' {
            Some(('\\', i + 2))
        } else if e == '/' {
            Some(('/', i + 2))
        } else if e == 'b' {
            Some(('\u{8}', i + 2))
        } else if e == 'f' {
            Some(('\u{c}', i + 2))
        } else if e == 'n' {
            Some(('\n', i + 2))
        } else if e == 'r' {
            Some(('\r', i + 2))
        } else if e == 't' {
            Some(('\t', i + 2))
        } else if e == 'u' {
            spec_u_escape(s, i)
        } else {
            None
        }
    }
}

/// Content of a JSON string read from just after the opening quote, with
/// escapes decoded and `acc` holding what was read so far; returns the
/// content and the index after the closing quote. Unescaped control
/// characters are refused.
pub open spec fn spec_string_body(s: Seq<char>, i: int, acc: Seq<char>) -> Option<(Seq<char>, int)>
    decreases s.len() - i,
{
    if i < 0 || i >= s.len() {
        None
    } else if s[i] == '"' {
        Some((acc, i + 1))
    } else if s[i] == '\\' {
        match spec_escape(s, i) {
            None => None,
            Some(p) => if i < p.1 <= s.len() {
                spec_string_body(s, p.1, acc.push(p.0))
            } else {
                None
            },
        }
    } else if (s[i] as u32) < 32 {
        None
    } else {
        spec_string_body(s, i + 1, acc.push(s[i]))
    }
}

/// A complete JSON string starting with the quote at `i`.
pub open spec fn spec_string(s: Seq<char>, i: int) -> Option<(Seq<char>, int)> {
    if 0 <= i < s.len() && s[i] == '"' {
        spec_string_body(s, i + 1, Seq::empty())
    } else {
        None
    }
}

fn hex_digit_val(c: char) -> (r: Option<u32>)
    ensures
        match r {
            Some(v) => is_hex(c) && v == spec_hex_val(c) && v < 16,
            None => !is_hex(c),
        },
{
    let u = c as u32;
    if 48 <= u && u <= 57 {
        Some(u - 48)
    } else if 97 <= u && u <= 102 {
        Some(u - 87)
    } else if 65 <= u && u <= 70 {
        Some(u - 55)
    } else {
        None
    }
}

fn hex4(s: &str, i: usize) -> (r: Option<u32>)
    requires
        i <= s@.len(),
    ensures
        match r {
            Some(v) => spec_hex4(s@, i as int) == Some(v) && v < 0x10000 && i + 4 <= s@.len(),
            None => spec_hex4(s@, i as int) is None,
        },
{
    let n = s.unicode_len();
    if n - i < 4 {
        return None;
    }
    let v0 = match hex_digit_val(s.get_char(i)) {
        Some(v) => v,
        None => {
            return None;
        },
    };
    let v1 = match hex_digit_val(s.get_char(i + 1)) {
        Some(v) => v,
        None => {
            return None;
        },
    };
    let v2 = match hex_digit_val(s.get_char(i + 2)) {
        Some(v) => v,
        None => {
            return None;
        },
    };
    let v3 = match hex_digit_val(s.get_char(i + 3)) {
        Some(v) => v,
        None => {
            return None;
        },
    };
    Some(v0 * 4096 + v1 * 256 + v2 * 16 + v3)
}

fn parse_u_escape(s: &str, i: usize) -> (r: Option<(char, usize)>)
    requires
        i + 2 <= s@.len(),
    ensures
        match r {
            Some(p) => spec_u_escape(s@, i as int) == Some((p.0, p.1 as int)) && i < p.1
                <= s@.len(),
            None => spec_u_escape(s@, i as int) is None,
        },
{
    let n = s.unicode_len();
    let v = match hex4(s, i + 2) {
        Some(v) => v,
        None => {
            return None;
        },
    };
    if v < 0xD800 || v >= 0xE000 {
        match crate::text::char_from_u32(v) {
            Some(c) => {
                proof {
                    lemma_char_of(c, v);
                }
                Some((c, i + 6))
            },
            None => {
                proof {
                    assert(false);
                }
                None
            },
        }
    } else if v < 0xDC00 {
        if n - i < 12 {
            return None;
        }
        if s.get_char(i + 6) != '\\' || s.get_char(i + 7) != 'u' {
            return None;
        }
        let w = match hex4(s, i + 8) {
            Some(w) => w,
            None => {
                return None;
            },
        };
        if 0xDC00 <= w && w < 0xE000 {
            let cp = 0x10000 + (v - 0xD800) * 0x400 + (w - 0xDC00);
            match crate::text::char_from_u32(cp) {
                Some(c) => {
                    proof {
                        lemma_char_of(c, cp);
                    }
                    Some((c, i + 12))
                },
                None => {
                    proof {
                        assert(false);
                    }
                    None
                },
            }
        } else {
            None
        }
    } else {
        None
    }
}

fn parse_escape(s: &str, i: usize) -> (r: Option<(char, usize)>)
    requires
        i <= s@.len(),
    ensures
        match r {
            Some(p) => spec_escape(s@, i as int) == Some((p.0, p.1 as int)) && i < p.1 <= s@.len(),
            None => spec_escape(s@, i as int) is None,
        },
{
    let n = s.unicode_len();
    if i >= n || i + 1 >= n {
        return None;
    }
    let e = s.get_char(i + 1);
    if e == '"' {
        Some(('"', i + 2))
    } else if e == '\\' {
        Some(('\\', i + 2))
    } else if e == '/' {
        Some(('/', i + 2))
    } else if e == 'b' {
        Some(('\u{8}', i + 2))
    } else if e == 'f' {
        Some(('\u{c}', i + 2))
    } else if e == 'n' {
        Some(('\n', i + 2))
    } else if e == 'r' {
        Some(('\r', i + 2))
    } else if e == 't' {
        Some(('\t', i + 2))
    } else if e == 'u' {
        parse_u_escape(s, i)
    } else {
        None
    }
}

fn parse_string_body(s: &str, start: usize) -> (r: Option<(String, usize)>)
    requires
        start <= s@.len(),
    ensures
        match r {
            Some(p) => spec_string_body(s@, start as int, Seq::empty()) == Some(
                (p.0@, p.1 as int),
            ) && start < p.1 <= s@.len(),
            None => spec_string_body(s@, start as int, Seq::empty()) is None,
        },
{
    let n = s.unicode_len();
    let mut i = start;
    let mut out = String::new();
    loop
        invariant
            n == s@.len(),
            start <= i <= n,
            spec_string_body(s@, start as int, Seq::empty()) == spec_string_body(
                s@,
                i as int,
                out@,
            ),
        decreases n - i,
    {
        if i >= n {
            return None;
        }
        let c = s.get_char(i);
        if c == '"' {
            return Some((out, i + 1));
        }
        if c == '\\' {
            match parse_escape(s, i) {
                None => {
                    return None;
                },
                Some(p) => {
                    push_char(&mut out, p.0);
                    i = p.1;
                },
            }
        } else if (c as u32) < 32 {
            return None;
        } else {
            push_char(&mut out, c);
            i += 1;
        }
    }
}

/// Nesting allowance for ignored members, a recursion limit.
pub const SKIP_DEPTH: u32 = 128;

/// Skips a JSON number: optional minus, integer part, optional fraction
/// and exponent.
pub open spec fn spec_skip_number(s: Seq<char>, i: int) -> Option<int> {
    let p = if 0 <= i < s.len() && s[i] == '-' {
        i + 1
    } else {
        i
    };
    if p < s.len() && is_digit(s[p]) {
        let q0 = if s[p] == '0' {
            p + 1
        } else {
            spec_digits_end(s, p)
        };
        let q1 = if q0 < s.len() && s[q0] == '.' {
            if q0 + 1 < s.len() && is_digit(s[q0 + 1]) {
                Some(spec_digits_end(s, q0 + 1))
            } else {
                None
            }
        } else {
            Some(q0)
        };
        match q1 {
            None => None,
            Some(q) => if q < s.len() && (s[q] == 'e' || s[q] == 'E') {
                let x = if q + 1 < s.len() && (s[q + 1] == '+' || s[q + 1] == '-') {
                    q + 2
                } else {
                    q + 1
                };
                if x < s.len() && is_digit(s[x]) {
                    Some(spec_digits_end(s, x))
                } else {
                    None
                }
            } else {
                Some(q)
            },
        }
    } else {
        None
    }
}

/// Skips one JSON value of any kind, returning the index just after it;
/// `d` bounds the nesting depth of containers.
pub open spec fn spec_skip_value(s: Seq<char>, i: int, d: nat) -> Option<int>
    decreases d, s.len() - i, 0int,
{
    if i < 0 || i >= s.len() {
        None
    } else {
        let c = s[i];
        if c == '"' {
            match spec_string_body(s, i + 1, Seq::empty()) {
                None => None,
                Some(p) => Some(p.1),
            }
        } else if c == 't' {
            if i + 4 <= s.len() && s[i + 1] == 'r' && s[i + 2] == 'u' && s[i + 3] == 'e' {
                Some(i + 4)
            } else {
                None
            }
        } else if c == 'f' {
            if i + 5 <= s.len() && s[i + 1] == 'a' && s[i + 2] == 'l' && s[i + 3] == 's' && s[i + 4]
                == 'e' {
                Some(i + 5)
            } else {
                None
            }
        } else if c == 'n' {
            if i + 4 <= s.len() && s[i + 1] == 'u' && s[i + 2] == 'l' && s[i + 3] == 'l' {
                Some(i + 4)
            } else {
                None
            }
        } else if c == '[' {
            if d == 0 {
                None
            } else {
                let j = spec_ws(s, i + 1);
                if j < s.len() && s[j] == ']' {
                    Some(j + 1)
                } else if i < j <= s.len() {
                    spec_skip_items(s, j, (d - 1) as nat)
                } else {
                    None
                }
            }
        } else if c == '{' {
            if d == 0 {
                None
            } else {
                let j = spec_ws(s, i + 1);
                if j < s.len() && s[j] == '}' {
                    Some(j + 1)
                } else if i < j <= s.len() {
                    spec_skip_members(s, j, (d - 1) as nat)
                } else {
                    None
                }
            }
        } else {
            spec_skip_number(s, i)
        }
    }
}

/// Skips the items of an array, from the first item to just after `]`.
pub open spec fn spec_skip_items(s: Seq<char>, i: int, d: nat) -> Option<int>
    decreases d, s.len() - i, 1int,
{
    match spec_skip_value(s, i, d) {
        None => None,
        Some(j) => {
            let k = spec_ws(s, j);
            if k < s.len() && s[k] == ',' {
                let m = spec_ws(s, k + 1);
                if i < m <= s.len() {
                    spec_skip_items(s, m, d)
                } else {
                    None
                }
            } else if k < s.len() && s[k] == ']' {
                Some(k + 1)
            } else {
                None
            }
        },
    }
}

/// Skips the members of an object, from the first key to just after `}`.
pub open spec fn spec_skip_members(s: Seq<char>, i: int, d: nat) -> Option<int>
    decreases d, s.len() - i, 1int,
{
    match spec_string(s, i) {
        None => None,
        Some(kp) => {
            let j = spec_ws(s, kp.1);
            if j < s.len() && s[j] == ':' {
                let k = spec_ws(s, j + 1);
                if i < k <= s.len() {
                    match spec_skip_value(s, k, d) {
                        None => None,
                        Some(m) => {
                            let t = spec_ws(s, m);
                            if t < s.len() && s[t] == ',' {
                                let u = spec_ws(s, t + 1);
                                if i < u <= s.len() {
                                    spec_skip_members(s, u, d)
                                } else {
                                    None
                                }
                            } else if t < s.len() && s[t] == '}' {
                                Some(t + 1)
                            } else {
                                None
                            }
                        },
                    }
                } else {
                    None
                }
            } else {
                None
            }
        },
    }
}

fn skip_number(s: &str, i: usize) -> (r: Option<usize>)
    requires
        i <= s@.len(),
    ensures
        match r {
            Some(j) => spec_skip_number(s@, i as int) == Some(j as int) && i < j <= s@.len(),
            None => spec_skip_number(s@, i as int) is None,
        },
{
    let n = s.unicode_len();
    let mut p = i;
    if p < n && s.get_char(p) == '-' {
        p = p + 1;
    }
    if p >= n {
        return None;
    }
    if !char_is_digit(s.get_char(p)) {
        return None;
    }
    let q0 = if s.get_char(p) == '0' {
        p + 1
    } else {
        digits_end(s, p)
    };
    proof {
        if s@[p as int] != '0' {
            assert(spec_digits_end(s@, p as int) == spec_digits_end(s@, p + 1));
            lemma_digits_end_bounds(s@, p + 1);
        }
    }
    let mut q = q0;
    if q < n && s.get_char(q) == '.' {
        if q + 1 < n && char_is_digit(s.get_char(q + 1)) {
            q = digits_end(s, q + 1);
        } else {
            return None;
        }
    }
    if q < n && (s.get_char(q) == 'e' || s.get_char(q) == 'E') {
        let mut x = q + 1;
        if x < n && (s.get_char(x) == '+' || s.get_char(x) == '-') {
            x = x + 1;
        }
        if x < n && char_is_digit(s.get_char(x)) {
            q = digits_end(s, x);
        } else {
            return None;
        }
    }
    Some(q)
}

#[verifier::rlimit(50)]
fn skip_value(s: &str, i: usize, d: u32) -> (r: Option<usize>)
    requires
        i <= s@.len(),
    ensures
        match r {
            Some(j) => spec_skip_value(s@, i as int, d as nat) == Some(j as int) && i < j
                <= s@.len(),
            None => spec_skip_value(s@, i as int, d as nat) is None,
        },
    decreases d,
{
    let n = s.unicode_len();
    if i >= n {
        return None;
    }
    let c = s.get_char(i);
    if c == '"' {
        match parse_string_body(s, i + 1) {
            None => None,
            Some(p) => Some(p.1),
        }
    } else if c == 't' {
        if n - i < 4 {
            return None;
        }
        if s.get_char(i + 1) == 'r' && s.get_char(i + 2) == 'u' && s.get_char(i + 3) == 'e' {
            Some(i + 4)
        } else {
            None
        }
    } else if c == 'f' {
        if n - i < 5 {
            return None;
        }
        if s.get_char(i + 1) == 'a' && s.get_char(i + 2) == 'l' && s.get_char(i + 3) == 's'
            && s.get_char(i + 4) == 'e' {
            Some(i + 5)
        } else {
            None
        }
    } else if c == 'n' {
        if n - i < 4 {
            return None;
        }
        if s.get_char(i + 1) == 'u' && s.get_char(i + 2) == 'l' && s.get_char(i + 3) == 'l' {
            Some(i + 4)
        } else {
            None
        }
    } else if c == '[' {
        if d == 0 {
            return None;
        }
        let j = skip_ws(s, i + 1);
        if j < n && s.get_char(j) == ']' {
            return Some(j + 1);
        }
        let mut p = j;
        loop
            invariant
                n == s@.len(),
                i < p <= n,
                d >= 1,
                spec_skip_value(s@, i as int, d as nat) == spec_skip_items(
                    s@,
                    p as int,
                    (d - 1) as nat,
                ),
            decreases n - p,
        {
            match skip_value(s, p, d - 1) {
                None => {
                    return None;
                },
                Some(q) => {
                    let k = skip_ws(s, q);
                    if k < n && s.get_char(k) == ',' {
                        let m = skip_ws(s, k + 1);
                        p = m;
                    } else if k < n && s.get_char(k) == ']' {
                        return Some(k + 1);
                    } else {
                        return None;
                    }
                },
            }
        }
    } else if c == '{' {
        if d == 0 {
            return None;
        }
        let j = skip_ws(s, i + 1);
        if j < n && s.get_char(j) == '}' {
            return Some(j + 1);
        }
        let mut p = j;
        loop
            invariant
                n == s@.len(),
                i < p <= n,
                d >= 1,
                spec_skip_value(s@, i as int, d as nat) == spec_skip_members(
                    s@,
                    p as int,
                    (d - 1) as nat,
                ),
            decreases n - p,
        {
            match parse_string(s, p) {
                None => {
                    return None;
                },
                Some(kp) => {
                    let j2 = skip_ws(s, kp.1);
                    if j2 >= n || s.get_char(j2) != ':' {
                        return None;
                    }
                    let k = skip_ws(s, j2 + 1);
                    match skip_value(s, k, d - 1) {
                        None => {
                            return None;
                        },
                        Some(m) => {
                            let t = skip_ws(s, m);
                            if t < n && s.get_char(t) == ',' {
                                let u = skip_ws(s, t + 1);
                                p = u;
                            } else if t < n && s.get_char(t) == '}' {
                                return Some(t + 1);
                            } else {
                                return None;
                            }
                        },
                    }
                },
            }
        }
    } else {
        skip_number(s, i)
    }
}

fn parse_string(s: &str, i: usize) -> (r: Option<(String, usize)>)
    requires
        i <= s@.len(),
    ensures
        match r {
            Some(p) => spec_string(s@, i as int) == Some((p.0@, p.1 as int)) && i < p.1
                <= s@.len(),
            None => spec_string(s@, i as int) is None,
        },
{
    let n = s.unicode_len();
    if i >= n || s.get_char(i) != '"' {
        return None;
    }
    parse_string_body(s, i + 1)
}

/// Whether the literal `null` stands at `i`.
pub open spec fn spec_is_null(s: Seq<char>, i: int) -> bool {
    0 <= i && i + 4 <= s.len() && s[i] == 'n' && s[i + 1] == 'u' && s[i + 2] == 'l' && s[i + 3]
        == 'l'
}

/// Fields of one asset object seen so far while reading its members.
pub ghost struct AssetAcc {
    pub url: Option<Seq<char>>,
    pub path: Option<Seq<char>>,
    pub size: Option<u64>,
    pub checksum: Option<Seq<char>>,
    pub checksum_seen: bool,
}

/// One asset member value: the known keys bind their fields (a second
/// binding of a key is refused; `checksum` may be `null`), unknown keys
/// are skipped.
pub open spec fn spec_asset_member_value(s: Seq<char>, i: int, key: Seq<char>, acc: AssetAcc) -> Option<
    (AssetAcc, int),
> {
    if key == "url"@ {
        if acc.url is Some {
            None
        } else {
            match spec_string(s, i) {
                None => None,
                Some(v) => Some(
                    (
                        AssetAcc {
                            url: Some(v.0),
                            path: acc.path,
                            size: acc.size,
                            checksum: acc.checksum,
                            checksum_seen: acc.checksum_seen,
                        },
                        v.1,
                    ),
                ),
            }
        }
    } else if key == "path"@ {
        if acc.path is Some {
            None
        } else {
            match spec_string(s, i) {
                None => None,
                Some(v) => Some(
                    (
                        AssetAcc {
                            url: acc.url,
                            path: Some(v.0),
                            size: acc.size,
                            checksum: acc.checksum,
                            checksum_seen: acc.checksum_seen,
                        },
                        v.1,
                    ),
                ),
            }
        }
    } else if key == "size"@ {
        if acc.size is Some {
            None
        } else {
            match spec_parse_u64(s, i) {
                None => None,
                Some(v) => Some(
                    (
                        AssetAcc {
                            url: acc.url,
                            path: acc.path,
                            size: Some(v.0),
                            checksum: acc.checksum,
                            checksum_seen: acc.checksum_seen,
                        },
                        v.1,
                    ),
                ),
            }
        }
    } else if key == "checksum"@ {
        if acc.checksum_seen {
            None
        } else if spec_is_null(s, i) {
            Some(
                (
                    AssetAcc {
                        url: acc.url,
                        path: acc.path,
                        size: acc.size,
                        checksum: acc.checksum,
                        checksum_seen: true,
                    },
                    i + 4,
                ),
            )
        } else {
            match spec_string(s, i) {
                None => None,
                Some(v) => Some(
                    (
                        AssetAcc {
                            url: acc.url,
                            path: acc.path,
                            size: acc.size,
                            checksum: Some(v.0),
                            checksum_seen: true,
                        },
                        v.1,
                    ),
                ),
            }
        }
    } else {
        match spec_skip_value(s, i, SKIP_DEPTH as nat) {
            None => None,
            Some(j) => Some((acc, j)),
        }
    }
}

/// Reads asset object members from the first key at `i`; at the closing
/// brace the required `url`, `path` and `size` must all have been seen.
pub open spec fn spec_asset_members(s: Seq<char>, i: int, acc: AssetAcc) -> Option<
    (crate::manifest::AssetModel, int),
>
    decreases s.len() - i,
{
    match spec_string(s, i) {
        None => None,
        Some(kp) => {
            let j2 = spec_ws(s, kp.1);
            if j2 < s.len() && s[j2] == ':' {
                let j3 = spec_ws(s, j2 + 1);
                match spec_asset_member_value(s, j3, kp.0, acc) {
                    None => None,
                    Some(sp) => {
                        let k2 = spec_ws(s, sp.1);
                        if k2 < s.len() && s[k2] == ',' {
                            let m = spec_ws(s, k2 + 1);
                            if i < m <= s.len() {
                                spec_asset_members(s, m, sp.0)
                            } else {
                                None
                            }
                        } else if k2 < s.len() && s[k2] == '}' {
                            match (sp.0.url, sp.0.path, sp.0.size) {
                                (Some(u), Some(pa), Some(z)) => Some(
                                    (
                                        crate::manifest::AssetModel {
                                            url: u,
                                            path: pa,
                                            size: z,
                                            checksum: sp.0.checksum,
                                        },
                                        k2 + 1,
                                    ),
                                ),
                                _ => None,
                            }
                        } else {
                            None
                        }
                    },
                }
            } else {
                None
            }
        },
    }
}

/// One asset object starting with `{` at `i`.
pub open spec fn spec_asset(s: Seq<char>, i: int) -> Option<(crate::manifest::AssetModel, int)> {
    if 0 <= i < s.len() && s[i] == '{' {
        let j = spec_ws(s, i + 1);
        spec_asset_members(
            s,
            j,
            AssetAcc { url: None, path: None, size: None, checksum: None, checksum_seen: false },
        )
    } else {
        None
    }
}

/// The asset array items from the first item at `i` to just after `]`.
pub open spec fn spec_assets_items(
    s: Seq<char>,
    i: int,
    acc: Seq<crate::manifest::AssetModel>,
) -> Option<(Seq<crate::manifest::AssetModel>, int)>
    decreases s.len() - i,
{
    match spec_asset(s, i) {
        None => None,
        Some(ap) => {
            let k = spec_ws(s, ap.1);
            if k < s.len() && s[k] == ',' {
                let m = spec_ws(s, k + 1);
                if i < m <= s.len() {
                    spec_assets_items(s, m, acc.push(ap.0))
                } else {
                    None
                }
            } else if k < s.len() && s[k] == ']' {
                Some((acc.push(ap.0), k + 1))
            } else {
                None
            }
        },
    }
}

/// The asset array starting with `[` at `i`.
pub open spec fn spec_assets(s: Seq<char>, i: int) -> Option<
    (Seq<crate::manifest::AssetModel>, int),
> {
    if 0 <= i < s.len() && s[i] == '[' {
        let j = spec_ws(s, i + 1);
        if j < s.len() && s[j] == ']' {
            Some((Seq::empty(), j + 1))
        } else {
            spec_assets_items(s, j, Seq::empty())
        }
    } else {
        None
    }
}

/// Members of the manifest object seen so far.
pub ghost struct ManifestAcc {
    pub version: Option<Seq<char>>,
    pub assets: Option<Seq<crate::manifest::AssetModel>>,
}

/// One manifest member value: `version` and `assets` bind their fields
/// (a second binding is refused), unknown keys are skipped.
pub open spec fn spec_manifest_member_value(
    s: Seq<char>,
    i: int,
    key: Seq<char>,
    acc: ManifestAcc,
) -> Option<(ManifestAcc, int)> {
    if key == "version"@ {
        if acc.version is Some {
            None
        } else {
            match spec_string(s, i) {
                None => None,
                Some(v) => Some((ManifestAcc { version: Some(v.0), assets: acc.assets }, v.1)),
            }
        }
    } else if key == "assets"@ {
        if acc.assets is Some {
            None
        } else {
            match spec_assets(s, i) {
                None => None,
                Some(v) => Some((ManifestAcc { version: acc.version, assets: Some(v.0) }, v.1)),
            }
        }
    } else {
        match spec_skip_value(s, i, SKIP_DEPTH as nat) {
            None => None,
            Some(j) => Some((acc, j)),
        }
    }
}

/// Reads manifest object members from the first key at `i`; at the
/// closing brace both `version` and `assets` must have been seen.
pub open spec fn spec_manifest_members(s: Seq<char>, i: int, acc: ManifestAcc) -> Option<
    (crate::manifest::ManifestModel, int),
>
    decreases s.len() - i,
{
    match spec_string(s, i) {
        None => None,
        Some(kp) => {
            let j2 = spec_ws(s, kp.1);
            if j2 < s.len() && s[j2] == ':' {
                let j3 = spec_ws(s, j2 + 1);
                match spec_manifest_member_value(s, j3, kp.0, acc) {
                    None => None,
                    Some(sp) => {
                        let k2 = spec_ws(s, sp.1);
                        if k2 < s.len() && s[k2] == ',' {
                            let m = spec_ws(s, k2 + 1);
                            if i < m <= s.len() {
                                spec_manifest_members(s, m, sp.0)
                            } else {
                                None
                            }
                        } else if k2 < s.len() && s[k2] == '}' {
                            match (sp.0.version, sp.0.assets) {
                                (Some(v), Some(a)) => Some(
                                    (
                                        crate::manifest::ManifestModel { version: v, assets: a },
                                        k2 + 1,
                                    ),
                                ),
                                _ => None,
                            }
                        } else {
                            None
                        }
                    },
                }
            } else {
                None
            }
        },
    }
}

/// A complete manifest document: one JSON object with `version` and
/// `assets` members, unknown members ignored, and nothing but whitespace
/// around it.
pub open spec fn spec_parse_manifest(s: Seq<char>) -> Option<crate::manifest::ManifestModel> {
    let i = spec_ws(s, 0);
    if i < s.len() && s[i] == '{' {
        let j = spec_ws(s, i + 1);
        match spec_manifest_members(s, j, ManifestAcc { version: None, assets: None }) {
            None => None,
            Some(mp) => {
                let k = spec_ws(s, mp.1);
                if k == s.len() {
                    Some(mp.0)
                } else {
                    None
                }
            },
        }
    } else {
        None
    }
}

spec fn opt_str_view(o: Option<String>) -> Option<Seq<char>> {
    match o {
        Some(x) => Some(x@),
        None => None,
    }
}

spec fn opt_assets_model(o: Option<Vec<crate::manifest::AssetInfo>>) -> Option<
    Seq<crate::manifest::AssetModel>,
> {
    match o {
        Some(v) => Some(crate::manifest::assets_view(v@)),
        None => None,
    }
}

fn is_null_at(s: &str, i: usize) -> (r: bool)
    requires
        i <= s@.len(),
    ensures
        r == spec_is_null(s@, i as int),
{
    let n = s.unicode_len();
    if n - i < 4 {
        return false;
    }
    s.get_char(i) == 'n' && s.get_char(i + 1) == 'u' && s.get_char(i + 2) == 'l' && s.get_char(
        i + 3,
    ) == 'l'
}

#[verifier::rlimit(80)]
fn parse_asset(s: &str, i: usize) -> (r: Option<(crate::manifest::AssetInfo, usize)>)
    requires
        i <= s@.len(),
    ensures
        match r {
            Some(p) => spec_asset(s@, i as int) == Some((p.0@, p.1 as int)) && i < p.1
                <= s@.len(),
            None => spec_asset(s@, i as int) is None,
        },
{
    let n = s.unicode_len();
    if i >= n || s.get_char(i) != '{' {
        return None;
    }
    let mut p = skip_ws(s, i + 1);
    let mut url: Option<String> = None;
    let mut path: Option<String> = None;
    let mut size: Option<u64> = None;
    let mut checksum: Option<String> = None;
    let mut checksum_seen: bool = false;
    loop
        invariant
            n == s@.len(),
            i < p <= n,
            spec_asset(s@, i as int) == spec_asset_members(
                s@,
                p as int,
                AssetAcc {
                    url: opt_str_view(url),
                    path: opt_str_view(path),
                    size: size,
                    checksum: opt_str_view(checksum),
                    checksum_seen: checksum_seen,
                },
            ),
        decreases n - p,
    {
        let kp = match parse_string(s, p) {
            None => {
                return None;
            },
            Some(x) => x,
        };
        let j2 = skip_ws(s, kp.1);
        if j2 >= n || s.get_char(j2) != ':' {
            return None;
        }
        let j3 = skip_ws(s, j2 + 1);
        let mut after: usize = 0;
        if crate::text::str_eq(kp.0.as_str(), "url") {
            if url.is_some() {
                return None;
            }
            let vp = match parse_string(s, j3) {
                None => {
                    return None;
                },
                Some(x) => x,
            };
            url = Some(vp.0);
            after = vp.1;
        } else if crate::text::str_eq(kp.0.as_str(), "path") {
            if path.is_some() {
                return None;
            }
            let vp = match parse_string(s, j3) {
                None => {
                    return None;
                },
                Some(x) => x,
            };
            path = Some(vp.0);
            after = vp.1;
        } else if crate::text::str_eq(kp.0.as_str(), "size") {
            if size.is_some() {
                return None;
            }
            let vp = match parse_u64(s, j3) {
                None => {
                    return None;
                },
                Some(x) => x,
            };
            size = Some(vp.0);
            after = vp.1;
        } else if crate::text::str_eq(kp.0.as_str(), "checksum") {
            if checksum_seen {
                return None;
            }
            if is_null_at(s, j3) {
                checksum_seen = true;
                after = j3 + 4;
            } else {
                let vp = match parse_string(s, j3) {
                    None => {
                        return None;
                    },
                    Some(x) => x,
                };
                checksum = Some(vp.0);
                checksum_seen = true;
                after = vp.1;
            }
        } else {
            after = match skip_value(s, j3, SKIP_DEPTH) {
                None => {
                    return None;
                },
                Some(x) => x,
            };
        }
        let k2 = skip_ws(s, after);
        if k2 < n && s.get_char(k2) == ',' {
            let m = skip_ws(s, k2 + 1);
            p = m;
        } else if k2 < n && s.get_char(k2) == '}' {
            if url.is_some() && path.is_some() && size.is_some() {
                let u = match url {
                    Some(x) => x,
                    None => {
                        return None;
                    },
                };
                let pa = match path {
                    Some(x) => x,
                    None => {
                        return None;
                    },
                };
                let z = match size {
                    Some(x) => x,
                    None => {
                        return None;
                    },
                };
                return Some(
                    (
                        crate::manifest::AssetInfo { url: u, path: pa, size: z, checksum },
                        k2 + 1,
                    ),
                );
            } else {
                return None;
            }
        } else {
            return None;
        }
    }
}

#[verifier::rlimit(50)]
fn parse_assets(s: &str, i: usize) -> (r: Option<(Vec<crate::manifest::AssetInfo>, usize)>)
    requires
        i <= s@.len(),
    ensures
        match r {
            Some(p) => spec_assets(s@, i as int) == Some(
                (crate::manifest::assets_view(p.0@), p.1 as int),
            ) && i < p.1 <= s@.len(),
            None => spec_assets(s@, i as int) is None,
        },
{
    let n = s.unicode_len();
    if i >= n || s.get_char(i) != '[' {
        return None;
    }
    let j = skip_ws(s, i + 1);
    if j < n && s.get_char(j) == ']' {
        let items: Vec<crate::manifest::AssetInfo> = Vec::new();
        proof {
            assert(crate::manifest::assets_view(items@) =~= Seq::<
                crate::manifest::AssetModel,
            >::empty());
        }
        return Some((items, j + 1));
    }
    let mut p = j;
    let mut items: Vec<crate::manifest::AssetInfo> = Vec::new();
    proof {
        assert(crate::manifest::assets_view(items@) =~= Seq::<
            crate::manifest::AssetModel,
        >::empty());
    }
    loop
        invariant
            n == s@.len(),
            i < p <= n,
            spec_assets(s@, i as int) == spec_assets_items(
                s@,
                p as int,
                crate::manifest::assets_view(items@),
            ),
        decreases n - p,
    {
        let ap = match parse_asset(s, p) {
            None => {
                return None;
            },
            Some(x) => x,
        };
        let k = skip_ws(s, ap.1);
        if k < n && s.get_char(k) == ',' {
            let m = skip_ws(s, k + 1);
            proof {
                assert(crate::manifest::assets_view(items@.push(ap.0))
                    =~= crate::manifest::assets_view(items@).push(ap.0@));
            }
            items.push(ap.0);
            p = m;
        } else if k < n && s.get_char(k) == ']' {
            proof {
                assert(crate::manifest::assets_view(items@.push(ap.0))
                    =~= crate::manifest::assets_view(items@).push(ap.0@));
            }
            items.push(ap.0);
            return Some((items, k + 1));
        } else {
            return None;
        }
    }
}

/// Parses a manifest document; returns `None` exactly when the text is
/// not a valid manifest per the wire format.
#[verifier::rlimit(80)]
pub fn parse_manifest(s: &str) -> (r: Option<crate::manifest::AssetManifest>)
    ensures
        match r {
            Some(m) => spec_parse_manifest(s@) == Some(m@),
            None => spec_parse_manifest(s@) is None,
        },
{
    let n = s.unicode_len();
    let i = skip_ws(s, 0);
    if i >= n || s.get_char(i) != '{' {
        return None;
    }
    let mut p = skip_ws(s, i + 1);
    let mut version: Option<String> = None;
    let mut assets: Option<Vec<crate::manifest::AssetInfo>> = None;
    loop
        invariant
            n == s@.len(),
            p <= n,
            ({
                let tail = spec_manifest_members(
                    s@,
                    p as int,
                    ManifestAcc { version: opt_str_view(version), assets: opt_assets_model(assets) },
                );
                spec_parse_manifest(s@) == match tail {
                    None => None::<crate::manifest::ManifestModel>,
                    Some(mp) => if spec_ws(s@, mp.1) == s@.len() {
                        Some(mp.0)
                    } else {
                        None
                    },
                }
            }),
        decreases n - p,
    {
        let kp = match parse_string(s, p) {
            None => {
                return None;
            },
            Some(x) => x,
        };
        let j2 = skip_ws(s, kp.1);
        if j2 >= n || s.get_char(j2) != ':' {
            return None;
        }
        let j3 = skip_ws(s, j2 + 1);
        let mut after: usize = 0;
        if crate::text::str_eq(kp.0.as_str(), "version") {
            if version.is_some() {
                return None;
            }
            let vp = match parse_string(s, j3) {
                None => {
                    return None;
                },
                Some(x) => x,
            };
            version = Some(vp.0);
            after = vp.1;
        } else if crate::text::str_eq(kp.0.as_str(), "assets") {
            if assets.is_some() {
                return None;
            }
            let vp = match parse_assets(s, j3) {
                None => {
                    return None;
                },
                Some(x) => x,
            };
            assets = Some(vp.0);
            after = vp.1;
        } else {
            after = match skip_value(s, j3, SKIP_DEPTH) {
                None => {
                    return None;
                },
                Some(x) => x,
            };
        }
        let k2 = skip_ws(s, after);
        if k2 < n && s.get_char(k2) == ',' {
            let m = skip_ws(s, k2 + 1);
            p = m;
        } else if k2 < n && s.get_char(k2) == '}' {
            if version.is_some() && assets.is_some() {
                let v = match version {
                    Some(x) => x,
                    None => {
                        return None;
                    },
                };
                let a = match assets {
                    Some(x) => x,
                    None => {
                        return None;
                    },
                };
                let k3 = skip_ws(s, k2 + 1);
                if k3 == n {
                    return Some(crate::manifest::AssetManifest { version: v, assets: a });
                } else {
                    return None;
                }
            } else {
                return None;
            }
        } else {
            return None;
        }
    }
}

} // verus!
