//! Parsing JSON text into a tree.  The executable parser mirrors a
//! specification-level parser function for function, so its result is
//! pinned down exactly.

use vstd::prelude::*;

use crate::json::Json;
use crate::json::JsonView;

verus! {

/// The JSON whitespace characters.
pub open spec fn is_ws(c: char) -> bool {
    c == ' ' || c == '\t' || c == '\n' || c == '\r'
}

/// A decimal digit.
pub open spec fn is_digit(c: char) -> bool {
    '0' <= c && c <= '9'
}

/// The first position at or after `i` holding a non-whitespace character.
pub open spec fn skip_ws(s: Seq<char>, i: int) -> int
    decreases s.len() - i,
{
    if 0 <= i && i < s.len() && is_ws(s[i]) {
        skip_ws(s, i + 1)
    } else {
        i
    }
}

/// `skip_ws`, clamped so that it never moves backwards nor past the end.
pub open spec fn advance(s: Seq<char>, i: int) -> int {
    let k = skip_ws(s, i);
    if i <= k <= s.len() {
        k
    } else {
        i
    }
}

/// The first position at or after `i` holding a non-digit.
pub open spec fn scan_digits(s: Seq<char>, i: int) -> int
    decreases s.len() - i,
{
    if 0 <= i && i < s.len() && is_digit(s[i]) {
        scan_digits(s, i + 1)
    } else {
        i
    }
}

/// `scan_digits`, clamped so that it never moves backwards nor past the
/// end.
pub open spec fn digits_end(s: Seq<char>, i: int) -> int {
    let k = scan_digits(s, i);
    if i <= k <= s.len() {
        k
    } else {
        i
    }
}

/// The numeric value of a decimal digit character.
pub open spec fn digit_val(c: char) -> int {
    c as u32 - '0' as u32
}

/// Folds the digits of `s[i..j]` into a value, giving up as soon as the
/// running value would leave the signed 64-bit range.
pub open spec fn digits_to_i64(s: Seq<char>, i: int, j: int, acc: int) -> Option<int>
    decreases j - i,
{
    if i >= j {
        Some(acc)
    } else {
        let d = digit_val(s[i]);
        if acc > (i64::MAX - d) / 10 {
            None
        } else {
            digits_to_i64(s, i + 1, j, acc * 10 + d)
        }
    }
}

/// The value of a hexadecimal digit character, if it is one.
pub open spec fn hex_val(c: char) -> Option<int> {
    if '0' <= c && c <= '9' {
        Some(c as u32 - '0' as u32)
    } else if 'a' <= c && c <= 'f' {
        Some(c as u32 - 'a' as u32 + 10)
    } else if 'A' <= c && c <= 'F' {
        Some(c as u32 - 'A' as u32 + 10)
    } else {
        None
    }
}

/// The scalar value of a `\uXXXX` escape at `i`, if the four characters
/// are hexadecimal digits.
pub open spec fn hex4_val(s: Seq<char>, i: int) -> Option<int> {
    match (hex_val(s[i]), hex_val(s[i + 1]), hex_val(s[i + 2]), hex_val(s[i + 3])) {
        (Some(a), Some(b), Some(c), Some(d)) => Some(a * 4096 + b * 256 + c * 16 + d),
        _ => None,
    }
}

/// Parses a string body starting just after the opening quote: the
/// decoded characters and the position after the closing quote.  A
/// `\uXXXX` escape is accepted for scalar values outside the surrogate
/// range; surrogate pairs are not combined.
pub open spec fn parse_string(s: Seq<char>, i: int) -> Option<(Seq<char>, int)>
    decreases s.len() - i,
{
    if i < 0 || i >= s.len() {
        None
    } else if s[i] == '"' {
        Some((Seq::empty(), i + 1))
    } else if s[i] == '\\' {
        if i + 1 >= s.len() {
            None
        } else {
            let e = s[i + 1];
            if e == '"' || e == '\\' || e == '/' {
                match parse_string(s, i + 2) {
                    Some((rest, j)) => Some((seq![e] + rest, j)),
                    None => None,
                }
            } else if e == 'n' {
                match parse_string(s, i + 2) {
                    Some((rest, j)) => Some((seq!['\n'] + rest, j)),
                    None => None,
                }
            } else if e == 'r' {
                match parse_string(s, i + 2) {
                    Some((rest, j)) => Some((seq!['\r'] + rest, j)),
                    None => None,
                }
            } else if e == 't' {
                match parse_string(s, i + 2) {
                    Some((rest, j)) => Some((seq!['\t'] + rest, j)),
                    None => None,
                }
            } else if e == 'b' {
                match parse_string(s, i + 2) {
                    Some((rest, j)) => Some((seq![8u32 as char] + rest, j)),
                    None => None,
                }
            } else if e == 'f' {
                match parse_string(s, i + 2) {
                    Some((rest, j)) => Some((seq![12u32 as char] + rest, j)),
                    None => None,
                }
            } else if e == 'u' {
                if i + 6 > s.len() {
                    None
                } else {
                    match hex4_val(s, i + 2) {
                        Some(v) => if v < 0xd800 || v > 0xdfff {
                            match parse_string(s, i + 6) {
                                Some((rest, j)) => Some((seq![(v as u32) as char] + rest, j)),
                                None => None,
                            }
                        } else {
                            None
                        },
                        None => None,
                    }
                }
            } else {
                None
            }
        }
    } else {
        match parse_string(s, i + 1) {
            Some((rest, j)) => Some((seq![s[i]] + rest, j)),
            None => None,
        }
    }
}

/// Parses a number starting at `i`, which must hold a digit or a minus
/// sign.  A plain integer that fits becomes `Int`; everything else keeps
/// its raw span as `NumText`.
pub open spec fn parse_number(s: Seq<char>, i: int) -> Option<(JsonView, int)> {
    let neg = 0 <= i < s.len() && s[i] == '-';
    let d0 = if neg {
        i + 1
    } else {
        i
    };
    let j = digits_end(s, d0);
    if j == d0 {
        None
    } else {
        let frac_end = if j < s.len() && s[j] == '.' {
            let k = digits_end(s, j + 1);
            if k == j + 1 {
                -1
            } else {
                k
            }
        } else {
            j
        };
        if frac_end < 0 {
            None
        } else {
            let exp_end = if frac_end < s.len() && (s[frac_end] == 'e' || s[frac_end] == 'E') {
                let m = if frac_end + 1 < s.len() && (s[frac_end + 1] == '+' || s[frac_end + 1]
                    == '-') {
                    frac_end + 2
                } else {
                    frac_end + 1
                };
                let p = digits_end(s, m);
                if p == m {
                    -1
                } else {
                    p
                }
            } else {
                frac_end
            };
            if exp_end < 0 {
                None
            } else if exp_end == j {
                match digits_to_i64(s, d0, j, 0) {
                    Some(v) => Some(
                        (
                            JsonView::Int(
                                if neg {
                                    -v
                                } else {
                                    v
                                },
                            ),
                            j,
                        ),
                    ),
                    None => Some((JsonView::NumText(s.subrange(i, j)), j)),
                }
            } else {
                Some((JsonView::NumText(s.subrange(i, exp_end)), exp_end))
            }
        }
    }
}

/// Parses one JSON value starting at `i`, which must not hold
/// whitespace: the value and the position just after it.
pub open spec fn parse_value(s: Seq<char>, i: int) -> Option<(JsonView, int)>
    decreases s.len() - i, 1int,
{
    if i < 0 || i >= s.len() {
        None
    } else if s[i] == 'n' {
        if s.len() - i >= 4 && s[i + 1] == 'u' && s[i + 2] == 'l' && s[i + 3] == 'l' {
            Some((JsonView::Null, i + 4))
        } else {
            None
        }
    } else if s[i] == 't' {
        if s.len() - i >= 4 && s[i + 1] == 'r' && s[i + 2] == 'u' && s[i + 3] == 'e' {
            Some((JsonView::Bool(true), i + 4))
        } else {
            None
        }
    } else if s[i] == 'f' {
        if s.len() - i >= 5 && s[i + 1] == 'a' && s[i + 2] == 'l' && s[i + 3] == 's' && s[i + 4]
            == 'e' {
            Some((JsonView::Bool(false), i + 5))
        } else {
            None
        }
    } else if s[i] == '"' {
        match parse_string(s, i + 1) {
            Some((t, j)) => Some((JsonView::Str(t), j)),
            None => None,
        }
    } else if s[i] == '-' || is_digit(s[i]) {
        parse_number(s, i)
    } else if s[i] == '[' {
        let k = advance(s, i + 1);
        if k < s.len() && s[k] == ']' {
            Some((JsonView::Arr(Seq::empty()), k + 1))
        } else {
            match parse_elems(s, k, Seq::empty()) {
                Some((items, j)) => Some((JsonView::Arr(items), j)),
                None => None,
            }
        }
    } else if s[i] == '{' {
        let k = advance(s, i + 1);
        if k < s.len() && s[k] == '}' {
            Some((JsonView::Obj(Seq::empty()), k + 1))
        } else {
            match parse_members(s, k, Seq::empty()) {
                Some((fields, j)) => Some((JsonView::Obj(fields), j)),
                None => None,
            }
        }
    } else {
        None
    }
}

/// Parses the elements of an array from the first element on, `acc`
/// holding those already read: the element list and the position after
/// the closing bracket.
pub open spec fn parse_elems(s: Seq<char>, i: int, acc: Seq<JsonView>) -> Option<
    (Seq<JsonView>, int),
>
    decreases s.len() - i, 2int,
{
    if i < 0 || i >= s.len() {
        None
    } else {
        match parse_value(s, i) {
            Some((v, j)) => {
                let j2 = if j < i + 1 {
                    i + 1
                } else {
                    j
                };
                let k = advance(s, j2);
                if k < s.len() && s[k] == ',' {
                    parse_elems(s, advance(s, k + 1), acc.push(v))
                } else if k < s.len() && s[k] == ']' {
                    Some((acc.push(v), k + 1))
                } else {
                    None
                }
            },
            None => None,
        }
    }
}

/// Parses the members of an object from the first key on, `acc` holding
/// those already read: the field list and the position after the closing
/// brace.
pub open spec fn parse_members(s: Seq<char>, i: int, acc: Seq<(Seq<char>, JsonView)>) -> Option<
    (Seq<(Seq<char>, JsonView)>, int),
>
    decreases s.len() - i, 2int,
{
    if i < 0 || i >= s.len() {
        None
    } else if s[i] != '"' {
        None
    } else {
        match parse_string(s, i + 1) {
            Some((key, j)) => {
                let j2 = if j < i + 1 {
                    i + 1
                } else {
                    j
                };
                let k = advance(s, j2);
                if k < s.len() && s[k] == ':' {
                    let v0 = advance(s, k + 1);
                    match parse_value(s, v0) {
                        Some((v, j3)) => {
                            let j4 = if j3 < v0 + 1 {
                                v0 + 1
                            } else {
                                j3
                            };
                            let k2 = advance(s, j4);
                            if k2 < s.len() && s[k2] == ',' {
                                parse_members(s, advance(s, k2 + 1), acc.push((key, v)))
                            } else if k2 < s.len() && s[k2] == '}' {
                                Some((acc.push((key, v)), k2 + 1))
                            } else {
                                None
                            }
                        },
                        None => None,
                    }
                } else {
                    None
                }
            },
            None => None,
        }
    }
}

/// Parses a complete JSON text: one value, surrounded by nothing but
/// whitespace.
pub open spec fn parse_text(s: Seq<char>) -> Option<JsonView> {
    let i = advance(s, 0);
    match parse_value(s, i) {
        Some((v, j)) => if advance(s, j) == s.len() {
            Some(v)
        } else {
            None
        },
        None => None,
    }
}


/// Finds the end of the whitespace run at `i`.
fn skip_ws_exec(s: &Vec<char>, i: usize) -> (r: usize)
    requires
        i <= s@.len(),
    ensures
        r as int == skip_ws(s@, i as int),
        i <= r <= s@.len(),
{
    let n = s.len();
    let mut r: usize = i;
    while r < n && (s[r] == ' ' || s[r] == '\t' || s[r] == '\n' || s[r] == '\r')
        invariant
            n == s@.len(),
            i <= r <= n,
            skip_ws(s@, i as int) == skip_ws(s@, r as int),
        decreases n - r,
    {
        r = r + 1;
    }
    proof {
        assert(skip_ws(s@, r as int) == r as int);
    }
    r
}

/// Finds the end of the digit run at `i`.
fn scan_digits_exec(s: &Vec<char>, i: usize) -> (r: usize)
    requires
        i <= s@.len(),
    ensures
        r as int == digits_end(s@, i as int),
        i <= r <= s@.len(),
{
    let n = s.len();
    let mut r: usize = i;
    while r < n && s[r] >= '0' && s[r] <= '9'
        invariant
            n == s@.len(),
            i <= r <= n,
            scan_digits(s@, i as int) == scan_digits(s@, r as int),
        decreases n - r,
    {
        r = r + 1;
    }
    proof {
        assert(scan_digits(s@, r as int) == r as int);
    }
    r
}

/// Finds the first non-whitespace position at or after `i`.
fn advance_exec(s: &Vec<char>, i: usize) -> (r: usize)
    requires
        i <= s@.len(),
    ensures
        r as int == advance(s@, i as int),
        i <= r <= s@.len(),
{
    skip_ws_exec(s, i)
}

/// Copies the characters of `s[i..j]`.
pub fn chars_range(s: &Vec<char>, i: usize, j: usize) -> (r: Vec<char>)
    requires
        i <= j <= s@.len(),
    ensures
        r@ == s@.subrange(i as int, j as int),
{
    let mut out: Vec<char> = Vec::new();
    let mut k: usize = i;
    while k < j
        invariant
            i <= k <= j <= s@.len(),
            out@ =~= s@.subrange(i as int, k as int),
        decreases j - k,
    {
        out.push(s[k]);
        proof {
            assert(out@ =~= s@.subrange(i as int, k + 1 as int));
        }
        k = k + 1;
    }
    out
}

/// Folds the digits of `s[i..j]`, mirroring [`digits_to_i64`].
fn digits_to_i64_exec(s: &Vec<char>, i: usize, j: usize, acc: i64) -> (r: Option<i64>)
    requires
        i <= j <= s@.len(),
        0 <= acc,
        forall|k: int| i <= k < j ==> is_digit(#[trigger] s@[k]),
    ensures
        match r {
            Some(v) => digits_to_i64(s@, i as int, j as int, acc as int) == Some(v as int) && v
                >= 0,
            None => digits_to_i64(s@, i as int, j as int, acc as int) is None,
        },
    decreases j - i,
{
    if i >= j {
        Some(acc)
    } else {
        let c = s[i];
        assert(is_digit(s@[i as int]));
        let d: i64 = ((c as u32) - ('0' as u32)) as i64;
        if acc > (i64::MAX - d) / 10 {
            None
        } else {
            proof {
                assert(acc * 10 + d <= i64::MAX) by (nonlinear_arith)
                    requires
                        0 <= d <= 9,
                        0 <= acc <= (i64::MAX - d) / 10,
                ;
            }
            digits_to_i64_exec(s, i + 1, j, acc * 10 + d)
        }
    }
}

/// Parses a number, mirroring [`parse_number`].
fn parse_number_exec(s: &Vec<char>, i: usize) -> (r: Option<(Json, usize)>)
    requires
        i < s@.len(),
        s@[i as int] == '-' || is_digit(s@[i as int]),
    ensures
        match r {
            Some((v, j)) => parse_number(s@, i as int) == Some((v@, j as int)) && i < j
                <= s@.len(),
            None => parse_number(s@, i as int) is None,
        },
{
    let n = s.len();
    let neg = s[i] == '-';
    let d0: usize = if neg {
        i + 1
    } else {
        i
    };
    let j = scan_digits_exec(s, d0);
    if j == d0 {
        return None;
    }
    let frac_end: usize = if j < n && s[j] == '.' {
        let k = scan_digits_exec(s, j + 1);
        if k == j + 1 {
            return None;
        }
        k
    } else {
        j
    };
    let exp_end: usize = if frac_end < n && (s[frac_end] == 'e' || s[frac_end] == 'E') {
        let m: usize = if frac_end + 1 < n && (s[frac_end + 1] == '+' || s[frac_end + 1] == '-') {
            frac_end + 2
        } else {
            frac_end + 1
        };
        let p = scan_digits_exec(s, m);
        if p == m {
            return None;
        }
        p
    } else {
        frac_end
    };
    if exp_end == j {
        proof {
            lemma_digits_run(s@, d0 as int, j as int);
        }
        match digits_to_i64_exec(s, d0, j, 0) {
            Some(v) => Some(
                (
                    Json::Int(
                        if neg {
                            -v
                        } else {
                            v
                        },
                    ),
                    j,
                ),
            ),
            None => {
                let t = chars_range(s, i, j);
                Some((Json::NumText(crate::text::chars_to_string(&t)), j))
            },
        }
    } else {
        let t = chars_range(s, i, exp_end);
        Some((Json::NumText(crate::text::chars_to_string(&t)), exp_end))
    }
}

/// Every position of a digit run holds a digit.
proof fn lemma_digits_run(s: Seq<char>, i: int, j: int)
    requires
        0 <= i <= s.len(),
        j == digits_end(s, i),
    ensures
        forall|k: int| i <= k < j ==> is_digit(#[trigger] s[k]),
    decreases s.len() - i,
{
    if 0 <= i && i < s.len() && is_digit(s[i]) {
        lemma_digits_run(s, i + 1, digits_end(s, i + 1));
        assert(scan_digits(s, i) == scan_digits(s, i + 1));
    }
}

/// Parses a string body, mirroring [`parse_string`].
fn parse_string_exec(s: &Vec<char>, i: usize) -> (r: Option<(Vec<char>, usize)>)
    requires
        i <= s@.len(),
    ensures
        match r {
            Some((t, j)) => parse_string(s@, i as int) == Some((t@, j as int)) && i < j
                <= s@.len(),
            None => parse_string(s@, i as int) is None,
        },
    decreases s@.len() - i,
{
    let n = s.len();
    if i >= n {
        return None;
    }
    let c = s[i];
    if c == '"' {
        let out: Vec<char> = Vec::new();
        assert(out@ =~= Seq::<char>::empty());
        Some((out, i + 1))
    } else if c == '\\' {
        if i + 1 >= n {
            return None;
        }
        let e = s[i + 1];
        if e == '"' || e == '\\' || e == '/' {
            match parse_string_exec(s, i + 2) {
                Some((mut rest, j)) => {
                    let ghost prev = rest@;
                    rest.insert(0, e);
                    proof {
                        assert(rest@ =~= seq![e] + prev);
                    }
                    Some((rest, j))
                },
                None => None,
            }
        } else if e == 'n' {
            match parse_string_exec(s, i + 2) {
                Some((mut rest, j)) => {
                    let ghost prev = rest@;
                    rest.insert(0, '\n');
                    proof {
                        assert(rest@ =~= seq!['\n'] + prev);
                    }
                    Some((rest, j))
                },
                None => None,
            }
        } else if e == 'r' {
            match parse_string_exec(s, i + 2) {
                Some((mut rest, j)) => {
                    let ghost prev = rest@;
                    rest.insert(0, '\r');
                    proof {
                        assert(rest@ =~= seq!['\r'] + prev);
                    }
                    Some((rest, j))
                },
                None => None,
            }
        } else if e == 't' {
            match parse_string_exec(s, i + 2) {
                Some((mut rest, j)) => {
                    let ghost prev = rest@;
                    rest.insert(0, '\t');
                    proof {
                        assert(rest@ =~= seq!['\t'] + prev);
                    }
                    Some((rest, j))
                },
                None => None,
            }
        } else if e == 'b' {
            match parse_string_exec(s, i + 2) {
                Some((mut rest, j)) => {
                    let ghost prev = rest@;
                    let bs = char_from_scalar(8);
                    rest.insert(0, bs);
                    proof {
                        assert(rest@ =~= seq![8u32 as char] + prev);
                    }
                    Some((rest, j))
                },
                None => None,
            }
        } else if e == 'f' {
            match parse_string_exec(s, i + 2) {
                Some((mut rest, j)) => {
                    let ghost prev = rest@;
                    let ff = char_from_scalar(12);
                    rest.insert(0, ff);
                    proof {
                        assert(rest@ =~= seq![12u32 as char] + prev);
                    }
                    Some((rest, j))
                },
                None => None,
            }
        } else if e == 'u' {
            if n - i < 6 {
                return None;
            }
            let a = hex_val_exec(s[i + 2]);
            let b = hex_val_exec(s[i + 3]);
            let cc = hex_val_exec(s[i + 4]);
            let d = hex_val_exec(s[i + 5]);
            match (a, b, cc, d) {
                (Some(a), Some(b), Some(cc), Some(d)) => {
                    let v: u32 = a * 4096 + b * 256 + cc * 16 + d;
                    assert(hex4_val(s@, i + 2 as int) == Some(v as int));
                    if v < 0xd800 || v > 0xdfff {
                        match parse_string_exec(s, i + 6) {
                            Some((mut rest, j)) => {
                                let ghost prev = rest@;
                                let uc = char_from_scalar(v);
                                rest.insert(0, uc);
                                proof {
                                    assert(rest@ =~= seq![(v as u32) as char] + prev);
                                }
                                Some((rest, j))
                            },
                            None => None,
                        }
                    } else {
                        None
                    }
                },
                _ => {
                    assert(hex4_val(s@, i + 2 as int) is None);
                    None
                },
            }
        } else {
            None
        }
    } else {
        match parse_string_exec(s, i + 1) {
            Some((mut rest, j)) => {
                let ghost prev = rest@;
                rest.insert(0, c);
                proof {
                    assert(rest@ =~= seq![s@[i as int]] + prev);
                }
                Some((rest, j))
            },
            None => None,
        }
    }
}

/// The value of a hexadecimal digit character, mirroring [`hex_val`].
fn hex_val_exec(c: char) -> (r: Option<u32>)
    ensures
        match r {
            Some(v) => hex_val(c) == Some(v as int) && v < 16,
            None => hex_val(c) is None,
        },
{
    if c >= '0' && c <= '9' {
        Some((c as u32) - ('0' as u32))
    } else if c >= 'a' && c <= 'f' {
        Some((c as u32) - ('a' as u32) + 10)
    } else if c >= 'A' && c <= 'F' {
        Some((c as u32) - ('A' as u32) + 10)
    } else {
        None
    }
}

/// Relies on `char::from_u32`: the character with the given scalar value,
/// defined for every value outside the surrogate range and not above the
/// highest code point.
#[verifier::external_body]
fn char_from_scalar(v: u32) -> (c: char)
    requires
        v < 0xd800 || (0xe000 <= v && v <= 0x10ffff),
    ensures
        c == (v as char),
{
    char::from_u32(v).unwrap()
}

/// Parses one JSON value, mirroring [`parse_value`].
fn parse_value_exec(s: &Vec<char>, i: usize) -> (r: Option<(Json, usize)>)
    requires
        i <= s@.len(),
    ensures
        match r {
            Some((v, j)) => parse_value(s@, i as int) == Some((v@, j as int)) && i < j
                <= s@.len(),
            None => parse_value(s@, i as int) is None,
        },
    decreases s@.len() - i, 1int,
{
    let n = s.len();
    if i >= n {
        return None;
    }
    let c = s[i];
    if c == 'n' {
        if n - i >= 4 && s[i + 1] == 'u' && s[i + 2] == 'l' && s[i + 3] == 'l' {
            Some((Json::Null, i + 4))
        } else {
            None
        }
    } else if c == 't' {
        if n - i >= 4 && s[i + 1] == 'r' && s[i + 2] == 'u' && s[i + 3] == 'e' {
            Some((Json::Bool(true), i + 4))
        } else {
            None
        }
    } else if c == 'f' {
        if n - i >= 5 && s[i + 1] == 'a' && s[i + 2] == 'l' && s[i + 3] == 's' && s[i + 4] == 'e' {
            Some((Json::Bool(false), i + 5))
        } else {
            None
        }
    } else if c == '"' {
        match parse_string_exec(s, i + 1) {
            Some((t, j)) => Some((Json::Str(crate::text::chars_to_string(&t)), j)),
            None => None,
        }
    } else if c == '-' || (c >= '0' && c <= '9') {
        parse_number_exec(s, i)
    } else if c == '[' {
        let k = advance_exec(s, i + 1);
        if k < n && s[k] == ']' {
            let items: Vec<Json> = Vec::new();
            proof {
                assert(crate::json::json_seq_view(items@) =~= Seq::<JsonView>::empty());
            }
            Some((Json::Arr(items), k + 1))
        } else {
            let acc: Vec<Json> = Vec::new();
            proof {
                assert(crate::json::json_seq_view(acc@) =~= Seq::<JsonView>::empty());
            }
            match parse_elems_exec(s, k, acc) {
                Some((items, j)) => Some((Json::Arr(items), j)),
                None => None,
            }
        }
    } else if c == '{' {
        let k = advance_exec(s, i + 1);
        if k < n && s[k] == '}' {
            let fields: Vec<(String, Json)> = Vec::new();
            proof {
                assert(crate::json::json_fields_view(fields@) =~= Seq::<
                    (Seq<char>, JsonView),
                >::empty());
            }
            Some((Json::Obj(fields), k + 1))
        } else {
            let acc: Vec<(String, Json)> = Vec::new();
            proof {
                assert(crate::json::json_fields_view(acc@) =~= Seq::<
                    (Seq<char>, JsonView),
                >::empty());
            }
            match parse_members_exec(s, k, acc) {
                Some((fields, j)) => Some((Json::Obj(fields), j)),
                None => None,
            }
        }
    } else {
        None
    }
}

/// Parses array elements, mirroring [`parse_elems`].
fn parse_elems_exec(s: &Vec<char>, i: usize, acc: Vec<Json>) -> (r: Option<(Vec<Json>, usize)>)
    requires
        i <= s@.len(),
    ensures
        match r {
            Some((items, j)) => parse_elems(
                s@,
                i as int,
                crate::json::json_seq_view(acc@),
            ) == Some((crate::json::json_seq_view(items@), j as int)) && i < j <= s@.len(),
            None => parse_elems(s@, i as int, crate::json::json_seq_view(acc@)) is None,
        },
    decreases s@.len() - i, 2int,
{
    let n = s.len();
    if i >= n {
        return None;
    }
    match parse_value_exec(s, i) {
        Some((v, j)) => {
            let j2: usize = if j < i + 1 {
                i + 1
            } else {
                j
            };
            let k = advance_exec(s, j2);
            if k < n && s[k] == ',' {
                let k2 = advance_exec(s, k + 1);
                let ghost prev = acc@;
                let mut acc2 = acc;
                acc2.push(v);
                proof {
                    assert(acc2@.drop_last() =~= prev);
                    assert(crate::json::json_seq_view(acc2@) =~= crate::json::json_seq_view(
                        prev,
                    ).push(v@));
                }
                parse_elems_exec(s, k2, acc2)
            } else if k < n && s[k] == ']' {
                let ghost prev = acc@;
                let mut acc2 = acc;
                acc2.push(v);
                proof {
                    assert(acc2@.drop_last() =~= prev);
                    assert(crate::json::json_seq_view(acc2@) =~= crate::json::json_seq_view(
                        prev,
                    ).push(v@));
                }
                Some((acc2, k + 1))
            } else {
                None
            }
        },
        None => None,
    }
}

/// Parses object members, mirroring [`parse_members`].
fn parse_members_exec(s: &Vec<char>, i: usize, acc: Vec<(String, Json)>) -> (r: Option<
    (Vec<(String, Json)>, usize),
>)
    requires
        i <= s@.len(),
    ensures
        match r {
            Some((fields, j)) => parse_members(
                s@,
                i as int,
                crate::json::json_fields_view(acc@),
            ) == Some((crate::json::json_fields_view(fields@), j as int)) && i < j <= s@.len(),
            None => parse_members(s@, i as int, crate::json::json_fields_view(acc@)) is None,
        },
    decreases s@.len() - i, 2int,
{
    let n = s.len();
    if i >= n {
        return None;
    }
    if s[i] != '"' {
        return None;
    }
    match parse_string_exec(s, i + 1) {
        Some((key_chars, j)) => {
            let key = crate::text::chars_to_string(&key_chars);
            let j2: usize = if j < i + 1 {
                i + 1
            } else {
                j
            };
            let k = advance_exec(s, j2);
            if k < n && s[k] == ':' {
                let v0 = advance_exec(s, k + 1);
                match parse_value_exec(s, v0) {
                    Some((v, j3)) => {
                        let j4: usize = if j3 < v0 + 1 {
                            v0 + 1
                        } else {
                            j3
                        };
                        let k2 = advance_exec(s, j4);
                        if k2 < n && s[k2] == ',' {
                            let k3 = advance_exec(s, k2 + 1);
                            let ghost prev = acc@;
                            let mut acc2 = acc;
                            acc2.push((key, v));
                            proof {
                                assert(acc2@.drop_last() =~= prev);
                                assert(crate::json::json_fields_view(acc2@)
                                    =~= crate::json::json_fields_view(prev).push(
                                    (key@, v@),
                                ));
                            }
                            parse_members_exec(s, k3, acc2)
                        } else if k2 < n && s[k2] == '}' {
                            let ghost prev = acc@;
                            let mut acc2 = acc;
                            acc2.push((key, v));
                            proof {
                                assert(acc2@.drop_last() =~= prev);
                                assert(crate::json::json_fields_view(acc2@)
                                    =~= crate::json::json_fields_view(prev).push(
                                    (key@, v@),
                                ));
                            }
                            Some((acc2, k2 + 1))
                        } else {
                            None
                        }
                    },
                    None => None,
                }
            } else {
                None
            }
        },
        None => None,
    }
}

impl Json {
    /// Parses a complete JSON text: one value surrounded by nothing but
    /// whitespace.
    pub fn parse_text_str(s: &str) -> (r: Option<Json>)
        ensures
            match r {
                Some(v) => parse_text(s@) == Some(v@),
                None => parse_text(s@) is None,
            },
    {
        let chars = crate::text::str_to_chars(s);
        Json::parse_text_chars(&chars)
    }

    /// Parses a complete JSON text given as characters.
    pub fn parse_text_chars(chars: &Vec<char>) -> (r: Option<Json>)
        ensures
            match r {
                Some(v) => parse_text(chars@) == Some(v@),
                None => parse_text(chars@) is None,
            },
    {
        let i0 = advance_exec(chars, 0);
        match parse_value_exec(chars, i0) {
            Some((v, j)) => {
                let k = advance_exec(chars, j);
                if k == chars.len() {
                    Some(v)
                } else {
                    None
                }
            },
            None => None,
        }
    }
}

} // verus!
