//! A JSON parser. The grammar is stated as specification functions over a
//! sequence of characters; the executable parser follows the same structure
//! and is proved to return exactly what the specification says.
//!
//! Recursion through nested arrays and objects is bounded by a fuel counter.
//! Fuel is spent only on a call that has just consumed one character (an
//! opening bracket or brace, or a comma between elements), so a starting fuel
//! equal to the input length is never exhausted before the input is.

use vstd::prelude::*;

use crate::json::Json;
use crate::json::JsonV;
use crate::json::views_of;
use crate::json::member_views_of;

verus! {

/// The four whitespace characters JSON allows between tokens.
pub open spec fn is_json_ws(c: char) -> bool {
    c == ' ' || c == '\t' || c == '\n' || c == '\r'
}

pub open spec fn is_digit(c: char) -> bool {
    '0' <= c && c <= '9'
}

/// The first position at or after `pos` that does not hold whitespace.
pub open spec fn skip_ws(s: Seq<char>, pos: int) -> int
    decreases s.len() - pos,
{
    if 0 <= pos < s.len() && is_json_ws(s[pos]) {
        skip_ws(s, pos + 1)
    } else {
        pos
    }
}

/// The first position at or after `pos` that does not hold a decimal digit.
pub open spec fn digits_end(s: Seq<char>, pos: int) -> int
    decreases s.len() - pos,
{
    if 0 <= pos < s.len() && is_digit(s[pos]) {
        digits_end(s, pos + 1)
    } else {
        pos
    }
}

/// End of the integer part of a number starting at `pos`: a single zero, or a
/// nonzero digit followed by any digits.
pub open spec fn int_part_end(s: Seq<char>, pos: int) -> Option<int> {
    if 0 <= pos < s.len() && s[pos] == '0' {
        Some(pos + 1)
    } else if 0 <= pos < s.len() && '1' <= s[pos] && s[pos] <= '9' {
        Some(digits_end(s, pos + 1))
    } else {
        None
    }
}

/// End of the optional fraction part at `pos`: nothing, or a dot followed by
/// at least one digit.
pub open spec fn frac_part_end(s: Seq<char>, pos: int) -> Option<int> {
    if 0 <= pos < s.len() && s[pos] == '.' {
        if pos + 1 < s.len() && is_digit(s[pos + 1]) {
            Some(digits_end(s, pos + 1))
        } else {
            None
        }
    } else {
        Some(pos)
    }
}

/// End of the optional exponent part at `pos`: nothing, or `e`/`E`, an
/// optional sign, and at least one digit.
pub open spec fn exp_part_end(s: Seq<char>, pos: int) -> Option<int> {
    if 0 <= pos < s.len() && (s[pos] == 'e' || s[pos] == 'E') {
        let sign_end = if pos + 1 < s.len() && (s[pos + 1] == '+' || s[pos + 1] == '-') {
            pos + 2
        } else {
            pos + 1
        };
        if sign_end < s.len() && is_digit(s[sign_end]) {
            Some(digits_end(s, sign_end))
        } else {
            None
        }
    } else {
        Some(pos)
    }
}

/// End of a number token starting at `pos`: an optional minus sign, an
/// integer part, an optional fraction and an optional exponent.
pub open spec fn number_end(s: Seq<char>, pos: int) -> Option<int> {
    let body = if 0 <= pos < s.len() && s[pos] == '-' {
        pos + 1
    } else {
        pos
    };
    match int_part_end(s, body) {
        None => None,
        Some(p) => match frac_part_end(s, p) {
            None => None,
            Some(q) => exp_part_end(s, q),
        },
    }
}

/// The numeric value of a hexadecimal digit, or `None`.
pub open spec fn hex_digit(c: char) -> Option<u32> {
    if '0' <= c && c <= '9' {
        Some((c as u32 - '0' as u32) as u32)
    } else if 'a' <= c && c <= 'f' {
        Some((c as u32 - 'a' as u32 + 10) as u32)
    } else if 'A' <= c && c <= 'F' {
        Some((c as u32 - 'A' as u32 + 10) as u32)
    } else {
        None
    }
}

/// The value of the four hexadecimal digits at `pos`.
pub open spec fn hex4(s: Seq<char>, pos: int) -> Option<u32> {
    if 0 <= pos && pos + 4 <= s.len() {
        match (hex_digit(s[pos]), hex_digit(s[pos + 1]), hex_digit(s[pos + 2]), hex_digit(
            s[pos + 3],
        )) {
            (Some(a), Some(b), Some(c), Some(d)) => Some(
                (a * 0x1000 + b * 0x100 + c * 0x10 + d) as u32,
            ),
            _ => None,
        }
    } else {
        None
    }
}

/// The character a simple escape stands for: the character after the
/// backslash, for every escape but `\u`.
pub open spec fn simple_escape(c: char) -> Option<char> {
    if c == '"' {
        Some('"')
    } else if c == '\\' {
        Some('\\')
    } else if c == '/' {
        Some('/')
    } else if c == 'b' {
        Some('\u{8}')
    } else if c == 'f' {
        Some('\u{c}')
    } else if c == 'n' {
        Some('\n')
    } else if c == 'r' {
        Some('\r')
    } else if c == 't' {
        Some('\t')
    } else {
        None
    }
}

pub open spec fn is_high_surrogate(n: u32) -> bool {
    0xD800 <= n && n < 0xDC00
}

pub open spec fn is_low_surrogate(n: u32) -> bool {
    0xDC00 <= n && n < 0xE000
}

/// The character named by a `\u` escape whose digits start at `pos` (just
/// after the `u`), and the position after the whole escape. A high surrogate
/// must be followed by a second `\u` escape holding a low surrogate; the pair
/// names one character. A lone surrogate is an error.
pub open spec fn unicode_escape(s: Seq<char>, pos: int) -> Option<(char, int)> {
    match hex4(s, pos) {
        None => None,
        Some(n) => {
            if is_low_surrogate(n) {
                None
            } else if is_high_surrogate(n) {
                if pos + 6 <= s.len() && s[pos + 4] == '\\' && s[pos + 5] == 'u' {
                    match hex4(s, pos + 6) {
                        None => None,
                        Some(n2) => {
                            if is_low_surrogate(n2) {
                                let code = 0x10000 + (n - 0xD800) * 0x400 + (n2 - 0xDC00);
                                Some(((code as u32) as char, pos + 10))
                            } else {
                                None
                            }
                        },
                    }
                } else {
                    None
                }
            } else {
                Some(((n as u32) as char, pos + 4))
            }
        },
    }
}

/// The decoded content of a string body starting at `pos` (just after the
/// opening quote), together with the position after the closing quote.
/// Control characters below `0x20` must be escaped.
pub open spec fn string_body(s: Seq<char>, pos: int) -> Option<(Seq<char>, int)>
    decreases s.len() - pos,
{
    if pos < 0 || pos >= s.len() {
        None
    } else if s[pos] == '"' {
        Some((Seq::empty(), pos + 1))
    } else if s[pos] == '\\' {
        if pos + 1 < s.len() {
            if s[pos + 1] == 'u' {
                match unicode_escape(s, pos + 2) {
                    None => None,
                    Some((c, next)) => match string_body(s, next) {
                        None => None,
                        Some((rest, end)) => Some((seq![c] + rest, end)),
                    },
                }
            } else {
                match simple_escape(s[pos + 1]) {
                    None => None,
                    Some(c) => match string_body(s, pos + 2) {
                        None => None,
                        Some((rest, end)) => Some((seq![c] + rest, end)),
                    },
                }
            }
        } else {
            None
        }
    } else if (s[pos] as u32) < 0x20 {
        None
    } else {
        match string_body(s, pos + 1) {
            None => None,
            Some((rest, end)) => Some((seq![s[pos]] + rest, end)),
        }
    }
}

/// A whole string token at `pos`: an opening quote, a body, a closing quote.
pub open spec fn string_token(s: Seq<char>, pos: int) -> Option<(Seq<char>, int)> {
    if 0 <= pos < s.len() && s[pos] == '"' {
        string_body(s, pos + 1)
    } else {
        None
    }
}

/// A JSON value starting exactly at `pos` (the caller has skipped
/// whitespace), and the position just after it.
pub open spec fn value_at(s: Seq<char>, pos: int, fuel: nat) -> Option<(JsonV, int)>
    decreases fuel, 0int,
{
    if pos < 0 || pos >= s.len() {
        None
    } else if s[pos] == 'n' {
        if pos + 4 <= s.len() && s[pos + 1] == 'u' && s[pos + 2] == 'l' && s[pos + 3] == 'l' {
            Some((JsonV::Null, pos + 4))
        } else {
            None
        }
    } else if s[pos] == 't' {
        if pos + 4 <= s.len() && s[pos + 1] == 'r' && s[pos + 2] == 'u' && s[pos + 3] == 'e' {
            Some((JsonV::Bool(true), pos + 4))
        } else {
            None
        }
    } else if s[pos] == 'f' {
        if pos + 5 <= s.len() && s[pos + 1] == 'a' && s[pos + 2] == 'l' && s[pos + 3] == 's'
            && s[pos + 4] == 'e' {
            Some((JsonV::Bool(false), pos + 5))
        } else {
            None
        }
    } else if s[pos] == '"' {
        match string_body(s, pos + 1) {
            None => None,
            Some((content, end)) => Some((JsonV::Str(content), end)),
        }
    } else if s[pos] == '-' || is_digit(s[pos]) {
        match number_end(s, pos) {
            None => None,
            Some(end) => Some((JsonV::Num(s.subrange(pos, end)), end)),
        }
    } else if s[pos] == '[' {
        if fuel > 0 {
            match array_rest(s, pos + 1, (fuel - 1) as nat) {
                None => None,
                Some((items, end)) => Some((JsonV::Arr(items), end)),
            }
        } else {
            None
        }
    } else if s[pos] == '{' {
        if fuel > 0 {
            match object_rest(s, pos + 1, (fuel - 1) as nat) {
                None => None,
                Some((members, end)) => Some((JsonV::Obj(members), end)),
            }
        } else {
            None
        }
    } else {
        None
    }
}

/// The rest of an array, starting just after the opening bracket: either a
/// closing bracket, or one or more comma-separated elements and a closing
/// bracket.
pub open spec fn array_rest(s: Seq<char>, pos: int, fuel: nat) -> Option<(Seq<JsonV>, int)>
    decreases fuel, 2int,
{
    let p = skip_ws(s, pos);
    if 0 <= p < s.len() && s[p] == ']' {
        Some((Seq::empty(), p + 1))
    } else {
        array_items(s, pos, fuel)
    }
}

/// One array element after whitespace, then either a closing bracket or a
/// comma and further elements.
pub open spec fn array_items(s: Seq<char>, pos: int, fuel: nat) -> Option<(Seq<JsonV>, int)>
    decreases fuel, 1int,
{
    match value_at(s, skip_ws(s, pos), fuel) {
        None => None,
        Some((v, e)) => {
            let p = skip_ws(s, e);
            if 0 <= p < s.len() && s[p] == ']' {
                Some((seq![v], p + 1))
            } else if 0 <= p < s.len() && s[p] == ',' && fuel > 0 {
                match array_items(s, p + 1, (fuel - 1) as nat) {
                    None => None,
                    Some((rest, end)) => Some((seq![v] + rest, end)),
                }
            } else {
                None
            }
        },
    }
}

/// The rest of an object, starting just after the opening brace: either a
/// closing brace, or one or more comma-separated members and a closing brace.
pub open spec fn object_rest(s: Seq<char>, pos: int, fuel: nat) -> Option<
    (Seq<(Seq<char>, JsonV)>, int),
>
    decreases fuel, 2int,
{
    let p = skip_ws(s, pos);
    if 0 <= p < s.len() && s[p] == '}' {
        Some((Seq::empty(), p + 1))
    } else {
        object_members(s, pos, fuel)
    }
}

/// One object member after whitespace - a string key, a colon, a value -
/// then either a closing brace or a comma and further members.
pub open spec fn object_members(s: Seq<char>, pos: int, fuel: nat) -> Option<
    (Seq<(Seq<char>, JsonV)>, int),
>
    decreases fuel, 1int,
{
    match string_token(s, skip_ws(s, pos)) {
        None => None,
        Some((key, key_end)) => {
            let colon = skip_ws(s, key_end);
            if 0 <= colon < s.len() && s[colon] == ':' {
                match value_at(s, skip_ws(s, colon + 1), fuel) {
                    None => None,
                    Some((v, e)) => {
                        let p = skip_ws(s, e);
                        if 0 <= p < s.len() && s[p] == '}' {
                            Some((seq![(key, v)], p + 1))
                        } else if 0 <= p < s.len() && s[p] == ',' && fuel > 0 {
                            match object_members(s, p + 1, (fuel - 1) as nat) {
                                None => None,
                                Some((rest, end)) => Some((seq![(key, v)] + rest, end)),
                            }
                        } else {
                            None
                        }
                    },
                }
            } else {
                None
            }
        },
    }
}

/// A whole JSON document: one value, with whitespace allowed around it and
/// nothing else. The fuel equal to the input length is never exhausted, since
/// fuel is spent only against consumed characters.
pub open spec fn document(s: Seq<char>) -> Option<JsonV> {
    match value_at(s, skip_ws(s, 0), s.len()) {
        None => None,
        Some((v, end)) => {
            if skip_ws(s, end) == s.len() {
                Some(v)
            } else {
                None
            }
        },
    }
}

fn is_ws_char(c: char) -> (r: bool)
    ensures
        r == is_json_ws(c),
{
    c == ' ' || c == '\t' || c == '\n' || c == '\r'
}

fn is_digit_char(c: char) -> (r: bool)
    ensures
        r == is_digit(c),
{
    '0' <= c && c <= '9'
}

fn ex_skip_ws(s: &Vec<char>, pos: usize) -> (r: usize)
    requires
        pos <= s@.len(),
    ensures
        r as int == skip_ws(s@, pos as int),
        pos <= r <= s@.len(),
{
    let mut p = pos;
    while p < s.len() && is_ws_char(s[p])
        invariant
            pos <= p <= s@.len(),
            skip_ws(s@, pos as int) == skip_ws(s@, p as int),
        decreases s@.len() - p,
    {
        p = p + 1;
    }
    p
}

fn ex_digits_end(s: &Vec<char>, pos: usize) -> (r: usize)
    requires
        pos <= s@.len(),
    ensures
        r as int == digits_end(s@, pos as int),
        pos <= r <= s@.len(),
{
    let mut p = pos;
    while p < s.len() && is_digit_char(s[p])
        invariant
            pos <= p <= s@.len(),
            digits_end(s@, pos as int) == digits_end(s@, p as int),
        decreases s@.len() - p,
    {
        p = p + 1;
    }
    p
}

fn ex_number_end(s: &Vec<char>, pos: usize) -> (r: Option<usize>)
    requires
        pos < s@.len(),
    ensures
        r is None <==> number_end(s@, pos as int) is None,
        r matches Some(e) ==> number_end(s@, pos as int) == Some(e as int) && pos <= e
            <= s@.len(),
{
    proof {
        assert(s.len() == s@.len());
    }
    let body = if s[pos] == '-' {
        pos + 1
    } else {
        pos
    };
    // integer part
    let after_int: usize;
    if body < s.len() && s[body] == '0' {
        after_int = body + 1;
    } else if body < s.len() && '1' <= s[body] && s[body] <= '9' {
        after_int = ex_digits_end(s, body + 1);
    } else {
        return None;
    }
    proof {
        assert(int_part_end(s@, body as int) == Some(after_int as int));
    }
    // fraction part
    let after_frac: usize;
    if after_int < s.len() && s[after_int] == '.' {
        if after_int + 1 < s.len() && is_digit_char(s[after_int + 1]) {
            after_frac = ex_digits_end(s, after_int + 1);
        } else {
            return None;
        }
    } else {
        after_frac = after_int;
    }
    proof {
        assert(frac_part_end(s@, after_int as int) == Some(after_frac as int));
    }
    // exponent part
    if after_frac < s.len() && (s[after_frac] == 'e' || s[after_frac] == 'E') {
        let sign_end = if after_frac + 1 < s.len() && (s[after_frac + 1] == '+' || s[after_frac
            + 1] == '-') {
            after_frac + 2
        } else {
            after_frac + 1
        };
        if sign_end < s.len() && is_digit_char(s[sign_end]) {
            Some(ex_digits_end(s, sign_end))
        } else {
            None
        }
    } else {
        Some(after_frac)
    }
}

fn ex_hex_digit(c: char) -> (r: Option<u32>)
    ensures
        r == hex_digit(c),
{
    if '0' <= c && c <= '9' {
        Some(c as u32 - '0' as u32)
    } else if 'a' <= c && c <= 'f' {
        Some(c as u32 - 'a' as u32 + 10)
    } else if 'A' <= c && c <= 'F' {
        Some(c as u32 - 'A' as u32 + 10)
    } else {
        None
    }
}

fn ex_hex4(s: &Vec<char>, pos: usize) -> (r: Option<u32>)
    requires
        pos <= s@.len(),
    ensures
        r == hex4(s@, pos as int),
        r matches Some(n) ==> n < 0x10000,
{
    if s.len() - pos >= 4 {
        match (ex_hex_digit(s[pos]), ex_hex_digit(s[pos + 1]), ex_hex_digit(s[pos + 2]),
        ex_hex_digit(s[pos + 3])) {
            (Some(a), Some(b), Some(c), Some(d)) => Some(a * 0x1000 + b * 0x100 + c * 0x10 + d),
            _ => None,
        }
    } else {
        None
    }
}

fn ex_unicode_escape(s: &Vec<char>, pos: usize) -> (r: Option<(char, usize)>)
    requires
        pos <= s@.len(),
    ensures
        r is None <==> unicode_escape(s@, pos as int) is None,
        r matches Some(p) ==> unicode_escape(s@, pos as int) == Some((p.0, p.1 as int)) && pos
            < p.1 <= s@.len(),
{
    match ex_hex4(s, pos) {
        None => None,
        Some(n) => {
            if 0xDC00 <= n && n < 0xE000 {
                None
            } else if 0xD800 <= n && n < 0xDC00 {
                if s.len() - pos >= 6 && s[pos + 4] == '\\' && s[pos + 5] == 'u' {
                    match ex_hex4(s, pos + 6) {
                        None => None,
                        Some(n2) => {
                            if 0xDC00 <= n2 && n2 < 0xE000 {
                                let code = 0x10000 + (n - 0xD800) * 0x400 + (n2 - 0xDC00);
                                let c = crate::chars::char_from_u32(code).unwrap();
                                Some((c, pos + 10))
                            } else {
                                None
                            }
                        },
                    }
                } else {
                    None
                }
            } else {
                let c = crate::chars::char_from_u32(n).unwrap();
                proof {
                    assert(s.len() == s@.len());
                }
                Some((c, pos + 4))
            }
        },
    }
}

fn ex_string_body(s: &Vec<char>, pos: usize) -> (r: Option<(Vec<char>, usize)>)
    requires
        pos <= s@.len(),
    ensures
        r is None <==> string_body(s@, pos as int) is None,
        r matches Some(p) ==> string_body(s@, pos as int) == Some((p.0@, p.1 as int)) && pos
            < p.1 <= s@.len(),
    decreases s@.len() - pos,
{
    if pos >= s.len() {
        None
    } else if s[pos] == '"' {
        Some((Vec::new(), pos + 1))
    } else if s[pos] == '\\' {
        if pos + 1 < s.len() {
            if s[pos + 1] == 'u' {
                match ex_unicode_escape(s, pos + 2) {
                    None => None,
                    Some((c, next)) => match ex_string_body(s, next) {
                        None => None,
                        Some((mut rest, end)) => {
                            rest.insert(0, c);
                            proof {
                                assert(rest@ =~= seq![c]
                                    + string_body(s@, next as int)->Some_0.0);
                            }
                            Some((rest, end))
                        },
                    },
                }
            } else {
                match ex_simple_escape(s[pos + 1]) {
                    None => None,
                    Some(c) => match ex_string_body(s, pos + 2) {
                        None => None,
                        Some((mut rest, end)) => {
                            rest.insert(0, c);
                            proof {
                                assert(rest@ =~= seq![c] + string_body(s@, pos + 2 as int)
                                    ->Some_0.0);
                            }
                            Some((rest, end))
                        },
                    },
                }
            }
        } else {
            None
        }
    } else if (s[pos] as u32) < 0x20 {
        None
    } else {
        match ex_string_body(s, pos + 1) {
            None => None,
            Some((mut rest, end)) => {
                let c = s[pos];
                rest.insert(0, c);
                proof {
                    assert(rest@ =~= seq![c] + string_body(s@, pos + 1 as int)->Some_0.0);
                }
                Some((rest, end))
            },
        }
    }
}

/// The characters of `s` between `from` and `to`.
fn copy_range(s: &Vec<char>, from: usize, to: usize) -> (r: Vec<char>)
    requires
        from <= to <= s@.len(),
    ensures
        r@ == s@.subrange(from as int, to as int),
{
    let mut r: Vec<char> = Vec::new();
    let mut i = from;
    while i < to
        invariant
            from <= i <= to <= s@.len(),
            r@ == s@.subrange(from as int, i as int),
        decreases to - i,
    {
        r.push(s[i]);
        i = i + 1;
        proof {
            assert(r@ =~= s@.subrange(from as int, i as int));
        }
    }
    r
}

fn ex_value(s: &Vec<char>, pos: usize, fuel: usize) -> (r: Option<(Json, usize)>)
    requires
        pos <= s@.len(),
    ensures
        r is None <==> value_at(s@, pos as int, fuel as nat) is None,
        r matches Some(p) ==> value_at(s@, pos as int, fuel as nat) == Some((p.0@, p.1 as int))
            && pos <= p.1 <= s@.len(),
    decreases fuel, 0int,
{
    if pos >= s.len() {
        None
    } else if s[pos] == 'n' {
        if s.len() - pos >= 4 && s[pos + 1] == 'u' && s[pos + 2] == 'l' && s[pos + 3] == 'l' {
            Some((Json::Null, pos + 4))
        } else {
            None
        }
    } else if s[pos] == 't' {
        if s.len() - pos >= 4 && s[pos + 1] == 'r' && s[pos + 2] == 'u' && s[pos + 3] == 'e' {
            Some((Json::Bool(true), pos + 4))
        } else {
            None
        }
    } else if s[pos] == 'f' {
        if s.len() - pos >= 5 && s[pos + 1] == 'a' && s[pos + 2] == 'l' && s[pos + 3] == 's' && s[
            pos + 4] == 'e' {
            Some((Json::Bool(false), pos + 5))
        } else {
            None
        }
    } else if s[pos] == '"' {
        match ex_string_body(s, pos + 1) {
            None => None,
            Some((content, end)) => Some((Json::Str(content), end)),
        }
    } else if s[pos] == '-' || is_digit_char(s[pos]) {
        match ex_number_end(s, pos) {
            None => None,
            Some(end) => Some((Json::Num(copy_range(s, pos, end)), end)),
        }
    } else if s[pos] == '[' {
        if fuel > 0 {
            match ex_array_rest(s, pos + 1, fuel - 1) {
                None => None,
                Some((items, end)) => Some((Json::Arr(items), end)),
            }
        } else {
            None
        }
    } else if s[pos] == '{' {
        if fuel > 0 {
            match ex_object_rest(s, pos + 1, fuel - 1) {
                None => None,
                Some((members, end)) => Some((Json::Obj(members), end)),
            }
        } else {
            None
        }
    } else {
        None
    }
}

fn ex_array_rest(s: &Vec<char>, pos: usize, fuel: usize) -> (r: Option<(Vec<Json>, usize)>)
    requires
        pos <= s@.len(),
    ensures
        r is None <==> array_rest(s@, pos as int, fuel as nat) is None,
        r matches Some(p) ==> array_rest(s@, pos as int, fuel as nat) == Some(
            (views_of(p.0@), p.1 as int),
        ) && pos <= p.1 <= s@.len(),
    decreases fuel, 2int,
{
    let p = ex_skip_ws(s, pos);
    if p < s.len() && s[p] == ']' {
        let items: Vec<Json> = Vec::new();
        proof {
            assert(views_of(items@) =~= Seq::<JsonV>::empty());
        }
        Some((items, p + 1))
    } else {
        ex_array_items(s, pos, fuel)
    }
}

fn ex_array_items(s: &Vec<char>, pos: usize, fuel: usize) -> (r: Option<(Vec<Json>, usize)>)
    requires
        pos <= s@.len(),
    ensures
        r is None <==> array_items(s@, pos as int, fuel as nat) is None,
        r matches Some(p) ==> array_items(s@, pos as int, fuel as nat) == Some(
            (views_of(p.0@), p.1 as int),
        ) && pos <= p.1 <= s@.len(),
    decreases fuel, 1int,
{
    let p = ex_skip_ws(s, pos);
    match ex_value(s, p, fuel) {
        None => None,
        Some((v, e)) => {
            let q = ex_skip_ws(s, e);
            if q < s.len() && s[q] == ']' {
                let mut items: Vec<Json> = Vec::new();
                items.push(v);
                proof {
                    assert(views_of(items@) =~= seq![
                        value_at(s@, p as int, fuel as nat)->Some_0.0,
                    ]);
                }
                Some((items, q + 1))
            } else if q < s.len() && s[q] == ',' && fuel > 0 {
                match ex_array_items(s, q + 1, fuel - 1) {
                    None => None,
                    Some((mut rest, end)) => {
                        let ghost prior = rest@;
                        rest.insert(0, v);
                        proof {
                            assert(views_of(rest@) =~= seq![
                                value_at(s@, p as int, fuel as nat)->Some_0.0,
                            ] + views_of(prior));
                        }
                        Some((rest, end))
                    },
                }
            } else {
                None
            }
        },
    }
}

fn ex_object_rest(s: &Vec<char>, pos: usize, fuel: usize) -> (r: Option<
    (Vec<(Vec<char>, Json)>, usize),
>)
    requires
        pos <= s@.len(),
    ensures
        r is None <==> object_rest(s@, pos as int, fuel as nat) is None,
        r matches Some(p) ==> object_rest(s@, pos as int, fuel as nat) == Some(
            (member_views_of(p.0@), p.1 as int),
        ) && pos <= p.1 <= s@.len(),
    decreases fuel, 2int,
{
    let p = ex_skip_ws(s, pos);
    if p < s.len() && s[p] == '}' {
        let members: Vec<(Vec<char>, Json)> = Vec::new();
        proof {
            assert(member_views_of(members@) =~= Seq::<(Seq<char>, JsonV)>::empty());
        }
        Some((members, p + 1))
    } else {
        ex_object_members(s, pos, fuel)
    }
}

fn ex_object_members(s: &Vec<char>, pos: usize, fuel: usize) -> (r: Option<
    (Vec<(Vec<char>, Json)>, usize),
>)
    requires
        pos <= s@.len(),
    ensures
        r is None <==> object_members(s@, pos as int, fuel as nat) is None,
        r matches Some(p) ==> object_members(s@, pos as int, fuel as nat) == Some(
            (member_views_of(p.0@), p.1 as int),
        ) && pos <= p.1 <= s@.len(),
    decreases fuel, 1int,
{
    let kp = ex_skip_ws(s, pos);
    if kp < s.len() && s[kp] == '"' {
        match ex_string_body(s, kp + 1) {
            None => None,
            Some((key, key_end)) => {
                let colon = ex_skip_ws(s, key_end);
                if colon < s.len() && s[colon] == ':' {
                    let vp = ex_skip_ws(s, colon + 1);
                    match ex_value(s, vp, fuel) {
                        None => None,
                        Some((v, e)) => {
                            let q = ex_skip_ws(s, e);
                            if q < s.len() && s[q] == '}' {
                                let ghost key_view = key@;
                                let ghost v_view = v@;
                                let mut members: Vec<(Vec<char>, Json)> = Vec::new();
                                members.push((key, v));
                                proof {
                                    assert(member_views_of(members@) =~= seq![
                                        (key_view, v_view),
                                    ]);
                                }
                                Some((members, q + 1))
                            } else if q < s.len() && s[q] == ',' && fuel > 0 {
                                match ex_object_members(s, q + 1, fuel - 1) {
                                    None => None,
                                    Some((mut rest, end)) => {
                                        let ghost prior = rest@;
                                        let ghost key_view = key@;
                                        let ghost v_view = v@;
                                        rest.insert(0, (key, v));
                                        proof {
                                            assert(member_views_of(rest@) =~= seq![
                                                (key_view, v_view),
                                            ] + member_views_of(prior));
                                        }
                                        Some((rest, end))
                                    },
                                }
                            } else {
                                None
                            }
                        },
                    }
                } else {
                    None
                }
            },
        }
    } else {
        None
    }
}

/// Parses one whole JSON document, exactly as the specification `document`
/// describes: the returned tree models the input, and `None` is returned
/// exactly on inputs that are not valid JSON.
pub fn parse_document(s: &Vec<char>) -> (r: Option<Json>)
    ensures
        r is None <==> document(s@) is None,
        r matches Some(j) ==> document(s@) == Some(j@),
{
    let p = ex_skip_ws(s, 0);
    match ex_value(s, p, s.len()) {
        None => None,
        Some((v, end)) => {
            let q = ex_skip_ws(s, end);
            if q == s.len() {
                Some(v)
            } else {
                None
            }
        },
    }
}

fn ex_simple_escape(c: char) -> (r: Option<char>)
    ensures
        r == simple_escape(c),
{
    if c == '"' {
        Some('"')
    } else if c == '\\' {
        Some('\\')
    } else if c == '/' {
        Some('/')
    } else if c == 'b' {
        Some('\u{8}')
    } else if c == 'f' {
        Some('\u{c}')
    } else if c == 'n' {
        Some('\n')
    } else if c == 'r' {
        Some('\r')
    } else if c == 't' {
        Some('\t')
    } else {
        None
    }
}

proof fn lemma_skip_ws_bounds(s: Seq<char>, pos: int)
    requires
        0 <= pos <= s.len(),
    ensures
        pos <= skip_ws(s, pos) <= s.len(),
    decreases s.len() - pos,
{
    if 0 <= pos < s.len() && is_json_ws(s[pos]) {
        lemma_skip_ws_bounds(s, pos + 1);
    }
}

proof fn lemma_digits_end_bounds(s: Seq<char>, pos: int)
    requires
        0 <= pos <= s.len(),
    ensures
        pos <= digits_end(s, pos) <= s.len(),
    decreases s.len() - pos,
{
    if 0 <= pos < s.len() && is_digit(s[pos]) {
        lemma_digits_end_bounds(s, pos + 1);
    }
}

proof fn lemma_number_end_bounds(s: Seq<char>, pos: int)
    requires
        0 <= pos < s.len(),
    ensures
        number_end(s, pos) matches Some(e) ==> pos < e <= s.len(),
{
    let body = if s[pos] == '-' {
        pos + 1
    } else {
        pos
    };
    if body < s.len() && '1' <= s[body] && s[body] <= '9' {
        lemma_digits_end_bounds(s, body + 1);
    }
    match int_part_end(s, body) {
        None => {},
        Some(p) => {
            if p < s.len() && s[p] == '.' && p + 1 < s.len() && is_digit(s[p + 1]) {
                lemma_digits_end_bounds(s, p + 1);
            }
            match frac_part_end(s, p) {
                None => {},
                Some(q) => {
                    if q < s.len() && (s[q] == 'e' || s[q] == 'E') {
                        let sign_end = if q + 1 < s.len() && (s[q + 1] == '+' || s[q + 1] == '-') {
                            q + 2
                        } else {
                            q + 1
                        };
                        if sign_end < s.len() && is_digit(s[sign_end]) {
                            lemma_digits_end_bounds(s, sign_end);
                        }
                    }
                },
            }
        },
    }
}

proof fn lemma_string_body_bounds(s: Seq<char>, pos: int)
    requires
        0 <= pos,
    ensures
        string_body(s, pos) matches Some(p) ==> pos < p.1 <= s.len(),
    decreases s.len() - pos,
{
    if pos < s.len() {
        if s[pos] == '"' {
        } else if s[pos] == '\\' {
            if pos + 1 < s.len() {
                if s[pos + 1] == 'u' {
                    match unicode_escape(s, pos + 2) {
                        None => {},
                        Some((c, next)) => {
                            lemma_string_body_bounds(s, next);
                        },
                    }
                } else {
                    lemma_string_body_bounds(s, pos + 2);
                }
            }
        } else if (s[pos] as u32) < 0x20 {
        } else {
            lemma_string_body_bounds(s, pos + 1);
        }
    }
}

proof fn lemma_value_bounds(s: Seq<char>, pos: int, fuel: nat)
    requires
        0 <= pos,
    ensures
        value_at(s, pos, fuel) matches Some(p) ==> pos < p.1 <= s.len(),
    decreases fuel, 0int,
{
    if 0 <= pos < s.len() {
        if s[pos] == '"' {
            lemma_string_body_bounds(s, pos + 1);
        } else if s[pos] == '-' || is_digit(s[pos]) {
            lemma_number_end_bounds(s, pos);
        } else if s[pos] == '[' && fuel > 0 {
            lemma_array_rest_bounds(s, pos + 1, (fuel - 1) as nat);
        } else if s[pos] == '{' && fuel > 0 {
            lemma_object_rest_bounds(s, pos + 1, (fuel - 1) as nat);
        }
    }
}

proof fn lemma_array_rest_bounds(s: Seq<char>, pos: int, fuel: nat)
    requires
        0 <= pos <= s.len(),
    ensures
        array_rest(s, pos, fuel) matches Some(p) ==> pos < p.1 <= s.len(),
    decreases fuel, 2int,
{
    lemma_skip_ws_bounds(s, pos);
    let p = skip_ws(s, pos);
    if !(0 <= p < s.len() && s[p] == ']') {
        lemma_array_items_bounds(s, pos, fuel);
    }
}

proof fn lemma_array_items_bounds(s: Seq<char>, pos: int, fuel: nat)
    requires
        0 <= pos <= s.len(),
    ensures
        array_items(s, pos, fuel) matches Some(p) ==> pos < p.1 <= s.len(),
    decreases fuel, 1int,
{
    lemma_skip_ws_bounds(s, pos);
    let p = skip_ws(s, pos);
    lemma_value_bounds(s, p, fuel);
    match value_at(s, p, fuel) {
        None => {},
        Some((v, e)) => {
            lemma_skip_ws_bounds(s, e);
            let q = skip_ws(s, e);
            if 0 <= q < s.len() && s[q] == ',' && fuel > 0 {
                lemma_array_items_bounds(s, q + 1, (fuel - 1) as nat);
            }
        },
    }
}

proof fn lemma_object_rest_bounds(s: Seq<char>, pos: int, fuel: nat)
    requires
        0 <= pos <= s.len(),
    ensures
        object_rest(s, pos, fuel) matches Some(p) ==> pos < p.1 <= s.len(),
    decreases fuel, 2int,
{
    lemma_skip_ws_bounds(s, pos);
    let p = skip_ws(s, pos);
    if !(0 <= p < s.len() && s[p] == '}') {
        lemma_object_members_bounds(s, pos, fuel);
    }
}

proof fn lemma_object_members_bounds(s: Seq<char>, pos: int, fuel: nat)
    requires
        0 <= pos <= s.len(),
    ensures
        object_members(s, pos, fuel) matches Some(p) ==> pos < p.1 <= s.len(),
    decreases fuel, 1int,
{
    lemma_skip_ws_bounds(s, pos);
    let kp = skip_ws(s, pos);
    if 0 <= kp < s.len() && s[kp] == '"' {
        lemma_string_body_bounds(s, kp + 1);
        match string_body(s, kp + 1) {
            None => {},
            Some((key, key_end)) => {
                lemma_skip_ws_bounds(s, key_end);
                let colon = skip_ws(s, key_end);
                if 0 <= colon < s.len() && s[colon] == ':' {
                    lemma_skip_ws_bounds(s, colon + 1);
                    let vp = skip_ws(s, colon + 1);
                    lemma_value_bounds(s, vp, fuel);
                    match value_at(s, vp, fuel) {
                        None => {},
                        Some((v, e)) => {
                            lemma_skip_ws_bounds(s, e);
                            let q = skip_ws(s, e);
                            if 0 <= q < s.len() && s[q] == ',' && fuel > 0 {
                                lemma_object_members_bounds(s, q + 1, (fuel - 1) as nat);
                            }
                        },
                    }
                }
            },
        }
    }
}

proof fn lemma_value_fuel(s: Seq<char>, pos: int, f1: nat, f2: nat)
    requires
        0 <= pos,
        f1 + pos >= s.len(),
        f2 + pos >= s.len(),
    ensures
        value_at(s, pos, f1) == value_at(s, pos, f2),
    decreases f1 + f2, 0int,
{
    if 0 <= pos < s.len() {
        if s[pos] == '[' {
            lemma_array_rest_fuel(s, pos + 1, (f1 - 1) as nat, (f2 - 1) as nat);
        } else if s[pos] == '{' {
            lemma_object_rest_fuel(s, pos + 1, (f1 - 1) as nat, (f2 - 1) as nat);
        }
    }
}

proof fn lemma_array_rest_fuel(s: Seq<char>, pos: int, f1: nat, f2: nat)
    requires
        0 <= pos <= s.len(),
        f1 + pos >= s.len(),
        f2 + pos >= s.len(),
    ensures
        array_rest(s, pos, f1) == array_rest(s, pos, f2),
    decreases f1 + f2, 2int,
{
    lemma_skip_ws_bounds(s, pos);
    let p = skip_ws(s, pos);
    if !(0 <= p < s.len() && s[p] == ']') {
        lemma_array_items_fuel(s, pos, f1, f2);
    }
}

proof fn lemma_array_items_fuel(s: Seq<char>, pos: int, f1: nat, f2: nat)
    requires
        0 <= pos <= s.len(),
        f1 + pos >= s.len(),
        f2 + pos >= s.len(),
    ensures
        array_items(s, pos, f1) == array_items(s, pos, f2),
    decreases f1 + f2, 1int,
{
    lemma_skip_ws_bounds(s, pos);
    let p = skip_ws(s, pos);
    lemma_value_fuel(s, p, f1, f2);
    match value_at(s, p, f1) {
        None => {},
        Some((v, e)) => {
            lemma_value_bounds(s, p, f1);
            lemma_skip_ws_bounds(s, e);
            let q = skip_ws(s, e);
            if 0 <= q < s.len() && s[q] == ',' {
                lemma_array_items_fuel(s, q + 1, (f1 - 1) as nat, (f2 - 1) as nat);
            }
        },
    }
}

proof fn lemma_object_rest_fuel(s: Seq<char>, pos: int, f1: nat, f2: nat)
    requires
        0 <= pos <= s.len(),
        f1 + pos >= s.len(),
        f2 + pos >= s.len(),
    ensures
        object_rest(s, pos, f1) == object_rest(s, pos, f2),
    decreases f1 + f2, 2int,
{
    lemma_skip_ws_bounds(s, pos);
    let p = skip_ws(s, pos);
    if !(0 <= p < s.len() && s[p] == '}') {
        lemma_object_members_fuel(s, pos, f1, f2);
    }
}

proof fn lemma_object_members_fuel(s: Seq<char>, pos: int, f1: nat, f2: nat)
    requires
        0 <= pos <= s.len(),
        f1 + pos >= s.len(),
        f2 + pos >= s.len(),
    ensures
        object_members(s, pos, f1) == object_members(s, pos, f2),
    decreases f1 + f2, 1int,
{
    lemma_skip_ws_bounds(s, pos);
    let kp = skip_ws(s, pos);
    if 0 <= kp < s.len() && s[kp] == '"' {
        lemma_string_body_bounds(s, kp + 1);
        match string_body(s, kp + 1) {
            None => {},
            Some((key, key_end)) => {
                lemma_skip_ws_bounds(s, key_end);
                let colon = skip_ws(s, key_end);
                if 0 <= colon < s.len() && s[colon] == ':' {
                    lemma_skip_ws_bounds(s, colon + 1);
                    let vp = skip_ws(s, colon + 1);
                    lemma_value_fuel(s, vp, f1, f2);
                    match value_at(s, vp, f1) {
                        None => {},
                        Some((v, e)) => {
                            lemma_value_bounds(s, vp, f1);
                            lemma_skip_ws_bounds(s, e);
                            let q = skip_ws(s, e);
                            if 0 <= q < s.len() && s[q] == ',' {
                                lemma_object_members_fuel(
                                    s,
                                    q + 1,
                                    (f1 - 1) as nat,
                                    (f2 - 1) as nat,
                                );
                            }
                        },
                    }
                }
            },
        }
    }
}

/// The recursion bound `document` starts the parse with is immaterial: any
/// fuel of at least the input length parses exactly the same, so the bound
/// never rejects a document that deeper fuel would accept.
pub proof fn lemma_document_fuel(s: Seq<char>, fuel: nat)
    requires
        fuel >= s.len(),
    ensures
        ({
            match value_at(s, skip_ws(s, 0), fuel) {
                None => None,
                Some((v, end)) => {
                    if skip_ws(s, end) == s.len() {
                        Some(v)
                    } else {
                        None
                    }
                },
            }
        }) == document(s),
{
    lemma_skip_ws_bounds(s, 0);
    lemma_value_fuel(s, skip_ws(s, 0), fuel, s.len());
}

} // verus!
