//! Decoder for the worker's standard-output document.
//!
//! On success the worker must emit exactly one JSON object. The decoder
//! accepts an object with the two required string fields `image_base64` and
//! `prompt_used` in either order, each exactly once, with arbitrary
//! whitespace between tokens. Unknown members are ignored when their value
//! is a string or a bare scalar (number, boolean or `null`); nested values
//! are not part of the expected result schema and are rejected. String
//! values may use the JSON escapes `\"`, `\\`, `\/`, `\b`, `\f`, `\n`,
//! `\r`, `\t` and `\uXXXX`, with a surrogate pair of `\uXXXX` escapes
//! denoting one character beyond the basic plane.

use crate::text::{char_from_code, chars_to_string};
use crate::types::{opt_field_view, GeminiGenerateResponse};
use vstd::prelude::*;

verus! {

/// JSON insignificant whitespace.
pub open spec fn is_ws(c: char) -> bool {
    c == ' ' || c == '\t' || c == '\n' || c == '\r'
}

/// First position at or after `i` holding something other than whitespace.
pub open spec fn spec_skip_ws(s: Seq<char>, i: int) -> int
    decreases s.len() - i,
{
    if i < 0 || i >= s.len() {
        i
    } else if is_ws(s[i]) {
        spec_skip_ws(s, i + 1)
    } else {
        i
    }
}

/// Skipping whitespace never moves backwards nor past the end.
pub proof fn lemma_skip_ws_bounds(s: Seq<char>, i: int)
    ensures
        i <= spec_skip_ws(s, i),
        i <= s.len() ==> spec_skip_ws(s, i) <= s.len(),
    decreases s.len() - i,
{
    if 0 <= i < s.len() && is_ws(s[i]) {
        lemma_skip_ws_bounds(s, i + 1);
    }
}

/// A character of a bare (unquoted) scalar token: digits, letters, sign,
/// exponent and decimal-point characters.
pub open spec fn is_bare_char(c: char) -> bool {
    let u = c as u32;
    (48 <= u && u <= 57) || (97 <= u && u <= 122) || (65 <= u && u <= 90) || c == '-' || c == '+'
        || c == '.'
}

/// First position at or after `i` holding no bare-scalar character.
pub open spec fn spec_skip_bare(s: Seq<char>, i: int) -> int
    decreases s.len() - i,
{
    if i < 0 || i >= s.len() {
        i
    } else if is_bare_char(s[i]) {
        spec_skip_bare(s, i + 1)
    } else {
        i
    }
}

/// Skipping a bare token never moves backwards nor past the end.
pub proof fn lemma_skip_bare_bounds(s: Seq<char>, i: int)
    ensures
        i <= spec_skip_bare(s, i),
        i <= s.len() ==> spec_skip_bare(s, i) <= s.len(),
    decreases s.len() - i,
{
    if 0 <= i < s.len() && is_bare_char(s[i]) {
        lemma_skip_bare_bounds(s, i + 1);
    }
}

/// A hexadecimal digit in either case.
pub open spec fn is_hex_char(c: char) -> bool {
    let u = c as u32;
    (48 <= u && u <= 57) || (97 <= u && u <= 102) || (65 <= u && u <= 70)
}

/// Value of a hexadecimal digit.
pub open spec fn hex_char_val(c: char) -> int {
    let u = c as u32;
    if 48 <= u && u <= 57 {
        u - 48
    } else if 97 <= u && u <= 102 {
        u - 87
    } else if 65 <= u && u <= 70 {
        u - 55
    } else {
        0
    }
}

/// Whether four hexadecimal digits stand at `i`.
pub open spec fn hex4_ok(s: Seq<char>, i: int) -> bool {
    0 <= i && i + 4 <= s.len() && is_hex_char(s[i]) && is_hex_char(s[i + 1]) && is_hex_char(
        s[i + 2],
    ) && is_hex_char(s[i + 3])
}

/// Value of the four hexadecimal digits at `i`.
pub open spec fn hex4_val(s: Seq<char>, i: int) -> int {
    hex_char_val(s[i]) * 4096 + hex_char_val(s[i + 1]) * 256 + hex_char_val(s[i + 2]) * 16
        + hex_char_val(s[i + 3])
}

/// Scans a JSON string body beginning just after the opening quote at
/// position `i`, with `acc` the content decoded so far. Yields the decoded
/// content and the position just after the closing quote.
pub open spec fn spec_scan_string(s: Seq<char>, i: int, acc: Seq<char>) -> Option<(Seq<char>, int)>
    decreases s.len() - i,
{
    if i < 0 || i >= s.len() {
        None
    } else if s[i] == '"' {
        Some((acc, i + 1))
    } else if s[i] == '\\' {
        if i + 2 > s.len() {
            None
        } else {
            let e = s[i + 1];
            if e == '"' || e == '\\' || e == '/' {
                spec_scan_string(s, i + 2, acc.push(e))
            } else if e == 'b' {
                spec_scan_string(s, i + 2, acc.push('\u{0008}'))
            } else if e == 'f' {
                spec_scan_string(s, i + 2, acc.push('\u{000C}'))
            } else if e == 'n' {
                spec_scan_string(s, i + 2, acc.push('\n'))
            } else if e == 'r' {
                spec_scan_string(s, i + 2, acc.push('\r'))
            } else if e == 't' {
                spec_scan_string(s, i + 2, acc.push('\t'))
            } else if e == 'u' {
                if !hex4_ok(s, i + 2) {
                    None
                } else {
                    let v = hex4_val(s, i + 2);
                    if 0xD800 <= v && v < 0xDC00 {
                        if i + 12 > s.len() {
                            None
                        } else if s[i + 6] != '\\' || s[i + 7] != 'u' {
                            None
                        } else if !hex4_ok(s, i + 8) {
                            None
                        } else {
                            let w = hex4_val(s, i + 8);
                            if 0xDC00 <= w && w < 0xE000 {
                                spec_scan_string(
                                    s,
                                    i + 12,
                                    acc.push(
                                        ((0x10000 + (v - 0xD800) * 0x400 + (w - 0xDC00)) as u32)
                                            as char,
                                    ),
                                )
                            } else {
                                None
                            }
                        }
                    } else if 0xDC00 <= v && v < 0xE000 {
                        None
                    } else {
                        spec_scan_string(s, i + 6, acc.push((v as u32) as char))
                    }
                }
            } else {
                None
            }
        }
    } else {
        spec_scan_string(s, i + 1, acc.push(s[i]))
    }
}

/// A successful string scan always advances and stays inside the input.
pub proof fn lemma_scan_string_bounds(s: Seq<char>, i: int, acc: Seq<char>)
    requires
        0 <= i,
    ensures
        spec_scan_string(s, i, acc) matches Some(p) ==> i < p.1 <= s.len(),
    decreases s.len() - i,
{
    if 0 <= i < s.len() {
        if s[i] == '"' {
        } else if s[i] == '\\' {
            if i + 2 <= s.len() {
                let e = s[i + 1];
                if e == '"' || e == '\\' || e == '/' {
                    lemma_scan_string_bounds(s, i + 2, acc.push(e));
                } else if e == 'b' {
                    lemma_scan_string_bounds(s, i + 2, acc.push('\u{0008}'));
                } else if e == 'f' {
                    lemma_scan_string_bounds(s, i + 2, acc.push('\u{000C}'));
                } else if e == 'n' {
                    lemma_scan_string_bounds(s, i + 2, acc.push('\n'));
                } else if e == 'r' {
                    lemma_scan_string_bounds(s, i + 2, acc.push('\r'));
                } else if e == 't' {
                    lemma_scan_string_bounds(s, i + 2, acc.push('\t'));
                } else if e == 'u' {
                    if hex4_ok(s, i + 2) {
                        let v = hex4_val(s, i + 2);
                        if 0xD800 <= v && v < 0xDC00 {
                            if i + 12 <= s.len() && s[i + 6] == '\\' && s[i + 7] == 'u'
                                && hex4_ok(s, i + 8) {
                                let w = hex4_val(s, i + 8);
                                if 0xDC00 <= w && w < 0xE000 {
                                    lemma_scan_string_bounds(
                                        s,
                                        i + 12,
                                        acc.push(
                                            ((0x10000 + (v - 0xD800) * 0x400 + (w - 0xDC00))
                                                as u32) as char,
                                        ),
                                    );
                                }
                            }
                        } else if !(0xDC00 <= v && v < 0xE000) {
                            lemma_scan_string_bounds(s, i + 6, acc.push((v as u32) as char));
                        }
                    }
                }
            }
        } else {
            lemma_scan_string_bounds(s, i + 1, acc.push(s[i]));
        }
    }
}

/// The key naming the image field of the expected result schema.
pub open spec fn image_key() -> Seq<char> {
    "image_base64"@
}

/// The key naming the prompt field of the expected result schema.
pub open spec fn prompt_key() -> Seq<char> {
    "prompt_used"@
}

/// Scans one object member whose key starts (with its opening quote) at
/// position `i`, then the rest of the object. `img` and `pr` hold the
/// required fields seen so far; a duplicate required key, or a required key
/// with a non-string value, fails the scan.
pub open spec fn spec_scan_members(
    s: Seq<char>,
    i: int,
    img: Option<Seq<char>>,
    pr: Option<Seq<char>>,
) -> Option<(Option<Seq<char>>, Option<Seq<char>>, int)>
    decreases s.len() - i, 1int,
    via spec_scan_members_dec
{
    if i < 0 || i >= s.len() || s[i] != '"' {
        None
    } else {
        match spec_scan_string(s, i + 1, Seq::empty()) {
            None => None,
            Some((k, j1)) => {
                let j2 = spec_skip_ws(s, j1);
                if j2 >= s.len() || s[j2] != ':' {
                    None
                } else {
                    let j3 = spec_skip_ws(s, j2 + 1);
                    if j3 < s.len() && s[j3] == '"' {
                        match spec_scan_string(s, j3 + 1, Seq::empty()) {
                            None => None,
                            Some((v, j4)) => {
                                if k == image_key() {
                                    if img is Some {
                                        None
                                    } else {
                                        spec_after_member(s, j4, Some(v), pr)
                                    }
                                } else if k == prompt_key() {
                                    if pr is Some {
                                        None
                                    } else {
                                        spec_after_member(s, j4, img, Some(v))
                                    }
                                } else {
                                    spec_after_member(s, j4, img, pr)
                                }
                            },
                        }
                    } else {
                        let j4 = spec_skip_bare(s, j3);
                        if j4 == j3 {
                            None
                        } else if k == image_key() || k == prompt_key() {
                            None
                        } else {
                            spec_after_member(s, j4, img, pr)
                        }
                    }
                }
            },
        }
    }
}

/// After a member's value ending at `j`: either the object closes, or a
/// comma announces the next member.
pub open spec fn spec_after_member(
    s: Seq<char>,
    j: int,
    img: Option<Seq<char>>,
    pr: Option<Seq<char>>,
) -> Option<(Option<Seq<char>>, Option<Seq<char>>, int)>
    decreases s.len() - j, 0int,
    via spec_after_member_dec
{
    let j5 = spec_skip_ws(s, j);
    if j5 >= s.len() {
        None
    } else if s[j5] == '}' {
        Some((img, pr, j5 + 1))
    } else if s[j5] == ',' {
        spec_scan_members(s, spec_skip_ws(s, j5 + 1), img, pr)
    } else {
        None
    }
}

#[via_fn]
proof fn spec_scan_members_dec(s: Seq<char>, i: int, img: Option<Seq<char>>, pr: Option<Seq<char>>) {
    if 0 <= i && i < s.len() && s[i] == '"' {
        lemma_scan_string_bounds(s, i + 1, Seq::empty());
        match spec_scan_string(s, i + 1, Seq::empty()) {
            None => {},
            Some((k, j1)) => {
                lemma_skip_ws_bounds(s, j1);
                let j2 = spec_skip_ws(s, j1);
                if j2 < s.len() && s[j2] == ':' {
                    lemma_skip_ws_bounds(s, j2 + 1);
                    let j3 = spec_skip_ws(s, j2 + 1);
                    if j3 < s.len() && s[j3] == '"' {
                        lemma_scan_string_bounds(s, j3 + 1, Seq::empty());
                    } else {
                        lemma_skip_bare_bounds(s, j3);
                    }
                }
            },
        }
    }
}

#[via_fn]
proof fn spec_after_member_dec(s: Seq<char>, j: int, img: Option<Seq<char>>, pr: Option<Seq<char>>) {
    lemma_skip_ws_bounds(s, j);
    let j5 = spec_skip_ws(s, j);
    if j5 < s.len() && s[j5] == ',' {
        lemma_skip_ws_bounds(s, j5 + 1);
    }
}

/// The whole document: optional whitespace, one object holding both
/// required fields, optional whitespace, end of input.
pub open spec fn spec_parse_result(s: Seq<char>) -> Option<(Seq<char>, Seq<char>)> {
    let i = spec_skip_ws(s, 0);
    if i >= s.len() || s[i] != '{' {
        None
    } else {
        let j = spec_skip_ws(s, i + 1);
        match spec_scan_members(s, j, None, None) {
            None => None,
            Some((img, pr, end)) => {
                if spec_skip_ws(s, end) == s.len() {
                    match (img, pr) {
                        (Some(a), Some(b)) => Some((a, b)),
                        _ => None,
                    }
                } else {
                    None
                }
            },
        }
    }
}

fn scan_ws(s: &str, n: usize, i: usize) -> (r: usize)
    requires
        n == s@.len(),
        i <= n,
    ensures
        r as int == spec_skip_ws(s@, i as int),
        i <= r <= n,
    decreases n - i,
{
    if i >= n {
        return i;
    }
    let c = s.get_char(i);
    if c == ' ' || c == '\t' || c == '\n' || c == '\r' {
        scan_ws(s, n, i + 1)
    } else {
        i
    }
}

fn scan_bare(s: &str, n: usize, i: usize) -> (r: usize)
    requires
        n == s@.len(),
        i <= n,
    ensures
        r as int == spec_skip_bare(s@, i as int),
        i <= r <= n,
    decreases n - i,
{
    if i >= n {
        return i;
    }
    let c = s.get_char(i);
    let u = c as u32;
    if (48 <= u && u <= 57) || (97 <= u && u <= 122) || (65 <= u && u <= 90) || c == '-' || c == '+'
        || c == '.' {
        scan_bare(s, n, i + 1)
    } else {
        i
    }
}

fn hex_val_opt(c: char) -> (r: Option<u32>)
    ensures
        match r {
            Some(v) => is_hex_char(c) && v as int == hex_char_val(c) && v < 16,
            None => !is_hex_char(c),
        },
{
    let u = c as u32;
    if 48 <= u && u <= 57 {
        Some(u - 48)
    } else if 97 <= u && u <= 102 {
        Some(u - 87)
    } else if 65 <= u && u <= 70 {
        Some(u - 55)
    } else {
        None
    }
}

fn scan_string(s: &str, n: usize, start: usize) -> (r: Option<(String, usize)>)
    requires
        n == s@.len(),
        start <= n,
    ensures
        match r {
            Some(p) => spec_scan_string(s@, start as int, Seq::empty()) == Some(
                (p.0@, p.1 as int),
            ) && start < p.1 <= n,
            None => spec_scan_string(s@, start as int, Seq::empty()) is None,
        },
{
    let mut i = start;
    let mut acc: Vec<char> = Vec::new();
    loop
        invariant
            n == s@.len(),
            start <= i <= n,
            spec_scan_string(s@, start as int, Seq::empty()) == spec_scan_string(
                s@,
                i as int,
                acc@,
            ),
        decreases n - i,
    {
        if i >= n {
            return None;
        }
        let c = s.get_char(i);
        if c == '"' {
            proof {
                lemma_scan_string_bounds(s@, start as int, Seq::empty());
            }
            let content = chars_to_string(&acc);
            return Some((content, i + 1));
        } else if c == '\\' {
            if i + 1 >= n {
                return None;
            }
            let e = s.get_char(i + 1);
            if e == '"' || e == '\\' || e == '/' {
                acc.push(e);
                i = i + 2;
            } else if e == 'b' {
                acc.push('\u{0008}');
                i = i + 2;
            } else if e == 'f' {
                acc.push('\u{000C}');
                i = i + 2;
            } else if e == 'n' {
                acc.push('\n');
                i = i + 2;
            } else if e == 'r' {
                acc.push('\r');
                i = i + 2;
            } else if e == 't' {
                acc.push('\t');
                i = i + 2;
            } else if e == 'u' {
                if n - i < 6 {
                    return None;
                }
                let h0 = hex_val_opt(s.get_char(i + 2));
                let h1 = hex_val_opt(s.get_char(i + 3));
                let h2 = hex_val_opt(s.get_char(i + 4));
                let h3 = hex_val_opt(s.get_char(i + 5));
                match (h0, h1, h2, h3) {
                    (Some(a), Some(b), Some(cc), Some(d)) => {
                        let v: u32 = a * 4096 + b * 256 + cc * 16 + d;
                        assert(v as int == hex4_val(s@, i + 2));
                        if 0xD800 <= v && v < 0xDC00 {
                            if n - i < 12 {
                                return None;
                            }
                            if s.get_char(i + 6) != '\\' || s.get_char(i + 7) != 'u' {
                                return None;
                            }
                            let g0 = hex_val_opt(s.get_char(i + 8));
                            let g1 = hex_val_opt(s.get_char(i + 9));
                            let g2 = hex_val_opt(s.get_char(i + 10));
                            let g3 = hex_val_opt(s.get_char(i + 11));
                            match (g0, g1, g2, g3) {
                                (Some(wa), Some(wb), Some(wc), Some(wd)) => {
                                    let w: u32 = wa * 4096 + wb * 256 + wc * 16 + wd;
                                    assert(w as int == hex4_val(s@, i + 8));
                                    if !(0xDC00 <= w && w < 0xE000) {
                                        return None;
                                    }
                                    let code: u32 = 0x10000 + (v - 0xD800) * 0x400 + (w - 0xDC00);
                                    match char_from_code(code) {
                                        Some(ch) => {
                                            acc.push(ch);
                                            i = i + 12;
                                        },
                                        None => {
                                            return None;
                                        },
                                    }
                                },
                                _ => {
                                    return None;
                                },
                            }
                        } else if 0xDC00 <= v && v < 0xE000 {
                            return None;
                        } else {
                            match char_from_code(v) {
                                Some(ch) => {
                                    acc.push(ch);
                                    i = i + 6;
                                },
                                None => {
                                    return None;
                                },
                            }
                        }
                    },
                    _ => {
                        return None;
                    },
                }
            } else {
                return None;
            }
        } else {
            acc.push(c);
            i = i + 1;
        }
    }
}

fn key_is(k: &String, lit: &str) -> (r: bool)
    ensures
        r == (k@ == lit@),
{
    let n = k.as_str().unicode_len();
    let m = lit.unicode_len();
    if n != m {
        proof {
            assert(k@ != lit@);
        }
        return false;
    }
    let mut i: usize = 0;
    while i < n
        invariant
            n == k@.len(),
            m == lit@.len(),
            n == m,
            i <= n,
            forall|j: int| 0 <= j < i ==> k@[j] == lit@[j],
        decreases n - i,
    {
        if k.as_str().get_char(i) != lit.get_char(i) {
            proof {
                assert(k@[i as int] != lit@[i as int]);
            }
            return false;
        }
        i += 1;
    }
    proof {
        assert(k@ =~= lit@);
    }
    true
}

fn scan_members(s: &str, n: usize, i: usize, img: Option<String>, pr: Option<String>) -> (r: Option<
    (Option<String>, Option<String>, usize),
>)
    requires
        n == s@.len(),
        i <= n,
    ensures
        match r {
            Some(p) => spec_scan_members(s@, i as int, opt_field_view(img), opt_field_view(pr))
                == Some((opt_field_view(p.0), opt_field_view(p.1), p.2 as int)) && p.2 <= n,
            None => spec_scan_members(s@, i as int, opt_field_view(img), opt_field_view(pr))
                is None,
        },
    decreases n - i, 1int,
{
    if i >= n {
        return None;
    }
    if s.get_char(i) != '"' {
        return None;
    }
    match scan_string(s, n, i + 1) {
        None => None,
        Some((k, j1)) => {
            let j2 = scan_ws(s, n, j1);
            if j2 >= n {
                return None;
            }
            if s.get_char(j2) != ':' {
                return None;
            }
            let j3 = scan_ws(s, n, j2 + 1);
            if j3 < n && s.get_char(j3) == '"' {
                match scan_string(s, n, j3 + 1) {
                    None => None,
                    Some((v, j4)) => {
                        if key_is(&k, "image_base64") {
                            if img.is_some() {
                                None
                            } else {
                                after_member(s, n, j4, Some(v), pr)
                            }
                        } else if key_is(&k, "prompt_used") {
                            if pr.is_some() {
                                None
                            } else {
                                after_member(s, n, j4, img, Some(v))
                            }
                        } else {
                            after_member(s, n, j4, img, pr)
                        }
                    },
                }
            } else {
                let j4 = scan_bare(s, n, j3);
                if j4 == j3 {
                    None
                } else if key_is(&k, "image_base64") || key_is(&k, "prompt_used") {
                    None
                } else {
                    after_member(s, n, j4, img, pr)
                }
            }
        },
    }
}

fn after_member(s: &str, n: usize, j: usize, img: Option<String>, pr: Option<String>) -> (r: Option<
    (Option<String>, Option<String>, usize),
>)
    requires
        n == s@.len(),
        j <= n,
    ensures
        match r {
            Some(p) => spec_after_member(s@, j as int, opt_field_view(img), opt_field_view(pr))
                == Some((opt_field_view(p.0), opt_field_view(p.1), p.2 as int)) && p.2 <= n,
            None => spec_after_member(s@, j as int, opt_field_view(img), opt_field_view(pr))
                is None,
        },
    decreases n - j, 0int,
{
    let j5 = scan_ws(s, n, j);
    if j5 >= n {
        return None;
    }
    let c = s.get_char(j5);
    if c == '}' {
        Some((img, pr, j5 + 1))
    } else if c == ',' {
        let jn = scan_ws(s, n, j5 + 1);
        scan_members(s, n, jn, img, pr)
    } else {
        None
    }
}

/// Decodes the worker's standard output against the expected result schema.
/// Yields the two fields when the document conforms, and nothing otherwise.
pub fn parse_worker_output(s: &str) -> (r: Option<GeminiGenerateResponse>)
    ensures
        match spec_parse_result(s@) {
            Some(p) => r matches Some(g) && g@.image_base64 == p.0 && g@.prompt_used == p.1,
            None => r is None,
        },
{
    let n = s.unicode_len();
    let i = scan_ws(s, n, 0);
    if i >= n {
        return None;
    }
    if s.get_char(i) != '{' {
        return None;
    }
    let j = scan_ws(s, n, i + 1);
    match scan_members(s, n, j, None, None) {
        None => None,
        Some((img, pr, end)) => {
            let k = scan_ws(s, n, end);
            if k != n {
                return None;
            }
            match (img, pr) {
                (Some(a), Some(b)) => Some(
                    GeminiGenerateResponse { image_base64: a, prompt_used: b },
                ),
                _ => None,
            }
        },
    }
}

} // verus!
