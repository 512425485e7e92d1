//! The request marshaler: converts a typed request into its canonical JSON
//! payload, the third positional argument of a worker invocation.
//!
//! The payload layout is fixed per variant: fields appear in declaration
//! order, absent optional fields are written as `null`, string values are
//! quoted with `"` and `\` and control characters escaped as `\u00XX`, and
//! numbers are written in decimal. The worker parses by field name, so this
//! layout is part of the process-boundary contract.
//!
//! Serialization is total: every representable request value has exactly
//! one canonical payload, so no serialization failure can arise here.

use crate::text::chars_to_string;
use crate::types::{GeminiEditRequest, GeminiGenerateRequest, GeminiProcessRequest};
use crate::types::{EditRequestView, GenerateRequestView, ProcessRequestView};
use vstd::prelude::*;

verus! {

/// Hexadecimal digit for a value below sixteen.
pub open spec fn spec_hex_digit(n: int) -> char {
    if n == 0 {
        '0'
    } else if n == 1 {
        '1'
    } else if n == 2 {
        '2'
    } else if n == 3 {
        '3'
    } else if n == 4 {
        '4'
    } else if n == 5 {
        '5'
    } else if n == 6 {
        '6'
    } else if n == 7 {
        '7'
    } else if n == 8 {
        '8'
    } else if n == 9 {
        '9'
    } else if n == 10 {
        'A'
    } else if n == 11 {
        'B'
    } else if n == 12 {
        'C'
    } else if n == 13 {
        'D'
    } else if n == 14 {
        'E'
    } else {
        'F'
    }
}

/// A character that cannot stand raw inside a quoted JSON string here:
/// the quote, the backslash, and the control range.
pub open spec fn needs_escape(c: char) -> bool {
    c == '"' || c == '\\' || (c as u32) < 32
}

/// Canonical escape of one character: itself when raw is allowed,
/// otherwise the six-character form `\u00XX`.
pub open spec fn json_escape_char(c: char) -> Seq<char> {
    if needs_escape(c) {
        seq![
            '\\',
            'u',
            '0',
            '0',
            spec_hex_digit((c as u32) as int / 16),
            spec_hex_digit((c as u32) as int % 16),
        ]
    } else {
        seq![c]
    }
}

/// Canonical escape of a whole string body.
pub open spec fn json_escape(s: Seq<char>) -> Seq<char>
    decreases s.len(),
{
    if s.len() == 0 {
        Seq::empty()
    } else {
        json_escape_char(s[0]) + json_escape(s.skip(1))
    }
}

/// A quoted, escaped JSON string value.
pub open spec fn json_string(s: Seq<char>) -> Seq<char> {
    seq!['"'] + json_escape(s) + seq!['"']
}

/// An optional string field: `null` when absent.
pub open spec fn json_opt_string(o: Option<Seq<char>>) -> Seq<char> {
    match o {
        Some(s) => json_string(s),
        None => "null"@,
    }
}

/// Decimal digit for a value below ten.
pub open spec fn spec_dec_digit(n: int) -> char {
    if n == 0 {
        '0'
    } else if n == 1 {
        '1'
    } else if n == 2 {
        '2'
    } else if n == 3 {
        '3'
    } else if n == 4 {
        '4'
    } else if n == 5 {
        '5'
    } else if n == 6 {
        '6'
    } else if n == 7 {
        '7'
    } else if n == 8 {
        '8'
    } else {
        '9'
    }
}

/// Decimal notation of a non-negative integer, most significant digit first.
pub open spec fn dec_seq(n: int) -> Seq<char>
    decreases n,
{
    if n < 10 {
        seq![spec_dec_digit(n)]
    } else {
        dec_seq(n / 10).push(spec_dec_digit(n % 10))
    }
}

/// An optional number field: `null` when absent.
pub open spec fn json_opt_u32(o: Option<u32>) -> Seq<char> {
    match o {
        Some(n) => dec_seq(n as int),
        None => "null"@,
    }
}

/// A boolean JSON value.
pub open spec fn json_bool(b: bool) -> Seq<char> {
    if b {
        "true"@
    } else {
        "false"@
    }
}

/// An optional boolean field: `null` when absent.
pub open spec fn json_opt_bool(o: Option<bool>) -> Seq<char> {
    match o {
        Some(b) => json_bool(b),
        None => "null"@,
    }
}

/// The canonical payload of a generate request.
pub open spec fn generate_payload(r: GenerateRequestView) -> Seq<char> {
    "{\"prompt\":"@ + json_string(r.prompt) + ",\"style\":"@ + json_opt_string(r.style)
        + ",\"width\":"@ + json_opt_u32(r.width) + ",\"height\":"@ + json_opt_u32(r.height) + "}"@
}

/// The canonical payload of an edit request.
pub open spec fn edit_payload(r: EditRequestView) -> Seq<char> {
    "{\"image_base64\":"@ + json_string(r.image_base64) + ",\"prompt\":"@ + json_string(r.prompt)
        + "}"@
}

/// The canonical payload of a process request.
pub open spec fn process_payload(r: ProcessRequestView) -> Seq<char> {
    "{\"image_base64\":"@ + json_string(r.image_base64) + ",\"style\":"@ + json_opt_string(r.style)
        + ",\"custom_prompt\":"@ + json_opt_string(r.custom_prompt) + ",\"remove_background\":"@
        + json_opt_bool(r.remove_background) + ",\"threshold\":"@ + json_opt_u32(r.threshold)
        + ",\"padding\":"@ + json_opt_u32(r.padding) + "}"@
}

/// Escaping a string one character longer appends that character's escape.
pub proof fn lemma_json_escape_push(s: Seq<char>, c: char)
    ensures
        json_escape(s.push(c)) == json_escape(s) + json_escape_char(c),
    decreases s.len(),
{
    if s.len() == 0 {
        assert(s.push(c) =~= seq![c]);
        assert(seq![c].skip(1) =~= Seq::<char>::empty());
        assert(json_escape(Seq::<char>::empty()) =~= Seq::<char>::empty());
        assert(json_escape(seq![c]) =~= json_escape_char(c));
        assert(json_escape(s.push(c)) =~= json_escape(s) + json_escape_char(c));
    } else {
        assert(s.push(c).skip(1) =~= s.skip(1).push(c));
        lemma_json_escape_push(s.skip(1), c);
        assert(s.push(c)[0] == s[0]);
        assert(json_escape(s.push(c)) == json_escape_char(s[0]) + json_escape(s.skip(1).push(c)));
        assert(json_escape(s.push(c)) == json_escape_char(s[0]) + (json_escape(s.skip(1))
            + json_escape_char(c)));
        assert(json_escape(s) == json_escape_char(s[0]) + json_escape(s.skip(1)));
        assert(json_escape(s.push(c)) =~= json_escape(s) + json_escape_char(c));
    }
}

fn hex_digit_char(n: u32) -> (c: char)
    requires
        n < 16,
    ensures
        c == spec_hex_digit(n as int),
{
    if n == 0 {
        '0'
    } else if n == 1 {
        '1'
    } else if n == 2 {
        '2'
    } else if n == 3 {
        '3'
    } else if n == 4 {
        '4'
    } else if n == 5 {
        '5'
    } else if n == 6 {
        '6'
    } else if n == 7 {
        '7'
    } else if n == 8 {
        '8'
    } else if n == 9 {
        '9'
    } else if n == 10 {
        'A'
    } else if n == 11 {
        'B'
    } else if n == 12 {
        'C'
    } else if n == 13 {
        'D'
    } else if n == 14 {
        'E'
    } else {
        'F'
    }
}

fn push_escaped_char(buf: &mut Vec<char>, c: char)
    ensures
        final(buf)@ == old(buf)@ + json_escape_char(c),
{
    let code = c as u32;
    if c == '"' || c == '\\' || code < 32 {
        buf.push('\\');
        buf.push('u');
        buf.push('0');
        buf.push('0');
        buf.push(hex_digit_char(code / 16));
        buf.push(hex_digit_char(code % 16));
        assert(buf@ =~= old(buf)@ + json_escape_char(c));
    } else {
        buf.push(c);
        assert(buf@ =~= old(buf)@ + json_escape_char(c));
    }
}

fn append_escaped(out: &mut String, s: &str)
    ensures
        final(out)@ == old(out)@ + json_escape(s@),
{
    let n = s.unicode_len();
    let mut buf: Vec<char> = Vec::new();
    let mut i: usize = 0;
    while i < n
        invariant
            n == s@.len(),
            i <= n,
            buf@ == json_escape(s@.take(i as int)),
        decreases n - i,
    {
        let c = s.get_char(i);
        push_escaped_char(&mut buf, c);
        proof {
            lemma_json_escape_push(s@.take(i as int), c);
            assert(s@.take(i + 1) =~= s@.take(i as int).push(s@[i as int]));
        }
        i += 1;
    }
    proof {
        assert(s@.take(n as int) =~= s@);
    }
    let piece = chars_to_string(&buf);
    out.append(piece.as_str());
}

fn append_json_string(out: &mut String, s: &str)
    ensures
        final(out)@ == old(out)@ + json_string(s@),
{
    proof {
        reveal_strlit("\"");
    }
    out.append("\"");
    append_escaped(out, s);
    out.append("\"");
    assert(out@ =~= old(out)@ + json_string(s@));
}

fn dec_digit_char(n: u32) -> (c: char)
    requires
        n < 10,
    ensures
        c == spec_dec_digit(n as int),
{
    if n == 0 {
        '0'
    } else if n == 1 {
        '1'
    } else if n == 2 {
        '2'
    } else if n == 3 {
        '3'
    } else if n == 4 {
        '4'
    } else if n == 5 {
        '5'
    } else if n == 6 {
        '6'
    } else if n == 7 {
        '7'
    } else if n == 8 {
        '8'
    } else {
        '9'
    }
}

fn push_dec(buf: &mut Vec<char>, n: u32)
    ensures
        final(buf)@ == old(buf)@ + dec_seq(n as int),
    decreases n,
{
    if n < 10 {
        buf.push(dec_digit_char(n));
        assert(buf@ =~= old(buf)@ + dec_seq(n as int));
    } else {
        push_dec(buf, n / 10);
        buf.push(dec_digit_char(n % 10));
        assert(buf@ =~= old(buf)@ + dec_seq(n as int));
    }
}

fn append_u32(out: &mut String, n: u32)
    ensures
        final(out)@ == old(out)@ + dec_seq(n as int),
{
    let mut buf: Vec<char> = Vec::new();
    push_dec(&mut buf, n);
    let piece = chars_to_string(&buf);
    out.append(piece.as_str());
}

/// Serializes a generate request into its canonical payload.
pub fn serialize_generate_request(r: &GeminiGenerateRequest) -> (out: String)
    ensures
        out@ == generate_payload(r@),
{
    let mut out = String::new();
    out.append("{\"prompt\":");
    append_json_string(&mut out, r.prompt.as_str());
    out.append(",\"style\":");
    match &r.style {
        Some(s) => append_json_string(&mut out, s.as_str()),
        None => out.append("null"),
    }
    out.append(",\"width\":");
    match r.width {
        Some(n) => append_u32(&mut out, n),
        None => out.append("null"),
    }
    out.append(",\"height\":");
    match r.height {
        Some(n) => append_u32(&mut out, n),
        None => out.append("null"),
    }
    out.append("}");
    assert(out@ =~= generate_payload(r@));
    out
}

/// Serializes an edit request into its canonical payload.
pub fn serialize_edit_request(r: &GeminiEditRequest) -> (out: String)
    ensures
        out@ == edit_payload(r@),
{
    let mut out = String::new();
    out.append("{\"image_base64\":");
    append_json_string(&mut out, r.image_base64.as_str());
    out.append(",\"prompt\":");
    append_json_string(&mut out, r.prompt.as_str());
    out.append("}");
    assert(out@ =~= edit_payload(r@));
    out
}

/// Serializes a process request into its canonical payload.
pub fn serialize_process_request(r: &GeminiProcessRequest) -> (out: String)
    ensures
        out@ == process_payload(r@),
{
    let mut out = String::new();
    out.append("{\"image_base64\":");
    append_json_string(&mut out, r.image_base64.as_str());
    out.append(",\"style\":");
    match &r.style {
        Some(s) => append_json_string(&mut out, s.as_str()),
        None => out.append("null"),
    }
    out.append(",\"custom_prompt\":");
    match &r.custom_prompt {
        Some(s) => append_json_string(&mut out, s.as_str()),
        None => out.append("null"),
    }
    out.append(",\"remove_background\":");
    match r.remove_background {
        Some(true) => out.append("true"),
        Some(false) => out.append("false"),
        None => out.append("null"),
    }
    out.append(",\"threshold\":");
    match r.threshold {
        Some(n) => append_u32(&mut out, n),
        None => out.append("null"),
    }
    out.append(",\"padding\":");
    match r.padding {
        Some(n) => append_u32(&mut out, n),
        None => out.append("null"),
    }
    out.append("}");
    assert(out@ =~= process_payload(r@));
    out
}

} // verus!
