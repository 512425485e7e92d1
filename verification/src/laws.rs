//! Cross-function laws of the bridge.
//!
//! The central one: each request variant's canonical payload determines the
//! request completely — serialization loses no field and confuses no two
//! requests, so reading the payload back per the documented schema recovers
//! every present field and every absent optional field.

use crate::bridge::{failure_prefix, worker_error_text, Operation};
use crate::parse::{
    hex4_ok, hex4_val, hex_char_val, image_key, is_hex_char, is_ws, prompt_key,
    spec_after_member, spec_parse_result, spec_scan_members, spec_scan_string, spec_skip_ws,
};
use crate::payload::{
    dec_seq, edit_payload, generate_payload, json_escape, json_escape_char, json_opt_bool,
    json_opt_string, json_opt_u32, json_string, needs_escape, process_payload, spec_dec_digit,
    spec_hex_digit,
};
use crate::types::{EditRequestView, GenerateRequestView, ProcessRequestView};
use vstd::prelude::*;

verus! {

/// An ASCII decimal digit.
pub open spec fn is_dec_digit(c: char) -> bool {
    48 <= c as u32 && c as u32 <= 57
}

/// No character of an escaped string body is a raw quote.
pub proof fn lemma_escape_no_quote(s: Seq<char>)
    ensures
        forall|j: int| 0 <= j < json_escape(s).len() ==> json_escape(s)[j] != '"',
    decreases s.len(),
{
    if s.len() > 0 {
        lemma_escape_no_quote(s.skip(1));
        assert(forall|n: int| spec_hex_digit(n) != '"');
        let ec = json_escape_char(s[0]);
        assert(forall|j: int| 0 <= j < ec.len() ==> ec[j] != '"');
        assert(json_escape(s) == ec + json_escape(s.skip(1)));
        assert forall|j: int| 0 <= j < json_escape(s).len() implies json_escape(s)[j] != '"' by {
            if j < ec.len() {
                assert(json_escape(s)[j] == ec[j]);
            } else {
                assert(json_escape(s)[j] == json_escape(s.skip(1))[j - ec.len()]);
            }
        }
    }
}

/// Escaping is injective: equal escaped bodies come from equal strings.
pub proof fn lemma_escape_injective(a: Seq<char>, b: Seq<char>)
    requires
        json_escape(a) == json_escape(b),
    ensures
        a == b,
    decreases a.len(),
{
    if a.len() == 0 {
        if b.len() > 0 {
            assert(json_escape_char(b[0]).len() > 0);
            assert(json_escape(b).len() > 0);
        }
        assert(a =~= b);
    } else {
        if b.len() == 0 {
            assert(json_escape_char(a[0]).len() > 0);
            assert(json_escape(a).len() > 0);
        }
        let ea = json_escape_char(a[0]);
        let eb = json_escape_char(b[0]);
        assert(json_escape(a) == ea + json_escape(a.skip(1)));
        assert(json_escape(b) == eb + json_escape(b.skip(1)));
        assert(json_escape(a)[0] == ea[0]);
        assert(json_escape(b)[0] == eb[0]);
        if needs_escape(a[0]) && needs_escape(b[0]) {
            let ca = a[0] as u32;
            let cb = b[0] as u32;
            assert(ea.len() == 6 && eb.len() == 6);
            assert(json_escape(a)[4] == ea[4] && json_escape(a)[5] == ea[5]);
            assert(json_escape(b)[4] == eb[4] && json_escape(b)[5] == eb[5]);
            assert(ca < 256 && cb < 256);
            assert(spec_hex_digit(ca as int / 16) == spec_hex_digit(cb as int / 16));
            assert(spec_hex_digit(ca as int % 16) == spec_hex_digit(cb as int % 16));
            assert(ca as int / 16 == cb as int / 16 && ca as int % 16 == cb as int % 16);
            assert(ca == cb);
            vstd::utf8::char_u32_cast(a[0], ca);
            vstd::utf8::char_u32_cast(b[0], cb);
            assert(a[0] == b[0]);
            assert(json_escape(a.skip(1)) =~= json_escape(a).skip(6));
            assert(json_escape(b.skip(1)) =~= json_escape(b).skip(6));
            lemma_escape_injective(a.skip(1), b.skip(1));
            assert forall|j: int| 0 <= j < a.len() implies a[j] == b[j] by {
                if j > 0 {
                    assert(a[j] == a.skip(1)[j - 1]);
                    assert(b[j] == b.skip(1)[j - 1]);
                }
            }
            assert(a =~= b);
        } else if !needs_escape(a[0]) && !needs_escape(b[0]) {
            assert(ea =~= seq![a[0]] && eb =~= seq![b[0]]);
            assert(a[0] == b[0]);
            assert(json_escape(a.skip(1)) =~= json_escape(a).skip(1));
            assert(json_escape(b.skip(1)) =~= json_escape(b).skip(1));
            lemma_escape_injective(a.skip(1), b.skip(1));
            assert forall|j: int| 0 <= j < a.len() implies a[j] == b[j] by {
                if j > 0 {
                    assert(a[j] == a.skip(1)[j - 1]);
                    assert(b[j] == b.skip(1)[j - 1]);
                }
            }
            assert(a =~= b);
        } else if needs_escape(a[0]) {
            assert(ea[0] == '\\');
            assert(eb =~= seq![b[0]]);
            assert(b[0] != '\\');
            assert(false);
        } else {
            assert(eb[0] == '\\');
            assert(ea =~= seq![a[0]]);
            assert(a[0] != '\\');
            assert(false);
        }
    }
}

/// Two splittings of one sequence agree when both left parts are free of
/// raw quotes and both right parts open with one.
pub proof fn lemma_split_at_quote(a: Seq<char>, b: Seq<char>, c: Seq<char>, d: Seq<char>)
    requires
        a + b == c + d,
        b.len() > 0,
        d.len() > 0,
        forall|j: int| 0 <= j < a.len() ==> a[j] != '"',
        forall|j: int| 0 <= j < c.len() ==> c[j] != '"',
        b[0] == '"',
        d[0] == '"',
    ensures
        a == c,
        b == d,
{
    if a.len() < c.len() {
        assert(c[a.len() as int] == (c + d)[a.len() as int]);
        assert((a + b)[a.len() as int] == b[0]);
        assert(false);
    }
    if c.len() < a.len() {
        assert(a[c.len() as int] == (a + b)[c.len() as int]);
        assert((c + d)[c.len() as int] == d[0]);
        assert(false);
    }
    assert(a =~= (a + b).take(a.len() as int));
    assert(c =~= (c + d).take(c.len() as int));
    assert(b =~= (a + b).skip(a.len() as int));
    assert(d =~= (c + d).skip(c.len() as int));
}

/// Two splittings of one sequence agree when both left parts are all
/// digits and both right parts open with a non-digit.
pub proof fn lemma_split_at_nondigit(a: Seq<char>, b: Seq<char>, c: Seq<char>, d: Seq<char>)
    requires
        a + b == c + d,
        b.len() > 0,
        d.len() > 0,
        forall|j: int| 0 <= j < a.len() ==> is_dec_digit(a[j]),
        forall|j: int| 0 <= j < c.len() ==> is_dec_digit(c[j]),
        !is_dec_digit(b[0]),
        !is_dec_digit(d[0]),
    ensures
        a == c,
        b == d,
{
    if a.len() < c.len() {
        assert(c[a.len() as int] == (c + d)[a.len() as int]);
        assert((a + b)[a.len() as int] == b[0]);
        assert(false);
    }
    if c.len() < a.len() {
        assert(a[c.len() as int] == (a + b)[c.len() as int]);
        assert((c + d)[c.len() as int] == d[0]);
        assert(false);
    }
    assert(a =~= (a + b).take(a.len() as int));
    assert(c =~= (c + d).take(c.len() as int));
    assert(b =~= (a + b).skip(a.len() as int));
    assert(d =~= (c + d).skip(c.len() as int));
}

/// A common prefix strips off.
pub proof fn lemma_lit_strip(l: Seq<char>, x: Seq<char>, y: Seq<char>)
    requires
        l + x == l + y,
    ensures
        x == y,
{
    assert(x =~= (l + x).skip(l.len() as int));
    assert(y =~= (l + y).skip(l.len() as int));
}

/// Concatenation of character sequences is associative.
pub proof fn lemma_concat_assoc(x: Seq<char>, y: Seq<char>, z: Seq<char>)
    ensures
        (x + y) + z == x + (y + z),
{
    assert((x + y) + z =~= x + (y + z));
}

/// A quoted string value followed by anything determines both the string
/// and what follows.
pub proof fn lemma_json_string_split(s1: Seq<char>, r1: Seq<char>, s2: Seq<char>, r2: Seq<char>)
    requires
        json_string(s1) + r1 == json_string(s2) + r2,
    ensures
        s1 == s2,
        r1 == r2,
{
    let q = seq!['"'];
    let x1 = json_escape(s1) + (q + r1);
    let x2 = json_escape(s2) + (q + r2);
    assert(json_string(s1) + r1 =~= q + x1);
    assert(json_string(s2) + r2 =~= q + x2);
    lemma_lit_strip(q, x1, x2);
    lemma_escape_no_quote(s1);
    lemma_escape_no_quote(s2);
    lemma_split_at_quote(json_escape(s1), q + r1, json_escape(s2), q + r2);
    lemma_escape_injective(s1, s2);
    lemma_lit_strip(q, r1, r2);
}

/// Decimal notation holds digits only, and at least one of them.
pub proof fn lemma_dec_digits(n: int)
    requires
        n >= 0,
    ensures
        dec_seq(n).len() >= 1,
        forall|j: int| 0 <= j < dec_seq(n).len() ==> is_dec_digit(dec_seq(n)[j]),
    decreases n,
{
    assert(forall|d: int| 0 <= d < 10 ==> is_dec_digit(spec_dec_digit(d)));
    if n >= 10 {
        lemma_dec_digits(n / 10);
    }
}

/// Decimal notation is injective.
pub proof fn lemma_dec_injective(m: int, n: int)
    requires
        m >= 0,
        n >= 0,
        dec_seq(m) == dec_seq(n),
    ensures
        m == n,
    decreases m,
{
    lemma_dec_digits(m);
    lemma_dec_digits(n);
    if m < 10 && n < 10 {
        assert(dec_seq(m)[0] == spec_dec_digit(m));
        assert(dec_seq(n)[0] == spec_dec_digit(n));
        assert(m == n);
    } else if m < 10 {
        lemma_dec_digits(n / 10);
        assert(dec_seq(n).len() >= 2);
        assert(dec_seq(m).len() == 1);
        assert(false);
    } else if n < 10 {
        lemma_dec_digits(m / 10);
        assert(dec_seq(m).len() >= 2);
        assert(dec_seq(n).len() == 1);
        assert(false);
    } else {
        let pm = dec_seq(m / 10);
        let pn = dec_seq(n / 10);
        assert(dec_seq(m) == pm.push(spec_dec_digit(m % 10)));
        assert(dec_seq(n) == pn.push(spec_dec_digit(n % 10)));
        assert(pm.len() == pn.len());
        assert(dec_seq(m).last() == spec_dec_digit(m % 10));
        assert(dec_seq(n).last() == spec_dec_digit(n % 10));
        assert(m % 10 == n % 10);
        assert(pm =~= dec_seq(m).take(pm.len() as int));
        assert(pn =~= dec_seq(n).take(pn.len() as int));
        lemma_dec_injective(m / 10, n / 10);
    }
}

/// An optional string value followed by anything determines both.
pub proof fn lemma_opt_string_split(
    o1: Option<Seq<char>>,
    r1: Seq<char>,
    o2: Option<Seq<char>>,
    r2: Seq<char>,
)
    requires
        json_opt_string(o1) + r1 == json_opt_string(o2) + r2,
    ensures
        o1 == o2,
        r1 == r2,
{
    reveal_strlit("null");
    match (o1, o2) {
        (Some(s1), Some(s2)) => {
            lemma_json_string_split(s1, r1, s2, r2);
        },
        (None, None) => {
            lemma_lit_strip("null"@, r1, r2);
        },
        (Some(s1), None) => {
            assert((json_string(s1) + r1)[0] == '"');
            assert(("null"@ + r2)[0] == 'n');
            assert(false);
        },
        (None, Some(s2)) => {
            assert((json_string(s2) + r2)[0] == '"');
            assert(("null"@ + r1)[0] == 'n');
            assert(false);
        },
    }
}

/// An optional number value, followed by something that does not begin
/// with a digit, determines both.
pub proof fn lemma_opt_u32_split(
    o1: Option<u32>,
    r1: Seq<char>,
    o2: Option<u32>,
    r2: Seq<char>,
)
    requires
        json_opt_u32(o1) + r1 == json_opt_u32(o2) + r2,
        r1.len() > 0,
        r2.len() > 0,
        !is_dec_digit(r1[0]),
        !is_dec_digit(r2[0]),
    ensures
        o1 == o2,
        r1 == r2,
{
    reveal_strlit("null");
    match (o1, o2) {
        (Some(m), Some(n)) => {
            lemma_dec_digits(m as int);
            lemma_dec_digits(n as int);
            lemma_split_at_nondigit(dec_seq(m as int), r1, dec_seq(n as int), r2);
            lemma_dec_injective(m as int, n as int);
        },
        (None, None) => {
            lemma_lit_strip("null"@, r1, r2);
        },
        (Some(m), None) => {
            lemma_dec_digits(m as int);
            assert((dec_seq(m as int) + r1)[0] == dec_seq(m as int)[0]);
            assert(("null"@ + r2)[0] == 'n');
            assert(!is_dec_digit('n'));
            assert(false);
        },
        (None, Some(n)) => {
            lemma_dec_digits(n as int);
            assert((dec_seq(n as int) + r2)[0] == dec_seq(n as int)[0]);
            assert(("null"@ + r1)[0] == 'n');
            assert(!is_dec_digit('n'));
            assert(false);
        },
    }
}

/// An optional boolean value followed by anything determines both.
pub proof fn lemma_opt_bool_split(
    o1: Option<bool>,
    r1: Seq<char>,
    o2: Option<bool>,
    r2: Seq<char>,
)
    requires
        json_opt_bool(o1) + r1 == json_opt_bool(o2) + r2,
    ensures
        o1 == o2,
        r1 == r2,
{
    reveal_strlit("null");
    reveal_strlit("true");
    reveal_strlit("false");
    let v1 = json_opt_bool(o1);
    let v2 = json_opt_bool(o2);
    assert((v1 + r1)[0] == v1[0]);
    assert((v2 + r2)[0] == v2[0]);
    match (o1, o2) {
        (Some(true), Some(true)) => lemma_lit_strip("true"@, r1, r2),
        (Some(false), Some(false)) => lemma_lit_strip("false"@, r1, r2),
        (None, None) => lemma_lit_strip("null"@, r1, r2),
        _ => {
            assert(false);
        },
    }
}

/// The generate payload, re-grouped to the right.
proof fn lemma_generate_payload_unfold(r: GenerateRequestView)
    ensures
        generate_payload(r) == "{\"prompt\":"@ + (json_string(r.prompt) + (",\"style\":"@
            + (json_opt_string(r.style) + (",\"width\":"@ + (json_opt_u32(r.width)
            + (",\"height\":"@ + (json_opt_u32(r.height) + "}"@))))))),
{
    let l0 = "{\"prompt\":"@;
    let l1 = ",\"style\":"@;
    let l2 = ",\"width\":"@;
    let l3 = ",\"height\":"@;
    let l4 = "}"@;
    let s1 = json_string(r.prompt);
    let o1 = json_opt_string(r.style);
    let w = json_opt_u32(r.width);
    let h = json_opt_u32(r.height);
    let z1 = l0 + s1;
    let z2 = z1 + l1;
    let z3 = z2 + o1;
    let z4 = z3 + l2;
    let z5 = z4 + w;
    let z6 = z5 + l3;
    let z7 = z6 + h;
    assert(generate_payload(r) == z7 + l4);
    lemma_concat_assoc(z6, h, l4);
    lemma_concat_assoc(z5, l3, h + l4);
    lemma_concat_assoc(z4, w, l3 + (h + l4));
    lemma_concat_assoc(z3, l2, w + (l3 + (h + l4)));
    lemma_concat_assoc(z2, o1, l2 + (w + (l3 + (h + l4))));
    lemma_concat_assoc(z1, l1, o1 + (l2 + (w + (l3 + (h + l4)))));
    lemma_concat_assoc(l0, s1, l1 + (o1 + (l2 + (w + (l3 + (h + l4))))));
}

/// Law: the generate payload determines every field of the request —
/// present fields are preserved, absent optional fields stay recognizably
/// absent.
pub proof fn lemma_generate_payload_injective(a: GenerateRequestView, b: GenerateRequestView)
    requires
        generate_payload(a) == generate_payload(b),
    ensures
        a.prompt == b.prompt,
        a.style == b.style,
        a.width == b.width,
        a.height == b.height,
{
    let l1 = ",\"style\":"@;
    let l2 = ",\"width\":"@;
    let l3 = ",\"height\":"@;
    let l4 = "}"@;
    reveal_strlit(",\"height\":");
    reveal_strlit("}");
    lemma_generate_payload_unfold(a);
    lemma_generate_payload_unfold(b);
    let ra1 = l1 + (json_opt_string(a.style) + (l2 + (json_opt_u32(a.width) + (l3 + (
    json_opt_u32(a.height) + l4)))));
    let rb1 = l1 + (json_opt_string(b.style) + (l2 + (json_opt_u32(b.width) + (l3 + (
    json_opt_u32(b.height) + l4)))));
    lemma_lit_strip(
        "{\"prompt\":"@,
        json_string(a.prompt) + ra1,
        json_string(b.prompt) + rb1,
    );
    lemma_json_string_split(a.prompt, ra1, b.prompt, rb1);
    let ra2 = l2 + (json_opt_u32(a.width) + (l3 + (json_opt_u32(a.height) + l4)));
    let rb2 = l2 + (json_opt_u32(b.width) + (l3 + (json_opt_u32(b.height) + l4)));
    lemma_lit_strip(l1, json_opt_string(a.style) + ra2, json_opt_string(b.style) + rb2);
    lemma_opt_string_split(a.style, ra2, b.style, rb2);
    let ra3 = l3 + (json_opt_u32(a.height) + l4);
    let rb3 = l3 + (json_opt_u32(b.height) + l4);
    lemma_lit_strip(l2, json_opt_u32(a.width) + ra3, json_opt_u32(b.width) + rb3);
    assert(ra3[0] == ',');
    assert(rb3[0] == ',');
    lemma_opt_u32_split(a.width, ra3, b.width, rb3);
    lemma_lit_strip(l3, json_opt_u32(a.height) + l4, json_opt_u32(b.height) + l4);
    assert(l4[0] == '}');
    lemma_opt_u32_split(a.height, l4, b.height, l4);
}

/// The process payload, re-grouped to the right.
proof fn lemma_process_payload_unfold(r: ProcessRequestView)
    ensures
        process_payload(r) == "{\"image_base64\":"@ + (json_string(r.image_base64)
            + (",\"style\":"@ + (json_opt_string(r.style) + (",\"custom_prompt\":"@
            + (json_opt_string(r.custom_prompt) + (",\"remove_background\":"@
            + (json_opt_bool(r.remove_background) + (",\"threshold\":"@
            + (json_opt_u32(r.threshold) + (",\"padding\":"@ + (json_opt_u32(r.padding)
            + "}"@))))))))))),
{
    let l0 = "{\"image_base64\":"@;
    let l1 = ",\"style\":"@;
    let l2 = ",\"custom_prompt\":"@;
    let l3 = ",\"remove_background\":"@;
    let l4 = ",\"threshold\":"@;
    let l5 = ",\"padding\":"@;
    let l6 = "}"@;
    let s1 = json_string(r.image_base64);
    let o1 = json_opt_string(r.style);
    let o2 = json_opt_string(r.custom_prompt);
    let bb = json_opt_bool(r.remove_background);
    let th = json_opt_u32(r.threshold);
    let pd = json_opt_u32(r.padding);
    let z1 = l0 + s1;
    let z2 = z1 + l1;
    let z3 = z2 + o1;
    let z4 = z3 + l2;
    let z5 = z4 + o2;
    let z6 = z5 + l3;
    let z7 = z6 + bb;
    let z8 = z7 + l4;
    let z9 = z8 + th;
    let z10 = z9 + l5;
    let z11 = z10 + pd;
    assert(process_payload(r) == z11 + l6);
    lemma_concat_assoc(z10, pd, l6);
    lemma_concat_assoc(z9, l5, pd + l6);
    lemma_concat_assoc(z8, th, l5 + (pd + l6));
    lemma_concat_assoc(z7, l4, th + (l5 + (pd + l6)));
    lemma_concat_assoc(z6, bb, l4 + (th + (l5 + (pd + l6))));
    lemma_concat_assoc(z5, l3, bb + (l4 + (th + (l5 + (pd + l6)))));
    lemma_concat_assoc(z4, o2, l3 + (bb + (l4 + (th + (l5 + (pd + l6))))));
    lemma_concat_assoc(z3, l2, o2 + (l3 + (bb + (l4 + (th + (l5 + (pd + l6)))))));
    lemma_concat_assoc(z2, o1, l2 + (o2 + (l3 + (bb + (l4 + (th + (l5 + (pd + l6))))))));
    lemma_concat_assoc(z1, l1, o1 + (l2 + (o2 + (l3 + (bb + (l4 + (th + (l5 + (pd + l6)))))))));
    lemma_concat_assoc(
        l0,
        s1,
        l1 + (o1 + (l2 + (o2 + (l3 + (bb + (l4 + (th + (l5 + (pd + l6))))))))),
    );
}

/// Law: the process payload determines every field of the request.
pub proof fn lemma_process_payload_injective(a: ProcessRequestView, b: ProcessRequestView)
    requires
        process_payload(a) == process_payload(b),
    ensures
        a.image_base64 == b.image_base64,
        a.style == b.style,
        a.custom_prompt == b.custom_prompt,
        a.remove_background == b.remove_background,
        a.threshold == b.threshold,
        a.padding == b.padding,
{
    let l1 = ",\"style\":"@;
    let l2 = ",\"custom_prompt\":"@;
    let l3 = ",\"remove_background\":"@;
    let l4 = ",\"threshold\":"@;
    let l5 = ",\"padding\":"@;
    let l6 = "}"@;
    reveal_strlit(",\"padding\":");
    reveal_strlit("}");
    lemma_process_payload_unfold(a);
    lemma_process_payload_unfold(b);
    let ra1 = l1 + (json_opt_string(a.style) + (l2 + (json_opt_string(a.custom_prompt) + (l3 + (
    json_opt_bool(a.remove_background) + (l4 + (json_opt_u32(a.threshold) + (l5 + (json_opt_u32(
        a.padding,
    ) + l6)))))))));
    let rb1 = l1 + (json_opt_string(b.style) + (l2 + (json_opt_string(b.custom_prompt) + (l3 + (
    json_opt_bool(b.remove_background) + (l4 + (json_opt_u32(b.threshold) + (l5 + (json_opt_u32(
        b.padding,
    ) + l6)))))))));
    lemma_lit_strip(
        "{\"image_base64\":"@,
        json_string(a.image_base64) + ra1,
        json_string(b.image_base64) + rb1,
    );
    lemma_json_string_split(a.image_base64, ra1, b.image_base64, rb1);
    let ra2 = l2 + (json_opt_string(a.custom_prompt) + (l3 + (json_opt_bool(a.remove_background)
        + (l4 + (json_opt_u32(a.threshold) + (l5 + (json_opt_u32(a.padding) + l6)))))));
    let rb2 = l2 + (json_opt_string(b.custom_prompt) + (l3 + (json_opt_bool(b.remove_background)
        + (l4 + (json_opt_u32(b.threshold) + (l5 + (json_opt_u32(b.padding) + l6)))))));
    lemma_lit_strip(l1, json_opt_string(a.style) + ra2, json_opt_string(b.style) + rb2);
    lemma_opt_string_split(a.style, ra2, b.style, rb2);
    let ra3 = l3 + (json_opt_bool(a.remove_background) + (l4 + (json_opt_u32(a.threshold) + (l5
        + (json_opt_u32(a.padding) + l6)))));
    let rb3 = l3 + (json_opt_bool(b.remove_background) + (l4 + (json_opt_u32(b.threshold) + (l5
        + (json_opt_u32(b.padding) + l6)))));
    lemma_lit_strip(
        l2,
        json_opt_string(a.custom_prompt) + ra3,
        json_opt_string(b.custom_prompt) + rb3,
    );
    lemma_opt_string_split(a.custom_prompt, ra3, b.custom_prompt, rb3);
    let ra4 = l4 + (json_opt_u32(a.threshold) + (l5 + (json_opt_u32(a.padding) + l6)));
    let rb4 = l4 + (json_opt_u32(b.threshold) + (l5 + (json_opt_u32(b.padding) + l6)));
    lemma_lit_strip(
        l3,
        json_opt_bool(a.remove_background) + ra4,
        json_opt_bool(b.remove_background) + rb4,
    );
    lemma_opt_bool_split(a.remove_background, ra4, b.remove_background, rb4);
    let ra5 = l5 + (json_opt_u32(a.padding) + l6);
    let rb5 = l5 + (json_opt_u32(b.padding) + l6);
    lemma_lit_strip(l4, json_opt_u32(a.threshold) + ra5, json_opt_u32(b.threshold) + rb5);
    assert(ra5[0] == ',');
    assert(rb5[0] == ',');
    lemma_opt_u32_split(a.threshold, ra5, b.threshold, rb5);
    lemma_lit_strip(l5, json_opt_u32(a.padding) + l6, json_opt_u32(b.padding) + l6);
    assert(l6[0] == '}');
    lemma_opt_u32_split(a.padding, l6, b.padding, l6);
}

/// One scanning step consumes one escaped character and decodes it.
#[verifier::rlimit(100)]
#[verifier::spinoff_prover]
proof fn lemma_scan_escaped_body(pre: Seq<char>, c: Seq<char>, rest: Seq<char>, acc: Seq<char>)
    ensures
        ({
            let s = pre + (json_escape(c) + (seq!['"'] + rest));
            spec_scan_string(s, pre.len() as int, acc) == Some(
                (acc + c, (pre.len() + json_escape(c).len() + 1) as int),
            )
        }),
    decreases c.len(),
{
    let s = pre + (json_escape(c) + (seq!['"'] + rest));
    let i = pre.len() as int;
    if c.len() == 0 {
        assert(json_escape(c) =~= Seq::<char>::empty());
        assert(s[i] == '"');
        assert(spec_scan_string(s, i, acc) == Some((acc, i + 1)));
        assert(acc + c =~= acc);
    } else {
        let c0 = c[0];
        let ec0 = json_escape_char(c0);
        let cr = c.skip(1);
        assert(json_escape(c) == ec0 + json_escape(cr));
        let pre2 = pre + ec0;
        assert(s =~= pre2 + (json_escape(cr) + (seq!['"'] + rest)));
        lemma_scan_escaped_body(pre2, cr, rest, acc.push(c0));
        if !needs_escape(c0) {
            assert(ec0 =~= seq![c0]);
            assert(s[i] == (json_escape(c) + (seq!['"'] + rest))[0]);
            assert(s[i] == c0);
            assert(c0 != '"' && c0 != '\\');
            assert(spec_scan_string(s, i, acc) == spec_scan_string(s, i + 1, acc.push(c0)));
            assert(pre2.len() == i + 1);
        } else {
            let code = c0 as u32;
            assert(code < 32 || code == 34 || code == 92);
            assert(ec0 == seq![
                '\\',
                'u',
                '0',
                '0',
                spec_hex_digit(code as int / 16),
                spec_hex_digit(code as int % 16),
            ]);
            assert(json_escape(c)[0] == ec0[0] && json_escape(c)[1] == ec0[1] && json_escape(c)[2]
                == ec0[2] && json_escape(c)[3] == ec0[3] && json_escape(c)[4] == ec0[4]
                && json_escape(c)[5] == ec0[5]);
            let tail = json_escape(c) + (seq!['"'] + rest);
            assert(s[i] == tail[0] && s[i + 1] == tail[1] && s[i + 2] == tail[2] && s[i + 3]
                == tail[3] && s[i + 4] == tail[4] && s[i + 5] == tail[5]);
            assert(s[i] == '\\' && s[i + 1] == 'u' && s[i + 2] == '0' && s[i + 3] == '0');
            assert(s[i + 4] == spec_hex_digit(code as int / 16));
            assert(s[i + 5] == spec_hex_digit(code as int % 16));
            assert(forall|d: int|
                0 <= d < 16 ==> is_hex_char(#[trigger] spec_hex_digit(d)) && hex_char_val(
                    spec_hex_digit(d),
                ) == d);
            assert(is_hex_char('0') && hex_char_val('0') == 0);
            assert(i + 2 + 4 <= s.len());
            assert(hex4_ok(s, i + 2));
            assert(hex4_val(s, i + 2) == code as int);
            assert(code < 0xD800);
            vstd::utf8::char_u32_cast(c0, code);
            assert(((code as int) as u32) as char == c0);
            assert(spec_scan_string(s, i, acc) == spec_scan_string(s, i + 6, acc.push(c0)));
            assert(pre2.len() == i + 6);
        }
        assert(acc.push(c0) + cr =~= acc + c);
        assert(pre2.len() + json_escape(cr).len() == pre.len() + json_escape(c).len());
    }
}

/// Scanning a quoted, escaped string value recovers exactly its content.
proof fn lemma_scan_json_string(pre: Seq<char>, c: Seq<char>, rest: Seq<char>)
    ensures
        ({
            let s = pre + (json_string(c) + rest);
            spec_scan_string(s, (pre.len() + 1) as int, Seq::empty()) == Some(
                (c, (pre.len() + json_string(c).len()) as int),
            )
        }),
{
    let s = pre + (json_string(c) + rest);
    let q = seq!['"'];
    assert(json_string(c) == q + json_escape(c) + q);
    assert(s =~= (pre + q) + (json_escape(c) + (q + rest)));
    lemma_scan_escaped_body(pre + q, c, rest, Seq::empty());
    assert(Seq::<char>::empty() + c =~= c);
    assert((pre + q).len() == pre.len() + 1);
    assert(json_string(c).len() == json_escape(c).len() + 2);
}

/// The canonical document the worker emits for a result with the given
/// fields: the two required members in declaration order, no extra
/// whitespace.
pub open spec fn result_payload(img: Seq<char>, pr: Seq<char>) -> Seq<char> {
    "{"@ + (json_string("image_base64"@) + (":"@ + (json_string(img) + (","@ + (json_string(
        "prompt_used"@,
    ) + (":"@ + (json_string(pr) + "}"@)))))))
}

/// Law: the worker-output decoder accepts every canonical result document
/// and recovers exactly its fields.
pub proof fn lemma_result_payload_parses(img: Seq<char>, pr: Seq<char>)
    ensures
        spec_parse_result(result_payload(img, pr)) == Some((img, pr)),
{
    reveal_strlit("{");
    reveal_strlit("}");
    reveal_strlit(":");
    reveal_strlit(",");
    reveal_strlit("image_base64");
    reveal_strlit("prompt_used");
    let s = result_payload(img, pr);
    let k1 = "image_base64"@;
    let k2 = "prompt_used"@;
    let jk1 = json_string(k1);
    let jimg = json_string(img);
    let jk2 = json_string(k2);
    let jpr = json_string(pr);
    let lb = "{"@;
    let co = ":"@;
    let cm = ","@;
    let rb = "}"@;
    let t7 = jpr + rb;
    let t6 = co + t7;
    let t5 = jk2 + t6;
    let t4 = cm + t5;
    let t3 = jimg + t4;
    let t2 = co + t3;
    let t1 = jk1 + t2;
    assert(s == lb + t1);
    let pre1 = lb + jk1;
    let pre2 = pre1 + co;
    let pre3 = pre2 + jimg;
    let pre4 = pre3 + cm;
    let pre5 = pre4 + jk2;
    let pre6 = pre5 + co;
    let pre7 = pre6 + jpr;
    lemma_concat_assoc(lb, jk1, t2);
    lemma_concat_assoc(pre1, co, t3);
    lemma_concat_assoc(pre2, jimg, t4);
    lemma_concat_assoc(pre3, cm, t5);
    lemma_concat_assoc(pre4, jk2, t6);
    lemma_concat_assoc(pre5, co, t7);
    lemma_concat_assoc(pre6, jpr, rb);
    assert(s == pre1 + t2 && s == pre2 + t3 && s == pre3 + t4 && s == pre4 + t5 && s == pre5 + t6
        && s == pre6 + t7 && s == pre7 + rb);
    assert(jk1[0] == '"' && jimg[0] == '"' && jk2[0] == '"' && jpr[0] == '"');
    assert(s.len() == pre7.len() + 1);
    // the opening brace
    assert(s[0] == '{');
    assert(!is_ws('{'));
    assert(spec_skip_ws(s, 0) == 0);
    // the first key
    assert(s[1] == pre1[1] && pre1[1] == jk1[0]);
    assert(spec_skip_ws(s, 1) == 1);
    lemma_scan_json_string(lb, k1, t2);
    assert(spec_scan_string(s, 2int, Seq::empty()) == Some((k1, pre1.len() as int)));
    // the first colon and the image value
    assert(s[pre1.len() as int] == t2[0] && t2[0] == ':');
    assert(spec_skip_ws(s, pre1.len() as int) == pre1.len() as int);
    assert(s[pre2.len() as int] == t3[0]);
    assert(spec_skip_ws(s, pre2.len() as int) == pre2.len() as int);
    lemma_scan_json_string(pre2, img, t4);
    assert(spec_scan_string(s, pre2.len() + 1int, Seq::empty()) == Some((img, pre3.len() as int)));
    assert(k1 == image_key());
    // the comma, then the second member
    assert(s[pre3.len() as int] == t4[0] && t4[0] == ',');
    assert(spec_skip_ws(s, pre3.len() as int) == pre3.len() as int);
    assert(s[pre4.len() as int] == t5[0]);
    assert(spec_skip_ws(s, pre4.len() as int) == pre4.len() as int);
    assert(pre4.len() == pre3.len() + 1);
    lemma_scan_json_string(pre4, k2, t6);
    assert(spec_scan_string(s, pre4.len() + 1int, Seq::empty()) == Some((k2, pre5.len() as int)));
    assert(k2.len() != image_key().len());
    assert(k2 != image_key());
    assert(k2 == prompt_key());
    // the second colon and the prompt value
    assert(s[pre5.len() as int] == t6[0] && t6[0] == ':');
    assert(spec_skip_ws(s, pre5.len() as int) == pre5.len() as int);
    assert(s[pre6.len() as int] == t7[0]);
    assert(spec_skip_ws(s, pre6.len() as int) == pre6.len() as int);
    lemma_scan_json_string(pre6, pr, rb);
    assert(spec_scan_string(s, pre6.len() + 1int, Seq::empty()) == Some((pr, pre7.len() as int)));
    // the closing brace ends the object and the document
    assert(s[pre7.len() as int] == rb[0] && rb[0] == '}');
    assert(spec_skip_ws(s, pre7.len() as int) == pre7.len() as int);
    assert(spec_after_member(s, pre7.len() as int, Some(img), Some(pr)) == Some(
        (Some(img), Some(pr), pre7.len() + 1int),
    ));
    assert(spec_scan_members(s, pre4.len() as int, Some(img), None) == Some(
        (Some(img), Some(pr), pre7.len() + 1int),
    ));
    assert(spec_after_member(s, pre3.len() as int, Some(img), None) == Some(
        (Some(img), Some(pr), pre7.len() + 1int),
    ));
    assert(spec_scan_members(s, 1int, None, None) == Some((Some(img), Some(pr), pre7.len() + 1int)));
    assert(spec_skip_ws(s, s.len() as int) == s.len() as int);
    assert(spec_parse_result(s) == Some((img, pr)));
}

/// Law: the caller-facing text of a worker failure ends with the worker's
/// standard-error content verbatim, whatever the operation.
pub proof fn lemma_worker_failure_preserves_stderr(op: Operation, t: Seq<char>)
    ensures
        (failure_prefix(op) + worker_error_text(t)).skip(
            failure_prefix(op).len() + "Python backend error: "@.len() as int,
        ) == t,
{
    let full = failure_prefix(op) + worker_error_text(t);
    assert(full.skip(failure_prefix(op).len() + "Python backend error: "@.len() as int) =~= t);
}

} // verus!
