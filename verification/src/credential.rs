//! Layered credential resolution.
//!
//! A credential may come from two ranked provenances: a build-embedded value
//! (fixed when the binary was produced) and a runtime-environment value (read
//! fresh by the caller on every query). A credential is usable only if it is
//! non-empty and not the well-known placeholder literal; the build-embedded
//! tier always wins when both tiers hold a usable value.

use crate::types::GeminiStatusResponse;
use vstd::prelude::*;

verus! {

/// The sentinel value that must be treated as "no credential configured"
/// even though it is a non-empty string.
pub open spec fn placeholder() -> Seq<char> {
    "your_api_key_here"@
}

/// A credential value is usable when it is non-empty and not the placeholder.
pub open spec fn spec_usable(s: Seq<char>) -> bool {
    s.len() > 0 && s != placeholder()
}

/// View of an optional borrowed credential string.
pub open spec fn opt_str_view(o: Option<&str>) -> Option<Seq<char>> {
    match o {
        Some(s) => Some(s@),
        None => None,
    }
}

/// View of an optional owned credential string.
pub open spec fn opt_string_view(o: Option<String>) -> Option<Seq<char>> {
    match o {
        Some(s) => Some(s@),
        None => None,
    }
}

/// The two-tier resolution rule: the build-embedded credential is used when
/// it is usable, otherwise the runtime-environment credential is used when
/// it is usable, otherwise no credential is available.
pub open spec fn spec_resolve(embedded: Option<Seq<char>>, runtime: Option<Seq<char>>) -> Option<
    Seq<char>,
> {
    match embedded {
        Some(e) if spec_usable(e) => Some(e),
        _ => match runtime {
            Some(r) if spec_usable(r) => Some(r),
            _ => None,
        },
    }
}

/// Decides whether a single credential value is usable.
pub fn credential_usable(k: &str) -> (r: bool)
    ensures
        r == spec_usable(k@),
{
    let n = k.unicode_len();
    if n == 0 {
        proof {
            assert(!spec_usable(k@));
        }
        return false;
    }
    let p = "your_api_key_here";
    proof {
        reveal_strlit("your_api_key_here");
    }
    let pn = p.unicode_len();
    if n != pn {
        proof {
            assert(k@ != placeholder());
        }
        return true;
    }
    let mut i: usize = 0;
    while i < n
        invariant
            n == k@.len(),
            pn == placeholder().len(),
            n == pn,
            i <= n,
            p@ == placeholder(),
            forall|j: int| 0 <= j < i ==> k@[j] == placeholder()[j],
        decreases n - i,
    {
        if k.get_char(i) != p.get_char(i) {
            proof {
                assert(k@[i as int] != placeholder()[i as int]);
                assert(k@ != placeholder());
            }
            return true;
        }
        i += 1;
    }
    proof {
        assert(k@ =~= placeholder());
    }
    false
}

/// Resolves the credential from the two tiers, embedded tier first.
///
/// The rule is evaluated fresh on every call: nothing is cached, so a change
/// in what the caller reads from its environment is observable immediately.
pub fn resolve_credential(embedded: Option<&str>, runtime: Option<String>) -> (r: Option<String>)
    ensures
        opt_string_view(r) == spec_resolve(opt_str_view(embedded), opt_string_view(runtime)),
{
    match embedded {
        Some(e) => {
            if credential_usable(e) {
                return Some(e.to_owned());
            }
            match runtime {
                Some(k) => {
                    if credential_usable(k.as_str()) {
                        Some(k)
                    } else {
                        None
                    }
                },
                None => None,
            }
        },
        None => {
            match runtime {
                Some(k) => {
                    if credential_usable(k.as_str()) {
                        Some(k)
                    } else {
                        None
                    }
                },
                None => None,
            }
        },
    }
}

/// The status message reported when a credential resolved.
pub open spec fn configured_message() -> Seq<char> {
    "Gemini API is configured"@
}

/// The status message reported when no credential resolved.
pub open spec fn not_configured_message() -> Seq<char> {
    "Gemini API key not configured. Configure in the app settings."@
}

/// Reports whether the external API dependency is configured, given the two
/// credential tiers the caller read. Cannot fail and has no side effects;
/// in particular it never touches the process bridge.
pub fn gemini_check_status(embedded: Option<&str>, runtime: Option<String>) -> (r:
    GeminiStatusResponse)
    ensures
        r@.configured == spec_resolve(opt_str_view(embedded), opt_string_view(runtime)).is_some(),
        r@.configured ==> r@.message == configured_message(),
        !r@.configured ==> r@.message == not_configured_message(),
{
    match resolve_credential(embedded, runtime) {
        Some(_) => GeminiStatusResponse {
            configured: true,
            message: String::from_str("Gemini API is configured"),
        },
        None => GeminiStatusResponse {
            configured: false,
            message: String::from_str(
                "Gemini API key not configured. Configure in the app settings.",
            ),
        },
    }
}

/// Law: a blank or placeholder credential never counts as configured,
/// regardless of which tier supplied it.
pub proof fn lemma_blank_or_placeholder_rejected(
    embedded: Option<Seq<char>>,
    runtime: Option<Seq<char>>,
)
    requires
        embedded matches Some(e) ==> e == ""@ || e == placeholder(),
        runtime matches Some(r) ==> r == ""@ || r == placeholder(),
    ensures
        spec_resolve(embedded, runtime).is_none(),
{
    reveal_strlit("");
    assert(""@.len() == 0);
}

/// Law: a usable build-embedded credential always wins, even when the
/// runtime environment holds a different usable value.
pub proof fn lemma_embedded_precedence(embedded: Seq<char>, runtime: Option<Seq<char>>)
    requires
        spec_usable(embedded),
    ensures
        spec_resolve(Some(embedded), runtime) == Some(embedded),
{
}

} // verus!
