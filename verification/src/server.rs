//! MCP HTTP server rules: which hosts are loopback, how the endpoint path
//! is normalised, and which paths the health endpoints reserve.

use vstd::prelude::*;
use crate::text::{chars_of, push_char, same_text, string_of, strip, strip_chars, trim};

verus! {

/// `host`, trimmed, is `127.0.0.1`, `localhost` or `::1`.
pub open spec fn spec_is_loopback(host: Seq<char>) -> bool {
    let h = trim(host);
    h == "127.0.0.1"@ || h == "localhost"@ || h == "::1"@
}

/// Whether the HTTP bind host is a loopback address.
pub fn is_loopback_host(host: &str) -> (r: bool)
    ensures
        r == spec_is_loopback(host@),
{
    let cs = chars_of(host);
    let h = strip_chars(&cs, false);
    same_text(&h, "127.0.0.1") || same_text(&h, "localhost") || same_text(&h, "::1")
}

/// A bind host that is not loopback gets a warning: the HTTP transport
/// has no authentication of its own.
pub fn needs_public_bind_warning(host: &str) -> (r: bool)
    ensures
        r == !spec_is_loopback(host@),
{
    !is_loopback_host(host)
}

/// The endpoint path: `/` for an empty or root path, otherwise the path
/// without surrounding white space and slashes, behind a single `/`.
pub open spec fn spec_normalized_path(path: Seq<char>) -> Seq<char> {
    let t = trim(path);
    if t.len() == 0 || t == seq!['/'] {
        seq!['/']
    } else {
        seq!['/'] + strip(t, true)
    }
}

/// Normalises the MCP HTTP endpoint path.
pub fn normalized_http_path(path: &str) -> (r: String)
    ensures
        r@ == spec_normalized_path(path@),
{
    let cs = chars_of(path);
    let t = strip_chars(&cs, false);
    let mut out = String::new();
    push_char(&mut out, '/');
    if t.len() == 0 || (t.len() == 1 && t[0] == '/') {
        assert(t@.len() == 1 ==> t@ =~= seq!['/']);
        assert(out@ =~= seq!['/']);
        return out;
    }
    assert(t@ != seq!['/']) by {
        if t@ == seq!['/'] {
            assert(t@.len() == 1 && t@[0] == '/');
        }
    }
    let inner = strip_chars(&t, true);
    out.append(string_of(&inner).as_str());
    assert(out@ =~= seq!['/'] + strip(t@, true));
    out
}

/// The endpoint path may not shadow `/healthz` or `/readyz`.
pub open spec fn spec_path_conflicts(normalized: Seq<char>) -> bool {
    normalized == "/healthz"@ || normalized == "/readyz"@
}

/// Whether a normalised endpoint path collides with a health endpoint.
pub fn conflicts_with_health_endpoints(normalized: &str) -> (r: bool)
    ensures
        r == spec_path_conflicts(normalized@),
{
    let cs = chars_of(normalized);
    same_text(&cs, "/healthz") || same_text(&cs, "/readyz")
}

proof fn lemma_strip_start_no_lead(s: Seq<char>, slash: bool)
    ensures
        strip_start_spec_ok(s, slash),
    decreases s.len(),
{
    if s.len() > 0 && crate::text::trimmed_char(s[0], slash) {
        lemma_strip_start_no_lead(s.drop_first(), slash);
    }
}

/// The result of removing leading trimmed characters never starts with one.
pub open spec fn strip_start_spec_ok(s: Seq<char>, slash: bool) -> bool {
    let r = crate::text::strip_start(s, slash);
    r.len() > 0 ==> !crate::text::trimmed_char(r[0], slash)
}

proof fn lemma_strip_end_keeps_start(s: Seq<char>, slash: bool)
    ensures
        ({
            let r = crate::text::strip_end(s, slash);
            &&& r.len() <= s.len()
            &&& forall|i: int| 0 <= i < r.len() ==> r[i] == s[i]
            &&& r.len() > 0 ==> !crate::text::trimmed_char(r.last(), slash)
        }),
    decreases s.len(),
{
    if s.len() > 0 && crate::text::trimmed_char(s.last(), slash) {
        lemma_strip_end_keeps_start(s.drop_last(), slash);
    }
}

/// The endpoint path always starts with exactly one `/`, and ends with
/// `/` only when it is the root path itself.
pub proof fn law_normalized_path_shape(path: Seq<char>)
    ensures
        ({
            let n = spec_normalized_path(path);
            &&& n.len() >= 1
            &&& n[0] == '/'
            &&& n.len() > 1 ==> n[1] != '/' && n.last() != '/'
        }),
{
    let t = trim(path);
    if !(t.len() == 0 || t == seq!['/']) {
        let st = crate::text::strip_start(t, true);
        lemma_strip_start_no_lead(t, true);
        lemma_strip_end_keeps_start(st, true);
        let x = strip(t, true);
        let n = spec_normalized_path(path);
        assert(n == seq!['/'] + x);
        if x.len() > 0 {
            assert(n[1] == x[0]);
            assert(x[0] == st[0]);
            assert(n.last() == x.last());
        }
    }
}

/// `s` holds no white space.
pub open spec fn no_space(s: Seq<char>) -> bool {
    forall|i: int| 0 <= i < s.len() ==> !crate::text::is_space(#[trigger] s[i])
}

proof fn lemma_strip_start_no_space(s: Seq<char>, slash: bool)
    requires
        no_space(s),
    ensures
        no_space(crate::text::strip_start(s, slash)),
    decreases s.len(),
{
    if s.len() > 0 && crate::text::trimmed_char(s[0], slash) {
        let r = s.drop_first();
        assert forall|i: int| 0 <= i < r.len() implies !crate::text::is_space(#[trigger] r[i]) by {
            assert(r[i] == s[i + 1]);
        }
        lemma_strip_start_no_space(r, slash);
    }
}

proof fn lemma_strip_end_no_space(s: Seq<char>, slash: bool)
    requires
        no_space(s),
    ensures
        no_space(crate::text::strip_end(s, slash)),
    decreases s.len(),
{
    if s.len() > 0 && crate::text::trimmed_char(s.last(), slash) {
        let r = s.drop_last();
        assert forall|i: int| 0 <= i < r.len() implies !crate::text::is_space(#[trigger] r[i]) by {
            assert(r[i] == s[i]);
        }
        lemma_strip_end_no_space(r, slash);
    }
}

/// Normalising a path without white space a second time changes nothing.
pub proof fn law_normalized_path_is_stable(path: Seq<char>)
    requires
        no_space(path),
    ensures
        spec_normalized_path(spec_normalized_path(path)) == spec_normalized_path(path),
{
    law_normalized_path_shape(path);
    let n = spec_normalized_path(path);
    let t = trim(path);
    lemma_strip_start_no_space(path, false);
    lemma_strip_end_no_space(crate::text::strip_start(path, false), false);
    assert(!crate::text::is_space('/'));
    if n == seq!['/'] {
        assert(trim(n) == n);
    } else {
        let st = crate::text::strip_start(t, true);
        lemma_strip_start_no_space(t, true);
        lemma_strip_end_no_space(st, true);
        let x = strip(t, true);
        assert(n == seq!['/'] + x);
        assert(x.len() > 0);
        assert(n.last() == x.last());
        assert(!crate::text::is_space(x[x.len() - 1]));
        assert(trim(n) == n);
        assert(n.drop_first() =~= x);
        assert(crate::text::strip_start(n, true) == crate::text::strip_start(x, true));
        assert(x[0] == n[1]);
        assert(crate::text::strip_start(x, true) == x);
        assert(crate::text::strip_end(x, true) == x);
    }
}

} // verus!
