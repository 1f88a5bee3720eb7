//! The decisions that the client and server middlewares take on a request.

pub mod add_client_headers;
pub mod client_tracing;
pub mod request_duration_metrics;
pub mod set_current_service;

pub use add_client_headers::{AddClientHeaders, AddClientHeadersEndpoint};
pub use client_tracing::{ClientTracing, ClientTracingEndpoint};
pub use set_current_service::{CurrentServiceName, SetCurrentService, SetCurrentServiceEndpoint};

use vstd::prelude::*;

use crate::text::{
    lemma_split_free, lemma_split_nonempty, lemma_split_pieces_lack_separator,
    lemma_split_sep_then_free, opt_str_view, split_seq, split_str, str_views,
};

verus! {

/// The service named in a request path: the next-to-last piece of the path
/// split at `'/'` (`"/pkg.Service/Method"` names `"pkg.Service"`).
pub open spec fn service_of_path(path: Seq<char>) -> Option<Seq<char>> {
    let pieces = split_seq(path, '/');
    if pieces.len() >= 2 {
        Some(pieces[pieces.len() - 2])
    } else {
        None
    }
}

/// The service named in a path never holds a `'/'`.
pub proof fn lemma_service_has_no_slash(path: Seq<char>)
    ensures
        service_of_path(path) matches Some(s) ==> !s.contains('/'),
{
    lemma_split_pieces_lack_separator(path, '/');
    lemma_split_nonempty(path, '/');
    let pieces = split_seq(path, '/');
    if pieces.len() >= 2 {
        assert(!pieces[pieces.len() - 2].contains('/'));
    }
}

/// A path without a `'/'` names no service.
pub proof fn lemma_service_of_path_without_slash(path: Seq<char>)
    requires
        !path.contains('/'),
    ensures
        service_of_path(path) is None,
{
    lemma_split_free(path, '/');
}

/// In `s/m`, where neither `s` nor `m` holds a `'/'`, the service is all of
/// `s`.
pub proof fn lemma_service_of_path_leading(s: Seq<char>, m: Seq<char>)
    requires
        !s.contains('/'),
        !m.contains('/'),
    ensures
        service_of_path(s + seq!['/'] + m) == Some(s),
{
    lemma_split_free(s, '/');
    lemma_split_sep_then_free(s, m, '/');
    assert(s + seq!['/'] + m =~= s.push('/') + m);
    assert(seq![s].push(m)[0] == s);
}

/// In `p/s/m`, where neither `s` nor `m` holds a `'/'`, the service is all
/// of `s`, whatever `p` is: the whole next-to-last segment, unchanged.
pub proof fn lemma_service_of_path_inner(p: Seq<char>, s: Seq<char>, m: Seq<char>)
    requires
        !s.contains('/'),
        !m.contains('/'),
    ensures
        service_of_path(p + seq!['/'] + s + seq!['/'] + m) == Some(s),
{
    lemma_split_sep_then_free(p, s, '/');
    lemma_split_sep_then_free(p.push('/') + s, m, '/');
    assert(p + seq!['/'] + s + seq!['/'] + m =~= (p.push('/') + s).push('/') + m);
    let q = split_seq(p, '/').push(s).push(m);
    assert(q[q.len() - 2] == s);
}

/// The service named in a request path, as
/// `path.split('/').rev().nth(1)` finds it.
pub fn service_from_path(path: &str) -> (r: Option<&str>)
    ensures
        opt_str_view(r) == service_of_path(path@),
{
    let pieces = split_str(path, '/');
    let n = pieces.len();
    if n >= 2 {
        let service = pieces[n - 2];
        assert(str_views(pieces@)[n - 2] == service@);
        Some(service)
    } else {
        None
    }
}

} // verus!
