//! The client middleware that names the called service and the calling
//! service in the headers of an outgoing request.

use vstd::prelude::*;

use poem::http::HeaderMap;
use vstd::utf8::encode_utf8;

use crate::header::{
    header_map_contents, header_map_insert, header_map_name_limit, header_value_from_str,
    static_header_name, valid_header_text, valid_header_value,
};
use crate::middlewares::{lemma_service_of_path_inner, service_from_path, service_of_path};
use crate::text::opt_str_view;

verus! {

/// The views of a list of (header name, header value) pairs.
pub open spec fn header_pairs_view(pairs: Seq<(&str, &str)>) -> Seq<(Seq<char>, Seq<char>)> {
    pairs.map_values(|p: (&str, &str)| (p.0@, p.1@))
}

/// The headers that a call adds, in order: `x-micro-service` with the
/// service named in the path, and `x-micro-from-service` with the name of
/// the current service, each only where it is present and may stand in a
/// header value.
pub open spec fn client_header_list(path: Seq<char>, current_service: Option<Seq<char>>) -> Seq<
    (Seq<char>, Seq<char>),
> {
    let to = match valid_header_text(service_of_path(path)) {
        Some(s) => seq![("x-micro-service"@, s)],
        None => Seq::empty(),
    };
    let from = match valid_header_text(current_service) {
        Some(s) => seq![("x-micro-from-service"@, s)],
        None => Seq::empty(),
    };
    to + from
}

/// What a call adds, whatever the current service is: `x-micro-service`
/// first, with the service named in the path, exactly when that service
/// may stand in a header value; `x-micro-from-service` last, with the
/// current service, exactly when there is one that may stand in a header
/// value; and nothing else.
pub proof fn lemma_client_header_list_entries(path: Seq<char>, current_service: Option<Seq<char>>)
    ensures
        ({
            let list = client_header_list(path, current_service);
            let to = valid_header_text(service_of_path(path));
            let from = valid_header_text(current_service);
            &&& list.len() == (if to is Some {
                1int
            } else {
                0int
            }) + (if from is Some {
                1int
            } else {
                0int
            })
            &&& to matches Some(s) ==> list[0] == ("x-micro-service"@, s)
            &&& to is None ==> forall|i: int|
                0 <= i < list.len() ==> (#[trigger] list[i]).0 != "x-micro-service"@
            &&& from matches Some(t) ==> list[list.len() - 1] == ("x-micro-from-service"@, t)
            &&& from is None ==> forall|i: int|
                0 <= i < list.len() ==> (#[trigger] list[i]).0 != "x-micro-from-service"@
        }),
{
    lemma_client_header_names();
}

/// A request for `p/s/m` (with no `'/'` in `s` or `m`) gets
/// `x-micro-service` set to all of `s` where `s` may stand in a header
/// value, whether or not the calling service is known.
pub proof fn lemma_service_header_for_path(
    p: Seq<char>,
    s: Seq<char>,
    m: Seq<char>,
    current_service: Option<Seq<char>>,
)
    requires
        !s.contains('/'),
        !m.contains('/'),
        valid_header_value(s),
    ensures
        client_header_list(p + seq!['/'] + s + seq!['/'] + m, current_service)[0] == (
            "x-micro-service"@,
            s,
        ),
{
    lemma_service_of_path_inner(p, s, m);
    lemma_client_header_list_entries(p + seq!['/'] + s + seq!['/'] + m, current_service);
}

/// A header map's contents after inserting each (name, text) pair in turn,
/// each insertion replacing all values under its name by the text's bytes.
pub open spec fn insert_header_texts(
    headers: Map<Seq<char>, Seq<Seq<u8>>>,
    pairs: Seq<(Seq<char>, Seq<char>)>,
) -> Map<Seq<char>, Seq<Seq<u8>>>
    decreases pairs.len(),
{
    if pairs.len() == 0 {
        headers
    } else {
        insert_header_texts(
            headers.insert(pairs[0].0, seq![encode_utf8(pairs[0].1)]),
            pairs.drop_first(),
        )
    }
}

/// The header map's contents after a call of the middleware on a request
/// for `path` from the service `current_service`.
pub open spec fn with_client_headers(
    headers: Map<Seq<char>, Seq<Seq<u8>>>,
    path: Seq<char>,
    current_service: Option<Seq<char>>,
) -> Map<Seq<char>, Seq<Seq<u8>>> {
    insert_header_texts(headers, client_header_list(path, current_service))
}

/// After a call, `x-micro-service` holds just the bytes of the service the
/// path names (where it may be a header value) and `x-micro-from-service`
/// just those of the current service (likewise); where there is no such
/// value the header keeps what it had, and every other header is kept.
pub proof fn lemma_with_client_headers_contents(
    headers: Map<Seq<char>, Seq<Seq<u8>>>,
    path: Seq<char>,
    current_service: Option<Seq<char>>,
)
    ensures
        ({
            let after = with_client_headers(headers, path, current_service);
            let to_name = "x-micro-service"@;
            let from_name = "x-micro-from-service"@;
            &&& valid_header_text(service_of_path(path)) matches Some(s) ==> after.contains_key(
                to_name,
            ) && after[to_name] == seq![encode_utf8(s)]
            &&& valid_header_text(current_service) matches Some(t) ==> after.contains_key(
                from_name,
            ) && after[from_name] == seq![encode_utf8(t)]
            &&& valid_header_text(service_of_path(path)) is None ==> (after.contains_key(to_name)
                == headers.contains_key(to_name) && (headers.contains_key(to_name) ==> after[to_name]
                == headers[to_name]))
            &&& valid_header_text(current_service) is None ==> (after.contains_key(from_name)
                == headers.contains_key(from_name) && (headers.contains_key(from_name)
                ==> after[from_name] == headers[from_name]))
            &&& forall|n: Seq<char>|
                n != to_name && n != from_name ==> (#[trigger] after.contains_key(n)
                    == headers.contains_key(n) && (headers.contains_key(n) ==> after[n]
                    == headers[n]))
        }),
{
    lemma_client_header_names();
    let pairs = client_header_list(path, current_service);
    reveal_with_fuel(insert_header_texts, 3);
    if pairs.len() == 2 {
        assert(pairs.drop_first().drop_first() =~= Seq::<(Seq<char>, Seq<char>)>::empty());
    } else if pairs.len() == 1 {
        assert(pairs.drop_first() =~= Seq::<(Seq<char>, Seq<char>)>::empty());
    }
}

/// The two header names that the middleware sets are names that a header
/// map takes as they are.
proof fn lemma_client_header_names()
    ensures
        static_header_name("x-micro-service"@),
        static_header_name("x-micro-from-service"@),
        "x-micro-service"@ != "x-micro-from-service"@,
{
    reveal_strlit("x-micro-service");
    reveal_strlit("x-micro-from-service");
    assert("x-micro-service"@.len() != "x-micro-from-service"@.len());
}

/// Calling the middleware twice, as when it wraps itself, leaves a request's
/// headers as one call does: the path and the current service, from which
/// the headers come, are not changed by it, and each insertion replaces what
/// an earlier one under the same name put there.
pub proof fn lemma_client_headers_idempotent(
    headers: Map<Seq<char>, Seq<Seq<u8>>>,
    path: Seq<char>,
    current_service: Option<Seq<char>>,
)
    ensures
        with_client_headers(with_client_headers(headers, path, current_service), path, current_service)
            == with_client_headers(headers, path, current_service),
{
    lemma_client_header_names();
    let pairs = client_header_list(path, current_service);
    reveal_with_fuel(insert_header_texts, 3);
    assert(pairs.len() <= 2);
    if pairs.len() == 2 {
        assert(pairs.drop_first().drop_first() =~= Seq::<(Seq<char>, Seq<char>)>::empty());
        assert(pairs[0].0 != pairs[1].0);
    } else if pairs.len() == 1 {
        assert(pairs.drop_first() =~= Seq::<(Seq<char>, Seq<char>)>::empty());
    }
    assert(with_client_headers(with_client_headers(headers, path, current_service), path, current_service)
        =~= with_client_headers(headers, path, current_service));
}

/// Middleware that adds the service headers to outgoing requests.
pub struct AddClientHeaders;

/// An endpoint wrapped by [`AddClientHeaders`].
pub struct AddClientHeadersEndpoint<E> {
    inner: E,
}

impl AddClientHeaders {
    /// Wraps `ep`.
    pub fn transform<E>(&self, ep: E) -> (r: AddClientHeadersEndpoint<E>)
        ensures
            r.wrapped() == ep,
    {
        AddClientHeadersEndpoint { inner: ep }
    }
}

impl<E> AddClientHeadersEndpoint<E> {
    /// The endpoint that is wrapped.
    pub closed spec fn wrapped(&self) -> E {
        self.inner
    }

    /// The endpoint that is wrapped.
    pub fn inner(&self) -> (ep: &E)
        ensures
            *ep == self.wrapped(),
    {
        &self.inner
    }

    /// The headers to insert into a request for `path`, made by the service
    /// named `current_service` where that is known.
    pub fn client_headers<'a>(&self, path: &'a str, current_service: Option<&'a str>) -> (r: Vec<
        (&'static str, &'a str),
    >)
        ensures
            header_pairs_view(r@) == client_header_list(path@, opt_str_view(current_service)),
    {
        let mut headers: Vec<(&'static str, &'a str)> = Vec::new();
        if let Some(service) = service_from_path(path) {
            if header_value_from_str(service).is_some() {
                headers.push(("x-micro-service", service));
            }
        }
        let ghost first = header_pairs_view(headers@);
        assert(first =~= match valid_header_text(service_of_path(path@)) {
            Some(s) => seq![("x-micro-service"@, s)],
            None => Seq::<(Seq<char>, Seq<char>)>::empty(),
        });
        if let Some(name) = current_service {
            if header_value_from_str(name).is_some() {
                headers.push(("x-micro-from-service", name));
            }
        }
        assert(header_pairs_view(headers@) =~= client_header_list(
            path@,
            opt_str_view(current_service),
        ));
        headers
    }

    /// Inserts into `headers` the headers for a request for `path` made by
    /// the service `current_service`, each replacing what was under its name.
    pub fn insert_client_headers(
        &self,
        headers: &mut HeaderMap,
        path: &str,
        current_service: Option<&str>,
    )
        requires
            header_map_contents(*old(headers)).dom().finite(),
            header_map_contents(*old(headers)).dom().len() + 2 <= header_map_name_limit(),
        ensures
            header_map_contents(*final(headers)) == with_client_headers(
                header_map_contents(*old(headers)),
                path@,
                opt_str_view(current_service),
            ),
    {
        let pairs = self.client_headers(path, current_service);
        let ghost list = header_pairs_view(pairs@);
        let ghost target = with_client_headers(
            header_map_contents(*old(headers)),
            path@,
            opt_str_view(current_service),
        );
        proof {
            lemma_client_header_names();
            assert(list.skip(0) =~= list);
        }
        let n = pairs.len();
        let mut i: usize = 0;
        while i < n
            invariant
                n == pairs@.len(),
                i <= n,
                n <= 2,
                list == header_pairs_view(pairs@),
                list == client_header_list(path@, opt_str_view(current_service)),
                forall|j: int|
                    0 <= j < list.len() ==> (#[trigger] list[j]).0 == "x-micro-service"@ || list[j].0
                        == "x-micro-from-service"@,
                forall|j: int| 0 <= j < list.len() ==> valid_header_text(Some(#[trigger] list[j].1)) == Some(list[j].1),
                static_header_name("x-micro-service"@),
                static_header_name("x-micro-from-service"@),
                header_map_contents(*headers).dom().finite(),
                header_map_contents(*headers).dom().len() + (n - i) <= header_map_name_limit(),
                insert_header_texts(header_map_contents(*headers), list.skip(i as int)) == target,
            decreases n - i,
        {
            let (name, value) = pairs[i];
            assert(list[i as int] == (name@, value@));
            let ghost before = header_map_contents(*headers);
            match header_value_from_str(value) {
                Some(v) => {
                    header_map_insert(headers, name, v);
                },
                None => {},
            }
            assert(list.skip(i as int).drop_first() =~= list.skip(i + 1));
            assert(list.skip(i as int)[0] == list[i as int]);
            i = i + 1;
        }
    }
}

} // verus!
