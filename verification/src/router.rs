//! Header-dispatch protocol router: given parsed request metadata, produce
//! the handler registered under the operation name carried by the dispatch
//! header, or a precise protocol error.
//!
//! The checks run strictly in order — root path, then method, then header
//! presence, then header text validity, then table lookup — and the first
//! failing check determines the error; cheaper structural checks run first.
//! The route table is immutable once built; layering produces a new router.

use crate::text::string_eq;
use crate::tiny_map::{distinct_keys, pairs_map, TinyMap};
use vstd::prelude::*;

verus! {

/// HTTP request method of the parsed request metadata.
#[derive(Clone, Copy, Debug, PartialEq, Eq, Structural)]
pub enum Method {
    Get,
    Head,
    Post,
    Put,
    Delete,
    Connect,
    Options,
    Trace,
    Patch,
    Other,
}

/// One request header: its lowercase name and its raw byte value.  Header
/// values may be arbitrary bytes and are rejected, never trusted, when not
/// valid visible-ASCII text.
pub struct Header {
    pub name: String,
    pub value: Vec<u8>,
}

/// Parsed request metadata handed in by the transport: the request path,
/// the method, and the header mapping with names already lowercased, as
/// HTTP header maps canonically store them.
pub struct RequestMetadata {
    pub uri: String,
    pub method: Method,
    pub headers: Vec<Header>,
}

/// A routing error of the header-dispatch protocol.
#[derive(Clone, Copy, Debug, PartialEq, Eq, Structural)]
pub enum Error {
    /// Relative URI was not the root path.
    NotRootUrl,
    /// Method was not POST.
    MethodNotAllowed,
    /// The dispatch header is missing.
    MissingHeader,
    /// The dispatch header is present but not valid visible-ASCII text; the
    /// payload is the position of the first offending byte.
    InvalidHeader(usize),
    /// No operation is registered under the resolved name.
    NotFound,
}

/// The single fixed path on which the protocol dispatches.
pub open spec fn root_path() -> Seq<char> {
    "/"@
}

/// The name of the designated dispatch header.
pub open spec fn dispatch_header_name() -> Seq<char> {
    "x-amz-target"@
}

/// A byte a header value may carry while still being readable text: visible
/// ASCII or horizontal tab.
pub open spec fn visible_ascii(b: u8) -> bool {
    (32 <= b && b < 127) || b == 9
}

/// Every byte of the value is readable text.
pub open spec fn all_visible_ascii(bytes: Seq<u8>) -> bool {
    forall|i: int| 0 <= i < bytes.len() ==> visible_ascii(#[trigger] bytes[i])
}

/// Position of the first byte that is not readable text (the length when
/// every byte is).
pub open spec fn first_bad_index(bytes: Seq<u8>) -> int
    decreases bytes.len(),
{
    if bytes.len() == 0 {
        0
    } else if !visible_ascii(bytes.first()) {
        0
    } else {
        1 + first_bad_index(bytes.drop_first())
    }
}

/// The text a readable header value spells: each byte as the character it
/// encodes.
pub open spec fn decoded_text(bytes: Seq<u8>) -> Seq<char> {
    Seq::new(bytes.len(), |i: int| bytes[i] as char)
}

/// The value of the first header named `name`, scanning front to back.
pub open spec fn header_lookup(headers: Seq<Header>, name: Seq<char>) -> Option<Seq<u8>>
    decreases headers.len(),
{
    if headers.len() == 0 {
        None
    } else if headers.first().name@ == name {
        Some(headers.first().value@)
    } else {
        header_lookup(headers.drop_first(), name)
    }
}

/// What dispatch returns for a request against a route table: the
/// first failing check of the ordered chain — root path, method, header
/// presence, header text validity, table lookup — or the matched handler.
pub open spec fn dispatch_spec<S>(table: Map<Seq<char>, S>, req: RequestMetadata) -> Result<
    S,
    Error,
> {
    if req.uri@ != root_path() {
        Err(Error::NotRootUrl)
    } else if req.method != Method::Post {
        Err(Error::MethodNotAllowed)
    } else {
        match header_lookup(req.headers@, dispatch_header_name()) {
            None => Err(Error::MissingHeader),
            Some(bytes) => if !all_visible_ascii(bytes) {
                Err(Error::InvalidHeader(first_bad_index(bytes) as usize))
            } else if table.contains_key(decoded_text(bytes)) {
                Ok(table[decoded_text(bytes)])
            } else {
                Err(Error::NotFound)
            },
        }
    }
}

/// If the bytes below `i` are readable and byte `i` is not, `i` is the
/// first unreadable position.
proof fn lemma_first_bad_index(bytes: Seq<u8>, i: int)
    requires
        0 <= i < bytes.len(),
        !visible_ascii(bytes[i]),
        forall|j: int| 0 <= j < i ==> visible_ascii(#[trigger] bytes[j]),
    ensures
        first_bad_index(bytes) == i,
    decreases bytes.len(),
{
    if i == 0 {
    } else {
        assert(visible_ascii(bytes.first()));
        lemma_first_bad_index(bytes.drop_first(), i - 1);
    }
}

/// First header of the given name, as the transport's header map would
/// yield it.
fn find_header<'a>(headers: &'a Vec<Header>, name: &String) -> (r: Option<&'a Vec<u8>>)
    ensures
        match r {
            Some(v) => header_lookup(headers@, name@) == Some(v@),
            None => header_lookup(headers@, name@) is None,
        },
{
    let n: usize = headers.len();
    let mut i: usize = 0;
    proof {
        assert(headers@.skip(0) =~= headers@);
    }
    while i < n
        invariant
            n == headers@.len(),
            i <= n,
            header_lookup(headers@.skip(i as int), name@) == header_lookup(headers@, name@),
        decreases n - i,
    {
        if string_eq(&headers[i].name, name) {
            proof {
                assert(headers@.skip(i as int).first() == headers@[i as int]);
            }
            return Some(&headers[i].value);
        }
        proof {
            assert(headers@.skip(i as int).first() == headers@[i as int]);
            assert(headers@.skip(i as int).drop_first() =~= headers@.skip(i + 1));
        }
        i = i + 1;
    }
    proof {
        assert(headers@.skip(n as int) =~= Seq::<Header>::empty());
    }
    None
}

/// Decodes a header value into the text it spells, or reports the position
/// of the first byte that is not readable text.
pub fn header_value_text(bytes: &Vec<u8>) -> (r: Result<String, usize>)
    ensures
        match r {
            Ok(s) => all_visible_ascii(bytes@) && s@ == decoded_text(bytes@),
            Err(i) => i < bytes@.len() && !visible_ascii(bytes@[i as int]) && first_bad_index(
                bytes@,
            ) == i,
        },
{
    let n: usize = bytes.len();
    let mut s = String::new();
    let mut i: usize = 0;
    while i < n
        invariant
            n == bytes@.len(),
            i <= n,
            s@ =~= decoded_text(bytes@.subrange(0, i as int)),
            forall|j: int| 0 <= j < i ==> visible_ascii(#[trigger] bytes@[j]),
        decreases n - i,
    {
        let b: u8 = bytes[i];
        if !((b >= 32 && b < 127) || b == 9) {
            proof {
                lemma_first_bad_index(bytes@, i as int);
            }
            return Err(i);
        }
        crate::text::push_char(&mut s, b as char);
        proof {
            assert(s@ =~= decoded_text(bytes@.subrange(0, i + 1)));
        }
        i = i + 1;
    }
    proof {
        assert(bytes@.subrange(0, n as int) =~= bytes@);
        assert(s@ =~= decoded_text(bytes@));
    }
    Ok(s)
}

/// A router built from pairs with distinct operation names dispatches a
/// well-formed request bearing the name of pair `i` to that pair's handler.
pub proof fn lemma_dispatch_finds_constructed_handler<S>(
    pairs: Seq<(String, S)>,
    i: int,
    req: RequestMetadata,
)
    requires
        distinct_keys(pairs),
        0 <= i < pairs.len(),
        req.uri@ == root_path(),
        req.method == Method::Post,
        header_lookup(req.headers@, dispatch_header_name()) matches Some(bytes)
            && all_visible_ascii(bytes) && decoded_text(bytes) == pairs[i].0@,
    ensures
        dispatch_spec(pairs_map(pairs), req) == Ok::<S, Error>(pairs[i].1),
{
    crate::tiny_map::lemma_pairs_map_at(pairs, i);
}

/// A request whose path is not the root path is rejected as `NotRootUrl`,
/// whatever its method and headers and whatever the route table holds.
pub proof fn lemma_non_root_rejected<S>(table: Map<Seq<char>, S>, req: RequestMetadata)
    requires
        req.uri@ != root_path(),
    ensures
        dispatch_spec(table, req) == Err::<S, Error>(Error::NotRootUrl),
{
}

/// A root-path request with a non-POST method is rejected as
/// `MethodNotAllowed`, even when a valid dispatch header is present.
pub proof fn lemma_non_post_rejected<S>(table: Map<Seq<char>, S>, req: RequestMetadata)
    requires
        req.uri@ == root_path(),
        req.method != Method::Post,
    ensures
        dispatch_spec(table, req) == Err::<S, Error>(Error::MethodNotAllowed),
{
}

/// A root-path POST request without the dispatch header is rejected as
/// `MissingHeader`.
pub proof fn lemma_missing_header_rejected<S>(table: Map<Seq<char>, S>, req: RequestMetadata)
    requires
        req.uri@ == root_path(),
        req.method == Method::Post,
        header_lookup(req.headers@, dispatch_header_name()) is None,
    ensures
        dispatch_spec(table, req) == Err::<S, Error>(Error::MissingHeader),
{
}

/// A root-path POST request whose dispatch header holds bytes that are not
/// readable text is rejected as `InvalidHeader`, with the position of the
/// first offending byte preserved.
pub proof fn lemma_invalid_header_rejected<S>(table: Map<Seq<char>, S>, req: RequestMetadata)
    requires
        req.uri@ == root_path(),
        req.method == Method::Post,
        header_lookup(req.headers@, dispatch_header_name()) matches Some(bytes)
            && !all_visible_ascii(bytes),
    ensures
        dispatch_spec(table, req) matches Err(e) && e == Error::InvalidHeader(
            first_bad_index(header_lookup(req.headers@, dispatch_header_name())->0) as usize,
        ),
{
}

/// A root-path POST request whose dispatch header spells a name no handler
/// is registered under is rejected as `NotFound`.
pub proof fn lemma_unregistered_rejected<S>(table: Map<Seq<char>, S>, req: RequestMetadata)
    requires
        req.uri@ == root_path(),
        req.method == Method::Post,
        header_lookup(req.headers@, dispatch_header_name()) matches Some(bytes)
            && all_visible_ascii(bytes) && !table.contains_key(decoded_text(bytes)),
    ensures
        dispatch_spec(table, req) == Err::<S, Error>(Error::NotFound),
{
}

/// Layering is structure-preserving: a table related to another by a
/// uniform transformation dispatches every request to the same outcome,
/// with equal errors and with matched handlers related by the
/// transformation.
pub proof fn lemma_layer_preserves_dispatch<S, T, F: Fn(S) -> T>(
    transform: F,
    table: Map<Seq<char>, S>,
    layered: Map<Seq<char>, T>,
    req: RequestMetadata,
)
    requires
        layered.dom() == table.dom(),
        forall|k: Seq<char>|
            table.contains_key(k) ==> call_ensures(transform, (table[k],), #[trigger] layered[k]),
    ensures
        dispatch_spec(table, req) matches Err(e) ==> dispatch_spec(layered, req) == Err::<T,
            Error,
        >(e),
        dispatch_spec(table, req) matches Ok(h) ==> dispatch_spec(layered, req) matches Ok(t)
            && call_ensures(transform, (h,), t),
{
    if req.uri@ == root_path() && req.method == Method::Post {
        match header_lookup(req.headers@, dispatch_header_name()) {
            None => {},
            Some(bytes) => {
                if all_visible_ascii(bytes) {
                    let key = decoded_text(bytes);
                    assert(table.contains_key(key) == layered.contains_key(key));
                }
            },
        }
    }
}

/// A router for the header-dispatch protocol family: one immutable route
/// table from operation name to handler, shared read-only by every
/// concurrently dispatched request.
pub struct AwsJsonRouter<S> {
    routes: TinyMap<S>,
}

impl<S> View for AwsJsonRouter<S> {
    type V = Map<Seq<char>, S>;

    closed spec fn view(&self) -> Map<Seq<char>, S> {
        self.routes@
    }
}

impl<S> AwsJsonRouter<S> {
    /// Builds the router from an ordered sequence of (operation name,
    /// handler) pairs; duplicate names silently overwrite earlier entries,
    /// in construction order.
    pub fn from_iter(pairs: Vec<(String, S)>) -> (r: AwsJsonRouter<S>)
        ensures
            r@ == pairs_map(pairs@),
    {
        AwsJsonRouter { routes: TinyMap::from_pairs(pairs) }
    }

    /// Applies a transformation uniformly to every stored handler,
    /// consuming the router: the new router keeps exactly the old
    /// operation names, and each new handler is an output of the
    /// transformation on the old handler under that name.
    pub fn layer<T, F: Fn(S) -> T>(self, transform: F) -> (r: AwsJsonRouter<T>)
        requires
            forall|s: S| call_requires(transform, (s,)),
        ensures
            r@.dom() == self@.dom(),
            forall|k: Seq<char>|
                self@.contains_key(k) ==> call_ensures(transform, (self@[k],), #[trigger] r@[k]),
    {
        AwsJsonRouter { routes: self.routes.map_values(transform) }
    }

    /// The stored routes in table order: each operation name once, with the
    /// handler it maps to.
    pub fn routes(&self) -> (r: &Vec<(String, S)>)
        ensures
            distinct_keys(r@),
            pairs_map(r@) == self@,
    {
        self.routes.entries()
    }

    /// Matches a request against the route table: the checks of the
    /// dispatch chain run in order and the first failure is returned;
    /// on success the matched handler is duplicated out of the table.
    /// Pure besides that duplication: a function of the request and the
    /// immutable table.
    pub fn match_route(&self, request: &RequestMetadata) -> (r: Result<S, Error>) where S: Clone
        ensures
            match (r, dispatch_spec(self@, *request)) {
                (Ok(s), Ok(h)) => vstd::pervasive::cloned(h, s),
                (Err(e), Err(se)) => e == se,
                _ => false,
            },
    {
        if !string_eq(&request.uri, &"/".to_owned()) {
            return Err(Error::NotRootUrl);
        }
        if !(request.method == Method::Post) {
            return Err(Error::MethodNotAllowed);
        }
        let value = match find_header(&request.headers, &"x-amz-target".to_owned()) {
            None => {
                return Err(Error::MissingHeader);
            },
            Some(value) => value,
        };
        let target = match header_value_text(value) {
            Err(i) => {
                return Err(Error::InvalidHeader(i));
            },
            Ok(target) => target,
        };
        match self.routes.get(&target) {
            None => Err(Error::NotFound),
            Some(route) => Ok(route.clone()),
        }
    }
}

} // verus!
