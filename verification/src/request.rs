//! The request as the filters see it: method, path segments, query string,
//! headers and body. A request does not change while it is dispatched.

use vstd::prelude::*;
use crate::text::{chars_of, eq_ignore_case, same_ignoring_case, same_text};

verus! {

/// The HTTP method of a request.
#[derive(Debug, Clone, Copy, PartialEq, Eq, Structural)]
pub enum Method {
    Get,
    Post,
    Put,
    Delete,
    Head,
    Options,
    Patch,
    Other,
}

/// One request.
#[derive(Debug)]
pub struct Request {
    pub method: Method,
    /// The segments of the path, in order.
    pub path: Vec<String>,
    /// The query string, without the question mark, if there is one.
    pub query: Option<String>,
    /// The headers, each a name and a value. Names match whatever their case.
    pub headers: Vec<(String, String)>,
    pub body: Vec<u8>,
}

/// The mathematical value of a [`Request`].
pub struct RequestView {
    pub method: Method,
    pub path: Seq<Seq<char>>,
    pub query: Option<Seq<char>>,
    pub headers: Seq<(Seq<char>, Seq<char>)>,
    pub body: Seq<u8>,
}

impl View for Request {
    type V = RequestView;

    open spec fn view(&self) -> RequestView {
        RequestView {
            method: self.method,
            path: self.path.deep_view(),
            query: self.query.deep_view(),
            headers: self.headers.deep_view(),
            body: self.body@,
        }
    }
}

/// The value of the first header with this name, whatever the case of its
/// letters.
pub open spec fn header_value(headers: Seq<(Seq<char>, Seq<char>)>, name: Seq<char>) -> Option<
    Seq<char>,
>
    decreases headers.len(),
{
    if headers.len() == 0 {
        None
    } else if same_ignoring_case(headers[0].0, name) {
        Some(headers[0].1)
    } else {
        header_value(headers.drop_first(), name)
    }
}

/// The pieces of `s` between its slashes. There is always one piece more
/// than there are slashes.
pub open spec fn pieces(s: Seq<char>) -> Seq<Seq<char>>
    decreases s.len(),
{
    if s.len() == 0 {
        seq![Seq::<char>::empty()]
    } else {
        let before = pieces(s.drop_last());
        if s.last() == '/' {
            before.push(Seq::<char>::empty())
        } else {
            before.drop_last().push(before.last().push(s.last()))
        }
    }
}

/// The segments of a path: its pieces after one leading slash, without an
/// empty last piece. So `/a/b` and `/a/b/` have the segments `a` and `b`,
/// `/` has none, and `/a//b` has an empty segment in the middle.
pub open spec fn segments_of(path: Seq<char>) -> Seq<Seq<char>> {
    let inner = if path.len() > 0 && path[0] == '/' {
        path.subrange(1, path.len() as int)
    } else {
        path
    };
    let all = pieces(inner);
    if all.last().len() == 0 {
        all.drop_last()
    } else {
        all
    }
}

/// Whether a text holds no slash.
pub open spec fn slash_free(s: Seq<char>) -> bool {
    forall|k: int| 0 <= k < s.len() ==> s[k] != '/'
}

/// There is at least one piece, and no piece holds a slash.
pub proof fn lemma_pieces(s: Seq<char>)
    ensures
        pieces(s).len() >= 1,
        forall|i: int| 0 <= i < pieces(s).len() ==> slash_free(#[trigger] pieces(s)[i]),
    decreases s.len(),
{
    if s.len() > 0 {
        lemma_pieces(s.drop_last());
        let before = pieces(s.drop_last());
        assert forall|i: int| 0 <= i < pieces(s).len() implies slash_free(
            #[trigger] pieces(s)[i],
        ) by {
            if i < before.len() - 1 {
                assert(pieces(s)[i] == before[i]);
            } else if s.last() != '/' {
                assert(slash_free(before[before.len() - 1]));
            }
        }
    }
}

/// No segment of a path holds a slash, so a route can tell the segments
/// apart whatever they hold.
pub proof fn lemma_segments(path: Seq<char>)
    ensures
        forall|i: int|
            0 <= i < segments_of(path).len() ==> slash_free(#[trigger] segments_of(path)[i]),
{
    let inner = if path.len() > 0 && path[0] == '/' {
        path.subrange(1, path.len() as int)
    } else {
        path
    };
    lemma_pieces(inner);
    let all = pieces(inner);
    assert forall|i: int| 0 <= i < segments_of(path).len() implies slash_free(
        #[trigger] segments_of(path)[i],
    ) by {
        assert(segments_of(path)[i] == all[i]);
    }
}

/// Splits a path into its segments.
pub fn split_path(path: &str) -> (out: Vec<String>)
    ensures
        out.deep_view() == segments_of(path@),
{
    let cs = chars_of(path);
    let n = cs.len();
    let start: usize = if n > 0 && cs[0] == '/' { 1 } else { 0 };
    let ghost inner = cs@.subrange(start as int, n as int);
    assert(start == 0 ==> inner =~= cs@);
    let mut out: Vec<String> = Vec::new();
    let mut cur = String::new();
    let mut i: usize = start;
    assert(inner.take(0) =~= Seq::<char>::empty());
    assert(out.deep_view().push(cur@) =~= pieces(inner.take(0)));
    while i < n
        invariant
            start <= i <= n,
            n == cs.len(),
            inner == cs@.subrange(start as int, n as int),
            out.deep_view().push(cur@) == pieces(inner.take(i - start)),
        decreases n - i,
    {
        let c = cs[i];
        let ghost seen = inner.take(i - start);
        let ghost next = inner.take(i - start + 1);
        assert(next.drop_last() =~= seen);
        assert(next.last() == c);
        let ghost before = out.deep_view().push(cur@);
        assert(before.last() == cur@);
        assert(before.drop_last() =~= out.deep_view());
        if c == '/' {
            let ghost done = cur@;
            out.push(cur);
            cur = String::new();
            assert(out.deep_view() =~= before);
            assert(out.deep_view().push(cur@) =~= pieces(next));
        } else {
            cur.push(c);
            assert(out.deep_view().push(cur@) =~= pieces(next));
        }
        i += 1;
    }
    assert(inner.take(n - start) =~= inner);
    let ghost all = out.deep_view().push(cur@);
    assert(all.last() == cur@);
    assert(all.drop_last() =~= out.deep_view());
    if cur.as_str().is_empty() {
        out
    } else {
        out.push(cur);
        assert(out.deep_view() =~= all);
        out
    }
}

impl Request {
    /// The value of the first header called `name`, whatever the case of its
    /// letters.
    pub fn header(&self, name: &str) -> (r: Option<&String>)
        ensures
            r.deep_view() == header_value(self@.headers, name@),
    {
        let mut i: usize = 0;
        let ghost all = self@.headers;
        assert(all.skip(0) =~= all);
        while i < self.headers.len()
            invariant
                i <= self.headers.len(),
                all == self@.headers,
                all.len() == self.headers.len(),
                header_value(all, name@) == header_value(all.skip(i as int), name@),
            decreases self.headers.len() - i,
        {
            let ghost rest = all.skip(i as int);
            assert(rest[0] == all[i as int]);
            assert(all[i as int] == self.headers[i as int].deep_view());
            assert(rest.drop_first() =~= all.skip(i + 1));
            if eq_ignore_case(self.headers[i].0.as_str(), name) {
                return Some(&self.headers[i].1);
            }
            i += 1;
        }
        assert(all.skip(i as int).len() == 0);
        None
    }
}

/// The method that a name stands for. Names are in upper case.
pub open spec fn method_named(name: Seq<char>) -> Method {
    if name == "GET"@ {
        Method::Get
    } else if name == "POST"@ {
        Method::Post
    } else if name == "PUT"@ {
        Method::Put
    } else if name == "DELETE"@ {
        Method::Delete
    } else if name == "HEAD"@ {
        Method::Head
    } else if name == "OPTIONS"@ {
        Method::Options
    } else if name == "PATCH"@ {
        Method::Patch
    } else {
        Method::Other
    }
}

impl Method {
    /// The method with this name; `Other` for a name that is not known.
    pub fn from_name(name: &str) -> (m: Method)
        ensures
            m == method_named(name@),
    {
        if same_text(name, "GET") {
            Method::Get
        } else if same_text(name, "POST") {
            Method::Post
        } else if same_text(name, "PUT") {
            Method::Put
        } else if same_text(name, "DELETE") {
            Method::Delete
        } else if same_text(name, "HEAD") {
            Method::Head
        } else if same_text(name, "OPTIONS") {
            Method::Options
        } else if same_text(name, "PATCH") {
            Method::Patch
        } else {
            Method::Other
        }
    }
}

/// The index of the first question mark of `s`; the length where it has
/// none.
pub open spec fn query_start(s: Seq<char>) -> int
    decreases s.len(),
{
    if s.len() == 0 {
        0
    } else if s[0] == '?' {
        0
    } else {
        1 + query_start(s.drop_first())
    }
}

/// The path of a request target: what stands before its first question
/// mark.
pub open spec fn target_path(target: Seq<char>) -> Seq<char> {
    target.take(query_start(target))
}

/// The query string of a request target: what stands after its first
/// question mark, if it has one.
pub open spec fn target_query(target: Seq<char>) -> Option<Seq<char>> {
    if query_start(target) < target.len() {
        Some(target.skip(query_start(target) + 1))
    } else {
        None
    }
}

/// `query_start` is the least index that holds a question mark.
pub proof fn lemma_query_start(s: Seq<char>)
    ensures
        0 <= query_start(s) <= s.len(),
        forall|k: int| 0 <= k < query_start(s) ==> #[trigger] s[k] != '?',
        query_start(s) < s.len() ==> s[query_start(s)] == '?',
    decreases s.len(),
{
    if s.len() > 0 && s[0] != '?' {
        let rest = s.drop_first();
        lemma_query_start(rest);
        assert forall|k: int| 0 <= k < query_start(s) implies #[trigger] s[k] != '?' by {
            if k > 0 {
                assert(s[k] == rest[k - 1]);
            }
        }
    }
}

proof fn lemma_query_start_is(s: Seq<char>, i: int)
    requires
        0 <= i <= s.len(),
        forall|k: int| 0 <= k < i ==> #[trigger] s[k] != '?',
        i < s.len() ==> s[i] == '?',
    ensures
        query_start(s) == i,
{
    lemma_query_start(s);
    let p = query_start(s);
    if p < i {
        assert(s[p] != '?');
    } else if i < p {
        assert(s[i] != '?');
    }
}

fn string_of(cs: &Vec<char>, from: usize, to: usize) -> (out: String)
    requires
        from <= to <= cs.len(),
    ensures
        out@ == cs@.subrange(from as int, to as int),
{
    let mut out = String::new();
    let mut i: usize = from;
    while i < to
        invariant
            from <= i <= to <= cs.len(),
            out@ == cs@.subrange(from as int, i as int),
        decreases to - i,
    {
        out.push(cs[i]);
        assert(out@ =~= cs@.subrange(from as int, i + 1));
        i += 1;
    }
    out
}

impl Request {
    /// A request for `target`, which is a path and may hold a query string
    /// after a question mark. It has no headers and an empty body.
    pub fn new(method: Method, target: &str) -> (r: Request)
        ensures
            r@ == (RequestView {
                method,
                path: segments_of(target_path(target@)),
                query: target_query(target@),
                headers: Seq::empty(),
                body: Seq::empty(),
            }),
    {
        let cs = chars_of(target);
        let mut i: usize = 0;
        while i < cs.len() && cs[i] != '?'
            invariant
                i <= cs.len(),
                forall|k: int| 0 <= k < i ==> #[trigger] cs@[k] != '?',
            decreases cs.len() - i,
        {
            i += 1;
        }
        proof {
            lemma_query_start_is(cs@, i as int);
        }
        let path_text = string_of(&cs, 0, i);
        let path = split_path(path_text.as_str());
        let query = if i < cs.len() {
            Some(string_of(&cs, i + 1, cs.len()))
        } else {
            None
        };
        let headers: Vec<(String, String)> = Vec::new();
        let body: Vec<u8> = Vec::new();
        let r = Request { method, path, query, headers, body };
        assert(r@.headers =~= Seq::empty());
        assert(r@.body =~= Seq::empty());
        r
    }

    /// This request with one more header, after those it has.
    pub fn with_header(self, name: &str, value: &str) -> (r: Request)
        ensures
            r@ == (RequestView { headers: self@.headers.push((name@, value@)), ..self@ }),
    {
        let mut headers = self.headers;
        headers.push((name.to_owned(), value.to_owned()));
        let r = Request {
            method: self.method,
            path: self.path,
            query: self.query,
            headers,
            body: self.body,
        };
        assert(r@.headers =~= self@.headers.push((name@, value@)));
        r
    }

    /// This request with `body` as its body.
    pub fn with_body(self, body: Vec<u8>) -> (r: Request)
        ensures
            r@ == (RequestView { body: body@, ..self@ }),
    {
        Request {
            method: self.method,
            path: self.path,
            query: self.query,
            headers: self.headers,
            body,
        }
    }
}

} // verus!
