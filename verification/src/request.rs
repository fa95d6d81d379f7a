use vstd::prelude::*;

use crate::method::{Method, MethodView};
use crate::response::{first_value, lookup, Pairs, Response, ResponseView};

verus! {

/// What a route's pattern caught of a path, as mathematical values.
pub struct CapturesView {
    /// Each named parameter with the text it matched, in the pattern's order.
    pub params: Pairs,
    /// The text that the wildcard matched, where the pattern ends in one.
    pub wildcard: Option<Seq<char>>,
}

/// What a route's pattern caught of a path: the named parameters and the wildcard.
#[derive(Debug)]
pub struct Captures {
    params: Vec<(String, String)>,
    wildcard: Option<String>,
}

/// A string that may be absent, as a mathematical value.
pub open spec fn text_of(s: Option<String>) -> Option<Seq<char>> {
    match s {
        Some(s) => Some(s@),
        None => None,
    }
}

impl View for Captures {
    type V = CapturesView;

    closed spec fn view(&self) -> CapturesView {
        CapturesView { params: self.params.deep_view(), wildcard: text_of(self.wildcard) }
    }
}

impl Captures {
    pub fn new(params: Vec<(String, String)>, wildcard: Option<String>) -> (caps: Captures)
        ensures
            caps@ == (CapturesView { params: params.deep_view(), wildcard: text_of(wildcard) }),
    {
        Captures { params, wildcard }
    }

    /// The text that the first parameter of this name matched.
    pub fn get(&self, name: &str) -> (value: Option<&str>)
        ensures
            value is Some <==> first_value(self@.params, name@) is Some,
            value matches Some(v) ==> first_value(self@.params, name@) == Some(v@),
    {
        lookup(&self.params, name)
    }

    /// The text that the wildcard matched, if the route had one.
    pub fn wildcard(&self) -> (text: Option<&str>)
        ensures
            text is Some <==> self@.wildcard is Some,
            text matches Some(w) ==> self@.wildcard == Some(w@),
    {
        match &self.wildcard {
            Some(w) => Some(w.as_str()),
            None => None,
        }
    }

    /// The parameters, in the order of the pattern.
    pub fn params(&self) -> (params: &Vec<(String, String)>)
        ensures
            params.deep_view() == self@.params,
    {
        &self.params
    }
}

/// What a [`Request`] holds, as mathematical values. `S` is the type of the
/// value that the handlers of one application hand each other.
pub struct RequestView<S> {
    pub method: MethodView,
    pub path: Seq<char>,
    pub query: Option<Seq<char>>,
    pub headers: Pairs,
    pub body: Seq<u8>,
    /// The marker that a router leaves for a router nested in it: how many
    /// characters of the path the routers so far have matched.
    pub matched: Option<nat>,
    /// What the pattern of the last route that matched caught of the path.
    pub captures: Option<CapturesView>,
    pub ext: Option<S>,
    pub res: Option<ResponseView>,
}

impl<S> RequestView<S> {
    /// A request as it arrives: nothing matched, nothing attached.
    pub open spec fn fresh(method: MethodView, path: Seq<char>) -> RequestView<S> {
        RequestView {
            method,
            path,
            query: None,
            headers: Seq::empty(),
            body: Seq::empty(),
            matched: None,
            captures: None,
            ext: None,
            res: None,
        }
    }

    /// The part of the path that no router has matched yet.
    pub open spec fn unmatched(self) -> Seq<char> {
        match self.matched {
            Some(n) => self.path.skip(n as int),
            None => self.path,
        }
    }

    /// The path, and behind it a question mark and the query where there is one.
    pub open spec fn uri(self) -> Seq<char> {
        match self.query {
            Some(query) => self.path + seq!['?'] + query,
            None => self.path,
        }
    }

    /// The text that the first captured parameter of this name matched.
    pub open spec fn param(self, name: Seq<char>) -> Option<Seq<char>> {
        match self.captures {
            Some(caps) => first_value(caps.params, name),
            None => None,
        }
    }
}

/// A request on its way through the handlers, with the response once one of
/// them has set it. A request is moved from handler to handler, never shared.
#[derive(Debug)]
pub struct Request<S> {
    method: Method,
    path: String,
    query: Option<String>,
    headers: Vec<(String, String)>,
    body: Vec<u8>,
    matched: Option<usize>,
    captures: Option<Captures>,
    ext: Option<S>,
    res: Option<Response>,
}

impl<S> View for Request<S> {
    type V = RequestView<S>;

    closed spec fn view(&self) -> RequestView<S> {
        RequestView {
            method: self.method@,
            path: self.path@,
            query: text_of(self.query),
            headers: self.headers.deep_view(),
            body: self.body@,
            matched: match self.matched {
                Some(n) => Some(n as nat),
                None => None,
            },
            captures: match self.captures {
                Some(caps) => Some(caps@),
                None => None,
            },
            ext: self.ext,
            res: match self.res {
                Some(res) => Some(res@),
                None => None,
            },
        }
    }
}

impl<S> Request<S> {
    #[verifier::type_invariant]
    spec fn marker_in_path(self) -> bool {
        self.matched matches Some(n) ==> n <= self.path@.len()
    }

    /// A request for `path` as it arrives: no query, headers or body, nothing
    /// matched and no response.
    pub fn new(method: Method, path: &str) -> (req: Request<S>)
        ensures
            req@ == RequestView::<S>::fresh(method@, path@),
    {
        let req = Request {
            method,
            path: path.to_owned(),
            query: None,
            headers: Vec::new(),
            body: Vec::new(),
            matched: None,
            captures: None,
            ext: None,
            res: None,
        };
        assert(req.headers.deep_view() =~= Seq::empty());
        req
    }

    pub fn with_query(self, query: String) -> (req: Request<S>)
        ensures
            req@ == (RequestView { query: Some(query@), ..self@ }),
    {
        proof {
            use_type_invariant(&self);
        }
        let mut req = self;
        req.query = Some(query);
        req
    }

    pub fn with_header(self, name: String, value: String) -> (req: Request<S>)
        ensures
            req@ == (RequestView { headers: self@.headers.push((name@, value@)), ..self@ }),
    {
        proof {
            use_type_invariant(&self);
        }
        let Request { method, path, query, headers, body, matched, captures, ext, res } = self;
        let mut headers = headers;
        headers.push((name, value));
        assert(headers.deep_view() =~= self.headers.deep_view().push((name@, value@)));
        Request { method, path, query, headers, body, matched, captures, ext, res }
    }

    pub fn with_body(self, body: Vec<u8>) -> (req: Request<S>)
        ensures
            req@ == (RequestView { body: body@, ..self@ }),
    {
        proof {
            use_type_invariant(&self);
        }
        let mut req = self;
        req.body = body;
        req
    }

    pub fn method(&self) -> (method: &Method)
        ensures
            method@ == self@.method,
    {
        &self.method
    }

    pub fn path(&self) -> (path: &str)
        ensures
            path@ == self@.path,
    {
        self.path.as_str()
    }

    /// The path with the query behind it, as the request named them.
    pub fn uri(&self) -> (uri: String)
        ensures
            uri@ == self@.uri(),
    {
        let mut uri = self.path.clone();
        match &self.query {
            Some(query) => {
                proof {
                    reveal_strlit("?");
                    assert("?"@ =~= seq!['?']);
                }
                uri.append("?");
                uri.append(query.as_str());
            },
            None => {},
        }
        uri
    }

    pub fn query(&self) -> (query: Option<&str>)
        ensures
            query is Some <==> self@.query is Some,
            query matches Some(q) ==> self@.query == Some(q@),
    {
        match &self.query {
            Some(q) => Some(q.as_str()),
            None => None,
        }
    }

    /// The headers, in the order in which they arrived.
    pub fn headers(&self) -> (headers: &Vec<(String, String)>)
        ensures
            headers.deep_view() == self@.headers,
    {
        &self.headers
    }

    /// The value of the first header of a given name. Names are compared as
    /// they are written.
    pub fn header(&self, name: &str) -> (value: Option<&str>)
        ensures
            value is Some <==> first_value(self@.headers, name@) is Some,
            value matches Some(v) ==> first_value(self@.headers, name@) == Some(v@),
    {
        lookup(&self.headers, name)
    }

    pub fn body(&self) -> (body: &Vec<u8>)
        ensures
            body@ == self@.body,
    {
        &self.body
    }

    /// Takes the body out and leaves an empty one.
    pub fn body_bytes(&mut self) -> (body: Vec<u8>)
        ensures
            body@ == old(self)@.body,
            final(self)@ == (RequestView { body: Seq::empty(), ..old(self)@ }),
    {
        proof {
            use_type_invariant(&*self);
        }
        let mut body = Vec::new();
        std::mem::swap(&mut self.body, &mut body);
        body
    }

    /// The value that the handlers hand each other, if one is set.
    pub fn ext(&self) -> (value: Option<&S>)
        ensures
            value is Some <==> self@.ext is Some,
            value matches Some(v) ==> self@.ext == Some(*v),
    {
        self.ext.as_ref()
    }

    /// Sets the value that the handlers hand each other and returns the one
    /// that was there: the last write wins.
    pub fn set_ext(&mut self, val: S) -> (previous: Option<S>)
        ensures
            previous == old(self)@.ext,
            final(self)@ == (RequestView { ext: Some(val), ..old(self)@ }),
    {
        proof {
            use_type_invariant(&*self);
        }
        let mut slot = Some(val);
        std::mem::swap(&mut self.ext, &mut slot);
        slot
    }

    /// Removes the value that the handlers hand each other and returns it.
    pub fn take_ext(&mut self) -> (taken: Option<S>)
        ensures
            taken == old(self)@.ext,
            final(self)@ == (RequestView { ext: None, ..old(self)@ }),
    {
        proof {
            use_type_invariant(&*self);
        }
        let mut slot = None;
        std::mem::swap(&mut self.ext, &mut slot);
        slot
    }

    /// The response, once a handler has set one.
    pub fn res(&self) -> (res: Option<&Response>)
        ensures
            res is Some <==> self@.res is Some,
            res matches Some(r) ==> self@.res == Some(r@),
    {
        self.res.as_ref()
    }

    /// Sets the response; one that was there is replaced whole.
    pub fn set_res(&mut self, res: Response)
        ensures
            final(self)@ == (RequestView { res: Some(res@), ..old(self)@ }),
    {
        proof {
            use_type_invariant(&*self);
        }
        self.res = Some(res);
    }

    /// Removes the response and returns it.
    pub fn take_res(&mut self) -> (taken: Option<Response>)
        ensures
            taken is Some <==> old(self)@.res is Some,
            taken matches Some(r) ==> old(self)@.res == Some(r@),
            final(self)@ == (RequestView { res: None, ..old(self)@ }),
    {
        proof {
            use_type_invariant(&*self);
        }
        let mut slot = None;
        std::mem::swap(&mut self.res, &mut slot);
        slot
    }

    /// What the last router that matched caught of the path.
    pub fn captures(&self) -> (caps: Option<&Captures>)
        ensures
            caps is Some <==> self@.captures is Some,
            caps matches Some(c) ==> self@.captures == Some(c@),
    {
        self.captures.as_ref()
    }

    /// How many characters of the path the routers so far have matched, while
    /// the request is between a router and the handler it chose. The path of
    /// a URI is ASCII, so for a path as it comes from the network this is the
    /// number of bytes as well.
    pub fn matched(&self) -> (n: Option<usize>)
        ensures
            n is Some <==> self@.matched is Some,
            n matches Some(k) ==> self@.matched == Some(k as nat) && k <= self@.path.len(),
    {
        proof {
            use_type_invariant(self);
        }
        self.matched
    }

    /// Removes the marker and returns it.
    pub(crate) fn take_matched(&mut self) -> (n: Option<usize>)
        ensures
            n is Some <==> old(self)@.matched is Some,
            n matches Some(k) ==> old(self)@.matched == Some(k as nat) && k <= old(self)@.path.len(),
            final(self)@ == (RequestView { matched: None, ..old(self)@ }),
    {
        proof {
            use_type_invariant(&*self);
        }
        let n = self.matched;
        self.matched = None;
        n
    }

    /// Records a match: where the unmatched rest of the path begins, and what
    /// the pattern caught.
    pub(crate) fn set_route(&mut self, start: usize, captures: Captures)
        requires
            start <= old(self)@.path.len(),
        ensures
            final(self)@ == (RequestView {
                matched: Some(start as nat),
                captures: Some(captures@),
                ..old(self)@
            }),
    {
        proof {
            use_type_invariant(&*self);
        }
        self.matched = Some(start);
        self.captures = Some(captures);
    }
}

} // verus!
