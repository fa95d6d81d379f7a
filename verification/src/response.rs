use vstd::prelude::*;

verus! {

/// An HTTP status code: a number from 100 to 999.
#[derive(Clone, Copy, Debug, PartialEq, Eq, Structural)]
pub struct StatusCode {
    code: u16,
}

impl StatusCode {
    #[verifier::type_invariant]
    spec fn in_range(self) -> bool {
        100 <= self.code <= 999
    }

    /// The number of this status.
    pub closed spec fn number(self) -> u16 {
        self.code
    }

    /// The status with a given number, where there is one.
    pub fn from_u16(code: u16) -> (status: Option<StatusCode>)
        ensures
            status is Some <==> 100 <= code <= 999,
            status matches Some(s) ==> s.number() == code,
    {
        if 100 <= code && code <= 999 {
            Some(StatusCode { code })
        } else {
            None
        }
    }

    pub fn as_u16(&self) -> (code: u16)
        ensures
            code == self.number(),
            100 <= code <= 999,
    {
        proof {
            use_type_invariant(self);
        }
        self.code
    }

    /// 200 OK
    pub fn ok() -> (status: StatusCode)
        ensures
            status.number() == 200,
    {
        StatusCode { code: 200 }
    }

    /// 206 Partial Content
    pub fn partial_content() -> (status: StatusCode)
        ensures
            status.number() == 206,
    {
        StatusCode { code: 206 }
    }

    /// 404 Not Found
    pub fn not_found() -> (status: StatusCode)
        ensures
            status.number() == 404,
    {
        StatusCode { code: 404 }
    }

    /// 500 Internal Server Error
    pub fn internal_server_error() -> (status: StatusCode)
        ensures
            status.number() == 500,
    {
        StatusCode { code: 500 }
    }

    /// Whether the status is one of 400 to 499.
    pub fn is_client_error(&self) -> (b: bool)
        ensures
            b == (400 <= self.number() <= 499),
    {
        400 <= self.code && self.code <= 499
    }

    /// Whether the status is one of 500 to 599.
    pub fn is_server_error(&self) -> (b: bool)
        ensures
            b == (500 <= self.number() <= 599),
    {
        500 <= self.code && self.code <= 599
    }
}

/// A list of names with their values as mathematical values, in order: the
/// headers of a request or a response, or the parameters of a route.
pub type Pairs = Seq<(Seq<char>, Seq<char>)>;

/// The value of the first pair of a list with a given name.
pub open spec fn first_value(pairs: Pairs, name: Seq<char>) -> Option<Seq<char>>
    decreases pairs.len(),
{
    if pairs.len() == 0 {
        None
    } else if pairs[0].0 == name {
        Some(pairs[0].1)
    } else {
        first_value(pairs.skip(1), name)
    }
}

/// Looks a name up in a list of pairs: the value of the first pair with that name.
pub fn lookup<'a>(pairs: &'a Vec<(String, String)>, name: &str) -> (value: Option<&'a str>)
    ensures
        value is Some <==> first_value(pairs.deep_view(), name@) is Some,
        value matches Some(v) ==> first_value(pairs.deep_view(), name@) == Some(v@),
{
    let wanted = name.to_owned();
    let mut i: usize = 0;
    assert(pairs.deep_view().skip(0) =~= pairs.deep_view());
    while i < pairs.len()
        invariant
            i <= pairs.len(),
            wanted@ == name@,
            first_value(pairs.deep_view(), name@) == first_value(pairs.deep_view().skip(i as int), name@),
        decreases pairs.len() - i,
    {
        proof {
            assert(pairs.deep_view().skip(i as int)[0] == pairs.deep_view()[i as int]);
            assert(pairs.deep_view().skip(i as int).skip(1) =~= pairs.deep_view().skip(i + 1));
            assert(pairs.deep_view()[i as int] == (pairs[i as int].0@, pairs[i as int].1@));
        }
        if pairs[i].0 == wanted {
            return Some(pairs[i].1.as_str());
        }
        i += 1;
    }
    None
}

/// What a [`Response`] holds, as mathematical values.
pub struct ResponseView {
    pub status: u16,
    pub headers: Pairs,
    pub body: Seq<u8>,
}

impl ResponseView {
    /// What a new `Response` holds: status 200, no headers, an empty body.
    pub open spec fn empty() -> ResponseView {
        ResponseView { status: 200, headers: Seq::empty(), body: Seq::empty() }
    }
}

/// The response to a request: a status, headers and a body.
#[derive(Debug)]
pub struct Response {
    status: StatusCode,
    headers: Vec<(String, String)>,
    body: Vec<u8>,
}

impl View for Response {
    type V = ResponseView;

    closed spec fn view(&self) -> ResponseView {
        ResponseView { status: self.status.number(), headers: self.headers.deep_view(), body: self.body@ }
    }
}

impl Response {
    /// A response with status 200, no headers and an empty body.
    pub fn new() -> (res: Response)
        ensures
            res@ == ResponseView::empty(),
    {
        let res = Response { status: StatusCode::ok(), headers: Vec::new(), body: Vec::new() };
        assert(res.headers.deep_view() =~= Seq::empty());
        res
    }

    /// A response with status 200, no headers and an empty body.
    pub fn ok() -> (res: Response)
        ensures
            res@ == ResponseView::empty(),
    {
        Response::new()
    }

    pub fn status(&self) -> (status: StatusCode)
        ensures
            status.number() == self@.status,
    {
        self.status
    }

    pub fn set_status(&mut self, status: StatusCode)
        ensures
            final(self)@ == (ResponseView { status: status.number(), ..old(self)@ }),
    {
        self.status = status;
    }

    pub fn with_status(self, status: StatusCode) -> (res: Response)
        ensures
            res@ == (ResponseView { status: status.number(), ..self@ }),
    {
        let mut res = self;
        res.set_status(status);
        res
    }

    pub fn body(&self) -> (body: &Vec<u8>)
        ensures
            body@ == self@.body,
    {
        &self.body
    }

    pub fn set_body(&mut self, body: Vec<u8>)
        ensures
            final(self)@ == (ResponseView { body: body@, ..old(self)@ }),
    {
        self.body = body;
    }

    pub fn with_body(self, body: Vec<u8>) -> (res: Response)
        ensures
            res@ == (ResponseView { body: body@, ..self@ }),
    {
        let mut res = self;
        res.set_body(body);
        res
    }

    /// The headers, in the order in which they were added.
    pub fn headers(&self) -> (headers: &Vec<(String, String)>)
        ensures
            headers.deep_view() == self@.headers,
    {
        &self.headers
    }

    /// The value of the first header of a given name.
    pub fn header(&self, name: &str) -> (value: Option<&str>)
        ensures
            value is Some <==> first_value(self@.headers, name@) is Some,
            value matches Some(v) ==> first_value(self@.headers, name@) == Some(v@),
    {
        lookup(&self.headers, name)
    }

    /// Adds a header after those that are there.
    pub fn set_header(&mut self, name: String, value: String)
        ensures
            final(self)@ == (ResponseView { headers: old(self)@.headers.push((name@, value@)), ..old(self)@ }),
    {
        self.headers.push((name, value));
        assert(self.headers.deep_view() =~= old(self).headers.deep_view().push((name@, value@)));
    }

    pub fn with_header(self, name: String, value: String) -> (res: Response)
        ensures
            res@ == (ResponseView { headers: self@.headers.push((name@, value@)), ..self@ }),
    {
        let mut res = self;
        res.set_header(name, value);
        res
    }
}

} // verus!
