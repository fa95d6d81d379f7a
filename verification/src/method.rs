use vstd::prelude::*;

verus! {

/// The method of an HTTP request: one of the nine standard verbs, or any
/// other token by its name.
#[derive(Debug, PartialEq, Eq)]
pub enum Method {
    Connect,
    Delete,
    Get,
    Head,
    Options,
    Patch,
    Post,
    Put,
    Trace,
    Extension(String),
}

/// What a [`Method`] stands for in contracts.
pub enum MethodView {
    Connect,
    Delete,
    Get,
    Head,
    Options,
    Patch,
    Post,
    Put,
    Trace,
    Extension(Seq<char>),
}

impl View for Method {
    type V = MethodView;

    open spec fn view(&self) -> MethodView {
        match self {
            Method::Connect => MethodView::Connect,
            Method::Delete => MethodView::Delete,
            Method::Get => MethodView::Get,
            Method::Head => MethodView::Head,
            Method::Options => MethodView::Options,
            Method::Patch => MethodView::Patch,
            Method::Post => MethodView::Post,
            Method::Put => MethodView::Put,
            Method::Trace => MethodView::Trace,
            Method::Extension(name) => MethodView::Extension(name@),
        }
    }
}

/// How many standard methods there are; each has a table of its own in a router.
pub const STANDARD_METHODS: u64 = 9;

impl MethodView {
    /// The number of a standard method, in alphabetical order of the verbs;
    /// an extension method has none.
    pub open spec fn slot(self) -> Option<u64> {
        match self {
            MethodView::Connect => Some(0),
            MethodView::Delete => Some(1),
            MethodView::Get => Some(2),
            MethodView::Head => Some(3),
            MethodView::Options => Some(4),
            MethodView::Patch => Some(5),
            MethodView::Post => Some(6),
            MethodView::Put => Some(7),
            MethodView::Trace => Some(8),
            MethodView::Extension(_) => None,
        }
    }

    /// The verb as it is written on the wire.
    pub open spec fn name(self) -> Seq<char> {
        match self {
            MethodView::Connect => "CONNECT"@,
            MethodView::Delete => "DELETE"@,
            MethodView::Get => "GET"@,
            MethodView::Head => "HEAD"@,
            MethodView::Options => "OPTIONS"@,
            MethodView::Patch => "PATCH"@,
            MethodView::Post => "POST"@,
            MethodView::Put => "PUT"@,
            MethodView::Trace => "TRACE"@,
            MethodView::Extension(token) => token,
        }
    }

    /// The standard method with a given number.
    pub open spec fn standard(slot: u64) -> MethodView
        recommends
            slot < STANDARD_METHODS,
    {
        if slot == 0 {
            MethodView::Connect
        } else if slot == 1 {
            MethodView::Delete
        } else if slot == 2 {
            MethodView::Get
        } else if slot == 3 {
            MethodView::Head
        } else if slot == 4 {
            MethodView::Options
        } else if slot == 5 {
            MethodView::Patch
        } else if slot == 6 {
            MethodView::Post
        } else if slot == 7 {
            MethodView::Put
        } else {
            MethodView::Trace
        }
    }
}

impl Clone for Method {
    fn clone(&self) -> (copy: Method)
        ensures
            copy@ == self@,
    {
        match self {
            Method::Connect => Method::Connect,
            Method::Delete => Method::Delete,
            Method::Get => Method::Get,
            Method::Head => Method::Head,
            Method::Options => Method::Options,
            Method::Patch => Method::Patch,
            Method::Post => Method::Post,
            Method::Put => Method::Put,
            Method::Trace => Method::Trace,
            Method::Extension(name) => Method::Extension(name.clone()),
        }
    }
}

impl Method {
    /// The number of a standard method, `None` for an extension method.
    pub fn slot(&self) -> (n: Option<u64>)
        ensures
            n == self@.slot(),
            n matches Some(k) ==> k < STANDARD_METHODS,
    {
        match self {
            Method::Connect => Some(0),
            Method::Delete => Some(1),
            Method::Get => Some(2),
            Method::Head => Some(3),
            Method::Options => Some(4),
            Method::Patch => Some(5),
            Method::Post => Some(6),
            Method::Put => Some(7),
            Method::Trace => Some(8),
            Method::Extension(_) => None,
        }
    }

    /// The verb as it is written on the wire.
    pub fn as_str(&self) -> (name: &str)
        ensures
            name@ == self@.name(),
    {
        match self {
            Method::Connect => "CONNECT",
            Method::Delete => "DELETE",
            Method::Get => "GET",
            Method::Head => "HEAD",
            Method::Options => "OPTIONS",
            Method::Patch => "PATCH",
            Method::Post => "POST",
            Method::Put => "PUT",
            Method::Trace => "TRACE",
            Method::Extension(name) => name.as_str(),
        }
    }
}

/// Numbering the standard methods loses nothing: a method's number leads back to it.
pub proof fn slot_round_trip(m: MethodView)
    requires
        m.slot() is Some,
    ensures
        MethodView::standard(m.slot().unwrap()) == m,
        m.slot().unwrap() < STANDARD_METHODS,
{
}

} // verus!
