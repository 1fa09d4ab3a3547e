//! The method of a request.

use crate::error::Error;
use crate::text::str_eq;
use vstd::prelude::*;
use vstd::string::StringExecFns;

verus! {

/// The method of a request: one of the nine registered ones, or an
/// extension by its name.
#[derive(Clone, Eq, Hash, Debug)]
pub enum Method {
    /// OPTIONS
    Options,
    /// GET
    Get,
    /// POST
    Post,
    /// PUT
    Put,
    /// DELETE
    Delete,
    /// HEAD
    Head,
    /// TRACE
    Trace,
    /// CONNECT
    Connect,
    /// PATCH
    Patch,
    /// Another method, by its name.
    Extension(String),
}

/// A method as a value: the name of an extension is a sequence.
pub enum MethodView {
    Options,
    Get,
    Post,
    Put,
    Delete,
    Head,
    Trace,
    Connect,
    Patch,
    Extension(Seq<char>),
}

impl View for Method {
    type V = MethodView;

    open spec fn view(&self) -> MethodView {
        match self {
            Method::Options => MethodView::Options,
            Method::Get => MethodView::Get,
            Method::Post => MethodView::Post,
            Method::Put => MethodView::Put,
            Method::Delete => MethodView::Delete,
            Method::Head => MethodView::Head,
            Method::Trace => MethodView::Trace,
            Method::Connect => MethodView::Connect,
            Method::Patch => MethodView::Patch,
            Method::Extension(name) => MethodView::Extension(name@),
        }
    }
}

/// The name of a method as it stands in a request line.
pub open spec fn method_name(method: MethodView) -> Seq<char> {
    match method {
        MethodView::Options => "OPTIONS"@,
        MethodView::Get => "GET"@,
        MethodView::Post => "POST"@,
        MethodView::Put => "PUT"@,
        MethodView::Delete => "DELETE"@,
        MethodView::Head => "HEAD"@,
        MethodView::Trace => "TRACE"@,
        MethodView::Connect => "CONNECT"@,
        MethodView::Patch => "PATCH"@,
        MethodView::Extension(name) => name,
    }
}

/// The method that a name denotes: a registered one where the name is its
/// name, letter for letter, else an extension.
pub open spec fn method_of(name: Seq<char>) -> MethodView {
    if name == "OPTIONS"@ {
        MethodView::Options
    } else if name == "GET"@ {
        MethodView::Get
    } else if name == "POST"@ {
        MethodView::Post
    } else if name == "PUT"@ {
        MethodView::Put
    } else if name == "DELETE"@ {
        MethodView::Delete
    } else if name == "HEAD"@ {
        MethodView::Head
    } else if name == "TRACE"@ {
        MethodView::Trace
    } else if name == "CONNECT"@ {
        MethodView::Connect
    } else if name == "PATCH"@ {
        MethodView::Patch
    } else {
        MethodView::Extension(name)
    }
}

/// Whether a method only reads: GET, HEAD, OPTIONS and TRACE.
pub open spec fn is_safe(method: MethodView) -> bool {
    method is Get || method is Head || method is Options || method is Trace
}

/// Whether a method has the same effect when repeated: the safe ones, PUT
/// and DELETE.
pub open spec fn is_idempotent(method: MethodView) -> bool {
    is_safe(method) || method is Put || method is Delete
}

impl PartialEq for Method {
    fn eq(&self, other: &Method) -> (r: bool) {
        match (self, other) {
            (Method::Options, Method::Options) => true,
            (Method::Get, Method::Get) => true,
            (Method::Post, Method::Post) => true,
            (Method::Put, Method::Put) => true,
            (Method::Delete, Method::Delete) => true,
            (Method::Head, Method::Head) => true,
            (Method::Trace, Method::Trace) => true,
            (Method::Connect, Method::Connect) => true,
            (Method::Patch, Method::Patch) => true,
            (Method::Extension(a), Method::Extension(b)) => str_eq(a.as_str(), b.as_str()),
            _ => false,
        }
    }
}

impl vstd::std_specs::cmp::PartialEqSpecImpl for Method {
    open spec fn obeys_eq_spec() -> bool {
        true
    }

    open spec fn eq_spec(&self, other: &Method) -> bool {
        self@ == other@
    }
}

impl Method {
    /// The name of the method as it stands in a request line.
    pub fn as_ref(&self) -> (name: &str)
        ensures
            name@ == method_name(self@),
    {
        match self {
            Method::Options => "OPTIONS",
            Method::Get => "GET",
            Method::Post => "POST",
            Method::Put => "PUT",
            Method::Delete => "DELETE",
            Method::Head => "HEAD",
            Method::Trace => "TRACE",
            Method::Connect => "CONNECT",
            Method::Patch => "PATCH",
            Method::Extension(s) => s.as_str(),
        }
    }

    /// Whether the method only reads.
    pub fn safe(&self) -> (r: bool)
        ensures
            r == is_safe(self@),
    {
        match *self {
            Method::Get | Method::Head | Method::Options | Method::Trace => true,
            _ => false,
        }
    }

    /// Whether the method has the same effect when repeated.
    pub fn idempotent(&self) -> (r: bool)
        ensures
            r == is_idempotent(self@),
    {
        if self.safe() {
            true
        } else {
            match *self {
                Method::Put | Method::Delete => true,
                _ => false,
            }
        }
    }

    /// Reads a method from its name. The empty name is refused.
    pub fn from_str(s: &str) -> (r: Result<Method, Error>)
        ensures
            s@.len() == 0 <==> r is Err,
            r is Err ==> r->Err_0 == Error::Method,
            r is Ok ==> r->Ok_0@ == method_of(s@),
    {
        if s.is_empty() {
            Err(Error::Method)
        } else if str_eq(s, "OPTIONS") {
            Ok(Method::Options)
        } else if str_eq(s, "GET") {
            Ok(Method::Get)
        } else if str_eq(s, "POST") {
            Ok(Method::Post)
        } else if str_eq(s, "PUT") {
            Ok(Method::Put)
        } else if str_eq(s, "DELETE") {
            Ok(Method::Delete)
        } else if str_eq(s, "HEAD") {
            Ok(Method::Head)
        } else if str_eq(s, "TRACE") {
            Ok(Method::Trace)
        } else if str_eq(s, "CONNECT") {
            Ok(Method::Connect)
        } else if str_eq(s, "PATCH") {
            Ok(Method::Patch)
        } else {
            Ok(Method::Extension(String::from_str(s)))
        }
    }

    /// The name of the method, as an owned string.
    pub fn to_string(&self) -> (name: String)
        ensures
            name@ == method_name(self@),
    {
        String::from_str(self.as_ref())
    }
}

impl std::str::FromStr for Method {
    type Err = Error;

    /// Reads a method from its name. The empty name is refused.
    fn from_str(s: &str) -> (r: Result<Method, Error>)
        ensures
            s@.len() == 0 <==> r is Err,
            r is Err ==> r->Err_0 == Error::Method,
            r is Ok ==> r->Ok_0@ == method_of(s@),
    {
        Method::from_str(s)
    }
}

impl Default for Method {
    fn default() -> (method: Method)
        ensures
            method@ == MethodView::Get,
    {
        Method::Get
    }
}

} // verus!
