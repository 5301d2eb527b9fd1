//! HTTP methods, split by whether a request may carry a body.
use vstd::prelude::*;
use crate::error::{Error, invalid};
use crate::names::TypePath;

verus! {

/// A method as it appears in a path item of the description.
#[derive(Clone, Copy, PartialEq, Eq, Structural)]
pub enum RawMethod {
    Get,
    Post,
    Delete,
    Put,
    Patch,
    Options,
    Head,
    Trace,
}

/// How the description's walk names a method (its variant name).
pub open spec fn raw_method_name(m: RawMethod) -> Seq<char> {
    match m {
        RawMethod::Get => "Get"@,
        RawMethod::Post => "Post"@,
        RawMethod::Delete => "Delete"@,
        RawMethod::Put => "Put"@,
        RawMethod::Patch => "Patch"@,
        RawMethod::Options => "Options"@,
        RawMethod::Head => "Head"@,
        RawMethod::Trace => "Trace"@,
    }
}

/// The method's name on the wire (`GET`, `POST`, ...).
pub open spec fn verb_name(m: RawMethod) -> Seq<char> {
    match m {
        RawMethod::Get => "GET"@,
        RawMethod::Post => "POST"@,
        RawMethod::Delete => "DELETE"@,
        RawMethod::Put => "PUT"@,
        RawMethod::Patch => "PATCH"@,
        RawMethod::Options => "OPTIONS"@,
        RawMethod::Head => "HEAD"@,
        RawMethod::Trace => "TRACE"@,
    }
}

/// GET, HEAD, OPTIONS and TRACE cannot take a body.
pub open spec fn cannot_have_body(m: RawMethod) -> bool {
    m is Get || m is Head || m is Options || m is Trace
}

impl RawMethod {
    pub fn name(&self) -> (r: &'static str)
        ensures
            r@ == raw_method_name(*self),
    {
        match self {
            RawMethod::Get => "Get",
            RawMethod::Post => "Post",
            RawMethod::Delete => "Delete",
            RawMethod::Put => "Put",
            RawMethod::Patch => "Patch",
            RawMethod::Options => "Options",
            RawMethod::Head => "Head",
            RawMethod::Trace => "Trace",
        }
    }
}

/// The methods which CANNOT take a body.
#[derive(Clone, Copy, PartialEq, Eq, Structural)]
pub enum MethodWithoutBody {
    Get,
    Head,
    Options,
    Trace,
}

/// The methods which MAY take a body.
#[derive(Clone, Copy, PartialEq, Eq, Structural)]
pub enum MethodWithBody {
    Post,
    Delete,
    Put,
    Patch,
}

/// A method, with the type of its request body where it may have one.
pub enum Method {
    WithoutBody(MethodWithoutBody),
    WithBody {
        method: MethodWithBody,
        /// The expected body payload, if any
        body_type: Option<TypePath>,
    },
}

/// The view of an optional type location.
pub open spec fn opt_path(p: Option<TypePath>) -> Option<Seq<Seq<char>>> {
    match p {
        Some(t) => Some(t@),
        None => None,
    }
}

impl Method {
    /// The method as it was written in the description.
    pub open spec fn raw(&self) -> RawMethod {
        match self {
            Method::WithoutBody(MethodWithoutBody::Get) => RawMethod::Get,
            Method::WithoutBody(MethodWithoutBody::Head) => RawMethod::Head,
            Method::WithoutBody(MethodWithoutBody::Options) => RawMethod::Options,
            Method::WithoutBody(MethodWithoutBody::Trace) => RawMethod::Trace,
            Method::WithBody { method: MethodWithBody::Post, .. } => RawMethod::Post,
            Method::WithBody { method: MethodWithBody::Delete, .. } => RawMethod::Delete,
            Method::WithBody { method: MethodWithBody::Put, .. } => RawMethod::Put,
            Method::WithBody { method: MethodWithBody::Patch, .. } => RawMethod::Patch,
        }
    }

    /// The location of the body's type, if there is one.
    pub open spec fn body_spec(&self) -> Option<Seq<Seq<char>>> {
        match self {
            Method::WithoutBody(_) => None,
            Method::WithBody { body_type, .. } => opt_path(*body_type),
        }
    }

    /// Pairs a method with its body type; a method that cannot take a
    /// body is refused one.
    pub fn from_raw(method: RawMethod, body_type: Option<TypePath>) -> (r: Result<Method, Error>)
        ensures
            r is Err <==> (cannot_have_body(method) && body_type is Some),
            r matches Ok(m) ==> {
                &&& m.raw() == method
                &&& m.body_spec() == opt_path(body_type)
                &&& (m is WithoutBody <==> cannot_have_body(method))
            },
            r matches Err(e) ==> e matches Error::Validation(msg) && msg@ == "Method '"@
                + raw_method_name(method) + "' canoot have a body"@,
    {
        match method {
            RawMethod::Get | RawMethod::Head | RawMethod::Options | RawMethod::Trace => {
                if body_type.is_some() {
                    return Err(invalid("Method '", method.name(), "' canoot have a body"));
                }
            },
            _ => {},
        }
        let meth = match method {
            RawMethod::Get => Method::WithoutBody(MethodWithoutBody::Get),
            RawMethod::Head => Method::WithoutBody(MethodWithoutBody::Head),
            RawMethod::Trace => Method::WithoutBody(MethodWithoutBody::Trace),
            RawMethod::Options => Method::WithoutBody(MethodWithoutBody::Options),
            RawMethod::Post => Method::WithBody { method: MethodWithBody::Post, body_type },
            RawMethod::Patch => Method::WithBody { method: MethodWithBody::Patch, body_type },
            RawMethod::Put => Method::WithBody { method: MethodWithBody::Put, body_type },
            RawMethod::Delete => Method::WithBody { method: MethodWithBody::Delete, body_type },
        };
        Ok(meth)
    }

    /// The type of the request body, if any.
    pub fn body_type(&self) -> (r: Option<&TypePath>)
        ensures
            match r {
                Some(p) => self.body_spec() == Some(p@),
                None => self.body_spec() is None,
            },
    {
        match self {
            Method::WithoutBody(_) | Method::WithBody { body_type: None, .. } => None,
            Method::WithBody { body_type: Some(body_ty), .. } => Some(body_ty),
        }
    }

    /// The method's name on the wire, e.g. `GET`.
    pub fn verb(&self) -> (r: &'static str)
        ensures
            r@ == verb_name(self.raw()),
    {
        match self {
            Method::WithoutBody(MethodWithoutBody::Get) => "GET",
            Method::WithoutBody(MethodWithoutBody::Head) => "HEAD",
            Method::WithoutBody(MethodWithoutBody::Options) => "OPTIONS",
            Method::WithoutBody(MethodWithoutBody::Trace) => "TRACE",
            Method::WithBody { method: MethodWithBody::Post, .. } => "POST",
            Method::WithBody { method: MethodWithBody::Delete, .. } => "DELETE",
            Method::WithBody { method: MethodWithBody::Put, .. } => "PUT",
            Method::WithBody { method: MethodWithBody::Patch, .. } => "PATCH",
        }
    }
}

/// The capital form of an ASCII letter; any other character stays.
pub open spec fn ascii_upper(c: char) -> char {
    if 'a' <= c && c <= 'z' {
        ((c as int) - 32) as char
    } else {
        c
    }
}

/// `s` with its ASCII letters in capitals.
pub open spec fn ascii_uppercase(s: Seq<char>) -> Seq<char> {
    s.map_values(|c: char| ascii_upper(c))
}

/// A route is sent with the method of the path-item slot it was declared
/// under: its verb is that slot's name in capitals (`patch` is `PATCH`,
/// `put` is `PUT`, ...), and no two slots share a verb.
pub proof fn law_verb_is_the_slot(m: RawMethod, n: RawMethod)
    ensures
        verb_name(m) == ascii_uppercase(raw_method_name(m)),
        m != n ==> verb_name(m) != verb_name(n),
{
    lemma_verb_is_upper(m);
    reveal_strlit("GET");
    reveal_strlit("POST");
    reveal_strlit("DELETE");
    reveal_strlit("PUT");
    reveal_strlit("PATCH");
    reveal_strlit("OPTIONS");
    reveal_strlit("HEAD");
    reveal_strlit("TRACE");
    if m != n && verb_name(m) == verb_name(n) {
        assert(verb_name(m).len() == verb_name(n).len());
        assert(verb_name(m)[0] == verb_name(n)[0]);
    }
}

proof fn lemma_verb_is_upper(m: RawMethod)
    ensures
        verb_name(m) == ascii_uppercase(raw_method_name(m)),
{
    match m {
        RawMethod::Get => {
            reveal_strlit("Get");
            reveal_strlit("GET");
            assert(verb_name(m) =~= ascii_uppercase(raw_method_name(m)));
        },
        RawMethod::Post => {
            reveal_strlit("Post");
            reveal_strlit("POST");
            assert(verb_name(m) =~= ascii_uppercase(raw_method_name(m)));
        },
        RawMethod::Delete => {
            reveal_strlit("Delete");
            reveal_strlit("DELETE");
            assert(verb_name(m) =~= ascii_uppercase(raw_method_name(m)));
        },
        RawMethod::Put => {
            reveal_strlit("Put");
            reveal_strlit("PUT");
            assert(verb_name(m) =~= ascii_uppercase(raw_method_name(m)));
        },
        RawMethod::Patch => {
            reveal_strlit("Patch");
            reveal_strlit("PATCH");
            assert(verb_name(m) =~= ascii_uppercase(raw_method_name(m)));
        },
        RawMethod::Options => {
            reveal_strlit("Options");
            reveal_strlit("OPTIONS");
            assert(verb_name(m) =~= ascii_uppercase(raw_method_name(m)));
        },
        RawMethod::Head => {
            reveal_strlit("Head");
            reveal_strlit("HEAD");
            assert(verb_name(m) =~= ascii_uppercase(raw_method_name(m)));
        },
        RawMethod::Trace => {
            reveal_strlit("Trace");
            reveal_strlit("TRACE");
            assert(verb_name(m) =~= ascii_uppercase(raw_method_name(m)));
        },
    }
}

} // verus!
