//! The HTTP methods that a script can ask for.
//!
//! A script names a method by a number: the place of the method in the list
//! below, counted from zero. A number outside the list names no method.

use vstd::prelude::*;

verus! {

/// An HTTP request method.
#[derive(Clone, Copy, Debug, PartialEq, Eq, Hash, Structural)]
pub enum Method {
    Get,
    Head,
    Post,
    Put,
    Delete,
    Connect,
    Options,
    Trace,
    Patch,
}

impl Method {
    /// The number by which a script names this method.
    pub open spec fn code(self) -> i32 {
        match self {
            Method::Get => 0,
            Method::Head => 1,
            Method::Post => 2,
            Method::Put => 3,
            Method::Delete => 4,
            Method::Connect => 5,
            Method::Options => 6,
            Method::Trace => 7,
            Method::Patch => 8,
        }
    }

    /// The method that `code` names, if it names one.
    pub open spec fn decoded(code: i32) -> Option<Method> {
        if code == 0 {
            Some(Method::Get)
        } else if code == 1 {
            Some(Method::Head)
        } else if code == 2 {
            Some(Method::Post)
        } else if code == 3 {
            Some(Method::Put)
        } else if code == 4 {
            Some(Method::Delete)
        } else if code == 5 {
            Some(Method::Connect)
        } else if code == 6 {
            Some(Method::Options)
        } else if code == 7 {
            Some(Method::Trace)
        } else if code == 8 {
            Some(Method::Patch)
        } else {
            None
        }
    }

    /// The number by which a script names this method.
    pub fn to_cell(&self) -> (code: i32)
        ensures
            code == self.code(),
            Method::decoded(code) == Some(*self),
    {
        match self {
            Method::Get => 0,
            Method::Head => 1,
            Method::Post => 2,
            Method::Put => 3,
            Method::Delete => 4,
            Method::Connect => 5,
            Method::Options => 6,
            Method::Trace => 7,
            Method::Patch => 8,
        }
    }

    /// The method that a script names by `code`, or `None` where the number
    /// names no supported method.
    pub fn from_cell(code: i32) -> (method: Option<Method>)
        ensures
            method == Method::decoded(code),
            method matches Some(m) ==> m.code() == code,
            method is None <==> code < 0 || code > 8,
    {
        match code {
            0 => Some(Method::Get),
            1 => Some(Method::Head),
            2 => Some(Method::Post),
            3 => Some(Method::Put),
            4 => Some(Method::Delete),
            5 => Some(Method::Connect),
            6 => Some(Method::Options),
            7 => Some(Method::Trace),
            8 => Some(Method::Patch),
            _ => None,
        }
    }

    /// The method as it is written on the request line.
    pub open spec fn token(self) -> Seq<char> {
        match self {
            Method::Get => "GET"@,
            Method::Head => "HEAD"@,
            Method::Post => "POST"@,
            Method::Put => "PUT"@,
            Method::Delete => "DELETE"@,
            Method::Connect => "CONNECT"@,
            Method::Options => "OPTIONS"@,
            Method::Trace => "TRACE"@,
            Method::Patch => "PATCH"@,
        }
    }

    /// The method as it is written on the request line.
    pub fn as_str(&self) -> (token: &'static str)
        ensures
            token@ == self.token(),
    {
        match self {
            Method::Get => "GET",
            Method::Head => "HEAD",
            Method::Post => "POST",
            Method::Put => "PUT",
            Method::Delete => "DELETE",
            Method::Connect => "CONNECT",
            Method::Options => "OPTIONS",
            Method::Trace => "TRACE",
            Method::Patch => "PATCH",
        }
    }
}

} // verus!
