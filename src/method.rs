//! HTTP methods and their names.

use vstd::prelude::*;

use crate::text::same_text;

verus! {

/// The HTTP methods the client issues.
#[derive(Debug, Clone, Copy, PartialEq, Eq, Hash, Structural)]
pub enum Method {
    Get,
    Post,
    Put,
    Delete,
}

/// The upper-case form of `s`, as std's `to_uppercase` computes it.
pub uninterp spec fn upper_of(s: Seq<char>) -> Seq<char>;

/// Relies on `str::to_uppercase`: the result depends on the characters alone.
#[verifier::external_body]
fn uppercase(s: &str) -> (r: String)
    ensures
        r@ == upper_of(s@),
{
    s.to_uppercase()
}

/// The canonical name of a method.
pub open spec fn method_name(m: Method) -> Seq<char> {
    match m {
        Method::Get => "GET"@,
        Method::Post => "POST"@,
        Method::Put => "PUT"@,
        Method::Delete => "DELETE"@,
    }
}

/// The method whose canonical name is exactly `s`.
pub open spec fn method_named(s: Seq<char>) -> Option<Method> {
    if s == "GET"@ {
        Some(Method::Get)
    } else if s == "POST"@ {
        Some(Method::Post)
    } else if s == "PUT"@ {
        Some(Method::Put)
    } else if s == "DELETE"@ {
        Some(Method::Delete)
    } else {
        None
    }
}

impl Method {
    /// The canonical (upper-case) name of the method.
    pub fn to_string(&self) -> (r: String)
        ensures
            r@ == method_name(*self),
    {
        match self {
            Method::Get => String::from_str("GET"),
            Method::Post => String::from_str("POST"),
            Method::Put => String::from_str("PUT"),
            Method::Delete => String::from_str("DELETE"),
        }
    }

    /// The method whose canonical name is `name`, compared exactly.
    pub fn from_upper(name: &str) -> (r: Option<Method>)
        ensures
            r == method_named(name@),
    {
        if same_text(name, "GET") {
            Some(Method::Get)
        } else if same_text(name, "POST") {
            Some(Method::Post)
        } else if same_text(name, "PUT") {
            Some(Method::Put)
        } else if same_text(name, "DELETE") {
            Some(Method::Delete)
        } else {
            None
        }
    }

    /// Reads a method name in any letter case.
    pub fn parse(input: &str) -> (r: Result<Method, String>)
        ensures
            method_named(upper_of(input@)) matches Some(m) ==> r == Ok::<Method, String>(m),
            method_named(upper_of(input@)) is None ==> (r matches Err(e) && e@
                == "Invalid HTTP method: "@ + input@),
    {
        let upper = uppercase(input);
        match Method::from_upper(upper.as_str()) {
            Some(m) => Ok(m),
            None => {
                let mut msg = String::from_str("Invalid HTTP method: ");
                msg.append(input);
                Err(msg)
            }
        }
    }
}

impl std::str::FromStr for Method {
    type Err = String;

    fn from_str(input: &str) -> (r: Result<Method, String>)
        ensures
            method_named(upper_of(input@)) matches Some(m) ==> r == Ok::<Method, String>(m),
            method_named(upper_of(input@)) is None ==> (r matches Err(e) && e@
                == "Invalid HTTP method: "@ + input@),
    {
        Method::parse(input)
    }
}

} // verus!
