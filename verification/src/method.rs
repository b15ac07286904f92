//! Request methods and the rule that admits them.

use vstd::prelude::*;
use vstd::string::*;
use crate::text::same_text;

verus! {

/// The request methods that can be sent.
#[derive(Debug, Clone, Copy, PartialEq, Eq, Structural)]
pub enum Method {
    Get,
    Post,
    Put,
    Patch,
    Delete,
    Head,
    Options,
}

/// The upper-case form of a text, as the standard library's Unicode case
/// mapping gives it.
pub uninterp spec fn uppercase_of(text: Seq<char>) -> Seq<char>;

/// Calls `str::to_uppercase`. The contract only names the result: it is the
/// upper-case form of the whole text and depends on nothing else.
#[verifier::external_body]
fn uppercase(text: &str) -> (upper: String)
    ensures
        upper@ == uppercase_of(text@),
{
    text.to_uppercase()
}

/// The method that an upper-case name stands for, if any.
pub open spec fn method_named(upper: Seq<char>) -> Option<Method> {
    if upper == "GET"@ {
        Some(Method::Get)
    } else if upper == "POST"@ {
        Some(Method::Post)
    } else if upper == "PUT"@ {
        Some(Method::Put)
    } else if upper == "PATCH"@ {
        Some(Method::Patch)
    } else if upper == "DELETE"@ {
        Some(Method::Delete)
    } else if upper == "HEAD"@ {
        Some(Method::Head)
    } else if upper == "OPTIONS"@ {
        Some(Method::Options)
    } else {
        None
    }
}

/// Looks an upper-case name up among the methods.
pub fn method_from_upper(upper: &str) -> (method: Option<Method>)
    ensures
        method == method_named(upper@),
{
    if same_text(upper, "GET") {
        Some(Method::Get)
    } else if same_text(upper, "POST") {
        Some(Method::Post)
    } else if same_text(upper, "PUT") {
        Some(Method::Put)
    } else if same_text(upper, "PATCH") {
        Some(Method::Patch)
    } else if same_text(upper, "DELETE") {
        Some(Method::Delete)
    } else if same_text(upper, "HEAD") {
        Some(Method::Head)
    } else if same_text(upper, "OPTIONS") {
        Some(Method::Options)
    } else {
        None
    }
}

/// Reads a method name in any letter case: the name is brought to upper case
/// and then looked up.
pub fn parse_method(name: &str) -> (method: Option<Method>)
    ensures
        method == method_named(uppercase_of(name@)),
{
    let upper = uppercase(name);
    method_from_upper(upper.as_str())
}

impl Method {
    /// The canonical upper-case name.
    pub open spec fn name(&self) -> Seq<char> {
        match self {
            Method::Get => "GET"@,
            Method::Post => "POST"@,
            Method::Put => "PUT"@,
            Method::Patch => "PATCH"@,
            Method::Delete => "DELETE"@,
            Method::Head => "HEAD"@,
            Method::Options => "OPTIONS"@,
        }
    }

    /// True for the methods that may carry a multipart form.
    pub open spec fn carries_form(&self) -> bool {
        *self == Method::Post || *self == Method::Put || *self == Method::Patch
    }

    /// The canonical upper-case name of the method.
    pub fn as_str(&self) -> (name: &'static str)
        ensures
            name@ == self.name(),
    {
        match self {
            Method::Get => "GET",
            Method::Post => "POST",
            Method::Put => "PUT",
            Method::Patch => "PATCH",
            Method::Delete => "DELETE",
            Method::Head => "HEAD",
            Method::Options => "OPTIONS",
        }
    }

    /// Tells whether a multipart form may be sent with this method.
    pub fn allows_form(&self) -> (allowed: bool)
        ensures
            allowed == self.carries_form(),
    {
        match self {
            Method::Post | Method::Put | Method::Patch => true,
            _ => false,
        }
    }
}

/// A method's own name is read back as that method.
pub proof fn lemma_name_round_trip(method: Method)
    ensures
        method_named(method.name()) == Some(method),
{
    reveal_strlit("GET");
    reveal_strlit("POST");
    reveal_strlit("PUT");
    reveal_strlit("PATCH");
    reveal_strlit("DELETE");
    reveal_strlit("HEAD");
    reveal_strlit("OPTIONS");
    assert("GET"@.len() == 3 && "PUT"@.len() == 3);
    assert("POST"@.len() == 4 && "HEAD"@.len() == 4);
    assert("PATCH"@.len() == 5 && "DELETE"@.len() == 6 && "OPTIONS"@.len() == 7);
    assert("GET"@[0] == 'G' && "PUT"@[0] == 'P');
    assert("POST"@[0] == 'P' && "HEAD"@[0] == 'H');
}

} // verus!
