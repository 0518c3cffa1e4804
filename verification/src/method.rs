//! HTTP methods: the validated method of the `http` crate's form, and its
//! conversion to and from the method of the component interface.

use vstd::prelude::*;
use crate::http_ext::{is_method_char, is_method_token, parse_method};
use crate::wit::{Method, SpecMethod};

verus! {

/// An HTTP method in the `http` crate's sense: a method token such as `GET`
/// or an extension token. Two methods are the same exactly when their texts are.
pub struct HttpMethod {
    name: String,
}

impl View for HttpMethod {
    type V = Seq<char>;

    closed spec fn view(&self) -> Seq<char> {
        self.name@
    }
}

/// The text of the standard method that a non-`Other` interface method names.
pub open spec fn standard_name(m: SpecMethod) -> Seq<char> {
    match m {
        SpecMethod::Get => "GET"@,
        SpecMethod::Post => "POST"@,
        SpecMethod::Put => "PUT"@,
        SpecMethod::Delete => "DELETE"@,
        SpecMethod::Head => "HEAD"@,
        SpecMethod::Options => "OPTIONS"@,
        SpecMethod::Connect => "CONNECT"@,
        SpecMethod::Patch => "PATCH"@,
        SpecMethod::Trace => "TRACE"@,
        SpecMethod::Other(s) => s,
    }
}

/// Whether a text is the name of one of the nine standard methods.
pub open spec fn is_standard_name(s: Seq<char>) -> bool {
    ||| s == "GET"@
    ||| s == "POST"@
    ||| s == "PUT"@
    ||| s == "DELETE"@
    ||| s == "HEAD"@
    ||| s == "OPTIONS"@
    ||| s == "CONNECT"@
    ||| s == "PATCH"@
    ||| s == "TRACE"@
}

/// The method text that an interface method converts to, or `None` when an
/// `Other` method is not a method token.
pub open spec fn spec_method_from_wit(m: SpecMethod) -> Option<Seq<char>> {
    match m {
        SpecMethod::Other(s) => if is_method_token(s) {
            Some(s)
        } else {
            None
        },
        _ => Some(standard_name(m)),
    }
}

/// The interface method that a method text converts to: the standard variant
/// for a standard name, `Other` with the text otherwise.
pub open spec fn spec_method_to_wit(name: Seq<char>) -> SpecMethod {
    if name == "GET"@ {
        SpecMethod::Get
    } else if name == "POST"@ {
        SpecMethod::Post
    } else if name == "PUT"@ {
        SpecMethod::Put
    } else if name == "DELETE"@ {
        SpecMethod::Delete
    } else if name == "HEAD"@ {
        SpecMethod::Head
    } else if name == "OPTIONS"@ {
        SpecMethod::Options
    } else if name == "CONNECT"@ {
        SpecMethod::Connect
    } else if name == "PATCH"@ {
        SpecMethod::Patch
    } else if name == "TRACE"@ {
        SpecMethod::Trace
    } else {
        SpecMethod::Other(name)
    }
}

/// An interface method in its one canonical form: `Other` never carries the
/// name of a standard method.
pub open spec fn is_canonical_method(m: SpecMethod) -> bool {
    m matches SpecMethod::Other(s) ==> !is_standard_name(s)
}

proof fn lemma_standard_names_are_tokens(m: SpecMethod)
    requires
        !(m is Other),
    ensures
        is_method_token(standard_name(m)),
{
    reveal_strlit("GET");
    reveal_strlit("POST");
    reveal_strlit("PUT");
    reveal_strlit("DELETE");
    reveal_strlit("HEAD");
    reveal_strlit("OPTIONS");
    reveal_strlit("CONNECT");
    reveal_strlit("PATCH");
    reveal_strlit("TRACE");
    let s = standard_name(m);
    assert forall|i: int| 0 <= i < s.len() implies #[trigger] is_method_char(s[i]) by {}
}

impl HttpMethod {
    #[verifier::type_invariant]
    spec fn is_token(&self) -> bool {
        is_method_token(self.name@)
    }

    /// Parses a method text (`Method::from_str`): accepted exactly when it is a
    /// method token, and the method's text is then the input.
    pub fn from_str(s: &str) -> (r: Result<HttpMethod, http::method::InvalidMethod>)
        ensures
            r is Ok <==> is_method_token(s@),
            r matches Ok(m) ==> m@ == s@,
    {
        match parse_method(s) {
            Ok(name) => Ok(HttpMethod { name }),
            Err(e) => Err(e),
        }
    }

    /// The method's text (`Method::as_str`).
    pub fn as_str(&self) -> (s: &str)
        ensures
            s@ == self@,
            is_method_token(s@),
    {
        proof {
            use_type_invariant(self);
        }
        self.name.as_str()
    }

    fn standard(m: &Method) -> (r: HttpMethod)
        requires
            !(m@ is Other),
        ensures
            r@ == standard_name(m@),
    {
        proof {
            lemma_standard_names_are_tokens(m@);
        }
        let name = match m {
            Method::Get => String::from_str("GET"),
            Method::Post => String::from_str("POST"),
            Method::Put => String::from_str("PUT"),
            Method::Delete => String::from_str("DELETE"),
            Method::Head => String::from_str("HEAD"),
            Method::Options => String::from_str("OPTIONS"),
            Method::Connect => String::from_str("CONNECT"),
            Method::Patch => String::from_str("PATCH"),
            Method::Trace => String::from_str("TRACE"),
            Method::Other(_) => String::from_str("GET"),
        };
        HttpMethod { name }
    }
}

/// Converts an interface method to the `http` crate's method
/// (`TryFrom<types::Method> for http::Method`): the nine named methods map to
/// the standard methods, and `Other` is parsed, failing unless it is a method token.
pub fn method_from_wit(m: Method) -> (r: Result<HttpMethod, http::method::InvalidMethod>)
    ensures
        r is Ok <==> spec_method_from_wit(m@) is Some,
        r matches Ok(h) ==> h@ == spec_method_from_wit(m@)->Some_0,
{
    match m {
        Method::Other(value) => HttpMethod::from_str(value.as_str()),
        _ => Ok(HttpMethod::standard(&m)),
    }
}

/// Converts the `http` crate's method to the interface method
/// (`From<&http::Method> for types::Method`): standard methods map to their
/// variants and every other method to `Other` with its text.
pub fn method_to_wit(m: &HttpMethod) -> (r: Method)
    ensures
        r@ == spec_method_to_wit(m@),
{
    let name = m.as_str();
    let owned = String::from_str(name);
    if owned == String::from_str("GET") {
        Method::Get
    } else if owned == String::from_str("POST") {
        Method::Post
    } else if owned == String::from_str("PUT") {
        Method::Put
    } else if owned == String::from_str("DELETE") {
        Method::Delete
    } else if owned == String::from_str("HEAD") {
        Method::Head
    } else if owned == String::from_str("OPTIONS") {
        Method::Options
    } else if owned == String::from_str("CONNECT") {
        Method::Connect
    } else if owned == String::from_str("PATCH") {
        Method::Patch
    } else if owned == String::from_str("TRACE") {
        Method::Trace
    } else {
        Method::Other(owned)
    }
}

/// A method that goes to the interface form and back is the same method.
pub proof fn lemma_method_to_wit_and_back(name: Seq<char>)
    requires
        is_method_token(name),
    ensures
        spec_method_from_wit(spec_method_to_wit(name)) == Some(name),
{
}

/// Every interface method in canonical form that converts comes back unchanged
/// from the `http` crate's form; the result of converting is always canonical.
pub proof fn lemma_method_from_wit_and_back(m: SpecMethod)
    requires
        is_canonical_method(m),
        spec_method_from_wit(m) is Some,
    ensures
        spec_method_to_wit(spec_method_from_wit(m)->Some_0) == m,
{
    reveal_strlit("GET");
    reveal_strlit("POST");
    reveal_strlit("PUT");
    reveal_strlit("DELETE");
    reveal_strlit("HEAD");
    reveal_strlit("OPTIONS");
    reveal_strlit("CONNECT");
    reveal_strlit("PATCH");
    reveal_strlit("TRACE");
    let g = "GET"@;
    let po = "POST"@;
    let pu = "PUT"@;
    let d = "DELETE"@;
    let h = "HEAD"@;
    let o = "OPTIONS"@;
    let c = "CONNECT"@;
    let pa = "PATCH"@;
    let t = "TRACE"@;
    assert(po != g && po != pu) by {
        assert(po[1] != pu[1]);
    }
    assert(pu != g) by {
        assert(pu[0] != g[0]);
    }
    assert(d != g && d != po && d != pu) by {
        assert(d.len() == 6);
    }
    assert(h != g && h != po && h != pu && h != d) by {
        assert(h[0] != po[0]);
    }
    assert(o != g && o != po && o != pu && o != d && o != h) by {
        assert(o.len() == 7);
    }
    assert(c != g && c != po && c != pu && c != d && c != h && c != o) by {
        assert(c[0] != o[0]);
    }
    assert(pa != g && pa != po && pa != pu && pa != d && pa != h && pa != o && pa != c) by {
        assert(pa[1] != po[1]);
    }
    assert(t != g && t != po && t != pu && t != d && t != h && t != o && t != c && t != pa) by {
        assert(t[0] != pa[0]);
    }
}

/// The text of each of the nine standard methods converts to its own
/// interface variant (`PATCH` to `Patch`, `HEAD` to `Head`, and so on).
pub proof fn lemma_method_to_wit_standard(m: SpecMethod)
    requires
        !(m is Other),
    ensures
        spec_method_to_wit(standard_name(m)) == m,
{
    lemma_method_from_wit_and_back(m);
}

/// A method text that names none of the standard methods converts to `Other`
/// with that text.
pub proof fn lemma_method_to_wit_other(name: Seq<char>)
    requires
        !is_standard_name(name),
    ensures
        spec_method_to_wit(name) == SpecMethod::Other(name),
{
}

/// Converting a method text to the interface form always gives a canonical method.
pub proof fn lemma_method_to_wit_canonical(name: Seq<char>)
    ensures
        is_canonical_method(spec_method_to_wit(name)),
{
}

} // verus!
