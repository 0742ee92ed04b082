use vstd::prelude::*;

verus! {

/// The host portion of a reference string, when the string parses as an
/// absolute URL that has a host; `None` when it does not parse or has no
/// host. The result depends on the string alone.
pub uninterp spec fn url_host_of(s: Seq<char>) -> Option<Seq<char>>;

/// View of an optional owned string as an optional character sequence.
pub open spec fn opt_str_view(o: Option<String>) -> Option<Seq<char>> {
    match o {
        Some(s) => Some(s@),
        None => None,
    }
}

/// An opaque, globally unique reference to a federation entity. The full
/// reference string is the join key between local and remote representations;
/// the host portion is kept beside it for deny-listing and for grouping
/// endpoints by instance.
pub struct Identifier {
    /// The full reference string.
    pub url: String,
    /// The host portion of the reference.
    pub host: String,
}

/// Relies on `url::Url::parse` and `url::Url::host_str`: parsing an absolute
/// URL is a function of the input string alone, and the host string, when the
/// URL has one, is determined by that parse.
#[verifier::external_body]
fn parse_host(s: &str) -> (r: Option<String>)
    ensures
        opt_str_view(r) == url_host_of(s@),
{
    match url::Url::parse(s) {
        Ok(u) => u.host_str().map(|h| h.to_string()),
        Err(_) => None,
    }
}

impl Identifier {
    /// Parses a reference string into an identifier. Returns `None` exactly
    /// when the string is not an absolute URL with a host: such a string is
    /// not a well-formed reference to a federation entity.
    pub fn parse(s: &String) -> (r: Option<Identifier>)
        ensures
            match r {
                Some(id) => id.url@ == s@ && url_host_of(s@) == Some(id.host@),
                None => url_host_of(s@) is None,
            },
    {
        match parse_host(s.as_str()) {
            Some(h) => Some(Identifier { url: s.clone(), host: h }),
            None => None,
        }
    }

    /// An owned copy of the identifier.
    pub fn duplicate(&self) -> (r: Identifier)
        ensures
            r == *self,
    {
        Identifier { url: self.url.clone(), host: self.host.clone() }
    }
}

} // verus!
