//! Deprecation metadata (RFC 8594): the sunset date, an optional successor
//! link, and the `Deprecation`, `Sunset` and `Link` headers they produce.

use vstd::prelude::*;
use vstd::utf8::encode_utf8;
use crate::encoding::{header_value_valid, is_header_value};
use crate::text::{chars_of, owned, push_chars};

verus! {

/// Deprecation metadata for an API resource or endpoint.
#[derive(Debug, Clone, PartialEq, Eq)]
pub struct Deprecated {
    /// HTTP-date (or RFC 3339 date) after which the resource is gone.
    pub sunset: String,
    /// URL of the replacement (`rel="successor-version"`).
    pub link: Option<String>,
}

impl View for Deprecated {
    type V = (Seq<char>, Option<Seq<char>>);

    open spec fn view(&self) -> (Seq<char>, Option<Seq<char>>) {
        (
            self.sunset@,
            match self.link {
                Some(l) => Some(l@),
                None => None,
            },
        )
    }
}

/// `<url>; rel="successor-version"` (RFC 8288).
pub open spec fn link_text(url: Seq<char>) -> Seq<char> {
    seq!['<'] + url + ">; rel=\"successor-version\""@
}

/// The headers to set, in order, and whether a value was invalid: the
/// `Deprecation` header always; then `Sunset`, unless the date is not a valid
/// header value (which fails); then `Link` when a link is set, unless it is
/// not a valid header value (which fails).
pub open spec fn deprecation_headers(d: (Seq<char>, Option<Seq<char>>)) -> (
    Seq<(Seq<char>, Seq<char>)>,
    bool,
) {
    let first = seq![("deprecation"@, "true"@)];
    if !is_header_value(encode_utf8(d.0)) {
        (first, true)
    } else {
        let two = first.push(("sunset"@, d.0));
        match d.1 {
            None => (two, false),
            Some(url) => if is_header_value(encode_utf8(link_text(url))) {
                (two.push(("link"@, link_text(url))), false)
            } else {
                (two, true)
            },
        }
    }
}

/// The views of header entries.
pub open spec fn pairs_view(v: Seq<(String, String)>) -> Seq<(Seq<char>, Seq<char>)> {
    v.map_values(|p: (String, String)| (p.0@, p.1@))
}

impl Deprecated {
    /// A marker with the given sunset date and no link.
    pub fn new(sunset: &str) -> (r: Deprecated)
        ensures
            r@ == (sunset@, None::<Seq<char>>),
    {
        Deprecated { sunset: owned(sunset), link: None }
    }

    /// Attach a replacement link.
    pub fn with_link(self, link: &str) -> (r: Deprecated)
        ensures
            r@ == (self@.0, Some(link@)),
    {
        Deprecated { link: Some(owned(link)), ..self }
    }

    /// The `Deprecation` header value: `true`.
    pub fn deprecation_header_value(&self) -> (r: &'static str)
        ensures
            r@ == "true"@,
    {
        "true"
    }

    /// The `Sunset` header value: the date as given.
    pub fn sunset_header_value(&self) -> (r: &str)
        ensures
            r@ == self@.0,
    {
        self.sunset.as_str()
    }

    /// The `Link` header value for the replacement, if any.
    pub fn link_header_value(&self) -> (r: Option<String>)
        ensures
            match r {
                Some(s) => self@.1 matches Some(url) && s@ == link_text(url),
                None => self@.1 is None,
            },
    {
        match &self.link {
            Some(url) => {
                let mut s = owned("<");
                proof {
                    reveal_strlit("<");
                    assert("<"@ =~= seq!['<']);
                }
                push_chars(&mut s, chars_of(url.as_str()).as_slice());
                push_chars(&mut s, chars_of(">; rel=\"successor-version\"").as_slice());
                Some(s)
            },
            None => None,
        }
    }

    /// The `(name, value)` headers to set, in order, and whether one value was
    /// not a valid header value (after which nothing more is set).
    pub fn headers_to_inject(&self) -> (r: (Vec<(String, String)>, bool))
        ensures
            (pairs_view(r.0@), r.1) == deprecation_headers(self@),
    {
        let mut out: Vec<(String, String)> = Vec::new();
        out.push((owned("deprecation"), owned("true")));
        let ghost first = pairs_view(out@);
        assert(first =~= seq![("deprecation"@, "true"@)]);
        if !header_value_valid(self.sunset.as_str()) {
            return (out, true);
        }
        out.push((owned("sunset"), owned(self.sunset.as_str())));
        let ghost two = pairs_view(out@);
        assert(two =~= first.push(("sunset"@, self@.0)));
        match self.link_header_value() {
            None => (out, false),
            Some(lv) => {
                if header_value_valid(lv.as_str()) {
                    out.push((owned("link"), lv));
                    assert(pairs_view(out@) =~= two.push(("link"@, link_text(self@.1->0))));
                    (out, false)
                } else {
                    (out, true)
                }
            },
        }
    }

    /// `Deprecated(sunset=<date>)`.
    pub fn to_string(&self) -> (r: String)
        ensures
            r@ == "Deprecated(sunset="@ + self@.0 + ")"@,
    {
        let mut s = owned("Deprecated(sunset=");
        push_chars(&mut s, chars_of(self.sunset.as_str()).as_slice());
        push_chars(&mut s, chars_of(")").as_slice());
        s
    }
}

} // verus!
