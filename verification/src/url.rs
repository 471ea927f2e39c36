//! Plain `http://` URLs and their parts.
//!
//! A URL is accepted when `http://` stands anywhere in it. One `http://` at
//! its very start is set aside; what follows is cut at the first `/` into the
//! authority and the rest. The authority is cut at its first `:` into host and
//! port, the rest at its first `?` into path and search part. No part is
//! decoded or validated further.

use vstd::prelude::*;
use vstd::string::*;
use crate::error::ValidationError;
use crate::error::Refusal;
use crate::text::after_first;
use crate::text::before_first;
use crate::text::chars_of;
use crate::text::find_char;
use crate::text::find_pattern;
use crate::text::first;
use crate::text::lemma_first_contains;
use crate::text::decimal;
use crate::text::is_numeral;
use crate::text::lemma_first_in;
use crate::text::lemma_first_in_is;
use crate::text::read_decimal;
use crate::text::lemma_first_in_piece;
use crate::text::lemma_first_occurrence_occurs_in;
use crate::text::occurs_at;
use crate::text::occurs_in;
use crate::text::slice_of;
use crate::text::stands_at;

verus! {

/// The characters `http://`.
pub open spec fn scheme_marker() -> Seq<char> {
    seq!['h', 't', 't', 'p', ':', '/', '/']
}

/// The characters `http`, the only scheme.
pub open spec fn scheme_name() -> Seq<char> {
    seq!['h', 't', 't', 'p']
}

/// The characters `80`, the port of a URL that names none.
pub open spec fn default_port() -> Seq<char> {
    seq!['8', '0']
}

/// A text is accepted as a URL when `http://` stands somewhere in it.
pub open spec fn accepted(s: Seq<char>) -> bool {
    occurs_in(s, scheme_marker())
}

/// `s` without the `http://` at its start, if it starts with one.
pub open spec fn after_scheme(s: Seq<char>) -> Seq<char> {
    if scheme_marker().is_prefix_of(s) {
        s.skip(scheme_marker().len() as int)
    } else {
        s
    }
}

/// Host and port as written: what follows the scheme, up to the first `/`.
pub open spec fn authority_of(s: Seq<char>) -> Seq<char> {
    before_first(after_scheme(s), '/')
}

/// What follows the first `/` after the scheme.
pub open spec fn rest_of(s: Seq<char>) -> Seq<char> {
    after_first(after_scheme(s), '/')
}

/// The authority up to its first `:`.
pub open spec fn host_of(s: Seq<char>) -> Seq<char> {
    before_first(authority_of(s), ':')
}

/// The authority after its first `:`, or `80` when it holds none.
pub open spec fn port_of(s: Seq<char>) -> Seq<char> {
    if authority_of(s).contains(':') {
        after_first(authority_of(s), ':')
    } else {
        default_port()
    }
}

/// The rest up to its first `?`, without the `/` that leads it.
pub open spec fn path_of(s: Seq<char>) -> Seq<char> {
    before_first(rest_of(s), '?')
}

/// The rest after its first `?`.
pub open spec fn searchpart_of(s: Seq<char>) -> Seq<char> {
    after_first(rest_of(s), '?')
}

/// The parts of a URL.
pub struct UrlParts {
    pub scheme: Seq<char>,
    pub host: Seq<char>,
    pub port: Seq<char>,
    pub path: Seq<char>,
    pub searchpart: Seq<char>,
}

/// The parts of the URL `s`.
pub open spec fn parts_of(s: Seq<char>) -> UrlParts {
    UrlParts {
        scheme: scheme_name(),
        host: host_of(s),
        port: port_of(s),
        path: path_of(s),
        searchpart: searchpart_of(s),
    }
}

/// The parts of a URL that has not been parsed: all empty but the scheme.
pub open spec fn no_parts() -> UrlParts {
    UrlParts {
        scheme: scheme_name(),
        host: Seq::empty(),
        port: Seq::empty(),
        path: Seq::empty(),
        searchpart: Seq::empty(),
    }
}

/// Path and search part as a request names them: the path, then `?` and the
/// search part where there is one.
pub open spec fn target_of(parts: UrlParts) -> Seq<char> {
    if parts.searchpart.len() > 0 {
        parts.path + seq!['?'] + parts.searchpart
    } else {
        parts.path
    }
}

/// The parts written out as one URL, the port always among them:
/// `scheme://host:port/path`, then `?searchpart` where there is one.
pub open spec fn literal_of(parts: UrlParts) -> Seq<char> {
    parts.scheme + seq![':', '/', '/'] + parts.host + seq![':'] + parts.port + seq!['/']
        + target_of(parts)
}

/// No part holds the delimiter that would have ended it: the host is free of
/// `:` and `/`, the port of `/`, the path of `?`; and the scheme is `http`.
pub open spec fn delimited(parts: UrlParts) -> bool {
    &&& parts.scheme == scheme_name()
    &&& !parts.host.contains(':')
    &&& !parts.host.contains('/')
    &&& !parts.port.contains('/')
    &&& !parts.path.contains('?')
}

/// The port as a number, where it is a decimal numeral that fits 16 bits.
pub open spec fn port_number_of(parts: UrlParts) -> Option<u16> {
    if is_numeral(parts.port) && decimal(parts.port) <= u16::MAX {
        Some(decimal(parts.port) as u16)
    } else {
        None
    }
}

/// The parts found in any text are delimited.
pub proof fn lemma_parts_delimited(s: Seq<char>)
    ensures
        delimited(parts_of(s)),
{
    let t = after_scheme(s);
    let authority = authority_of(s);
    let rest = rest_of(s);
    lemma_first_in(t, '/', 0, t.len() as int);
    lemma_first_in(authority, ':', 0, authority.len() as int);
    lemma_first_in(rest, '?', 0, rest.len() as int);
    lemma_first_contains(authority, ':');
    assert(!default_port().contains('/'));
}

/// Delimited parts, written out and parsed, are found again.
pub proof fn lemma_literal_parses_back(parts: UrlParts)
    requires
        delimited(parts),
    ensures
        accepted(literal_of(parts)),
        parts_of(literal_of(parts)) == parts,
{
    let l = literal_of(parts);
    let target = target_of(parts);
    let u = parts.host + seq![':'] + parts.port + seq!['/'] + target;
    let authority = parts.host + seq![':'] + parts.port;
    assert(l.subrange(0, 7) == scheme_marker());
    assert(occurs_at(l, scheme_marker(), 0));
    assert(after_scheme(l) == u);
    lemma_first_in_is(u, '/', 0, u.len() as int, authority.len() as int);
    assert(u.take(authority.len() as int) == authority);
    assert(u.skip(authority.len() as int + 1) == target);
    lemma_first_in_is(authority, ':', 0, authority.len() as int, parts.host.len() as int);
    lemma_first_contains(authority, ':');
    assert(authority.take(parts.host.len() as int) == parts.host);
    assert(authority.skip(parts.host.len() as int + 1) == parts.port);
    lemma_first_in_is(target, '?', 0, target.len() as int, parts.path.len() as int);
    assert(target.take(parts.path.len() as int) == parts.path);
    if parts.searchpart.len() > 0 {
        assert(target.skip(parts.path.len() as int + 1) == parts.searchpart);
    } else {
        assert(parts.searchpart == Seq::<char>::empty());
    }
}

/// Round trip: the parts of a URL, written out with the port made explicit,
/// are a URL that is accepted and has the same parts.
pub proof fn lemma_round_trip(s: Seq<char>)
    ensures
        accepted(literal_of(parts_of(s))),
        parts_of(literal_of(parts_of(s))) == parts_of(s),
{
    lemma_parts_delimited(s);
    lemma_literal_parses_back(parts_of(s));
}

/// A URL: the text it was made from, and the parts found in it.
#[derive(Debug, PartialEq, Eq)]
pub struct Url {
    url: String,
    host: String,
    port: String,
    path: String,
    searchpart: String,
}

impl View for Url {
    type V = UrlParts;

    closed spec fn view(&self) -> UrlParts {
        UrlParts {
            scheme: scheme_name(),
            host: self.host@,
            port: self.port@,
            path: self.path@,
            searchpart: self.searchpart@,
        }
    }
}

impl Clone for Url {
    fn clone(&self) -> (copy: Url)
        ensures
            copy@ == self@,
            copy.raw() == self.raw(),
    {
        proof {
            use_type_invariant(self);
        }
        Url {
            url: self.url.clone(),
            host: self.host.clone(),
            port: self.port.clone(),
            path: self.path.clone(),
            searchpart: self.searchpart.clone(),
        }
    }
}

impl Url {
    /// The text that the URL was made from.
    pub closed spec fn raw(&self) -> Seq<char> {
        self.url@
    }

    /// A URL holds either no parts yet, or the parts of its text.
    #[verifier::type_invariant]
    closed spec fn consistent(&self) -> bool {
        ||| self@ == no_parts()
        ||| accepted(self.raw()) && self@ == parts_of(self.raw())
    }

    /// A URL over `url`, with no parts yet.
    pub fn new(url: String) -> (made: Url)
        ensures
            made.raw() == url@,
            made@ == no_parts(),
    {
        Url {
            url,
            host: String::new(),
            port: String::new(),
            path: String::new(),
            searchpart: String::new(),
        }
    }

    /// Fills in the parts of the URL from its text, and returns the URL so
    /// filled. A text without `http://` is refused, and the URL left as it was.
    pub fn parse(&mut self) -> (result: Result<Url, ValidationError>)
        ensures
            final(self).raw() == old(self).raw(),
            accepted(old(self).raw()) ==> (result matches Ok(url) && url@ == parts_of(
                old(self).raw(),
            ) && url.raw() == old(self).raw() && final(self)@ == url@),
            !accepted(old(self).raw()) ==> (result matches Err(e) && e@
                == Refusal::UnsupportedScheme { url: old(self).raw() } && final(self)@ == old(
                self,
            )@),
    {
        let chars: Vec<char> = chars_of(self.url.as_str());
        if !is_http(&chars) {
            return Err(ValidationError::UnsupportedScheme { url: self.url.clone() });
        }
        let parsed = Url {
            url: self.url.clone(),
            host: self.extract_host(&chars),
            port: self.extract_port(&chars),
            path: self.extract_path(&chars),
            searchpart: self.extract_searchpart(&chars),
        };
        *self = parsed.clone();
        Ok(parsed)
    }

    /// The host named by the text of the URL.
    fn extract_host(&self, chars: &Vec<char>) -> (host: String)
        requires
            chars@ == self.raw(),
        ensures
            host@ == host_of(self.raw()),
    {
        let span: (usize, usize) = authority_span(chars);
        let colon: usize = find_char(chars, ':', span.0, span.1);
        proof {
            lemma_first_in_piece(chars@, ':', span.0 as int, span.1 as int);
            assert(chars@.subrange(span.0 as int, span.1 as int).take(colon - span.0)
                == chars@.subrange(span.0 as int, colon as int));
        }
        slice_of(self.url.as_str(), span.0, colon)
    }

    /// The port named by the text of the URL, or `80`.
    fn extract_port(&self, chars: &Vec<char>) -> (port: String)
        requires
            chars@ == self.raw(),
        ensures
            port@ == port_of(self.raw()),
    {
        let span: (usize, usize) = authority_span(chars);
        let colon: usize = find_char(chars, ':', span.0, span.1);
        proof {
            lemma_first_in_piece(chars@, ':', span.0 as int, span.1 as int);
            lemma_first_contains(authority_of(chars@), ':');
        }
        if colon < span.1 {
            proof {
                assert(chars@.subrange(span.0 as int, span.1 as int).skip(colon - span.0 + 1)
                    == chars@.subrange(colon + 1, span.1 as int));
            }
            slice_of(self.url.as_str(), colon + 1, span.1)
        } else {
            proof {
                reveal_strlit("80");
                assert("80"@ == default_port());
            }
            "80".to_owned()
        }
    }

    /// The path named by the text of the URL.
    fn extract_path(&self, chars: &Vec<char>) -> (path: String)
        requires
            chars@ == self.raw(),
        ensures
            path@ == path_of(self.raw()),
    {
        let span: (usize, usize) = authority_span(chars);
        if span.1 < chars.len() {
            let mark: usize = find_char(chars, '?', span.1 + 1, chars.len());
            proof {
                lemma_first_in_piece(chars@, '?', span.1 + 1, chars@.len() as int);
                assert(chars@.subrange(span.1 + 1, chars@.len() as int).take(mark - span.1 - 1)
                    == chars@.subrange(span.1 + 1, mark as int));
            }
            slice_of(self.url.as_str(), span.1 + 1, mark)
        } else {
            proof {
                assert(before_first(Seq::<char>::empty(), '?') == Seq::<char>::empty());
            }
            String::new()
        }
    }

    /// The search part named by the text of the URL.
    fn extract_searchpart(&self, chars: &Vec<char>) -> (searchpart: String)
        requires
            chars@ == self.raw(),
        ensures
            searchpart@ == searchpart_of(self.raw()),
    {
        let span: (usize, usize) = authority_span(chars);
        if span.1 < chars.len() {
            let mark: usize = find_char(chars, '?', span.1 + 1, chars.len());
            proof {
                lemma_first_in_piece(chars@, '?', span.1 + 1, chars@.len() as int);
            }
            if mark < chars.len() {
                proof {
                    assert(chars@.subrange(span.1 + 1, chars@.len() as int).skip(mark - span.1)
                        == chars@.subrange(mark + 1, chars@.len() as int));
                }
                slice_of(self.url.as_str(), mark + 1, chars.len())
            } else {
                String::new()
            }
        } else {
            String::new()
        }
    }

    /// Path and search part as a request names them.
    pub fn request_target(&self) -> (target: String)
        ensures
            target@ == target_of(self@),
    {
        let mut target: String = self.path.clone();
        if !self.searchpart.as_str().is_empty() {
            proof {
                reveal_strlit("?");
                assert("?"@ == seq!['?']);
            }
            target.append("?");
            target.append(self.searchpart.as_str());
        }
        target
    }

    /// The URL written out from its parts, the port always among them.
    pub fn literal_form(&self) -> (literal: String)
        ensures
            literal@ == literal_of(self@),
    {
        proof {
            reveal_strlit("http://");
            reveal_strlit(":");
            reveal_strlit("/");
            assert("http://"@ == scheme_name() + seq![':', '/', '/']);
            assert(":"@ == seq![':']);
            assert("/"@ == seq!['/']);
        }
        let mut literal: String = "http://".to_owned();
        literal.append(self.host.as_str());
        literal.append(":");
        literal.append(self.port.as_str());
        literal.append("/");
        literal.append(self.request_target().as_str());
        literal
    }

    /// The port as a number, or `None` where the port is no decimal numeral
    /// or does not fit 16 bits.
    pub fn port_number(&self) -> (number: Option<u16>)
        ensures
            number == port_number_of(self@),
    {
        let digits: Vec<char> = chars_of(self.port.as_str());
        assert(digits@.subrange(0, digits@.len() as int) == digits@);
        match read_decimal(&digits, 0, digits.len(), 65535) {
            Some(n) => Some(n as u16),
            None => None,
        }
    }

    /// The scheme, which is always `http`.
    pub fn scheme(&self) -> (scheme: String)
        ensures
            scheme@ == self@.scheme,
    {
        proof {
            reveal_strlit("http");
            assert("http"@ == scheme_name());
        }
        "http".to_owned()
    }

    pub fn host(&self) -> (host: String)
        ensures
            host@ == self@.host,
    {
        self.host.clone()
    }

    pub fn port(&self) -> (port: String)
        ensures
            port@ == self@.port,
    {
        self.port.clone()
    }

    pub fn path(&self) -> (path: String)
        ensures
            path@ == self@.path,
    {
        self.path.clone()
    }

    pub fn searchpart(&self) -> (searchpart: String)
        ensures
            searchpart@ == self@.searchpart,
    {
        self.searchpart.clone()
    }
}

/// The characters `http://`.
fn marker_chars() -> (marker: Vec<char>)
    ensures
        marker@ == scheme_marker(),
{
    let marker: Vec<char> = chars_of("http://");
    proof {
        reveal_strlit("http://");
        assert(marker@ =~= scheme_marker());
    }
    marker
}

/// Tells whether `http://` stands somewhere in `chars`.
fn is_http(chars: &Vec<char>) -> (yes: bool)
    ensures
        yes == accepted(chars@),
{
    let marker: Vec<char> = marker_chars();
    let at: usize = find_pattern(chars, &marker, 0, chars.len());
    proof {
        assert(chars@.take(chars@.len() as int) == chars@);
        lemma_first_occurrence_occurs_in(chars@, marker@);
    }
    at < chars.len()
}

/// Where the authority starts and where it ends: after the scheme, and at the
/// first `/` from there or at the end of the text.
fn authority_span(chars: &Vec<char>) -> (span: (usize, usize))
    ensures
        span.0 <= span.1 <= chars@.len(),
        authority_of(chars@) == chars@.subrange(span.0 as int, span.1 as int),
        rest_of(chars@) == if span.1 < chars@.len() {
            chars@.subrange(span.1 + 1, chars@.len() as int)
        } else {
            Seq::empty()
        },
{
    let marker: Vec<char> = marker_chars();
    assert(chars@.take(chars@.len() as int) == chars@);
    let from: usize = if stands_at(chars, &marker, 0, chars.len()) {
        marker.len()
    } else {
        0
    };
    let to: usize = find_char(chars, '/', from, chars.len());
    proof {
        let s = chars@;
        let t = after_scheme(s);
        assert(t == s.subrange(from as int, s.len() as int));
        lemma_first_in_piece(s, '/', from as int, s.len() as int);
        assert(t.take(to - from) == s.subrange(from as int, to as int));
        if to < s.len() {
            assert(t.skip(to - from + 1) == s.subrange(to + 1, s.len() as int));
        }
    }
    (from, to)
}

} // verus!
