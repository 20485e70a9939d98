//! The `http` request builder made from a `RequestHead`.
use vstd::prelude::*;
use http::request::Builder;
use http::method::InvalidMethod;
use http::Method;
use crate::request::RequestHead;

verus! {

#[verifier::external_type_specification]
#[verifier::external_body]
pub struct ExBuilder(http::request::Builder);

#[verifier::external_type_specification]
#[verifier::external_body]
pub struct ExMethod(http::Method);

#[verifier::external_type_specification]
#[verifier::external_body]
pub struct ExInvalidMethod(http::method::InvalidMethod);

/// A character that `http` accepts in a method name: a letter, a digit, or one
/// of `! * + - . ^ _ ` | ~`.
pub open spec fn is_method_char(c: char) -> bool {
    ||| ('a' <= c && c <= 'z')
    ||| ('A' <= c && c <= 'Z')
    ||| ('0' <= c && c <= '9')
    ||| c == '!' || c == '*' || c == '+' || c == '-' || c == '.'
    ||| c == '^' || c == '_' || c == '`' || c == '|' || c == '~'
}

/// A method name that `http` accepts: not empty, every character allowed.
pub open spec fn is_method_token(s: Seq<char>) -> bool {
    s.len() > 0 && forall|i: int| 0 <= i < s.len() ==> is_method_char(#[trigger] s[i])
}

/// A character that `http` accepts in a header name: a letter, a digit, or one
/// of ``! " # $ % & ' * + - . ^ _ ` | ~``.
pub open spec fn is_header_name_char(c: char) -> bool {
    ||| ('a' <= c && c <= 'z')
    ||| ('A' <= c && c <= 'Z')
    ||| ('0' <= c && c <= '9')
    ||| c == '!' || c == '"' || c == '#' || c == '$' || c == '%' || c == '&' || c == '\''
    ||| c == '*' || c == '+' || c == '-' || c == '.'
    ||| c == '^' || c == '_' || c == '`' || c == '|' || c == '~'
}

/// A header name that `http` accepts: 1 to 65535 allowed characters.
pub open spec fn is_header_name(s: Seq<char>) -> bool {
    &&& 1 <= s.len() <= 65535
    &&& forall|i: int| 0 <= i < s.len() ==> is_header_name_char(#[trigger] s[i])
}

/// A header value that `http` accepts: no control character but the tab, and
/// no DEL (every character from 128 on is encoded in bytes that `http` accepts).
pub open spec fn is_header_value(s: Seq<char>) -> bool {
    forall|i: int| 0 <= i < s.len() ==> {
        let c = #[trigger] s[i];
        (c as u32 >= 32 && c as u32 != 127) || c == '\t'
    }
}

/// `s` with its ASCII capital letters made small, as `http` stores header names.
pub open spec fn ascii_lowercase(s: Seq<char>) -> Seq<char> {
    s.map_values(|c: char| if 'A' <= c && c <= 'Z' { ((c as u32) + 32) as char } else { c })
}

/// The header that `http` stores for `name: value`.
pub open spec fn stored_header(h: (Seq<char>, Seq<char>)) -> (Seq<char>, Seq<char>) {
    (ascii_lowercase(h.0), h.1)
}

/// The header map `m` after `value` is appended under `name`: the values of
/// each name are kept in the order in which they were appended.
pub open spec fn append_header(
    m: Map<Seq<char>, Seq<Seq<char>>>,
    name: Seq<char>,
    value: Seq<char>,
) -> Map<Seq<char>, Seq<Seq<char>>> {
    let before = if m.contains_key(name) { m[name] } else { Seq::empty() };
    m.insert(name, before.push(value))
}

/// The headers that `http` stores for the header lines `hs`: for each name in
/// lowercase, its values in the order of the lines.
pub open spec fn stored_headers(hs: Seq<(Seq<char>, Seq<char>)>) -> Map<Seq<char>, Seq<Seq<char>>>
    decreases hs.len(),
{
    if hs.len() == 0 {
        Map::empty()
    } else {
        let h = stored_header(hs.last());
        append_header(stored_headers(hs.drop_last()), h.0, h.1)
    }
}

/// Every header line has a name and a value that `http` accepts.
pub open spec fn headers_accepted(hs: Seq<(Seq<char>, Seq<char>)>) -> bool {
    forall|i: int| 0 <= i < hs.len() ==> is_header_name((#[trigger] hs[i]).0) && is_header_value(hs[i].1)
}

/// The headers that a builder holds: for each (lowercase) name, its values in
/// the order in which they were appended.
pub uninterp spec fn builder_headers(b: Builder) -> Map<Seq<char>, Seq<Seq<char>>>;

/// The builder holds a request, not an error.
pub uninterp spec fn builder_is_ok(b: Builder) -> bool;

/// The text of the method that a builder holds.
pub uninterp spec fn builder_method_name(b: Builder) -> Seq<char>;

/// The text of the URI that a builder holds, as `http::Uri` displays it.
pub uninterp spec fn builder_uri_text(b: Builder) -> Seq<char>;

/// `http::Uri::try_from` accepts the text `uri`.
pub uninterp spec fn uri_accepted(uri: Seq<char>) -> bool;

/// The text, as `http::Uri` displays it, of the URI that `http::Uri::try_from`
/// makes of the text `uri`.
pub uninterp spec fn uri_text(uri: Seq<char>) -> Seq<char>;

/// `http::Request::builder()`: a builder that holds a request with no header.
#[verifier::external_body]
fn new_builder() -> (b: Builder)
    ensures
        builder_is_ok(b),
        builder_headers(b).dom() == Set::<Seq<char>>::empty(),
{
    http::Request::builder()
}

/// `Builder::header`: parses `name` and `value` and appends the header (after
/// the earlier values of the same name), or records in the builder that one of
/// them is invalid; a builder that holds an error keeps it. The header map can
/// also refuse a new name when it cannot grow, which it does not while it holds
/// fewer than 3000 names: from then on, that the builder stays free of errors
/// is not claimed.
#[verifier::external_body]
fn builder_header(b: Builder, name: &str, value: &str) -> (r: Builder)
    ensures
        builder_is_ok(r) ==> builder_is_ok(b) && is_header_name(name@) && is_header_value(value@),
        builder_is_ok(r) ==> builder_headers(r) == append_header(
            builder_headers(b),
            ascii_lowercase(name@),
            value@,
        ),
        builder_is_ok(r) ==> builder_method_name(r) == builder_method_name(b),
        builder_is_ok(r) ==> builder_uri_text(r) == builder_uri_text(b),
        builder_is_ok(b) && is_header_name(name@) && is_header_value(value@)
            && builder_headers(b).dom().len() < 3000 ==> builder_is_ok(r),
{
    b.header(name, value)
}

/// `Builder::method` with a method's text: parses it and sets it, or records in
/// the builder that it is invalid; a builder that holds an error keeps it.
#[verifier::external_body]
fn builder_method(b: Builder, method: &str) -> (r: Builder)
    ensures
        builder_is_ok(r) == (builder_is_ok(b) && is_method_token(method@)),
        builder_is_ok(r) ==> builder_headers(r) == builder_headers(b),
        builder_is_ok(r) ==> builder_method_name(r) == method@,
        builder_is_ok(r) ==> builder_uri_text(r) == builder_uri_text(b),
{
    b.method(method)
}

/// `Builder::uri`: parses the URI and sets it, or records in the builder that
/// it is invalid; a builder that holds an error keeps it. Which texts parse,
/// and the text of the parsed URI, are named, not stated.
#[verifier::external_body]
fn builder_uri(b: Builder, uri: String) -> (r: Builder)
    ensures
        builder_is_ok(r) == (builder_is_ok(b) && uri_accepted(uri@)),
        builder_is_ok(r) ==> builder_headers(r) == builder_headers(b),
        builder_is_ok(r) ==> builder_method_name(r) == builder_method_name(b),
        builder_is_ok(r) ==> builder_uri_text(r) == uri_text(uri@),
{
    b.uri(uri)
}

/// `Method::from_str`: succeeds exactly on a method token (every byte is
/// checked against `http`'s table of method characters, which are all ASCII).
/// Which `Method` comes back is not claimed.
#[verifier::external_body]
fn method_from_str(s: &str) -> (m: Result<Method, InvalidMethod>)
    ensures
        m is Ok <==> is_method_token(s@),
{
    <Method as std::str::FromStr>::from_str(s)
}

impl RequestHead {
    /// The method can be handed to `http`.
    pub open spec fn has_valid_method(&self) -> bool {
        is_method_token(self.method@)
    }

    /// Whether `http` accepts this head's method.
    pub fn method_is_valid(&self) -> (ok: bool)
        ensures
            ok == self.has_valid_method(),
    {
        match method_from_str(self.method.as_str()) {
            Ok(_) => true,
            Err(_) => false,
        }
    }

    /// An `http` request builder with this head's headers, then its method and
    /// its URI. It holds a request exactly when `http` accepts every header and
    /// the URI (for fewer than 3000 distinct header names; beyond, only the one way is
    /// claimed); the request then has the head's method, its URI and its
    /// headers, names in lowercase and each name's values in the order of the
    /// lines.
    pub fn into_builder(self) -> (b: Builder)
        requires
            self.has_valid_method(),
        ensures
            builder_is_ok(b) ==> headers_accepted(self@.headers) && uri_accepted(self.uri@),
            headers_accepted(self@.headers) && uri_accepted(self.uri@)
                && stored_headers(self@.headers).dom().len() < 3000 ==> builder_is_ok(b),
            builder_is_ok(b) ==> builder_headers(b) == stored_headers(self@.headers),
            builder_is_ok(b) ==> builder_method_name(b) == self.method@,
            builder_is_ok(b) ==> builder_uri_text(b) == uri_text(self.uri@),
    {
        let ghost hs = self@.headers;
        let mut b = new_builder();
        let n: usize = self.headers.len();
        for i in 0..n
            invariant
                n == self.headers@.len(),
                hs == self@.headers,
                hs.len() == n,
                builder_is_ok(b) ==> headers_accepted(hs.take(i as int))
                    && builder_headers(b) == stored_headers(hs.take(i as int)),
                headers_accepted(hs.take(i as int)) && stored_headers(hs).dom().len() < 3000
                    ==> builder_is_ok(b),
        {
            let ghost before = b;
            proof {
                lemma_stored_headers_len(hs.take(i as int));
                lemma_stored_names_grow(hs, i as int);
                assert(hs.take(i as int + 1).drop_last() =~= hs.take(i as int));
                assert(hs[i as int] == self.headers@[i as int]@);
            }
            b = builder_header(b, self.headers[i].name.as_str(), self.headers[i].value.as_str());
            proof {
                let t = hs.take(i as int + 1);
                if builder_is_ok(b) {
                    assert forall|j: int| 0 <= j < t.len() implies is_header_name((#[trigger] t[j]).0)
                        && is_header_value(t[j].1) by {
                        if j < i {
                            assert(t[j] == hs.take(i as int)[j]);
                        }
                    }
                }
                if headers_accepted(t) && stored_headers(hs).dom().len() < 3000 {
                    assert(headers_accepted(hs.take(i as int))) by {
                        assert forall|j: int| 0 <= j < i implies is_header_name(
                            (#[trigger] hs.take(i as int)[j]).0,
                        ) && is_header_value(hs.take(i as int)[j].1) by {
                            assert(hs.take(i as int)[j] == t[j]);
                        }
                    }
                    assert(t[i as int] == hs[i as int]);
                }
            }
        }
        proof {
            assert(hs.take(n as int) =~= hs);
        }
        b = builder_method(b, self.method.as_str());
        builder_uri(b, self.uri)
    }
}

/// The header lines before position `i` store no more names than all of `hs`.
proof fn lemma_stored_names_grow(hs: Seq<(Seq<char>, Seq<char>)>, i: int)
    requires
        0 <= i <= hs.len(),
    ensures
        stored_headers(hs.take(i)).dom().subset_of(stored_headers(hs).dom()),
        stored_headers(hs.take(i)).dom().len() <= stored_headers(hs).dom().len(),
    decreases hs.len(),
{
    lemma_stored_headers_len(hs);
    lemma_stored_headers_len(hs.take(i));
    if i < hs.len() {
        let shorter = hs.drop_last();
        lemma_stored_names_grow(shorter, i);
        assert(shorter.take(i) =~= hs.take(i));
        let h = stored_header(hs.last());
        assert(stored_headers(hs).dom() =~= stored_headers(shorter).dom().insert(h.0));
    } else {
        assert(hs.take(i) =~= hs);
    }
    vstd::set_lib::lemma_len_subset(stored_headers(hs.take(i)).dom(), stored_headers(hs).dom());
}

/// The stored headers of `hs` have no more names than `hs` has lines.
proof fn lemma_stored_headers_len(hs: Seq<(Seq<char>, Seq<char>)>)
    ensures
        stored_headers(hs).dom().finite(),
        stored_headers(hs).dom().len() <= hs.len(),
    decreases hs.len(),
{
    if hs.len() > 0 {
        lemma_stored_headers_len(hs.drop_last());
        let m = stored_headers(hs.drop_last());
        let h = stored_header(hs.last());
        assert(stored_headers(hs).dom() =~= m.dom().insert(h.0));
    }
}

} // verus!
