//! URLs: the `Url` of the `url` crate.
//!
//! A `Url` lends its serialization, and answers from what it has noted about it:
//! where its parts begin and end, which host and port it names. In a `Url` as
//! the parser makes it the notes agree with the serialization, so what it
//! answers is stated over that text. The setters can bring the two apart, so
//! those answers are relied on for parsed URLs only.

use url::{ParseError, Url};
use vstd::prelude::*;
use vstd::utf8::encode_utf8;

verus! {

/// A URL.
#[verifier::external_type_specification]
#[verifier::external_body]
pub struct ExUrl(Url);

/// Why a text is no URL.
#[verifier::external_type_specification]
#[verifier::external_body]
pub struct ExParseError(ParseError);

/// The serialization of a URL.
pub uninterp spec fn serialization(url: Url) -> Seq<char>;

/// What the parser makes of a text.
pub uninterp spec fn parsed(text: Seq<char>) -> Result<Url, ParseError>;

/// The ASCII serialization of the origin of the parsed URL with this
/// serialization.
pub uninterp spec fn origin_in(text: Seq<char>) -> Seq<char>;

/// How many characters of `text` come before the first of `stops`: all of them
/// if none of `stops` occurs.
pub open spec fn length_before(text: Seq<char>, stops: Seq<char>) -> int
    decreases text.len(),
{
    if text.len() == 0 || stops.contains(text[0]) {
        0
    } else {
        1 + length_before(text.skip(1), stops)
    }
}

/// The scheme of the URL with this serialization: what stands before the
/// first colon.
pub open spec fn scheme_in(text: Seq<char>) -> Seq<char> {
    text.take(length_before(text, seq![':']))
}

/// What follows the scheme in a serialization, from the colon on.
pub open spec fn after_scheme(text: Seq<char>) -> Seq<char> {
    text.skip(scheme_in(text).len() as int)
}

/// Whether a serialization has an authority: two slashes follow the colon.
pub open spec fn has_authority(text: Seq<char>) -> bool {
    seq![':', '/', '/'].is_prefix_of(after_scheme(text))
}

/// The authority in a serialization, empty if it has none.
pub open spec fn authority_in(text: Seq<char>) -> Seq<char> {
    if has_authority(text) {
        let rest = after_scheme(text).skip(3);
        rest.take(length_before(rest, seq!['/', '?', '#']))
    } else {
        Seq::empty()
    }
}

/// The part of an authority before its at sign, empty if it has none.
pub open spec fn userinfo_of(authority: Seq<char>) -> Seq<char> {
    let length = length_before(authority, seq!['@']);
    if length < authority.len() {
        authority.take(length)
    } else {
        Seq::empty()
    }
}

/// The user name in the parsed URL with this serialization, empty if it has
/// none.
pub open spec fn username_in(text: Seq<char>) -> Seq<char> {
    let userinfo = userinfo_of(authority_in(text));
    userinfo.take(length_before(userinfo, seq![':']))
}

/// The password in the parsed URL with this serialization, if it has one: what
/// follows the colon behind the user name.
pub open spec fn password_in(text: Seq<char>) -> Option<Seq<char>> {
    let userinfo = userinfo_of(authority_in(text));
    let length = length_before(userinfo, seq![':']);
    if length < userinfo.len() {
        Some(userinfo.skip(length + 1))
    } else {
        None
    }
}

/// The path in the parsed URL with this serialization. A path that would look
/// like an authority is told apart from one by a slash and a dot before it.
pub open spec fn path_in(text: Seq<char>) -> Seq<char> {
    let rest = after_scheme(text).skip(1);
    let path = if has_authority(text) {
        rest.skip(2int + authority_in(text).len())
    } else if seq!['/', '.', '/', '/'].is_prefix_of(rest) {
        rest.skip(2)
    } else {
        rest
    };
    path.take(length_before(path, seq!['?', '#']))
}

/// The serialization of a `ws` URL once it is changed to `wss`: the port that
/// `wss` has by default is no longer named, and all else stays.
pub open spec fn secured(text: Seq<char>) -> Seq<char> {
    let end = 5int + authority_in(text).len();
    let port: int = if seq![':', '4', '4', '3'].is_suffix_of(authority_in(text)) {
        4
    } else {
        0
    };
    "wss"@ + text.subrange(2, end - port) + text.skip(end)
}

/// Whether a URL is as the parser made it.
pub open spec fn is_parsed(url: Url) -> bool {
    exists|text: Seq<char>| #[trigger] parsed(text) == Ok::<Url, ParseError>(url)
}

/// Whether a text is short enough to be parsed.
pub open spec fn is_short(text: Seq<char>) -> bool {
    encode_utf8(text).len() <= i32::MAX
}

/// Whether the offsets into a URL's serialization fit in 32 bits, and will do
/// so if it grows by one byte.
pub open spec fn has_room(url: Url) -> bool {
    encode_utf8(serialization(url)).len() < u32::MAX
}

/// Whether a URL is at most `limit` `blob` URLs, one in another, around one
/// that is no `blob` URL or a text that is no URL.
pub open spec fn nests_at_most(url: Url, limit: nat) -> bool
    decreases limit,
{
    scheme_in(serialization(url)) == "blob"@ ==> {
        &&& limit > 0
        &&& is_short(path_in(serialization(url)))
        &&& parsed(path_in(serialization(url))) matches Ok(inner) ==> nests_at_most(
            inner,
            (limit - 1) as nat,
        )
    }
}

/// How many `blob` URLs may be nested in one another where the origin is asked
/// for.
pub const MAX_BLOB_NESTING: u32 = 64;

/// `Url::parse` parses an absolute URL, or says why the text is none. It counts
/// the characters of the authority in a signed 32-bit number, which longer texts
/// may overflow.
pub assume_specification[ Url::parse ](input: &str) -> (url: Result<Url, ParseError>)
    requires
        is_short(input@),
    ensures
        url == parsed(input@),
;

/// `Url::clone` copies the URL.
pub assume_specification[ <Url as Clone>::clone ](url: &Url) -> (copy: Url)
    ensures
        copy == *url,
;

/// `Url::as_str` lends the serialization.
pub assume_specification[ Url::as_str ](url: &Url) -> (text: &str)
    ensures
        text@ == serialization(*url),
;

/// `Url::scheme` lends the part of the serialization before the first colon.
pub assume_specification[ Url::scheme ](url: &Url) -> (scheme: &str)
    ensures
        scheme@ == scheme_in(serialization(*url)),
;

/// `Url::username` lends the user name, the empty text if there is none.
pub assume_specification[ Url::username ](url: &Url) -> (username: &str)
    requires
        is_parsed(*url),
    ensures
        username@ == username_in(serialization(*url)),
;

/// `Url::password` lends the password, if there is one. It takes the length of
/// the serialization for a 32-bit number.
pub assume_specification[ Url::password ](url: &Url) -> (password: Option<&str>)
    requires
        is_parsed(*url),
        has_room(*url),
    ensures
        password is Some <==> password_in(serialization(*url)) is Some,
        password matches Some(p) ==> password_in(serialization(*url)) == Some(p@),
;

/// `Url::path` lends the path.
pub assume_specification[ Url::path ](url: &Url) -> (path: &str)
    requires
        is_parsed(*url),
    ensures
        path@ == path_in(serialization(*url)),
;

/// `Url::origin` and `Origin::ascii_serialization` spell out the URL's origin.
/// The origin of a `blob` URL is that of the URL in its path, for which
/// `Url::origin` parses the path and calls itself: how deep it can go the stack
/// decides, so the nesting is bounded.
#[verifier::external_body]
pub(crate) fn ascii_origin(url: &Url) -> (origin: String)
    requires
        is_parsed(*url),
        nests_at_most(*url, MAX_BLOB_NESTING as nat),
    ensures
        origin@ == origin_in(serialization(*url)),
{
    url.origin().ascii_serialization()
}

/// `Url::set_scheme` changes a `ws` URL to `wss`, and does not fail at it. It
/// moves the offsets into the serialization by one.
#[verifier::external_body]
pub(crate) fn replace_scheme(url: &mut Url, scheme: &str) -> (outcome: Result<(), ()>)
    requires
        is_parsed(*old(url)),
        has_room(*old(url)),
        scheme_in(serialization(*old(url))) == "ws"@,
        scheme@ == "wss"@,
    ensures
        outcome is Ok,
        serialization(*final(url)) == secured(serialization(*old(url))),
{
    url.set_scheme(scheme)
}

} // verus!
