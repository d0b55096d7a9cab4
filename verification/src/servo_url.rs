//! The engine's URLs: as the parser made them, and never changed since.

use url::{ParseError, Url};
use vstd::prelude::*;
use vstd::utf8::encode_utf8;

use crate::foreign::address::{
    after_scheme, ascii_origin, authority_in, has_authority, has_room, is_parsed, is_short,
    length_before, nests_at_most, origin_in, parsed, password_in, path_in, scheme_in,
    serialization, userinfo_of, username_in, MAX_BLOB_NESTING,
};
use crate::websocket_loader::handshake::opt_text;

verus! {

/// Why a text is not taken for a URL.
#[derive(Debug)]
pub enum UrlError {
    /// It is none.
    Syntax(ParseError),
    /// It is too long for 32-bit offsets.
    TooLong,
    /// It nests more than [`MAX_BLOB_NESTING`] `blob` URLs.
    TooDeep,
}

/// A URL, in terms of its serialization.
#[derive(Debug)]
pub struct ServoUrl {
    url: Url,
}

impl View for ServoUrl {
    type V = Seq<char>;

    closed spec fn view(&self) -> Seq<char> {
        serialization(self.url)
    }
}

impl Clone for ServoUrl {
    fn clone(&self) -> (copy: Self)
        ensures
            copy == *self,
    {
        proof {
            use_type_invariant(self);
        }
        ServoUrl { url: self.url.clone() }
    }
}

/// Whether `url` is at most `limit` `blob` URLs, one in another.
fn is_shallow(url: &Url, limit: u32) -> (shallow: bool)
    requires
        is_parsed(*url),
    ensures
        shallow == nests_at_most(*url, limit as nat),
    decreases limit,
{
    if url.scheme().to_owned() != "blob".to_owned() {
        return true;
    }
    let path = url.path();
    if limit == 0 || path.as_bytes().len() > 0x7fff_ffff {
        return false;
    }
    match Url::parse(path) {
        Ok(inner) => is_shallow(&inner, limit - 1),
        Err(_) => true,
    }
}

impl ServoUrl {
    #[verifier::type_invariant]
    spec fn is_servable(self) -> bool {
        &&& is_parsed(self.url)
        &&& has_room(self.url)
        &&& nests_at_most(self.url, MAX_BLOB_NESTING as nat)
    }

    /// Parses an absolute URL.
    pub fn parse(text: &str) -> (url: Result<ServoUrl, UrlError>)
        ensures
            match url {
                Ok(url) => {
                    &&& is_short(text@)
                    &&& parsed(text@) matches Ok(made)
                    &&& url@ == serialization(made)
                    &&& has_room(made)
                    &&& nests_at_most(made, MAX_BLOB_NESTING as nat)
                },
                Err(UrlError::Syntax(error)) => {
                    &&& is_short(text@)
                    &&& parsed(text@) == Err::<Url, ParseError>(error)
                },
                Err(UrlError::TooLong) => {
                    ||| !is_short(text@)
                    ||| parsed(text@) matches Ok(made) && !has_room(made)
                },
                Err(UrlError::TooDeep) => {
                    &&& is_short(text@)
                    &&& parsed(text@) matches Ok(made)
                    &&& has_room(made)
                    &&& !nests_at_most(made, MAX_BLOB_NESTING as nat)
                },
            },
    {
        if text.as_bytes().len() > 0x7fff_ffff {
            return Err(UrlError::TooLong);
        }
        match Url::parse(text) {
            Ok(url) => {
                if url.as_str().as_bytes().len() >= 0xffff_ffff {
                    Err(UrlError::TooLong)
                } else if !is_shallow(&url, MAX_BLOB_NESTING) {
                    Err(UrlError::TooDeep)
                } else {
                    Ok(ServoUrl { url })
                }
            },
            Err(error) => Err(UrlError::Syntax(error)),
        }
    }

    /// The URL as the `url` crate has it.
    pub fn as_url(&self) -> (url: &Url)
        ensures
            is_parsed(*url),
            serialization(*url) == self@,
            has_room(*url),
            nests_at_most(*url, MAX_BLOB_NESTING as nat),
    {
        proof {
            use_type_invariant(self);
        }
        &self.url
    }

    /// The URL as the `url` crate has it, to be changed.
    pub fn into_url(self) -> (url: Url)
        ensures
            is_parsed(url),
            serialization(url) == self@,
            has_room(url),
    {
        proof {
            use_type_invariant(&self);
        }
        self.url
    }

    /// The serialization.
    pub fn as_str(&self) -> (text: &str)
        ensures
            text@ == self@,
    {
        self.url.as_str()
    }

    /// The scheme, without its colon.
    pub fn scheme(&self) -> (scheme: &str)
        ensures
            scheme@ == scheme_in(self@),
    {
        self.url.scheme()
    }

    /// The user name, empty if there is none.
    pub fn username(&self) -> (username: &str)
        ensures
            username@ == username_in(self@),
    {
        self.as_url().username()
    }

    /// The password, if there is one.
    pub fn password(&self) -> (password: Option<&str>)
        ensures
            opt_text(password) == password_in(self@),
    {
        self.as_url().password()
    }

    /// The ASCII serialization of the origin.
    pub fn ascii_origin(&self) -> (origin: String)
        ensures
            origin@ == origin_in(self@),
    {
        ascii_origin(self.as_url())
    }
}

/// The first of `stops` is found where none comes before it.
pub proof fn lemma_length_before(text: Seq<char>, stops: Seq<char>)
    ensures
        0 <= length_before(text, stops) <= text.len(),
        forall|j: int|
            0 <= j < length_before(text, stops) ==> !stops.contains(#[trigger] text[j]),
        length_before(text, stops) < text.len() ==> stops.contains(
            text[length_before(text, stops)],
        ),
    decreases text.len(),
{
    if text.len() > 0 && !stops.contains(text[0]) {
        let rest = text.skip(1);
        lemma_length_before(rest, stops);
        assert forall|j: int| 0 <= j < length_before(text, stops) implies !stops.contains(
            #[trigger] text[j],
        ) by {
            if j > 0 {
                assert(rest[j - 1] == text[j]);
            }
        }
    }
}

/// Where one of `stops` or the end comes, and none of them before, is the first
/// of them.
pub proof fn lemma_length_before_is(text: Seq<char>, stops: Seq<char>, length: int)
    requires
        0 <= length <= text.len(),
        forall|j: int| 0 <= j < length ==> !stops.contains(#[trigger] text[j]),
        length < text.len() ==> stops.contains(text[length]),
    ensures
        length_before(text, stops) == length,
{
    lemma_length_before(text, stops);
    let found = length_before(text, stops);
    if found < length {
        assert(!stops.contains(text[found]));
    }
    if length < found {
        assert(!stops.contains(text[length]));
    }
}

/// The parts of a text that is put together from a scheme, an authority and what
/// follows it.
pub proof fn lemma_parts(text: Seq<char>, scheme: Seq<char>, authority: Seq<char>, tail: Seq<char>)
    requires
        text == scheme + seq![':', '/', '/'] + authority + tail,
        !scheme.contains(':'),
        forall|j: int|
            0 <= j < authority.len() ==> !seq!['/', '?', '#'].contains(#[trigger] authority[j]),
        tail.len() > 0 ==> seq!['/', '?', '#'].contains(tail[0]),
    ensures
        scheme_in(text) == scheme,
        has_authority(text),
        authority_in(text) == authority,
        path_in(text) == tail.take(length_before(tail, seq!['?', '#'])),
{
    let marks = seq![':', '/', '/'];
    assert forall|j: int| 0 <= j < scheme.len() implies !seq![':'].contains(
        #[trigger] text[j],
    ) by {
        assert(text[j] == scheme[j]);
    }
    assert(text[scheme.len() as int] == marks[0]);
    assert(seq![':'][0] == ':');
    lemma_length_before_is(text, seq![':'], scheme.len() as int);
    assert(scheme_in(text) =~= scheme);
    let after = after_scheme(text);
    assert(after =~= marks + authority + tail);
    assert(after.subrange(0, 3) =~= marks);
    let rest = after.skip(3);
    assert(rest =~= authority + tail);
    if tail.len() > 0 {
        assert(rest[authority.len() as int] == tail[0]);
    }
    lemma_length_before_is(rest, seq!['/', '?', '#'], authority.len() as int);
    assert(authority_in(text) =~= authority);
    assert(after.skip(1).skip(2int + authority.len()) =~= tail);
}

/// The credentials in a text that is put together from its parts: the user name
/// and the password are read back as they went in, and what has no at sign in its
/// authority has neither.
pub proof fn law_credentials_are_read_back(
    scheme: Seq<char>,
    username: Seq<char>,
    password: Seq<char>,
    host: Seq<char>,
    tail: Seq<char>,
)
    requires
        !scheme.contains(':'),
        forall|j: int|
            0 <= j < username.len() ==> !seq!['/', '?', '#', '@', ':'].contains(
                #[trigger] username[j],
            ),
        forall|j: int|
            0 <= j < password.len() ==> !seq!['/', '?', '#', '@'].contains(#[trigger] password[j]),
        forall|j: int|
            0 <= j < host.len() ==> !seq!['/', '?', '#', '@'].contains(#[trigger] host[j]),
        tail.len() > 0 ==> seq!['/', '?', '#'].contains(tail[0]),
    ensures
        ({
            let both = scheme + seq![':', '/', '/'] + (username + seq![':'] + password + seq!['@']
                + host) + tail;
            &&& username_in(both) == username
            &&& password_in(both) == Some(password)
        }),
        ({
            let one = scheme + seq![':', '/', '/'] + (username + seq!['@'] + host) + tail;
            &&& username_in(one) == username
            &&& password_in(one) is None
        }),
        ({
            let none = scheme + seq![':', '/', '/'] + host + tail;
            &&& username_in(none).len() == 0
            &&& password_in(none) is None
        }),
{
    let pair = username + seq![':'] + password;
    lemma_userinfo(scheme, pair, host, tail);
    lemma_userinfo(scheme, username, host, tail);
    assert(pair + seq!['@'] + host =~= username + seq![':'] + password + seq!['@'] + host);
    assert(seq![':'][0] == ':');
    assert(seq!['/', '?', '#', '@', ':'][4] == ':');
    assert forall|j: int| 0 <= j < username.len() implies !seq![':'].contains(
        #[trigger] username[j],
    ) && !seq![':'].contains(pair[j]) by {
        assert(pair[j] == username[j]);
    }
    assert(pair[username.len() as int] == ':');
    lemma_length_before_is(pair, seq![':'], username.len() as int);
    lemma_length_before_is(username, seq![':'], username.len() as int);
    assert(pair.take(username.len() as int) =~= username);
    assert(pair.skip(1int + username.len()) =~= password);
    assert(username.take(username.len() as int) =~= username);

    let none = scheme + seq![':', '/', '/'] + host + tail;
    assert(seq!['/', '?', '#', '@'][0] == '/' && seq!['/', '?', '#', '@'][1] == '?'
        && seq!['/', '?', '#', '@'][2] == '#' && seq!['/', '?', '#', '@'][3] == '@');
    lemma_parts(none, scheme, host, tail);
    lemma_length_before_is(host, seq!['@'], host.len() as int);
}

/// What comes before the at sign of an authority, in a text put together.
proof fn lemma_userinfo(
    scheme: Seq<char>,
    userinfo: Seq<char>,
    host: Seq<char>,
    tail: Seq<char>,
)
    requires
        !scheme.contains(':'),
        forall|j: int|
            0 <= j < userinfo.len() ==> !seq!['/', '?', '#', '@'].contains(#[trigger] userinfo[j]),
        forall|j: int|
            0 <= j < host.len() ==> !seq!['/', '?', '#', '@'].contains(#[trigger] host[j]),
        tail.len() > 0 ==> seq!['/', '?', '#'].contains(tail[0]),
    ensures
        userinfo_of(
            authority_in(
                scheme + seq![':', '/', '/'] + (userinfo + seq!['@'] + host) + tail,
            ),
        ) == userinfo,
{
    let all = seq!['/', '?', '#', '@'];
    let stops = seq!['/', '?', '#'];
    let authority = userinfo + seq!['@'] + host;
    assert(all[0] == '/' && all[1] == '?' && all[2] == '#' && all[3] == '@');
    assert(seq!['@'][0] == '@');
    assert forall|j: int| 0 <= j < authority.len() implies !stops.contains(
        #[trigger] authority[j],
    ) by {
        if j < userinfo.len() {
            assert(authority[j] == userinfo[j]);
        } else if j > userinfo.len() {
            assert(authority[j] == host[j - userinfo.len() - 1]);
        }
    }
    lemma_parts(scheme + seq![':', '/', '/'] + authority + tail, scheme, authority, tail);
    assert forall|j: int| 0 <= j < userinfo.len() implies !seq!['@'].contains(
        #[trigger] authority[j],
    ) by {
        assert(authority[j] == userinfo[j]);
    }
    assert(authority[userinfo.len() as int] == '@');
    lemma_length_before_is(authority, seq!['@'], userinfo.len() as int);
    assert(authority.take(userinfo.len() as int) =~= userinfo);
}

/// How deep `blob` URLs are nested: a URL of another scheme not at all, and a
/// `blob` URL one deeper than what its path parses to. At most sixty-four are
/// taken, and texts and serializations as far as 32 bits reach.
pub proof fn law_nesting_counts_blobs(url: Url, text: Seq<char>, limit: nat)
    ensures
        scheme_in(serialization(url)) != "blob"@ ==> nests_at_most(url, limit),
        scheme_in(serialization(url)) == "blob"@ ==> !nests_at_most(url, 0),
        scheme_in(serialization(url)) == "blob"@ ==> (nests_at_most(url, limit + 1) <==> {
            &&& encode_utf8(path_in(serialization(url))).len() <= 0x7fff_ffff
            &&& parsed(path_in(serialization(url))) matches Ok(inner) ==> nests_at_most(
                inner,
                limit,
            )
        }),
        MAX_BLOB_NESTING == 64,
        is_short(text) <==> encode_utf8(text).len() <= 0x7fff_ffff,
        has_room(url) <==> encode_utf8(serialization(url)).len() < 0xffff_ffff,
{
}

/// The scheme and the path of a text that is put together without an authority:
/// both are read back as they went in, also where a slash and a dot keep a path
/// apart from an authority.
pub proof fn law_scheme_and_path_are_read_back(
    scheme: Seq<char>,
    path: Seq<char>,
    tail: Seq<char>,
)
    requires
        !scheme.contains(':'),
        forall|j: int| 0 <= j < path.len() ==> #[trigger] path[j] != '?' && path[j] != '#',
        tail.len() > 0 ==> tail[0] == '?' || tail[0] == '#',
    ensures
        scheme_in(scheme + seq![':'] + path + tail) == scheme,
        !seq!['/', '/'].is_prefix_of(path) && !seq!['/', '.', '/', '/'].is_prefix_of(path)
            ==> path_in(scheme + seq![':'] + path + tail) == path,
        seq!['/', '/'].is_prefix_of(path) ==> path_in(
            scheme + seq![':', '/', '.'] + path + tail,
        ) == path,
{
    let stops = seq!['?', '#'];
    assert(seq![':'][0] == ':' && stops[0] == '?' && stops[1] == '#');
    lemma_opaque_parts(scheme, path + tail);
    assert(scheme + seq![':'] + (path + tail) =~= scheme + seq![':'] + path + tail);
    assert forall|j: int| 0 <= j < path.len() implies !stops.contains(
        #[trigger] (path + tail)[j],
    ) by {
        assert((path + tail)[j] == path[j]);
    }
    if tail.len() > 0 {
        assert((path + tail)[path.len() as int] == tail[0]);
    }
    lemma_length_before_is(path + tail, stops, path.len() as int);
    assert((path + tail).take(path.len() as int) =~= path);
    let plain = scheme + seq![':'] + path + tail;
    if !seq!['/', '/'].is_prefix_of(path) && !seq!['/', '.', '/', '/'].is_prefix_of(path) {
        let rest = path + tail;
        if seq![':', '/', '/'].is_prefix_of(seq![':'] + rest) {
            let seen = (seq![':'] + rest).subrange(0, 3);
            assert(seen[1] == '/' && seen[2] == '/');
            assert(rest[0] == '/' && rest[1] == '/');
            assert(path.len() >= 2);
            assert(path.subrange(0, 2) =~= seq!['/', '/']);
        }
        if seq!['/', '.', '/', '/'].is_prefix_of(rest) {
            let seen = rest.subrange(0, 4);
            assert(seen[0] == '/' && seen[1] == '.' && seen[2] == '/' && seen[3] == '/');
            assert(rest[0] == '/' && rest[1] == '.' && rest[2] == '/' && rest[3] == '/');
            assert(path.len() >= 4);
            assert(path.subrange(0, 4) =~= seq!['/', '.', '/', '/']);
        }
        assert(path_in(plain) == path);
    }
    if seq!['/', '/'].is_prefix_of(path) {
        let dotted = seq!['/', '.'] + path + tail;
        lemma_opaque_parts(scheme, dotted);
        assert(scheme + seq![':'] + dotted =~= scheme + seq![':', '/', '.'] + path + tail);
        assert(path.subrange(0, 2)[0] == '/' && path.subrange(0, 2)[1] == '/');
        assert(dotted.subrange(0, 4) =~= seq!['/', '.', '/', '/']);
        assert((seq![':'] + dotted).subrange(0, 3)[2] == '.');
        assert(dotted.skip(2) =~= path + tail);
    }
}

/// What follows the scheme in a text put together from a scheme and a rest.
proof fn lemma_opaque_parts(scheme: Seq<char>, rest: Seq<char>)
    requires
        !scheme.contains(':'),
    ensures
        scheme_in(scheme + seq![':'] + rest) == scheme,
        after_scheme(scheme + seq![':'] + rest) == seq![':'] + rest,
        after_scheme(scheme + seq![':'] + rest).skip(1) == rest,
{
    let text = scheme + seq![':'] + rest;
    assert(seq![':'][0] == ':');
    assert forall|j: int| 0 <= j < scheme.len() implies !seq![':'].contains(
        #[trigger] text[j],
    ) by {
        assert(text[j] == scheme[j]);
    }
    assert(text[scheme.len() as int] == ':');
    lemma_length_before_is(text, seq![':'], scheme.len() as int);
    assert(scheme_in(text) =~= scheme);
    assert(after_scheme(text) =~= seq![':'] + rest);
    assert((seq![':'] + rest).skip(1) =~= rest);
}

} // verus!
