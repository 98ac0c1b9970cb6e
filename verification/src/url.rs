//! Taking URLs apart, as far as the gateway needs it.

use crate::text::{
    char_position, chars_of, concat3, last_char_position, same, slice_of, split_at_first,
};
use vstd::prelude::*;

verus! {

/// The parts of a URL that the gateway looks at.
pub struct Parsed {
    pub scheme: String,
    pub origin: String,
    pub path: String,
}

/// The parts of a URL, as characters.
pub ghost struct ParsedRow {
    pub scheme: Seq<char>,
    pub origin: Seq<char>,
    pub path: Seq<char>,
}

impl View for Parsed {
    type V = ParsedRow;

    open spec fn view(&self) -> ParsedRow {
        ParsedRow { scheme: self.scheme@, origin: self.origin@, path: self.path@ }
    }
}

/// What follows the scheme, cut before the first slash. Where there is none the
/// path is a slash.
pub open spec fn authority_and_path(rest: Seq<char>) -> (Seq<char>, Seq<char>) {
    match crate::text::char_from(rest, '/', 0) {
        Some(i) => (rest.take(i), rest.skip(i)),
        None => (rest, "/"@),
    }
}

/// What follows the last `c`, or everything.
pub open spec fn after_last(s: Seq<char>, c: char) -> Seq<char> {
    match crate::text::last_char_before(s, c, s.len() as int) {
        Some(i) => s.skip(i + 1),
        None => s,
    }
}

/// Whether a scheme is one of the two that the gateway speaks.
pub open spec fn known_scheme(scheme: Seq<char>) -> bool {
    scheme == "https"@ || scheme == "http"@
}

/// Scheme, authority without what stands before its last at sign, and path.
pub open spec fn split_url(url: Seq<char>) -> Option<(Seq<char>, Seq<char>, Seq<char>)> {
    match crate::text::split_once(url, "://"@) {
        None => None,
        Some(parts) => if known_scheme(parts.0) {
            let rest = authority_and_path(parts.1);
            Some((parts.0, after_last(rest.0, '@'), rest.1))
        } else {
            None
        },
    }
}

/// The parts of a URL.
pub open spec fn parsed_url(url: Seq<char>) -> Option<ParsedRow> {
    match split_url(url) {
        Some(parts) => Some(
            ParsedRow { scheme: parts.0, origin: parts.0 + "://"@ + parts.1, path: parts.2 },
        ),
        None => None,
    }
}

/// What follows the last `c`, or everything.
pub fn after_last_char(s: &str, c: char) -> (r: String)
    ensures
        r@ == after_last(s@, c),
{
    let chars: Vec<char> = chars_of(s);
    match last_char_position(&chars, c) {
        Some(i) => {
            let n: usize = chars.len();
            assert(chars@.subrange(i + 1, chars@.len() as int) =~= chars@.skip(i + 1));
            slice_of(&chars, i + 1, n)
        },
        None => s.to_owned(),
    }
}

/// Scheme, authority and path of a URL.
pub fn split(url: &str) -> (r: Option<(String, String, String)>)
    ensures
        match r {
            Some(parts) => split_url(url@) == Some((parts.0@, parts.1@, parts.2@)),
            None => split_url(url@) is None,
        },
{
    let (scheme, rest) = match split_at_first(url, "://") {
        Some(parts) => parts,
        None => {
            return None;
        },
    };
    if !same(scheme.as_str(), "https") && !same(scheme.as_str(), "http") {
        return None;
    }
    let chars: Vec<char> = chars_of(rest.as_str());
    let (authority, path): (String, String) = match char_position(&chars, '/', 0) {
        Some(i) => {
            assert(chars@.subrange(0, i as int) =~= chars@.take(i as int));
            assert(chars@.subrange(i as int, chars@.len() as int) =~= chars@.skip(i as int));
            (slice_of(&chars, 0, i), slice_of(&chars, i, chars.len()))
        },
        None => (rest, "/".to_owned()),
    };
    Some((scheme, after_last_char(authority.as_str(), '@'), path))
}

/// Takes a URL apart; refuses one of a scheme that the gateway does not speak.
pub fn parse(url: &str) -> (r: Result<Parsed, ()>)
    ensures
        match r {
            Ok(p) => parsed_url(url@) == Some(p@),
            Err(_) => parsed_url(url@) is None,
        },
{
    match split(url) {
        Some((scheme, host, path)) => {
            let origin = concat3(scheme.as_str(), "://", host.as_str());
            Ok(Parsed { scheme, origin, path })
        },
        None => Err(()),
    }
}

/// The scheme and the host of a URL.
pub open spec fn url_origin(url: Seq<char>) -> Option<Seq<char>> {
    match parsed_url(url) {
        Some(p) => Some(p.origin),
        None => None,
    }
}

/// The scheme and the host of a URL.
pub fn origin_of(url: &str) -> (r: Option<String>)
    ensures
        crate::text::seen_string(r) == url_origin(url@),
{
    match parse(url) {
        Ok(p) => Some(p.origin),
        Err(_) => None,
    }
}

/// What is seen of a parsed address is what its fields hold.
pub proof fn law_parsed_addresses_tell_their_fields(p: Parsed)
    ensures
        p@.scheme == p.scheme@,
        p@.origin == p.origin@,
        p@.path == p.path@,
{
}

proof fn lemma_scheme_is_split_off(scheme: Seq<char>, rest: Seq<char>)
    requires
        !scheme.contains(':'),
    ensures
        crate::text::split_once(scheme + "://"@ + rest, "://"@) == Some((scheme, rest)),
{
    reveal_strlit("://");
    let p = "://"@;
    let s = scheme + p + rest;
    assert(p.len() == 3 && p[0] == ':');
    assert forall|k: int| 0 <= k < scheme.len() implies !#[trigger] crate::text::stands_at(
        s,
        p,
        k,
    ) by {
        if crate::text::stands_at(s, p, k) {
            assert(s.subrange(k, k + 3)[0] == s[k]);
            assert(scheme.contains(scheme[k]));
        }
    }
    crate::text::law_splitting_is_at_the_first(scheme, p, rest);
}

proof fn lemma_known_schemes_have_no_colon(scheme: Seq<char>)
    requires
        scheme == "https"@ || scheme == "http"@,
    ensures
        !scheme.contains(':'),
{
    reveal_strlit("https");
    reveal_strlit("http");
}

proof fn lemma_authority(authority: Seq<char>, path: Seq<char>)
    requires
        !authority.contains('/'),
        path.len() == 0 || path[0] == '/',
    ensures
        path.len() > 0 ==> authority_and_path(authority + path) == (authority, path),
        path.len() == 0 ==> authority_and_path(authority + path) == (authority, "/"@),
{
    let s = authority + path;
    crate::text::law_first_characters_are_found(s, '/', 0);
    assert forall|k: int| 0 <= k < authority.len() implies s[k] != '/' by {
        assert(authority.contains(authority[k]));
    }
    if path.len() > 0 {
        assert(s[authority.len() as int] == '/');
        assert(s.take(authority.len() as int) =~= authority);
        assert(s.skip(authority.len() as int) =~= path);
    } else {
        assert(s =~= authority);
    }
}

proof fn lemma_after_last(user: Seq<char>, host: Seq<char>)
    requires
        !host.contains('@'),
    ensures
        after_last(host, '@') == host,
        after_last(user + "@"@ + host, '@') == host,
{
    reveal_strlit("@");
    assert("@"@.len() == 1 && "@"@[0] == '@');
    let s = user + "@"@ + host;
    crate::text::law_last_characters_are_found(host, '@', host.len() as int);
    crate::text::law_last_characters_are_found(s, '@', s.len() as int);
    assert(crate::text::last_char_before(host, '@', host.len() as int) is None) by {
        let found = crate::text::last_char_before(host, '@', host.len() as int);
        if found is Some {
            assert(host.contains(host[found->0]));
        }
    }
    assert(s[user.len() as int] == '@');
    let i = crate::text::last_char_before(s, '@', s.len() as int)->0;
    if i > user.len() {
        assert(s[i] == host[i - user.len() - 1]);
        assert(host.contains(host[i - user.len() - 1]));
    }
    assert(s.skip(user.len() + 1int) =~= host);
}

/// An address falls into its scheme, its host, with the port, and its path. The
/// path is the root where none is given.
pub proof fn law_addresses_are_taken_apart(scheme: Seq<char>, host: Seq<char>, path: Seq<char>)
    requires
        scheme == "https"@ || scheme == "http"@,
        !host.contains('/'),
        !host.contains('@'),
        path.len() > 0,
        path[0] == '/',
    ensures
        split_url(scheme + "://"@ + (host + path)) == Some((scheme, host, path)),
        split_url(scheme + "://"@ + host) == Some((scheme, host, "/"@)),
        parsed_url(scheme + "://"@ + (host + path)) is Some,
        parsed_url(scheme + "://"@ + (host + path))->0.scheme == scheme,
        parsed_url(scheme + "://"@ + (host + path))->0.origin == scheme + "://"@ + host,
        parsed_url(scheme + "://"@ + (host + path))->0.path == path,
        url_origin(scheme + "://"@ + (host + path)) == Some(scheme + "://"@ + host),
{
    lemma_known_schemes_have_no_colon(scheme);
    lemma_scheme_is_split_off(scheme, host + path);
    lemma_scheme_is_split_off(scheme, host);
    lemma_authority(host, path);
    lemma_authority(host, Seq::empty());
    assert(host + Seq::<char>::empty() =~= host);
    lemma_after_last(Seq::empty(), host);
}

/// Whoever is named before the host is no part of it.
pub proof fn law_users_are_not_told(
    scheme: Seq<char>,
    user: Seq<char>,
    host: Seq<char>,
    path: Seq<char>,
)
    requires
        scheme == "https"@ || scheme == "http"@,
        !user.contains('/'),
        !host.contains('/'),
        !host.contains('@'),
        path.len() > 0,
        path[0] == '/',
    ensures
        split_url(scheme + "://"@ + (user + "@"@ + host + path)) == split_url(
            scheme + "://"@ + (host + path),
        ),
{
    law_addresses_are_taken_apart(scheme, host, path);
    lemma_known_schemes_have_no_colon(scheme);
    let authority = user + "@"@ + host;
    lemma_scheme_is_split_off(scheme, authority + path);
    reveal_strlit("@");
    assert("@"@.len() == 1 && "@"@[0] == '@');
    assert(!authority.contains('/')) by {
        assert forall|k: int| 0 <= k < authority.len() implies authority[k] != '/' by {
            if k < user.len() {
                assert(user.contains(user[k]));
            } else if k > user.len() {
                assert(host.contains(host[k - user.len() - 1]));
            }
        }
    }
    lemma_authority(authority, path);
    lemma_after_last(user, host);
}

/// An address of another scheme, or of none, is not understood.
pub proof fn law_other_schemes_are_not_understood(scheme: Seq<char>, rest: Seq<char>)
    ensures
        !scheme.contains(':') && scheme != "https"@ && scheme != "http"@ ==> split_url(
            scheme + "://"@ + rest,
        ) is None,
        !crate::text::contains(rest, "://"@) ==> split_url(rest) is None,
        split_url(rest) is None <==> parsed_url(rest) is None,
        parsed_url(rest) is None <==> url_origin(rest) is None,
{
    if !scheme.contains(':') {
        lemma_scheme_is_split_off(scheme, rest);
    }
    if !crate::text::contains(rest, "://"@) {
        crate::text::law_texts_without_it_are_not_split(rest, "://"@);
    }
}

} // verus!
