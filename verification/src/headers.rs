//! HTTP headers: reading those of a message, and listing those to send.

use crate::text::same;
use vstd::prelude::*;

verus! {

#[verifier::external_type_specification]
#[verifier::external_body]
#[verifier::reject_recursive_types(T)]
pub struct ExHeaderMap<T>(reqwest::header::HeaderMap<T>);

#[verifier::external_type_specification]
#[verifier::external_body]
pub struct ExHeaderValue(reqwest::header::HeaderValue);

/// The first value of each header in a header map, by its name in small
/// letters.
pub uninterp spec fn first_values(
    headers: reqwest::header::HeaderMap<reqwest::header::HeaderValue>,
) -> Map<Seq<char>, Seq<u8>>;

/// `HeaderMap::get` gives the first value of a header, whatever the case of the
/// name that is asked for.
#[verifier::external_body]
fn header_bytes(
    headers: &reqwest::header::HeaderMap<reqwest::header::HeaderValue>,
    name: &str,
) -> (r: Option<Vec<u8>>)
    ensures
        match r {
            Some(value) => first_values(*headers).contains_key(crate::text::lower(name@))
                && first_values(*headers)[crate::text::lower(name@)] == value@,
            None => !first_values(*headers).contains_key(crate::text::lower(name@)),
        },
{
    headers.get(name).map(|v| v.as_bytes().to_vec())
}

/// Whether a byte is a visible ASCII character, a space or a tab.
pub open spec fn plain_byte(b: u8) -> bool {
    32 <= b < 127 || b == 9
}

/// The text of bytes that are all visible ASCII characters, spaces or tabs.
pub open spec fn plain_text(bytes: Seq<u8>) -> Option<Seq<char>> {
    if forall|i: int| 0 <= i < bytes.len() ==> plain_byte(#[trigger] bytes[i]) {
        Some(bytes.map_values(|b: u8| b as char))
    } else {
        None
    }
}

/// The value of a header as text, where it is there and plain.
pub open spec fn header_text(
    headers: reqwest::header::HeaderMap<reqwest::header::HeaderValue>,
    name: Seq<char>,
) -> Option<Seq<char>> {
    let key = crate::text::lower(name);
    if first_values(headers).contains_key(key) {
        plain_text(first_values(headers)[key])
    } else {
        None
    }
}

/// The text of bytes that are all visible ASCII characters, spaces or tabs.
fn read_plain(bytes: &Vec<u8>) -> (r: Option<String>)
    ensures
        crate::text::seen_string(r) == plain_text(bytes@),
{
    let mut out: String = String::new();
    let mut i: usize = 0;
    while i < bytes.len()
        invariant
            i <= bytes@.len(),
            forall|k: int| 0 <= k < i ==> plain_byte(#[trigger] bytes@[k]),
            out@ == bytes@.take(i as int).map_values(|b: u8| b as char),
        decreases bytes@.len() - i,
    {
        let b: u8 = bytes[i];
        if !((32 <= b && b < 127) || b == 9) {
            assert(!plain_byte(bytes@[i as int]));
            return None;
        }
        out.push(b as char);
        assert(out@ =~= bytes@.take(i + 1).map_values(|b: u8| b as char));
        i += 1;
    }
    assert(bytes@.take(bytes@.len() as int) =~= bytes@);
    Some(out)
}

/// The value of a header as text, where it is there and plain.
pub fn header_str(
    headers: &reqwest::header::HeaderMap<reqwest::header::HeaderValue>,
    name: &str,
) -> (r: Option<String>)
    ensures
        crate::text::seen_string(r) == header_text(*headers, name@),
{
    match header_bytes(headers, name) {
        Some(bytes) => read_plain(&bytes),
        None => None,
    }
}

/// The value of a header as text, or that of another where the first is not
/// there at all. A first header that is not plain text hides the other.
pub open spec fn either_text(
    headers: reqwest::header::HeaderMap<reqwest::header::HeaderValue>,
    first: Seq<char>,
    other: Seq<char>,
) -> Option<Seq<char>> {
    if first_values(headers).contains_key(crate::text::lower(first)) {
        header_text(headers, first)
    } else {
        header_text(headers, other)
    }
}

/// The value of a header as text, or that of another where the first is not
/// there at all.
pub fn either_str(
    headers: &reqwest::header::HeaderMap<reqwest::header::HeaderValue>,
    first: &str,
    other: &str,
) -> (r: Option<String>)
    ensures
        crate::text::seen_string(r) == either_text(*headers, first@, other@),
{
    match header_bytes(headers, first) {
        Some(bytes) => read_plain(&bytes),
        None => header_str(headers, other),
    }
}

/// The headers of a message that is to be sent, each name once.
pub struct HeaderList {
    pairs: Vec<(String, Vec<u8>)>,
}

/// The headers that a list of pairs gives.
pub open spec fn pairs_map(pairs: Seq<(String, Vec<u8>)>) -> Map<Seq<char>, Seq<u8>>
    decreases pairs.len(),
{
    if pairs.len() == 0 {
        Map::empty()
    } else {
        pairs_map(pairs.drop_last()).insert(pairs.last().0@, pairs.last().1@)
    }
}

/// Whether no name occurs twice.
pub open spec fn distinct_names(pairs: Seq<(String, Vec<u8>)>) -> bool {
    forall|i: int, j: int|
        0 <= i < j < pairs.len() ==> (#[trigger] pairs[i]).0@ != (#[trigger] pairs[j]).0@
}

proof fn lemma_pairs_absent(pairs: Seq<(String, Vec<u8>)>, name: Seq<char>)
    ensures
        pairs_map(pairs).contains_key(name) <==> exists|i: int|
            0 <= i < pairs.len() && (#[trigger] pairs[i]).0@ == name,
    decreases pairs.len(),
{
    if pairs.len() > 0 {
        let shorter = pairs.drop_last();
        lemma_pairs_absent(shorter, name);
        if exists|i: int| 0 <= i < shorter.len() && (#[trigger] shorter[i]).0@ == name {
            let i = choose|i: int| 0 <= i < shorter.len() && (#[trigger] shorter[i]).0@ == name;
            assert(pairs[i].0@ == name);
        }
        if exists|i: int| 0 <= i < pairs.len() && (#[trigger] pairs[i]).0@ == name {
            let i = choose|i: int| 0 <= i < pairs.len() && (#[trigger] pairs[i]).0@ == name;
            if i < shorter.len() {
                assert(shorter[i].0@ == name);
            }
        }
        assert(pairs[pairs.len() - 1] == pairs.last());
    }
}

proof fn lemma_pairs_update(pairs: Seq<(String, Vec<u8>)>, at: int, value: Vec<u8>)
    requires
        distinct_names(pairs),
        0 <= at < pairs.len(),
    ensures
        pairs_map(pairs.update(at, (pairs[at].0, value))) == pairs_map(pairs).insert(
            pairs[at].0@,
            value@,
        ),
    decreases pairs.len(),
{
    let updated = pairs.update(at, (pairs[at].0, value));
    let shorter = pairs.drop_last();
    if at == pairs.len() - 1 {
        assert(updated.drop_last() =~= shorter);
        assert(pairs_map(updated) =~= pairs_map(pairs).insert(pairs[at].0@, value@));
    } else {
        assert(distinct_names(shorter)) by {
            assert forall|i: int, j: int| 0 <= i < j < shorter.len() implies (
            #[trigger] shorter[i]).0@ != (#[trigger] shorter[j]).0@ by {
                assert(pairs[i].0@ != pairs[j].0@);
            }
        }
        lemma_pairs_update(shorter, at, value);
        assert(updated.drop_last() =~= shorter.update(at, (shorter[at].0, value)));
        assert(pairs[at].0@ != pairs[pairs.len() - 1].0@);
        assert(pairs_map(updated) =~= pairs_map(pairs).insert(pairs[at].0@, value@));
    }
}

impl View for HeaderList {
    type V = Map<Seq<char>, Seq<u8>>;

    closed spec fn view(&self) -> Map<Seq<char>, Seq<u8>> {
        pairs_map(self.pairs@)
    }
}

impl HeaderList {
    #[verifier::type_invariant]
    spec fn inv(self) -> bool {
        distinct_names(self.pairs@)
    }

    /// No headers.
    pub fn new() -> (r: Self)
        ensures
            r@ == Map::<Seq<char>, Seq<u8>>::empty(),
    {
        HeaderList { pairs: Vec::new() }
    }

    /// Sets a header, in place of one with the same name.
    pub fn put(self, name: &str, value: Vec<u8>) -> (r: Self)
        ensures
            r@ == self@.insert(name@, value@),
    {
        proof {
            use_type_invariant(&self);
        }
        let mut pairs: Vec<(String, Vec<u8>)> = self.pairs;
        let mut i: usize = 0;
        while i < pairs.len()
            invariant
                i <= pairs@.len(),
                pairs@ == self.pairs@,
                distinct_names(pairs@),
                forall|k: int| 0 <= k < i ==> (#[trigger] pairs@[k]).0@ != name@,
            decreases pairs@.len() - i,
        {
            if same(pairs[i].0.as_str(), name) {
                proof {
                    lemma_pairs_update(pairs@, i as int, value);
                }
                let kept = pairs[i].0.clone();
                let ghost before = pairs@;
                pairs.set(i, (kept, value));
                assert(pairs@ =~= before.update(i as int, (before[i as int].0, value)));
                assert forall|a: int, b: int| 0 <= a < b < pairs@.len() implies (
                #[trigger] pairs@[a]).0@ != (#[trigger] pairs@[b]).0@ by {
                    assert(before[a].0@ != before[b].0@);
                }
                return HeaderList { pairs };
            }
            i += 1;
        }
        let ghost before = pairs@;
        pairs.push((name.to_owned(), value));
        assert(pairs@.drop_last() =~= before);
        assert forall|a: int, b: int| 0 <= a < b < pairs@.len() implies (#[trigger] pairs@[a]).0@
            != (#[trigger] pairs@[b]).0@ by {
            if b < before.len() {
                assert(before[a].0@ != before[b].0@);
            } else {
                assert(before[a].0@ != name@);
            }
        }
        HeaderList { pairs }
    }

    /// Sets a header to a text.
    pub fn put_text(self, name: &str, value: &str) -> (r: Self)
        ensures
            r@ == self@.insert(name@, vstd::utf8::encode_utf8(value@)),
    {
        let bytes: Vec<u8> = bytes_of(value);
        self.put(name, bytes)
    }

    /// Sets a header to what a received header holds, where that is there.
    pub fn put_from(
        self,
        name: &str,
        headers: &reqwest::header::HeaderMap<reqwest::header::HeaderValue>,
    ) -> (r: Self)
        ensures
            r@ == if first_values(*headers).contains_key(crate::text::lower(name@)) {
                self@.insert(name@, first_values(*headers)[crate::text::lower(name@)])
            } else {
                self@
            },
    {
        match header_bytes(headers, name) {
            Some(value) => self.put(name, value),
            None => self,
        }
    }

    /// The headers as pairs of name and value, each name once.
    pub fn into_pairs(self) -> (r: Vec<(String, Vec<u8>)>)
        ensures
            pairs_map(r@) == self@,
            distinct_names(r@),
    {
        proof {
            use_type_invariant(&self);
        }
        self.pairs
    }
}

/// The UTF-8 bytes of a text.
pub fn bytes_of(s: &str) -> (r: Vec<u8>)
    ensures
        r@ == vstd::utf8::encode_utf8(s@),
{
    let bytes: &[u8] = s.as_bytes();
    let mut out: Vec<u8> = Vec::new();
    let mut i: usize = 0;
    while i < bytes.len()
        invariant
            i <= bytes@.len(),
            out@ == bytes@.take(i as int),
        decreases bytes@.len() - i,
    {
        out.push(bytes[i]);
        assert(out@ =~= bytes@.take(i + 1));
        i += 1;
    }
    assert(bytes@.take(bytes@.len() as int) =~= bytes@);
    out
}

/// The text of a header is its first value, byte for byte, whatever the case of
/// the name that is asked for; it is missing where the header is, or where a byte
/// of it is neither a tab nor printable in ASCII.
pub proof fn law_header_texts_are_their_bytes(
    headers: reqwest::header::HeaderMap<reqwest::header::HeaderValue>,
    name: Seq<char>,
    i: int,
)
    requires
        first_values(headers).contains_key(crate::text::lower(name)),
        0 <= i < first_values(headers)[crate::text::lower(name)].len(),
    ensures
        ({
            let value = first_values(headers)[crate::text::lower(name)];
            let text = header_text(headers, name);
            &&& text is Some ==> text->0.len() == value.len()
            &&& text is Some ==> text->0[i] == value[i] as char
            &&& text is Some ==> 32 <= value[i] <= 126 || value[i] == 9
        }),
{
    assert(header_text(headers, name) is Some ==> plain_byte(
        first_values(headers)[crate::text::lower(name)][i],
    ));
}

/// A header whose bytes can all be printed in ASCII, or are tabs, has a text, and
/// one that is not there has none.
pub proof fn law_plain_headers_have_a_text(
    headers: reqwest::header::HeaderMap<reqwest::header::HeaderValue>,
    name: Seq<char>,
)
    ensures
        header_text(headers, name) is Some <==> first_values(headers).contains_key(
            crate::text::lower(name),
        ) && forall|i: int|
            0 <= i < first_values(headers)[crate::text::lower(name)].len() ==> (32
                <= #[trigger] first_values(headers)[crate::text::lower(name)][i] <= 126
                || first_values(headers)[crate::text::lower(name)][i] == 9),
{
    if first_values(headers).contains_key(crate::text::lower(name)) {
        let value = first_values(headers)[crate::text::lower(name)];
        if forall|i: int|
            0 <= i < value.len() ==> (32 <= #[trigger] value[i] <= 126 || value[i] == 9) {
            assert forall|i: int| 0 <= i < value.len() implies plain_byte(#[trigger] value[i]) by {}
        }
        if header_text(headers, name) is Some {
            assert forall|i: int| 0 <= i < value.len() implies (32 <= #[trigger] value[i] <= 126
                || value[i] == 9) by {
                assert(plain_byte(value[i]));
            }
        }
    }
}

/// Of two headers the first counts where it is there, and the other only where it
/// is not.
pub proof fn law_the_first_of_two_headers_counts(
    headers: reqwest::header::HeaderMap<reqwest::header::HeaderValue>,
    first: Seq<char>,
    other: Seq<char>,
)
    ensures
        first_values(headers).contains_key(crate::text::lower(first)) ==> either_text(
            headers,
            first,
            other,
        ) == header_text(headers, first),
        !first_values(headers).contains_key(crate::text::lower(first)) ==> either_text(
            headers,
            first,
            other,
        ) == header_text(headers, other),
{
}

/// A list of headers with different names holds each under its name, and holds
/// nothing else.
pub proof fn law_listed_headers_are_held(pairs: Seq<(String, Vec<u8>)>, i: int)
    requires
        distinct_names(pairs),
        0 <= i < pairs.len(),
    ensures
        pairs_map(pairs).contains_key(pairs[i].0@),
        pairs_map(pairs)[pairs[i].0@] == pairs[i].1@,
    decreases pairs.len(),
{
    if i < pairs.len() - 1 {
        assert(pairs.drop_last()[i] == pairs[i]);
        assert forall|a: int, b: int| 0 <= a < b < pairs.drop_last().len() implies (
        #[trigger] pairs.drop_last()[a]).0@ != (#[trigger] pairs.drop_last()[b]).0@ by {
            assert(pairs[a].0@ != pairs[b].0@);
        }
        law_listed_headers_are_held(pairs.drop_last(), i);
        assert(pairs[i].0@ != pairs[pairs.len() - 1].0@);
    }
}

/// A name under which nothing is listed holds nothing.
pub proof fn law_other_headers_are_not_held(pairs: Seq<(String, Vec<u8>)>, name: Seq<char>)
    requires
        forall|i: int| 0 <= i < pairs.len() ==> (#[trigger] pairs[i]).0@ != name,
    ensures
        !pairs_map(pairs).contains_key(name),
    decreases pairs.len(),
{
    if pairs.len() > 0 {
        assert(pairs[pairs.len() - 1].0@ != name);
        assert forall|i: int| 0 <= i < pairs.drop_last().len() implies (
        #[trigger] pairs.drop_last()[i]).0@ != name by {
            assert(pairs[i].0@ != name);
        }
        law_other_headers_are_not_held(pairs.drop_last(), name);
    }
}

} // verus!
