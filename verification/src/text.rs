//! Text as sequences of characters: searching, trimming, splitting, joining
//! and number formatting.

use vstd::prelude::*;

verus! {

/// `String::push` appends one character to the string.
pub assume_specification[ String::push ](s: &mut String, c: char)
    ensures
        final(s)@ == old(s)@.push(c),
;

// ---------------------------------------------------------------------------
// Model
// ---------------------------------------------------------------------------

/// The characters with the Unicode property White_Space.
pub open spec fn white(c: char) -> bool {
    ||| '\u{9}' <= c <= '\u{d}'
    ||| c == ' '
    ||| c == '\u{85}'
    ||| c == '\u{a0}'
    ||| c == '\u{1680}'
    ||| '\u{2000}' <= c <= '\u{200a}'
    ||| c == '\u{2028}'
    ||| c == '\u{2029}'
    ||| c == '\u{202f}'
    ||| c == '\u{205f}'
    ||| c == '\u{3000}'
}

/// `s` without its leading white space.
pub open spec fn trim_start(s: Seq<char>) -> Seq<char>
    decreases s.len(),
{
    if s.len() > 0 && white(s.first()) {
        trim_start(s.drop_first())
    } else {
        s
    }
}

/// `s` without its trailing white space.
pub open spec fn trim_end(s: Seq<char>) -> Seq<char>
    decreases s.len(),
{
    if s.len() > 0 && white(s.last()) {
        trim_end(s.drop_last())
    } else {
        s
    }
}

/// `s` without leading and trailing white space.
pub open spec fn trim(s: Seq<char>) -> Seq<char> {
    trim_end(trim_start(s))
}

/// `s` without the run of `c` at its end.
pub open spec fn trim_end_char(s: Seq<char>, c: char) -> Seq<char>
    decreases s.len(),
{
    if s.len() > 0 && s.last() == c {
        trim_end_char(s.drop_last(), c)
    } else {
        s
    }
}

/// Whether `p` stands in `s` at position `i`.
pub open spec fn stands_at(s: Seq<char>, p: Seq<char>, i: int) -> bool {
    0 <= i && i + p.len() <= s.len() && s.subrange(i, i + p.len()) == p
}

/// The first position, from `from` on, at which `p` stands in `s`.
pub open spec fn find_from(s: Seq<char>, p: Seq<char>, from: int) -> Option<int>
    decreases s.len() + 1 - from,
{
    if from < 0 || from + p.len() > s.len() {
        None
    } else if stands_at(s, p, from) {
        Some(from)
    } else {
        find_from(s, p, from + 1)
    }
}

/// The first position at which `p` stands in `s`.
pub open spec fn find(s: Seq<char>, p: Seq<char>) -> Option<int> {
    find_from(s, p, 0)
}

/// Whether `p` stands somewhere in `s`.
pub open spec fn contains(s: Seq<char>, p: Seq<char>) -> bool {
    exists|i: int| stands_at(s, p, i)
}

/// What stands before and after the first `p` in `s`.
pub open spec fn split_once(s: Seq<char>, p: Seq<char>) -> Option<(Seq<char>, Seq<char>)> {
    match find(s, p) {
        Some(i) => Some((s.take(i), s.skip(i + p.len()))),
        None => None,
    }
}

/// The first position of `c` in `s`, from `from` on.
pub open spec fn char_from(s: Seq<char>, c: char, from: int) -> Option<int>
    decreases s.len() - from,
{
    if from < 0 || from >= s.len() {
        None
    } else if s[from] == c {
        Some(from)
    } else {
        char_from(s, c, from + 1)
    }
}

/// The last position of `c` in the first `end` characters of `s`.
pub open spec fn last_char_before(s: Seq<char>, c: char, end: int) -> Option<int>
    decreases end,
{
    if end <= 0 || end > s.len() {
        None
    } else if s[end - 1] == c {
        Some(end - 1)
    } else {
        last_char_before(s, c, end - 1)
    }
}

/// What follows `p`, where `s` begins with `p`.
pub open spec fn strip_prefix(s: Seq<char>, p: Seq<char>) -> Option<Seq<char>> {
    if p.is_prefix_of(s) {
        Some(s.skip(p.len() as int))
    } else {
        None
    }
}

/// What precedes `p`, where `s` ends with `p`.
pub open spec fn strip_suffix(s: Seq<char>, p: Seq<char>) -> Option<Seq<char>> {
    if p.is_suffix_of(s) {
        Some(s.take(s.len() - p.len()))
    } else {
        None
    }
}

/// `c` with an ASCII capital turned into its small letter.
pub open spec fn lower_char(c: char) -> char {
    if 'A' <= c <= 'Z' {
        ((c as u8 + 32) as u8) as char
    } else {
        c
    }
}

/// `s` with its ASCII capitals turned into small letters.
pub open spec fn lower(s: Seq<char>) -> Seq<char> {
    s.map_values(|c: char| lower_char(c))
}

/// `s` from `from` on, with every `p` replaced by `r`.
pub open spec fn replace_from(s: Seq<char>, p: Seq<char>, r: Seq<char>, from: int) -> Seq<char>
    decreases s.len() - from,
{
    match find_from(s, p, from) {
        Some(i) => if p.len() > 0 && from <= i && i + p.len() <= s.len() {
            s.subrange(from, i) + r + replace_from(s, p, r, i + p.len())
        } else {
            s.skip(from)
        },
        None => s.skip(from),
    }
}

/// `s` with every `p` replaced by `r`, for a `p` that is not empty.
pub open spec fn replace(s: Seq<char>, p: Seq<char>, r: Seq<char>) -> Seq<char> {
    replace_from(s, p, r, 0)
}

/// The parts one after the other, with `sep` between any two.
pub open spec fn join(parts: Seq<Seq<char>>, sep: Seq<char>) -> Seq<char>
    decreases parts.len(),
{
    if parts.len() == 0 {
        Seq::empty()
    } else if parts.len() == 1 {
        parts[0]
    } else {
        join(parts.drop_last(), sep) + sep + parts.last()
    }
}

/// The first `n` characters of `s`, or all of them.
pub open spec fn prefix(s: Seq<char>, n: int) -> Seq<char> {
    if n < s.len() {
        s.take(n)
    } else {
        s
    }
}

/// `s` without one carriage return at its end.
pub open spec fn without_cr(s: Seq<char>) -> Seq<char> {
    if s.len() > 0 && s.last() == '\r' {
        s.drop_last()
    } else {
        s
    }
}

/// The lines of `s` from `from` on: each ends with a line feed, before which
/// one carriage return is dropped, or with the text.
pub open spec fn lines_from(s: Seq<char>, from: int) -> Seq<Seq<char>>
    decreases s.len() - from,
{
    if from < 0 || from >= s.len() {
        Seq::empty()
    } else {
        match char_from(s, '\n', from) {
            Some(i) => if from <= i < s.len() {
                seq![without_cr(s.subrange(from, i))] + lines_from(s, i + 1)
            } else {
                Seq::empty()
            },
            None => seq![s.skip(from)],
        }
    }
}

/// The lines of `s`.
pub open spec fn lines(s: Seq<char>) -> Seq<Seq<char>> {
    lines_from(s, 0)
}

/// The words of `s`: its longest runs of characters that are not white space.
/// `word` is what was read of the word before `from`.
pub open spec fn words_from(s: Seq<char>, from: int, word: Seq<char>) -> Seq<Seq<char>>
    decreases s.len() - from,
{
    if from < 0 || from >= s.len() {
        if word.len() > 0 {
            seq![word]
        } else {
            Seq::empty()
        }
    } else if white(s[from]) {
        if word.len() > 0 {
            seq![word] + words_from(s, from + 1, Seq::empty())
        } else {
            words_from(s, from + 1, Seq::empty())
        }
    } else {
        words_from(s, from + 1, word.push(s[from]))
    }
}

/// The words of `s`.
pub open spec fn words(s: Seq<char>) -> Seq<Seq<char>> {
    words_from(s, 0, Seq::empty())
}

/// Words hold no white space.
pub proof fn lemma_words_are_dense(s: Seq<char>, from: int, word: Seq<char>)
    requires
        forall|k: int| 0 <= k < word.len() ==> !white(#[trigger] word[k]),
    ensures
        forall|i: int, k: int|
            0 <= i < words_from(s, from, word).len() && 0 <= k < words_from(s, from, word)[i].len()
                ==> !white(#[trigger] words_from(s, from, word)[i][k]),
    decreases s.len() - from,
{
    let out = words_from(s, from, word);
    if from < 0 || from >= s.len() {
        assert forall|i: int, k: int| 0 <= i < out.len() && 0 <= k < out[i].len() implies !white(
            #[trigger] out[i][k],
        ) by {
            assert(out[i] == word);
        }
    } else if white(s[from]) {
        lemma_words_are_dense(s, from + 1, Seq::empty());
        let rest = words_from(s, from + 1, Seq::empty());
        assert forall|i: int, k: int| 0 <= i < out.len() && 0 <= k < out[i].len() implies !white(
            #[trigger] out[i][k],
        ) by {
            if word.len() == 0 {
                assert(!white(rest[i][k]));
            } else if i == 0 {
                assert(out[i] == word);
            } else {
                assert(out[i] == rest[i - 1]);
                assert(!white(rest[i - 1][k]));
            }
        }
    } else {
        let longer = word.push(s[from]);
        assert forall|k: int| 0 <= k < longer.len() implies !white(#[trigger] longer[k]) by {
            if k < word.len() {
                assert(!white(word[k]));
            }
        }
        lemma_words_are_dense(s, from + 1, longer);
        assert(out == words_from(s, from + 1, longer));
    }
}

/// A character that neither the parts nor what stands between them hold is not
/// in the whole.
pub proof fn lemma_join_without(parts: Seq<Seq<char>>, sep: Seq<char>, c: char)
    requires
        forall|i: int| 0 <= i < parts.len() ==> !(#[trigger] parts[i]).contains(c),
        !sep.contains(c),
    ensures
        !join(parts, sep).contains(c),
    decreases parts.len(),
{
    if parts.len() == 1 {
        assert(!parts[0].contains(c));
    } else if parts.len() > 1 {
        let front = parts.drop_last();
        assert forall|i: int| 0 <= i < front.len() implies !(#[trigger] front[i]).contains(c) by {
            assert(!parts[i].contains(c));
        }
        lemma_join_without(front, sep, c);
        let a = join(front, sep);
        let last = parts.last();
        assert(!parts[parts.len() - 1].contains(c));
        let out = join(parts, sep);
        if out.contains(c) {
            let i = choose|i: int| 0 <= i < out.len() && out[i] == c;
            if i < a.len() {
                assert(a[i] == c);
            } else if i < a.len() + sep.len() {
                assert(sep[i - a.len()] == c);
            } else {
                assert(last[i - a.len() - sep.len()] == c);
            }
        }
    }
}

/// The decimal digit of a number below ten.
pub open spec fn digit(d: int) -> char {
    (('0' as int + d) as u8) as char
}

/// `n` in decimal, without leading zeros.
pub open spec fn decimal(n: nat) -> Seq<char>
    decreases n,
{
    if n < 10 {
        seq![digit(n as int)]
    } else {
        decimal(n / 10).push(digit((n % 10) as int))
    }
}

/// `n` in decimal, with a minus sign where it is negative.
pub open spec fn decimal_int(n: int) -> Seq<char> {
    if n < 0 {
        seq!['-'] + decimal((-n) as nat)
    } else {
        decimal(n as nat)
    }
}

/// `s` with zeros before it, up to `width` characters.
pub open spec fn zero_padded(s: Seq<char>, width: nat) -> Seq<char> {
    if s.len() < width {
        Seq::new((width - s.len()) as nat, |i: int| '0') + s
    } else {
        s
    }
}

/// The small hexadecimal digit of a number below sixteen.
pub open spec fn hex_digit(d: int) -> char {
    if d < 10 {
        digit(d)
    } else {
        (('a' as int + (d - 10)) as u8) as char
    }
}

/// The two hexadecimal digits of each byte.
pub open spec fn hex(bytes: Seq<u8>) -> Seq<char> {
    Seq::new(
        2 * bytes.len(),
        |i: int|
            if i % 2 == 0 {
                hex_digit(bytes[i / 2] as int / 16)
            } else {
                hex_digit(bytes[i / 2] as int % 16)
            },
    )
}

/// The last `width` hexadecimal digits of `n`.
pub open spec fn hex_number(n: nat, width: nat) -> Seq<char>
    decreases width,
{
    if width == 0 {
        Seq::empty()
    } else {
        hex_number(n / 16, (width - 1) as nat).push(hex_digit((n % 16) as int))
    }
}

/// The characters of each string.
pub open spec fn views(strings: Seq<String>) -> Seq<Seq<char>> {
    strings.map_values(|s: String| s@)
}

/// The characters of a string that may be missing.
pub open spec fn seen_str(s: Option<&str>) -> Option<Seq<char>> {
    match s {
        Some(s) => Some(s@),
        None => None,
    }
}

/// The characters of an owned string that may be missing.
pub open spec fn seen_string(s: Option<String>) -> Option<Seq<char>> {
    match s {
        Some(s) => Some(s@),
        None => None,
    }
}

/// Name and value of each pair, as characters.
pub open spec fn pair_views(pairs: Seq<(String, String)>) -> Seq<(Seq<char>, Seq<char>)> {
    pairs.map_values(|p: (String, String)| (p.0@, p.1@))
}

// ---------------------------------------------------------------------------
// Strings and characters
// ---------------------------------------------------------------------------

/// The characters of a string, in order.
pub fn chars_of(s: &str) -> (r: Vec<char>)
    ensures
        r@ == s@,
{
    let mut out: Vec<char> = Vec::new();
    for c in it: s.chars()
        invariant
            out@ == it.seq().take(it.index()),
            it.seq() == s@,
    {
        out.push(c);
    }
    out
}

/// The characters from `from` up to `to`, as a string.
pub fn slice_of(chars: &Vec<char>, from: usize, to: usize) -> (r: String)
    requires
        from <= to <= chars@.len(),
    ensures
        r@ == chars@.subrange(from as int, to as int),
{
    let mut out: String = String::new();
    let mut i: usize = from;
    while i < to
        invariant
            from <= i <= to <= chars@.len(),
            out@ == chars@.subrange(from as int, i as int),
        decreases to - i,
    {
        out.push(chars[i]);
        i += 1;
    }
    out
}

/// The given characters as a string.
pub fn string_of(chars: &Vec<char>) -> (r: String)
    ensures
        r@ == chars@,
{
    let r = slice_of(chars, 0, chars.len());
    assert(chars@.subrange(0, chars@.len() as int) == chars@);
    r
}

/// Whether two strings have the same characters.
pub fn same(a: &str, b: &str) -> (r: bool)
    ensures
        r == (a@ == b@),
{
    let x: Vec<char> = chars_of(a);
    let y: Vec<char> = chars_of(b);
    if x.len() != y.len() {
        return false;
    }
    let mut i: usize = 0;
    while i < x.len()
        invariant
            i <= x@.len(),
            x@.len() == y@.len(),
            x@.take(i as int) == y@.take(i as int),
            x@ == a@,
            y@ == b@,
        decreases x@.len() - i,
    {
        if x[i] != y[i] {
            return false;
        }
        assert(x@.take(i + 1) == x@.take(i as int).push(x@[i as int]));
        assert(y@.take(i + 1) == y@.take(i as int).push(y@[i as int]));
        i += 1;
    }
    assert(x@.take(x@.len() as int) == x@);
    assert(y@.take(y@.len() as int) == y@);
    true
}

/// Whether a string that may be missing is there and has the characters of `b`.
pub fn is_some_text(a: Option<&str>, b: &str) -> (r: bool)
    ensures
        r == (seen_str(a) == Some(b@)),
{
    match a {
        Some(s) => same(s, b),
        None => false,
    }
}

/// Whether a string has no characters.
pub fn is_empty(s: &str) -> (r: bool)
    ensures
        r == (s@.len() == 0),
{
    s.unicode_len() == 0
}

/// Two strings, one after the other.
pub fn concat(a: &str, b: &str) -> (r: String)
    ensures
        r@ == a@ + b@,
{
    let mut out: String = a.to_owned();
    out.append(b);
    out
}

/// Three strings, one after the other.
pub fn concat3(a: &str, b: &str, c: &str) -> (r: String)
    ensures
        r@ == a@ + b@ + c@,
{
    let mut out: String = a.to_owned();
    out.append(b);
    out.append(c);
    out
}

// ---------------------------------------------------------------------------
// White space and case
// ---------------------------------------------------------------------------

/// Whether a character is white space.
pub fn is_white(c: char) -> (r: bool)
    ensures
        r == white(c),
{
    ('\u{9}' <= c && c <= '\u{d}') || c == ' ' || c == '\u{85}' || c == '\u{a0}' || c == '\u{1680}'
        || ('\u{2000}' <= c && c <= '\u{200a}') || c == '\u{2028}' || c == '\u{2029}' || c
        == '\u{202f}' || c == '\u{205f}' || c == '\u{3000}'
}

/// The string without leading and trailing white space.
pub fn trimmed(s: &str) -> (r: String)
    ensures
        r@ == trim(s@),
{
    let chars: Vec<char> = chars_of(s);
    let mut from: usize = 0;
    assert(chars@.skip(0) == chars@);
    while from < chars.len() && is_white(chars[from])
        invariant
            from <= chars@.len(),
            trim_start(chars@) == trim_start(chars@.skip(from as int)),
        decreases chars@.len() - from,
    {
        assert(chars@.skip(from as int).drop_first() == chars@.skip(from + 1));
        from += 1;
    }
    assert(trim_start(chars@) == chars@.skip(from as int));
    let mut to: usize = chars.len();
    assert(chars@.skip(from as int) == chars@.subrange(from as int, to as int));
    while from < to && is_white(chars[to - 1])
        invariant
            from <= to <= chars@.len(),
            trim(chars@) == trim_end(chars@.subrange(from as int, to as int)),
        decreases to,
    {
        assert(chars@.subrange(from as int, to as int).drop_last() == chars@.subrange(
            from as int,
            to - 1,
        ));
        to -= 1;
    }
    slice_of(&chars, from, to)
}

/// Whether nothing is left of the string without its white space.
pub fn is_blank(s: &str) -> (r: bool)
    ensures
        r == (trim(s@).len() == 0),
{
    let t = trimmed(s);
    is_empty(t.as_str())
}

/// The string without the run of `c` at its end.
pub fn trimmed_end_char(s: &str, c: char) -> (r: String)
    ensures
        r@ == trim_end_char(s@, c),
{
    let chars: Vec<char> = chars_of(s);
    let mut to: usize = chars.len();
    assert(chars@.take(chars@.len() as int) == chars@);
    while 0 < to && chars[to - 1] == c
        invariant
            to <= chars@.len(),
            trim_end_char(chars@, c) == trim_end_char(chars@.take(to as int), c),
        decreases to,
    {
        assert(chars@.take(to as int).drop_last() == chars@.take(to - 1));
        to -= 1;
    }
    assert(chars@.subrange(0, to as int) == chars@.take(to as int));
    slice_of(&chars, 0, to)
}

/// A character with an ASCII capital turned into its small letter.
pub fn to_lower_char(c: char) -> (r: char)
    ensures
        r == lower_char(c),
{
    if 'A' <= c && c <= 'Z' {
        (c as u8 + 32) as char
    } else {
        c
    }
}

/// The string with its ASCII capitals turned into small letters.
pub fn lowered(s: &str) -> (r: String)
    ensures
        r@ == lower(s@),
{
    let chars: Vec<char> = chars_of(s);
    let mut out: String = String::new();
    let mut i: usize = 0;
    while i < chars.len()
        invariant
            i <= chars@.len(),
            out@ == lower(chars@.take(i as int)),
        decreases chars@.len() - i,
    {
        out.push(to_lower_char(chars[i]));
        assert(chars@.take(i + 1) == chars@.take(i as int).push(chars@[i as int]));
        i += 1;
    }
    assert(chars@.take(chars@.len() as int) == chars@);
    out
}

// ---------------------------------------------------------------------------
// Searching and splitting
// ---------------------------------------------------------------------------

/// Whether `p` stands in `s` at position `i`.
fn stands(s: &Vec<char>, p: &Vec<char>, i: usize) -> (r: bool)
    requires
        i <= s@.len(),
    ensures
        r == stands_at(s@, p@, i as int),
{
    let n: usize = s.len();
    if p.len() > n - i {
        return false;
    }
    let mut k: usize = 0;
    while k < p.len()
        invariant
            k <= p@.len(),
            n == s@.len(),
            i + p@.len() <= n,
            forall|j: int| 0 <= j < k ==> s@[i + j] == #[trigger] p@[j],
        decreases p@.len() - k,
    {
        if s[i + k] != p[k] {
            assert(s@.subrange(i as int, i + p@.len())[k as int] == s@[i + k]);
            return false;
        }
        k += 1;
    }
    assert(s@.subrange(i as int, i + p@.len()) =~= p@);
    true
}

/// The first position, from `from` on, at which `p` stands in `s`.
fn position_from(s: &Vec<char>, p: &Vec<char>, from: usize) -> (r: Option<usize>)
    requires
        from <= s@.len(),
    ensures
        match r {
            Some(i) => find_from(s@, p@, from as int) == Some(i as int) && from <= i && stands_at(
                s@,
                p@,
                i as int,
            ),
            None => find_from(s@, p@, from as int) is None,
        },
{
    let mut i: usize = from;
    while p.len() <= s.len() - i
        invariant
            from <= i <= s@.len(),
            find_from(s@, p@, from as int) == find_from(s@, p@, i as int),
        decreases s@.len() - i,
    {
        if stands(s, p, i) {
            return Some(i);
        }
        if i == s.len() {
            assert(find_from(s@, p@, i + 1) is None);
            return None;
        }
        i += 1;
    }
    None
}

/// The position found is the first one at which `p` stands, and where none is
/// found `p` does not stand.
pub proof fn lemma_find_from(s: Seq<char>, p: Seq<char>, from: int)
    requires
        0 <= from,
    ensures
        match find_from(s, p, from) {
            Some(i) => from <= i && stands_at(s, p, i) && forall|j: int|
                from <= j < i ==> !stands_at(s, p, j),
            None => forall|j: int| from <= j ==> !stands_at(s, p, j),
        },
    decreases s.len() - from,
{
    if from + p.len() <= s.len() && !stands_at(s, p, from) {
        assert(p.len() == 0 ==> s.subrange(from, from) =~= p);
        lemma_find_from(s, p, from + 1);
    }
}

/// Whether `p` stands somewhere in `s`.
pub fn has(s: &str, p: &str) -> (r: bool)
    ensures
        r == contains(s@, p@),
{
    let x: Vec<char> = chars_of(s);
    let y: Vec<char> = chars_of(p);
    proof {
        lemma_find_from(s@, p@, 0);
    }
    match position_from(&x, &y, 0) {
        Some(i) => {
            assert(stands_at(s@, p@, i as int));
            true
        },
        None => false,
    }
}

/// The first position at which `p` stands in `s`.
pub fn position(s: &Vec<char>, p: &str) -> (r: Option<usize>)
    ensures
        match r {
            Some(i) => find(s@, p@) == Some(i as int) && i + p@.len() <= s@.len(),
            None => find(s@, p@) is None,
        },
{
    let y: Vec<char> = chars_of(p);
    position_from(s, &y, 0)
}

/// What stands before and after the first `p` in `s`.
pub fn split_at_first(s: &str, p: &str) -> (r: Option<(String, String)>)
    ensures
        match r {
            Some(parts) => split_once(s@, p@) == Some((parts.0@, parts.1@)),
            None => split_once(s@, p@) is None,
        },
{
    let x: Vec<char> = chars_of(s);
    let y: Vec<char> = chars_of(p);
    match position_from(&x, &y, 0) {
        Some(i) => {
            assert(x@.subrange(0, i as int) == x@.take(i as int));
            assert(x@.subrange(i + y@.len(), x@.len() as int) == x@.skip(i + y@.len()));
            let n: usize = x.len();
            Some((slice_of(&x, 0, i), slice_of(&x, i + y.len(), n)))
        },
        None => None,
    }
}

/// The first position of `c`, from `from` on.
pub fn char_position(s: &Vec<char>, c: char, from: usize) -> (r: Option<usize>)
    requires
        from <= s@.len(),
    ensures
        match r {
            Some(i) => char_from(s@, c, from as int) == Some(i as int) && from <= i < s@.len()
                && s@[i as int] == c,
            None => char_from(s@, c, from as int) is None,
        },
{
    let mut i: usize = from;
    while i < s.len()
        invariant
            from <= i <= s@.len(),
            char_from(s@, c, from as int) == char_from(s@, c, i as int),
        decreases s@.len() - i,
    {
        if s[i] == c {
            return Some(i);
        }
        i += 1;
    }
    None
}

/// The last position of `c`.
pub fn last_char_position(s: &Vec<char>, c: char) -> (r: Option<usize>)
    ensures
        match r {
            Some(i) => last_char_before(s@, c, s@.len() as int) == Some(i as int) && i < s@.len()
                && s@[i as int] == c,
            None => last_char_before(s@, c, s@.len() as int) is None,
        },
{
    let mut end: usize = s.len();
    while 0 < end
        invariant
            end <= s@.len(),
            last_char_before(s@, c, s@.len() as int) == last_char_before(s@, c, end as int),
        decreases end,
    {
        if s[end - 1] == c {
            return Some(end - 1);
        }
        end -= 1;
    }
    None
}

/// Whether `s` begins with `p`.
pub fn begins(s: &str, p: &str) -> (r: bool)
    ensures
        r == p@.is_prefix_of(s@),
{
    let x: Vec<char> = chars_of(s);
    let y: Vec<char> = chars_of(p);
    let r = stands(&x, &y, 0);
    assert(p@.len() <= s@.len() ==> s@.subrange(0, p@.len() as int) == s@.take(p@.len() as int));
    r
}

/// What follows `p`, where `s` begins with `p`.
pub fn after_prefix(s: &str, p: &str) -> (r: Option<String>)
    ensures
        seen_string(r) == strip_prefix(s@, p@),
{
    if begins(s, p) {
        let x: Vec<char> = chars_of(s);
        let n: usize = p.unicode_len();
        assert(x@.subrange(n as int, x@.len() as int) == x@.skip(n as int));
        Some(slice_of(&x, n, x.len()))
    } else {
        None
    }
}

/// What precedes `p`, where `s` ends with `p`.
pub fn before_suffix(s: &str, p: &str) -> (r: Option<String>)
    ensures
        seen_string(r) == strip_suffix(s@, p@),
{
    let x: Vec<char> = chars_of(s);
    let y: Vec<char> = chars_of(p);
    if y.len() > x.len() {
        return None;
    }
    let at: usize = x.len() - y.len();
    let found = stands(&x, &y, at);
    assert(x@.subrange(at as int, at + y@.len()) == x@.skip(at as int));
    assert(p@.is_suffix_of(s@) == found) by {
        if p@.is_suffix_of(s@) {
            assert(s@.skip(at as int) =~= p@);
        }
        if found {
            assert(p@.is_suffix_of(s@));
        }
    }
    if found {
        assert(x@.subrange(0, at as int) == x@.take(at as int));
        Some(slice_of(&x, 0, at))
    } else {
        None
    }
}

/// The string with every `p` replaced by `by`.
pub fn replaced(s: &str, p: &str, by: &str) -> (r: String)
    requires
        p@.len() > 0,
    ensures
        r@ == replace(s@, p@, by@),
{
    let x: Vec<char> = chars_of(s);
    let y: Vec<char> = chars_of(p);
    let mut out: String = String::new();
    let mut at: usize = 0;
    loop
        invariant
            at <= x@.len(),
            x@ == s@,
            y@ == p@,
            y@.len() > 0,
            replace(s@, p@, by@) == out@ + replace_from(s@, p@, by@, at as int),
        decreases x@.len() - at,
    {
        match position_from(&x, &y, at) {
            Some(i) => {
                let gap = slice_of(&x, at, i);
                let ghost before = out@;
                out.append(gap.as_str());
                out.append(by);
                assert(before + (x@.subrange(at as int, i as int) + by@ + replace_from(
                    s@,
                    p@,
                    by@,
                    i + y@.len(),
                )) == before + x@.subrange(at as int, i as int) + by@ + replace_from(
                    s@,
                    p@,
                    by@,
                    i + y@.len(),
                ));
                let n: usize = x.len();
                at = i + y.len();
            },
            None => {
                let rest = slice_of(&x, at, x.len());
                assert(x@.subrange(at as int, x@.len() as int) == x@.skip(at as int));
                out.append(rest.as_str());
                return out;
            },
        }
    }
}

/// The first `n` characters, or the whole string.
pub fn first_chars(s: &str, n: usize) -> (r: String)
    ensures
        r@ == prefix(s@, n as int),
{
    let x: Vec<char> = chars_of(s);
    if n < x.len() {
        assert(x@.subrange(0, n as int) == x@.take(n as int));
        slice_of(&x, 0, n)
    } else {
        s.to_owned()
    }
}

/// The strings one after the other, with `sep` between any two.
pub fn joined(parts: &Vec<String>, sep: &str) -> (r: String)
    ensures
        r@ == join(views(parts@), sep@),
{
    let mut out: String = String::new();
    let mut i: usize = 0;
    while i < parts.len()
        invariant
            i <= parts@.len(),
            out@ == join(views(parts@).take(i as int), sep@),
        decreases parts@.len() - i,
    {
        if i > 0 {
            out.append(sep);
        }
        out.append(parts[i].as_str());
        assert(views(parts@).take(i + 1).drop_last() == views(parts@).take(i as int));
        i += 1;
    }
    assert(views(parts@).take(parts@.len() as int) == views(parts@));
    out
}

/// The lines of a text.
pub fn lines_of(s: &str) -> (r: Vec<String>)
    ensures
        views(r@) == lines(s@),
{
    let x: Vec<char> = chars_of(s);
    let mut out: Vec<String> = Vec::new();
    let mut at: usize = 0;
    while at < x.len()
        invariant
            at <= x@.len(),
            x@ == s@,
            lines(s@) == views(out@) + lines_from(s@, at as int),
        decreases x@.len() - at,
    {
        let ghost before = out@;
        match char_position(&x, '\n', at) {
            Some(i) => {
                let end: usize = if i > at && x[i - 1] == '\r' {
                    i - 1
                } else {
                    i
                };
                assert(x@.subrange(at as int, end as int) == without_cr(
                    x@.subrange(at as int, i as int),
                ));
                let line = slice_of(&x, at, end);
                out.push(line);
                assert(views(out@) == views(before).push(line@));
                assert(views(before) + (seq![line@] + lines_from(s@, i + 1)) == views(out@)
                    + lines_from(s@, i + 1));
                at = i + 1;
            },
            None => {
                assert(x@.subrange(at as int, x@.len() as int) == x@.skip(at as int));
                let line = slice_of(&x, at, x.len());
                out.push(line);
                assert(views(out@) == views(before).push(line@));
                at = x.len();
            },
        }
    }
    assert(views(out@) + Seq::<Seq<char>>::empty() == views(out@));
    out
}

/// The words of a text.
pub fn words_of(s: &str) -> (r: Vec<String>)
    ensures
        views(r@) == words(s@),
{
    let x: Vec<char> = chars_of(s);
    let mut out: Vec<String> = Vec::new();
    let mut word: String = String::new();
    let mut i: usize = 0;
    assert(views(out@) + words(s@) == words(s@));
    while i < x.len()
        invariant
            i <= x@.len(),
            x@ == s@,
            words(s@) == views(out@) + words_from(s@, i as int, word@),
        decreases x@.len() - i,
    {
        if is_white(x[i]) {
            if !is_empty(word.as_str()) {
                let ghost before = out@;
                let ghost w = word@;
                out.push(word);
                word = String::new();
                assert(views(out@) == views(before).push(w));
                assert(views(before) + (seq![w] + words_from(s@, i + 1, Seq::empty())) == views(
                    out@,
                ) + words_from(s@, i + 1, Seq::empty()));
            } else {
                assert(word@ =~= Seq::<char>::empty());
            }
        } else {
            word.push(x[i]);
        }
        i += 1;
    }
    if !is_empty(word.as_str()) {
        let ghost before = out@;
        let ghost w = word@;
        out.push(word);
        assert(views(out@) == views(before).push(w));
    } else {
        assert(views(out@) + Seq::<Seq<char>>::empty() == views(out@));
    }
    out
}

// ---------------------------------------------------------------------------
// Numbers
// ---------------------------------------------------------------------------

/// The decimal digit of a number below ten.
fn digit_char(d: u8) -> (r: char)
    requires
        d < 10,
    ensures
        r == digit(d as int),
{
    (48 + d) as char
}

/// The small hexadecimal digit of a number below sixteen.
fn hex_char(d: u8) -> (r: char)
    requires
        d < 16,
    ensures
        r == hex_digit(d as int),
{
    if d < 10 {
        digit_char(d)
    } else {
        (97 + (d - 10)) as char
    }
}

/// A number in decimal.
pub fn decimal_of(n: u128) -> (r: String)
    ensures
        r@ == decimal(n as nat),
    decreases n,
{
    if n < 10 {
        let mut out: String = String::new();
        out.push(digit_char(n as u8));
        out
    } else {
        let mut out: String = decimal_of(n / 10);
        out.push(digit_char((n % 10) as u8));
        out
    }
}

/// A signed number in decimal.
pub fn decimal_of_signed(n: i64) -> (r: String)
    ensures
        r@ == decimal_int(n as int),
{
    if n < 0 {
        let magnitude: u128 = (-(n as i128)) as u128;
        let digits = decimal_of(magnitude);
        proof {
            reveal_strlit("-");
        }
        assert("-"@ =~= seq!['-']);
        concat("-", digits.as_str())
    } else {
        decimal_of(n as u128)
    }
}

/// A string with zeros before it, up to `width` characters.
pub fn padded(s: &str, width: usize) -> (r: String)
    ensures
        r@ == zero_padded(s@, width as nat),
{
    let n: usize = s.unicode_len();
    let mut out: String = String::new();
    if n < width {
        let mut i: usize = 0;
        while i < width - n
            invariant
                n < width,
                i <= width - n,
                out@ == Seq::new(i as nat, |k: int| '0'),
            decreases width - n - i,
        {
            out.push('0');
            assert(out@ =~= Seq::new((i + 1) as nat, |k: int| '0'));
            i += 1;
        }
    }
    out.append(s);
    out
}

/// The two hexadecimal digits of each byte.
pub fn bytes_to_hex(bytes: &[u8]) -> (r: String)
    ensures
        r@ == hex(bytes@),
{
    let mut out: String = String::new();
    let mut i: usize = 0;
    while i < bytes.len()
        invariant
            i <= bytes@.len(),
            out@ == hex(bytes@.take(i as int)),
        decreases bytes@.len() - i,
    {
        let b: u8 = bytes[i];
        out.push(hex_char(b / 16));
        out.push(hex_char(b % 16));
        assert(out@ =~= hex(bytes@.take(i + 1)));
        i += 1;
    }
    assert(bytes@.take(bytes@.len() as int) == bytes@);
    out
}

/// The last `width` hexadecimal digits of a number.
pub fn hex_of_number(n: u32, width: u32) -> (r: String)
    ensures
        r@ == hex_number(n as nat, width as nat),
    decreases width,
{
    if width == 0 {
        String::new()
    } else {
        let mut out: String = hex_of_number(n / 16, width - 1);
        out.push(hex_char((n % 16) as u8));
        out
    }
}

proof fn lemma_char_from_shift(x: Seq<char>, b: Seq<char>, c: char, k: int)
    requires
        0 <= k <= b.len(),
    ensures
        char_from(x + b, c, x.len() + k) == match char_from(b, c, k) {
            Some(i) => Some(x.len() + i),
            None => None,
        },
        char_from(b, c, k) matches Some(i) ==> k <= i < b.len() && b[i] == c,
    decreases b.len() - k,
{
    if k < b.len() {
        assert((x + b)[x.len() + k] == b[k]);
        if b[k] != c {
            lemma_char_from_shift(x, b, c, k + 1);
        }
    }
}

proof fn lemma_char_from_front(p: Seq<char>, t: Seq<char>, c: char, k: int)
    requires
        0 <= k < p.len(),
        p.last() == c,
    ensures
        char_from(p + t, c, k) == char_from(p, c, k),
        char_from(p, c, k) matches Some(i) && k <= i < p.len(),
    decreases p.len() - k,
{
    assert((p + t)[k] == p[k]);
    if p[k] != c {
        lemma_char_from_front(p, t, c, k + 1);
    }
}

proof fn lemma_lines_shift(x: Seq<char>, b: Seq<char>, k: int)
    requires
        0 <= k <= b.len(),
    ensures
        lines_from(x + b, x.len() + k) == lines_from(b, k),
    decreases b.len() - k,
{
    if k < b.len() {
        lemma_char_from_shift(x, b, '\n', k);
        match char_from(b, '\n', k) {
            Some(i) => {
                assert((x + b).subrange(x.len() + k, x.len() + i) =~= b.subrange(k, i));
                lemma_lines_shift(x, b, i + 1);
            },
            None => {
                assert((x + b).skip(x.len() + k) =~= b.skip(k));
            },
        }
    }
}

proof fn lemma_lines_split(p: Seq<char>, t: Seq<char>, k: int)
    requires
        0 <= k <= p.len(),
        p.len() > 0 ==> p.last() == '\n',
    ensures
        lines_from(p + t, k) == lines_from(p, k) + lines(t),
    decreases p.len() - k,
{
    if k == p.len() {
        lemma_lines_shift(p, t, 0);
        assert(lines_from(p, k) + lines(t) =~= lines(t));
    } else {
        lemma_char_from_front(p, t, '\n', k);
        let i = char_from(p, '\n', k)->0;
        assert((p + t).subrange(k, i) =~= p.subrange(k, i));
        lemma_lines_split(p, t, i + 1);
        let head = seq![without_cr(p.subrange(k, i))];
        assert(head + (lines_from(p, i + 1) + lines(t)) =~= (head + lines_from(p, i + 1)) + lines(
            t,
        ));
    }
}

proof fn lemma_no_char(s: Seq<char>, c: char, k: int)
    requires
        0 <= k <= s.len(),
        !s.contains(c),
    ensures
        char_from(s.push(c), c, k) == Some(s.len() as int),
    decreases s.len() - k,
{
    if k < s.len() {
        assert(s.push(c)[k] == s[k]);
        assert(s.contains(s[k]));
        lemma_no_char(s, c, k + 1);
    }
}

/// A text of whole lines with one more line behind them has the lines that it
/// had, and that one.
pub proof fn lemma_lines_push(p: Seq<char>, line: Seq<char>)
    requires
        p.len() > 0 ==> p.last() == '\n',
        !line.contains('\n'),
    ensures
        lines(p + line.push('\n')) == lines(p).push(without_cr(line)),
{
    let t = line.push('\n');
    lemma_lines_split(p, t, 0);
    lemma_no_char(line, '\n', 0);
    assert(t.subrange(0, line.len() as int) =~= line);
    assert(lines_from(t, t.len() as int) =~= Seq::<Seq<char>>::empty());
    assert(lines(t) =~= seq![without_cr(line)]);
    assert(lines(p) + seq![without_cr(line)] =~= lines(p).push(without_cr(line)));
}

/// A text cut behind its last line feed.
pub proof fn lemma_last_piece(s: Seq<char>) -> (r: (Seq<char>, Seq<char>))
    ensures
        s == r.0 + r.1,
        r.0.len() > 0 ==> r.0.last() == '\n',
        !r.1.contains('\n'),
    decreases s.len(),
{
    if s.len() == 0 {
        assert(s =~= s + Seq::<char>::empty());
        (s, Seq::empty())
    } else if s.last() == '\n' {
        assert(s =~= s + Seq::<char>::empty());
        (s, Seq::empty())
    } else {
        let (front, piece) = lemma_last_piece(s.drop_last());
        let longer = piece.push(s.last());
        assert(s =~= s.drop_last().push(s.last()));
        assert((front + piece).push(s.last()) =~= front + longer);
        assert forall|i: int| 0 <= i < longer.len() implies #[trigger] longer[i] != '\n' by {
            if i < piece.len() {
                assert(piece.contains(piece[i]));
            }
        }
        (front, longer)
    }
}

/// A text of whole lines with a piece of a line behind them has the lines that
/// it had, and that piece, where it is not empty.
pub proof fn lemma_lines_end(p: Seq<char>, piece: Seq<char>)
    requires
        p.len() > 0 ==> p.last() == '\n',
        !piece.contains('\n'),
    ensures
        lines(p + piece) == if piece.len() > 0 {
            lines(p).push(piece)
        } else {
            lines(p)
        },
{
    lemma_lines_split(p, piece, 0);
    if piece.len() > 0 {
        lemma_no_char_from(piece, '\n', 0);
        assert(piece.skip(0) =~= piece);
        assert(lines(p) + seq![piece] =~= lines(p).push(piece));
    } else {
        assert(lines(p) + Seq::<Seq<char>>::empty() =~= lines(p));
    }
}

proof fn lemma_no_char_from(s: Seq<char>, c: char, k: int)
    requires
        0 <= k <= s.len(),
        !s.contains(c),
    ensures
        char_from(s, c, k) is None,
    decreases s.len() - k,
{
    if k < s.len() {
        assert(s.contains(s[k]));
        lemma_no_char_from(s, c, k + 1);
    }
}

/// The lines of a text hold no character that the text does not hold.
pub proof fn lemma_lines_without(s: Seq<char>, from: int, c: char)
    requires
        !s.contains(c),
    ensures
        forall|i: int| 0 <= i < lines_from(s, from).len() ==> !(#[trigger] lines_from(s, from)[i]).contains(c),
    decreases s.len() - from,
{
    let out = lines_from(s, from);
    if 0 <= from < s.len() {
        assert forall|i: int| 0 <= i < s.len() implies #[trigger] s[i] != c by {
            assert(s.contains(s[i]));
        }
        match char_from(s, '\n', from) {
            Some(at) => if from <= at < s.len() {
                lemma_lines_without(s, at + 1, c);
                let rest = lines_from(s, at + 1);
                assert forall|i: int| 0 <= i < out.len() implies !(#[trigger] out[i]).contains(c) by {
                    if i > 0 {
                        assert(out[i] == rest[i - 1]);
                    } else {
                        assert forall|k: int| 0 <= k < out[0].len() implies #[trigger] out[0][k] != c by {
                            assert(out[0][k] == s[from + k]);
                        }
                    }
                }
            },
            None => {
                assert forall|k: int| 0 <= k < out[0].len() implies #[trigger] out[0][k] != c by {
                    assert(out[0][k] == s[from + k]);
                }
            },
        }
    }
}

/// A blank text holds nothing but white space.
pub proof fn lemma_blank_is_white(s: Seq<char>)
    requires
        trim(s).len() == 0,
    ensures
        forall|i: int| 0 <= i < s.len() ==> white(#[trigger] s[i]),
    decreases s.len(),
{
    if s.len() > 0 {
        if white(s.first()) {
            lemma_blank_is_white(s.drop_first());
            assert forall|i: int| 0 <= i < s.len() implies white(#[trigger] s[i]) by {
                if i > 0 {
                    assert(s[i] == s.drop_first()[i - 1]);
                }
            }
        } else {
            lemma_end_is_white(s);
        }
    }
}

proof fn lemma_end_is_white(s: Seq<char>)
    requires
        trim_end(s).len() == 0,
    ensures
        forall|i: int| 0 <= i < s.len() ==> white(#[trigger] s[i]),
    decreases s.len(),
{
    if s.len() > 0 {
        lemma_end_is_white(s.drop_last());
        assert forall|i: int| 0 <= i < s.len() implies white(#[trigger] s[i]) by {
            if i < s.len() - 1 {
                assert(s[i] == s.drop_last()[i]);
            }
        }
    }
}

// ---------------------------------------------------------------------------
// Pairs of name and value
// ---------------------------------------------------------------------------

/// A pair, where its value is there.
pub open spec fn optional_pair(name: Seq<char>, value: Option<Seq<char>>) -> Seq<
    (Seq<char>, Seq<char>),
> {
    match value {
        Some(v) => seq![(name, v)],
        None => Seq::empty(),
    }
}

/// Adds a pair to a list.
pub fn add_pair(pairs: &mut Vec<(String, String)>, name: &str, value: &str)
    ensures
        pair_views(final(pairs)@) == pair_views(old(pairs)@) + seq![(name@, value@)],
{
    let ghost before = pairs@;
    pairs.push((name.to_owned(), value.to_owned()));
    assert(pair_views(pairs@) =~= pair_views(before) + seq![(name@, value@)]);
}

/// Adds a pair to a list, where its value is there.
pub fn add_optional_pair(pairs: &mut Vec<(String, String)>, name: &str, value: Option<&str>)
    ensures
        pair_views(final(pairs)@) == pair_views(old(pairs)@) + optional_pair(
            name@,
            seen_str(value),
        ),
{
    match value {
        Some(v) => {
            add_pair(pairs, name, v);
        },
        None => {
            assert(pair_views(pairs@) + Seq::<(Seq<char>, Seq<char>)>::empty() =~= pair_views(
                pairs@,
            ));
        },
    }
}

/// Adds copies of pairs to a list.
pub fn add_pairs(pairs: &mut Vec<(String, String)>, more: &Vec<(String, String)>)
    ensures
        pair_views(final(pairs)@) == pair_views(old(pairs)@) + pair_views(more@),
{
    let mut i: usize = 0;
    assert(pair_views(pairs@) + pair_views(more@.take(0)) =~= pair_views(pairs@));
    while i < more.len()
        invariant
            i <= more@.len(),
            pair_views(pairs@) == pair_views(old(pairs)@) + pair_views(more@.take(i as int)),
        decreases more@.len() - i,
    {
        let ghost before = pair_views(pairs@);
        add_pair(pairs, more[i].0.as_str(), more[i].1.as_str());
        assert(pair_views(more@.take(i + 1)) =~= pair_views(more@.take(i as int)) + seq![
            (more@[i as int].0@, more@[i as int].1@),
        ]);
        assert(pair_views(pairs@) =~= pair_views(old(pairs)@) + pair_views(more@.take(i + 1)));
        i += 1;
    }
    assert(more@.take(more@.len() as int) =~= more@);
}

/// A copy of a list of pairs.
pub fn copy_pairs(pairs: &Vec<(String, String)>) -> (r: Vec<(String, String)>)
    ensures
        pair_views(r@) == pair_views(pairs@),
{
    let mut out: Vec<(String, String)> = Vec::new();
    add_pairs(&mut out, pairs);
    assert(pair_views(out@) =~= pair_views(pairs@));
    out
}

/// The text of an owned string that may be missing.
pub fn as_text(s: &Option<String>) -> (r: Option<&str>)
    ensures
        seen_str(r) == seen_string(*s),
{
    match s {
        Some(s) => Some(s.as_str()),
        None => None,
    }
}

// ---------------------------------------------------------------------------
// Laws
// ---------------------------------------------------------------------------

/// Joined texts stand one after the other, with the separator between any two.
pub proof fn law_joined_texts_are_apart(parts: Seq<Seq<char>>, last: Seq<char>, sep: Seq<char>)
    ensures
        join(Seq::empty(), sep) == Seq::<char>::empty(),
        join(parts.push(last), sep) == if parts.len() == 0 {
            last
        } else {
            join(parts, sep) + sep + last
        },
{
    assert(parts.push(last).drop_last() =~= parts);
}

/// Of ASCII the space and the characters from tab to carriage return are white.
pub proof fn law_white_space_of_ascii(c: char)
    requires
        c < '\u{80}',
    ensures
        white(c) <==> c == ' ' || c == '\t' || c == '\n' || c == '\u{b}' || c == '\u{c}' || c
            == '\r',
{
}

proof fn lemma_trim_start_of(a: Seq<char>, rest: Seq<char>)
    requires
        forall|i: int| 0 <= i < a.len() ==> white(#[trigger] a[i]),
        rest.len() > 0 ==> !white(rest[0]),
    ensures
        trim_start(a + rest) == rest,
    decreases a.len(),
{
    if a.len() == 0 {
        assert(a + rest =~= rest);
    } else {
        assert((a + rest).drop_first() =~= a.drop_first() + rest);
        assert forall|i: int| 0 <= i < a.drop_first().len() implies white(
            #[trigger] a.drop_first()[i],
        ) by {
            assert(a.drop_first()[i] == a[i + 1]);
        }
        lemma_trim_start_of(a.drop_first(), rest);
    }
}

proof fn lemma_trim_end_of(core: Seq<char>, b: Seq<char>)
    requires
        forall|i: int| 0 <= i < b.len() ==> white(#[trigger] b[i]),
        core.len() > 0 ==> !white(core.last()),
    ensures
        trim_end(core + b) == core,
    decreases b.len(),
{
    if b.len() == 0 {
        assert(core + b =~= core);
    } else {
        assert((core + b).drop_last() =~= core + b.drop_last());
        assert forall|i: int| 0 <= i < b.drop_last().len() implies white(
            #[trigger] b.drop_last()[i],
        ) by {
            assert(b.drop_last()[i] == b[i]);
        }
        lemma_trim_end_of(core, b.drop_last());
    }
}

/// Trimming takes the white space around a text away, and nothing else.
pub proof fn law_trimming_takes_white_space_away(a: Seq<char>, core: Seq<char>, b: Seq<char>)
    requires
        forall|i: int| 0 <= i < a.len() ==> white(#[trigger] a[i]),
        forall|i: int| 0 <= i < b.len() ==> white(#[trigger] b[i]),
        core.len() > 0,
        !white(core[0]),
        !white(core.last()),
    ensures
        trim(a + core + b) == core,
        trim(a) == Seq::<char>::empty(),
{
    assert(a + core + b =~= a + (core + b));
    lemma_trim_start_of(a, core + b);
    lemma_trim_end_of(core, b);
    lemma_trim_start_of(a, Seq::empty());
    assert(a + Seq::<char>::empty() =~= a);
}

/// Small letters take the place of capitals, and every other character stays.
pub proof fn law_capitals_become_small(s: Seq<char>, i: int)
    requires
        0 <= i < s.len(),
    ensures
        lower(s).len() == s.len(),
        'A' <= s[i] <= 'Z' ==> lower(s)[i] as int == s[i] as int + 32,
        !('A' <= s[i] <= 'Z') ==> lower(s)[i] == s[i],
{
}

/// A text stands where it was put, and only where it can be found.
pub proof fn law_texts_stand_where_they_are(a: Seq<char>, p: Seq<char>, b: Seq<char>, i: int)
    ensures
        stands_at(a + p + b, p, a.len() as int),
        stands_at(b, p, i) ==> 0 <= i && i + p.len() <= b.len() && b == b.take(i) + p + b.skip(
            i + p.len(),
        ),
{
    assert((a + p + b).subrange(a.len() as int, (a.len() + p.len()) as int) =~= p);
    if stands_at(b, p, i) {
        assert(b =~= b.take(i) + b.subrange(i, i + p.len()) + b.skip(i + p.len()));
    }
}

/// The first `p` splits a text.
pub proof fn law_splitting_is_at_the_first(a: Seq<char>, p: Seq<char>, b: Seq<char>)
    requires
        p.len() > 0,
        forall|k: int| 0 <= k < a.len() ==> !#[trigger] stands_at(a + p + b, p, k),
    ensures
        split_once(a + p + b, p) == Some((a, b)),
        contains(a + p + b, p),
{
    let s = a + p + b;
    let n: int = a.len() as int;
    assert(s.subrange(n, n + p.len()) =~= p);
    assert(stands_at(s, p, n));
    lemma_find_from(s, p, 0);
    assert(s.take(n) =~= a);
    assert(s.skip(n + p.len()) =~= b);
}

/// A text without `p` is not split.
pub proof fn law_texts_without_it_are_not_split(s: Seq<char>, p: Seq<char>)
    requires
        forall|k: int| !#[trigger] stands_at(s, p, k),
    ensures
        split_once(s, p) is None,
        !contains(s, p),
{
    lemma_find_from(s, p, 0);
}

proof fn lemma_find_shift(x: Seq<char>, b: Seq<char>, p: Seq<char>, k: int)
    requires
        0 <= k <= b.len(),
    ensures
        find_from(x + b, p, x.len() + k) == match find_from(b, p, k) {
            Some(i) => Some(x.len() + i),
            None => None,
        },
    decreases b.len() - k,
{
    if k + p.len() <= b.len() {
        assert((x + b).subrange(x.len() + k, x.len() + k + p.len()) =~= b.subrange(
            k,
            k + p.len(),
        ));
        if !stands_at(b, p, k) && k < b.len() {
            lemma_find_shift(x, b, p, k + 1);
        }
    }
}

proof fn lemma_replace_shift(x: Seq<char>, b: Seq<char>, p: Seq<char>, r: Seq<char>, k: int)
    requires
        0 <= k <= b.len(),
        p.len() > 0,
    ensures
        replace_from(x + b, p, r, x.len() + k) == replace_from(b, p, r, k),
    decreases b.len() - k,
{
    lemma_find_shift(x, b, p, k);
    lemma_find_from(b, p, k);
    match find_from(b, p, k) {
        Some(i) => {
            assert((x + b).subrange(x.len() + k, x.len() + i) =~= b.subrange(k, i));
            lemma_replace_shift(x, b, p, r, i + p.len());
        },
        None => {
            assert((x + b).skip(x.len() + k) =~= b.skip(k));
        },
    }
}

/// Replacing puts `r` where `p` first stands, keeps what stands before, and goes on
/// behind; a text without `p` stays.
pub proof fn law_replacing_goes_through(a: Seq<char>, p: Seq<char>, b: Seq<char>, r: Seq<char>)
    requires
        p.len() > 0,
        forall|k: int| 0 <= k < a.len() ==> !#[trigger] stands_at(a + p + b, p, k),
    ensures
        replace(a + p + b, p, r) == a + r + replace(b, p, r),
{
    let s = a + p + b;
    let n: int = a.len() as int;
    law_splitting_is_at_the_first(a, p, b);
    assert(s.subrange(n, n + p.len()) =~= p);
    assert(stands_at(s, p, n));
    lemma_find_from(s, p, 0);
    assert(find(s, p) == Some(n));
    assert(s.subrange(0, n) =~= a);
    assert((a + p) + b =~= s);
    lemma_replace_shift(a + p, b, p, r, 0);
}

/// A text without `p` stays as it is when `p` is replaced.
pub proof fn law_nothing_else_is_replaced(s: Seq<char>, p: Seq<char>, r: Seq<char>)
    requires
        p.len() > 0,
        forall|k: int| !#[trigger] stands_at(s, p, k),
    ensures
        replace(s, p, r) == s,
{
    law_texts_without_it_are_not_split(s, p);
    assert(s.skip(0) =~= s);
}

/// The first characters of a text are its first, and a short text is whole.
pub proof fn law_prefixes_begin_the_text(s: Seq<char>, n: int, i: int)
    requires
        0 <= n,
    ensures
        s.len() <= n ==> prefix(s, n) == s,
        s.len() > n ==> prefix(s, n).len() == n,
        0 <= i < n && i < s.len() ==> prefix(s, n)[i] == s[i],
{
}

/// The lines of a text: a line that is ended by a line feed, with a carriage return
/// before it or not, is a line, and what follows has its own lines.
pub proof fn law_lines_end_with_line_feeds(line: Seq<char>, rest: Seq<char>)
    requires
        !line.contains('\n'),
        line.len() > 0 ==> line.last() != '\r',
    ensures
        lines(line + "\n"@ + rest) == seq![line] + lines(rest),
        lines(line + "\r\n"@ + rest) == seq![line] + lines(rest),
        line.len() > 0 ==> lines(line) == seq![line],
        lines(Seq::empty()) == Seq::<Seq<char>>::empty(),
{
    reveal_strlit("\n");
    reveal_strlit("\r\n");
    let none = Seq::<char>::empty();
    let a = none + line.push('\n');
    let with_cr = line.push('\r');
    let b = none + with_cr.push('\n');
    lemma_lines_push(none, line);
    assert forall|i: int| 0 <= i < with_cr.len() implies #[trigger] with_cr[i] != '\n' by {
        if i < line.len() {
            assert(line.contains(line[i]));
        }
    }
    lemma_lines_push(none, with_cr);
    assert(with_cr.drop_last() =~= line);
    lemma_lines_split(a, rest, 0);
    lemma_lines_split(b, rest, 0);
    assert(a + rest =~= line + "\n"@ + rest);
    assert(b + rest =~= line + "\r\n"@ + rest);
    assert(lines(none) =~= Seq::<Seq<char>>::empty());
    assert(Seq::<Seq<char>>::empty().push(line) =~= seq![line]);
    lemma_lines_end(none, line);
    assert(none + line =~= line);
}

/// A number is written with its digits: the last one behind those of the rest.
pub proof fn law_numbers_are_written_in_digits(n: nat, d: nat)
    requires
        d < 10,
    ensures
        decimal(d).len() == 1,
        decimal(d)[0] as int == 48 + d,
        n > 0 ==> decimal(10 * n + d) == decimal(n).push(decimal(d)[0]),
{
}

/// A number below zero is written with a minus sign.
pub proof fn law_negative_numbers_bear_a_sign(n: nat)
    requires
        n > 0,
    ensures
        decimal_int(-n) == seq!['-'] + decimal(n),
        decimal_int(n as int) == decimal(n),
{
    reveal_strlit("-");
    assert("-"@ =~= seq!['-']);
}

/// A short text is filled up with zeros in front.
pub proof fn law_short_numbers_are_filled_up(s: Seq<char>, width: nat, i: int)
    ensures
        s.len() >= width ==> zero_padded(s, width) == s,
        s.len() < width ==> zero_padded(s, width).len() == width && zero_padded(s, width).skip(
            width - s.len(),
        ) == s && (0 <= i < width - s.len() ==> zero_padded(s, width)[i] == '0'),
{
    if s.len() < width {
        assert(zero_padded(s, width).skip(width - s.len()) =~= s);
    }
}

/// A byte is written as two hexadecimal digits, in small letters, behind those of the
/// bytes before it.
pub proof fn law_bytes_are_written_in_hexadecimal(bytes: Seq<u8>, b: u8)
    ensures
        hex(Seq::empty()) == Seq::<char>::empty(),
        hex(bytes.push(b)).len() == hex(bytes).len() + 2,
        hex(bytes.push(b)).take(hex(bytes).len() as int) == hex(bytes),
        ({
            let high = hex(bytes.push(b))[hex(bytes).len() as int] as int;
            let low = hex(bytes.push(b))[hex(bytes).len() as int + 1] as int;
            &&& high == if b / 16 < 10 {
                48 + b / 16
            } else {
                87 + b / 16
            }
            &&& low == if b % 16 < 10 {
                48 + b % 16
            } else {
                87 + b % 16
            }
        }),
{
    assert(bytes.push(b).drop_last() =~= bytes);
    assert(hex(bytes.push(b)).take(hex(bytes).len() as int) =~= hex(bytes));
}

/// A character is found where it first stands at or after a position, and not
/// found where it stands at none.
pub proof fn law_first_characters_are_found(s: Seq<char>, c: char, from: int)
    requires
        0 <= from <= s.len(),
    ensures
        match char_from(s, c, from) {
            Some(i) => from <= i < s.len() && s[i] == c && forall|j: int|
                from <= j < i ==> #[trigger] s[j] != c,
            None => forall|j: int| from <= j < s.len() ==> #[trigger] s[j] != c,
        },
    decreases s.len() - from,
{
    if from < s.len() && s[from] != c {
        law_first_characters_are_found(s, c, from + 1);
    }
}

/// A character is found where it last stands before a position, and not found
/// where it stands at none.
pub proof fn law_last_characters_are_found(s: Seq<char>, c: char, end: int)
    requires
        0 <= end <= s.len(),
    ensures
        match last_char_before(s, c, end) {
            Some(i) => 0 <= i < end && s[i] == c && forall|j: int|
                i < j < end ==> #[trigger] s[j] != c,
            None => forall|j: int| 0 <= j < end ==> #[trigger] s[j] != c,
        },
    decreases end,
{
    if end > 0 && s[end - 1] != c {
        law_last_characters_are_found(s, c, end - 1);
    }
}

/// A character is cut off the end of a text as often as it stands there, and
/// nothing else is.
pub proof fn law_ends_are_cut_off(s: Seq<char>, c: char)
    ensures
        trim_end_char(s.push(c), c) == trim_end_char(s, c),
        s.len() == 0 || s.last() != c ==> trim_end_char(s, c) == s,
{
    assert(s.push(c).drop_last() =~= s);
}

/// A count is written in the digits of base 16, in small letters, of which there
/// are as many as are asked for: the last one stands for the remainder, those
/// before it for the quotient.
pub proof fn law_counts_are_written_in_base_sixteen(n: nat, width: nat)
    ensures
        hex_number(n, width).len() == width,
        width > 0 ==> hex_number(n, width).drop_last() == hex_number(n / 16, (width - 1) as nat),
        width > 0 && n % 16 < 10 ==> hex_number(n, width).last() as int == '0' as int + n % 16,
        width > 0 && n % 16 >= 10 ==> hex_number(n, width).last() as int == 'a' as int + n % 16
            - 10,
    decreases width,
{
    if width > 0 {
        law_counts_are_written_in_base_sixteen(n / 16, (width - 1) as nat);
        assert(hex_number(n, width).drop_last() =~= hex_number(n / 16, (width - 1) as nat));
    }
}

/// What precedes or follows a text is told where it stands at the end or at the
/// beginning, and only there.
pub proof fn law_ends_are_split_off(s: Seq<char>, p: Seq<char>)
    ensures
        strip_prefix(p + s, p) == Some(s),
        strip_suffix(s + p, p) == Some(s),
        strip_prefix(s, p) is Some ==> s == p + strip_prefix(s, p)->0,
        strip_suffix(s, p) is Some ==> s == strip_suffix(s, p)->0 + p,
{
    assert((p + s).take(p.len() as int) =~= p);
    assert((p + s).skip(p.len() as int) =~= s);
    assert((s + p).take(s.len() as int) =~= s);
    assert(p.is_suffix_of(s + p)) by {
        assert((s + p).skip(s.len() as int) =~= p);
    }
    if strip_prefix(s, p) is Some {
        assert(s =~= p + strip_prefix(s, p)->0);
    }
    if strip_suffix(s, p) is Some {
        assert(s =~= strip_suffix(s, p)->0 + p);
    }
}

/// Strings are seen as the characters they hold: one, several, an optional one, or
/// in pairs.
pub proof fn law_strings_are_seen_as_they_are(
    s: String,
    strings: Seq<String>,
    pairs: Seq<(String, String)>,
    i: int,
    name: Seq<char>,
    value: Seq<char>,
)
    ensures
        seen_string(Some(s)) == Some(s@),
        seen_string(None) is None,
        views(strings).len() == strings.len(),
        0 <= i < strings.len() ==> views(strings)[i] == strings[i]@,
        pair_views(pairs).len() == pairs.len(),
        0 <= i < pairs.len() ==> pair_views(pairs)[i] == (pairs[i].0@, pairs[i].1@),
        optional_pair(name, Some(value)) == seq![(name, value)],
        optional_pair(name, None).len() == 0,
{
}

/// A string slice is seen as the characters it holds.
pub proof fn law_slices_are_seen_as_they_are(s: &str)
    ensures
        seen_str(Some(s)) == Some(s@),
        seen_str(None) is None,
{
}

proof fn lemma_words_shift(x: Seq<char>, b: Seq<char>, k: int, word: Seq<char>)
    requires
        0 <= k <= b.len(),
    ensures
        words_from(x + b, x.len() + k, word) == words_from(b, k, word),
    decreases b.len() - k,
{
    if k < b.len() {
        assert((x + b)[x.len() + k] == b[k]);
        if white(b[k]) {
            lemma_words_shift(x, b, k + 1, Seq::empty());
        } else {
            lemma_words_shift(x, b, k + 1, word.push(b[k]));
        }
    }
}

proof fn lemma_word_is_read(w: Seq<char>, rest: Seq<char>, k: int)
    requires
        0 <= k <= w.len(),
        forall|i: int| 0 <= i < w.len() ==> !white(#[trigger] w[i]),
    ensures
        words_from(w + rest, k, w.take(k)) == words_from(w + rest, w.len() as int, w),
    decreases w.len() - k,
{
    if k < w.len() {
        assert((w + rest)[k] == w[k]);
        assert(!white(w[k]));
        assert(w.take(k).push(w[k]) =~= w.take(k + 1));
        lemma_word_is_read(w, rest, k + 1);
    } else {
        assert(w.take(k) =~= w);
    }
}

/// White space before a text makes no word; what holds none is a word of its own,
/// alone or before white space.
pub proof fn law_words_are_what_white_space_leaves(w: Seq<char>, c: char, rest: Seq<char>)
    requires
        white(c),
        w.len() > 0,
        forall|i: int| 0 <= i < w.len() ==> !white(#[trigger] w[i]),
    ensures
        words(Seq::empty()).len() == 0,
        words(seq![c] + rest) == words(rest),
        words(w) == seq![w],
        words(w + (seq![c] + rest)) == seq![w] + words(rest),
{
    let none = Seq::<char>::empty();
    let tail = seq![c] + rest;
    lemma_words_shift(seq![c], rest, 0, none);
    assert(tail[0] == c);
    assert(w.take(0) =~= none);
    lemma_word_is_read(w, none, 0);
    assert(w + none =~= w);
    lemma_word_is_read(w, tail, 0);
    assert((w + tail)[w.len() as int] == c);
    let front = w + seq![c];
    assert(w + tail =~= front + rest);
    lemma_words_shift(front, rest, 0, none);
}

} // verus!
