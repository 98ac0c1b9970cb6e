//! Incremental decoding of UTF-8: a character may be split across two chunks.

use vstd::prelude::*;
use vstd::utf8::*;

verus! {

/// `char::from_u32` gives the character of a Unicode scalar value, and nothing
/// for any other number.
pub assume_specification[ char::from_u32 ](i: u32) -> (r: Option<char>)
    ensures
        match r {
            Some(c) => is_scalar(i) && c == i as char,
            None => !is_scalar(i),
        },
;

/// The text that `String::from_utf8_lossy` makes of bytes.
pub uninterp spec fn lossy(bytes: Seq<u8>) -> Seq<char>;

/// `String::from_utf8_lossy` decodes bytes, with a replacement character in
/// place of what is not UTF-8. So valid bytes are decoded as they are, also where
/// others follow them. Which bytes share one replacement character is not stated.
#[verifier::external_body]
fn lossy_text(bytes: &[u8]) -> (r: String)
    ensures
        r@ == lossy(bytes@),
        valid_utf8(bytes@) ==> r@ == decode_utf8(bytes@),
        forall|front: Seq<u8>|
            valid_utf8(front) ==> #[trigger] lossy(front + bytes@) == decode_utf8(front) + r@,
{
    String::from_utf8_lossy(bytes).into_owned()
}

/// The text of bytes: what valid ones decode to, and what becomes of others.
pub open spec fn lenient_text(bytes: Seq<u8>) -> Seq<char> {
    if valid_utf8(bytes) {
        decode_utf8(bytes)
    } else {
        lossy(bytes)
    }
}

/// Whether a text is that of bytes also where valid ones stand before them.
pub open spec fn completes(text: Seq<char>, bytes: Seq<u8>) -> bool {
    forall|front: Seq<u8>|
        valid_utf8(front) ==> #[trigger] lossy(front + bytes) == decode_utf8(front) + text
}

/// The number of leading bytes that are complete characters.
pub open spec fn complete_len(bytes: Seq<u8>) -> int
    decreases bytes.len(),
{
    if bytes.len() > 0 && valid_first_scalar(bytes) {
        length_of_first_scalar(bytes) + complete_len(pop_first_scalar(bytes))
    } else {
        0
    }
}

/// The characters that the leading bytes complete.
pub open spec fn complete_text(bytes: Seq<u8>) -> Seq<char>
    decreases bytes.len(),
{
    if bytes.len() > 0 && valid_first_scalar(bytes) {
        seq![decode_first_scalar(bytes) as char] + complete_text(pop_first_scalar(bytes))
    } else {
        Seq::empty()
    }
}

/// What follows the complete characters.
pub open spec fn incomplete_tail(bytes: Seq<u8>) -> Seq<u8> {
    bytes.skip(complete_len(bytes))
}

proof fn lemma_complete_len(bytes: Seq<u8>)
    ensures
        0 <= complete_len(bytes) <= bytes.len(),
    decreases bytes.len(),
{
    if bytes.len() > 0 && valid_first_scalar(bytes) {
        lemma_complete_len(pop_first_scalar(bytes));
    }
}

/// The width in bytes and the code of the first character, or zero where the
/// bytes do not begin with a complete character.
fn first_scalar(bytes: &Vec<u8>, at: usize) -> (r: (usize, u32))
    requires
        at < bytes@.len(),
    ensures
        ({
            let rest = bytes@.skip(at as int);
            if valid_first_scalar(rest) {
                r.0 == length_of_first_scalar(rest) && r.1 == decode_first_scalar(rest) && at + r.0
                    <= bytes@.len() && r.1 <= 0x10ffff && !(0xd800 <= r.1 <= 0xdfff)
            } else {
                r.0 == 0
            }
        }),
{
    let ghost rest = bytes@.skip(at as int);
    let left: usize = bytes.len() - at;
    let b1: u8 = bytes[at];
    assert(rest[0] == b1);
    if b1 <= 0x7f {
        let c: u32 = (b1 & 0x7f) as u32;
        assert(b1 & 0x7f <= 0x7f) by (bit_vector);
        return (1, c);
    }
    if left < 2 {
        return (0, 0);
    }
    let b2: u8 = bytes[at + 1];
    assert(rest[1] == b2);
    if !(0x80 <= b2 && b2 <= 0xbf) {
        return (0, 0);
    }
    if 0xc0 <= b1 && b1 <= 0xdf {
        let c: u32 = (((b1 & 0x1f) as u32) << 6) | ((b2 & 0x3f) as u32);
        assert((((b1 & 0x1f) as u32) << 6) | ((b2 & 0x3f) as u32) <= 0x7ff) by (bit_vector);
        if c < 0x80 {
            return (0, 0);
        }
        return (2, c);
    }
    if left < 3 {
        return (0, 0);
    }
    let b3: u8 = bytes[at + 2];
    assert(rest[2] == b3);
    if !(0x80 <= b3 && b3 <= 0xbf) {
        return (0, 0);
    }
    if 0xe0 <= b1 && b1 <= 0xef {
        let c: u32 = (((b1 & 0x0f) as u32) << 12) | (((b2 & 0x3f) as u32) << 6) | ((b3
            & 0x3f) as u32);
        assert((((b1 & 0x0f) as u32) << 12) | (((b2 & 0x3f) as u32) << 6) | ((b3 & 0x3f) as u32)
            <= 0xffff) by (bit_vector);
        if c < 0x800 || (0xd800 <= c && c <= 0xdfff) {
            return (0, 0);
        }
        return (3, c);
    }
    if left < 4 {
        return (0, 0);
    }
    let b4: u8 = bytes[at + 3];
    assert(rest[3] == b4);
    if !(0x80 <= b4 && b4 <= 0xbf) {
        return (0, 0);
    }
    if 0xf0 <= b1 && b1 <= 0xf7 {
        let c: u32 = (((b1 & 0x07) as u32) << 18) | (((b2 & 0x3f) as u32) << 12) | (((b3
            & 0x3f) as u32) << 6) | ((b4 & 0x3f) as u32);
        if c < 0x10000 || c > 0x10ffff {
            return (0, 0);
        }
        return (4, c);
    }
    (0, 0)
}

/// The complete characters at the front of the bytes, and how many bytes they
/// take.
fn decode_front(bytes: &Vec<u8>) -> (r: (String, usize))
    ensures
        r.0@ == complete_text(bytes@),
        r.1 == complete_len(bytes@),
        r.1 <= bytes@.len(),
{
    let mut out: String = String::new();
    let mut at: usize = 0;
    assert(bytes@.skip(0) =~= bytes@);
    assert(out@ + complete_text(bytes@) =~= complete_text(bytes@));
    while at < bytes.len()
        invariant_except_break
            at <= bytes@.len(),
            at + complete_len(bytes@.skip(at as int)) == complete_len(bytes@),
            out@ + complete_text(bytes@.skip(at as int)) == complete_text(bytes@),
        ensures
            at <= bytes@.len(),
            at == complete_len(bytes@),
            out@ == complete_text(bytes@),
        decreases bytes@.len() - at,
    {
        let ghost rest = bytes@.skip(at as int);
        let ghost before = out@;
        let (width, code): (usize, u32) = first_scalar(bytes, at);
        if width == 0 {
            assert(before + Seq::<char>::empty() =~= before);
            break;
        }
        match char::from_u32(code) {
            Some(c) => {
                out.push(c);
                assert(pop_first_scalar(rest) =~= bytes@.skip(at + width));
                assert(before + (seq![c] + complete_text(pop_first_scalar(rest))) =~= out@
                    + complete_text(pop_first_scalar(rest)));
            },
            None => {},
        }
        at += width;
        if at == bytes.len() {
            assert(bytes@.skip(at as int).len() == 0);
            assert(out@ + Seq::<char>::empty() =~= out@);
        }
    }
    (out, at)
}

/// Collects bytes and hands the text out as far as its characters are complete.
pub struct Utf8Feeder {
    buf: Vec<u8>,
}

impl Utf8Feeder {
    /// The bytes that are held back.
    pub closed spec fn held(&self) -> Seq<u8> {
        self.buf@
    }

    /// A feeder that holds nothing.
    pub fn new() -> (r: Self)
        ensures
            r.held() == Seq::<u8>::empty(),
    {
        let r = Utf8Feeder { buf: Vec::new() };
        assert(r.buf@ =~= Seq::<u8>::empty());
        r
    }

    /// Takes bytes in; gives the text that became complete, and holds the rest
    /// back.
    pub fn feed(&mut self, chunk: &[u8]) -> (r: String)
        ensures
            r@ == complete_text(old(self).held() + chunk@),
            final(self).held() == incomplete_tail(old(self).held() + chunk@),
    {
        let mut i: usize = 0;
        while i < chunk.len()
            invariant
                i <= chunk@.len(),
                self.held() == old(self).held() + chunk@.take(i as int),
            decreases chunk@.len() - i,
        {
            self.buf.push(chunk[i]);
            assert(chunk@.take(i + 1) =~= chunk@.take(i as int).push(chunk@[i as int]));
            assert(self.held() =~= old(self).held() + chunk@.take(i + 1));
            i += 1;
        }
        assert(chunk@.take(chunk@.len() as int) =~= chunk@);
        let (out, used): (String, usize) = decode_front(&self.buf);
        let mut rest: Vec<u8> = Vec::new();
        let mut k: usize = used;
        while k < self.buf.len()
            invariant
                used <= k <= self.buf@.len(),
                rest@ == self.buf@.subrange(used as int, k as int),
                self.held() == old(self).held() + chunk@,
                self.held() == self.buf@,
            decreases self.buf@.len() - k,
        {
            rest.push(self.buf[k]);
            k += 1;
        }
        assert(rest@ =~= self.buf@.skip(used as int));
        self.buf = rest;
        out
    }

    /// Gives what is held back as text, with a replacement character in place
    /// of what is not UTF-8, and holds nothing.
    pub fn finish(&mut self) -> (r: String)
        ensures
            r@ == lenient_text(old(self).held()),
            r@ == lossy(old(self).held()),
            completes(r@, old(self).held()),
            final(self).held() == Seq::<u8>::empty(),
    {
        let out = lossy_text(self.buf.as_slice());
        self.buf = Vec::new();
        assert(self.buf@ =~= Seq::<u8>::empty());
        out
    }
}

/// The text of bytes that are valid UTF-8.
pub fn text_of_utf8(bytes: &Vec<u8>) -> (r: Option<String>)
    ensures
        match r {
            Some(text) => valid_utf8(bytes@) && text@ == decode_utf8(bytes@),
            None => !valid_utf8(bytes@),
        },
{
    proof {
        law_complete_text_is_decoded(bytes@);
        assert(bytes@.take(bytes@.len() as int) =~= bytes@);
    }
    let (text, used): (String, usize) = decode_front(bytes);
    if used == bytes.len() {
        Some(text)
    } else {
        None
    }
}

/// The text of a whole body, with a replacement character in place of what is not
/// UTF-8.
pub fn text_of_body(bytes: &[u8]) -> (r: String)
    ensures
        r@ == lenient_text(bytes@),
        r@ == lossy(bytes@),
{
    let mut feeder = Utf8Feeder::new();
    let head = feeder.feed(bytes);
    let ghost held = feeder.held();
    let tail = feeder.finish();
    proof {
        let chunks = seq![bytes@];
        assert(chunks.drop_last() =~= Seq::<Seq<u8>>::empty());
        assert(Seq::<u8>::empty() + bytes@ =~= bytes@);
        assert(Seq::<char>::empty() + complete_text(bytes@) =~= complete_text(bytes@));
        assert(all_bytes(chunks) == bytes@) by {
            reveal_with_fuel(all_bytes, 2);
        }
        assert(fed(chunks) == (head@, held)) by {
            reveal_with_fuel(fed, 2);
        }
        law_pieces_make_the_whole(chunks, tail@);
    }
    crate::text::concat(head.as_str(), tail.as_str())
}

// ---------------------------------------------------------------------------
// Laws
// ---------------------------------------------------------------------------

/// How the bytes are cut into chunks makes no difference: two chunks one after
/// the other give the text, and leave the rest, that both at once give.
pub proof fn law_decoding_in_chunks(a: Seq<u8>, b: Seq<u8>)
    ensures
        complete_text(a + b) == complete_text(a) + complete_text(incomplete_tail(a) + b),
        incomplete_tail(a + b) == incomplete_tail(incomplete_tail(a) + b),
    decreases a.len(),
{
    lemma_complete_len(a);
    lemma_complete_len(a + b);
    if a.len() > 0 && valid_first_scalar(a) {
        let n = length_of_first_scalar(a);
        let rest = pop_first_scalar(a);
        assert((a + b)[0] == a[0]);
        assert(n > 1 ==> (a + b)[1] == a[1]);
        assert(n > 2 ==> (a + b)[2] == a[2]);
        assert(n > 3 ==> (a + b)[3] == a[3]);
        assert(valid_first_scalar(a + b));
        assert(pop_first_scalar(a + b) =~= rest + b);
        law_decoding_in_chunks(rest, b);
        lemma_complete_len(rest);
        assert(incomplete_tail(a) =~= incomplete_tail(rest));
        let c = seq![decode_first_scalar(a) as char];
        assert(c + (complete_text(rest) + complete_text(incomplete_tail(rest) + b)) =~= (c
            + complete_text(rest)) + complete_text(incomplete_tail(rest) + b));
        lemma_complete_len(rest + b);
        assert(incomplete_tail(a + b) =~= incomplete_tail(rest + b));
    } else {
        assert(incomplete_tail(a) =~= a);
        assert(complete_text(a) + complete_text(a + b) =~= complete_text(a + b));
    }
}

/// All the bytes of several chunks.
pub open spec fn all_bytes(chunks: Seq<Seq<u8>>) -> Seq<u8>
    decreases chunks.len(),
{
    if chunks.len() == 0 {
        Seq::empty()
    } else {
        all_bytes(chunks.drop_last()) + chunks.last()
    }
}

/// The text that several chunks give one after the other, and the bytes that are
/// held back then.
pub open spec fn fed(chunks: Seq<Seq<u8>>) -> (Seq<char>, Seq<u8>)
    decreases chunks.len(),
{
    if chunks.len() == 0 {
        (Seq::empty(), Seq::empty())
    } else {
        let before = fed(chunks.drop_last());
        let bytes = before.1 + chunks.last();
        (before.0 + complete_text(bytes), incomplete_tail(bytes))
    }
}

proof fn lemma_fed(chunks: Seq<Seq<u8>>)
    ensures
        fed(chunks) == (complete_text(all_bytes(chunks)), incomplete_tail(all_bytes(chunks))),
    decreases chunks.len(),
{
    if chunks.len() > 0 {
        lemma_fed(chunks.drop_last());
        law_decoding_in_chunks(all_bytes(chunks.drop_last()), chunks.last());
    } else {
        assert(incomplete_tail(Seq::<u8>::empty()) =~= Seq::<u8>::empty());
    }
}

/// However the bytes are cut into chunks, the text of the pieces with the text of
/// the rest behind it is the text of all the bytes, and for valid bytes what they
/// decode to.
pub proof fn law_pieces_make_the_whole(chunks: Seq<Seq<u8>>, rest: Seq<char>)
    requires
        rest == lenient_text(fed(chunks).1),
        completes(rest, fed(chunks).1),
    ensures
        fed(chunks).0 + rest == lossy(all_bytes(chunks)),
        valid_utf8(all_bytes(chunks)) ==> fed(chunks).0 + rest == decode_utf8(all_bytes(chunks)),
{
    let bytes = all_bytes(chunks);
    lemma_fed(chunks);
    lemma_complete_len(bytes);
    law_complete_text_is_decoded(bytes);
    let front = bytes.take(complete_len(bytes));
    assert(front + incomplete_tail(bytes) =~= bytes);
    assert(lossy(front + incomplete_tail(bytes)) == decode_utf8(front) + rest);
    if valid_utf8(bytes) {
        assert(front =~= bytes);
        assert(incomplete_tail(bytes) =~= Seq::<u8>::empty());
        assert(rest =~= Seq::<char>::empty());
        assert(fed(chunks).0 + rest =~= fed(chunks).0);
    }
}

/// The complete characters are those of a valid encoding, and valid bytes are
/// complete: nothing of them is held back.
pub proof fn law_complete_text_is_decoded(bytes: Seq<u8>)
    ensures
        valid_utf8(bytes.take(complete_len(bytes))),
        complete_text(bytes) == decode_utf8(bytes.take(complete_len(bytes))),
        valid_utf8(bytes) ==> complete_len(bytes) == bytes.len(),
    decreases bytes.len(),
{
    lemma_complete_len(bytes);
    let front = bytes.take(complete_len(bytes));
    if bytes.len() > 0 && valid_first_scalar(bytes) {
        let n = length_of_first_scalar(bytes);
        let rest = pop_first_scalar(bytes);
        law_complete_text_is_decoded(rest);
        lemma_complete_len(rest);
        assert(front[0] == bytes[0]);
        assert(n > 1 ==> front[1] == bytes[1]);
        assert(n > 2 ==> front[2] == bytes[2]);
        assert(n > 3 ==> front[3] == bytes[3]);
        assert(valid_first_scalar(front));
        assert(pop_first_scalar(front) =~= rest.take(complete_len(rest)));
    } else {
        assert(front =~= Seq::<u8>::empty());
    }
}

/// The text of valid bytes is what they decode to.
pub proof fn law_valid_bytes_are_decoded(bytes: Seq<u8>)
    ensures
        valid_utf8(bytes) ==> lenient_text(bytes) == decode_utf8(bytes),
        !valid_utf8(bytes) ==> lenient_text(bytes) == lossy(bytes),
        valid_utf8(bytes) ==> complete_text(bytes) == decode_utf8(bytes),
        valid_utf8(bytes) ==> incomplete_tail(bytes).len() == 0,
{
    law_complete_text_is_decoded(bytes);
    if valid_utf8(bytes) {
        assert(bytes.take(bytes.len() as int) =~= bytes);
    }
}

/// What is held back is what the bytes end with, and it does not begin with a
/// complete character.
pub proof fn law_only_beginnings_are_held_back(bytes: Seq<u8>)
    ensures
        incomplete_tail(bytes).is_suffix_of(bytes),
        bytes == vstd::utf8::encode_utf8(complete_text(bytes)) + incomplete_tail(bytes),
        incomplete_tail(bytes).len() == 0 || !valid_first_scalar(incomplete_tail(bytes)),
    decreases bytes.len(),
{
    lemma_complete_len(bytes);
    law_complete_text_is_decoded(bytes);
    let n = complete_len(bytes);
    vstd::utf8::decode_utf8_encode_utf8(bytes.take(n));
    assert(bytes =~= bytes.take(n) + bytes.skip(n));
    assert(incomplete_tail(bytes).is_suffix_of(bytes)) by {
        assert(bytes.skip(n) =~= bytes.subrange(n, bytes.len() as int));
    }
    if bytes.len() > 0 && valid_first_scalar(bytes) {
        let rest = pop_first_scalar(bytes);
        law_only_beginnings_are_held_back(rest);
        lemma_complete_len(rest);
        assert(bytes.skip(n) =~= rest.skip(complete_len(rest)));
    } else {
        assert(bytes.skip(0) =~= bytes);
    }
}

} // verus!
