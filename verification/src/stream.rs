//! A stream of the upstream on its way to the client: bytes come in as they
//! arrive, and translated events go out.

use crate::clock::unix_seconds;
use crate::sse::{SseTranslator, Stream};
use crate::utf8::Utf8Feeder;
use vstd::prelude::*;

verus! {

/// A stream on its way.
pub struct StreamPump {
    feeder: Utf8Feeder,
    translator: SseTranslator,
}

/// How far a stream has come: the model that was asked for, what it told so far,
/// the text of an event that is not complete, and the bytes of a character that
/// is not.
pub ghost struct PumpRow {
    pub fallback: Seq<char>,
    pub stream: Stream,
    pub pending: Seq<char>,
    pub held: Seq<u8>,
}

impl View for StreamPump {
    type V = PumpRow;

    closed spec fn view(&self) -> PumpRow {
        PumpRow {
            fallback: self.translator.fallback(),
            stream: self.translator.stream(),
            pending: self.translator.pending(),
            held: self.feeder.held(),
        }
    }
}

/// A stream of which nothing has arrived.
pub open spec fn new_pump(model: Seq<char>) -> PumpRow {
    PumpRow {
        fallback: model,
        stream: crate::sse::new_stream(model),
        pending: Seq::empty(),
        held: Seq::empty(),
    }
}

/// What bytes that arrive lead to: how far the stream has come then, and what
/// goes out.
pub open spec fn pumped(p: PumpRow, chunk: Seq<u8>, created: u64) -> (PumpRow, Seq<Seq<char>>) {
    let text = crate::utf8::complete_text(p.held + chunk);
    let d = crate::sse::drained(p.stream, p.pending + text, created);
    (
        PumpRow {
            fallback: p.fallback,
            stream: d.0,
            pending: d.1,
            held: crate::utf8::incomplete_tail(p.held + chunk),
        },
        d.2,
    )
}

/// What the end of the bytes leads to, whether the stream came to its end or
/// broke: how far it has come then, with nothing left, and what goes out, the rest
/// and the end mark.
pub open spec fn pumped_out(p: PumpRow, created: u64) -> (PumpRow, Seq<Seq<char>>) {
    let d = crate::sse::drained(p.stream, p.pending + crate::utf8::lenient_text(p.held), created);
    let end = crate::sse::finished(d.0, d.1, created);
    (
        PumpRow {
            fallback: p.fallback,
            stream: end.0,
            pending: Seq::empty(),
            held: Seq::empty(),
        },
        d.2 + end.1,
    )
}

impl StreamPump {
    /// A stream of which nothing has arrived, in answer to a request for a
    /// model.
    pub fn new(model: &str) -> (r: Self)
        ensures
            r@ == new_pump(model@),
    {
        StreamPump { feeder: Utf8Feeder::new(), translator: SseTranslator::new(model) }
    }

    /// Takes bytes in, and gives the events that became complete, which bear the
    /// given time.
    pub fn feed_at(&mut self, chunk: &[u8], created: u64) -> (r: Vec<String>)
        ensures
            (final(self)@, crate::text::views(r@)) == pumped(old(self)@, chunk@, created),
    {
        let text = self.feeder.feed(chunk);
        self.translator.feed_at(text.as_str(), created)
    }

    /// Takes the end of the stream in, and gives what was left, which bears the
    /// given time, and the end mark.
    pub fn finish_at(&mut self, created: u64) -> (r: Vec<String>)
        ensures
            (final(self)@, crate::text::views(r@)) == pumped_out(old(self)@, created),
    {
        let tail = self.feeder.finish();
        let mut out: Vec<String> = self.translator.feed_at(tail.as_str(), created);
        let ghost first = crate::text::views(out@);
        let mut rest: Vec<String> = self.translator.finish_at(created);
        let ghost second = crate::text::views(rest@);
        out.append(&mut rest);
        assert(crate::text::views(out@) =~= first + second);
        out
    }

    /// Takes bytes in, and gives the events that became complete, which bear the
    /// current time.
    pub fn feed(&mut self, chunk: &[u8]) -> (r: Vec<String>)
        ensures
            exists|created: u64|
                (final(self)@, crate::text::views(r@)) == #[trigger] pumped(
                    old(self)@,
                    chunk@,
                    created,
                ),
    {
        let created: u64 = unix_seconds();
        self.feed_at(chunk, created)
    }

    /// Takes the end of the stream in, and gives what was left, which bears the
    /// current time, and the end mark.
    pub fn finish(&mut self) -> (r: Vec<String>)
        ensures
            exists|created: u64|
                (final(self)@, crate::text::views(r@)) == #[trigger] pumped_out(
                    old(self)@,
                    created,
                ),
    {
        let created: u64 = unix_seconds();
        self.finish_at(created)
    }
}

// ---------------------------------------------------------------------------
// Laws
// ---------------------------------------------------------------------------

/// How the bytes of a stream are cut into chunks, also within a character, makes
/// no difference to what goes out.
pub proof fn law_chunks_make_no_difference(p: PumpRow, a: Seq<u8>, b: Seq<u8>, created: u64)
    ensures
        ({
            let first = pumped(p, a, created);
            let second = pumped(first.0, b, created);
            pumped(p, a + b, created) == (second.0, first.1 + second.1)
        }),
{
    let held = p.held + a;
    crate::utf8::law_decoding_in_chunks(held, b);
    assert(held + b =~= p.held + (a + b));
    let one = crate::utf8::complete_text(held);
    let two = crate::utf8::complete_text(crate::utf8::incomplete_tail(held) + b);
    crate::sse::law_feeding_in_pieces(p.stream, p.pending + one, two, created);
    assert((p.pending + one) + two =~= p.pending + (one + two));
}

/// Whatever arrived, and whether the stream came to its end or broke, the last
/// that goes out is the end mark.
pub proof fn law_streams_end_with_the_mark(p: PumpRow, created: u64)
    ensures
        pumped_out(p, created).1.len() > 0,
        pumped_out(p, created).1.last() == crate::sse::done_text(),
{
}

/// Bytes that are valid are translated as the events of the text they decode to,
/// and nothing of them is held back; what was said at first of the model stays.
pub proof fn law_valid_bytes_are_translated_at_once(
    model: Seq<char>,
    bytes: Seq<u8>,
    created: u64,
)
    requires
        vstd::utf8::valid_utf8(bytes),
    ensures
        ({
            let p = pumped(new_pump(model), bytes, created);
            let d = crate::sse::drained(
                crate::sse::new_stream(model),
                vstd::utf8::decode_utf8(bytes),
                created,
            );
            &&& p.1 == d.2
            &&& p.0.stream == d.0
            &&& p.0.pending == d.1
            &&& p.0.held.len() == 0
            &&& p.0.fallback == model
        }),
{
    crate::utf8::law_valid_bytes_are_decoded(bytes);
    assert(Seq::<u8>::empty() + bytes =~= bytes);
    let text = vstd::utf8::decode_utf8(bytes);
    assert(Seq::<char>::empty() + text =~= text);
}

/// At its end a stream says what its last bytes still make of it, and then how the
/// translation ends; nothing is kept.
pub proof fn law_nothing_is_kept_at_the_end(p: PumpRow, created: u64)
    requires
        p.held.len() == 0,
    ensures
        ({
            let out = pumped_out(p, created);
            let d = crate::sse::drained(p.stream, p.pending, created);
            let end = crate::sse::finished(d.0, d.1, created);
            &&& out.1 == d.2 + end.1
            &&& out.0.stream == end.0
            &&& out.0.pending.len() == 0 && out.0.held.len() == 0
            &&& out.0.fallback == p.fallback
        }),
{
    let held = p.held;
    assert(held =~= Seq::<u8>::empty());
    assert(vstd::utf8::valid_utf8(held));
    crate::utf8::law_valid_bytes_are_decoded(held);
    assert(vstd::utf8::decode_utf8(held) =~= Seq::<char>::empty());
    assert(p.pending + Seq::<char>::empty() =~= p.pending);
}

} // verus!
