//! Lines of the log of sign-in flows.

use crate::text::{concat, concat3, first_chars, is_empty, joined, words_of};
use vstd::prelude::*;

verus! {

/// The size in bytes above which the file is set aside.
pub const MAX_BYTES: u64 = 262_144;

/// A line of the log: time, the first characters of the flow, event, and detail
/// with its white space reduced to single spaces.
pub open spec fn line(
    stamp: Seq<char>,
    flow: Seq<char>,
    event: Seq<char>,
    detail: Seq<char>,
) -> Seq<char> {
    let front = stamp + " ["@ + crate::text::prefix(flow, 8) + "] "@ + event;
    let clean = crate::text::join(crate::text::words(detail), " "@);
    if clean.len() == 0 {
        front + "\n"@
    } else {
        front + " "@ + clean + "\n"@
    }
}

/// `chrono::Local::now` gives the current time of the machine's time zone, and
/// `format` writes it out with digits, signs and what separates them. Which time
/// that is depends on the machine.
#[verifier::external_body]
fn local_stamp() -> (r: String)
    ensures
        crate::clock::stamp_like(r@),
{
    chrono::Local::now().format("%Y-%m-%d %H:%M:%S").to_string()
}

/// A line of the log that bears the given time.
pub fn format_line_at(stamp: &str, flow: &str, event: &str, detail: &str) -> (r: String)
    ensures
        r@ == line(stamp@, flow@, event@, detail@),
{
    let tag = first_chars(flow, 8);
    let words: Vec<String> = words_of(detail);
    let clean = joined(&words, " ");
    let opened = concat3(stamp, " [", tag.as_str());
    let front = concat3(opened.as_str(), "] ", event);
    if is_empty(clean.as_str()) {
        concat(front.as_str(), "\n")
    } else {
        let full = concat3(front.as_str(), " ", clean.as_str());
        concat(full.as_str(), "\n")
    }
}

/// A line of the log that bears the current time.
pub fn format_line(flow: &str, event: &str, detail: &str) -> (r: String)
    ensures
        exists|stamp: Seq<char>|
            crate::clock::stamp_like(stamp) && r@ == #[trigger] line(
                stamp,
                flow@,
                event@,
                detail@,
            ),
{
    let stamp = local_stamp();
    let r = format_line_at(stamp.as_str(), flow, event, detail);
    assert(r@ == line(stamp@, flow@, event@, detail@));
    r
}

/// The line to append where the log has a file, and none where it has not.
pub fn log(has_file: bool, flow: &str, event: &str, detail: &str) -> (r: Option<String>)
    ensures
        match r {
            Some(text) => has_file && exists|stamp: Seq<char>|
                crate::clock::stamp_like(stamp) && text@ == #[trigger] line(
                    stamp,
                    flow@,
                    event@,
                    detail@,
                ),
            None => !has_file,
        },
{
    if has_file {
        Some(format_line(flow, event, detail))
    } else {
        None
    }
}

/// Whether a file of a given size is set aside before the next line.
pub fn is_full(bytes: u64) -> (r: bool)
    ensures
        r == (bytes > MAX_BYTES),
{
    bytes > MAX_BYTES
}

// ---------------------------------------------------------------------------
// Laws
// ---------------------------------------------------------------------------

/// Every event takes one line of the log, however its detail is broken into
/// lines: the only line feed is the one at the end.
pub proof fn law_events_take_one_line(
    stamp: Seq<char>,
    flow: Seq<char>,
    event: Seq<char>,
    detail: Seq<char>,
)
    requires
        crate::clock::stamp_like(stamp),
        !flow.contains('\n'),
        !event.contains('\n'),
    ensures
        ({
            let out = line(stamp, flow, event, detail);
            out.len() > 0 && out.last() == '\n' && !out.drop_last().contains('\n')
        }),
{
    reveal_strlit(" [");
    reveal_strlit("] ");
    reveal_strlit(" ");
    reveal_strlit("\n");
    let tag = crate::text::prefix(flow, 8);
    let clean = crate::text::join(crate::text::words(detail), " "@);
    crate::text::lemma_words_are_dense(detail, 0, Seq::empty());
    assert forall|i: int| 0 <= i < crate::text::words(detail).len() implies !(
    #[trigger] crate::text::words(detail)[i]).contains('\n') by {
        let word = crate::text::words(detail)[i];
        if word.contains('\n') {
            let k = choose|k: int| 0 <= k < word.len() && word[k] == '\n';
            assert(crate::text::white(word[k]));
        }
    }
    assert(!" "@.contains('\n'));
    crate::text::lemma_join_without(crate::text::words(detail), " "@, '\n');
    if tag.contains('\n') {
        let i = choose|i: int| 0 <= i < tag.len() && tag[i] == '\n';
        assert(flow[i] == '\n');
    }
    assert(!stamp.contains('\n'));
    let front = stamp + " ["@ + tag + "] "@ + event;
    assert forall|i: int| 0 <= i < front.len() implies front[i] != '\n' by {
        let a = stamp.len() as int;
        let b = a + 2 + tag.len();
        if i < a {
            assert(front[i] == stamp[i]);
        } else if a + 2 <= i < b {
            assert(front[i] == tag[i - a - 2]);
        } else if b + 2 <= i {
            assert(front[i] == event[i - b - 2]);
        }
    }
    let out = line(stamp, flow, event, detail);
    if clean.len() == 0 {
        assert(out.drop_last() =~= front);
    } else {
        assert(out.drop_last() =~= front + " "@ + clean);
        assert forall|i: int| 0 <= i < out.len() - 1 implies out[i] != '\n' by {
            if i < front.len() {
                assert(out[i] == front[i]);
            } else if i > front.len() {
                assert(out[i] == clean[i - front.len() - 1]);
            }
        }
    }
}

/// A line tells the time, the first eight characters of the flow's name, the event
/// and the words of its details, with one space between them.
pub proof fn law_lines_tell_time_flow_and_event(
    stamp: Seq<char>,
    flow: Seq<char>,
    event: Seq<char>,
    detail: Seq<char>,
)
    requires
        flow.len() <= 8,
    ensures
        ({
            let said = crate::text::join(crate::text::words(detail), " "@);
            &&& said.len() == 0 ==> line(stamp, flow, event, detail) == stamp + " ["@ + flow + "] "@
                + event + "\n"@
            &&& said.len() > 0 ==> line(stamp, flow, event, detail) == stamp + " ["@ + flow + "] "@
                + event + " "@ + said + "\n"@
        }),
{
}

/// Of the name of a flow no more than eight characters are told.
pub proof fn law_long_flows_are_shortened(
    stamp: Seq<char>,
    flow: Seq<char>,
    event: Seq<char>,
    detail: Seq<char>,
)
    requires
        flow.len() > 8,
    ensures
        line(stamp, flow, event, detail) == line(stamp, flow.take(8), event, detail),
{
}

} // verus!
