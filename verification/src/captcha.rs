//! Challenges of the start plan: recognising them, and keeping the ticket that
//! a user solved. Times are in milliseconds.

use crate::headers::header_str;
use crate::pool::copy_text;
use crate::text::{add_optional_pair, add_pair, as_text, has, is_blank, is_empty, lowered, trimmed};
use vstd::prelude::*;

verus! {

/// How long a ticket is good for, in milliseconds.
pub const TICKET_TTL_MS: u64 = 240_000;

/// The proof that a challenge was solved.
#[derive(Debug)]
pub struct Ticket {
    pub verify_param: String,
    pub region: Option<String>,
    pub created_at: u64,
}

impl Clone for Ticket {
    fn clone(&self) -> (r: Self)
        ensures
            r == *self,
    {
        Ticket {
            verify_param: self.verify_param.clone(),
            region: copy_text(&self.region),
            created_at: self.created_at,
        }
    }
}

/// Whether a ticket is still good.
pub open spec fn fresh(t: Ticket, now: u64) -> bool {
    now - t.created_at < TICKET_TTL_MS
}

/// What is taken from the desk.
pub open spec fn taken(kept: Option<Ticket>, now: u64) -> Option<Ticket> {
    match kept {
        Some(t) => if fresh(t, now) {
            Some(t)
        } else {
            None
        },
        None => None,
    }
}

/// Where the ticket is kept until a request takes it, with whether a user has
/// been asked to solve a challenge.
pub struct CaptchaDesk {
    ticket: Option<Ticket>,
    pending: bool,
}

impl CaptchaDesk {
    /// The ticket that is kept.
    pub closed spec fn kept(&self) -> Option<Ticket> {
        self.ticket
    }

    /// Whether a user has been asked.
    pub closed spec fn asked(&self) -> bool {
        self.pending
    }

    /// Nothing kept and nobody asked.
    pub fn new() -> (r: Self)
        ensures
            r.kept() is None,
            !r.asked(),
    {
        CaptchaDesk { ticket: None, pending: false }
    }

    /// Whether a user has been asked.
    pub fn interactive_pending(&self) -> (r: bool)
        ensures
            r == self.asked(),
    {
        self.pending
    }
}

/// Keeps a ticket that a user solved, in place of any other, and notes that
/// nobody need be asked. A blank one is ignored. Gives whether it was kept.
pub fn store_ticket(
    desk: &mut CaptchaDesk,
    verify_param: &str,
    region: Option<String>,
    now: u64,
) -> (r: bool)
    ensures
        r == (crate::text::trim(verify_param@).len() > 0),
        r ==> (final(desk).kept() matches Some(t) && t.verify_param@ == crate::text::trim(
            verify_param@,
        ) && t.region == region && t.created_at == now) && !final(desk).asked(),
        !r ==> *final(desk) == *old(desk),
{
    let param = trimmed(verify_param);
    if is_empty(param.as_str()) {
        return false;
    }
    desk.ticket = Some(Ticket { verify_param: param, region, created_at: now });
    desk.pending = false;
    true
}

/// Takes the ticket away, and gives it where it is still good.
pub fn take_ticket(desk: &mut CaptchaDesk, now: u64) -> (r: Option<Ticket>)
    ensures
        final(desk).kept() is None,
        final(desk).asked() == old(desk).asked(),
        r == taken(old(desk).kept(), now),
{
    match desk.ticket.take() {
        Some(t) => if now < t.created_at || now - t.created_at < TICKET_TTL_MS {
            Some(t)
        } else {
            None
        },
        None => None,
    }
}

/// Whether a ticket is kept that is still good.
pub fn has_fresh_ticket(desk: &CaptchaDesk, now: u64) -> (r: bool)
    ensures
        r == (desk.kept() matches Some(t) && fresh(t, now)),
{
    match &desk.ticket {
        Some(t) => now < t.created_at || now - t.created_at < TICKET_TTL_MS,
        None => false,
    }
}

/// What a request that waits for a ticket does next.
pub enum WaitStep {
    /// Goes on with the ticket.
    Ready(Ticket),
    /// Gives up.
    TimedOut,
    /// Waits for so many milliseconds at most, and asks again.
    Wait(u64),
}

/// One look at the desk of a request that waits for a ticket until a deadline.
pub fn wait_ticket(desk: &mut CaptchaDesk, now: u64, deadline: u64) -> (r: WaitStep)
    ensures
        final(desk).kept() is None,
        final(desk).asked() == old(desk).asked(),
        match r {
            WaitStep::Ready(t) => old(desk).kept() == Some(t) && fresh(t, now),
            WaitStep::TimedOut => now >= deadline && !(old(desk).kept() matches Some(t) && fresh(
                t,
                now,
            )),
            WaitStep::Wait(millis) => now < deadline && millis == deadline - now && !(
            old(desk).kept() matches Some(t) && fresh(t, now)),
        },
{
    match take_ticket(desk, now) {
        Some(t) => WaitStep::Ready(t),
        None => if now >= deadline {
            WaitStep::TimedOut
        } else {
            WaitStep::Wait(deadline - now)
        },
    }
}

/// Notes that a user is asked to solve a challenge; gives whether nobody had
/// been asked, so that of many requests one asks.
pub fn begin_interactive(desk: &mut CaptchaDesk) -> (r: bool)
    ensures
        r == !old(desk).asked(),
        final(desk).asked(),
        final(desk).kept() == old(desk).kept(),
{
    let first = !desk.pending;
    desk.pending = true;
    first
}

/// Notes that the user is no longer asked.
pub fn end_interactive(desk: &mut CaptchaDesk)
    ensures
        !final(desk).asked(),
        final(desk).kept() == old(desk).kept(),
{
    desk.pending = false;
}

/// Whether a body bears the code of a challenge.
pub open spec fn challenge_code(body: Seq<char>) -> bool {
    crate::text::contains(body, "\"code\":3007"@) || crate::text::contains(
        body,
        "\"code\": 3007"@,
    )
}

/// Whether an answer of the upstream is a challenge: by a header that is not
/// blank, by the code in the body of a bad request, or, whatever the status, by
/// words in the body.
pub open spec fn challenges(status: u16, header: Option<Seq<char>>, body: Seq<char>) -> bool {
    ||| header matches Some(h) && crate::text::trim(h).len() > 0
    ||| status == 400 && challenge_code(body)
    ||| crate::text::contains(crate::text::lower(body), "captcha verify failed"@)
}

/// Whether an answer of the upstream is a challenge.
pub fn is_challenge(
    status: u16,
    headers: &reqwest::header::HeaderMap<reqwest::header::HeaderValue>,
    body: &str,
) -> (r: bool)
    ensures
        r == challenges(
            status,
            crate::headers::header_text(*headers, "x-aliyun-captcha-verify-param"@),
            body@,
        ),
{
    if let Some(value) = header_str(headers, "x-aliyun-captcha-verify-param") {
        if !is_blank(value.as_str()) {
            return true;
        }
    }
    if status == 400 && (has(body, "\"code\":3007") || has(body, "\"code\": 3007")) {
        return true;
    }
    let lower = lowered(body);
    has(lower.as_str(), "captcha verify failed")
}

/// The headers that a ticket turns into. A blank region does not go along.
pub open spec fn ticket_pairs(t: Ticket) -> Seq<(Seq<char>, Seq<char>)> {
    seq![("x-aliyun-captcha-verify-param"@, t.verify_param@)] + crate::text::optional_pair(
        "x-aliyun-captcha-verify-region"@,
        match crate::text::seen_string(t.region) {
            Some(region) => if crate::text::trim(region).len() > 0 {
                Some(region)
            } else {
                None
            },
            None => None,
        },
    )
}

/// The headers that a ticket turns into.
pub fn ticket_headers(t: &Ticket) -> (r: Vec<(String, String)>)
    ensures
        crate::text::pair_views(r@) == ticket_pairs(*t),
{
    let mut h: Vec<(String, String)> = Vec::new();
    add_pair(&mut h, "x-aliyun-captcha-verify-param", t.verify_param.as_str());
    let region: Option<String> = match copy_text(&t.region) {
        Some(region) => if is_blank(region.as_str()) {
            None
        } else {
            Some(region)
        },
        None => None,
    };
    add_optional_pair(&mut h, "x-aliyun-captcha-verify-region", as_text(&region));
    assert(crate::text::pair_views(h@) =~= ticket_pairs(*t));
    h
}

// ---------------------------------------------------------------------------
// Laws
// ---------------------------------------------------------------------------

/// A ticket serves one request: what was taken is gone, and nothing can be taken
/// until another one is kept.
pub proof fn law_tickets_serve_once(kept: Option<Ticket>, now: u64, again: u64)
    ensures
        taken(kept, now) is Some ==> taken(kept, now) == kept,
        taken(None, again) is None,
{
}

/// A ticket is good for four minutes and no longer.
pub proof fn law_tickets_expire(t: Ticket, now: u64)
    requires
        now >= t.created_at,
    ensures
        taken(Some(t), now) is Some <==> now < t.created_at + TICKET_TTL_MS,
{
}

/// A ticket serves for four minutes, and is handed out as it was stored.
pub proof fn law_tickets_serve_for_four_minutes(t: Ticket, now: u64)
    ensures
        taken(Some(t), now) == Some(t) <==> now - t.created_at < 240_000,
        taken(Some(t), now) is None <==> now - t.created_at >= 240_000,
        taken(None, now) is None,
{
}

/// An answer asks for a ticket where its header for one is not blank, where it is
/// 400 with the code of a challenge, or where it says, in small letters or
/// capitals, that the verification failed; no other does.
pub proof fn law_challenges_are_known(status: u16, header: Seq<char>, body: Seq<char>)
    ensures
        ({
            let coded = status == 400 && (crate::text::contains(body, "\"code\":3007"@)
                || crate::text::contains(body, "\"code\": 3007"@));
            let said = crate::text::contains(crate::text::lower(body), "captcha verify failed"@);
            &&& challenges(status, None, body) <==> coded || said
            &&& challenges(status, Some(header), body) <==> crate::text::trim(header).len() > 0
                || coded || said
        }),
{
}

/// A ticket goes out as what the user was given for the challenge, with the region
/// as it was named where one was that is not blank.
pub proof fn law_tickets_go_out_as_they_came(t: Ticket)
    ensures
        ticket_pairs(t)[0] == ("x-aliyun-captcha-verify-param"@, t.verify_param@),
        t.region is Some && crate::text::trim(t.region->0@).len() > 0 ==> ticket_pairs(t).len() == 2
            && ticket_pairs(t)[1] == ("x-aliyun-captcha-verify-region"@, t.region->0@),
        t.region is None || crate::text::trim(t.region->0@).len() == 0 ==> ticket_pairs(t).len()
            == 1,
{
}

} // verus!
