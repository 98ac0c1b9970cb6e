//! One attempt of one account: what it sends, and what becomes of the answer.

use crate::body::transform_body_at;
use crate::captcha::{is_challenge, ticket_headers, Ticket};
use crate::identity::EnvPromptInfo;
use crate::json::{Json, Tree};
use crate::pool::{FailureKind, PoolEntry};
use crate::reply::{raw_error_response, Format, Reply, ReplyRow};
use crate::signing::{SignOutcome, SigningManager};
use crate::text::{add_pairs, concat, concat3, copy_pairs, decimal_of, first_chars, same};
use crate::upstream::metadata_user_id_for;
use vstd::prelude::*;

verus! {

/// How often an attempt looks for a ticket before it goes without one.
pub const TICKET_LOOKS: u32 = 16;

/// How long an attempt waits before it looks for a ticket again, in
/// milliseconds.
pub const TICKET_PAUSE_MS: u64 = 500;

// ---------------------------------------------------------------------------
// What is sent
// ---------------------------------------------------------------------------

/// Whether an account is on a start plan.
pub open spec fn on_start_plan(entry: crate::pool::EntryRow) -> bool {
    entry.plan == "start-plan"@
}

/// Whether an account is on a coding plan.
pub open spec fn on_coding_plan(entry: crate::pool::EntryRow) -> bool {
    entry.plan == "coding-plan"@
}

/// Whether an account is on a start plan, whose requests bear a ticket.
pub fn is_start_plan(entry: &PoolEntry) -> (r: bool)
    ensures
        r == on_start_plan(entry@),
{
    same(entry.plan.as_str(), "start-plan")
}

/// Whether an account is on a coding plan, whose requests are signed.
pub fn is_coding_plan(entry: &PoolEntry) -> (r: bool)
    ensures
        r == on_coding_plan(entry@),
{
    same(entry.plan.as_str(), "coding-plan")
}

/// The credential by which the upstream is asked for routes and signatures: the
/// key of a coding plan, and none for any other plan.
pub fn control_credential(entry: &PoolEntry) -> (r: Option<String>)
    ensures
        crate::text::seen_string(r) == if on_coding_plan(entry@) {
            Some(entry@.credential)
        } else {
            None
        },
{
    if is_coding_plan(entry) {
        Some(entry.credential.clone())
    } else {
        None
    }
}

/// The body that an account sends: the request made fit for the upstream where
/// it is an object, the document as it is where it is not, and what the client
/// sent where that is no document.
pub open spec fn sent_body(
    request: Option<Tree>,
    raw: Option<Seq<char>>,
    entry: crate::pool::EntryRow,
    session: Seq<char>,
    data: Tree,
    env: EnvPromptInfo,
    date: Seq<char>,
) -> Seq<char> {
    match request {
        Some(t) => crate::json::rendered(
            if t is Object {
                crate::body::transformed(
                    t,
                    on_start_plan(entry),
                    data,
                    Some(entry.provider),
                    crate::json::rendered(
                        crate::body::user_id_tree(entry.device_mid, Some(session)),
                    ),
                    env,
                    date,
                )
            } else {
                t
            },
        ),
        None => crate::json::or_blank(raw),
    }
}

/// The body that an account sends on a given date.
pub fn attempt_body_at(
    request: Option<&Json>,
    raw: Option<&str>,
    entry: &PoolEntry,
    session_id: &str,
    data: &Json,
    env: &EnvPromptInfo,
    date: &str,
) -> (r: String)
    ensures
        r@ == sent_body(
            crate::json::seen(request),
            crate::text::seen_str(raw),
            entry@,
            session_id@,
            data@,
            *env,
            date@,
        ),
{
    match request {
        Some(base) => {
            let mut copy = base.duplicate();
            if copy.is_object() {
                let user_id = metadata_user_id_for(entry, session_id);
                transform_body_at(
                    &mut copy,
                    is_start_plan(entry),
                    data,
                    Some(entry.provider.as_str()),
                    user_id.as_str(),
                    env,
                    date,
                );
            }
            copy.render()
        },
        None => crate::json::text_or_blank(raw),
    }
}

/// The body that an account sends on the current date.
pub fn attempt_body(
    request: Option<&Json>,
    raw: Option<&str>,
    entry: &PoolEntry,
    session_id: &str,
    data: &Json,
    env: &EnvPromptInfo,
) -> (r: String)
    ensures
        exists|date: Seq<char>|
            crate::prompt::is_date(date) && r@ == #[trigger] sent_body(
                crate::json::seen(request),
                crate::text::seen_str(raw),
                entry@,
                session_id@,
                data@,
                *env,
                date,
            ),
{
    let date = crate::prompt::format_local_iso_date();
    attempt_body_at(request, raw, entry, session_id, data, env, date.as_str())
}

// ---------------------------------------------------------------------------
// What the answer means
// ---------------------------------------------------------------------------

/// What a failure of an attempt is, by the status of the answer: a rejected
/// credential, a used-up quota, a block, a rate limit, or trouble of the
/// upstream. Anything else is no failure of the account.
pub open spec fn failure_kind(status: u16) -> Option<FailureKind> {
    if status == 401 {
        Some(FailureKind::Unauthorized)
    } else if status == 402 {
        Some(FailureKind::PaymentRequired)
    } else if status == 403 {
        Some(FailureKind::Forbidden)
    } else if status == 429 {
        Some(FailureKind::RateLimited)
    } else if status >= 500 {
        Some(FailureKind::ServerError)
    } else {
        None
    }
}

/// What a failure of an attempt is, by the status of the answer.
pub fn failure_kind_for_status(status: u16) -> (r: Option<FailureKind>)
    ensures
        r == failure_kind(status),
{
    match status {
        401 => Some(FailureKind::Unauthorized),
        402 => Some(FailureKind::PaymentRequired),
        403 => Some(FailureKind::Forbidden),
        429 => Some(FailureKind::RateLimited),
        _ => if status >= 500 {
            Some(FailureKind::ServerError)
        } else {
            None
        },
    }
}

/// What a client is told of an attempt that failed, if no other succeeds.
#[derive(Debug)]
pub struct AttemptError {
    pub status: u16,
    pub error_type: String,
    pub message: String,
}

/// What a client is told of an attempt that failed, as characters.
pub ghost struct ErrorRow {
    pub status: u16,
    pub error_type: Seq<char>,
    pub message: Seq<char>,
}

impl View for AttemptError {
    type V = ErrorRow;

    open spec fn view(&self) -> ErrorRow {
        ErrorRow {
            status: self.status,
            error_type: self.error_type@,
            message: self.message@,
        }
    }
}

/// What a client is told of an answer that was a failure: who failed, and the
/// first 300 characters of the body.
pub open spec fn status_error(
    entry: crate::pool::EntryRow,
    status: u16,
    body: Seq<char>,
) -> ErrorRow {
    ErrorRow {
        status,
        error_type: "upstream_error"@,
        message: entry.name + " ("@ + entry.provider + " "@ + entry.plan + "): HTTP "@
            + crate::text::decimal(status as nat) + " "@ + crate::text::prefix(body, 300),
    }
}

/// What a client is told of an answer that was a failure.
pub fn last_error_tuple(entry: &PoolEntry, status: u16, body: &str) -> (r: AttemptError)
    ensures
        r@ == status_error(entry@, status, body@),
{
    let who = concat3(entry.name.as_str(), " (", entry.provider.as_str());
    let plan = concat3(who.as_str(), " ", entry.plan.as_str());
    let code = decimal_of(status as u128);
    let what = concat3(plan.as_str(), "): HTTP ", code.as_str());
    let snippet = first_chars(body, 300);
    AttemptError {
        status,
        error_type: "upstream_error".to_owned(),
        message: concat3(what.as_str(), " ", snippet.as_str()),
    }
}

/// What the pool is told of a failure.
#[derive(Debug)]
pub struct Report {
    pub kind: FailureKind,
    pub message: String,
}

/// What the pool is told of a failure, as characters.
pub ghost struct ReportRow {
    pub kind: FailureKind,
    pub message: Seq<char>,
}

impl View for Report {
    type V = ReportRow;

    open spec fn view(&self) -> ReportRow {
        ReportRow { kind: self.kind, message: self.message@ }
    }
}

/// What the pool is told of an answer, where it is told of it at all: the status
/// and the first 120 characters of the body.
pub open spec fn status_report(status: u16, body: Seq<char>) -> Option<ReportRow> {
    match failure_kind(status) {
        Some(kind) => Some(
            ReportRow {
                kind,
                message: "HTTP "@ + crate::text::decimal(status as nat) + ": "@
                    + crate::text::prefix(body, 120),
            },
        ),
        None => None,
    }
}

/// A report that may be missing, as characters.
pub open spec fn seen_report(report: Option<Report>) -> Option<ReportRow> {
    match report {
        Some(report) => Some(report@),
        None => None,
    }
}

/// What the pool is told of an answer, where it is told of it at all.
pub fn record_status_failure(status: u16, body: &str) -> (r: Option<Report>)
    ensures
        seen_report(r) == status_report(status, body@),
{
    match failure_kind_for_status(status) {
        Some(kind) => {
            let code = decimal_of(status as u128);
            let front = concat3("HTTP ", code.as_str(), ": ");
            let snippet = first_chars(body, 120);
            Some(Report { kind, message: concat(front.as_str(), snippet.as_str()) })
        },
        None => None,
    }
}

// ---------------------------------------------------------------------------
// The ladder
// ---------------------------------------------------------------------------

/// How far an attempt has come with a signature that the upstream rejects: the
/// first request, one that was signed anew, and one without a signature. The
/// first two bear whether they were signed.
#[derive(Debug, Clone, Copy, PartialEq, Eq, Structural)]
pub enum Rung {
    First(bool),
    Resigned(bool),
    Bare,
}

/// What becomes of an attempt after an answer.
pub enum Verdict {
    /// The client gets the answer.
    Served,
    /// The key is dropped, and the request is signed anew and sent again.
    Resign,
    /// Signing is given up, and the request is sent again without a signature.
    GoBare,
    /// The attempt failed. The pool is told, and a user is asked to solve a
    /// challenge where the answer was one.
    Failed(Report, AttemptError, bool),
    /// The client made a mistake and gets to know.
    Surfaced(Reply),
}

/// What becomes of an attempt after an answer, as characters.
pub ghost enum VerdictRow {
    Served,
    Resign,
    GoBare,
    Failed(ReportRow, ErrorRow, bool),
    Surfaced(ReplyRow),
}

impl View for Verdict {
    type V = VerdictRow;

    open spec fn view(&self) -> VerdictRow {
        match self {
            Verdict::Served => VerdictRow::Served,
            Verdict::Resign => VerdictRow::Resign,
            Verdict::GoBare => VerdictRow::GoBare,
            Verdict::Failed(report, error, asked) => VerdictRow::Failed(
                report@,
                error@,
                *asked,
            ),
            Verdict::Surfaced(reply) => VerdictRow::Surfaced(reply@),
        }
    }
}

/// Whether a status is one of success.
pub open spec fn success(status: u16) -> bool {
    200 <= status < 300
}

/// Whether an answer rejects the signature of a request that bore one.
pub open spec fn rejected(signed: bool, status: u16, body: Seq<char>) -> bool {
    signed && status == 401 && crate::signing::rejects_signature(crate::json::parsed(body))
}

/// What becomes of an attempt whose answer is neither a success nor a rejected
/// signature nor a challenge: a failure of the account leads to the next one, and
/// a mistake of the client ends the request.
pub open spec fn settled(
    entry: crate::pool::EntryRow,
    format: Format,
    status: u16,
    body: Seq<char>,
    attempt: u32,
) -> VerdictRow {
    match status_report(status, body) {
        Some(report) => VerdictRow::Failed(report, status_error(entry, status, body), false),
        None => VerdictRow::Surfaced(
            crate::reply::raw_error_row(format, status, body, entry.name, attempt),
        ),
    }
}

/// An answer that is a challenge: it counts as a block, with a text of its own.
pub open spec fn challenge_failure(entry: crate::pool::EntryRow, text: Seq<char>) -> VerdictRow {
    VerdictRow::Failed(
        ReportRow { kind: FailureKind::Forbidden, message: text },
        ErrorRow {
            status: 403,
            error_type: "captcha_required"@,
            message: entry.name + ": "@ + text,
        },
        true,
    )
}

/// What becomes of an attempt after an answer. A success is served. A rejected
/// signature leads one rung down. A challenge of a start plan and a failure of
/// the account lead to the next account, and a mistake of the client ends the
/// request.
pub open spec fn verdict(
    rung: Rung,
    entry: crate::pool::EntryRow,
    format: Format,
    status: u16,
    challenged: bool,
    body: Seq<char>,
    text: Seq<char>,
    attempt: u32,
) -> VerdictRow {
    if success(status) {
        VerdictRow::Served
    } else {
        match rung {
            Rung::First(signed) => if rejected(signed, status, body) {
                VerdictRow::Resign
            } else if on_start_plan(entry) && challenged && !(signed && status == 401) {
                challenge_failure(entry, text)
            } else {
                settled(entry, format, status, body, attempt)
            },
            Rung::Resigned(signed) => if rejected(signed, status, body) {
                VerdictRow::GoBare
            } else {
                settled(entry, format, status, body, attempt)
            },
            Rung::Bare => settled(entry, format, status, body, attempt),
        }
    }
}

/// What becomes of an attempt whose answer is neither a success nor a rejected
/// signature nor a challenge.
fn settle(entry: &PoolEntry, format: Format, status: u16, body: &str, attempt: u32) -> (r: Verdict)
    ensures
        r@ == settled(entry@, format, status, body@, attempt),
{
    match record_status_failure(status, body) {
        Some(report) => Verdict::Failed(report, last_error_tuple(entry, status, body), false),
        None => Verdict::Surfaced(
            raw_error_response(format, status, body, entry.name.as_str(), attempt),
        ),
    }
}

/// What becomes of an attempt after an answer. The body of a success need not be
/// read.
pub fn judge(
    rung: Rung,
    entry: &PoolEntry,
    format: Format,
    status: u16,
    headers: &reqwest::header::HeaderMap<reqwest::header::HeaderValue>,
    body: &str,
    challenge_text: &str,
    attempt: u32,
) -> (r: Verdict)
    ensures
        r@ == verdict(
            rung,
            entry@,
            format,
            status,
            crate::captcha::challenges(
                status,
                crate::headers::header_text(*headers, "x-aliyun-captcha-verify-param"@),
                body@,
            ),
            body@,
            challenge_text@,
            attempt,
        ),
{
    if 200 <= status && status < 300 {
        return Verdict::Served;
    }
    match rung {
        Rung::First(signed) => {
            if signed && status == 401 {
                return if SigningManager::is_verify_failure(status, body) {
                    Verdict::Resign
                } else {
                    settle(entry, format, status, body, attempt)
                };
            }
            if is_start_plan(entry) && is_challenge(status, headers, body) {
                return Verdict::Failed(
                    Report {
                        kind: FailureKind::Forbidden,
                        message: challenge_text.to_owned(),
                    },
                    AttemptError {
                        status: 403,
                        error_type: "captcha_required".to_owned(),
                        message: concat3(entry.name.as_str(), ": ", challenge_text),
                    },
                    true,
                );
            }
            settle(entry, format, status, body, attempt)
        },
        Rung::Resigned(signed) => if signed && SigningManager::is_verify_failure(status, body) {
            Verdict::GoBare
        } else {
            settle(entry, format, status, body, attempt)
        },
        Rung::Bare => settle(entry, format, status, body, attempt),
    }
}

/// What becomes of an attempt whose request did not reach the upstream.
pub open spec fn connect_failure(rung: Rung, entry: crate::pool::EntryRow, reason: Seq<char>) -> VerdictRow {
    VerdictRow::Failed(
        ReportRow { kind: FailureKind::Network, message: "connect: "@ + reason },
        ErrorRow {
            status: 502,
            error_type: "upstream_unreachable"@,
            message: entry.name + ": "@ + (if rung is First {
                "connect: "@
            } else {
                "connect failed: "@
            }) + reason,
        },
        false,
    )
}

/// What becomes of an attempt whose request did not reach the upstream.
pub fn judge_connect_failure(rung: Rung, entry: &PoolEntry, reason: &str) -> (r: Verdict)
    ensures
        r@ == connect_failure(rung, entry@, reason@),
{
    let word = match rung {
        Rung::First(_) => "connect: ",
        _ => "connect failed: ",
    };
    let who = concat3(entry.name.as_str(), ": ", word);
    Verdict::Failed(
        Report { kind: FailureKind::Network, message: concat("connect: ", reason) },
        AttemptError {
            status: 502,
            error_type: "upstream_unreachable".to_owned(),
            message: concat(who.as_str(), reason),
        },
        false,
    )
}

// ---------------------------------------------------------------------------
// The attempt
// ---------------------------------------------------------------------------

/// What an attempt waits for.
#[derive(Debug, Clone, Copy, PartialEq, Eq, Structural)]
pub enum Phase {
    /// Room for one more request of the account.
    Admission,
    /// Where the request goes.
    Routing,
    /// A look for a ticket, after so many waits.
    Looking(u32),
    /// The end of a wait for a ticket, after so many others.
    Pausing(u32),
    /// What signing makes of the headers.
    Signing,
    /// What signing makes of the headers with a new key.
    Resigning,
    /// The answer of the upstream.
    Sending(Rung),
    /// Nothing more.
    Over,
}

/// What an attempt waits for once it knows where its request goes: a ticket on a
/// start plan, a signature on a coding plan, and else the answer.
pub open spec fn after_routing(entry: crate::pool::EntryRow) -> Phase {
    if on_start_plan(entry) {
        Phase::Looking(0)
    } else if on_coding_plan(entry) {
        Phase::Signing
    } else {
        Phase::Sending(Rung::First(false))
    }
}

/// What an attempt waits for after an answer.
pub open spec fn after_verdict(v: VerdictRow) -> Phase {
    match v {
        VerdictRow::Resign => Phase::Resigning,
        VerdictRow::GoBare => Phase::Sending(Rung::Bare),
        _ => Phase::Over,
    }
}

/// What signing made of headers: nothing where nobody signs.
pub open spec fn signed_pairs(
    plain: Seq<(Seq<char>, Seq<char>)>,
    signing: Option<SignOutcome>,
) -> Seq<(Seq<char>, Seq<char>)> {
    match signing {
        Some(s) => crate::text::pair_views(s.pairs@),
        None => plain,
    }
}

/// Whether signing signed.
pub open spec fn was_signed(signing: Option<SignOutcome>) -> bool {
    signing matches Some(s) && s.signed
}

/// An attempt of an account to serve a request.
pub struct Attempt {
    entry: PoolEntry,
    format: Format,
    number: u32,
    phase: Phase,
    url: String,
    plain: Vec<(String, String)>,
    outgoing: Vec<(String, String)>,
}

/// An attempt of an account to serve a request, as characters.
pub ghost struct AttemptRow {
    pub entry: crate::pool::EntryRow,
    pub format: Format,
    pub number: u32,
    pub phase: Phase,
    /// Where the request goes.
    pub url: Seq<char>,
    /// The headers without a ticket and without a signature.
    pub plain: Seq<(Seq<char>, Seq<char>)>,
    /// The headers that are sent.
    pub outgoing: Seq<(Seq<char>, Seq<char>)>,
}

impl View for Attempt {
    type V = AttemptRow;

    closed spec fn view(&self) -> AttemptRow {
        AttemptRow {
            entry: self.entry@,
            format: self.format,
            number: self.number,
            phase: self.phase,
            url: self.url@,
            plain: crate::text::pair_views(self.plain@),
            outgoing: crate::text::pair_views(self.outgoing@),
        }
    }
}

impl Attempt {
    /// An attempt that has not begun.
    pub fn new(entry: &PoolEntry, format: Format, number: u32) -> (r: Self)
        ensures
            r@ == (AttemptRow {
                entry: entry@,
                format,
                number,
                phase: Phase::Admission,
                url: entry@.messages_url,
                plain: Seq::empty(),
                outgoing: Seq::empty(),
            }),
    {
        let r = Attempt {
            entry: entry.clone(),
            format,
            number,
            phase: Phase::Admission,
            url: entry.messages_url.clone(),
            plain: Vec::new(),
            outgoing: Vec::new(),
        };
        assert(r@.plain =~= Seq::empty());
        assert(r@.outgoing =~= Seq::empty());
        r
    }

    /// What the attempt waits for.
    pub fn phase(&self) -> (r: Phase)
        ensures
            r == self@.phase,
    {
        self.phase
    }

    /// Where the request goes.
    pub fn url(&self) -> (r: &str)
        ensures
            r@ == self@.url,
    {
        self.url.as_str()
    }

    /// The headers that are sent.
    pub fn outgoing(&self) -> (r: &Vec<(String, String)>)
        ensures
            crate::text::pair_views(r@) == self@.outgoing,
    {
        &self.outgoing
    }

    /// The headers without a ticket and without a signature.
    pub fn plain(&self) -> (r: &Vec<(String, String)>)
        ensures
            crate::text::pair_views(r@) == self@.plain,
    {
        &self.plain
    }

    /// Takes in the headers of the request where the account had room, and
    /// nothing where it had none.
    pub fn enter(&mut self, headers: Option<Vec<(String, String)>>)
        requires
            old(self)@.phase == Phase::Admission,
        ensures
            final(self)@ == match headers {
                Some(pairs) => AttemptRow {
                    phase: Phase::Routing,
                    plain: crate::text::pair_views(pairs@),
                    outgoing: crate::text::pair_views(pairs@),
                    ..old(self)@
                },
                None => AttemptRow { phase: Phase::Over, ..old(self)@ },
            },
    {
        match headers {
            Some(pairs) => {
                self.outgoing = copy_pairs(&pairs);
                self.plain = pairs;
                self.phase = Phase::Routing;
            },
            None => {
                self.phase = Phase::Over;
            },
        }
    }

    /// Takes in where the request goes.
    pub fn route(&mut self, mapped: bool, to: String)
        requires
            old(self)@.phase == Phase::Routing,
        ensures
            final(self)@ == (AttemptRow {
                phase: after_routing(old(self)@.entry),
                url: if mapped {
                    to@
                } else {
                    old(self)@.url
                },
                ..old(self)@
            }),
    {
        if mapped {
            self.url = to;
        }
        self.phase = if is_start_plan(&self.entry) {
            Phase::Looking(0)
        } else if is_coding_plan(&self.entry) {
            Phase::Signing
        } else {
            Phase::Sending(Rung::First(false))
        };
    }

    /// Takes in what a look for a ticket found. A ticket goes along; without one
    /// the attempt waits and looks again, some times, and goes without one then.
    /// Gives whether tickets are wanted urgently: the first look found none.
    pub fn look(&mut self, found: Option<Ticket>) -> (r: bool)
        requires
            old(self)@.phase is Looking,
        ensures
            ({
                let waits = old(self)@.phase->Looking_0;
                &&& r == (found is None && waits == 0)
                &&& final(self)@ == match found {
                    Some(t) => AttemptRow {
                        phase: Phase::Sending(Rung::First(false)),
                        outgoing: old(self)@.plain + crate::captcha::ticket_pairs(t),
                        ..old(self)@
                    },
                    None => AttemptRow {
                        phase: if waits < TICKET_LOOKS {
                            Phase::Pausing(waits)
                        } else {
                            Phase::Sending(Rung::First(false))
                        },
                        ..old(self)@
                    },
                }
            }),
    {
        let waits: u32 = match self.phase {
            Phase::Looking(waits) => waits,
            _ => 0,
        };
        match found {
            Some(t) => {
                let mut pairs: Vec<(String, String)> = copy_pairs(&self.plain);
                let more: Vec<(String, String)> = ticket_headers(&t);
                add_pairs(&mut pairs, &more);
                self.outgoing = pairs;
                self.phase = Phase::Sending(Rung::First(false));
                false
            },
            None => {
                self.phase = if waits < TICKET_LOOKS {
                    Phase::Pausing(waits)
                } else {
                    Phase::Sending(Rung::First(false))
                };
                waits == 0
            },
        }
    }

    /// Takes in the end of a wait for a ticket.
    pub fn wake(&mut self)
        requires
            old(self)@.phase is Pausing,
            old(self)@.phase->Pausing_0 < TICKET_LOOKS,
        ensures
            final(self)@ == (AttemptRow {
                phase: Phase::Looking((old(self)@.phase->Pausing_0 + 1) as u32),
                ..old(self)@
            }),
    {
        if let Phase::Pausing(waits) = self.phase {
            self.phase = Phase::Looking(waits + 1);
        }
    }

    /// Takes in what signing made of the headers, for the first request or for
    /// the one after its signature was rejected.
    pub fn sign(&mut self, signing: Option<SignOutcome>)
        requires
            old(self)@.phase is Signing || old(self)@.phase is Resigning,
        ensures
            final(self)@ == (AttemptRow {
                phase: if old(self)@.phase is Signing {
                    Phase::Sending(Rung::First(was_signed(signing)))
                } else {
                    Phase::Sending(Rung::Resigned(was_signed(signing)))
                },
                outgoing: signed_pairs(old(self)@.plain, signing),
                ..old(self)@
            }),
    {
        let (pairs, signed): (Vec<(String, String)>, bool) = match signing {
            Some(s) => (s.pairs, s.signed),
            None => (copy_pairs(&self.plain), false),
        };
        self.outgoing = pairs;
        self.phase = match self.phase {
            Phase::Signing => Phase::Sending(Rung::First(signed)),
            _ => Phase::Sending(Rung::Resigned(signed)),
        };
    }

    /// Takes an answer of the upstream in, and gives what becomes of the
    /// attempt. The body of a success need not be read. Where signing is given
    /// up the headers go without a ticket and without a signature.
    pub fn answer(
        &mut self,
        status: u16,
        headers: &reqwest::header::HeaderMap<reqwest::header::HeaderValue>,
        body: &str,
        challenge_text: &str,
    ) -> (r: Verdict)
        requires
            old(self)@.phase is Sending,
        ensures
            r@ == verdict(
                old(self)@.phase->Sending_0,
                old(self)@.entry,
                old(self)@.format,
                status,
                crate::captcha::challenges(
                    status,
                    crate::headers::header_text(*headers, "x-aliyun-captcha-verify-param"@),
                    body@,
                ),
                body@,
                challenge_text@,
                old(self)@.number,
            ),
            final(self)@ == (AttemptRow {
                phase: after_verdict(r@),
                outgoing: if r@ is GoBare {
                    old(self)@.plain
                } else {
                    old(self)@.outgoing
                },
                ..old(self)@
            }),
    {
        let rung = match self.phase {
            Phase::Sending(rung) => rung,
            _ => Rung::Bare,
        };
        let v = judge(
            rung,
            &self.entry,
            self.format,
            status,
            headers,
            body,
            challenge_text,
            self.number,
        );
        match &v {
            Verdict::Resign => {
                self.phase = Phase::Resigning;
            },
            Verdict::GoBare => {
                self.outgoing = copy_pairs(&self.plain);
                self.phase = Phase::Sending(Rung::Bare);
            },
            _ => {
                self.phase = Phase::Over;
            },
        }
        v
    }

    /// Takes in that the request did not reach the upstream, and gives what
    /// becomes of the attempt.
    pub fn miss(&mut self, reason: &str) -> (r: Verdict)
        requires
            old(self)@.phase is Sending,
        ensures
            r@ == connect_failure(old(self)@.phase->Sending_0, old(self)@.entry, reason@),
            final(self)@ == (AttemptRow { phase: Phase::Over, ..old(self)@ }),
    {
        let rung = match self.phase {
            Phase::Sending(rung) => rung,
            _ => Rung::Bare,
        };
        self.phase = Phase::Over;
        judge_connect_failure(rung, &self.entry, reason)
    }
}

// ---------------------------------------------------------------------------
// Laws
// ---------------------------------------------------------------------------

/// How far a phase is from the end of its attempt.
pub open spec fn rank(phase: Phase) -> int {
    match phase {
        Phase::Admission => 50,
        Phase::Routing => 49,
        Phase::Looking(waits) => 8 + 2 * (TICKET_LOOKS - waits),
        Phase::Pausing(waits) => 7 + 2 * (TICKET_LOOKS - waits),
        Phase::Signing => 6,
        Phase::Sending(Rung::First(_)) => 5,
        Phase::Resigning => 4,
        Phase::Sending(Rung::Resigned(_)) => 3,
        Phase::Sending(Rung::Bare) => 2,
        Phase::Over => 0,
    }
}

/// An attempt comes to its end: whatever happens outside, each step leads closer
/// to it. So an attempt makes at most three requests, and waits for a ticket at
/// most sixteen times.
pub proof fn law_attempts_come_to_an_end(
    entry: crate::pool::EntryRow,
    format: Format,
    rung: Rung,
    status: u16,
    challenged: bool,
    body: Seq<char>,
    text: Seq<char>,
    attempt: u32,
    waits: u32,
    signed: bool,
)
    requires
        waits < TICKET_LOOKS,
    ensures
        rank(Phase::Admission) > rank(Phase::Routing) > rank(after_routing(entry)) > 0,
        rank(Phase::Looking(waits)) > rank(Phase::Pausing(waits)) > rank(
            Phase::Looking((waits + 1) as u32),
        ) > rank(Phase::Sending(Rung::First(false))),
        rank(Phase::Signing) > rank(Phase::Sending(Rung::First(signed))),
        rank(Phase::Resigning) > rank(Phase::Sending(Rung::Resigned(signed))),
        rank(Phase::Sending(rung)) > rank(
            after_verdict(verdict(rung, entry, format, status, challenged, body, text, attempt)),
        ) >= 0,
{
}

/// The ladder has three rungs: the first request can lead to one that is signed
/// anew, that one to one without a signature, and that one to no other.
pub proof fn law_ladder_has_three_rungs(
    rung: Rung,
    entry: crate::pool::EntryRow,
    format: Format,
    status: u16,
    challenged: bool,
    body: Seq<char>,
    text: Seq<char>,
    attempt: u32,
)
    ensures
        ({
            let v = verdict(rung, entry, format, status, challenged, body, text, attempt);
            &&& v is Resign ==> rung is First
            &&& v is GoBare ==> rung is Resigned
            &&& rung is Bare ==> v is Served || v is Failed || v is Surfaced
        }),
{
}

/// Signing is given up only after the upstream rejected two signatures in a
/// row: that of the first request and that of the one signed anew.
pub proof fn law_bypass_takes_two_rejections(
    entry: crate::pool::EntryRow,
    format: Format,
    signed: bool,
    resigned: bool,
    first: u16,
    second: u16,
    challenged: bool,
    first_body: Seq<char>,
    second_body: Seq<char>,
    text: Seq<char>,
    attempt: u32,
)
    ensures
        verdict(Rung::First(signed), entry, format, first, challenged, first_body, text, attempt)
            is Resign <==> rejected(signed, first, first_body),
        verdict(
            Rung::Resigned(resigned),
            entry,
            format,
            second,
            challenged,
            second_body,
            text,
            attempt,
        ) is GoBare <==> rejected(resigned, second, second_body),
{
}

/// A mistake of the client ends its request at once, on whatever rung, and is
/// held against no account: only failures of an account, trouble on the way and
/// challenges lead to the next one.
pub proof fn law_mistakes_of_the_client_do_not_fail_over(
    rung: Rung,
    entry: crate::pool::EntryRow,
    format: Format,
    status: u16,
    challenged: bool,
    body: Seq<char>,
    text: Seq<char>,
    attempt: u32,
)
    requires
        !success(status),
        failure_kind(status) is None,
        !(rung is First && on_start_plan(entry) && challenged),
    ensures
        verdict(rung, entry, format, status, challenged, body, text, attempt)
            == VerdictRow::Surfaced(
            crate::reply::raw_error_row(format, status, body, entry.name, attempt),
        ),
{
}

/// A failure of the account, on whatever rung, is told to the pool, and leads to
/// the next account, with the status that the upstream gave; only a rejected
/// signature is tried again, and a challenge told otherwise.
pub proof fn law_failures_of_the_account_fail_over(
    rung: Rung,
    entry: crate::pool::EntryRow,
    format: Format,
    status: u16,
    challenged: bool,
    body: Seq<char>,
    text: Seq<char>,
    attempt: u32,
)
    requires
        failure_kind(status) is Some,
        match rung {
            Rung::First(signed) => !rejected(signed, status, body) && !(on_start_plan(entry)
                && challenged && !(signed && status == 401)),
            Rung::Resigned(signed) => !rejected(signed, status, body),
            Rung::Bare => true,
        },
    ensures
        ({
            let v = verdict(rung, entry, format, status, challenged, body, text, attempt);
            &&& v matches VerdictRow::Failed(report, error, asked)
            &&& !asked
            &&& error.status == status
            &&& report.kind == failure_kind(status)->0
        }),
{
}

/// A challenge makes the account of a start plan sit out like a block, and asks
/// a user; on any other plan no answer does.
pub proof fn law_only_start_plans_are_challenged(
    rung: Rung,
    entry: crate::pool::EntryRow,
    format: Format,
    status: u16,
    challenged: bool,
    body: Seq<char>,
    text: Seq<char>,
    attempt: u32,
)
    ensures
        verdict(rung, entry, format, status, challenged, body, text, attempt) matches
            VerdictRow::Failed(report, error, asked) ==> (asked ==> on_start_plan(entry)
            && challenged && rung is First && error.status == 403 && report == (ReportRow {
            kind: FailureKind::Forbidden,
            message: text,
        })),
{
}

/// Every request that is a document bears the device of the account that sends
/// it, whatever device the client named.
pub proof fn law_requests_bear_the_accounts_device(
    request: Tree,
    entry: crate::pool::EntryRow,
    session: Seq<char>,
    data: Tree,
    env: EnvPromptInfo,
    date: Seq<char>,
)
    ensures
        ({
            let id = crate::body::user_id_tree(entry.device_mid, Some(session));
            let sent = crate::body::transformed(
                request,
                on_start_plan(entry),
                data,
                Some(entry.provider),
                crate::json::rendered(id),
                env,
                date,
            );
            &&& sent.text_in("metadata"@, "user_id"@) == Some(crate::json::rendered(id))
            &&& id.text_at("device_id"@) == entry.device_mid
        }),
{
    reveal_strlit("device_id");
    reveal_strlit("account_uuid");
    reveal_strlit("session_id");
    assert("device_id"@.len() == 9 && "account_uuid"@.len() == 12 && "session_id"@.len() == 10);
}

/// What is seen of an error, a report or a verdict is what it holds.
pub proof fn law_verdicts_tell_what_they_hold(e: AttemptError, r: Report, reply: Reply, asked: bool)
    ensures
        e@.status == e.status,
        e@.error_type == e.error_type@,
        e@.message == e.message@,
        r@.kind == r.kind,
        r@.message == r.message@,
        seen_report(Some(r)) == Some(r@),
        seen_report(None) is None,
        Verdict::Served@ is Served,
        Verdict::Resign@ is Resign,
        Verdict::GoBare@ is GoBare,
        Verdict::Failed(r, e, asked)@ == VerdictRow::Failed(r@, e@, asked),
        Verdict::Surfaced(reply)@ == VerdictRow::Surfaced(reply@),
{
}

/// A body that is no document is sent as it came, and an empty one where there is
/// none. A document that is no object is sent as it is; an object is prepared for
/// the account's plan and provider, and names the account's device and the
/// session as its user.
pub proof fn law_bodies_are_prepared_for_the_account(
    t: Tree,
    raw: Seq<char>,
    entry: crate::pool::EntryRow,
    session: Seq<char>,
    data: Tree,
    env: EnvPromptInfo,
    date: Seq<char>,
)
    ensures
        sent_body(None, Some(raw), entry, session, data, env, date) == raw,
        sent_body(None, None, entry, session, data, env, date).len() == 0,
        t !is Object ==> sent_body(Some(t), Some(raw), entry, session, data, env, date)
            == crate::json::rendered(t),
        t is Object ==> exists|user: Tree|
            user.text_at("device_id"@) == entry.device_mid && (!"sess_"@.is_prefix_of(session)
                && !"subagent_agent_"@.is_prefix_of(session) ==> user.text_at("session_id"@)
                == Some(session)) && sent_body(
                Some(t),
                Some(raw),
                entry,
                session,
                data,
                env,
                date,
            ) == crate::json::rendered(
                crate::body::transformed(
                    t,
                    entry.plan == "start-plan"@,
                    data,
                    Some(entry.provider),
                    #[trigger] crate::json::rendered(user),
                    env,
                    date,
                ),
            ),
{
    if t is Object {
        crate::body::law_user_ids_name_device_and_session(
            entry.device_mid,
            session,
            session,
        );
        let user = crate::body::user_id_tree(entry.device_mid, Some(session));
        assert(sent_body(Some(t), Some(raw), entry, session, data, env, date)
            == crate::json::rendered(
            crate::body::transformed(
                t,
                entry.plan == "start-plan"@,
                data,
                Some(entry.provider),
                crate::json::rendered(user),
                env,
                date,
            ),
        ));
    }
}

/// The account is to blame for an answer that it may not, must pay, is forbidden
/// or asks too often, and for every failure of the server; for any other answer it
/// is not.
pub proof fn law_statuses_tell_who_is_to_blame(status: u16)
    ensures
        failure_kind(status) == Some(FailureKind::Unauthorized) <==> status == 401,
        failure_kind(status) == Some(FailureKind::PaymentRequired) <==> status == 402,
        failure_kind(status) == Some(FailureKind::Forbidden) <==> status == 403,
        failure_kind(status) == Some(FailureKind::RateLimited) <==> status == 429,
        failure_kind(status) == Some(FailureKind::ServerError) <==> status >= 500,
        failure_kind(status) is None <==> status < 500 && status != 401 && status != 402 && status
            != 403 && status != 429,
{
}

/// A client is told of a failed answer who failed, with which status, and how the
/// body begins; the pool is told the status and how the body begins.
pub proof fn law_failures_are_described(
    entry: crate::pool::EntryRow,
    status: u16,
    body: Seq<char>,
)
    ensures
        status_error(entry, status, body).status == status,
        status_error(entry, status, body).error_type == "upstream_error"@,
        body.len() <= 300 ==> status_error(entry, status, body).message == entry.name + " ("@
            + entry.provider + " "@ + entry.plan + "): HTTP "@ + crate::text::decimal(status as nat)
            + " "@ + body,
        body.len() > 300 ==> status_error(entry, status, body).message == status_error(
            entry,
            status,
            body.take(300),
        ).message,
        failure_kind(status) is Some <==> status_report(status, body) is Some,
        failure_kind(status) is Some ==> Some((status_report(status, body)->0).kind)
            == failure_kind(status),
        failure_kind(status) is Some && body.len() <= 120 ==> (status_report(
            status,
            body,
        )->0).message == "HTTP "@ + crate::text::decimal(status as nat) + ": "@ + body,
        failure_kind(status) is Some && body.len() > 120 ==> (status_report(status, body)->0).message
            == (status_report(status, body.take(120))->0).message,
{
}

/// An answer between 200 and 299 is served, whatever else is known of it, and no
/// other is.
pub proof fn law_successes_are_served(
    rung: Rung,
    entry: crate::pool::EntryRow,
    format: Format,
    status: u16,
    challenged: bool,
    body: Seq<char>,
    text: Seq<char>,
    attempt: u32,
)
    ensures
        verdict(rung, entry, format, status, challenged, body, text, attempt) is Served <==> 200
            <= status <= 299,
{
}

/// A signed request whose signature is rejected with 401 is signed anew the first
/// time and sent without a signature the second time; nothing else leads there.
pub proof fn law_rejected_signatures_are_replaced(
    rung: Rung,
    entry: crate::pool::EntryRow,
    format: Format,
    status: u16,
    challenged: bool,
    body: Seq<char>,
    text: Seq<char>,
    attempt: u32,
)
    ensures
        ({
            let v = verdict(rung, entry, format, status, challenged, body, text, attempt);
            let rejected_now = status == 401 && crate::signing::rejects_signature(
                crate::json::parsed(body),
            );
            &&& v is Resign <==> rung == Rung::First(true) && rejected_now
            &&& v is GoBare <==> rung == Rung::Resigned(true) && rejected_now
        }),
{
}

/// A challenge that meets the first request on the start plan fails the attempt:
/// the pool and the client are told that one has to be solved, and a user is asked
/// to.
pub proof fn law_challenges_fail_the_attempt(
    entry: crate::pool::EntryRow,
    format: Format,
    status: u16,
    body: Seq<char>,
    text: Seq<char>,
    attempt: u32,
)
    requires
        entry.plan == "start-plan"@,
        !(200 <= status <= 299),
    ensures
        ({
            let v = verdict(Rung::First(false), entry, format, status, true, body, text, attempt);
            &&& v is Failed
            &&& v->Failed_0.kind == FailureKind::Forbidden
            &&& v->Failed_0.message == text
            &&& v->Failed_1.status == 403
            &&& v->Failed_1.error_type == "captcha_required"@
            &&& v->Failed_1.message == entry.name + ": "@ + text
            &&& v->Failed_2
        }),
{
}

/// An answer that is no success, no rejected signature and no challenge goes to
/// the pool where the account is to blame for it, and to the client where not; no
/// user is asked anything.
pub proof fn law_other_answers_go_to_pool_or_client(
    rung: Rung,
    entry: crate::pool::EntryRow,
    format: Format,
    status: u16,
    body: Seq<char>,
    text: Seq<char>,
    attempt: u32,
)
    requires
        !(200 <= status <= 299),
        !(status == 401 && crate::signing::rejects_signature(crate::json::parsed(body))),
    ensures
        ({
            let v = verdict(rung, entry, format, status, false, body, text, attempt);
            &&& failure_kind(status) is Some ==> v == VerdictRow::Failed(
                status_report(status, body)->0,
                status_error(entry, status, body),
                false,
            )
            &&& failure_kind(status) is None ==> v == VerdictRow::Surfaced(
                crate::reply::raw_error_row(format, status, body, entry.name, attempt),
            )
        }),
{
}

/// An upstream that cannot be reached is a failure of the network, and the client
/// is told which account met it and why.
pub proof fn law_unreachable_upstreams_are_told(
    rung: Rung,
    entry: crate::pool::EntryRow,
    reason: Seq<char>,
)
    ensures
        ({
            let v = connect_failure(rung, entry, reason);
            &&& v is Failed
            &&& v->Failed_0.kind == FailureKind::Network
            &&& v->Failed_0.message == "connect: "@ + reason
            &&& v->Failed_1.status == 502
            &&& v->Failed_1.error_type == "upstream_unreachable"@
            &&& rung is First ==> v->Failed_1.message == entry.name + ": "@ + "connect: "@ + reason
            &&& !(rung is First) ==> v->Failed_1.message == entry.name + ": "@ + "connect failed: "@
                + reason
            &&& !v->Failed_2
        }),
{
}

/// After its route is known, a request of the start plan looks for a ticket, one
/// of the coding plan is signed, and any other is sent. An attempt goes on only to
/// sign anew or to go without a signature.
pub proof fn law_plans_take_their_own_way(entry: crate::pool::EntryRow, v: VerdictRow)
    ensures
        entry.plan == "start-plan"@ ==> after_routing(entry) == Phase::Looking(0),
        entry.plan == "coding-plan"@ ==> after_routing(entry) == Phase::Signing,
        entry.plan != "start-plan"@ && entry.plan != "coding-plan"@ ==> after_routing(entry)
            == Phase::Sending(Rung::First(false)),
        after_verdict(v) == Phase::Resigning <==> v is Resign,
        after_verdict(v) == Phase::Sending(Rung::Bare) <==> v is GoBare,
        after_verdict(v) == Phase::Over <==> !(v is Resign) && !(v is GoBare),
        TICKET_LOOKS == 16,
        TICKET_PAUSE_MS == 500,
{
    reveal_strlit("start-plan");
    reveal_strlit("coding-plan");
    assert("start-plan"@.len() == 10);
    assert("coding-plan"@.len() == 11);
}

/// A request bears the headers that signing gave it, or its own where it was not
/// signed for.
pub proof fn law_signed_requests_bear_their_signature(
    plain: Seq<(Seq<char>, Seq<char>)>,
    s: SignOutcome,
    i: int,
)
    requires
        0 <= i < s.pairs@.len(),
    ensures
        signed_pairs(plain, None) == plain,
        signed_pairs(plain, Some(s)).len() == s.pairs@.len(),
        signed_pairs(plain, Some(s))[i] == (s.pairs@[i].0@, s.pairs@[i].1@),
        was_signed(Some(s)) <==> s.signed,
        !was_signed(None),
{
}

} // verus!
