//! A request from end to end: what is made of it, which accounts are tried in
//! which order, and what the client gets in the end.

use crate::attempt::{AttemptError, ErrorRow};
use crate::headers::{header_str, HeaderList};
use crate::json::{parse, Json, Tree};
use crate::logs::{GatewayLogEntry, LogRow};
use crate::pool::{PoolEntry, PoolSnapshot};
use crate::reply::{error_response, finalize_headers, json_response, Format, Reply, ReplyRow};
use crate::text::{concat, concat3, first_chars, has, is_empty, joined};
use crate::translate::{translate_request_openai_to_anthropic, translate_response_at};
use crate::upstream::{new_uuid, peek_meta};
use crate::utf8::text_of_body;
use vstd::prelude::*;

verus! {

/// How many accounts are tried for one request.
pub const MAX_ATTEMPTS: usize = 3;

/// How many characters of an error go into the log.
pub const LOGGED_CHARS: usize = 200;

// ---------------------------------------------------------------------------
// The request
// ---------------------------------------------------------------------------

/// What is made of the body of a request: a document for the upstream, where
/// there is one, or the reason why the request is refused. What speaks another
/// dialect is translated; what speaks the upstream's own goes as it is, also
/// where it is no document.
pub open spec fn prepared(format: Format, body: Option<Seq<char>>) -> Result<
    Option<Tree>,
    Seq<char>,
> {
    match format {
        Format::OpenAi => match body {
            None => Err("OpenAI request body is empty; cannot translate."@),
            Some(raw) => if raw.len() == 0 {
                Err("OpenAI request body is empty; cannot translate."@)
            } else {
                match crate::json::parsed(raw) {
                    None => Err("OpenAI request body is not valid JSON."@),
                    Some(request) => match crate::translate::translated_request(request) {
                        Ok(t) => Ok(Some(t)),
                        Err(e) => Err("OpenAI→Anthropic translation failed: "@ + e),
                    },
                }
            },
        },
        Format::Anthropic => match body {
            None => Ok(None),
            Some(raw) => Ok(crate::json::parsed(raw)),
        },
    }
}

/// What is made of the body of a request, or the answer that refuses it.
pub fn prepare(format: Format, body: Option<&str>) -> (r: Result<Option<Json>, Reply>)
    ensures
        match (r, prepared(format, crate::text::seen_str(body))) {
            (Ok(request), Ok(t)) => crate::json::seen_own(request) == t,
            (Err(reply), Err(message)) => reply@ == crate::reply::error_row(
                400,
                "translation_failed"@,
                message,
            ),
            _ => false,
        },
{
    match format {
        Format::OpenAi => {
            let raw = match body {
                Some(raw) => raw,
                None => "",
            };
            assert(body is None ==> raw@.len() == 0) by {
                reveal_strlit("");
            }
            if is_empty(raw) {
                return Err(
                    error_response(
                        format,
                        400,
                        "translation_failed",
                        "OpenAI request body is empty; cannot translate.",
                    ),
                );
            }
            let request = match parse(raw) {
                Some(request) => request,
                None => {
                    return Err(
                        error_response(
                            format,
                            400,
                            "translation_failed",
                            "OpenAI request body is not valid JSON.",
                        ),
                    );
                },
            };
            match translate_request_openai_to_anthropic(&request) {
                Ok(t) => Ok(Some(t)),
                Err(e) => {
                    let message = concat("OpenAI→Anthropic translation failed: ", e.as_str());
                    Err(error_response(format, 400, "translation_failed", message.as_str()))
                },
            }
        },
        Format::Anthropic => match body {
            Some(raw) => Ok(parse(raw)),
            None => Ok(None),
        },
    }
}

/// A new id for the session of a request.
pub fn new_session_id() -> (r: String)
    ensures
        crate::upstream::uuid_shaped(r@),
{
    new_uuid()
}

/// The encodings that the upstream may use: none where the answer must be read,
/// else those that the client takes.
pub open spec fn encodings(format: Format, accepted: Option<Seq<char>>) -> Seq<char> {
    match format {
        Format::OpenAi => "identity"@,
        Format::Anthropic => match accepted {
            Some(list) => list,
            None => "gzip"@,
        },
    }
}

/// The encodings that the upstream may use.
pub fn accept_encoding_for(
    format: Format,
    inbound: &reqwest::header::HeaderMap<reqwest::header::HeaderValue>,
) -> (r: String)
    ensures
        r@ == encodings(format, crate::headers::header_text(*inbound, "accept-encoding"@)),
{
    match format {
        Format::OpenAi => "identity".to_owned(),
        Format::Anthropic => match header_str(inbound, "accept-encoding") {
            Some(list) => list,
            None => "gzip".to_owned(),
        },
    }
}

// ---------------------------------------------------------------------------
// No account
// ---------------------------------------------------------------------------

/// Why the accounts that cannot be used cannot, each with its name before it.
pub open spec fn reasons(entries: Seq<crate::pool::EntryRow>) -> Seq<Seq<char>>
    decreases entries.len(),
{
    if entries.len() == 0 {
        Seq::empty()
    } else if crate::pool::usable(entries.last()) {
        reasons(entries.drop_last())
    } else {
        reasons(entries.drop_last()).push(
            entries.last().name + ": "@ + entries.last().unusable_reason,
        )
    }
}

/// What a client is told where no account can be tried.
pub open spec fn no_account_text(entries: Seq<crate::pool::EntryRow>) -> Seq<char> {
    if entries.len() == 0 {
        "账号池为空：请先在 Z·SWITCH 中保存或登录至少一个账号"@
    } else {
        "账号池中没有可用账号。"@ + crate::text::join(reasons(entries), "；"@)
    }
}

/// Why the accounts that cannot be used cannot.
fn collect_reasons(entries: &Vec<PoolEntry>) -> (r: Vec<String>)
    ensures
        crate::text::views(r@) == reasons(crate::pool::rows(entries@)),
{
    let ghost all = crate::pool::rows(entries@);
    let mut out: Vec<String> = Vec::new();
    let mut i: usize = 0;
    assert(crate::text::views(out@) =~= reasons(all.take(0)));
    while i < entries.len()
        invariant
            i <= entries@.len(),
            all == crate::pool::rows(entries@),
            crate::text::views(out@) == reasons(all.take(i as int)),
        decreases entries@.len() - i,
    {
        assert(all.take(i + 1).drop_last() =~= all.take(i as int));
        assert(all.take(i + 1).last() == entries@[i as int]@);
        if !is_empty(entries[i].unusable_reason.as_str()) {
            let ghost before = out@;
            out.push(
                concat3(entries[i].name.as_str(), ": ", entries[i].unusable_reason.as_str()),
            );
            assert(crate::text::views(out@) =~= crate::text::views(before).push(
                all[i as int].name + ": "@ + all[i as int].unusable_reason,
            ));
        }
        i += 1;
    }
    assert(all.take(entries@.len() as int) =~= all);
    out
}

/// The answer where no account can be tried.
pub fn no_account_response(format: Format, snap: &PoolSnapshot) -> (r: Reply)
    ensures
        r@ == crate::reply::error_row(
            503,
            "no_available_account"@,
            no_account_text(crate::pool::rows(snap.entries@)),
        ),
{
    let message = if snap.entries.len() == 0 {
        "账号池为空：请先在 Z·SWITCH 中保存或登录至少一个账号".to_owned()
    } else {
        let list: Vec<String> = collect_reasons(&snap.entries);
        concat("账号池中没有可用账号。", joined(&list, "；").as_str())
    };
    error_response(format, 503, "no_available_account", message.as_str())
}

// ---------------------------------------------------------------------------
// The log
// ---------------------------------------------------------------------------

/// How a dialect is named in the log.
pub open spec fn format_name(format: Format) -> Seq<char> {
    match format {
        Format::OpenAi => "openai"@,
        Format::Anthropic => "anthropic"@,
    }
}

/// The line of a request that no account has been tried for.
pub open spec fn opened_log(ts: i64, route: Seq<char>, format: Format, model: Seq<char>) -> LogRow {
    LogRow {
        ts,
        route,
        format: format_name(format),
        model,
        account: None,
        provider: None,
        plan: None,
        status: 0,
        ms: 0,
        attempts: 0,
        error: None,
    }
}

/// The line of a request, with the account that is tried.
pub open spec fn tried_log(log: LogRow, entry: crate::pool::EntryRow) -> LogRow {
    LogRow {
        account: Some(entry.name),
        provider: Some(entry.provider),
        plan: Some(entry.plan),
        ..log
    }
}

/// The line of a request that is over: a status that nothing set is that of an
/// upstream that failed.
pub open spec fn closed_log(log: LogRow, attempts: usize, ms: u64) -> LogRow {
    LogRow {
        attempts,
        ms,
        status: if log.status == 0 {
            502
        } else {
            log.status
        },
        ..log
    }
}

/// The line of a request that no account has been tried for. It names the model
/// that the request asks for.
pub fn open_log(ts: i64, route: &str, format: Format, body: Option<&str>) -> (r: GatewayLogEntry)
    ensures
        r@ == opened_log(
            ts,
            route@,
            format,
            match crate::text::seen_str(body) {
                Some(text) => crate::upstream::request_meta(crate::json::parsed(text)).0,
                None => crate::upstream::request_meta(None).0,
            },
        ),
{
    let (model, _): (String, bool) = peek_meta(body);
    GatewayLogEntry {
        ts,
        route: route.to_owned(),
        format: match format {
            Format::OpenAi => "openai".to_owned(),
            Format::Anthropic => "anthropic".to_owned(),
        },
        model,
        account: None,
        provider: None,
        plan: None,
        status: 0,
        ms: 0,
        attempts: 0,
        error: None,
    }
}

// ---------------------------------------------------------------------------
// Failover
// ---------------------------------------------------------------------------

/// What an attempt came to.
pub enum Outcome {
    /// The client gets an answer with this status.
    Served(u16),
    /// The client made a mistake and got to know.
    Surfaced,
    /// The account had no room for another request.
    Busy,
    /// The attempt failed.
    Failed(AttemptError),
}

/// What an attempt came to, as characters.
pub ghost enum OutcomeRow {
    Served(u16),
    Surfaced,
    Busy,
    Failed(ErrorRow),
}

impl View for Outcome {
    type V = OutcomeRow;

    open spec fn view(&self) -> OutcomeRow {
        match self {
            Outcome::Served(status) => OutcomeRow::Served(*status),
            Outcome::Surfaced => OutcomeRow::Surfaced,
            Outcome::Busy => OutcomeRow::Busy,
            Outcome::Failed(error) => OutcomeRow::Failed(error@),
        }
    }
}

/// What is done next for a request.
#[derive(Debug, Clone, Copy, PartialEq, Eq, Structural)]
pub enum Step {
    /// A candidate is tried; where it has no room, it is waited for only if
    /// that is said.
    Try { index: usize, wait: bool },
    /// No more is tried.
    Stop,
}

/// Whether an outcome answers the client.
pub open spec fn answers(outcome: OutcomeRow) -> bool {
    outcome is Served || outcome is Surfaced
}

/// Whether any outcome answers the client.
pub open spec fn answered(outcomes: Seq<OutcomeRow>) -> bool {
    exists|i: int| 0 <= i < outcomes.len() && answers(#[trigger] outcomes[i])
}

/// Whether no account had room.
pub open spec fn all_busy(outcomes: Seq<OutcomeRow>) -> bool {
    forall|i: int| 0 <= i < outcomes.len() ==> (#[trigger] outcomes[i]) is Busy
}

/// How many of so many candidates are tried one after the other.
pub open spec fn rounds(candidates: nat) -> nat {
    if candidates < MAX_ATTEMPTS {
        candidates
    } else {
        MAX_ATTEMPTS as nat
    }
}

/// What is done next: the candidates are tried in their order until one answers;
/// where none had room, the first one is waited for.
pub open spec fn next_step(candidates: nat, outcomes: Seq<OutcomeRow>) -> Step {
    if answered(outcomes) {
        Step::Stop
    } else if outcomes.len() < rounds(candidates) {
        Step::Try { index: outcomes.len() as usize, wait: false }
    } else if outcomes.len() == rounds(candidates) && all_busy(outcomes) {
        Step::Try { index: 0, wait: true }
    } else {
        Step::Stop
    }
}

/// The error that a client is told of where no attempt answers: that of the
/// last attempt that failed.
pub open spec fn last_error(outcomes: Seq<OutcomeRow>) -> ErrorRow
    decreases outcomes.len(),
{
    if outcomes.len() == 0 {
        ErrorRow {
            status: 502,
            error_type: "upstream_error"@,
            message: "all upstream attempts failed"@,
        }
    } else {
        match outcomes.last() {
            OutcomeRow::Failed(error) => error,
            _ => last_error(outcomes.drop_last()),
        }
    }
}

/// The line of a request after an outcome of an account.
pub open spec fn logged(log: LogRow, entry: crate::pool::EntryRow, outcome: OutcomeRow) -> LogRow {
    match outcome {
        OutcomeRow::Busy => log,
        OutcomeRow::Surfaced => tried_log(log, entry),
        OutcomeRow::Served(status) => LogRow { status, error: None, ..tried_log(log, entry) },
        OutcomeRow::Failed(error) => LogRow {
            status: error.status,
            error: Some(crate::text::prefix(error.message, LOGGED_CHARS as int)),
            ..tried_log(log, entry)
        },
    }
}

/// A request that is tried with one account after the other.
pub struct Failover {
    candidates: Vec<PoolEntry>,
    tried: usize,
    busy: usize,
    done: bool,
    failure: Option<AttemptError>,
    log: GatewayLogEntry,
    outcomes: Ghost<Seq<OutcomeRow>>,
}

impl Failover {
    /// The accounts to try.
    pub closed spec fn accounts(&self) -> Seq<crate::pool::EntryRow> {
        crate::pool::rows(self.candidates@)
    }

    /// What the attempts so far came to.
    pub closed spec fn outcomes(&self) -> Seq<OutcomeRow> {
        self.outcomes@
    }

    /// The line of the request.
    pub closed spec fn log(&self) -> LogRow {
        self.log@
    }

    /// How many of the outcomes are busy ones.
    spec fn busy_count(outcomes: Seq<OutcomeRow>) -> nat
        decreases outcomes.len(),
    {
        if outcomes.len() == 0 {
            0
        } else {
            Self::busy_count(outcomes.drop_last()) + if outcomes.last() is Busy {
                1nat
            } else {
                0nat
            }
        }
    }

    /// What was noted of the attempts is what they came to.
    pub closed spec fn wf(&self) -> bool {
        &&& self.candidates@.len() > 0
        &&& self.tried == self.outcomes@.len()
        &&& self.tried <= MAX_ATTEMPTS + 1
        &&& self.busy == Self::busy_count(self.outcomes@)
        &&& self.done == answered(self.outcomes@)
        &&& match self.failure {
            Some(e) => e@ == last_error(self.outcomes@),
            None => last_error(self.outcomes@) == last_error(Seq::empty()),
        }
    }

    proof fn lemma_busy(outcomes: Seq<OutcomeRow>)
        ensures
            Self::busy_count(outcomes) <= outcomes.len(),
            Self::busy_count(outcomes) == outcomes.len() <==> all_busy(outcomes),
        decreases outcomes.len(),
    {
        if outcomes.len() > 0 {
            let front = outcomes.drop_last();
            Self::lemma_busy(front);
            if all_busy(outcomes) {
                assert forall|i: int| 0 <= i < front.len() implies (#[trigger] front[i]) is Busy by {
                    assert(outcomes[i] is Busy);
                }
                assert(outcomes[outcomes.len() - 1] is Busy);
            }
            if Self::busy_count(outcomes) == outcomes.len() {
                assert forall|i: int| 0 <= i < outcomes.len() implies (
                #[trigger] outcomes[i]) is Busy by {
                    if i < front.len() {
                        assert(front[i] is Busy);
                    }
                }
            }
        }
    }

    /// A request of which nothing has been tried.
    pub fn new(candidates: Vec<PoolEntry>, log: GatewayLogEntry) -> (r: Self)
        requires
            candidates@.len() > 0,
        ensures
            r.wf(),
            r.accounts() == crate::pool::rows(candidates@),
            r.outcomes() == Seq::<OutcomeRow>::empty(),
            r.log() == log@,
    {
        Failover {
            candidates,
            tried: 0,
            busy: 0,
            done: false,
            failure: None,
            log,
            outcomes: Ghost(Seq::empty()),
        }
    }

    /// What is done next.
    pub fn next(&self) -> (r: Step)
        requires
            self.wf(),
        ensures
            r == next_step(self.accounts().len(), self.outcomes()),
            r matches Step::Try { index, .. } ==> index < self.accounts().len(),
    {
        proof {
            Self::lemma_busy(self.outcomes@);
        }
        if self.done {
            return Step::Stop;
        }
        let n: usize = self.candidates.len();
        let most: usize = if n < MAX_ATTEMPTS {
            n
        } else {
            MAX_ATTEMPTS
        };
        if self.tried < most {
            Step::Try { index: self.tried, wait: false }
        } else if self.tried == most && self.busy == self.tried {
            Step::Try { index: 0, wait: true }
        } else {
            Step::Stop
        }
    }

    /// The number of the attempt that comes next.
    pub fn attempt(&self) -> (r: u32)
        requires
            self.wf(),
        ensures
            r == self.outcomes().len() + 1,
    {
        (self.tried + 1) as u32
    }

    /// A candidate.
    pub fn candidate(&self, index: usize) -> (r: &PoolEntry)
        requires
            index < self.accounts().len(),
        ensures
            r@ == self.accounts()[index as int],
    {
        &self.candidates[index]
    }

    /// The line that tells of a challenge to a candidate.
    pub fn challenge_entry(&self, index: usize, text: &str) -> (r: GatewayLogEntry)
        requires
            index < self.accounts().len(),
        ensures
            r@ == (LogRow {
                status: 403,
                error: Some(text@),
                ..tried_log(self.log(), self.accounts()[index as int])
            }),
    {
        let mut log = self.log.clone();
        let e = &self.candidates[index];
        log.account = Some(e.name.clone());
        log.provider = Some(e.provider.clone());
        log.plan = Some(e.plan.clone());
        log.status = 403;
        log.error = Some(text.to_owned());
        log
    }

    /// Notes what the attempt of a candidate that was due came to.
    pub fn record(&mut self, index: usize, outcome: Outcome)
        requires
            old(self).wf(),
            next_step(old(self).accounts().len(), old(self).outcomes()) matches Step::Try {
                index: due,
                ..
            } && due == index,
        ensures
            final(self).wf(),
            final(self).accounts() == old(self).accounts(),
            final(self).outcomes() == old(self).outcomes().push(outcome@),
            final(self).log() == logged(
                old(self).log(),
                old(self).accounts()[index as int],
                outcome@,
            ),
    {
        let ghost before = self.outcomes@;
        let ghost after = before.push(outcome@);
        proof {
            Self::lemma_busy(before);
            assert(after.drop_last() =~= before);
            assert(after.last() == outcome@);
            if answered(before) {
                let i = choose|i: int| 0 <= i < before.len() && answers(#[trigger] before[i]);
                assert(answers(after[i]));
            }
            if answered(after) {
                let i = choose|i: int| 0 <= i < after.len() && answers(#[trigger] after[i]);
                if i < before.len() {
                    assert(answers(before[i]));
                }
            }
            if answers(outcome@) {
                assert(answers(after[before.len() as int]));
            }
            assert(self.tried <= MAX_ATTEMPTS);
        }
        self.tried = self.tried + 1;
        match outcome {
            Outcome::Busy => {
                self.busy = self.busy + 1;
            },
            _ => {
                let e = &self.candidates[index];
                self.log.account = Some(e.name.clone());
                self.log.provider = Some(e.provider.clone());
                self.log.plan = Some(e.plan.clone());
            },
        }
        match outcome {
            Outcome::Busy => {},
            Outcome::Surfaced => {
                self.done = true;
            },
            Outcome::Served(status) => {
                self.log.status = status;
                self.log.error = None;
                self.done = true;
            },
            Outcome::Failed(error) => {
                self.log.status = error.status;
                self.log.error = Some(first_chars(error.message.as_str(), LOGGED_CHARS));
                self.failure = Some(error);
            },
        }
        self.outcomes = Ghost(after);
    }

    /// Ends the request: gives the line that goes into the log, and the answer
    /// to the client unless an attempt answered it.
    pub fn finish(self, format: Format, ms: u64) -> (r: (GatewayLogEntry, Option<Reply>))
        requires
            self.wf(),
        ensures
            r.0@ == closed_log(self.log(), self.outcomes().len() as usize, ms),
            match r.1 {
                None => answered(self.outcomes()),
                Some(reply) => !answered(self.outcomes()) && ({
                    let error = last_error(self.outcomes());
                    reply@ == crate::reply::error_row(
                        error.status,
                        error.error_type,
                        error.message,
                    )
                }),
            },
    {
        let mut log = self.log;
        log.attempts = self.tried;
        log.ms = ms;
        if log.status == 0 {
            log.status = 502;
        }
        if self.done {
            return (log, None);
        }
        let reply = match self.failure {
            Some(e) => error_response(
                format,
                e.status,
                e.error_type.as_str(),
                e.message.as_str(),
            ),
            None => error_response(
                format,
                502,
                "upstream_error",
                "all upstream attempts failed",
            ),
        };
        (log, Some(reply))
    }
}

// ---------------------------------------------------------------------------
// Success
// ---------------------------------------------------------------------------

/// How the answer of the upstream reaches the client.
#[derive(Debug, Clone, Copy, PartialEq, Eq, Structural)]
pub enum Mode {
    /// As it comes.
    Relay,
    /// Translated event by event.
    Stream,
    /// Read to its end and translated.
    Batch,
}

/// How the answer of the upstream reaches the client, with the head of what the
/// client gets.
pub struct Success {
    pub mode: Mode,
    pub status: u16,
    pub headers: HeaderList,
}

/// How the answer of the upstream reaches the client, with the head of what the
/// client gets as a map.
pub ghost struct SuccessRow {
    pub mode: Mode,
    pub status: u16,
    pub headers: Map<Seq<char>, Seq<u8>>,
}

impl View for Success {
    type V = SuccessRow;

    open spec fn view(&self) -> SuccessRow {
        SuccessRow { mode: self.mode, status: self.status, headers: self.headers@ }
    }
}

/// Whether an answer is a stream of events, by its content type.
pub open spec fn is_stream(content_type: Option<Seq<char>>) -> bool {
    content_type matches Some(t) && crate::text::contains(t, "text/event-stream"@)
}

/// The headers that a translated stream begins with.
pub open spec fn stream_headers() -> Map<Seq<char>, Seq<u8>> {
    Map::empty().insert("content-type"@, crate::reply::bytes("text/event-stream"@)).insert(
        "cache-control"@,
        crate::reply::bytes("no-cache"@),
    )
}

/// How the answer of the upstream reaches the client: as it comes where both
/// speak one dialect, else translated as a stream or as a whole.
pub open spec fn success_row(
    format: Format,
    status: u16,
    content_type: Option<Seq<char>>,
    sent: Map<Seq<char>, Seq<u8>>,
    account: Seq<char>,
    attempt: u32,
) -> SuccessRow {
    match format {
        Format::Anthropic => SuccessRow {
            mode: Mode::Relay,
            status,
            headers: crate::reply::final_headers(Map::empty(), sent, account, attempt),
        },
        Format::OpenAi => if is_stream(content_type) {
            SuccessRow {
                mode: Mode::Stream,
                status: 200,
                headers: crate::reply::final_headers(stream_headers(), sent, account, attempt),
            }
        } else {
            SuccessRow {
                mode: Mode::Batch,
                status,
                headers: crate::reply::final_headers(Map::empty(), sent, account, attempt),
            }
        },
    }
}

/// How the answer of the upstream reaches the client.
pub fn plan_success(
    format: Format,
    status: u16,
    upstream_headers: &reqwest::header::HeaderMap<reqwest::header::HeaderValue>,
    account: &str,
    attempt: u32,
) -> (r: Success)
    ensures
        r@ == success_row(
            format,
            status,
            crate::headers::header_text(*upstream_headers, "content-type"@),
            crate::headers::first_values(*upstream_headers),
            account@,
            attempt,
        ),
{
    let streams = match header_str(upstream_headers, "content-type") {
        Some(t) => has(t.as_str(), "text/event-stream"),
        None => false,
    };
    match format {
        Format::Anthropic => Success {
            mode: Mode::Relay,
            status,
            headers: finalize_headers(HeaderList::new(), upstream_headers, account, attempt),
        },
        Format::OpenAi => if streams {
            let base = HeaderList::new().put_text("content-type", "text/event-stream").put_text(
                "cache-control",
                "no-cache",
            );
            Success {
                mode: Mode::Stream,
                status: 200,
                headers: finalize_headers(base, upstream_headers, account, attempt),
            }
        } else {
            Success {
                mode: Mode::Batch,
                status,
                headers: finalize_headers(HeaderList::new(), upstream_headers, account, attempt),
            }
        },
    }
}

/// Whether a document is a whole message of the upstream.
pub open spec fn is_message(t: Tree) -> bool {
    t.text_at("type"@) == Some("message"@) && t.text_at("role"@) == Some("assistant"@)
}

/// A body that could not be translated, as the client is told of it.
pub open spec fn translation_error(message: Seq<char>) -> ReplyRow {
    crate::reply::error_row(502, "translation_failed"@, message)
}

/// What a client gets of a whole answer: its translation, or an error with the
/// first characters of what could not be translated.
pub open spec fn batch_row(
    status: u16,
    headers: Map<Seq<char>, Seq<u8>>,
    text: Seq<char>,
    model: Seq<char>,
    created: u64,
) -> ReplyRow {
    match crate::json::parsed(text) {
        None => translation_error(
            "upstream returned non-JSON body: "@ + crate::text::prefix(text, 200),
        ),
        Some(t) => if !is_message(t) {
            translation_error(
                "upstream returned invalid Anthropic message: "@ + crate::text::prefix(text, 200),
            )
        } else {
            match crate::translate::translated_response(t, model, created) {
                Ok(out) => crate::reply::document(status, headers, out),
                Err(e) => translation_error("Anthropic→OpenAI translation failed: "@ + e),
            }
        },
    }
}

/// An error that tells of a body which could not be translated.
fn refuse_translation(front: &str, rest: &str) -> (r: Reply)
    ensures
        r@ == translation_error(front@ + rest@),
{
    let message = concat(front, rest);
    error_response(Format::OpenAi, 502, "translation_failed", message.as_str())
}

/// What a client gets of a whole answer, which bears the given time.
pub fn batch_response_at(plan: Success, raw: &[u8], model: &str, created: u64) -> (r: Reply)
    ensures
        r@ == batch_row(
            plan@.status,
            plan@.headers,
            crate::utf8::lenient_text(raw@),
            model@,
            created,
        ),
{
    let text = text_of_body(raw);
    let message = match parse(text.as_str()) {
        Some(message) => message,
        None => {
            let snippet = first_chars(text.as_str(), 200);
            return refuse_translation("upstream returned non-JSON body: ", snippet.as_str());
        },
    };
    if !(message.is_text_at("type", "message") && message.is_text_at("role", "assistant")) {
        let snippet = first_chars(text.as_str(), 200);
        return refuse_translation(
            "upstream returned invalid Anthropic message: ",
            snippet.as_str(),
        );
    }
    match translate_response_at(&message, model, created) {
        Ok(out) => json_response(plan.status, plan.headers, out),
        Err(e) => refuse_translation("Anthropic→OpenAI translation failed: ", e.as_str()),
    }
}

/// What a client gets of a whole answer, which bears the current time.
pub fn batch_response(plan: Success, raw: &[u8], model: &str) -> (r: Reply)
    ensures
        exists|created: u64|
            r@ == #[trigger] batch_row(
                plan@.status,
                plan@.headers,
                crate::utf8::lenient_text(raw@),
                model@,
                created,
            ),
{
    let created: u64 = crate::clock::unix_seconds();
    batch_response_at(plan, raw, model, created)
}

// ---------------------------------------------------------------------------
// Laws
// ---------------------------------------------------------------------------

/// Whether attempts can have come to these outcomes, one after the other: each
/// was due when it was made.
pub open spec fn possible(candidates: nat, outcomes: Seq<OutcomeRow>) -> bool
    decreases outcomes.len(),
{
    outcomes.len() == 0 || (possible(candidates, outcomes.drop_last()) && next_step(
        candidates,
        outcomes.drop_last(),
    ) is Try)
}

/// A request is tried with at most three accounts, and once more with the first
/// of them where none had room.
pub proof fn law_attempts_are_bounded(candidates: nat, outcomes: Seq<OutcomeRow>)
    requires
        possible(candidates, outcomes),
    ensures
        outcomes.len() <= rounds(candidates) + 1,
        outcomes.len() <= MAX_ATTEMPTS + 1,
        outcomes.len() == rounds(candidates) + 1 ==> all_busy(outcomes.drop_last()),
    decreases outcomes.len(),
{
}

/// The accounts are tried in their order, each once and without waiting; only
/// behind the last of them the first one is waited for.
pub proof fn law_candidates_are_tried_in_order(
    candidates: nat,
    outcomes: Seq<OutcomeRow>,
    i: int,
)
    requires
        possible(candidates, outcomes),
        0 <= i < outcomes.len(),
    ensures
        next_step(candidates, outcomes.take(i)) == if i < rounds(candidates) {
            Step::Try { index: i as usize, wait: false }
        } else {
            Step::Try { index: 0, wait: true }
        },
    decreases outcomes.len(),
{
    if i == outcomes.len() - 1 {
        assert(outcomes.take(i) =~= outcomes.drop_last());
    } else {
        let front = outcomes.drop_last();
        law_candidates_are_tried_in_order(candidates, front, i);
        assert(front.take(i) =~= outcomes.take(i));
    }
}

/// The first answer ends the request: nothing is tried behind it.
pub proof fn law_first_answer_ends_the_request(candidates: nat, outcomes: Seq<OutcomeRow>, i: int)
    requires
        possible(candidates, outcomes),
        0 <= i < outcomes.len(),
        answers(outcomes[i]),
    ensures
        i == outcomes.len() - 1,
        next_step(candidates, outcomes) is Stop,
{
    if i < outcomes.len() - 1 {
        assert(answers(outcomes.drop_last()[i]));
    }
}

/// A request that no attempt answered has been tried with every account that it
/// may be tried with, and was not given up while all of them had no room.
pub proof fn law_no_candidate_is_left_out(candidates: nat, outcomes: Seq<OutcomeRow>)
    requires
        possible(candidates, outcomes),
        next_step(candidates, outcomes) is Stop,
        !answered(outcomes),
    ensures
        outcomes.len() >= rounds(candidates),
        all_busy(outcomes) ==> outcomes.len() == rounds(candidates) + 1,
{
    law_attempts_are_bounded(candidates, outcomes);
}

/// The error that a client is told of is that of an attempt, behind which no
/// other failed; the general one only where no attempt failed.
pub proof fn law_last_failure_is_told(outcomes: Seq<OutcomeRow>)
    ensures
        (exists|i: int| 0 <= i < outcomes.len() && (#[trigger] outcomes[i]) is Failed) ==> exists|
            i: int,
        |
            0 <= i < outcomes.len() && #[trigger] outcomes[i] == OutcomeRow::Failed(
                last_error(outcomes),
            ) && forall|j: int|
                i < j < outcomes.len() ==> !((#[trigger] outcomes[j]) is Failed),
        (forall|i: int| 0 <= i < outcomes.len() ==> !((#[trigger] outcomes[i]) is Failed))
            ==> last_error(outcomes) == last_error(Seq::empty()),
    decreases outcomes.len(),
{
    if outcomes.len() > 0 {
        let front = outcomes.drop_last();
        law_last_failure_is_told(front);
        assert(outcomes[outcomes.len() - 1] == outcomes.last());
        if !(outcomes.last() is Failed) {
            if exists|i: int| 0 <= i < outcomes.len() && (#[trigger] outcomes[i]) is Failed {
                let i = choose|i: int| 0 <= i < outcomes.len() && (#[trigger] outcomes[i]) is Failed;
                assert(front[i] is Failed);
                let k = choose|k: int|
                    0 <= k < front.len() && #[trigger] front[k] == OutcomeRow::Failed(
                        last_error(front),
                    ) && forall|j: int| k < j < front.len() ==> !((#[trigger] front[j]) is Failed);
                assert(outcomes[k] == OutcomeRow::Failed(last_error(outcomes)));
                assert forall|j: int| k < j < outcomes.len() implies !((
                #[trigger] outcomes[j]) is Failed) by {
                    if j < front.len() {
                        assert(!(front[j] is Failed));
                    }
                }
            } else {
                assert forall|i: int| 0 <= i < front.len() implies !((
                #[trigger] front[i]) is Failed) by {
                    assert(!(outcomes[i] is Failed));
                }
            }
        }
    }
}

/// What is logged and answered agree: a request whose last attempt failed is
/// logged with the status of the error that the client is told of.
pub proof fn law_log_agrees_with_the_answer(
    log: LogRow,
    entry: crate::pool::EntryRow,
    outcomes: Seq<OutcomeRow>,
    error: ErrorRow,
    ms: u64,
)
    requires
        outcomes.len() > 0,
        outcomes.last() == OutcomeRow::Failed(error),
        error.status != 0,
    ensures
        last_error(outcomes) == error,
        closed_log(logged(log, entry, outcomes.last()), outcomes.len() as usize, ms).status
            == error.status,
{
}

/// What is seen of an outcome or a success is what it holds.
pub proof fn law_outcomes_tell_what_they_hold(status: u16, error: AttemptError, s: Success)
    ensures
        Outcome::Served(status)@ == OutcomeRow::Served(status),
        Outcome::Surfaced@ == OutcomeRow::Surfaced,
        Outcome::Busy@ == OutcomeRow::Busy,
        Outcome::Failed(error)@ == OutcomeRow::Failed(error@),
        s@.mode == s.mode,
        s@.status == s.status,
        s@.headers == s.headers@,
{
}

/// A client of the other format is refused where its body is missing, empty, no
/// document or cannot be translated, and is told so; any other request goes on,
/// translated.
pub proof fn law_requests_are_translated(raw: Seq<char>)
    ensures
        prepared(Format::OpenAi, None) == Err::<Option<Tree>, Seq<char>>(
            "OpenAI request body is empty; cannot translate."@,
        ),
        raw.len() == 0 ==> prepared(Format::OpenAi, Some(raw)) == prepared(Format::OpenAi, None),
        raw.len() > 0 && crate::json::parsed(raw) is None ==> prepared(Format::OpenAi, Some(raw))
            == Err::<Option<Tree>, Seq<char>>("OpenAI request body is not valid JSON."@),
        raw.len() > 0 && crate::json::parsed(raw) is Some ==> match crate::translate::translated_request(
            crate::json::parsed(raw)->0,
        ) {
            Ok(t) => prepared(Format::OpenAi, Some(raw)) == Ok::<Option<Tree>, Seq<char>>(Some(t)),
            Err(e) => prepared(Format::OpenAi, Some(raw)) == Err::<Option<Tree>, Seq<char>>(
                "OpenAI→Anthropic translation failed: "@ + e,
            ),
        },
{
}

/// A client of the upstream's own format is never refused: its body goes on as the
/// document it is, where it is one.
pub proof fn law_native_requests_go_on(raw: Seq<char>)
    ensures
        prepared(Format::Anthropic, None) == Ok::<Option<Tree>, Seq<char>>(None),
        prepared(Format::Anthropic, Some(raw)) == Ok::<Option<Tree>, Seq<char>>(
            crate::json::parsed(raw),
        ),
{
}

/// An answer that has to be translated comes without an encoding; one that goes on
/// as it is comes in those that the client accepts.
pub proof fn law_encodings_are_those_of_the_client(accepted: Seq<char>)
    ensures
        encodings(Format::OpenAi, Some(accepted)) == "identity"@,
        encodings(Format::OpenAi, None) == "identity"@,
        encodings(Format::Anthropic, Some(accepted)) == accepted,
        encodings(Format::Anthropic, None) == "gzip"@,
{
}

/// Each account that cannot be used is named with its reason, in order, and no
/// other is.
pub proof fn law_reasons_name_their_accounts(
    entries: Seq<crate::pool::EntryRow>,
    entry: crate::pool::EntryRow,
)
    ensures
        reasons(Seq::empty()).len() == 0,
        entry.unusable_reason.len() == 0 ==> reasons(entries.push(entry)) == reasons(entries),
        entry.unusable_reason.len() > 0 ==> reasons(entries.push(entry)) == reasons(entries).push(
            entry.name + ": "@ + entry.unusable_reason,
        ),
        no_account_text(Seq::empty())
            == "账号池为空：请先在 Z·SWITCH 中保存或登录至少一个账号"@,
        no_account_text(entries.push(entry)) == "账号池中没有可用账号。"@
            + crate::text::join(reasons(entries.push(entry)), "；"@),
{
    assert(entries.push(entry).drop_last() =~= entries);
}

/// A log begins with when and how the client came and the model it asked for, and
/// with nothing of an account or an answer.
pub proof fn law_logs_begin_with_the_request(
    ts: i64,
    route: Seq<char>,
    format: Format,
    model: Seq<char>,
)
    ensures
        ({
            let log = opened_log(ts, route, format, model);
            &&& log.ts == ts
            &&& log.route == route
            &&& format == Format::OpenAi ==> log.format == "openai"@
            &&& format == Format::Anthropic ==> log.format == "anthropic"@
            &&& log.model == model
            &&& log.account is None && log.provider is None && log.plan is None
            &&& log.status == 0 && log.ms == 0 && log.attempts == 0
            &&& log.error is None
        }),
{
}

/// A log tells the account that was tried last, but for one without room, with the
/// status and the error of its answer; what it told of the request it keeps.
pub proof fn law_logs_follow_the_attempts(
    log: LogRow,
    entry: crate::pool::EntryRow,
    status: u16,
    error: ErrorRow,
)
    ensures
        logged(log, entry, OutcomeRow::Busy) == log,
        ({
            let l = logged(log, entry, OutcomeRow::Surfaced);
            &&& l.account == Some(entry.name)
            &&& l.provider == Some(entry.provider)
            &&& l.plan == Some(entry.plan)
            &&& l.status == log.status && l.error == log.error
            &&& l.ts == log.ts && l.route == log.route && l.format == log.format && l.model
                == log.model
        }),
        ({
            let l = logged(log, entry, OutcomeRow::Served(status));
            &&& l.account == Some(entry.name)
            &&& l.provider == Some(entry.provider)
            &&& l.plan == Some(entry.plan)
            &&& l.status == status && l.error is None
            &&& l.ts == log.ts && l.route == log.route && l.format == log.format && l.model
                == log.model
        }),
        ({
            let l = logged(log, entry, OutcomeRow::Failed(error));
            &&& l.account == Some(entry.name)
            &&& l.provider == Some(entry.provider)
            &&& l.plan == Some(entry.plan)
            &&& l.status == error.status
            &&& error.message.len() <= 200 ==> l.error == Some(error.message)
            &&& error.message.len() > 200 ==> l.error == Some(error.message.take(200))
            &&& l.ts == log.ts && l.route == log.route && l.format == log.format && l.model
                == log.model
        }),
{
}

/// A closed log tells how many attempts there were and how long they took, and a
/// failure of the upstream where no status was told before.
pub proof fn law_logs_end_with_time_and_attempts(log: LogRow, attempts: usize, ms: u64)
    ensures
        ({
            let l = closed_log(log, attempts, ms);
            &&& l.attempts == attempts
            &&& l.ms == ms
            &&& log.status != 0 ==> l.status == log.status
            &&& log.status == 0 ==> l.status == 502
            &&& l.ts == log.ts && l.route == log.route && l.format == log.format && l.model
                == log.model && l.account == log.account && l.provider == log.provider && l.plan
                == log.plan && l.error == log.error
        }),
{
}

/// While no attempt is answered the candidates are tried one after another, three
/// at most, without waiting; where none of them had room, the first is waited for;
/// then no more is tried.
pub proof fn law_three_candidates_are_tried(candidates: nat, outcomes: Seq<OutcomeRow>)
    ensures
        ({
            let step = next_step(candidates, outcomes);
            let over = exists|i: int|
                0 <= i < outcomes.len() && ((#[trigger] outcomes[i]) is Served
                    || outcomes[i] is Surfaced);
            let full = forall|i: int| 0 <= i < outcomes.len() ==> (#[trigger] outcomes[i]) is Busy;
            &&& over ==> step is Stop
            &&& !over && outcomes.len() < candidates && outcomes.len() < 3 ==> step == Step::Try {
                index: outcomes.len() as usize,
                wait: false,
            }
            &&& full && outcomes.len() > 0 && outcomes.len() == (if candidates < 3 {
                candidates
            } else {
                3
            }) ==> step == Step::Try { index: 0, wait: true }
            &&& !full && (outcomes.len() >= candidates || outcomes.len() >= 3) ==> step is Stop
            &&& outcomes.len() > 3 || outcomes.len() > candidates ==> step is Stop
        }),
{
    let over = exists|i: int|
        0 <= i < outcomes.len() && ((#[trigger] outcomes[i]) is Served || outcomes[i] is Surfaced);
    if answered(outcomes) {
        let i = choose|i: int| 0 <= i < outcomes.len() && answers(#[trigger] outcomes[i]);
        assert(outcomes[i] is Served || outcomes[i] is Surfaced);
    }
    if over {
        let i = choose|i: int|
            0 <= i < outcomes.len() && ((#[trigger] outcomes[i]) is Served
                || outcomes[i] is Surfaced);
        assert(answers(outcomes[i]));
    }
    assert(all_busy(outcomes) <==> forall|i: int|
        0 <= i < outcomes.len() ==> (#[trigger] outcomes[i]) is Busy);
    if all_busy(outcomes) && answered(outcomes) {
        let i = choose|i: int| 0 <= i < outcomes.len() && answers(#[trigger] outcomes[i]);
        assert(outcomes[i] is Busy);
    }
}

/// The error that is told is that of the attempt that failed last; where none
/// failed, that none succeeded.
pub proof fn law_the_last_failure_counts(outcomes: Seq<OutcomeRow>, outcome: OutcomeRow)
    ensures
        outcome is Failed ==> last_error(outcomes.push(outcome)) == outcome->Failed_0,
        !(outcome is Failed) ==> last_error(outcomes.push(outcome)) == last_error(outcomes),
        last_error(Seq::empty()).status == 502,
        last_error(Seq::empty()).error_type == "upstream_error"@,
        last_error(Seq::empty()).message == "all upstream attempts failed"@,
{
    assert(outcomes.push(outcome).drop_last() =~= outcomes);
}

/// An answer goes on as it is to a client of the upstream's own format, under its
/// status. To another client it goes on event by event where it is a stream, and
/// otherwise when it is complete. The headers are those that are forwarded and
/// told, and for a stream those of one.
pub proof fn law_answers_go_on_as_they_are_asked_for(
    status: u16,
    content_type: Option<Seq<char>>,
    sent: Map<Seq<char>, Seq<u8>>,
    account: Seq<char>,
    attempt: u32,
)
    ensures
        ({
            let r = success_row(Format::Anthropic, status, content_type, sent, account, attempt);
            &&& r.mode == Mode::Relay
            &&& r.status == status
            &&& r.headers == crate::reply::final_headers(Map::empty(), sent, account, attempt)
        }),
        ({
            let r = success_row(Format::OpenAi, status, content_type, sent, account, attempt);
            let stream = content_type is Some && crate::text::contains(
                content_type->0,
                "text/event-stream"@,
            );
            &&& stream ==> r.mode == Mode::Stream && r.status == 200 && r.headers
                == crate::reply::final_headers(stream_headers(), sent, account, attempt)
            &&& !stream ==> r.mode == Mode::Batch && r.status == status && r.headers
                == crate::reply::final_headers(Map::empty(), sent, account, attempt)
        }),
        stream_headers().dom() =~= set!["content-type"@, "cache-control"@],
        stream_headers()["content-type"@] == vstd::utf8::encode_utf8("text/event-stream"@),
        stream_headers()["cache-control"@] == vstd::utf8::encode_utf8("no-cache"@),
{
    reveal_strlit("content-type");
    reveal_strlit("cache-control");
    assert("content-type"@.len() == 12);
    assert("cache-control"@.len() == 13);
}

/// A complete answer goes on translated, under the status and headers that it came
/// with.
pub proof fn law_messages_go_on_translated(
    status: u16,
    headers: Map<Seq<char>, Seq<u8>>,
    text: Seq<char>,
    model: Seq<char>,
    created: u64,
    t: Tree,
)
    requires
        crate::json::parsed(text) == Some(t),
        t.text_at("type"@) == Some("message"@),
        t.text_at("role"@) == Some("assistant"@),
    ensures
        ({
            let r = batch_row(status, headers, text, model, created);
            match crate::translate::translated_response(t, model, created) {
                Ok(out) => r.status == status && r.headers == headers && r.body
                    == crate::json::rendered(out),
                Err(e) => r == crate::reply::error_row(
                    502,
                    "translation_failed"@,
                    "Anthropic→OpenAI translation failed: "@ + e,
                ),
            }
        }),
{
}

/// An answer that is no document, or no message of the assistant, is told as an
/// error of translation with what it begins with.
pub proof fn law_other_answers_are_errors(
    status: u16,
    headers: Map<Seq<char>, Seq<u8>>,
    text: Seq<char>,
    model: Seq<char>,
    created: u64,
)
    ensures
        ({
            let r = batch_row(status, headers, text, model, created);
            let t = crate::json::parsed(text);
            let begin = if text.len() <= 200 {
                text
            } else {
                text.take(200)
            };
            &&& t is None ==> r == crate::reply::error_row(
                502,
                "translation_failed"@,
                "upstream returned non-JSON body: "@ + begin,
            )
            &&& t is Some && (t->0.text_at("type"@) != Some("message"@) || t->0.text_at("role"@)
                != Some("assistant"@)) ==> r == crate::reply::error_row(
                502,
                "translation_failed"@,
                "upstream returned invalid Anthropic message: "@ + begin,
            )
        }),
{
}

} // verus!
