//! The request log: a ring of the latest entries, and its export.

use crate::gateway::Settings;
use crate::json::Json;
use crate::pool::copy_text;
use crate::text::{
    as_text, chars_of, concat3, decimal_of, decimal_of_signed, same, string_of,
};
use std::collections::VecDeque;
use vstd::prelude::*;

verus! {

/// How many entries are kept.
pub const CAP: usize = 500;

/// The size in bytes above which the log file is set aside.
pub const FILE_MAX_BYTES: u64 = 4_194_304;

/// A request that was served, or some other event worth a line.
#[derive(Debug)]
pub struct GatewayLogEntry {
    /// Milliseconds since the Unix epoch.
    pub ts: i64,
    pub route: String,
    pub format: String,
    pub model: String,
    pub account: Option<String>,
    pub provider: Option<String>,
    pub plan: Option<String>,
    pub status: u16,
    pub ms: u64,
    pub attempts: usize,
    pub error: Option<String>,
}

/// An entry, with its texts as characters.
pub ghost struct LogRow {
    pub ts: i64,
    pub route: Seq<char>,
    pub format: Seq<char>,
    pub model: Seq<char>,
    pub account: Option<Seq<char>>,
    pub provider: Option<Seq<char>>,
    pub plan: Option<Seq<char>>,
    pub status: u16,
    pub ms: u64,
    pub attempts: usize,
    pub error: Option<Seq<char>>,
}

impl View for GatewayLogEntry {
    type V = LogRow;

    open spec fn view(&self) -> LogRow {
        LogRow {
            ts: self.ts,
            route: self.route@,
            format: self.format@,
            model: self.model@,
            account: crate::text::seen_string(self.account),
            provider: crate::text::seen_string(self.provider),
            plan: crate::text::seen_string(self.plan),
            status: self.status,
            ms: self.ms,
            attempts: self.attempts,
            error: crate::text::seen_string(self.error),
        }
    }
}

impl Clone for GatewayLogEntry {
    fn clone(&self) -> (r: Self)
        ensures
            r == *self,
    {
        GatewayLogEntry {
            ts: self.ts,
            route: self.route.clone(),
            format: self.format.clone(),
            model: self.model.clone(),
            account: copy_text(&self.account),
            provider: copy_text(&self.provider),
            plan: copy_text(&self.plan),
            status: self.status,
            ms: self.ms,
            attempts: self.attempts,
            error: copy_text(&self.error),
        }
    }
}

/// The latest entries, oldest first.
pub struct LogRing {
    entries: VecDeque<GatewayLogEntry>,
}

impl View for LogRing {
    type V = Seq<GatewayLogEntry>;

    closed spec fn view(&self) -> Seq<GatewayLogEntry> {
        self.entries@
    }
}

impl LogRing {
    /// No entries.
    pub fn new() -> (r: Self)
        ensures
            r@ == Seq::<GatewayLogEntry>::empty(),
    {
        LogRing { entries: VecDeque::new() }
    }
}

/// The entries after one more: the oldest goes where there is no room.
pub open spec fn pushed(entries: Seq<GatewayLogEntry>, entry: GatewayLogEntry) -> Seq<
    GatewayLogEntry,
> {
    if entries.len() >= CAP {
        entries.drop_first().push(entry)
    } else {
        entries.push(entry)
    }
}

/// Keeps an entry.
pub fn push(ring: &mut LogRing, entry: GatewayLogEntry)
    ensures
        final(ring)@ == pushed(old(ring)@, entry),
{
    if ring.entries.len() >= CAP {
        ring.entries.pop_front();
    }
    ring.entries.push_back(entry);
    assert(ring.entries@ =~= pushed(old(ring)@, entry));
}

/// Whether the settings ask for entries that only help to find mistakes.
pub fn debug_enabled(settings: &Settings) -> (r: bool)
    ensures
        r == (settings.gateway_debug_log == Some(true)),
{
    match settings.gateway_debug_log {
        Some(on) => on,
        None => false,
    }
}

/// Keeps an entry that only helps to find mistakes, where that is asked for.
/// Gives whether it was kept.
pub fn push_debug(ring: &mut LogRing, entry: GatewayLogEntry, settings: &Settings) -> (r: bool)
    ensures
        r == (settings.gateway_debug_log == Some(true)),
        final(ring)@ == if r {
            pushed(old(ring)@, entry)
        } else {
            old(ring)@
        },
{
    if !debug_enabled(settings) {
        return false;
    }
    push(ring, entry);
    true
}

/// Forgets all entries.
pub fn clear(ring: &mut LogRing)
    ensures
        final(ring)@ == Seq::<GatewayLogEntry>::empty(),
{
    ring.entries = VecDeque::new();
}

// ---------------------------------------------------------------------------
// Visibility
// ---------------------------------------------------------------------------

/// Whether an entry is shown: those of challenges only help to find mistakes.
pub open spec fn visible(e: GatewayLogEntry, show_debug: bool) -> bool {
    show_debug || e.route@ != "captcha"@
}

/// The entries that are shown, newest first.
pub open spec fn newest_first(all: Seq<GatewayLogEntry>, show_debug: bool) -> Seq<GatewayLogEntry>
    decreases all.len(),
{
    if all.len() == 0 {
        Seq::empty()
    } else {
        let rest = newest_first(all.drop_last(), show_debug);
        if visible(all.last(), show_debug) {
            seq![all.last()] + rest
        } else {
            rest
        }
    }
}

/// A limit brought into the range from one to the size of the ring.
pub open spec fn clamped(limit: usize) -> usize {
    if limit < 1 {
        1
    } else if limit > CAP {
        CAP
    } else {
        limit
    }
}

/// At most so many of the entries that are shown, newest first.
pub open spec fn shown(all: Seq<GatewayLogEntry>, show_debug: bool, limit: usize) -> Seq<
    GatewayLogEntry,
> {
    let list = newest_first(all, show_debug);
    if list.len() > clamped(limit) {
        list.take(clamped(limit) as int)
    } else {
        list
    }
}

/// At most so many of the entries that are shown, newest first. The switch
/// takes effect at once: it hides entries that were kept while it was on.
pub fn visible_entries(all: Vec<GatewayLogEntry>, show_debug: bool, limit: usize) -> (r: Vec<
    GatewayLogEntry,
>)
    ensures
        r@ == shown(all@, show_debug, limit),
{
    let most: usize = if limit < 1 {
        1
    } else if limit > CAP {
        CAP
    } else {
        limit
    };
    let ghost list = newest_first(all@, show_debug);
    let mut left: Vec<GatewayLogEntry> = all;
    let mut out: Vec<GatewayLogEntry> = Vec::new();
    assert(out@ + list =~= list);
    while left.len() > 0 && out.len() < most
        invariant
            out@ + newest_first(left@, show_debug) == list,
            out@.len() <= most,
            most == clamped(limit),
            list == newest_first(all@, show_debug),
        decreases left@.len(),
    {
        let ghost before = left@;
        match left.pop() {
            Some(e) => {
                assert(left@ =~= before.drop_last());
                assert(e == before.last());
                if show_debug || !same(e.route.as_str(), "captcha") {
                    let ghost o = out@;
                    out.push(e);
                    assert(o + (seq![e] + newest_first(left@, show_debug)) =~= out@ + newest_first(
                        left@,
                        show_debug,
                    ));
                }
            },
            None => {},
        }
    }
    proof {
        if left@.len() == 0 {
            assert(out@ + Seq::<GatewayLogEntry>::empty() =~= out@);
        } else {
            assert(list.take(most as int) =~= out@);
            if list.len() == most {
                assert(list =~= out@);
            }
        }
    }
    out
}

/// At most so many of the kept entries that are shown, newest first.
pub fn snapshot(ring: &LogRing, settings: &Settings, limit: usize) -> (r: Vec<GatewayLogEntry>)
    ensures
        r@ == shown(ring@, settings.gateway_debug_log == Some(true), limit),
{
    let mut all: Vec<GatewayLogEntry> = Vec::new();
    let mut i: usize = 0;
    while i < ring.entries.len()
        invariant
            i <= ring.entries@.len(),
            all@ == ring.entries@.take(i as int),
        decreases ring.entries@.len() - i,
    {
        all.push(ring.entries[i].clone());
        assert(all@ =~= ring.entries@.take(i + 1));
        i += 1;
    }
    assert(ring.entries@.take(ring.entries@.len() as int) =~= ring.entries@);
    visible_entries(all, debug_enabled(settings), limit)
}

// ---------------------------------------------------------------------------
// Lines of JSON
// ---------------------------------------------------------------------------

/// A text that may be missing as JSON.
pub open spec fn optional_json(s: Option<String>) -> Seq<char> {
    crate::json::rendered(crate::gateway::optional_text(s))
}

/// An entry as a JSON object, its members in the order of the fields.
pub open spec fn record(e: GatewayLogEntry) -> Seq<char> {
    "{\"ts\":"@ + crate::text::decimal_int(e.ts as int) + ",\"route\":"@ + crate::json::rendered(
        crate::json::Tree::Text(e.route@),
    ) + ",\"format\":"@ + crate::json::rendered(crate::json::Tree::Text(e.format@))
        + ",\"model\":"@ + crate::json::rendered(crate::json::Tree::Text(e.model@))
        + ",\"account\":"@ + optional_json(e.account) + ",\"provider\":"@ + optional_json(e.provider)
        + ",\"plan\":"@ + optional_json(e.plan) + ",\"status\":"@ + crate::text::decimal(
        e.status as nat,
    ) + ",\"ms\":"@ + crate::text::decimal(e.ms as nat) + ",\"attempts\":"@
        + crate::text::decimal(e.attempts as nat) + ",\"error\":"@ + optional_json(e.error) + "}"@
}

/// The entries as JSON objects, one on each line.
pub open spec fn jsonl(entries: Seq<GatewayLogEntry>) -> Seq<char>
    decreases entries.len(),
{
    if entries.len() == 0 {
        Seq::empty()
    } else {
        jsonl(entries.drop_last()) + record(entries.last()).push('\n')
    }
}

/// Whether a text has no line feed.
pub open spec fn unbroken(s: Seq<char>) -> bool {
    !s.contains('\n')
}

proof fn lemma_unbroken_concat(a: Seq<char>, b: Seq<char>)
    requires
        unbroken(a),
        unbroken(b),
    ensures
        unbroken(a + b),
{
    if (a + b).contains('\n') {
        let i = choose|i: int| 0 <= i < (a + b).len() && (a + b)[i] == '\n';
        if i < a.len() {
            assert(a[i] == '\n');
        } else {
            assert(b[i - a.len()] == '\n');
        }
    }
}

proof fn lemma_decimal_unbroken(n: nat)
    ensures
        unbroken(crate::text::decimal(n)),
    decreases n,
{
    if n >= 10 {
        lemma_decimal_unbroken(n / 10);
        lemma_unbroken_concat(
            crate::text::decimal(n / 10),
            seq![crate::text::digit((n % 10) as int)],
        );
        assert(crate::text::decimal(n) =~= crate::text::decimal(n / 10) + seq![
            crate::text::digit((n % 10) as int),
        ]);
    }
}

/// Adds a piece without line feeds to a text without line feeds.
fn add_piece(out: &mut String, piece: &str)
    requires
        unbroken(old(out)@),
        unbroken(piece@),
    ensures
        final(out)@ == old(out)@ + piece@,
        unbroken(final(out)@),
{
    proof {
        lemma_unbroken_concat(out@, piece@);
    }
    out.append(piece);
}

/// A text that may be missing as JSON.
fn render_optional(s: &Option<String>) -> (r: String)
    ensures
        r@ == optional_json(*s),
        unbroken(r@),
{
    crate::translate::make_text_or_null(as_text(s)).render()
}

/// A number in decimal.
fn render_count(n: u64) -> (r: String)
    ensures
        r@ == crate::text::decimal(n as nat),
        unbroken(r@),
{
    proof {
        lemma_decimal_unbroken(n as nat);
    }
    decimal_of(n as u128)
}

/// An entry as a JSON object on one line.
#[verifier::rlimit(40)]
pub fn render_record(e: &GatewayLogEntry) -> (r: String)
    ensures
        r@ == record(*e),
        unbroken(r@),
        r@.len() > 0 && r@.last() == '}',
{
    proof {
        reveal_strlit("{\"ts\":");
        reveal_strlit(",\"route\":");
        reveal_strlit(",\"format\":");
        reveal_strlit(",\"model\":");
        reveal_strlit(",\"account\":");
        reveal_strlit(",\"provider\":");
        reveal_strlit(",\"plan\":");
        reveal_strlit(",\"status\":");
        reveal_strlit(",\"ms\":");
        reveal_strlit(",\"attempts\":");
        reveal_strlit(",\"error\":");
        reveal_strlit("}");
        reveal_strlit("-");
        lemma_decimal_unbroken(e.ts as nat);
        lemma_decimal_unbroken((-e.ts) as nat);
        lemma_unbroken_concat(seq!['-'], crate::text::decimal((-e.ts) as nat));
    }
    let ts = decimal_of_signed(e.ts);
    let mut out: String = String::new();
    assert(out@ =~= Seq::<char>::empty());
    add_piece(&mut out, "{\"ts\":");
    add_piece(&mut out, ts.as_str());
    add_piece(&mut out, ",\"route\":");
    add_piece(&mut out, Json::text(e.route.as_str()).render().as_str());
    add_piece(&mut out, ",\"format\":");
    add_piece(&mut out, Json::text(e.format.as_str()).render().as_str());
    add_piece(&mut out, ",\"model\":");
    add_piece(&mut out, Json::text(e.model.as_str()).render().as_str());
    add_piece(&mut out, ",\"account\":");
    add_piece(&mut out, render_optional(&e.account).as_str());
    add_piece(&mut out, ",\"provider\":");
    add_piece(&mut out, render_optional(&e.provider).as_str());
    add_piece(&mut out, ",\"plan\":");
    add_piece(&mut out, render_optional(&e.plan).as_str());
    add_piece(&mut out, ",\"status\":");
    add_piece(&mut out, render_count(e.status as u64).as_str());
    add_piece(&mut out, ",\"ms\":");
    add_piece(&mut out, render_count(e.ms).as_str());
    add_piece(&mut out, ",\"attempts\":");
    add_piece(&mut out, render_count(e.attempts as u64).as_str());
    add_piece(&mut out, ",\"error\":");
    add_piece(&mut out, render_optional(&e.error).as_str());
    add_piece(&mut out, "}");
    assert(Seq::<char>::empty() + "{\"ts\":"@ =~= "{\"ts\":"@);
    out
}

/// The entries as JSON objects, one on each line.
pub fn to_jsonl(entries: &Vec<GatewayLogEntry>) -> (r: String)
    ensures
        r@ == jsonl(entries@),
        crate::text::lines(r@) == entries@.map_values(|e: GatewayLogEntry| record(e)),
{
    let ghost records = entries@.map_values(|e: GatewayLogEntry| record(e));
    let mut out: String = String::new();
    let mut i: usize = 0;
    assert(out@ =~= Seq::<char>::empty());
    assert(crate::text::lines(out@) =~= records.take(0));
    while i < entries.len()
        invariant
            i <= entries@.len(),
            records == entries@.map_values(|e: GatewayLogEntry| record(e)),
            out@ == jsonl(entries@.take(i as int)),
            out@.len() > 0 ==> out@.last() == '\n',
            crate::text::lines(out@) == records.take(i as int),
        decreases entries@.len() - i,
    {
        let ghost before = out@;
        let line = render_record(&entries[i]);
        assert(entries@.take(i + 1).drop_last() =~= entries@.take(i as int));
        proof {
            crate::text::lemma_lines_push(before, line@);
            assert(records.take(i + 1) =~= records.take(i as int).push(line@));
        }
        out.append(line.as_str());
        out.push('\n');
        assert(out@ =~= before + line@.push('\n'));
        i += 1;
    }
    assert(entries@.take(entries@.len() as int) =~= entries@);
    assert(records.take(entries@.len() as int) =~= records);
    out
}

// ---------------------------------------------------------------------------
// Tables
// ---------------------------------------------------------------------------

/// The text with each quotation mark twice.
pub open spec fn doubled(s: Seq<char>) -> Seq<char>
    decreases s.len(),
{
    if s.len() == 0 {
        Seq::empty()
    } else if s.last() == '"' {
        doubled(s.drop_last()).push('"').push('"')
    } else {
        doubled(s.drop_last()).push(s.last())
    }
}

/// Whether a field must stand in quotation marks.
pub open spec fn needs_quotes(s: Seq<char>) -> bool {
    s.contains(',') || s.contains('"') || s.contains('\n') || s.contains('\r')
}

/// A field of a table: in quotation marks, and those within twice, where it
/// holds a comma, a quotation mark or a line break.
pub open spec fn field(s: Seq<char>) -> Seq<char> {
    if needs_quotes(s) {
        "\""@ + doubled(s) + "\""@
    } else {
        s
    }
}

/// Whether a text holds a character.
fn holds(chars: &Vec<char>, c: char) -> (r: bool)
    ensures
        r == chars@.contains(c),
{
    let mut i: usize = 0;
    while i < chars.len()
        invariant
            i <= chars@.len(),
            forall|k: int| 0 <= k < i ==> #[trigger] chars@[k] != c,
        decreases chars@.len() - i,
    {
        if chars[i] == c {
            return true;
        }
        i += 1;
    }
    false
}

/// A field of a table.
pub fn csv_field(v: &str) -> (r: String)
    ensures
        r@ == field(v@),
{
    let chars: Vec<char> = chars_of(v);
    if !(holds(&chars, ',') || holds(&chars, '"') || holds(&chars, '\n') || holds(&chars, '\r')) {
        return v.to_owned();
    }
    let mut inner: Vec<char> = Vec::new();
    let mut i: usize = 0;
    assert(inner@ =~= doubled(chars@.take(0)));
    while i < chars.len()
        invariant
            i <= chars@.len(),
            inner@ == doubled(chars@.take(i as int)),
        decreases chars@.len() - i,
    {
        assert(chars@.take(i + 1).drop_last() =~= chars@.take(i as int));
        if chars[i] == '"' {
            inner.push('"');
            inner.push('"');
        } else {
            inner.push(chars[i]);
        }
        i += 1;
    }
    assert(chars@.take(chars@.len() as int) =~= chars@);
    let text = string_of(&inner);
    concat3("\"", text.as_str(), "\"")
}

/// The columns of an entry, the first of which tells its time in words.
pub open spec fn columns(e: GatewayLogEntry, time: Seq<char>) -> Seq<Seq<char>> {
    seq![
        field(time),
        field(crate::text::decimal_int(e.ts as int)),
        field(e.route@),
        field(e.format@),
        field(e.model@),
        field(crate::json::or_blank(crate::text::seen_string(e.account))),
        field(crate::json::or_blank(crate::text::seen_string(e.provider))),
        field(crate::json::or_blank(crate::text::seen_string(e.plan))),
        field(crate::text::decimal(e.status as nat)),
        field(crate::text::decimal(e.ms as nat)),
        field(crate::text::decimal(e.attempts as nat)),
        field(crate::json::or_blank(crate::text::seen_string(e.error))),
    ]
}

/// A row of the table.
pub open spec fn row_text(e: GatewayLogEntry, time: Seq<char>) -> Seq<char> {
    crate::text::join(columns(e, time), ","@).push('\n')
}

/// The names of the columns.
pub open spec fn header_row() -> Seq<char> {
    "time,ts,route,format,model,account,provider,plan,status,ms,attempts,error"@.push('\n')
}

/// The table: the names of the columns, and a row for each entry.
pub open spec fn table(entries: Seq<GatewayLogEntry>, times: Seq<Seq<char>>) -> Seq<char>
    decreases entries.len(),
{
    if entries.len() == 0 {
        header_row()
    } else {
        table(entries.drop_last(), times.drop_last()) + row_text(entries.last(), times.last())
    }
}

/// Whether a text can stand for a time: it is written out, or left empty where
/// the time cannot be held. Times up to the year 9999 can.
pub open spec fn time_fits(ts: i64, time: Seq<char>) -> bool {
    crate::clock::stamp_like(time) || (time.len() == 0 && !(0 <= ts <= LAST_MILLI))
}

/// Whether texts can stand for the times of entries.
pub open spec fn timed(entries: Seq<GatewayLogEntry>, times: Seq<Seq<char>>) -> bool {
    times.len() == entries.len() && forall|i: int|
        0 <= i < times.len() ==> time_fits(entries[i].ts, #[trigger] times[i])
}

/// The last millisecond of the year 9999.
pub const LAST_MILLI: i64 = 253_402_300_799_999;

/// `chrono::DateTime::from_timestamp_millis` takes any time that it can hold,
/// those of the years up to 9999 among them, and `format` writes it out in the
/// machine's time zone with digits, signs and what separates them. Which zone
/// that is depends on the machine.
#[verifier::external_body]
fn local_time(ts: i64) -> (r: Option<String>)
    ensures
        0 <= ts <= LAST_MILLI ==> r is Some,
        r matches Some(time) ==> crate::clock::stamp_like(time@),
{
    chrono::DateTime::from_timestamp_millis(ts).map(
        |d| d.with_timezone(&chrono::Local).format("%Y-%m-%d %H:%M:%S%.3f").to_string(),
    )
}

/// A row of the table, with its time in the given words.
pub fn csv_row(e: &GatewayLogEntry, time: &str) -> (r: String)
    ensures
        r@ == row_text(*e, time@),
{
    let account = crate::json::text_or_blank(as_text(&e.account));
    let provider = crate::json::text_or_blank(as_text(&e.provider));
    let plan = crate::json::text_or_blank(as_text(&e.plan));
    let error = crate::json::text_or_blank(as_text(&e.error));
    let cols: Vec<String> = vec![
        csv_field(time),
        csv_field(decimal_of_signed(e.ts).as_str()),
        csv_field(e.route.as_str()),
        csv_field(e.format.as_str()),
        csv_field(e.model.as_str()),
        csv_field(account.as_str()),
        csv_field(provider.as_str()),
        csv_field(plan.as_str()),
        csv_field(decimal_of(e.status as u128).as_str()),
        csv_field(decimal_of(e.ms as u128).as_str()),
        csv_field(decimal_of(e.attempts as u128).as_str()),
        csv_field(error.as_str()),
    ];
    assert(crate::text::views(cols@) =~= columns(*e, time@));
    let mut out = crate::text::joined(&cols, ",");
    out.push('\n');
    out
}

/// The table of the entries, for spreadsheets.
pub fn to_csv(entries: &Vec<GatewayLogEntry>) -> (r: String)
    ensures
        exists|times: Seq<Seq<char>>|
            timed(entries@, times) && r@ == #[trigger] table(entries@, times),
{
    let mut out: String =
        "time,ts,route,format,model,account,provider,plan,status,ms,attempts,error".to_owned();
    out.push('\n');
    let ghost mut times: Seq<Seq<char>> = Seq::empty();
    let mut i: usize = 0;
    while i < entries.len()
        invariant
            i <= entries@.len(),
            timed(entries@.take(i as int), times),
            out@ == table(entries@.take(i as int), times),
        decreases entries@.len() - i,
    {
        let time = match local_time(entries[i].ts) {
            Some(time) => time,
            None => String::new(),
        };
        let row = csv_row(&entries[i], time.as_str());
        out.append(row.as_str());
        proof {
            let before = times;
            times = times.push(time@);
            assert(times.drop_last() =~= before);
            assert(entries@.take(i + 1).drop_last() =~= entries@.take(i as int));
            assert forall|k: int| 0 <= k < times.len() implies time_fits(
                entries@.take(i + 1)[k].ts,
                #[trigger] times[k],
            ) by {
                if k < before.len() {
                    assert(times[k] == before[k]);
                    assert(entries@.take(i + 1)[k] == entries@.take(i as int)[k]);
                }
            }
        }
        i += 1;
    }
    assert(entries@.take(entries@.len() as int) =~= entries@);
    out
}

/// Whether a log file of a given size is set aside before the next entry.
pub fn is_full(bytes: u64) -> (r: bool)
    ensures
        r == (bytes > FILE_MAX_BYTES),
{
    bytes > FILE_MAX_BYTES
}

// ---------------------------------------------------------------------------
// Laws
// ---------------------------------------------------------------------------

/// The ring never outgrows its size, the newest entry is always the last, and
/// before it stand the latest of the others.
pub proof fn law_ring_is_bounded(entries: Seq<GatewayLogEntry>, entry: GatewayLogEntry)
    requires
        entries.len() <= CAP,
    ensures
        pushed(entries, entry).len() <= CAP,
        pushed(entries, entry).last() == entry,
        pushed(entries, entry).drop_last().is_suffix_of(entries),
{
    assert(pushed(entries, entry).drop_last() =~= entries.skip(
        entries.len() + 1 - pushed(entries, entry).len(),
    ));
}

proof fn lemma_newest_first(all: Seq<GatewayLogEntry>, show_debug: bool)
    ensures
        forall|i: int|
            0 <= i < newest_first(all, show_debug).len() ==> visible(
                #[trigger] newest_first(all, show_debug)[i],
                show_debug,
            ) && all.contains(newest_first(all, show_debug)[i]),
    decreases all.len(),
{
    if all.len() > 0 {
        let shorter = all.drop_last();
        lemma_newest_first(shorter, show_debug);
        let rest = newest_first(shorter, show_debug);
        let list = newest_first(all, show_debug);
        assert forall|i: int| 0 <= i < list.len() implies visible(#[trigger] list[i], show_debug)
            && all.contains(list[i]) by {
            let e = list[i];
            if visible(all.last(), show_debug) && i == 0 {
                assert(all[all.len() - 1] == e);
            } else {
                let j = if visible(all.last(), show_debug) {
                    i - 1
                } else {
                    i
                };
                assert(e == rest[j]);
                let k = choose|k: int| 0 <= k < shorter.len() && shorter[k] == rest[j];
                assert(all[k] == e);
            }
        }
    }
}

/// What is shown comes from what is kept, is never more than was asked for, and
/// holds nothing of challenges unless that is asked for.
pub proof fn law_only_visible_entries_are_shown(
    all: Seq<GatewayLogEntry>,
    show_debug: bool,
    limit: usize,
    i: int,
)
    requires
        0 <= i < shown(all, show_debug, limit).len(),
    ensures
        shown(all, show_debug, limit).len() <= clamped(limit),
        all.contains(shown(all, show_debug, limit)[i]),
        !show_debug ==> shown(all, show_debug, limit)[i].route@ != "captcha"@,
{
    lemma_newest_first(all, show_debug);
    assert(shown(all, show_debug, limit)[i] == newest_first(all, show_debug)[i]);
}

/// The text with every pair of quotation marks reduced to one.
pub open spec fn halved(s: Seq<char>) -> Seq<char>
    decreases s.len(),
{
    if s.len() == 0 {
        Seq::empty()
    } else if s.len() > 1 && s.last() == '"' && s[s.len() - 2] == '"' {
        halved(s.drop_last().drop_last()).push('"')
    } else {
        halved(s.drop_last()).push(s.last())
    }
}

/// What a reader of tables takes a field to mean.
pub open spec fn read_field(s: Seq<char>) -> Seq<char> {
    if s.len() >= 2 && s.first() == '"' && s.last() == '"' {
        halved(s.subrange(1, s.len() - 1))
    } else {
        s
    }
}

proof fn lemma_halved_doubled(s: Seq<char>)
    ensures
        halved(doubled(s)) == s,
    decreases s.len(),
{
    if s.len() > 0 {
        let shorter = s.drop_last();
        lemma_halved_doubled(shorter);
        let d = doubled(shorter);
        if s.last() == '"' {
            let both = d.push('"').push('"');
            assert(both.drop_last().drop_last() =~= d);
            assert(halved(both) =~= s);
        } else {
            assert(d.push(s.last()).drop_last() =~= d);
            assert(halved(d.push(s.last())) =~= s);
        }
    } else {
        assert(halved(doubled(s)) =~= s);
    }
}

/// A reader of the table gets back what was written, whatever it holds.
pub proof fn law_fields_read_back(s: Seq<char>)
    ensures
        read_field(field(s)) == s,
{
    reveal_strlit("\"");
    if needs_quotes(s) {
        let f = field(s);
        assert(f.subrange(1, f.len() - 1) =~= doubled(s));
        lemma_halved_doubled(s);
    } else {
        if s.len() >= 2 && s.first() == '"' {
            assert(s.contains(s[0]));
        }
    }
}

/// What is seen of an entry is what its fields hold.
pub proof fn law_entries_tell_their_fields(e: GatewayLogEntry)
    ensures
        e@.ts == e.ts,
        e@.route == e.route@,
        e@.format == e.format@,
        e@.model == e.model@,
        e.account is Some ==> e@.account == Some(e.account->0@),
        e.account is None ==> e@.account is None,
        e.provider is Some ==> e@.provider == Some(e.provider->0@),
        e.provider is None ==> e@.provider is None,
        e.plan is Some ==> e@.plan == Some(e.plan->0@),
        e.plan is None ==> e@.plan is None,
        e@.status == e.status,
        e@.ms == e.ms,
        e@.attempts == e.attempts,
        e.error is Some ==> e@.error == Some(e.error->0@),
        e.error is None ==> e@.error is None,
{
}

/// An entry comes last; the others stay in order, but for the oldest where 500 are
/// there already.
pub proof fn law_only_the_oldest_entry_goes(
    entries: Seq<GatewayLogEntry>,
    entry: GatewayLogEntry,
)
    ensures
        entries.len() < 500 ==> pushed(entries, entry) == entries + seq![entry],
        entries.len() >= 500 ==> pushed(entries, entry) == entries.skip(1) + seq![entry],
{
    if entries.len() >= 500 {
        assert(entries.drop_first() =~= entries.skip(1));
        assert(pushed(entries, entry) =~= entries.skip(1) + seq![entry]);
    } else {
        assert(pushed(entries, entry) =~= entries + seq![entry]);
    }
}

/// The entries are listed from the last to the first: all of them where debugging
/// is shown, and otherwise all but those of challenges.
pub proof fn law_entries_are_listed_from_the_last(all: Seq<GatewayLogEntry>, show_debug: bool)
    ensures
        newest_first(all, show_debug) == all.filter(
            |e: GatewayLogEntry| show_debug || e.route@ != "captcha"@,
        ).reverse(),
    decreases all.len(),
{
    reveal(Seq::filter);
    let keep = |e: GatewayLogEntry| show_debug || e.route@ != "captcha"@;
    if all.len() > 0 {
        law_entries_are_listed_from_the_last(all.drop_last(), show_debug);
        let before = all.drop_last().filter(keep);
        if keep(all.last()) {
            assert(all.filter(keep) == before.push(all.last()));
            assert(before.push(all.last()).reverse() =~= seq![all.last()] + before.reverse());
        }
    } else {
        assert(newest_first(all, show_debug) =~= all.filter(keep).reverse());
    }
}

/// As many entries are shown as are asked for: one at least, 500 at most, and no
/// more than there are.
pub proof fn law_as_many_are_shown_as_asked_for(
    all: Seq<GatewayLogEntry>,
    show_debug: bool,
    limit: usize,
    i: int,
)
    ensures
        ({
            let list = newest_first(all, show_debug);
            let count: int = if limit == 0 {
                1
            } else if limit > 500 {
                500
            } else {
                limit as int
            };
            let out = shown(all, show_debug, limit);
            &&& list.len() <= count ==> out == list
            &&& list.len() > count ==> out.len() == count
            &&& 0 <= i < out.len() ==> out[i] == list[i]
        }),
{
}

/// A record is an object with a member for each field of its entry, in order: a
/// text quoted, a number in digits, and null for what is missing.
pub proof fn law_records_tell_their_entry(e: GatewayLogEntry)
    ensures
        ({
            let quoted = |s: Option<String>|
                crate::json::rendered(
                    match s {
                        Some(s) => crate::json::Tree::Text(s@),
                        None => crate::json::Tree::Null,
                    },
                );
            record(e) == "{\"ts\":"@ + crate::text::decimal_int(e.ts as int) + ",\"route\":"@
                + quoted(Some(e.route)) + ",\"format\":"@ + quoted(Some(e.format))
                + ",\"model\":"@ + quoted(Some(e.model)) + ",\"account\":"@ + quoted(e.account)
                + ",\"provider\":"@ + quoted(e.provider) + ",\"plan\":"@ + quoted(e.plan)
                + ",\"status\":"@ + crate::text::decimal(e.status as nat) + ",\"ms\":"@
                + crate::text::decimal(e.ms as nat) + ",\"attempts\":"@ + crate::text::decimal(
                e.attempts as nat,
            ) + ",\"error\":"@ + quoted(e.error) + "}"@
        }),
{
}

/// Records stand below each other, each ended by a line feed.
pub proof fn law_records_stand_below_each_other(
    entries: Seq<GatewayLogEntry>,
    entry: GatewayLogEntry,
)
    ensures
        jsonl(Seq::empty()).len() == 0,
        jsonl(entries.push(entry)) == jsonl(entries) + record(entry) + seq!['\n'],
{
    assert(entries.push(entry).drop_last() =~= entries);
    assert(jsonl(entries.push(entry)) =~= jsonl(entries) + record(entry) + seq!['\n']);
}

/// A field is written as it is, unless it holds a comma, a quotation mark or an
/// end of line: then it is quoted, with each quotation mark written twice.
pub proof fn law_fields_are_quoted_where_needed(s: Seq<char>)
    ensures
        !s.contains(',') && !s.contains('"') && !s.contains('\n') && !s.contains('\r') ==> field(s)
            == s,
        s.contains(',') || s.contains('"') || s.contains('\n') || s.contains('\r') ==> field(s)
            == seq!['"'] + doubled(s) + seq!['"'],
{
    reveal_strlit("\"");
    assert("\""@ =~= seq!['"']);
}

/// Quotation marks are written twice, and everything else once, in order.
pub proof fn law_quotation_marks_are_doubled(s: Seq<char>, c: char)
    ensures
        doubled(Seq::empty()).len() == 0,
        c != '"' ==> doubled(s.push(c)) == doubled(s).push(c),
        doubled(s.push('"')) == doubled(s).push('"').push('"'),
{
    assert(s.push(c).drop_last() =~= s);
    assert(s.push('"').drop_last() =~= s);
}

/// A row of the table has a field for each field of the entry, after its time, in
/// the order of the table's head, with commas between them.
pub proof fn law_rows_tell_their_entry(e: GatewayLogEntry, time: Seq<char>)
    ensures
        ({
            let c = columns(e, time);
            let shown_text = |s: Option<String>|
                match s {
                    Some(s) => s@,
                    None => Seq::<char>::empty(),
                };
            &&& c.len() == 12
            &&& c[0] == field(time)
            &&& c[1] == field(crate::text::decimal_int(e.ts as int))
            &&& c[2] == field(e.route@)
            &&& c[3] == field(e.format@)
            &&& c[4] == field(e.model@)
            &&& c[5] == field(shown_text(e.account))
            &&& c[6] == field(shown_text(e.provider))
            &&& c[7] == field(shown_text(e.plan))
            &&& c[8] == field(crate::text::decimal(e.status as nat))
            &&& c[9] == field(crate::text::decimal(e.ms as nat))
            &&& c[10] == field(crate::text::decimal(e.attempts as nat))
            &&& c[11] == field(shown_text(e.error))
            &&& row_text(e, time) == crate::text::join(c, ","@) + seq!['\n']
        }),
{
    assert(row_text(e, time) =~= crate::text::join(columns(e, time), ","@) + seq!['\n']);
}

/// A table is its head and below it a row for each entry with its time, in order.
pub proof fn law_tables_have_a_head_and_rows(
    entries: Seq<GatewayLogEntry>,
    times: Seq<Seq<char>>,
    entry: GatewayLogEntry,
    time: Seq<char>,
)
    ensures
        table(Seq::empty(), Seq::empty())
            == "time,ts,route,format,model,account,provider,plan,status,ms,attempts,error"@
            + seq!['\n'],
        table(entries.push(entry), times.push(time)) == table(entries, times) + row_text(
            entry,
            time,
        ),
{
    assert(entries.push(entry).drop_last() =~= entries);
    assert(times.push(time).drop_last() =~= times);
    assert(header_row()
        =~= "time,ts,route,format,model,account,provider,plan,status,ms,attempts,error"@
        + seq!['\n']);
}

/// Each entry of a table has a time that is written out; it may be blank only
/// where the entry's own lies before the epoch or after the year 9999.
pub proof fn law_rows_have_their_time(
    entries: Seq<GatewayLogEntry>,
    times: Seq<Seq<char>>,
    i: int,
)
    requires
        timed(entries, times),
        0 <= i < entries.len(),
    ensures
        times.len() == entries.len(),
        times[i].len() == 0 ==> entries[i].ts < 0 || entries[i].ts > 253_402_300_799_999,
        times[i].len() > 0 ==> crate::clock::stamp_like(times[i]),
        FILE_MAX_BYTES == 4_194_304,
{
    assert(time_fits(entries[i].ts, times[i]));
}

/// A record that is unbroken has no end of line in it.
pub proof fn law_unbroken_records_take_one_line(s: Seq<char>, i: int)
    ensures
        unbroken(s) && 0 <= i < s.len() ==> s[i] != '\n',
        !unbroken(s) ==> exists|k: int| 0 <= k < s.len() && #[trigger] s[k] == '\n',
{
}

} // verus!
