//! The requests that the results server answers.

use vstd::prelude::*;
use crate::{decimal, text};
use super::activity::ActivityState;
use super::mip::render_mip_xml;
use super::roc::render_roc_text;
use super::store::{Store, StoredPunch};
use super::{activity, mip, roc, store};

verus! {

/// The value of `key` among parameters: that of the first of this name.
pub open spec fn first_field(fields: Seq<Seq<char>>, key: Seq<char>) -> Option<Seq<char>>
    decreases fields.len(),
{
    if fields.len() == 0 {
        None
    } else if text::tail(fields[0], '=') is Some && text::head(fields[0], '=') == key {
        text::tail(fields[0], '=')
    } else {
        first_field(fields.skip(1), key)
    }
}

/// The value of a parameter of a request's address.
pub open spec fn param(url: Seq<char>, key: Seq<char>) -> Option<Seq<char>> {
    match text::tail(url, '?') {
        Some(query) => first_field(text::split(query, '&'), key),
        None => None,
    }
}

/// An optional text as a value.
pub open spec fn opt_text(o: Option<String>) -> Option<Seq<char>> {
    match o {
        Some(s) => Some(s@),
        None => None,
    }
}

/// Reads a parameter of a request's address.
pub fn query_param(url: &str, key: &str) -> (r: Option<String>)
    ensures
        opt_text(r) == param(url@, key@),
{
    let all = text::chars(url);
    let (_, query) = text::split_head(all.as_slice(), '?');
    let query = match query {
        Some(q) => q,
        None => return None,
    };
    let fields = text::split_all(query, '&');
    let ghost whole = text::split(query@, '&');
    assert(text::views(fields@) == whole);
    assert(whole.skip(0) =~= whole);
    let mut i: usize = 0;
    while i < fields.len()
        invariant
            text::tail(url@, '?') == Some(query@),
            whole == text::split(query@, '&'),
            text::views(fields@) == whole,
            i <= fields@.len(),
            first_field(whole.skip(i as int), key@) == first_field(whole, key@),
        decreases fields@.len() - i,
    {
        assert(whole.skip(i as int)[0] == fields@[i as int]@);
        assert(whole.skip(i as int).skip(1) =~= whole.skip(i + 1));
        let (name, value) = text::split_head(fields[i], '=');
        if let Some(v) = value {
            if text::same(name, key) {
                return Some(text::string_of(v));
            }
        }
        i += 1;
    }
    None
}

/// A header of a request.
#[derive(Debug)]
pub struct Header {
    pub field: String,
    pub value: String,
}

/// The value of the first header of a name, large and small letters taken for
/// the same.
pub open spec fn header(headers: Seq<Header>, name: Seq<char>) -> Option<Seq<char>>
    decreases headers.len(),
{
    if headers.len() == 0 {
        None
    } else if text::alike(headers[0].field@, name) {
        Some(headers[0].value@)
    } else {
        header(headers.skip(1), name)
    }
}

/// Reads a header.
pub fn header_value(headers: &Vec<Header>, name: &str) -> (r: Option<String>)
    ensures
        opt_text(r) == header(headers@, name@),
{
    let mut i: usize = 0;
    assert(headers@.skip(0) =~= headers@);
    while i < headers.len()
        invariant
            i <= headers@.len(),
            header(headers@.skip(i as int), name@) == header(headers@, name@),
        decreases headers@.len() - i,
    {
        assert(headers@.skip(i as int)[0] == headers@[i as int]);
        assert(headers@.skip(i as int).skip(1) =~= headers@.skip(i + 1));
        let field = text::chars(headers[i].field.as_str());
        if text::same_alike(field.as_slice(), name) {
            return Some(headers[i].value.clone());
        }
        i += 1;
    }
    None
}

/// A number, if there is one.
pub open spec fn number(s: Option<Seq<char>>) -> Option<i64> {
    match s {
        Some(t) => decimal::as_i64(t),
        None => None,
    }
}

/// Reads a number.
fn parse_number(s: Option<String>) -> (r: Option<i64>)
    ensures
        r == number(opt_text(s)),
{
    match s {
        Some(t) => {
            let all = text::chars(t.as_str());
            decimal::parse_i64(all.as_slice())
        },
        None => None,
    }
}

/// The number of the last punch that a client got: from the header, else from
/// the address, else 0.
pub open spec fn last_id(headers: Seq<Header>, url: Seq<char>) -> i64 {
    match number(header(headers, "LastId"@)) {
        Some(n) => n,
        None => match number(param(url, "lastid"@)) {
            Some(n) => n,
            None => 0i64,
        },
    }
}

/// Reads the number of the last punch that a client got.
pub fn last_id_from_request(headers: &Vec<Header>, url: &str) -> (r: i64)
    ensures
        r == last_id(headers@, url@),
{
    match parse_number(header_value(headers, "LastId")) {
        Some(n) => n,
        None => match parse_number(query_param(url, "lastid")) {
            Some(n) => n,
            None => 0,
        },
    }
}

/// The competition that a request of the XML format names.
pub fn competition_id_from_mip_request(headers: &Vec<Header>) -> (r: Option<String>)
    ensures
        opt_text(r) == header(headers@, "competition"@),
{
    header_value(headers, "competition")
}

/// The competition that a request of the line format names.
pub fn competition_id_from_roc_request(url: &str) -> (r: Option<String>)
    ensures
        opt_text(r) == param(url@, "unitId"@),
{
    query_param(url, "unitId")
}

/// Whether a request may be answered: no competition is expected, or it names
/// that one.
pub open spec fn admitted(expected: Option<Seq<char>>, actual: Option<Seq<char>>) -> bool {
    expected is None || expected == actual
}

/// Whether a request may be answered.
pub fn competition_id_ok(expected: &Option<String>, actual: Option<&str>) -> (r: bool)
    ensures
        r == admitted(
            opt_text(*expected),
            match actual {
                Some(a) => Some(a@),
                None => None,
            },
        ),
{
    match expected {
        None => true,
        Some(want) => match actual {
            Some(a) => {
                let all = text::chars(a);
                text::same(all.as_slice(), want.as_str())
            },
            None => false,
        },
    }
}

/// What kind of text an answer is.
#[derive(Debug, Clone, Copy, PartialEq, Eq, Structural)]
pub enum Kind {
    Plain,
    Xml,
    Html,
    Json,
}

/// An answer.
#[derive(Debug)]
pub struct Answer {
    pub status: u16,
    pub kind: Kind,
    pub body: String,
}

/// An answer as a value.
pub struct AnswerView {
    pub status: u16,
    pub kind: Kind,
    pub body: Seq<char>,
}

impl View for Answer {
    type V = AnswerView;

    open spec fn view(&self) -> AnswerView {
        AnswerView { status: self.status, kind: self.kind, body: self.body@ }
    }
}

/// A plain answer.
pub open spec fn words(status: u16, body: Seq<char>) -> AnswerView {
    AnswerView { status, kind: Kind::Plain, body }
}

/// A plain answer.
pub fn text_response(status: u16, body: &str) -> (r: Answer)
    ensures
        r@ == words(status, body@),
{
    Answer { status, kind: Kind::Plain, body: body.to_owned() }
}

/// An answer in XML.
pub fn xml_response(body: String) -> (r: Answer)
    ensures
        r@ == (AnswerView { status: 200, kind: Kind::Xml, body: body@ }),
{
    Answer { status: 200, kind: Kind::Xml, body }
}

/// How a request is made.
#[derive(Debug, Clone, Copy, PartialEq, Eq, Structural)]
pub enum Method {
    Get,
    Post,
    Other,
}

/// What is asked for.
#[derive(Debug, Clone, Copy, PartialEq, Eq, Structural)]
pub enum Endpoint {
    Punches,
    Mip,
    Roc,
    Health,
    Dashboard,
    StatusJson,
    Unknown,
}

/// What a request asks for.
pub open spec fn asked(method: Method, url: Seq<char>) -> Endpoint {
    let path = text::head(url, '?');
    if method == Method::Post && path == "/punches"@ {
        Endpoint::Punches
    } else if method == Method::Get && path == "/mip"@ {
        Endpoint::Mip
    } else if method == Method::Get && path == "/roc"@ {
        Endpoint::Roc
    } else if method == Method::Get && path == "/health"@ {
        Endpoint::Health
    } else if method == Method::Get && path == "/"@ {
        Endpoint::Dashboard
    } else if method == Method::Get && path == "/status.json"@ {
        Endpoint::StatusJson
    } else {
        Endpoint::Unknown
    }
}

/// Reads what a request asks for.
pub fn route(method: Method, url: &str) -> (r: Endpoint)
    ensures
        r == asked(method, url@),
{
    let all = text::chars(url);
    let (path, _) = text::split_head(all.as_slice(), '?');
    if method == Method::Post && text::same(path, "/punches") {
        return Endpoint::Punches;
    }
    if method != Method::Get {
        return Endpoint::Unknown;
    }
    if text::same(path, "/mip") {
        Endpoint::Mip
    } else if text::same(path, "/roc") {
        Endpoint::Roc
    } else if text::same(path, "/health") {
        Endpoint::Health
    } else if text::same(path, "/") {
        Endpoint::Dashboard
    } else if text::same(path, "/status.json") {
        Endpoint::StatusJson
    } else {
        Endpoint::Unknown
    }
}

/// A punch that a daemon hands over.
#[derive(Debug)]
pub struct PunchPush {
    pub card_id: u32,
    pub station: u8,
    pub time_s: u32,
    pub source: String,
    pub competition_id: String,
}

/// The log line of a recorded punch.
pub open spec fn punch_line(id: i64, p: PunchPush) -> Seq<char> {
    "PUNCH id="@ + decimal::dec_signed(id as int) + " card="@ + decimal::dec(p.card_id as nat)
        + " station="@ + decimal::dec(p.station as nat) + " source="@ + p.source@
}

/// Writes the log line of a recorded punch.
fn recorded_line(id: i64, p: &PunchPush) -> (r: String)
    ensures
        r@ == punch_line(id, *p),
{
    let mut out: String = String::new();
    out.push_str("PUNCH id=");
    assert(out@ =~= "PUNCH id="@);
    decimal::push_dec_signed(&mut out, id);
    out.push_str(" card=");
    decimal::push_dec(&mut out, p.card_id as u64);
    out.push_str(" station=");
    decimal::push_dec(&mut out, p.station as u64);
    out.push_str(" source=");
    out.push_str(p.source.as_str());
    out
}

/// Takes a punch that a daemon hands over; `None` stands for a body that is no
/// punch. A punch of another competition than the expected one is refused.
pub fn handle_punches(
    push: Option<PunchPush>,
    store: &mut Store,
    activity: &mut ActivityState,
    expected: &Option<String>,
) -> (r: Answer)
    requires
        old(store).wf(),
        old(activity).wf(),
        push matches Some(p) ==> old(activity).count(p.source@) < u64::MAX,
    ensures
        final(store).wf(),
        final(activity).wf(),
        push is None ==> r@ == words(400, "invalid json"@) && *final(store) == *old(store)
            && *final(activity) == *old(activity),
        push matches Some(p) ==> {
            let fits = admitted(opt_text(*expected), Some(p.competition_id@));
            let full = old(store).next_id == i64::MAX;
            &&& !fits ==> r@ == words(403, "wrong competition id"@) && *final(store) == *old(store)
                && *final(activity) == *old(activity)
            &&& fits && full ==> r@ == words(500, "internal error"@) && *final(store) == *old(store)
                && *final(activity) == *old(activity)
            &&& fits && !full ==> {
                &&& r@ == words(200, "ok"@)
                &&& final(store).table() == old(store).table().push(taken(old(store).next_id, p))
                &&& final(store).next_id == old(store).next_id + 1
                &&& final(activity).count(p.source@) == old(activity).count(p.source@) + 1
                &&& activity::only_seen(
                    old(activity).sources@,
                    final(activity).sources@,
                    p.source@,
                )
                &&& activity::lines(final(activity).log@) == activity::logged(
                    activity::lines(old(activity).log@),
                    punch_line(old(store).next_id, p),
                )
            }
        },
{
    let p = match push {
        Some(p) => p,
        None => return text_response(400, "invalid json"),
    };
    let actual: Option<&str> = Some(p.competition_id.as_str());
    if !competition_id_ok(expected, actual) {
        return text_response(403, "wrong competition id");
    }
    match store.record(
        p.card_id,
        p.station,
        p.time_s,
        p.source.as_str(),
        p.competition_id.as_str(),
    ) {
        Some(id) => {
            activity.record_source(p.source.as_str());
            let ghost counted = activity.sources@;
            activity.push_log(recorded_line(id, &p));
            assert(activity.sources@ == counted);
            text_response(200, "ok")
        },
        None => text_response(500, "internal error"),
    }
}

/// What `{:?}` writes for an optional text.
pub uninterp spec fn debug_text(s: Option<Seq<char>>) -> Seq<char>;

/// `format!` with `{:?}` of an optional text: its result depends on the text
/// alone.
#[verifier::external_body]
fn debug_of(s: &Option<String>) -> (r: String)
    ensures
        r@ == debug_text(opt_text(*s)),
{
    format!("{:?}", s)
}

/// The log line of a refused poll.
pub open spec fn refused_line(name: Seq<char>, actual: Option<Seq<char>>) -> Seq<char> {
    name + " poll rejected: competition id "@ + debug_text(actual)
}

/// Writes the log line of a refused poll.
fn refusal(name: &str, actual: &Option<String>) -> (r: String)
    ensures
        r@ == refused_line(name@, opt_text(*actual)),
{
    let mut out: String = String::new();
    out.push_str(name);
    assert(out@ =~= name@);
    out.push_str(" poll rejected: competition id ");
    out.push_str(debug_of(actual).as_str());
    out
}

/// The log line of an answered poll.
pub open spec fn polled_line(what: Seq<char>, last: i64, n: nat) -> Seq<char> {
    what + decimal::dec_signed(last as int) + " -> "@ + decimal::dec(n) + " punch(es)"@
}

/// Writes the log line of an answered poll.
fn poll_note(what: &str, last: i64, n: usize) -> (r: String)
    ensures
        r@ == polled_line(what@, last, n as nat),
{
    let mut out: String = String::new();
    out.push_str(what);
    assert(out@ =~= what@);
    decimal::push_dec_signed(&mut out, last);
    out.push_str(" -> ");
    decimal::push_dec(&mut out, n as u64);
    out.push_str(" punch(es)");
    out
}

/// The number of the last punch that a client has after an answer.
pub open spec fn cursor(ps: Seq<StoredPunch>, last: i64) -> i64 {
    if ps.len() > 0 {
        ps.last().id
    } else {
        last
    }
}

/// Answers a poll in XML: the punches since the last one that the client got,
/// of the expected competition where there is one.
pub fn handle_mip(
    headers: &Vec<Header>,
    url: &str,
    store: &Store,
    activity: &mut ActivityState,
    expected: &Option<String>,
) -> (r: Answer)
    requires
        old(activity).wf(),
        admitted(opt_text(*expected), header(headers@, "competition"@)) ==> mip::times_fit(
            store::newer(store.table(), last_id(headers@, url@), opt_text(*expected)),
        ),
    ensures
        final(activity).wf(),
        final(activity).sources == old(activity).sources,
        ({
            let actual = header(headers@, "competition"@);
            let last = last_id(headers@, url@);
            let ps = store::newer(store.table(), last, opt_text(*expected));
            let log = activity::lines(old(activity).log@);
            &&& !admitted(opt_text(*expected), actual) ==> r@ == words(403, "wrong competition id"@)
                && activity::lines(final(activity).log@) == activity::logged(
                log,
                refused_line("MIP"@, actual),
            )
            &&& admitted(opt_text(*expected), actual) ==> r@ == (AnswerView {
                status: 200,
                kind: Kind::Xml,
                body: mip::mip_xml(cursor(ps, last), ps),
            }) && activity::lines(final(activity).log@) == activity::logged(
                log,
                polled_line("MIP poll lastid="@, last, ps.len()),
            )
        }),
{
    let actual = competition_id_from_mip_request(headers);
    let named: Option<&str> = match &actual {
        Some(a) => Some(a.as_str()),
        None => None,
    };
    if !competition_id_ok(expected, named) {
        activity.push_log(refusal("MIP", &actual));
        return text_response(403, "wrong competition id");
    }
    let last: i64 = last_id_from_request(headers, url);
    let want: Option<&str> = match expected {
        Some(c) => Some(c.as_str()),
        None => None,
    };
    let punches = store.select(last, want);
    let n: usize = punches.len();
    let new_last: i64 = if n > 0 {
        punches[n - 1].id
    } else {
        last
    };
    activity.push_log(poll_note("MIP poll lastid=", last, n));
    xml_response(render_mip_xml(new_last, punches.as_slice()))
}

/// The number of the last punch that a client of the line format got.
pub open spec fn roc_last_id(url: Seq<char>) -> i64 {
    match number(param(url, "lastId"@)) {
        Some(n) => n,
        None => 0i64,
    }
}

/// Answers a poll in lines: the punches since the last one that the client got,
/// of the expected competition where there is one. The date is that of today.
pub fn handle_roc(
    url: &str,
    store: &Store,
    activity: &mut ActivityState,
    expected: &Option<String>,
    date: &str,
) -> (r: Answer)
    requires
        old(activity).wf(),
    ensures
        final(activity).wf(),
        final(activity).sources == old(activity).sources,
        ({
            let actual = param(url@, "unitId"@);
            let last = roc_last_id(url@);
            let ps = store::newer(store.table(), last, opt_text(*expected));
            let log = activity::lines(old(activity).log@);
            &&& !admitted(opt_text(*expected), actual) ==> r@ == words(403, "wrong competition id"@)
                && activity::lines(final(activity).log@) == activity::logged(
                log,
                refused_line("ROC"@, actual),
            )
            &&& admitted(opt_text(*expected), actual) ==> r@ == words(
                200,
                roc::roc_text(ps, date@),
            ) && activity::lines(final(activity).log@) == activity::logged(
                log,
                polled_line("ROC poll lastId="@, last, ps.len()),
            )
        }),
{
    let actual = competition_id_from_roc_request(url);
    let named: Option<&str> = match &actual {
        Some(a) => Some(a.as_str()),
        None => None,
    };
    if !competition_id_ok(expected, named) {
        activity.push_log(refusal("ROC", &actual));
        return text_response(403, "wrong competition id");
    }
    let last: i64 = match parse_number(query_param(url, "lastId")) {
        Some(v) => v,
        None => 0,
    };
    let want: Option<&str> = match expected {
        Some(c) => Some(c.as_str()),
        None => None,
    };
    let punches = store.select(last, want);
    activity.push_log(poll_note("ROC poll lastId=", last, punches.len()));
    let body = render_roc_text(punches.as_slice(), date);
    Answer { status: 200, kind: Kind::Plain, body }
}

/// Whether a punch stands in the table under a competition.
pub open spec fn stands_under(
    rows: Seq<store::RowView>,
    p: StoredPunch,
    competition: Seq<char>,
) -> bool {
    exists|i: int|
        0 <= i < rows.len() && (#[trigger] rows[i]).punch == p && rows[i].competition_id
            == competition
}

/// A client of one competition never sees a punch of another, whatever it asks
/// for.
pub proof fn law_no_punch_of_another_competition(
    rows: Seq<store::RowView>,
    last: i64,
    competition: Seq<char>,
)
    requires
        store::ascending(rows),
    ensures
        forall|k: int|
            0 <= k < store::newer(rows, last, Some(competition)).len() ==> stands_under(
                rows,
                #[trigger] store::newer(rows, last, Some(competition))[k],
                competition,
            ),
{
    store::law_newer(rows, last, Some(competition));
    assert forall|k: int|
        0 <= k < store::newer(rows, last, Some(competition)).len() implies stands_under(
        rows,
        #[trigger] store::newer(rows, last, Some(competition))[k],
        competition,
    ) by {
        let p = store::newer(rows, last, Some(competition))[k];
        let i = choose|i: int|
            0 <= i < rows.len() && store::wanted(#[trigger] rows[i], last, Some(competition))
                && rows[i].punch == p;
        assert(rows[i].punch == p && rows[i].competition_id == competition);
    }
}

/// The row of a punch that is taken under the number `id`.
pub open spec fn taken(id: i64, p: PunchPush) -> store::RowView {
    store::RowView {
        punch: StoredPunch { id, card_id: p.card_id, station: p.station, time_s: p.time_s },
        source: p.source@,
        competition_id: p.competition_id@,
    }
}

/// A punch that the server takes is the last that it gives to every client that
/// has not got it yet; what it gave before, it goes on giving.
pub proof fn law_taken_punch_is_given_out(
    rows: Seq<store::RowView>,
    p: PunchPush,
    id: i64,
    last: i64,
    expected: Option<Seq<char>>,
)
    requires
        admitted(expected, Some(p.competition_id@)),
        last < id,
    ensures
        store::newer(rows.push(taken(id, p)), last, expected) == store::newer(
            rows,
            last,
            expected,
        ).push(taken(id, p).punch),
{
    assert(rows.push(taken(id, p)).drop_last() =~= rows);
}

/// What the server keeps of a punch that it takes is what was handed over.
pub proof fn law_punch_is_kept_as_handed_over(id: i64, p: PunchPush)
    ensures
        taken(id, p).punch.id == id,
        taken(id, p).punch.card_id == p.card_id,
        taken(id, p).punch.station == p.station,
        taken(id, p).punch.time_s == p.time_s,
        taken(id, p).source == p.source@,
        taken(id, p).competition_id == p.competition_id@,
{
}

/// A client that polls again with the number that an answer told it gets what
/// came since, and nothing twice; one that got nothing keeps its number.
pub proof fn law_cursor_moves_with_the_answer(
    rows: Seq<store::RowView>,
    more: Seq<store::RowView>,
    last: i64,
    competition: Option<Seq<char>>,
)
    requires
        store::ascending(rows + more),
    ensures
        ({
            let first = store::newer(rows, last, competition);
            let second = store::newer(rows + more, cursor(first, last), competition);
            first + second == store::newer(rows + more, last, competition)
        }),
        cursor(Seq::empty(), last) == last,
{
    let first = store::newer(rows, last, competition);
    if first.len() > 0 {
        store::law_polling_gives_each_punch_once(rows, more, last, competition);
    } else {
        assert(first + store::newer(rows + more, last, competition) =~= store::newer(
            rows + more,
            last,
            competition,
        ));
    }
}

/// A request is admitted where no competition is expected, or where it names the
/// one that is; one that names none is not where one is expected.
pub proof fn law_only_the_expected_competition_is_admitted(
    expected: Option<Seq<char>>,
    actual: Option<Seq<char>>,
)
    ensures
        expected is None ==> admitted(expected, actual),
        expected is Some && actual is None ==> !admitted(expected, actual),
        expected matches Some(e) ==> (actual matches Some(a) ==> (admitted(expected, actual) <==> e
            == a)),
{
}

/// What is asked for depends on the path alone, whatever the query; punches are
/// only taken by a posting, and all else is only given to a reading.
pub proof fn law_query_does_not_change_the_endpoint(
    method: Method,
    path: Seq<char>,
    query: Seq<char>,
)
    requires
        !path.contains('?'),
    ensures
        asked(method, path.push('?') + query) == asked(method, path),
        asked(method, path) == Endpoint::Punches ==> method == Method::Post,
        asked(method, path) != Endpoint::Punches && asked(method, path) != Endpoint::Unknown
            ==> method == Method::Get,
        asked(Method::Post, "/punches"@) == Endpoint::Punches,
        asked(Method::Get, "/mip"@) == Endpoint::Mip,
        asked(Method::Get, "/roc"@) == Endpoint::Roc,
        asked(Method::Get, "/health"@) == Endpoint::Health,
{
    text::lemma_head_tail(path, '?', query);
    reveal_strlit("/punches");
    reveal_strlit("/mip");
    reveal_strlit("/roc");
    reveal_strlit("/health");
    text::lemma_head_tail("/punches"@, '?', Seq::empty());
    text::lemma_head_tail("/mip"@, '?', Seq::empty());
    text::lemma_head_tail("/roc"@, '?', Seq::empty());
    text::lemma_head_tail("/health"@, '?', Seq::empty());
    assert("/mip"@.len() != "/health"@.len());
    assert("/mip"@[1] != "/roc"@[1]);
}

/// The number that a client got last is that of its header, where that is one;
/// else that of its address; else none was, and it gets everything.
pub proof fn law_last_number_is_read(headers: Seq<Header>, url: Seq<char>, n: i64, m: i64)
    ensures
        header(headers, "LastId"@) == Some(decimal::dec_signed(n as int)) ==> last_id(headers, url)
            == n,
        header(headers, "LastId"@) is None && param(url, "lastid"@) == Some(
            decimal::dec_signed(m as int),
        ) ==> last_id(headers, url) == m,
        header(headers, "LastId"@) is None && param(url, "lastid"@) is None ==> last_id(
            headers,
            url,
        ) == 0,
        param(url, "lastId"@) == Some(decimal::dec_signed(m as int)) ==> roc_last_id(url) == m,
        param(url, "lastId"@) is None ==> roc_last_id(url) == 0,
{
    decimal::lemma_parse_dec_signed(n as int, i64::MIN as int, i64::MAX as int);
    decimal::lemma_parse_dec_signed(m as int, i64::MIN as int, i64::MAX as int);
}

/// The log line of a recorded punch has four fields behind a `=` each: the number
/// it got, the card, the station and where it came from.
pub proof fn law_recorded_line_fields(id: i64, p: PunchPush)
    ensures
        ({
            let s = punch_line(id, p);
            &&& text::tail(s, '=') matches Some(a)
            &&& text::head(a, ' ') == decimal::dec_signed(id as int)
            &&& text::tail(a, '=') matches Some(b)
            &&& decimal::says(text::head(b, ' '), p.card_id as int)
            &&& text::tail(b, '=') matches Some(c)
            &&& decimal::says(text::head(c, ' '), p.station as int)
            &&& text::tail(c, '=') == Some(p.source@)
        }),
{
    reveal_strlit("PUNCH id=");
    reveal_strlit(" card=");
    reveal_strlit(" station=");
    reveal_strlit(" source=");
    let i = decimal::dec_signed(id as int);
    let x = decimal::dec(p.card_id as nat);
    let y = decimal::dec(p.station as nat);
    decimal::lemma_dec(p.card_id as nat);
    decimal::lemma_dec(p.station as nat);
    decimal::lemma_dec_without(p.card_id as nat, ' ');
    decimal::lemma_dec_without(p.card_id as nat, '=');
    decimal::lemma_dec_without(p.station as nat, ' ');
    decimal::lemma_dec_without(p.station as nat, '=');
    lemma_signed_without(id as int, ' ');
    lemma_signed_without(id as int, '=');
    let word0 = seq!['P', 'U', 'N', 'C', 'H', ' ', 'i', 'd'];
    let word1 = seq!['c', 'a', 'r', 'd'];
    let word2 = seq!['s', 't', 'a', 't', 'i', 'o', 'n'];
    let word3 = seq!['s', 'o', 'u', 'r', 'c', 'e'];
    let c = y.push(' ') + (word3.push('=') + p.source@);
    let b = x.push(' ') + (word2.push('=') + c);
    let a = i.push(' ') + (word1.push('=') + b);
    let s = punch_line(id, p);
    assert(s =~= word0.push('=') + a);
    assert(!word0.contains('='));
    text::lemma_head_tail(word0, '=', a);
    text::lemma_head_tail(i, ' ', word1.push('=') + b);
    lemma_field(i, word1, b);
    text::lemma_head_tail(x, ' ', word2.push('=') + c);
    lemma_field(x, word2, c);
    text::lemma_head_tail(y, ' ', word3.push('=') + p.source@);
    lemma_field(y, word3, p.source@);
}

/// Behind a value, a blank and a word comes the next value.
proof fn lemma_field(value: Seq<char>, word: Seq<char>, rest: Seq<char>)
    requires
        !value.contains('='),
        !word.contains('='),
    ensures
        text::tail(value.push(' ') + (word.push('=') + rest), '=') == Some(rest),
{
    let front = value.push(' ') + word;
    assert forall|k: int| 0 <= k < front.len() implies front[k] != '=' by {
        if k < value.len() {
            assert(value.contains(value[k]));
        } else if k > value.len() {
            assert(word.contains(word[k - value.len() - 1]));
        }
    }
    assert(value.push(' ') + (word.push('=') + rest) =~= front.push('=') + rest);
    text::lemma_head_tail(front, '=', rest);
}

/// A number with a sign holds neither blanks nor other marks.
proof fn lemma_signed_without(n: int, c: char)
    requires
        c == ' ' || c == '=',
    ensures
        !decimal::dec_signed(n).contains(c),
{
    let m = if n < 0 {
        (-n) as nat
    } else {
        n as nat
    };
    decimal::lemma_dec_without(m, c);
    let d = decimal::dec(m);
    let s = decimal::dec_signed(n);
    assert forall|k: int| 0 <= k < s.len() implies s[k] != c by {
        if n < 0 {
            if k > 0 {
                assert(s[k] == d[k - 1]);
                assert(d.contains(d[k - 1]));
            }
        } else {
            assert(d.contains(d[k]));
        }
    }
}

} // verus!
