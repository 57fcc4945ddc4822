//! The results server's dashboard.

use vstd::prelude::*;
use crate::clock::secs_ago;
use crate::html::{html_escape, pill};
use crate::{clock, decimal, html};
use super::activity::{ActivityState, Source};

verus! {

/// The look of the dashboard.
pub const DASHBOARD_STYLE: &'static str = r#"<style>
:root {
  --bg: #f5f6f8; --card: #ffffff; --border: #e3e6eb;
  --text: #1a1d23; --dim: #6b7280;
  --accent: #2563eb; --good: #16a34a; --bad: #dc2626; --warn: #b45309;
  --good-bg: #dcfce7; --bad-bg: #fee2e2; --warn-bg: #fef3c7;
}
* { box-sizing: border-box; }
body {
  margin: 0; padding: 2.5rem 1.5rem 4rem; background: var(--bg); color: var(--text);
  font-family: -apple-system, BlinkMacSystemFont, "Segoe UI", Roboto, Helvetica, Arial, sans-serif;
  line-height: 1.5;
}
.wrap { max-width: 880px; margin: 0 auto; }
h1 { font-size: 1.5rem; margin: 0 0 .2rem; letter-spacing: -0.01em; }
.subtitle { color: var(--dim); font-size: .875rem; margin: 0 0 2rem; }
h2 {
  font-size: .78rem; text-transform: uppercase; letter-spacing: .06em;
  color: var(--dim); margin: 2rem 0 .6rem; font-weight: 600;
}
h2 .note { text-transform: none; letter-spacing: 0; font-weight: 400; }
.card {
  background: var(--card); border: 1px solid var(--border); border-radius: 10px;
  padding: 1rem 1.25rem; box-shadow: 0 1px 2px rgba(16, 24, 40, .04);
}
table { width: 100%; border-collapse: collapse; font-size: .88rem; }
th, td { text-align: left; padding: .5rem .6rem; border-bottom: 1px solid var(--border); }
th {
  font-size: .7rem; text-transform: uppercase; letter-spacing: .04em;
  color: var(--dim); font-weight: 600; white-space: nowrap;
}
tr:last-child td { border-bottom: none; }
td.mono, .mono { font-family: ui-monospace, SFMono-Regular, Menlo, Consolas, monospace; }
.pill {
  display: inline-block; padding: .15rem .55rem; border-radius: 999px;
  font-size: .76rem; font-weight: 600; white-space: nowrap;
}
.pill-good { background: var(--good-bg); color: var(--good); }
.pill-bad { background: var(--bad-bg); color: var(--bad); }
.pill-warn { background: var(--warn-bg); color: var(--warn); }
p.hint { color: var(--dim); font-size: .85rem; margin: 0 0 1rem; }
pre.log {
  background: #0b1020; color: #d7dde8; padding: 1rem; border-radius: 10px;
  font-size: .76rem; line-height: 1.6; overflow: auto; max-height: 440px; margin: 0;
  font-family: ui-monospace, SFMono-Regular, Menlo, Consolas, monospace;
}
</style>"#;

/// The page up to its style.
pub const PAGE_0: &'static str = r#"<!doctype html>
<html>
<head>
<meta charset="utf-8">
<meta name="viewport" content="width=device-width, initial-scale=1">
<meta http-equiv="refresh" content="10">
<title>roc-server status</title>
"#;

/// Up to the version.
pub const PAGE_1: &'static str = r#"
</head>
<body>
<div class="wrap">
<h1>roc-server</h1>
<p class="subtitle">MIP/ROC output server status — <span class="mono">"#;

/// Up to the state of the daemon.
pub const PAGE_2: &'static str = r#"</span></p>

<h2>Status</h2>
<div class="card">
<table>
<tr><th>lora-server</th><td>"#;

/// Up to the sources.
pub const PAGE_3: &'static str = r#"</td></tr>
</table>
</div>

<h2>Punch sources</h2>
<div class="card">
<p class="hint">"local"/"test" are lora-server's own SI reader / TESTPUNCH command; a
numeric source is a remote node's LoRa address.</p>
<table>
<tr><th>Source</th><th>Last seen</th><th>Punch count</th></tr>
"#;

/// Up to the log.
pub const PAGE_4: &'static str = r#"
</table>
</div>

<h2>Activity log <span class="note">(newest first, auto-refreshes)</span></h2>
<pre class="log">"#;

/// The end of the page.
pub const PAGE_5: &'static str = r#"</pre>
</div>
</body>
</html>"#;

/// A source on the dashboard.
#[derive(Debug)]
pub struct SourceRow {
    pub source: String,
    pub last_seen_secs_ago: Option<u64>,
    pub punch_count: u64,
}

/// A log line on the dashboard.
#[derive(Debug)]
pub struct LogLine {
    pub secs_ago: u64,
    pub line: String,
}

/// Everything on the dashboard.
#[derive(Debug)]
pub struct Dashboard {
    pub version: String,
    /// Whether the daemon answers, where it is asked.
    pub lora_reachable: Option<bool>,
    /// By name.
    pub sources: Vec<SourceRow>,
    /// Youngest first.
    pub log: Vec<LogLine>,
}

/// Whether a row shows a source at the time `now`.
pub open spec fn shows(row: SourceRow, s: Source, now: u64) -> bool {
    &&& row.source@ == s.name@
    &&& row.punch_count == s.status.punch_count
    &&& match s.status.last_seen {
        Some(t) => row.last_seen_secs_ago matches Some(secs) && secs == clock::age(now, t),
        None => row.last_seen_secs_ago is None,
    }
}

/// The sources as rows, in their order.
fn source_rows(state: &ActivityState, now: u64) -> (r: Vec<SourceRow>)
    ensures
        r@.len() == state.sources@.len(),
        forall|i: int| 0 <= i < r@.len() ==> shows(#[trigger] r@[i], state.sources@[i], now),
{
    let mut out: Vec<SourceRow> = Vec::new();
    let mut i: usize = 0;
    while i < state.sources.len()
        invariant
            i <= state.sources@.len(),
            out@.len() == i,
            forall|j: int| 0 <= j < out@.len() ==> shows(#[trigger] out@[j], state.sources@[j], now),
        decreases state.sources@.len() - i,
    {
        let s = &state.sources[i];
        let last_seen_secs_ago: Option<u64> = match s.status.last_seen {
            Some(t) => Some(secs_ago(now, t)),
            None => None,
        };
        out.push(
            SourceRow {
                source: s.name.clone(),
                last_seen_secs_ago,
                punch_count: s.status.punch_count,
            },
        );
        i += 1;
    }
    out
}

/// The log, youngest line first.
fn log_lines(state: &ActivityState, now: u64) -> (r: Vec<LogLine>)
    ensures
        r@.len() == state.log@.len(),
        forall|i: int|
            0 <= i < r@.len() ==> (#[trigger] r@[i]).line@ == state.log@[state.log@.len() - 1
                - i].line@ && r@[i].secs_ago == clock::age(
                now,
                state.log@[state.log@.len() - 1 - i].at,
            ),
{
    let mut out: Vec<LogLine> = Vec::new();
    let mut i: usize = state.log.len();
    while i > 0
        invariant
            i <= state.log@.len(),
            out@.len() == state.log@.len() - i,
            forall|j: int|
                0 <= j < out@.len() ==> (#[trigger] out@[j]).line@ == state.log@[state.log@.len()
                    - 1 - j].line@ && out@[j].secs_ago == clock::age(
                    now,
                    state.log@[state.log@.len() - 1 - j].at,
                ),
        decreases i,
    {
        i -= 1;
        let e = &state.log[i];
        out.push(LogLine { secs_ago: secs_ago(now, e.at), line: e.line.clone() });
    }
    out
}

/// What the dashboard shows at the time `now`, in nanoseconds of the wall clock.
pub fn build_dashboard(
    version: &str,
    state: &ActivityState,
    lora_reachable: Option<bool>,
    now: u64,
) -> (r: Dashboard)
    ensures
        r.version@ == version@,
        r.lora_reachable == lora_reachable,
        r.sources@.len() == state.sources@.len(),
        forall|i: int|
            0 <= i < r.sources@.len() ==> shows(#[trigger] r.sources@[i], state.sources@[i], now),
        r.log@.len() == state.log@.len(),
        forall|i: int|
            0 <= i < r.log@.len() ==> (#[trigger] r.log@[i]).line@ == state.log@[state.log@.len()
                - 1 - i].line@ && r.log@[i].secs_ago == clock::age(
                now,
                state.log@[state.log@.len() - 1 - i].at,
            ),
{
    let sources = source_rows(state, now);
    let log = log_lines(state, now);
    Dashboard { version: version.to_owned(), lora_reachable, sources, log }
}

/// A log line with its age.
pub open spec fn aged_line(l: LogLine) -> Seq<char> {
    "[-"@ + decimal::dec(l.secs_ago as nat) + "s] "@ + l.line@
}

/// Writes a log line with its age.
pub fn aged(l: &LogLine) -> (r: String)
    ensures
        r@ == aged_line(*l),
{
    let mut out: String = String::new();
    out.push_str("[-");
    assert(out@ =~= "[-"@);
    decimal::push_dec(&mut out, l.secs_ago);
    out.push_str("s] ");
    out.push_str(l.line.as_str());
    out
}

/// An age, or a dash.
pub open spec fn age_text(a: Option<u64>) -> Seq<char> {
    match a {
        Some(s) => decimal::dec(s as nat) + "s ago"@,
        None => "-"@,
    }
}

/// A source as a row of the table.
pub open spec fn row_html(s: SourceRow) -> Seq<char> {
    "<tr><td class=\"mono\">"@ + html::escaped(s.source@) + "</td><td>"@ + age_text(
        s.last_seen_secs_ago,
    ) + "</td><td class=\"mono\">"@ + decimal::dec(s.punch_count as nat) + "</td></tr>\n"@
}

/// Sources as rows of the table.
pub open spec fn rows_html(sources: Seq<SourceRow>) -> Seq<char>
    decreases sources.len(),
{
    if sources.len() == 0 {
        Seq::empty()
    } else {
        rows_html(sources.drop_last()) + row_html(sources.last())
    }
}

/// The table's rows, or a row that says that there are none.
pub open spec fn table_html(sources: Seq<SourceRow>) -> Seq<char> {
    if sources.len() == 0 {
        "<tr><td colspan=\"3\">no punches received yet</td></tr>\n"@
    } else {
        rows_html(sources)
    }
}

/// Log lines.
pub open spec fn lines_html(log: Seq<LogLine>) -> Seq<char>
    decreases log.len(),
{
    if log.len() == 0 {
        Seq::empty()
    } else {
        lines_html(log.drop_last()) + html::escaped(aged_line(log.last())).push('\n')
    }
}

/// The log, or a word that says that it is empty.
pub open spec fn log_html(log: Seq<LogLine>) -> Seq<char> {
    if log.len() == 0 {
        "(empty)"@
    } else {
        lines_html(log)
    }
}

/// The state of the daemon.
pub open spec fn lora_html(reachable: Option<bool>) -> Seq<char> {
    match reachable {
        Some(true) => html::pill_html(true, "reachable"@),
        Some(false) => html::pill_html(false, "unreachable"@),
        None => "<span class=\"pill pill-warn\">not checked (--lora-health-url unset)</span>"@,
    }
}

/// The whole page.
pub open spec fn page_html(v: Dashboard) -> Seq<char> {
    PAGE_0@ + DASHBOARD_STYLE@ + PAGE_1@ + html::escaped(v.version@) + PAGE_2@ + lora_html(
        v.lora_reachable,
    ) + PAGE_3@ + table_html(v.sources@) + PAGE_4@ + log_html(v.log@) + PAGE_5@
}

/// A source as a row of the table.
fn source_html(s: &SourceRow) -> (r: String)
    ensures
        r@ == row_html(*s),
{
    let mut out: String = String::new();
    out.push_str("<tr><td class=\"mono\">");
    assert(out@ =~= "<tr><td class=\"mono\">"@);
    out.push_str(html_escape(s.source.as_str()).as_str());
    out.push_str("</td><td>");
    match s.last_seen_secs_ago {
        Some(a) => {
            let ghost before = out@;
            decimal::push_dec(&mut out, a);
            out.push_str("s ago");
            assert(out@ =~= before + age_text(Some(a)));
        },
        None => out.push_str("-"),
    }
    out.push_str("</td><td class=\"mono\">");
    decimal::push_dec(&mut out, s.punch_count);
    out.push_str("</td></tr>\n");
    out
}

/// Appends the table's rows.
fn push_table(out: &mut String, sources: &Vec<SourceRow>)
    ensures
        final(out)@ == old(out)@ + table_html(sources@),
{
    if sources.len() == 0 {
        out.push_str("<tr><td colspan=\"3\">no punches received yet</td></tr>\n");
        return;
    }
    let mut i: usize = 0;
    let ghost start = out@;
    assert(out@ =~= start + rows_html(sources@.take(0)));
    while i < sources.len()
        invariant
            i <= sources@.len(),
            out@ == start + rows_html(sources@.take(i as int)),
        decreases sources@.len() - i,
    {
        assert(sources@.take(i + 1).drop_last() =~= sources@.take(i as int));
        out.push_str(source_html(&sources[i]).as_str());
        i += 1;
        assert(out@ =~= start + rows_html(sources@.take(i as int)));
    }
    assert(sources@.take(sources@.len() as int) =~= sources@);
}

/// Appends the log.
fn push_log(out: &mut String, log: &Vec<LogLine>)
    ensures
        final(out)@ == old(out)@ + log_html(log@),
{
    if log.len() == 0 {
        out.push_str("(empty)");
        return;
    }
    let mut i: usize = 0;
    let ghost start = out@;
    assert(out@ =~= start + lines_html(log@.take(0)));
    while i < log.len()
        invariant
            i <= log@.len(),
            out@ == start + lines_html(log@.take(i as int)),
        decreases log@.len() - i,
    {
        assert(log@.take(i + 1).drop_last() =~= log@.take(i as int));
        let line = aged(&log[i]);
        out.push_str(html_escape(line.as_str()).as_str());
        out.push('\n');
        i += 1;
        assert(out@ =~= start + lines_html(log@.take(i as int)));
    }
    assert(log@.take(log@.len() as int) =~= log@);
}

/// Writes the whole page.
pub fn render_dashboard(v: &Dashboard) -> (r: String)
    ensures
        r@ == page_html(*v),
{
    let mut out: String = String::new();
    out.push_str(PAGE_0);
    assert(out@ =~= PAGE_0@);
    out.push_str(DASHBOARD_STYLE);
    out.push_str(PAGE_1);
    out.push_str(html_escape(v.version.as_str()).as_str());
    out.push_str(PAGE_2);
    match v.lora_reachable {
        Some(true) => out.push_str(pill(true, "reachable").as_str()),
        Some(false) => out.push_str(pill(false, "unreachable").as_str()),
        None => out.push_str(
            "<span class=\"pill pill-warn\">not checked (--lora-health-url unset)</span>",
        ),
    }
    out.push_str(PAGE_3);
    push_table(&mut out, &v.sources);
    out.push_str(PAGE_4);
    push_log(&mut out, &v.log);
    out.push_str(PAGE_5);
    out
}

/// A row of the dashboard tells of a source its name and its punches as they are,
/// and its last sign of life as full seconds ago.
pub proof fn law_row_tells_what_is_known(row: SourceRow, s: Source, now: u64, t: u64)
    requires
        shows(row, s, now),
        t <= now,
    ensures
        row.source@ == s.name@,
        row.punch_count == s.status.punch_count,
        s.status.last_seen is None <==> row.last_seen_secs_ago is None,
        s.status.last_seen == Some(t) ==> (row.last_seen_secs_ago matches Some(a) && a
            * 1_000_000_000 <= now - t < (a + 1) * 1_000_000_000),
{
}

} // verus!
