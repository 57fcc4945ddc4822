//! The dashboard's page, as HTML.

use vstd::prelude::*;
use crate::html::{html_escape, pill};
use crate::{decimal, html, text};
use super::backend;
use super::backend::to_hex;
use super::web;
use super::web::{LogLine, NodeRow, StatusPage};

verus! {

/// The look of the dashboards.
pub const DASHBOARD_STYLE: &'static str = r#"<style>
:root {
  --bg: #f5f6f8; --card: #ffffff; --border: #e3e6eb;
  --text: #1a1d23; --dim: #6b7280;
  --accent: #2563eb; --good: #16a34a; --bad: #dc2626; --warn: #b45309;
  --good-bg: #dcfce7; --bad-bg: #fee2e2; --warn-bg: #fef3c7;
}
* { box-sizing: border-box; }
body {
  margin: 0; padding: 2.5rem 1.5rem 4rem; background: var(--bg); color: var(--text);
  font-family: -apple-system, BlinkMacSystemFont, "Segoe UI", Roboto, Helvetica, Arial, sans-serif;
  line-height: 1.5;
}
.wrap { max-width: 880px; margin: 0 auto; }
h1 { font-size: 1.5rem; margin: 0 0 .2rem; letter-spacing: -0.01em; }
.subtitle { color: var(--dim); font-size: .875rem; margin: 0 0 2rem; }
h2 {
  font-size: .78rem; text-transform: uppercase; letter-spacing: .06em;
  color: var(--dim); margin: 2rem 0 .6rem; font-weight: 600;
}
h2 .note { text-transform: none; letter-spacing: 0; font-weight: 400; }
.card {
  background: var(--card); border: 1px solid var(--border); border-radius: 10px;
  padding: 1rem 1.25rem; box-shadow: 0 1px 2px rgba(16, 24, 40, .04);
}
table { width: 100%; border-collapse: collapse; font-size: .88rem; }
th, td { text-align: left; padding: .5rem .6rem; border-bottom: 1px solid var(--border); }
th {
  font-size: .7rem; text-transform: uppercase; letter-spacing: .04em;
  color: var(--dim); font-weight: 600; white-space: nowrap;
}
tr:last-child td { border-bottom: none; }
td.mono, .mono { font-family: ui-monospace, SFMono-Regular, Menlo, Consolas, monospace; }
.pill {
  display: inline-block; padding: .15rem .55rem; border-radius: 999px;
  font-size: .76rem; font-weight: 600; white-space: nowrap;
}
.pill-good { background: var(--good-bg); color: var(--good); }
.pill-bad { background: var(--bad-bg); color: var(--bad); }
.pill-warn { background: var(--warn-bg); color: var(--warn); }
p.hint { color: var(--dim); font-size: .85rem; margin: 0 0 1rem; }
form label { display: block; font-size: .85rem; margin-bottom: .65rem; }
form input {
  display: block; margin-top: .3rem; padding: .4rem .55rem; border: 1px solid var(--border);
  border-radius: 6px; font-size: .9rem; width: 100%; max-width: 220px;
  font-family: ui-monospace, SFMono-Regular, Menlo, Consolas, monospace;
}
button {
  background: var(--accent); color: #fff; border: none; padding: .5rem 1.1rem;
  border-radius: 6px; font-size: .88rem; font-weight: 600; cursor: pointer; margin-top: .3rem;
}
button:hover { opacity: .9; }
pre.log {
  background: #0b1020; color: #d7dde8; padding: 1rem; border-radius: 10px;
  font-size: .76rem; line-height: 1.6; overflow: auto; max-height: 440px; margin: 0;
  font-family: ui-monospace, SFMono-Regular, Menlo, Consolas, monospace;
}
</style>"#;

/// The page up to its style.
pub const PAGE_0: &'static str = r#"<!doctype html>
<html>
<head>
<meta charset="utf-8">
<meta name="viewport" content="width=device-width, initial-scale=1">
<meta http-equiv="refresh" content="10">
<title>lora-server status</title>
"#;

/// Up to the own address.
pub const PAGE_1: &'static str = r#"
</head>
<body>
<div class="wrap">
<h1>lora-server</h1>
<p class="subtitle">LoRa daemon status &amp; node health — this node: <span class="mono">"#;

/// Up to the version.
pub const PAGE_2: &'static str = r#"</span> · <span class="mono">"#;

/// Up to the state of the radio.
pub const PAGE_3: &'static str = r#"</span></p>

<h2>Status</h2>
<div class="card">
<table>
<tr><th>Radio</th><td>"#;

/// Up to the state of the results server.
pub const PAGE_4: &'static str = r#"</td></tr>
<tr><th>roc-server</th><td>"#;

/// Up to the competition.
pub const PAGE_5: &'static str = r#"</td></tr>
<tr><th>Competition</th><td class="mono">"#;

/// Up to the field for the competition.
pub const PAGE_6: &'static str = r#"</td></tr>
</table>
</div>

<h2>Competition ID</h2>
<div class="card">
<p class="hint">Sent with every punch pushed to roc-server, which rejects a mismatch
against its own configured value — must equal whatever MEOS's Online Input dialog
is configured with. Change this at the start of a new event; the previous
event's punches (which roc-server keeps around) will never leak into a
different competition ID's results. Takes effect immediately, no restart needed.</p>
<form method="POST" action="/setcompetitionid">
  <label>Competition ID <input type="text" name="competition_id" value=""#;

/// Up to the nodes.
pub const PAGE_7: &'static str = r#"" required></label>
  <button type="submit">Save</button>
</form>
</div>

<h2>Nodes</h2>
<div class="card">
<table>
<tr><th>Addr</th><th>Last heartbeat</th><th>Battery</th><th>SI master</th><th>Last punch</th><th>RSSI</th><th>Punches</th><th>Version</th></tr>
"#;

/// Up to the log.
pub const PAGE_8: &'static str = r#"
</table>
</div>

<h2>Query node version</h2>
<div class="card">
<p class="hint">Asks a node to report its firmware version right now, rather than
waiting for its next boot (nodes also report once, unprompted, on every boot —
see the Version column above). Reply lands asynchronously; refresh to see it.</p>
<form method="POST" action="/queryversion">
  <label>Target address <input type="number" name="target" required></label>
  <button type="submit">Query version</button>
</form>
</div>

<h2>Send test punch</h2>
<div class="card">
<p class="hint">Recorded with source="test" — flows through the real send/retry/ack
pipeline and on to roc-server/MEOS like a genuine punch, but stays tagged
as synthetic. See docs/protocols/lora_online_control_protocol.md.</p>
<form method="POST" action="/testpunch">
  <label>Card ID <input type="number" name="card_id" required></label>
  <label>Station <input type="number" name="station" required></label>
  <label>Time (s since midnight) <input type="number" name="time_s" required></label>
  <button type="submit">Send test punch</button>
</form>
</div>

<h2>Packet log <span class="note">(newest first, auto-refreshes)</span></h2>
<pre class="log">"#;

/// The end of the page.
pub const PAGE_9: &'static str = r#"</pre>
</div>
</body>
</html>"#;

/// An address in hexadecimal, `0x` and four digits.
pub open spec fn addr_text(addr: u16) -> Seq<char> {
    "0x"@ + backend::hex(seq![(addr / 256) as u8, (addr % 256) as u8])
}

/// Appends an address in hexadecimal.
fn push_addr(out: &mut String, addr: u16)
    ensures
        final(out)@ == old(out)@ + addr_text(addr),
{
    let bytes: Vec<u8> = vec![(addr / 256) as u8, (addr % 256) as u8];
    assert(bytes@ =~= seq![(addr / 256) as u8, (addr % 256) as u8]);
    out.push_str("0x");
    out.push_str(to_hex(bytes.as_slice()).as_str());
    assert(out@ =~= old(out)@ + addr_text(addr));
}

/// An age, or a dash.
pub open spec fn age_text(a: Option<u64>) -> Seq<char> {
    match a {
        Some(s) => decimal::dec(s as nat) + "s ago"@,
        None => "-"@,
    }
}

/// A battery, or a dash.
pub open spec fn battery_text(pct: Option<u8>, mv: Option<u16>) -> Seq<char> {
    match (pct, mv) {
        (Some(p), Some(m)) => decimal::dec(p as nat) + "% ("@ + decimal::dec(m as nat) + "mV)"@,
        _ => "-"@,
    }
}

/// Whether a reader is connected, or a dash.
pub open spec fn reader_text(p: Option<bool>) -> Seq<char> {
    match p {
        Some(true) => html::pill_html(true, "connected"@),
        Some(false) => html::pill_html(false, "not connected"@),
        None => "-"@,
    }
}

/// A signal strength, or a dash.
pub open spec fn rssi_text(r: Option<i16>) -> Seq<char> {
    match r {
        Some(v) => decimal::dec_signed(v as int) + "dBm"@,
        None => "-"@,
    }
}

/// A version, or a dash.
pub open spec fn version_text(v: Option<Seq<char>>) -> Seq<char> {
    match v {
        Some(s) => html::escaped(s),
        None => "-"@,
    }
}

/// A node as a row of the table.
pub open spec fn row_html(n: NodeRow) -> Seq<char> {
    "<tr><td class=\"mono\">"@ + addr_text(n.addr) + "</td><td>"@ + age_text(
        n.last_heartbeat_secs_ago,
    ) + "</td><td class=\"mono\">"@ + battery_text(n.battery_pct, n.battery_mv) + "</td><td>"@
        + reader_text(n.si_present) + "</td><td>"@ + age_text(n.last_punch_secs_ago)
        + "</td><td class=\"mono\">"@ + rssi_text(n.last_rssi) + "</td><td class=\"mono\">"@
        + decimal::dec(n.punch_count as nat) + "</td><td class=\"mono\">"@ + version_text(
        web::opt_text(n.version),
    ) + "</td></tr>\n"@
}

/// The nodes as rows of the table.
pub open spec fn rows_html(nodes: Seq<NodeRow>) -> Seq<char>
    decreases nodes.len(),
{
    if nodes.len() == 0 {
        Seq::empty()
    } else {
        rows_html(nodes.drop_last()) + row_html(nodes.last())
    }
}

/// The table's rows, or a row that says that there are none.
pub open spec fn table_html(nodes: Seq<NodeRow>) -> Seq<char> {
    if nodes.len() == 0 {
        "<tr><td colspan=\"8\">no nodes heard from yet</td></tr>\n"@
    } else {
        rows_html(nodes)
    }
}

/// A log line.
pub open spec fn line_html(l: LogLine) -> Seq<char> {
    "[-"@ + decimal::dec(l.secs_ago as nat) + "s] "@ + html::escaped(l.line@) + "\n"@
}

/// Log lines.
pub open spec fn lines_html(log: Seq<LogLine>) -> Seq<char>
    decreases log.len(),
{
    if log.len() == 0 {
        Seq::empty()
    } else {
        lines_html(log.drop_last()) + line_html(log.last())
    }
}

/// The log, or a word that says that it is empty.
pub open spec fn log_html(log: Seq<LogLine>) -> Seq<char> {
    if log.len() == 0 {
        "(empty)"@
    } else {
        lines_html(log)
    }
}

/// The state of the radio.
pub open spec fn radio_html(ready: bool) -> Seq<char> {
    if ready {
        html::pill_html(true, "ready"@)
    } else {
        html::pill_html(false, "lora module not found"@)
    }
}

/// The state of the results server.
pub open spec fn roc_html(reachable: Option<bool>) -> Seq<char> {
    match reachable {
        Some(true) => html::pill_html(true, "reachable"@),
        Some(false) => html::pill_html(false, "unreachable"@),
        None => "<span class=\"pill pill-warn\">not checked (--roc-health-url unset)</span>"@,
    }
}

/// The whole page.
pub open spec fn page_html(v: StatusPage) -> Seq<char> {
    PAGE_0@ + DASHBOARD_STYLE@ + PAGE_1@ + addr_text(v.own_addr) + PAGE_2@ + html::escaped(
        v.version@,
    ) + PAGE_3@ + radio_html(v.radio_ready) + PAGE_4@ + roc_html(v.roc_reachable) + PAGE_5@
        + html::escaped(v.competition_id@) + PAGE_6@ + html::escaped(v.competition_id@) + PAGE_7@
        + table_html(v.nodes@) + PAGE_8@ + log_html(v.log@) + PAGE_9@
}

/// Appends an age.
fn push_age(out: &mut String, a: Option<u64>)
    ensures
        final(out)@ == old(out)@ + age_text(a),
{
    match a {
        Some(s) => {
            decimal::push_dec(out, s);
            out.push_str("s ago");
            assert(out@ =~= old(out)@ + age_text(a));
        },
        None => out.push_str("-"),
    }
}

/// Appends a battery.
fn push_battery(out: &mut String, pct: Option<u8>, mv: Option<u16>)
    ensures
        final(out)@ == old(out)@ + battery_text(pct, mv),
{
    match (pct, mv) {
        (Some(p), Some(m)) => {
            decimal::push_dec(out, p as u64);
            out.push_str("% (");
            decimal::push_dec(out, m as u64);
            out.push_str("mV)");
            assert(out@ =~= old(out)@ + battery_text(pct, mv));
        },
        _ => out.push_str("-"),
    }
}

/// Appends a signal strength.
fn push_rssi(out: &mut String, r: Option<i16>)
    ensures
        final(out)@ == old(out)@ + rssi_text(r),
{
    match r {
        Some(v) => {
            decimal::push_dec_signed(out, v as i64);
            out.push_str("dBm");
            assert(out@ =~= old(out)@ + rssi_text(r));
        },
        None => out.push_str("-"),
    }
}

/// A node as a row of the table.
fn node_html(n: &NodeRow) -> (r: String)
    ensures
        r@ == row_html(*n),
{
    let mut out: String = String::new();
    out.push_str("<tr><td class=\"mono\">");
    assert(out@ =~= "<tr><td class=\"mono\">"@);
    push_addr(&mut out, n.addr);
    out.push_str("</td><td>");
    push_age(&mut out, n.last_heartbeat_secs_ago);
    out.push_str("</td><td class=\"mono\">");
    push_battery(&mut out, n.battery_pct, n.battery_mv);
    out.push_str("</td><td>");
    match n.si_present {
        Some(true) => out.push_str(pill(true, "connected").as_str()),
        Some(false) => out.push_str(pill(false, "not connected").as_str()),
        None => out.push_str("-"),
    }
    out.push_str("</td><td>");
    push_age(&mut out, n.last_punch_secs_ago);
    out.push_str("</td><td class=\"mono\">");
    push_rssi(&mut out, n.last_rssi);
    out.push_str("</td><td class=\"mono\">");
    decimal::push_dec(&mut out, n.punch_count);
    out.push_str("</td><td class=\"mono\">");
    match &n.version {
        Some(s) => out.push_str(html_escape(s.as_str()).as_str()),
        None => out.push_str("-"),
    }
    out.push_str("</td></tr>\n");
    out
}

/// Appends the table's rows.
fn push_table(out: &mut String, nodes: &Vec<NodeRow>)
    ensures
        final(out)@ == old(out)@ + table_html(nodes@),
{
    if nodes.len() == 0 {
        out.push_str("<tr><td colspan=\"8\">no nodes heard from yet</td></tr>\n");
        return;
    }
    let mut i: usize = 0;
    let ghost start = out@;
    assert(out@ =~= start + rows_html(nodes@.take(0)));
    while i < nodes.len()
        invariant
            i <= nodes@.len(),
            out@ == start + rows_html(nodes@.take(i as int)),
        decreases nodes@.len() - i,
    {
        assert(nodes@.take(i + 1).drop_last() =~= nodes@.take(i as int));
        out.push_str(node_html(&nodes[i]).as_str());
        i += 1;
        assert(out@ =~= start + rows_html(nodes@.take(i as int)));
    }
    assert(nodes@.take(nodes@.len() as int) =~= nodes@);
}

/// Appends the log.
fn push_log(out: &mut String, log: &Vec<LogLine>)
    ensures
        final(out)@ == old(out)@ + log_html(log@),
{
    if log.len() == 0 {
        out.push_str("(empty)");
        return;
    }
    let mut i: usize = 0;
    let ghost start = out@;
    assert(out@ =~= start + lines_html(log@.take(0)));
    while i < log.len()
        invariant
            i <= log@.len(),
            out@ == start + lines_html(log@.take(i as int)),
        decreases log@.len() - i,
    {
        assert(log@.take(i + 1).drop_last() =~= log@.take(i as int));
        out.push_str("[-");
        decimal::push_dec(out, log[i].secs_ago);
        out.push_str("s] ");
        out.push_str(html_escape(log[i].line.as_str()).as_str());
        out.push_str("\n");
        i += 1;
        assert(out@ =~= start + lines_html(log@.take(i as int)));
    }
    assert(log@.take(log@.len() as int) =~= log@);
}

/// Writes the whole page.
pub fn render_html(v: &StatusPage) -> (r: String)
    ensures
        r@ == page_html(*v),
{
    let competition_id = html_escape(v.competition_id.as_str());
    let mut out: String = String::new();
    out.push_str(PAGE_0);
    assert(out@ =~= PAGE_0@);
    out.push_str(DASHBOARD_STYLE);
    out.push_str(PAGE_1);
    push_addr(&mut out, v.own_addr);
    out.push_str(PAGE_2);
    out.push_str(html_escape(v.version.as_str()).as_str());
    out.push_str(PAGE_3);
    if v.radio_ready {
        out.push_str(pill(true, "ready").as_str());
    } else {
        out.push_str(pill(false, "lora module not found").as_str());
    }
    out.push_str(PAGE_4);
    match v.roc_reachable {
        Some(true) => out.push_str(pill(true, "reachable").as_str()),
        Some(false) => out.push_str(pill(false, "unreachable").as_str()),
        None => out.push_str(
            "<span class=\"pill pill-warn\">not checked (--roc-health-url unset)</span>",
        ),
    }
    out.push_str(PAGE_5);
    out.push_str(competition_id.as_str());
    out.push_str(PAGE_6);
    out.push_str(competition_id.as_str());
    out.push_str(PAGE_7);
    push_table(&mut out, &v.nodes);
    out.push_str(PAGE_8);
    push_log(&mut out, &v.log);
    out.push_str(PAGE_9);
    out
}

/// The battery's cell leads with the per cent and has the millivolts in brackets;
/// where either is not known it is a dash.
pub proof fn law_battery_cell_tells_both(p: u8, m: u16)
    ensures
        ({
            let s = battery_text(Some(p), Some(m));
            &&& decimal::says(text::head(s, '%'), p as int)
            &&& text::tail(s, '(') matches Some(t)
            &&& decimal::says(text::head(t, 'm'), m as int)
        }),
        battery_text(None, Some(m)) == "-"@,
        battery_text(Some(p), None) == "-"@,
{
    reveal_strlit("% (");
    reveal_strlit("mV)");
    let a = decimal::dec(p as nat);
    let b = decimal::dec(m as nat);
    let end = seq!['V', ')'];
    let s = battery_text(Some(p), Some(m));
    decimal::lemma_dec(p as nat);
    decimal::lemma_dec(m as nat);
    decimal::lemma_dec_without(p as nat, '%');
    decimal::lemma_dec_without(p as nat, '(');
    decimal::lemma_dec_without(m as nat, 'm');
    let front = a + seq!['%', ' '];
    assert(!front.contains('(')) by {
        assert forall|i: int| 0 <= i < front.len() implies front[i] != '(' by {
            if i < a.len() {
                assert(a.contains(a[i]));
            }
        }
    }
    let inside = b.push('m') + end;
    assert(s =~= a.push('%') + (seq![' ', '('] + inside));
    assert(s =~= front.push('(') + inside);
    text::lemma_head_tail(a, '%', seq![' ', '('] + inside);
    text::lemma_head_tail(front, '(', inside);
    text::lemma_head_tail(b, 'm', end);
}

/// Pieces of a text make up the same text however they are grouped.
proof fn lemma_regroup(a: Seq<char>, b: Seq<char>, c: Seq<char>)
    ensures
        a + b + c == a + (b + c),
{
    assert(a + b + c =~= a + (b + c));
}

/// A row shows, cell after cell: the node, the age of its heartbeat, its battery,
/// its reader, the age of its punch, the signal strength, how many punches came
/// and its version.
pub proof fn law_cells_follow_the_heading(n: NodeRow)
    ensures
        ({
            let plain = "</td><td>"@;
            let mono = "</td><td class=\"mono\">"@;
            &&& text::strip(
                row_html(n),
                "<tr><td class=\"mono\">"@ + addr_text(n.addr) + plain,
            ) matches Some(a)
            &&& text::strip(a, age_text(n.last_heartbeat_secs_ago) + mono) matches Some(b)
            &&& text::strip(b, battery_text(n.battery_pct, n.battery_mv) + plain) matches Some(c)
            &&& text::strip(c, reader_text(n.si_present) + plain) matches Some(d)
            &&& text::strip(d, age_text(n.last_punch_secs_ago) + mono) matches Some(e)
            &&& text::strip(e, rssi_text(n.last_rssi) + mono) matches Some(f)
            &&& text::strip(f, decimal::dec(n.punch_count as nat) + mono) matches Some(g)
            &&& g == version_text(web::opt_text(n.version)) + "</td></tr>\n"@
        }),
{
    let plain = "</td><td>"@;
    let mono = "</td><td class=\"mono\">"@;
    let g = version_text(web::opt_text(n.version)) + "</td></tr>\n"@;
    let pf = decimal::dec(n.punch_count as nat) + mono;
    let pe = rssi_text(n.last_rssi) + mono;
    let pd = age_text(n.last_punch_secs_ago) + mono;
    let pc = reader_text(n.si_present) + plain;
    let pb = battery_text(n.battery_pct, n.battery_mv) + plain;
    let pa = age_text(n.last_heartbeat_secs_ago) + mono;
    let p0 = "<tr><td class=\"mono\">"@ + addr_text(n.addr) + plain;
    let f = pf + g;
    let e = pe + f;
    let d = pd + e;
    let c = pc + d;
    let b = pb + c;
    let a = pa + b;
    lemma_regroup(p0, age_text(n.last_heartbeat_secs_ago), mono);
    let l1 = p0 + pa;
    lemma_regroup(l1, battery_text(n.battery_pct, n.battery_mv), plain);
    let l2 = l1 + pb;
    lemma_regroup(l2, reader_text(n.si_present), plain);
    let l3 = l2 + pc;
    lemma_regroup(l3, age_text(n.last_punch_secs_ago), mono);
    let l4 = l3 + pd;
    lemma_regroup(l4, rssi_text(n.last_rssi), mono);
    let l5 = l4 + pe;
    lemma_regroup(l5, decimal::dec(n.punch_count as nat), mono);
    let l6 = l5 + pf;
    lemma_regroup(l6, version_text(web::opt_text(n.version)), "</td></tr>\n"@);
    lemma_regroup(l5, pf, g);
    lemma_regroup(l4, pe, f);
    lemma_regroup(l3, pd, e);
    lemma_regroup(l2, pc, d);
    lemma_regroup(l1, pb, c);
    lemma_regroup(p0, pa, b);
    text::lemma_strip(p0, a);
    text::lemma_strip(pa, b);
    text::lemma_strip(pb, c);
    text::lemma_strip(pc, d);
    text::lemma_strip(pd, e);
    text::lemma_strip(pe, f);
    text::lemma_strip(pf, g);
}

} // verus!
