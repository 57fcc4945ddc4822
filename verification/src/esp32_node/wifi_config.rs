//! The page on which a technician changes a node's settings in the field.
//!
//! After a boot the node opens a wireless network for a while and serves the
//! page there. Saving stores the settings and restarts the node.

use vstd::prelude::*;
use crate::html::html_escape;
use crate::lora_server::web::parse_form;
use crate::lora_server::web;
use crate::{decimal, html, text};
use super::config::NodeConfig;
use super::persistent_log;

verus! {

/// How long the page is served after a boot.
pub const CONFIG_WINDOW_SECS: u64 = 120;

/// Most bytes of a form that are read.
pub const FORM_MAX: usize = 256;

/// The answer to a form that was saved.
pub const SAVED: &'static str = "<html><body>Saved. Restarting...</body></html>";

/// The name of the network of a node.
pub fn ssid(addr: u16) -> (r: String)
    ensures
        r@ == "esp32-node-"@ + decimal::dec(addr as nat) + "-config"@,
{
    let mut out: String = String::new();
    out.push_str("esp32-node-");
    decimal::push_dec(&mut out, addr as u64);
    out.push_str("-config");
    assert(out@ =~= "esp32-node-"@ + decimal::dec(addr as nat) + "-config"@);
    out
}

/// An address in a form, or the present one.
pub open spec fn u16_field(body: Seq<char>, key: Seq<char>, current: u16) -> u16 {
    match web::form_value(body, key) {
        Some(v) => match decimal::as_u16(v) {
            Some(n) => n,
            None => current,
        },
        None => current,
    }
}

/// A number in a form, or the present one.
pub open spec fn u32_field(body: Seq<char>, key: Seq<char>, current: u32) -> u32 {
    match web::form_value(body, key) {
        Some(v) => match decimal::as_u32(v) {
            Some(n) => n,
            None => current,
        },
        None => current,
    }
}

/// A byte in a form, or the present one.
pub open spec fn u8_field(body: Seq<char>, key: Seq<char>, current: u8) -> u8 {
    match web::form_value(body, key) {
        Some(v) => match decimal::as_u8(v) {
            Some(n) => n,
            None => current,
        },
        None => current,
    }
}

/// The settings that a form asks for. What it leaves out, or gives as something
/// that is no such number, stays as it is.
pub open spec fn changed(body: Seq<char>, c: NodeConfig) -> NodeConfig {
    NodeConfig {
        addr: u16_field(body, "addr"@, c.addr),
        dest: u16_field(body, "dest"@, c.dest),
        freq_hz: u32_field(body, "freq"@, c.freq_hz),
        sync_word: u8_field(body, "sync_word"@, c.sync_word),
        ..c
    }
}

/// Reads the settings that a form asks for; a body that is no text asks for
/// nothing.
pub fn save_form(bytes: &[u8], current: NodeConfig) -> (r: NodeConfig)
    ensures
        r == (if vstd::utf8::valid_utf8(bytes@) {
            changed(vstd::utf8::decode_utf8(bytes@), current)
        } else {
            changed(Seq::empty(), current)
        }),
{
    let body = match text::from_utf8(bytes) {
        Some(s) => s,
        None => "",
    };
    proof {
        reveal_strlit("");
        assert(""@ =~= Seq::<char>::empty());
    }
    let all = text::chars(body);
    let b = all.as_slice();
    NodeConfig {
        addr: match parse_form(b, "addr") {
            Some(v) => match decimal::parse_u16(v) {
                Some(n) => n,
                None => current.addr,
            },
            None => current.addr,
        },
        dest: match parse_form(b, "dest") {
            Some(v) => match decimal::parse_u16(v) {
                Some(n) => n,
                None => current.dest,
            },
            None => current.dest,
        },
        freq_hz: match parse_form(b, "freq") {
            Some(v) => match decimal::parse_u32(v) {
                Some(n) => n,
                None => current.freq_hz,
            },
            None => current.freq_hz,
        },
        sync_word: match parse_form(b, "sync_word") {
            Some(v) => match decimal::parse_u8(v) {
                Some(n) => n,
                None => current.sync_word,
            },
            None => current.sync_word,
        },
        sf: current.sf,
        bw_hz: current.bw_hz,
        cr: current.cr,
    }
}

/// The page up to the address.
pub const PAGE_ADDR: &'static str = r#"<html><body>
<h1>ESP32 Node Config</h1>
<form method="POST" action="/save">
  <label>Node address <input type="number" name="addr" value=""#;

/// The page up to the destination.
pub const PAGE_DEST: &'static str = r#""></label><br>
  <label>Base/dest address <input type="number" name="dest" value=""#;

/// The page up to the frequency.
pub const PAGE_FREQ: &'static str = r#""></label><br>
  <label>Frequency (Hz) <input type="number" name="freq" value=""#;

/// The page up to the sync word.
pub const PAGE_SYNC: &'static str = r#""></label><br>
  <label>Sync word (0-255, decimal) <input type="number" name="sync_word" min="0" max="255" value=""#;

/// The rest of the page.
pub const PAGE_END: &'static str = r#""></label><br>
  <button type="submit">Save &amp; restart</button>
</form>
<p>Sync word is the only guard against cross-talk with another
event running this same firmware nearby — must match lora-server's own
--sync-word exactly.</p>
<p><a href="/log">View boot/checkpoint log</a></p>
</body></html>"#;

/// The page with the settings.
pub open spec fn page(c: NodeConfig) -> Seq<char> {
    PAGE_ADDR@ + decimal::dec(c.addr as nat) + PAGE_DEST@ + decimal::dec(c.dest as nat) + PAGE_FREQ@
        + decimal::dec(c.freq_hz as nat) + PAGE_SYNC@ + decimal::dec(c.sync_word as nat) + PAGE_END@
}

/// Writes the page with the settings.
pub fn render_page(cfg: &NodeConfig) -> (r: String)
    ensures
        r@ == page(*cfg),
{
    let mut out: String = String::new();
    out.push_str(PAGE_ADDR);
    assert(out@ =~= PAGE_ADDR@);
    decimal::push_dec(&mut out, cfg.addr as u64);
    out.push_str(PAGE_DEST);
    decimal::push_dec(&mut out, cfg.dest as u64);
    out.push_str(PAGE_FREQ);
    decimal::push_dec(&mut out, cfg.freq_hz as u64);
    out.push_str(PAGE_SYNC);
    decimal::push_dec(&mut out, cfg.sync_word as u64);
    out.push_str(PAGE_END);
    out
}

/// The page of the checkpoints up to the first one.
pub const LOG_START: &'static str = r#"<html><body>
<h1>Checkpoint log</h1>
<p>Persisted across reboots (see persistent_log.rs) — oldest first. Only a
handful of meaningful checkpoints, not a full serial-log mirror.</p>
<pre>"#;

/// Stands for no checkpoints.
pub const LOG_EMPTY: &'static str = "(empty — nothing checkpointed yet)";

/// The rest of the page of the checkpoints.
pub const LOG_END: &'static str = r#"</pre>
<p><a href="/">Back to config</a></p>
</body></html>"#;

/// The lines of the log as they stand in the page.
pub open spec fn escaped_lines(ls: Seq<Seq<char>>) -> Seq<Seq<char>> {
    Seq::new(ls.len(), |i: int| html::escaped(ls[i]))
}

/// The page of the checkpoints.
pub open spec fn log_page(ls: Seq<Seq<char>>) -> Seq<char> {
    LOG_START@ + (if ls.len() == 0 {
        LOG_EMPTY@
    } else {
        persistent_log::joined(escaped_lines(ls))
    }) + LOG_END@
}

/// Writes the page of the checkpoints, oldest first.
pub fn render_log_page(lines: &[String]) -> (r: String)
    ensures
        r@ == log_page(persistent_log::views(lines@)),
{
    let mut out: String = String::new();
    out.push_str(LOG_START);
    assert(out@ =~= LOG_START@);
    let ghost ls = escaped_lines(persistent_log::views(lines@));
    let n: usize = lines.len();
    if n == 0 {
        out.push_str(LOG_EMPTY);
    } else {
        let mut i: usize = 0;
        assert(ls.skip(0) =~= ls);
        while i < n - 1
            invariant
                ls == escaped_lines(persistent_log::views(lines@)),
                n == lines@.len(),
                0 <= i < n,
                out@ + persistent_log::joined(ls.skip(i as int)) == LOG_START@
                    + persistent_log::joined(ls),
            decreases n - i,
        {
            let ghost was = out@;
            let ghost rest = ls.skip(i as int);
            assert(rest.skip(1) =~= ls.skip(i + 1));
            let line = html_escape(lines[i].as_str());
            assert(rest[0] == line@);
            out.push_str(line.as_str());
            out.push('\n');
            assert(out@ =~= was + rest[0].push('\n'));
            assert(out@ + persistent_log::joined(rest.skip(1)) =~= was + persistent_log::joined(
                rest,
            ));
            i += 1;
        }
        let line = html_escape(lines[i].as_str());
        assert(ls.skip(i as int)[0] == line@);
        out.push_str(line.as_str());
    }
    out.push_str(LOG_END);
    out
}

/// A form that says nothing changes nothing.
pub proof fn law_empty_form_changes_nothing(c: NodeConfig)
    ensures
        changed(Seq::empty(), c) == c,
{
    let none = Seq::<char>::empty();
    text::lemma_split_cons(none, '&', none);
    assert(text::find(none, '=') < 0 || text::find(none, '=') >= none.len()) by {
        text::lemma_find(none, '=');
    }
    reveal_with_fuel(web::field, 3);
    assert(text::split(none, '&') =~= seq![none]);
    assert(seq![none].drop_last() =~= Seq::<Seq<char>>::empty());
}

/// A form sets what it names to what it says, as far as that is such a number, and
/// nothing else: neither what it leaves out nor the rest of the radio mode.
pub proof fn law_form_sets_what_it_names(body: Seq<char>, c: NodeConfig, n: u16, f: u32, w: u8)
    ensures
        web::form_value(body, "addr"@) == Some(decimal::dec(n as nat)) ==> changed(body, c).addr
            == n,
        web::form_value(body, "dest"@) == Some(decimal::dec(n as nat)) ==> changed(body, c).dest
            == n,
        web::form_value(body, "freq"@) == Some(decimal::dec(f as nat)) ==> changed(body, c).freq_hz
            == f,
        web::form_value(body, "sync_word"@) == Some(decimal::dec(w as nat)) ==> changed(
            body,
            c,
        ).sync_word == w,
        web::form_value(body, "addr"@) is None ==> changed(body, c).addr == c.addr,
        web::form_value(body, "dest"@) is None ==> changed(body, c).dest == c.dest,
        web::form_value(body, "freq"@) is None ==> changed(body, c).freq_hz == c.freq_hz,
        web::form_value(body, "sync_word"@) is None ==> changed(body, c).sync_word == c.sync_word,
        changed(body, c).sf == c.sf,
        changed(body, c).bw_hz == c.bw_hz,
        changed(body, c).cr == c.cr,
{
    decimal::lemma_parse_dec(n as nat, u16::MAX as nat);
    decimal::lemma_parse_dec(f as nat, u32::MAX as nat);
    decimal::lemma_parse_dec(w as nat, u8::MAX as nat);
}

/// The page shows the address, then where the node sends, then the frequency and
/// then the sync word.
pub proof fn law_page_shows_the_settings(c: NodeConfig)
    ensures
        text::strip(page(c), PAGE_ADDR@) matches Some(a) && text::strip(
            a,
            decimal::dec(c.addr as nat) + PAGE_DEST@,
        ) matches Some(b) && text::strip(b, decimal::dec(c.dest as nat) + PAGE_FREQ@) matches Some(
            f,
        ) && text::strip(f, decimal::dec(c.freq_hz as nat) + PAGE_SYNC@) matches Some(s) && s
            == decimal::dec(c.sync_word as nat) + PAGE_END@,
{
    let s = decimal::dec(c.sync_word as nat) + PAGE_END@;
    let x = decimal::dec(c.freq_hz as nat) + PAGE_SYNC@;
    let y = decimal::dec(c.dest as nat) + PAGE_FREQ@;
    let z = decimal::dec(c.addr as nat) + PAGE_DEST@;
    assert(page(c) =~= PAGE_ADDR@ + (z + (y + (x + s))));
    text::lemma_strip(PAGE_ADDR@, z + (y + (x + s)));
    text::lemma_strip(z, y + (x + s));
    text::lemma_strip(y, x + s);
    text::lemma_strip(x, s);
}

} // verus!
