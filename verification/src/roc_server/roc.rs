//! Punches as lines of `id;control;card;timestamp`, oldest first. The results
//! software reads only the time of day of a timestamp, which is that of the
//! punch itself.

use vstd::prelude::*;
use crate::{decimal, text};
use crate::lora_server::ui;
use crate::lora_server::ui::push_time;
use super::mip;
use super::store::StoredPunch;

verus! {

/// A punch.
pub open spec fn punch_line(p: StoredPunch, date: Seq<char>) -> Seq<char> {
    decimal::dec_signed(p.id as int).push(';') + decimal::dec(p.station as nat).push(';')
        + decimal::dec(p.card_id as nat).push(';') + date.push(' ') + ui::time_text(p.time_s as nat)
}

/// Punches, with line breaks between.
pub open spec fn roc_text(ps: Seq<StoredPunch>, date: Seq<char>) -> Seq<char>
    decreases ps.len(),
{
    if ps.len() == 0 {
        Seq::empty()
    } else if ps.len() == 1 {
        punch_line(ps[0], date)
    } else {
        roc_text(ps.drop_last(), date).push('\n') + punch_line(ps.last(), date)
    }
}

/// A punch.
fn push_line(out: &mut String, p: StoredPunch, date: &str)
    ensures
        final(out)@ == old(out)@ + punch_line(p, date@),
{
    decimal::push_dec_signed(out, p.id);
    out.push(';');
    decimal::push_dec(out, p.station as u64);
    out.push(';');
    decimal::push_dec(out, p.card_id as u64);
    out.push(';');
    out.push_str(date);
    out.push(' ');
    push_time(out, p.time_s as u64);
    assert(out@ =~= old(out)@ + punch_line(p, date@));
}

/// Writes punches for the results software.
pub fn render_roc_text(punches: &[StoredPunch], date: &str) -> (r: String)
    ensures
        r@ == roc_text(punches@, date@),
{
    let mut out: String = String::new();
    let mut i: usize = 0;
    assert(out@ =~= roc_text(punches@.take(0), date@));
    while i < punches.len()
        invariant
            i <= punches@.len(),
            out@ == roc_text(punches@.take(i as int), date@),
        decreases punches@.len() - i,
    {
        let ghost more = punches@.take(i + 1);
        assert(more.drop_last() =~= punches@.take(i as int));
        if i > 0 {
            out.push('\n');
        }
        push_line(&mut out, punches[i], date);
        i += 1;
        assert(more[0] == punches@[0]);
        assert(out@ =~= roc_text(more, date@));
    }
    assert(punches@.take(punches@.len() as int) =~= punches@);
    out
}

/// Both formats tell the same time of day of a punch: the tenths of a second of
/// the one, written out, end the line of the other.
pub proof fn law_both_formats_tell_the_same_time(p: StoredPunch, date: Seq<char>)
    requires
        p.time_s * 10 <= u32::MAX,
    ensures
        ({
            let tenths = (p.time_s * 10) as nat;
            let hms = ui::time_text(tenths / 10);
            &&& punch_line(p, date).len() >= hms.len()
            &&& punch_line(p, date).skip(punch_line(p, date).len() - hms.len()) == hms
            &&& mip::punch_xml(p) == "  <p card=\""@ + decimal::dec(p.card_id as nat)
                + "\" code=\""@ + decimal::dec(p.station as nat) + "\" time=\""@ + decimal::dec(
                tenths,
            ) + "\"/>\n"@
        }),
{
    let tenths = (p.time_s * 10) as nat;
    assert(tenths / 10 == p.time_s);
    let hms = ui::time_text(tenths / 10);
    let l = punch_line(p, date);
    assert(l.skip(l.len() - hms.len()) =~= hms);
}

/// A line tells a punch by four fields with semicolons between: its number, its
/// control, its card, and the date and the time of day with a blank between.
pub proof fn law_line_tells_the_punch(p: StoredPunch, date: Seq<char>)
    requires
        !date.contains(';'),
        !date.contains(' '),
        p.id >= 0,
    ensures
        ({
            let f = text::split(punch_line(p, date), ';');
            &&& f.len() == 4
            &&& decimal::says(f[0], p.id as int)
            &&& decimal::says(f[1], p.station as int)
            &&& decimal::says(f[2], p.card_id as int)
            &&& text::head(f[3], ' ') == date
            &&& text::tail(f[3], ' ') == Some(ui::time_text(p.time_s as nat))
        }),
{
    let a = decimal::dec(p.id as nat);
    let b = decimal::dec(p.station as nat);
    let c = decimal::dec(p.card_id as nat);
    let t = ui::time_text(p.time_s as nat);
    let d = date.push(' ') + t;
    decimal::lemma_dec(p.id as nat);
    decimal::lemma_dec(p.station as nat);
    decimal::lemma_dec(p.card_id as nat);
    decimal::lemma_dec_without(p.id as nat, ';');
    decimal::lemma_dec_without(p.station as nat, ';');
    decimal::lemma_dec_without(p.card_id as nat, ';');
    text::lemma_head_tail(date, ' ', t);
    decimal::law_padding_keeps_the_value((p.time_s / 3600) as nat, 2);
    decimal::law_padding_keeps_the_value((p.time_s % 3600 / 60) as nat, 2);
    decimal::law_padding_keeps_the_value((p.time_s % 60) as nat, 2);
    assert(!d.contains(';')) by {
        if d.contains(';') {
            let i = choose|i: int| 0 <= i < d.len() && d[i] == ';';
            if i < date.len() {
                assert(date.contains(d[i]));
            } else if i > date.len() {
                assert(t[i - date.len() - 1] == ';');
                let h = decimal::pad(decimal::dec((p.time_s / 3600) as nat), 2, '0');
                let m = decimal::pad(decimal::dec((p.time_s % 3600 / 60) as nat), 2, '0');
                let s = decimal::pad(decimal::dec((p.time_s % 60) as nat), 2, '0');
                let j = i - date.len() - 1;
                if j < h.len() {
                    assert(decimal::is_digit(h[j]));
                } else if h.len() < j < h.len() + 1 + m.len() {
                    assert(decimal::is_digit(m[j - h.len() - 1]));
                } else if j > h.len() + 1 + m.len() {
                    assert(decimal::is_digit(s[j - h.len() - m.len() - 2]));
                }
            }
        }
    }
    let l = punch_line(p, date);
    assert(l =~= a.push(';') + (b.push(';') + (c.push(';') + d)));
    text::lemma_split_cons(a, ';', b.push(';') + (c.push(';') + d));
    text::lemma_split_cons(b, ';', c.push(';') + d);
    text::lemma_split_cons(c, ';', d);
    text::lemma_split_cons(d, ';', Seq::empty());
    assert(text::split(l, ';') =~= seq![a, b, c, d]);
}

} // verus!
