//! Punches as the results software's input protocol wants them, in XML. Times
//! are in tenths of a second since midnight.

use vstd::prelude::*;
use crate::{decimal, text};
use super::store::StoredPunch;

verus! {

/// The declaration. The results software drops everything up to the first `>`
/// as the declaration, so one has to be there.
pub const DECLARATION: &'static str = "<?xml version=\"1.0\" encoding=\"utf-8\"?>\n";

/// A punch.
pub open spec fn punch_xml(p: StoredPunch) -> Seq<char> {
    "  <p card=\""@ + decimal::dec(p.card_id as nat) + "\" code=\""@ + decimal::dec(
        p.station as nat,
    ) + "\" time=\""@ + decimal::dec((p.time_s * 10) as nat) + "\"/>\n"@
}

/// Punches, in order.
pub open spec fn punches_xml(ps: Seq<StoredPunch>) -> Seq<char>
    decreases ps.len(),
{
    if ps.len() == 0 {
        Seq::empty()
    } else {
        punches_xml(ps.drop_last()) + punch_xml(ps.last())
    }
}

/// The root element.
pub open spec fn root_xml(last_id: i64, ps: Seq<StoredPunch>) -> Seq<char> {
    "<MIPData lastid=\""@ + decimal::dec_signed(last_id as int) + "\">\n"@ + punches_xml(ps)
        + "</MIPData>\n"@
}

/// The whole document.
pub open spec fn mip_xml(last_id: i64, ps: Seq<StoredPunch>) -> Seq<char> {
    DECLARATION@ + root_xml(last_id, ps)
}

/// Whether every time fits in tenths of a second.
pub open spec fn times_fit(ps: Seq<StoredPunch>) -> bool {
    forall|i: int| 0 <= i < ps.len() ==> (#[trigger] ps[i]).time_s * 10 <= u32::MAX
}

/// Whether every time fits in tenths of a second.
pub fn all_times_fit(ps: &[StoredPunch]) -> (r: bool)
    ensures
        r == times_fit(ps@),
{
    let mut i: usize = 0;
    while i < ps.len()
        invariant
            i <= ps@.len(),
            forall|j: int| 0 <= j < i ==> (#[trigger] ps@[j]).time_s * 10 <= u32::MAX,
        decreases ps@.len() - i,
    {
        if ps[i].time_s as u64 * 10 > u32::MAX as u64 {
            return false;
        }
        i += 1;
    }
    true
}

/// A punch.
fn push_punch(out: &mut String, p: StoredPunch)
    ensures
        final(out)@ == old(out)@ + punch_xml(p),
{
    out.push_str("  <p card=\"");
    decimal::push_dec(out, p.card_id as u64);
    out.push_str("\" code=\"");
    decimal::push_dec(out, p.station as u64);
    out.push_str("\" time=\"");
    decimal::push_dec(out, p.time_s as u64 * 10);
    out.push_str("\"/>\n");
    assert(out@ =~= old(out)@ + punch_xml(p));
}

/// Writes punches for the results software.
pub fn render_mip_xml(last_id: i64, punches: &[StoredPunch]) -> (r: String)
    requires
        times_fit(punches@),
    ensures
        r@ == mip_xml(last_id, punches@),
{
    let mut out: String = String::new();
    out.push_str(DECLARATION);
    out.push_str("<MIPData lastid=\"");
    decimal::push_dec_signed(&mut out, last_id);
    out.push_str("\">\n");
    let ghost start = out@;
    let mut i: usize = 0;
    assert(out@ =~= start + punches_xml(punches@.take(0)));
    while i < punches.len()
        invariant
            i <= punches@.len(),
            out@ == start + punches_xml(punches@.take(i as int)),
        decreases punches@.len() - i,
    {
        assert(punches@.take(i + 1).drop_last() =~= punches@.take(i as int));
        push_punch(&mut out, punches[i]);
        i += 1;
        assert(out@ =~= start + punches_xml(punches@.take(i as int)));
    }
    assert(punches@.take(punches@.len() as int) =~= punches@);
    out.push_str("</MIPData>\n");
    assert(out@ =~= mip_xml(last_id, punches@));
    out
}

/// When the results software drops everything up to the first `>`, the root
/// element is left whole, after a line break.
pub proof fn law_root_element_survives(last_id: i64, ps: Seq<StoredPunch>)
    ensures
        text::tail(mip_xml(last_id, ps), '>') == Some(seq!['\n'] + root_xml(last_id, ps)),
{
    reveal_strlit("<?xml version=\"1.0\" encoding=\"utf-8\"?>\n");
    let s = mip_xml(last_id, ps);
    let n: int = DECLARATION@.len() - 2;
    assert(DECLARATION@[n] == '>');
    assert forall|j: int| 0 <= j < n implies s[j] != '>' by {
        assert(s[j] == DECLARATION@[j]);
    }
    text::lemma_find_is(s, '>', n);
    assert(s.skip(n + 1) =~= seq!['\n'] + root_xml(last_id, ps));
}

/// What stands in the first quotes behind a name; `None` where there is none.
pub open spec fn attribute(s: Seq<char>, name: Seq<char>) -> Option<Seq<char>> {
    match text::strip(s, name) {
        Some(rest) => Some(text::head(rest, '"')),
        None => None,
    }
}

/// A punch tells its card, its control and its time in tenths of a second since
/// midnight, each in quotes behind its name.
pub proof fn law_element_tells_the_punch(p: StoredPunch)
    ensures
        ({
            let f = text::split(punch_xml(p), '"');
            &&& f.len() == 7
            &&& f[0] == "  <p card="@
            &&& decimal::says(f[1], p.card_id as int)
            &&& f[2] == " code="@
            &&& decimal::says(f[3], p.station as int)
            &&& f[4] == " time="@
            &&& decimal::says(f[5], 10 * p.time_s)
        }),
{
    reveal_strlit("  <p card=\"");
    reveal_strlit("\" code=\"");
    reveal_strlit("\" time=\"");
    reveal_strlit("\"/>\n");
    reveal_strlit("  <p card=");
    reveal_strlit(" code=");
    reveal_strlit(" time=");
    let a = decimal::dec(p.card_id as nat);
    let b = decimal::dec(p.station as nat);
    let c = decimal::dec((p.time_s * 10) as nat);
    decimal::lemma_dec(p.card_id as nat);
    decimal::lemma_dec(p.station as nat);
    decimal::lemma_dec((p.time_s * 10) as nat);
    decimal::lemma_dec_without(p.card_id as nat, '"');
    decimal::lemma_dec_without(p.station as nat, '"');
    decimal::lemma_dec_without((p.time_s * 10) as nat, '"');
    let e = seq!['/', '>', '\n'];
    let t5 = c.push('"') + e;
    let t4 = " time="@.push('"') + t5;
    let t3 = b.push('"') + t4;
    let t2 = " code="@.push('"') + t3;
    let t1 = a.push('"') + t2;
    assert(punch_xml(p) =~= "  <p card="@.push('"') + t1);
    assert(!"  <p card="@.contains('"'));
    assert(!" code="@.contains('"'));
    assert(!" time="@.contains('"'));
    assert(!e.contains('"'));
    text::lemma_split_cons("  <p card="@, '"', t1);
    text::lemma_split_cons(a, '"', t2);
    text::lemma_split_cons(" code="@, '"', t3);
    text::lemma_split_cons(b, '"', t4);
    text::lemma_split_cons(" time="@, '"', t5);
    text::lemma_split_cons(c, '"', e);
    text::lemma_split_cons(e, '"', Seq::empty());
    assert(text::split(punch_xml(p), '"') =~= seq![
        "  <p card="@,
        a,
        " code="@,
        b,
        " time="@,
        c,
        e,
    ]);
}

/// The document holds one element for each punch, in their order, and tells the
/// number of the last one that the client has then.
pub proof fn law_document_holds_every_punch(last_id: i64, ps: Seq<StoredPunch>, p: StoredPunch)
    ensures
        punches_xml(ps.push(p)) == punches_xml(ps) + punch_xml(p),
        punches_xml(Seq::empty()).len() == 0,
        attribute(root_xml(last_id, ps), "<MIPData lastid=\""@) == Some(
            decimal::dec_signed(last_id as int),
        ),
{
    reveal_strlit("\">\n");
    assert(ps.push(p).drop_last() =~= ps);
    let name = "<MIPData lastid=\""@;
    let n = decimal::dec_signed(last_id as int);
    let rest = seq!['>', '\n'] + punches_xml(ps) + "</MIPData>\n"@;
    assert(root_xml(last_id, ps) =~= name + (n.push('"') + rest));
    text::lemma_strip(name, n.push('"') + rest);
    assert(!n.contains('"')) by {
        let m = if last_id < 0 {
            (-last_id) as nat
        } else {
            last_id as nat
        };
        decimal::lemma_dec_without(m, '"');
        if n.contains('"') {
            let i = choose|i: int| 0 <= i < n.len() && n[i] == '"';
            if last_id < 0 {
                assert(i > 0);
                assert(decimal::dec(m)[i - 1] == '"');
            }
        }
    }
    text::lemma_head_tail(n, '"', rest);
}

} // verus!
