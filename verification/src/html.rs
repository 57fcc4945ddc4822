//! Pieces of HTML that the dashboards share.

use vstd::prelude::*;
use crate::text;

verus! {

/// A character as it stands in HTML text.
pub open spec fn escaped_char(c: char) -> Seq<char> {
    if c == '&' {
        "&amp;"@
    } else if c == '<' {
        "&lt;"@
    } else if c == '>' {
        "&gt;"@
    } else {
        seq![c]
    }
}

/// A text as it stands in HTML.
pub open spec fn escaped(s: Seq<char>) -> Seq<char>
    decreases s.len(),
{
    if s.len() == 0 {
        Seq::empty()
    } else {
        escaped(s.drop_last()) + escaped_char(s.last())
    }
}

/// Writes a text so that it stands in HTML as it is.
pub fn html_escape(s: &str) -> (r: String)
    ensures
        r@ == escaped(s@),
{
    let all = text::chars(s);
    let mut out: String = String::new();
    let mut i: usize = 0;
    assert(out@ =~= Seq::empty());
    while i < all.len()
        invariant
            all@ == s@,
            i <= all@.len(),
            out@ == escaped(all@.take(i as int)),
        decreases all@.len() - i,
    {
        let ghost before = out@;
        assert(all@.take(i + 1).drop_last() =~= all@.take(i as int));
        let c: char = all[i];
        if c == '&' {
            out.push_str("&amp;");
        } else if c == '<' {
            out.push_str("&lt;");
        } else if c == '>' {
            out.push_str("&gt;");
        } else {
            out.push(c);
            assert(out@ =~= before + seq![c]);
        }
        i += 1;
    }
    assert(all@.take(all@.len() as int) =~= all@);
    out
}

/// An escaped text holds no mark-up.
pub proof fn law_escaped_text_holds_no_tags(s: Seq<char>)
    ensures
        !escaped(s).contains('<'),
        !escaped(s).contains('>'),
    decreases s.len(),
{
    if s.len() > 0 {
        law_escaped_text_holds_no_tags(s.drop_last());
        reveal_strlit("&amp;");
        reveal_strlit("&lt;");
        reveal_strlit("&gt;");
        let a = escaped(s.drop_last());
        let b = escaped_char(s.last());
        assert(!b.contains('<') && !b.contains('>'));
        assert forall|i: int| 0 <= i < (a + b).len() implies (a + b)[i] != '<' && (a + b)[i]
            != '>' by {
            if i < a.len() {
                assert(a.contains(a[i]));
            } else {
                assert(b.contains(b[i - a.len()]));
            }
        }
    }
}

/// A coloured word, good or bad.
pub open spec fn pill_html(good: bool, words: Seq<char>) -> Seq<char> {
    "<span class=\"pill "@ + (if good {
        "pill-good"@
    } else {
        "pill-bad"@
    }) + "\">"@ + words + "</span>"@
}

/// Writes a coloured word.
pub fn pill(good: bool, words: &str) -> (r: String)
    ensures
        r@ == pill_html(good, words@),
{
    let mut out: String = String::new();
    out.push_str("<span class=\"pill ");
    out.push_str(
        if good {
            "pill-good"
        } else {
            "pill-bad"
        },
    );
    out.push_str("\">");
    out.push_str(words);
    out.push_str("</span>");
    assert(out@ =~= pill_html(good, words@));
    out
}

/// Escaping goes character by character: the marks of HTML are written as their
/// names, and every other character as it is.
pub proof fn law_escaping_goes_by_character(s: Seq<char>, c: char)
    ensures
        escaped(s.push(c)) == escaped(s) + escaped(seq![c]),
        escaped(seq!['<']) == seq!['&', 'l', 't', ';'],
        escaped(seq!['>']) == seq!['&', 'g', 't', ';'],
        escaped(seq!['&']) == seq!['&', 'a', 'm', 'p', ';'],
        c != '<' && c != '>' && c != '&' ==> escaped(seq![c]) == seq![c],
{
    reveal_strlit("&amp;");
    reveal_strlit("&lt;");
    reveal_strlit("&gt;");
    assert(s.push(c).drop_last() =~= s);
    lemma_escaped_one(c);
    lemma_escaped_one('<');
    lemma_escaped_one('>');
    lemma_escaped_one('&');
}

/// One character escaped.
proof fn lemma_escaped_one(c: char)
    ensures
        escaped(seq![c]) == escaped_char(c),
{
    assert(seq![c].drop_last() =~= Seq::<char>::empty());
    assert(escaped(Seq::<char>::empty()) =~= Seq::<char>::empty());
    assert(escaped(seq![c]) =~= escaped_char(c));
}

/// A text without marks of HTML stands as it is.
pub proof fn law_plain_text_stays(s: Seq<char>)
    requires
        !s.contains('<'),
        !s.contains('>'),
        !s.contains('&'),
    ensures
        escaped(s) == s,
    decreases s.len(),
{
    if s.len() > 0 {
        let front = s.drop_last();
        assert forall|c: char| front.contains(c) implies s.contains(c) by {
            let i = choose|i: int| 0 <= i < front.len() && front[i] == c;
            assert(s[i] == c);
        }
        law_plain_text_stays(front);
        assert(s.contains(s.last())) by {
            assert(s[s.len() - 1] == s.last());
        }
        assert(escaped(s) =~= s);
    } else {
        assert(escaped(s) =~= s);
    }
}

} // verus!
