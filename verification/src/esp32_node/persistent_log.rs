//! A short log of checkpoints that outlives a power cycle.
//!
//! It tells how far an earlier boot got. Writing wears the memory out, so only
//! a few meaningful points of a boot are noted.

use vstd::prelude::*;
use crate::text;

verus! {

/// The key under which the log is stored.
pub const KEY_LOG: &'static str = "log_blob";

/// How many lines are kept.
pub const MAX_ENTRIES: usize = 15;

/// Most bytes of a line.
pub const MAX_LINE_LEN: usize = 80;

/// Room for reading the log back.
pub const READ_BUF_LEN: usize = 2048;

/// A line without the carriage return at its end.
pub open spec fn without_return(s: Seq<char>) -> Seq<char> {
    if s.len() > 0 && s.last() == '\r' {
        s.drop_last()
    } else {
        s
    }
}

/// The lines of a text: each but the last ends in a line feed, with or without
/// a carriage return before it; an empty rest is no line.
pub open spec fn lines(s: Seq<char>) -> Seq<Seq<char>> {
    let parts = text::split(s, '\n');
    let whole = Seq::new((parts.len() - 1) as nat, |i: int| without_return(parts[i]));
    if parts.last().len() > 0 {
        whole.push(parts.last())
    } else {
        whole
    }
}

/// Lines with line feeds between them.
pub open spec fn joined(ls: Seq<Seq<char>>) -> Seq<char>
    decreases ls.len(),
{
    if ls.len() == 0 {
        Seq::empty()
    } else if ls.len() == 1 {
        ls[0]
    } else {
        ls[0].push('\n') + joined(ls.skip(1))
    }
}

/// What is kept of a line: its longest part of whole characters, from the
/// front, that takes no more bytes than a line may.
pub open spec fn clipped(s: Seq<char>) -> Seq<char>
    decreases s.len(),
{
    if s.len() == 0 || vstd::utf8::encode_utf8(s).len() <= MAX_LINE_LEN {
        s
    } else {
        clipped(s.drop_last())
    }
}

/// The last `n` of a list.
pub open spec fn newest(ls: Seq<Seq<char>>, n: int) -> Seq<Seq<char>> {
    if ls.len() > n {
        ls.skip(ls.len() - n)
    } else {
        ls
    }
}

/// The log with one more line.
pub open spec fn appended(blob: Seq<char>, line: Seq<char>) -> Seq<char> {
    joined(newest(lines(blob).push(clipped(line)), MAX_ENTRIES as int))
}

/// The texts of a list.
pub open spec fn views(v: Seq<String>) -> Seq<Seq<char>> {
    Seq::new(v.len(), |i: int| v[i]@)
}

/// How many bytes a character takes.
fn byte_len(c: char) -> (r: usize)
    ensures
        r == vstd::utf8::encode_scalar(c as u32).len(),
        1 <= r <= 4,
{
    let n: u32 = c as u32;
    if n <= 0x7F {
        1
    } else if n <= 0x7FF {
        2
    } else if n <= 0xFFFF {
        3
    } else {
        4
    }
}

/// One character more takes its bytes more.
proof fn lemma_one_more(s: Seq<char>, k: int)
    requires
        0 <= k < s.len(),
    ensures
        vstd::utf8::encode_utf8(s.take(k + 1)).len() == vstd::utf8::encode_utf8(s.take(k)).len()
            + vstd::utf8::encode_scalar(s[k] as u32).len(),
{
    let one = seq![s[k]];
    assert(s.take(k + 1) =~= s.take(k) + one);
    text::lemma_encode_concat(s.take(k), one);
    assert(one.drop_first() =~= Seq::<char>::empty());
    assert(vstd::utf8::encode_utf8(one.drop_first()) =~= Seq::<u8>::empty());
    assert(vstd::utf8::encode_utf8(one) =~= vstd::utf8::encode_scalar(s[k] as u32));
}

/// The shorter part of a text takes no more bytes.
proof fn lemma_part(s: Seq<char>, i: int, j: int)
    requires
        0 <= i <= j <= s.len(),
    ensures
        vstd::utf8::encode_utf8(s.take(i)).len() + (j - i) <= vstd::utf8::encode_utf8(s.take(j)).len(),
    decreases j - i,
{
    if i < j {
        lemma_part(s, i, j - 1);
        lemma_one_more(s, j - 1);
        assert(vstd::utf8::encode_scalar(s[j - 1] as u32).len() >= 1);
    }
}

/// A part of a line that fits, and would not with one character more, is what
/// is kept of it.
proof fn lemma_clipped(s: Seq<char>, k: int)
    requires
        0 <= k <= s.len(),
        vstd::utf8::encode_utf8(s.take(k)).len() <= MAX_LINE_LEN,
        k < s.len() ==> vstd::utf8::encode_utf8(s.take(k + 1)).len() > MAX_LINE_LEN,
    ensures
        clipped(s) == s.take(k),
    decreases s.len(),
{
    assert(s.take(s.len() as int) =~= s);
    if k < s.len() {
        lemma_part(s, k + 1, s.len() as int);
        let front = s.drop_last();
        assert(front.take(k) =~= s.take(k));
        if k < front.len() {
            assert(front.take(k + 1) =~= s.take(k + 1));
        }
        lemma_clipped(front, k);
    }
}

/// How many characters of a line are kept.
fn cut(s: &[char]) -> (k: usize)
    ensures
        k <= s@.len(),
        s@.take(k as int) == clipped(s@),
{
    let mut used: usize = 0;
    let mut k: usize = 0;
    assert(s@.take(0) =~= Seq::<char>::empty());
    assert(vstd::utf8::encode_utf8(s@.take(0)) =~= Seq::<u8>::empty());
    while k < s.len()
        invariant
            k <= s@.len(),
            used == vstd::utf8::encode_utf8(s@.take(k as int)).len(),
            used <= MAX_LINE_LEN,
        decreases s@.len() - k,
    {
        let more: usize = used + byte_len(s[k]);
        proof {
            lemma_one_more(s@, k as int);
        }
        if more > MAX_LINE_LEN {
            proof {
                lemma_clipped(s@, k as int);
            }
            return k;
        }
        used = more;
        k += 1;
    }
    proof {
        lemma_clipped(s@, k as int);
    }
    k
}

/// Reads the log back, oldest line first. `None` stands for nothing stored.
pub fn read_lines(blob: Option<&str>) -> (r: Vec<String>)
    ensures
        views(r@) == (match blob {
            Some(b) => lines(b@),
            None => Seq::empty(),
        }),
{
    let mut out: Vec<String> = Vec::new();
    assert(views(out@) =~= Seq::<Seq<char>>::empty());
    let b = match blob {
        Some(b) => b,
        None => return out,
    };
    let all = text::chars(b);
    let parts = text::split_all(all.as_slice(), '\n');
    let ghost fields = text::split(b@, '\n');
    proof {
        text::lemma_find(b@, '\n');
        assert(fields.len() > 0);
    }
    let n: usize = parts.len();
    let mut i: usize = 0;
    assert(views(out@) =~= Seq::new(0, |j: int| without_return(fields[j])));
    while i < n - 1
        invariant
            fields == text::split(b@, '\n'),
            text::views(parts@) == fields,
            n == parts@.len(),
            0 <= i < n,
            views(out@) == Seq::new(i as nat, |j: int| without_return(fields[j])),
        decreases n - i,
    {
        let ghost before = out@;
        let p = parts[i];
        assert(p@ == fields[i as int]);
        let m: usize = p.len();
        let line = if m > 0 && p[m - 1] == '\r' {
            text::string_of(vstd::slice::slice_subrange(p, 0, m - 1))
        } else {
            text::string_of(p)
        };
        assert(line@ =~= without_return(fields[i as int]));
        out.push(line);
        assert(views(out@) =~= views(before).push(without_return(fields[i as int])));
        assert(views(out@) =~= Seq::new((i + 1) as nat, |j: int| without_return(fields[j])));
        i += 1;
    }
    let last = parts[n - 1];
    assert(last@ == fields.last());
    if last.len() > 0 {
        let ghost before = out@;
        out.push(text::string_of(last));
        assert(views(out@) =~= views(before).push(fields.last()));
    }
    out
}

/// The log with one more line: a line too long is cut, and only the newest are
/// kept.
pub fn append(blob: Option<&str>, line: &str) -> (r: String)
    ensures
        r@ == appended(
            match blob {
                Some(b) => b@,
                None => Seq::empty(),
            },
            line@,
        ),
{
    let mut all = read_lines(blob);
    proof {
        if blob is None {
            let none = Seq::<char>::empty();
            text::lemma_split_cons(none, '\n', none);
            assert(lines(none) =~= Seq::<Seq<char>>::empty());
        }
    }
    let ghost before = all@;
    let cs = text::chars(line);
    let kept: usize = cut(cs.as_slice());
    all.push(text::string_of(vstd::slice::slice_subrange(cs.as_slice(), 0, kept)));
    assert(cs@.subrange(0, kept as int) =~= cs@.take(kept as int));
    assert(views(all@) =~= views(before).push(clipped(line@)));
    let from: usize = if all.len() > MAX_ENTRIES {
        all.len() - MAX_ENTRIES
    } else {
        0
    };
    let ghost ls = newest(views(all@), MAX_ENTRIES as int);
    assert(ls =~= views(all@).skip(from as int));
    let mut out: String = String::new();
    let mut i: usize = from;
    assert(out@ + joined(views(all@).skip(i as int)) =~= joined(ls));
    while i < all.len() - 1
        invariant
            from <= i < all@.len(),
            out@ + joined(views(all@).skip(i as int)) == joined(ls),
        decreases all@.len() - i,
    {
        let ghost rest = views(all@).skip(i as int);
        let ghost was = out@;
        assert(rest.skip(1) =~= views(all@).skip(i + 1));
        assert(rest[0] == all@[i as int]@);
        out.push_str(all[i].as_str());
        out.push('\n');
        assert(out@ =~= was + rest[0].push('\n'));
        assert(out@ + joined(rest.skip(1)) =~= was + joined(rest));
        i += 1;
    }
    out.push_str(all[i].as_str());
    assert(views(all@).skip(i as int)[0] == all@[i as int]@);
    out
}

/// Whether a line is read back as it was written.
pub open spec fn plain(s: Seq<char>) -> bool {
    !s.contains('\n') && without_return(s) == s
}

/// Joined lines split into themselves.
proof fn lemma_split_joined(ls: Seq<Seq<char>>)
    requires
        ls.len() > 0,
        forall|i: int| 0 <= i < ls.len() ==> !(#[trigger] ls[i]).contains('\n'),
    ensures
        text::split(joined(ls), '\n') == ls,
    decreases ls.len(),
{
    if ls.len() == 1 {
        text::lemma_split_cons(ls[0], '\n', Seq::empty());
        assert(seq![ls[0]] =~= ls);
    } else {
        let rest = ls.skip(1);
        assert forall|i: int| 0 <= i < rest.len() implies !(#[trigger] rest[i]).contains('\n') by {
            assert(rest[i] == ls[i + 1]);
        }
        lemma_split_joined(rest);
        text::lemma_split_cons(ls[0], '\n', joined(rest));
        assert(seq![ls[0]] + rest =~= ls);
    }
}

/// What is read after a line was noted is what was read before and what is kept
/// of that line, without the oldest where there are too many.
pub proof fn law_noted_lines_are_read_back(blob: Seq<char>, line: Seq<char>)
    requires
        forall|i: int| 0 <= i < lines(blob).len() ==> plain(#[trigger] lines(blob)[i]),
        line.len() > 0,
        !line.contains('\n'),
        without_return(clipped(line)) == clipped(line),
    ensures
        lines(appended(blob, line)) == newest(
            lines(blob).push(clipped(line)),
            MAX_ENTRIES as int,
        ),
        lines(appended(blob, line)).len() <= MAX_ENTRIES,
        lines(appended(blob, line)).last() == clipped(line),
{
    let all = lines(blob).push(clipped(line));
    let ls = newest(all, MAX_ENTRIES as int);
    law_clipped_line_is_the_longest_that_fits(line, 1);
    assert(line.take(0) =~= Seq::<char>::empty());
    assert(vstd::utf8::encode_utf8(line.take(0)) =~= Seq::<u8>::empty());
    lemma_one_more(line, 0);
    assert(clipped(line).len() > 0);
    if clipped(line).contains('\n') {
        let i = choose|i: int| 0 <= i < clipped(line).len() && clipped(line)[i] == '\n';
        assert(line[i] == '\n');
    }
    assert forall|i: int| 0 <= i < ls.len() implies plain(#[trigger] ls[i]) by {
        let j = i + (all.len() - ls.len());
        assert(ls[i] == all[j]);
        if j < lines(blob).len() {
            assert(plain(lines(blob)[j]));
        }
    }
    lemma_split_joined(ls);
    assert(lines(joined(ls)) =~= ls);
}

/// The kept lines always fit the room for reading them back.
pub proof fn law_log_can_be_read_back(ls: Seq<Seq<char>>)
    requires
        ls.len() <= MAX_ENTRIES,
        forall|i: int| 0 <= i < ls.len() ==> vstd::utf8::encode_utf8(#[trigger] ls[i]).len() <= MAX_LINE_LEN,
    ensures
        vstd::utf8::encode_utf8(joined(ls)).len() < READ_BUF_LEN,
{
    lemma_joined_size(ls);
}

/// Joined lines take the bytes of the lines and of what is between them.
proof fn lemma_joined_size(ls: Seq<Seq<char>>)
    requires
        forall|i: int| 0 <= i < ls.len() ==> vstd::utf8::encode_utf8(#[trigger] ls[i]).len() <= MAX_LINE_LEN,
    ensures
        vstd::utf8::encode_utf8(joined(ls)).len() <= ls.len() * (MAX_LINE_LEN + 1),
    decreases ls.len(),
{
    if ls.len() == 0 {
        assert(vstd::utf8::encode_utf8(joined(ls)) =~= Seq::<u8>::empty());
    } else {
        let rest = ls.skip(1);
        assert forall|i: int| 0 <= i < rest.len() implies vstd::utf8::encode_utf8(#[trigger] rest[i]).len()
            <= MAX_LINE_LEN by {
            assert(rest[i] == ls[i + 1]);
        }
        lemma_joined_size(rest);
        let first = ls[0].push('\n');
        lemma_one_more(first, ls[0].len() as int);
        assert(first.take(ls[0].len() as int) =~= ls[0]);
        assert(first.take((ls[0].len() + 1) as int) =~= first);
        text::lemma_encode_concat(first, joined(rest));
        assert(vstd::utf8::encode_scalar('\n' as u32).len() == 1);
    }
}

/// What is kept of a line is a part of it from the front that fits, and no
/// longer part would.
pub proof fn law_clipped_line_is_the_longest_that_fits(line: Seq<char>, k: int)
    ensures
        clipped(line).len() <= line.len(),
        clipped(line) == line.take(clipped(line).len() as int),
        vstd::utf8::encode_utf8(clipped(line)).len() <= MAX_LINE_LEN,
        clipped(line).len() < k <= line.len() ==> vstd::utf8::encode_utf8(line.take(k)).len()
            > MAX_LINE_LEN,
    decreases line.len(),
{
    assert(line.take(line.len() as int) =~= line);
    if line.len() == 0 {
        assert(vstd::utf8::encode_utf8(line) =~= Seq::<u8>::empty());
    } else if vstd::utf8::encode_utf8(line).len() > MAX_LINE_LEN {
        let front = line.drop_last();
        law_clipped_line_is_the_longest_that_fits(front, k);
        assert(front.take(clipped(front).len() as int) =~= line.take(clipped(front).len() as int));
        if k <= front.len() && 0 <= k {
            assert(front.take(k) =~= line.take(k));
        }
    }
}

/// Of the lines that are kept, the fifteen youngest stay in their order, and a
/// line that takes no more than eighty bytes stays whole.
pub proof fn law_youngest_lines_stay(ls: Seq<Seq<char>>, line: Seq<char>, k: int)
    ensures
        ({
            let all = ls.push(clipped(line));
            let kept = newest(all, MAX_ENTRIES as int);
            &&& kept.len() == (if all.len() < 15 {
                all.len()
            } else {
                15
            })
            &&& 0 <= k < kept.len() ==> kept[kept.len() - 1 - k] == all[all.len() - 1 - k]
            &&& kept.last() == clipped(line)
        }),
        vstd::utf8::encode_utf8(line).len() <= 80 ==> clipped(line) == line,
        vstd::utf8::encode_utf8(clipped(line)).len() <= 80,
{
    law_clipped_line_is_the_longest_that_fits(line, 0);
}

} // verus!
