//! Settings from a file, one `<name>=<value>` per line.

use vstd::prelude::*;
use crate::text;

verus! {

/// The setting in a line: no empty line, no comment, white space trimmed off.
pub open spec fn setting_in(line: Seq<char>) -> Option<(Seq<char>, Seq<char>)> {
    let t = text::trimmed(line);
    if t.len() == 0 || t[0] == '#' {
        None
    } else {
        match text::tail(t, '=') {
            Some(v) => Some((text::trimmed(text::head(t, '=')), text::trimmed(v))),
            None => None,
        }
    }
}

/// The settings in lines, in order.
pub open spec fn settings_in(lines: Seq<Seq<char>>) -> Seq<(Seq<char>, Seq<char>)>
    decreases lines.len(),
{
    if lines.len() == 0 {
        Seq::empty()
    } else {
        let front = settings_in(lines.drop_last());
        match setting_in(lines.last()) {
            Some(p) => front.push(p),
            None => front,
        }
    }
}

/// Settings as values.
pub open spec fn pairs(v: Seq<(String, String)>) -> Seq<(Seq<char>, Seq<char>)> {
    Seq::new(v.len(), |i: int| (v[i].0@, v[i].1@))
}

/// Reads a line.
fn line_setting(line: &[char]) -> (r: Option<(String, String)>)
    ensures
        r matches Some(p) ==> setting_in(line@) == Some((p.0@, p.1@)),
        r is None ==> setting_in(line@) is None,
{
    let t = text::trim(line);
    if t.len() == 0 || t[0] == '#' {
        return None;
    }
    let (key, value) = text::split_head(t, '=');
    match value {
        Some(v) => Some((text::string_of(text::trim(key)), text::string_of(text::trim(v)))),
        None => None,
    }
}

/// Reads the settings of a file, in order.
pub fn parse_env_file(content: &str) -> (r: Vec<(String, String)>)
    ensures
        pairs(r@) == settings_in(text::split(content@, '\n')),
{
    let all = text::chars(content);
    let lines = text::split_all(all.as_slice(), '\n');
    let ghost whole = text::split(content@, '\n');
    assert(text::views(lines@) == whole);
    let mut out: Vec<(String, String)> = Vec::new();
    let mut i: usize = 0;
    assert(pairs(out@) =~= Seq::empty());
    while i < lines.len()
        invariant
            text::views(lines@) == whole,
            i <= lines@.len(),
            pairs(out@) == settings_in(whole.take(i as int)),
        decreases lines@.len() - i,
    {
        let ghost more = whole.take(i + 1);
        let ghost before = out@;
        assert(more.drop_last() =~= whole.take(i as int));
        assert(more.last() == lines@[i as int]@);
        if let Some(p) = line_setting(lines[i]) {
            out.push(p);
            assert(pairs(out@) =~= pairs(before).push((p.0@, p.1@)));
        }
        i += 1;
    }
    assert(whole.take(lines@.len() as int) =~= whole);
    out
}

/// A line of a name, an equals sign and a value gives that name and that value,
/// whatever the value holds; a comment gives nothing.
pub proof fn law_setting_is_read(name: Seq<char>, value: Seq<char>, rest: Seq<char>)
    requires
        name.len() > 0,
        name[0] != '#',
        !name.contains('='),
        !text::is_space(name[0]) && !text::is_space(name.last()),
        value.len() > 0 ==> !text::is_space(value[0]) && !text::is_space(value.last()),
    ensures
        setting_in(name.push('=') + value) == Some((name, value)),
        rest.len() > 0 && !text::is_space(rest.last()) ==> setting_in(seq!['#'] + rest) is None,
{
    let line = name.push('=') + value;
    text::lemma_trimmed_same(line);
    text::lemma_head_tail(name, '=', value);
    text::lemma_trimmed_same(name);
    text::lemma_trimmed_same(value);
    if rest.len() > 0 && !text::is_space(rest.last()) {
        let comment = seq!['#'] + rest;
        assert(comment.last() == rest.last());
        text::lemma_trimmed_same(comment);
    }
}

/// The settings of a file are those of its lines, in their order.
pub proof fn law_settings_keep_their_order(lines: Seq<Seq<char>>, line: Seq<char>)
    ensures
        setting_in(line) matches Some(p) ==> settings_in(lines.push(line)) == settings_in(
            lines,
        ).push(p),
        setting_in(line) is None ==> settings_in(lines.push(line)) == settings_in(lines),
{
    assert(lines.push(line).drop_last() =~= lines);
}

} // verus!
