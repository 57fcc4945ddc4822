//! Text as a sequence of characters: splitting, trimming, decimal numbers.
//!
//! Every wire frame, command line and form field of this crate is read and
//! written with the functions of this file, so the contracts of the modules
//! above are stated over its spec functions.

use vstd::prelude::*;
use vstd::slice::slice_subrange;

verus! {

/// `String::push` appends one character.
pub assume_specification[ String::push ](s: &mut String, c: char)
    ensures
        final(s)@ == old(s)@.push(c),
;

/// `String::push_str` appends the characters of a string slice.
pub assume_specification[ String::push_str ](s: &mut String, t: &str)
    ensures
        final(s)@ == old(s)@ + t@,
;

/// The characters of `s`, in order.
pub fn chars(s: &str) -> (out: Vec<char>)
    ensures
        out@ == s@,
{
    let mut out: Vec<char> = Vec::new();
    for c in it: s.chars()
        invariant
            it.seq() == s@,
            out@ == s@.take(it.index()),
    {
        out.push(c);
    }
    out
}

/// The string holding exactly the characters of `s`.
pub fn string_of(s: &[char]) -> (out: String)
    ensures
        out@ == s@,
{
    let mut out: String = String::new();
    let mut i: usize = 0;
    while i < s.len()
        invariant
            i <= s@.len(),
            out@ == s@.take(i as int),
        decreases s@.len() - i,
    {
        out.push(s[i]);
        i += 1;
        assert(s@.take(i as int) =~= s@.take(i - 1).push(s@[i - 1]));
    }
    assert(s@.take(i as int) =~= s@);
    out
}

/// Position of the first `c` in `s`, or the length of `s` where there is none.
pub open spec fn find(s: Seq<char>, c: char) -> int
    decreases s.len(),
{
    if s.len() == 0 || s[0] == c {
        0
    } else {
        1 + find(s.skip(1), c)
    }
}

/// `find` is the first position that holds `c`.
pub proof fn lemma_find(s: Seq<char>, c: char)
    ensures
        0 <= find(s, c) <= s.len(),
        find(s, c) < s.len() ==> s[find(s, c)] == c,
        forall|j: int| 0 <= j < find(s, c) ==> s[j] != c,
    decreases s.len(),
{
    if s.len() > 0 && s[0] != c {
        let t = s.skip(1);
        lemma_find(t, c);
        assert forall|j: int| 0 <= j < find(s, c) implies s[j] != c by {
            if j > 0 {
                assert(t[j - 1] == s[j]);
            }
        }
    }
}

/// A position before which there is no `c`, and which holds `c` or is the end,
/// is what `find` names.
pub proof fn lemma_find_is(s: Seq<char>, c: char, k: int)
    requires
        0 <= k <= s.len(),
        k < s.len() ==> s[k] == c,
        forall|j: int| 0 <= j < k ==> s[j] != c,
    ensures
        find(s, c) == k,
{
    lemma_find(s, c);
    let f = find(s, c);
    if f < k {
        assert(s[f] != c);
    }
    if k < f {
        assert(s[k] != c);
    }
}

/// What stands before the first `c` (all of `s` where there is none).
pub open spec fn head(s: Seq<char>, c: char) -> Seq<char> {
    s.take(find(s, c))
}

/// What stands after the first `c`, if there is one.
pub open spec fn tail(s: Seq<char>, c: char) -> Option<Seq<char>> {
    if find(s, c) < s.len() {
        Some(s.skip(find(s, c) + 1))
    } else {
        None
    }
}

/// The characters behind an optional slice.
pub open spec fn opt_view(o: Option<&[char]>) -> Option<Seq<char>> {
    match o {
        Some(t) => Some(t@),
        None => None,
    }
}

/// A text without `c`, then `c`, then anything: the first two parts.
pub proof fn lemma_head_tail(a: Seq<char>, c: char, b: Seq<char>)
    requires
        !a.contains(c),
    ensures
        head(a.push(c) + b, c) == a,
        tail(a.push(c) + b, c) == Some(b),
        head(a, c) == a,
        tail(a, c) is None,
{
    let s = a.push(c) + b;
    assert forall|j: int| 0 <= j < a.len() implies s[j] != c by {
        assert(a.contains(a[j]));
    }
    lemma_find_is(s, c, a.len() as int);
    assert(s.take(a.len() as int) =~= a);
    assert(s.skip((a.len() + 1) as int) =~= b);
    assert forall|j: int| 0 <= j < a.len() implies a[j] != c by {
        assert(a.contains(a[j]));
    }
    lemma_find_is(a, c, a.len() as int);
    assert(a.take(a.len() as int) =~= a);
}

/// Position of the first `c` in `s`.
pub fn find_char(s: &[char], c: char) -> (k: usize)
    ensures
        k == find(s@, c),
{
    let mut i: usize = 0;
    while i < s.len()
        invariant
            i <= s@.len(),
            forall|j: int| 0 <= j < i ==> s@[j] != c,
        decreases s@.len() - i,
    {
        if s[i] == c {
            proof {
                lemma_find_is(s@, c, i as int);
            }
            return i;
        }
        i += 1;
    }
    proof {
        lemma_find_is(s@, c, i as int);
    }
    i
}

/// Splits `s` at the first `c`.
pub fn split_head<'a>(s: &'a [char], c: char) -> (r: (&'a [char], Option<&'a [char]>))
    ensures
        r.0@ == head(s@, c),
        opt_view(r.1) == tail(s@, c),
{
    proof {
        lemma_find(s@, c);
    }
    let k: usize = find_char(s, c);
    let first = slice_subrange(s, 0, k);
    assert(first@ =~= head(s@, c));
    if k < s.len() {
        let rest = slice_subrange(s, k + 1, s.len());
        assert(rest@ =~= s@.skip(k + 1));
        (first, Some(rest))
    } else {
        (first, None)
    }
}

/// The fields of `s` between separators `c`, in order; never empty.
pub open spec fn split(s: Seq<char>, c: char) -> Seq<Seq<char>>
    decreases s.len(),
{
    let k = find(s, c);
    if 0 <= k < s.len() {
        seq![s.take(k)] + split(s.skip(k + 1), c)
    } else {
        seq![s]
    }
}

/// A field in front of a text is the first field of its split.
pub proof fn lemma_split_cons(a: Seq<char>, c: char, b: Seq<char>)
    requires
        !a.contains(c),
    ensures
        split(a, c) == seq![a],
        split(a.push(c) + b, c) == seq![a] + split(b, c),
{
    lemma_head_tail(a, c, b);
    lemma_find(a, c);
    lemma_find(a.push(c) + b, c);
    assert forall|j: int| 0 <= j < a.len() implies a[j] != c by {
        assert(a.contains(a[j]));
    }
    lemma_find_is(a.push(c) + b, c, a.len() as int);
}

/// The character sequences behind a list of slices.
pub open spec fn views(v: Seq<&[char]>) -> Seq<Seq<char>> {
    Seq::new(v.len(), |i: int| v[i]@)
}

/// All fields of `s` between separators `c`.
pub fn split_all<'a>(s: &'a [char], c: char) -> (out: Vec<&'a [char]>)
    ensures
        views(out@) == split(s@, c),
{
    let mut out: Vec<&'a [char]> = Vec::new();
    let mut rest: &'a [char] = s;
    assert(views(out@) + split(rest@, c) =~= split(s@, c));
    loop
        invariant
            views(out@) + split(rest@, c) == split(s@, c),
        decreases rest@.len(),
    {
        let ghost before = out@;
        proof {
            lemma_find(rest@, c);
        }
        let (first, more) = split_head(rest, c);
        out.push(first);
        match more {
            Some(t) => {
                assert(views(out@) + split(t@, c) =~= views(before) + split(rest@, c));
                rest = t;
            },
            None => {
                assert(rest@.take(find(rest@, c)) =~= rest@);
                assert(views(out@) =~= views(before) + split(rest@, c));
                return out;
            },
        }
    }
}

/// What follows the prefix `p` in `s`, if `s` begins with `p`.
pub open spec fn strip(s: Seq<char>, p: Seq<char>) -> Option<Seq<char>> {
    if p.len() <= s.len() && s.take(p.len() as int) == p {
        Some(s.skip(p.len() as int))
    } else {
        None
    }
}

/// A prefix that was written in front is stripped off again.
pub proof fn lemma_strip(p: Seq<char>, r: Seq<char>)
    ensures
        strip(p + r, p) == Some(r),
{
    assert((p + r).take(p.len() as int) =~= p);
    assert((p + r).skip(p.len() as int) =~= r);
}

/// Texts that differ at a position inside the prefix do not have that prefix.
pub proof fn lemma_strip_none(s: Seq<char>, p: Seq<char>, i: int)
    requires
        0 <= i < p.len(),
        i < s.len() ==> s[i] != p[i],
    ensures
        strip(s, p) is None,
{
    if p.len() <= s.len() {
        assert(s.take(p.len() as int)[i] == s[i]);
    }
}

/// Compares a slice of characters with a string.
pub fn same(a: &[char], b: &str) -> (r: bool)
    ensures
        r == (a@ == b@),
{
    let t = chars(b);
    if a.len() != t.len() {
        return false;
    }
    let mut i: usize = 0;
    while i < a.len()
        invariant
            t@ == b@,
            i <= a@.len() == t@.len(),
            forall|j: int| 0 <= j < i ==> a@[j] == t@[j],
        decreases a@.len() - i,
    {
        if a[i] != t[i] {
            return false;
        }
        i += 1;
    }
    assert(a@ =~= t@);
    true
}

/// Strips the prefix `p` off `s`.
pub fn strip_prefix<'a>(s: &'a [char], p: &str) -> (r: Option<&'a [char]>)
    ensures
        opt_view(r) == strip(s@, p@),
{
    let n: usize = chars(p).len();
    if s.len() < n {
        return None;
    }
    let front = slice_subrange(s, 0, n);
    assert(front@ =~= s@.take(n as int));
    if same(front, p) {
        let rest = slice_subrange(s, n, s.len());
        assert(rest@ =~= s@.skip(n as int));
        Some(rest)
    } else {
        None
    }
}

/// Unicode's White_Space property.
pub open spec fn is_space(c: char) -> bool {
    let u = c as u32;
    ||| 0x09 <= u <= 0x0D
    ||| u == 0x20
    ||| u == 0x85
    ||| u == 0xA0
    ||| u == 0x1680
    ||| 0x2000 <= u <= 0x200A
    ||| u == 0x2028
    ||| u == 0x2029
    ||| u == 0x202F
    ||| u == 0x205F
    ||| u == 0x3000
}

/// Whether `c` is white space.
pub fn space(c: char) -> (r: bool)
    ensures
        r == is_space(c),
{
    let u: u32 = c as u32;
    (0x09 <= u && u <= 0x0D) || u == 0x20 || u == 0x85 || u == 0xA0 || u == 0x1680 || (0x2000 <= u
        && u <= 0x200A) || u == 0x2028 || u == 0x2029 || u == 0x202F || u == 0x205F || u == 0x3000
}

/// `s` without leading white space.
pub open spec fn trim_start(s: Seq<char>) -> Seq<char>
    decreases s.len(),
{
    if s.len() > 0 && is_space(s[0]) {
        trim_start(s.skip(1))
    } else {
        s
    }
}

/// `s` without trailing white space.
pub open spec fn trim_end(s: Seq<char>) -> Seq<char>
    decreases s.len(),
{
    if s.len() > 0 && is_space(s.last()) {
        trim_end(s.drop_last())
    } else {
        s
    }
}

/// `s` without leading and trailing white space.
pub open spec fn trimmed(s: Seq<char>) -> Seq<char> {
    trim_end(trim_start(s))
}

/// `s` without leading and trailing white space.
pub fn trim<'a>(s: &'a [char]) -> (r: &'a [char])
    ensures
        r@ == trimmed(s@),
{
    let mut a: usize = 0;
    assert(s@.skip(0) =~= s@);
    while a < s.len() && space(s[a])
        invariant
            a <= s@.len(),
            trim_start(s@.skip(a as int)) == trim_start(s@),
        decreases s@.len() - a,
    {
        assert(s@.skip(a as int).skip(1) =~= s@.skip(a + 1));
        a += 1;
    }
    let r = slice_subrange(s, a, s.len());
    assert(r@ =~= s@.skip(a as int));
    assert(r@ == trim_start(s@));
    let mut b: usize = r.len();
    assert(r@.take(b as int) =~= r@);
    while b > 0 && space(r[b - 1])
        invariant
            b <= r@.len(),
            trim_end(r@.take(b as int)) == trim_end(r@),
        decreases b,
    {
        assert(r@.take(b as int).drop_last() =~= r@.take(b - 1));
        b -= 1;
    }
    let out = slice_subrange(r, 0, b);
    assert(out@ =~= r@.take(b as int));
    out
}

/// `s` without trailing characters of `set`.
pub open spec fn trim_end_of(s: Seq<char>, set: Seq<char>) -> Seq<char>
    decreases s.len(),
{
    if s.len() > 0 && set.contains(s.last()) {
        trim_end_of(s.drop_last(), set)
    } else {
        s
    }
}

/// Whether `set` holds `c`.
fn member(set: &[char], c: char) -> (r: bool)
    ensures
        r == set@.contains(c),
{
    let mut i: usize = 0;
    while i < set.len()
        invariant
            i <= set@.len(),
            forall|j: int| 0 <= j < i ==> set@[j] != c,
        decreases set@.len() - i,
    {
        if set[i] == c {
            return true;
        }
        i += 1;
    }
    false
}

/// `s` without trailing characters of `set`.
pub fn trim_end_chars<'a>(s: &'a [char], set: &str) -> (r: &'a [char])
    ensures
        r@ == trim_end_of(s@, set@),
{
    let set_chars = chars(set);
    let mut b: usize = s.len();
    assert(s@.take(b as int) =~= s@);
    while b > 0 && member(set_chars.as_slice(), s[b - 1])
        invariant
            b <= s@.len(),
            set_chars@ == set@,
            trim_end_of(s@.take(b as int), set@) == trim_end_of(s@, set@),
        decreases b,
    {
        assert(s@.take(b as int).drop_last() =~= s@.take(b - 1));
        b -= 1;
    }
    let out = slice_subrange(s, 0, b);
    assert(out@ =~= s@.take(b as int));
    out
}

/// A text that neither begins nor ends with white space is left as it is.
pub proof fn lemma_trimmed_same(s: Seq<char>)
    requires
        s.len() > 0 ==> !is_space(s[0]) && !is_space(s.last()),
    ensures
        trimmed(s) == s,
{
}

/// `str::from_utf8` gives the text that the bytes encode, if they encode one.
#[verifier::external_body]
pub(crate) fn from_utf8(bytes: &[u8]) -> (r: Option<&str>)
    ensures
        r is Some <==> vstd::utf8::valid_utf8(bytes@),
        r matches Some(s) ==> s@ == vstd::utf8::decode_utf8(bytes@),
{
    std::str::from_utf8(bytes).ok()
}

/// The text of bytes, with replacement characters where they are no text.
pub uninterp spec fn lossy(bytes: Seq<u8>) -> Seq<char>;

/// `String::from_utf8_lossy` gives the text that the bytes encode; where they
/// encode none, its result depends on the bytes alone.
#[verifier::external_body]
pub(crate) fn from_utf8_lossy(bytes: &[u8]) -> (r: String)
    ensures
        r@ == lossy(bytes@),
        vstd::utf8::valid_utf8(bytes@) ==> r@ == vstd::utf8::decode_utf8(bytes@),
{
    String::from_utf8_lossy(bytes).into_owned()
}

/// The text that is shown for bytes: the one that they encode, and else one with
/// replacement characters.
pub open spec fn shown(bytes: Seq<u8>) -> Seq<char> {
    if vstd::utf8::valid_utf8(bytes) {
        vstd::utf8::decode_utf8(bytes)
    } else {
        lossy(bytes)
    }
}

/// The encoding of two texts one after the other.
pub proof fn lemma_encode_concat(a: Seq<char>, b: Seq<char>)
    ensures
        vstd::utf8::encode_utf8(a + b) == vstd::utf8::encode_utf8(a) + vstd::utf8::encode_utf8(b),
    decreases a.len(),
{
    if a.len() == 0 {
        assert(a + b =~= b);
    } else {
        assert((a + b).drop_first() =~= a.drop_first() + b);
        lemma_encode_concat(a.drop_first(), b);
        assert(vstd::utf8::encode_utf8(a + b) =~= vstd::utf8::encode_utf8(a)
            + vstd::utf8::encode_utf8(b));
    }
}

/// The encoding of a blank.
pub proof fn lemma_encode_blank()
    ensures
        vstd::utf8::encode_utf8(seq![' ']) == seq![32u8],
{
    let s = seq![' '];
    assert(s.drop_first() =~= Seq::<char>::empty());
    assert(vstd::utf8::encode_utf8(s.drop_first()) =~= Seq::<u8>::empty());
    assert((32u32 & 0x7F) as u8 == 32u8) by (bit_vector);
    assert(s[0] as u32 == 32u32);
    assert(vstd::utf8::encode_scalar(32u32) =~= seq![32u8]);
}

/// Whether `a` comes before `b` in the order of character codes.
pub open spec fn less(a: Seq<char>, b: Seq<char>) -> bool
    decreases a.len(),
{
    if b.len() == 0 {
        false
    } else if a.len() == 0 {
        true
    } else if a[0] != b[0] {
        a[0] < b[0]
    } else {
        less(a.skip(1), b.skip(1))
    }
}

/// The order is strict, total and transitive.
pub proof fn lemma_less(a: Seq<char>, b: Seq<char>, c: Seq<char>)
    ensures
        !less(a, a),
        less(a, b) ==> !less(b, a),
        less(a, b) || less(b, a) || a == b,
        less(a, b) && less(b, c) ==> less(a, c),
    decreases a.len(),
{
    if a.len() > 0 {
        lemma_less(
            a.skip(1),
            if b.len() > 0 {
                b.skip(1)
            } else {
                b
            },
            if c.len() > 0 {
                c.skip(1)
            } else {
                c
            },
        );
        if b.len() > 0 && a[0] == b[0] && a.skip(1) == b.skip(1) {
            assert(a =~= seq![a[0]] + a.skip(1));
            assert(b =~= seq![b[0]] + b.skip(1));
        }
    } else if b.len() == 0 {
        assert(a =~= b);
    }
}

/// Compares two texts by their character codes.
pub fn before(a: &[char], b: &[char]) -> (r: bool)
    ensures
        r == less(a@, b@),
{
    let mut i: usize = 0;
    assert(a@.skip(0) =~= a@);
    assert(b@.skip(0) =~= b@);
    while i < a.len() && i < b.len()
        invariant
            i <= a@.len(),
            i <= b@.len(),
            less(a@, b@) == less(a@.skip(i as int), b@.skip(i as int)),
        decreases a@.len() - i,
    {
        if a[i] != b[i] {
            return a[i] < b[i];
        }
        assert(a@.skip(i as int).skip(1) =~= a@.skip(i + 1));
        assert(b@.skip(i as int).skip(1) =~= b@.skip(i + 1));
        i += 1;
    }
    i < b.len()
}

/// A letter of the ASCII alphabet in small.
pub open spec fn lower(c: char) -> char {
    if 'A' <= c <= 'Z' {
        ((c as int) + 32) as char
    } else {
        c
    }
}

/// Whether two texts are the same but for large and small ASCII letters.
pub open spec fn alike(a: Seq<char>, b: Seq<char>) -> bool {
    a.len() == b.len() && forall|i: int|
        0 <= i < a.len() ==> lower(#[trigger] a[i]) == lower(b[i])
}

/// The small letter of an ASCII letter.
fn lowered(c: char) -> (r: char)
    ensures
        r == lower(c),
{
    if 'A' <= c && c <= 'Z' {
        (c as u8 + 32) as char
    } else {
        c
    }
}

/// Compares a slice of characters with a string, large and small ASCII letters
/// taken for the same.
pub fn same_alike(a: &[char], b: &str) -> (r: bool)
    ensures
        r == alike(a@, b@),
{
    let t = chars(b);
    if a.len() != t.len() {
        return false;
    }
    let mut i: usize = 0;
    while i < a.len()
        invariant
            t@ == b@,
            i <= a@.len() == t@.len(),
            forall|j: int| 0 <= j < i ==> lower(#[trigger] a@[j]) == lower(t@[j]),
        decreases a@.len() - i,
    {
        if lowered(a[i]) != lowered(t[i]) {
            assert(lower(a@[i as int]) != lower(b@[i as int]));
            return false;
        }
        i += 1;
    }
    true
}

/// Trimming takes white space off both ends and nothing else: what is left is a
/// part of the text that neither begins nor ends with any, and all before and
/// behind it is white space.
pub proof fn law_trimming_takes_white_space_off_the_ends(s: Seq<char>)
    ensures
        trimmed(s).len() > 0 ==> !is_space(trimmed(s)[0]) && !is_space(trimmed(s).last()),
        exists|a: int, b: int| #[trigger]
            s.subrange(a, b) == trimmed(s) && 0 <= a <= b <= s.len() && (forall|i: int|
                0 <= i < a || b <= i < s.len() ==> is_space(#[trigger] s[i])),
{
    let a = lemma_trim_start(s);
    let t = trim_start(s);
    let n = lemma_trim_end(t);
    let b = a + n;
    assert(s.subrange(a, b) =~= trimmed(s));
    if n == 0 {
        assert(b == a);
    }
    assert forall|i: int| 0 <= i < a || b <= i < s.len() implies is_space(#[trigger] s[i]) by {
        if i >= b {
            assert(t[i - a] == s[i]);
        }
    }
    assert(s.subrange(a, b) == trimmed(s) && 0 <= a <= b <= s.len());
    if n > 0 {
        assert(trimmed(s)[0] == t[0]);
    }
}

/// What trimming takes off in front.
proof fn lemma_trim_start(s: Seq<char>) -> (a: int)
    ensures
        0 <= a <= s.len(),
        trim_start(s) == s.skip(a),
        forall|i: int| 0 <= i < a ==> is_space(#[trigger] s[i]),
        a < s.len() ==> !is_space(s[a]),
    decreases s.len(),
{
    if s.len() > 0 && is_space(s[0]) {
        let b = lemma_trim_start(s.skip(1));
        assert(s.skip(1).skip(b) =~= s.skip(b + 1));
        assert forall|i: int| 0 <= i < b + 1 implies is_space(#[trigger] s[i]) by {
            if i > 0 {
                assert(s.skip(1)[i - 1] == s[i]);
            }
        }
        b + 1
    } else {
        assert(s.skip(0) =~= s);
        0
    }
}

/// What trimming leaves in front of the end.
proof fn lemma_trim_end(s: Seq<char>) -> (n: int)
    ensures
        0 <= n <= s.len(),
        trim_end(s) == s.take(n),
        forall|i: int| n <= i < s.len() ==> is_space(#[trigger] s[i]),
        n > 0 ==> !is_space(s[n - 1]),
    decreases s.len(),
{
    if s.len() > 0 && is_space(s.last()) {
        let front = s.drop_last();
        let n = lemma_trim_end(front);
        assert(front.take(n) =~= s.take(n));
        assert forall|i: int| n <= i < s.len() implies is_space(#[trigger] s[i]) by {
            if i < front.len() {
                assert(front[i] == s[i]);
            }
        }
        n
    } else {
        assert(s.take(s.len() as int) =~= s);
        s.len() as int
    }
}

/// Fields with their separators between them are the text again, and none of them
/// holds the separator.
pub proof fn law_fields_make_up_the_text(s: Seq<char>, c: char)
    ensures
        split(s, c).len() >= 1,
        !split(s, c)[0].contains(c),
        split(s, c).len() == 1 <==> !s.contains(c),
        split(s, c).len() == 1 ==> split(s, c)[0] == s,
        split(s, c).len() > 1 ==> exists|rest: Seq<char>|
            s == split(s, c)[0].push(c) + rest && split(s, c).skip(1) == #[trigger] split(rest, c),
{
    lemma_find(s, c);
    let k = find(s, c);
    if k < s.len() {
        let rest = s.skip(k + 1);
        assert(split(s, c).skip(1) =~= split(rest, c));
        assert(s =~= s.take(k).push(c) + rest);
        assert(s.contains(c)) by {
            assert(s[k] == c);
        }
        assert(split(s, c)[0] == s.take(k));
        assert(!s.take(k).contains(c)) by {
            if s.take(k).contains(c) {
                let i = choose|i: int| 0 <= i < k && s.take(k)[i] == c;
                assert(s[i] == c);
            }
        }
        lemma_find(rest, c);
        assert(split(rest, c).len() >= 1);
    } else if s.contains(c) {
        let i = choose|i: int| 0 <= i < s.len() && s[i] == c;
        assert(s[i] != c);
    }
}

} // verus!
