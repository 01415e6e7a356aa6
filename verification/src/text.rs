//! Character-level helpers shared by the parsers: whitespace, searching,
//! tokens, lines and decimal numbers, all stated over `Seq<char>`.

use vstd::prelude::*;
use vstd::string::*;

verus! {

/// The characters of `s`, in order.
pub fn chars_of(s: &str) -> (out: Vec<char>)
    ensures
        out@ == s@,
{
    let mut out: Vec<char> = Vec::new();
    for c in iter: s.chars()
        invariant
            iter.seq() == s@,
            out@ == s@.take(iter.index() as int),
    {
        out.push(c);
        assert(s@.take(iter.index() + 1) =~= s@.take(iter.index() as int).push(c));
    }
    assert(s@.take(s@.len() as int) =~= s@);
    out
}

/// Whether `c` has the Unicode `White_Space` property.
pub open spec fn is_space(c: char) -> bool {
    let u = c as u32;
    ||| 0x09 <= u <= 0x0d
    ||| u == 0x20
    ||| u == 0x85
    ||| u == 0xa0
    ||| u == 0x1680
    ||| 0x2000 <= u <= 0x200a
    ||| u == 0x2028
    ||| u == 0x2029
    ||| u == 0x202f
    ||| u == 0x205f
    ||| u == 0x3000
}

/// Decides [`is_space`].
pub fn is_whitespace(c: char) -> (b: bool)
    ensures
        b == is_space(c),
{
    let u: u32 = c as u32;
    (0x09 <= u && u <= 0x0d) || u == 0x20 || u == 0x85 || u == 0xa0 || u == 0x1680 || (0x2000 <= u
        && u <= 0x200a) || u == 0x2028 || u == 0x2029 || u == 0x202f || u == 0x205f || u == 0x3000
}

/// Whether `pat` stands in `hay` at index `i`.
pub open spec fn occurs_at(hay: Seq<char>, pat: Seq<char>, i: int) -> bool {
    0 <= i && i + pat.len() <= hay.len() && hay.subrange(i, i + pat.len()) == pat
}

/// Whether `pat` stands somewhere in `hay` as a contiguous run.
pub open spec fn contains_text(hay: Seq<char>, pat: Seq<char>) -> bool {
    exists|i: int| occurs_at(hay, pat, i)
}

/// Whether `i` is the least index at which `pat` stands in `hay`.
pub open spec fn is_first_occurrence(hay: Seq<char>, pat: Seq<char>, i: int) -> bool {
    occurs_at(hay, pat, i) && forall|j: int| 0 <= j < i ==> !occurs_at(hay, pat, j)
}

/// The least index at which `pat` stands in `hay`, if it stands anywhere.
pub open spec fn first_occurrence(hay: Seq<char>, pat: Seq<char>) -> Option<int> {
    if contains_text(hay, pat) {
        Some(choose|i: int| is_first_occurrence(hay, pat, i))
    } else {
        None
    }
}

/// A least index of occurrence is the first occurrence.
pub proof fn lemma_first_occurrence(hay: Seq<char>, pat: Seq<char>, i: int)
    requires
        is_first_occurrence(hay, pat, i),
    ensures
        first_occurrence(hay, pat) == Some(i),
{
    let j = choose|j: int| is_first_occurrence(hay, pat, j);
    assert(is_first_occurrence(hay, pat, j));
    if j < i {
        assert(!occurs_at(hay, pat, j));
    }
    if i < j {
        assert(!occurs_at(hay, pat, i));
    }
}

/// Below any occurrence there is a least one.
proof fn least_occurrence(hay: Seq<char>, pat: Seq<char>, i: int) -> (least: int)
    requires
        occurs_at(hay, pat, i),
    ensures
        is_first_occurrence(hay, pat, least),
    decreases i,
{
    if exists|j: int| 0 <= j < i && occurs_at(hay, pat, j) {
        let j = choose|j: int| 0 <= j < i && occurs_at(hay, pat, j);
        least_occurrence(hay, pat, j)
    } else {
        i
    }
}

/// Where `pat` stands in `hay` at all, the first occurrence is an
/// occurrence, and none lies before it.
pub proof fn lemma_first_occurrence_is_least(hay: Seq<char>, pat: Seq<char>)
    requires
        contains_text(hay, pat),
    ensures
        first_occurrence(hay, pat) matches Some(i) && is_first_occurrence(hay, pat, i),
{
    let some = choose|i: int| occurs_at(hay, pat, i);
    let least = least_occurrence(hay, pat, some);
    lemma_first_occurrence(hay, pat, least);
}

fn matches_at(hay: &Vec<char>, pat: &Vec<char>, i: usize) -> (b: bool)
    requires
        i + pat.len() <= hay.len(),
    ensures
        b == occurs_at(hay@, pat@, i as int),
{
    let m: usize = pat.len();
    let mut k: usize = 0;
    while k < m
        invariant
            m == pat.len(),
            i + m <= hay.len(),
            k <= m,
            forall|j: int| 0 <= j < k ==> hay@[i + j] == pat@[j],
        decreases m - k,
    {
        if hay[i + k] != pat[k] {
            assert(hay@.subrange(i as int, i + m)[k as int] != pat@[k as int]);
            return false;
        }
        k = k + 1;
    }
    assert(hay@.subrange(i as int, i + m) =~= pat@);
    true
}

fn find_chars(hay: &Vec<char>, pat: &Vec<char>) -> (r: Option<usize>)
    ensures
        match r {
            Some(i) => is_first_occurrence(hay@, pat@, i as int),
            None => !contains_text(hay@, pat@),
        },
{
    let n: usize = hay.len();
    let m: usize = pat.len();
    if m > n {
        return None;
    }
    let last: usize = n - m;
    let mut i: usize = 0;
    loop
        invariant
            n == hay.len(),
            m == pat.len(),
            last == n - m,
            i <= last,
            forall|j: int| 0 <= j < i ==> !occurs_at(hay@, pat@, j),
        decreases last - i,
    {
        if matches_at(hay, pat, i) {
            return Some(i);
        }
        if i == last {
            return None;
        }
        i = i + 1;
    }
}

/// The index of the first occurrence of `pat` in `hay`, counted in
/// characters.
pub fn find(hay: &str, pat: &str) -> (r: Option<usize>)
    ensures
        match r {
            Some(i) => first_occurrence(hay@, pat@) == Some(i as int) && is_first_occurrence(
                hay@,
                pat@,
                i as int,
            ),
            None => first_occurrence(hay@, pat@) is None,
        },
{
    let h = chars_of(hay);
    let p = chars_of(pat);
    let r = find_chars(&h, &p);
    proof {
        if let Some(i) = r {
            lemma_first_occurrence(hay@, pat@, i as int);
        }
    }
    r
}

/// Whether `pat` stands somewhere in `hay`.
pub fn contains(hay: &str, pat: &str) -> (b: bool)
    ensures
        b == contains_text(hay@, pat@),
{
    let h = chars_of(hay);
    let p = chars_of(pat);
    find_chars(&h, &p).is_some()
}

/// `s` without its leading whitespace.
pub open spec fn trim_start_text(s: Seq<char>) -> Seq<char>
    decreases s.len(),
{
    if s.len() > 0 && is_space(s[0]) {
        trim_start_text(s.drop_first())
    } else {
        s
    }
}

/// `s` without its trailing whitespace.
pub open spec fn trim_end_text(s: Seq<char>) -> Seq<char>
    decreases s.len(),
{
    if s.len() > 0 && is_space(s.last()) {
        trim_end_text(s.drop_last())
    } else {
        s
    }
}

/// `s` without its leading and trailing whitespace.
pub open spec fn trim_text(s: Seq<char>) -> Seq<char> {
    trim_end_text(trim_start_text(s))
}

/// The part of `s` between its leading and its trailing whitespace.
pub fn trim(s: &str) -> (out: &str)
    ensures
        out@ == trim_text(s@),
{
    let cs = chars_of(s);
    let n: usize = cs.len();
    let mut a: usize = 0;
    assert(s@.subrange(0, n as int) =~= s@);
    while a < n && is_whitespace(cs[a])
        invariant
            cs@ == s@,
            n == cs.len(),
            a <= n,
            trim_start_text(s@) == trim_start_text(s@.subrange(a as int, n as int)),
        decreases n - a,
    {
        assert(s@.subrange(a as int, n as int).drop_first() =~= s@.subrange(a + 1, n as int));
        a = a + 1;
    }
    let ghost front = s@.subrange(a as int, n as int);
    assert(trim_start_text(s@) == front);
    let mut b: usize = n;
    while b > a && is_whitespace(cs[b - 1])
        invariant
            cs@ == s@,
            n == cs.len(),
            a <= b <= n,
            front == s@.subrange(a as int, n as int),
            trim_end_text(front) == trim_end_text(s@.subrange(a as int, b as int)),
        decreases b,
    {
        assert(s@.subrange(a as int, b as int).drop_last() =~= s@.subrange(a as int, b - 1));
        b = b - 1;
    }
    proof {
        let kept = s@.subrange(a as int, b as int);
        if b == a {
            assert(kept.len() == 0);
        } else {
            assert(kept.last() == s@[b - 1]);
        }
        assert(trim_end_text(kept) == kept);
    }
    s.substring_char(a, b)
}

/// Trimming the end keeps a prefix, and what it keeps does not end in
/// whitespace.
pub proof fn lemma_trim_end(s: Seq<char>)
    ensures
        trim_end_text(s).len() <= s.len(),
        trim_end_text(s) == s.take(trim_end_text(s).len() as int),
        trim_end_text(s).len() > 0 ==> !is_space(trim_end_text(s).last()),
    decreases s.len(),
{
    if s.len() > 0 && is_space(s.last()) {
        let front = s.drop_last();
        lemma_trim_end(front);
        let kept = trim_end_text(front).len() as int;
        assert(front.take(kept) =~= s.take(kept));
    } else {
        assert(s.take(s.len() as int) =~= s);
    }
}

/// Trimming the start keeps a suffix, and what it keeps does not start
/// with whitespace.
pub proof fn lemma_trim_start(s: Seq<char>)
    ensures
        trim_start_text(s).len() <= s.len(),
        trim_start_text(s) == s.skip(s.len() - trim_start_text(s).len()),
        trim_start_text(s).len() > 0 ==> !is_space(trim_start_text(s)[0]),
    decreases s.len(),
{
    if s.len() > 0 && is_space(s[0]) {
        let back = s.drop_first();
        lemma_trim_start(back);
        let cut = back.len() - trim_start_text(back).len();
        assert(back.skip(cut) =~= s.skip(cut + 1));
    } else {
        assert(s.skip(0) =~= s);
    }
}

/// A trimmed text is a contiguous part of the text it came from, and
/// neither starts nor ends with whitespace.
pub proof fn lemma_trim_is_trimmed(s: Seq<char>)
    ensures
        exists|a: int, b: int| 0 <= a <= b <= s.len() && trim_text(s) == s.subrange(a, b),
        trim_text(s).len() > 0 ==> !is_space(trim_text(s)[0]) && !is_space(trim_text(s).last()),
{
    let front = trim_start_text(s);
    lemma_trim_start(s);
    lemma_trim_end(front);
    let a = s.len() - front.len();
    let b = a + trim_text(s).len();
    assert(trim_text(s) =~= s.subrange(a, b));
    if trim_text(s).len() > 0 {
        assert(trim_text(s)[0] == front[0]);
    }
}

/// The first index at or after `i` that holds no whitespace, or the length.
pub open spec fn skip_spaces(s: Seq<char>, i: int) -> int
    decreases s.len() - i,
{
    if 0 <= i < s.len() && is_space(s[i]) {
        skip_spaces(s, i + 1)
    } else {
        i
    }
}

/// The first index at or after `i` that holds whitespace, or the length.
pub open spec fn skip_word(s: Seq<char>, i: int) -> int
    decreases s.len() - i,
{
    if 0 <= i < s.len() && !is_space(s[i]) {
        skip_word(s, i + 1)
    } else {
        i
    }
}

/// Both scans move forward and stay inside the text; a scan over a word
/// that starts at a non-blank character moves at least one step.
pub proof fn lemma_skip_bounds(s: Seq<char>, i: int)
    requires
        0 <= i <= s.len(),
    ensures
        i <= skip_spaces(s, i) <= s.len(),
        i <= skip_word(s, i) <= s.len(),
        i < s.len() && !is_space(s[i]) ==> i < skip_word(s, i),
        skip_spaces(s, i) < s.len() ==> !is_space(s[skip_spaces(s, i)]),
        skip_word(s, i) < s.len() ==> is_space(s[skip_word(s, i)]),
    decreases s.len() - i,
{
    if i < s.len() {
        lemma_skip_bounds(s, i + 1);
    }
}

/// A scan over a word passes no whitespace.
pub proof fn lemma_skip_word_passes_no_blank(s: Seq<char>, i: int)
    requires
        0 <= i <= s.len(),
    ensures
        forall|j: int| i <= j < skip_word(s, i) ==> !is_space(s[j]),
    decreases s.len() - i,
{
    if i < s.len() && !is_space(s[i]) {
        lemma_skip_word_passes_no_blank(s, i + 1);
    }
}

/// The maximal runs of non-whitespace characters of `s` that start at or
/// after `i`, in order.
pub open spec fn tokens_from(s: Seq<char>, i: int) -> Seq<Seq<char>>
    decreases s.len() - i,
{
    if 0 <= i <= s.len() {
        let a = skip_spaces(s, i);
        if a < s.len() {
            let b = skip_word(s, a);
            proof {
                lemma_skip_bounds(s, i);
                lemma_skip_bounds(s, a);
            }
            seq![s.subrange(a, b)] + tokens_from(s, b)
        } else {
            Seq::empty()
        }
    } else {
        Seq::empty()
    }
}

/// No token is empty, and no token holds whitespace.
pub proof fn lemma_tokens_are_words(s: Seq<char>, i: int)
    requires
        0 <= i <= s.len(),
    ensures
        forall|k: int|
            0 <= k < tokens_from(s, i).len() ==> (#[trigger] tokens_from(s, i)[k]).len() > 0
                && forall|j: int|
                0 <= j < tokens_from(s, i)[k].len() ==> !is_space(tokens_from(s, i)[k][j]),
    decreases s.len() - i,
{
    lemma_skip_bounds(s, i);
    let a = skip_spaces(s, i);
    if a < s.len() {
        lemma_skip_bounds(s, a);
        lemma_skip_word_passes_no_blank(s, a);
        let b = skip_word(s, a);
        lemma_tokens_are_words(s, b);
        let first = s.subrange(a, b);
        let rest = tokens_from(s, b);
        assert(tokens_from(s, i) == seq![first] + rest);
        assert forall|k: int| 0 <= k < tokens_from(s, i).len() implies (#[trigger] tokens_from(
            s,
            i,
        )[k]).len() > 0 && forall|j: int|
            0 <= j < tokens_from(s, i)[k].len() ==> !is_space(tokens_from(s, i)[k][j]) by {
            if k == 0 {
                assert(tokens_from(s, i)[0] == first);
                assert forall|j: int| 0 <= j < first.len() implies !is_space(first[j]) by {
                    assert(first[j] == s[a + j]);
                }
            } else {
                assert(tokens_from(s, i)[k] == rest[k - 1]);
            }
        }
    }
}

/// The whitespace-separated tokens of `s`.
pub open spec fn tokens(s: Seq<char>) -> Seq<Seq<char>> {
    tokens_from(s, 0)
}

/// The texts that a vector of string slices holds.
pub open spec fn texts(v: Seq<&str>) -> Seq<Seq<char>> {
    Seq::new(v.len(), |k: int| v[k]@)
}

/// Splits `s` at whitespace; no token is empty.
pub fn split_whitespace(s: &str) -> (out: Vec<&str>)
    ensures
        texts(out@) == tokens(s@),
{
    let cs = chars_of(s);
    let n: usize = cs.len();
    let mut out: Vec<&str> = Vec::new();
    let mut i: usize = 0;
    loop
        invariant
            cs@ == s@,
            n == cs.len(),
            i <= n,
            tokens(s@) == texts(out@) + tokens_from(s@, i as int),
        ensures
            texts(out@) == tokens(s@),
        decreases n - i,
    {
        let mut a: usize = i;
        while a < n && is_whitespace(cs[a])
            invariant
                cs@ == s@,
                n == cs.len(),
                i <= a <= n,
                skip_spaces(s@, i as int) == skip_spaces(s@, a as int),
            decreases n - a,
        {
            a = a + 1;
        }
        if a >= n {
            assert(texts(out@) + Seq::<Seq<char>>::empty() =~= texts(out@));
            break;
        }
        let mut b: usize = a + 1;
        while b < n && !is_whitespace(cs[b])
            invariant
                cs@ == s@,
                n == cs.len(),
                a < b <= n,
                skip_word(s@, a as int) == skip_word(s@, b as int),
            decreases n - b,
        {
            b = b + 1;
        }
        let tok = s.substring_char(a, b);
        proof {
            let before = texts(out@);
            let after = texts(out@.push(tok));
            assert(after =~= before + seq![tok@]);
            assert(tokens_from(s@, i as int) == seq![s@.subrange(a as int, b as int)] + tokens_from(
                s@,
                b as int,
            ));
            assert(before + (seq![tok@] + tokens_from(s@, b as int)) =~= (before + seq![tok@])
                + tokens_from(s@, b as int));
        }
        out.push(tok);
        i = b;
    }
    out
}

/// The first index at or after `i` at which `c` stands in `s`, or the
/// length.
pub open spec fn index_of_from(s: Seq<char>, c: char, i: int) -> int
    decreases s.len() - i,
{
    if 0 <= i < s.len() && s[i] != c {
        index_of_from(s, c, i + 1)
    } else {
        i
    }
}

/// A forward scan ends between its start and the end of the text, on the
/// character it looks for if it ends inside, and passes none before.
pub proof fn lemma_index_of_from(s: Seq<char>, c: char, i: int)
    requires
        0 <= i <= s.len(),
    ensures
        i <= index_of_from(s, c, i) <= s.len(),
        index_of_from(s, c, i) < s.len() ==> s[index_of_from(s, c, i)] == c,
        forall|j: int| i <= j < index_of_from(s, c, i) ==> s[j] != c,
    decreases s.len() - i,
{
    if i < s.len() {
        lemma_index_of_from(s, c, i + 1);
    }
}

/// The last index at which `c` stands in `s`, or -1.
pub open spec fn last_index_of(s: Seq<char>, c: char) -> int
    decreases s.len(),
{
    if s.len() == 0 {
        -1
    } else if s.last() == c {
        s.len() - 1
    } else {
        last_index_of(s.drop_last(), c)
    }
}

/// A backward scan ends on the character it looks for, or at -1, and
/// passes none behind the place where it ends.
pub proof fn lemma_last_index_of(s: Seq<char>, c: char)
    ensures
        -1 <= last_index_of(s, c) < s.len(),
        last_index_of(s, c) >= 0 ==> s[last_index_of(s, c)] == c,
        forall|j: int| last_index_of(s, c) < j < s.len() ==> s[j] != c,
    decreases s.len(),
{
    if s.len() > 0 && s.last() != c {
        let front = s.drop_last();
        lemma_last_index_of(front, c);
        assert forall|j: int| last_index_of(s, c) < j < s.len() implies s[j] != c by {
            if j < front.len() {
                assert(front[j] != c);
            }
        }
    }
}

/// The first index in `from..` at which `c` stands, or the length.
pub(crate) fn find_char_from(cs: &Vec<char>, c: char, from: usize) -> (r: usize)
    requires
        from <= cs.len(),
    ensures
        r == index_of_from(cs@, c, from as int),
        from <= r <= cs.len(),
{
    let n: usize = cs.len();
    let mut e: usize = from;
    while e < n && cs[e] != c
        invariant
            n == cs.len(),
            from <= e <= n,
            index_of_from(cs@, c, from as int) == index_of_from(cs@, c, e as int),
        decreases n - e,
    {
        e = e + 1;
    }
    e
}

/// The last index in `lo..hi` at which `c` stands, counted from `lo`.
pub(crate) fn rfind_char_between(cs: &Vec<char>, c: char, lo: usize, hi: usize) -> (r: Option<
    usize,
>)
    requires
        lo <= hi <= cs.len(),
    ensures
        match r {
            Some(k) => k == last_index_of(cs@.subrange(lo as int, hi as int), c),
            None => last_index_of(cs@.subrange(lo as int, hi as int), c) == -1,
        },
{
    let ghost part = cs@.subrange(lo as int, hi as int);
    let mut k: usize = hi;
    assert(part.take(hi - lo) =~= part);
    while k > lo
        invariant
            lo <= k <= hi <= cs.len(),
            part == cs@.subrange(lo as int, hi as int),
            last_index_of(part, c) == last_index_of(part.take(k - lo), c),
        decreases k,
    {
        if cs[k - 1] == c {
            assert(part.take(k - lo).last() == c);
            return Some(k - 1 - lo);
        }
        assert(part.take(k - lo).drop_last() =~= part.take(k - lo - 1));
        k = k - 1;
    }
    None
}

/// The index of the first line feed at or after `i`, or the length.
pub open spec fn line_end(s: Seq<char>, i: int) -> int {
    index_of_from(s, '\n', i)
}

/// `raw` without one carriage return at its end.
pub open spec fn strip_cr(raw: Seq<char>) -> Seq<char> {
    if raw.len() > 0 && raw.last() == '\r' {
        raw.drop_last()
    } else {
        raw
    }
}

/// The lines of `s` that start at or after `i`. A line ends at a line feed
/// or at the end of the text; a carriage return directly before the line
/// feed belongs to the line ending.
pub open spec fn lines_from(s: Seq<char>, i: int) -> Seq<Seq<char>>
    decreases s.len() - i,
{
    if 0 <= i < s.len() {
        let e = line_end(s, i);
        proof {
            lemma_index_of_from(s, '\n', i);
        }
        if e < s.len() {
            seq![strip_cr(s.subrange(i, e))] + lines_from(s, e + 1)
        } else {
            seq![s.subrange(i, e)]
        }
    } else {
        Seq::empty()
    }
}

/// No line holds a line feed.
pub proof fn lemma_lines_hold_no_line_feed(s: Seq<char>, i: int)
    requires
        0 <= i <= s.len(),
    ensures
        forall|k: int, j: int|
            0 <= k < lines_from(s, i).len() && 0 <= j < lines_from(s, i)[k].len()
                ==> #[trigger] lines_from(s, i)[k][j] != '\n',
    decreases s.len() - i,
{
    if i < s.len() {
        lemma_index_of_from(s, '\n', i);
        let e = line_end(s, i);
        let raw = s.subrange(i, e);
        assert forall|j: int| 0 <= j < raw.len() implies raw[j] != '\n' by {
            assert(raw[j] == s[i + j]);
        }
        if e < s.len() {
            lemma_lines_hold_no_line_feed(s, e + 1);
            let first = strip_cr(raw);
            let rest = lines_from(s, e + 1);
            assert(lines_from(s, i) == seq![first] + rest);
            assert forall|k: int, j: int|
                0 <= k < lines_from(s, i).len() && 0 <= j < lines_from(s, i)[k].len()
                implies #[trigger] lines_from(s, i)[k][j] != '\n' by {
                if k == 0 {
                    assert(lines_from(s, i)[0] == first);
                    assert(first[j] == raw[j]);
                } else {
                    assert(lines_from(s, i)[k] == rest[k - 1]);
                }
            }
        } else {
            assert(lines_from(s, i) == seq![raw]);
        }
    }
}

/// The lines of `s`, without their line endings.
pub open spec fn lines_text(s: Seq<char>) -> Seq<Seq<char>> {
    lines_from(s, 0)
}

/// Splits `s` into its lines.
pub fn lines(s: &str) -> (out: Vec<&str>)
    ensures
        texts(out@) == lines_text(s@),
{
    let cs = chars_of(s);
    let n: usize = cs.len();
    let mut out: Vec<&str> = Vec::new();
    let mut i: usize = 0;
    assert(texts(out@) + lines_from(s@, 0) =~= lines_from(s@, 0));
    while i < n
        invariant
            cs@ == s@,
            n == cs.len(),
            i <= n,
            lines_text(s@) == texts(out@) + lines_from(s@, i as int),
        decreases n - i,
    {
        let e: usize = find_char_from(&cs, '\n', i);
        let mut stop: usize = e;
        if e < n && e > i && cs[e - 1] == '\r' {
            stop = e - 1;
        }
        let line = s.substring_char(i, stop);
        let next: usize = if e < n {
            e + 1
        } else {
            n
        };
        proof {
            let raw = s@.subrange(i as int, e as int);
            if e < n && e > i {
                assert(raw.last() == s@[e - 1]);
                assert(raw.drop_last() =~= s@.subrange(i as int, e - 1));
            }
            assert(lines_from(s@, next as int) =~= if e < n {
                lines_from(s@, e + 1)
            } else {
                Seq::empty()
            });
            assert(seq![line@] + Seq::<Seq<char>>::empty() =~= seq![line@]);
            let before = texts(out@);
            assert(texts(out@.push(line)) =~= before + seq![line@]);
            assert(before + (seq![line@] + lines_from(s@, next as int)) =~= (before + seq![line@])
                + lines_from(s@, next as int));
        }
        out.push(line);
        i = next;
    }
    assert(texts(out@) + Seq::<Seq<char>>::empty() =~= texts(out@));
    out
}

/// Whether `c` is one of the ten ASCII digits.
pub open spec fn is_digit(c: char) -> bool {
    0x30 <= c as u32 <= 0x39
}

/// The number that the digit `c` stands for; 0 for any other character.
pub open spec fn digit_value(c: char) -> nat {
    if is_digit(c) {
        (c as u32 - 0x30) as nat
    } else {
        0
    }
}

/// Whether `s` holds digits only.
pub open spec fn all_digits(s: Seq<char>) -> bool {
    forall|i: int| 0 <= i < s.len() ==> is_digit(#[trigger] s[i])
}

/// The number that `s` spells in base ten.
pub open spec fn decimal_value(s: Seq<char>) -> nat
    decreases s.len(),
{
    if s.len() == 0 {
        0
    } else {
        10 * decimal_value(s.drop_last()) + digit_value(s.last())
    }
}

/// A prefix never spells a larger number than the whole.
pub proof fn lemma_decimal_prefix(s: Seq<char>, k: int)
    requires
        0 <= k <= s.len(),
    ensures
        decimal_value(s.take(k)) <= decimal_value(s),
    decreases s.len() - k,
{
    if k == s.len() {
        assert(s.take(k) =~= s);
    } else {
        assert(s.drop_last().take(k) =~= s.take(k));
        lemma_decimal_prefix(s.drop_last(), k);
    }
}

/// Whether `s` is a run of at least one digit.
pub open spec fn is_number(s: Seq<char>) -> bool {
    s.len() > 0 && all_digits(s)
}

/// `s` without a plus sign at its start.
pub open spec fn without_plus(s: Seq<char>) -> Seq<char> {
    if s.len() > 0 && s[0] == '+' {
        s.drop_first()
    } else {
        s
    }
}

/// The `u64` that `s` spells: an optional plus sign, then digits only, at
/// least one, whose value fits.
pub open spec fn parse_u64_text(s: Seq<char>) -> Option<u64> {
    let d = without_plus(s);
    if is_number(d) && decimal_value(d) <= u64::MAX {
        Some(decimal_value(d) as u64)
    } else {
        None
    }
}

/// The `i64` that `s` spells: an optional plus or minus sign, then digits
/// only, at least one, whose signed value fits.
pub open spec fn parse_i64_text(s: Seq<char>) -> Option<i64> {
    if s.len() > 0 && s[0] == '-' {
        let d = s.drop_first();
        if is_number(d) && decimal_value(d) <= 0x8000_0000_0000_0000 {
            Some((-(decimal_value(d) as int)) as i64)
        } else {
            None
        }
    } else {
        let d = without_plus(s);
        if is_number(d) && decimal_value(d) <= i64::MAX {
            Some(decimal_value(d) as i64)
        } else {
            None
        }
    }
}

/// The value of the digits of `cs` from `from` on, where they are a number
/// that fits in a `u64`.
fn parse_magnitude(cs: &Vec<char>, from: usize) -> (r: Option<u64>)
    requires
        from <= cs.len(),
    ensures
        ({
            let d = cs@.subrange(from as int, cs.len() as int);
            r == if is_number(d) && decimal_value(d) <= u64::MAX {
                Some(decimal_value(d) as u64)
            } else {
                None
            }
        }),
{
    let n: usize = cs.len();
    let ghost d = cs@.subrange(from as int, n as int);
    if from == n {
        return None;
    }
    let mut acc: u64 = 0;
    let mut i: usize = from;
    while i < n
        invariant
            n == cs.len(),
            from <= i <= n,
            d == cs@.subrange(from as int, n as int),
            all_digits(d.take(i - from)),
            acc == decimal_value(d.take(i - from)),
        decreases n - i,
    {
        let c = cs[i];
        let u: u32 = c as u32;
        if u < 0x30 || u > 0x39 {
            assert(!is_digit(d[i - from]));
            return None;
        }
        let v: u64 = (u - 0x30) as u64;
        proof {
            let longer = d.take(i - from + 1);
            assert(longer.drop_last() =~= d.take(i - from));
            assert(longer.last() == c);
            lemma_decimal_prefix(d, i - from + 1);
        }
        let scaled = match acc.checked_mul(10) {
            Some(x) => x,
            None => {
                return None;
            },
        };
        let sum = match scaled.checked_add(v) {
            Some(x) => x,
            None => {
                return None;
            },
        };
        acc = sum;
        i = i + 1;
    }
    assert(d.take(n - from) =~= d);
    Some(acc)
}

/// Reads `s` as a `u64` in base ten.
pub fn parse_u64(s: &str) -> (r: Option<u64>)
    ensures
        r == parse_u64_text(s@),
{
    let cs = chars_of(s);
    let from: usize = if cs.len() > 0 && cs[0] == '+' {
        1
    } else {
        0
    };
    assert(cs@.subrange(from as int, cs.len() as int) =~= without_plus(s@));
    parse_magnitude(&cs, from)
}

/// Reads `s` as an `i64` in base ten.
pub fn parse_i64(s: &str) -> (r: Option<i64>)
    ensures
        r == parse_i64_text(s@),
{
    let cs = chars_of(s);
    if cs.len() > 0 && cs[0] == '-' {
        assert(cs@.subrange(1, cs.len() as int) =~= s@.drop_first());
        match parse_magnitude(&cs, 1) {
            Some(m) => {
                if m < 0x8000_0000_0000_0000 {
                    Some(-(m as i64))
                } else if m == 0x8000_0000_0000_0000 {
                    Some(i64::MIN)
                } else {
                    None
                }
            },
            None => None,
        }
    } else {
        let from: usize = if cs.len() > 0 && cs[0] == '+' {
            1
        } else {
            0
        };
        assert(cs@.subrange(from as int, cs.len() as int) =~= without_plus(s@));
        match parse_magnitude(&cs, from) {
            Some(m) => {
                if m <= 0x7fff_ffff_ffff_ffff {
                    Some(m as i64)
                } else {
                    None
                }
            },
            None => None,
        }
    }
}

/// The digit that stands for `d`.
pub open spec fn digit_char(d: int) -> char {
    if d == 0 {
        '0'
    } else if d == 1 {
        '1'
    } else if d == 2 {
        '2'
    } else if d == 3 {
        '3'
    } else if d == 4 {
        '4'
    } else if d == 5 {
        '5'
    } else if d == 6 {
        '6'
    } else if d == 7 {
        '7'
    } else if d == 8 {
        '8'
    } else {
        '9'
    }
}

/// The digits of `n` in base ten, without leading zeros.
pub open spec fn decimal_digits(n: nat) -> Seq<char>
    decreases n,
{
    if n < 10 {
        seq![digit_char(n as int)]
    } else {
        decimal_digits(n / 10).push(digit_char((n % 10) as int))
    }
}

/// `n` written in base ten, with a minus sign where it is negative.
pub open spec fn decimal_text(n: int) -> Seq<char> {
    if n < 0 {
        seq!['-'] + decimal_digits((-n) as nat)
    } else {
        decimal_digits(n as nat)
    }
}

/// The digits of a number are digits, at least one, and spell the number.
pub proof fn lemma_decimal_digits(n: nat)
    ensures
        is_number(decimal_digits(n)),
        decimal_value(decimal_digits(n)) == n,
    decreases n,
{
    let d = decimal_digits(n);
    if n < 10 {
        assert(d.len() == 1 && d[0] == digit_char(n as int));
        assert(d.drop_last() =~= Seq::<char>::empty());
        assert(decimal_value(d.drop_last()) == 0);
        assert(decimal_value(d) == 10 * decimal_value(d.drop_last()) + digit_value(d.last()));
    } else {
        let front = decimal_digits(n / 10);
        lemma_decimal_digits(n / 10);
        assert(d.drop_last() =~= front);
        assert(d.last() == digit_char((n % 10) as int));
        assert forall|i: int| 0 <= i < d.len() implies is_digit(#[trigger] d[i]) by {
            if i < front.len() {
                assert(d[i] == front[i]);
            }
        }
        assert(decimal_value(d) == 10 * decimal_value(d.drop_last()) + digit_value(d.last()));
    }
}

/// Reading what was written gives the number back.
pub proof fn lemma_decimal_round_trip(n: i64)
    ensures
        parse_i64_text(decimal_text(n as int)) == Some(n),
{
    let text = decimal_text(n as int);
    if n < 0 {
        let digits = decimal_digits((-n) as nat);
        lemma_decimal_digits((-n) as nat);
        assert(text[0] == '-');
        assert(text.drop_first() =~= digits);
    } else {
        lemma_decimal_digits(n as nat);
        assert(is_digit(text[0]));
        assert(without_plus(text) == text);
    }
}

fn digit_str(d: u64) -> (r: &'static str)
    requires
        d < 10,
    ensures
        r@ == seq![digit_char(d as int)],
{
    proof {
        reveal_strlit("0");
        reveal_strlit("1");
        reveal_strlit("2");
        reveal_strlit("3");
        reveal_strlit("4");
        reveal_strlit("5");
        reveal_strlit("6");
        reveal_strlit("7");
        reveal_strlit("8");
        reveal_strlit("9");
    }
    let r = if d == 0 {
        "0"
    } else if d == 1 {
        "1"
    } else if d == 2 {
        "2"
    } else if d == 3 {
        "3"
    } else if d == 4 {
        "4"
    } else if d == 5 {
        "5"
    } else if d == 6 {
        "6"
    } else if d == 7 {
        "7"
    } else if d == 8 {
        "8"
    } else {
        "9"
    };
    assert(r@ =~= seq![digit_char(d as int)]);
    r
}

/// Appends the digits of `m` to `out`.
fn push_decimal(out: &mut String, m: u64)
    ensures
        final(out)@ == old(out)@ + decimal_digits(m as nat),
    decreases m,
{
    if m >= 10 {
        push_decimal(out, m / 10);
    }
    let d = digit_str(m % 10);
    out.append(d);
    proof {
        let sofar = old(out)@;
        if m >= 10 {
            assert((sofar + decimal_digits((m / 10) as nat)) + seq![digit_char((m % 10) as int)]
                =~= sofar + decimal_digits((m / 10) as nat).push(digit_char((m % 10) as int)));
        }
    }
}

/// `n` in base ten.
pub fn decimal_string(n: i64) -> (out: String)
    ensures
        out@ == decimal_text(n as int),
{
    let mut out = String::new();
    if n < 0 {
        proof {
            reveal_strlit("-");
        }
        out.append("-");
        assert(out@ =~= seq!['-']);
        let m: u64 = if n == i64::MIN {
            0x8000_0000_0000_0000
        } else {
            (-n) as u64
        };
        push_decimal(&mut out, m);
    } else {
        push_decimal(&mut out, n as u64);
        assert(Seq::<char>::empty() + decimal_digits(n as nat) =~= decimal_digits(n as nat));
    }
    out
}

/// The lower-case form of a text, as the standard library's Unicode-aware
/// `str::to_lowercase` gives it.
pub uninterp spec fn lowercase(s: Seq<char>) -> Seq<char>;

/// Calls `str::to_lowercase`. The result is taken to depend on the text
/// alone; nothing else is claimed of it.
#[verifier::external_body]
pub(crate) fn to_lowercase(s: &str) -> (out: String)
    ensures
        out@ == lowercase(s@),
{
    s.to_lowercase()
}

} // verus!
