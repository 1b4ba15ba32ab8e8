//! Character-level helpers over the `Seq<char>` view of strings.

use vstd::prelude::*;

verus! {

/// Whether a character has the Unicode `White_Space` property, as
/// `char::is_whitespace` reports it: tab through carriage return, space,
/// next line, no-break space, ogham space mark, the spaces from en quad to
/// hair space, line and paragraph separators, narrow no-break space, medium
/// mathematical space and ideographic space.
pub open spec fn white_space(c: char) -> bool {
    ('\u{9}' <= c && c <= '\u{d}') || c == ' ' || c == '\u{85}' || c == '\u{a0}' || c == '\u{1680}'
        || ('\u{2000}' <= c && c <= '\u{200a}') || c == '\u{2028}' || c == '\u{2029}' || c == '\u{202f}'
        || c == '\u{205f}' || c == '\u{3000}'
}

/// `char::is_whitespace`.
pub fn char_is_whitespace(c: char) -> (r: bool)
    ensures
        r == white_space(c),
{
    ('\u{9}' <= c && c <= '\u{d}') || c == ' ' || c == '\u{85}' || c == '\u{a0}' || c == '\u{1680}'
        || ('\u{2000}' <= c && c <= '\u{200a}') || c == '\u{2028}' || c == '\u{2029}' || c == '\u{202f}'
        || c == '\u{205f}' || c == '\u{3000}'
}

/// The characters of a string, in order.
pub fn chars_of(s: &str) -> (v: Vec<char>)
    ensures
        v@ == s@,
{
    let mut v: Vec<char> = Vec::new();
    for c in it: s.chars()
        invariant
            v@ == it.seq().take(it.index() as int),
    {
        v.push(c);
    }
    v
}


/// The text without its leading white space.
pub open spec fn trim_start(s: Seq<char>) -> Seq<char>
    decreases s.len(),
{
    if s.len() > 0 && white_space(s[0]) {
        trim_start(s.drop_first())
    } else {
        s
    }
}

/// The text without its trailing white space.
pub open spec fn trim_end(s: Seq<char>) -> Seq<char>
    decreases s.len(),
{
    if s.len() > 0 && white_space(s.last()) {
        trim_end(s.drop_last())
    } else {
        s
    }
}

/// `str::trim`: the text without leading and trailing white space.
pub open spec fn trimmed(s: Seq<char>) -> Seq<char> {
    trim_end(trim_start(s))
}

/// Whether every character of the text is white space (so that it trims to nothing).
pub open spec fn all_white(s: Seq<char>) -> bool {
    forall|k: int| 0 <= k < s.len() ==> white_space(#[trigger] s[k])
}

/// A text trims to nothing exactly when it is all white space.
pub proof fn lemma_trimmed_empty(s: Seq<char>)
    ensures
        trim_start(s).len() == 0 <==> all_white(s),
        trimmed(s).len() == 0 <==> all_white(s),
    decreases s.len(),
{
    if s.len() > 0 && white_space(s[0]) {
        lemma_trimmed_empty(s.drop_first());
        if all_white(s.drop_first()) {
            assert forall|k: int| 0 <= k < s.len() implies white_space(#[trigger] s[k]) by {
                if k > 0 {
                    assert(s[k] == s.drop_first()[k - 1]);
                }
            }
        }
        if all_white(s) {
            assert forall|k: int| 0 <= k < s.drop_first().len() implies white_space(
                #[trigger] s.drop_first()[k],
            ) by {
                assert(s.drop_first()[k] == s[k + 1]);
            }
        }
    } else if s.len() > 0 {
        assert(!white_space(s[0]));
    }
    let t = trim_start(s);
    if t.len() > 0 {
        lemma_trim_start_head(s);
        lemma_trim_end_keeps_head(t);
    }
}

/// What `trim_start` leaves begins with a character that is not white space.
proof fn lemma_trim_start_head(s: Seq<char>)
    ensures
        trim_start(s).len() > 0 ==> !white_space(trim_start(s)[0]),
    decreases s.len(),
{
    if s.len() > 0 && white_space(s[0]) {
        lemma_trim_start_head(s.drop_first());
    }
}

/// `trim_end` keeps a first character that is not white space.
proof fn lemma_trim_end_keeps_head(t: Seq<char>)
    requires
        t.len() > 0,
        !white_space(t[0]),
    ensures
        trim_end(t).len() > 0,
    decreases t.len(),
{
    if white_space(t.last()) {
        assert(t.len() > 1);
        lemma_trim_end_keeps_head(t.drop_last());
    }
}

/// The shape of a trim: the kept range `i..j`, white space outside it, and
/// no white space at its ends.
spec fn trim_shape(s: Seq<char>, i: int, j: int) -> bool {
    &&& 0 <= i <= j <= s.len()
    &&& forall|k: int| 0 <= k < i ==> white_space(#[trigger] s[k])
    &&& forall|k: int| j <= k < s.len() ==> white_space(#[trigger] s[k])
    &&& i < j ==> !white_space(s[i]) && !white_space(s[j - 1])
}

/// `str::trim`, over `char::is_whitespace`.
pub fn trim(s: &str) -> (r: &str)
    ensures
        r@ == trimmed(s@),
        exists|i: int, j: int|
            {
                &&& 0 <= i <= j <= s@.len()
                &&& r@ == s@.subrange(i, j)
                &&& forall|k: int| 0 <= k < i ==> white_space(#[trigger] s@[k])
                &&& forall|k: int| j <= k < s@.len() ==> white_space(#[trigger] s@[k])
                &&& i < j ==> !white_space(s@[i]) && !white_space(s@[j - 1])
            },
{
    let v = chars_of(s);
    let n = v.len();
    let mut i: usize = 0;
    assert(s@.subrange(0, n as int) =~= s@);
    while i < n && char_is_whitespace(v[i])
        invariant
            i <= n,
            n == v@.len(),
            v@ == s@,
            trim_start(s@) == trim_start(s@.subrange(i as int, n as int)),
            forall|k: int| 0 <= k < i ==> white_space(#[trigger] s@[k]),
        decreases n - i,
    {
        assert(s@.subrange(i as int, n as int).drop_first() =~= s@.subrange(i + 1, n as int));
        i = i + 1;
    }
    assert(trim_start(s@) == s@.subrange(i as int, n as int));
    let mut j: usize = n;
    while j > i && char_is_whitespace(v[j - 1])
        invariant
            i <= j <= n,
            n == v@.len(),
            v@ == s@,
            trimmed(s@) == trim_end(s@.subrange(i as int, j as int)),
            forall|k: int| 0 <= k < i ==> white_space(#[trigger] s@[k]),
            forall|k: int| j <= k < n ==> white_space(#[trigger] s@[k]),
            i < n ==> !white_space(s@[i as int]),
        decreases j - i,
    {
        assert(s@.subrange(i as int, j as int).drop_last() =~= s@.subrange(i as int, j - 1));
        j = j - 1;
    }
    assert(trim_shape(s@, i as int, j as int));
    s.substring_char(i, j)
}


/// Whether `m` occurs in `h` starting at position `at`.
pub open spec fn occurs_at(h: Seq<char>, m: Seq<char>, at: int) -> bool {
    0 <= at && at + m.len() <= h.len() && h.subrange(at, at + m.len()) == m
}

/// Whether `s` begins with `p`.
pub open spec fn has_prefix(s: Seq<char>, p: Seq<char>) -> bool {
    occurs_at(s, p, 0)
}

/// The first position at or after `from` where `m` occurs in `h`.
pub open spec fn first_occurrence_from(h: Seq<char>, m: Seq<char>, from: int) -> Option<int>
    decreases h.len() + 1 - from,
{
    if from < 0 || from + m.len() > h.len() {
        None
    } else if occurs_at(h, m, from) {
        Some(from)
    } else {
        first_occurrence_from(h, m, from + 1)
    }
}

/// The first occurrence found is an occurrence, and none comes before it.
pub proof fn lemma_first_occurrence_from(h: Seq<char>, m: Seq<char>, from: int)
    ensures
        first_occurrence_from(h, m, from) matches Some(p) ==> {
            &&& from <= p
            &&& occurs_at(h, m, p)
            &&& forall|q: int| from <= q < p ==> !occurs_at(h, m, q)
        },
        0 <= from && first_occurrence_from(h, m, from) is None ==> forall|q: int|
            from <= q ==> !occurs_at(h, m, q),
    decreases h.len() + 1 - from,
{
    if from < 0 || from + m.len() > h.len() {
    } else if occurs_at(h, m, from) {
    } else {
        lemma_first_occurrence_from(h, m, from + 1);
    }
}

/// `str::find`, counted in characters: the first position where `m` occurs in `h`.
pub open spec fn first_occurrence(h: Seq<char>, m: Seq<char>) -> Option<int> {
    first_occurrence_from(h, m, 0)
}

/// Whether `m` occurs in `h` at position `at`.
pub fn matches_at(h: &Vec<char>, at: usize, m: &Vec<char>) -> (r: bool)
    ensures
        r == occurs_at(h@, m@, at as int),
{
    if at > h.len() || m.len() > h.len() - at {
        return false;
    }
    let mut k: usize = 0;
    while k < m.len()
        invariant
            k <= m.len(),
            at + m.len() <= h.len(),
            forall|q: int| 0 <= q < k ==> h@[at + q] == m@[q],
        decreases m.len() - k,
    {
        if h[at + k] != m[k] {
            assert(h@.subrange(at as int, at + m.len())[k as int] != m@[k as int]);
            return false;
        }
        k = k + 1;
    }
    assert(h@.subrange(at as int, at + m.len()) =~= m@);
    true
}

/// The first position where `m` occurs in `h`, as `str::find` reports it
/// (counted in characters rather than bytes).
pub fn find_chars(h: &Vec<char>, m: &Vec<char>) -> (r: Option<usize>)
    ensures
        match r {
            Some(p) => first_occurrence(h@, m@) == Some(p as int) && occurs_at(h@, m@, p as int),
            None => first_occurrence(h@, m@) is None,
        },
{
    proof {
        lemma_first_occurrence_from(h@, m@, 0);
    }
    if m.len() > h.len() {
        return None;
    }
    let last = h.len() - m.len();
    let mut i: usize = 0;
    loop
        invariant
            last + m.len() == h.len(),
            i <= last,
            first_occurrence(h@, m@) == first_occurrence_from(h@, m@, i as int),
        decreases last - i,
    {
        if matches_at(h, i, m) {
            return Some(i);
        }
        if i == last {
            assert(first_occurrence_from(h@, m@, i + 1) is None);
            return None;
        }
        i = i + 1;
    }
}

/// `str::strip_prefix`: the rest of `s` after `p`, where `s` begins with `p`.
pub fn strip_prefix<'a>(s: &'a str, p: &str) -> (r: Option<&'a str>)
    ensures
        match r {
            Some(t) => has_prefix(s@, p@) && t@ == s@.skip(p@.len() as int),
            None => !has_prefix(s@, p@),
        },
{
    let sv = chars_of(s);
    let pv = chars_of(p);
    if matches_at(&sv, 0, &pv) {
        let rest = s.substring_char(pv.len(), sv.len());
        assert(rest@ =~= s@.skip(p@.len() as int));
        Some(rest)
    } else {
        None
    }
}

/// Whether two strings hold the same characters.
pub fn same_text(a: &str, b: &str) -> (r: bool)
    ensures
        r == (a@ == b@),
{
    let av = chars_of(a);
    let bv = chars_of(b);
    if av.len() != bv.len() {
        return false;
    }
    let r = matches_at(&av, 0, &bv);
    assert(av@.subrange(0, bv@.len() as int) =~= av@);
    r
}


/// The two texts one after the other.
pub fn concat(a: &str, b: &str) -> (r: String)
    ensures
        r@ == a@ + b@,
{
    let mut s = a.to_owned();
    s.append(b);
    s
}


/// At most the first `n` characters of a text (for quoting a reply body).
pub fn first_chars(s: &str, n: usize) -> (r: String)
    ensures
        r@ == (if s@.len() <= n {
            s@
        } else {
            s@.take(n as int)
        }),
{
    let len = s.unicode_len();
    if len <= n {
        s.to_owned()
    } else {
        s.substring_char(0, n).to_owned()
    }
}

} // verus!
