//! Character sequences: classes of characters, runs, lines, tokens, search.
//!
//! Every function is stated over `Seq<char>` and runs over `&[char]`, so that
//! positions are counted in characters and never fall inside one.

use vstd::prelude::*;
use vstd::slice::slice_subrange;
use vstd::string::*;

verus! {

/// A set of characters that a run is made of.
#[derive(Debug, Clone, Copy, PartialEq, Eq, Structural)]
pub enum CharClass {
    /// White space.
    Space,
    /// Anything but white space.
    NotSpace,
    /// The one character given.
    Is(char),
    /// Every character but the one given.
    IsNot(char),
}

/// The characters that Unicode marks as `White_Space`.
pub open spec fn is_space(c: char) -> bool {
    let n = c as u32;
    ||| 0x09 <= n <= 0x0D
    ||| n == 0x20
    ||| n == 0x85
    ||| n == 0xA0
    ||| n == 0x1680
    ||| 0x2000 <= n <= 0x200A
    ||| n == 0x2028
    ||| n == 0x2029
    ||| n == 0x202F
    ||| n == 0x205F
    ||| n == 0x3000
}

/// Whether `c` belongs to the class `k`.
pub open spec fn in_class(k: CharClass, c: char) -> bool {
    match k {
        CharClass::Space => is_space(c),
        CharClass::NotSpace => !is_space(c),
        CharClass::Is(x) => c == x,
        CharClass::IsNot(x) => c != x,
    }
}

/// Length of the longest prefix of `s` made of characters of class `k`.
pub open spec fn leading(s: Seq<char>, k: CharClass) -> nat
    decreases s.len(),
{
    if s.len() > 0 && in_class(k, s[0]) {
        1 + leading(s.drop_first(), k)
    } else {
        0
    }
}

/// Length of the longest suffix of `s` made of characters of class `k`.
pub open spec fn trailing(s: Seq<char>, k: CharClass) -> nat
    decreases s.len(),
{
    if s.len() > 0 && in_class(k, s.last()) {
        1 + trailing(s.drop_last(), k)
    } else {
        0
    }
}

/// `leading` is the first position whose character is outside the class.
pub proof fn lemma_leading(s: Seq<char>, k: CharClass)
    ensures
        leading(s, k) <= s.len(),
        forall|i: int| 0 <= i < leading(s, k) ==> in_class(k, #[trigger] s[i]),
        leading(s, k) < s.len() ==> !in_class(k, s[leading(s, k) as int]),
    decreases s.len(),
{
    if s.len() > 0 && in_class(k, s[0]) {
        let t = s.drop_first();
        lemma_leading(t, k);
        assert forall|i: int| 0 <= i < leading(s, k) implies in_class(k, #[trigger] s[i]) by {
            if i > 0 {
                assert(s[i] == t[i - 1]);
            }
        }
        if leading(s, k) < s.len() {
            assert(s[leading(s, k) as int] == t[leading(t, k) as int]);
        }
    }
}

/// `trailing` never counts more characters than there are.
pub proof fn lemma_trailing(s: Seq<char>, k: CharClass)
    ensures
        trailing(s, k) <= s.len(),
    decreases s.len(),
{
    if s.len() > 0 && in_class(k, s.last()) {
        lemma_trailing(s.drop_last(), k);
    }
}

/// A prefix of `n` characters of the class, followed by the end or by a
/// character outside it, is the leading run.
pub proof fn lemma_leading_is(s: Seq<char>, k: CharClass, n: int)
    requires
        0 <= n <= s.len(),
        forall|i: int| 0 <= i < n ==> in_class(k, #[trigger] s[i]),
        n < s.len() ==> !in_class(k, s[n]),
    ensures
        leading(s, k) == n,
    decreases s.len(),
{
    if n > 0 {
        let t = s.drop_first();
        assert forall|i: int| 0 <= i < n - 1 implies in_class(k, #[trigger] t[i]) by {
            assert(t[i] == s[i + 1]);
        }
        lemma_leading_is(t, k, n - 1);
    }
}

/// A suffix of `n` characters of the class, preceded by the start or by a
/// character outside it, is the trailing run.
pub proof fn lemma_trailing_is(s: Seq<char>, k: CharClass, n: int)
    requires
        0 <= n <= s.len(),
        forall|i: int| s.len() - n <= i < s.len() ==> in_class(k, #[trigger] s[i]),
        n < s.len() ==> !in_class(k, s[s.len() - n - 1]),
    ensures
        trailing(s, k) == n,
    decreases s.len(),
{
    if n > 0 {
        let t = s.drop_last();
        assert forall|i: int| t.len() - (n - 1) <= i < t.len() implies in_class(
            k,
            #[trigger] t[i],
        ) by {
            assert(t[i] == s[i]);
        }
        lemma_trailing_is(t, k, n - 1);
    }
}

/// Whether `c` is white space.
pub fn is_space_char(c: char) -> (r: bool)
    ensures
        r == is_space(c),
{
    let n: u32 = c as u32;
    (0x09 <= n && n <= 0x0D) || n == 0x20 || n == 0x85 || n == 0xA0 || n == 0x1680 || (0x2000 <= n
        && n <= 0x200A) || n == 0x2028 || n == 0x2029 || n == 0x202F || n == 0x205F || n == 0x3000
}

/// Whether `c` belongs to the class `k`.
pub fn char_in_class(k: CharClass, c: char) -> (r: bool)
    ensures
        r == in_class(k, c),
{
    match k {
        CharClass::Space => is_space_char(c),
        CharClass::NotSpace => !is_space_char(c),
        CharClass::Is(x) => c == x,
        CharClass::IsNot(x) => c != x,
    }
}

/// Counts the characters of class `k` that `s` starts with.
pub fn leading_run(s: &[char], k: CharClass) -> (n: usize)
    ensures
        n == leading(s@, k),
        n <= s@.len(),
{
    let mut i: usize = 0;
    while i < s.len() && char_in_class(k, s[i])
        invariant
            i <= s@.len(),
            forall|j: int| 0 <= j < i ==> in_class(k, #[trigger] s@[j]),
        decreases s@.len() - i,
    {
        i += 1;
    }
    proof {
        lemma_leading_is(s@, k, i as int);
    }
    i
}

/// Counts the characters of class `k` that `s` ends with.
pub fn trailing_run(s: &[char], k: CharClass) -> (n: usize)
    ensures
        n == trailing(s@, k),
        n <= s@.len(),
{
    let len = s.len();
    let mut i: usize = 0;
    while i < len && char_in_class(k, s[len - 1 - i])
        invariant
            len == s@.len(),
            i <= len,
            forall|j: int| len - i <= j < len ==> in_class(k, #[trigger] s@[j]),
        decreases len - i,
    {
        i += 1;
    }
    proof {
        lemma_trailing_is(s@, k, i as int);
    }
    i
}


/// `s` without the run of `c` at its start and the run of `c` at its end.
pub open spec fn stripped(s: Seq<char>, c: char) -> Seq<char> {
    let t = s.skip(leading(s, CharClass::Is(c)) as int);
    t.take(t.len() - trailing(t, CharClass::Is(c)))
}

/// `s` without the run of `c` at its end.
pub open spec fn stripped_end(s: Seq<char>, c: char) -> Seq<char> {
    s.take(s.len() - trailing(s, CharClass::Is(c)))
}

/// White space only, or nothing at all.
pub open spec fn is_blank(s: Seq<char>) -> bool {
    leading(s, CharClass::Space) == s.len()
}

/// A line without the carriage return that stood before its line feed.
pub open spec fn without_cr(s: Seq<char>) -> Seq<char> {
    if s.len() > 0 && s.last() == '\r' {
        s.drop_last()
    } else {
        s
    }
}

/// The lines of `s`. A line ends at a line feed, which is not part of it, nor
/// is a carriage return just before that line feed. What follows the last line
/// feed is a line if it is not empty.
pub open spec fn lines(s: Seq<char>) -> Seq<Seq<char>>
    decreases s.len(),
{
    if s.len() == 0 {
        Seq::empty()
    } else {
        let n = leading(s, CharClass::IsNot('\n'));
        if n >= s.len() {
            seq![s]
        } else {
            seq![without_cr(s.take(n as int))] + lines(s.skip(n as int + 1))
        }
    }
}

/// The maximal runs of characters other than white space, in order.
pub open spec fn tokens(s: Seq<char>) -> Seq<Seq<char>>
    decreases s.len(),
{
    if s.len() == 0 {
        Seq::empty()
    } else if is_space(s[0]) {
        tokens(s.drop_first())
    } else {
        let n = 1 + leading(s.drop_first(), CharClass::NotSpace);
        if n <= s.len() {
            seq![s.take(n as int)] + tokens(s.skip(n as int))
        } else {
            Seq::empty()
        }
    }
}

/// No token is empty and no token holds white space.
pub proof fn lemma_token_holds_no_space(s: Seq<char>, t: int)
    requires
        0 <= t < tokens(s).len(),
    ensures
        tokens(s)[t].len() > 0,
        forall|i: int| 0 <= i < tokens(s)[t].len() ==> !is_space(#[trigger] tokens(s)[t][i]),
    decreases s.len(),
{
    if s.len() == 0 {
    } else if is_space(s[0]) {
        lemma_token_holds_no_space(s.drop_first(), t);
    } else {
        let rest = s.drop_first();
        let n = 1 + leading(rest, CharClass::NotSpace);
        lemma_leading(rest, CharClass::NotSpace);
        let first = s.take(n as int);
        let others = tokens(s.skip(n as int));
        assert(tokens(s) == seq![first] + others);
        if t == 0 {
            assert(tokens(s)[0] == first);
            assert forall|i: int| 0 <= i < first.len() implies !is_space(#[trigger] first[i]) by {
                if i > 0 {
                    assert(first[i] == rest[i - 1]);
                    assert(in_class(CharClass::NotSpace, rest[i - 1]));
                }
            }
        } else {
            assert(tokens(s)[t] == others[t - 1]);
            lemma_token_holds_no_space(s.skip(n as int), t - 1);
        }
    }
}

/// What is left of `s` without the runs of `c` at its ends is a part of `s`.
pub proof fn lemma_stripped_is_part(s: Seq<char>, c: char)
    ensures
        forall|i: int|
            0 <= i < stripped(s, c).len() ==> #[trigger] stripped(s, c)[i] == s[leading(
                s,
                CharClass::Is(c),
            ) + i],
        leading(s, CharClass::Is(c)) + stripped(s, c).len() <= s.len(),
{
    lemma_leading(s, CharClass::Is(c));
    let t = s.skip(leading(s, CharClass::Is(c)) as int);
    lemma_trailing(t, CharClass::Is(c));
}

/// `pat` stands in `hay` at position `i`.
pub open spec fn matches_at(hay: Seq<char>, pat: Seq<char>, i: int) -> bool {
    0 <= i && i + pat.len() <= hay.len() && hay.subrange(i, i + pat.len()) == pat
}

/// The first position at or after `from` where `pat` stands in `hay`.
pub open spec fn find_from(hay: Seq<char>, pat: Seq<char>, from: int) -> Option<int>
    decreases hay.len() + 1 - from,
{
    if from < 0 || from + pat.len() > hay.len() {
        None
    } else if matches_at(hay, pat, from) {
        Some(from)
    } else {
        find_from(hay, pat, from + 1)
    }
}

/// The first position where `pat` stands in `hay`.
pub open spec fn find(hay: Seq<char>, pat: Seq<char>) -> Option<int> {
    find_from(hay, pat, 0)
}

/// The parts, with one space between each two neighbours.
pub open spec fn joined(parts: Seq<Seq<char>>) -> Seq<char>
    decreases parts.len(),
{
    if parts.len() == 0 {
        Seq::empty()
    } else if parts.len() == 1 {
        parts[0]
    } else {
        joined(parts.drop_last()) + seq![' '] + parts.last()
    }
}

/// What each slice of `v` holds.
pub open spec fn texts(v: Seq<&[char]>) -> Seq<Seq<char>> {
    Seq::new(v.len(), |i: int| v[i]@)
}

/// `find` returns the least position at which the pattern stands, and none
/// only if it stands nowhere.
pub proof fn lemma_find_is_first(hay: Seq<char>, pat: Seq<char>)
    ensures
        match find(hay, pat) {
            Some(i) => matches_at(hay, pat, i) && forall|j: int|
                0 <= j < i ==> !matches_at(hay, pat, j),
            None => forall|j: int| !matches_at(hay, pat, j),
        },
{
    lemma_find_from(hay, pat, 0);
}

proof fn lemma_find_from(hay: Seq<char>, pat: Seq<char>, from: int)
    requires
        0 <= from,
    ensures
        match find_from(hay, pat, from) {
            Some(i) => from <= i && matches_at(hay, pat, i) && forall|j: int|
                from <= j < i ==> !matches_at(hay, pat, j),
            None => forall|j: int| from <= j ==> !matches_at(hay, pat, j),
        },
    decreases hay.len() + 1 - from,
{
    if from + pat.len() > hay.len() {
    } else if matches_at(hay, pat, from) {
    } else {
        lemma_find_from(hay, pat, from + 1);
    }
}

/// The part of `s` from `i` up to `j`.
pub fn part<'a>(s: &'a [char], i: usize, j: usize) -> (r: &'a [char])
    requires
        i <= j <= s@.len(),
    ensures
        r@ == s@.subrange(i as int, j as int),
{
    slice_subrange(s, i, j)
}

/// Takes every `c` off both ends of `s`.
pub fn strip<'a>(s: &'a [char], c: char) -> (r: &'a [char])
    ensures
        r@ == stripped(s@, c),
{
    let a = leading_run(s, CharClass::Is(c));
    let t = part(s, a, s.len());
    let b = trailing_run(t, CharClass::Is(c));
    part(t, 0, t.len() - b)
}

/// Takes every `c` off the end of `s`.
pub fn strip_end<'a>(s: &'a [char], c: char) -> (r: &'a [char])
    ensures
        r@ == stripped_end(s@, c),
{
    let b = trailing_run(s, CharClass::Is(c));
    part(s, 0, s.len() - b)
}

/// Whether `s` holds white space only, or nothing.
pub fn blank(s: &[char]) -> (r: bool)
    ensures
        r == is_blank(s@),
{
    leading_run(s, CharClass::Space) == s.len()
}

/// Whether `pat` stands in `hay` at position `i`.
pub fn stands_at(hay: &[char], pat: &[char], i: usize) -> (r: bool)
    ensures
        r == matches_at(hay@, pat@, i as int),
{
    if pat.len() > hay.len() || i > hay.len() - pat.len() {
        return false;
    }
    let end = hay.len();
    let mut k: usize = 0;
    while k < pat.len()
        invariant
            k <= pat@.len(),
            i + pat@.len() <= hay@.len(),
            end == hay@.len(),
            forall|j: int| 0 <= j < k ==> hay@[i + j] == pat@[j],
        decreases pat@.len() - k,
    {
        if hay[i + k] != pat[k] {
            proof {
                let sub = hay@.subrange(i as int, i + pat@.len());
                assert(sub[k as int] == hay@[i + k]);
            }
            return false;
        }
        k += 1;
    }
    assert(hay@.subrange(i as int, i + pat@.len()) =~= pat@);
    true
}

/// The first position where `pat` stands in `hay`.
pub fn find_first(hay: &[char], pat: &[char]) -> (r: Option<usize>)
    ensures
        match r {
            Some(i) => find(hay@, pat@) == Some(i as int) && i + pat@.len() <= hay@.len(),
            None => find(hay@, pat@) is None,
        },
{
    if pat.len() > hay.len() {
        return None;
    }
    let last = hay.len() - pat.len();
    let mut i: usize = 0;
    loop
        invariant
            last == hay@.len() - pat@.len(),
            i <= last,
            find(hay@, pat@) == find_from(hay@, pat@, i as int),
        decreases last - i,
    {
        if stands_at(hay, pat, i) {
            return Some(i);
        }
        if i == last {
            assert(find_from(hay@, pat@, i + 1) is None);
            return None;
        }
        i += 1;
    }
}

/// Whether `pat` stands anywhere in `hay`.
pub fn contains(hay: &[char], pat: &[char]) -> (r: bool)
    ensures
        r == find(hay@, pat@).is_some(),
{
    find_first(hay, pat).is_some()
}

/// Whether the two hold the same characters.
pub fn same(a: &[char], b: &[char]) -> (r: bool)
    ensures
        r == (a@ == b@),
{
    if a.len() != b.len() {
        return false;
    }
    let r = stands_at(a, b, 0);
    proof {
        assert(a@.subrange(0, a@.len() as int) =~= a@);
    }
    r
}

/// Splits `s` into its lines.
pub fn split_lines<'a>(s: &'a [char]) -> (out: Vec<&'a [char]>)
    ensures
        texts(out@) == lines(s@),
{
    let mut out: Vec<&'a [char]> = Vec::new();
    let mut pos: usize = 0;
    assert(s@.skip(0) =~= s@);
    assert(texts(out@) =~= Seq::<Seq<char>>::empty());
    while pos < s.len()
        invariant
            pos <= s@.len(),
            lines(s@) == texts(out@) + lines(s@.skip(pos as int)),
        decreases s@.len() - pos,
    {
        let rest = part(s, pos, s.len());
        let n = leading_run(rest, CharClass::IsNot('\n'));
        let ghost before = texts(out@);
        assert(rest@ == s@.skip(pos as int));
        if n >= rest.len() {
            out.push(rest);
            pos = s.len();
            proof {
                assert(lines(rest@) == seq![rest@]);
                assert(texts(out@) =~= before + seq![rest@]);
                assert(lines(s@.skip(pos as int)) == Seq::<Seq<char>>::empty());
                assert(before + seq![rest@] + Seq::<Seq<char>>::empty() =~= before
                    + seq![rest@]);
            }
        } else {
            let raw = part(rest, 0, n);
            let cr = raw.len() > 0 && raw[raw.len() - 1] == '\r';
            let line = if cr {
                part(raw, 0, raw.len() - 1)
            } else {
                raw
            };
            assert(raw@ == rest@.take(n as int));
            assert(line@ == without_cr(rest@.take(n as int)));
            out.push(line);
            proof {
                assert(rest@.skip(n + 1) =~= s@.skip(pos + n + 1));
                assert(texts(out@) =~= before + seq![line@]);
                assert(before + (seq![line@] + lines(rest@.skip(n + 1))) =~= before
                    + seq![line@] + lines(rest@.skip(n + 1)));
            }
            pos = pos + n + 1;
        }
    }
    proof {
        assert(lines(s@.skip(pos as int)) == Seq::<Seq<char>>::empty());
        assert(texts(out@) + Seq::<Seq<char>>::empty() =~= texts(out@));
    }
    out
}

/// Splits `s` at white space into its tokens.
pub fn split_tokens<'a>(s: &'a [char]) -> (out: Vec<&'a [char]>)
    ensures
        texts(out@) == tokens(s@),
{
    let mut out: Vec<&'a [char]> = Vec::new();
    let mut pos: usize = 0;
    assert(s@.skip(0) =~= s@);
    assert(texts(out@) =~= Seq::<Seq<char>>::empty());
    while pos < s.len()
        invariant
            pos <= s@.len(),
            tokens(s@) == texts(out@) + tokens(s@.skip(pos as int)),
        decreases s@.len() - pos,
    {
        let ghost rest = s@.skip(pos as int);
        if is_space_char(s[pos]) {
            proof {
                assert(rest.drop_first() =~= s@.skip(pos + 1));
            }
            pos += 1;
        } else {
            let tail = part(s, pos + 1, s.len());
            let n = 1 + leading_run(tail, CharClass::NotSpace);
            let tok = part(s, pos, pos + n);
            let ghost before = texts(out@);
            out.push(tok);
            proof {
                assert(tail@ =~= rest.drop_first());
                assert(tok@ =~= rest.take(n as int));
                assert(rest.skip(n as int) =~= s@.skip(pos + n));
                assert(texts(out@) =~= before + seq![tok@]);
                assert(before + (seq![tok@] + tokens(rest.skip(n as int))) =~= before
                    + seq![tok@] + tokens(rest.skip(n as int)));
            }
            pos = pos + n;
        }
    }
    proof {
        assert(tokens(s@.skip(pos as int)) == Seq::<Seq<char>>::empty());
        assert(texts(out@) + Seq::<Seq<char>>::empty() =~= texts(out@));
    }
    out
}

/// Joins the parts from position `from` on with single spaces.
pub fn join_from(parts: &Vec<&[char]>, from: usize) -> (r: Vec<char>)
    requires
        from <= parts@.len(),
    ensures
        r@ == joined(texts(parts@).skip(from as int)),
{
    let mut r: Vec<char> = Vec::new();
    let mut i: usize = from;
    let ghost all = texts(parts@).skip(from as int);
    assert(all.take(0) =~= Seq::<Seq<char>>::empty());
    while i < parts.len()
        invariant
            from <= i <= parts@.len(),
            all == texts(parts@).skip(from as int),
            r@ == joined(all.take(i - from)),
        decreases parts@.len() - i,
    {
        let ghost done = all.take(i - from);
        let ghost next = all.take(i - from + 1);
        proof {
            assert(next.drop_last() =~= done);
            assert(next.last() == parts@[i as int]@);
        }
        if i > from {
            r.push(' ');
        }
        let piece = parts[i];
        append_chars(&mut r, piece);
        proof {
            if i > from {
                assert(r@ =~= joined(done) + seq![' '] + piece@);
            } else {
                assert(done.len() == 0);
                assert(r@ =~= piece@);
            }
        }
        i += 1;
    }
    proof {
        assert(all.take(parts@.len() - from) =~= all);
    }
    r
}


/// `String::push` appends the character to the end of the string and leaves
/// the rest as it was.
pub assume_specification[ String::push ](s: &mut String, ch: char)
    ensures
        final(s)@ == old(s)@.push(ch),
;

/// The characters of `s`, one by one.
pub fn chars_of(s: &str) -> (v: Vec<char>)
    ensures
        v@ == s@,
{
    let mut v: Vec<char> = Vec::new();
    for c in it: s.chars()
        invariant
            v@ == it.seq().take(it.index() as int),
            it.seq() == s@,
    {
        v.push(c);
    }
    v
}

/// A string of the characters of `s`.
pub fn string_of(s: &[char]) -> (r: String)
    ensures
        r@ == s@,
{
    let mut r = String::new();
    let mut i: usize = 0;
    while i < s.len()
        invariant
            i <= s@.len(),
            r@ == s@.take(i as int),
        decreases s@.len() - i,
    {
        r.push(s[i]);
        proof {
            assert(s@.take(i + 1) =~= s@.take(i as int).push(s@[i as int]));
        }
        i += 1;
    }
    proof {
        assert(s@.take(s@.len() as int) =~= s@);
    }
    r
}

/// Appends the characters of `tail` to `head`.
pub fn append_chars(head: &mut Vec<char>, tail: &[char])
    ensures
        final(head)@ == old(head)@ + tail@,
{
    let mut k: usize = 0;
    while k < tail.len()
        invariant
            k <= tail@.len(),
            head@ == old(head)@ + tail@.take(k as int),
        decreases tail@.len() - k,
    {
        head.push(tail[k]);
        proof {
            assert(tail@.take(k + 1) =~= tail@.take(k as int).push(tail@[k as int]));
        }
        k += 1;
    }
    proof {
        assert(tail@.take(tail@.len() as int) =~= tail@);
    }
}

} // verus!
