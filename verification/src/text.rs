//! Sequences of characters: white space, trimming, and where one sequence
//! occurs inside another.
//!
//! Every executable function here works on a slice of `char` and is stated
//! against a spec function of the same meaning on `Seq<char>`.

use vstd::prelude::*;

verus! {

/// Whether `c` has the Unicode property White_Space.
pub open spec fn is_space(c: char) -> bool {
    let n: u32 = c as u32;
    ||| 0x09 <= n <= 0x0D
    ||| n == 0x20
    ||| n == 0x85
    ||| n == 0xA0
    ||| n == 0x1680
    ||| 0x2000 <= n <= 0x200A
    ||| n == 0x2028
    ||| n == 0x2029
    ||| n == 0x202F
    ||| n == 0x205F
    ||| n == 0x3000
}

/// `s` without the white space at its end.
pub open spec fn trim_end(s: Seq<char>) -> Seq<char>
    decreases s.len(),
{
    if s.len() > 0 && is_space(s.last()) {
        trim_end(s.drop_last())
    } else {
        s
    }
}

/// `s` without the white space at its start.
pub open spec fn trim_start(s: Seq<char>) -> Seq<char>
    decreases s.len(),
{
    if s.len() > 0 && is_space(s.first()) {
        trim_start(s.drop_first())
    } else {
        s
    }
}

/// `s` without the white space at either end.
pub open spec fn trim(s: Seq<char>) -> Seq<char> {
    trim_start(trim_end(s))
}

/// Whether `s` holds nothing but white space.
pub open spec fn is_blank(s: Seq<char>) -> bool {
    forall|i: int| 0 <= i < s.len() ==> is_space(#[trigger] s[i])
}

/// Whether `p` stands in `s` at index `i`.
pub open spec fn occurs_at(s: Seq<char>, p: Seq<char>, i: int) -> bool {
    &&& 0 <= i
    &&& i + p.len() <= s.len()
    &&& s.subrange(i, i + p.len()) == p
}

pub open spec fn starts_with(s: Seq<char>, p: Seq<char>) -> bool {
    occurs_at(s, p, 0)
}

pub open spec fn ends_with(s: Seq<char>, p: Seq<char>) -> bool {
    occurs_at(s, p, s.len() - p.len())
}

pub open spec fn contains(s: Seq<char>, p: Seq<char>) -> bool {
    exists|i: int| occurs_at(s, p, i)
}

/// Whether `i` is the least index at which `p` stands in `s`.
pub open spec fn is_first_occurrence(s: Seq<char>, p: Seq<char>, i: int) -> bool {
    &&& occurs_at(s, p, i)
    &&& forall|j: int| 0 <= j < i ==> !occurs_at(s, p, j)
}

/// Whether `i` is the greatest index at which `p` stands in `s`.
pub open spec fn is_last_occurrence(s: Seq<char>, p: Seq<char>, i: int) -> bool {
    &&& occurs_at(s, p, i)
    &&& forall|j: int| i < j ==> !occurs_at(s, p, j)
}

/// The least index at which `p` stands in `s`; meaningful where `s` contains `p`.
pub open spec fn first_occurrence(s: Seq<char>, p: Seq<char>) -> int {
    choose|i: int| is_first_occurrence(s, p, i)
}

/// The greatest index at which `p` stands in `s`; meaningful where `s` contains `p`.
pub open spec fn last_occurrence(s: Seq<char>, p: Seq<char>) -> int {
    choose|i: int| is_last_occurrence(s, p, i)
}

/// Each line followed by a newline, all in a row.
pub open spec fn join_lines(lines: Seq<Seq<char>>) -> Seq<char>
    decreases lines.len(),
{
    if lines.len() == 0 {
        Seq::empty()
    } else {
        join_lines(lines.drop_last()) + lines.last().push('\n')
    }
}

/// `trim_end(s)` is the shortest prefix of `s` that is followed by white space only.
pub proof fn lemma_trim_end(s: Seq<char>)
    ensures
        trim_end(s).len() <= s.len(),
        trim_end(s) == s.take(trim_end(s).len() as int),
        is_blank(s.skip(trim_end(s).len() as int)),
        trim_end(s).len() > 0 ==> !is_space(trim_end(s).last()),
    decreases s.len(),
{
    if s.len() > 0 && is_space(s.last()) {
        let r = s.drop_last();
        lemma_trim_end(r);
        let n = trim_end(r).len() as int;
        assert(r.take(n) =~= s.take(n));
        assert forall|i: int| 0 <= i < s.skip(n).len() implies is_space(#[trigger] s.skip(n)[i]) by {
            if i < r.skip(n).len() {
                assert(s.skip(n)[i] == r.skip(n)[i]);
            }
        }
    } else {
        assert(s.take(s.len() as int) =~= s);
    }
}

/// `trim_start(s)` is the longest suffix of `s` that follows white space only.
pub proof fn lemma_trim_start(s: Seq<char>)
    ensures
        trim_start(s).len() <= s.len(),
        trim_start(s) == s.skip(s.len() - trim_start(s).len()),
        is_blank(s.take(s.len() - trim_start(s).len())),
        trim_start(s).len() > 0 ==> !is_space(trim_start(s).first()),
    decreases s.len(),
{
    if s.len() > 0 && is_space(s.first()) {
        let r = s.drop_first();
        lemma_trim_start(r);
        let k = r.len() - trim_start(r).len();
        assert(r.skip(k) =~= s.skip(k + 1));
        assert forall|i: int| 0 <= i < s.take(k + 1).len() implies is_space(
            #[trigger] s.take(k + 1)[i],
        ) by {
            if i > 0 {
                assert(s.take(k + 1)[i] == r.take(k)[i - 1]);
            }
        }
    } else {
        assert(s.skip(0) =~= s);
    }
}

/// A prefix that ends in something other than white space, with only white
/// space behind it, is what `trim_end` leaves.
pub proof fn lemma_trim_end_is(s: Seq<char>, n: int)
    requires
        0 <= n <= s.len(),
        is_blank(s.skip(n)),
        n > 0 ==> !is_space(s[n - 1]),
    ensures
        trim_end(s) == s.take(n),
    decreases s.len() - n,
{
    if n < s.len() {
        assert(s.skip(n)[s.len() - 1 - n] == s.last());
        let r = s.drop_last();
        assert forall|i: int| 0 <= i < r.skip(n).len() implies is_space(#[trigger] r.skip(n)[i]) by {
            assert(r.skip(n)[i] == s.skip(n)[i]);
        }
        lemma_trim_end_is(r, n);
        assert(r.take(n) =~= s.take(n));
    } else {
        assert(s.take(n) =~= s);
    }
}

/// A suffix that starts with something other than white space, with only
/// white space before it, is what `trim_start` leaves.
pub proof fn lemma_trim_start_is(s: Seq<char>, k: int)
    requires
        0 <= k <= s.len(),
        is_blank(s.take(k)),
        k < s.len() ==> !is_space(s[k]),
    ensures
        trim_start(s) == s.skip(k),
    decreases k,
{
    if k > 0 {
        assert(s.take(k)[0] == s.first());
        let r = s.drop_first();
        assert forall|i: int| 0 <= i < r.take(k - 1).len() implies is_space(
            #[trigger] r.take(k - 1)[i],
        ) by {
            assert(r.take(k - 1)[i] == s.take(k)[i + 1]);
        }
        lemma_trim_start_is(r, k - 1);
        assert(r.skip(k - 1) =~= s.skip(k));
    } else {
        assert(s.skip(0) =~= s);
    }
}

/// Trimming leaves nothing exactly when there is nothing but white space.
pub proof fn lemma_trim_blank(s: Seq<char>)
    ensures
        is_blank(s) <==> trim(s).len() == 0,
{
    lemma_trim_end(s);
    let e = trim_end(s);
    lemma_trim_start(e);
    let n = e.len() as int;
    let k = e.len() - trim_start(e).len();
    if trim(s).len() == 0 {
        assert forall|i: int| 0 <= i < s.len() implies is_space(#[trigger] s[i]) by {
            if i < n {
                assert(e.take(k)[i] == s[i]);
            } else {
                assert(s.skip(n)[i - n] == s[i]);
            }
        }
    } else {
        assert(!is_space(e.last()));
        assert(e.last() == s[n - 1]);
    }
}

/// What `trim` leaves has no white space at either end, so trimming it again
/// changes nothing.
pub proof fn lemma_trim_idempotent(s: Seq<char>)
    ensures
        trim(trim(s)) == trim(s),
        trim(s).len() > 0 ==> !is_space(trim(s).first()) && !is_space(trim(s).last()),
{
    lemma_trim_end(s);
    let e = trim_end(s);
    lemma_trim_start(e);
    let t = trim_start(e);
    if t.len() > 0 {
        assert(t.last() == e.last());
        reveal_with_fuel(trim_end, 1);
        reveal_with_fuel(trim_start, 1);
    } else {
        reveal_with_fuel(trim_end, 1);
        reveal_with_fuel(trim_start, 1);
    }
}

/// There is one least index at which `p` stands in `s`.
pub proof fn lemma_first_occurrence(s: Seq<char>, p: Seq<char>, i: int)
    requires
        is_first_occurrence(s, p, i),
    ensures
        first_occurrence(s, p) == i,
        contains(s, p),
{
    let j = first_occurrence(s, p);
    assert(is_first_occurrence(s, p, j));
    if j < i {
        assert(!occurs_at(s, p, j));
    }
    if i < j {
        assert(!occurs_at(s, p, i));
    }
}

/// There is one greatest index at which `p` stands in `s`.
pub proof fn lemma_last_occurrence(s: Seq<char>, p: Seq<char>, i: int)
    requires
        is_last_occurrence(s, p, i),
    ensures
        last_occurrence(s, p) == i,
        contains(s, p),
{
    let j = last_occurrence(s, p);
    assert(is_last_occurrence(s, p, j));
    if j < i {
        assert(!occurs_at(s, p, i));
    }
    if i < j {
        assert(!occurs_at(s, p, j));
    }
}

/// Joining lines can start with the first as well as end with the last.
pub proof fn lemma_join_lines_front(line: Seq<char>, rest: Seq<Seq<char>>)
    ensures
        join_lines(seq![line] + rest) == line.push('\n') + join_lines(rest),
    decreases rest.len(),
{
    let all = seq![line] + rest;
    if rest.len() == 0 {
        assert(all.drop_last() =~= Seq::empty());
        assert(join_lines(all.drop_last()) =~= Seq::empty());
        assert(join_lines(all) =~= line.push('\n') + join_lines(rest));
    } else {
        assert(all.drop_last() =~= seq![line] + rest.drop_last());
        lemma_join_lines_front(line, rest.drop_last());
        assert(join_lines(all) =~= line.push('\n') + join_lines(rest));
    }
}

/// `String::push` of std appends the given character to the end of the string.
pub assume_specification[ String::push ](s: &mut String, c: char)
    ensures
        final(s)@ == old(s)@.push(c),
;

/// The characters of `s`, one by one.
pub fn to_chars(s: &str) -> (out: Vec<char>)
    ensures
        out@ == s@,
{
    let mut out: Vec<char> = Vec::new();
    for c in it: s.chars()
        invariant
            out@ == s@.take(it.index()),
            it.seq() == s@,
    {
        out.push(c);
    }
    out
}

/// The string made of the characters of `v`.
pub fn from_chars(v: &[char]) -> (out: String)
    ensures
        out@ == v@,
{
    let mut out = String::new();
    let mut i: usize = 0;
    while i < v.len()
        invariant
            i <= v.len(),
            out@ == v@.take(i as int),
        decreases v.len() - i,
    {
        out.push(v[i]);
        i += 1;
    }
    out
}

/// Appends the characters of `s` to `v`.
pub fn push_all(v: &mut Vec<char>, s: &[char])
    ensures
        final(v)@ == old(v)@ + s@,
{
    let mut i: usize = 0;
    while i < s.len()
        invariant
            i <= s.len(),
            v@ == old(v)@ + s@.take(i as int),
        decreases s.len() - i,
    {
        v.push(s[i]);
        i += 1;
    }
}

/// Appends the characters of `s` to `v`.
pub fn push_str(v: &mut Vec<char>, s: &str)
    ensures
        final(v)@ == old(v)@ + s@,
{
    for c in it: s.chars()
        invariant
            v@ == old(v)@ + s@.take(it.index()),
            it.seq() == s@,
    {
        v.push(c);
    }
}

/// Appends `line` and a newline to `v`.
pub fn push_line(v: &mut Vec<char>, line: &[char])
    ensures
        final(v)@ == old(v)@ + line@.push('\n'),
{
    push_all(v, line);
    v.push('\n');
}

pub fn char_is_space(c: char) -> (r: bool)
    ensures
        r == is_space(c),
{
    let n: u32 = c as u32;
    (0x09 <= n && n <= 0x0D) || n == 0x20 || n == 0x85 || n == 0xA0 || n == 0x1680 || (0x2000 <= n
        && n <= 0x200A) || n == 0x2028 || n == 0x2029 || n == 0x202F || n == 0x205F || n == 0x3000
}

/// The length of `s` without the white space at its end.
pub fn trim_end_len(s: &[char]) -> (n: usize)
    ensures
        n <= s.len(),
        s@.take(n as int) == trim_end(s@),
{
    let mut n: usize = s.len();
    while n > 0 && char_is_space(s[n - 1])
        invariant
            n <= s.len(),
            is_blank(s@.skip(n as int)),
        decreases n,
    {
        n -= 1;
        assert forall|i: int| 0 <= i < s@.skip(n as int).len() implies is_space(
            #[trigger] s@.skip(n as int)[i],
        ) by {
            if i > 0 {
                assert(s@.skip(n as int)[i] == s@.skip(n + 1)[i - 1]);
            }
        }
    }
    proof {
        lemma_trim_end_is(s@, n as int);
    }
    n
}

/// The number of white space characters at the start of `s`.
pub fn trim_start_len(s: &[char]) -> (k: usize)
    ensures
        k <= s.len(),
        s@.skip(k as int) == trim_start(s@),
{
    let mut k: usize = 0;
    while k < s.len() && char_is_space(s[k])
        invariant
            k <= s.len(),
            is_blank(s@.take(k as int)),
        decreases s.len() - k,
    {
        k += 1;
        assert forall|i: int| 0 <= i < s@.take(k as int).len() implies is_space(
            #[trigger] s@.take(k as int)[i],
        ) by {
            if i < k - 1 {
                assert(s@.take(k as int)[i] == s@.take(k - 1)[i]);
            }
        }
    }
    proof {
        lemma_trim_start_is(s@, k as int);
    }
    k
}

/// The bounds between which `s` is free of white space at either end.
pub fn trim_range(s: &[char]) -> (r: (usize, usize))
    ensures
        r.0 <= r.1 <= s.len(),
        r.1 == trim_end(s@).len(),
        s@.subrange(r.0 as int, r.1 as int) == trim(s@),
{
    let end = trim_end_len(s);
    let head = vstd::slice::slice_subrange(s, 0, end);
    let start = trim_start_len(head);
    assert(head@.skip(start as int) =~= s@.subrange(start as int, end as int));
    (start, end)
}

pub fn same_chars(a: &[char], b: &[char]) -> (r: bool)
    ensures
        r == (a@ == b@),
{
    if a.len() != b.len() {
        return false;
    }
    let mut i: usize = 0;
    while i < a.len()
        invariant
            a.len() == b.len(),
            i <= a.len(),
            forall|j: int| 0 <= j < i ==> a@[j] == b@[j],
        decreases a.len() - i,
    {
        if a[i] != b[i] {
            return false;
        }
        i += 1;
    }
    assert(a@ =~= b@);
    true
}

/// Whether `p` stands in `s` at index `i`.
pub fn matches_at(s: &[char], p: &[char], i: usize) -> (r: bool)
    ensures
        r == occurs_at(s@, p@, i as int),
{
    if p.len() > s.len() || i > s.len() - p.len() {
        return false;
    }
    let mut j: usize = 0;
    while j < p.len()
        invariant
            i + p.len() <= s.len(),
            j <= p.len(),
            forall|k: int| 0 <= k < j ==> s@[i + k] == p@[k],
        decreases p.len() - j,
    {
        if s[i + j] != p[j] {
            assert(s@.subrange(i as int, i + p.len())[j as int] != p@[j as int]);
            return false;
        }
        j += 1;
    }
    assert(s@.subrange(i as int, i + p.len()) =~= p@);
    true
}

pub fn has_prefix(s: &[char], p: &[char]) -> (r: bool)
    ensures
        r == starts_with(s@, p@),
{
    matches_at(s, p, 0)
}

pub fn has_suffix(s: &[char], p: &[char]) -> (r: bool)
    ensures
        r == ends_with(s@, p@),
{
    if p.len() > s.len() {
        return false;
    }
    matches_at(s, p, s.len() - p.len())
}

/// The least index at which `p` stands in `s`.
pub fn find(s: &[char], p: &[char]) -> (r: Option<usize>)
    ensures
        r is Some <==> contains(s@, p@),
        r matches Some(i) ==> i as int == first_occurrence(s@, p@) && is_first_occurrence(
            s@,
            p@,
            i as int,
        ),
{
    if p.len() > s.len() {
        return None;
    }
    let last: usize = s.len() - p.len();
    let mut i: usize = 0;
    loop
        invariant
            last + p.len() == s.len(),
            i <= last,
            forall|j: int| 0 <= j < i ==> !occurs_at(s@, p@, j),
        decreases last - i,
    {
        if matches_at(s, p, i) {
            proof {
                lemma_first_occurrence(s@, p@, i as int);
            }
            return Some(i);
        }
        if i == last {
            return None;
        }
        i += 1;
    }
}

/// The greatest index at which `p` stands in `s`.
pub fn rfind(s: &[char], p: &[char]) -> (r: Option<usize>)
    ensures
        r is Some <==> contains(s@, p@),
        r matches Some(i) ==> i as int == last_occurrence(s@, p@) && is_last_occurrence(
            s@,
            p@,
            i as int,
        ),
{
    if p.len() > s.len() {
        return None;
    }
    let mut i: usize = s.len() - p.len();
    loop
        invariant
            i + p.len() <= s.len(),
            forall|j: int| i < j ==> !occurs_at(s@, p@, j),
        decreases i,
    {
        if matches_at(s, p, i) {
            proof {
                lemma_last_occurrence(s@, p@, i as int);
            }
            return Some(i);
        }
        if i == 0 {
            return None;
        }
        i -= 1;
    }
}

} // verus!
