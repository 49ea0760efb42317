//! Text primitives: searching, splitting, trimming and rendering, each stated
//! over the sequence of characters that a string holds.
use vstd::prelude::*;

verus! {

/// `String::push` appends one character.
pub assume_specification[ String::push ](s: &mut String, c: char)
    ensures
        final(s)@ == old(s)@.push(c),
;

/// The characters of `s`, in order.
pub fn chars_of(s: &str) -> (r: Vec<char>)
    ensures
        r@ == s@,
{
    let mut out: Vec<char> = Vec::new();
    for c in it: s.chars()
        invariant
            it.seq() == s@,
            out@ == s@.take(it.index() as int),
    {
        out.push(c);
    }
    proof {
        assert(s@.take(s@.len() as int) == s@);
    }
    out
}

/// The string that holds the characters of `v` from `from` up to `to`.
pub fn string_of(v: &Vec<char>, from: usize, to: usize) -> (r: String)
    requires
        from <= to <= v@.len(),
    ensures
        r@ == v@.subrange(from as int, to as int),
{
    let mut out: String = String::new();
    let mut i: usize = from;
    while i < to
        invariant
            from <= i <= to <= v@.len(),
            out@ == v@.subrange(from as int, i as int),
        decreases to - i,
    {
        out.push(v[i]);
        proof {
            assert(v@.subrange(from as int, i as int).push(v@[i as int]) == v@.subrange(
                from as int,
                i + 1,
            ));
        }
        i = i + 1;
    }
    out
}

/// Whether the two texts hold the same characters.
pub fn same(a: &str, b: &str) -> (r: bool)
    ensures
        r == (a@ == b@),
{
    let x = a.to_owned();
    let y = b.to_owned();
    x == y
}

// ---------------------------------------------------------------------------
// Searching
// ---------------------------------------------------------------------------

/// `p` stands in `s` at position `i`.
pub open spec fn occurs_at(s: Seq<char>, p: Seq<char>, i: int) -> bool {
    0 <= i && i + p.len() <= s.len() && s.subrange(i, i + p.len()) == p
}

/// `p` stands somewhere in `s`.
pub open spec fn contains(s: Seq<char>, p: Seq<char>) -> bool {
    exists|i: int| occurs_at(s, p, i)
}

/// `i` is the position of the first occurrence of `p` in `s`.
pub open spec fn first_at(s: Seq<char>, p: Seq<char>, i: int) -> bool {
    occurs_at(s, p, i) && forall|j: int| 0 <= j < i ==> !occurs_at(s, p, j)
}

/// `i` is the position of the last occurrence of `p` in `s`.
pub open spec fn last_at(s: Seq<char>, p: Seq<char>, i: int) -> bool {
    occurs_at(s, p, i) && forall|j: int| i < j ==> !occurs_at(s, p, j)
}

/// The position of the first occurrence of `p` in `s`, if there is one.
pub open spec fn find_first(s: Seq<char>, p: Seq<char>) -> Option<int> {
    if contains(s, p) {
        Some(choose|i: int| first_at(s, p, i))
    } else {
        None
    }
}

/// The position of the last occurrence of `p` in `s`, if there is one.
pub open spec fn find_last(s: Seq<char>, p: Seq<char>) -> Option<int> {
    if contains(s, p) {
        Some(choose|i: int| last_at(s, p, i))
    } else {
        None
    }
}

pub proof fn lemma_first_unique(s: Seq<char>, p: Seq<char>, i: int)
    requires
        first_at(s, p, i),
    ensures
        find_first(s, p) == Some(i),
{
    let k = choose|k: int| first_at(s, p, k);
    assert(first_at(s, p, k));
    if k < i {
        assert(!occurs_at(s, p, k));
    }
    if i < k {
        assert(!occurs_at(s, p, i));
    }
}

pub proof fn lemma_last_unique(s: Seq<char>, p: Seq<char>, i: int)
    requires
        last_at(s, p, i),
    ensures
        find_last(s, p) == Some(i),
{
    let k = choose|k: int| last_at(s, p, k);
    assert(last_at(s, p, k));
    if k < i {
        assert(!occurs_at(s, p, i));
    }
    if i < k {
        assert(!occurs_at(s, p, k));
    }
}

/// Whether `p` stands in `s` at position `i`.
pub fn matches_at(s: &Vec<char>, p: &Vec<char>, i: usize) -> (r: bool)
    requires
        i <= s@.len(),
    ensures
        r == occurs_at(s@, p@, i as int),
{
    if p.len() > s.len() - i {
        return false;
    }
    let n: usize = s.len();
    let mut k: usize = 0;
    while k < p.len()
        invariant
            n == s@.len(),
            i + p@.len() <= n,
            k <= p@.len(),
            forall|m: int| 0 <= m < k ==> s@[i + m] == p@[m],
        decreases p@.len() - k,
    {
        if s[i + k] != p[k] {
            proof {
                assert(s@.subrange(i as int, i + p@.len())[k as int] != p@[k as int]);
            }
            return false;
        }
        k = k + 1;
    }
    proof {
        assert(s@.subrange(i as int, i + p@.len()) =~= p@);
    }
    true
}

/// Position of the first occurrence of `p` in `s`.
pub fn find(s: &Vec<char>, p: &Vec<char>) -> (r: Option<usize>)
    ensures
        match r {
            Some(i) => first_at(s@, p@, i as int) && find_first(s@, p@) == Some(i as int),
            None => !contains(s@, p@) && find_first(s@, p@) is None,
        },
{
    if p.len() > s.len() {
        return None;
    }
    let last: usize = s.len() - p.len();
    let mut i: usize = 0;
    while i <= last
        invariant
            last == s@.len() - p@.len(),
            i <= last + 1,
            forall|j: int| 0 <= j < i ==> !occurs_at(s@, p@, j),
        decreases last + 1 - i,
    {
        if matches_at(s, p, i) {
            proof {
                lemma_first_unique(s@, p@, i as int);
            }
            return Some(i);
        }
        if i == last {
            return None;
        }
        i = i + 1;
    }
    None
}

/// Position of the last occurrence of `p` in `s`.
pub fn rfind(s: &Vec<char>, p: &Vec<char>) -> (r: Option<usize>)
    ensures
        match r {
            Some(i) => last_at(s@, p@, i as int) && find_last(s@, p@) == Some(i as int),
            None => !contains(s@, p@) && find_last(s@, p@) is None,
        },
{
    if p.len() > s.len() {
        return None;
    }
    let mut n: usize = s.len() - p.len();
    loop
        invariant
            n <= s@.len() - p@.len(),
            forall|j: int| n < j ==> !occurs_at(s@, p@, j),
        decreases n,
    {
        if matches_at(s, p, n) {
            proof {
                lemma_last_unique(s@, p@, n as int);
            }
            return Some(n);
        }
        if n == 0 {
            return None;
        }
        n = n - 1;
    }
}

/// Whether `p` stands somewhere in `s`.
pub fn has(s: &str, p: &str) -> (r: bool)
    ensures
        r == contains(s@, p@),
{
    let sv = chars_of(s);
    let pv = chars_of(p);
    match find(&sv, &pv) {
        Some(i) => {
            proof {
                assert(occurs_at(s@, p@, i as int));
            }
            true
        },
        None => false,
    }
}

/// `s` begins with `p`.
pub open spec fn begins(s: Seq<char>, p: Seq<char>) -> bool {
    p.len() <= s.len() && s.take(p.len() as int) == p
}

/// `s` ends with `p`.
pub open spec fn ends(s: Seq<char>, p: Seq<char>) -> bool {
    p.len() <= s.len() && s.skip(s.len() - p.len()) == p
}

/// Whether `s` begins with `p`.
pub fn starts_with(s: &str, p: &str) -> (r: bool)
    ensures
        r == begins(s@, p@),
{
    let sv = chars_of(s);
    let pv = chars_of(p);
    proof {
        assert(s@.subrange(0, p@.len() as int) == s@.take(p@.len() as int));
    }
    matches_at(&sv, &pv, 0)
}

/// Whether `s` ends with `p`.
pub fn ends_with(s: &str, p: &str) -> (r: bool)
    ensures
        r == ends(s@, p@),
{
    let sv = chars_of(s);
    let pv = chars_of(p);
    if pv.len() > sv.len() {
        return false;
    }
    let at: usize = sv.len() - pv.len();
    proof {
        assert(s@.subrange(at as int, at + p@.len()) == s@.skip(at as int));
    }
    matches_at(&sv, &pv, at)
}

/// What follows `p` in `s`, where `s` begins with `p`.
pub fn strip_prefix(s: &str, p: &str) -> (r: Option<String>)
    ensures
        match r {
            Some(rest) => begins(s@, p@) && s@ == p@ + rest@,
            None => !begins(s@, p@),
        },
{
    let sv = chars_of(s);
    let pv = chars_of(p);
    proof {
        assert(s@.subrange(0, p@.len() as int) == s@.take(p@.len() as int));
    }
    if matches_at(&sv, &pv, 0) {
        let rest = string_of(&sv, pv.len(), sv.len());
        proof {
            assert(s@ =~= p@ + rest@);
        }
        Some(rest)
    } else {
        None
    }
}

// ---------------------------------------------------------------------------
// Splitting and joining
// ---------------------------------------------------------------------------

/// The pieces of `s` between the separators `sep`: one more piece than there
/// are separators.
pub open spec fn split(s: Seq<char>, sep: char) -> Seq<Seq<char>>
    decreases s.len(),
{
    if s.len() == 0 {
        seq![Seq::<char>::empty()]
    } else {
        let front = split(s.drop_last(), sep);
        if s.last() == sep {
            front.push(Seq::<char>::empty())
        } else {
            front.drop_last().push(front.last().push(s.last()))
        }
    }
}

pub proof fn lemma_split_nonempty(s: Seq<char>, sep: char)
    ensures
        split(s, sep).len() >= 1,
    decreases s.len(),
{
    if s.len() > 0 {
        lemma_split_nonempty(s.drop_last(), sep);
    }
}

/// The views of the elements of a sequence.
pub open spec fn views<T: View>(s: Seq<T>) -> Seq<T::V> {
    Seq::new(s.len(), |i: int| s[i]@)
}

/// The pieces of `s` between the separators `sep`.
pub fn split_on(s: &str, sep: char) -> (r: Vec<String>)
    ensures
        views(r@) == split(s@, sep),
        r@.len() >= 1,
{
    let sv = chars_of(s);
    let mut out: Vec<String> = Vec::new();
    let mut cur: String = String::new();
    let mut i: usize = 0;
    proof {
        assert(s@.take(0) == Seq::<char>::empty());
        assert(views(out@).push(cur@) =~= split(s@.take(0), sep));
    }
    while i < sv.len()
        invariant
            sv@ == s@,
            i <= sv@.len(),
            views(out@).push(cur@) == split(s@.take(i as int), sep),
        decreases sv@.len() - i,
    {
        let c = sv[i];
        proof {
            assert(s@.take(i + 1).drop_last() == s@.take(i as int));
            assert(views(out@).push(cur@).drop_last() == views(out@));
            assert(views(out@.push(cur)) == views(out@).push(cur@));
        }
        if c == sep {
            out.push(cur);
            cur = String::new();
        } else {
            cur.push(c);
        }
        i = i + 1;
    }
    proof {
        assert(s@.take(s@.len() as int) == s@);
        assert(views(out@.push(cur)) == views(out@).push(cur@));
    }
    out.push(cur);
    out
}

/// The texts of `parts` one after another, with `sep` between them.
pub open spec fn join(parts: Seq<Seq<char>>, sep: Seq<char>) -> Seq<char>
    decreases parts.len(),
{
    if parts.len() == 0 {
        Seq::empty()
    } else if parts.len() == 1 {
        parts[0]
    } else {
        join(parts.drop_last(), sep) + sep + parts.last()
    }
}

/// The texts of `parts` one after another, with `sep` between them.
pub fn join_with(parts: &Vec<String>, sep: &str) -> (r: String)
    ensures
        r@ == join(views(parts@), sep@),
{
    let mut out: String = String::new();
    let mut i: usize = 0;
    let ghost all = views(parts@);
    while i < parts.len()
        invariant
            all == views(parts@),
            i <= parts@.len(),
            out@ == join(all.take(i as int), sep@),
        decreases parts@.len() - i,
    {
        proof {
            assert(all.take(i + 1).drop_last() == all.take(i as int));
            assert(all.take(i + 1).last() == parts@[i as int]@);
        }
        if i > 0 {
            out.append(sep);
        }
        out.append(parts[i].as_str());
        proof {
            if i == 0 {
                assert(out@ =~= parts@[0]@);
            }
        }
        i = i + 1;
    }
    proof {
        assert(all.take(all.len() as int) == all);
    }
    out
}

/// Joining what was split on a character gives the text back.
pub proof fn law_join_undoes_split(s: Seq<char>, sep: char)
    ensures
        join(split(s, sep), seq![sep]) == s,
    decreases s.len(),
{
    if s.len() > 0 {
        let front = split(s.drop_last(), sep);
        lemma_split_nonempty(s.drop_last(), sep);
        law_join_undoes_split(s.drop_last(), sep);
        if s.last() == sep {
            assert(split(s, sep).drop_last() == front);
            assert(join(split(s, sep), seq![sep]) =~= s);
        } else {
            let whole = split(s, sep);
            assert(whole.drop_last() == front.drop_last());
            assert(whole.last() == front.last().push(s.last()));
            if front.len() > 1 {
                assert(join(whole, seq![sep]) =~= join(front, seq![sep]).push(s.last()));
            }
            assert(join(whole, seq![sep]) =~= s);
        }
    }
}

// ---------------------------------------------------------------------------
// Trimming
// ---------------------------------------------------------------------------

/// The characters with Unicode's `White_Space` property.
pub open spec fn is_white(c: char) -> bool {
    let n = c as u32;
    ||| 0x09 <= n <= 0x0d
    ||| n == 0x20
    ||| n == 0x85
    ||| n == 0xa0
    ||| n == 0x1680
    ||| 0x2000 <= n <= 0x200a
    ||| n == 0x2028
    ||| n == 0x2029
    ||| n == 0x202f
    ||| n == 0x205f
    ||| n == 0x3000
}

/// Whether `c` has Unicode's `White_Space` property.
pub fn white(c: char) -> (r: bool)
    ensures
        r == is_white(c),
{
    let n: u32 = c as u32;
    (0x09 <= n && n <= 0x0d) || n == 0x20 || n == 0x85 || n == 0xa0 || n == 0x1680 || (0x2000 <= n
        && n <= 0x200a) || n == 0x2028 || n == 0x2029 || n == 0x202f || n == 0x205f || n == 0x3000
}

/// `s` without the longest prefix and the longest suffix of characters that
/// `f` picks out.
pub open spec fn trim_by(s: Seq<char>, f: spec_fn(char) -> bool) -> Seq<char>
    decreases s.len(),
{
    if s.len() == 0 {
        s
    } else if f(s[0]) {
        trim_by(s.skip(1), f)
    } else if f(s.last()) {
        trim_by(s.drop_last(), f)
    } else {
        s
    }
}

/// `s` without the white space at its ends.
pub open spec fn trim(s: Seq<char>) -> Seq<char> {
    trim_by(s, |c: char| is_white(c))
}

/// The test for the one character `q`.
pub open spec fn only(q: char) -> spec_fn(char) -> bool {
    |c: char| c == q
}

/// `s` without the characters `q` at its ends.
pub open spec fn trim_char(s: Seq<char>, q: char) -> Seq<char> {
    trim_by(s, only(q))
}

/// `s` without the white space at its ends.
pub fn trim_white(s: &str) -> (r: String)
    ensures
        r@ == trim(s@),
{
    let sv = chars_of(s);
    let mut lo: usize = 0;
    let mut hi: usize = sv.len();
    let ghost f = |c: char| is_white(c);
    proof {
        assert(s@.subrange(0, s@.len() as int) == s@);
    }
    while lo < hi && (white(sv[lo]) || white(sv[hi - 1]))
        invariant
            sv@ == s@,
            f == |c: char| is_white(c),
            lo <= hi <= sv@.len(),
            trim_by(s@, f) == trim_by(s@.subrange(lo as int, hi as int), f),
        decreases hi - lo,
    {
        let ghost part = s@.subrange(lo as int, hi as int);
        if white(sv[lo]) {
            proof {
                assert(part.skip(1) == s@.subrange(lo + 1, hi as int));
            }
            lo = lo + 1;
        } else {
            proof {
                assert(part.drop_last() == s@.subrange(lo as int, hi - 1));
            }
            hi = hi - 1;
        }
    }
    string_of(&sv, lo, hi)
}

/// `s` without the characters `q` at its ends.
pub fn trim_matches(s: &str, q: char) -> (r: String)
    ensures
        r@ == trim_char(s@, q),
{
    let sv = chars_of(s);
    let mut lo: usize = 0;
    let mut hi: usize = sv.len();
    let ghost f = only(q);
    proof {
        assert(s@.subrange(0, s@.len() as int) == s@);
    }
    while lo < hi && (sv[lo] == q || sv[hi - 1] == q)
        invariant
            sv@ == s@,
            f == only(q),
            lo <= hi <= sv@.len(),
            trim_by(s@, f) == trim_by(s@.subrange(lo as int, hi as int), f),
        decreases hi - lo,
    {
        let ghost part = s@.subrange(lo as int, hi as int);
        if sv[lo] == q {
            proof {
                assert(part.skip(1) == s@.subrange(lo + 1, hi as int));
            }
            lo = lo + 1;
        } else {
            proof {
                assert(part.drop_last() == s@.subrange(lo as int, hi - 1));
            }
            hi = hi - 1;
        }
    }
    string_of(&sv, lo, hi)
}

/// Trimming leaves neither end with a character that is trimmed, and trims
/// nothing the second time.
pub proof fn law_trim_settles(s: Seq<char>, f: spec_fn(char) -> bool)
    ensures
        trim_by(s, f).len() > 0 ==> !f(trim_by(s, f)[0]) && !f(trim_by(s, f).last()),
        trim_by(trim_by(s, f), f) == trim_by(s, f),
    decreases s.len(),
{
    if s.len() > 0 {
        if f(s[0]) {
            law_trim_settles(s.skip(1), f);
        } else if f(s.last()) {
            law_trim_settles(s.drop_last(), f);
        }
    }
}

/// `s` without the copies of `p` at its end.
pub open spec fn trim_end(s: Seq<char>, p: Seq<char>) -> Seq<char>
    decreases s.len(),
{
    if p.len() > 0 && ends(s, p) {
        trim_end(s.take(s.len() - p.len()), p)
    } else {
        s
    }
}

/// `s` without the copies of `p` at its end.
pub fn trim_end_matches(s: &str, p: &str) -> (r: String)
    ensures
        r@ == trim_end(s@, p@),
{
    let sv = chars_of(s);
    let pv = chars_of(p);
    let mut hi: usize = sv.len();
    proof {
        assert(s@.take(s@.len() as int) == s@);
        assert(sv@.subrange(0, hi as int) == s@.take(hi as int));
    }
    if pv.len() == 0 {
        return string_of(&sv, 0, hi);
    }
    loop
        invariant
            sv@ == s@,
            pv@ == p@,
            pv@.len() > 0,
            hi <= sv@.len(),
            trim_end(s@, p@) == trim_end(s@.take(hi as int), p@),
        decreases hi,
    {
        let ghost cur = s@.take(hi as int);
        proof {
            assert(s@.subrange(0, hi as int) == cur);
        }
        if pv.len() > hi {
            return string_of(&sv, 0, hi);
        }
        let at: usize = hi - pv.len();
        proof {
            assert(cur.skip(at as int) == s@.subrange(at as int, at + p@.len()));
            assert(cur.take(at as int) == s@.take(at as int));
        }
        if !matches_at(&sv, &pv, at) {
            return string_of(&sv, 0, hi);
        }
        hi = at;
    }
}

// ---------------------------------------------------------------------------
// Replacing and comparing
// ---------------------------------------------------------------------------

/// `s` with `by` in place of each character `c`.
pub open spec fn replace(s: Seq<char>, c: char, by: Seq<char>) -> Seq<char>
    decreases s.len(),
{
    if s.len() == 0 {
        s
    } else {
        replace(s.drop_last(), c, by) + (if s.last() == c {
            by
        } else {
            seq![s.last()]
        })
    }
}

/// `s` with `by` in place of each character `c`.
pub fn replace_char(s: &str, c: char, by: &str) -> (r: String)
    ensures
        r@ == replace(s@, c, by@),
{
    let sv = chars_of(s);
    let mut out: String = String::new();
    let mut i: usize = 0;
    proof {
        assert(s@.take(0) =~= Seq::<char>::empty());
    }
    while i < sv.len()
        invariant
            sv@ == s@,
            i <= sv@.len(),
            out@ == replace(s@.take(i as int), c, by@),
        decreases sv@.len() - i,
    {
        proof {
            assert(s@.take(i + 1).drop_last() == s@.take(i as int));
        }
        if sv[i] == c {
            out.append(by);
        } else {
            out.push(sv[i]);
            proof {
                assert(replace(s@.take(i as int), c, by@).push(s@[i as int]) =~= replace(
                    s@.take(i as int),
                    c,
                    by@,
                ) + seq![s@[i as int]]);
            }
        }
        i = i + 1;
    }
    proof {
        assert(s@.take(s@.len() as int) == s@);
    }
    out
}

/// The ASCII lower-case form of a character; other characters stay.
pub open spec fn ascii_lower(c: char) -> char {
    if 'A' <= c && c <= 'Z' {
        ((c as u8) + 32) as char
    } else {
        c
    }
}

/// The ASCII upper-case form of a character; other characters stay.
pub open spec fn ascii_upper(c: char) -> char {
    if 'a' <= c && c <= 'z' {
        ((c as u8) - 32) as char
    } else {
        c
    }
}

/// A text with its ASCII letters in upper case.
pub open spec fn upper_ascii(s: Seq<char>) -> Seq<char> {
    Seq::new(s.len(), |i: int| ascii_upper(s[i]))
}

fn upper(c: char) -> (r: char)
    ensures
        r == ascii_upper(c),
{
    if 'a' <= c && c <= 'z' {
        ((c as u8) - 32) as char
    } else {
        c
    }
}

/// A text with its ASCII letters in upper case.
pub fn to_upper_ascii(s: &str) -> (r: String)
    ensures
        r@ == upper_ascii(s@),
{
    let v = chars_of(s);
    let mut out: String = String::new();
    let mut i: usize = 0;
    while i < v.len()
        invariant
            v@ == s@,
            i <= v@.len(),
            out@ == upper_ascii(s@).take(i as int),
        decreases v@.len() - i,
    {
        out.push(upper(v[i]));
        proof {
            assert(upper_ascii(s@).take(i + 1) == upper_ascii(s@).take(i as int).push(
                upper_ascii(s@)[i as int],
            ));
        }
        i = i + 1;
    }
    proof {
        assert(upper_ascii(s@).take(i as int) == upper_ascii(s@));
    }
    out
}

/// The two texts differ at most in the case of ASCII letters.
pub open spec fn same_ignoring_case(a: Seq<char>, b: Seq<char>) -> bool {
    a.len() == b.len() && forall|i: int|
        0 <= i < a.len() ==> ascii_lower(#[trigger] a[i]) == ascii_lower(b[i])
}

fn lower(c: char) -> (r: char)
    ensures
        r == ascii_lower(c),
{
    if 'A' <= c && c <= 'Z' {
        ((c as u8) + 32) as char
    } else {
        c
    }
}

/// Whether the two texts differ at most in the case of ASCII letters.
pub fn eq_ignoring_case(a: &str, b: &str) -> (r: bool)
    ensures
        r == same_ignoring_case(a@, b@),
{
    let av = chars_of(a);
    let bv = chars_of(b);
    if av.len() != bv.len() {
        return false;
    }
    let mut i: usize = 0;
    while i < av.len()
        invariant
            av@ == a@,
            bv@ == b@,
            av@.len() == bv@.len(),
            i <= av@.len(),
            forall|k: int| 0 <= k < i ==> ascii_lower(#[trigger] a@[k]) == ascii_lower(b@[k]),
        decreases av@.len() - i,
    {
        if lower(av[i]) != lower(bv[i]) {
            return false;
        }
        i = i + 1;
    }
    true
}

/// An ASCII letter or digit.
pub open spec fn is_alnum(c: char) -> bool {
    ('0' <= c && c <= '9') || ('a' <= c && c <= 'z') || ('A' <= c && c <= 'Z')
}

/// Whether `c` is an ASCII letter or digit.
pub fn alnum(c: char) -> (r: bool)
    ensures
        r == is_alnum(c),
{
    ('0' <= c && c <= '9') || ('a' <= c && c <= 'z') || ('A' <= c && c <= 'Z')
}

// ---------------------------------------------------------------------------
// Numbers
// ---------------------------------------------------------------------------

/// The decimal digit of `d`, for `d` below ten.
pub open spec fn digit(d: int) -> char {
    (48 + d) as char
}

/// The decimal digits of `n`, without leading zeros.
pub open spec fn dec(n: nat) -> Seq<char>
    decreases n,
{
    if n < 10 {
        seq![digit(n as int)]
    } else {
        dec(n / 10).push(digit((n % 10) as int))
    }
}

/// The decimal form of an integer, with a minus sign where it is negative.
pub open spec fn dec_int(n: int) -> Seq<char> {
    if n < 0 {
        seq!['-'] + dec((-n) as nat)
    } else {
        dec(n as nat)
    }
}

/// The decimal digits of `n`, one character each.
fn digits_of(n: u128) -> (r: Vec<char>)
    ensures
        r@ == dec(n as nat),
    decreases n,
{
    let d: u8 = (n % 10) as u8;
    let c: char = (48u8 + d) as char;
    if n < 10 {
        let mut v: Vec<char> = Vec::new();
        v.push(c);
        v
    } else {
        let mut v = digits_of(n / 10);
        v.push(c);
        v
    }
}

/// The decimal form of `n`.
pub fn nat_text(n: u128) -> (r: String)
    ensures
        r@ == dec(n as nat),
{
    let v = digits_of(n);
    proof {
        assert(v@.subrange(0, v@.len() as int) == v@);
    }
    string_of(&v, 0, v.len())
}

/// The decimal form of `n`.
pub fn int_text(n: i128) -> (r: String)
    ensures
        r@ == dec_int(n as int),
{
    if n < 0 {
        let m: u128 = ((-(n + 1)) as u128) + 1;
        let mut out: String = String::new();
        out.push('-');
        let d = nat_text(m);
        out.append(d.as_str());
        proof {
            assert(out@ =~= seq!['-'] + dec((-n) as nat));
        }
        out
    } else {
        nat_text(n as u128)
    }
}

// ---------------------------------------------------------------------------
// Case
// ---------------------------------------------------------------------------

/// The Unicode lower-case form of a text.
pub uninterp spec fn lowercase(s: Seq<char>) -> Seq<char>;

/// `str::to_lowercase`: a function of the text, which on ASCII text turns the
/// letters `A` to `Z` into `a` to `z` and keeps the rest.
#[verifier::external_body]
pub(crate) fn to_lower(s: &str) -> (r: String)
    ensures
        r@ == lowercase(s@),
        vstd::utf8::is_ascii_chars(s@) ==> r@ == Seq::new(s@.len(), |i: int| ascii_lower(s@[i])),
{
    s.to_lowercase()
}

/// Appends the text of `b` to that of `a`.
pub fn plus(a: String, b: &str) -> (r: String)
    ensures
        r@ == a@ + b@,
{
    let mut out = a;
    out.append(b);
    out
}

/// The text of bytes that may not be UTF-8.
pub uninterp spec fn lossy_text(b: Seq<u8>) -> Seq<char>;

/// `String::from_utf8_lossy`: a function of the bytes, which gives valid UTF-8
/// as it is.
#[verifier::external_body]
pub(crate) fn from_bytes_lossy(b: &Vec<u8>) -> (r: String)
    ensures
        r@ == lossy_text(b@),
        vstd::utf8::valid_utf8(b@) ==> r@ == vstd::utf8::decode_utf8(b@),
{
    String::from_utf8_lossy(b).into_owned()
}

/// The text that an optional string holds, or `other` where there is none.
pub open spec fn or_text(o: Option<Seq<char>>, other: Seq<char>) -> Seq<char> {
    match o {
        Some(s) => s,
        None => other,
    }
}

/// A copy of an optional string.
pub fn copy_option(o: &Option<String>) -> (r: Option<String>)
    ensures
        r == *o,
{
    match o {
        Some(s) => Some(s.clone()),
        None => None,
    }
}

// ---------------------------------------------------------------------------
// Reading decimal numbers
// ---------------------------------------------------------------------------

/// Every character is a decimal digit.
pub open spec fn all_digits(s: Seq<char>) -> bool {
    forall|i: int| 0 <= i < s.len() ==> '0' <= #[trigger] s[i] <= '9'
}

/// The value of a row of decimal digits.
pub open spec fn digits_value(s: Seq<char>) -> nat
    decreases s.len(),
{
    if s.len() == 0 {
        0
    } else {
        digits_value(s.drop_last()) * 10 + (s.last() as u32 - '0' as u32) as nat
    }
}

/// The number that a text writes in decimal, with or without a plus sign, where
/// it is at most `max`.
pub open spec fn number(s: Seq<char>, max: nat) -> Option<nat> {
    let d = if s.len() > 0 && s[0] == '+' {
        s.skip(1)
    } else {
        s
    };
    if d.len() > 0 && all_digits(d) && digits_value(d) <= max {
        Some(digits_value(d))
    } else {
        None
    }
}

proof fn lemma_digits_grow(s: Seq<char>, n: int)
    requires
        all_digits(s),
        0 <= n <= s.len(),
    ensures
        digits_value(s.take(n)) <= digits_value(s),
    decreases s.len() - n,
{
    if n < s.len() {
        lemma_digits_grow(s, n + 1);
        assert(s.take(n + 1).drop_last() == s.take(n));
        assert('0' <= s[n] <= '9');
    } else {
        assert(s.take(n) == s);
    }
}

/// The number that a text writes in decimal, with or without a plus sign, where
/// it is at most `max`.
pub fn parse_number(s: &str, max: u64) -> (r: Option<u64>)
    ensures
        match r {
            Some(n) => number(s@, max as nat) == Some(n as nat),
            None => number(s@, max as nat) is None,
        },
{
    let v = chars_of(s);
    let mut i: usize = 0;
    if v.len() > 0 && v[0] == '+' {
        i = 1;
    }
    let ghost start = i as int;
    let ghost d = s@.skip(start);
    proof {
        if start == 0 {
            assert(d == s@);
        }
        assert(d.take(0).len() == 0);
    }
    if i == v.len() {
        return None;
    }
    let mut value: u64 = 0;
    while i < v.len()
        invariant
            v@ == s@,
            start <= i <= v@.len(),
            0 <= start < v@.len(),
            d == s@.skip(start),
            number(s@, max as nat) == if all_digits(d) && digits_value(d) <= max {
                Some(digits_value(d))
            } else {
                None
            },
            all_digits(d.take(i - start)),
            value == digits_value(d.take(i - start)),
            value <= max,
        decreases v@.len() - i,
    {
        let c: char = v[i];
        proof {
            assert(d[i - start] == c);
            assert(d.take(i - start + 1).drop_last() == d.take(i - start));
        }
        if c < '0' || c > '9' {
            return None;
        }
        let x: u64 = (c as u32 - '0' as u32) as u64;
        let wide: u128 = value as u128 * 10 + x as u128;
        proof {
            assert(all_digits(d.take(i - start + 1)));
            assert(digits_value(d.take(i - start + 1)) == wide);
            if all_digits(d) {
                lemma_digits_grow(d, i - start + 1);
            }
        }
        if wide > max as u128 {
            return None;
        }
        value = wide as u64;
        i = i + 1;
    }
    proof {
        assert(d.take(d.len() as int) == d);
    }
    Some(value)
}

pub proof fn lemma_dec_digits(n: nat)
    ensures
        dec(n).len() > 0,
        all_digits(dec(n)),
        digits_value(dec(n)) == n,
    decreases n,
{
    if n < 10 {
        assert(dec(n).drop_last().len() == 0);
        assert(digits_value(dec(n).drop_last()) == 0);
    } else {
        lemma_dec_digits(n / 10);
        assert(dec(n).drop_last() == dec(n / 10));
    }
}

/// A number that is written in decimal is read back.
pub proof fn law_decimal_reads_back(n: nat, max: nat)
    requires
        n <= max,
    ensures
        number(dec(n), max) == Some(n),
{
    lemma_dec_digits(n);
    assert('0' <= dec(n)[0] <= '9');
}

// ---------------------------------------------------------------------------
// Pieces one after the other
// ---------------------------------------------------------------------------

/// The pieces one after the other.
pub open spec fn concat(parts: Seq<Seq<char>>) -> Seq<char>
    decreases parts.len(),
{
    if parts.len() == 0 {
        Seq::empty()
    } else {
        concat(parts.drop_last()) + parts.last()
    }
}

pub proof fn lemma_concat_next(parts: Seq<Seq<char>>, i: int)
    requires
        0 <= i < parts.len(),
    ensures
        concat(parts.take(i + 1)) == concat(parts.take(i)) + parts[i],
{
    assert(parts.take(i + 1).drop_last() == parts.take(i));
}

pub proof fn lemma_concat_all(parts: Seq<Seq<char>>)
    ensures
        concat(parts.take(parts.len() as int)) == concat(parts),
        concat(parts.take(0)) == Seq::<char>::empty(),
{
    assert(parts.take(parts.len() as int) == parts);
}

/// Some string in the list reads `s`.
pub open spec fn among(list: Seq<Seq<char>>, s: Seq<char>) -> bool {
    exists|i: int| 0 <= i < list.len() && #[trigger] list[i] == s
}

/// Whether some string in the list reads `s`.
pub fn is_among(list: &Vec<String>, s: &str) -> (r: bool)
    ensures
        r == among(views(list@), s@),
{
    let mut i: usize = 0;
    while i < list.len()
        invariant
            i <= list@.len(),
            forall|k: int| 0 <= k < i ==> #[trigger] views(list@)[k] != s@,
        decreases list@.len() - i,
    {
        proof {
            assert(views(list@)[i as int] == list@[i as int]@);
        }
        if same(list[i].as_str(), s) {
            return true;
        }
        i = i + 1;
    }
    false
}

// ---------------------------------------------------------------------------
// Quoting
// ---------------------------------------------------------------------------

/// A text between quotes `q`, with the quotes in it doubled.
pub open spec fn quoted(s: Seq<char>, q: char) -> Seq<char> {
    seq![q] + replace(s, q, seq![q, q]) + seq![q]
}

/// What a reader of quoted text makes of `t`, which stands behind an opening
/// quote: the text up to the closing quote, a doubled quote being one, and what
/// is left behind it; none where the text is not closed.
pub open spec fn read_quoted(t: Seq<char>, q: char) -> Option<(Seq<char>, Seq<char>)>
    decreases t.len(),
{
    if t.len() == 0 {
        None
    } else if t[0] == q {
        if t.len() > 1 && t[1] == q {
            match read_quoted(t.skip(2), q) {
                None => None,
                Some((s, rest)) => Some((seq![q] + s, rest)),
            }
        } else {
            Some((Seq::empty(), t.skip(1)))
        }
    } else {
        match read_quoted(t.skip(1), q) {
            None => None,
            Some((s, rest)) => Some((seq![t[0]] + s, rest)),
        }
    }
}

proof fn lemma_replace_first(s: Seq<char>, c: char, by: Seq<char>)
    requires
        s.len() > 0,
    ensures
        replace(s, c, by) == (if s[0] == c {
            by
        } else {
            seq![s[0]]
        }) + replace(s.skip(1), c, by),
    decreases s.len(),
{
    let one = if s[0] == c {
        by
    } else {
        seq![s[0]]
    };
    if s.len() == 1 {
        assert(s.drop_last().len() == 0);
        assert(replace(s.drop_last(), c, by).len() == 0);
        assert(replace(s.skip(1), c, by).len() == 0);
        assert(replace(s, c, by) =~= one + replace(s.skip(1), c, by));
    } else {
        lemma_replace_first(s.drop_last(), c, by);
        assert(s.drop_last().skip(1) =~= s.skip(1).drop_last());
        assert(s.skip(1).last() == s.last());
        assert(replace(s, c, by) =~= one + replace(s.skip(1), c, by));
    }
}

proof fn lemma_read_quoted(s: Seq<char>, q: char, rest: Seq<char>)
    requires
        rest.len() > 0 ==> rest[0] != q,
    ensures
        read_quoted(replace(s, q, seq![q, q]) + seq![q] + rest, q) == Some((s, rest)),
    decreases s.len(),
{
    let t = replace(s, q, seq![q, q]) + seq![q] + rest;
    if s.len() == 0 {
        assert(t =~= seq![q] + rest);
        assert(t.skip(1) =~= rest);
        assert(s =~= Seq::empty());
    } else {
        lemma_read_quoted(s.skip(1), q, rest);
        lemma_replace_first(s, q, seq![q, q]);
        let tail = replace(s.skip(1), q, seq![q, q]) + seq![q] + rest;
        if s[0] == q {
            assert(t =~= seq![q, q] + tail);
            assert(t.skip(2) =~= tail);
            assert(seq![q] + s.skip(1) =~= s);
        } else {
            assert(t =~= seq![s[0]] + tail);
            assert(t.skip(1) =~= tail);
            assert(seq![s[0]] + s.skip(1) =~= s);
        }
    }
}

/// A quoted text is read back as it was, whatever quotes it holds, and what
/// stands behind it stays outside, unless that begins with a quote itself.
pub proof fn law_quoted_reads_back(s: Seq<char>, q: char, rest: Seq<char>)
    requires
        rest.len() > 0 ==> rest[0] != q,
    ensures
        quoted(s, q)[0] == q,
        read_quoted((quoted(s, q) + rest).skip(1), q) == Some((s, rest)),
{
    lemma_read_quoted(s, q, rest);
    assert((quoted(s, q) + rest).skip(1) =~= replace(s, q, seq![q, q]) + seq![q] + rest);
}

// ---------------------------------------------------------------------------
// What the primitives are for
// ---------------------------------------------------------------------------

/// What stands in the middle of a text stands in the text.
pub proof fn lemma_middle(before: Seq<char>, p: Seq<char>, behind: Seq<char>)
    ensures
        contains(before + p + behind, p),
        occurs_at(before + p + behind, p, before.len() as int),
{
    let s = before + p + behind;
    assert(s.subrange(before.len() as int, (before.len() + p.len()) as int) =~= p);
    assert(occurs_at(s, p, before.len() as int));
}

/// One more piece comes last.
pub broadcast proof fn lemma_concat_push(parts: Seq<Seq<char>>, x: Seq<char>)
    ensures
        #[trigger] concat(parts.push(x)) == (if parts.len() == 0 {
            x
        } else {
            concat(parts) + x
        }),
{
    assert(parts.push(x).drop_last() =~= parts);
    if parts.len() == 0 {
        assert(concat(parts) + x =~= x);
    }
}

/// A run of pieces stands in the whole, at its start where it starts with the first
/// piece, and at its end where it ends with the last.
pub proof fn lemma_run(parts: Seq<Seq<char>>, from: int, to: int)
    requires
        0 <= from <= to <= parts.len(),
    ensures
        contains(concat(parts), concat(parts.subrange(from, to))),
        from == 0 ==> begins(concat(parts), concat(parts.subrange(from, to))),
        to == parts.len() ==> ends(concat(parts), concat(parts.subrange(from, to))),
{
    let a = parts.take(from);
    let b = parts.subrange(from, to);
    let c = parts.skip(to);
    let run = concat(b);
    assert(parts =~= a + b + c);
    law_joining_joins(a, b, run, run);
    law_joining_joins(a + b, c, run, run);
    lemma_middle(concat(a), run, concat(c));
    let whole = concat(a) + run + concat(c);
    if from == 0 {
        assert(concat(a).len() == 0);
        assert(whole.take(run.len() as int) =~= run);
    }
    if to == parts.len() {
        assert(concat(c).len() == 0);
        assert(whole.skip(whole.len() - run.len()) =~= run);
    }
}

/// Finding tells the truth: what is found stands there, character for character,
/// nowhere earlier or later, and where nothing is found it stands nowhere.
pub proof fn law_finding_finds(s: Seq<char>, p: Seq<char>, j: int)
    ensures
        occurs_at(s, p, j) <==> (0 <= j && j + p.len() <= s.len() && forall|k: int|
            0 <= k < p.len() ==> #[trigger] p[k] == s[j + k]),
        match find_first(s, p) {
            Some(i) => occurs_at(s, p, i) && (occurs_at(s, p, j) ==> i <= j),
            None => !occurs_at(s, p, j),
        },
        match find_last(s, p) {
            Some(i) => occurs_at(s, p, i) && (occurs_at(s, p, j) ==> j <= i),
            None => !occurs_at(s, p, j),
        },
        occurs_at(s, p, j) ==> contains(s, p),
        contains(s, p) ==> find_first(s, p) is Some && find_last(s, p) is Some,
{
    if 0 <= j && j + p.len() <= s.len() {
        let part = s.subrange(j, j + p.len());
        if part == p {
            assert forall|k: int| 0 <= k < p.len() implies #[trigger] p[k] == s[j + k] by {
                assert(part[k] == s[j + k]);
            }
        }
        if forall|k: int| 0 <= k < p.len() ==> #[trigger] p[k] == s[j + k] {
            assert(part =~= p);
        }
    }
    if contains(s, p) {
        let w = choose|i: int| occurs_at(s, p, i);
        lemma_some_first(s, p, w);
        lemma_some_last(s, p, w);
        assert(first_at(s, p, find_first(s, p)->0));
        assert(last_at(s, p, find_last(s, p)->0));
    }
}

proof fn lemma_some_first(s: Seq<char>, p: Seq<char>, w: int)
    requires
        occurs_at(s, p, w),
    ensures
        exists|i: int| first_at(s, p, i),
    decreases w,
{
    if exists|j: int| 0 <= j < w && occurs_at(s, p, j) {
        lemma_some_first(s, p, choose|j: int| 0 <= j < w && occurs_at(s, p, j));
    } else {
        assert(first_at(s, p, w));
    }
}

proof fn lemma_some_last(s: Seq<char>, p: Seq<char>, w: int)
    requires
        occurs_at(s, p, w),
    ensures
        exists|i: int| last_at(s, p, i),
    decreases s.len() - w,
{
    if exists|j: int| w < j && occurs_at(s, p, j) {
        lemma_some_last(s, p, choose|j: int| w < j && occurs_at(s, p, j));
    } else {
        assert(last_at(s, p, w));
    }
}

/// A text begins with another exactly when it is that text and more, and ends
/// with it exactly when it is something and that text.
pub proof fn law_beginnings_and_ends(s: Seq<char>, p: Seq<char>)
    ensures
        forall|rest: Seq<char>| begins(#[trigger] (p + rest), p) && ends(rest + p, p),
        begins(s, p) ==> s == p + s.skip(p.len() as int),
        ends(s, p) ==> s == s.take(s.len() - p.len()) + p,
        begins(s, p) ==> contains(s, p),
        ends(s, p) ==> contains(s, p),
{
    assert forall|rest: Seq<char>| begins(#[trigger] (p + rest), p) && ends(rest + p, p) by {
        assert((p + rest).take(p.len() as int) =~= p);
        assert((rest + p).skip(rest.len() as int) =~= p);
    }
    if begins(s, p) {
        assert(s =~= p + s.skip(p.len() as int));
        assert(Seq::<char>::empty() + p + s.skip(p.len() as int) =~= s);
        lemma_middle(Seq::empty(), p, s.skip(p.len() as int));
    }
    if ends(s, p) {
        assert(s =~= s.take(s.len() - p.len()) + p);
        assert(s.take(s.len() - p.len()) + p + Seq::<char>::empty() =~= s);
        lemma_middle(s.take(s.len() - p.len()), p, Seq::empty());
    }
}

/// No piece of a text holds the separator.
pub proof fn law_pieces_hold_no_separator(s: Seq<char>, sep: char, i: int)
    requires
        0 <= i < split(s, sep).len(),
    ensures
        !split(s, sep)[i].contains(sep),
    decreases s.len(),
{
    if s.len() > 0 {
        let front = split(s.drop_last(), sep);
        lemma_split_nonempty(s.drop_last(), sep);
        if i < front.len() {
            law_pieces_hold_no_separator(s.drop_last(), sep, i);
        }
        let p = split(s, sep)[i];
        if s.last() != sep && i == front.len() - 1 {
            assert(p == front[i].push(s.last()));
            assert forall|k: int| 0 <= k < p.len() implies p[k] != sep by {
                if k < front[i].len() {
                    assert(p[k] == front[i][k]);
                    assert(front[i].contains(front[i][k]));
                }
            }
        }
    }
}

/// Splitting a text at one of its separators splits its two halves.
pub proof fn law_splitting_splits_at_each_separator(a: Seq<char>, sep: char, b: Seq<char>)
    ensures
        split(a + seq![sep] + b, sep) == split(a, sep) + split(b, sep),
        !a.contains(sep) ==> split(a, sep) == seq![a],
    decreases b.len(),
{
    if !a.contains(sep) {
        lemma_split_whole(a, sep);
    }
    lemma_split_nonempty(a, sep);
    let s = a + seq![sep] + b;
    if b.len() == 0 {
        assert(s.drop_last() =~= a);
        assert(split(b, sep) =~= seq![Seq::<char>::empty()]);
        assert(split(s, sep) =~= split(a, sep) + split(b, sep));
    } else {
        law_splitting_splits_at_each_separator(a, sep, b.drop_last());
        lemma_split_nonempty(b.drop_last(), sep);
        assert(s.drop_last() =~= a + seq![sep] + b.drop_last());
        assert(s.last() == b.last());
        assert(split(s, sep) =~= split(a, sep) + split(b, sep));
    }
}

proof fn lemma_split_whole(a: Seq<char>, sep: char)
    requires
        !a.contains(sep),
    ensures
        split(a, sep) == seq![a],
    decreases a.len(),
{
    if a.len() == 0 {
        assert(a =~= Seq::<char>::empty());
    } else {
        let f = a.drop_last();
        assert forall|k: int| 0 <= k < f.len() implies f[k] != sep by {
            assert(a.contains(a[k]));
        }
        assert(a.contains(a.last()));
        lemma_split_whole(f, sep);
        assert(f.push(a.last()) =~= a);
        assert(split(a, sep) =~= seq![a]);
    }
}

/// Joining two lists joins each and puts the separator between them; one text
/// alone is itself, and none are nothing.
pub proof fn law_joining_joins(a: Seq<Seq<char>>, b: Seq<Seq<char>>, one: Seq<char>, sep: Seq<char>)
    ensures
        join(Seq::empty(), sep).len() == 0,
        join(seq![one], sep) == one,
        a.len() > 0 && b.len() > 0 ==> join(a + b, sep) == join(a, sep) + sep + join(b, sep),
        concat(Seq::empty()).len() == 0,
        concat(seq![one]) == one,
        concat(a + b) == concat(a) + concat(b),
    decreases b.len(),
{
    assert(seq![one].drop_last() =~= Seq::<Seq<char>>::empty());
    let none = Seq::<Seq<char>>::empty();
    assert(concat(none).len() == 0);
    assert(concat(seq![one]) == concat(none) + one);
    assert(concat(seq![one]) =~= one);
    if b.len() > 0 {
        let f = b.drop_last();
        law_joining_joins(a, f, one, sep);
        assert((a + b).drop_last() =~= a + f);
        assert((a + b).last() == b.last());
        assert(concat(a + b) =~= concat(a) + concat(b));
        if a.len() > 0 {
            if f.len() == 0 {
                assert(a + f =~= a);
                assert(b[0] == b.last());
                assert(join(a + b, sep) =~= join(a, sep) + sep + join(b, sep));
            } else {
                assert(join(a + b, sep) =~= join(a, sep) + sep + join(b, sep));
            }
        }
    } else {
        assert(a + b =~= a);
        assert(concat(a + b) =~= concat(a) + concat(b));
    }
}

/// Each of the pieces stands in what they make one after the other, and so it
/// does where they are joined.
pub proof fn law_pieces_stand_in_the_whole(parts: Seq<Seq<char>>, sep: Seq<char>, i: int)
    requires
        0 <= i < parts.len(),
    ensures
        contains(concat(parts), parts[i]),
        contains(join(parts, sep), parts[i]),
{
    let nothing = Seq::<char>::empty();
    let a = parts.take(i);
    let b = parts.skip(i + 1);
    let one = parts[i];
    assert(parts =~= a + seq![one] + b);
    law_joining_joins(a, seq![one], one, sep);
    law_joining_joins(a + seq![one], b, one, sep);
    lemma_middle(concat(a), one, concat(b));
    let before = if a.len() > 0 {
        join(a, sep) + sep
    } else {
        nothing
    };
    let behind = if b.len() > 0 {
        sep + join(b, sep)
    } else {
        nothing
    };
    if a.len() == 0 {
        assert(a + seq![one] =~= seq![one]);
    }
    if b.len() == 0 {
        assert(a + seq![one] + b =~= a + seq![one]);
    }
    assert(join(parts, sep) =~= before + one + behind);
    lemma_middle(before, one, behind);
}

/// Trimming takes nothing but what is to go: from `r.0` to `r.1` stands what is
/// left, and every character outside was to be trimmed; a text with nothing to
/// trim at its ends is left as it is.
pub proof fn law_trimming_only_takes_the_ends(s: Seq<char>, f: spec_fn(char) -> bool) -> (r: (
    int,
    int,
))
    ensures
        0 <= r.0 <= r.1 <= s.len(),
        trim_by(s, f) == s.subrange(r.0, r.1),
        forall|i: int| 0 <= i < s.len() && (i < r.0 || i >= r.1) ==> f(#[trigger] s[i]),
        s.len() > 0 && !f(s[0]) && !f(s.last()) ==> trim_by(s, f) == s,
    decreases s.len(),
{
    if s.len() == 0 {
        assert(s =~= s.subrange(0, 0));
        (0, 0)
    } else if f(s[0]) {
        let t = s.skip(1);
        let (lo, hi) = law_trimming_only_takes_the_ends(t, f);
        assert(t.subrange(lo, hi) =~= s.subrange(lo + 1, hi + 1));
        assert forall|i: int| 0 <= i < s.len() && (i < lo + 1 || i >= hi + 1) implies f(
            #[trigger] s[i],
        ) by {
            if i > 0 {
                assert(t[i - 1] == s[i]);
            }
        }
        (lo + 1, hi + 1)
    } else if f(s.last()) {
        let t = s.drop_last();
        let (lo, hi) = law_trimming_only_takes_the_ends(t, f);
        assert(t.subrange(lo, hi) =~= s.subrange(lo, hi));
        assert forall|i: int| 0 <= i < s.len() && (i < lo || i >= hi) implies f(
            #[trigger] s[i],
        ) by {
            if i < s.len() - 1 {
                assert(t[i] == s[i]);
            }
        }
        (lo, hi)
    } else {
        assert(s.subrange(0, s.len() as int) =~= s);
        (0, s.len() as int)
    }
}

/// Trimming a text with something to trim round it gives what trimming the text
/// gives.
pub proof fn law_trimming_ignores_the_margins(
    a: Seq<char>,
    s: Seq<char>,
    b: Seq<char>,
    f: spec_fn(char) -> bool,
)
    requires
        forall|i: int| 0 <= i < a.len() ==> f(#[trigger] a[i]),
        forall|i: int| 0 <= i < b.len() ==> f(#[trigger] b[i]),
    ensures
        trim_by(a + s + b, f) == trim_by(s, f),
    decreases a.len() + b.len() + s.len(),
{
    let t = a + s + b;
    if a.len() > 0 {
        assert(t[0] == a[0]);
        assert(t.skip(1) =~= a.skip(1) + s + b);
        law_trimming_ignores_the_margins(a.skip(1), s, b, f);
    } else if b.len() > 0 {
        if s.len() > 0 && f(s[0]) {
            assert(t[0] == s[0]);
            assert(t.skip(1) =~= a + s.skip(1) + b);
            law_trimming_ignores_the_margins(a, s.skip(1), b, f);
        } else {
            assert(t.last() == b.last());
            assert(t.drop_last() =~= a + s + b.drop_last());
            law_trimming_ignores_the_margins(a, s, b.drop_last(), f);
            if s.len() == 0 {
                assert(t[0] == b[0]);
                assert(t.skip(1) =~= a + s + b.skip(1));
                law_trimming_ignores_the_margins(a, s, b.skip(1), f);
            } else {
                assert(t[0] == s[0]);
            }
        }
    } else {
        assert(t =~= s);
    }
}

/// Spaces, tabs and line ends are white; no visible ASCII character is.
pub proof fn law_what_is_white(c: char)
    ensures
        c == ' ' || c == '\t' || c == '\n' || c == '\r' ==> is_white(c),
        0x21 <= c as u32 <= 0x7e ==> !is_white(c),
        trim(seq![c]) == (if is_white(c) {
            Seq::<char>::empty()
        } else {
            seq![c]
        }),
{
    let f = |x: char| is_white(x);
    let s = seq![c];
    if is_white(c) {
        assert(s.skip(1) =~= Seq::<char>::empty());
        assert(trim_by(s, f) == trim_by(s.skip(1), f));
        assert(trim_by(s.skip(1), f) == s.skip(1));
    } else {
        assert(trim_by(s, f) == s);
    }
}

/// Trimming an ending away leaves a text without it, which with some copies of
/// it behind is the text again.
pub proof fn law_trimmed_end_is_gone(s: Seq<char>, p: Seq<char>)
    requires
        p.len() > 0,
    ensures
        !ends(trim_end(s, p), p),
        trim_end(s, p).is_prefix_of(s),
        trim_end(s + p, p) == trim_end(s, p),
    decreases s.len(),
{
    assert((s + p).skip(s.len() as int) =~= p);
    assert((s + p).take(s.len() as int) =~= s);
    if ends(s, p) {
        law_trimmed_end_is_gone(s.take(s.len() - p.len()), p);
    }
}

/// Replacing goes character by character: in two texts one after the other it is
/// replaced in each, a character that is not meant stays, and one that is meant
/// turns into the replacement.
pub proof fn law_replacing_replaces_each(
    a: Seq<char>,
    b: Seq<char>,
    c: char,
    by: Seq<char>,
    other: char,
)
    ensures
        replace(a + b, c, by) == replace(a, c, by) + replace(b, c, by),
        replace(seq![c], c, by) == by,
        other != c ==> replace(seq![other], c, by) == seq![other],
        replace(Seq::empty(), c, by).len() == 0,
    decreases b.len(),
{
    let nothing = Seq::<char>::empty();
    assert(seq![c].drop_last() =~= nothing);
    assert(seq![other].drop_last() =~= nothing);
    assert(replace(nothing, c, by).len() == 0);
    assert(replace(seq![c], c, by) == replace(nothing, c, by) + by);
    assert(replace(seq![c], c, by) =~= by);
    assert(other != c ==> replace(seq![other], c, by) == replace(nothing, c, by) + seq![other]);
    assert(other != c ==> replace(seq![other], c, by) =~= seq![other]);
    if b.len() > 0 {
        law_replacing_replaces_each(a, b.drop_last(), c, by, other);
        assert((a + b).drop_last() =~= a + b.drop_last());
        assert(replace(a + b, c, by) =~= replace(a, c, by) + replace(b, c, by));
    } else {
        assert(a + b =~= a);
        assert(replace(a + b, c, by) =~= replace(a, c, by) + replace(b, c, by));
    }
}

/// The cases of ASCII letters are 32 apart, lower and upper case undo each
/// other, and nothing but letters has a case; letters and digits are what has a
/// case and what counts. Two texts are the same whatever their case exactly when
/// their upper-case forms are.
pub proof fn law_cases_of_letters(c: char, a: Seq<char>, b: Seq<char>)
    ensures
        'A' <= c <= 'Z' ==> ascii_lower(c) as u32 == c as u32 + 32 && ascii_upper(ascii_lower(c))
            == c,
        'a' <= c <= 'z' ==> ascii_upper(c) as u32 + 32 == c as u32 && ascii_lower(ascii_upper(c))
            == c,
        !('A' <= c <= 'Z') ==> ascii_lower(c) == c,
        !('a' <= c <= 'z') ==> ascii_upper(c) == c,
        is_alnum(c) <==> ascii_lower(c) != c || ascii_upper(c) != c || all_digits(seq![c]),
        upper_ascii(a).len() == a.len(),
        forall|i: int| 0 <= i < a.len() ==> #[trigger] upper_ascii(a)[i] == ascii_upper(a[i]),
        same_ignoring_case(a, a),
        same_ignoring_case(a, b) <==> same_ignoring_case(b, a),
        same_ignoring_case(a, b) ==> a.len() == b.len() && upper_ascii(a) == upper_ascii(b),
        upper_ascii(a) == upper_ascii(b) ==> same_ignoring_case(a, b),
{
    lemma_case(c);
    assert(seq![c][0] == c);
    if same_ignoring_case(a, b) {
        assert forall|i: int| 0 <= i < a.len() implies upper_ascii(a)[i] == upper_ascii(b)[i] by {
            assert(ascii_lower(a[i]) == ascii_lower(b[i]));
            lemma_case(a[i]);
            lemma_case(b[i]);
        }
        assert(upper_ascii(a) =~= upper_ascii(b));
        assert forall|i: int| 0 <= i < b.len() implies ascii_lower(#[trigger] b[i]) == ascii_lower(
            a[i],
        ) by {
            assert(ascii_lower(a[i]) == ascii_lower(b[i]));
        }
    }
    if same_ignoring_case(b, a) {
        assert forall|i: int| 0 <= i < a.len() implies ascii_lower(#[trigger] a[i]) == ascii_lower(
            b[i],
        ) by {
            assert(ascii_lower(b[i]) == ascii_lower(a[i]));
        }
    }
    if upper_ascii(a) == upper_ascii(b) {
        assert(upper_ascii(a).len() == upper_ascii(b).len());
        assert forall|i: int| 0 <= i < a.len() implies ascii_lower(#[trigger] a[i]) == ascii_lower(
            b[i],
        ) by {
            assert(upper_ascii(a)[i] == upper_ascii(b)[i]);
            lemma_case(a[i]);
            lemma_case(b[i]);
        }
    }
}

proof fn lemma_case(c: char)
    ensures
        'A' <= c <= 'Z' ==> ascii_lower(c) as u32 == c as u32 + 32 && ascii_upper(ascii_lower(c))
            == c && ascii_upper(c) == c && 'a' <= ascii_lower(c) <= 'z',
        'a' <= c <= 'z' ==> ascii_upper(c) as u32 + 32 == c as u32 && ascii_lower(ascii_upper(c))
            == c && ascii_lower(c) == c && 'A' <= ascii_upper(c) <= 'Z',
        !('A' <= c <= 'Z') && !('a' <= c <= 'z') ==> ascii_lower(c) == c && ascii_upper(c) == c,
{
    if 'A' <= c <= 'Z' {
        let n: u8 = (c as u8 + 32) as u8;
        assert(n as char as u32 == n as u32);
        assert(ascii_lower(c) == n as char);
    }
    if 'a' <= c <= 'z' {
        let n: u8 = (c as u8 - 32) as u8;
        assert(ascii_upper(c) == n as char);
    }
}

/// The value of a row of digits is that of its first part, moved up by the
/// length of the second, and that of the second; the ten digits count from zero
/// to nine.
pub proof fn law_digits_count_in_tens(a: Seq<char>, b: Seq<char>, d: u8)
    requires
        d < 10,
    ensures
        digits_value(a + b) == digits_value(a) * vstd::arithmetic::power::pow(10, b.len())
            + digits_value(b),
        digits_value(seq![(48 + d) as u8 as char]) == d,
        digits_value(Seq::empty()) == 0,
    decreases b.len(),
{
    let one = seq![(48 + d) as u8 as char];
    assert(one.drop_last() =~= Seq::<char>::empty());
    assert(digits_value(one.drop_last()) == 0);
    if b.len() == 0 {
        vstd::arithmetic::power::lemma_pow0(10);
        assert(a + b =~= a);
    } else {
        law_digits_count_in_tens(a, b.drop_last(), d);
        assert((a + b).drop_last() =~= a + b.drop_last());
        let k = (b.len() - 1) as nat;
        let x = digits_value(a) as int;
        let p = vstd::arithmetic::power::pow(10, k);
        vstd::arithmetic::power::lemma_pow_adds(10, 1, k);
        vstd::arithmetic::power::lemma_pow1(10);
        assert(vstd::arithmetic::power::pow(10, b.len()) == 10 * p);
        assert((x * p) * 10 == x * (10 * p)) by (nonlinear_arith);
    }
}

/// A number in decimal is a row of digits that has the number's value and no
/// needless zero in front; a negative one has a minus sign before that.
pub proof fn law_decimals_have_their_value(n: int)
    ensures
        n >= 0 ==> all_digits(dec_int(n)) && digits_value(dec_int(n)) == n && dec_int(n) == dec(
            n as nat,
        ),
        n < 0 ==> dec_int(n)[0] == '-' && all_digits(dec_int(n).skip(1)) && digits_value(
            dec_int(n).skip(1),
        ) == -n,
        n > 0 ==> dec_int(n)[0] != '0',
        n == 0 ==> dec_int(n) == seq!['0'],
{
    if n >= 0 {
        lemma_dec_digits(n as nat);
        lemma_no_needless_zero(n as nat);
    } else {
        lemma_dec_digits((-n) as nat);
        assert(dec_int(n).skip(1) =~= dec((-n) as nat));
    }
}

proof fn lemma_no_needless_zero(n: nat)
    ensures
        n > 0 ==> dec(n).len() > 0 && dec(n)[0] != '0',
        dec(n).len() > 0,
    decreases n,
{
    if n >= 10 {
        lemma_no_needless_zero(n / 10);
    }
}

}
