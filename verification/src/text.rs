//! Text as sequences of characters.
//!
//! Contracts in this crate speak of a string through its view, a `Seq<char>`.
//! This module holds the vocabulary they share: white space, ASCII case,
//! trimming, searching, splitting, decimal numbers and UTF-8 lengths. Each
//! executable function is proved to compute the spec function it is named after.

use vstd::prelude::*;

verus! {

/// `String::push` appends one character at the end and changes nothing else.
pub assume_specification[ String::push ](s: &mut String, c: char)
    ensures
        final(s)@ == old(s)@.push(c),
;

/// The views of a sequence of strings.
pub open spec fn texts(v: Seq<String>) -> Seq<Seq<char>> {
    v.map_values(|s: String| s@)
}

/// The view of an optional string.
pub open spec fn opt_text(o: Option<String>) -> Option<Seq<char>> {
    match o {
        Some(s) => Some(s@),
        None => None,
    }
}

/// The characters of `s`, one per element.
pub fn chars_of(s: &str) -> (r: Vec<char>)
    ensures
        r@ == s@,
{
    let mut out: Vec<char> = Vec::new();
    for c in it: s.chars()
        invariant
            out@ == it.seq().take(it.index()),
            it.seq() == s@,
    {
        out.push(c);
    }
    out
}

/// The string whose characters are `v[from..to]`.
pub fn string_of(v: &[char], from: usize, to: usize) -> (r: String)
    requires
        from <= to <= v.len(),
    ensures
        r@ == v@.subrange(from as int, to as int),
{
    let mut out = String::new();
    let mut i: usize = from;
    while i < to
        invariant
            from <= i <= to <= v.len(),
            out@ == v@.subrange(from as int, i as int),
        decreases to - i,
    {
        out.push(v[i]);
        i += 1;
    }
    out
}

/// A copy of a borrowed string.
pub fn own(s: &str) -> (r: String)
    ensures
        r@ == s@,
{
    s.to_owned()
}

/// A copy of an optional string.
pub fn own_opt(s: &Option<String>) -> (r: Option<String>)
    ensures
        r == *s,
{
    match s {
        Some(t) => Some(t.clone()),
        None => None,
    }
}

/// A copy of a list of strings.
pub fn own_list(v: &Vec<String>) -> (r: Vec<String>)
    ensures
        texts(r@) == texts(v@),
{
    let mut out: Vec<String> = Vec::new();
    let mut i: usize = 0;
    while i < v.len()
        invariant
            i <= v.len(),
            texts(out@) == texts(v@).take(i as int),
        decreases v.len() - i,
    {
        let ghost before = texts(out@);
        out.push(v[i].clone());
        assert(texts(out@) == before.push(v@[i as int]@));
        i += 1;
    }
    assert(texts(v@).take(i as int) == texts(v@));
    out
}

/// Whether two strings hold the same characters.
pub fn same(a: &str, b: &str) -> (r: bool)
    ensures
        r == (a@ == b@),
{
    a.to_owned() == b.to_owned()
}

// ---- Characters ---------------------------------------------------------

/// The Unicode `White_Space` property.
pub open spec fn is_white(c: char) -> bool {
    let n = c as int;
    ||| 0x9 <= n <= 0xd
    ||| n == 0x20
    ||| n == 0x85
    ||| n == 0xa0
    ||| n == 0x1680
    ||| 0x2000 <= n <= 0x200a
    ||| n == 0x2028
    ||| n == 0x2029
    ||| n == 0x202f
    ||| n == 0x205f
    ||| n == 0x3000
}

/// Whether `c` is white space.
pub fn white(c: char) -> (r: bool)
    ensures
        r == is_white(c),
{
    let n: u32 = c as u32;
    (0x9 <= n && n <= 0xd) || n == 0x20 || n == 0x85 || n == 0xa0 || n == 0x1680 || (0x2000 <= n
        && n <= 0x200a) || n == 0x2028 || n == 0x2029 || n == 0x202f || n == 0x205f || n == 0x3000
}

/// An ASCII capital letter made small; any other character unchanged.
pub open spec fn lower_char(c: char) -> char {
    if 'A' <= c && c <= 'Z' {
        (c as u8 + 32) as char
    } else {
        c
    }
}

/// An ASCII small letter made capital; any other character unchanged.
pub open spec fn upper_char(c: char) -> char {
    if 'a' <= c && c <= 'z' {
        (c as u8 - 32) as char
    } else {
        c
    }
}

/// `s` with its ASCII capitals made small.
pub open spec fn lower(s: Seq<char>) -> Seq<char> {
    Seq::new(s.len(), |i: int| lower_char(s[i]))
}

/// `s` with its ASCII small letters made capital.
pub open spec fn upper(s: Seq<char>) -> Seq<char> {
    Seq::new(s.len(), |i: int| upper_char(s[i]))
}

/// One character made small.
pub fn to_lower_char(c: char) -> (r: char)
    ensures
        r == lower_char(c),
{
    if 'A' <= c && c <= 'Z' {
        (c as u8 + 32) as char
    } else {
        c
    }
}

/// The characters `v` made small.
pub fn to_lower_chars(v: &[char]) -> (r: Vec<char>)
    ensures
        r@ == lower(v@),
{
    let mut out: Vec<char> = Vec::new();
    let mut i: usize = 0;
    while i < v.len()
        invariant
            i <= v.len(),
            out@ == lower(v@).take(i as int),
        decreases v.len() - i,
    {
        out.push(to_lower_char(v[i]));
        i += 1;
    }
    assert(lower(v@).take(i as int) == lower(v@));
    out
}

/// The string `s` made small.
pub fn to_lower(s: &str) -> (r: String)
    ensures
        r@ == lower(s@),
{
    let v = to_lower_chars(chars_of(s).as_slice());
    let r = string_of(v.as_slice(), 0, v.len());
    assert(v@.subrange(0, v@.len() as int) == v@);
    r
}

/// The string `s` made capital.
pub fn to_upper(s: &str) -> (r: String)
    ensures
        r@ == upper(s@),
{
    let v = chars_of(s);
    let mut out = String::new();
    let mut i: usize = 0;
    while i < v.len()
        invariant
            i <= v.len(),
            v@ == s@,
            out@ == upper(s@).take(i as int),
        decreases v.len() - i,
    {
        let c = v[i];
        if 'a' <= c && c <= 'z' {
            out.push((c as u8 - 32) as char);
        } else {
            out.push(c);
        }
        i += 1;
    }
    assert(upper(s@).take(i as int) == upper(s@));
    out
}

// ---- Trimming -----------------------------------------------------------

/// `s` without its leading white space.
pub open spec fn trim_start(s: Seq<char>) -> Seq<char>
    decreases s.len(),
{
    if s.len() > 0 && is_white(s[0]) {
        trim_start(s.subrange(1, s.len() as int))
    } else {
        s
    }
}

/// `s` without its trailing white space.
pub open spec fn trim_end(s: Seq<char>) -> Seq<char>
    decreases s.len(),
{
    if s.len() > 0 && is_white(s[s.len() - 1]) {
        trim_end(s.subrange(0, s.len() - 1))
    } else {
        s
    }
}

/// `s` without leading and trailing white space.
pub open spec fn trim(s: Seq<char>) -> Seq<char> {
    trim_end(trim_start(s))
}

/// The first index in `from..to` whose character is not white space, else `to`.
pub fn skip_white(v: &[char], from: usize, to: usize) -> (r: usize)
    requires
        from <= to <= v.len(),
    ensures
        from <= r <= to,
        v@.subrange(r as int, to as int) == trim_start(v@.subrange(from as int, to as int)),
{
    let mut i: usize = from;
    while i < to && white(v[i])
        invariant
            from <= i <= to <= v.len(),
            trim_start(v@.subrange(i as int, to as int)) == trim_start(
                v@.subrange(from as int, to as int),
            ),
        decreases to - i,
    {
        proof {
            let s = v@.subrange(i as int, to as int);
            assert(s.subrange(1, s.len() as int) == v@.subrange(i + 1, to as int));
        }
        i += 1;
    }
    i
}

/// One past the last index in `from..to` whose character is not white space,
/// else `from`.
pub fn drop_white(v: &[char], from: usize, to: usize) -> (r: usize)
    requires
        from <= to <= v.len(),
    ensures
        from <= r <= to,
        v@.subrange(from as int, r as int) == trim_end(v@.subrange(from as int, to as int)),
{
    let mut j: usize = to;
    while j > from && white(v[j - 1])
        invariant
            from <= j <= to <= v.len(),
            trim_end(v@.subrange(from as int, j as int)) == trim_end(
                v@.subrange(from as int, to as int),
            ),
        decreases j,
    {
        proof {
            let s = v@.subrange(from as int, j as int);
            assert(s.subrange(0, s.len() - 1) == v@.subrange(from as int, j - 1));
        }
        j -= 1;
    }
    j
}

/// The bounds of `v[from..to]` without its outer white space.
pub fn trim_range(v: &[char], from: usize, to: usize) -> (r: (usize, usize))
    requires
        from <= to <= v.len(),
    ensures
        from <= r.0 <= r.1 <= to,
        v@.subrange(r.0 as int, r.1 as int) == trim(v@.subrange(from as int, to as int)),
{
    let a: usize = skip_white(v, from, to);
    let b: usize = drop_white(v, a, to);
    (a, b)
}

/// The string `s` without its outer white space.
pub fn trimmed(s: &str) -> (r: String)
    ensures
        r@ == trim(s@),
{
    let v = chars_of(s);
    let n: usize = v.len();
    let (a, b) = trim_range(v.as_slice(), 0, n);
    assert(v@.subrange(0, n as int) == v@);
    string_of(v.as_slice(), a, b)
}

// ---- Searching ----------------------------------------------------------

/// Whether `p` stands in `s` at index `i`.
pub open spec fn has_at(s: Seq<char>, p: Seq<char>, i: int) -> bool {
    &&& 0 <= i
    &&& i + p.len() <= s.len()
    &&& s.subrange(i, i + p.len()) == p
}

/// Whether `s` begins with `p`.
pub open spec fn starts_with(s: Seq<char>, p: Seq<char>) -> bool {
    has_at(s, p, 0)
}

/// Whether `s` ends with `p`.
pub open spec fn ends_with(s: Seq<char>, p: Seq<char>) -> bool {
    has_at(s, p, s.len() - p.len())
}

/// The least index at or after `from` at which `p` stands in `s`.
pub open spec fn find(s: Seq<char>, p: Seq<char>, from: int) -> Option<int>
    decreases s.len() + 1 - from,
{
    if from + p.len() > s.len() {
        None
    } else if has_at(s, p, from) {
        Some(from)
    } else {
        find(s, p, from + 1)
    }
}

/// Whether `p` stands anywhere in `s`.
pub open spec fn contains(s: Seq<char>, p: Seq<char>) -> bool {
    find(s, p, 0) is Some
}

/// What `find` returns: the first place of `p` at or after `from`, or nothing
/// when there is none.
pub proof fn lemma_find(s: Seq<char>, p: Seq<char>, from: int)
    requires
        0 <= from,
    ensures
        match find(s, p, from) {
            Some(i) => from <= i && has_at(s, p, i) && forall|j: int|
                from <= j < i ==> !has_at(s, p, j),
            None => forall|j: int| from <= j ==> !has_at(s, p, j),
        },
    decreases s.len() + 1 - from,
{
    if from + p.len() > s.len() {
    } else if has_at(s, p, from) {
    } else {
        lemma_find(s, p, from + 1);
    }
}

/// Whether `p` stands in `v` at index `i`.
pub fn is_at(v: &[char], p: &[char], i: usize) -> (r: bool)
    ensures
        r == has_at(v@, p@, i as int),
{
    if i > v.len() || p.len() > v.len() - i {
        return false;
    }
    let mut k: usize = 0;
    while k < p.len()
        invariant
            k <= p.len(),
            i + p.len() <= v.len(),
            forall|j: int| 0 <= j < k ==> v@[i + j] == p@[j],
        decreases p.len() - k,
    {
        if v[i + k] != p[k] {
            assert(v@.subrange(i as int, i + p@.len())[k as int] == v@[i + k]);
            return false;
        }
        k += 1;
    }
    assert(v@.subrange(i as int, i + p@.len()) == p@);
    true
}

/// The first place of `p` in `v` at or after `from`.
pub fn find_from(v: &[char], p: &[char], from: usize) -> (r: Option<usize>)
    ensures
        match r {
            Some(i) => find(v@, p@, from as int) == Some(i as int),
            None => find(v@, p@, from as int) is None,
        },
{
    if p.len() > v.len() {
        return None;
    }
    let last: usize = v.len() - p.len();
    let mut i: usize = from;
    while i <= last
        invariant
            p.len() <= v.len(),
            last == v.len() - p.len(),
            find(v@, p@, from as int) == find(v@, p@, i as int),
        decreases v.len() + 1 - i,
    {
        if is_at(v, p, i) {
            return Some(i);
        }
        if i == last {
            assert(find(v@, p@, i + 1) is None);
            return None;
        }
        i += 1;
    }
    None
}

/// Whether `s` contains `p`.
pub fn has(s: &str, p: &str) -> (r: bool)
    ensures
        r == contains(s@, p@),
{
    find_from(chars_of(s).as_slice(), chars_of(p).as_slice(), 0).is_some()
}

/// Whether `s` begins with `p`.
pub fn begins(s: &str, p: &str) -> (r: bool)
    ensures
        r == starts_with(s@, p@),
{
    is_at(chars_of(s).as_slice(), chars_of(p).as_slice(), 0)
}

/// Whether `s` ends with `p`.
pub fn ends(s: &str, p: &str) -> (r: bool)
    ensures
        r == ends_with(s@, p@),
{
    let v = chars_of(s);
    let q = chars_of(p);
    if q.len() > v.len() {
        return false;
    }
    let k: usize = v.len() - q.len();
    is_at(v.as_slice(), q.as_slice(), k)
}

/// The least index in `from..` that holds `c`, else the length of `s`.
pub open spec fn index_of(s: Seq<char>, c: char, from: int) -> int
    decreases s.len() - from,
{
    if from >= s.len() {
        s.len() as int
    } else if s[from] == c {
        from
    } else {
        index_of(s, c, from + 1)
    }
}

/// The least index at or after `from` that holds `c`, else the length.
pub fn position_of(v: &[char], c: char, from: usize) -> (r: usize)
    requires
        from <= v.len(),
    ensures
        from <= r <= v.len(),
        r == index_of(v@, c, from as int),
        r < v.len() ==> v@[r as int] == c,
        forall|j: int| from <= j < r ==> v@[j] != c,
{
    let mut i: usize = from;
    while i < v.len() && v[i] != c
        invariant
            from <= i <= v.len(),
            index_of(v@, c, from as int) == index_of(v@, c, i as int),
            forall|j: int| from <= j < i ==> v@[j] != c,
        decreases v.len() - i,
    {
        i += 1;
    }
    i
}

// ---- Splitting and joining ----------------------------------------------

/// The pieces of `s` between the occurrences of `c`; always at least one.
pub open spec fn split(s: Seq<char>, c: char) -> Seq<Seq<char>>
    decreases s.len(),
{
    let i = index_of(s, c, 0);
    if 0 <= i < s.len() {
        seq![s.subrange(0, i)] + split(s.subrange(i + 1, s.len() as int), c)
    } else {
        seq![s]
    }
}

/// `s` without one carriage return at its end.
pub open spec fn strip_cr(s: Seq<char>) -> Seq<char> {
    if s.len() > 0 && s[s.len() - 1] == '\r' {
        s.subrange(0, s.len() - 1)
    } else {
        s
    }
}

/// The lines of `s`. A line ends at `\n` or `\r\n`; what follows the last
/// line feed is a line only when it is not empty.
pub open spec fn lines(s: Seq<char>) -> Seq<Seq<char>>
    decreases s.len(),
{
    let i = index_of(s, '\n', 0);
    if s.len() == 0 {
        Seq::empty()
    } else if 0 <= i < s.len() {
        seq![strip_cr(s.subrange(0, i))] + lines(s.subrange(i + 1, s.len() as int))
    } else {
        seq![s]
    }
}

/// Where a search in the tail `s[k..]` finds `c`, in terms of `s`.
pub proof fn lemma_index_of_tail(s: Seq<char>, c: char, k: int, from: int)
    requires
        0 <= k <= s.len(),
        0 <= from <= s.len() - k,
    ensures
        index_of(s.subrange(k, s.len() as int), c, from) + k == index_of(s, c, from + k),
    decreases s.len() - k - from,
{
    let t = s.subrange(k, s.len() as int);
    if from < t.len() && t[from] != c {
        lemma_index_of_tail(s, c, k, from + 1);
    }
}

/// The bounds of `index_of`.
pub proof fn lemma_index_of(s: Seq<char>, c: char, from: int)
    requires
        0 <= from <= s.len(),
    ensures
        from <= index_of(s, c, from) <= s.len(),
        index_of(s, c, from) < s.len() ==> s[index_of(s, c, from)] == c,
        forall|j: int| from <= j < index_of(s, c, from) ==> s[j] != c,
    decreases s.len() - from,
{
    if from < s.len() && s[from] != c {
        lemma_index_of(s, c, from + 1);
    }
}

/// The pieces of `s` between the occurrences of `c`.
pub fn split_on(s: &str, c: char) -> (r: Vec<String>)
    ensures
        texts(r@) == split(s@, c),
{
    let v = chars_of(s);
    let ghost w = v@;
    let mut out: Vec<String> = Vec::new();
    let mut from: usize = 0;
    assert(w.subrange(0, w.len() as int) == w);
    assert(texts(out@) + split(w, c) == split(w, c));
    loop
        invariant
            v@ == w,
            w == s@,
            from <= v.len(),
            texts(out@) + split(w.subrange(from as int, w.len() as int), c) == split(w, c),
        decreases v.len() - from,
    {
        let i: usize = position_of(v.as_slice(), c, from);
        let ghost t = w.subrange(from as int, w.len() as int);
        let ghost before = texts(out@);
        proof {
            lemma_index_of_tail(w, c, from as int, 0);
        }
        if i < v.len() {
            let piece = string_of(v.as_slice(), from, i);
            proof {
                assert(t.subrange(0, i - from) == w.subrange(from as int, i as int));
                assert(t.subrange(i - from + 1, t.len() as int) == w.subrange(
                    i + 1,
                    w.len() as int,
                ));
            }
            out.push(piece);
            proof {
                assert(texts(out@) == before + seq![piece@]);
                let rest = split(w.subrange(i + 1, w.len() as int), c);
                assert(before + (seq![piece@] + rest) == (before + seq![piece@]) + rest);
            }
            from = i + 1;
        } else {
            let piece = string_of(v.as_slice(), from, v.len());
            out.push(piece);
            proof {
                assert(texts(out@) == before + seq![piece@]);
            }
            return out;
        }
    }
}

/// The lines of `s`.
pub fn lines_of(s: &str) -> (r: Vec<String>)
    ensures
        texts(r@) == lines(s@),
{
    let v = chars_of(s);
    let ghost w = v@;
    let mut out: Vec<String> = Vec::new();
    let mut from: usize = 0;
    assert(w.subrange(0, w.len() as int) == w);
    assert(texts(out@) + lines(w) == lines(w));
    while from < v.len()
        invariant
            v@ == w,
            w == s@,
            from <= v.len(),
            texts(out@) + lines(w.subrange(from as int, w.len() as int)) == lines(w),
        decreases v.len() - from,
    {
        let i: usize = position_of(v.as_slice(), '\n', from);
        let ghost t = w.subrange(from as int, w.len() as int);
        let ghost before = texts(out@);
        proof {
            lemma_index_of_tail(w, '\n', from as int, 0);
        }
        if i < v.len() {
            let mut to: usize = i;
            if to > from && v[to - 1] == '\r' {
                to -= 1;
            }
            let piece = string_of(v.as_slice(), from, to);
            proof {
                let l = t.subrange(0, i - from);
                assert(l == w.subrange(from as int, i as int));
                assert(strip_cr(l) == w.subrange(from as int, to as int));
                assert(t.subrange(i - from + 1, t.len() as int) == w.subrange(
                    i + 1,
                    w.len() as int,
                ));
            }
            out.push(piece);
            proof {
                assert(texts(out@) == before + seq![piece@]);
                let rest = lines(w.subrange(i + 1, w.len() as int));
                assert(before + (seq![piece@] + rest) == (before + seq![piece@]) + rest);
            }
            from = i + 1;
        } else {
            let piece = string_of(v.as_slice(), from, v.len());
            out.push(piece);
            proof {
                assert(texts(out@) == before + seq![piece@]);
                assert(w.subrange(w.len() as int, w.len() as int) == Seq::<char>::empty());
                assert(lines(t) == seq![piece@]);
                assert(texts(out@) + lines(Seq::<char>::empty()) == texts(out@));
            }
            from = v.len();
        }
    }
    assert(w.subrange(from as int, w.len() as int) == Seq::<char>::empty());
    assert(texts(out@) + lines(Seq::<char>::empty()) == texts(out@));
    out
}

/// The texts of `v` in order with `sep` between neighbours.
pub open spec fn join(v: Seq<Seq<char>>, sep: Seq<char>) -> Seq<char>
    decreases v.len(),
{
    if v.len() == 0 {
        Seq::empty()
    } else if v.len() == 1 {
        v[0]
    } else {
        join(v.drop_last(), sep) + sep + v.last()
    }
}

/// The strings of `v` in order with `sep` between neighbours.
pub fn joined(v: &Vec<String>, sep: &str) -> (r: String)
    ensures
        r@ == join(texts(v@), sep@),
{
    let mut out = String::new();
    let mut i: usize = 0;
    while i < v.len()
        invariant
            i <= v.len(),
            out@ == join(texts(v@).take(i as int), sep@),
        decreases v.len() - i,
    {
        proof {
            let t = texts(v@).take(i + 1);
            assert(t.drop_last() == texts(v@).take(i as int));
        }
        if i > 0 {
            out.append(sep);
        }
        out.append(v[i].as_str());
        i += 1;
    }
    assert(texts(v@).take(i as int) == texts(v@));
    out
}

/// The first `c` is where it is, when there is none before it.
pub proof fn lemma_index_is(s: Seq<char>, c: char, from: int, k: int)
    requires
        0 <= from <= k <= s.len(),
        forall|j: int| from <= j < k ==> s[j] != c,
        k < s.len() ==> s[k] == c,
    ensures
        index_of(s, c, from) == k,
    decreases k - from,
{
    if from < k {
        lemma_index_is(s, c, from + 1, k);
    }
}

// ---- Words --------------------------------------------------------------

/// The length of the word that `s` begins with.
pub open spec fn word_len(s: Seq<char>) -> int
    decreases s.len(),
{
    if s.len() == 0 || is_white(s[0]) {
        0
    } else {
        1 + word_len(s.subrange(1, s.len() as int))
    }
}

/// Trimming makes no text longer.
pub proof fn lemma_trim_start_len(s: Seq<char>)
    ensures
        trim_start(s).len() <= s.len(),
        trim_start(s).len() > 0 ==> !is_white(trim_start(s)[0]),
    decreases s.len(),
{
    if s.len() > 0 && is_white(s[0]) {
        lemma_trim_start_len(s.subrange(1, s.len() as int));
    }
}

/// A word is within its text.
proof fn lemma_word_len(s: Seq<char>)
    ensures
        0 <= word_len(s) <= s.len(),
        s.len() > 0 && !is_white(s[0]) ==> word_len(s) >= 1,
    decreases s.len(),
{
    if s.len() > 0 && !is_white(s[0]) {
        lemma_word_len(s.subrange(1, s.len() as int));
    }
}

/// The words of `s`: its longest runs without white space.
pub open spec fn words(s: Seq<char>) -> Seq<Seq<char>>
    decreases s.len(),
    via words_decreases
{
    let t = trim_start(s);
    if t.len() == 0 {
        Seq::empty()
    } else {
        seq![t.subrange(0, word_len(t))] + words(t.subrange(word_len(t), t.len() as int))
    }
}

#[via_fn]
proof fn words_decreases(s: Seq<char>) {
    lemma_trim_start_len(s);
    lemma_word_len(trim_start(s));
}

/// The words of `s`.
pub fn words_of(s: &str) -> (r: Vec<String>)
    ensures
        texts(r@) == words(s@),
{
    let v = chars_of(s);
    let ghost w = v@;
    let n: usize = v.len();
    let mut out: Vec<String> = Vec::new();
    let mut i: usize = 0;
    assert(w.subrange(0, w.len() as int) == w);
    assert(texts(out@) + words(w) == words(w));
    loop
        invariant
            v@ == w,
            w == s@,
            n == v.len(),
            i <= n,
            texts(out@) + words(w.subrange(i as int, n as int)) == words(w),
        decreases n - i,
    {
        let ghost rest = w.subrange(i as int, n as int);
        let a: usize = skip_white(v.as_slice(), i, n);
        let ghost t = w.subrange(a as int, n as int);
        proof {
            lemma_trim_start_len(rest);
            lemma_word_len(t);
        }
        if a == n {
            assert(words(rest) == Seq::<Seq<char>>::empty());
            assert(texts(out@) + Seq::<Seq<char>>::empty() == texts(out@));
            return out;
        }
        let mut b: usize = a;
        assert(w.subrange(a as int, n as int) == t);
        while b < n && !white(v[b])
            invariant
                v@ == w,
                n == v.len(),
                a <= b <= n,
                t == w.subrange(a as int, n as int),
                word_len(t) == (b - a) + word_len(w.subrange(b as int, n as int)),
            decreases n - b,
        {
            proof {
                let u = w.subrange(b as int, n as int);
                assert(u.subrange(1, u.len() as int) == w.subrange(b + 1, n as int));
            }
            b += 1;
        }
        assert(word_len(w.subrange(b as int, n as int)) == 0);
        let word = string_of(v.as_slice(), a, b);
        let ghost before = texts(out@);
        out.push(word);
        proof {
            assert(t.subrange(0, b - a) == w.subrange(a as int, b as int));
            assert(t.subrange(b - a, t.len() as int) == w.subrange(b as int, n as int));
            assert(texts(out@) == before + seq![word@]);
            let more = words(w.subrange(b as int, n as int));
            assert(before + (seq![word@] + more) == (before + seq![word@]) + more);
        }
        i = b;
    }
}

// ---- Numbers ------------------------------------------------------------

/// The decimal digit of a value below ten.
pub open spec fn digit(d: int) -> char {
    (0x30 + d) as char
}

/// A natural number in decimal, without leading zeros.
pub open spec fn digits(n: nat) -> Seq<char>
    decreases n,
{
    if n < 10 {
        seq![digit(n as int)]
    } else {
        digits(n / 10).push(digit((n % 10) as int))
    }
}

/// An integer in decimal.
pub open spec fn decimal(i: int) -> Seq<char> {
    if i < 0 {
        seq!['-'] + digits((-i) as nat)
    } else {
        digits(i as nat)
    }
}

/// Append the decimal form of `n`.
pub fn push_digits(out: &mut String, n: u64)
    ensures
        final(out)@ == old(out)@ + digits(n as nat),
    decreases n,
{
    if n >= 10 {
        push_digits(out, n / 10);
    }
    let d: u8 = (n % 10) as u8;
    out.push((0x30 + d) as char);
}

/// The decimal form of `n`.
pub fn number(n: u64) -> (r: String)
    ensures
        r@ == digits(n as nat),
{
    let mut out = String::new();
    push_digits(&mut out, n);
    out
}

/// The decimal form of `n`.
pub fn integer(n: i64) -> (r: String)
    ensures
        r@ == decimal(n as int),
{
    let mut out = String::new();
    if n < 0 {
        out.push('-');
        let m: u64 = (-(n as i128)) as u64;
        push_digits(&mut out, m);
    } else {
        push_digits(&mut out, n as u64);
    }
    out
}

/// Why a text is not a number of the wanted type.
#[derive(Debug, Clone, Copy, PartialEq, Eq, Structural)]
pub enum NumberError {
    /// There is nothing to read.
    Empty,
    /// A character is not a digit.
    InvalidDigit,
    /// The value is above the type's maximum.
    PosOverflow,
    /// The value is below the type's minimum.
    NegOverflow,
}

impl NumberError {
    /// The message that reports the error.
    pub open spec fn text(self) -> Seq<char> {
        match self {
            NumberError::Empty => "cannot parse integer from empty string"@,
            NumberError::InvalidDigit => "invalid digit found in string"@,
            NumberError::PosOverflow => "number too large to fit in target type"@,
            NumberError::NegOverflow => "number too small to fit in target type"@,
        }
    }

    /// The message that reports the error.
    pub fn message(self) -> (r: &'static str)
        ensures
            r@ == self.text(),
    {
        match self {
            NumberError::Empty => "cannot parse integer from empty string",
            NumberError::InvalidDigit => "invalid digit found in string",
            NumberError::PosOverflow => "number too large to fit in target type",
            NumberError::NegOverflow => "number too small to fit in target type",
        }
    }
}

/// Whether `c` is a decimal digit.
pub open spec fn is_digit(c: char) -> bool {
    '0' <= c && c <= '9'
}

/// The value of a digit.
pub open spec fn digit_value(c: char) -> int {
    c as int - 0x30
}

/// The number that the digits `s[i..]` continue from `acc`, at most `max`.
/// The first character that is no digit, or the first digit that takes the
/// value past `max`, decides the error.
pub open spec fn read_digits(s: Seq<char>, i: int, acc: int, max: int) -> Result<int, NumberError>
    decreases s.len() - i,
{
    if i >= s.len() {
        Ok(acc)
    } else if !is_digit(s[i]) {
        Err(NumberError::InvalidDigit)
    } else if acc * 10 + digit_value(s[i]) > max {
        Err(NumberError::PosOverflow)
    } else {
        read_digits(s, i + 1, acc * 10 + digit_value(s[i]), max)
    }
}

/// A natural number of at most `max`: digits with an optional `+` before them.
pub open spec fn parse_nat(s: Seq<char>, max: int) -> Result<int, NumberError> {
    if s.len() == 0 {
        Err(NumberError::Empty)
    } else if s.len() == 1 && (s[0] == '+' || s[0] == '-') {
        Err(NumberError::InvalidDigit)
    } else if s[0] == '+' {
        read_digits(s, 1, 0, max)
    } else {
        read_digits(s, 0, 0, max)
    }
}

/// Read a natural number of at most `max`.
pub fn read_nat(s: &str, max: u64) -> (r: Result<u64, NumberError>)
    ensures
        match r {
            Ok(n) => parse_nat(s@, max as int) == Ok::<int, NumberError>(n as int),
            Err(e) => parse_nat(s@, max as int) == Err::<int, NumberError>(e),
        },
        r is Ok ==> r->Ok_0 <= max,
{
    let v = chars_of(s);
    if v.len() == 0 {
        return Err(NumberError::Empty);
    }
    if v.len() == 1 && (v[0] == '+' || v[0] == '-') {
        return Err(NumberError::InvalidDigit);
    }
    let mut i: usize = if v[0] == '+' { 1 } else { 0 };
    let mut acc: u64 = 0;
    while i < v.len()
        invariant
            i <= v.len(),
            v@ == s@,
            acc <= max,
            parse_nat(s@, max as int) == read_digits(s@, i as int, acc as int, max as int),
        decreases v.len() - i,
    {
        let c = v[i];
        if !('0' <= c && c <= '9') {
            return Err(NumberError::InvalidDigit);
        }
        let d: u64 = (c as u32 - 0x30) as u64;
        let wide: u128 = (acc as u128) * 10 + d as u128;
        if wide > max as u128 {
            return Err(NumberError::PosOverflow);
        }
        acc = wide as u64;
        i += 1;
    }
    Ok(acc)
}

/// The most negative number of 64 bits has this size.
pub const MIN_SIZE: u64 = 9223372036854775808;

/// An integer of 64 bits: digits with an optional sign before them.
pub open spec fn parse_int(s: Seq<char>) -> Option<int> {
    if s.len() > 1 && s[0] == '-' {
        match read_digits(s, 1, 0, MIN_SIZE as int) {
            Ok(n) => Some(-n),
            Err(_) => None,
        }
    } else {
        match parse_nat(s, i64::MAX as int) {
            Ok(n) => Some(n),
            Err(_) => None,
        }
    }
}

/// Read an integer of 64 bits.
pub fn read_int(s: &str) -> (r: Option<i64>)
    ensures
        match r {
            Some(n) => parse_int(s@) == Some(n as int),
            None => parse_int(s@) is None,
        },
{
    let v = chars_of(s);
    if !(v.len() > 1 && v[0] == '-') {
        return match read_nat(s, 9223372036854775807) {
            Ok(n) => Some(n as i64),
            Err(_) => None,
        };
    }
    let mut i: usize = 1;
    let mut acc: i64 = 0;
    while i < v.len()
        invariant
            1 <= i <= v.len(),
            v@ == s@,
            v.len() > 1,
            v@[0] == '-',
            acc <= 0,
            read_digits(s@, 1, 0, MIN_SIZE as int) == read_digits(
                s@,
                i as int,
                -(acc as int),
                MIN_SIZE as int,
            ),
        decreases v.len() - i,
    {
        let c = v[i];
        if !('0' <= c && c <= '9') {
            return None;
        }
        let d: i128 = (c as u32 - 0x30) as i128;
        let wide: i128 = (acc as i128) * 10 - d;
        if wide < i64::MIN as i128 {
            return None;
        }
        acc = wide as i64;
        i += 1;
    }
    Some(acc)
}

// ---- UTF-8 --------------------------------------------------------------

/// The UTF-8 bytes of `s`.
pub open spec fn utf8(s: Seq<char>) -> Seq<u8> {
    vstd::utf8::encode_utf8(s)
}

/// The number of UTF-8 bytes of one character.
pub open spec fn width(c: char) -> int {
    let n = c as int;
    if n < 0x80 {
        1
    } else if n < 0x800 {
        2
    } else if n < 0x10000 {
        3
    } else {
        4
    }
}

/// How many leading characters of `s` fit into `max` UTF-8 bytes.
pub open spec fn fit(s: Seq<char>, max: int) -> int
    decreases s.len(),
{
    if s.len() == 0 || width(s[0]) > max {
        0
    } else {
        1 + fit(s.subrange(1, s.len() as int), max - width(s[0]))
    }
}

/// One character takes `width` bytes.
pub proof fn lemma_width(c: char)
    ensures
        utf8(seq![c]).len() == width(c),
{
    vstd::utf8::char_is_scalar(c);
    assert(seq![c].drop_first() == Seq::<char>::empty());
    assert(vstd::utf8::encode_utf8(seq![c]) == vstd::utf8::encode_scalar(c as u32)
        + vstd::utf8::encode_utf8(Seq::<char>::empty()));
}

/// The bytes of a concatenation are the concatenated bytes.
pub proof fn lemma_utf8_concat(a: Seq<char>, b: Seq<char>)
    ensures
        utf8(a + b) == utf8(a) + utf8(b),
    decreases a.len(),
{
    if a.len() == 0 {
        assert(a + b == b);
        assert(utf8(a) == Seq::<u8>::empty());
        assert(utf8(a) + utf8(b) == utf8(b));
    } else {
        lemma_utf8_concat(a.drop_first(), b);
        assert((a + b).drop_first() == a.drop_first() + b);
        let head = vstd::utf8::encode_scalar(a[0] as u32);
        assert((head + utf8(a.drop_first())) + utf8(b) == head + (utf8(a.drop_first()) + utf8(b)));
    }
}

/// A byte length is the first character's width and the rest's.
pub proof fn lemma_utf8_len_step(s: Seq<char>)
    requires
        s.len() > 0,
    ensures
        utf8(s).len() == width(s[0]) + utf8(s.subrange(1, s.len() as int)).len(),
{
    let rest = s.subrange(1, s.len() as int);
    assert(s == seq![s[0]] + rest);
    lemma_utf8_concat(seq![s[0]], rest);
    lemma_width(s[0]);
}

/// Making letters small keeps the number of bytes.
pub proof fn lemma_lower_bytes(s: Seq<char>)
    ensures
        utf8(lower(s)).len() == utf8(s).len(),
    decreases s.len(),
{
    if s.len() > 0 {
        let rest = s.subrange(1, s.len() as int);
        lemma_lower_bytes(rest);
        lemma_utf8_len_step(s);
        lemma_utf8_len_step(lower(s));
        assert(lower(s).subrange(1, s.len() as int) == lower(rest));
    } else {
        assert(lower(s) == s);
    }
}

/// `fit` is the longest prefix within the limit: its bytes fit, and with one
/// character more they would not.
pub proof fn lemma_fit(s: Seq<char>, max: int)
    requires
        0 <= max,
    ensures
        0 <= fit(s, max) <= s.len(),
        utf8(s.take(fit(s, max))).len() <= max,
        fit(s, max) < s.len() ==> utf8(s.take(fit(s, max) + 1)).len() > max,
        utf8(s).len() <= max <==> fit(s, max) == s.len(),
    decreases s.len(),
{
    if s.len() == 0 {
        assert(s.take(0) == Seq::<char>::empty());
        assert(utf8(s.take(0)).len() == 0);
    } else if width(s[0]) > max {
        assert(s.take(0) == Seq::<char>::empty());
        assert(utf8(s.take(0)).len() == 0);
        lemma_utf8_len_step(s.take(1));
        lemma_utf8_len_step(s);
    } else {
        let rest = s.subrange(1, s.len() as int);
        let left = max - width(s[0]);
        lemma_fit(rest, left);
        let k = fit(rest, left);
        lemma_utf8_len_step(s);
        lemma_utf8_len_step(s.take(k + 1));
        assert(s.take(k + 1).subrange(1, k + 1) == rest.take(k));
        if k < rest.len() {
            lemma_utf8_len_step(s.take(k + 2));
            assert(s.take(k + 2).subrange(1, k + 2) == rest.take(k + 1));
        }
    }
}

/// The number of UTF-8 bytes of `c`.
pub fn char_width(c: char) -> (r: usize)
    ensures
        r == width(c),
{
    let n: u32 = c as u32;
    if n < 0x80 {
        1
    } else if n < 0x800 {
        2
    } else if n < 0x10000 {
        3
    } else {
        4
    }
}

/// The number of UTF-8 bytes of `s`.
pub fn byte_len(s: &str) -> (r: usize)
    ensures
        r == utf8(s@).len(),
{
    s.as_bytes().len()
}

/// The UTF-8 bytes of `s`.
pub fn utf8_bytes(s: &str) -> (r: Vec<u8>)
    ensures
        r@ == utf8(s@),
{
    s.as_bytes_vec()
}

/// The longest prefix of `s` within `max` UTF-8 bytes.
pub fn prefix_within(s: &str, max: usize) -> (r: String)
    ensures
        r@ == s@.take(fit(s@, max as int)),
{
    let v = chars_of(s);
    let mut i: usize = 0;
    let mut left: usize = max;
    proof {
        assert(s@.subrange(0, s@.len() as int) == s@);
    }
    while i < v.len() && char_width(v[i]) <= left
        invariant
            i <= v.len(),
            v@ == s@,
            fit(s@, max as int) == i + fit(s@.subrange(i as int, s@.len() as int), left as int),
        decreases v.len() - i,
    {
        proof {
            let t = s@.subrange(i as int, s@.len() as int);
            assert(t.subrange(1, t.len() as int) == s@.subrange(i + 1, s@.len() as int));
        }
        left -= char_width(v[i]);
        i += 1;
    }
    string_of(v.as_slice(), 0, i)
}

// ---- Laws ---------------------------------------------------------------

/// One more digit is ten times the number and the digit.
proof fn lemma_read_push(s: Seq<char>, c: char, i: int, acc: int, max: int)
    requires
        0 <= i <= s.len(),
        read_digits(s, i, acc, max) is Ok,
        is_digit(c),
        read_digits(s, i, acc, max)->Ok_0 * 10 + digit_value(c) <= max,
    ensures
        read_digits(s.push(c), i, acc, max) == Ok::<int, NumberError>(
            read_digits(s, i, acc, max)->Ok_0 * 10 + digit_value(c),
        ),
    decreases s.len() - i,
{
    let t = s.push(c);
    if i < s.len() {
        assert(t[i] == s[i]);
        lemma_read_push(s, c, i + 1, acc * 10 + digit_value(s[i]), max);
    } else {
        assert(t[i] == c);
        reveal_with_fuel(read_digits, 2);
    }
}

/// A number is written with digits only, and at least one.
pub proof fn law_numbers_are_digits(n: nat)
    ensures
        digits(n).len() > 0,
        forall|i: int| 0 <= i < digits(n).len() ==> '0' <= #[trigger] digits(n)[i] <= '9',
        n > 0 ==> digits(n)[0] != '0',
    decreases n,
{
    if n >= 10 {
        law_numbers_are_digits(n / 10);
        assert(digits(n)[0] == digits(n / 10)[0]);
    }
}

/// What is written for a number is read back as that number, whatever larger limit
/// there is; a larger number than the limit is too large.
pub proof fn law_numbers_are_read_back(n: nat, max: nat)
    ensures
        n <= max ==> parse_nat(digits(n), max as int) == Ok::<int, NumberError>(n as int),
    decreases n,
{
    if n <= max {
        lemma_read_digits_of(n, max);
        law_numbers_are_digits(n);
        assert('0' <= digits(n)[0] <= '9');
    }
}

proof fn lemma_read_digits_of(n: nat, max: nat)
    requires
        n <= max,
    ensures
        read_digits(digits(n), 0, 0, max as int) == Ok::<int, NumberError>(n as int),
    decreases n,
{
    if n < 10 {
        reveal_with_fuel(read_digits, 3);
        assert(digits(n) == seq![digit(n as int)]);
    } else {
        lemma_read_digits_of(n / 10, max);
        lemma_read_push(digits(n / 10), digit((n % 10) as int), 0, 0, max as int);
    }
}

/// A negative number is written with a sign and read back too.
pub proof fn law_integers_are_read_back(i: i64)
    ensures
        parse_int(decimal(i as int)) == Some(i as int),
        i >= 0 ==> decimal(i as int) == digits(i as nat),
{
    if i >= 0 {
        law_numbers_are_read_back(i as nat, i64::MAX as nat);
        law_numbers_are_digits(i as nat);
        assert(decimal(i as int)[0] != '-');
    } else {
        let n = (-i) as nat;
        let s = decimal(i as int);
        lemma_read_digits_of(n, MIN_SIZE as nat);
        law_numbers_are_digits(n);
        lemma_read_skip(digits(n), 0, 0, MIN_SIZE as int);
        assert(s.len() > 1);
    }
}

proof fn lemma_read_skip(s: Seq<char>, i: int, acc: int, max: int)
    requires
        0 <= i <= s.len(),
    ensures
        read_digits(seq!['-'] + s, i + 1, acc, max) == read_digits(s, i, acc, max),
    decreases s.len() - i,
{
    let t = seq!['-'] + s;
    if i < s.len() {
        assert(t[i + 1] == s[i]);
        lemma_read_skip(s, i + 1, acc * 10 + digit_value(s[i]), max);
    }
}

/// A text holds another exactly when the other stands somewhere in it.
pub proof fn law_contains_means_somewhere(s: Seq<char>, p: Seq<char>)
    ensures
        contains(s, p) <==> exists|a: Seq<char>, b: Seq<char>| s == #[trigger] (a + p + b),
{
    lemma_find(s, p, 0);
    if contains(s, p) {
        let i = find(s, p, 0)->0;
        let a = s.take(i);
        let b = s.skip(i + p.len());
        assert(s =~= a + p + b);
    }
    if exists|a: Seq<char>, b: Seq<char>| s == #[trigger] (a + p + b) {
        let (a, b) = choose|a: Seq<char>, b: Seq<char>| s == #[trigger] (a + p + b);
        let i = a.len() as int;
        assert(s.subrange(i, i + p.len()) =~= p);
        assert(has_at(s, p, i));
    }
}

/// To begin with a text, or to end with one, is to be that text and some other.
pub proof fn law_begins_and_ends(s: Seq<char>, p: Seq<char>)
    ensures
        starts_with(s, p) <==> exists|b: Seq<char>| s == #[trigger] (p + b),
        ends_with(s, p) <==> exists|a: Seq<char>| s == #[trigger] (a + p),
{
    if starts_with(s, p) {
        assert(s =~= p + s.skip(p.len() as int));
    }
    if exists|b: Seq<char>| s == #[trigger] (p + b) {
        let b = choose|b: Seq<char>| s == #[trigger] (p + b);
        assert(s.subrange(0, p.len() as int) =~= p);
    }
    if ends_with(s, p) {
        assert(s =~= s.take(s.len() - p.len()) + p);
    }
    if exists|a: Seq<char>| s == #[trigger] (a + p) {
        let a = choose|a: Seq<char>| s == #[trigger] (a + p);
        assert(s.subrange(s.len() - p.len(), s.len() as int) =~= p);
    }
}

/// Trimming takes white space away at both ends, all of it and nothing else.
pub proof fn law_trim_takes_only_outer_white(s: Seq<char>)
    ensures
        trim(s).len() > 0 ==> !is_white(trim(s)[0]) && !is_white(trim(s).last()),
        exists|a: Seq<char>, b: Seq<char>|
            s == #[trigger] (a + trim(s) + b) && (forall|i: int|
                0 <= i < a.len() ==> is_white(#[trigger] a[i])) && (forall|i: int|
                0 <= i < b.len() ==> is_white(#[trigger] b[i])),
        s.len() > 0 && !is_white(s[0]) && !is_white(s.last()) ==> trim(s) == s,
        (forall|i: int| 0 <= i < s.len() ==> is_white(#[trigger] s[i])) ==> trim(s).len() == 0,
{
    let t = trim_start(s);
    lemma_trim_start_parts(s);
    lemma_trim_end_parts(t);
    let a = s.take(s.len() - t.len());
    let b = t.skip(trim(s).len() as int);
    assert(s =~= a + trim(s) + b);
    assert(forall|i: int| 0 <= i < a.len() ==> is_white(#[trigger] a[i]));
    assert(forall|i: int| 0 <= i < b.len() ==> is_white(#[trigger] b[i]));
    if trim(s).len() > 0 {
        assert(trim(s)[0] == t[0]);
        assert(s[a.len() as int] == t[0]);
    }
}

proof fn lemma_trim_start_parts(s: Seq<char>)
    ensures
        trim_start(s).len() <= s.len(),
        s.skip(s.len() - trim_start(s).len()) == trim_start(s),
        forall|i: int| 0 <= i < s.len() - trim_start(s).len() ==> is_white(#[trigger] s[i]),
        trim_start(s).len() > 0 ==> !is_white(trim_start(s)[0]),
    decreases s.len(),
{
    if s.len() > 0 && is_white(s[0]) {
        let r = s.subrange(1, s.len() as int);
        lemma_trim_start_parts(r);
        assert(s.skip(s.len() - trim_start(s).len()) =~= r.skip(r.len() - trim_start(r).len()));
        assert forall|i: int| 0 <= i < s.len() - trim_start(s).len() implies is_white(
            #[trigger] s[i],
        ) by {
            if i > 0 {
                assert(s[i] == r[i - 1]);
            }
        }
    } else {
        assert(s.skip(0) =~= s);
    }
}

proof fn lemma_trim_end_parts(s: Seq<char>)
    ensures
        trim_end(s).len() <= s.len(),
        s.take(trim_end(s).len() as int) == trim_end(s),
        forall|i: int| trim_end(s).len() <= i < s.len() ==> is_white(#[trigger] s[i]),
        trim_end(s).len() > 0 ==> !is_white(trim_end(s).last()),
    decreases s.len(),
{
    if s.len() > 0 && is_white(s[s.len() - 1]) {
        let r = s.subrange(0, s.len() - 1);
        lemma_trim_end_parts(r);
        assert(s.take(trim_end(s).len() as int) =~= r.take(trim_end(r).len() as int));
        assert forall|i: int| trim_end(s).len() <= i < s.len() implies is_white(
            #[trigger] s[i],
        ) by {
            if i < s.len() - 1 {
                assert(s[i] == r[i]);
            }
        }
    } else {
        assert(s.take(s.len() as int) =~= s);
    }
}

/// Blanks, tabs and line ends are white space; letters, digits and the usual signs
/// are not.
pub proof fn law_what_is_white()
    ensures
        is_white(' ') && is_white('\t') && is_white('\n') && is_white('\r'),
        forall|c: char| 0x21 <= c as int <= 0x7e ==> !#[trigger] is_white(c),
{
}

/// Lower case keeps the length and every character that is no capital letter; a
/// capital letter becomes its small one, and nothing is left to change.
pub proof fn law_lower_case(s: Seq<char>)
    ensures
        lower(s).len() == s.len(),
        forall|i: int|
            0 <= i < s.len() ==> if 'A' <= s[i] <= 'Z' {
                (#[trigger] lower(s)[i]) as int - 'a' as int == s[i] as int - 'A' as int
            } else {
                lower(s)[i] == s[i]
            },
        lower(lower(s)) == lower(s),
        lower(upper(s)) == lower(s),
        upper(lower(s)) == upper(s),
{
    assert(lower(lower(s)) =~= lower(s));
    assert(lower(upper(s)) =~= lower(s));
    assert(upper(lower(s)) =~= upper(s));
}

/// The parts of a text between separators, joined with the separator, are the text;
/// and no part holds the separator.
pub proof fn law_parts_make_the_text(s: Seq<char>, c: char)
    ensures
        join(split(s, c), seq![c]) == s,
        split(s, c).len() > 0,
        forall|i: int, j: int|
            0 <= i < split(s, c).len() && 0 <= j < split(s, c)[i].len() ==> #[trigger] split(
                s,
                c,
            )[i][j] != c,
    decreases s.len(),
{
    let i = index_of(s, c, 0);
    lemma_index_of(s, c, 0);
    let parts = split(s, c);
    if 0 <= i < s.len() {
        let head = s.subrange(0, i);
        let rest = s.subrange(i + 1, s.len() as int);
        law_parts_make_the_text(rest, c);
        let tail = split(rest, c);
        assert(parts == seq![head] + tail);
        lemma_join_front(head, tail, seq![c]);
        assert(head + seq![c] + rest =~= s);
        assert forall|k: int, j: int| 0 <= k < parts.len() && 0 <= j < parts[k].len() implies
            #[trigger] parts[k][j] != c by {
            if k == 0 {
                assert(parts[0] == head);
            } else {
                assert(parts[k] == tail[k - 1]);
                assert(tail[k - 1][j] != c);
            }
        }
    } else {
        assert(parts == seq![s]);
        assert forall|k: int, j: int| 0 <= k < parts.len() && 0 <= j < parts[k].len() implies
            #[trigger] parts[k][j] != c by {
            assert(parts[k] == s);
        }
    }
}

/// A part in front of others is followed by the separator.
pub proof fn lemma_join_front(head: Seq<char>, tail: Seq<Seq<char>>, sep: Seq<char>)
    requires
        tail.len() > 0,
    ensures
        join(seq![head] + tail, sep) == head + sep + join(tail, sep),
    decreases tail.len(),
{
    let all = seq![head] + tail;
    assert(all.last() == tail.last());
    assert(all.drop_last() =~= seq![head] + tail.drop_last());
    if tail.len() == 1 {
        assert(all.drop_last() =~= seq![head]);
        assert(join(seq![head], sep) == head);
        assert(join(tail, sep) == tail[0]);
        assert(join(all, sep) == join(all.drop_last(), sep) + sep + all.last());
    } else {
        lemma_join_front(head, tail.drop_last(), sep);
        assert(join(all, sep) =~= head + sep + join(tail, sep));
    }
}

/// A text that is cut to a number of bytes is a beginning of it that fits, and the
/// longest that does.
pub proof fn law_cut_is_the_longest_that_fits(s: Seq<char>, max: nat)
    ensures
        0 <= fit(s, max as int) <= s.len(),
        fit(s, max as int) < s.len() ==> bytes_upto(s, fit(s, max as int) + 1) > max,
        bytes_upto(s, fit(s, max as int)) <= max,
    decreases s.len(),
{
    if s.len() > 0 && width(s[0]) <= max {
        let r = s.subrange(1, s.len() as int);
        let left = (max - width(s[0])) as nat;
        law_cut_is_the_longest_that_fits(r, left);
        let n = fit(r, left as int);
        lemma_bytes_front(s, n + 1);
        if n < r.len() {
            lemma_bytes_front(s, n + 2);
        }
    } else if s.len() > 0 {
        reveal_with_fuel(bytes_upto, 2);
    }
}

/// How many bytes the first characters of a text take.
pub open spec fn bytes_upto(s: Seq<char>, n: int) -> int
    decreases n,
{
    if n <= 0 {
        0
    } else {
        bytes_upto(s, n - 1) + width(s[n - 1])
    }
}

proof fn lemma_bytes_front(s: Seq<char>, n: int)
    requires
        1 <= n <= s.len(),
    ensures
        bytes_upto(s, n) == width(s[0]) + bytes_upto(s.subrange(1, s.len() as int), n - 1),
    decreases n,
{
    if n > 1 {
        lemma_bytes_front(s, n - 1);
        assert(s.subrange(1, s.len() as int)[n - 2] == s[n - 1]);
    } else {
        reveal_with_fuel(bytes_upto, 2);
    }
}

/// The lines of a text: what stands before a line end is a line of its own, without the
/// carriage return before it; the rest gives the other lines.
pub proof fn law_lines_end_at_line_ends(a: Seq<char>, b: Seq<char>)
    requires
        forall|i: int| 0 <= i < a.len() ==> #[trigger] a[i] != '\n',
    ensures
        lines(Seq::empty()).len() == 0,
        a.len() > 0 ==> lines(a) == seq![a],
        a.len() == 0 || a.last() != '\r' ==> lines(a + seq!['\n'] + b) == seq![a] + lines(b),
        lines(a + seq!['\r', '\n'] + b) == seq![a] + lines(b),
{
    lemma_index_of(a, '\n', 0);
    assert(index_of(a, '\n', 0) == a.len());
    let s = a + seq!['\n'] + b;
    lemma_first_at(s, '\n', a.len() as int);
    assert(s.subrange(0, a.len() as int) =~= a);
    assert(s.subrange(a.len() as int + 1, s.len() as int) =~= b);
    let t = a + seq!['\r', '\n'] + b;
    let r = a.push('\r');
    lemma_first_at(t, '\n', r.len() as int);
    assert(t.subrange(0, r.len() as int) =~= r);
    assert(t.subrange(r.len() as int + 1, t.len() as int) =~= b);
    assert(strip_cr(r) =~= a);
}

proof fn lemma_first_at(s: Seq<char>, c: char, k: int)
    requires
        0 <= k < s.len(),
        s[k] == c,
        forall|i: int| 0 <= i < k ==> #[trigger] s[i] != c,
    ensures
        index_of(s, c, 0) == k,
{
    lemma_index_of(s, c, 0);
    let i = index_of(s, c, 0);
    if i < k {
        assert(s[i] == c);
    }
    if i > k {
        assert(s[k] != c);
    }
}

/// The words of a text: white space parts them and is no part of them.
pub proof fn law_words_are_parted_by_white(w: Seq<char>, c: char, s: Seq<char>)
    requires
        w.len() > 0,
        forall|i: int| 0 <= i < w.len() ==> !is_white(#[trigger] w[i]),
        is_white(c),
    ensures
        words(Seq::empty()).len() == 0,
        words(w) == seq![w],
        words(w.push(c) + s) == seq![w] + words(s),
        words(seq![c] + s) == words(s),
{
    let e = Seq::<char>::empty();
    assert(trim_start(e) == e);
    assert(words(e).len() == 0);
    lemma_word_len_of(w, e);
    assert(w + e =~= w);
    assert(trim_start(w) == w);
    assert(w.subrange(0, w.len() as int) =~= w);
    assert(w.subrange(w.len() as int, w.len() as int) =~= e);
    assert(words(w) =~= seq![w]);
    let d = seq![c] + s;
    assert(d.subrange(1, d.len() as int) =~= s);
    assert(trim_start(d) == trim_start(s));
    lemma_words_after_white(d, s);
    let t = w.push(c) + s;
    assert(t =~= w + d);
    lemma_word_len_of(w, d);
    assert(trim_start(t) == t);
    assert(t.subrange(0, w.len() as int) =~= w);
    assert(t.subrange(w.len() as int, t.len() as int) =~= d);
    assert(words(t) == seq![w] + words(d));
}

proof fn lemma_words_after_white(a: Seq<char>, b: Seq<char>)
    requires
        trim_start(a) == trim_start(b),
    ensures
        words(a) == words(b),
{
}

proof fn lemma_word_len_of(w: Seq<char>, rest: Seq<char>)
    requires
        forall|i: int| 0 <= i < w.len() ==> !is_white(#[trigger] w[i]),
        rest.len() == 0 || is_white(rest[0]),
    ensures
        word_len(w + rest) == w.len(),
    decreases w.len(),
{
    let s = w + rest;
    if w.len() > 0 {
        assert(s[0] == w[0]);
        let v = w.subrange(1, w.len() as int);
        assert(s.subrange(1, s.len() as int) =~= v + rest);
        assert forall|i: int| 0 <= i < v.len() implies !is_white(#[trigger] v[i]) by {
            assert(v[i] == w[i + 1]);
        }
        lemma_word_len_of(v, rest);
    } else {
        assert(s =~= rest);
    }
}

/// What is said of a text that is no number, and when: nothing, no digit, too large.
pub proof fn law_why_a_text_is_no_number(s: Seq<char>, max: nat, n: nat)
    ensures
        parse_nat(Seq::empty(), max as int) == Err::<int, _>(NumberError::Empty),
        s.len() > 0 && !('0' <= s[0] <= '9') && s[0] != '+' ==> parse_nat(s, max as int) == Err::<
            int,
            _,
        >(NumberError::InvalidDigit),
        parse_nat(seq!['+'] + digits(n), max as int) == parse_nat(digits(n), max as int),
        NumberError::Empty.text() == "cannot parse integer from empty string"@,
        NumberError::InvalidDigit.text() == "invalid digit found in string"@,
        NumberError::PosOverflow.text() == "number too large to fit in target type"@,
        NumberError::NegOverflow.text() == "number too small to fit in target type"@,
{
    law_numbers_are_digits(n);
    let t = seq!['+'] + digits(n);
    assert(t.len() > 1 && t[0] == '+');
    assert('0' <= digits(n)[0] <= '9');
    lemma_read_after_sign(digits(n), 0, 0, max as int);
}

proof fn lemma_read_after_sign(s: Seq<char>, i: int, acc: int, max: int)
    requires
        0 <= i <= s.len(),
    ensures
        read_digits(seq!['+'] + s, i + 1, acc, max) == read_digits(s, i, acc, max),
    decreases s.len() - i,
{
    let t = seq!['+'] + s;
    if i < s.len() {
        assert(t[i + 1] == s[i]);
        lemma_read_after_sign(s, i + 1, acc * 10 + digit_value(s[i]), max);
    }
}

/// A digit more than the limit allows makes a number too large.
pub proof fn law_large_numbers_are_refused(n: nat, max: nat)
    requires
        max < n,
    ensures
        parse_nat(digits(n), max as int) == Err::<int, _>(NumberError::PosOverflow),
{
    law_numbers_are_digits(n);
    assert('0' <= digits(n)[0] <= '9');
    lemma_read_large(n, max);
}

proof fn lemma_read_large(n: nat, max: nat)
    requires
        max < n,
    ensures
        read_digits(digits(n), 0, 0, max as int) == Err::<int, _>(NumberError::PosOverflow),
    decreases n,
{
    if n < 10 {
        reveal_with_fuel(read_digits, 2);
        assert(digits(n) == seq![digit(n as int)]);
    } else {
        let c = digit((n % 10) as int);
        if n / 10 <= max {
            lemma_read_digits_of(n / 10, max);
            lemma_read_push_over(digits(n / 10), c, 0, 0, max as int);
        } else {
            lemma_read_large(n / 10, max);
            lemma_read_push_err(digits(n / 10), c, 0, 0, max as int);
        }
    }
}

proof fn lemma_read_push_over(s: Seq<char>, c: char, i: int, acc: int, max: int)
    requires
        0 <= i <= s.len(),
        read_digits(s, i, acc, max) is Ok,
        is_digit(c),
        read_digits(s, i, acc, max)->Ok_0 * 10 + digit_value(c) > max,
    ensures
        read_digits(s.push(c), i, acc, max) == Err::<int, _>(NumberError::PosOverflow),
    decreases s.len() - i,
{
    let t = s.push(c);
    if i < s.len() {
        assert(t[i] == s[i]);
        lemma_read_push_over(s, c, i + 1, acc * 10 + digit_value(s[i]), max);
    } else {
        assert(t[i] == c);
    }
}

proof fn lemma_read_push_err(s: Seq<char>, c: char, i: int, acc: int, max: int)
    requires
        0 <= i <= s.len(),
        read_digits(s, i, acc, max) is Err,
    ensures
        read_digits(s.push(c), i, acc, max) == read_digits(s, i, acc, max),
    decreases s.len() - i,
{
    let t = s.push(c);
    if i < s.len() {
        assert(t[i] == s[i]);
        if is_digit(s[i]) && acc * 10 + digit_value(s[i]) <= max {
            lemma_read_push_err(s, c, i + 1, acc * 10 + digit_value(s[i]), max);
        }
    }
}

/// How many bytes a character takes.
pub proof fn law_width_of_characters(c: char)
    ensures
        width(c) == 1 <==> (c as int) < 0x80,
        width(c) == 2 <==> 0x80 <= (c as int) < 0x800,
        width(c) == 3 <==> 0x800 <= (c as int) < 0x10000,
        width(c) == 4 <==> 0x10000 <= (c as int),
{
}

/// Parts are joined with the separator between them, and nowhere else.
pub proof fn law_parts_are_joined(a: Seq<char>, v: Seq<Seq<char>>, sep: Seq<char>)
    ensures
        join(Seq::empty(), sep).len() == 0,
        join(seq![a], sep) == a,
        v.len() > 0 ==> join(v.push(a), sep) == join(v, sep) + sep + a,
        v.len() > 0 ==> join(seq![a] + v, sep) == a + sep + join(v, sep),
{
    assert(v.push(a).drop_last() =~= v);
    if v.len() > 0 {
        lemma_join_front(a, v, sep);
    }
}

} // verus!
