//! The fingerprint of the browser's files.
//!
//! A page compares the fingerprint it was loaded with, the file `version.txt`,
//! with the one that the server reports, and knows by it that the files have
//! changed. The fingerprint is made of the paths and the bytes of all files but
//! `version.txt` itself, in the order of their paths, and is the beginning of
//! their SHA-256.

use sha2::Digest;
use vstd::prelude::*;
use vstd::relations;
use vstd::seq_lib;

use crate::static_assets;
use crate::static_assets::{FileView, StaticAssets};
use crate::text;

verus! {

/// How many bytes of the hash are shown.
pub const SHOWN_BYTES: usize = 8;

// ---- Order --------------------------------------------------------------

/// The place of a character in paths: what ends a directory's name comes before
/// whatever may continue it.
pub open spec fn char_rank(c: char) -> int {
    if c == '/' {
        0
    } else {
        c as int + 1
    }
}

/// The places of the characters of a path.
pub open spec fn path_ranks(p: Seq<char>) -> Seq<int> {
    p.map_values(|c: char| char_rank(c))
}

/// The values of bytes.
pub open spec fn byte_ranks(b: Seq<u8>) -> Seq<int> {
    b.map_values(|x: u8| x as int)
}

/// Whether, from `i` on, one list comes no later than another in the order of a
/// dictionary.
pub open spec fn not_after(a: Seq<int>, b: Seq<int>, i: int) -> bool
    decreases a.len() - i,
{
    if i >= a.len() {
        true
    } else if i >= b.len() {
        false
    } else if a[i] != b[i] {
        a[i] < b[i]
    } else {
        not_after(a, b, i + 1)
    }
}

/// Whether a file comes no later than another: by the names on its path, then by
/// its bytes.
pub open spec fn file_not_after(f: FileView, g: FileView) -> bool {
    if f.path == g.path {
        not_after(byte_ranks(f.bytes), byte_ranks(g.bytes), 0)
    } else {
        not_after(path_ranks(f.path), path_ranks(g.path), 0)
    }
}

/// The order of files.
pub open spec fn file_order() -> spec_fn(FileView, FileView) -> bool {
    |f: FileView, g: FileView| file_not_after(f, g)
}

/// Of two lists one comes no later than the other.
proof fn lemma_some_order(a: Seq<int>, b: Seq<int>, i: int)
    ensures
        not_after(a, b, i) || not_after(b, a, i),
    decreases a.len() - i,
{
    if i < a.len() && i < b.len() && a[i] == b[i] {
        lemma_some_order(a, b, i + 1);
    }
}

/// Lists of which neither comes later are the same.
proof fn lemma_both_orders(a: Seq<int>, b: Seq<int>, i: int)
    requires
        0 <= i <= a.len(),
        i <= b.len(),
        not_after(a, b, i),
        not_after(b, a, i),
    ensures
        a.len() == b.len(),
        forall|k: int| i <= k < a.len() ==> a[k] == b[k],
    decreases a.len() - i,
{
    if i < a.len() && i < b.len() {
        lemma_both_orders(a, b, i + 1);
    }
}

/// What comes no later than something comes no later than what follows it.
proof fn lemma_orders_chain(a: Seq<int>, b: Seq<int>, c: Seq<int>, i: int)
    requires
        not_after(a, b, i),
        not_after(b, c, i),
    ensures
        not_after(a, c, i),
    decreases a.len() - i,
{
    if i < a.len() && i < b.len() && i < c.len() && a[i] == b[i] && b[i] == c[i] {
        lemma_orders_chain(a, b, c, i + 1);
    }
}

/// Characters are told apart by their places.
proof fn lemma_char_rank(c: char, d: char)
    requires
        char_rank(c) == char_rank(d),
    ensures
        c == d,
{
}

/// Paths are told apart by the places of their characters.
proof fn lemma_path_ranks(p: Seq<char>, q: Seq<char>)
    requires
        path_ranks(p) == path_ranks(q),
    ensures
        p == q,
{
    assert(p.len() == path_ranks(p).len() == path_ranks(q).len() == q.len());
    assert forall|i: int| 0 <= i < p.len() implies p[i] == q[i] by {
        assert(path_ranks(p)[i] == char_rank(p[i]));
        assert(path_ranks(q)[i] == char_rank(q[i]));
        lemma_char_rank(p[i], q[i]);
    }
    assert(p =~= q);
}

/// Contents are told apart by the values of their bytes.
proof fn lemma_byte_ranks(p: Seq<u8>, q: Seq<u8>)
    requires
        byte_ranks(p) == byte_ranks(q),
    ensures
        p == q,
{
    assert(p.len() == byte_ranks(p).len() == byte_ranks(q).len() == q.len());
    assert forall|i: int| 0 <= i < p.len() implies p[i] == q[i] by {
        assert(byte_ranks(p)[i] == p[i] as int);
        assert(byte_ranks(q)[i] == q[i] as int);
    }
    assert(p =~= q);
}

/// Files of which neither comes later are the same.
proof fn lemma_same_file(f: FileView, g: FileView)
    requires
        file_not_after(f, g),
        file_not_after(g, f),
    ensures
        f == g,
{
    if f.path == g.path {
        let a = byte_ranks(f.bytes);
        let b = byte_ranks(g.bytes);
        lemma_both_orders(a, b, 0);
        assert(a =~= b);
        lemma_byte_ranks(f.bytes, g.bytes);
    } else {
        let a = path_ranks(f.path);
        let b = path_ranks(g.path);
        lemma_both_orders(a, b, 0);
        assert(a =~= b);
        lemma_path_ranks(f.path, g.path);
    }
}

/// The order of files goes on from one to the next.
proof fn lemma_files_chain(f: FileView, g: FileView, h: FileView)
    requires
        file_not_after(f, g),
        file_not_after(g, h),
    ensures
        file_not_after(f, h),
{
    if f.path == g.path && g.path == h.path {
        lemma_orders_chain(byte_ranks(f.bytes), byte_ranks(g.bytes), byte_ranks(h.bytes), 0);
    } else if f.path != g.path && g.path != h.path {
        let a = path_ranks(f.path);
        let b = path_ranks(g.path);
        let c = path_ranks(h.path);
        lemma_orders_chain(a, b, c, 0);
        if f.path == h.path {
            lemma_both_orders(a, b, 0);
            assert(a =~= b);
            lemma_path_ranks(f.path, g.path);
        }
    }
}

/// Files are in a total order.
pub proof fn law_files_have_one_order()
    ensures
        relations::total_ordering(file_order()),
{
    let r = file_order();
    assert forall|f: FileView| #[trigger] r(f, f) by {
        lemma_some_order(byte_ranks(f.bytes), byte_ranks(f.bytes), 0);
    }
    assert forall|f: FileView, g: FileView| #[trigger] r(f, g) && #[trigger] r(g, f) implies f
        == g by {
        lemma_same_file(f, g);
    }
    assert forall|f: FileView, g: FileView, h: FileView| #[trigger]
        r(f, g) && #[trigger] r(g, h) implies r(f, h) by {
        lemma_files_chain(f, g, h);
    }
    assert forall|f: FileView, g: FileView| #[trigger] r(f, g) || #[trigger] r(g, f) by {
        lemma_some_order(byte_ranks(f.bytes), byte_ranks(g.bytes), 0);
        lemma_some_order(path_ranks(f.path), path_ranks(g.path), 0);
    }
}

/// The place of a character in paths.
fn rank_of(c: char) -> (r: u32)
    ensures
        r == char_rank(c),
{
    if c == '/' {
        0
    } else {
        c as u32 + 1
    }
}

/// Whether a path comes no later than another.
fn path_not_after(a: &[char], b: &[char]) -> (r: bool)
    ensures
        r == not_after(path_ranks(a@), path_ranks(b@), 0),
{
    let mut i: usize = 0;
    while i < a.len()
        invariant
            i <= a.len(),
            not_after(path_ranks(a@), path_ranks(b@), 0) == not_after(
                path_ranks(a@),
                path_ranks(b@),
                i as int,
            ),
        decreases a.len() - i,
    {
        if i >= b.len() {
            return false;
        }
        let x: u32 = rank_of(a[i]);
        let y: u32 = rank_of(b[i]);
        if x != y {
            return x < y;
        }
        i += 1;
    }
    true
}

/// Whether contents come no later than others.
fn bytes_not_after(a: &Vec<u8>, b: &Vec<u8>) -> (r: bool)
    ensures
        r == not_after(byte_ranks(a@), byte_ranks(b@), 0),
{
    let mut i: usize = 0;
    while i < a.len()
        invariant
            i <= a.len(),
            not_after(byte_ranks(a@), byte_ranks(b@), 0) == not_after(
                byte_ranks(a@),
                byte_ranks(b@),
                i as int,
            ),
        decreases a.len() - i,
    {
        if i >= b.len() {
            return false;
        }
        if a[i] != b[i] {
            return a[i] < b[i];
        }
        i += 1;
    }
    true
}

/// Whether a file comes no later than another.
fn comes_no_later(f: &(String, Vec<u8>), g: &(String, Vec<u8>)) -> (r: bool)
    ensures
        r == file_not_after(static_assets::file_view(*f), static_assets::file_view(*g)),
{
    if text::same(f.0.as_str(), g.0.as_str()) {
        bytes_not_after(&f.1, &g.1)
    } else {
        let a = text::chars_of(f.0.as_str());
        let b = text::chars_of(g.0.as_str());
        path_not_after(a.as_slice(), b.as_slice())
    }
}

// ---- The files that count ------------------------------------------------

/// Whether a file counts: all do but the one that holds the fingerprint.
pub open spec fn counts(f: FileView) -> bool {
    f.path != "version.txt"@
}

/// The files that count.
pub open spec fn counted(v: Seq<FileView>) -> Seq<FileView>
    decreases v.len(),
{
    if v.len() == 0 {
        Seq::empty()
    } else if counts(v.last()) {
        counted(v.drop_last()).push(v.last())
    } else {
        counted(v.drop_last())
    }
}

/// The files that count, in order.
pub open spec fn ordered(v: Seq<FileView>) -> Seq<FileView> {
    counted(v).sort_by(file_order())
}

/// A file is among those that count as often as it is among all.
proof fn lemma_counted(v: Seq<FileView>, f: FileView)
    ensures
        counted(v).to_multiset().count(f) == if counts(f) {
            v.to_multiset().count(f)
        } else {
            0
        },
    decreases v.len(),
{
    broadcast use {vstd::multiset::group_multiset_axioms, seq_lib::group_to_multiset_ensures};

    if v.len() > 0 {
        lemma_counted(v.drop_last(), f);
        assert(v.drop_last().push(v.last()) =~= v);
        assert(v.to_multiset() == v.drop_last().to_multiset().insert(v.last()));
        if counts(v.last()) {
            assert(counted(v).to_multiset() == counted(v.drop_last()).to_multiset().insert(
                v.last(),
            ));
        }
    }
}

/// References to files, as values.
spec fn ref_views(v: Seq<&(String, Vec<u8>)>) -> Seq<FileView> {
    v.map_values(|f: &(String, Vec<u8>)| static_assets::file_view(*f))
}

/// A file put where it belongs leaves a list in order.
proof fn lemma_put(v: Seq<FileView>, f: FileView, at: int)
    requires
        0 <= at <= v.len(),
        relations::sorted_by(v, file_order()),
        forall|k: int| 0 <= k < at ==> file_not_after(#[trigger] v[k], f),
        at < v.len() ==> !file_not_after(v[at], f),
    ensures
        relations::sorted_by(v.insert(at, f), file_order()),
        v.insert(at, f).to_multiset() == v.to_multiset().insert(f),
{
    let r = file_order();
    law_files_have_one_order();
    let w = v.insert(at, f);
    assert forall|i: int, j: int| 0 <= i < j < w.len() implies #[trigger] r(w[i], w[j]) by {
        if i == at {
            assert(r(v[at], f) || r(f, v[at]));
            assert(w[j] == v[j - 1]);
            if j - 1 > at {
                assert(r(v[at], v[j - 1]));
            }
        } else if j == at {
            assert(w[i] == v[i]);
        } else {
            let a = if i < at {
                i
            } else {
                i - 1
            };
            let b = if j < at {
                j
            } else {
                j - 1
            };
            assert(w[i] == v[a] && w[j] == v[b]);
            assert(r(v[a], v[b]));
        }
    }
    seq_lib::to_multiset_insert(v, at, f);
}

/// The files that count, in order.
fn in_order(files: &Vec<(String, Vec<u8>)>) -> (r: Vec<&(String, Vec<u8>)>)
    ensures
        ref_views(r@) == ordered(
            files@.map_values(|f: (String, Vec<u8>)| static_assets::file_view(f)),
        ),
{
    let ghost all = files@.map_values(|f: (String, Vec<u8>)| static_assets::file_view(f));
    let mut out: Vec<&(String, Vec<u8>)> = Vec::new();
    let mut i: usize = 0;
    assert(all.take(0) =~= Seq::empty());
    assert(ref_views(out@) =~= Seq::empty());
    while i < files.len()
        invariant
            i <= files.len(),
            all == files@.map_values(|f: (String, Vec<u8>)| static_assets::file_view(f)),
            relations::sorted_by(ref_views(out@), file_order()),
            ref_views(out@).to_multiset() == counted(all.take(i as int)).to_multiset(),
        decreases files.len() - i,
    {
        proof {
            assert(all.take(i + 1).drop_last() =~= all.take(i as int));
            assert(all.take(i + 1).last() == static_assets::file_view(files@[i as int]));
        }
        if !text::same(files[i].0.as_str(), "version.txt") {
            let file = &files[i];
            let mut at: usize = 0;
            while at < out.len() && comes_no_later(out[at], file)
                invariant
                    at <= out.len(),
                    forall|k: int|
                        0 <= k < at ==> file_not_after(
                            #[trigger] ref_views(out@)[k],
                            static_assets::file_view(*file),
                        ),
                decreases out.len() - at,
            {
                at += 1;
            }
            let ghost before = ref_views(out@);
            proof {
                lemma_put(before, static_assets::file_view(*file), at as int);
                seq_lib::to_multiset_build(
                    counted(all.take(i as int)),
                    static_assets::file_view(*file),
                );
            }
            out.insert(at, file);
            assert(ref_views(out@) =~= before.insert(at as int, static_assets::file_view(*file)));
        }
        i += 1;
    }
    proof {
        assert(all.take(i as int) =~= all);
        law_files_have_one_order();
        counted(all).lemma_sort_by_ensures(file_order());
        seq_lib::lemma_sorted_unique(ref_views(out@), ordered(all), file_order());
    }
    out
}

// ---- The fingerprint -----------------------------------------------------

/// What is hashed of files: of each its path, a zero byte and its bytes.
pub open spec fn hashed(v: Seq<FileView>) -> Seq<u8>
    decreases v.len(),
{
    if v.len() == 0 {
        Seq::empty()
    } else {
        hashed(v.drop_last()) + text::utf8(v.last().path) + seq![0u8] + v.last().bytes
    }
}

/// The SHA-256 of bytes.
pub uninterp spec fn sha256(b: Seq<u8>) -> Seq<u8>;

/// `sha2::Sha256::digest`: the SHA-256 of the bytes, which has 32 bytes.
#[verifier::external_body]
fn digest(b: &Vec<u8>) -> (r: Vec<u8>)
    ensures
        r@ == sha256(b@),
        r@.len() == 32,
{
    sha2::Sha256::digest(b.as_slice()).to_vec()
}

/// The hexadecimal digit, in lower case, of a value below sixteen.
pub open spec fn hex(d: int) -> char {
    if d < 10 {
        (0x30 + d) as char
    } else {
        (0x57 + d) as char
    }
}

/// Bytes as hexadecimal digits, two for each.
pub open spec fn hex_text(b: Seq<u8>) -> Seq<char>
    decreases b.len(),
{
    if b.len() == 0 {
        Seq::empty()
    } else {
        hex_text(b.drop_last()) + seq![hex(b.last() as int / 16), hex(b.last() as int % 16)]
    }
}

/// The fingerprint of files.
pub open spec fn fingerprint(v: Seq<FileView>) -> Seq<char> {
    hex_text(sha256(hashed(ordered(v))).take(SHOWN_BYTES as int))
}

/// Whether a character is a hexadecimal digit in lower case.
pub open spec fn is_hex(c: char) -> bool {
    ('0' <= c <= '9') || ('a' <= c <= 'f')
}

/// The digits of bytes are twice as many as the bytes, and are digits.
proof fn lemma_hex_text(b: Seq<u8>)
    ensures
        hex_text(b).len() == 2 * b.len(),
        forall|i: int| 0 <= i < hex_text(b).len() ==> is_hex(#[trigger] hex_text(b)[i]),
    decreases b.len(),
{
    if b.len() > 0 {
        lemma_hex_text(b.drop_last());
        let x = b.last();
        let front = hex_text(b.drop_last());
        assert forall|i: int| 0 <= i < hex_text(b).len() implies is_hex(
            #[trigger] hex_text(b)[i],
        ) by {
            if i < front.len() {
                assert(hex_text(b)[i] == front[i]);
            } else if i == front.len() {
                assert(hex_text(b)[i] == hex(x as int / 16));
            } else {
                assert(hex_text(b)[i] == hex(x as int % 16));
            }
        }
    }
}

/// The hexadecimal digit of a value below sixteen.
fn hex_char(d: u8) -> (r: char)
    requires
        d < 16,
    ensures
        r == hex(d as int),
{
    if d < 10 {
        (0x30 + d) as char
    } else {
        (0x57 + d) as char
    }
}

/// The first bytes as hexadecimal digits.
fn first_digits(b: &Vec<u8>, n: usize) -> (r: String)
    requires
        n <= b.len(),
    ensures
        r@ == hex_text(b@.take(n as int)),
{
    let mut out = String::new();
    let mut i: usize = 0;
    while i < n
        invariant
            i <= n,
            n <= b.len(),
            out@ == hex_text(b@.take(i as int)),
        decreases n - i,
    {
        let x: u8 = b[i];
        proof {
            assert(b@.take(i + 1).drop_last() =~= b@.take(i as int));
        }
        let ghost before = out@;
        out.push(hex_char(x / 16));
        out.push(hex_char(x % 16));
        assert(out@ =~= before + seq![hex(x as int / 16), hex(x as int % 16)]);
        i += 1;
    }
    out
}

/// Add bytes to others.
fn add_bytes(out: &mut Vec<u8>, b: &Vec<u8>)
    ensures
        final(out)@ == old(out)@ + b@,
{
    let ghost before = out@;
    let mut i: usize = 0;
    assert(before + b@.take(0) =~= before);
    while i < b.len()
        invariant
            i <= b.len(),
            out@ == before + b@.take(i as int),
        decreases b.len() - i,
    {
        out.push(b[i]);
        i += 1;
        assert(out@ =~= before + b@.take(i as int));
    }
    assert(b@.take(i as int) =~= b@);
}

/// What is hashed of files.
fn bytes_of(files: &Vec<&(String, Vec<u8>)>) -> (r: Vec<u8>)
    ensures
        r@ == hashed(ref_views(files@)),
{
    let ghost all = ref_views(files@);
    let mut out: Vec<u8> = Vec::new();
    let mut i: usize = 0;
    assert(all.take(0) =~= Seq::empty());
    while i < files.len()
        invariant
            i <= files.len(),
            all == ref_views(files@),
            out@ == hashed(all.take(i as int)),
        decreases files.len() - i,
    {
        let path = text::utf8_bytes(files[i].0.as_str());
        add_bytes(&mut out, &path);
        out.push(0);
        add_bytes(&mut out, &files[i].1);
        proof {
            let next = all.take(i + 1);
            let front = all.take(i as int);
            assert(next.drop_last() =~= front);
            assert(next.last() == static_assets::file_view(*files@[i as int]));
            assert(out@ =~= hashed(front) + text::utf8(next.last().path) + seq![0u8]
                + next.last().bytes);
        }
        i += 1;
    }
    assert(all.take(i as int) =~= all);
    out
}

/// The files once the fingerprint has been put among them, in place of an older
/// one.
pub open spec fn stamped(v: Seq<FileView>) -> Seq<FileView> {
    counted(v).push(FileView { path: "version.txt"@, bytes: text::utf8(fingerprint(v)) })
}

/// Whether the fingerprint has been put among the files.
pub open spec fn is_stamped(v: Seq<FileView>) -> bool {
    exists|w: Seq<FileView>| v == #[trigger] stamped(w)
}

/// What counts of two lists is what counts of each.
proof fn lemma_counted_pieces(a: Seq<FileView>, b: Seq<FileView>)
    ensures
        counted(a + b) == counted(a) + counted(b),
    decreases b.len(),
{
    if b.len() == 0 {
        assert(a + b =~= a);
        assert(counted(a) + counted(b) =~= counted(a));
    } else {
        lemma_counted_pieces(a, b.drop_last());
        assert((a + b).drop_last() =~= a + b.drop_last());
        assert((a + b).last() == b.last());
        assert(counted(a + b) =~= counted(a) + counted(b));
    }
}

/// Where all files count, what counts is all of them.
proof fn lemma_all_count(v: Seq<FileView>)
    requires
        forall|k: int| 0 <= k < v.len() ==> counts(#[trigger] v[k]),
    ensures
        counted(v) == v,
    decreases v.len(),
{
    if v.len() > 0 {
        assert forall|k: int| 0 <= k < v.drop_last().len() implies counts(
            #[trigger] v.drop_last()[k],
        ) by {
            assert(counts(v[k]));
        }
        lemma_all_count(v.drop_last());
        assert(counts(v[v.len() - 1]));
        assert(v.drop_last().push(v.last()) =~= v);
    } else {
        assert(v =~= Seq::empty());
    }
}

/// Each file that counts is one of those that do.
proof fn lemma_counted_count(v: Seq<FileView>, k: int)
    requires
        0 <= k < counted(v).len(),
    ensures
        counts(counted(v)[k]),
    decreases v.len(),
{
    if v.len() > 0 {
        if k < counted(v.drop_last()).len() {
            lemma_counted_count(v.drop_last(), k);
        }
    }
}

impl StaticAssets {
    /// The fingerprint of the files: sixteen hexadecimal digits.
    pub fn fingerprint(&self) -> (r: String)
        ensures
            r@ == fingerprint(self@),
            r@.len() == 16,
            forall|i: int| 0 <= i < r@.len() ==> is_hex(#[trigger] r@[i]),
    {
        let files = in_order(&self.files);
        let bytes = bytes_of(&files);
        let hash = digest(&bytes);
        proof {
            lemma_hex_text(hash@.take(SHOWN_BYTES as int));
        }
        first_digits(&hash, SHOWN_BYTES)
    }

    /// Put the fingerprint among the files, in place of an older one.
    pub fn stamp(&mut self)
        ensures
            final(self)@ == stamped(old(self)@),
            is_stamped(final(self)@),
    {
        let mark = self.fingerprint();
        let ghost all = self@;
        let mut i: usize = 0;
        while i < self.files.len()
            invariant
                i <= self.files.len(),
                counted(self@) == counted(all),
                forall|k: int| 0 <= k < i ==> counts(#[trigger] self@[k]),
            decreases self.files.len() - i,
        {
            if text::same(self.files[i].0.as_str(), "version.txt") {
                let ghost before = self@;
                self.files.remove(i);
                proof {
                    let a = before.take(i as int);
                    let f = before.skip(i as int).take(1);
                    let b = before.skip(i + 1);
                    assert(self@ =~= a + b);
                    assert(before =~= a + f + b);
                    lemma_counted_pieces(a + f, b);
                    lemma_counted_pieces(a, f);
                    lemma_counted_pieces(a, b);
                    assert(counted(f.drop_last()) =~= Seq::empty());
                    assert(!counts(f.last()));
                    assert(counted(a) + counted(f) =~= counted(a));
                }
            } else {
                assert(counts(self@[i as int]));
                i += 1;
            }
        }
        proof {
            lemma_all_count(self@);
        }
        let ghost rest = self@;
        let bytes = text::utf8_bytes(mark.as_str());
        self.files.push((text::own("version.txt"), bytes));
        assert(self@ =~= rest.push(
            FileView { path: "version.txt"@, bytes: text::utf8(fingerprint(all)) },
        ));
        assert(self@ == stamped(all));
    }
}

/// The fingerprint among the files is theirs: putting it there does not change it.
pub proof fn law_stamp_is_the_fingerprint(v: Seq<FileView>)
    ensures
        fingerprint(stamped(v)) == fingerprint(v),
        static_assets::file_from(stamped(v), "version.txt"@, 0) == Some(
            text::utf8(fingerprint(stamped(v))),
        ),
{
    let front = counted(v);
    let s = stamped(v);
    assert forall|k: int| 0 <= k < front.len() implies counts(#[trigger] front[k]) by {
        lemma_counted_count(v, k);
    }
    lemma_all_count(front);
    assert(s.drop_last() =~= front);
    assert(counted(s) == front);
    lemma_last_found(s, "version.txt"@, 0);
}

/// A file that only the last of the files is called is found there.
proof fn lemma_last_found(v: Seq<FileView>, path: Seq<char>, from: int)
    requires
        0 <= from < v.len(),
        v.last().path == path,
        forall|k: int| 0 <= k < v.len() - 1 ==> (#[trigger] v[k]).path != path,
    ensures
        static_assets::file_from(v, path, from) == Some(v.last().bytes),
    decreases v.len() - from,
{
    if from < v.len() - 1 {
        assert(v[from].path != path);
        lemma_last_found(v, path, from + 1);
    }
}

/// In whatever order the files are found, their fingerprint is the same.
pub proof fn law_order_of_finding_does_not_matter(v: Seq<FileView>, w: Seq<FileView>)
    requires
        v.to_multiset() == w.to_multiset(),
    ensures
        fingerprint(v) == fingerprint(w),
{
    let a = counted(v);
    let b = counted(w);
    assert forall|f: FileView| #[trigger]
        a.to_multiset().count(f) == b.to_multiset().count(f) by {
        lemma_counted(v, f);
        lemma_counted(w, f);
    }
    assert(a.to_multiset() =~= b.to_multiset());
    law_files_have_one_order();
    a.lemma_sort_by_ensures(file_order());
    b.lemma_sort_by_ensures(file_order());
    seq_lib::lemma_sorted_unique(ordered(v), ordered(w), file_order());
}

/// What is hashed: of each file in order its path, a zero and its bytes; the version file
/// does not count.
pub proof fn law_every_file_is_hashed(a: Seq<FileView>, b: Seq<FileView>, f: FileView)
    ensures
        hashed(a + b) == hashed(a) + hashed(b),
        hashed(seq![f]) == text::utf8(f.path) + seq![0u8] + f.bytes,
        counted(a + b) == counted(a) + counted(b),
        f.path != "version.txt"@ ==> counted(seq![f]) == seq![f],
        f.path == "version.txt"@ ==> counted(seq![f]).len() == 0,
    decreases b.len(),
{
    reveal_with_fuel(hashed, 2);
    reveal_with_fuel(counted, 2);
    assert(seq![f].drop_last() =~= Seq::<FileView>::empty());
    assert(hashed(seq![f]) =~= text::utf8(f.path) + seq![0u8] + f.bytes);
    assert(counted(seq![f]) =~= if counts(f) {
        seq![f]
    } else {
        Seq::empty()
    });
    if b.len() == 0 {
        assert(a + b =~= a);
        assert(hashed(a) + hashed(b) =~= hashed(a));
        assert(counted(a) + counted(b) =~= counted(a));
    } else {
        law_every_file_is_hashed(a, b.drop_last(), f);
        assert((a + b).drop_last() =~= a + b.drop_last());
        assert((a + b).last() == b.last());
        assert(hashed(a + b) =~= hashed(a) + hashed(b));
        assert(counted(a + b) =~= counted(a) + counted(b));
    }
}

/// A fingerprint shows the first eight bytes of the hash of the files in order, each byte
/// in two digits to the base sixteen.
pub proof fn law_fingerprint_shows_the_hash(v: Seq<FileView>, a: Seq<u8>, b: Seq<u8>, x: u8)
    ensures
        fingerprint(v) == hex_text(sha256(hashed(counted(v).sort_by(file_order()))).take(8)),
        hex_text(a + b) == hex_text(a) + hex_text(b),
        hex_text(seq![x]).len() == 2,
        x < 16 ==> hex_text(seq![x])[0] == '0',
        x % 16 < 10 ==> hex_text(seq![x])[1] as int == 0x30 + x % 16,
        x % 16 >= 10 ==> hex_text(seq![x])[1] as int == 'a' as int + (x % 16 - 10),
        x / 16 < 10 ==> hex_text(seq![x])[0] as int == 0x30 + x / 16,
        x / 16 >= 10 ==> hex_text(seq![x])[0] as int == 'a' as int + (x / 16 - 10),
    decreases b.len(),
{
    reveal_with_fuel(hex_text, 2);
    assert(seq![x].drop_last() =~= Seq::<u8>::empty());
    assert(hex_text(seq![x]) =~= seq![hex(x as int / 16), hex(x as int % 16)]);
    if b.len() == 0 {
        assert(a + b =~= a);
        assert(hex_text(a) + hex_text(b) =~= hex_text(a));
    } else {
        law_fingerprint_shows_the_hash(v, a, b.drop_last(), x);
        assert((a + b).drop_last() =~= a + b.drop_last());
        assert((a + b).last() == b.last());
        assert(hex_text(a + b) =~= hex_text(a) + hex_text(b));
    }
}

/// The order of files is that of their paths, folder by folder: after a common beginning
/// a folder comes first, then the lesser character; a path comes before its
/// continuations.
pub proof fn law_files_are_ordered_by_path(
    p: Seq<char>,
    c: char,
    d: char,
    x: Seq<char>,
    y: Seq<char>,
    b: Seq<u8>,
    e: Seq<u8>,
)
    requires
        c != d,
        d != '/',
        c == '/' || (c as int) < (d as int),
    ensures
        file_not_after(
            FileView { path: p + seq![c] + x, bytes: b },
            FileView { path: p + seq![d] + y, bytes: e },
        ),
        !file_not_after(
            FileView { path: p + seq![d] + y, bytes: e },
            FileView { path: p + seq![c] + x, bytes: b },
        ),
        file_not_after(FileView { path: p, bytes: b }, FileView { path: p + seq![d] + y, bytes: e }),
{
    let l = path_ranks(p + seq![c] + x);
    let r = path_ranks(p + seq![d] + y);
    let s = path_ranks(p);
    let k = p.len() as int;
    assert(forall|i: int| 0 <= i < k ==> #[trigger] l[i] == s[i]);
    assert(forall|i: int| 0 <= i < k ==> #[trigger] r[i] == s[i]);
    assert(l[k] == char_rank(c) && r[k] == char_rank(d));
    assert((p + seq![c] + x)[k] == c && (p + seq![d] + y)[k] == d);
    assert(p.len() != (p + seq![d] + y).len());
    lemma_after_common(l, r, 0, k);
    lemma_after_common(r, l, 0, k);
    lemma_after_common_end(s, r, 0);
}

proof fn lemma_after_common(a: Seq<int>, b: Seq<int>, i: int, k: int)
    requires
        0 <= i <= k,
        k < a.len(),
        k < b.len(),
        forall|j: int| i <= j < k ==> #[trigger] a[j] == b[j],
        a[k] != b[k],
    ensures
        not_after(a, b, i) == (a[k] < b[k]),
    decreases k - i,
{
    if i < k {
        assert(a[i] == b[i]);
        lemma_after_common(a, b, i + 1, k);
    }
}

proof fn lemma_after_common_end(a: Seq<int>, b: Seq<int>, i: int)
    requires
        0 <= i <= a.len(),
        a.len() <= b.len(),
        forall|j: int| i <= j < a.len() ==> #[trigger] a[j] == b[j],
    ensures
        not_after(a, b, i),
    decreases a.len() - i,
{
    if i < a.len() {
        assert(a[i] == b[i]);
        lemma_after_common_end(a, b, i + 1);
    }
}

} // verus!
