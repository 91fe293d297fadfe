//! Byte-sequence utilities shared by the classifiers: ASCII trimming, line
//! splitting with the usual terminator rules, prefix and substring matching,
//! and packing of two 4-bit codes per byte.

use vstd::prelude::*;
use vstd::slice::slice_to_vec;

verus! {

/// ASCII whitespace in byte form, as trimmed from line ends.
pub open spec fn is_space_byte(b: u8) -> bool {
    b == 32 || b == 9 || b == 10 || b == 13 || b == 11 || b == 12
}

pub open spec fn spec_trim_start(s: Seq<u8>) -> Seq<u8>
    decreases s.len(),
{
    if s.len() > 0 && is_space_byte(s[0]) {
        spec_trim_start(s.drop_first())
    } else {
        s
    }
}

pub open spec fn spec_trim_end(s: Seq<u8>) -> Seq<u8>
    decreases s.len(),
{
    if s.len() > 0 && is_space_byte(s.last()) {
        spec_trim_end(s.drop_last())
    } else {
        s
    }
}

/// A line with ASCII whitespace removed from both ends.
pub open spec fn spec_trim(s: Seq<u8>) -> Seq<u8> {
    spec_trim_end(spec_trim_start(s))
}

proof fn lemma_trim_start_at(s: Seq<u8>, i: int)
    requires
        0 <= i <= s.len(),
        forall|k: int| 0 <= k < i ==> is_space_byte(s[k]),
        i == s.len() || !is_space_byte(s[i]),
    ensures
        spec_trim_start(s) == s.skip(i),
    decreases i,
{
    if i == 0 {
        assert(s.skip(0) =~= s);
    } else {
        assert(is_space_byte(s[0]));
        let t = s.drop_first();
        assert(forall|k: int| 0 <= k < i - 1 ==> t[k] == s[k + 1]);
        lemma_trim_start_at(t, i - 1);
        assert(t.skip(i - 1) =~= s.skip(i));
    }
}

proof fn lemma_trim_end_at(s: Seq<u8>, j: int)
    requires
        0 <= j <= s.len(),
        forall|k: int| j <= k < s.len() ==> is_space_byte(s[k]),
        j == 0 || !is_space_byte(s[j - 1]),
    ensures
        spec_trim_end(s) == s.take(j),
    decreases s.len(),
{
    if j == s.len() {
        assert(s.take(j) =~= s);
    } else {
        assert(is_space_byte(s.last()));
        let t = s.drop_last();
        lemma_trim_end_at(t, j);
        assert(t.take(j) =~= s.take(j));
    }
}

/// Copy out the ASCII-trimmed form of a byte slice.
pub fn trim_bytes(s: &[u8]) -> (t: Vec<u8>)
    ensures
        t@ == spec_trim(s@),
{
    let n = s.len();
    let mut lo: usize = 0;
    while lo < n && is_space_exec(s[lo])
        invariant
            lo <= n,
            n == s@.len(),
            forall|k: int| 0 <= k < lo ==> is_space_byte(s@[k]),
        decreases n - lo,
    {
        lo += 1;
    }
    proof {
        lemma_trim_start_at(s@, lo as int);
    }
    if lo == n {
        proof {
            assert(spec_trim_start(s@) =~= Seq::<u8>::empty());
        }
        return Vec::new();
    }
    let mut hi: usize = n;
    while hi > lo && is_space_exec(s[hi - 1])
        invariant
            lo <= hi <= n,
            n == s@.len(),
            forall|k: int| hi <= k < n ==> is_space_byte(s@[k]),
        decreases hi,
    {
        hi -= 1;
    }
    // the first non-space byte bounds the right scan
    proof {
        let st = s@.skip(lo as int);
        assert(forall|k: int| hi - lo <= k < st.len() ==> is_space_byte(st[k]));
        if hi > lo {
            assert(!is_space_byte(st[hi - lo - 1]));
        } else {
            assert(!is_space_byte(st[0]));
            assert(is_space_byte(st[hi - lo]));
            assert(false);
        }
        lemma_trim_end_at(st, hi - lo as int);
        assert(st.take(hi - lo as int) =~= s@.subrange(lo as int, hi as int));
    }
    slice_to_vec(&s[lo..hi])
}

fn is_space_exec(b: u8) -> (r: bool)
    ensures
        r == is_space_byte(b),
{
    b == 32 || b == 9 || b == 10 || b == 13 || b == 11 || b == 12
}

/// Byte-sequence equality.
pub fn bytes_eq(a: &[u8], b: &[u8]) -> (r: bool)
    ensures
        r == (a@ == b@),
{
    if a.len() != b.len() {
        assert(a@ != b@) by {
            assert(a@.len() != b@.len());
        }
        return false;
    }
    let n = a.len();
    let mut i: usize = 0;
    while i < n
        invariant
            i <= n,
            n == a@.len() == b@.len(),
            forall|k: int| 0 <= k < i ==> a@[k] == b@[k],
        decreases n - i,
    {
        if a[i] != b[i] {
            return false;
        }
        i += 1;
    }
    proof {
        assert(a@ =~= b@);
    }
    true
}

/// `p` occurs at the start of `s`.
pub open spec fn starts_with_seq(s: Seq<u8>, p: Seq<u8>) -> bool {
    p.len() <= s.len() && s.subrange(0, p.len() as int) == p
}

pub fn starts_with_bytes(s: &[u8], p: &[u8]) -> (r: bool)
    ensures
        r == starts_with_seq(s@, p@),
{
    if p.len() > s.len() {
        return false;
    }
    let m = p.len();
    let mut i: usize = 0;
    while i < m
        invariant
            i <= m,
            m == p@.len(),
            m <= s@.len(),
            forall|k: int| 0 <= k < i ==> s@[k] == p@[k],
        decreases m - i,
    {
        if s[i] != p[i] {
            assert(s@.subrange(0, m as int)[i as int] != p@[i as int]);
            return false;
        }
        i += 1;
    }
    proof {
        assert(s@.subrange(0, m as int) =~= p@);
    }
    true
}

/// `p` occurs at position `i` of `s`.
pub open spec fn matches_at(s: Seq<u8>, p: Seq<u8>, i: int) -> bool {
    0 <= i && i + p.len() <= s.len() && s.subrange(i, i + p.len()) == p
}

/// `p` occurs somewhere in `s`.
pub open spec fn contains_seq(s: Seq<u8>, p: Seq<u8>) -> bool {
    exists|i: int| matches_at(s, p, i)
}

fn matches_at_exec(s: &[u8], p: &[u8], i: usize) -> (r: bool)
    requires
        i + p@.len() <= s@.len(),
    ensures
        r == matches_at(s@, p@, i as int),
{
    let m = p.len();
    let n = s.len();
    let mut j: usize = 0;
    while j < m
        invariant
            j <= m,
            m == p@.len(),
            n == s@.len(),
            i + m <= n,
            forall|k: int| 0 <= k < j ==> s@[i + k] == p@[k],
        decreases m - j,
    {
        if s[i + j] != p[j] {
            assert(s@.subrange(i as int, i + m)[j as int] != p@[j as int]);
            return false;
        }
        j += 1;
    }
    proof {
        assert(s@.subrange(i as int, i + m) =~= p@);
    }
    true
}

/// Direct window scan for `p` anywhere in `s`.
pub fn contains_bytes(s: &[u8], p: &[u8]) -> (r: bool)
    ensures
        r == contains_seq(s@, p@),
{
    if p.len() > s.len() {
        assert(forall|i: int| !matches_at(s@, p@, i));
        return false;
    }
    if p.len() == 0 {
        assert(matches_at(s@, p@, 0)) by {
            assert(s@.subrange(0, 0) =~= p@);
        }
        return true;
    }
    let limit = s.len() - p.len();
    let n = s.len();
    let mut i: usize = 0;
    while i <= limit
        invariant
            i <= limit + 1,
            n == s@.len(),
            1 <= p@.len() <= n,
            limit == n - p@.len(),
            forall|k: int| 0 <= k < i ==> !matches_at(s@, p@, k),
        decreases limit + 1 - i,
    {
        if matches_at_exec(s, p, i) {
            return true;
        }
        i += 1;
    }
    assert(forall|k: int| matches_at(s@, p@, k) ==> 0 <= k <= limit);
    false
}

/// Index of the first line-feed byte in `s`, or `s.len()` if there is none.
pub open spec fn first_nl(s: Seq<u8>) -> int
    decreases s.len(),
{
    if s.len() == 0 {
        0
    } else if s[0] == 10 {
        0
    } else {
        1 + first_nl(s.drop_first())
    }
}

/// The index of the first line feed lies in `[0, len]`.
pub proof fn lemma_first_nl_bounds(s: Seq<u8>)
    ensures
        0 <= first_nl(s) <= s.len(),
    decreases s.len(),
{
    if s.len() > 0 && s[0] != 10 {
        lemma_first_nl_bounds(s.drop_first());
    }
}

proof fn lemma_first_nl_at(s: Seq<u8>, i: int)
    requires
        0 <= i <= s.len(),
        forall|k: int| 0 <= k < i ==> s[k] != 10,
        i == s.len() || s[i] == 10,
    ensures
        first_nl(s) == i,
    decreases i,
{
    if i == 0 {
    } else {
        let t = s.drop_first();
        assert(forall|k: int| 0 <= k < i - 1 ==> t[k] == s[k + 1]);
        lemma_first_nl_at(t, i - 1);
    }
}

/// A terminated split piece with one trailing carriage return removed.
pub open spec fn strip_cr(l: Seq<u8>) -> Seq<u8> {
    if l.len() > 0 && l.last() == 13 {
        l.drop_last()
    } else {
        l
    }
}

/// The lines of a text: split at each line feed, a carriage return directly
/// before a line feed excluded, and a final terminator producing no extra
/// empty line. A carriage return not followed by a line feed stays in its
/// line.
pub open spec fn spec_lines(s: Seq<u8>) -> Seq<Seq<u8>>
    decreases s.len(),
    via spec_lines_dec
{
    if s.len() == 0 {
        Seq::empty()
    } else {
        let i = first_nl(s);
        if i == s.len() {
            seq![s]
        } else {
            seq![strip_cr(s.take(i))] + spec_lines(s.skip(i + 1))
        }
    }
}

#[via_fn]
proof fn spec_lines_dec(s: Seq<u8>) {
    lemma_first_nl_bounds(s);
}

/// The number of lines of a text.
pub open spec fn spec_line_count(s: Seq<u8>) -> int {
    spec_lines(s).len() as int
}

/// The views of a sequence of byte vectors.
pub open spec fn views_of(l: Seq<Vec<u8>>) -> Seq<Seq<u8>> {
    l.map_values(|v: Vec<u8>| v@)
}

/// Copy one split piece, a trailing carriage return excluded.
fn push_piece(lines: &mut Vec<Vec<u8>>, s: &[u8], start: usize, end: usize)
    requires
        start <= end <= s@.len(),
    ensures
        views_of(final(lines)@) == views_of(old(lines)@).push(
            strip_cr(s@.subrange(start as int, end as int)),
        ),
{
    let piece: Vec<u8> = if end > start && s[end - 1] == 13 {
        slice_to_vec(&s[start..end - 1])
    } else {
        slice_to_vec(&s[start..end])
    };
    proof {
        let sub = s@.subrange(start as int, end as int);
        if end > start && s@[end - 1] == 13 {
            assert(sub.last() == s@[end - 1]);
            assert(sub.drop_last() =~= s@.subrange(start as int, end - 1));
        }
        assert(piece@ == strip_cr(sub));
    }
    lines.push(piece);
    proof {
        assert(views_of(lines@) =~= views_of(old(lines)@).push(piece@));
    }
}

/// Split a text into its lines, as `spec_lines` describes.
pub fn split_lines(source: &[u8]) -> (r: Vec<Vec<u8>>)
    ensures
        views_of(r@) == spec_lines(source@),
        r@.len() == spec_line_count(source@),
{
    let n = source.len();
    let mut lines: Vec<Vec<u8>> = Vec::new();
    let mut start: usize = 0;
    let mut i: usize = 0;
    proof {
        assert(views_of(lines@) =~= Seq::<Seq<u8>>::empty());
        assert(source@.skip(0) =~= source@);
        assert(views_of(lines@) + spec_lines(source@) =~= spec_lines(source@));
    }
    while i < n
        invariant
            start <= i <= n,
            n == source@.len(),
            spec_lines(source@) == views_of(lines@) + spec_lines(source@.skip(start as int)),
            forall|k: int| start <= k < i ==> source@[k] != 10,
        decreases n - i,
    {
        if source[i] == 10 {
            proof {
                let t = source@.skip(start as int);
                assert(forall|k: int| 0 <= k < t.len() ==> t[k] == source@[start + k]);
                lemma_first_nl_at(t, i as int - start as int);
                assert(t.take(i as int - start as int) =~= source@.subrange(
                    start as int,
                    i as int,
                ));
                assert(t.skip(i as int - start as int + 1) =~= source@.skip(i + 1));
                assert(spec_lines(t) == seq![strip_cr(source@.subrange(start as int, i as int))]
                    + spec_lines(source@.skip(i + 1)));
            }
            let ghost old_views = views_of(lines@);
            push_piece(&mut lines, source, start, i);
            proof {
                assert(views_of(lines@) + spec_lines(source@.skip(i + 1)) =~= old_views
                    + spec_lines(source@.skip(start as int)));
            }
            start = i + 1;
        }
        i += 1;
    }
    if start < n {
        proof {
            let t = source@.skip(start as int);
            assert(forall|k: int| 0 <= k < t.len() ==> t[k] == source@[start + k]);
            lemma_first_nl_at(t, n as int - start as int);
            assert(t =~= source@.subrange(start as int, n as int));
            assert(spec_lines(t) == seq![source@.subrange(start as int, n as int)]);
        }
        let ghost old_views = views_of(lines@);
        let piece: Vec<u8> = slice_to_vec(&source[start..n]);
        lines.push(piece);
        proof {
            assert(views_of(lines@) =~= old_views.push(
                source@.subrange(start as int, n as int),
            ));
            assert(views_of(lines@) =~= old_views + spec_lines(source@.skip(start as int)));
        }
    } else {
        proof {
            assert(source@.skip(start as int) =~= Seq::<u8>::empty());
            assert(views_of(lines@) + spec_lines(source@.skip(start as int)) =~= views_of(
                lines@,
            ));
        }
    }
    lines
}

/// Codes packed two per byte, the first of each pair in the high four bits; an
/// unpaired final code fills only the high four bits.
pub open spec fn pack_nibbles(codes: Seq<u8>) -> Seq<u8>
    decreases codes.len(),
{
    if codes.len() == 0 {
        Seq::empty()
    } else if codes.len() == 1 {
        seq![(codes[0] as int * 16) as u8]
    } else {
        seq![(codes[0] as int * 16 + codes[1] as int) as u8] + pack_nibbles(codes.skip(2))
    }
}

/// Law: the packed form holds one byte for every two codes, rounded up.
pub proof fn lemma_pack_len(codes: Seq<u8>)
    ensures
        pack_nibbles(codes).len() == (codes.len() + 1) / 2,
    decreases codes.len(),
{
    if codes.len() >= 2 {
        lemma_pack_len(codes.skip(2));
    }
}

proof fn lemma_pack_snoc2(a: Seq<u8>, x: u8, y: u8)
    requires
        a.len() % 2 == 0,
    ensures
        pack_nibbles(a + seq![x, y]) == pack_nibbles(a) + seq![
            (x as int * 16 + y as int) as u8,
        ],
    decreases a.len(),
{
    let s = a + seq![x, y];
    assert(s.len() == a.len() + 2);
    assert(pack_nibbles(s) == seq![(s[0] as int * 16 + s[1] as int) as u8] + pack_nibbles(
        s.skip(2),
    ));
    if a.len() == 0 {
        assert(s[0] == x && s[1] == y);
        assert(s.skip(2) =~= Seq::<u8>::empty());
        assert(pack_nibbles(a) =~= Seq::<u8>::empty());
        assert(pack_nibbles(s.skip(2)) =~= Seq::<u8>::empty());
        assert(pack_nibbles(s) =~= pack_nibbles(a) + seq![(x as int * 16 + y as int) as u8]);
    } else {
        assert(s.skip(2) =~= a.skip(2) + seq![x, y]);
        lemma_pack_snoc2(a.skip(2), x, y);
        assert(s[0] == a[0] && s[1] == a[1]);
        assert(pack_nibbles(a) == seq![(a[0] as int * 16 + a[1] as int) as u8] + pack_nibbles(
            a.skip(2),
        ));
        assert(pack_nibbles(s) =~= pack_nibbles(a) + seq![(x as int * 16 + y as int) as u8]);
    }
}

proof fn lemma_pack_snoc1(a: Seq<u8>, x: u8)
    requires
        a.len() % 2 == 0,
    ensures
        pack_nibbles(a + seq![x]) == pack_nibbles(a) + seq![(x as int * 16) as u8],
    decreases a.len(),
{
    let s = a + seq![x];
    assert(s.len() == a.len() + 1);
    if a.len() == 0 {
        assert(s =~= seq![x]);
        assert(pack_nibbles(s) == seq![(s[0] as int * 16) as u8]);
        assert(pack_nibbles(a) =~= Seq::<u8>::empty());
        assert(pack_nibbles(s) =~= pack_nibbles(a) + seq![(x as int * 16) as u8]);
    } else {
        assert(s.len() >= 3);
        assert(pack_nibbles(s) == seq![(s[0] as int * 16 + s[1] as int) as u8] + pack_nibbles(
            s.skip(2),
        ));
        assert(s.skip(2) =~= a.skip(2) + seq![x]);
        lemma_pack_snoc1(a.skip(2), x);
        assert(s[0] == a[0] && s[1] == a[1]);
        assert(pack_nibbles(a) == seq![(a[0] as int * 16 + a[1] as int) as u8] + pack_nibbles(
            a.skip(2),
        ));
        assert(pack_nibbles(s) =~= pack_nibbles(a) + seq![(x as int * 16) as u8]);
    }
}

/// Pack a vector of 4-bit codes, two per byte, high half first.
pub fn pack_codes(codes: &Vec<u8>) -> (r: Vec<u8>)
    requires
        forall|k: int| 0 <= k < codes@.len() ==> codes@[k] <= 8,
    ensures
        r@ == pack_nibbles(codes@),
        r@.len() == (codes@.len() + 1) / 2,
{
    let n = codes.len();
    let mut packed: Vec<u8> = Vec::new();
    let mut k: usize = 0;
    proof {
        assert(codes@.take(0) =~= Seq::<u8>::empty());
    }
    while k < n && k + 1 < n
        invariant
            k <= n,
            k % 2 == 0,
            n == codes@.len(),
            forall|j: int| 0 <= j < n ==> codes@[j] <= 8,
            packed@ == pack_nibbles(codes@.take(k as int)),
        decreases n - k,
    {
        let b = codes[k] * 16 + codes[k + 1];
        proof {
            lemma_pack_snoc2(codes@.take(k as int), codes@[k as int], codes@[k as int + 1]);
            assert(codes@.take(k as int + 2) =~= codes@.take(k as int) + seq![
                codes@[k as int],
                codes@[k as int + 1],
            ]);
        }
        packed.push(b);
        k += 2;
    }
    if k < n {
        let b = codes[k] * 16;
        proof {
            lemma_pack_snoc1(codes@.take(k as int), codes@[k as int]);
            assert(codes@.take(k as int + 1) =~= codes@.take(k as int) + seq![codes@[k as int]]);
        }
        packed.push(b);
        k += 1;
    }
    proof {
        assert(codes@.take(n as int) =~= codes@);
        lemma_pack_len(codes@);
    }
    packed
}

} // verus!
