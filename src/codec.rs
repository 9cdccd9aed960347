use vstd::prelude::*;

verus! {

/// The four little-endian bytes of a word.
pub open spec fn word_bytes(w: u32) -> Seq<u8> {
    seq![
        (w % 256) as u8,
        (w / 256 % 256) as u8,
        (w / 65536 % 256) as u8,
        (w / 16777216) as u8,
    ]
}

/// The word whose little-endian bytes are `b0`, `b1`, `b2`, `b3`.
pub open spec fn word_of(b0: u8, b1: u8, b2: u8, b3: u8) -> u32 {
    (b0 + 256 * b1 + 65536 * b2 + 16777216 * b3) as u32
}

/// The little-endian bytes of a word sequence, word after word.
pub open spec fn words_to_bytes_le(ws: Seq<u32>) -> Seq<u8> {
    Seq::new(4 * ws.len(), |i: int| word_bytes(ws[i / 4])[i % 4])
}

/// The words whose little-endian bytes are `bs`, four bytes a word.
pub open spec fn bytes_to_words_le(bs: Seq<u8>) -> Seq<u32> {
    Seq::new(
        bs.len() / 4,
        |i: int| word_of(bs[4 * i], bs[4 * i + 1], bs[4 * i + 2], bs[4 * i + 3]),
    )
}

/// `s` with its order reversed.
pub open spec fn reversed(s: Seq<u8>) -> Seq<u8> {
    Seq::new(s.len(), |i: int| s[s.len() - 1 - i])
}

/// The big-endian byte encoding of a field element held as little-endian words.
#[verifier::opaque]
pub open spec fn coord_be(ws: Seq<u32>) -> Seq<u8> {
    reversed(words_to_bytes_le(ws))
}

/// The little-endian words of a field element given as big-endian bytes.
#[verifier::opaque]
pub open spec fn coord_words(be: Seq<u8>) -> Seq<u32> {
    bytes_to_words_le(reversed(be))
}

/// The uncompressed big-endian encoding `x || y` of a point held as `2 * f` words,
/// the `f` words of x and then the `f` words of y, each little-endian.
pub open spec fn point_be(p: Seq<u32>, f: nat) -> Seq<u8> {
    coord_be(p.subrange(0, f as int)) + coord_be(p.subrange(f as int, 2 * f as int))
}

/// The `2 * f` words of a point given by its uncompressed big-endian encoding `x || y`.
pub open spec fn point_words(be: Seq<u8>, f: nat) -> Seq<u32> {
    coord_words(be.subrange(0, 4 * f as int)) + coord_words(be.subrange(4 * f as int, 8 * f as int))
}

pub proof fn lemma_word_bytes_round_trip(w: u32)
    ensures
        word_of(word_bytes(w)[0], word_bytes(w)[1], word_bytes(w)[2], word_bytes(w)[3]) == w,
{
}

pub proof fn lemma_word_of_round_trip(b0: u8, b1: u8, b2: u8, b3: u8)
    ensures
        word_bytes(word_of(b0, b1, b2, b3)) == seq![b0, b1, b2, b3],
{
    assert(word_bytes(word_of(b0, b1, b2, b3)) =~= seq![b0, b1, b2, b3]);
}

/// Encoding words as little-endian bytes and decoding them gives the words back.
pub proof fn lemma_words_bytes_round_trip(ws: Seq<u32>)
    ensures
        bytes_to_words_le(words_to_bytes_le(ws)) == ws,
{
    let bs = words_to_bytes_le(ws);
    assert forall|i: int| 0 <= i < ws.len() implies #[trigger] bytes_to_words_le(bs)[i] == ws[i] by {
        lemma_word_bytes_round_trip(ws[i]);
        assert((4 * i) / 4 == i && (4 * i + 1) / 4 == i && (4 * i + 2) / 4 == i && (4 * i + 3) / 4
            == i);
        assert((4 * i) % 4 == 0 && (4 * i + 1) % 4 == 1 && (4 * i + 2) % 4 == 2 && (4 * i + 3) % 4
            == 3);
    }
    assert(bytes_to_words_le(bs) =~= ws);
}

/// Decoding whole words from bytes and encoding them gives the bytes back.
pub proof fn lemma_bytes_words_round_trip(bs: Seq<u8>)
    requires
        bs.len() % 4 == 0,
    ensures
        words_to_bytes_le(bytes_to_words_le(bs)) == bs,
{
    let ws = bytes_to_words_le(bs);
    assert forall|i: int| 0 <= i < bs.len() implies #[trigger] words_to_bytes_le(ws)[i] == bs[i] by {
        let k = i / 4;
        lemma_word_of_round_trip(bs[4 * k], bs[4 * k + 1], bs[4 * k + 2], bs[4 * k + 3]);
    }
    assert(words_to_bytes_le(ws) =~= bs);
}

pub proof fn lemma_reversed_twice(s: Seq<u8>)
    ensures
        reversed(reversed(s)) == s,
{
    assert(reversed(reversed(s)) =~= s);
}

/// A field element's words survive the trip to big-endian bytes and back.
pub proof fn lemma_coord_round_trip(ws: Seq<u32>)
    ensures
        coord_words(coord_be(ws)) == ws,
        coord_be(ws).len() == 4 * ws.len(),
{
    reveal(coord_be);
    reveal(coord_words);
    lemma_reversed_twice(words_to_bytes_le(ws));
    lemma_words_bytes_round_trip(ws);
}

/// Big-endian bytes of whole words survive the trip to words and back.
pub proof fn lemma_coord_bytes_round_trip(be: Seq<u8>)
    requires
        be.len() % 4 == 0,
    ensures
        coord_be(coord_words(be)) == be,
        coord_words(be).len() == be.len() / 4,
{
    reveal(coord_be);
    reveal(coord_words);
    lemma_bytes_words_round_trip(reversed(be));
    lemma_reversed_twice(be);
}

/// Turning a point's words into its big-endian encoding and back gives the words back.
pub proof fn lemma_point_round_trip(p: Seq<u32>, f: nat)
    requires
        p.len() == 2 * f,
    ensures
        point_words(point_be(p, f), f) == p,
{
    let x = p.subrange(0, f as int);
    let y = p.subrange(f as int, 2 * f as int);
    let be = point_be(p, f);
    lemma_coord_round_trip(x);
    lemma_coord_round_trip(y);
    assert(be.subrange(0, 4 * f as int) =~= coord_be(x));
    assert(be.subrange(4 * f as int, 8 * f as int) =~= coord_be(y));
    assert(point_words(be, f) =~= x + y);
    assert(x + y =~= p);
}

/// Turning a point's big-endian encoding into words and back gives the bytes back.
pub proof fn lemma_point_bytes_round_trip(be: Seq<u8>, f: nat)
    requires
        be.len() == 8 * f,
    ensures
        point_be(point_words(be, f), f) == be,
{
    let xb = be.subrange(0, 4 * f as int);
    let yb = be.subrange(4 * f as int, 8 * f as int);
    lemma_coord_bytes_round_trip(xb);
    lemma_coord_bytes_round_trip(yb);
    let p = point_words(be, f);
    assert(p.subrange(0, f as int) =~= coord_words(xb));
    assert(p.subrange(f as int, 2 * f as int) =~= coord_words(yb));
    assert(point_be(p, f) =~= xb + yb);
    assert(xb + yb =~= be);
}

/// Byte `j` of the big-endian encoding of a field element.
pub proof fn lemma_coord_be_index(ws: Seq<u32>, j: int)
    requires
        0 <= j < 4 * ws.len(),
    ensures
        coord_be(ws).len() == 4 * ws.len(),
        coord_be(ws)[j] == word_bytes(ws[ws.len() - 1 - j / 4])[3 - j % 4],
{
    reveal(coord_be);
    let k = 4 * ws.len() - 1 - j;
    assert(k / 4 == ws.len() - 1 - j / 4 && k % 4 == 3 - j % 4);
}

/// Word `i` of a field element given as big-endian bytes.
pub proof fn lemma_coord_words_index(be: Seq<u8>, i: int)
    requires
        be.len() % 4 == 0,
        0 <= i < be.len() / 4,
    ensures
        coord_words(be).len() == be.len() / 4,
        coord_words(be)[i] == word_of(
            be[be.len() - 1 - 4 * i],
            be[be.len() - 2 - 4 * i],
            be[be.len() - 3 - 4 * i],
            be[be.len() - 4 - 4 * i],
        ),
{
    reveal(coord_words);
}

/// The big-endian encoding of the `f` words of `ws` that start at `start`.
pub fn coord_to_be(ws: &Vec<u32>, start: usize, f: usize) -> (r: Vec<u8>)
    requires
        start + f <= ws@.len(),
    ensures
        r@ == coord_be(ws@.subrange(start as int, start + f)),
{
    let ghost x = ws@.subrange(start as int, start + f);
    let total = ws.len();
    let mut out: Vec<u8> = Vec::new();
    let mut t: usize = 0;
    while t < f
        invariant
            t <= f,
            start + f <= ws@.len(),
            ws@.len() == total,
            x == ws@.subrange(start as int, start + f),
            out@.len() == 4 * t,
            forall|j: int| 0 <= j < 4 * t ==> #[trigger] out@[j] == word_bytes(x[f - 1 - j / 4])[3 - j % 4],
        decreases f - t,
    {
        let w = ws[start + f - 1 - t];
        let ghost before = out@;
        out.push((w / 16777216) as u8);
        out.push((w / 65536 % 256) as u8);
        out.push((w / 256 % 256) as u8);
        out.push((w % 256) as u8);
        proof {
            assert forall|j: int| 0 <= j < 4 * (t + 1) implies #[trigger] out@[j] == word_bytes(
                x[f - 1 - j / 4],
            )[3 - j % 4] by {
                if j >= 4 * t {
                    assert(j / 4 == t);
                    assert(x[f - 1 - t] == w);
                } else {
                    assert(out@[j] == before[j]);
                }
            }
        }
        t = t + 1;
    }
    proof {
        assert forall|j: int| 0 <= j < 4 * f implies #[trigger] out@[j] == coord_be(x)[j] by {
            lemma_coord_be_index(x, j);
        }
        if f > 0 {
            lemma_coord_be_index(x, 0);
        } else {
            reveal(coord_be);
        }
        assert(out@ =~= coord_be(x));
    }
    out
}

/// The little-endian words of the field element whose `len` big-endian bytes start
/// at `start`.
pub fn coord_from_be(be: &Vec<u8>, start: usize, len: usize) -> (r: Vec<u32>)
    requires
        start + len <= be@.len(),
        len % 4 == 0,
    ensures
        r@ == coord_words(be@.subrange(start as int, start + len)),
        r@.len() == len / 4,
{
    let ghost x = be@.subrange(start as int, start + len);
    let n = len / 4;
    let total = be.len();
    let mut out: Vec<u32> = Vec::new();
    let mut i: usize = 0;
    while i < n
        invariant
            i <= n,
            n == len / 4,
            len % 4 == 0,
            start + len <= be@.len(),
            be@.len() == total,
            x == be@.subrange(start as int, start + len),
            out@.len() == i,
            forall|k: int| 0 <= k < i ==> #[trigger] out@[k] == word_of(
                x[len - 1 - 4 * k],
                x[len - 2 - 4 * k],
                x[len - 3 - 4 * k],
                x[len - 4 - 4 * k],
            ),
        decreases n - i,
    {
        let top = start + len - 4 * i;
        let b0 = be[top - 1];
        let b1 = be[top - 2];
        let b2 = be[top - 3];
        let b3 = be[top - 4];
        let w: u32 = b0 as u32 + (b1 as u32) * 256 + (b2 as u32) * 65536 + (b3 as u32) * 16777216;
        out.push(w);
        i = i + 1;
    }
    proof {
        assert forall|k: int| 0 <= k < n implies #[trigger] out@[k] == coord_words(x)[k] by {
            lemma_coord_words_index(x, k);
        }
        reveal(coord_words);
        assert(out@ =~= coord_words(x));
    }
    out
}

/// The little-endian bytes of a word sequence.
pub fn words_to_bytes_le_vec(ws: &Vec<u32>) -> (r: Vec<u8>)
    requires
        4 * ws@.len() <= usize::MAX,
    ensures
        r@ == words_to_bytes_le(ws@),
{
    let mut out: Vec<u8> = Vec::new();
    let mut i: usize = 0;
    while i < ws.len()
        invariant
            i <= ws@.len(),
            out@.len() == 4 * i,
            forall|j: int| 0 <= j < 4 * i ==> #[trigger] out@[j] == word_bytes(ws@[j / 4])[j % 4],
        decreases ws@.len() - i,
    {
        let w = ws[i];
        let ghost before = out@;
        out.push((w % 256) as u8);
        out.push((w / 256 % 256) as u8);
        out.push((w / 65536 % 256) as u8);
        out.push((w / 16777216) as u8);
        proof {
            assert forall|j: int| 0 <= j < 4 * (i + 1) implies #[trigger] out@[j] == word_bytes(
                ws@[j / 4],
            )[j % 4] by {
                if j >= 4 * i {
                    assert(j / 4 == i);
                } else {
                    assert(out@[j] == before[j]);
                }
            }
        }
        i = i + 1;
    }
    assert(out@ =~= words_to_bytes_le(ws@));
    out
}

/// `bs` with its order reversed.
pub fn reverse_bytes(bs: &Vec<u8>) -> (r: Vec<u8>)
    ensures
        r@ == reversed(bs@),
{
    let n = bs.len();
    let mut out: Vec<u8> = Vec::new();
    let mut i: usize = 0;
    while i < n
        invariant
            i <= n,
            n == bs@.len(),
            out@ == reversed(bs@).subrange(0, i as int),
        decreases n - i,
    {
        out.push(bs[n - 1 - i]);
        i = i + 1;
        assert(out@ =~= reversed(bs@).subrange(0, i as int));
    }
    assert(out@ =~= reversed(bs@));
    out
}

/// The uncompressed big-endian encoding `x || y` of a point held as `2 * f` words.
pub fn point_to_be(p: &Vec<u32>, f: usize) -> (r: Vec<u8>)
    requires
        p@.len() == 2 * f,
    ensures
        r@ == point_be(p@, f as nat),
        r@.len() == 8 * f,
{
    let mut x = coord_to_be(p, 0, f);
    let mut y = coord_to_be(p, f, f);
    proof {
        lemma_coord_round_trip(p@.subrange(0, f as int));
        lemma_coord_round_trip(p@.subrange(f as int, 2 * f as int));
    }
    x.append(&mut y);
    x
}

/// The `2 * f` words of the point whose `8 * f` big-endian bytes start at `off`.
pub fn point_from_be(be: &Vec<u8>, off: usize, f: usize) -> (r: Vec<u32>)
    requires
        off + 8 * f <= be@.len(),
    ensures
        r@ == point_words(be@.subrange(off as int, off + 8 * f), f as nat),
        r@.len() == 2 * f,
{
    let ghost s = be@.subrange(off as int, off + 8 * f);
    let total = be.len();
    assert(off + 8 * f <= total);
    let mut x = coord_from_be(be, off, 4 * f);
    let mut y = coord_from_be(be, off + 4 * f, 4 * f);
    proof {
        assert(s.subrange(0, 4 * f as int) =~= be@.subrange(off as int, off + 4 * f));
        assert(s.subrange(4 * f as int, 8 * f as int) =~= be@.subrange(off + 4 * f, off + 8 * f));
    }
    x.append(&mut y);
    x
}

/// The words whose little-endian bytes are `bs`, four bytes a word.
pub fn bytes_to_words_le_vec(bs: &Vec<u8>) -> (r: Vec<u32>)
    requires
        bs@.len() % 4 == 0,
    ensures
        r@ == bytes_to_words_le(bs@),
        r@.len() == bs@.len() / 4,
{
    let total = bs.len();
    let n = total / 4;
    let mut out: Vec<u32> = Vec::new();
    let mut i: usize = 0;
    while i < n
        invariant
            i <= n,
            n == bs@.len() / 4,
            total == bs@.len(),
            bs@.len() % 4 == 0,
            out@ == bytes_to_words_le(bs@).subrange(0, i as int),
        decreases n - i,
    {
        let w: u32 = bs[4 * i] as u32 + (bs[4 * i + 1] as u32) * 256 + (bs[4 * i + 2] as u32) * 65536
            + (bs[4 * i + 3] as u32) * 16777216;
        out.push(w);
        i = i + 1;
        assert(out@ =~= bytes_to_words_le(bs@).subrange(0, i as int));
    }
    assert(out@ =~= bytes_to_words_le(bs@));
    out
}

} // verus!
