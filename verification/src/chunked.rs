//! Chunked transfer coding: each chunk is its length in lower-case
//! hexadecimal, CR LF, the bytes, CR LF; a chunk of length zero ends the body.

use vstd::prelude::*;
use algorithm::buf::BinaryMut;
use crate::binary::{mut_bytes, put_slice, remaining};

verus! {

pub const CR: u8 = 13;

pub const LF: u8 = 10;

/// The ASCII code of the hexadecimal digit of `d`, lower case.
pub open spec fn hex_digit(d: int) -> u8
    recommends
        0 <= d < 16,
{
    if d < 10 {
        (48 + d) as u8
    } else {
        (87 + d) as u8
    }
}

/// `n` in hexadecimal, most significant digit first, without leading zeros;
/// zero is the single digit `0`.
pub open spec fn hex_digits(n: nat) -> Seq<u8>
    decreases n,
{
    if n < 16 {
        seq![hex_digit(n as int)]
    } else {
        hex_digits(n / 16).push(hex_digit((n % 16) as int))
    }
}

/// The two bytes that end a line.
pub open spec fn crlf() -> Seq<u8> {
    seq![CR, LF]
}

/// One chunk on the wire.
pub open spec fn chunk_frame(data: Seq<u8>) -> Seq<u8> {
    hex_digits(data.len()) + crlf() + data + crlf()
}

/// The chunk that ends a chunked body: `0 CR LF CR LF`.
pub open spec fn last_chunk() -> Seq<u8> {
    chunk_frame(Seq::<u8>::empty())
}


fn digit_of(d: usize) -> (c: u8)
    requires
        d < 16,
    ensures
        c == hex_digit(d as int),
{
    if d < 10 {
        (48 + d) as u8
    } else {
        (87 + d) as u8
    }
}

/// The hexadecimal digits of `n`.
pub fn hex_encode(n: usize) -> (v: Vec<u8>)
    ensures
        v@ == hex_digits(n as nat),
{
    // digits from the least significant one up
    let mut low: Vec<u8> = Vec::new();
    let mut rest: usize = n;
    while rest >= 16
        invariant
            hex_digits(n as nat) == hex_digits(rest as nat) + low@.reverse(),
        decreases rest,
    {
        let ghost before = low@;
        low.push(digit_of(rest % 16));
        proof {
            assert(low@.reverse() =~= seq![hex_digit((rest % 16) as int)] + before.reverse());
            assert(hex_digits(rest as nat) =~= hex_digits((rest / 16) as nat) + seq![
                hex_digit((rest % 16) as int),
            ]);
        }
        rest = rest / 16;
    }
    low.push(digit_of(rest));
    let mut v: Vec<u8> = Vec::new();
    let mut i: usize = low.len();
    proof {
        assert(hex_digits(n as nat) =~= low@.reverse()) by {
            let pushed = low@;
            let before = pushed.drop_last();
            assert(pushed.reverse() =~= seq![pushed.last()] + before.reverse());
        }
    }
    while i > 0
        invariant
            i <= low.len(),
            v@ == low@.reverse().take(low.len() - i),
        decreases i,
    {
        i = i - 1;
        v.push(low[i]);
        proof {
            assert(v@ =~= low@.reverse().take(low.len() - i));
        }
    }
    proof {
        assert(low@.reverse().take(low.len() as int) =~= low@.reverse());
    }
    v
}

/// Appends `data` to `buffer` as one chunk and returns the number of bytes
/// appended.
pub fn encode_chunk_data(buffer: &mut BinaryMut, data: &[u8]) -> (n: usize)
    ensures
        mut_bytes(*final(buffer)) == mut_bytes(*old(buffer)) + chunk_frame(data@),
        n == chunk_frame(data@).len(),
{
    let before = remaining(buffer);
    let digits = hex_encode(data.len());
    let line: [u8; 2] = [CR, LF];
    put_slice(buffer, digits.as_slice());
    put_slice(buffer, &line);
    put_slice(buffer, data);
    put_slice(buffer, &line);
    proof {
        assert(line@ =~= crlf());
        assert(mut_bytes(*buffer) =~= mut_bytes(*old(buffer)) + chunk_frame(data@));
    }
    let after = remaining(buffer);
    after - before
}

/// The value of a hexadecimal digit, upper or lower case; `-1` for any other
/// byte.
pub open spec fn hex_value(b: u8) -> int {
    if 48 <= b <= 57 {
        b - 48
    } else if 97 <= b <= 102 {
        b - 87
    } else if 65 <= b <= 70 {
        b - 55
    } else {
        -1
    }
}

/// The number of hexadecimal digits at the front of `s`.
pub open spec fn digits_len(s: Seq<u8>) -> nat
    decreases s.len(),
{
    if s.len() > 0 && hex_value(s[0]) >= 0 {
        1 + digits_len(s.skip(1))
    } else {
        0
    }
}

/// The number that the hexadecimal digits `s` stand for.
pub open spec fn digits_value(s: Seq<u8>) -> int
    decreases s.len(),
{
    if s.len() == 0 {
        0
    } else {
        digits_value(s.drop_last()) * 16 + hex_value(s.last())
    }
}

/// What stands at the front of a chunked body.
pub enum ChunkParse {
    /// The front of a chunk, of which more has to arrive.
    Partial,
    /// No chunk.
    Invalid,
    /// A chunk that takes `used` bytes and holds `data`.
    Data { used: nat, data: Seq<u8> },
    /// The chunk of length zero, which takes `used` bytes.
    Last { used: nat },
}

/// Reads one chunk from the front of `s`: the length in hexadecimal, CR LF,
/// as many bytes, CR LF. A length that does not fit the machine is no chunk,
/// whatever follows.
pub open spec fn first_chunk(s: Seq<u8>) -> ChunkParse {
    let k = digits_len(s) as int;
    let size = digits_value(s.take(k));
    if size > usize::MAX {
        ChunkParse::Invalid
    } else if k == s.len() {
        ChunkParse::Partial
    } else if k == 0 || s[k] != CR {
        ChunkParse::Invalid
    } else if s.len() == k + 1 {
        ChunkParse::Partial
    } else if s[k + 1] != LF {
        ChunkParse::Invalid
    } else if s.len() < k + 2 + size + 2 {
        ChunkParse::Partial
    } else if s[k + 2 + size] != CR || s[k + 2 + size + 1] != LF {
        ChunkParse::Invalid
    } else if size == 0 {
        ChunkParse::Last { used: (k + 4) as nat }
    } else {
        ChunkParse::Data {
            used: (k + 2 + size + 2) as nat,
            data: s.subrange(k + 2, k + 2 + size),
        }
    }
}

/// What a buffer of chunked bytes holds.
pub struct Dechunked {
    /// The bytes of the complete chunks at the front, joined.
    pub body: Seq<u8>,
    /// What stands behind those chunks, and behind the last chunk if it was
    /// among them.
    pub rest: Seq<u8>,
    /// Whether the last chunk was among them.
    pub ended: bool,
    /// Whether what follows them may still become a chunk.
    pub valid: bool,
}

/// Takes the complete chunks from the front of `s`, up to the last chunk.
pub open spec fn dechunk(s: Seq<u8>) -> Dechunked
    decreases s.len(),
{
    match first_chunk(s) {
        ChunkParse::Partial => Dechunked { body: Seq::empty(), rest: s, ended: false, valid: true },
        ChunkParse::Invalid => Dechunked {
            body: Seq::empty(),
            rest: s,
            ended: false,
            valid: false,
        },
        ChunkParse::Last { used } => Dechunked {
            body: Seq::empty(),
            rest: s.skip(used as int),
            ended: true,
            valid: true,
        },
        ChunkParse::Data { used, data } => {
            if 0 < used <= s.len() {
                let r = dechunk(s.skip(used as int));
                Dechunked { body: data + r.body, ..r }
            } else {
                Dechunked { body: Seq::empty(), rest: s, ended: false, valid: false }
            }
        },
    }
}

/// A body in chunks: each piece as one chunk, then the last chunk.
pub open spec fn chunked_body(pieces: Seq<Seq<u8>>) -> Seq<u8>
    decreases pieces.len(),
{
    if pieces.len() == 0 {
        last_chunk()
    } else {
        chunk_frame(pieces[0]) + chunked_body(pieces.skip(1))
    }
}

/// The pieces joined.
pub open spec fn joined(pieces: Seq<Seq<u8>>) -> Seq<u8>
    decreases pieces.len(),
{
    if pieces.len() == 0 {
        Seq::empty()
    } else {
        pieces[0] + joined(pieces.skip(1))
    }
}

/// The digits of a number are hexadecimal digits, and stand for that number.
pub proof fn lemma_hex_digits(n: nat)
    ensures
        hex_digits(n).len() > 0,
        forall|i: int| 0 <= i < hex_digits(n).len() ==> hex_value(#[trigger] hex_digits(n)[i]) >= 0,
        digits_value(hex_digits(n)) == n,
    decreases n,
{
    let d = if n < 16 {
        n as int
    } else {
        (n % 16) as int
    };
    assert(hex_value(hex_digit(d)) == d);
    assert(hex_digits(n).last() == hex_digit(d));
    if n < 16 {
        assert(hex_digits(n).drop_last() =~= Seq::<u8>::empty());
        assert(digits_value(hex_digits(n).drop_last()) == 0);
    } else {
        lemma_hex_digits(n / 16);
        assert(hex_digits(n).drop_last() =~= hex_digits(n / 16));
        assert forall|i: int| 0 <= i < hex_digits(n).len() implies hex_value(
            #[trigger] hex_digits(n)[i],
        ) >= 0 by {
            if i < hex_digits(n / 16).len() {
                assert(hex_digits(n)[i] == hex_digits(n / 16)[i]);
            }
        }
    }
}

/// Behind a run of hexadecimal digits that a byte of another kind ends, the
/// number of digits at the front is the length of the run.
pub proof fn lemma_digits_len(digits: Seq<u8>, tail: Seq<u8>)
    requires
        forall|i: int| 0 <= i < digits.len() ==> hex_value(#[trigger] digits[i]) >= 0,
        tail.len() == 0 || hex_value(tail[0]) < 0,
    ensures
        digits_len(digits + tail) == digits.len(),
    decreases digits.len(),
{
    if digits.len() > 0 {
        lemma_digits_len(digits.skip(1), tail);
        assert((digits + tail).skip(1) =~= digits.skip(1) + tail);
    }
}

/// A run of hexadecimal digits stands for at least as much as any of its
/// prefixes.
pub proof fn lemma_digits_value_grows(s: Seq<u8>, i: int)
    requires
        0 <= i <= s.len(),
        forall|j: int| 0 <= j < s.len() ==> hex_value(#[trigger] s[j]) >= 0,
    ensures
        0 <= digits_value(s.take(i)) <= digits_value(s),
    decreases s.len() - i,
{
    if i == s.len() {
        assert(s.take(i) =~= s);
        lemma_digits_value_nonneg(s);
    } else {
        lemma_digits_value_grows(s.drop_last(), i);
        assert(s.drop_last().take(i) =~= s.take(i));
    }
}

proof fn lemma_digits_value_nonneg(s: Seq<u8>)
    requires
        forall|j: int| 0 <= j < s.len() ==> hex_value(#[trigger] s[j]) >= 0,
    ensures
        0 <= digits_value(s),
    decreases s.len(),
{
    if s.len() > 0 {
        lemma_digits_value_nonneg(s.drop_last());
    }
}

/// The digits at the front of a buffer are hexadecimal digits.
pub proof fn lemma_digits_len_bound(s: Seq<u8>)
    ensures
        digits_len(s) <= s.len(),
        forall|j: int| 0 <= j < digits_len(s) ==> hex_value(#[trigger] s[j]) >= 0,
        digits_len(s) < s.len() ==> hex_value(s[digits_len(s) as int]) < 0,
    decreases s.len(),
{
    if s.len() > 0 && hex_value(s[0]) >= 0 {
        lemma_digits_len_bound(s.skip(1));
        assert forall|j: int| 0 <= j < digits_len(s) implies hex_value(#[trigger] s[j]) >= 0 by {
            if j > 0 {
                assert(s[j] == s.skip(1)[j - 1]);
            }
        }
        if digits_len(s) < s.len() {
            assert(s[digits_len(s) as int] == s.skip(1)[digits_len(s.skip(1)) as int]);
        }
    }
}

/// A chunk is read back as it was written: in front of anything, the frame of
/// `data` is one chunk that holds `data`, or the last chunk if `data` is
/// empty.
pub proof fn lemma_first_chunk_of_frame(data: Seq<u8>, tail: Seq<u8>)
    requires
        data.len() <= usize::MAX,
    ensures
        first_chunk(chunk_frame(data) + tail) == if data.len() == 0 {
            ChunkParse::Last { used: chunk_frame(data).len() }
        } else {
            ChunkParse::Data { used: chunk_frame(data).len(), data }
        },
{
    let digits = hex_digits(data.len());
    let s = chunk_frame(data) + tail;
    lemma_hex_digits(data.len());
    let after = crlf() + data + crlf() + tail;
    assert(s =~= digits + after);
    assert(after[0] == CR);
    lemma_digits_len(digits, after);
    let k = digits.len() as int;
    assert(s.take(k) =~= digits);
    assert(s[k] == CR);
    assert(s[k + 1] == LF);
    assert(s[k + 2 + data.len()] == CR);
    assert(s[k + 2 + data.len() + 1] == LF);
    assert(s.subrange(k + 2, k + 2 + data.len()) =~= data);
}

/// Chunked coding is undone by decoding: the body made of the pieces, each in
/// a chunk of its own, and the last chunk, decodes to the pieces joined, to
/// the end and to the last byte.
pub proof fn lemma_dechunk_chunked(pieces: Seq<Seq<u8>>)
    requires
        forall|i: int| 0 <= i < pieces.len() ==> 0 < (#[trigger] pieces[i]).len() <= usize::MAX,
    ensures
        dechunk(chunked_body(pieces)) == (Dechunked {
            body: joined(pieces),
            rest: Seq::empty(),
            ended: true,
            valid: true,
        }),
    decreases pieces.len(),
{
    if pieces.len() == 0 {
        lemma_first_chunk_of_frame(Seq::empty(), Seq::empty());
        assert(last_chunk() + Seq::<u8>::empty() =~= last_chunk());
        assert(last_chunk().skip(last_chunk().len() as int) =~= Seq::<u8>::empty());
    } else {
        let frame = chunk_frame(pieces[0]);
        let tail = chunked_body(pieces.skip(1));
        lemma_first_chunk_of_frame(pieces[0], tail);
        assert((frame + tail).skip(frame.len() as int) =~= tail);
        assert forall|i: int| 0 <= i < pieces.skip(1).len() implies 0 < (#[trigger] pieces.skip(
            1,
        )[i]).len() <= usize::MAX by {
            assert(pieces.skip(1)[i] == pieces[i + 1]);
        }
        lemma_dechunk_chunked(pieces.skip(1));
    }
}

/// What stands at the front of a buffer of chunked bytes, by position.
#[derive(Debug, Clone, Copy, PartialEq, Eq, Structural)]
pub enum ChunkStep {
    /// The front of a chunk, of which more has to arrive.
    Partial,
    /// No chunk.
    Invalid,
    /// A chunk whose bytes start at `head` and are `size` in number.
    Data { head: usize, size: usize },
    /// The chunk of length zero, which takes `used` bytes.
    Last { used: usize },
}

impl ChunkStep {
    /// The chunk that the step found in `s`.
    pub open spec fn parsed(self, s: Seq<u8>) -> ChunkParse {
        match self {
            ChunkStep::Partial => ChunkParse::Partial,
            ChunkStep::Invalid => ChunkParse::Invalid,
            ChunkStep::Data { head, size } => ChunkParse::Data {
                used: (head + size + 2) as nat,
                data: s.subrange(head as int, head + size),
            },
            ChunkStep::Last { used } => ChunkParse::Last { used: used as nat },
        }
    }
}

/// The value of a hexadecimal digit; 255 for any other byte.
fn hex_of(b: u8) -> (v: u8)
    ensures
        hex_value(b) >= 0 ==> v == hex_value(b),
        hex_value(b) < 0 ==> v == 255,
{
    if 48 <= b && b <= 57 {
        b - 48
    } else if 97 <= b && b <= 102 {
        b - 87
    } else if 65 <= b && b <= 70 {
        b - 55
    } else {
        255
    }
}

/// Reads one chunk from the front of `s`.
pub fn parse_chunk(s: &[u8]) -> (r: ChunkStep)
    ensures
        r.parsed(s@) == first_chunk(s@),
        r matches ChunkStep::Data { head, size } ==> 0 < head + size + 2 <= s@.len() && size > 0,
        r matches ChunkStep::Last { used } ==> 0 < used <= s@.len(),
{
    let len = s.len();
    let mut k: usize = 0;
    let mut size: usize = 0;
    proof {
        assert(s@.skip(0) =~= s@);
        assert(s@.take(0) =~= Seq::<u8>::empty());
    }
    while k < len && hex_of(s[k]) != 255
        invariant
            len == s@.len(),
            k <= len,
            digits_len(s@) == k + digits_len(s@.skip(k as int)),
            size == digits_value(s@.take(k as int)),
        decreases len - k,
    {
        let d = hex_of(s[k]) as usize;
        proof {
            assert(s@.skip(k as int)[0] == s@[k as int]);
            assert(s@.skip(k as int).skip(1) =~= s@.skip(k + 1));
            assert(s@.take(k + 1).drop_last() =~= s@.take(k as int));
            assert(s@.take(k + 1).last() == s@[k as int]);
        }
        if size > (usize::MAX - d) / 16 {
            proof {
                let run = digits_len(s@) as int;
                lemma_digits_len_bound(s@);
                lemma_digits_value_grows(s@.take(run), k + 1);
                assert(s@.take(run).take(k + 1) =~= s@.take(k + 1));
            }
            return ChunkStep::Invalid;
        }
        size = size * 16 + d;
        k = k + 1;
    }
    proof {
        if k < len {
            assert(s@.skip(k as int)[0] == s@[k as int]);
        }
        assert(digits_len(s@.skip(k as int)) == 0);
    }
    if k == len {
        return ChunkStep::Partial;
    }
    if k == 0 || s[k] != CR {
        return ChunkStep::Invalid;
    }
    if len == k + 1 {
        return ChunkStep::Partial;
    }
    if s[k + 1] != LF {
        return ChunkStep::Invalid;
    }
    let avail = len - (k + 2);
    if avail < 2 || avail - 2 < size {
        return ChunkStep::Partial;
    }
    if s[k + 2 + size] != CR || s[k + 2 + size + 1] != LF {
        return ChunkStep::Invalid;
    }
    if size == 0 {
        ChunkStep::Last { used: k + 4 }
    } else {
        ChunkStep::Data { head: k + 2, size }
    }
}

/// The pieces, each in a chunk of its own, without the last chunk.
pub open spec fn chunks_of(pieces: Seq<Seq<u8>>) -> Seq<u8>
    decreases pieces.len(),
{
    if pieces.len() == 0 {
        Seq::empty()
    } else {
        chunk_frame(pieces[0]) + chunks_of(pieces.skip(1))
    }
}

/// A body in chunks is its chunks and the last chunk; a piece more adds a
/// chunk behind the others, and its bytes behind theirs.
pub proof fn lemma_chunks_grow(pieces: Seq<Seq<u8>>, piece: Seq<u8>)
    ensures
        chunked_body(pieces) == chunks_of(pieces) + last_chunk(),
        chunks_of(pieces.push(piece)) == chunks_of(pieces) + chunk_frame(piece),
        joined(pieces.push(piece)) == joined(pieces) + piece,
    decreases pieces.len(),
{
    if pieces.len() == 0 {
        let one = pieces.push(piece);
        assert(one.skip(1) =~= Seq::<Seq<u8>>::empty());
        assert(one[0] == piece);
        assert(chunks_of(one.skip(1)) =~= Seq::<u8>::empty());
        assert(joined(one.skip(1)) =~= Seq::<u8>::empty());
        assert(chunked_body(pieces) =~= chunks_of(pieces) + last_chunk());
        assert(chunks_of(one) =~= chunks_of(pieces) + chunk_frame(piece));
        assert(joined(one) =~= joined(pieces) + piece);
    } else {
        let rest = pieces.skip(1);
        lemma_chunks_grow(rest, piece);
        let more = pieces.push(piece);
        assert(more.skip(1) =~= rest.push(piece));
        assert(more[0] == pieces[0]);
        assert(chunked_body(pieces) =~= chunks_of(pieces) + last_chunk());
        assert(chunks_of(more) =~= chunks_of(pieces) + chunk_frame(piece));
        assert(joined(more) =~= joined(pieces) + piece);
    }
}

/// No piece is longer than the pieces joined.
pub proof fn lemma_piece_in_joined(pieces: Seq<Seq<u8>>, i: int)
    requires
        0 <= i < pieces.len(),
    ensures
        pieces[i].len() <= joined(pieces).len(),
    decreases pieces.len(),
{
    if i > 0 {
        lemma_piece_in_joined(pieces.skip(1), i - 1);
        assert(pieces.skip(1)[i - 1] == pieces[i]);
    }
}

} // verus!
