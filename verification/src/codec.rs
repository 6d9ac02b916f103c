//! Big-endian byte encoding primitives shared by the binary file formats.
//!
//! Every encodable type implements [`Codec`]: a spec encoding `enc`, a spec decoder `parse`
//! that reads from an absolute position, and executable `read` / `write` functions that
//! agree with them. The roundtrip lemma of each type states that decoding the bytes of a
//! well-formed value gives that value back.
use vstd::prelude::*;

verus! {

/// Error returned when bytes do not hold a value of the expected shape.
#[derive(Debug, PartialEq, Eq, Clone, Copy)]
pub struct ParseError;

/// Two bytes of `x`, most significant first.
pub open spec fn be16(x: u16) -> Seq<u8> {
    seq![(x / 256) as u8, (x % 256) as u8]
}

/// Four bytes of `x`, most significant first.
pub open spec fn be32(x: u32) -> Seq<u8> {
    seq![
        (x / 0x100_0000) as u8,
        ((x / 0x1_0000) % 256) as u8,
        ((x / 256) % 256) as u8,
        (x % 256) as u8,
    ]
}

/// The big-endian `u16` stored at `p`.
pub open spec fn u16_at(b: Seq<u8>, p: int) -> u16 {
    (b[p] as int * 256 + b[p + 1] as int) as u16
}

/// The big-endian `u32` stored at `p`.
pub open spec fn u32_at(b: Seq<u8>, p: int) -> u32 {
    (b[p] as int * 0x100_0000 + b[p + 1] as int * 0x1_0000 + b[p + 2] as int * 256
        + b[p + 3] as int) as u32
}

/// `n` bytes starting at `p` lie inside `b`.
pub open spec fn in_bounds(b: Seq<u8>, p: int, n: int) -> bool {
    0 <= p && 0 <= n && p + n <= b.len()
}

/// The bytes of `b` starting at `p` begin with `s`.
pub open spec fn matches_at(b: Seq<u8>, p: int, s: Seq<u8>) -> bool {
    &&& 0 <= p
    &&& p + s.len() <= b.len()
    &&& b.subrange(p, p + s.len()) == s
}

/// A read result agrees with a spec decoding: success with the same value and end position,
/// or failure exactly when the spec decoding fails.
pub open spec fn res_ok<T: View>(r: Result<(T, usize), ParseError>, s: Option<(T::V, int)>) -> bool {
    match s {
        Some((m, q)) => r matches Ok((v, n)) && v@ == m && n as int == q,
        None => r is Err,
    }
}

/// Splitting a match of a concatenation into matches of its parts.
pub broadcast proof fn lemma_matches_split(b: Seq<u8>, p: int, x: Seq<u8>, y: Seq<u8>)
    ensures
        #[trigger] matches_at(b, p, x + y) ==> matches_at(b, p, x) && matches_at(b, p + x.len(), y),
{
    if matches_at(b, p, x + y) {
        assert(b.subrange(p, p + x.len()) =~= (x + y).subrange(0, x.len() as int));
        assert(b.subrange(p + x.len(), p + x.len() + y.len()) =~= (x + y).subrange(
            x.len() as int,
            (x.len() + y.len()) as int,
        ));
        assert((x + y).subrange(0, x.len() as int) =~= x);
        assert((x + y).subrange(x.len() as int, (x.len() + y.len()) as int) =~= y);
    }
}

/// A matched single byte is the byte stored there.
pub broadcast proof fn lemma_byte_decode(x: u8, b: Seq<u8>, p: int)
    ensures
        #[trigger] matches_at(b, p, seq![x]) ==> b[p] == x,
{
    if matches_at(b, p, seq![x]) {
        assert(b[p] == b.subrange(p, p + 1)[0]);
    }
}

/// Every sequence matches itself at position zero.
pub proof fn lemma_matches_self(b: Seq<u8>)
    ensures
        matches_at(b, 0, b),
        forall|rest: Seq<u8>| matches_at(#[trigger] (b + rest), 0, b),
{
    assert(b.subrange(0, b.len() as int) =~= b);
    assert forall|rest: Seq<u8>| matches_at(#[trigger] (b + rest), 0, b) by {
        assert((b + rest).subrange(0, b.len() as int) =~= b);
    }
}

/// Decoding the two bytes of `x` gives `x`.
pub broadcast proof fn lemma_be16_decode(x: u16, b: Seq<u8>, p: int)
    ensures
        #[trigger] matches_at(b, p, be16(x)) ==> u16_at(b, p) == x,
{
    if matches_at(b, p, be16(x)) {
        lemma_be16_decode_inner(x, b, p);
    }
}

proof fn lemma_be16_decode_inner(x: u16, b: Seq<u8>, p: int)
    requires
        matches_at(b, p, be16(x)),
    ensures
        u16_at(b, p) == x,
{
    assert(b[p] == b.subrange(p, p + 2)[0]);
    assert(b[p + 1] == b.subrange(p, p + 2)[1]);
}

/// Decoding the four bytes of `x` gives `x`.
pub broadcast proof fn lemma_be32_decode(x: u32, b: Seq<u8>, p: int)
    ensures
        #[trigger] matches_at(b, p, be32(x)) ==> u32_at(b, p) == x,
{
    if matches_at(b, p, be32(x)) {
        lemma_be32_decode_inner(x, b, p);
    }
}

proof fn lemma_be32_decode_inner(x: u32, b: Seq<u8>, p: int)
    requires
        matches_at(b, p, be32(x)),
    ensures
        u32_at(b, p) == x,
{
    assert(b[p] == b.subrange(p, p + 4)[0]);
    assert(b[p + 1] == b.subrange(p, p + 4)[1]);
    assert(b[p + 2] == b.subrange(p, p + 4)[2]);
    assert(b[p + 3] == b.subrange(p, p + 4)[3]);
    let a0 = (x / 0x100_0000) as int;
    let a1 = ((x / 0x1_0000) % 256) as int;
    let a2 = ((x / 256) % 256) as int;
    let a3 = (x % 256) as int;
    assert(a0 * 0x100_0000 + a1 * 0x1_0000 + a2 * 256 + a3 == x as int) by (nonlinear_arith)
        requires
            a0 == (x / 0x100_0000) as int,
            a1 == ((x / 0x1_0000) % 256) as int,
            a2 == ((x / 256) % 256) as int,
            a3 == (x % 256) as int,
    ;
}

/// The facts that decode matched encodings of fields.
pub broadcast group group_decode {
    lemma_matches_split,
    lemma_byte_decode,
    lemma_be16_decode,
    lemma_be32_decode,
}

/// Values that have a byte encoding and a matching decoder.
pub trait Codec: View + Sized {
    /// The values that the decoder produces and that the encoding represents faithfully.
    spec fn wf(m: Self::V) -> bool;

    /// The byte encoding of a value.
    spec fn enc(m: Self::V) -> Seq<u8>;

    /// The values that can be written without overflowing a stored length.
    spec fn writable(m: Self::V) -> bool;

    /// Decodes a value starting at `p`, giving the value and the position after it.
    spec fn parse(b: Seq<u8>, p: int) -> Option<(Self::V, int)>;

    /// Decoding the encoding of a well-formed value gives the value back.
    proof fn lemma_roundtrip(m: Self::V, b: Seq<u8>, p: int)
        requires
            Self::wf(m),
            matches_at(b, p, Self::enc(m)),
        ensures
            Self::parse(b, p) == Some((m, p + Self::enc(m).len())),
    ;

    /// Whatever is decoded is well-formed and takes at least one byte.
    proof fn lemma_parse_wf(b: Seq<u8>, p: int)
        ensures
            Self::parse(b, p) matches Some((m, q)) ==> Self::wf(m) && p < q <= b.len(),
    ;

    /// Reads a value starting at `p`.
    fn read(b: &[u8], p: usize) -> (r: Result<(Self, usize), ParseError>)
        ensures
            res_ok(r, Self::parse(b@, p as int)),
    ;

    /// Appends the encoding of the value.
    fn write(&self, out: &mut Vec<u8>)
        requires
            Self::writable(self@),
        ensures
            final(out)@ == old(out)@ + Self::enc(self@),
    ;
}

impl Codec for u8 {
    open spec fn wf(m: u8) -> bool {
        true
    }

    open spec fn writable(m: u8) -> bool {
        true
    }

    open spec fn enc(m: u8) -> Seq<u8> {
        seq![m]
    }

    open spec fn parse(b: Seq<u8>, p: int) -> Option<(u8, int)> {
        if in_bounds(b, p, 1) {
            Some((b[p], p + 1))
        } else {
            None
        }
    }

    proof fn lemma_roundtrip(m: u8, b: Seq<u8>, p: int) {
        lemma_byte_decode(m, b, p);
    }

    proof fn lemma_parse_wf(b: Seq<u8>, p: int) {
    }

    fn read(b: &[u8], p: usize) -> (r: Result<(u8, usize), ParseError>) {
        if p < b.len() {
            Ok((b[p], p + 1))
        } else {
            Err(ParseError)
        }
    }

    fn write(&self, out: &mut Vec<u8>) {
        out.push(*self);
        assert(out@ =~= old(out)@ + seq![*self]);
    }
}

impl Codec for u16 {
    open spec fn wf(m: u16) -> bool {
        true
    }

    open spec fn writable(m: u16) -> bool {
        true
    }

    open spec fn enc(m: u16) -> Seq<u8> {
        be16(m)
    }

    open spec fn parse(b: Seq<u8>, p: int) -> Option<(u16, int)> {
        if in_bounds(b, p, 2) {
            Some((u16_at(b, p), p + 2))
        } else {
            None
        }
    }

    proof fn lemma_roundtrip(m: u16, b: Seq<u8>, p: int) {
        lemma_be16_decode(m, b, p);
    }

    proof fn lemma_parse_wf(b: Seq<u8>, p: int) {
    }

    fn read(b: &[u8], p: usize) -> (r: Result<(u16, usize), ParseError>) {
        if p < b.len() && b.len() - p >= 2 {
            let v = (b[p] as u16) * 256 + b[p + 1] as u16;
            Ok((v, p + 2))
        } else {
            Err(ParseError)
        }
    }

    fn write(&self, out: &mut Vec<u8>) {
        let x = *self;
        out.push((x / 256) as u8);
        out.push((x % 256) as u8);
        assert(out@ =~= old(out)@ + be16(x));
    }
}

impl Codec for u32 {
    open spec fn wf(m: u32) -> bool {
        true
    }

    open spec fn writable(m: u32) -> bool {
        true
    }

    open spec fn enc(m: u32) -> Seq<u8> {
        be32(m)
    }

    open spec fn parse(b: Seq<u8>, p: int) -> Option<(u32, int)> {
        if in_bounds(b, p, 4) {
            Some((u32_at(b, p), p + 4))
        } else {
            None
        }
    }

    proof fn lemma_roundtrip(m: u32, b: Seq<u8>, p: int) {
        lemma_be32_decode(m, b, p);
    }

    proof fn lemma_parse_wf(b: Seq<u8>, p: int) {
    }

    fn read(b: &[u8], p: usize) -> (r: Result<(u32, usize), ParseError>) {
        if p < b.len() && b.len() - p >= 4 {
            let v = (b[p] as u32) * 0x100_0000 + (b[p + 1] as u32) * 0x1_0000 + (b[p + 2] as u32)
                * 256 + b[p + 3] as u32;
            Ok((v, p + 4))
        } else {
            Err(ParseError)
        }
    }

    fn write(&self, out: &mut Vec<u8>) {
        let x = *self;
        let b0 = (x / 0x100_0000) as u8;
        let b1 = ((x / 0x1_0000) % 256) as u8;
        let b2 = ((x / 256) % 256) as u8;
        let b3 = (x % 256) as u8;
        assert(be32(x) == seq![b0, b1, b2, b3]);
        out.push(b0);
        out.push(b1);
        out.push(b2);
        out.push(b3);
        assert(out@ =~= old(out)@ + seq![b0, b1, b2, b3]);
        assert(self@ == x);
        assert(out@ == old(out)@ + be32(x));
        assert(out@ == old(out)@ + <u32 as Codec>::enc(self@));
    }
}

/// The model of a vector of encodable values.
pub open spec fn seq_view<T: View>(v: Seq<T>) -> Seq<T::V> {
    v.map_values(|x: T| x@)
}

/// All values of a sequence are well-formed.
pub open spec fn all_wf<T: Codec>(ms: Seq<T::V>) -> bool {
    forall|i: int| 0 <= i < ms.len() ==> T::wf(#[trigger] ms[i])
}

/// The encodings of a sequence of values, one after another.
pub open spec fn enc_seq<T: Codec>(ms: Seq<T::V>) -> Seq<u8>
    decreases ms.len(),
{
    if ms.len() == 0 {
        Seq::empty()
    } else {
        enc_seq::<T>(ms.drop_last()) + T::enc(ms.last())
    }
}

/// Decodes `n` values one after another.
pub open spec fn parse_seq<T: Codec>(b: Seq<u8>, p: int, n: nat) -> Option<(Seq<T::V>, int)>
    decreases n,
{
    if n == 0 {
        Some((Seq::empty(), p))
    } else {
        match parse_seq::<T>(b, p, (n - 1) as nat) {
            Some((ms, q)) => match T::parse(b, q) {
                Some((m, r)) => Some((ms.push(m), r)),
                None => None,
            },
            None => None,
        }
    }
}

/// The encodings of a sequence split after its first value.
pub proof fn lemma_enc_seq_cons<T: Codec>(m: T::V, ms: Seq<T::V>)
    ensures
        enc_seq::<T>(seq![m] + ms) == T::enc(m) + enc_seq::<T>(ms),
    decreases ms.len(),
{
    let t = seq![m] + ms;
    if ms.len() == 0 {
        assert(t.drop_last() =~= Seq::<T::V>::empty());
        assert(t.last() == m);
        assert(enc_seq::<T>(t.drop_last()) == Seq::<u8>::empty());
        assert(enc_seq::<T>(t) =~= T::enc(m) + enc_seq::<T>(ms));
    } else {
        lemma_enc_seq_cons::<T>(m, ms.drop_last());
        assert(t.drop_last() =~= seq![m] + ms.drop_last());
        assert(t.last() == ms.last());
        assert(enc_seq::<T>(t) =~= T::enc(m) + enc_seq::<T>(ms));
    }
}

/// Decoding the encodings of well-formed values gives the values back.
pub proof fn lemma_seq_roundtrip<T: Codec>(ms: Seq<T::V>, b: Seq<u8>, p: int)
    requires
        all_wf::<T>(ms),
        matches_at(b, p, enc_seq::<T>(ms)),
    ensures
        parse_seq::<T>(b, p, ms.len()) == Some((ms, p + enc_seq::<T>(ms).len())),
    decreases ms.len(),
{
    if ms.len() > 0 {
        let init = ms.drop_last();
        lemma_matches_split(b, p, enc_seq::<T>(init), T::enc(ms.last()));
        assert(all_wf::<T>(init)) by {
            assert forall|i: int| 0 <= i < init.len() implies T::wf(#[trigger] init[i]) by {
                assert(init[i] == ms[i]);
            }
        }
        lemma_seq_roundtrip::<T>(init, b, p);
        assert(T::wf(ms[ms.len() - 1]));
        T::lemma_roundtrip(ms.last(), b, p + enc_seq::<T>(init).len());
        assert(init.push(ms.last()) =~= ms);
    }
}

/// Values decoded one after another are well-formed, and the position only moves forward.
pub proof fn lemma_parse_seq_wf<T: Codec>(b: Seq<u8>, p: int, n: nat)
    ensures
        parse_seq::<T>(b, p, n) matches Some((ms, q)) ==> all_wf::<T>(ms) && ms.len() == n && p
            <= q && (p <= b.len() ==> q <= b.len()),
    decreases n,
{
    if n > 0 {
        lemma_parse_seq_wf::<T>(b, p, (n - 1) as nat);
        if let Some((ms, q)) = parse_seq::<T>(b, p, (n - 1) as nat) {
            T::lemma_parse_wf(b, q);
            if let Some((m, r)) = T::parse(b, q) {
                assert forall|i: int| 0 <= i < ms.push(m).len() implies T::wf(
                    #[trigger] ms.push(m)[i],
                ) by {
                    if i < ms.len() {
                        assert(ms.push(m)[i] == ms[i]);
                    }
                }
            }
        }
    }
}

/// Reads `n` values one after another.
pub fn read_vec<T: Codec>(b: &[u8], p: usize, n: usize) -> (r: Result<(Vec<T>, usize), ParseError>)
    ensures
        match parse_seq::<T>(b@, p as int, n as nat) {
            Some((ms, q)) => r matches Ok((v, e)) && seq_view(v@) == ms && e as int == q,
            None => r is Err,
        },
{
    let mut v: Vec<T> = Vec::new();
    let mut pos = p;
    let mut i: usize = 0;
    while i < n
        invariant
            i <= n,
            parse_seq::<T>(b@, p as int, i as nat) == Some((seq_view(v@), pos as int)),
        decreases n - i,
    {
        proof {
            lemma_parse_seq_next::<T>(b@, p as int, i as nat);
        }
        match T::read(b, pos) {
            Ok((x, q)) => {
                let ghost old_v = v@;
                v.push(x);
                assert(seq_view(v@) =~= seq_view(old_v).push(x@));
                pos = q;
                i = i + 1;
            },
            Err(e) => {
                proof {
                    lemma_parse_seq_fails_after::<T>(b@, p as int, (i + 1) as nat, n as nat);
                }
                return Err(e);
            },
        }
    }
    Ok((v, pos))
}

proof fn lemma_parse_seq_next<T: Codec>(b: Seq<u8>, p: int, i: nat)
    ensures
        parse_seq::<T>(b, p, i + 1) == match parse_seq::<T>(b, p, i) {
            Some((ms, q)) => match T::parse(b, q) {
                Some((m, r)) => Some((ms.push(m), r)),
                None => None,
            },
            None => None,
        },
{
    assert((i + 1 - 1) as nat == i);
}

proof fn lemma_parse_seq_fails_after<T: Codec>(b: Seq<u8>, p: int, i: nat, n: nat)
    requires
        i <= n,
        parse_seq::<T>(b, p, i) is None,
    ensures
        parse_seq::<T>(b, p, n) is None,
    decreases n - i,
{
    if i < n {
        lemma_parse_seq_next::<T>(b, p, i);
        lemma_parse_seq_fails_after::<T>(b, p, i + 1, n);
    }
}

/// Appends the encodings of all values, one after another.
pub fn write_vec<T: Codec>(v: &Vec<T>, out: &mut Vec<u8>)
    requires
        forall|i: int| 0 <= i < v@.len() ==> T::writable(#[trigger] v@[i]@),
    ensures
        final(out)@ == old(out)@ + enc_seq::<T>(seq_view(v@)),
{
    let mut i: usize = 0;
    while i < v.len()
        invariant
            i <= v.len(),
            forall|j: int| 0 <= j < v@.len() ==> T::writable(#[trigger] v@[j]@),
            out@ == old(out)@ + enc_seq::<T>(seq_view(v@.take(i as int))),
        decreases v.len() - i,
    {
        let ghost before = out@;
        v[i].write(out);
        proof {
            let s = seq_view(v@.take(i + 1));
            assert(s.drop_last() =~= seq_view(v@.take(i as int)));
            assert(s.last() == v@[i as int]@);
            assert(out@ =~= old(out)@ + enc_seq::<T>(s));
        }
        i = i + 1;
    }
    assert(v@.take(v.len() as int) =~= v@);
}

/// The big-endian `u16` stored at `p`.
pub fn get_u16(b: &[u8], p: usize) -> (r: u16)
    requires
        in_bounds(b@, p as int, 2),
    ensures
        r == u16_at(b@, p as int),
{
    (b[p] as u16) * 256 + b[p + 1] as u16
}

/// The big-endian `u32` stored at `p`.
pub fn get_u32(b: &[u8], p: usize) -> (r: u32)
    requires
        in_bounds(b@, p as int, 4),
    ensures
        r == u32_at(b@, p as int),
{
    (b[p] as u32) * 0x100_0000 + (b[p + 1] as u32) * 0x1_0000 + (b[p + 2] as u32) * 256
        + b[p + 3] as u32
}

/// Copies `n` bytes starting at `p`.
pub fn copy_bytes(b: &[u8], p: usize, n: usize) -> (r: Vec<u8>)
    requires
        in_bounds(b@, p as int, n as int),
    ensures
        r@ == b@.subrange(p as int, p + n),
{
    let mut r: Vec<u8> = Vec::new();
    let mut i: usize = 0;
    while i < n
        invariant
            i <= n,
            p + n <= b.len(),
            r@ == b@.subrange(p as int, p + i),
        decreases n - i,
    {
        r.push(b[p + i]);
        assert(r@ =~= b@.subrange(p as int, p + i + 1));
        i = i + 1;
    }
    r
}

/// Appends all bytes of `src`.
pub fn append_bytes(out: &mut Vec<u8>, src: &[u8])
    ensures
        final(out)@ == old(out)@ + src@,
{
    let mut i: usize = 0;
    while i < src.len()
        invariant
            i <= src.len(),
            out@ == old(out)@ + src@.subrange(0, i as int),
        decreases src.len() - i,
    {
        out.push(src[i]);
        assert(out@ =~= old(out)@ + src@.subrange(0, i + 1));
        i = i + 1;
    }
    assert(src@.subrange(0, src@.len() as int) =~= src@);
}

/// Appends the big-endian bytes of `x`.
pub fn push_u16(out: &mut Vec<u8>, x: u16)
    ensures
        final(out)@ == old(out)@ + be16(x),
{
    x.write(out);
}

/// Appends the big-endian bytes of `x`.
pub fn push_u32(out: &mut Vec<u8>, x: u32)
    ensures
        final(out)@ == old(out)@ + be32(x),
{
    x.write(out);
}

} // verus!
