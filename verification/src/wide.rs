//! Null-terminated UTF-16 strings as stored in analysis files.
use crate::codec::{
    be16, enc_seq, get_u16, group_decode, in_bounds, matches_at, push_u16, u16_at, write_vec,
    seq_view, Codec,
};
use vstd::prelude::*;

verus! {

/// A string of UTF-16 code units. On disk it is followed by a `0x0000` unit.
#[derive(Debug, PartialEq, Eq, Clone)]
pub struct NullWideString(pub Vec<u16>);

impl View for NullWideString {
    type V = Seq<u16>;

    open spec fn view(&self) -> Seq<u16> {
        self.0@
    }
}

/// The UTF-16 code units of a Unicode scalar value.
pub open spec fn utf16_units(c: char) -> Seq<u16> {
    let v = c as u32;
    if v < 0x1_0000 {
        seq![v as u16]
    } else {
        let w = (v - 0x1_0000) as u32;
        seq![(0xD800 + w / 0x400) as u16, (0xDC00 + w % 0x400) as u16]
    }
}

/// The UTF-16 code units of a sequence of characters.
pub open spec fn utf16_encode(s: Seq<char>) -> Seq<u16>
    decreases s.len(),
{
    if s.len() == 0 {
        Seq::empty()
    } else {
        utf16_encode(s.drop_last()) + utf16_units(s.last())
    }
}

/// No code unit is the terminating zero.
pub open spec fn no_zero_units(s: Seq<u16>) -> bool {
    forall|i: int| 0 <= i < s.len() ==> #[trigger] s[i] != 0
}

/// The bytes of a string: each unit big-endian, then a zero unit.
pub open spec fn enc_wide(s: Seq<u16>) -> Seq<u8> {
    enc_seq::<u16>(s) + be16(0)
}

/// Reads units until the zero unit, giving the units before it and the position after it.
pub open spec fn parse_wide(b: Seq<u8>, p: int) -> Option<(Seq<u16>, int)>
    decreases b.len() - p,
{
    if !in_bounds(b, p, 2) {
        None
    } else if u16_at(b, p) == 0 {
        Some((Seq::empty(), p + 2))
    } else {
        match parse_wide(b, p + 2) {
            Some((s, q)) => Some((seq![u16_at(b, p)] + s, q)),
            None => None,
        }
    }
}

proof fn lemma_enc_seq_cons(u: u16, s: Seq<u16>)
    ensures
        enc_seq::<u16>(seq![u] + s) == be16(u) + enc_seq::<u16>(s),
    decreases s.len(),
{
    if s.len() == 0 {
        let t = seq![u] + s;
        assert(t.drop_last() =~= Seq::<u16>::empty());
        assert(t.last() == u);
        assert(enc_seq::<u16>(t.drop_last()) == Seq::<u8>::empty());
        assert(enc_seq::<u16>(t) == enc_seq::<u16>(t.drop_last()) + <u16 as Codec>::enc(t.last()));
        assert(enc_seq::<u16>(t) =~= be16(u) + enc_seq::<u16>(s));
    } else {
        lemma_enc_seq_cons(u, s.drop_last());
        assert((seq![u] + s).drop_last() =~= seq![u] + s.drop_last());
        assert((seq![u] + s).last() == s.last());
        assert(enc_seq::<u16>(seq![u] + s) =~= be16(u) + enc_seq::<u16>(s));
    }
}

/// Reading the bytes of a string without zero units gives the string back.
pub proof fn lemma_wide_roundtrip(s: Seq<u16>, b: Seq<u8>, p: int)
    requires
        no_zero_units(s),
        matches_at(b, p, enc_wide(s)),
    ensures
        parse_wide(b, p) == Some((s, p + enc_wide(s).len())),
    decreases s.len(),
{
    broadcast use group_decode;

    if s.len() == 0 {
        assert(enc_seq::<u16>(s) =~= Seq::<u8>::empty());
        assert(matches_at(b, p, Seq::<u8>::empty() + be16(0)));
    } else {
        let t = s.drop_first();
        assert(seq![s[0]] + t =~= s);
        lemma_enc_seq_cons(s[0], t);
        assert(enc_wide(s) =~= be16(s[0]) + enc_wide(t));
        assert(matches_at(b, p, be16(s[0]) + enc_wide(t)));
        assert(no_zero_units(t)) by {
            assert forall|i: int| 0 <= i < t.len() implies #[trigger] t[i] != 0 by {
                assert(t[i] == s[i + 1]);
            }
        }
        assert(s[0] != 0);
        lemma_wide_roundtrip(t, b, p + 2);
    }
}

/// A string read from bytes has no zero units and ends after its terminator.
pub proof fn lemma_parse_wide_wf(b: Seq<u8>, p: int)
    ensures
        parse_wide(b, p) matches Some((s, q)) ==> no_zero_units(s) && q == p + 2 * s.len() + 2
            && q <= b.len(),
    decreases b.len() - p,
{
    if in_bounds(b, p, 2) && u16_at(b, p) != 0 {
        lemma_parse_wide_wf(b, p + 2);
        if let Some((s, q)) = parse_wide(b, p + 2) {
            let t = seq![u16_at(b, p)] + s;
            assert forall|i: int| 0 <= i < t.len() implies #[trigger] t[i] != 0 by {
                if i > 0 {
                    assert(t[i] == s[i - 1]);
                }
            }
        }
    }
}

/// Reads units until the zero unit.
pub fn read_wide(b: &[u8], p: usize) -> (r: Option<(Vec<u16>, usize)>)
    ensures
        match parse_wide(b@, p as int) {
            Some((s, q)) => r matches Some((v, e)) && v@ == s && e as int == q,
            None => r is None,
        },
{
    let mut units: Vec<u16> = Vec::new();
    let mut pos = p;
    loop
        invariant
            p <= pos,
            parse_wide(b@, p as int) == match parse_wide(b@, pos as int) {
                Some((s, q)) => Some((units@ + s, q)),
                None => None,
            },
        decreases b.len() - pos,
    {
        if pos >= b.len() || b.len() - pos < 2 {
            return None;
        }
        let u = get_u16(b, pos);
        if u == 0 {
            assert(units@ + Seq::<u16>::empty() =~= units@);
            return Some((units, pos + 2));
        }
        proof {
            let ghost old_units = units@;
            if let Some((s, q)) = parse_wide(b@, pos + 2) {
                assert(old_units + (seq![u] + s) =~= old_units.push(u) + s);
            }
        }
        units.push(u);
        pos = pos + 2;
    }
}

/// Appends the units and the terminating zero unit.
pub fn write_wide(s: &Vec<u16>, out: &mut Vec<u8>)
    ensures
        final(out)@ == old(out)@ + enc_wide(s@),
{
    write_vec(s, out);
    assert(seq_view(s@) =~= s@);
    push_u16(out, 0);
    assert(out@ =~= old(out)@ + enc_wide(s@));
}

impl NullWideString {
    /// Number of code units (without the terminator).
    pub fn len(&self) -> (r: usize)
        ensures
            r == self@.len(),
    {
        self.0.len()
    }

    /// The string has no code units.
    pub fn is_empty(&self) -> (r: bool)
        ensures
            r == (self@.len() == 0),
    {
        self.0.len() == 0
    }

    /// Encodes a string as UTF-16 code units.
    pub fn from_str(s: &str) -> (r: NullWideString)
        ensures
            r@ == utf16_encode(s@),
    {
        let mut units: Vec<u16> = Vec::new();
        for c in it: s.chars()
            invariant
                it.seq() == s@,
                units@ == utf16_encode(s@.take(it.index() as int)),
        {
            proof {
                let next = s@.take(it.index() + 1);
                assert(next.drop_last() =~= s@.take(it.index() as int));
                assert(next.last() == c);
            }
            let v = c as u32;
            if v < 0x1_0000 {
                units.push(v as u16);
            } else {
                let w = v - 0x1_0000;
                units.push((0xD800 + w / 0x400) as u16);
                units.push((0xDC00 + w % 0x400) as u16);
            }
        }
        assert(s@.take(s@.len() as int) =~= s@);
        NullWideString(units)
    }
}

} // verus!
