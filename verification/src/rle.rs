//! Streaming run-length decompression of bitstream chunks.
//!
//! The compressed stream is a sequence of tokens. A control byte below 0x80
//! announces a literal span: the following `control + 1` input bytes pass
//! through unchanged. A control byte of 0x80 or above announces a run: the
//! following single input byte is repeated `(control & 0x7f) + 3` times.
//!
//! The decompressor carries its partial decode context across input chunks:
//! a chunk may end anywhere, including between a run's control byte and its
//! repeated byte, and the next chunk resumes exactly where the last one
//! stopped. Feeding a stream split at an arbitrary boundary therefore yields
//! byte-identical output to feeding it unsplit, which is proved below as
//! `lemma_decompress_append`.

use vstd::prelude::*;

verus! {

/// Partial run-length-decode context carried between input chunks.
#[derive(Copy, Clone, Debug, PartialEq, Eq, Structural)]
pub enum Decompressor {
    /// The next input byte is a control byte.
    Ready,
    /// The next `remaining` input bytes pass through unchanged.
    Literal { remaining: u8 },
    /// The next input byte is repeated `length` times.
    RunPending { length: u8 },
}

impl Default for Decompressor {
    /// A fresh decompressor expects a control byte first.
    fn default() -> (r: Decompressor)
        ensures
            r == Decompressor::Ready,
    {
        Decompressor::Ready
    }
}

/// What one input byte does to the decompressor: the successor state and the
/// bytes emitted for it.
pub open spec fn spec_step(s: Decompressor, x: u8) -> (Decompressor, Seq<u8>) {
    match s {
        Decompressor::Ready => if x < 0x80 {
            (Decompressor::Literal { remaining: (x + 1) as u8 }, Seq::<u8>::empty())
        } else {
            (Decompressor::RunPending { length: ((x & 0x7f) + 3) as u8 }, Seq::<u8>::empty())
        },
        Decompressor::Literal { remaining } => if remaining <= 1 {
            (Decompressor::Ready, seq![x])
        } else {
            (Decompressor::Literal { remaining: (remaining - 1) as u8 }, seq![x])
        },
        Decompressor::RunPending { length } => (
            Decompressor::Ready,
            Seq::<u8>::new(length as nat, |i: int| x),
        ),
    }
}

/// What a whole input chunk does to the decompressor: the state it leaves
/// behind and everything emitted along the way.
pub open spec fn spec_decompress(s: Decompressor, input: Seq<u8>) -> (Decompressor, Seq<u8>)
    decreases input.len(),
{
    if input.len() == 0 {
        (s, Seq::<u8>::empty())
    } else {
        let (s1, emitted) = spec_step(s, input[0]);
        let (s2, rest) = spec_decompress(s1, input.skip(1));
        (s2, emitted + rest)
    }
}

/// Law: splitting the compressed stream at any byte boundary and feeding the
/// two halves through separate calls, persisting the decompressor state in
/// between, leaves the same state and emits exactly the bytes of the unsplit
/// stream — even when the split falls inside a run.
pub proof fn lemma_decompress_append(s: Decompressor, a: Seq<u8>, b: Seq<u8>)
    ensures
        spec_decompress(s, a + b).0 == spec_decompress(spec_decompress(s, a).0, b).0,
        spec_decompress(s, a + b).1 == spec_decompress(s, a).1 + spec_decompress(
            spec_decompress(s, a).0,
            b,
        ).1,
    decreases a.len(),
{
    if a.len() == 0 {
        assert(a + b =~= b);
        assert(spec_decompress(s, a).1 + spec_decompress(spec_decompress(s, a).0, b).1
            =~= spec_decompress(s, b).1);
    } else {
        let x = a[0];
        let (s1, emitted) = spec_step(s, x);
        assert((a + b).len() > 0 && (a + b)[0] == x);
        assert((a + b).skip(1) =~= a.skip(1) + b);
        lemma_decompress_append(s1, a.skip(1), b);
        let p = spec_decompress(s1, a.skip(1)).1;
        let q = spec_decompress(spec_decompress(s1, a.skip(1)).0, b).1;
        assert(emitted + (p + q) =~= (emitted + p) + q);
    }
}

proof fn lemma_decompress_one(s: Decompressor, x: u8)
    ensures
        spec_decompress(s, seq![x]).0 == spec_step(s, x).0,
        spec_decompress(s, seq![x]).1 == spec_step(s, x).1,
{
    let t = seq![x];
    assert(t.len() == 1 && t[0] == x);
    assert(t.skip(1) =~= Seq::<u8>::empty());
    let (s1, emitted) = spec_step(s, x);
    assert(spec_decompress(s1, t.skip(1)) == (s1, Seq::<u8>::empty()));
    assert(spec_decompress(s, t).1 =~= emitted);
}

/// Decompress one input chunk completely, updating the carried context and
/// returning every byte it emits.
#[verifier::loop_isolation(false)]
pub fn decompress(state: &mut Decompressor, input: &[u8]) -> (out: Vec<u8>)
    ensures
        *final(state) == spec_decompress(*old(state), input@).0,
        out@ == spec_decompress(*old(state), input@).1,
{
    let ghost s0 = *state;
    let mut out: Vec<u8> = Vec::new();
    let mut i: usize = 0;
    while i < input.len()
        invariant
            i <= input@.len(),
            *state == spec_decompress(s0, input@.take(i as int)).0,
            out@ == spec_decompress(s0, input@.take(i as int)).1,
        decreases input@.len() - i,
    {
        let x = input[i];
        let ghost pre_state = *state;
        let ghost pre_out = out@;
        match *state {
            Decompressor::Ready => {
                if x < 0x80 {
                    *state = Decompressor::Literal { remaining: x + 1 };
                } else {
                    assert((x & 0x7f) < 0x80) by (bit_vector);
                    *state = Decompressor::RunPending { length: (x & 0x7f) + 3 };
                }
            },
            Decompressor::Literal { remaining } => {
                out.push(x);
                if remaining <= 1 {
                    *state = Decompressor::Ready;
                } else {
                    *state = Decompressor::Literal { remaining: remaining - 1 };
                }
            },
            Decompressor::RunPending { length } => {
                let mut j: u8 = 0;
                while j < length
                    invariant
                        j <= length,
                        *state == pre_state,
                        out@ == pre_out + Seq::<u8>::new(j as nat, |k: int| x),
                    decreases length - j,
                {
                    out.push(x);
                    assert(pre_out + Seq::<u8>::new((j + 1) as nat, |k: int| x) =~= (pre_out
                        + Seq::<u8>::new(j as nat, |k: int| x)).push(x));
                    j = j + 1;
                }
                *state = Decompressor::Ready;
            },
        }
        proof {
            assert(*state == spec_step(pre_state, x).0 && out@ =~= pre_out + spec_step(
                pre_state,
                x,
            ).1);
            assert(input@.take(i + 1) =~= input@.take(i as int) + seq![x]);
            lemma_decompress_append(s0, input@.take(i as int), seq![x]);
            lemma_decompress_one(pre_state, x);
        }
        i = i + 1;
    }
    proof {
        assert(input@.take(i as int) =~= input@);
    }
    out
}

} // verus!
