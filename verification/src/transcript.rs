//! The Fiat-Shamir transcript: commitments to trace data and deterministic
//! challenge derivation. Every absorbed value is appended to one byte
//! transcript; a challenge is the digest of everything absorbed so far,
//! reduced to a canonical field element, and is itself absorbed afterwards,
//! so commit-then-challenge ordering is forced by construction.

use vstd::prelude::*;

use sha2::Digest;

use crate::field::{is_canon, FIELD_ORDER};

verus! {

/// The digest the hash backend returns on the given bytes.
pub uninterp spec fn digest_of(input: Seq<u8>) -> Seq<u8>;

/// Relies on sha2::Sha256 (the FIPS 180-4 SHA-256 function): the 32-byte
/// digest depends on the input bytes alone.
#[verifier::external_body]
fn sha256(input: &Vec<u8>) -> (r: Vec<u8>)
    ensures
        r@ == digest_of(input@),
        r@.len() == 32,
{
    sha2::Sha256::digest(input.as_slice()).to_vec()
}

/// The little-endian bytes of one word.
pub open spec fn word_bytes(x: u64) -> Seq<u8> {
    seq![
        (x & 0xff) as u8,
        ((x >> 8) & 0xff) as u8,
        ((x >> 16) & 0xff) as u8,
        ((x >> 24) & 0xff) as u8,
        ((x >> 32) & 0xff) as u8,
        ((x >> 40) & 0xff) as u8,
        ((x >> 48) & 0xff) as u8,
        ((x >> 56) & 0xff) as u8,
    ]
}

/// The word read little-endian from the first eight bytes of `d`.
pub open spec fn word_of_bytes(d: Seq<u8>) -> u64 {
    (d[0] as u64) | ((d[1] as u64) << 8) | ((d[2] as u64) << 16) | ((d[3] as u64) << 24) | (
    (d[4] as u64) << 32) | ((d[5] as u64) << 40) | ((d[6] as u64) << 48) | ((d[7] as u64) << 56)
}

/// The challenge derived from a transcript: the digest's leading word,
/// reduced to the field.
pub open spec fn challenge_of(transcript: Seq<u8>) -> u64 {
    (word_of_bytes(digest_of(transcript)) % FIELD_ORDER) as u64
}

/// Appends the little-endian bytes of `x` to `out`.
fn push_word_bytes(out: &mut Vec<u8>, x: u64)
    ensures
        final (out)@ == old(out)@ + word_bytes(x),
{
    let ghost before = out@;
    out.push((x & 0xff) as u8);
    out.push(((x >> 8) & 0xff) as u8);
    out.push(((x >> 16) & 0xff) as u8);
    out.push(((x >> 24) & 0xff) as u8);
    out.push(((x >> 32) & 0xff) as u8);
    out.push(((x >> 40) & 0xff) as u8);
    out.push(((x >> 48) & 0xff) as u8);
    out.push(((x >> 56) & 0xff) as u8);
    proof {
        assert(out@ =~= before + word_bytes(x));
    }
}

/// The transcript bytes of a word sequence.
pub open spec fn words_bytes(xs: Seq<u64>) -> Seq<u8>
    decreases xs.len(),
{
    if xs.len() == 0 {
        Seq::empty()
    } else {
        words_bytes(xs.drop_last()) + word_bytes(xs.last())
    }
}

/// The commitment to a table: the digest of its rows' transcript bytes.
pub open spec fn commitment_of(t: Seq<Seq<u64>>) -> Seq<u8> {
    digest_of(rows_bytes(t))
}

/// The transcript bytes of a table, row by row.
pub open spec fn rows_bytes(t: Seq<Seq<u64>>) -> Seq<u8>
    decreases t.len(),
{
    if t.len() == 0 {
        Seq::empty()
    } else {
        rows_bytes(t.drop_last()) + words_bytes(t.last())
    }
}

/// Appends the transcript bytes of all words in `xs` to `out`.
fn push_words_bytes(out: &mut Vec<u8>, xs: &Vec<u64>)
    ensures
        final (out)@ == old(out)@ + words_bytes(xs@),
{
    let mut k: usize = 0;
    proof {
        assert(out@ =~= out@ + words_bytes(xs@.take(0int)));
    }
    while k < xs.len()
        invariant
            k <= xs@.len(),
            out@ == old(out)@ + words_bytes(xs@.take(k as int)),
        decreases xs@.len() - k,
    {
        proof {
            assert(xs@.take(k + 1).drop_last() =~= xs@.take(k as int));
            assert(xs@.take(k + 1).last() == xs@[k as int]);
        }
        push_word_bytes(out, xs[k]);
        k = k + 1;
    }
    proof {
        assert(xs@.take(xs@.len() as int) =~= xs@);
    }
}

/// Commits to a table: hashes its rows' transcript bytes.
pub fn commit_rows(t: &Vec<Vec<u64>>) -> (r: Vec<u8>)
    ensures
        r@ == commitment_of(t.deep_view()),
        r@.len() == 32,
{
    let mut bytes: Vec<u8> = Vec::new();
    let mut k: usize = 0;
    proof {
        assert(bytes@ =~= rows_bytes(t.deep_view().take(0int)));
    }
    while k < t.len()
        invariant
            k <= t@.len(),
            t.deep_view().len() == t@.len(),
            bytes@ == rows_bytes(t.deep_view().take(k as int)),
        decreases t@.len() - k,
    {
        proof {
            assert(t.deep_view().take(k + 1).drop_last() =~= t.deep_view().take(k as int));
            assert(t.deep_view().take(k + 1).last() == t.deep_view()[k as int]);
            assert(t.deep_view()[k as int] =~= t@[k as int]@);
        }
        push_words_bytes(&mut bytes, &t[k]);
        k = k + 1;
    }
    proof {
        assert(t.deep_view().take(t@.len() as int) =~= t.deep_view());
    }
    sha256(&bytes)
}

/// The single Fiat-Shamir challenger. Its state is the full byte transcript
/// of everything observed and sampled so far.
pub struct Challenger {
    transcript: Vec<u8>,
}

impl Challenger {
    /// The bytes absorbed so far.
    pub closed spec fn absorbed(self) -> Seq<u8> {
        self.transcript@
    }

    /// A fresh transcript.
    pub fn new() -> (r: Challenger)
        ensures
            r.absorbed() == Seq::<u8>::empty(),
    {
        let v: Vec<u8> = Vec::new();
        proof {
            assert(v@ =~= Seq::<u8>::empty());
        }
        Challenger { transcript: v }
    }

    /// Absorbs one word.
    pub fn observe_word(&mut self, x: u64)
        ensures
            final (self).absorbed() == old(self).absorbed() + word_bytes(x),
    {
        push_word_bytes(&mut self.transcript, x);
    }

    /// Absorbs a word sequence.
    pub fn observe_words(&mut self, xs: &Vec<u64>)
        ensures
            final (self).absorbed() == old(self).absorbed() + words_bytes(xs@),
    {
        push_words_bytes(&mut self.transcript, xs);
    }

    /// Absorbs a commitment.
    pub fn observe_commitment(&mut self, c: &Vec<u8>)
        ensures
            final (self).absorbed() == old(self).absorbed() + c@,
    {
        let mut k: usize = 0;
        proof {
            assert(self.transcript@ =~= self.transcript@ + c@.take(0int));
        }
        while k < c.len()
            invariant
                k <= c@.len(),
                self.transcript@ == old(self).transcript@ + c@.take(k as int),
            decreases c@.len() - k,
        {
            proof {
                assert((old(self).transcript@ + c@.take(k as int)).push(c@[k as int]) =~= old(
                    self,
                ).transcript@ + c@.take(k + 1));
            }
            self.transcript.push(c[k]);
            k = k + 1;
        }
        proof {
            assert(c@.take(c@.len() as int) =~= c@);
        }
    }

    /// Samples one challenge: the digest of the transcript so far, reduced
    /// to the field; the challenge is then absorbed in turn.
    pub fn sample(&mut self) -> (r: u64)
        ensures
            r == challenge_of(old(self).absorbed()),
            final (self).absorbed() == old(self).absorbed() + word_bytes(challenge_of(
                old(self).absorbed(),
            )),
            is_canon(r),
    {
        let d = sha256(&self.transcript);
        let w: u64 = (d[0] as u64) | ((d[1] as u64) << 8) | ((d[2] as u64) << 16) | ((d[3] as u64)
            << 24) | ((d[4] as u64) << 32) | ((d[5] as u64) << 40) | ((d[6] as u64) << 48) | ((d[7]
            as u64) << 56);
        let r = w % FIELD_ORDER;
        push_word_bytes(&mut self.transcript, r);
        r
    }
}

} // verus!
