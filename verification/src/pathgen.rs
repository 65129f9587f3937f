//! Generated file names: numbered alternatives for a taken path, and
//! timestamped names for pasted images.
//!
//! Probing the disk for existing files stays with the caller; the names
//! themselves — decimal numbering and zero-padded date fields — are exact.

use vstd::prelude::*;
use vstd::arithmetic::div_mod::lemma_fundamental_div_mod;
use crate::timestamp::Timestamp;

verus! {

/// The decimal digits of `n`, most significant first, no leading zeros.
pub open spec fn spec_digits(n: nat) -> Seq<u8>
    decreases n,
{
    if n < 10 {
        seq![(48 + n) as u8]
    } else {
        spec_digits(n / 10).push((48 + n % 10) as u8)
    }
}

/// Appends the decimal digits of `n`.
fn push_decimal(n: u64, out: &mut Vec<u8>)
    ensures
        final(out)@ == old(out)@ + spec_digits(n as nat),
    decreases n,
{
    if n < 10 {
        out.push(48 + n as u8);
        proof {
            assert(out@ =~= old(out)@ + spec_digits(n as nat));
        }
    } else {
        proof {
            assert(n / 10 < n) by {
                lemma_fundamental_div_mod(n as int, 10);
            }
        }
        push_decimal(n / 10, out);
        out.push(48 + (n % 10) as u8);
        proof {
            assert(out@ =~= old(out)@ + spec_digits(n as nat));
        }
    }
}

/// Appends all of `src`.
fn push_bytes(src: &Vec<u8>, out: &mut Vec<u8>)
    ensures
        final(out)@ == old(out)@ + src@,
{
    let n = src.len();
    let mut i: usize = 0;
    while i < n
        invariant
            0 <= i <= n == src@.len(),
            out@ =~= old(out)@ + src@.take(i as int),
        decreases n - i,
    {
        out.push(src[i]);
        proof {
            assert(out@ =~= old(out)@ + src@.take(i + 1));
        }
        i = i + 1;
    }
    proof {
        assert(src@.take(n as int) =~= src@);
    }
}

/// The numbered alternative of a taken file name: the stem, a dash, the
/// attempt number, and the original extension if there was one.
pub open spec fn spec_candidate_name(stem: Seq<u8>, ext: Option<Seq<u8>>, n: nat) -> Seq<u8> {
    stem + seq![45u8] + spec_digits(n) + (match ext {
        Some(e) => seq![46u8] + e,
        None => Seq::<u8>::empty(),
    })
}

/// Builds the `n`-th alternative name for a taken path: `stem-n` with the
/// extension `ext` (without its dot) appended when there is one. The caller
/// probes the disk and counts `n` up until the name is free.
pub fn candidate_file_name(stem: &Vec<u8>, ext: Option<&Vec<u8>>, n: u64) -> (r: Vec<u8>)
    ensures
        r@ == spec_candidate_name(
            stem@,
            match ext {
                Some(e) => Some(e@),
                None => None,
            },
            n as nat,
        ),
{
    let mut out: Vec<u8> = Vec::new();
    push_bytes(stem, &mut out);
    out.push(45);
    push_decimal(n, &mut out);
    match ext {
        Some(e) => {
            out.push(46);
            push_bytes(e, &mut out);
            proof {
                assert(out@ =~= spec_candidate_name(stem@, Some(e@), n as nat));
            }
        },
        None => {
            proof {
                assert(out@ =~= spec_candidate_name(stem@, None, n as nat));
            }
        },
    }
    out
}

/// `n` as two decimal digits, zero padded.
pub open spec fn spec_pad2(n: nat) -> Seq<u8> {
    seq![(48 + (n / 10) % 10) as u8, (48 + n % 10) as u8]
}

/// Appends `n` as two decimal digits, zero padded.
fn push_pad2(n: u8, out: &mut Vec<u8>)
    requires
        n < 100,
    ensures
        final(out)@ == old(out)@ + spec_pad2(n as nat),
{
    out.push(48 + (n / 10) % 10);
    out.push(48 + n % 10);
    proof {
        assert(out@ =~= old(out)@ + spec_pad2(n as nat));
    }
}

/// The year as decimal digits, zero padded to at least four.
pub open spec fn spec_year_digits(y: nat) -> Seq<u8> {
    if y > 9999 {
        spec_digits(y)
    } else {
        seq![
            (48 + (y / 1000) % 10) as u8,
            (48 + (y / 100) % 10) as u8,
            (48 + (y / 10) % 10) as u8,
            (48 + y % 10) as u8,
        ]
    }
}

/// The file name a pasted image is stored under: the timestamp, formatted
/// `YYYY-MM-DD HH:MM:SS.png`.
pub open spec fn spec_image_file_name(t: Timestamp) -> Seq<u8> {
    spec_year_digits(t.year as nat) + seq![45u8] + spec_pad2(t.month as nat) + seq![45u8]
        + spec_pad2(t.day as nat) + seq![32u8] + spec_pad2(t.hour as nat) + seq![58u8] + spec_pad2(
        t.minute as nat,
    ) + seq![58u8] + spec_pad2(t.second as nat) + seq![46u8, 112u8, 110u8, 103u8]
}

/// Builds the file name a pasted image is stored under.
pub fn image_file_name(t: &Timestamp) -> (r: Vec<u8>)
    requires
        t.wf(),
    ensures
        r@ == spec_image_file_name(*t),
{
    let mut out: Vec<u8> = Vec::new();
    if t.year > 9999 {
        push_decimal(t.year as u64, &mut out);
    } else {
        let y = t.year as u64;
        out.push(48 + ((y / 1000) % 10) as u8);
        out.push(48 + ((y / 100) % 10) as u8);
        out.push(48 + ((y / 10) % 10) as u8);
        out.push(48 + (y % 10) as u8);
    }
    proof {
        assert(out@ =~= spec_year_digits(t.year as nat));
    }
    out.push(45);
    push_pad2(t.month, &mut out);
    out.push(45);
    push_pad2(t.day, &mut out);
    out.push(32);
    push_pad2(t.hour, &mut out);
    out.push(58);
    push_pad2(t.minute, &mut out);
    out.push(58);
    push_pad2(t.second, &mut out);
    out.push(46);
    out.push(112);
    out.push(110);
    out.push(103);
    proof {
        assert(out@ =~= spec_image_file_name(*t));
    }
    out
}

} // verus!
