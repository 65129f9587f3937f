//! Translation of compiler diagnostics for the front end.
//!
//! A failed compile yields diagnostics anchored at byte ranges in their
//! source files. The front end wants only those anchored in the main
//! document, with ranges given as character counts. The translation filters
//! and converts; severity, message and hints are kept.

use vstd::prelude::*;
use crate::text::{char_count, count_chars_range, lemma_char_count_le_len, lemma_char_count_add};

verus! {

#[derive(Clone, Copy, Debug, PartialEq, Eq, Structural)]
pub enum TypstDiagnosticSeverity {
    Error,
    Warning,
}

/// A diagnostic as the front end receives it: a character-count range into
/// the main document, severity, message and hints.
#[derive(Debug)]
pub struct TypstDiagnostic {
    pub range_start: usize,
    pub range_end: usize,
    pub severity: TypstDiagnosticSeverity,
    pub message: String,
    pub hints: Vec<String>,
}

/// A diagnostic as the compiler reports it: anchored in the file named by
/// `source` (its canonical identifier path; `None` when the span resolves
/// to no file), with a byte range into that file's content.
#[derive(Debug)]
pub struct RawDiagnostic {
    pub source: Option<Vec<u8>>,
    pub start: usize,
    pub end: usize,
    pub severity: TypstDiagnosticSeverity,
    pub message: String,
    pub hints: Vec<String>,
}

/// Whether a raw diagnostic survives the translation: it is anchored in the
/// main document and its byte range lies within the current content. (The
/// compiler never reports a span outside the source it names.)
pub open spec fn spec_keep(content: Seq<u8>, main: Seq<u8>, d: RawDiagnostic) -> bool {
    &&& d.source is Some
    &&& d.source.unwrap()@ == main
    &&& d.start <= d.end <= content.len()
}

/// The translation of one kept diagnostic: the byte range becomes the range
/// of character counts covering the same text.
pub open spec fn spec_translate_one(content: Seq<u8>, d: RawDiagnostic) -> TypstDiagnostic {
    TypstDiagnostic {
        range_start: char_count(content.take(d.start as int)) as usize,
        range_end: (char_count(content.take(d.start as int)) + char_count(
            content.subrange(d.start as int, d.end as int),
        )) as usize,
        severity: d.severity,
        message: d.message,
        hints: d.hints,
    }
}

/// The translation of a diagnostic list: kept diagnostics translated, in
/// order; the rest dropped.
pub open spec fn spec_translate(content: Seq<u8>, main: Seq<u8>, ds: Seq<RawDiagnostic>) -> Seq<
    TypstDiagnostic,
>
    decreases ds.len(),
{
    if ds.len() == 0 {
        Seq::empty()
    } else {
        let rest = spec_translate(content, main, ds.drop_last());
        if spec_keep(content, main, ds.last()) {
            rest.push(spec_translate_one(content, ds.last()))
        } else {
            rest
        }
    }
}

/// Translates the diagnostics of a failed compile of `content` (the main
/// document's text) for the front end: keeps those anchored in the main
/// document — `main` is its canonical identifier path — maps their byte
/// ranges to character-count ranges, and keeps severity, message and hints.
pub fn translate_diagnostics(content: &Vec<u8>, main: &Vec<u8>, raw: Vec<RawDiagnostic>) -> (r:
    Vec<TypstDiagnostic>)
    ensures
        r@ == spec_translate(content@, main@, raw@),
{
    let ghost orig = raw@;
    let mut raw = raw;
    let n = raw.len();
    let mut out: Vec<TypstDiagnostic> = Vec::new();
    let mut i: usize = 0;
    while i < n
        invariant
            0 <= i <= n == orig.len(),
            raw@ =~= orig.skip(i as int),
            out@ =~= spec_translate(content@, main@, orig.take(i as int)),
        decreases n - i,
    {
        let d = raw.remove(0);
        proof {
            assert(d == orig[i as int]);
            assert(raw@ =~= orig.skip(i + 1));
            assert(orig.take(i + 1).drop_last() =~= orig.take(i as int));
            assert(orig.take(i + 1).last() == orig[i as int]);
        }
        let RawDiagnostic { source, start, end, severity, message, hints } = d;
        let keep = match &source {
            Some(src) => {
                let same = *src == *main;
                proof {
                    if same {
                        assert(src@ =~= main@);
                    }
                    if !same && src@ == main@ {
                        assert(src@.len() == main@.len());
                        assert(forall|t: int| 0 <= t < src@.len() ==> src@[t] == main@[t]);
                    }
                }
                same && start <= end && end <= content.len()
            },
            None => false,
        };
        proof {
            assert(keep == spec_keep(content@, main@, orig[i as int]));
        }
        if keep {
            let range_start = count_chars_range(content, 0, start);
            let size = count_chars_range(content, start, end);
            proof {
                assert(content@.subrange(0, start as int) =~= content@.take(start as int));
                lemma_char_count_le_len(content@.take(start as int));
                lemma_char_count_le_len(content@.subrange(start as int, end as int));
            }
            let translated = TypstDiagnostic {
                range_start,
                range_end: range_start + size,
                severity,
                message,
                hints,
            };
            proof {
                assert(translated == spec_translate_one(content@, orig[i as int]));
            }
            out.push(translated);
        }
        proof {
            assert(out@ =~= spec_translate(content@, main@, orig.take(i + 1)));
        }
        i = i + 1;
    }
    proof {
        assert(orig.take(n as int) =~= orig);
    }
    out
}

/// The translated range of a kept diagnostic covers exactly the characters
/// of its byte range: it starts at the character count of the text before
/// the span and ends at the character count of the text through the span.
pub proof fn lemma_translated_range(content: Seq<u8>, d: RawDiagnostic)
    requires
        d.start <= d.end <= content.len() <= usize::MAX,
    ensures
        spec_translate_one(content, d).range_start == char_count(content.take(d.start as int)),
        spec_translate_one(content, d).range_end == char_count(content.take(d.end as int)),
{
    lemma_char_count_le_len(content.take(d.start as int));
    lemma_char_count_le_len(content.subrange(d.start as int, d.end as int));
    assert(content.take(d.end as int) =~= content.take(d.start as int) + content.subrange(
        d.start as int,
        d.end as int,
    ));
    lemma_char_count_add(
        content.take(d.start as int),
        content.subrange(d.start as int, d.end as int),
    );
}

} // verus!
