//! Diagnostics: the error value a failed token produces, and the
//! rendering of one diagnostic line.

use vstd::prelude::*;
use crate::decode::{dec_repr, push_dec};
use crate::token::Span;

verus! {

/// Why a stretch of input failed to become a token.
#[derive(Clone, Copy, Debug, PartialEq, Eq, Structural)]
pub enum ErrorReason {
    /// A matched integer literal does not fit the target word.
    InvalidIntLiteral,
    /// No rule matches here, or two tokens stand glued together that
    /// need a separator between them.
    UnknownToken,
}

/// A non-fatal scan diagnostic: the offending byte span, the line it was
/// noticed on, and the reason.
#[derive(Clone, Copy, Debug, PartialEq, Eq, Structural)]
pub struct LexError {
    pub line: usize,
    pub span: Span,
    pub reason: ErrorReason,
}

/// Mathematical view of one diagnostic.
pub struct ErrV {
    pub line: int,
    pub start: int,
    pub end: int,
    pub reason: ErrorReason,
}

impl View for LexError {
    type V = ErrV;

    open spec fn view(&self) -> ErrV {
        ErrV {
            line: self.line as int,
            start: self.span.start as int,
            end: self.span.end as int,
            reason: self.reason,
        }
    }
}

/// The short text that names a reason: `invalid integer literal` or
/// `unknown token`, as bytes.
pub open spec fn reason_bytes(r: ErrorReason) -> Seq<u8> {
    match r {
        ErrorReason::InvalidIntLiteral => seq![
            105u8,
            110,
            118,
            97,
            108,
            105,
            100,
            32,
            105,
            110,
            116,
            101,
            103,
            101,
            114,
            32,
            108,
            105,
            116,
            101,
            114,
            97,
            108,
        ],
        ErrorReason::UnknownToken => seq![
            117u8,
            110,
            107,
            110,
            111,
            119,
            110,
            32,
            116,
            111,
            107,
            101,
            110,
        ],
    }
}

/// One diagnostic line: the source name, the line number, the reason and
/// the offending text, laid out as `name:line: reason 'text'`.
pub open spec fn diag_bytes(
    path: Seq<u8>,
    line: int,
    reason: ErrorReason,
    excerpt: Seq<u8>,
) -> Seq<u8> {
    path + seq![58u8] + dec_repr(line) + seq![58u8, 32u8] + reason_bytes(reason) + seq![
        32u8,
        39u8,
    ] + excerpt + seq![39u8]
}

/// Appends a whole slice to a byte vector.
pub fn push_bytes(out: &mut Vec<u8>, s: &[u8])
    ensures
        final(out)@ == old(out)@ + s@,
{
    let mut j: usize = 0;
    proof {
        assert(out@ =~= old(out)@ + s@.subrange(0, 0));
    }
    while j < s.len()
        invariant
            j <= s@.len(),
            out@ == old(out)@ + s@.subrange(0, j as int),
        decreases s@.len() - j,
    {
        out.push(s[j]);
        proof {
            assert(old(out)@ + s@.subrange(0, j as int + 1) =~= (old(out)@ + s@.subrange(
                0,
                j as int,
            )).push(s@[j as int]));
        }
        j = j + 1;
    }
    proof {
        assert(s@.subrange(0, s@.len() as int) =~= s@);
    }
}

/// Appends the text that names a reason.
fn push_reason(out: &mut Vec<u8>, r: ErrorReason)
    ensures
        final(out)@ == old(out)@ + reason_bytes(r),
{
    match r {
        ErrorReason::InvalidIntLiteral => {
            out.push(105);
            out.push(110);
            out.push(118);
            out.push(97);
            out.push(108);
            out.push(105);
            out.push(100);
            out.push(32);
            out.push(105);
            out.push(110);
            out.push(116);
            out.push(101);
            out.push(103);
            out.push(101);
            out.push(114);
            out.push(32);
            out.push(108);
            out.push(105);
            out.push(116);
            out.push(101);
            out.push(114);
            out.push(97);
            out.push(108);
            proof {
                assert(out@ =~= old(out)@ + reason_bytes(r));
            }
        },
        ErrorReason::UnknownToken => {
            out.push(117);
            out.push(110);
            out.push(107);
            out.push(110);
            out.push(111);
            out.push(119);
            out.push(110);
            out.push(32);
            out.push(116);
            out.push(111);
            out.push(107);
            out.push(101);
            out.push(110);
            proof {
                assert(out@ =~= old(out)@ + reason_bytes(r));
            }
        },
    }
}

impl LexError {
    /// Renders the single diagnostic line for this error: the source
    /// name, the 1-based line, the reason, and the offending source
    /// text, as `name:line: reason 'text'` in bytes.
    pub fn render(&self, src: &[u8], path: &[u8]) -> (out: Vec<u8>)
        requires
            self.span.start <= self.span.end <= src@.len(),
        ensures
            out@ == diag_bytes(
                path@,
                self.line as int,
                self.reason,
                src@.subrange(self.span.start as int, self.span.end as int),
            ),
    {
        let mut out: Vec<u8> = Vec::new();
        push_bytes(&mut out, path);
        out.push(58);
        push_dec(&mut out, self.line as u64);
        out.push(58);
        out.push(32);
        push_reason(&mut out, self.reason);
        out.push(32);
        out.push(39);
        let excerpt = vstd::slice::slice_subrange(src, self.span.start, self.span.end);
        push_bytes(&mut out, excerpt);
        out.push(39);
        proof {
            assert(out@ =~= diag_bytes(
                path@,
                self.line as int,
                self.reason,
                src@.subrange(self.span.start as int, self.span.end as int),
            ));
        }
        out
    }
}

} // verus!
