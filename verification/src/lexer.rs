//! The lexer: longest-match scanning with line tracking and adjacency
//! validation, specified by a step function over a mathematical scan
//! state and proved against it.

use vstd::prelude::*;
use crate::decode::{decode_int, int_value, strip_bs, strip_backslashes, copy_range};
use crate::errors::{ErrV, ErrorReason, LexError};
use crate::rules::{
    best_match, is_break_byte, is_ws, lemma_best_match, break_byte, ws_byte, match_at,
};
use crate::token::{
    is_separator_kind, is_unit_kind, unit_token, PayloadV, Span, TokV, Token, TokenEnum, TokenKind,
};

verus! {

/// The mutable scanning state the lexer threads through a scan: current
/// byte offset, 1-based line counter, offset of the start of the current
/// line, the two adjacency-tracking fields, and a token already
/// recognized but not yet handed out.
pub struct StateV {
    pub src: Seq<u8>,
    pub pos: int,
    pub line: int,
    pub line_start: int,
    pub prev_sep: bool,
    pub prev_start: int,
    pub pending: Option<TokV>,
}

/// What one pull from the lexer produces.
pub enum OutV {
    /// The input is exhausted.
    Finished,
    /// A token was recognized.
    Lexed(TokV),
    /// A diagnostic was produced; the scan goes on.
    Failed(ErrV),
}

/// One step of the lexer: the state after the pull and what it produced.
pub struct StepV {
    pub st: StateV,
    pub out: OutV,
}

/// Everything a whole scan produces, in order: the recognized tokens and
/// the diagnostics.
pub struct RunV {
    pub toks: Seq<TokV>,
    pub errs: Seq<ErrV>,
}

/// The state of a fresh lexer over `src`: offset 0, line 1, and the
/// previous token counted as a separator so that the first token never
/// raises an adjacency error.
pub open spec fn init_state(src: Seq<u8>) -> StateV {
    StateV {
        src,
        pos: 0,
        line: 1,
        line_start: 0,
        prev_sep: true,
        prev_start: 0,
        pending: None,
    }
}

/// Well-formedness of a scan state: the cursor lies in the buffer, the
/// line counter starts at one and can have grown at most one per byte,
/// and the bookkeeping offsets do not run ahead of the cursor.
pub open spec fn st_wf(st: StateV) -> bool {
    &&& 0 <= st.pos <= st.src.len()
    &&& st.src.len() < usize::MAX
    &&& 1 <= st.line <= st.pos + 1
    &&& 0 <= st.line_start <= st.pos
    &&& 0 <= st.prev_start <= st.pos
    &&& match st.pending {
        Some(t) => 0 <= t.start < t.end <= st.src.len(),
        None => true,
    }
}

/// Consumes whitespace and line terminators in front of the cursor.
/// Every line terminator raises the line counter by one and records the
/// offset just past itself as the new line start; a `\r\n` pair counts
/// once. Blank stretches count as separators for adjacency tracking.
pub open spec fn skip_spec(st: StateV) -> StateV
    decreases st.src.len() - st.pos,
{
    if 0 <= st.pos < st.src.len() {
        let b = st.src[st.pos];
        if is_ws(b) {
            skip_spec(
                StateV { pos: st.pos + 1, prev_sep: true, prev_start: st.pos, ..st },
            )
        } else if b == 13 && st.pos + 1 < st.src.len() && st.src[st.pos + 1] == 10 {
            skip_spec(
                StateV {
                    pos: st.pos + 2,
                    line: st.line + 1,
                    line_start: st.pos + 2,
                    prev_sep: true,
                    prev_start: st.pos,
                    ..st
                },
            )
        } else if is_break_byte(b) {
            skip_spec(
                StateV {
                    pos: st.pos + 1,
                    line: st.line + 1,
                    line_start: st.pos + 1,
                    prev_sep: true,
                    prev_start: st.pos,
                    ..st
                },
            )
        } else {
            st
        }
    } else {
        st
    }
}

/// Skipping blanks only moves the cursor forward and the line counter
/// up; it touches nothing else.
pub proof fn lemma_skip(st: StateV)
    ensures
        skip_spec(st).src == st.src,
        skip_spec(st).pending == st.pending,
        st.pos <= skip_spec(st).pos,
        st.line <= skip_spec(st).line,
        st.pos <= st.src.len() ==> skip_spec(st).pos <= st.src.len(),
        st_wf(st) ==> st_wf(skip_spec(st)),
    decreases st.src.len() - st.pos,
{
    if 0 <= st.pos < st.src.len() {
        let b = st.src[st.pos];
        if is_ws(b) {
            lemma_skip(StateV { pos: st.pos + 1, prev_sep: true, prev_start: st.pos, ..st });
        } else if b == 13 && st.pos + 1 < st.src.len() && st.src[st.pos + 1] == 10 {
            lemma_skip(
                StateV {
                    pos: st.pos + 2,
                    line: st.line + 1,
                    line_start: st.pos + 2,
                    prev_sep: true,
                    prev_start: st.pos,
                    ..st
                },
            );
        } else if is_break_byte(b) {
            lemma_skip(
                StateV {
                    pos: st.pos + 1,
                    line: st.line + 1,
                    line_start: st.pos + 1,
                    prev_sep: true,
                    prev_start: st.pos,
                    ..st
                },
            );
        }
    }
}

/// The decoded payload a token of kind `k` matched at `s[start .. end]`
/// carries: raw text for comments, names and float literals; the quoted
/// region without its trailing delimiter and with backslashes removed
/// for strings; the spelled truth value for booleans; nothing for
/// punctuation and keywords.
pub open spec fn payload_of(k: TokenKind, s: Seq<u8>, start: int, end: int) -> PayloadV {
    if k == TokenKind::Comment || k == TokenKind::Name || k == TokenKind::Float {
        PayloadV::Text(s.subrange(start, end))
    } else if k == TokenKind::QuotedString {
        PayloadV::Text(strip_bs(s.subrange(start, end - 1)))
    } else if k == TokenKind::Bool {
        PayloadV::Truth(end - start == 4)
    } else {
        PayloadV::Empty
    }
}

/// Wraps a recognized token and applies the adjacency check: when the
/// token and its predecessor are both non-separators, the step reports
/// an unknown-token diagnostic spanning from the predecessor's start to
/// this token's end and holds the token back for the next pull; either
/// way the adjacency fields now describe this token.
pub open spec fn token_step(st1: StateV, k: TokenKind, start: int, end: int, p: PayloadV) -> StepV {
    let tok = TokV { kind: k, line: st1.line, start, end, payload: p };
    let sep = is_separator_kind(k);
    if !sep && !st1.prev_sep {
        StepV {
            st: StateV {
                pos: end,
                prev_sep: sep,
                prev_start: start,
                pending: Some(tok),
                ..st1
            },
            out: OutV::Failed(
                ErrV {
                    line: st1.line,
                    start: st1.prev_start,
                    end,
                    reason: ErrorReason::UnknownToken,
                },
            ),
        }
    } else {
        StepV {
            st: StateV { pos: end, prev_sep: sep, prev_start: start, ..st1 },
            out: OutV::Lexed(tok),
        }
    }
}

/// One pull from the lexer. A held-back token comes out first. Otherwise
/// blanks are skipped; at the end of input the step finishes; where no
/// rule matches, one byte is reported as an unknown token and skipped;
/// an integer too large for its word is reported and skipped without
/// touching the adjacency fields; any other match becomes a token,
/// subject to the adjacency check.
pub open spec fn next_spec(st: StateV) -> StepV {
    match st.pending {
        Some(tv) => StepV {
            st: StateV { pending: None, ..st },
            out: OutV::Lexed(tv),
        },
        None => {
            let st1 = skip_spec(st);
            if st1.pos >= st1.src.len() {
                StepV { st: st1, out: OutV::Finished }
            } else {
                match best_match(st1.src, st1.pos) {
                    None => StepV {
                        st: StateV { pos: st1.pos + 1, ..st1 },
                        out: OutV::Failed(
                            ErrV {
                                line: st1.line,
                                start: st1.pos,
                                end: st1.pos + 1,
                                reason: ErrorReason::UnknownToken,
                            },
                        ),
                    },
                    Some((k, l)) => {
                        let start = st1.pos;
                        let end = st1.pos + l;
                        if k == TokenKind::Int {
                            if int_value(st1.src, start, end) > u64::MAX {
                                StepV {
                                    st: StateV { pos: end, ..st1 },
                                    out: OutV::Failed(
                                        ErrV {
                                            line: st1.line,
                                            start,
                                            end,
                                            reason: ErrorReason::InvalidIntLiteral,
                                        },
                                    ),
                                }
                            } else {
                                token_step(
                                    st1,
                                    k,
                                    start,
                                    end,
                                    PayloadV::Uint(int_value(st1.src, start, end) as u64),
                                )
                            }
                        } else {
                            token_step(st1, k, start, end, payload_of(k, st1.src, start, end))
                        }
                    },
                }
            }
        },
    }
}

/// How an executable pull relates to the specified outcome.
pub open spec fn out_matches(r: Option<Result<TokenEnum, LexError>>, o: OutV) -> bool {
    match r {
        Some(res) => match res {
            Ok(t) => o == OutV::Lexed(t@),
            Err(e) => o == OutV::Failed(e@),
        },
        None => o == OutV::Finished,
    }
}

/// Termination measure for a whole scan: bytes left, with one extra step
/// allowed for a held-back token.
pub open spec fn run_measure(st: StateV) -> int {
    2 * (if st.pos <= st.src.len() {
        st.src.len() - st.pos
    } else {
        0
    }) + (match st.pending {
        Some(_) => 1int,
        None => 0int,
    })
}

/// Every step that is not the end of input strictly shrinks the scan
/// measure.
pub proof fn lemma_next_decreases(st: StateV)
    ensures
        next_spec(st).out != OutV::Finished ==> 0 <= run_measure(next_spec(st).st) < run_measure(
            st,
        ),
{
    match st.pending {
        Some(_) => {},
        None => {
            lemma_skip(st);
            let st1 = skip_spec(st);
            if st1.pos < st1.src.len() {
                if 0 <= st1.pos {
                    lemma_best_match(st1.src, st1.pos);
                }
            }
        },
    }
}

/// Everything a scan started in state `st` produces, in order.
pub open spec fn run_spec(st: StateV) -> RunV
    decreases run_measure(st),
        via run_spec_decreases
{
    let step = next_spec(st);
    match step.out {
        OutV::Finished => RunV { toks: Seq::empty(), errs: Seq::empty() },
        OutV::Lexed(t) => {
            let rest = run_spec(step.st);
            RunV { toks: seq![t] + rest.toks, errs: rest.errs }
        },
        OutV::Failed(e) => {
            let rest = run_spec(step.st);
            RunV { toks: rest.toks, errs: seq![e] + rest.errs }
        },
    }
}

#[via_fn]
proof fn run_spec_decreases(st: StateV) {
    lemma_next_decreases(st);
}

/// The scan-state bookkeeping a lexer owns besides its cursor: line
/// count, line start, the display name of the source, and the two
/// adjacency-tracking fields.
pub struct TokenExtras {
    pub line_breaks: usize,
    pub line_start: usize,
    pub file_path: Vec<u8>,
    pub before_token_is_separate: bool,
    pub before_token_start: usize,
}

impl Default for TokenExtras {
    /// Fresh bookkeeping: line 1, offsets 0, no name, and the previous
    /// token counted as a separator.
    fn default() -> (r: Self)
        ensures
            r.line_breaks == 1,
            r.line_start == 0,
            r.file_path@ == Seq::<u8>::empty(),
            r.before_token_is_separate == true,
            r.before_token_start == 0,
    {
        Self {
            line_breaks: 1,
            line_start: 0,
            file_path: Vec::new(),
            before_token_is_separate: true,
            before_token_start: 0,
        }
    }
}

/// The lexer: it borrows the source text and owns a cursor and the
/// scanning state. One instance makes one left-to-right pass.
pub struct Lexer<'a> {
    src: &'a [u8],
    pos: usize,
    extras: TokenExtras,
    pending: Option<TokenEnum>,
}

impl<'a> View for Lexer<'a> {
    type V = StateV;

    closed spec fn view(&self) -> StateV {
        StateV {
            src: self.src@,
            pos: self.pos as int,
            line: self.extras.line_breaks as int,
            line_start: self.extras.line_start as int,
            prev_sep: self.extras.before_token_is_separate,
            prev_start: self.extras.before_token_start as int,
            pending: match self.pending {
                Some(t) => Some(t@),
                None => None,
            },
        }
    }
}

impl<'a> Lexer<'a> {
    /// A fresh lexer over `src`, positioned at offset 0, line 1. The
    /// display name is carried for diagnostics only.
    pub fn new(src: &'a [u8], file_path: Vec<u8>) -> (r: Lexer<'a>)
        requires
            src@.len() < usize::MAX,
        ensures
            r@ == init_state(src@),
    {
        let mut extras = TokenExtras::default();
        extras.file_path = file_path;
        Lexer { src, pos: 0, extras, pending: None }
    }

    /// The source buffer this lexer scans.
    pub fn source(&self) -> (s: &'a [u8])
        ensures
            s@ == self@.src,
    {
        self.src
    }

    /// Pulls the next token or diagnostic: exactly one specified step.
    /// The line counter never goes down, and every diagnostic's span
    /// lies within the source buffer.
    pub fn next_token(&mut self) -> (r: Option<Result<TokenEnum, LexError>>)
        requires
            st_wf(old(self)@),
        ensures
            st_wf(final(self)@),
            final(self)@ == next_spec(old(self)@).st,
            out_matches(r, next_spec(old(self)@).out),
            old(self)@.line <= final(self)@.line,
            match r {
                Some(res) => match res {
                    Ok(t) => t@.start < t@.end <= old(self)@.src.len(),
                    Err(e) => e.span.start <= e.span.end <= old(self)@.src.len(),
                },
                None => true,
            },
    {
        let pulled = self.pending.take();
        match pulled {
            Some(t) => {
                return Some(Ok(t));
            },
            None => {},
        }
        let ghost pre: StateV = self@;
        proof {
            lemma_skip(pre);
        }
        loop
            invariant
                st_wf(self@),
                self@.src == pre.src,
                self@.pending == pre.pending,
                pre.line <= self@.line,
                skip_spec(pre) == skip_spec(self@),
            ensures
                st_wf(self@),
                self@ == skip_spec(pre),
                self@.src == pre.src,
                self@.pending == pre.pending,
                pre.line <= self@.line,
            decreases self@.src.len() - self@.pos,
        {
            if self.pos >= self.src.len() {
                break;
            }
            let b = self.src[self.pos];
            if ws_byte(b) {
                self.extras.before_token_is_separate = true;
                self.extras.before_token_start = self.pos;
                self.pos = self.pos + 1;
            } else if b == 13 && self.pos + 1 < self.src.len() && self.src[self.pos + 1] == 10 {
                self.extras.before_token_is_separate = true;
                self.extras.before_token_start = self.pos;
                self.extras.line_breaks = self.extras.line_breaks + 1;
                self.pos = self.pos + 2;
                self.extras.line_start = self.pos;
            } else if break_byte(b) {
                self.extras.before_token_is_separate = true;
                self.extras.before_token_start = self.pos;
                self.extras.line_breaks = self.extras.line_breaks + 1;
                self.pos = self.pos + 1;
                self.extras.line_start = self.pos;
            } else {
                break;
            }
        }
        let ghost st1: StateV = self@;
        if self.pos >= self.src.len() {
            return None;
        }
        let line = self.extras.line_breaks;
        match match_at(self.src, self.pos) {
            None => {
                let e = LexError {
                    line,
                    span: Span { start: self.pos, end: self.pos + 1 },
                    reason: ErrorReason::UnknownToken,
                };
                self.pos = self.pos + 1;
                return Some(Err(e));
            },
            Some((k, l)) => {
                let start = self.pos;
                let end = start + l;
                let tok: TokenEnum;
                if k == TokenKind::Int {
                    match decode_int(self.src, start, end) {
                        Some(v) => {
                            tok = TokenEnum::Int(Token::new(v, Span { start, end }, line));
                        },
                        None => {
                            let e = LexError {
                                line,
                                span: Span { start, end },
                                reason: ErrorReason::InvalidIntLiteral,
                            };
                            self.pos = end;
                            return Some(Err(e));
                        },
                    }
                } else if k == TokenKind::Name {
                    let text = copy_range(self.src, start, end);
                    tok = TokenEnum::Name(Token::new(text, Span { start, end }, line));
                } else if k == TokenKind::Comment {
                    let text = copy_range(self.src, start, end);
                    tok = TokenEnum::Comment(Token::new(text, Span { start, end }, line));
                } else if k == TokenKind::Float {
                    let text = copy_range(self.src, start, end);
                    tok = TokenEnum::Float(Token::new(text, Span { start, end }, line));
                } else if k == TokenKind::QuotedString {
                    let text = strip_backslashes(self.src, start, end - 1);
                    tok = TokenEnum::QuotedString(Token::new(text, Span { start, end }, line));
                } else if k == TokenKind::Bool {
                    tok = TokenEnum::Bool(Token::new(l == 4, Span { start, end }, line));
                } else {
                    tok = unit_token(k, line, start, end);
                }
                let sep = tok.is_separate();
                if !sep && !self.extras.before_token_is_separate {
                    let e = LexError {
                        line,
                        span: Span { start: self.extras.before_token_start, end },
                        reason: ErrorReason::UnknownToken,
                    };
                    self.extras.before_token_is_separate = sep;
                    self.extras.before_token_start = start;
                    self.pos = end;
                    self.pending = Some(tok);
                    return Some(Err(e));
                } else {
                    self.extras.before_token_is_separate = sep;
                    self.extras.before_token_start = start;
                    self.pos = end;
                    return Some(Ok(tok));
                }
            },
        }
    }
}

/// The views of a vector of tokens.
pub open spec fn toks_view(v: Seq<TokenEnum>) -> Seq<TokV> {
    v.map_values(|t: TokenEnum| t@)
}

/// The views of a vector of diagnostics.
pub open spec fn errs_view(v: Seq<LexError>) -> Seq<ErrV> {
    v.map_values(|e: LexError| e@)
}

/// Everything one whole scan produced: the tokens in source order and
/// the diagnostics in the order they were noticed. The count of tokens
/// successfully produced is the length of `tokens`; diagnostics are not
/// counted as tokens.
pub struct ScanOutcome {
    pub tokens: Vec<TokenEnum>,
    pub errors: Vec<LexError>,
}

impl ScanOutcome {
    /// The count of tokens successfully produced.
    pub fn token_count(&self) -> (n: usize)
        ensures
            n == self.tokens@.len(),
    {
        self.tokens.len()
    }
}

impl<'a> Lexer<'a> {
    /// Runs the lexer to the end of its input and collects every token
    /// and every diagnostic, in order: exactly what the run
    /// specification lists for the starting state.
    pub fn scan(&mut self) -> (r: ScanOutcome)
        requires
            st_wf(old(self)@),
        ensures
            toks_view(r.tokens@) == run_spec(old(self)@).toks,
            errs_view(r.errors@) == run_spec(old(self)@).errs,
            st_wf(final(self)@),
    {
        let ghost st0: StateV = self@;
        let mut tokens: Vec<TokenEnum> = Vec::new();
        let mut errors: Vec<LexError> = Vec::new();
        proof {
            assert(toks_view(tokens@) =~= Seq::<TokV>::empty());
            assert(errs_view(errors@) =~= Seq::<ErrV>::empty());
        }
        loop
            invariant
                st_wf(self@),
                run_spec(st0).toks == toks_view(tokens@) + run_spec(self@).toks,
                run_spec(st0).errs == errs_view(errors@) + run_spec(self@).errs,
            ensures
                st_wf(self@),
                run_spec(st0).toks == toks_view(tokens@),
                run_spec(st0).errs == errs_view(errors@),
            decreases run_measure(self@),
        {
            let ghost prev: StateV = self@;
            proof {
                lemma_next_decreases(prev);
            }
            let item = self.next_token();
            match item {
                None => {
                    proof {
                        lemma_skip(prev);
                        assert(run_spec(prev).toks =~= Seq::<TokV>::empty());
                        assert(run_spec(prev).errs =~= Seq::<ErrV>::empty());
                        assert(skip_spec(self@) == self@);
                        assert(run_spec(self@).toks =~= Seq::<TokV>::empty());
                        assert(run_spec(self@).errs =~= Seq::<ErrV>::empty());
                        assert(toks_view(tokens@) + run_spec(self@).toks =~= toks_view(tokens@));
                        assert(errs_view(errors@) + run_spec(self@).errs =~= errs_view(errors@));
                    }
                    break;
                },
                Some(res) => match res {
                    Ok(t) => {
                        let ghost before = tokens@;
                        tokens.push(t);
                        proof {
                            assert(toks_view(tokens@) =~= toks_view(before) + seq![t@]);
                            assert(toks_view(before) + (seq![t@] + run_spec(self@).toks)
                                =~= toks_view(tokens@) + run_spec(self@).toks);
                        }
                    },
                    Err(e) => {
                        let ghost before = errors@;
                        errors.push(e);
                        proof {
                            assert(errs_view(errors@) =~= errs_view(before) + seq![e@]);
                            assert(errs_view(before) + (seq![e@] + run_spec(self@).errs)
                                =~= errs_view(errors@) + run_spec(self@).errs);
                        }
                    },
                },
            }
        }
        ScanOutcome { tokens, errors }
    }
}

/// Whether a token's payload has the shape its kind calls for, its span
/// is non-empty, and its kind is one the scanner can emit.
pub open spec fn token_shaped(t: TokV) -> bool {
    &&& t.start < t.end
    &&& 1 <= t.line
    &&& t.kind != TokenKind::Line
    &&& match t.payload {
        PayloadV::Empty => is_unit_kind(t.kind),
        PayloadV::Text(_) => t.kind == TokenKind::Comment || t.kind == TokenKind::Name || t.kind
            == TokenKind::Float || t.kind == TokenKind::QuotedString,
        PayloadV::Uint(_) => t.kind == TokenKind::Int,
        PayloadV::Truth(_) => t.kind == TokenKind::Bool,
    }
}

/// Whether a held-back token, if any, is shaped and lies within the
/// buffer.
pub open spec fn pending_ok(st: StateV) -> bool {
    match st.pending {
        Some(t) => token_shaped(t) && 0 <= t.start && t.end <= st.src.len(),
        None => true,
    }
}

/// One step keeps the state well formed, never touches the source, only
/// raises the line counter, and produces only shaped tokens and
/// in-buffer diagnostics.
pub proof fn lemma_step_facts(st: StateV)
    requires
        st_wf(st),
        pending_ok(st),
    ensures
        st_wf(next_spec(st).st),
        pending_ok(next_spec(st).st),
        next_spec(st).st.src == st.src,
        st.line <= next_spec(st).st.line,
        match next_spec(st).out {
            OutV::Lexed(t) => token_shaped(t) && 0 <= t.start && t.end <= st.src.len(),
            OutV::Failed(e) => 0 <= e.start <= e.end <= st.src.len() && 1 <= e.line,
            OutV::Finished => true,
        },
{
    match st.pending {
        Some(_) => {},
        None => {
            lemma_skip(st);
            let st1 = skip_spec(st);
            if st1.pos < st1.src.len() {
                lemma_best_match(st1.src, st1.pos);
            }
        },
    }
}

/// Every token a scan lists has a non-empty span inside the buffer, a
/// payload of its kind's shape, and a positive line number; every
/// diagnostic's span lies inside the buffer. Spans are half open, so
/// escape decoding never disturbs them.
pub proof fn lemma_run_well_formed(st: StateV)
    requires
        st_wf(st),
        pending_ok(st),
    ensures
        forall|i: int|
            0 <= i < run_spec(st).toks.len() ==> token_shaped(#[trigger] run_spec(st).toks[i])
                && 0 <= run_spec(st).toks[i].start && run_spec(st).toks[i].end <= st.src.len(),
        forall|i: int|
            0 <= i < run_spec(st).errs.len() ==> 0 <= (#[trigger] run_spec(st).errs[i]).start
                <= run_spec(st).errs[i].end <= st.src.len(),
    decreases run_measure(st),
{
    lemma_next_decreases(st);
    lemma_step_facts(st);
    let step = next_spec(st);
    match step.out {
        OutV::Finished => {},
        OutV::Lexed(t) => {
            lemma_run_well_formed(step.st);
        },
        OutV::Failed(e) => {
            lemma_run_well_formed(step.st);
        },
    }
}

/// An input that one rule matches whole becomes exactly one token: its
/// kind is the winning rule's kind, its payload that kind's decoding,
/// its span the whole input, and the scan raises no diagnostic.
pub proof fn lemma_single_token_scan(s: Seq<u8>, k: TokenKind)
    requires
        0 < s.len(),
        !is_ws(s[0]),
        !is_break_byte(s[0]),
        best_match(s, 0) == Some((k, s.len() as int)),
        k != TokenKind::Int,
    ensures
        run_spec(init_state(s)) == (RunV {
            toks: seq![
                TokV {
                    kind: k,
                    line: 1,
                    start: 0,
                    end: s.len() as int,
                    payload: payload_of(k, s, 0, s.len() as int),
                },
            ],
            errs: Seq::<ErrV>::empty(),
        }),
{
    let st0 = init_state(s);
    assert(skip_spec(st0) == st0);
    let step = next_spec(st0);
    let st2 = step.st;
    assert(skip_spec(st2) == st2);
    assert(next_spec(st2).out == OutV::Finished);
    assert(run_spec(st2).toks =~= Seq::<TokV>::empty());
    assert(run_spec(st2).errs =~= Seq::<ErrV>::empty());
    let tok = TokV {
        kind: k,
        line: 1,
        start: 0,
        end: s.len() as int,
        payload: payload_of(k, s, 0, s.len() as int),
    };
    assert(run_spec(st0).toks =~= seq![tok]);
    assert(run_spec(st0).errs =~= Seq::<ErrV>::empty());
}

/// Every reserved word and boolean literal of the fixed table, scanned
/// alone, yields exactly one token of that word's kind — never an
/// identifier — with the empty payload (or, for the booleans, the truth
/// value they spell), and no diagnostics.
pub proof fn lemma_reserved_word_scan(w: Seq<u8>, k: TokenKind)
    requires
        crate::rules::keyword_kind(w, 0, w.len() as int) == Some(k),
    ensures
        run_spec(init_state(w)) == (RunV {
            toks: seq![
                TokV {
                    kind: k,
                    line: 1,
                    start: 0,
                    end: w.len() as int,
                    payload: payload_of(k, w, 0, w.len() as int),
                },
            ],
            errs: Seq::<ErrV>::empty(),
        }),
{
    reveal_with_fuel(crate::rules::name_run, 9);
    assert(crate::rules::name_len(w, 0) == w.len());
    lemma_single_token_scan(w, k);
}

/// Every punctuation symbol and operator of the fixed table, scanned
/// alone, yields exactly one token of that symbol's kind with the empty
/// payload and no diagnostics.
pub proof fn lemma_punctuation_scan(w: Seq<u8>, k: TokenKind)
    requires
        crate::rules::punct_match(w, 0) == Some((k, w.len() as int)),
    ensures
        run_spec(init_state(w)) == (RunV {
            toks: seq![
                TokV {
                    kind: k,
                    line: 1,
                    start: 0,
                    end: w.len() as int,
                    payload: PayloadV::Empty,
                },
            ],
            errs: Seq::<ErrV>::empty(),
        }),
{
    assert(crate::rules::name_len(w, 0) == 0);
    assert(crate::rules::int_len(w, 0) == 0);
    assert(crate::rules::float_len(w, 0) == 0);
    assert(crate::rules::comment_len(w, 0) == 0);
    assert(crate::rules::quoted_len(w, 0) == 0);
    assert(best_match(w, 0) == Some((k, w.len() as int)));
    lemma_single_token_scan(w, k);
    assert(payload_of(k, w, 0, w.len() as int) == PayloadV::Empty);
}

/// Scanning is deterministic: what a scan of a text lists is a function
/// of that text alone, so two fresh lexers over the same text yield
/// identical token sequences and identical diagnostics, in the same
/// order.
pub proof fn lemma_scan_deterministic(src: Seq<u8>, first: RunV, second: RunV)
    requires
        first == run_spec(init_state(src)),
        second == run_spec(init_state(src)),
    ensures
        first.toks == second.toks,
        first.errs == second.errs,
{
}

} // verus!

