//! The lexical rule table: for each rule, a specification of how many
//! bytes it matches at a given position, and executable scanners proved
//! to compute exactly those lengths. Matching is longest-match; ties
//! between an exact word and the identifier rule go to the exact word.

use vstd::prelude::*;
use crate::token::TokenKind;

verus! {

/// Space or horizontal tab.
pub open spec fn is_ws(b: u8) -> bool {
    b == 32 || b == 9
}

/// A byte that can begin a line terminator: newline, carriage return or
/// form feed.
pub open spec fn is_break_byte(b: u8) -> bool {
    b == 10 || b == 13 || b == 12
}

/// ASCII decimal digit.
pub open spec fn is_digit(b: u8) -> bool {
    48 <= b && b <= 57
}

/// ASCII hexadecimal digit.
pub open spec fn is_hex_digit(b: u8) -> bool {
    is_digit(b) || (97 <= b && b <= 102) || (65 <= b && b <= 70)
}

/// A byte that can begin an identifier: a letter or an underscore.
pub open spec fn is_name_start(b: u8) -> bool {
    b == 95 || (65 <= b && b <= 90) || (97 <= b && b <= 122)
}

/// A byte that can continue an identifier.
pub open spec fn is_name_byte(b: u8) -> bool {
    is_name_start(b) || is_digit(b)
}

/// Length of the run of decimal digits starting at `i`.
pub open spec fn digit_run(s: Seq<u8>, i: int) -> int
    decreases s.len() - i,
{
    if i < 0 || i >= s.len() || !is_digit(s[i]) {
        0
    } else {
        1 + digit_run(s, i + 1)
    }
}

/// Length of the run of hexadecimal digits starting at `i`.
pub open spec fn hex_run(s: Seq<u8>, i: int) -> int
    decreases s.len() - i,
{
    if i < 0 || i >= s.len() || !is_hex_digit(s[i]) {
        0
    } else {
        1 + hex_run(s, i + 1)
    }
}

/// Length of the run of identifier bytes starting at `i`.
pub open spec fn name_run(s: Seq<u8>, i: int) -> int
    decreases s.len() - i,
{
    if i < 0 || i >= s.len() || !is_name_byte(s[i]) {
        0
    } else {
        1 + name_run(s, i + 1)
    }
}

/// Length of the run of bytes that are not line terminators, starting at
/// `i`.
pub open spec fn nonbreak_run(s: Seq<u8>, i: int) -> int
    decreases s.len() - i,
{
    if i < 0 || i >= s.len() || is_break_byte(s[i]) {
        0
    } else {
        1 + nonbreak_run(s, i + 1)
    }
}

/// How many bytes the comment rule matches at `i`: two dashes and then
/// everything up to the end of the line.
pub open spec fn comment_len(s: Seq<u8>, i: int) -> int {
    if 0 <= i && i + 1 < s.len() && s[i] == 45 && s[i + 1] == 45 {
        2 + nonbreak_run(s, i + 2)
    } else {
        0
    }
}

/// How many bytes the identifier rule matches at `i`.
pub open spec fn name_len(s: Seq<u8>, i: int) -> int {
    if 0 <= i && i < s.len() && is_name_start(s[i]) {
        1 + name_run(s, i + 1)
    } else {
        0
    }
}

/// How many bytes the integer rule matches at `i`: a `0x` prefix with
/// hexadecimal digits, or a run of decimal digits.
pub open spec fn int_len(s: Seq<u8>, i: int) -> int {
    if 0 <= i && i + 2 < s.len() && s[i] == 48 && s[i + 1] == 120 && is_hex_digit(s[i + 2]) {
        2 + hex_run(s, i + 2)
    } else {
        digit_run(s, i)
    }
}

/// How many bytes an exponent part matches at `i`: `e` or `E`, an
/// optional sign, and at least one digit; zero if that shape is absent.
pub open spec fn exp_len(s: Seq<u8>, i: int) -> int {
    if 0 <= i && i < s.len() && (s[i] == 101 || s[i] == 69) {
        let j = if i + 1 < s.len() && (s[i + 1] == 43 || s[i + 1] == 45) {
            i + 2
        } else {
            i + 1
        };
        if digit_run(s, j) > 0 {
            (j - i) + digit_run(s, j)
        } else {
            0
        }
    } else {
        0
    }
}

/// How many bytes the float rule matches at `i`: digits with a decimal
/// point and/or an exponent. The fractional part may be empty when the
/// integer part is not, and the other way round.
pub open spec fn float_len(s: Seq<u8>, i: int) -> int {
    let d1 = digit_run(s, i);
    if d1 > 0 {
        if i + d1 < s.len() && s[i + d1] == 46 {
            let base = d1 + 1 + digit_run(s, i + d1 + 1);
            base + exp_len(s, i + base)
        } else {
            let e = exp_len(s, i + d1);
            if e > 0 {
                d1 + e
            } else {
                0
            }
        }
    } else if 0 <= i && i < s.len() && s[i] == 46 {
        let d2 = digit_run(s, i + 1);
        if d2 > 0 {
            let base = 1 + d2;
            base + exp_len(s, i + base)
        } else {
            0
        }
    } else {
        0
    }
}

/// Where the longest match of a quoted-string body ends, scanning from
/// `j` with closing quote byte `q`: the position one past the closing
/// quote, or -1 when no closing quote is reachable. The body may hold
/// any byte except a bare quote of the same kind; a backslash escapes
/// the byte after it, and a doubled quote stands for itself.
pub open spec fn quote_scan(s: Seq<u8>, j: int, q: u8) -> int
    decreases s.len() - j,
{
    if j < 0 || j >= s.len() {
        -1
    } else if s[j] == q {
        if j + 1 < s.len() && s[j + 1] == q {
            let rest = quote_scan(s, j + 2, q);
            if rest >= 0 {
                rest
            } else {
                j + 1
            }
        } else {
            j + 1
        }
    } else if s[j] == 92 {
        if j + 1 < s.len() {
            quote_scan(s, j + 2, q)
        } else {
            -1
        }
    } else {
        quote_scan(s, j + 1, q)
    }
}

/// How many bytes the quoted-string rule matches at `i`, or zero when no
/// properly closed string starts there.
pub open spec fn quoted_len(s: Seq<u8>, i: int) -> int {
    if 0 <= i && i < s.len() && (s[i] == 34 || s[i] == 39) {
        let e = quote_scan(s, i + 1, s[i]);
        if e >= 0 {
            e - i
        } else {
            0
        }
    } else {
        0
    }
}

/// The reserved word or boolean literal written in `s[i .. i + n]`, if
/// any. Reserved words are recognized as a closed list and never as
/// ordinary identifiers.
pub open spec fn keyword_kind(s: Seq<u8>, i: int, n: int) -> Option<TokenKind> {
    if n == 2 {
        if s[i] == 100 && s[i + 1] == 111 {
            Some(TokenKind::Do)
        } else if s[i] == 105 && s[i + 1] == 102 {
            Some(TokenKind::If)
        } else if s[i] == 111 && s[i + 1] == 114 {
            Some(TokenKind::Or)
        } else {
            None
        }
    } else if n == 3 {
        if s[i] == 101 && s[i + 1] == 110 && s[i + 2] == 100 {
            Some(TokenKind::End)
        } else if s[i] == 102 && s[i + 1] == 111 && s[i + 2] == 114 {
            Some(TokenKind::For)
        } else if s[i] == 97 && s[i + 1] == 110 && s[i + 2] == 100 {
            Some(TokenKind::And)
        } else {
            None
        }
    } else if n == 4 {
        if s[i] == 101 && s[i + 1] == 108 && s[i + 2] == 115 && s[i + 3] == 101 {
            Some(TokenKind::Else)
        } else if s[i] == 116 && s[i + 1] == 104 && s[i + 2] == 101 && s[i + 3] == 110 {
            Some(TokenKind::Then)
        } else if s[i] == 103 && s[i + 1] == 111 && s[i + 2] == 116 && s[i + 3] == 111 {
            Some(TokenKind::Goto)
        } else if s[i] == 116 && s[i + 1] == 114 && s[i + 2] == 117 && s[i + 3] == 101 {
            Some(TokenKind::Bool)
        } else {
            None
        }
    } else if n == 5 {
        if s[i] == 108 && s[i + 1] == 111 && s[i + 2] == 99 && s[i + 3] == 97 && s[i + 4] == 108 {
            Some(TokenKind::Local)
        } else if s[i] == 98 && s[i + 1] == 114 && s[i + 2] == 101 && s[i + 3] == 97 && s[i + 4]
            == 107 {
            Some(TokenKind::Break)
        } else if s[i] == 119 && s[i + 1] == 104 && s[i + 2] == 105 && s[i + 3] == 108 && s[i + 4]
            == 101 {
            Some(TokenKind::While)
        } else if s[i] == 117 && s[i + 1] == 110 && s[i + 2] == 116 && s[i + 3] == 105 && s[i + 4]
            == 108 {
            Some(TokenKind::Until)
        } else if s[i] == 102 && s[i + 1] == 97 && s[i + 2] == 108 && s[i + 3] == 115 && s[i + 4]
            == 101 {
            Some(TokenKind::Bool)
        } else {
            None
        }
    } else if n == 6 {
        if s[i] == 101 && s[i + 1] == 108 && s[i + 2] == 115 && s[i + 3] == 101 && s[i + 4] == 105
            && s[i + 5] == 102 {
            Some(TokenKind::Elseif)
        } else if s[i] == 114 && s[i + 1] == 101 && s[i + 2] == 112 && s[i + 3] == 101 && s[i + 4]
            == 97 && s[i + 5] == 116 {
            Some(TokenKind::Repeat)
        } else {
            None
        }
    } else if n == 8 {
        if s[i] == 102 && s[i + 1] == 117 && s[i + 2] == 110 && s[i + 3] == 99 && s[i + 4] == 116
            && s[i + 5] == 105 && s[i + 6] == 111 && s[i + 7] == 110 {
            Some(TokenKind::Function)
        } else {
            None
        }
    } else {
        None
    }
}

/// The punctuation or operator rule matching at `i`, with its length.
/// Two-byte symbols win over their one-byte prefixes.
pub open spec fn punct_match(s: Seq<u8>, i: int) -> Option<(TokenKind, int)> {
    if i < 0 || i >= s.len() {
        None
    } else if s[i] == 61 {
        Some((TokenKind::Equal, 1))
    } else if s[i] == 43 {
        Some((TokenKind::Plus, 1))
    } else if s[i] == 45 {
        Some((TokenKind::Sub, 1))
    } else if s[i] == 42 {
        Some((TokenKind::Mul, 1))
    } else if s[i] == 47 {
        if i + 1 < s.len() && s[i + 1] == 47 {
            Some((TokenKind::DivToInt, 2))
        } else {
            Some((TokenKind::Div, 1))
        }
    } else if s[i] == 59 {
        Some((TokenKind::Semicolon, 1))
    } else if s[i] == 44 {
        Some((TokenKind::Comma, 1))
    } else if s[i] == 46 {
        if i + 1 < s.len() && s[i + 1] == 46 {
            Some((TokenKind::DoubleDot, 2))
        } else {
            Some((TokenKind::Dot, 1))
        }
    } else if s[i] == 62 {
        Some((TokenKind::Gt, 1))
    } else if s[i] == 60 {
        Some((TokenKind::Lt, 1))
    } else if s[i] == 40 {
        Some((TokenKind::ParenthesesLeft, 1))
    } else if s[i] == 41 {
        Some((TokenKind::ParenthesesRight, 1))
    } else {
        None
    }
}

/// The winning rule at position `i`, once whitespace and line
/// terminators are out of the way: the kind of token it recognizes and
/// how many bytes it consumes. The longest match wins; an exact reserved
/// word beats the identifier rule on identical text; a float beats an
/// integer of the same digits; a comment beats the subtraction sign it
/// starts with. `None` means no rule matches the byte at `i`.
pub open spec fn best_match(s: Seq<u8>, i: int) -> Option<(TokenKind, int)> {
    let nl = name_len(s, i);
    let il = int_len(s, i);
    let fl = float_len(s, i);
    let cl = comment_len(s, i);
    let ql = quoted_len(s, i);
    if nl > 0 {
        match keyword_kind(s, i, nl) {
            Some(k) => Some((k, nl)),
            None => Some((TokenKind::Name, nl)),
        }
    } else if fl > 0 || il > 0 {
        if fl > il {
            Some((TokenKind::Float, fl))
        } else {
            Some((TokenKind::Int, il))
        }
    } else if cl > 0 {
        Some((TokenKind::Comment, cl))
    } else if ql > 0 {
        Some((TokenKind::QuotedString, ql))
    } else {
        punct_match(s, i)
    }
}

/// Bounds for the digit run.
pub proof fn lemma_digit_run(s: Seq<u8>, i: int)
    requires
        0 <= i <= s.len(),
    ensures
        0 <= digit_run(s, i),
        i + digit_run(s, i) <= s.len(),
        forall|j: int| i <= j < i + digit_run(s, i) ==> is_digit(s[j]),
    decreases s.len() - i,
{
    if i < s.len() && is_digit(s[i]) {
        lemma_digit_run(s, i + 1);
    }
}

/// Bounds for the hexadecimal digit run.
pub proof fn lemma_hex_run(s: Seq<u8>, i: int)
    requires
        0 <= i <= s.len(),
    ensures
        0 <= hex_run(s, i),
        i + hex_run(s, i) <= s.len(),
        forall|j: int| i <= j < i + hex_run(s, i) ==> is_hex_digit(s[j]),
    decreases s.len() - i,
{
    if i < s.len() && is_hex_digit(s[i]) {
        lemma_hex_run(s, i + 1);
    }
}

/// Bounds for the identifier-byte run.
pub proof fn lemma_name_run(s: Seq<u8>, i: int)
    requires
        0 <= i <= s.len(),
    ensures
        0 <= name_run(s, i),
        i + name_run(s, i) <= s.len(),
    decreases s.len() - i,
{
    if i < s.len() && is_name_byte(s[i]) {
        lemma_name_run(s, i + 1);
    }
}

/// Bounds for the run of bytes without a line terminator.
pub proof fn lemma_nonbreak_run(s: Seq<u8>, i: int)
    requires
        0 <= i <= s.len(),
    ensures
        0 <= nonbreak_run(s, i),
        i + nonbreak_run(s, i) <= s.len(),
    decreases s.len() - i,
{
    if i < s.len() && !is_break_byte(s[i]) {
        lemma_nonbreak_run(s, i + 1);
    }
}

/// Bounds for the quoted-string body scan: a successful end lies past
/// `j` and within the buffer.
pub proof fn lemma_quote_scan(s: Seq<u8>, j: int, q: u8)
    requires
        0 <= j <= s.len(),
    ensures
        quote_scan(s, j, q) == -1 || (j < quote_scan(s, j, q) <= s.len()),
    decreases s.len() - j,
{
    if j < s.len() {
        if s[j] == q {
            if j + 1 < s.len() && s[j + 1] == q {
                lemma_quote_scan(s, j + 2, q);
            }
        } else if s[j] == 92 {
            if j + 1 < s.len() {
                lemma_quote_scan(s, j + 2, q);
            }
        } else {
            lemma_quote_scan(s, j + 1, q);
        }
    }
}

/// Bounds for the exponent rule.
pub proof fn lemma_exp_len(s: Seq<u8>, i: int)
    requires
        0 <= i <= s.len(),
    ensures
        0 <= exp_len(s, i),
        i + exp_len(s, i) <= s.len(),
{
    if i < s.len() && (s[i] == 101 || s[i] == 69) {
        let j = if i + 1 < s.len() && (s[i + 1] == 43 || s[i + 1] == 45) {
            i + 2
        } else {
            i + 1
        };
        lemma_digit_run(s, j);
    }
}

/// Every rule's match fits in the buffer, and a winning match consumes
/// at least one byte.
pub proof fn lemma_best_match(s: Seq<u8>, i: int)
    requires
        0 <= i < s.len(),
    ensures
        match best_match(s, i) {
            Some((k, l)) => 1 <= l && i + l <= s.len(),
            None => true,
        },
{
    lemma_name_run(s, i + 1);
    lemma_digit_run(s, i);
    if i + 2 <= s.len() {
        lemma_hex_run(s, i + 2);
        lemma_nonbreak_run(s, i + 2);
    }
    lemma_quote_scan(s, i + 1, s[i]);
    let d1 = digit_run(s, i);
    if d1 > 0 {
        if i + d1 < s.len() && s[i + d1] == 46 {
            lemma_digit_run(s, i + d1 + 1);
            let base = d1 + 1 + digit_run(s, i + d1 + 1);
            lemma_exp_len(s, i + base);
        } else {
            lemma_exp_len(s, i + d1);
        }
    } else if s[i] == 46 {
        lemma_digit_run(s, i + 1);
        let d2 = digit_run(s, i + 1);
        if d2 > 0 {
            lemma_exp_len(s, i + 1 + d2);
        }
    }
}

/// The longest match wins: whatever rule `best_match` picks consumes at
/// least as many bytes as any rule matches at that position, and where
/// it picks nothing, no rule matches at all.
pub proof fn lemma_best_match_longest(s: Seq<u8>, i: int)
    requires
        0 <= i < s.len(),
    ensures
        match best_match(s, i) {
            Some((k, l)) => l >= name_len(s, i) && l >= int_len(s, i) && l >= float_len(s, i)
                && l >= comment_len(s, i) && l >= quoted_len(s, i) && (match punct_match(s, i) {
                Some((pk, pl)) => l >= pl,
                None => true,
            }),
            None => name_len(s, i) == 0 && int_len(s, i) == 0 && float_len(s, i) == 0
                && comment_len(s, i) == 0 && quoted_len(s, i) == 0 && punct_match(s, i)
                == None::<(TokenKind, int)>,
        },
{
    lemma_best_match(s, i);
    if i + 2 <= s.len() {
        lemma_nonbreak_run(s, i + 2);
        lemma_hex_run(s, i + 2);
    }
    lemma_digit_run(s, i);
    lemma_digit_run(s, i + 1);
    lemma_name_run(s, i + 1);
    lemma_quote_scan(s, i + 1, s[i]);
    let d1 = digit_run(s, i);
    if d1 > 0 {
        if i + d1 < s.len() && s[i + d1] == 46 {
            lemma_digit_run(s, i + d1 + 1);
            let base = d1 + 1 + digit_run(s, i + d1 + 1);
            lemma_exp_len(s, i + base);
        } else {
            lemma_exp_len(s, i + d1);
        }
    } else if s[i] == 46 {
        let d2 = digit_run(s, i + 1);
        if d2 > 0 {
            lemma_exp_len(s, i + 1 + d2);
        }
    }
}

/// A reserved word is never an ordinary identifier: where the winning
/// match is an identifier, its text is not in the closed word list.
pub proof fn lemma_keyword_precedence(s: Seq<u8>, i: int)
    ensures
        match best_match(s, i) {
            Some((k, l)) => k == TokenKind::Name ==> keyword_kind(s, i, l)
                == None::<TokenKind>,
            None => true,
        },
{
}

/// Whether `b` is a space or tab, executably.
pub fn ws_byte(b: u8) -> (r: bool)
    ensures
        r == is_ws(b),
{
    b == 32 || b == 9
}

/// Whether `b` can begin a line terminator, executably.
pub fn break_byte(b: u8) -> (r: bool)
    ensures
        r == is_break_byte(b),
{
    b == 10 || b == 13 || b == 12
}

/// Whether `b` is a decimal digit, executably.
pub fn digit_byte(b: u8) -> (r: bool)
    ensures
        r == is_digit(b),
{
    48 <= b && b <= 57
}

/// Whether `b` is a hexadecimal digit, executably.
pub fn hex_digit_byte(b: u8) -> (r: bool)
    ensures
        r == is_hex_digit(b),
{
    (48 <= b && b <= 57) || (97 <= b && b <= 102) || (65 <= b && b <= 70)
}

/// Whether `b` can begin an identifier, executably.
pub fn name_start_byte(b: u8) -> (r: bool)
    ensures
        r == is_name_start(b),
{
    b == 95 || (65 <= b && b <= 90) || (97 <= b && b <= 122)
}

/// Whether `b` can continue an identifier, executably.
pub fn name_byte(b: u8) -> (r: bool)
    ensures
        r == is_name_byte(b),
{
    name_start_byte(b) || digit_byte(b)
}

/// Scans past the run of decimal digits starting at `i`.
pub fn scan_digits(s: &[u8], i: usize) -> (r: usize)
    requires
        i <= s@.len(),
    ensures
        r as int == i + digit_run(s@, i as int),
        i <= r <= s@.len(),
{
    proof {
        lemma_digit_run(s@, i as int);
    }
    let mut j = i;
    while j < s.len() && digit_byte(s[j])
        invariant
            i <= j <= s@.len(),
            digit_run(s@, i as int) == (j - i) + digit_run(s@, j as int),
        decreases s@.len() - j,
    {
        proof {
            lemma_digit_run(s@, j as int);
        }
        j = j + 1;
    }
    j
}

/// Scans past the run of hexadecimal digits starting at `i`.
pub fn scan_hex(s: &[u8], i: usize) -> (r: usize)
    requires
        i <= s@.len(),
    ensures
        r as int == i + hex_run(s@, i as int),
        i <= r <= s@.len(),
{
    proof {
        lemma_hex_run(s@, i as int);
    }
    let mut j = i;
    while j < s.len() && hex_digit_byte(s[j])
        invariant
            i <= j <= s@.len(),
            hex_run(s@, i as int) == (j - i) + hex_run(s@, j as int),
        decreases s@.len() - j,
    {
        proof {
            lemma_hex_run(s@, j as int);
        }
        j = j + 1;
    }
    j
}

/// Scans past the run of identifier bytes starting at `i`.
pub fn scan_name(s: &[u8], i: usize) -> (r: usize)
    requires
        i <= s@.len(),
    ensures
        r as int == i + name_run(s@, i as int),
        i <= r <= s@.len(),
{
    proof {
        lemma_name_run(s@, i as int);
    }
    let mut j = i;
    while j < s.len() && name_byte(s[j])
        invariant
            i <= j <= s@.len(),
            name_run(s@, i as int) == (j - i) + name_run(s@, j as int),
        decreases s@.len() - j,
    {
        proof {
            lemma_name_run(s@, j as int);
        }
        j = j + 1;
    }
    j
}

/// Scans up to the next line terminator after `i`, or to the end of the
/// buffer.
pub fn scan_nonbreak(s: &[u8], i: usize) -> (r: usize)
    requires
        i <= s@.len(),
    ensures
        r as int == i + nonbreak_run(s@, i as int),
        i <= r <= s@.len(),
{
    proof {
        lemma_nonbreak_run(s@, i as int);
    }
    let mut j = i;
    while j < s.len() && !break_byte(s[j])
        invariant
            i <= j <= s@.len(),
            nonbreak_run(s@, i as int) == (j - i) + nonbreak_run(s@, j as int),
        decreases s@.len() - j,
    {
        proof {
            lemma_nonbreak_run(s@, j as int);
        }
        j = j + 1;
    }
    j
}

/// Finds where the longest quoted-string body ends, scanning from
/// `start_j` with closing quote byte `q`.
pub fn quote_end(s: &[u8], start_j: usize, q: u8) -> (r: Option<usize>)
    requires
        start_j <= s@.len(),
    ensures
        match r {
            Some(e) => quote_scan(s@, start_j as int, q) == e as int && start_j < e <= s@.len(),
            None => quote_scan(s@, start_j as int, q) == -1,
        },
{
    proof {
        lemma_quote_scan(s@, start_j as int, q);
    }
    let ghost orig: int = quote_scan(s@, start_j as int, q);
    let mut j = start_j;
    let mut last: usize = 0;
    let mut has_last = false;
    loop
        invariant
            start_j <= j <= s@.len(),
            orig == quote_scan(s@, start_j as int, q),
            orig == (if quote_scan(s@, j as int, q) >= 0 {
                quote_scan(s@, j as int, q)
            } else if has_last {
                last as int
            } else {
                -1
            }),
            has_last ==> start_j < last <= s@.len(),
        decreases s@.len() - j,
    {
        proof {
            lemma_quote_scan(s@, j as int, q);
        }
        if j >= s.len() {
            if has_last {
                return Some(last);
            } else {
                return None;
            }
        }
        let b = s[j];
        if b == q {
            if j + 1 < s.len() && s[j + 1] == q {
                proof {
                    lemma_quote_scan(s@, j + 2, q);
                }
                last = j + 1;
                has_last = true;
                j = j + 2;
            } else {
                return Some(j + 1);
            }
        } else if b == 92 {
            if j + 1 < s.len() {
                j = j + 2;
            } else {
                if has_last {
                    return Some(last);
                } else {
                    return None;
                }
            }
        } else {
            j = j + 1;
        }
    }
}

/// Looks the word written in `s[i .. i + n]` up in the closed list of
/// reserved words and boolean literals.
pub fn keyword_lookup(s: &[u8], i: usize, n: usize) -> (r: Option<TokenKind>)
    requires
        i + n <= s@.len(),
    ensures
        r == keyword_kind(s@, i as int, n as int),
{
    if n == 2 {
        if s[i] == 100 && s[i + 1] == 111 {
            Some(TokenKind::Do)
        } else if s[i] == 105 && s[i + 1] == 102 {
            Some(TokenKind::If)
        } else if s[i] == 111 && s[i + 1] == 114 {
            Some(TokenKind::Or)
        } else {
            None
        }
    } else if n == 3 {
        if s[i] == 101 && s[i + 1] == 110 && s[i + 2] == 100 {
            Some(TokenKind::End)
        } else if s[i] == 102 && s[i + 1] == 111 && s[i + 2] == 114 {
            Some(TokenKind::For)
        } else if s[i] == 97 && s[i + 1] == 110 && s[i + 2] == 100 {
            Some(TokenKind::And)
        } else {
            None
        }
    } else if n == 4 {
        if s[i] == 101 && s[i + 1] == 108 && s[i + 2] == 115 && s[i + 3] == 101 {
            Some(TokenKind::Else)
        } else if s[i] == 116 && s[i + 1] == 104 && s[i + 2] == 101 && s[i + 3] == 110 {
            Some(TokenKind::Then)
        } else if s[i] == 103 && s[i + 1] == 111 && s[i + 2] == 116 && s[i + 3] == 111 {
            Some(TokenKind::Goto)
        } else if s[i] == 116 && s[i + 1] == 114 && s[i + 2] == 117 && s[i + 3] == 101 {
            Some(TokenKind::Bool)
        } else {
            None
        }
    } else if n == 5 {
        if s[i] == 108 && s[i + 1] == 111 && s[i + 2] == 99 && s[i + 3] == 97 && s[i + 4] == 108 {
            Some(TokenKind::Local)
        } else if s[i] == 98 && s[i + 1] == 114 && s[i + 2] == 101 && s[i + 3] == 97 && s[i + 4]
            == 107 {
            Some(TokenKind::Break)
        } else if s[i] == 119 && s[i + 1] == 104 && s[i + 2] == 105 && s[i + 3] == 108 && s[i + 4]
            == 101 {
            Some(TokenKind::While)
        } else if s[i] == 117 && s[i + 1] == 110 && s[i + 2] == 116 && s[i + 3] == 105 && s[i + 4]
            == 108 {
            Some(TokenKind::Until)
        } else if s[i] == 102 && s[i + 1] == 97 && s[i + 2] == 108 && s[i + 3] == 115 && s[i + 4]
            == 101 {
            Some(TokenKind::Bool)
        } else {
            None
        }
    } else if n == 6 {
        if s[i] == 101 && s[i + 1] == 108 && s[i + 2] == 115 && s[i + 3] == 101 && s[i + 4] == 105
            && s[i + 5] == 102 {
            Some(TokenKind::Elseif)
        } else if s[i] == 114 && s[i + 1] == 101 && s[i + 2] == 112 && s[i + 3] == 101 && s[i + 4]
            == 97 && s[i + 5] == 116 {
            Some(TokenKind::Repeat)
        } else {
            None
        }
    } else if n == 8 {
        if s[i] == 102 && s[i + 1] == 117 && s[i + 2] == 110 && s[i + 3] == 99 && s[i + 4] == 116
            && s[i + 5] == 105 && s[i + 6] == 111 && s[i + 7] == 110 {
            Some(TokenKind::Function)
        } else {
            None
        }
    } else {
        None
    }
}

/// How many bytes the exponent part matches at `i`, executably.
pub fn exp_end(s: &[u8], i: usize) -> (l: usize)
    requires
        i <= s@.len(),
    ensures
        l as int == exp_len(s@, i as int),
        i + l <= s@.len(),
{
    if i < s.len() && (s[i] == 101 || s[i] == 69) {
        let j = if i + 1 < s.len() && (s[i + 1] == 43 || s[i + 1] == 45) {
            i + 2
        } else {
            i + 1
        };
        let e = scan_digits(s, j);
        if e > j {
            e - i
        } else {
            0
        }
    } else {
        0
    }
}

/// How many bytes the integer rule matches at `i`, executably.
pub fn int_end(s: &[u8], i: usize) -> (l: usize)
    requires
        i < s@.len(),
    ensures
        l as int == int_len(s@, i as int),
{
    if s[i] == 48 && i + 1 < s.len() && s[i + 1] == 120 && i + 2 < s.len() && hex_digit_byte(
        s[i + 2],
    ) {
        let e = scan_hex(s, i + 2);
        e - i
    } else {
        let e = scan_digits(s, i);
        e - i
    }
}

/// How many bytes the float rule matches at `i`, executably.
pub fn float_end(s: &[u8], i: usize) -> (l: usize)
    requires
        i < s@.len(),
    ensures
        l as int == float_len(s@, i as int),
{
    let e1 = scan_digits(s, i);
    if e1 > i {
        if e1 < s.len() && s[e1] == 46 {
            let e2 = scan_digits(s, e1 + 1);
            let el = exp_end(s, e2);
            (e2 - i) + el
        } else {
            let el = exp_end(s, e1);
            if el > 0 {
                (e1 - i) + el
            } else {
                0
            }
        }
    } else if s[i] == 46 {
        let e2 = scan_digits(s, i + 1);
        if e2 > i + 1 {
            let el = exp_end(s, e2);
            (e2 - i) + el
        } else {
            0
        }
    } else {
        0
    }
}

/// Finds the winning rule at position `i`: the kind it recognizes and
/// how many bytes it consumes, or nothing when no rule matches there.
pub fn match_at(s: &[u8], i: usize) -> (r: Option<(TokenKind, usize)>)
    requires
        i < s@.len(),
    ensures
        match best_match(s@, i as int) {
            Some((k, l)) => r == Some((k, l as usize)) && 1 <= l && i + l <= s@.len(),
            None => r == None::<(TokenKind, usize)>,
        },
{
    proof {
        lemma_best_match(s@, i as int);
    }
    let b = s[i];
    if name_start_byte(b) {
        let e = scan_name(s, i + 1);
        let n = e - i;
        match keyword_lookup(s, i, n) {
            Some(k) => Some((k, n)),
            None => Some((TokenKind::Name, n)),
        }
    } else if digit_byte(b) || b == 46 {
        proof {
            lemma_digit_run(s@, i as int + 1);
            if i + 2 < s@.len() {
                lemma_hex_run(s@, i as int + 2);
            }
        }
        let fl = float_end(s, i);
        let il = int_end(s, i);
        if fl > il {
            Some((TokenKind::Float, fl))
        } else if il > 0 {
            Some((TokenKind::Int, il))
        } else if i + 1 < s.len() && s[i + 1] == 46 {
            Some((TokenKind::DoubleDot, 2))
        } else {
            Some((TokenKind::Dot, 1))
        }
    } else if b == 45 {
        if i + 1 < s.len() && s[i + 1] == 45 {
            let e = scan_nonbreak(s, i + 2);
            Some((TokenKind::Comment, e - i))
        } else {
            Some((TokenKind::Sub, 1))
        }
    } else if b == 34 || b == 39 {
        match quote_end(s, i + 1, b) {
            Some(e) => Some((TokenKind::QuotedString, e - i)),
            None => None,
        }
    } else if b == 61 {
        Some((TokenKind::Equal, 1))
    } else if b == 43 {
        Some((TokenKind::Plus, 1))
    } else if b == 42 {
        Some((TokenKind::Mul, 1))
    } else if b == 47 {
        if i + 1 < s.len() && s[i + 1] == 47 {
            Some((TokenKind::DivToInt, 2))
        } else {
            Some((TokenKind::Div, 1))
        }
    } else if b == 59 {
        Some((TokenKind::Semicolon, 1))
    } else if b == 44 {
        Some((TokenKind::Comma, 1))
    } else if b == 62 {
        Some((TokenKind::Gt, 1))
    } else if b == 60 {
        Some((TokenKind::Lt, 1))
    } else if b == 40 {
        Some((TokenKind::ParenthesesLeft, 1))
    } else if b == 41 {
        Some((TokenKind::ParenthesesRight, 1))
    } else {
        None
    }
}

} // verus!
