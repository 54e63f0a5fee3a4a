//! Splitting a command line into tokens.
//!
//! Blanks separate tokens and are otherwise dropped. The tokens are the
//! connectors `|`, `||`, `&&` and `;`, the background marker `&`, the
//! redirection operators `<` and `>` (with an optional file descriptor written
//! right before them, and an optional `&n` right after them), single- or
//! double-quoted words, and bare words: runs of characters that are neither
//! blanks nor one of `< > | ; & ' "`.

use vstd::prelude::*;

use crate::lang::parser::ast::RedirectInstruction;
use crate::text::{char_is_space, is_space};

verus! {

/// A token of the command language.
#[derive(Debug)]
pub enum Token {
    Word(Vec<char>),
    /// `<` or `>` followed by a word naming a file.
    RedirectTo { fd: Option<i32>, instruction: RedirectInstruction },
    /// `<&n` or `>&n`: a redirection to the open file descriptor `n`.
    RedirectToFd { fd: Option<i32>, instruction: RedirectInstruction, target: i32 },
    Pipe,
    Semicolon,
    And,
    Or,
    Ampersand,
}

/// Mathematical form of a `Token`.
pub enum SpecToken {
    Word(Seq<char>),
    RedirectTo { fd: Option<i32>, instruction: RedirectInstruction },
    RedirectToFd { fd: Option<i32>, instruction: RedirectInstruction, target: i32 },
    Pipe,
    Semicolon,
    And,
    Or,
    Ampersand,
}

impl View for Token {
    type V = SpecToken;

    open spec fn view(&self) -> SpecToken {
        match self {
            Token::Word(w) => SpecToken::Word(w@),
            Token::RedirectTo { fd, instruction } => SpecToken::RedirectTo {
                fd: *fd,
                instruction: *instruction,
            },
            Token::RedirectToFd { fd, instruction, target } => SpecToken::RedirectToFd {
                fd: *fd,
                instruction: *instruction,
                target: *target,
            },
            Token::Pipe => SpecToken::Pipe,
            Token::Semicolon => SpecToken::Semicolon,
            Token::And => SpecToken::And,
            Token::Or => SpecToken::Or,
            Token::Ampersand => SpecToken::Ampersand,
        }
    }
}

/// The view of each token of a sequence.
pub open spec fn token_views(v: Seq<Token>) -> Seq<SpecToken> {
    v.map_values(|t: Token| t@)
}

/// A decimal digit.
pub open spec fn is_digit(c: char) -> bool {
    '0' <= c && c <= '9'
}

/// A character that may stand in a bare word.
pub open spec fn is_word_char(c: char) -> bool {
    &&& !is_space(c)
    &&& c != '<'
    &&& c != '>'
    &&& c != '|'
    &&& c != ';'
    &&& c != '&'
    &&& c != '\''
    &&& c != '"'
}

/// The classes of characters that the lexer scans runs of.
#[derive(Copy, Clone)]
pub enum CharClass {
    Digit,
    WordChar,
    /// Any character but the given closing quote.
    NotQuote(char),
}

/// Membership of `c` in the class `cls`.
pub open spec fn in_class(cls: CharClass, c: char) -> bool {
    match cls {
        CharClass::Digit => is_digit(c),
        CharClass::WordChar => is_word_char(c),
        CharClass::NotQuote(q) => c != q,
    }
}

/// The length of the longest prefix of `s` made of characters of class `cls`.
pub open spec fn run_len(s: Seq<char>, cls: CharClass) -> nat
    decreases s.len(),
{
    if s.len() > 0 && in_class(cls, s[0]) {
        1 + run_len(s.drop_first(), cls)
    } else {
        0
    }
}

/// The number written by a string of decimal digits.
pub open spec fn digits_value(d: Seq<char>) -> int
    decreases d.len(),
{
    if d.len() == 0 {
        0
    } else {
        digits_value(d.drop_last()) * 10 + (d.last() as int - '0' as int)
    }
}

/// The file descriptor written by the digits `d`, if it fits an `i32`.
pub open spec fn fd_of(d: Seq<char>) -> Option<i32> {
    if digits_value(d) <= i32::MAX {
        Some(digits_value(d) as i32)
    } else {
        None
    }
}

/// The direction of a redirection operator character.
pub open spec fn instruction_of(c: char) -> RedirectInstruction {
    if c == '<' {
        RedirectInstruction::Input
    } else {
        RedirectInstruction::Output
    }
}

/// The token of a redirection operator whose optional descriptor prefix is
/// `fd`, given the text `rest` right after the operator; `used` characters
/// precede `rest`. Yields the token and the number of characters consumed.
pub open spec fn redirect_token(
    fd: Option<i32>,
    instruction: RedirectInstruction,
    rest: Seq<char>,
    used: nat,
) -> Option<(Option<SpecToken>, nat)> {
    if rest.len() > 0 && rest[0] == '&' {
        let k = run_len(rest.drop_first(), CharClass::Digit);
        if k == 0 {
            None
        } else {
            match fd_of(rest.subrange(1, k + 1 as int)) {
                Some(target) => Some(
                    (Some(SpecToken::RedirectToFd { fd, instruction, target }), used + 1 + k),
                ),
                None => None,
            }
        }
    } else {
        Some((Some(SpecToken::RedirectTo { fd, instruction }), used))
    }
}

/// The first token of a nonempty `s` (or `None` for a blank) and the number
/// of characters it takes; `None` when `s` starts with no valid token.
pub open spec fn next_token(s: Seq<char>) -> Option<(Option<SpecToken>, nat)> {
    let c = s[0];
    if is_space(c) {
        Some((None, 1))
    } else if c == '&' {
        if s.len() > 1 && s[1] == '&' {
            Some((Some(SpecToken::And), 2))
        } else {
            Some((Some(SpecToken::Ampersand), 1))
        }
    } else if c == '|' {
        if s.len() > 1 && s[1] == '|' {
            Some((Some(SpecToken::Or), 2))
        } else {
            Some((Some(SpecToken::Pipe), 1))
        }
    } else if c == ';' {
        Some((Some(SpecToken::Semicolon), 1))
    } else if c == '\'' || c == '"' {
        let n = run_len(s.drop_first(), CharClass::NotQuote(c));
        if n + 1 < s.len() {
            Some((Some(SpecToken::Word(s.subrange(1, n + 1 as int))), n + 2))
        } else {
            None
        }
    } else {
        let d = run_len(s, CharClass::Digit);
        if d < s.len() && (s[d as int] == '<' || s[d as int] == '>') {
            if d == 0 {
                redirect_token(None, instruction_of(s[0]), s.drop_first(), 1)
            } else {
                match fd_of(s.take(d as int)) {
                    Some(fd) => redirect_token(
                        Some(fd),
                        instruction_of(s[d as int]),
                        s.skip(d + 1 as int),
                        d + 1,
                    ),
                    None => None,
                }
            }
        } else {
            let w = run_len(s, CharClass::WordChar);
            Some((Some(SpecToken::Word(s.take(w as int))), w))
        }
    }
}

/// `prefix` followed by the tokens of `rest`, or `None` if `rest` is `None`.
pub open spec fn prepend(prefix: Seq<SpecToken>, rest: Option<Seq<SpecToken>>) -> Option<
    Seq<SpecToken>,
> {
    match rest {
        Some(r) => Some(prefix + r),
        None => None,
    }
}

/// The tokens of `s`, or `None` if `s` does not split into tokens.
pub open spec fn lex(s: Seq<char>) -> Option<Seq<SpecToken>>
    decreases s.len(),
{
    if s.len() == 0 {
        Some(Seq::empty())
    } else {
        match next_token(s) {
            Some((t, n)) => if 0 < n <= s.len() {
                let rest = lex(s.skip(n as int));
                match t {
                    Some(tok) => prepend(seq![tok], rest),
                    None => rest,
                }
            } else {
                None
            },
            None => None,
        }
    }
}

proof fn lemma_run_len_step(s: Seq<char>, i: int, cls: CharClass)
    requires
        0 <= i < s.len(),
    ensures
        run_len(s.skip(i), cls) == if in_class(cls, s[i]) {
            1 + run_len(s.skip(i + 1), cls)
        } else {
            0
        },
{
    assert(s.skip(i).drop_first() =~= s.skip(i + 1));
}

proof fn lemma_run_len_bound(s: Seq<char>, cls: CharClass)
    ensures
        run_len(s, cls) <= s.len(),
        forall|j: int| 0 <= j < run_len(s, cls) ==> in_class(cls, #[trigger] s[j]),
        run_len(s, cls) < s.len() ==> !in_class(cls, s[run_len(s, cls) as int]),
    decreases s.len(),
{
    if s.len() > 0 && in_class(cls, s[0]) {
        lemma_run_len_bound(s.drop_first(), cls);
        assert forall|j: int| 0 <= j < run_len(s, cls) implies in_class(cls, #[trigger] s[j]) by {
            if j > 0 {
                assert(s[j] == s.drop_first()[j - 1]);
            }
        }
    }
}

/// Decides `in_class`.
fn char_in_class(cls: CharClass, c: char) -> (b: bool)
    ensures
        b == in_class(cls, c),
{
    match cls {
        CharClass::Digit => '0' <= c && c <= '9',
        CharClass::WordChar => !char_is_space(c) && c != '<' && c != '>' && c != '|' && c != ';'
            && c != '&' && c != '\'' && c != '"',
        CharClass::NotQuote(q) => c != q,
    }
}

/// The length of the run of class `cls` that starts at `start`.
pub(crate) fn scan_run(s: &Vec<char>, start: usize, cls: CharClass) -> (n: usize)
    requires
        start <= s@.len(),
    ensures
        n == run_len(s@.skip(start as int), cls),
        start + n <= s@.len(),
{
    let mut i = start;
    while i < s.len() && char_in_class(cls, s[i])
        invariant
            start <= i <= s@.len(),
            run_len(s@.skip(start as int), cls) == (i - start) + run_len(s@.skip(i as int), cls),
        decreases s@.len() - i,
    {
        proof {
            lemma_run_len_step(s@, i as int, cls);
        }
        i = i + 1;
    }
    proof {
        if i < s@.len() {
            lemma_run_len_step(s@, i as int, cls);
        } else {
            assert(s@.skip(i as int).len() == 0);
        }
    }
    i - start
}

/// The characters of `s` from `a` up to `b`.
pub fn copy_range(s: &Vec<char>, a: usize, b: usize) -> (r: Vec<char>)
    requires
        a <= b <= s@.len(),
    ensures
        r@ == s@.subrange(a as int, b as int),
{
    let mut r: Vec<char> = Vec::new();
    let mut i = a;
    while i < b
        invariant
            a <= i <= b <= s@.len(),
            r@ == s@.subrange(a as int, i as int),
        decreases b - i,
    {
        r.push(s[i]);
        assert(s@.subrange(a as int, i + 1) == s@.subrange(a as int, i as int).push(s@[i as int]));
        i = i + 1;
    }
    r
}

proof fn lemma_digits_nonneg(d: Seq<char>)
    requires
        forall|j: int| 0 <= j < d.len() ==> is_digit(#[trigger] d[j]),
    ensures
        digits_value(d) >= 0,
    decreases d.len(),
{
    if d.len() > 0 {
        lemma_digits_nonneg(d.drop_last());
    }
}

/// The file descriptor written by the `len` digits at `start`, if it fits.
fn scan_fd(s: &Vec<char>, start: usize, len: usize) -> (r: Option<i32>)
    requires
        start + len <= s@.len(),
        forall|j: int| start <= j < start + len ==> is_digit(#[trigger] s@[j]),
    ensures
        r == fd_of(s@.subrange(start as int, start + len)),
{
    let ghost d = s@.subrange(start as int, start + len);
    let big: u64 = 0x8000_0000;
    let mut acc: u64 = 0;
    let mut i: usize = 0;
    while i < len
        invariant
            i <= len,
            start + len <= s.len(),
            d == s@.subrange(start as int, start + len),
            forall|j: int| start <= j < start + len ==> is_digit(#[trigger] s@[j]),
            big == 0x8000_0000,
            acc == if digits_value(d.take(i as int)) < big {
                digits_value(d.take(i as int))
            } else {
                big as int
            },
        decreases len - i,
    {
        let c = s[start + i];
        let digit = (c as u32 - '0' as u32) as u64;
        proof {
            assert(d.take(i + 1).drop_last() == d.take(i as int));
            assert(d.take(i + 1).last() == c);
            assert forall|j: int| 0 <= j < d.take(i as int).len() implies is_digit(
                #[trigger] d.take(i as int)[j],
            ) by {
                assert(d.take(i as int)[j] == s@[start + j]);
            }
            lemma_digits_nonneg(d.take(i as int));
        }
        if acc >= big {
            acc = big;
        } else {
            acc = acc * 10 + digit;
            if acc > big {
                acc = big;
            }
        }
        i = i + 1;
    }
    assert(d.take(len as int) == d);
    if acc < big {
        Some(acc as i32)
    } else {
        None
    }
}

/// The view of the result of a lexing step.
pub open spec fn step_view(r: Option<(Option<Token>, usize)>) -> Option<(Option<SpecToken>, nat)> {
    match r {
        Some((t, n)) => Some(
            (
                match t {
                    Some(x) => Some(x@),
                    None => None,
                },
                n as nat,
            ),
        ),
        None => None,
    }
}

/// `redirect_token` for the text of `s` from `rest` on.
fn redirect_token_at(
    s: &Vec<char>,
    fd: Option<i32>,
    instruction: RedirectInstruction,
    rest: usize,
    used: usize,
) -> (r: Option<(Option<Token>, usize)>)
    requires
        used <= rest <= s@.len(),
    ensures
        step_view(r) == redirect_token(fd, instruction, s@.skip(rest as int), used as nat),
        r matches Some((_, n)) ==> n <= used + (s@.len() - rest),
{
    let ghost t = s@.skip(rest as int);
    if rest < s.len() && s[rest] == '&' {
        let k = scan_run(s, rest + 1, CharClass::Digit);
        proof {
            assert(t.drop_first() =~= s@.skip(rest + 1));
        }
        if k == 0 {
            None
        } else {
            proof {
                lemma_run_len_bound(s@.skip(rest + 1), CharClass::Digit);
                assert forall|j: int| rest + 1 <= j < rest + 1 + k implies is_digit(
                    #[trigger] s@[j],
                ) by {
                    assert(s@[j] == s@.skip(rest + 1)[j - rest - 1]);
                }
                assert(t.subrange(1, k + 1 as int) =~= s@.subrange(rest + 1, rest + 1 + k));
            }
            match scan_fd(s, rest + 1, k) {
                Some(target) => Some(
                    (Some(Token::RedirectToFd { fd, instruction, target }), used + 1 + k),
                ),
                None => None,
            }
        }
    } else {
        Some((Some(Token::RedirectTo { fd, instruction }), used))
    }
}

/// `next_token` for the text of `s` from `pos` on.
fn next_token_at(s: &Vec<char>, pos: usize) -> (r: Option<(Option<Token>, usize)>)
    requires
        pos < s.len(),
    ensures
        step_view(r) == next_token(s@.skip(pos as int)),
        r matches Some((_, n)) ==> 0 < n <= s@.len() - pos,
{
    let ghost t = s@.skip(pos as int);
    let c = s[pos];
    assert(t[0] == c);
    if char_is_space(c) {
        Some((None, 1))
    } else if c == '&' {
        if pos + 1 < s.len() && s[pos + 1] == '&' {
            assert(t[1] == s@[pos + 1]);
            Some((Some(Token::And), 2))
        } else {
            Some((Some(Token::Ampersand), 1))
        }
    } else if c == '|' {
        if pos + 1 < s.len() && s[pos + 1] == '|' {
            assert(t[1] == s@[pos + 1]);
            Some((Some(Token::Or), 2))
        } else {
            Some((Some(Token::Pipe), 1))
        }
    } else if c == ';' {
        Some((Some(Token::Semicolon), 1))
    } else if c == '\'' || c == '"' {
        let n = scan_run(s, pos + 1, CharClass::NotQuote(c));
        proof {
            assert(t.drop_first() =~= s@.skip(pos + 1));
        }
        if pos + 1 + n < s.len() {
            let w = copy_range(s, pos + 1, pos + 1 + n);
            assert(t.subrange(1, n + 1 as int) =~= s@.subrange(pos + 1, pos + 1 + n));
            Some((Some(Token::Word(w)), n + 2))
        } else {
            None
        }
    } else {
        let d = scan_run(s, pos, CharClass::Digit);
        proof {
            lemma_run_len_bound(t, CharClass::Digit);
        }
        if pos + d < s.len() && (s[pos + d] == '<' || s[pos + d] == '>') {
            assert(t[d as int] == s@[pos + d]);
            if d == 0 {
                let instruction = if c == '<' {
                    RedirectInstruction::Input
                } else {
                    RedirectInstruction::Output
                };
                assert(t.drop_first() =~= s@.skip(pos + 1));
                redirect_token_at(s, None, instruction, pos + 1, 1)
            } else {
                proof {
                    assert forall|j: int| pos <= j < pos + d implies is_digit(#[trigger] s@[j]) by {
                        assert(s@[j] == t[j - pos]);
                    }
                    assert(t.take(d as int) =~= s@.subrange(pos as int, pos + d));
                    assert(t.skip(d + 1 as int) =~= s@.skip(pos + d + 1));
                }
                match scan_fd(s, pos, d) {
                    Some(fd) => {
                        let instruction = if s[pos + d] == '<' {
                            RedirectInstruction::Input
                        } else {
                            RedirectInstruction::Output
                        };
                        redirect_token_at(s, Some(fd), instruction, pos + d + 1, d + 1)
                    },
                    None => None,
                }
            }
        } else {
            let w = scan_run(s, pos, CharClass::WordChar);
            proof {
                lemma_run_len_bound(t, CharClass::WordChar);
                assert(t.len() > 0 && in_class(CharClass::WordChar, t[0]));
                assert(t.take(w as int) =~= s@.subrange(pos as int, pos + w));
            }
            let word = copy_range(s, pos, pos + w);
            Some((Some(Token::Word(word)), w))
        }
    }
}

/// The tokens of `s`, or `None` when `s` does not split into tokens.
pub fn lex_input(s: &Vec<char>) -> (r: Option<Vec<Token>>)
    ensures
        match r {
            Some(v) => lex(s@) == Some(token_views(v@)),
            None => lex(s@) is None,
        },
{
    let mut toks: Vec<Token> = Vec::new();
    let mut pos: usize = 0;
    assert(s@.skip(0) =~= s@);
    assert(token_views(toks@) =~= Seq::<SpecToken>::empty());
    while pos < s.len()
        invariant
            pos <= s@.len(),
            lex(s@) == prepend(token_views(toks@), lex(s@.skip(pos as int))),
        decreases s@.len() - pos,
    {
        let ghost before = toks@;
        let step = next_token_at(s, pos);
        match step {
            None => {
                return None;
            },
            Some((t, n)) => {
                proof {
                    assert(s@.skip(pos as int).skip(n as int) =~= s@.skip(pos + n));
                }
                match t {
                    Some(tok) => {
                        let ghost tv = tok@;
                        toks.push(tok);
                        proof {
                            assert(token_views(toks@) =~= token_views(before).push(tv));
                            assert(token_views(before) + (seq![tv] + Seq::empty()) =~= token_views(
                                toks@,
                            ) + Seq::empty());
                            match lex(s@.skip(pos + n)) {
                                Some(rest) => {
                                    assert(token_views(before) + (seq![tv] + rest) =~= token_views(
                                        toks@,
                                    ) + rest);
                                },
                                None => {},
                            }
                        }
                    },
                    None => {},
                }
                pos = pos + n;
            },
        }
    }
    assert(s@.skip(pos as int).len() == 0);
    assert(token_views(toks@) + Seq::empty() =~= token_views(toks@));
    Some(toks)
}

proof fn lemma_run_to_quote(c: Seq<char>, q: char, rest: Seq<char>)
    requires
        forall|i: int| 0 <= i < c.len() ==> c[i] != q,
    ensures
        run_len(c + seq![q] + rest, CharClass::NotQuote(q)) == c.len(),
    decreases c.len(),
{
    let s = c + seq![q] + rest;
    if c.len() > 0 {
        assert(s[0] == c[0]);
        assert(s.drop_first() =~= c.drop_first() + seq![q] + rest);
        lemma_run_to_quote(c.drop_first(), q, rest);
    } else {
        assert(s[0] == q);
    }
}

/// Quotes allow special characters: a word in single or double quotes that
/// does not hold its quote is one word token, whatever characters it holds,
/// and lexing goes on right after the closing quote.
pub proof fn lemma_quoted_word(q: char, c: Seq<char>, rest: Seq<char>)
    requires
        q == '\'' || q == '"',
        forall|i: int| 0 <= i < c.len() ==> c[i] != q,
    ensures
        lex(seq![q] + c + seq![q] + rest) == prepend(seq![SpecToken::Word(c)], lex(rest)),
{
    let s = seq![q] + c + seq![q] + rest;
    assert(s[0] == q);
    assert(!is_space(q));
    assert(s.drop_first() =~= c + seq![q] + rest);
    lemma_run_to_quote(c, q, rest);
    assert(s.subrange(1, c.len() + 1 as int) =~= c);
    assert(s.skip(c.len() + 2 as int) =~= rest);
}

/// A run made of characters of class `cls` counts whole in the run of the
/// text it starts.
proof fn lemma_run_len_concat(w: Seq<char>, rest: Seq<char>, cls: CharClass)
    requires
        forall|i: int| 0 <= i < w.len() ==> in_class(cls, #[trigger] w[i]),
    ensures
        run_len(w + rest, cls) == w.len() + run_len(rest, cls),
    decreases w.len(),
{
    if w.len() > 0 {
        let s = w + rest;
        assert(s[0] == w[0]);
        assert(s.drop_first() =~= w.drop_first() + rest);
        assert forall|i: int| 0 <= i < w.drop_first().len() implies in_class(
            cls,
            #[trigger] w.drop_first()[i],
        ) by {
            assert(w.drop_first()[i] == w[i + 1]);
        }
        lemma_run_len_concat(w.drop_first(), rest, cls);
    } else {
        assert(w + rest =~= rest);
    }
}

/// A bare word is one token: a nonempty run of word characters, ended by
/// the end of the line or by a character that cannot stand in a word, lexes
/// to a single word holding the whole run, and lexing goes on after it. The
/// one exception is a run of digits right before `<` or `>`, which names
/// the descriptor of a redirection.
pub proof fn lemma_bare_word(w: Seq<char>, rest: Seq<char>)
    requires
        w.len() > 0,
        forall|i: int| 0 <= i < w.len() ==> is_word_char(#[trigger] w[i]),
        rest.len() > 0 ==> !is_word_char(rest[0]),
        rest.len() > 0 && (rest[0] == '<' || rest[0] == '>') ==> exists|i: int|
            0 <= i < w.len() && !is_digit(#[trigger] w[i]),
    ensures
        lex(w + rest) == prepend(seq![SpecToken::Word(w)], lex(rest)),
{
    let s = w + rest;
    assert(s[0] == w[0]);
    assert(is_word_char(w[0]));
    let d = run_len(s, CharClass::Digit);
    lemma_run_len_bound(s, CharClass::Digit);
    if forall|i: int| 0 <= i < w.len() ==> is_digit(#[trigger] w[i]) {
        assert forall|i: int| 0 <= i < w.len() implies in_class(CharClass::Digit, #[trigger] w[i]) by {}
        lemma_run_len_concat(w, rest, CharClass::Digit);
        if rest.len() > 0 {
            assert(!is_digit(rest[0]));
            assert(run_len(rest, CharClass::Digit) == 0);
            assert(s[w.len() as int] == rest[0]);
            if rest[0] == '<' || rest[0] == '>' {
                let j = choose|i: int| 0 <= i < w.len() && !is_digit(#[trigger] w[i]);
                assert(is_digit(w[j]));
            }
        } else {
            assert(run_len(rest, CharClass::Digit) == 0);
        }
    } else {
        let j = choose|i: int| 0 <= i < w.len() && !is_digit(#[trigger] w[i]);
        assert(s[j] == w[j]);
        assert(d <= j);
        assert(s[d as int] == w[d as int]);
    }
    assert(!(d < s.len() && (s[d as int] == '<' || s[d as int] == '>')));
    assert forall|i: int| 0 <= i < w.len() implies in_class(CharClass::WordChar, #[trigger] w[i]) by {}
    lemma_run_len_concat(w, rest, CharClass::WordChar);
    if rest.len() > 0 {
        assert(run_len(rest, CharClass::WordChar) == 0);
    }
    assert(s.take(w.len() as int) =~= w);
    assert(s.skip(w.len() as int) =~= rest);
}

/// Blanks separate tokens and are dropped: a blank in front of a line
/// changes nothing of its tokens.
pub proof fn lemma_blank_dropped(c: char, rest: Seq<char>)
    requires
        is_space(c),
    ensures
        lex(seq![c] + rest) == lex(rest),
{
    let s = seq![c] + rest;
    assert(s[0] == c);
    assert(s.skip(1) =~= rest);
}

/// A line of white space lexes to no token at all.
pub proof fn lemma_blank_lexes_to_nothing(s: Seq<char>)
    requires
        forall|i: int| 0 <= i < s.len() ==> is_space(s[i]),
    ensures
        lex(s) == Some(Seq::<SpecToken>::empty()),
    decreases s.len(),
{
    if s.len() > 0 {
        assert forall|i: int| 0 <= i < s.skip(1).len() implies is_space(s.skip(1)[i]) by {
            assert(s.skip(1)[i] == s[i + 1]);
        }
        lemma_blank_lexes_to_nothing(s.skip(1));
    }
}

} // verus!
