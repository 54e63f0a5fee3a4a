//! The grammar of the command language over tokens.
//!
//! ```text
//! command := simple (connector command)?
//! simple  := part+ "&"?
//! part    := word | ("<" | ">") word | ("<&" | ">&") number
//! ```
//!
//! Connectors associate to the right: `a | b ; c` is `a | (b ; c)`.

use vstd::prelude::*;

use crate::lang::parser::ast::{
    Command, Connector, Redirect, Redirectee, SimpleCommandBuilder, SimpleCommandPart,
    SpecCommand, SpecRedirect, SpecRedirectee, redirect_views,
};
use crate::lang::parser::lexer::{SpecToken, Token, token_views};
use crate::text::{string_of, views};

verus! {

/// Mathematical form of a `SimpleCommandPart`.
pub enum SpecPart {
    Word(Seq<char>),
    Redirect(SpecRedirect),
}

impl View for SimpleCommandPart {
    type V = SpecPart;

    open spec fn view(&self) -> SpecPart {
        match self {
            SimpleCommandPart::Word(w) => SpecPart::Word(w@),
            SimpleCommandPart::Redirect(r) => SpecPart::Redirect(r@),
        }
    }
}

/// The view of each part of a sequence.
pub open spec fn part_views(v: Seq<SimpleCommandPart>) -> Seq<SpecPart> {
    v.map_values(|p: SimpleCommandPart| p@)
}

/// The redirectee naming descriptor `fd`, if there is one.
pub open spec fn fd_redirectee(fd: Option<i32>) -> Option<SpecRedirectee> {
    match fd {
        Some(n) => Some(SpecRedirectee::FileDescriptor(n)),
        None => None,
    }
}

/// The part that `ts` starts with and the number of tokens it takes, or
/// `None` when `ts` does not start with a part.
pub open spec fn part_of(ts: Seq<SpecToken>) -> Option<(SpecPart, nat)> {
    if ts.len() == 0 {
        None
    } else {
        match ts[0] {
            SpecToken::Word(w) => Some((SpecPart::Word(w), 1)),
            SpecToken::RedirectTo { fd, instruction } => if ts.len() > 1 && ts[1] is Word {
                Some(
                    (
                        SpecPart::Redirect(
                            SpecRedirect {
                                redirector: fd_redirectee(fd),
                                instruction,
                                redirectee: SpecRedirectee::Filename(ts[1]->Word_0),
                            },
                        ),
                        2,
                    ),
                )
            } else {
                None
            },
            SpecToken::RedirectToFd { fd, instruction, target } => Some(
                (
                    SpecPart::Redirect(
                        SpecRedirect {
                            redirector: fd_redirectee(fd),
                            instruction,
                            redirectee: SpecRedirectee::FileDescriptor(target),
                        },
                    ),
                    1,
                ),
            ),
            _ => None,
        }
    }
}

/// The longest run of parts at the front of `ts`, and the number of tokens
/// it takes.
pub open spec fn parts(ts: Seq<SpecToken>) -> (Seq<SpecPart>, nat)
    decreases ts.len(),
{
    match part_of(ts) {
        Some((p, n)) => if 0 < n <= ts.len() {
            let rest = parts(ts.skip(n as int));
            (seq![p] + rest.0, n + rest.1)
        } else {
            (Seq::empty(), 0)
        },
        None => (Seq::empty(), 0),
    }
}

/// The words among `ps`, in order.
pub open spec fn words_of(ps: Seq<SpecPart>) -> Seq<Seq<char>>
    decreases ps.len(),
{
    if ps.len() == 0 {
        Seq::empty()
    } else {
        match ps.last() {
            SpecPart::Word(w) => words_of(ps.drop_last()).push(w),
            SpecPart::Redirect(_) => words_of(ps.drop_last()),
        }
    }
}

/// The redirections among `ps`, in order.
pub open spec fn redirects_of(ps: Seq<SpecPart>) -> Seq<SpecRedirect>
    decreases ps.len(),
{
    if ps.len() == 0 {
        Seq::empty()
    } else {
        match ps.last() {
            SpecPart::Word(_) => redirects_of(ps.drop_last()),
            SpecPart::Redirect(r) => redirects_of(ps.drop_last()).push(r),
        }
    }
}

/// The simple command at the front of `ts` and the number of tokens it
/// takes, or `None` when `ts` does not start with one.
pub open spec fn simple(ts: Seq<SpecToken>) -> Option<(SpecCommand, nat)> {
    let (ps, n) = parts(ts);
    if ps.len() == 0 {
        None
    } else {
        let background = n < ts.len() && ts[n as int] is Ampersand;
        Some(
            (
                SpecCommand::Simple {
                    words: words_of(ps),
                    redirects: redirects_of(ps),
                    background,
                },
                if background {
                    n + 1
                } else {
                    n
                },
            ),
        )
    }
}

/// The connector that a token stands for.
pub open spec fn connector_of(t: SpecToken) -> Option<Connector> {
    match t {
        SpecToken::Pipe => Some(Connector::Pipe),
        SpecToken::Semicolon => Some(Connector::Semicolon),
        SpecToken::And => Some(Connector::And),
        SpecToken::Or => Some(Connector::Or),
        _ => None,
    }
}

/// The command that the whole of `ts` forms, or `None` if it forms none.
pub open spec fn command(ts: Seq<SpecToken>) -> Option<SpecCommand>
    decreases ts.len(),
{
    match simple(ts) {
        None => None,
        Some((first, m)) => if m == ts.len() {
            Some(first)
        } else if m < ts.len() {
            match connector_of(ts[m as int]) {
                Some(connector) => match command(ts.skip(m + 1 as int)) {
                    Some(second) => Some(
                        SpecCommand::Connection {
                            first: Box::new(first),
                            second: Box::new(second),
                            connector,
                        },
                    ),
                    None => None,
                },
                None => None,
            }
        } else {
            None
        },
    }
}

proof fn lemma_parts_bound(ts: Seq<SpecToken>)
    ensures
        parts(ts).1 <= ts.len(),
        parts(ts).0.len() == 0 <==> parts(ts).1 == 0,
    decreases ts.len(),
{
    match part_of(ts) {
        Some((p, n)) => if 0 < n <= ts.len() {
            lemma_parts_bound(ts.skip(n as int));
        },
        None => {},
    }
}

proof fn lemma_skip_skip(ts: Seq<SpecToken>, a: int, b: int)
    requires
        0 <= a,
        0 <= b,
        a + b <= ts.len(),
    ensures
        ts.skip(a).skip(b) == ts.skip(a + b),
{
    assert(ts.skip(a).skip(b) =~= ts.skip(a + b));
}

/// `part_of` for the tokens of `ts` from `pos` on; the part and the number
/// of tokens it takes.
fn part_at(ts: &Vec<Token>, pos: usize) -> (r: Option<(SimpleCommandPart, usize)>)
    requires
        pos <= ts@.len(),
    ensures
        match r {
            Some((p, n)) => part_of(token_views(ts@).skip(pos as int)) == Some((p@, n as nat)),
            None => part_of(token_views(ts@).skip(pos as int)) is None,
        },
        match r {
            Some((_, n)) => 0 < n && n <= ts@.len() - pos,
            None => true,
        },
{
    let ghost tv = token_views(ts@).skip(pos as int);
    if pos >= ts.len() {
        return None;
    }
    assert(tv[0] == ts@[pos as int]@);
    match &ts[pos] {
        Token::Word(w) => Some((SimpleCommandPart::Word(string_of(w.as_slice())), 1)),
        Token::RedirectTo { fd, instruction } => {
            if pos + 1 < ts.len() {
                assert(tv[1] == ts@[pos + 1]@);
                match &ts[pos + 1] {
                    Token::Word(w) => {
                        let redirector = match fd {
                            Some(n) => Some(Redirectee::FileDescriptor(*n)),
                            None => None,
                        };
                        let r = Redirect {
                            redirector,
                            instruction: *instruction,
                            redirectee: Redirectee::Filename(string_of(w.as_slice())),
                        };
                        Some((SimpleCommandPart::Redirect(r), 2))
                    },
                    _ => None,
                }
            } else {
                None
            }
        },
        Token::RedirectToFd { fd, instruction, target } => {
            let redirector = match fd {
                Some(n) => Some(Redirectee::FileDescriptor(*n)),
                None => None,
            };
            let r = Redirect {
                redirector,
                instruction: *instruction,
                redirectee: Redirectee::FileDescriptor(*target),
            };
            Some((SimpleCommandPart::Redirect(r), 1))
        },
        _ => None,
    }
}

/// The simple command at position `pos` of `ts` and the number of tokens it
/// takes, built part by part.
fn simple_at(ts: &Vec<Token>, pos: usize) -> (r: Option<(Command, usize)>)
    requires
        pos <= ts@.len(),
    ensures
        match r {
            Some((c, n)) => simple(token_views(ts@).skip(pos as int)) == Some((c@, n as nat)),
            None => simple(token_views(ts@).skip(pos as int)) is None,
        },
        match r {
            Some((_, n)) => n <= ts@.len() - pos,
            None => true,
        },
{
    let ghost tv = token_views(ts@);
    let mut collected: Vec<SimpleCommandPart> = Vec::new();
    let mut i = pos;
    let total = ts.len();
    proof {
        lemma_parts_bound(tv.skip(pos as int));
        assert(part_views(collected@) =~= Seq::<SpecPart>::empty());
        assert(parts(tv.skip(pos as int)).0 =~= part_views(collected@) + parts(
            tv.skip(pos as int),
        ).0);
    }
    loop
        invariant
            pos <= i <= ts@.len(),
            total == ts@.len(),
            tv == token_views(ts@),
            parts(tv.skip(pos as int)).0 == part_views(collected@) + parts(tv.skip(i as int)).0,
            parts(tv.skip(pos as int)).1 == (i - pos) + parts(tv.skip(i as int)).1,
        ensures
            pos <= i <= ts@.len(),
            parts(tv.skip(pos as int)).0 == part_views(collected@),
            parts(tv.skip(pos as int)).1 == i - pos,
        decreases ts@.len() - i,
    {
        match part_at(ts, i) {
            Some((p, n)) => {
                let ghost pv = p@;
                let ghost before = collected@;
                proof {
                    lemma_skip_skip(tv, i as int, n as int);
                }
                collected.push(p);
                proof {
                    assert(part_views(collected@) =~= part_views(before).push(pv));
                    assert(part_views(before) + (seq![pv] + parts(tv.skip(i + n)).0)
                        =~= part_views(collected@) + parts(tv.skip(i + n)).0);
                }
                i = i + n;
            },
            None => {
                proof {
                    assert(part_views(collected@) + Seq::empty() =~= part_views(collected@));
                }
                break ;
            },
        }
    }
    let n = i - pos;
    if collected.len() == 0 {
        return None;
    }
    let background = if i < ts.len() {
        match &ts[i] {
            Token::Ampersand => true,
            _ => false,
        }
    } else {
        false
    };
    proof {
        if i < ts@.len() {
            assert(tv.skip(pos as int)[n as int] == ts@[i as int]@);
        }
    }
    let ghost ps = part_views(collected@);
    let mut builder = SimpleCommandBuilder::new(background);
    let mut j: usize = 0;
    let len = collected.len();
    let mut rest = collected;
    proof {
        assert(part_views(rest@) =~= ps.skip(0));
        assert(views(builder.words@) =~= words_of(ps.take(0)));
        assert(redirect_views(builder.redirects@) =~= redirects_of(ps.take(0)));
    }
    while j < len
        invariant
            j <= len,
            len == ps.len(),
            rest@.len() == len - j,
            part_views(rest@) == ps.skip(j as int),
            builder.background == background,
            views(builder.words@) == words_of(ps.take(j as int)),
            redirect_views(builder.redirects@) == redirects_of(ps.take(j as int)),
        decreases len - j,
    {
        let ghost before = rest@;
        proof {
            assert(part_views(before)[0] == ps.skip(j as int)[0]);
        }
        let p = rest.remove(0);
        proof {
            assert(part_views(rest@) =~= ps.skip(j + 1)) by {
                assert(part_views(rest@) =~= part_views(before).drop_first());
            }
            assert(ps.take(j + 1).drop_last() =~= ps.take(j as int));
            assert(ps.take(j + 1).last() == ps[j as int]);
        }
        builder = builder.update(p);
        j = j + 1;
    }
    proof {
        assert(ps.take(len as int) =~= ps);
    }
    let c = builder.build();
    if background {
        Some((c, n + 1))
    } else {
        Some((c, n))
    }
}

/// Parses the tokens of `ts` from `pos` to the end into one command.
fn command_at(ts: &Vec<Token>, pos: usize) -> (r: Option<Command>)
    requires
        pos <= ts@.len(),
    ensures
        match r {
            Some(c) => command(token_views(ts@).skip(pos as int)) == Some(c@),
            None => command(token_views(ts@).skip(pos as int)) is None,
        },
    decreases ts@.len() - pos,
{
    let ghost tv = token_views(ts@);
    match simple_at(ts, pos) {
        None => None,
        Some((first, m)) => {
            let total = ts.len();
            if pos + m == total {
                Some(first)
            } else {
                let connector = match &ts[pos + m] {
                    Token::Pipe => Connector::Pipe,
                    Token::Semicolon => Connector::Semicolon,
                    Token::And => Connector::And,
                    Token::Or => Connector::Or,
                    _ => {
                        assert(tv.skip(pos as int)[m as int] == ts@[pos + m]@);
                        return None;
                    },
                };
                assert(tv.skip(pos as int)[m as int] == ts@[pos + m]@);
                proof {
                    lemma_skip_skip(tv, pos as int, m + 1);
                }
                match command_at(ts, pos + m + 1) {
                    Some(second) => Some(
                        Command::Connection {
                            first: Box::new(first),
                            second: Box::new(second),
                            connector,
                        },
                    ),
                    None => None,
                }
            }
        },
    }
}

/// Parses a whole token sequence into one command.
pub fn parse_tokens(ts: &Vec<Token>) -> (r: Option<Command>)
    ensures
        match r {
            Some(c) => command(token_views(ts@)) == Some(c@),
            None => command(token_views(ts@)) is None,
        },
{
    assert(token_views(ts@).skip(0) =~= token_views(ts@));
    command_at(ts, 0)
}

} // verus!
