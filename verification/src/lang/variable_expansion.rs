//! Expansion of `~` and `$NAME` in the words and file names of a command.

use vstd::prelude::*;

use crate::lang::parser::ast::{
    Command, Connector, Redirect, Redirectee, SpecCommand, SpecRedirect, SpecRedirectee,
    command_size, opt_redirectee_view, redirect_views,
};
use crate::lang::parser::ast::visit::Visitor;
use crate::lang::parser::lexer::copy_range;
use crate::text::{chars_of, copy_string, string_of, views};

verus! {

/// The view of each (name, value) pair of a sequence.
pub open spec fn pair_views(v: Seq<(String, String)>) -> Seq<(Seq<char>, Seq<char>)> {
    v.map_values(|p: (String, String)| (p.0@, p.1@))
}

/// The value of the variable `key`: that of its last binding in `vars`.
pub open spec fn lookup(vars: Seq<(Seq<char>, Seq<char>)>, key: Seq<char>) -> Option<Seq<char>>
    decreases vars.len(),
{
    if vars.len() == 0 {
        None
    } else if vars.last().0 == key {
        Some(vars.last().1)
    } else {
        lookup(vars.drop_last(), key)
    }
}

/// The expansion of one word: `~` becomes the home directory, `$NAME` the
/// value of `NAME`, each the empty word when unknown; any other word stays.
pub open spec fn expand_word(
    s: Seq<char>,
    home: Option<Seq<char>>,
    vars: Seq<(Seq<char>, Seq<char>)>,
) -> Seq<char> {
    if s == seq!['~'] {
        match home {
            Some(h) => h,
            None => Seq::empty(),
        }
    } else if s.len() > 0 && s[0] == '$' {
        match lookup(vars, s.drop_first()) {
            Some(v) => v,
            None => Seq::empty(),
        }
    } else {
        s
    }
}

/// The expansion of a redirection target: a file name is expanded.
pub open spec fn expand_redirectee(
    r: SpecRedirectee,
    home: Option<Seq<char>>,
    vars: Seq<(Seq<char>, Seq<char>)>,
) -> SpecRedirectee {
    match r {
        SpecRedirectee::Filename(name) => SpecRedirectee::Filename(expand_word(name, home, vars)),
        SpecRedirectee::FileDescriptor(fd) => SpecRedirectee::FileDescriptor(fd),
    }
}

/// The expansion of a redirection: both of its ends are expanded.
pub open spec fn expand_redirect(
    r: SpecRedirect,
    home: Option<Seq<char>>,
    vars: Seq<(Seq<char>, Seq<char>)>,
) -> SpecRedirect {
    SpecRedirect {
        redirector: match r.redirector {
            Some(x) => Some(expand_redirectee(x, home, vars)),
            None => None,
        },
        instruction: r.instruction,
        redirectee: expand_redirectee(r.redirectee, home, vars),
    }
}

/// The expansion of every word and redirection of a command.
pub open spec fn expand_command(
    c: SpecCommand,
    home: Option<Seq<char>>,
    vars: Seq<(Seq<char>, Seq<char>)>,
) -> SpecCommand
    decreases c,
{
    match c {
        SpecCommand::Simple { words, redirects, background } => SpecCommand::Simple {
            words: words.map_values(|w: Seq<char>| expand_word(w, home, vars)),
            redirects: redirects.map_values(|r: SpecRedirect| expand_redirect(r, home, vars)),
            background,
        },
        SpecCommand::Connection { first, second, connector } => SpecCommand::Connection {
            first: Box::new(expand_command(*first, home, vars)),
            second: Box::new(expand_command(*second, home, vars)),
            connector,
        },
    }
}

/// The view of an optional string.
pub open spec fn opt_view(s: Option<String>) -> Option<Seq<char>> {
    match s {
        Some(x) => Some(x@),
        None => None,
    }
}

/// Expands `~` and `$NAME` in every word and file name of `command`, with
/// `home_dir` as the home directory and `vars` as the variables (the last
/// binding of a name wins).
pub fn expand_variables(
    command: &Command,
    home_dir: Option<String>,
    vars: Vec<(String, String)>,
) -> (c: Command)
    ensures
        c@ == expand_command(command@, opt_view(home_dir), pair_views(vars@)),
{
    let mut variable_expander = VariableExpander::new(home_dir, vars);
    variable_expander.visit_command(command)
}

/// Expands words against a home directory and a set of variables.
pub struct VariableExpander {
    pub home_dir: Option<String>,
    pub vars: Vec<(String, String)>,
}

impl VariableExpander {
    /// An expander for the home directory `home_dir` and the variables `vars`.
    pub fn new(home_dir: Option<String>, vars: Vec<(String, String)>) -> (e: VariableExpander)
        ensures
            opt_view(e.home_dir) == opt_view(home_dir),
            pair_views(e.vars@) == pair_views(vars@),
    {
        VariableExpander { home_dir, vars }
    }

    /// The expansion of the word `s`.
    pub fn expand_variables_word(&self, s: &str) -> (w: String)
        ensures
            w@ == expand_word(s@, opt_view(self.home_dir), pair_views(self.vars@)),
    {
        expand_variables_word(s, &self.home_dir, &self.vars)
    }

    /// The expansion of a redirection target.
    fn expand_redirectee(&self, r: &Redirectee) -> (x: Redirectee)
        ensures
            x@ == expand_redirectee(r@, opt_view(self.home_dir), pair_views(self.vars@)),
    {
        match r {
            Redirectee::Filename(name) => Redirectee::Filename(
                self.expand_variables_word(name.as_str()),
            ),
            Redirectee::FileDescriptor(fd) => Redirectee::FileDescriptor(*fd),
        }
    }
}

/// The value of the last binding of `key` in `vars`.
fn lookup_var(vars: &Vec<(String, String)>, key: &String) -> (r: Option<String>)
    ensures
        opt_view(r) == lookup(pair_views(vars@), key@),
{
    let ghost pv = pair_views(vars@);
    let mut i = vars.len();
    assert(pv.take(i as int) =~= pv);
    while i > 0
        invariant
            i <= vars@.len(),
            pv == pair_views(vars@),
            lookup(pv, key@) == lookup(pv.take(i as int), key@),
        decreases i,
    {
        let entry = &vars[i - 1];
        assert(pv.take(i as int).last() == (entry.0@, entry.1@));
        assert(pv.take(i as int).drop_last() =~= pv.take(i - 1));
        if entry.0 == *key {
            return Some(copy_string(&entry.1));
        }
        i = i - 1;
    }
    None
}

/// The expansion of the word `s`: `~` becomes `home_dir`, `$NAME` the last
/// value bound to `NAME` in `vars`, each the empty word when missing; any
/// other word is kept.
pub fn expand_variables_word(
    s: &str,
    home_dir: &Option<String>,
    vars: &Vec<(String, String)>,
) -> (w: String)
    ensures
        w@ == expand_word(s@, opt_view(*home_dir), pair_views(vars@)),
{
    let chars = chars_of(s);
    if chars.len() == 1 && chars[0] == '~' {
        assert(s@ =~= seq!['~']);
        match home_dir {
            Some(h) => copy_string(h),
            None => String::new(),
        }
    } else if chars.len() > 0 && chars[0] == '$' {
        proof {
            if s@ == seq!['~'] {
                assert(s@[0] == '~');
            }
        }
        let name = copy_range(&chars, 1, chars.len());
        let key = string_of(name.as_slice());
        assert(key@ =~= s@.drop_first());
        match lookup_var(vars, &key) {
            Some(v) => v,
            None => String::new(),
        }
    } else {
        proof {
            if s@ == seq!['~'] {
                assert(s@.len() == 1 && s@[0] == '~');
            }
        }
        s.to_owned()
    }
}

impl Visitor<Command> for VariableExpander {
    fn visit_simple_command(
        &mut self,
        words: &[String],
        redirects: &[Redirect],
        background: bool,
    ) -> (c: Command)
        ensures
            final(self).home_dir == old(self).home_dir,
            final(self).vars == old(self).vars,
            c@ == (SpecCommand::Simple {
                words: views(words@).map_values(
                    |w: Seq<char>| expand_word(w, opt_view(old(self).home_dir), pair_views(old(self).vars@)),
                ),
                redirects: redirect_views(redirects@).map_values(
                    |r: SpecRedirect|
                        expand_redirect(r, opt_view(old(self).home_dir), pair_views(old(self).vars@)),
                ),
                background,
            }),
    {
        let ghost home = opt_view(self.home_dir);
        let ghost vars = pair_views(self.vars@);
        let ghost ws = views(words@).map_values(|w: Seq<char>| expand_word(w, home, vars));
        let ghost rs = redirect_views(redirects@).map_values(
            |r: SpecRedirect| expand_redirect(r, home, vars),
        );
        let mut out_words: Vec<String> = Vec::new();
        for i in 0..words.len()
            invariant
                home == opt_view(self.home_dir),
                vars == pair_views(self.vars@),
                ws == views(words@).map_values(|w: Seq<char>| expand_word(w, home, vars)),
                views(out_words@) == ws.take(i as int),
        {
            let ghost before = out_words@;
            let w = self.expand_variables_word(words[i].as_str());
            out_words.push(w);
            assert(views(out_words@) =~= views(before).push(ws[i as int]));
            assert(ws.take(i + 1) =~= ws.take(i as int).push(ws[i as int]));
        }
        let mut out_redirects: Vec<Redirect> = Vec::new();
        for i in 0..redirects.len()
            invariant
                home == opt_view(self.home_dir),
                vars == pair_views(self.vars@),
                rs == redirect_views(redirects@).map_values(
                    |r: SpecRedirect| expand_redirect(r, home, vars),
                ),
                redirect_views(out_redirects@) == rs.take(i as int),
        {
            let ghost before = out_redirects@;
            let r = &redirects[i];
            let redirector = match &r.redirector {
                Some(x) => Some(self.expand_redirectee(x)),
                None => None,
            };
            let redirectee = self.expand_redirectee(&r.redirectee);
            let expanded = Redirect { redirector, instruction: r.instruction, redirectee };
            assert(expanded@ == rs[i as int]);
            out_redirects.push(expanded);
            assert(redirect_views(out_redirects@) =~= redirect_views(before).push(rs[i as int]));
            assert(rs.take(i + 1) =~= rs.take(i as int).push(rs[i as int]));
        }
        assert(ws.take(words@.len() as int) =~= ws);
        assert(rs.take(redirects@.len() as int) =~= rs);
        Command::Simple { words: out_words, redirects: out_redirects, background }
    }

    fn visit_connection_command(
        &mut self,
        first: &Command,
        second: &Command,
        connector: Connector,
    ) -> (c: Command)
        ensures
            final(self).home_dir == old(self).home_dir,
            final(self).vars == old(self).vars,
            c@ == (SpecCommand::Connection {
                first: Box::new(
                    expand_command(first@, opt_view(old(self).home_dir), pair_views(old(self).vars@)),
                ),
                second: Box::new(
                    expand_command(second@, opt_view(old(self).home_dir), pair_views(old(self).vars@)),
                ),
                connector,
            }),
        decreases 2 * (command_size(first@) + command_size(second@)) + 1,
    {
        let a = self.visit_command(first);
        let b = self.visit_command(second);
        Command::Connection { first: Box::new(a), second: Box::new(b), connector }
    }

    fn visit_command(&mut self, command: &Command) -> (c: Command)
        ensures
            final(self).home_dir == old(self).home_dir,
            final(self).vars == old(self).vars,
            c@ == expand_command(command@, opt_view(old(self).home_dir), pair_views(old(self).vars@)),
        decreases 2 * command_size(command@),
    {
        match command {
            Command::Simple { words, redirects, background } => self.visit_simple_command(
                words.as_slice(),
                redirects.as_slice(),
                *background,
            ),
            Command::Connection { first, second, connector } => self.visit_connection_command(
                first,
                second,
                *connector,
            ),
        }
    }
}

/// Whether `a` and `b` have the same shape: the same connectors in the
/// same places, and simple commands with as many words and redirections
/// and the same background markers.
pub open spec fn same_shape(a: SpecCommand, b: SpecCommand) -> bool
    decreases a,
{
    match (a, b) {
        (
            SpecCommand::Simple { words: w1, redirects: r1, background: b1 },
            SpecCommand::Simple { words: w2, redirects: r2, background: b2 },
        ) => w1.len() == w2.len() && r1.len() == r2.len() && b1 == b2,
        (
            SpecCommand::Connection { first: f1, second: s1, connector: c1 },
            SpecCommand::Connection { first: f2, second: s2, connector: c2 },
        ) => c1 == c2 && same_shape(*f1, *f2) && same_shape(*s1, *s2),
        _ => false,
    }
}

/// Expansion changes words and file names only: the expanded command has
/// the shape of the command it came from, and a redirection keeps its direction and
/// its descriptors.
pub proof fn lemma_expansion_keeps_shape(
    c: SpecCommand,
    home: Option<Seq<char>>,
    vars: Seq<(Seq<char>, Seq<char>)>,
)
    ensures
        same_shape(expand_command(c, home, vars), c),
        crate::lang::intermediate_representation::has_programs(expand_command(c, home, vars))
            == crate::lang::intermediate_representation::has_programs(c),
        crate::lang::intermediate_representation::any_background(expand_command(c, home, vars))
            == crate::lang::intermediate_representation::any_background(c),
    decreases c,
{
    match c {
        SpecCommand::Simple { .. } => {},
        SpecCommand::Connection { first, second, .. } => {
            lemma_expansion_keeps_shape(*first, home, vars);
            lemma_expansion_keeps_shape(*second, home, vars);
        },
    }
}

/// Whether every simple command of `c` has at least one word.
pub fn command_has_programs(c: &Command) -> (b: bool)
    ensures
        b == crate::lang::intermediate_representation::has_programs(c@),
    decreases command_size(c@),
{
    match c {
        Command::Simple { words, .. } => words.len() > 0,
        Command::Connection { first, second, .. } => command_has_programs(first)
            && command_has_programs(second),
    }
}

} // verus!
