//! `declare` and `unset`: which variables to set or remove, and which
//! arguments are refused.

use vstd::prelude::*;
use vstd::string::StringExecFns;

use crate::builtins::{BuiltinCommand, DECLARE_NAME, UNSET_NAME};
use crate::errors::{Error, ErrorKind};
use crate::lang::parser::lexer::copy_range;
use crate::text::{chars_of, first_line, first_line_of, string_of, views};

verus! {

pub const DECLARE_HELP: &'static str = "\
declare: declare [name[=value] ...]
    Declare a variable and assign it a value.";

pub const UNSET_HELP: &'static str = "\
unset: unset [name ...]
    For each name, remove the corresponding variable.";

/// The `declare` builtin.
pub struct Declare;

/// The `unset` builtin.
pub struct Unset;

impl BuiltinCommand for Declare {
    fn name() -> (r: &'static str)
        ensures
            r@ == DECLARE_NAME@,
    {
        DECLARE_NAME
    }

    fn help() -> (r: &'static str)
        ensures
            r@ == DECLARE_HELP@,
    {
        DECLARE_HELP
    }

    fn usage() -> (r: String)
        ensures
            r@ == first_line(DECLARE_HELP@),
    {
        first_line_of(DECLARE_HELP)
    }
}

impl BuiltinCommand for Unset {
    fn name() -> (r: &'static str)
        ensures
            r@ == UNSET_NAME@,
    {
        UNSET_NAME
    }

    fn help() -> (r: &'static str)
        ensures
            r@ == UNSET_HELP@,
    {
        UNSET_HELP
    }

    fn usage() -> (r: String)
        ensures
            r@ == first_line(UNSET_HELP@),
    {
        first_line_of(UNSET_HELP)
    }
}

/// The index of the first `c` in `s`, or the length of `s`.
pub open spec fn char_index(s: Seq<char>, c: char) -> nat
    decreases s.len(),
{
    if s.len() == 0 || s[0] == c {
        0
    } else {
        1 + char_index(s.drop_first(), c)
    }
}

/// The index of the first `c` in `s`, or the length of `s`.
fn find_char(s: &Vec<char>, c: char) -> (k: usize)
    ensures
        k == char_index(s@, c),
        k <= s@.len(),
{
    let mut k: usize = 0;
    assert(s@.skip(0) =~= s@);
    while k < s.len() && s[k] != c
        invariant
            k <= s@.len(),
            char_index(s@, c) == k + char_index(s@.skip(k as int), c),
        decreases s@.len() - k,
    {
        assert(s@.skip(k as int).drop_first() =~= s@.skip(k + 1));
        k = k + 1;
    }
    assert(char_index(s@.skip(k as int), c) == 0) by {
        if k < s@.len() {
            assert(s@.skip(k as int)[0] == s@[k as int]);
        }
    }
    k
}

/// The name that `declare` reads from `arg`: the text before the first `=`.
pub open spec fn declared_name(arg: Seq<char>) -> Seq<char> {
    arg.take(char_index(arg, '=') as int)
}

/// The value that `declare` reads from `arg`: the text after the first
/// `=`, or nothing.
pub open spec fn declared_value(arg: Seq<char>) -> Seq<char> {
    let k = char_index(arg, '=');
    if k < arg.len() {
        arg.skip(k + 1 as int)
    } else {
        Seq::empty()
    }
}

/// The (name, value) pairs that `declare args` sets, in order.
pub open spec fn declare_assignments(args: Seq<Seq<char>>) -> Seq<(Seq<char>, Seq<char>)>
    decreases args.len(),
{
    if args.len() == 0 {
        Seq::empty()
    } else {
        let rest = declare_assignments(args.drop_last());
        let a = args.last();
        if declared_name(a).len() == 0 {
            rest
        } else {
            rest.push((declared_name(a), declared_value(a)))
        }
    }
}

/// The arguments of `declare` with an empty name, in order.
pub open spec fn declare_refused(args: Seq<Seq<char>>) -> Seq<Seq<char>>
    decreases args.len(),
{
    if args.len() == 0 {
        Seq::empty()
    } else {
        let rest = declare_refused(args.drop_last());
        if declared_name(args.last()).len() == 0 {
            rest.push(args.last())
        } else {
            rest
        }
    }
}

/// Whether `unset` refuses `arg`: it is empty or holds `=`.
pub open spec fn unset_refuses(arg: Seq<char>) -> bool {
    arg.len() == 0 || char_index(arg, '=') < arg.len()
}

/// The names that `unset args` removes, in order.
pub open spec fn unset_names(args: Seq<Seq<char>>) -> Seq<Seq<char>>
    decreases args.len(),
{
    if args.len() == 0 {
        Seq::empty()
    } else {
        let rest = unset_names(args.drop_last());
        if unset_refuses(args.last()) {
            rest
        } else {
            rest.push(args.last())
        }
    }
}

/// The arguments that `unset` refuses, in order.
pub open spec fn unset_refused(args: Seq<Seq<char>>) -> Seq<Seq<char>>
    decreases args.len(),
{
    if args.len() == 0 {
        Seq::empty()
    } else {
        let rest = unset_refused(args.drop_last());
        if unset_refuses(args.last()) {
            rest.push(args.last())
        } else {
            rest
        }
    }
}

/// One line per refused argument, `<command>: <arg> is not a valid
/// identifier`, joined by newlines.
pub open spec fn refusal_lines(command: Seq<char>, bad: Seq<Seq<char>>) -> Seq<char>
    decreases bad.len(),
{
    if bad.len() == 0 {
        Seq::empty()
    } else {
        let line = command + ": "@ + bad.last() + " is not a valid identifier"@;
        if bad.len() == 1 {
            line
        } else {
            refusal_lines(command, bad.drop_last()) + seq!['\n'] + line
        }
    }
}

/// What a builtin that sets or removes variables does: the changes, in
/// order, and its result.
pub struct EnvPlan<T> {
    pub changes: Vec<T>,
    pub result: Result<(), Error>,
}

/// The result of refusing `bad`: success when nothing is refused, else a
/// failure with code 1 listing the refused arguments.
pub open spec fn refusal_result(command: Seq<char>, bad: Seq<Seq<char>>, r: Result<(), Error>) -> bool {
    if bad.len() == 0 {
        r is Ok
    } else {
        r matches Err(e) && e.kind matches ErrorKind::BuiltinCommand { message, code } && message@
            == refusal_lines(command, bad) && code == 1
    }
}

/// Builds the refusal result for the refused arguments `bad`.
fn refusal(command: &str, bad: &Vec<String>) -> (r: Result<(), Error>)
    ensures
        refusal_result(command@, views(bad@), r),
{
    if bad.len() == 0 {
        return Ok(());
    }
    let mut msg = String::new();
    for i in 0..bad.len()
        invariant
            msg@ == refusal_lines(command@, views(bad@).take(i as int)),
    {
        let ghost before = msg@;
        assert(views(bad@).take(i + 1).drop_last() =~= views(bad@).take(i as int));
        assert(views(bad@).take(i + 1).last() == bad@[i as int]@);
        if i > 0 {
            crate::text::push_char(&mut msg, '\n');
        }
        msg.append(command);
        msg.append(": ");
        msg.append(bad[i].as_str());
        msg.append(" is not a valid identifier");
        proof {
            let line = command@ + ": "@ + bad@[i as int]@ + " is not a valid identifier"@;
            if i == 0 {
                assert(msg@ =~= line);
            } else {
                assert(msg@ =~= before + seq!['\n'] + line);
            }
        }
    }
    assert(views(bad@).take(bad@.len() as int) =~= views(bad@));
    Err(Error::builtin_command(msg.as_str(), 1))
}

/// What `declare args` does: sets `name=value` for each argument with a
/// nonempty name (the value is empty without `=`), and fails with code 1
/// naming each argument whose name is empty.
pub fn declare_plan(args: &[String]) -> (p: EnvPlan<(String, String)>)
    ensures
        p.changes@.map_values(|kv: (String, String)| (kv.0@, kv.1@)) == declare_assignments(
            views(args@),
        ),
        refusal_result("declare"@, declare_refused(views(args@)), p.result),
{
    let ghost av = views(args@);
    let mut changes: Vec<(String, String)> = Vec::new();
    let mut bad: Vec<String> = Vec::new();
    for i in 0..args.len()
        invariant
            av == views(args@),
            changes@.map_values(|kv: (String, String)| (kv.0@, kv.1@)) == declare_assignments(
                av.take(i as int),
            ),
            views(bad@) == declare_refused(av.take(i as int)),
    {
        let ghost before_c = changes@.map_values(|kv: (String, String)| (kv.0@, kv.1@));
        let ghost before_b = views(bad@);
        let ghost a = args@[i as int]@;
        assert(av.take(i + 1).drop_last() =~= av.take(i as int));
        assert(av.take(i + 1).last() == a);
        let chars = chars_of(args[i].as_str());
        let k = find_char(&chars, '=');
        if k == 0 {
            bad.push(crate::text::copy_string(&args[i]));
            assert(views(bad@) =~= before_b.push(a));
        } else {
            let name = string_of(copy_range(&chars, 0, k).as_slice());
            let value = if k < chars.len() {
                string_of(copy_range(&chars, k + 1, chars.len()).as_slice())
            } else {
                String::new()
            };
            assert(name@ =~= declared_name(a));
            assert(value@ =~= declared_value(a));
            changes.push((name, value));
            assert(changes@.map_values(|kv: (String, String)| (kv.0@, kv.1@)) =~= before_c.push(
                (declared_name(a), declared_value(a)),
            ));
        }
    }
    assert(av.take(args@.len() as int) =~= av);
    proof {
        reveal_strlit("declare");
    }
    let result = refusal("declare", &bad);
    EnvPlan { changes, result }
}

/// What `unset args` does: removes each named variable, and fails with
/// code 1 naming each argument that is empty or holds `=`.
pub fn unset_plan(args: &[String]) -> (p: EnvPlan<String>)
    ensures
        views(p.changes@) == unset_names(views(args@)),
        refusal_result("unset"@, unset_refused(views(args@)), p.result),
{
    let ghost av = views(args@);
    let mut changes: Vec<String> = Vec::new();
    let mut bad: Vec<String> = Vec::new();
    for i in 0..args.len()
        invariant
            av == views(args@),
            views(changes@) == unset_names(av.take(i as int)),
            views(bad@) == unset_refused(av.take(i as int)),
    {
        let ghost before_c = views(changes@);
        let ghost before_b = views(bad@);
        let ghost a = args@[i as int]@;
        assert(av.take(i + 1).drop_last() =~= av.take(i as int));
        assert(av.take(i + 1).last() == a);
        let chars = chars_of(args[i].as_str());
        let k = find_char(&chars, '=');
        if chars.len() == 0 || k < chars.len() {
            bad.push(crate::text::copy_string(&args[i]));
            assert(views(bad@) =~= before_b.push(a));
        } else {
            changes.push(crate::text::copy_string(&args[i]));
            assert(views(changes@) =~= before_c.push(a));
        }
    }
    assert(av.take(args@.len() as int) =~= av);
    let result = refusal("unset", &bad);
    EnvPlan { changes, result }
}

} // verus!
