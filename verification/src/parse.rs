//! The first command-line parser: one program with its arguments, an
//! optional input file (`<file`), an optional output file (`>file`) and a
//! background marker (`&`), all separated by white space.

use vstd::prelude::*;
use vstd::string::StringExecFns;

use crate::lang::parser::lexer::copy_range;
use crate::lang::variable_expansion::opt_view;
use crate::text::{is_space, split_from, split_range, split_whitespace, string_of, trim, trim_bounds, trim_end, trim_start, views};

verus! {

/// A program and its arguments.
#[derive(Clone, Debug, PartialEq)]
pub struct ParseCommand {
    /// The program to execute.
    pub program: String,
    /// The arguments to the program.
    pub args: Vec<String>,
}

/// Mathematical form of a `ParseCommand`.
pub struct SpecParseCommand {
    pub program: Seq<char>,
    pub args: Seq<Seq<char>>,
}

impl View for ParseCommand {
    type V = SpecParseCommand;

    open spec fn view(&self) -> SpecParseCommand {
        SpecParseCommand { program: self.program@, args: views(self.args@) }
    }
}

/// The view of each command of a sequence.
pub open spec fn command_views(v: Seq<ParseCommand>) -> Seq<SpecParseCommand> {
    v.map_values(|c: ParseCommand| c@)
}

/// The view of each string slice of a sequence.
pub open spec fn str_views(v: Seq<&str>) -> Seq<Seq<char>> {
    v.map_values(|s: &str| s@)
}

/// Builds a `ParseCommand`.
#[derive(Clone, Debug)]
pub struct ParseCommandBuilder {
    pub program: String,
    pub args: Vec<String>,
}

impl ParseCommandBuilder {
    /// A builder for `program` with no arguments.
    pub fn new(program: &str) -> (b: ParseCommandBuilder)
        ensures
            b.program@ == program@,
            b.args@.len() == 0,
    {
        ParseCommandBuilder { program: program.to_owned(), args: Vec::new() }
    }

    /// Adds an argument.
    pub fn arg(&mut self, arg: &str) -> (r: &mut ParseCommandBuilder)
        ensures
            r.program@ == old(self).program@,
            views(r.args@) == views(old(self).args@).push(arg@),
            *final(self) == *final(r),
    {
        let ghost before = self.args@;
        self.args.push(arg.to_owned());
        assert(views(self.args@) =~= views(before).push(arg@));
        self
    }

    /// Adds arguments, in order.
    pub fn args(&mut self, args: &[&str]) -> (r: &mut ParseCommandBuilder)
        ensures
            r.program@ == old(self).program@,
            views(r.args@) == views(old(self).args@) + str_views(args@),
            *final(self) == *final(r),
    {
        let ghost start = views(self.args@);
        for i in 0..args.len()
            invariant
                self.program@ == old(self).program@,
                start == views(old(self).args@),
                views(self.args@) == start + str_views(args@).take(i as int),
        {
            let ghost before = self.args@;
            self.args.push(args[i].to_owned());
            assert(views(self.args@) =~= views(before).push(args@[i as int]@));
            assert(str_views(args@).take(i + 1) =~= str_views(args@).take(i as int).push(
                args@[i as int]@,
            ));
            assert(start + str_views(args@).take(i + 1) =~= (start + str_views(args@).take(
                i as int,
            )).push(args@[i as int]@));
        }
        assert(str_views(args@).take(args@.len() as int) =~= str_views(args@));
        self
    }

    /// The command built so far.
    pub fn build(self) -> (c: ParseCommand)
        ensures
            c.program == self.program,
            c.args == self.args,
    {
        ParseCommand { program: self.program, args: self.args }
    }
}

/// The error of a line that does not parse.
#[derive(Debug)]
pub enum ParseError {
    /// Holds the line.
    SyntaxError(String),
}

impl ParseError {
    /// The text that describes the error.
    pub fn message(&self) -> (m: String)
        ensures
            m@ == (match self {
                ParseError::SyntaxError(line) => "-bsh: syntax error in line `"@ + line@ + "`"@,
            }),
    {
        match self {
            ParseError::SyntaxError(line) => {
                let mut m = crate::errors::concat("-bsh: syntax error in line `", line.as_str());
                m.append("`");
                m
            },
        }
    }
}

/// Everything a command line asks for.
#[derive(Clone, Debug, PartialEq)]
pub struct ParseJob {
    /// The command line, for messages.
    pub command: String,
    /// The file to read standard input from, if any.
    pub infile: Option<String>,
    /// The file to write standard output to, if any.
    pub outfile: Option<String>,
    /// Whether the job runs in the background.
    pub background: bool,
    /// The commands to run.
    pub commands: Vec<ParseCommand>,
}

/// Mathematical form of a `ParseJob`.
pub struct SpecParseJob {
    pub command: Seq<char>,
    pub infile: Option<Seq<char>>,
    pub outfile: Option<Seq<char>>,
    pub background: bool,
    pub commands: Seq<SpecParseCommand>,
}

impl View for ParseJob {
    type V = SpecParseJob;

    open spec fn view(&self) -> SpecParseJob {
        SpecParseJob {
            command: self.command@,
            infile: opt_view(self.infile),
            outfile: opt_view(self.outfile),
            background: self.background,
            commands: command_views(self.commands@),
        }
    }
}

/// What the scan of the arguments has gathered: whether a `<` or `>` waits
/// for its file name, the files, the background marker and the arguments.
pub struct ScanState {
    pub infile_pending: bool,
    pub outfile_pending: bool,
    pub infile: Option<Seq<char>>,
    pub outfile: Option<Seq<char>>,
    pub background: bool,
    pub args: Seq<Seq<char>>,
}

/// The state before any argument is scanned.
pub open spec fn scan_start() -> ScanState {
    ScanState {
        infile_pending: false,
        outfile_pending: false,
        infile: None,
        outfile: None,
        background: false,
        args: Seq::empty(),
    }
}

/// The state after scanning `arg` in state `st`.
pub open spec fn scan_step(st: ScanState, arg: Seq<char>) -> ScanState {
    if arg.len() > 0 && arg[0] == '<' && !st.infile_pending {
        if arg.len() > 1 {
            ScanState { infile: Some(arg.drop_first()), ..st }
        } else {
            ScanState { infile_pending: true, ..st }
        }
    } else if st.infile_pending {
        ScanState { infile: Some(arg), infile_pending: false, ..st }
    } else if arg.len() > 0 && arg[0] == '>' && !st.outfile_pending {
        if arg.len() > 1 {
            ScanState { outfile: Some(arg.drop_first()), ..st }
        } else {
            ScanState { outfile_pending: true, ..st }
        }
    } else if st.outfile_pending {
        ScanState { outfile: Some(arg), outfile_pending: false, ..st }
    } else if arg.len() > 0 && arg[0] == '&' {
        ScanState { background: true, ..st }
    } else {
        ScanState { args: st.args.push(arg), ..st }
    }
}

/// The state after scanning all of `args`.
pub open spec fn scan(args: Seq<Seq<char>>) -> ScanState
    decreases args.len(),
{
    if args.len() == 0 {
        scan_start()
    } else {
        scan_step(scan(args.drop_last()), args.last())
    }
}

/// What a command line parses to.
pub enum ParseOutcome {
    /// The line holds nothing but white space.
    Empty,
    /// A `<` or `>` has no file name after it.
    SyntaxError,
    Job(SpecParseJob),
}

/// What the command line `input` parses to.
pub open spec fn parse_job(input: Seq<char>) -> ParseOutcome {
    let line = trim(input);
    let argv = split_whitespace(line);
    if argv.len() == 0 {
        ParseOutcome::Empty
    } else {
        let st = scan(argv.drop_first());
        if st.infile_pending || st.outfile_pending {
            ParseOutcome::SyntaxError
        } else {
            ParseOutcome::Job(
                SpecParseJob {
                    command: line,
                    infile: st.infile,
                    outfile: st.outfile,
                    background: st.background,
                    commands: seq![SpecParseCommand { program: argv[0], args: st.args }],
                },
            )
        }
    }
}

impl ParseJob {
    /// Parses a command line: `Ok(None)` for a blank line, an error when a
    /// `<` or `>` has no file name, else the job.
    pub fn parse(input: &str) -> (r: Result<Option<ParseJob>, ParseError>)
        ensures
            match parse_job(input@) {
                ParseOutcome::Empty => r matches Ok(None),
                ParseOutcome::SyntaxError => r matches Err(ParseError::SyntaxError(line))
                    && line@ == input@,
                ParseOutcome::Job(job) => r matches Ok(Some(j)) && j@ == job,
            },
    {
        let chars = crate::text::chars_of(input);
        let (a, b) = trim_bounds(&chars);
        let trimmed = string_of(copy_range(&chars, a, b).as_slice());
        let argv = split_range(&chars, a, b);
        let ghost av = argv@.map_values(|w: Vec<char>| w@);
        if argv.len() == 0 {
            return Ok(None);
        }
        let mut info = ParseJobBuilder::new(trimmed.as_str());
        let first = string_of(argv[0].as_slice());
        let mut cmd = ParseCommandBuilder::new(first.as_str());
        let mut infile = false;
        let mut outfile = false;
        let mut i: usize = 1;
        assert(av.drop_first().take(0) =~= Seq::<Seq<char>>::empty());
        assert(views(cmd.args@) =~= Seq::<Seq<char>>::empty());
        while i < argv.len()
            invariant
                1 <= i <= argv@.len(),
                av == argv@.map_values(|w: Vec<char>| w@),
                ({
                    let st = scan(av.drop_first().take(i - 1));
                    &&& st.infile_pending == infile
                    &&& st.outfile_pending == outfile
                    &&& st.infile == opt_view(info.infile)
                    &&& st.outfile == opt_view(info.outfile)
                    &&& st.background == info.background
                    &&& st.args == views(cmd.args@)
                }),
                info.command@ == trimmed@,
                command_views(info.commands@).len() == 0,
                cmd.program@ == first@,
            decreases argv@.len() - i,
        {
            let arg = &argv[i];
            let ghost st = scan(av.drop_first().take(i - 1));
            proof {
                assert(av.drop_first().take(i as int).drop_last() =~= av.drop_first().take(i - 1));
                assert(av.drop_first().take(i as int).last() == arg@);
            }
            let starts_lt = arg.len() > 0 && arg[0] == '<';
            let starts_gt = arg.len() > 0 && arg[0] == '>';
            let starts_amp = arg.len() > 0 && arg[0] == '&';
            if starts_lt && !infile {
                if arg.len() > 1 {
                    let name = string_of(copy_range(arg, 1, arg.len()).as_slice());
                    assert(name@ =~= arg@.drop_first());
                    info.infile(name.as_str());
                } else {
                    infile = true;
                }
            } else if infile {
                let name = string_of(arg.as_slice());
                info.infile(name.as_str());
                infile = false;
            } else if starts_gt && !outfile {
                if arg.len() > 1 {
                    let name = string_of(copy_range(arg, 1, arg.len()).as_slice());
                    assert(name@ =~= arg@.drop_first());
                    info.outfile(name.as_str());
                } else {
                    outfile = true;
                }
            } else if outfile {
                let name = string_of(arg.as_slice());
                info.outfile(name.as_str());
                outfile = false;
            } else if starts_amp {
                info.background(true);
            } else {
                let word = string_of(arg.as_slice());
                cmd.arg(word.as_str());
            }
            i = i + 1;
        }
        assert(av.drop_first().take(argv@.len() - 1) =~= av.drop_first());
        if infile || outfile {
            return Err(ParseError::SyntaxError(input.to_owned()));
        }
        let built = cmd.build();
        let ghost bv = built@;
        info.command(built);
        assert(command_views(info.commands@) =~= seq![bv]);
        Ok(Some(info.build()))
    }
}

/// Builds a `ParseJob`.
#[derive(Debug)]
pub struct ParseJobBuilder {
    pub command: String,
    pub infile: Option<String>,
    pub outfile: Option<String>,
    pub background: bool,
    pub commands: Vec<ParseCommand>,
}

impl ParseJobBuilder {
    /// A builder for the command line `command`: no files, in the
    /// foreground, no commands.
    pub fn new(command: &str) -> (b: ParseJobBuilder)
        ensures
            b.command@ == command@,
            b.infile is None,
            b.outfile is None,
            !b.background,
            b.commands@.len() == 0,
    {
        ParseJobBuilder {
            command: command.to_owned(),
            infile: None,
            outfile: None,
            background: false,
            commands: Vec::new(),
        }
    }

    /// Reads standard input from `filename`.
    pub fn infile(&mut self, filename: &str) -> (r: &mut ParseJobBuilder)
        ensures
            opt_view(r.infile) == Some(filename@),
            r.command == old(self).command,
            r.outfile == old(self).outfile,
            r.background == old(self).background,
            r.commands == old(self).commands,
            *final(self) == *final(r),
    {
        self.infile = Some(filename.to_owned());
        self
    }

    /// Writes standard output to `filename`.
    pub fn outfile(&mut self, filename: &str) -> (r: &mut ParseJobBuilder)
        ensures
            opt_view(r.outfile) == Some(filename@),
            r.command == old(self).command,
            r.infile == old(self).infile,
            r.background == old(self).background,
            r.commands == old(self).commands,
            *final(self) == *final(r),
    {
        self.outfile = Some(filename.to_owned());
        self
    }

    /// Runs the job in the background or not.
    pub fn background(&mut self, background: bool) -> (r: &mut ParseJobBuilder)
        ensures
            r.background == background,
            r.command == old(self).command,
            r.infile == old(self).infile,
            r.outfile == old(self).outfile,
            r.commands == old(self).commands,
            *final(self) == *final(r),
    {
        self.background = background;
        self
    }

    /// Adds a command.
    pub fn command(&mut self, command: ParseCommand) -> (r: &mut ParseJobBuilder)
        ensures
            r.commands@ == old(self).commands@.push(command),
            r.command == old(self).command,
            r.infile == old(self).infile,
            r.outfile == old(self).outfile,
            r.background == old(self).background,
            *final(self) == *final(r),
    {
        self.commands.push(command);
        self
    }

    /// The job built so far.
    pub fn build(self) -> (j: ParseJob)
        ensures
            j.command == self.command,
            j.infile == self.infile,
            j.outfile == self.outfile,
            j.background == self.background,
            j.commands == self.commands,
    {
        ParseJob {
            command: self.command,
            infile: self.infile,
            outfile: self.outfile,
            background: self.background,
            commands: self.commands,
        }
    }
}

proof fn lemma_trim_start_blank(s: Seq<char>)
    ensures
        (forall|i: int| 0 <= i < s.len() ==> is_space(s[i])) ==> trim_start(s).len() == 0,
        !(forall|i: int| 0 <= i < s.len() ==> is_space(s[i])) ==> trim_start(s).len() > 0
            && !is_space(trim_start(s)[0]),
    decreases s.len(),
{
    if s.len() > 0 {
        lemma_trim_start_blank(s.drop_first());
        if forall|i: int| 0 <= i < s.len() ==> is_space(s[i]) {
            assert forall|i: int| 0 <= i < s.drop_first().len() implies is_space(
                s.drop_first()[i],
            ) by {
                assert(s.drop_first()[i] == s[i + 1]);
            }
        } else if is_space(s[0]) {
            let k = choose|k: int| 0 <= k < s.len() && !is_space(s[k]);
            assert(k > 0);
            assert(s.drop_first()[k - 1] == s[k]);
        }
    }
}

proof fn lemma_trim_end_keeps_start(u: Seq<char>)
    requires
        u.len() > 0,
        !is_space(u[0]),
    ensures
        trim_end(u).len() > 0,
        trim_end(u)[0] == u[0],
    decreases u.len(),
{
    if u.len() > 1 && is_space(u.last()) {
        assert(u.drop_last()[0] == u[0]);
        lemma_trim_end_keeps_start(u.drop_last());
    }
}

proof fn lemma_split_keeps_piece(s: Seq<char>, cur: Seq<char>)
    requires
        cur.len() > 0,
    ensures
        split_from(s, cur).len() > 0,
    decreases s.len(),
{
    if s.len() > 0 && !is_space(s[0]) {
        lemma_split_keeps_piece(s.drop_first(), cur.push(s[0]));
    }
}

/// A line parses to no job exactly when it holds nothing but white space.
pub proof fn lemma_empty_iff_blank(s: Seq<char>)
    ensures
        (parse_job(s) is Empty) <==> (forall|i: int| 0 <= i < s.len() ==> is_space(s[i])),
{
    lemma_trim_start_blank(s);
    if forall|i: int| 0 <= i < s.len() ==> is_space(s[i]) {
        assert(trim(s).len() == 0);
    } else {
        let u = trim_start(s);
        lemma_trim_end_keeps_start(u);
        let t = trim(s);
        assert(t.len() > 0 && !is_space(t[0]));
        lemma_split_keeps_piece(t.drop_first(), Seq::<char>::empty().push(t[0]));
    }
}

} // verus!
