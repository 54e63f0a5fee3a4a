//! The command history: numbering of entries, access by absolute position
//! and history expansion (`!n`, `!-n`, `!text`).
//!
//! The entries are kept by rustyline's `rustyline::history::History`; reading lines from the
//! terminal and the history file are the caller's business.

use vstd::prelude::*;
use vstd::string::StringExecFns;

use rustyline::history::SearchDirection;
use rustyline::Config;

use crate::errors::{Error, ErrorKind};
use crate::num::{decimal, parse_int, parse_isize, u64_to_string};
use crate::text::{chars_of, copy_string, string_of};

verus! {

/// rustyline's history of entered lines.
#[verifier::external_type_specification]
#[verifier::external_body]
pub struct ExHistory(rustyline::history::History);

/// The entries of a history, oldest first.
pub uninterp spec fn history_entries(h: rustyline::history::History) -> Seq<Seq<char>>;

/// The greatest number of entries a history keeps.
pub uninterp spec fn history_max_len(h: rustyline::history::History) -> nat;

/// Whether a history refuses lines that start with white space.
pub uninterp spec fn history_ignores_space(h: rustyline::history::History) -> bool;

/// Whether a history refuses a line equal to its last entry.
pub uninterp spec fn history_ignores_dups(h: rustyline::history::History) -> bool;

/// Whether `t` occurs in `s`.
pub open spec fn has_substring(s: Seq<char>, t: Seq<char>) -> bool {
    exists|k: int| 0 <= k && k + t.len() <= s.len() && #[trigger] s.subrange(k, k + t.len()) == t
}

/// The greatest index `i <= start` whose entry contains `term`.
pub open spec fn last_match(entries: Seq<Seq<char>>, term: Seq<char>, start: int) -> Option<int>
    decreases start + 1,
{
    if start < 0 {
        None
    } else if has_substring(entries[start], term) {
        Some(start)
    } else {
        last_match(entries, term, start - 1)
    }
}

proof fn lemma_last_match_bounds(entries: Seq<Seq<char>>, term: Seq<char>, start: int)
    ensures
        last_match(entries, term, start) matches Some(i) ==> 0 <= i <= start,
    decreases start + 1,
{
    if start >= 0 && !has_substring(entries[start], term) {
        lemma_last_match_bounds(entries, term, start - 1);
    }
}

/// Whether a history with entries `e`, limit `max_len` and the given
/// settings accepts `line`.
pub open spec fn accepts_line(
    e: Seq<Seq<char>>,
    max_len: nat,
    ignore_space: bool,
    ignore_dups: bool,
    line: Seq<char>,
) -> bool {
    &&& max_len != 0
    &&& line.len() != 0
    &&& !(ignore_space && crate::text::is_space(line[0]))
    &&& !(ignore_dups && e.len() > 0 && e.last() == line)
}

/// A new, empty history that keeps at most `capacity` entries, refuses a
/// line equal to its last entry, and refuses lines that start with white
/// space when `ignore_space` is set.
///
/// Calls `rustyline::history::History::with_config` with a `Config` built from
/// `max_history_size(capacity)` and `history_ignore_space(ignore_space)`; the
/// contract claims the history starts empty with these settings (rustyline's
/// default refuses consecutive duplicates).
#[verifier::external_body]
pub(crate) fn new_history(capacity: usize, ignore_space: bool) -> (h: rustyline::history::History)
    ensures
        history_entries(h) == Seq::<Seq<char>>::empty(),
        history_max_len(h) == capacity,
        history_ignores_space(h) == ignore_space,
        history_ignores_dups(h),
{
    rustyline::history::History::with_config(
        Config::builder().max_history_size(capacity).history_ignore_space(ignore_space).build(),
    )
}

/// Calls `rustyline::history::History::add`. The contract claims what its source shows: the
/// line is refused when the limit is 0, when the line is empty, starts with
/// white space (if so configured) or equals the last entry (if so
/// configured); otherwise it is appended, after the oldest entry is dropped
/// when the history is at its limit.
#[verifier::external_body]
pub(crate) fn history_add(h: &mut rustyline::history::History, line: &str) -> (added: bool)
    ensures
        added == accepts_line(
            history_entries(*old(h)),
            history_max_len(*old(h)),
            history_ignores_space(*old(h)),
            history_ignores_dups(*old(h)),
            line@,
        ),
        added ==> history_entries(*final(h)) == (if history_entries(*old(h)).len()
            == history_max_len(*old(h)) {
            history_entries(*old(h)).drop_first()
        } else {
            history_entries(*old(h))
        }).push(line@),
        !added ==> history_entries(*final(h)) == history_entries(*old(h)),
        history_max_len(*final(h)) == history_max_len(*old(h)),
        history_ignores_space(*final(h)) == history_ignores_space(*old(h)),
        history_ignores_dups(*final(h)) == history_ignores_dups(*old(h)),
{
    h.add(line)
}

/// Calls `rustyline::history::History::get`: the entry at `index`, if there is one.
#[verifier::external_body]
pub(crate) fn history_get(h: &rustyline::history::History, index: usize) -> (r: Option<&String>)
    ensures
        match r {
            Some(s) => index < history_entries(*h).len() && s@ == history_entries(*h)[index as int],
            None => index >= history_entries(*h).len(),
        },
{
    h.get(index)
}

/// Calls `rustyline::history::History::len`: the number of entries.
#[verifier::external_body]
pub(crate) fn history_len(h: &rustyline::history::History) -> (n: usize)
    ensures
        n == history_entries(*h).len(),
{
    h.len()
}

/// Calls `rustyline::history::History::set_max_len`: sets the limit and keeps only the newest
/// `len` entries.
#[verifier::external_body]
pub(crate) fn history_set_max_len(h: &mut rustyline::history::History, len: usize)
    ensures
        history_max_len(*final(h)) == len,
        history_entries(*final(h)) == if history_entries(*old(h)).len() > len {
            history_entries(*old(h)).skip(history_entries(*old(h)).len() - len)
        } else {
            history_entries(*old(h))
        },
        history_ignores_space(*final(h)) == history_ignores_space(*old(h)),
        history_ignores_dups(*final(h)) == history_ignores_dups(*old(h)),
{
    h.set_max_len(len)
}

/// Calls `rustyline::history::History::clear`: drops every entry, keeping the settings.
#[verifier::external_body]
pub(crate) fn history_clear(h: &mut rustyline::history::History)
    ensures
        history_entries(*final(h)) == Seq::<Seq<char>>::empty(),
        history_max_len(*final(h)) == history_max_len(*old(h)),
        history_ignores_space(*final(h)) == history_ignores_space(*old(h)),
        history_ignores_dups(*final(h)) == history_ignores_dups(*old(h)),
{
    h.clear()
}

/// Calls `rustyline::history::History::search` backwards from `start`: the index of the nearest
/// entry at or before `start` that contains `term`; none when `term` is
/// empty or `start` is past the last entry.
#[verifier::external_body]
pub(crate) fn history_search_back(h: &rustyline::history::History, term: &str, start: usize) -> (r: Option<usize>)
    ensures
        match r {
            Some(i) => !(term@.len() == 0 || start >= history_entries(*h).len()) && last_match(
                history_entries(*h),
                term@,
                start as int,
            ) == Some(i as int),
            None => term@.len() == 0 || start >= history_entries(*h).len() || last_match(
                history_entries(*h),
                term@,
                start as int,
            ) is None,
        },
{
    h.search(term, start, SearchDirection::Reverse).map(|found| found.idx)
}

/// The entry at absolute position `pos` of a history holding the newest
/// entries of `count` added, with room for `capacity`.
pub(crate) fn entry_at_position(h: &rustyline::history::History, count: usize, capacity: usize, pos: usize) -> (r:
    Option<&String>)
    ensures
        match r {
            Some(s) => entry_at(history_entries(*h), count as nat, capacity as nat, pos as int)
                == Some(s@),
            None => entry_at(history_entries(*h), count as nat, capacity as nat, pos as int) is None,
        },
{
    let begin = count.saturating_sub(capacity);
    if pos < begin || pos > count {
        return None;
    }
    history_get(h, pos - begin)
}

/// The entry that the event `arg` designates.
pub(crate) fn find_event<'a>(h: &'a rustyline::history::History, count: usize, capacity: usize, arg: &String) -> (r:
    Option<&'a String>)
    requires
        parse_int(arg@, true, isize::MIN as int, isize::MAX as int) is None ==> count > 0,
    ensures
        match r {
            Some(s) => resolve_event(history_entries(*h), count as nat, capacity as nat, arg@)
                == Some(s@),
            None => resolve_event(history_entries(*h), count as nat, capacity as nat, arg@) is None,
        },
{
    match parse_isize(arg.as_str()) {
        Some(n) => {
            if n == 0 {
                None
            } else if n > 0 {
                entry_at_position(h, count, capacity, (n - 1) as usize)
            } else {
                let m: usize = if n == isize::MIN {
                    (isize::MAX as usize) + 1
                } else {
                    (-n) as usize
                };
                if count >= m {
                    entry_at_position(h, count, capacity, count - m)
                } else {
                    None
                }
            }
        },
        None => {
            proof {
                lemma_last_match_bounds(history_entries(*h), arg@, count - 1);
            }
            match history_search_back(h, arg.as_str(), count - 1) {
                Some(idx) => history_get(h, idx),
                None => None,
            }
        },
    }
}

/// The line editor's history: rustyline's entries, the number of lines ever
/// added, and the capacity.
pub struct Editor {
    pub internal: rustyline::history::History,
    /// The number of history entries ever added.
    pub history_count: usize,
    pub history_capacity: usize,
}

/// The absolute position of the oldest entry kept: `count - capacity`, or 0.
pub open spec fn first_position(count: nat, capacity: nat) -> nat {
    if count > capacity {
        (count - capacity) as nat
    } else {
        0
    }
}

/// The entry at absolute position `pos`.
pub open spec fn entry_at(e: Seq<Seq<char>>, count: nat, capacity: nat, pos: int) -> Option<
    Seq<char>,
> {
    let begin = first_position(count, capacity);
    if pos < begin || pos > count || pos - begin >= e.len() {
        None
    } else {
        Some(e[pos - begin])
    }
}

/// The result of a history expansion.
pub enum Expansion {
    /// The line does not start with `!`.
    Unchanged,
    /// The line is replaced by this entry.
    Replaced(Seq<char>),
    /// No entry matches.
    NotFound,
}

/// The entry that the event `arg` designates: a number `n > 0` is the
/// entry at position `n - 1`, a number `-n` the entry `n` positions before
/// `count`, any other text the newest entry before `count` containing it.
pub open spec fn resolve_event(e: Seq<Seq<char>>, count: nat, capacity: nat, arg: Seq<char>) -> Option<
    Seq<char>,
> {
    match parse_int(arg, true, isize::MIN as int, isize::MAX as int) {
        Some(n) => if n == 0 {
            None
        } else if n > 0 {
            entry_at(e, count, capacity, n - 1)
        } else if count >= -n {
            entry_at(e, count, capacity, count + n)
        } else {
            None
        },
        None => if count - 1 >= e.len() || arg.len() == 0 {
            None
        } else {
            match last_match(e, arg, count - 1) {
                Some(i) => Some(e[i]),
                None => None,
            }
        },
    }
}

/// The expansion of `cmd` against the entries `e`: the event is what
/// follows the leading `!`.
pub open spec fn expansion(e: Seq<Seq<char>>, count: nat, capacity: nat, cmd: Seq<char>) -> Expansion {
    if !(cmd.len() > 0 && cmd[0] == '!') {
        Expansion::Unchanged
    } else {
        match resolve_event(e, count, capacity, cmd.drop_first()) {
            Some(line) => Expansion::Replaced(line),
            None => Expansion::NotFound,
        }
    }
}

/// Whether expanding `cmd` searches the history backwards from the entry
/// before position `count`, which needs `count > 0`.
pub open spec fn expansion_searches(cmd: Seq<char>) -> bool {
    &&& cmd.len() > 0
    &&& cmd[0] == '!'
    &&& parse_int(cmd.drop_first(), true, isize::MIN as int, isize::MAX as int) is None
}

/// The numbered entries that are listed: from the oldest position kept, as
/// long as an entry is found.
pub open spec fn listed_entries(e: Seq<Seq<char>>, count: nat, capacity: nat) -> Seq<(nat, Seq<char>)> {
    let begin = first_position(count, capacity);
    let n = if e.len() < count - begin + 1 {
        e.len() as int
    } else {
        count - begin + 1
    };
    Seq::new(n as nat, |i: int| ((begin + i) as nat, e[i]))
}

/// One listed line: a tab, the 1-based number, a tab, the entry.
pub open spec fn listing_line(item: (nat, Seq<char>)) -> Seq<char> {
    seq!['\t'] + decimal(item.0 + 1) + seq!['\t'] + item.1
}

/// The lines of `items` joined by newlines.
pub open spec fn join_lines(items: Seq<(nat, Seq<char>)>) -> Seq<char>
    decreases items.len(),
{
    if items.len() == 0 {
        Seq::empty()
    } else if items.len() == 1 {
        listing_line(items[0])
    } else {
        join_lines(items.drop_last()) + seq!['\n'] + listing_line(items.last())
    }
}

/// The lines of `items`, each ended by a newline.
pub open spec fn listing(items: Seq<(nat, Seq<char>)>) -> Seq<char>
    decreases items.len(),
{
    if items.len() == 0 {
        Seq::empty()
    } else {
        listing(items.drop_last()) + listing_line(items.last()) + seq!['\n']
    }
}

impl Editor {
    /// The entries of the history.
    pub open spec fn entries(&self) -> Seq<Seq<char>> {
        history_entries(self.internal)
    }

    /// An editor whose history keeps `history_capacity` entries and leaves
    /// out lines that start with white space.
    pub fn with_capacity(history_capacity: usize) -> (e: Editor)
        ensures
            e.entries() == Seq::<Seq<char>>::empty(),
            history_max_len(e.internal) == history_capacity,
            history_ignores_space(e.internal),
            history_ignores_dups(e.internal),
            e.history_count == 0,
            e.history_capacity == history_capacity,
    {
        Editor { internal: new_history(history_capacity, true), history_count: 0, history_capacity }
    }

    /// The history.
    pub fn history(&self) -> (h: &rustyline::history::History)
        ensures
            *h == self.internal,
    {
        &self.internal
    }

    /// Adds `job` to the history; counts it when the history accepts it.
    pub fn add_history_entry(&mut self, job: &str)
        requires
            old(self).history_count < usize::MAX,
        ensures
            ({
                let added = accepts_line(
                    old(self).entries(),
                    history_max_len(old(self).internal),
                    history_ignores_space(old(self).internal),
                    history_ignores_dups(old(self).internal),
                    job@,
                );
                &&& final(self).history_count == if added {
                    old(self).history_count + 1
                } else {
                    old(self).history_count as int
                }
                &&& added ==> final(self).entries() == (if old(self).entries().len()
                    == history_max_len(old(self).internal) {
                    old(self).entries().drop_first()
                } else {
                    old(self).entries()
                }).push(job@)
                &&& !added ==> final(self).entries() == old(self).entries()
            }),
            history_max_len(final(self).internal) == history_max_len(old(self).internal),
            history_ignores_space(final(self).internal) == history_ignores_space(
                old(self).internal,
            ),
            history_ignores_dups(final(self).internal) == history_ignores_dups(old(self).internal),
            final(self).history_capacity == old(self).history_capacity,
    {
        if history_add(&mut self.internal, job) {
            self.history_count += 1;
        }
    }

    /// The entry at absolute position `abs_pos`, counting every entry ever
    /// added from 0.
    pub fn get_history_entry(&self, abs_pos: usize) -> (r: Option<&String>)
        ensures
            match r {
                Some(s) => entry_at(
                    self.entries(),
                    self.history_count as nat,
                    self.history_capacity as nat,
                    abs_pos as int,
                ) == Some(s@),
                None => entry_at(
                    self.entries(),
                    self.history_count as nat,
                    self.history_capacity as nat,
                    abs_pos as int,
                ) is None,
            },
    {
        entry_at_position(&self.internal, self.history_count, self.history_capacity, abs_pos)
    }

    /// Sets the capacity, keeping the newest `size` entries.
    pub fn set_history_max_size(&mut self, size: usize)
        ensures
            history_max_len(final(self).internal) == size,
            final(self).entries() == if old(self).entries().len() > size {
                old(self).entries().skip(old(self).entries().len() - size)
            } else {
                old(self).entries()
            },
            final(self).history_capacity == size,
            final(self).history_count == old(self).history_count,
            history_ignores_space(final(self).internal) == history_ignores_space(
                old(self).internal,
            ),
            history_ignores_dups(final(self).internal) == history_ignores_dups(old(self).internal),
    {
        history_set_max_len(&mut self.internal, size);
        self.history_capacity = size;
    }

    /// The number of entries ever added.
    pub fn get_history_count(&self) -> (n: usize)
        ensures
            n == self.history_count,
    {
        self.history_count
    }

    /// Drops every entry and resets the count.
    pub fn clear_history(&mut self)
        ensures
            final(self).entries() == Seq::<Seq<char>>::empty(),
            final(self).history_count == 0,
            final(self).history_capacity == old(self).history_capacity,
            history_max_len(final(self).internal) == history_max_len(old(self).internal),
            history_ignores_space(final(self).internal) == history_ignores_space(
                old(self).internal,
            ),
            history_ignores_dups(final(self).internal) == history_ignores_dups(old(self).internal),
    {
        history_clear(&mut self.internal);
        self.history_count = 0;
    }

    /// Performs history expansion on `command`: `!n` is the entry numbered
    /// `n` (from 1), `!-n` the `n`th newest, `!text` the newest entry that
    /// contains `text`. A line that does not start with `!` is kept; when
    /// no entry matches, the error says `<command>: event not found`.
    pub fn expand_history(&self, command: &mut String) -> (r: Result<(), Error>)
        requires
            expansion_searches(old(command)@) ==> self.history_count > 0,
        ensures
            match expansion(
                self.entries(),
                self.history_count as nat,
                self.history_capacity as nat,
                old(command)@,
            ) {
                Expansion::Unchanged => r is Ok && final(command)@ == old(command)@,
                Expansion::Replaced(line) => r is Ok && final(command)@ == line,
                Expansion::NotFound => {
                    &&& final(command)@ == old(command)@
                    &&& r matches Err(e) && e.kind matches ErrorKind::BuiltinCommand {
                        message,
                        code,
                    } && message@ == old(command)@ + ": event not found"@ && code == 1
                },
            },
    {
        let chars = chars_of(command.as_str());
        if !(chars.len() > 0 && chars[0] == '!') {
            return Ok(());
        }
        let arg = string_of(crate::lang::parser::lexer::copy_range(&chars, 1, chars.len()).as_slice());
        assert(arg@ =~= command@.drop_first());
        let entry = find_event(&self.internal, self.history_count, self.history_capacity, &arg);
        match entry {
            Some(line) => {
                let replaced = copy_string(line);
                *command = replaced;
                Ok(())
            },
            None => {
                let message = crate::errors::concat(command.as_str(), ": event not found");
                Err(Error::builtin_command(message.as_str(), 1))
            },
        }
    }

    /// The numbered entries, from the oldest position kept.
    pub fn enumerate_history_entries(&self) -> (v: Vec<(usize, String)>)
        ensures
            v@.len() == listed_entries(
                self.entries(),
                self.history_count as nat,
                self.history_capacity as nat,
            ).len(),
            forall|i: int|
                0 <= i < v@.len() ==> (#[trigger] v@[i]).0 == listed_entries(
                    self.entries(),
                    self.history_count as nat,
                    self.history_capacity as nat,
                )[i].0 && v@[i].1@ == listed_entries(
                    self.entries(),
                    self.history_count as nat,
                    self.history_capacity as nat,
                )[i].1,
    {
        let ghost items = listed_entries(
            self.entries(),
            self.history_count as nat,
            self.history_capacity as nat,
        );
        let ghost e = self.entries();
        let start = self.history_count.saturating_sub(self.history_capacity);
        let mut v: Vec<(usize, String)> = Vec::new();
        let mut pos = start;
        loop
            invariant_except_break
                v@.len() == pos - start,
            invariant
                start == first_position(self.history_count as nat, self.history_capacity as nat),
                start <= pos,
                e == self.entries(),
                items == listed_entries(e, self.history_count as nat, self.history_capacity as nat),
                v@.len() <= items.len(),
                forall|i: int|
                    0 <= i < v@.len() ==> (#[trigger] v@[i]).0 == items[i].0 && v@[i].1@
                        == items[i].1,
            ensures
                v@.len() == items.len(),
                forall|i: int|
                    0 <= i < v@.len() ==> (#[trigger] v@[i]).0 == items[i].0 && v@[i].1@
                        == items[i].1,
            decreases items.len() - v@.len(),
        {
            match self.get_history_entry(pos) {
                Some(entry) => {
                    let ghost before = v@;
                    assert(pos - start < items.len());
                    v.push((pos, copy_string(entry)));
                    assert forall|i: int| 0 <= i < v@.len() implies (#[trigger] v@[i]).0
                        == items[i].0 && v@[i].1@ == items[i].1 by {
                        if i < before.len() {
                            assert(v@[i] == before[i]);
                        }
                    }
                    if pos == usize::MAX {
                        assert(items.len() <= v@.len());
                        break;
                    }
                    pos = pos + 1;
                },
                None => {
                    break;
                },
            }
        }
        v
    }

    /// Every listed entry as `\tn\tentry`, each line ended by a newline.
    pub fn display(&self) -> (s: String)
        requires
            self.history_count < usize::MAX,
        ensures
            s@ == listing(
                listed_entries(
                    self.entries(),
                    self.history_count as nat,
                    self.history_capacity as nat,
                ),
            ),
    {
        let ghost items = listed_entries(
            self.entries(),
            self.history_count as nat,
            self.history_capacity as nat,
        );
        let v = self.enumerate_history_entries();
        assert forall|k: int| 0 <= k < items.len() implies #[trigger] items[k].0
            <= self.history_count by {}
        let mut s = String::new();
        for i in 0..v.len()
            invariant
                self.history_count < usize::MAX,
                forall|k: int| 0 <= k < items.len() ==> #[trigger] items[k].0 <= self.history_count,
                v@.len() == items.len(),
                forall|k: int| 0 <= k < v@.len() ==> (#[trigger] v@[k]).0 == items[k].0 && v@[k].1@
                    == items[k].1,
                s@ == listing(items.take(i as int)),
        {
            let line = numbered_line(v[i].0, v[i].1.as_str());
            s.append(line.as_str());
            crate::text::push_char(&mut s, '\n');
            assert(items.take(i + 1).drop_last() =~= items.take(i as int));
            assert(items.take(i + 1).last() == items[i as int]);
        }
        assert(items.take(v@.len() as int) =~= items);
        s
    }
}

/// `\t{pos + 1}\t{entry}`.
pub(crate) fn numbered_line(pos: usize, entry: &str) -> (s: String)
    requires
        pos < usize::MAX,
    ensures
        s@ == listing_line((pos as nat, entry@)),
{
    let mut s = String::new();
    crate::text::push_char(&mut s, '\t');
    let number: u64 = pos as u64 + 1;
    s.append(u64_to_string(number).as_str());
    crate::text::push_char(&mut s, '\t');
    s.append(entry);
    s
}

/// The last `n_last_entries` listed entries (all of them when there are
/// fewer) as `\tn\tentry` lines joined by newlines.
pub fn history_display(state: &Editor, n_last_entries: usize) -> (s: String)
    requires
        state.history_count < usize::MAX,
    ensures
        ({
            let items = listed_entries(
                state.entries(),
                state.history_count as nat,
                state.history_capacity as nat,
            );
            let skip = if items.len() > n_last_entries {
                items.len() - n_last_entries
            } else {
                0
            };
            s@ == join_lines(items.skip(skip))
        }),
{
    let ghost items = listed_entries(
        state.entries(),
        state.history_count as nat,
        state.history_capacity as nat,
    );
    let v = state.enumerate_history_entries();
    let num_to_skip = v.len().saturating_sub(n_last_entries);
    assert forall|k: int| 0 <= k < items.len() implies #[trigger] items[k].0
        <= state.history_count by {}
    let ghost shown = items.skip(num_to_skip as int);
    let mut s = String::new();
    let mut i = num_to_skip;
    assert(shown.take(0) =~= Seq::<(nat, Seq<char>)>::empty());
    while i < v.len()
        invariant
            state.history_count < usize::MAX,
            forall|k: int| 0 <= k < items.len() ==> #[trigger] items[k].0 <= state.history_count,
            v@.len() == items.len(),
            forall|k: int| 0 <= k < v@.len() ==> (#[trigger] v@[k]).0 == items[k].0 && v@[k].1@
                == items[k].1,
            num_to_skip <= i <= v@.len(),
            shown == items.skip(num_to_skip as int),
            s@ == join_lines(shown.take(i - num_to_skip)),
        decreases v@.len() - i,
    {
        let ghost before = s@;
        let line = numbered_line(v[i].0, v[i].1.as_str());
        if i > num_to_skip {
            crate::text::push_char(&mut s, '\n');
        }
        s.append(line.as_str());
        proof {
            let k = i - num_to_skip;
            assert(shown.take(k + 1).drop_last() =~= shown.take(k));
            assert(shown.take(k + 1).last() == items[i as int]);
            if k == 0 {
                assert(s@ =~= listing_line(shown.take(1)[0]));
            } else {
                assert(s@ =~= before + seq!['\n'] + listing_line(shown.take(k + 1).last()));
            }
        }
        i = i + 1;
    }
    assert(shown.take(i - num_to_skip) =~= shown);
    s
}

/// The entries of a history that has taken `count` lines and keeps
/// `capacity`: the newest `min(count, capacity)` of them.
pub open spec fn history_consistent(e: Seq<Seq<char>>, count: nat, capacity: nat) -> bool {
    e.len() == if count < capacity {
        count
    } else {
        capacity
    }
}

/// What a read gives back of a write: once a line is taken, the entry at
/// the position it was numbered with is that line, every entry still kept
/// keeps its number, and the history stays consistent.
pub proof fn lemma_history_read_after_write(
    e: Seq<Seq<char>>,
    count: nat,
    capacity: nat,
    ignore_space: bool,
    ignore_dups: bool,
    line: Seq<char>,
)
    requires
        history_consistent(e, count, capacity),
        accepts_line(e, capacity, ignore_space, ignore_dups, line),
    ensures
        ({
            let e2 = (if e.len() == capacity {
                e.drop_first()
            } else {
                e
            }).push(line);
            &&& entry_at(e2, count + 1, capacity, count as int) == Some(line)
            &&& history_consistent(e2, count + 1, capacity)
            &&& forall|pos: int|
                first_position(count + 1, capacity) <= pos < count ==> entry_at(
                    e2,
                    count + 1,
                    capacity,
                    pos,
                ) == entry_at(e, count, capacity, pos)
        }),
{
    let e2 = (if e.len() == capacity {
        e.drop_first()
    } else {
        e
    }).push(line);
    assert forall|pos: int|
        first_position(count + 1, capacity) <= pos < count implies entry_at(
        e2,
        count + 1,
        capacity,
        pos,
    ) == entry_at(e, count, capacity, pos) by {
        if count < capacity {
            assert(e2[pos] == e[pos]);
        } else {
            let b = first_position(count, capacity);
            assert(e2[pos - b - 1] == e[pos - b]);
        }
    }
}

/// History events name entries: with `count` lines taken (at most the
/// capacity), `!n` expands to the `n`th line taken and `!-n` to the `n`th
/// newest.
pub proof fn lemma_events_name_entries(e: Seq<Seq<char>>, count: nat, capacity: nat, n: int)
    requires
        history_consistent(e, count, capacity),
        count <= capacity,
        1 <= n <= count,
        count <= isize::MAX,
    ensures
        expansion(e, count, capacity, seq!['!'] + crate::num::signed_decimal(n))
            == Expansion::Replaced(e[n - 1]),
        expansion(e, count, capacity, seq!['!'] + crate::num::signed_decimal(-n))
            == Expansion::Replaced(e[count - n]),
{
    let pos = seq!['!'] + crate::num::signed_decimal(n);
    let neg = seq!['!'] + crate::num::signed_decimal(-n);
    assert(pos.drop_first() =~= crate::num::signed_decimal(n));
    assert(neg.drop_first() =~= crate::num::signed_decimal(-n));
    crate::num::lemma_signed_decimal_parses(n, isize::MIN as int, isize::MAX as int);
    crate::num::lemma_signed_decimal_parses(-n, isize::MIN as int, isize::MAX as int);
}

} // verus!
