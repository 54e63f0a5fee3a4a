//! The first form of the command history: the same numbering as the
//! editor's, with history events written `!event` where the event runs up
//! to the first space.

use vstd::prelude::*;
use vstd::string::StringExecFns;


use crate::editor::{
    entry_at, entry_at_position, find_event, first_position, history_add, history_clear,
    history_entries, history_ignores_dups, history_ignores_space, history_max_len,
    history_set_max_len, listing, new_history, resolve_event,
};
use crate::errors::{Error, ErrorKind};
use crate::lang::parser::lexer::{CharClass, copy_range, run_len};
use crate::num::{parse_int, u64_to_string};
use crate::text::{chars_of, copy_string, string_of};

verus! {

/// The event of `cmd`: the characters after a leading `!` up to the first
/// space. It is empty when nothing follows the `!`, and there is none when
/// a space follows it directly.
pub open spec fn event_of(cmd: Seq<char>) -> Option<Seq<char>> {
    if cmd.len() > 0 && cmd[0] == '!' {
        let n = run_len(cmd.drop_first(), CharClass::NotQuote(' '));
        if n > 0 || cmd.len() == 1 {
            Some(cmd.drop_first().take(n as int))
        } else {
            None
        }
    } else {
        None
    }
}

/// The numbered entries listed: from the oldest position kept, below
/// `count`, as long as an entry is found.
pub open spec fn listed_below(e: Seq<Seq<char>>, count: nat, capacity: nat) -> Seq<(nat, Seq<char>)> {
    let begin = first_position(count, capacity);
    let n = if e.len() < count - begin {
        e.len() as int
    } else {
        count - begin
    };
    Seq::new(n as nat, |i: int| ((begin + i) as nat, e[i]))
}

/// The command history: rustyline's entries, the number of entries ever
/// added, and the capacity.
pub struct HistoryState {
    pub internal: rustyline::history::History,
    /// The total number of history items ever saved.
    pub count: usize,
    pub capacity: usize,
}

impl HistoryState {
    /// The entries of the history.
    pub open spec fn entries(&self) -> Seq<Seq<char>> {
        history_entries(self.internal)
    }

    /// A history that keeps `capacity` entries and leaves out lines that
    /// start with white space.
    pub fn with_capacity(capacity: usize) -> (h: HistoryState)
        ensures
            h.entries() == Seq::<Seq<char>>::empty(),
            history_max_len(h.internal) == capacity,
            history_ignores_space(h.internal),
            history_ignores_dups(h.internal),
            h.count == 0,
            h.capacity == capacity,
    {
        HistoryState { internal: new_history(capacity, true), count: 0, capacity }
    }

    /// Adds `job`; counts it when the history accepts it.
    pub fn push(&mut self, job: &str)
        requires
            old(self).count < usize::MAX,
        ensures
            ({
                let added = crate::editor::accepts_line(
                    old(self).entries(),
                    history_max_len(old(self).internal),
                    history_ignores_space(old(self).internal),
                    history_ignores_dups(old(self).internal),
                    job@,
                );
                &&& final(self).count == if added {
                    old(self).count + 1
                } else {
                    old(self).count as int
                }
                &&& added ==> final(self).entries() == (if old(self).entries().len()
                    == history_max_len(old(self).internal) {
                    old(self).entries().drop_first()
                } else {
                    old(self).entries()
                }).push(job@)
                &&& !added ==> final(self).entries() == old(self).entries()
            }),
            history_max_len(final(self).internal) == history_max_len(old(self).internal),
            history_ignores_space(final(self).internal) == history_ignores_space(
                old(self).internal,
            ),
            history_ignores_dups(final(self).internal) == history_ignores_dups(old(self).internal),
            final(self).capacity == old(self).capacity,
    {
        if history_add(&mut self.internal, job) {
            self.count += 1;
        }
    }

    /// The entry at absolute position `abs_pos`.
    pub fn get(&self, abs_pos: usize) -> (r: Option<&String>)
        ensures
            match r {
                Some(s) => entry_at(self.entries(), self.count as nat, self.capacity as nat, abs_pos as int)
                    == Some(s@),
                None => entry_at(self.entries(), self.count as nat, self.capacity as nat, abs_pos as int)
                    is None,
            },
    {
        entry_at_position(&self.internal, self.count, self.capacity, abs_pos)
    }

    /// Sets the capacity, keeping the newest `size` entries.
    pub fn set_size(&mut self, size: usize)
        ensures
            history_max_len(final(self).internal) == size,
            final(self).entries() == if old(self).entries().len() > size {
                old(self).entries().skip(old(self).entries().len() - size)
            } else {
                old(self).entries()
            },
            final(self).capacity == size,
            final(self).count == old(self).count,
    {
        history_set_max_len(&mut self.internal, size);
        self.capacity = size;
    }

    /// The number of entries ever added.
    pub fn count(&self) -> (n: usize)
        ensures
            n == self.count,
    {
        self.count
    }

    /// Drops every entry and resets the count.
    pub fn clear(&mut self)
        ensures
            final(self).entries() == Seq::<Seq<char>>::empty(),
            final(self).count == 0,
            final(self).capacity == old(self).capacity,
    {
        history_clear(&mut self.internal);
        self.count = 0;
    }

    /// History expansion: a line `!event rest` becomes the entry that the
    /// event designates; any other line is kept; when no entry matches,
    /// the error says `<command>: event not found`.
    pub fn expand(&self, command: &mut String) -> (r: Result<(), Error>)
        requires
            event_of(old(command)@) matches Some(arg) && parse_int(
                arg,
                true,
                isize::MIN as int,
                isize::MAX as int,
            ) is None ==> self.count > 0,
        ensures
            match event_of(old(command)@) {
                None => r is Ok && final(command)@ == old(command)@,
                Some(arg) => match resolve_event(
                    self.entries(),
                    self.count as nat,
                    self.capacity as nat,
                    arg,
                ) {
                    Some(line) => r is Ok && final(command)@ == line,
                    None => {
                        &&& final(command)@ == old(command)@
                        &&& r matches Err(e) && e.kind matches ErrorKind::BuiltinCommand {
                            message,
                            code,
                        } && message@ == old(command)@ + ": event not found"@ && code == 1
                    },
                },
            },
    {
        let chars = chars_of(command.as_str());
        if !(chars.len() > 0 && chars[0] == '!') {
            return Ok(());
        }
        let n = crate::lang::parser::lexer::scan_run(&chars, 1, CharClass::NotQuote(' '));
        proof {
            assert(chars@.skip(1) =~= command@.drop_first());
        }
        if n == 0 && chars.len() > 1 {
            return Ok(());
        }
        let arg = string_of(copy_range(&chars, 1, 1 + n).as_slice());
        assert(arg@ =~= command@.drop_first().take(n as int));
        let entry = find_event(&self.internal, self.count, self.capacity, &arg);
        match entry {
            Some(line) => {
                let replaced = copy_string(line);
                *command = replaced;
                Ok(())
            },
            None => {
                let message = crate::errors::concat(command.as_str(), ": event not found");
                Err(Error::builtin_command(message.as_str(), 1))
            },
        }
    }

    /// The numbered entries below the count, from the oldest kept.
    pub fn enumerate(&self) -> (v: Vec<(usize, String)>)
        ensures
            v@.len() == listed_below(self.entries(), self.count as nat, self.capacity as nat).len(),
            forall|i: int|
                0 <= i < v@.len() ==> (#[trigger] v@[i]).0 == listed_below(
                    self.entries(),
                    self.count as nat,
                    self.capacity as nat,
                )[i].0 && v@[i].1@ == listed_below(
                    self.entries(),
                    self.count as nat,
                    self.capacity as nat,
                )[i].1,
    {
        let ghost items = listed_below(self.entries(), self.count as nat, self.capacity as nat);
        let start = self.count.saturating_sub(self.capacity);
        let mut v: Vec<(usize, String)> = Vec::new();
        let mut pos = start;
        while pos < self.count
            invariant_except_break
                v@.len() == pos - start,
            invariant
                start == first_position(self.count as nat, self.capacity as nat),
                start <= pos,
                items == listed_below(self.entries(), self.count as nat, self.capacity as nat),
                v@.len() <= items.len(),
                pos >= self.count ==> v@.len() == items.len(),
                forall|i: int|
                    0 <= i < v@.len() ==> (#[trigger] v@[i]).0 == items[i].0 && v@[i].1@
                        == items[i].1,
            ensures
                v@.len() == items.len(),
                forall|i: int|
                    0 <= i < v@.len() ==> (#[trigger] v@[i]).0 == items[i].0 && v@[i].1@
                        == items[i].1,
            decreases self.count - pos,
        {
            match self.get(pos) {
                Some(entry) => {
                    let ghost before = v@;
                    v.push((pos, copy_string(entry)));
                    assert forall|i: int| 0 <= i < v@.len() implies (#[trigger] v@[i]).0
                        == items[i].0 && v@[i].1@ == items[i].1 by {
                        if i < before.len() {
                            assert(v@[i] == before[i]);
                        }
                    }
                    pos = pos + 1;
                },
                None => {
                    break;
                },
            }
        }
        v
    }

    /// Every listed entry as `\tn\tentry`, each line ended by a newline.
    pub fn display(&self) -> (s: String)
        ensures
            s@ == listing(listed_below(self.entries(), self.count as nat, self.capacity as nat)),
    {
        let ghost items = listed_below(self.entries(), self.count as nat, self.capacity as nat);
        let v = self.enumerate();
        assert forall|k: int| 0 <= k < items.len() implies #[trigger] items[k].0 < self.count by {}
        let mut s = String::new();
        for i in 0..v.len()
            invariant
                forall|k: int| 0 <= k < items.len() ==> #[trigger] items[k].0 < self.count,
                v@.len() == items.len(),
                forall|k: int| 0 <= k < v@.len() ==> (#[trigger] v@[k]).0 == items[k].0 && v@[k].1@
                    == items[k].1,
                s@ == listing(items.take(i as int)),
        {
            let line = crate::editor::numbered_line(v[i].0, v[i].1.as_str());
            s.append(line.as_str());
            crate::text::push_char(&mut s, '\n');
            assert(items.take(i + 1).drop_last() =~= items.take(i as int));
            assert(items.take(i + 1).last() == items[i as int]);
        }
        assert(items.take(v@.len() as int) =~= items);
        s
    }
}

} // verus!
