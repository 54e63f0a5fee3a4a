//! Small helpers: updating a vector in place and building exit statuses.

use vstd::prelude::*;

verus! {

/// Updating one element of a vector in place.
pub trait VecExt<T>: Sized {
    /// The elements, in order.
    spec fn elements(&self) -> Seq<T>;

    /// Replaces the element at `index` with the result of `f` on it.
    fn update<F: Fn(T) -> T>(&mut self, index: usize, f: F)
        requires
            index < old(self).elements().len(),
            call_requires(f, (old(self).elements()[index as int],)),
        ensures
            final(self).elements().len() == old(self).elements().len(),
            forall|j: int|
                0 <= j < old(self).elements().len() && j != index ==> final(self).elements()[j]
                    == old(self).elements()[j],
            call_ensures(
                f,
                (old(self).elements()[index as int],),
                final(self).elements()[index as int],
            ),
    ;
}

impl<T> VecExt<T> for Vec<T> {
    open spec fn elements(&self) -> Seq<T> {
        self@
    }

    fn update<F: Fn(T) -> T>(&mut self, index: usize, f: F) {
        let entry = self.remove(index);
        let updated = f(entry);
        self.insert(index, updated);
    }
}

/// The status a process ended with, held as the wait status that the system
/// reports: the exit code in bits 8 to 15, a signal number in bits 0 to 6.
#[derive(Clone, Copy, Debug, PartialEq, Eq, Structural)]
pub struct ExitStatus {
    pub raw: i32,
}

/// The exit code of the wait status `raw`, if the process exited normally.
pub open spec fn status_code(raw: i32) -> Option<i32> {
    if raw & 0x7f == 0 {
        Some((raw >> 8u32) & 0xff)
    } else {
        None
    }
}

/// The signal that ended the process of wait status `raw`: its low seven
/// bits, unless they say it exited (0) or stopped (0x7f).
pub open spec fn status_signal(raw: i32) -> Option<i32> {
    let sig = raw & 0x7f;
    if sig != 0 && sig != 0x7f {
        Some(sig)
    } else {
        None
    }
}

/// The wait status of a process that exited with `code`: its bits moved up
/// by eight.
pub open spec fn raw_of_code(code: i32) -> i32 {
    ((code as u32) << 8u32) as i32
}

impl ExitStatus {
    /// The status with wait status `raw`.
    pub fn from_raw(raw: i32) -> (s: ExitStatus)
        ensures
            s.raw == raw,
    {
        ExitStatus { raw }
    }

    /// The exit code, if the process exited normally.
    pub fn code(&self) -> (r: Option<i32>)
        ensures
            r == status_code(self.raw),
    {
        if self.raw & 0x7f == 0 {
            Some((self.raw >> 8u32) & 0xff)
        } else {
            None
        }
    }

    /// The signal that ended the process, if a signal ended it.
    pub fn signal(&self) -> (r: Option<i32>)
        ensures
            r == status_signal(self.raw),
    {
        let sig = self.raw & 0x7f;
        if sig != 0 && sig != 0x7f {
            Some(sig)
        } else {
            None
        }
    }

    /// Whether the process exited normally with code 0.
    pub fn success(&self) -> (b: bool)
        ensures
            b == (self.raw == 0),
    {
        self.raw == 0
    }
}

/// Building exit statuses.
pub trait BshExitStatusExt: Sized {
    /// The status of a successful run.
    fn from_success() -> Self;

    /// The status of a failed run.
    fn from_failure() -> Self;

    /// The status of a run that exited with `code`.
    fn from_status(code: i32) -> Self;
}

impl BshExitStatusExt for ExitStatus {
    fn from_success() -> (s: ExitStatus)
        ensures
            s.raw == raw_of_code(0),
    {
        ExitStatus::from_status(0)
    }

    fn from_failure() -> (s: ExitStatus)
        ensures
            s.raw == raw_of_code(1),
    {
        ExitStatus::from_status(1)
    }

    fn from_status(code: i32) -> (s: ExitStatus)
        ensures
            s.raw == raw_of_code(code),
    {
        let shifted: u32 = (code as u32) << 8u32;
        ExitStatus::from_raw(shifted as i32)
    }
}

/// The exit code of a status built from `code` is `code` modulo 256, and
/// the status is a success exactly when `code` is a multiple of 2^24.
pub proof fn lemma_status_code_of_code(code: i32)
    ensures
        status_code(raw_of_code(code)) == Some((code % 256) as i32),
        (raw_of_code(code) == 0) == (code % 0x100_0000 == 0),
{
    assert(((((code as u32) << 8u32) as i32) >> 8u32) & 0xffi32 == code & 0xffi32)
        by (bit_vector);
    assert((((code as u32) << 8u32) as i32) & 0x7fi32 == 0) by (bit_vector);
    assert((code & 0xff) as int == code % 256) by (bit_vector);
    assert((((code as u32) << 8u32) as i32) == 0 <==> code & 0xffffff == 0) by (bit_vector);
    assert((code & 0xffffff == 0) <==> (code % 0x100_0000 == 0)) by (bit_vector);
}

} // verus!
