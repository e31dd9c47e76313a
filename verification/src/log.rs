//! Five-level logging: level gating, task numbers and line formatting.
//! Writing the lines out is left to the caller.

use vstd::prelude::*;
use crate::text::{decimal, push_decimal, str_chars, string_from_chars};

verus! {

#[derive(Debug, Clone, Copy, PartialEq, Eq, PartialOrd, Ord, Structural)]
pub enum Level {
    Fatal,
    Error,
    Warn,
    Info,
    Debug,
}

/// Severity rank: Fatal 0 .. Debug 4.
pub open spec fn rank(l: Level) -> u8 {
    match l {
        Level::Fatal => 0,
        Level::Error => 1,
        Level::Warn => 2,
        Level::Info => 3,
        Level::Debug => 4,
    }
}

pub open spec fn tag_text(l: Level) -> Seq<char> {
    match l {
        Level::Fatal => "FATAL"@,
        Level::Error => "ERROR"@,
        Level::Warn => "WARN"@,
        Level::Info => "INFO"@,
        Level::Debug => "DEBUG"@,
    }
}

impl Level {
    /// The upper-case tag printed in a log line.
    pub fn tag(self) -> (t: &'static str)
        ensures
            t@ == tag_text(self),
    {
        match self {
            Level::Fatal => "FATAL",
            Level::Error => "ERROR",
            Level::Warn => "WARN",
            Level::Info => "INFO",
            Level::Debug => "DEBUG",
        }
    }

    pub fn rank(self) -> (r: u8)
        ensures
            r == rank(self),
    {
        match self {
            Level::Fatal => 0,
            Level::Error => 1,
            Level::Warn => 2,
            Level::Info => 3,
            Level::Debug => 4,
        }
    }
}

/// `n` padded on the left with spaces to at least `w` characters.
pub open spec fn pad_left(s: Seq<char>, w: nat) -> Seq<char> {
    if s.len() >= w {
        s
    } else {
        Seq::new((w - s.len()) as nat, |i: int| ' ') + s
    }
}

/// A log line: `[{task:>4}] {TAG}: {msg}`.
pub open spec fn log_line(level: Level, task_id: u32, msg: Seq<char>) -> Seq<char> {
    seq!['['] + pad_left(decimal(task_id as nat), 4) + seq![']', ' '] + tag_text(level) + seq![':', ' ']
        + msg
}

/// The line written for a message at `level` under `threshold`, if any.
pub open spec fn gated_line(threshold: Level, level: Level, task_id: u32, msg: Seq<char>) -> Option<Seq<char>> {
    if rank(level) <= rank(threshold) {
        Some(log_line(level, task_id, msg))
    } else {
        None
    }
}

pub open spec fn opt_chars(o: Option<String>) -> Option<Seq<char>> {
    match o {
        Some(s) => Some(s@),
        None => None,
    }
}

/// Level gate and task-number source.
#[derive(Debug)]
pub struct Logger {
    level: Level,
    task_ids: u32,
}

impl Logger {
    pub closed spec fn threshold(&self) -> Level {
        self.level
    }

    pub closed spec fn next_id(&self) -> u32 {
        self.task_ids
    }

    /// A logger at the given level; task numbers start at 1.
    pub fn new(level: Level) -> (l: Logger)
        ensures
            l.threshold() == level,
            l.next_id() == 1,
    {
        Logger { level, task_ids: 1 }
    }

    pub fn set_level(&mut self, level: Level)
        ensures
            final(self).threshold() == level,
            final(self).next_id() == old(self).next_id(),
    {
        self.level = level;
    }

    pub fn level(&self) -> (l: Level)
        ensures
            l == self.threshold(),
    {
        self.level
    }

    /// A line of `level` is written when it is at most as verbose as the threshold.
    pub fn enabled(&self, level: Level) -> (b: bool)
        ensures
            b == (rank(level) <= rank(self.threshold())),
    {
        level.rank() <= self.level.rank()
    }

    /// Hands out the next task number (wrapping), counting from 1.
    pub fn next_task_id(&mut self) -> (id: u32)
        ensures
            id == old(self).next_id(),
            final(self).next_id() == task_id_after(old(self).next_id()),
            final(self).threshold() == old(self).threshold(),
    {
        let id = self.task_ids;
        self.task_ids = if id == u32::MAX { 0 } else { id + 1 };
        id
    }

    /// The line to write for a message, or `None` when the level is gated off.
    pub fn log(&self, level: Level, task_id: u32, msg: &str) -> (line: Option<String>)
        ensures
            opt_chars(line) == gated_line(self.threshold(), level, task_id, msg@),
    {
        if !self.enabled(level) {
            return None;
        }
        let mut out: Vec<char> = Vec::new();
        out.push('[');
        let mut digits: Vec<char> = Vec::new();
        push_decimal(&mut digits, task_id as u64);
        assert(digits@ =~= decimal(task_id as nat));
        let mut k = digits.len();
        while k < 4
            invariant
                digits@.len() <= k <= 4 || (k == digits@.len() && k >= 4),
                out@ == seq!['['] + Seq::new((k - digits@.len()) as nat, |i: int| ' '),
            decreases 4 - k,
        {
            out.push(' ');
            k += 1;
            assert(out@ =~= seq!['['] + Seq::new((k - digits@.len()) as nat, |i: int| ' '));
        }
        let mut i: usize = 0;
        let ghost pre = out@;
        while i < digits.len()
            invariant
                i <= digits@.len(),
                out@ == pre + digits@.subrange(0, i as int),
            decreases digits@.len() - i,
        {
            out.push(digits[i]);
            i += 1;
            assert(out@ =~= pre + digits@.subrange(0, i as int));
        }
        assert(out@ =~= seq!['['] + pad_left(decimal(task_id as nat), 4));
        out.push(']');
        out.push(' ');
        let tag = str_chars(level.tag());
        let m = str_chars(msg);
        let ghost pre2 = out@;
        let mut j: usize = 0;
        while j < tag.len()
            invariant
                j <= tag@.len(),
                out@ == pre2 + tag@.subrange(0, j as int),
            decreases tag@.len() - j,
        {
            out.push(tag[j]);
            j += 1;
            assert(out@ =~= pre2 + tag@.subrange(0, j as int));
        }
        out.push(':');
        out.push(' ');
        let ghost pre3 = out@;
        let mut j: usize = 0;
        while j < m.len()
            invariant
                j <= m@.len(),
                out@ == pre3 + m@.subrange(0, j as int),
            decreases m@.len() - j,
        {
            out.push(m[j]);
            j += 1;
            assert(out@ =~= pre3 + m@.subrange(0, j as int));
        }
        assert(tag@.subrange(0, tag@.len() as int) =~= tag@);
        assert(m@.subrange(0, m@.len() as int) =~= m@);
        assert(out@ =~= log_line(level, task_id, msg@));
        Some(string_from_chars(out.as_slice()))
    }

    pub fn fatal(&self, id: u32, msg: &str) -> (line: Option<String>)
        ensures
            opt_chars(line) == Some(log_line(Level::Fatal, id, msg@)),
    {
        self.log(Level::Fatal, id, msg)
    }

    pub fn error(&self, id: u32, msg: &str) -> (line: Option<String>)
        ensures
            opt_chars(line) == gated_line(self.threshold(), Level::Error, id, msg@),
    {
        self.log(Level::Error, id, msg)
    }

    pub fn warn(&self, id: u32, msg: &str) -> (line: Option<String>)
        ensures
            opt_chars(line) == gated_line(self.threshold(), Level::Warn, id, msg@),
    {
        self.log(Level::Warn, id, msg)
    }

    pub fn info(&self, id: u32, msg: &str) -> (line: Option<String>)
        ensures
            opt_chars(line) == gated_line(self.threshold(), Level::Info, id, msg@),
    {
        self.log(Level::Info, id, msg)
    }

    pub fn debug(&self, id: u32, msg: &str) -> (line: Option<String>)
        ensures
            opt_chars(line) == gated_line(self.threshold(), Level::Debug, id, msg@),
    {
        self.log(Level::Debug, id, msg)
    }
}

/// The counter after handing out task number `n`: one more, wrapping to 0
/// after `u32::MAX`.
pub open spec fn task_id_after(n: u32) -> u32 {
    if n == u32::MAX {
        0
    } else {
        (n + 1) as u32
    }
}

/// The task numbers that `k` successive calls of `next_task_id` hand out
/// from a counter at `start`.
pub open spec fn task_ids(start: u32, k: nat) -> Seq<u32>
    decreases k,
{
    if k == 0 {
        Seq::empty()
    } else {
        seq![start] + task_ids(task_id_after(start), (k - 1) as nat)
    }
}

/// Successive task numbers count up by one: the `i`-th of `k` calls from a
/// counter at `start` hands out `start + i` modulo 2^32, and `start + i`
/// itself while that fits in a `u32`; a fresh logger (counter 1) thus hands
/// out 1, 2, 3, ...
pub proof fn law_task_ids_count_up(start: u32, k: nat)
    ensures
        task_ids(start, k).len() == k,
        forall|i: int| 0 <= i < k ==> #[trigger] task_ids(start, k)[i] as int == (start + i) % 0x1_0000_0000,
        start + k <= 0x1_0000_0000 ==> forall|i: int| 0 <= i < k ==> #[trigger] task_ids(start, k)[i] == start + i,
    decreases k,
{
    if k > 0 {
        let next = task_id_after(start);
        law_task_ids_count_up(next, (k - 1) as nat);
        let t = task_ids(start, k);
        let r = task_ids(next, (k - 1) as nat);
        assert forall|i: int| 0 <= i < k implies #[trigger] t[i] as int == (start + i) % 0x1_0000_0000 by {
            if i == 0 {
                assert(t[0] == start);
            } else {
                assert(t[i] == r[i - 1]);
                assert(r[i - 1] as int == (next + (i - 1)) % 0x1_0000_0000);
                if start == u32::MAX {
                    assert(next == 0);
                    assert((start + i) % 0x1_0000_0000 == (i - 1) % 0x1_0000_0000);
                } else {
                    assert(next == start + 1);
                }
            }
        }
        if start + k <= 0x1_0000_0000 {
            assert forall|i: int| 0 <= i < k implies #[trigger] t[i] == start + i by {
                assert(t[i] as int == (start + i) % 0x1_0000_0000);
                assert(start + i < 0x1_0000_0000);
            }
        }
    }
}

/// No two of up to 2^32 successive calls hand out the same task number.
pub proof fn law_task_ids_distinct(start: u32, k: nat)
    requires
        k <= 0x1_0000_0000,
    ensures
        forall|i: int, j: int| 0 <= i < j < k ==> #[trigger] task_ids(start, k)[i] != #[trigger] task_ids(start, k)[j],
{
    law_task_ids_count_up(start, k);
    let t = task_ids(start, k);
    assert forall|i: int, j: int| 0 <= i < j < k implies #[trigger] t[i] != #[trigger] t[j] by {
        assert(t[i] as int == (start + i) % 0x1_0000_0000);
        assert(t[j] as int == (start + j) % 0x1_0000_0000);
    }
}

/// A warning is written exactly when the threshold is `Warn` or more
/// verbose, as `[` + the task number right-aligned in four columns +
/// `] WARN: ` + the message.
pub proof fn law_warn_line(threshold: Level, id: u32, msg: Seq<char>)
    ensures
        gated_line(threshold, Level::Warn, id, msg) == (if threshold == Level::Warn || threshold == Level::Info
            || threshold == Level::Debug {
            Some(seq!['['] + pad_left(decimal(id as nat), 4) + "] WARN: "@ + msg)
        } else {
            None::<Seq<char>>
        }),
{
    reveal_strlit("WARN");
    reveal_strlit("] WARN: ");
    assert(seq!['['] + pad_left(decimal(id as nat), 4) + seq![']', ' '] + tag_text(Level::Warn) + seq![':', ' '] + msg
        =~= seq!['['] + pad_left(decimal(id as nat), 4) + "] WARN: "@ + msg);
}

} // verus!
