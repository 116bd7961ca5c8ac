//! A generation in progress: how it stands, its log, and the row it leaves in the history.

use vstd::prelude::*;

use crate::argv::{arguments, build_argv};
use crate::config::{Config, ConfigV};
use crate::detect::Paths;
use crate::double::{Double, DoubleV};
use crate::history::{HistoryEntry, HistoryV};
use crate::number::write_i32;
use crate::path::{expand_tilde, expanded};
use crate::text::{copy_list, group_views, views};

verus! {

/// How many lines a log may hold.
pub const LOG_LIMIT: usize = 20_000;

/// How many of the oldest lines go when it would hold more.
pub const LOG_TRIM: usize = 5_000;

/// How a job stands.
#[derive(Clone, Copy, Debug, PartialEq, Eq, Structural)]
pub enum Status {
    Running,
    Success,
    Failed(i32),
    Aborted,
}

impl Status {
    /// Whether the job still runs.
    pub fn is_running(&self) -> (r: bool)
        ensures
            r == (*self is Running),
    {
        match self {
            Status::Running => true,
            _ => false,
        }
    }

    /// Whether the job ended well.
    pub fn is_success(&self) -> (r: bool)
        ensures
            r == (*self is Success),
    {
        match self {
            Status::Success => true,
            _ => false,
        }
    }

    /// What is shown for the status.
    pub open spec fn shown(self) -> Seq<char> {
        match self {
            Status::Running => "running"@,
            Status::Success => "success"@,
            Status::Failed(c) => if c == 0 {
                "failed"@
            } else {
                "failed (exit "@ + crate::number::signed_decimal(c as int) + ")"@
            },
            Status::Aborted => "aborted"@,
        }
    }

    /// What is shown for the status.
    pub fn label(&self) -> (r: String)
        ensures
            r@ == self.shown(),
    {
        match self {
            Status::Running => "running".to_string(),
            Status::Success => "success".to_string(),
            Status::Failed(c) => if *c == 0 {
                "failed".to_string()
            } else {
                let mut s = "failed (exit ".to_string();
                s.append(write_i32(*c).as_str());
                s.append(")");
                s
            },
            Status::Aborted => "aborted".to_string(),
        }
    }

    /// The status behind an abort.
    pub open spec fn after_abort(self) -> Status {
        if self is Running {
            Status::Aborted
        } else {
            self
        }
    }

    /// The status behind a look at the process.
    pub open spec fn after_poll(self, p: Poll) -> Status {
        if self !is Running {
            self
        } else {
            match p {
                Poll::Still | Poll::Gone => self,
                Poll::Success => Status::Success,
                Poll::Exit(code) => Status::Failed(code),
                Poll::Killed | Poll::Error => Status::Failed(-1i32),
            }
        }
    }
}

/// What a look at the process of a job shows.
#[derive(Clone, Copy, Debug, PartialEq, Eq, Structural)]
pub enum Poll {
    /// It has not ended.
    Still,
    /// It ended well.
    Success,
    /// It ended with a code that is none of success.
    Exit(i32),
    /// It ended without a code.
    Killed,
    /// It could not be looked at.
    Error,
    /// There is no process.
    Gone,
}

impl Poll {
    /// Whether there is nothing more to look for.
    pub open spec fn over(self) -> bool {
        self !is Still
    }
}

/// A job that has ended keeps its status, whatever is seen of its process or asked for later.
pub proof fn law_ended_stays_ended(s: Status, p: Poll)
    requires
        s !is Running,
    ensures
        s.after_poll(p) == s,
        s.after_abort() == s,
{
}

/// An aborted job stays aborted when its process then ends, and the abort of a running job ends
/// it at once.
pub proof fn law_abort_wins(s: Status, p: Poll)
    requires
        s is Running,
    ensures
        s.after_abort().after_poll(p) == Status::Aborted,
{
}

// --- the log ------------------------------------------------------------------------------

/// The lines that a process wrote, without the oldest where they were too many.
pub struct Log {
    pub dropped: u64,
    pub lines: Vec<String>,
}

/// What a [`Log`] holds: how many lines are gone, and those that are still there.
#[verifier::ext_equal]
pub struct LogV {
    pub dropped: nat,
    pub lines: Seq<Seq<char>>,
}

impl View for Log {
    type V = LogV;

    open spec fn view(&self) -> LogV {
        LogV { dropped: self.dropped as nat, lines: views(self.lines@) }
    }
}

impl LogV {
    /// How many lines were written.
    pub open spec fn total(self) -> nat {
        self.dropped + self.lines.len()
    }

    /// The log with one more line.
    pub open spec fn with_line(self, line: Seq<char>) -> LogV {
        let lines = self.lines.push(line);
        if lines.len() > LOG_LIMIT {
            LogV { dropped: self.dropped + LOG_TRIM as nat, lines: lines.skip(LOG_TRIM as int) }
        } else {
            LogV { lines, ..self }
        }
    }

    /// The lines from a position on; all that are there where that position is gone or was never
    /// reached.
    pub open spec fn from(self, cursor: nat) -> Seq<Seq<char>> {
        if self.dropped <= cursor <= self.total() {
            self.lines.skip(cursor - self.dropped)
        } else {
            self.lines
        }
    }
}

/// The log of a process that wrote the lines.
pub open spec fn log_of(written: Seq<Seq<char>>) -> LogV
    decreases written.len(),
{
    if written.len() == 0 {
        LogV { dropped: 0, lines: written }
    } else {
        log_of(written.drop_last()).with_line(written.last())
    }
}

/// Whatever was written, a log holds the latest lines, in their order and without a gap, and no
/// more than its limit.
pub proof fn law_log_is_the_latest_lines(written: Seq<Seq<char>>)
    ensures
        log_of(written).total() == written.len(),
        log_of(written).lines == written.skip(log_of(written).dropped as int),
        log_of(written).lines.len() <= LOG_LIMIT,
        written.len() <= LOG_LIMIT ==> log_of(written).lines == written,
    decreases written.len(),
{
    if written.len() > 0 {
        let w = written.drop_last();
        law_log_is_the_latest_lines(w);
        let v = log_of(w);
        assert(log_of(written).lines =~= written.skip(log_of(written).dropped as int));
        if written.len() <= LOG_LIMIT {
            assert(log_of(written).lines =~= written);
        }
    } else {
        assert(written.skip(0) =~= written);
    }
}

/// Who asks for the lines from where the last answer ended gets all that was written since then
/// and is still there, once and in order; nothing else, unless lines of it are gone.
pub proof fn law_no_line_is_missed(before: Seq<Seq<char>>, since: Seq<Seq<char>>)
    ensures
        ({
            let cursor = log_of(before).total();
            let log = log_of(before + since);
            &&& log.dropped <= cursor ==> log.from(cursor) == since
            &&& log.dropped > cursor ==> log.from(cursor) == since.skip(log.dropped - cursor)
        }),
{
    law_log_is_the_latest_lines(before);
    law_log_is_the_latest_lines(before + since);
    let cursor = log_of(before).total();
    let log = log_of(before + since);
    if log.dropped <= cursor {
        assert(log.from(cursor) =~= since);
    } else {
        assert(log.from(cursor) =~= since.skip(log.dropped - cursor));
    }
}

impl Log {
    /// A log without lines.
    pub fn new() -> (r: Self)
        ensures
            r@ == log_of(Seq::<Seq<char>>::empty()),
    {
        let r = Log { dropped: 0, lines: Vec::new() };
        assert(views(r.lines@) =~= Seq::<Seq<char>>::empty());
        r
    }

    /// Writes a line. The oldest lines go where there are too many.
    pub fn push(&mut self, line: String)
        requires
            old(self)@.total() < u64::MAX,
        ensures
            final(self)@ == old(self)@.with_line(line@),
    {
        broadcast use group_views;

        self.lines.push(line);
        if self.lines.len() > LOG_LIMIT {
            let tail = self.lines.split_off(LOG_TRIM);
            self.lines = tail;
            self.dropped = self.dropped + LOG_TRIM as u64;
            assert(views(self.lines@) =~= views(old(self).lines@).push(line@).skip(LOG_TRIM as int));
        }
    }

    /// Where the next line will stand, and the lines from a position on. Where the log has moved
    /// past that position, or never reached it, these are all the lines that it holds.
    pub fn lines_since(&self, cursor: u64) -> (r: (u64, Vec<String>))
        requires
            self@.total() <= u64::MAX,
        ensures
            r.0 == self@.total(),
            views(r.1@) == self@.from(cursor as nat),
    {
        let n: u64 = self.lines.len() as u64;
        let total: u64 = self.dropped + n;
        let mut i: usize = if self.dropped <= cursor && cursor <= total {
            (cursor - self.dropped) as usize
        } else {
            0
        };
        let ghost all = self@.from(cursor as nat);
        let ghost first = i as int;
        assert(all =~= self@.lines.skip(first));
        let mut out: Vec<String> = Vec::new();
        assert(views(out@) =~= all.take(0));
        while i < self.lines.len()
            invariant
                first <= i <= self.lines@.len(),
                first >= 0,
                all == self@.lines.skip(first),
                views(out@) == all.take(i - first),
            decreases self.lines@.len() - i,
        {
            let s = self.lines[i].clone();
            assert(all[i - first] == s@);
            let ghost prev = views(out@);
            out.push(s);
            assert(views(out@) =~= prev.push(s@));
            i = i + 1;
            assert(all.take(i - first) =~= all.take(i - first - 1).push(s@));
        }
        assert(all.take(i - first) =~= all);
        (total, out)
    }
}

// --- the job ------------------------------------------------------------------------------

/// The row in the history of a run with settings that came to an end at a time, and how long it took.
pub open spec fn row_of(config: ConfigV, status: Status, at: u64, wall_ms: DoubleV) -> HistoryV {
    HistoryV {
        at,
        out: config.out,
        caption: config.title(),
        success: status is Success,
        wall_ms,
    }
}

/// A run of the generator.
pub struct Job {
    pub id: u64,
    pub config: Config,
    pub log: Log,
    pub status: Status,
    pub recorded: bool,
    pub out_path: String,
}

impl Job {
    /// Begins a job: how it stands at its start, and the arguments of the process to be started.
    pub fn start(id: u64, paths: &Paths, config: &Config) -> (r: (Job, Vec<String>))
        ensures
            r.0.id == id,
            r.0.config == *config,
            r.0.log@ == log_of(Seq::<Seq<char>>::empty()),
            r.0.status == Status::Running,
            !r.0.recorded,
            r.0.out_path@ == expanded(config.out@, paths.home@),
            views(r.1@) == arguments(paths@, config@),
            r.1@.len() == arguments(paths@, config@).len(),
    {
        let argv = build_argv(paths, config);
        let out_path = expand_tilde(config.out.as_str(), paths.home.as_str());
        let job = Job {
            id,
            config: config.clone(),
            log: Log::new(),
            status: Status::Running,
            recorded: false,
            out_path,
        };
        (job, argv)
    }

    /// How the job stands.
    pub fn status(&self) -> (r: Status)
        ensures
            r == self.status,
    {
        self.status
    }

    /// Whether the job still runs.
    pub fn running(&self) -> (r: bool)
        ensures
            r == (self.status is Running),
    {
        self.status.is_running()
    }

    /// The lines that are in the log.
    pub fn lines(&self) -> (r: Vec<String>)
        ensures
            views(r@) == self.log@.lines,
    {
        copy_list(&self.log.lines)
    }

    /// Where the next line will stand, and the lines from a position on.
    pub fn lines_since(&self, cursor: u64) -> (r: (u64, Vec<String>))
        requires
            self.log@.total() <= u64::MAX,
        ensures
            r.0 == self.log@.total(),
            views(r.1@) == self.log@.from(cursor as nat),
    {
        self.log.lines_since(cursor)
    }

    /// Ends a running job as aborted.
    pub fn abort(&mut self)
        ensures
            *final(self) == (Job { status: old(self).status.after_abort(), ..*old(self) }),
    {
        if self.status.is_running() {
            self.status = Status::Aborted;
        }
    }

    /// Takes in what a look at the process shows; whether there is nothing more to look for.
    pub fn watch(&mut self, p: Poll) -> (done: bool)
        ensures
            *final(self) == (Job { status: old(self).status.after_poll(p), ..*old(self) }),
            done == p.over(),
    {
        if self.status.is_running() {
            match p {
                Poll::Still | Poll::Gone => {},
                Poll::Success => {
                    self.status = Status::Success;
                },
                Poll::Exit(code) => {
                    self.status = Status::Failed(code);
                },
                Poll::Killed | Poll::Error => {
                    self.status = Status::Failed(-1);
                },
            }
        }
        match p {
            Poll::Still => false,
            _ => true,
        }
    }

    /// The path of the output file.
    pub fn out_path(&self) -> (r: &str)
        ensures
            r@ == self.out_path@,
    {
        self.out_path.as_str()
    }

    /// The row of the job in the history, the first time that it is asked for; none later.
    pub fn record(&mut self, at: u64, wall_ms: Double) -> (r: Option<HistoryEntry>)
        ensures
            *final(self) == (Job { recorded: true, ..*old(self) }),
            match r {
                Some(e) => !old(self).recorded && e@ == row_of(
                    old(self).config@,
                    old(self).status,
                    at,
                    wall_ms@,
                ),
                None => old(self).recorded,
            },
    {
        if self.recorded {
            return None;
        }
        self.recorded = true;
        Some(
            HistoryEntry {
                at,
                out: self.config.out.clone(),
                caption: self.config.caption(),
                success: self.status.is_success(),
                wall_ms,
            },
        )
    }
}

} // verus!
