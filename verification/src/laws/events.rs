//! What is told of a job is how it went.

use vstd::prelude::*;
use vstd::utf8::encode_utf8;

use crate::config::ConfigV;
use crate::double::DoubleV;
use crate::history::{history_of, law_history_is_the_last_runs, HistoryV};
use crate::json::json_string;
use crate::number::{decimal, law_decimal_reads_back, signed_decimal};
use crate::runner::{row_of, LogV, Poll, Status};
use crate::sse::{advanced, line_events, taken, Scene, SseV};
use crate::text::views;

verus! {

// --- how a job ends --------------------------------------------------------------------------------

/// A running job goes on until its process is seen to have ended. It ended well just where the process
/// did, and else with the code of the process, or minus one where there is none.
pub proof fn law_job_ends_as_its_process_does(p: Poll, code: i32)
    ensures
        Status::Running.after_poll(p) is Running <==> p is Still || p is Gone,
        Status::Running.after_poll(p) is Success <==> p is Success,
        Status::Running.after_poll(p) !is Aborted,
        Status::Running.after_poll(Poll::Exit(code)) == Status::Failed(code),
        Status::Running.after_poll(Poll::Killed) == Status::Failed(-1i32),
        Status::Running.after_poll(Poll::Error) == Status::Failed(-1i32),
        Status::Running.after_abort() == Status::Aborted,
        p.over() <==> !(p is Still),
{
}

proof fn lemma_decimal_tells(a: nat, b: nat)
    requires
        decimal(a) == decimal(b),
    ensures
        a == b,
{
    law_decimal_reads_back(a);
    law_decimal_reads_back(b);
}

proof fn lemma_signed_tells(a: int, b: int)
    requires
        signed_decimal(a) == signed_decimal(b),
    ensures
        a == b,
{
    law_decimal_reads_back((if a < 0 {
        -a
    } else {
        a
    }) as nat);
    law_decimal_reads_back((if b < 0 {
        -b
    } else {
        b
    }) as nat);
    let x = signed_decimal(a);
    let y = signed_decimal(b);
    assert(x[0] == y[0]);
    if a < 0 && b < 0 {
        assert(x.skip(1) =~= decimal((-a) as nat));
        assert(y.skip(1) =~= decimal((-b) as nat));
        lemma_decimal_tells((-a) as nat, (-b) as nat);
    } else if a >= 0 && b >= 0 {
        lemma_decimal_tells(a as nat, b as nat);
    } else if a < 0 {
        assert(decimal(b as nat)[0] == '-');
    } else {
        assert(decimal(a as nat)[0] == '-');
    }
}

/// The words for two jobs are the same only where both stand alike: no two kinds of an end, and no two
/// codes, are shown as one.
pub proof fn law_words_tell_the_status(a: Status, b: Status)
    ensures
        a.shown() == b.shown() <==> a == b,
{
    reveal_strlit("running");
    reveal_strlit("success");
    reveal_strlit("failed");
    reveal_strlit("failed (exit ");
    reveal_strlit(")");
    reveal_strlit("aborted");
    if a.shown() == b.shown() {
        let s = a.shown();
        let t = b.shown();
        assert(s.len() > 0 && t.len() > 0);
        assert(s[0] == t[0]);
        if a is Failed && b is Failed {
            let x = a->Failed_0;
            let y = b->Failed_0;
            if x != 0 && y != 0 {
                assert(s.subrange(13, s.len() - 1) =~= signed_decimal(x as int));
                assert(t.subrange(13, t.len() - 1) =~= signed_decimal(y as int));
                lemma_signed_tells(x as int, y as int);
            } else if x != 0 {
                assert(s.len() >= 14 && t.len() == 6);
            } else if y != 0 {
                assert(t.len() >= 14 && s.len() == 6);
            }
        } else if a is Failed && a->Failed_0 != 0 {
            assert(s[0] == 'f');
        } else if b is Failed && b->Failed_0 != 0 {
            assert(t[0] == 'f');
        }
    }
}

/// The words for a job that ended well, was aborted, or failed, with the code where there is one.
pub proof fn law_words_say_how_it_ended(c: i32)
    ensures
        Status::Success.shown() == "success"@,
        Status::Aborted.shown() == "aborted"@,
        Status::Running.shown() == "running"@,
        Status::Failed(0).shown() == "failed"@,
        c != 0 ==> Status::Failed(c).shown() == "failed (exit "@ + signed_decimal(c as int) + ")"@,
{
}

// --- what is kept of it ----------------------------------------------------------------------------

/// The row of a run says that it went well just where it did, and tells its own output path, caption,
/// time and length.
pub proof fn law_row_tells_how_the_run_went(c: ConfigV, s: Status, at: u64, wall: DoubleV)
    ensures
        ({
            let r = row_of(c, s, at, wall);
            &&& r.success <==> s == Status::Success
            &&& r.out == c.out
            &&& r.caption == c.title()
            &&& r.at == at
            &&& r.wall_ms == wall
        }),
{
}

/// The history is the last hundred runs, in their order: one more run is its last row, and of more than
/// a hundred the oldest goes.
pub proof fn law_history_keeps_the_last_hundred(runs: Seq<HistoryV>, run: HistoryV)
    ensures
        ({
            let h = history_of(runs.push(run));
            &&& h.len() > 0 && h.last() == run
            &&& runs.len() < 100 ==> h == runs.push(run)
            &&& runs.len() >= 100 ==> h.len() == 100 && h == runs.push(run).skip(runs.len() - 99)
        }),
{
    law_history_is_the_last_runs(runs.push(run));
}

/// A log holds all lines up to twenty thousand; one more, and the five thousand oldest go.
pub proof fn law_log_drops_the_oldest_lines(log: LogV, line: Seq<char>)
    ensures
        log.lines.len() < 20_000 ==> log.with_line(line) == (LogV {
            lines: log.lines.push(line),
            ..log
        }),
        log.lines.len() == 20_000 ==> log.with_line(line).lines == log.lines.push(line).skip(5_000)
            && log.with_line(line).dropped == log.dropped + 5_000,
        log.with_line(line).total() == log.total() + 1,
{
}

// --- the events ------------------------------------------------------------------------------------

/// The event at the end of a job says that it went well just where it did: for a job that was aborted,
/// or that failed with whatever code, it says that it did not. Beside that stand the words for its
/// status, its output path and its time.
pub proof fn law_end_says_whether_it_went_well(s: SseV, scene: Scene)
    requires
        scene.status !is Running,
        s.cursor >= scene.lines@.len(),
        !s.done_sent,
    ensures
        ({
            let told = advanced(s, scene).0.left;
            let head = "event: done\ndata: {\"out\":"@ + json_string(scene.out@);
            let well = ",\"success\":true,\"wall_ms\":"@ + scene.wall_ms@ + "}\n\n"@;
            let not_well = ",\"success\":false,\"wall_ms\":"@ + scene.wall_ms@ + "}\n\n"@;
            let member = ",\"status\":"@ + json_string(scene.status.shown());
            &&& scene.status is Success ==> told == encode_utf8(head + member + well)
            &&& scene.status is Aborted ==> told == encode_utf8(head + member + not_well)
            &&& scene.status is Failed ==> told == encode_utf8(head + member + not_well)
        }),
{
    reveal_strlit(",\"success\":");
    reveal_strlit("true");
    reveal_strlit("false");
    reveal_strlit(",\"wall_ms\":");
    reveal_strlit(",\"success\":true,\"wall_ms\":");
    reveal_strlit(",\"success\":false,\"wall_ms\":");
    let head = "event: done\ndata: {\"out\":"@ + json_string(scene.out@);
    let well = ",\"success\":true,\"wall_ms\":"@ + scene.wall_ms@ + "}\n\n"@;
    let not_well = ",\"success\":false,\"wall_ms\":"@ + scene.wall_ms@ + "}\n\n"@;
    let member = ",\"status\":"@ + json_string(scene.status.shown());
    assert(",\"success\":"@ + "true"@ + ",\"wall_ms\":"@ =~= ",\"success\":true,\"wall_ms\":"@);
    assert(",\"success\":"@ + "false"@ + ",\"wall_ms\":"@ =~= ",\"success\":false,\"wall_ms\":"@);
    let told = crate::sse::done_event(scene.status, scene.out@, scene.wall_ms@);
    if scene.status is Success {
        assert(told =~= head + member + well);
    } else {
        assert(told =~= head + member + not_well);
    }
}

/// While there are lines that a stream has not told, a look tells them and nothing else; each stands in
/// an event of its own, as a JSON string.
pub proof fn law_new_line_is_told_as_it_is(s: SseV, scene: Scene)
    requires
        s.cursor >= 0,
        scene.lines@.len() == s.cursor + 1,
    ensures
        advanced(s, scene).0.left == encode_utf8(
            "data: "@ + json_string(scene.lines@[s.cursor]@) + "\n\n"@,
        ),
        advanced(s, scene).0.cursor == s.cursor + 1,
        advanced(s, scene).0.done_sent == s.done_sent,
        advanced(s, scene).1 is Ready,
{
    let fresh = views(scene.lines@).skip(s.cursor);
    assert(fresh.len() == 1);
    assert(fresh.last() == scene.lines@[s.cursor]@);
    assert(line_events(fresh.drop_last()) =~= Seq::<char>::empty());
    assert(line_events(fresh) =~= "data: "@ + json_string(scene.lines@[s.cursor]@) + "\n\n"@);
}

/// A stream waits just while all lines are told and the job still runs, and ends just once its end
/// was told.
pub proof fn law_stream_waits_while_the_job_runs(s: SseV, scene: Scene)
    ensures
        ({
            let untold = s.cursor < scene.lines@.len();
            let (t, next) = advanced(s, scene);
            &&& next is Wait <==> !untold && scene.status is Running
            &&& next is End <==> !untold && scene.status !is Running && s.done_sent
            &&& next !is Ready ==> t == s
            &&& t.done_sent && !s.done_sent ==> !untold && scene.status !is Running
        }),
{
}

/// The bytes of a stream are read in their order and each once, however they are taken: what two takes
/// read is what one take of as many bytes would have, and no more than asked for is read at once.
pub proof fn law_bytes_are_read_once_and_in_order(s: SseV, m: nat, n: nat)
    ensures
        ({
            let (a, t) = taken(s, m);
            let (b, u) = taken(t, n);
            &&& a + t.left == s.left
            &&& a.len() <= m
            &&& a.len() < m ==> t.left.len() == 0
            &&& a + b == taken(s, m + n).0
            &&& u == taken(s, m + n).1
            &&& t.cursor == s.cursor && t.done_sent == s.done_sent
        }),
{
    let (a, t) = taken(s, m);
    let (b, u) = taken(t, n);
    assert(a + t.left =~= s.left);
    assert(a + b =~= taken(s, m + n).0);
    assert(u.left =~= taken(s, m + n).1.left);
}

} // verus!
