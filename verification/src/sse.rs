//! The log of a job as a stream of server-sent events.

use vstd::prelude::*;
use vstd::utf8::encode_utf8;

use crate::edit::{bool_str, on_off};
use crate::json::{all_escaped, escaped, json_string, quote_json, HEX_DIGITS};
use crate::runner::Status;
use crate::text::views;

verus! {

/// A line of the log as an event.
pub open spec fn line_event(line: Seq<char>) -> Seq<char> {
    "data: "@ + json_string(line) + "\n\n"@
}

/// Lines of the log as events, one each.
pub open spec fn line_events(lines: Seq<Seq<char>>) -> Seq<char>
    decreases lines.len(),
{
    if lines.len() == 0 {
        Seq::<char>::empty()
    } else {
        line_events(lines.drop_last()) + line_event(lines.last())
    }
}

/// The event at the end of a job. `wall_ms` is the time that it took, as JSON.
pub open spec fn done_event(status: Status, out: Seq<char>, wall_ms: Seq<char>) -> Seq<char> {
    "event: done\ndata: {\"out\":"@ + json_string(out) + ",\"status\":"@ + json_string(
        status.shown(),
    ) + ",\"success\":"@ + on_off(status is Success) + ",\"wall_ms\":"@ + wall_ms + "}\n\n"@
}

/// What is to be done next by who reads a stream.
#[derive(Clone, Copy, Debug, PartialEq, Eq, Structural)]
pub enum Next {
    /// Take the bytes that are there.
    Ready,
    /// Look again after a while.
    Wait,
    /// Nothing more will come.
    End,
}

/// The stream of the events of a job: the bytes that are still to be read, how many of the job's
/// lines it has gone through, and whether it has told of the end.
pub struct SseStream {
    pub pending: Vec<u8>,
    pub pos: usize,
    pub cursor: usize,
    pub done_sent: bool,
}

/// What an [`SseStream`] holds.
#[verifier::ext_equal]
pub struct SseV {
    pub left: Seq<u8>,
    pub cursor: int,
    pub done_sent: bool,
}

impl View for SseStream {
    type V = SseV;

    open spec fn view(&self) -> SseV {
        SseV {
            left: self.pending@.skip(self.pos as int),
            cursor: self.cursor as int,
            done_sent: self.done_sent,
        }
    }
}

/// How the job stands that a stream tells of: its lines, its status, its output path, and the
/// time that it took, as JSON.
pub struct Scene {
    pub lines: Vec<String>,
    pub status: Status,
    pub out: String,
    pub wall_ms: String,
}

/// The stream behind a look at its job, once all its bytes are read, and what is to be done next:
/// new lines come first, and the end of the job is told once.
pub open spec fn advanced(s: SseV, scene: Scene) -> (SseV, Next) {
    let lines = views(scene.lines@);
    if s.cursor < lines.len() {
        (
            SseV {
                left: encode_utf8(line_events(lines.skip(s.cursor))),
                cursor: lines.len() as int,
                ..s
            },
            Next::Ready,
        )
    } else if scene.status is Running {
        (s, Next::Wait)
    } else if s.done_sent {
        (s, Next::End)
    } else {
        (
            SseV {
                left: encode_utf8(done_event(scene.status, scene.out@, scene.wall_ms@)),
                done_sent: true,
                ..s
            },
            Next::Ready,
        )
    }
}

/// What is read of a stream when at most a number of bytes are taken, and the stream behind that.
pub open spec fn taken(s: SseV, max: nat) -> (Seq<u8>, SseV) {
    let n = if s.left.len() < max {
        s.left.len() as int
    } else {
        max as int
    };
    (s.left.take(n), SseV { left: s.left.skip(n), ..s })
}

fn bytes_of(s: &str) -> (r: Vec<u8>)
    ensures
        r@ == encode_utf8(s@),
{
    let b = s.as_bytes();
    let mut out: Vec<u8> = Vec::new();
    let mut i: usize = 0;
    while i < b.len()
        invariant
            i <= b@.len(),
            out@ == b@.take(i as int),
        decreases b@.len() - i,
    {
        out.push(b[i]);
        i = i + 1;
        assert(b@.take(i as int) =~= b@.take(i - 1).push(b@[i - 1]));
    }
    assert(b@.take(i as int) =~= b@);
    out
}

impl SseStream {
    /// No more bytes are read than there are.
    pub open spec fn wf(self) -> bool {
        self.pos <= self.pending@.len()
    }

    /// A stream that has told nothing yet.
    pub fn new() -> (r: Self)
        ensures
            r.wf(),
            r@ == (SseV { left: Seq::<u8>::empty(), cursor: 0, done_sent: false }),
    {
        let r = SseStream { pending: Vec::new(), pos: 0, cursor: 0, done_sent: false };
        assert(r@.left =~= Seq::<u8>::empty());
        r
    }

    /// Whether there are bytes to be read.
    pub fn is_ready(&self) -> (r: bool)
        requires
            self.wf(),
        ensures
            r == (self@.left.len() > 0),
    {
        self.pos < self.pending.len()
    }

    /// Reads bytes, at most a number of them.
    pub fn take(&mut self, max: usize) -> (r: Vec<u8>)
        requires
            old(self).wf(),
        ensures
            final(self).wf(),
            (r@, final(self)@) == taken(old(self)@, max as nat),
    {
        let len: usize = self.pending.len();
        let left: usize = len - self.pos;
        let n: usize = if left < max {
            left
        } else {
            max
        };
        let ghost all = self.pending@;
        let ghost from = self.pos as int;
        let mut out: Vec<u8> = Vec::new();
        let mut i: usize = 0;
        while i < n
            invariant
                i <= n,
                self.pos + n <= len == self.pending@.len(),
                out@ == self.pending@.skip(self.pos as int).take(i as int),
            decreases n - i,
        {
            out.push(self.pending[self.pos + i]);
            i = i + 1;
            assert(self.pending@.skip(self.pos as int).take(i as int) =~= self.pending@.skip(
                self.pos as int,
            ).take(i - 1).push(self.pending@[self.pos + i - 1]));
        }
        self.pos = self.pos + n;
        if self.pos == self.pending.len() {
            self.pending = Vec::new();
            self.pos = 0;
        }
        assert(self@.left =~= all.skip(from).skip(n as int));
        out
    }

    /// Looks at the job of a stream of which all bytes are read.
    pub fn advance(&mut self, scene: &Scene) -> (r: Next)
        requires
            old(self).wf(),
            old(self)@.left.len() == 0,
        ensures
            final(self).wf(),
            (final(self)@, r) == advanced(old(self)@, *scene),
            r == Next::Ready ==> final(self)@.left.len() > 0,
    {
        let ghost lines = views(scene.lines@);
        if self.cursor < scene.lines.len() {
            let ghost fresh = lines.skip(self.cursor as int);
            let ghost first = self.cursor as int;
            let mut text = String::new();
            let mut i: usize = self.cursor;
            assert(fresh.take(0) =~= Seq::<Seq<char>>::empty());
            while i < scene.lines.len()
                invariant
                    0 <= first <= i <= scene.lines@.len(),
                    lines == views(scene.lines@),
                    fresh == lines.skip(first),
                    text@ == line_events(fresh.take(i - first)),
                decreases scene.lines@.len() - i,
            {
                assert(fresh.take(i - first + 1).drop_last() =~= fresh.take(i - first));
                assert(fresh.take(i - first + 1).last() == scene.lines@[i as int]@);
                let ghost prev = text@;
                text.append("data: ");
                text.append(quote_json(scene.lines[i].as_str()).as_str());
                text.append("\n\n");
                assert(text@ =~= prev + line_event(scene.lines@[i as int]@));
                i = i + 1;
            }
            assert(fresh.take(i - first) =~= fresh);
            self.cursor = scene.lines.len();
            self.pending = bytes_of(text.as_str());
            self.pos = 0;
            proof {
                lemma_events_are_something(fresh);
            }
            assert(self@.left =~= self.pending@);
            return Next::Ready;
        }
        if scene.status.is_running() {
            return Next::Wait;
        }
        if self.done_sent {
            return Next::End;
        }
        let mut text = "event: done\ndata: {\"out\":".to_string();
        text.append(quote_json(scene.out.as_str()).as_str());
        text.append(",\"status\":");
        text.append(quote_json(scene.status.label().as_str()).as_str());
        text.append(",\"success\":");
        text.append(bool_str(scene.status.is_success()));
        text.append(",\"wall_ms\":");
        text.append(scene.wall_ms.as_str());
        text.append("}\n\n");
        self.done_sent = true;
        self.pending = bytes_of(text.as_str());
        self.pos = 0;
        proof {
            reveal_strlit("event: done\ndata: {\"out\":");
            lemma_encoded_is_something(text@);
        }
        assert(self@.left =~= self.pending@);
        Next::Ready
    }
}

proof fn lemma_encoded_is_something(s: Seq<char>)
    requires
        s.len() > 0,
    ensures
        encode_utf8(s).len() > 0,
{
}

proof fn lemma_events_are_something(lines: Seq<Seq<char>>)
    requires
        lines.len() > 0,
    ensures
        encode_utf8(line_events(lines)).len() > 0,
{
    reveal_strlit("data: ");
    lemma_encoded_is_something(line_events(lines));
}

/// No line of a log, whatever is in it, breaks out of its event: within the JSON there is no end of
/// a line.
pub proof fn law_event_is_one_line(line: Seq<char>, i: int)
    requires
        0 <= i < json_string(line).len(),
    ensures
        json_string(line)[i] as int >= 32,
{
    reveal_strlit("\"");
    let inner = all_escaped(line);
    if 0 < i <= inner.len() {
        lemma_escaped_is_printable(line, i - 1);
        assert(json_string(line)[i] == inner[i - 1]);
    }
}

proof fn lemma_character(c: char)
    ensures
        c as int >= 0,
{
}

proof fn lemma_escaped_is_printable(s: Seq<char>, i: int)
    requires
        0 <= i < all_escaped(s).len(),
    ensures
        all_escaped(s)[i] as int >= 32,
    decreases s.len(),
{
    if s.len() > 0 {
        let init = all_escaped(s.drop_last());
        if i < init.len() {
            lemma_escaped_is_printable(s.drop_last(), i);
        } else {
            let u = s.last() as int;
            assert(all_escaped(s)[i] == escaped(s.last())[i - init.len()]);
            lemma_character(s.last());
            if u < 32 {
                assert(HEX_DIGITS@[u / 16] as int >= 32);
                assert(HEX_DIGITS@[u % 16] as int >= 32);
            }
        }
    }
}

proof fn lemma_events_follow(before: Seq<Seq<char>>, since: Seq<Seq<char>>)
    ensures
        line_events(before) + line_events(since) == line_events(before + since),
    decreases since.len(),
{
    if since.len() == 0 {
        assert(before + since =~= before);
        assert(line_events(before) + line_events(since) =~= line_events(before));
    } else {
        lemma_events_follow(before, since.drop_last());
        assert((before + since).drop_last() =~= before + since.drop_last());
        assert(line_events(before) + line_events(since) =~= line_events(before + since));
    }
}

proof fn lemma_encoded_follows(a: Seq<char>, b: Seq<char>)
    ensures
        encode_utf8(a) + encode_utf8(b) == encode_utf8(a + b),
    decreases a.len(),
{
    if a.len() == 0 {
        assert(a + b =~= b);
        assert(encode_utf8(a) + encode_utf8(b) =~= encode_utf8(b));
    } else {
        lemma_encoded_follows(a.drop_first(), b);
        assert((a + b).drop_first() =~= a.drop_first() + b);
        assert(encode_utf8(a) + encode_utf8(b) =~= encode_utf8(a + b));
    }
}

/// What a look at a job tells of its lines.
pub open spec fn lines_told(s: SseV, scene: Scene) -> Seq<u8> {
    if s.cursor < scene.lines@.len() {
        advanced(s, scene).0.left
    } else {
        Seq::<u8>::empty()
    }
}

/// A stream that looks at a job, is read, and looks again when there are more lines, tells every line
/// once and in order: the second look tells what follows the first, and both together what one look
/// would have told. This is of a log that only grows; where the oldest lines go between the looks,
/// the stream counts on from where it was and passes over as many lines as went.
pub proof fn law_stream_tells_every_line_once(s: SseV, first: Scene, second: Scene)
    requires
        0 <= s.cursor <= first.lines@.len() <= second.lines@.len(),
        views(second.lines@).take(first.lines@.len() as int) == views(first.lines@),
    ensures
        ({
            let between = SseV { left: Seq::<u8>::empty(), ..advanced(s, first).0 };
            &&& lines_told(s, first) + lines_told(between, second) == encode_utf8(
                line_events(views(second.lines@).skip(s.cursor)),
            )
            &&& lines_told(s, second) == encode_utf8(
                line_events(views(second.lines@).skip(s.cursor)),
            )
            &&& advanced(between, second).0.cursor == second.lines@.len()
        }),
{
    let a = views(first.lines@);
    let b = views(second.lines@);
    let fresh = a.skip(s.cursor);
    let since = b.skip(a.len() as int);
    lemma_events_follow(fresh, since);
    lemma_encoded_follows(line_events(fresh), line_events(since));
    assert(fresh + since =~= b.skip(s.cursor)) by {
        assert forall|i: int| 0 <= i < fresh.len() implies fresh[i] == b.skip(s.cursor)[i] by {
            assert(b.take(a.len() as int)[i + s.cursor] == a[i + s.cursor]);
        }
    }
    if s.cursor == a.len() {
        assert(line_events(fresh) =~= Seq::<char>::empty());
        assert(encode_utf8(line_events(fresh)) =~= Seq::<u8>::empty());
    }
    if a.len() == b.len() {
        assert(line_events(since) =~= Seq::<char>::empty());
        assert(encode_utf8(line_events(since)) =~= Seq::<u8>::empty());
    }
    if s.cursor == b.len() {
        assert(b.skip(s.cursor).len() == 0);
        assert(encode_utf8(line_events(b.skip(s.cursor))) =~= Seq::<u8>::empty());
    }
}

/// The end of a job is told once, behind all its lines, and nothing comes after it.
pub proof fn law_end_is_told_once(s: SseV, scene: Scene)
    requires
        scene.status !is Running,
        s.cursor >= scene.lines@.len(),
        !s.done_sent,
    ensures
        ({
            let told = advanced(s, scene);
            &&& told.0.left == encode_utf8(
                done_event(scene.status, scene.out@, scene.wall_ms@),
            )
            &&& told.1 == Next::Ready
            &&& advanced(told.0, scene).1 == Next::End
        }),
{
}

} // verus!
