//! The stream supervisor: the state of one spawned command's output
//! while its two streams are drained.
//!
//! The caller that owns the child process feeds every complete line it
//! reads, marks each stream's end, and finally exchanges the supervisor for
//! the command's [`CommandResult`]. The supervisor guarantees that the
//! accumulated text is exactly the delivered lines, each followed by a line
//! feed, in delivery order, and that a result can only be assembled once
//! both streams have been drained to their end.
use vstd::prelude::*;
use crate::commands::CommandResult;
use crate::text::{line_split, push_char, strip_cr};
use vstd::string::StringExecFns;

verus! {

/// The text accumulated from a stream: each line followed by a line feed.
pub open spec fn joined(lines: Seq<Seq<char>>) -> Seq<char>
    decreases lines.len(),
{
    if lines.len() == 0 {
        Seq::empty()
    } else {
        lines[0] + seq!['\n'] + joined(lines.drop_first())
    }
}

/// Appending one line extends the joined text by the line and a line feed.
pub proof fn lemma_joined_push(lines: Seq<Seq<char>>, x: Seq<char>)
    ensures
        joined(lines.push(x)) == joined(lines) + x + seq!['\n'],
    decreases lines.len(),
{
    if lines.len() == 0 {
        let p = lines.push(x);
        assert(p[0] == x);
        assert(p.drop_first() =~= Seq::<Seq<char>>::empty());
        assert(joined(p.drop_first()) == Seq::<char>::empty());
        assert(joined(p) == p[0] + seq!['\n'] + joined(p.drop_first()));
        assert(joined(lines) == Seq::<char>::empty());
        assert(x + seq!['\n'] + Seq::<char>::empty() =~= Seq::<char>::empty() + x + seq!['\n']);
    } else {
        lemma_joined_push(lines.drop_first(), x);
        assert(lines.push(x).drop_first() =~= lines.drop_first().push(x));
        assert(joined(lines.push(x)) =~= joined(lines) + x + seq!['\n']);
    }
}

/// Ownership of one invocation's output while it is being drained.
pub struct StreamSupervisor {
    /// Accumulated standard-output text.
    pub stdout_buf: String,
    /// Accumulated standard-error text.
    pub stderr_buf: String,
    /// Whether standard output has not yet reached its end.
    pub stdout_open: bool,
    /// Whether standard error has not yet reached its end.
    pub stderr_open: bool,
    /// The standard-output lines delivered so far, in delivery order.
    pub stdout_lines: Ghost<Seq<Seq<char>>>,
    /// The standard-error lines delivered so far, in delivery order.
    pub stderr_lines: Ghost<Seq<Seq<char>>>,
}

impl StreamSupervisor {
    /// The accumulators hold exactly the joined delivered lines.
    pub open spec fn wf(&self) -> bool {
        self.stdout_buf@ == joined(self.stdout_lines@) && self.stderr_buf@ == joined(
            self.stderr_lines@,
        )
    }

    /// A fresh supervisor for a just-spawned command: nothing accumulated,
    /// both streams open.
    pub fn new() -> (s: Self)
        ensures
            s.wf(),
            s.stdout_lines@ == Seq::<Seq<char>>::empty(),
            s.stderr_lines@ == Seq::<Seq<char>>::empty(),
            s.stdout_open,
            s.stderr_open,
    {
        StreamSupervisor {
            stdout_buf: String::new(),
            stderr_buf: String::new(),
            stdout_open: true,
            stderr_open: true,
            stdout_lines: Ghost(Seq::empty()),
            stderr_lines: Ghost(Seq::empty()),
        }
    }

    /// Record one complete line read from standard output. A caller with
    /// a per-line callback hands it the same line first, so lines reach
    /// the callback and the accumulator in the same order; the supervisor
    /// appends the line and a line feed.
    pub fn on_stdout_line(&mut self, line: &str)
        requires
            old(self).wf(),
            old(self).stdout_open,
        ensures
            final(self).wf(),
            final(self).stdout_lines@ == old(self).stdout_lines@.push(line@),
            final(self).stdout_buf@ == old(self).stdout_buf@ + line@ + seq!['\n'],
            final(self).stderr_buf == old(self).stderr_buf,
            final(self).stderr_lines@ == old(self).stderr_lines@,
            final(self).stdout_open,
            final(self).stderr_open == old(self).stderr_open,
    {
        proof {
            lemma_joined_push(self.stdout_lines@, line@);
        }
        self.stdout_buf.append(line);
        push_char(&mut self.stdout_buf, '\n');
        self.stdout_lines = Ghost(self.stdout_lines@.push(line@));
        proof {
            assert(self.stdout_buf@ =~= old(self).stdout_buf@ + line@ + seq!['\n']);
        }
    }

    /// Record one complete line read from standard error. No callback is
    /// owed for standard error; the line is only accumulated.
    pub fn on_stderr_line(&mut self, line: &str)
        requires
            old(self).wf(),
            old(self).stderr_open,
        ensures
            final(self).wf(),
            final(self).stderr_lines@ == old(self).stderr_lines@.push(line@),
            final(self).stderr_buf@ == old(self).stderr_buf@ + line@ + seq!['\n'],
            final(self).stdout_buf == old(self).stdout_buf,
            final(self).stdout_lines@ == old(self).stdout_lines@,
            final(self).stderr_open,
            final(self).stdout_open == old(self).stdout_open,
    {
        proof {
            lemma_joined_push(self.stderr_lines@, line@);
        }
        self.stderr_buf.append(line);
        push_char(&mut self.stderr_buf, '\n');
        self.stderr_lines = Ghost(self.stderr_lines@.push(line@));
        proof {
            assert(self.stderr_buf@ =~= old(self).stderr_buf@ + line@ + seq!['\n']);
        }
    }

    /// Standard output reached its end (or failed mid-read, which ends its
    /// drain with the text accumulated so far). No further line may arrive.
    pub fn on_stdout_eof(&mut self)
        requires
            old(self).wf(),
        ensures
            final(self).wf(),
            !final(self).stdout_open,
            final(self).stderr_open == old(self).stderr_open,
            final(self).stdout_buf == old(self).stdout_buf,
            final(self).stderr_buf == old(self).stderr_buf,
            final(self).stdout_lines@ == old(self).stdout_lines@,
            final(self).stderr_lines@ == old(self).stderr_lines@,
    {
        self.stdout_open = false;
    }

    /// Standard error reached its end.
    pub fn on_stderr_eof(&mut self)
        requires
            old(self).wf(),
        ensures
            final(self).wf(),
            !final(self).stderr_open,
            final(self).stdout_open == old(self).stdout_open,
            final(self).stdout_buf == old(self).stdout_buf,
            final(self).stderr_buf == old(self).stderr_buf,
            final(self).stdout_lines@ == old(self).stdout_lines@,
            final(self).stderr_lines@ == old(self).stderr_lines@,
    {
        self.stderr_open = false;
    }

    /// Exchange the supervisor for the final result, once both streams are
    /// fully drained and the process has been waited for. `exit_code` is
    /// the collected exit status, or nothing when it was unobservable, in
    /// which case the sentinel `-1` stands in for it.
    pub fn finish(self, exit_code: Option<i32>) -> (r: CommandResult)
        requires
            self.wf(),
            !self.stdout_open,
            !self.stderr_open,
        ensures
            r.exit_code == (match exit_code {
                Some(c) => c,
                None => -1i32,
            }),
            r.stdout@ == joined(self.stdout_lines@),
            r.stderr@ == joined(self.stderr_lines@),
    {
        let code: i32 = match exit_code {
            Some(c) => c,
            None => -1,
        };
        CommandResult { exit_code: code, stdout: self.stdout_buf, stderr: self.stderr_buf }
    }
}

/// Assemble the result of a synchronous run from the fully captured output
/// and the collected exit status, the sentinel `-1` standing in for an
/// unobservable one.
pub fn assemble_result(exit_code: Option<i32>, stdout: String, stderr: String) -> (r:
    CommandResult)
    ensures
        r.exit_code == (match exit_code {
            Some(c) => c,
            None => -1i32,
        }),
        r.stdout@ == stdout@,
        r.stderr@ == stderr@,
{
    let code: i32 = match exit_code {
        Some(c) => c,
        None => -1,
    };
    CommandResult { exit_code: code, stdout, stderr }
}

/// Nothing is lost on the way to the result: a well-formed supervisor's
/// accumulated standard-output text splits back into exactly the lines
/// that were delivered to it, in delivery order — so a caller's per-line
/// callback was owed exactly those lines, each exactly once, before the
/// result could be assembled.
pub proof fn lemma_supervisor_lines_recoverable(s: StreamSupervisor)
    requires
        s.wf(),
        forall|i: int|
            0 <= i < s.stdout_lines@.len() ==> !(#[trigger] s.stdout_lines@[i]).contains('\n'),
        forall|i: int|
            0 <= i < s.stdout_lines@.len() ==> ((#[trigger] s.stdout_lines@[i]).len() == 0
                || s.stdout_lines@[i][s.stdout_lines@[i].len() - 1] != '\r'),
    ensures
        line_split(s.stdout_buf@) == s.stdout_lines@,
{
    lemma_join_split_round_trip(s.stdout_lines@);
}

/// Reading text with no line feeds absorbs it into the current line.
proof fn lemma_lines_go_absorb(l: Seq<char>, s: Seq<char>, cur: Seq<char>)
    requires
        forall|j: int| 0 <= j < l.len() ==> l[j] != '\n',
    ensures
        crate::text::lines_go(l + s, cur) == crate::text::lines_go(s, cur + l),
    decreases l.len(),
{
    if l.len() == 0 {
        assert(l + s =~= s);
        assert(cur + l =~= cur);
    } else {
        lemma_lines_go_absorb(l.drop_first(), s, cur.push(l[0]));
        assert((l + s).drop_first() =~= l.drop_first() + s);
        assert(cur.push(l[0]) + l.drop_first() =~= cur + l);
    }
}

/// The supervisor's accumulated text splits back into exactly the lines
/// that were delivered, in delivery order: no line is lost, duplicated or
/// reordered. Holds for lines that contain no line feed and do not end in a
/// carriage return, which is every line a line-oriented reader hands over.
pub proof fn lemma_join_split_round_trip(lines: Seq<Seq<char>>)
    requires
        forall|i: int| 0 <= i < lines.len() ==> !(#[trigger] lines[i]).contains('\n'),
        forall|i: int|
            0 <= i < lines.len() ==> ((#[trigger] lines[i]).len() == 0 || lines[i][lines[i].len()
                - 1] != '\r'),
    ensures
        line_split(joined(lines)) == lines,
    decreases lines.len(),
{
    if lines.len() == 0 {
        assert(line_split(joined(lines)) =~= lines);
    } else {
        let l0 = lines[0];
        let rest = joined(lines.drop_first());
        assert(forall|j: int| 0 <= j < l0.len() ==> l0[j] != '\n');
        lemma_lines_go_absorb(l0, seq!['\n'] + rest, Seq::empty());
        assert(l0 + (seq!['\n'] + rest) =~= joined(lines));
        assert(Seq::<char>::empty() + l0 =~= l0);
        assert((seq!['\n'] + rest)[0] == '\n');
        assert((seq!['\n'] + rest).drop_first() =~= rest);
        assert(strip_cr(l0) == l0);
        lemma_join_split_round_trip(lines.drop_first());
        assert(line_split(joined(lines)) =~= lines);
    }
}

} // verus!
