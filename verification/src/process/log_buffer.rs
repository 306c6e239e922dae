use vstd::prelude::*;

use crate::text::{byte_len, chars_of, has_suffix, keep_tail, lemma_encode_concat, lemma_keep_tail_fits, string_from_range, suffix_cut, suffix_cut_exec};

verus! {

/// A bounded pair of output logs: each keeps only its most recent `max_bytes` bytes.
#[derive(Debug, Clone)]
pub struct ProcessLogBuffer {
    max_bytes: usize,
    stdout: String,
    stderr: String,
    truncated: bool,
}

/// The abstract contents of a [`ProcessLogBuffer`].
pub struct LogBufferView {
    pub max_bytes: nat,
    pub stdout: Seq<char>,
    pub stderr: Seq<char>,
    pub truncated: bool,
}

impl View for ProcessLogBuffer {
    type V = LogBufferView;

    closed spec fn view(&self) -> LogBufferView {
        LogBufferView {
            max_bytes: self.max_bytes as nat,
            stdout: self.stdout@,
            stderr: self.stderr@,
            truncated: self.truncated,
        }
    }
}

/// The log that results from appending `text` to `log` under a limit of `max` bytes.
pub open spec fn appended_log(log: Seq<char>, text: Seq<char>, max: nat) -> Seq<char> {
    keep_tail(log + text, max)
}

impl LogBufferView {
    /// Both logs fit within the byte limit.
    pub open spec fn wf(self) -> bool {
        &&& byte_len(self.stdout) <= self.max_bytes
        &&& byte_len(self.stderr) <= self.max_bytes
    }

    /// A buffer with both logs empty and nothing dropped.
    pub open spec fn empty(max: nat) -> LogBufferView {
        LogBufferView { max_bytes: max, stdout: Seq::empty(), stderr: Seq::empty(), truncated: false }
    }

    /// The log of standard output (`to_stdout`) or of standard error.
    pub open spec fn log_of(self, to_stdout: bool) -> Seq<char> {
        if to_stdout {
            self.stdout
        } else {
            self.stderr
        }
    }

    /// The buffer after `text` is appended to standard output (`to_stdout`) or standard error:
    /// that log keeps its most recent bytes, and the flag is raised when bytes were dropped.
    pub open spec fn appended(self, to_stdout: bool, text: Seq<char>) -> LogBufferView {
        let dropped = byte_len(self.log_of(to_stdout) + text) > self.max_bytes;
        if to_stdout {
            LogBufferView {
                max_bytes: self.max_bytes,
                stdout: appended_log(self.stdout, text, self.max_bytes),
                stderr: self.stderr,
                truncated: self.truncated || dropped,
            }
        } else {
            LogBufferView {
                max_bytes: self.max_bytes,
                stdout: self.stdout,
                stderr: appended_log(self.stderr, text, self.max_bytes),
                truncated: self.truncated || dropped,
            }
        }
    }
}

/// The buffer made with a limit of `max` bytes after the appends `(to_stdout, text)`, in order.
pub open spec fn buffer_after(max: nat, appends: Seq<(bool, Seq<char>)>) -> LogBufferView
    decreases appends.len(),
{
    if appends.len() == 0 {
        LogBufferView::empty(max)
    } else {
        buffer_after(max, appends.drop_last()).appended(appends.last().0, appends.last().1)
    }
}

/// The texts of `appends` that went to standard output (`to_stdout`) or to standard error.
pub open spec fn stream_texts(appends: Seq<(bool, Seq<char>)>, to_stdout: bool) -> Seq<Seq<char>>
    decreases appends.len(),
{
    if appends.len() == 0 {
        Seq::empty()
    } else if appends.last().0 == to_stdout {
        stream_texts(appends.drop_last(), to_stdout).push(appends.last().1)
    } else {
        stream_texts(appends.drop_last(), to_stdout)
    }
}

/// The texts one after another.
pub open spec fn joined(texts: Seq<Seq<char>>) -> Seq<char>
    decreases texts.len(),
{
    if texts.len() == 0 {
        Seq::empty()
    } else {
        joined(texts.drop_last()) + texts.last()
    }
}

/// The `i`-th append overflowed its log: the log it went to and its text exceeded the limit.
pub open spec fn overflows_at(max: nat, appends: Seq<(bool, Seq<char>)>, i: int) -> bool {
    byte_len(buffer_after(max, appends.take(i)).log_of(appends[i].0) + appends[i].1) > max
}

impl ProcessLogBuffer {
    /// An empty buffer that keeps at most `max_bytes` bytes of each stream.
    pub fn new(max_bytes: usize) -> (b: Self)
        ensures
            b@ == LogBufferView::empty(max_bytes as nat),
            b@.max_bytes == max_bytes,
            b@.stdout == Seq::<char>::empty(),
            b@.stderr == Seq::<char>::empty(),
            !b@.truncated,
            b@.wf(),
    {
        let b = Self { max_bytes, stdout: String::new(), stderr: String::new(), truncated: false };
        proof {
            assert(vstd::utf8::encode_utf8(Seq::<char>::empty()) =~= Seq::<u8>::empty());
        }
        b
    }

    /// Appends `text` to the standard output log, dropping its oldest bytes beyond the limit.
    pub fn append_stdout(&mut self, text: &str)
        requires
            byte_len(old(self)@.stdout) + byte_len(text@) <= usize::MAX,
        ensures
            final(self)@ == old(self)@.appended(true, text@),
            final(self)@.stdout == appended_log(old(self)@.stdout, text@, old(self)@.max_bytes),
            final(self)@.stderr == old(self)@.stderr,
            final(self)@.max_bytes == old(self)@.max_bytes,
            final(self)@.truncated == (old(self)@.truncated || byte_len(old(self)@.stdout + text@)
                > old(self)@.max_bytes),
            byte_len(final(self)@.stdout) <= final(self)@.max_bytes,
            old(self)@.wf() ==> final(self)@.wf(),
    {
        append_with_limit(&mut self.stdout, text, self.max_bytes, &mut self.truncated);
    }

    /// Appends `text` to the standard error log, dropping its oldest bytes beyond the limit.
    pub fn append_stderr(&mut self, text: &str)
        requires
            byte_len(old(self)@.stderr) + byte_len(text@) <= usize::MAX,
        ensures
            final(self)@ == old(self)@.appended(false, text@),
            final(self)@.stderr == appended_log(old(self)@.stderr, text@, old(self)@.max_bytes),
            final(self)@.stdout == old(self)@.stdout,
            final(self)@.max_bytes == old(self)@.max_bytes,
            final(self)@.truncated == (old(self)@.truncated || byte_len(old(self)@.stderr + text@)
                > old(self)@.max_bytes),
            byte_len(final(self)@.stderr) <= final(self)@.max_bytes,
            old(self)@.wf() ==> final(self)@.wf(),
    {
        append_with_limit(&mut self.stderr, text, self.max_bytes, &mut self.truncated);
    }

    /// The retained standard output.
    pub fn stdout(&self) -> (s: &str)
        ensures
            s@ == self@.stdout,
    {
        self.stdout.as_str()
    }

    /// The retained standard error.
    pub fn stderr(&self) -> (s: &str)
        ensures
            s@ == self@.stderr,
    {
        self.stderr.as_str()
    }

    /// Whether any bytes have been dropped from either log.
    pub fn truncated(&self) -> (b: bool)
        ensures
            b == self@.truncated,
    {
        self.truncated
    }
}

/// Appends `text` to `buffer`; when the result exceeds `max_bytes`, drops its oldest bytes
/// (up to the next character boundary) and raises `truncated`.
fn append_with_limit(buffer: &mut String, text: &str, max_bytes: usize, truncated: &mut bool)
    requires
        byte_len(old(buffer)@) + byte_len(text@) <= usize::MAX,
    ensures
        final(buffer)@ == appended_log(old(buffer)@, text@, max_bytes as nat),
        *final(truncated) == (*old(truncated) || byte_len(old(buffer)@ + text@) > max_bytes),
        byte_len(final(buffer)@) <= max_bytes,
{
    let mut combined = chars_of(buffer.as_str());
    let mut tail = chars_of(text);
    let total = buffer.as_str().len() + text.len();
    proof {
        lemma_encode_concat(buffer@, text@);
    }
    combined.append(&mut tail);
    let start = suffix_cut_exec(&combined, total, max_bytes);
    if total > max_bytes {
        *truncated = true;
    }
    *buffer = string_from_range(&combined, start, combined.len());
    proof {
        assert(combined@.subrange(start as int, combined@.len() as int) =~= combined@.skip(
            start as int,
        ));
    }
}

/// Appending the empty text to a log that fits changes nothing.
pub proof fn law_append_empty_is_identity(log: Seq<char>, max: nat)
    requires
        byte_len(log) <= max,
    ensures
        appended_log(log, Seq::<char>::empty(), max) == log,
{
    assert(log + Seq::<char>::empty() =~= log);
    lemma_keep_tail_fits(log, max);
}

/// While nothing is dropped, a log is exactly the concatenation of what was appended.
pub proof fn law_append_without_overflow(log: Seq<char>, text: Seq<char>, max: nat)
    requires
        byte_len(log + text) <= max,
    ensures
        appended_log(log, text, max) == log + text,
{
    lemma_keep_tail_fits(log + text, max);
}

/// What a log keeps is always a suffix of the old log followed by the new text, and the new
/// text is never cut while it fits within the limit by itself.
pub proof fn law_append_keeps_recent_suffix(log: Seq<char>, text: Seq<char>, max: nat)
    ensures
        has_suffix(log + text, appended_log(log, text, max)),
        byte_len(text) <= max ==> has_suffix(appended_log(log, text, max), text),
{
    let s = log + text;
    lemma_keep_tail_fits(s, max);
    let k = suffix_cut(s, max) as int;
    assert(s.subrange(s.len() - s.skip(k).len(), s.len() as int) =~= s.skip(k));
    if byte_len(text) <= max {
        lemma_suffix_cut_bound(log, text, max);
        let t = s.skip(k);
        assert(t.subrange(t.len() - text.len(), t.len() as int) =~= text);
    }
}

proof fn lemma_limit_kept(max: nat, appends: Seq<(bool, Seq<char>)>)
    ensures
        buffer_after(max, appends).max_bytes == max,
    decreases appends.len(),
{
    if appends.len() > 0 {
        lemma_limit_kept(max, appends.drop_last());
    }
}

/// Whatever was appended to either stream, in whatever order, each log of a buffer holds at
/// most its limit in bytes and is the most recent part of everything appended to it; while
/// everything appended to it fits, it is exactly that, whatever went to the other stream.
pub proof fn law_log_keeps_recent_output(max: nat, appends: Seq<(bool, Seq<char>)>, to_stdout: bool)
    ensures
        byte_len(buffer_after(max, appends).log_of(to_stdout)) <= max,
        has_suffix(joined(stream_texts(appends, to_stdout)), buffer_after(max, appends).log_of(to_stdout)),
        byte_len(joined(stream_texts(appends, to_stdout))) <= max ==> buffer_after(max, appends).log_of(to_stdout)
            == joined(stream_texts(appends, to_stdout)),
    decreases appends.len(),
{
    let v = buffer_after(max, appends);
    let l = v.log_of(to_stdout);
    let all = joined(stream_texts(appends, to_stdout));
    if appends.len() == 0 {
        assert(vstd::utf8::encode_utf8(Seq::<char>::empty()) =~= Seq::<u8>::empty());
        assert(all =~= Seq::<char>::empty());
        assert(l =~= Seq::<char>::empty());
        assert(all.subrange(0, 0) =~= l);
    } else {
        let before = appends.drop_last();
        let (to, text) = appends.last();
        law_log_keeps_recent_output(max, before, to_stdout);
        let u = buffer_after(max, before);
        let pl = u.log_of(to_stdout);
        let pall = joined(stream_texts(before, to_stdout));
        assert(v == u.appended(to, text));
        lemma_limit_kept(max, before);
        if to == to_stdout {
            assert(stream_texts(appends, to_stdout) == stream_texts(before, to_stdout).push(text));
            assert(stream_texts(before, to_stdout).push(text).drop_last() =~= stream_texts(before, to_stdout));
            assert(all == pall + text);
            if to_stdout {
                assert(l == appended_log(u.stdout, text, max));
            } else {
                assert(l == appended_log(u.stderr, text, max));
            }
            assert(l == keep_tail(pl + text, max));
            lemma_keep_tail_fits(pl + text, max);
            if l.len() == 0 {
                assert(vstd::utf8::encode_utf8(l) =~= Seq::<u8>::empty());
            }
            let s = pl + text;
            let k = suffix_cut(s, max) as int;
            // `l` is a suffix of `pl + text`, which is a suffix of `pall + text`.
            assert(s.subrange(s.len() - s.skip(k).len(), s.len() as int) =~= s.skip(k));
            assert(all.subrange(all.len() - s.len(), all.len() as int) =~= s) by {
                assert(pall.subrange(pall.len() - pl.len(), pall.len() as int) == pl);
            }
            assert(all.subrange(all.len() - l.len(), all.len() as int) =~= s.subrange(
                s.len() - l.len(),
                s.len() as int,
            ));
            if byte_len(all) <= max {
                lemma_encode_concat(pall, text);
                lemma_encode_concat(pl, text);
                lemma_keep_tail_fits(s, max);
            }
        } else {
            assert(stream_texts(appends, to_stdout) == stream_texts(before, to_stdout));
            assert(l == pl);
        }
    }
}

/// A buffer reports dropped bytes exactly when some append, to either stream, took its log
/// past the limit; once raised, the flag stays raised through every later append.
pub proof fn law_truncation_is_remembered(max: nat, appends: Seq<(bool, Seq<char>)>)
    ensures
        buffer_after(max, appends).truncated <==> exists|i: int| 0 <= i < appends.len() && #[trigger] overflows_at(
            max,
            appends,
            i,
        ),
        forall|j: int| 0 <= j <= appends.len() && #[trigger] buffer_after(max, appends.take(j)).truncated
            ==> buffer_after(max, appends).truncated,
    decreases appends.len(),
{
    if appends.len() == 0 {
        assert forall|j: int| 0 <= j <= appends.len() && #[trigger] buffer_after(max, appends.take(j)).truncated
            implies buffer_after(max, appends).truncated by {
            assert(appends.take(j) =~= appends);
        }
    } else {
        let n = appends.len() - 1;
        let before = appends.drop_last();
        law_truncation_is_remembered(max, before);
        lemma_limit_kept(max, before);
        assert(before =~= appends.take(n));
        assert(appends[n] == appends.last());
        assert(buffer_after(max, appends) == buffer_after(max, before).appended(appends.last().0, appends.last().1));
        assert forall|i: int| 0 <= i < n implies #[trigger] overflows_at(max, appends, i) == overflows_at(
            max,
            before,
            i,
        ) by {
            assert(appends.take(i) =~= before.take(i));
            assert(appends[i] == before[i]);
        }
        if buffer_after(max, appends).truncated {
            if buffer_after(max, before).truncated {
                let i = choose|i: int| 0 <= i < before.len() && #[trigger] overflows_at(max, before, i);
                assert(overflows_at(max, appends, i));
            } else {
                assert(overflows_at(max, appends, n));
            }
        }
        if exists|i: int| 0 <= i < appends.len() && #[trigger] overflows_at(max, appends, i) {
            let i = choose|i: int| 0 <= i < appends.len() && #[trigger] overflows_at(max, appends, i);
            if i < n {
                assert(overflows_at(max, before, i));
            }
        }
        assert forall|j: int| 0 <= j <= appends.len() && #[trigger] buffer_after(max, appends.take(j)).truncated
            implies buffer_after(max, appends).truncated by {
            if j == appends.len() {
                assert(appends.take(j) =~= appends);
            } else {
                assert(appends.take(j) =~= before.take(j));
            }
        }
    }
}

proof fn lemma_suffix_cut_bound(log: Seq<char>, text: Seq<char>, max: nat)
    requires
        byte_len(text) <= max,
    ensures
        suffix_cut(log + text, max) <= log.len(),
    decreases log.len(),
{
    let s = log + text;
    if s.len() == 0 || byte_len(s) <= max {
    } else {
        if log.len() == 0 {
            assert(s =~= text);
        } else {
            assert(s.drop_first() =~= log.drop_first() + text);
            lemma_suffix_cut_bound(log.drop_first(), text, max);
        }
    }
}

} // verus!
