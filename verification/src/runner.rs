//! Executor results: output truncation, run results and `git diff --numstat`
//! parsing.
use vstd::prelude::*;
use vstd::utf8::*;
use vstd::string::StringSliceAdditionalSpecFns;
use crate::config::{parse_unsigned, parse_bounded_chars};
use crate::text::{decimal, push_decimal, push_str, chars_of, string_of};
use crate::types::{Artifact, DiffStat, ExecResult, OutputLimits};

verus! {

broadcast use vstd::utf8::group_utf8_lib;

/// `std::io::Error`, carried opaquely in executor errors.
#[verifier::external_type_specification]
#[verifier::external_body]
pub struct ExIoError(std::io::Error);

/// Why a run failed.
pub enum RunnerError {
    Execution(String),
    Timeout(u64),
    Io(std::io::Error),
}

/// `format!("{}", e)` on an I/O error. What the text says is not stated.
#[verifier::external_body]
fn io_error_text(e: &std::io::Error) -> String {
    format!("{}", e)
}

impl RunnerError {
    /// The error message: `execution error: {message}`, `timeout after {n}
    /// seconds` or `io error: {error}`.
    pub fn message(&self) -> (res: String)
        ensures
            self matches RunnerError::Execution(m) ==> res@ == "execution error: "@ + m@,
            self matches RunnerError::Timeout(n) ==> res@ == "timeout after "@ + decimal(n as nat) + " seconds"@,
            self is Io ==> crate::text::starts_with_seq(res@, "io error: "@),
    {
        let mut s = String::new();
        match self {
            RunnerError::Execution(m) => {
                push_str(&mut s, "execution error: ");
                push_str(&mut s, m.as_str());
            },
            RunnerError::Timeout(n) => {
                push_str(&mut s, "timeout after ");
                push_decimal(&mut s, *n as u128);
                push_str(&mut s, " seconds");
            },
            RunnerError::Io(e) => {
                push_str(&mut s, "io error: ");
                let ghost pre = s@;
                let t = io_error_text(e);
                push_str(&mut s, t.as_str());
                assert(s@.subrange(0, "io error: "@.len() as int) =~= "io error: "@);
            },
        }
        s
    }
}

// ---------------------------------------------------------------- truncation

/// The byte length of a text in UTF-8.
pub open spec fn byte_len(s: Seq<char>) -> nat {
    encode_utf8(s).len()
}

/// The truncation notice for a cap of `kb` KiB.
pub open spec fn truncation_notice(kb: nat) -> Seq<char> {
    "\n\n[Output truncated to "@ + decimal(kb) + "KB]"@
}

/// A cap of `kb` KiB can be applied to `s`: the byte counts fit a machine
/// word, and when the text is longer the cut falls between characters.
pub open spec fn truncatable(s: Seq<char>, kb: nat) -> bool {
    &&& kb * 1024 <= usize::MAX
    &&& byte_len(s) <= usize::MAX
    &&& (byte_len(s) > kb * 1024 ==> is_char_boundary(encode_utf8(s), (kb * 1024) as int))
}

/// `s` cut to its first `kb` KiB, with a notice, when it is longer than that.
pub open spec fn truncated(s: Seq<char>, kb: nat) -> Seq<char> {
    if byte_len(s) > kb * 1024 {
        decode_utf8(encode_utf8(s).take((kb * 1024) as int)) + truncation_notice(kb)
    } else {
        s
    }
}

/// Cuts `s` to its first `max_bytes` KiB and appends a notice saying so; text
/// within the cap is returned unchanged.
pub fn truncate(s: &str, max_bytes: usize) -> (res: String)
    requires
        truncatable(s@, max_bytes as nat),
    ensures
        res@ == truncated(s@, max_bytes as nat),
{
    let lim: usize = max_bytes * 1024;
    if s.len() > lim {
        let (head, _tail) = s.split_at(lim);
        let mut t = head.to_owned();
        proof {
            assert(head.spec_bytes() =~= encode_utf8(s@).take(lim as int));
            assert(decode_utf8(encode_utf8(head@)) == head@);
        }
        push_str(&mut t, "\n\n[Output truncated to ");
        push_decimal(&mut t, max_bytes as u128);
        push_str(&mut t, "KB]");
        assert(t@ =~= truncated(s@, max_bytes as nat));
        t
    } else {
        assert(byte_len(s@) <= max_bytes * 1024);
        let t = s.to_owned();
        assert(t@ == s@);
        t
    }
}

/// The outcome of a finished run: the exit code (`-1` when the process had
/// none, e.g. it was killed by a signal), both outputs cut to their caps, the
/// duration and no artifacts.
pub fn finish_run(exit_code: Option<i32>, stdout: &str, stderr: &str, duration_ms: u128, limits: &OutputLimits) -> (res: ExecResult)
    requires
        limits.max_stdout_kb <= usize::MAX,
        limits.max_stderr_kb <= usize::MAX,
        truncatable(stdout@, limits.max_stdout_kb as nat),
        truncatable(stderr@, limits.max_stderr_kb as nat),
    ensures
        res.exit_code == (match exit_code { Some(c) => c, None => -1i32 }),
        res.stdout@ == truncated(stdout@, limits.max_stdout_kb as nat),
        res.stderr@ == truncated(stderr@, limits.max_stderr_kb as nat),
        res.duration_ms == duration_ms,
        res.artifacts@.len() == 0,
{
    let out = truncate(stdout, limits.max_stdout_kb as usize);
    let err = truncate(stderr, limits.max_stderr_kb as usize);
    let artifacts: Vec<Artifact> = Vec::new();
    ExecResult {
        exit_code: match exit_code { Some(c) => c, None => -1 },
        stdout: out,
        stderr: err,
        duration_ms,
        artifacts,
    }
}

// ---------------------------------------------------------------- splitting

/// `str::split` on one separator character: the pieces between separators
/// (there is always at least one piece).
pub open spec fn split_on(s: Seq<char>, sep: char) -> Seq<Seq<char>>
    decreases s.len(),
{
    if s.len() == 0 {
        seq![Seq::empty()]
    } else {
        let rest = split_on(s.drop_last(), sep);
        if s.last() == sep {
            rest.push(Seq::empty())
        } else {
            rest.update(rest.len() - 1, rest.last().push(s.last()))
        }
    }
}

proof fn lemma_split_on_nonempty(s: Seq<char>, sep: char)
    ensures
        split_on(s, sep).len() >= 1,
    decreases s.len(),
{
    if s.len() > 0 {
        lemma_split_on_nonempty(s.drop_last(), sep);
    }
}

/// The views of a sequence of character vectors.
pub open spec fn char_views(v: Seq<Vec<char>>) -> Seq<Seq<char>> {
    Seq::new(v.len(), |i: int| v[i]@)
}

/// The pieces of `cs` between occurrences of `sep`.
pub fn split_chars(cs: &Vec<char>, sep: char) -> (res: Vec<Vec<char>>)
    ensures
        char_views(res@) == split_on(cs@, sep),
{
    let mut pieces: Vec<Vec<char>> = Vec::new();
    let mut cur: Vec<char> = Vec::new();
    let mut i: usize = 0;
    while i < cs.len()
        invariant
            i <= cs@.len(),
            char_views(pieces@).push(cur@) == split_on(cs@.take(i as int), sep),
        decreases cs.len() - i,
    {
        let c = cs[i];
        let ghost before = cs@.take(i as int);
        assert(cs@.take(i + 1).drop_last() =~= before);
        proof { lemma_split_on_nonempty(before, sep); }
        if c == sep {
            let done = cur;
            pieces.push(done);
            cur = Vec::new();
            assert(char_views(pieces@).push(cur@) =~= split_on(cs@.take(i + 1), sep));
        } else {
            let ghost old_cur = cur@;
            cur.push(c);
            assert(char_views(pieces@).push(cur@) =~= char_views(pieces@).push(old_cur).update(
                char_views(pieces@).len() as int, old_cur.push(c)));
            assert(char_views(pieces@).push(cur@) =~= split_on(cs@.take(i + 1), sep));
        }
        i += 1;
    }
    assert(cs@.take(i as int) =~= cs@);
    let ghost last = cur@;
    let ghost before = pieces@;
    pieces.push(cur);
    assert(char_views(pieces@) =~= char_views(before).push(last));
    pieces
}

/// A line without the carriage return of a `\r\n` ending.
pub open spec fn strip_cr(line: Seq<char>) -> Seq<char> {
    if line.len() > 0 && line.last() == '\r' { line.drop_last() } else { line }
}

/// `str::lines`: the text split at `\n`, a `\r` before the `\n` removed, and no
/// empty line after a final `\n` (the empty text has no lines).
pub open spec fn lines_of(s: Seq<char>) -> Seq<Seq<char>> {
    let pieces = split_on(s, '\n');
    let terminated = if s.len() == 0 || s.last() == '\n' { pieces.drop_last() } else { pieces };
    Seq::new(terminated.len(), |i: int|
        if i < pieces.len() - 1 { strip_cr(terminated[i]) } else { terminated[i] })
}

// ---------------------------------------------------------------- numstat

/// The counts a `--numstat` line reports, when it has at least three
/// tab-separated fields and changes something: insertions, deletions and the
/// third field (the path). An unparsable count reads as 0.
pub open spec fn numstat_entry(line: Seq<char>) -> Option<(nat, nat, Seq<char>)> {
    let parts = split_on(line, '\t');
    if parts.len() >= 3 {
        let ins = match parse_unsigned(parts[0], u32::MAX as nat) { Some(n) => n, None => 0 };
        let del = match parse_unsigned(parts[1], u32::MAX as nat) { Some(n) => n, None => 0 };
        if ins > 0 || del > 0 { Some((ins, del, parts[2])) } else { None }
    } else {
        None
    }
}

/// The changed paths of the first `n` lines.
pub open spec fn numstat_files(lines: Seq<Seq<char>>, n: nat) -> Seq<Seq<char>>
    decreases n,
{
    if n == 0 || n > lines.len() {
        Seq::empty()
    } else {
        let rest = numstat_files(lines, (n - 1) as nat);
        match numstat_entry(lines[n - 1]) {
            Some(e) => rest.push(e.2),
            None => rest,
        }
    }
}

/// The total insertions of the first `n` lines.
pub open spec fn numstat_insertions(lines: Seq<Seq<char>>, n: nat) -> nat
    decreases n,
{
    if n == 0 || n > lines.len() {
        0
    } else {
        numstat_insertions(lines, (n - 1) as nat) + match numstat_entry(lines[n - 1]) {
            Some(e) => e.0,
            None => 0,
        }
    }
}

/// The total deletions of the first `n` lines.
pub open spec fn numstat_deletions(lines: Seq<Seq<char>>, n: nat) -> nat
    decreases n,
{
    if n == 0 || n > lines.len() {
        0
    } else {
        numstat_deletions(lines, (n - 1) as nat) + match numstat_entry(lines[n - 1]) {
            Some(e) => e.1,
            None => 0,
        }
    }
}

/// The totals of `git diff --numstat` output fit the 32-bit counters.
pub open spec fn numstat_fits(out: Seq<char>) -> bool {
    let ls = lines_of(out);
    numstat_insertions(ls, ls.len()) <= u32::MAX && numstat_deletions(ls, ls.len()) <= u32::MAX
        && numstat_files(ls, ls.len()).len() <= u32::MAX
}

/// Sums up `git diff --numstat` output: the number of changed paths, the total
/// insertions and deletions, and the paths in order. `None` when a total does
/// not fit its 32-bit counter.
pub fn parse_numstat(stdout: &str) -> (res: Option<DiffStat>)
    ensures
        match res {
            Some(d) => {
                let ls = lines_of(stdout@);
                &&& numstat_fits(stdout@)
                &&& d.files.deep_view() == numstat_files(ls, ls.len())
                &&& d.files_changed == d.files@.len()
                &&& d.insertions == numstat_insertions(ls, ls.len())
                &&& d.deletions == numstat_deletions(ls, ls.len())
            },
            None => !numstat_fits(stdout@),
        },
{
    let cs = chars_of(stdout);
    let pieces = split_chars(&cs, '\n');
    proof { lemma_split_on_nonempty(cs@, '\n'); }
    let ghost ls = lines_of(stdout@);
    let terminated: usize = if cs.len() == 0 || cs[cs.len() - 1] == '\n' { pieces.len() - 1 } else { pieces.len() };
    assert(ls.len() == terminated);
    let mut files: Vec<String> = Vec::new();
    let mut ins: u32 = 0;
    let mut del: u32 = 0;
    let mut i: usize = 0;
    while i < terminated
        invariant
            i <= terminated <= pieces@.len(),
            cs@ == stdout@,
            char_views(pieces@) == split_on(cs@, '\n'),
            ls == lines_of(stdout@),
            ls.len() == terminated,
            files.deep_view() == numstat_files(ls, i as nat),
            ins == numstat_insertions(ls, i as nat),
            del == numstat_deletions(ls, i as nat),
            files@.len() <= 0xffff_ffff,
        decreases terminated - i,
    {
        let mut line: Vec<char> = pieces[i].clone();
        assert(line@ == char_views(pieces@)[i as int]);
        if i + 1 < pieces.len() && line.len() > 0 && line[line.len() - 1] == '\r' {
            line.pop();
        }
        assert(line@ == ls[i as int]);
        let parts = split_chars(&line, '\t');
        if parts.len() >= 3 {
            let pi = match parse_bounded_chars(&parts[0], 0xffff_ffff) { Some(n) => n, None => 0 };
            let pd = match parse_bounded_chars(&parts[1], 0xffff_ffff) { Some(n) => n, None => 0 };
            if pi > 0 || pd > 0 {
                if (ins as u64) + pi > 0xffff_ffff || (del as u64) + pd > 0xffff_ffff || files.len() >= 0xffff_ffff {
                    proof { lemma_numstat_overflow(ls, (i + 1) as nat); }
                    return None;
                }
                ins = ins + pi as u32;
                del = del + pd as u32;
                files.push(string_of(&parts[2]));
            }
        }
        assert(files.deep_view() =~= numstat_files(ls, (i + 1) as nat));
        i += 1;
    }
    let n = files.len() as u32;
    Some(DiffStat { files_changed: n, insertions: ins, deletions: del, files })
}

/// A count field of a `--numstat` line as read: its decimal value, or 0 where
/// it is no number (`-` for a binary file).
pub open spec fn count_or_zero(field: Seq<char>) -> nat {
    match parse_unsigned(field, u32::MAX as nat) {
        Some(n) => n,
        None => 0,
    }
}

proof fn lemma_numstat_prefix(lines: Seq<Seq<char>>, line: Seq<char>, k: nat)
    requires
        k <= lines.len(),
    ensures
        numstat_files(lines.push(line), k) == numstat_files(lines, k),
        numstat_insertions(lines.push(line), k) == numstat_insertions(lines, k),
        numstat_deletions(lines.push(line), k) == numstat_deletions(lines, k),
    decreases k,
{
    if k > 0 {
        lemma_numstat_prefix(lines, line, (k - 1) as nat);
        assert(lines.push(line)[k - 1] == lines[k - 1]);
    }
}

/// What one more line of `git diff --numstat` output adds to the totals: a
/// line of at least three tab-separated fields whose insertion or deletion
/// count is positive adds one changed path (its third field), its insertions
/// and its deletions, whichever of the two counts is zero; any other line adds
/// nothing.
pub proof fn lemma_numstat_line_adds(lines: Seq<Seq<char>>, line: Seq<char>)
    ensures
        ({
            let parts = split_on(line, '\t');
            let more = lines.push(line);
            let n = lines.len();
            if parts.len() >= 3 && (count_or_zero(parts[0]) > 0 || count_or_zero(parts[1]) > 0) {
                &&& numstat_files(more, n + 1) == numstat_files(lines, n).push(parts[2])
                &&& numstat_insertions(more, n + 1) == numstat_insertions(lines, n) + count_or_zero(parts[0])
                &&& numstat_deletions(more, n + 1) == numstat_deletions(lines, n) + count_or_zero(parts[1])
            } else {
                &&& numstat_files(more, n + 1) == numstat_files(lines, n)
                &&& numstat_insertions(more, n + 1) == numstat_insertions(lines, n)
                &&& numstat_deletions(more, n + 1) == numstat_deletions(lines, n)
            }
        }),
{
    lemma_numstat_prefix(lines, line, lines.len());
    assert(lines.push(line)[lines.len() as int] == line);
}

/// Totals only grow along the lines, so an overflow in a prefix is an
/// overflow of the whole.
proof fn lemma_numstat_overflow(ls: Seq<Seq<char>>, k: nat)
    requires
        k <= ls.len(),
        numstat_insertions(ls, k) > u32::MAX || numstat_deletions(ls, k) > u32::MAX
            || numstat_files(ls, k).len() > u32::MAX,
    ensures
        numstat_insertions(ls, ls.len()) > u32::MAX || numstat_deletions(ls, ls.len()) > u32::MAX
            || numstat_files(ls, ls.len()).len() > u32::MAX,
    decreases ls.len() - k,
{
    if k < ls.len() {
        lemma_numstat_overflow(ls, k + 1);
    }
}

} // verus!
