//! The scan driver: one source at a time, line by line; each completed record
//! is tested against the search patterns, and a matching record is handed out
//! to be written.

use crate::assembler::after_end;
use crate::assembler::after_line;
use crate::assembler::emitted;
use crate::assembler::records;
use crate::assembler::source_of;
use crate::assembler::Assembler;
use crate::assembler::Machine;
use crate::assembler::RecordView;
use crate::assembler::Source;
use crate::format::FormatOptions;
use crate::patterns::PatternSet;
use vstd::prelude::*;
use vstd::string::StringSliceAdditionalSpecFns;

verus! {

/// What one step of a scan asks of its caller.
pub struct Step {
    /// The bytes of a matching record, to be written as they are.
    pub output: Option<Vec<u8>>,
    /// Whether the source is finished.
    pub done: bool,
}

impl Step {
    /// The bytes to be written, as a value.
    pub open spec fn output_bytes(&self) -> Option<Seq<u8>> {
        match self.output {
            Some(bytes) => Some(bytes@),
            None => None,
        }
    }
}

/// The assembler after a read, and the record that the read completed, if
/// any. A read of no bytes is the end of the input; any other read is one
/// physical line, which the continuation pattern classifies.
pub open spec fn after_read(
    source: Source,
    patterns: PatternSet,
    m: Machine,
    line: Seq<u8>,
) -> (Machine, Option<RecordView>) {
    if line.len() == 0 {
        after_end(m)
    } else {
        after_line(source, m, line, patterns.is_continuation_spec(line))
    }
}

/// The continuation rule of a pattern set, as a predicate on lines.
pub open spec fn continuation_rule(patterns: PatternSet) -> spec_fn(Seq<u8>) -> bool {
    |line: Seq<u8>| patterns.is_continuation_spec(line)
}

/// The bytes to write for a completed record: its bytes, if there is a record
/// and it matches.
pub open spec fn wanted_bytes(
    patterns: PatternSet,
    completed: Option<RecordView>,
) -> Option<Seq<u8>> {
    match completed {
        Some(record) => if patterns.matches_spec(record.bytes) {
            Some(record.bytes)
        } else {
            None
        },
        None => None,
    }
}

/// What a step writes: nothing, or one run of bytes.
pub open spec fn written(output: Option<Seq<u8>>) -> Seq<Seq<u8>> {
    match output {
        Some(bytes) => seq![bytes],
        None => Seq::empty(),
    }
}

/// Everything that is written while the scan takes `lines`, one read each,
/// and then the end of the input.
pub open spec fn outputs(
    source: Source,
    patterns: PatternSet,
    m: Machine,
    lines: Seq<Seq<u8>>,
) -> Seq<Seq<u8>>
    decreases lines.len(),
{
    if lines.len() == 0 {
        written(wanted_bytes(patterns, after_end(m).1))
    } else {
        let (next, completed) = after_read(source, patterns, m, lines[0]);
        written(wanted_bytes(patterns, completed)) + outputs(
            source,
            patterns,
            next,
            lines.drop_first(),
        )
    }
}

/// Whether the scan has found a match once it has taken `lines`, one read
/// each, and then the end of the input: it had found one before, or one of
/// these steps writes something.
pub open spec fn found_after(
    source: Source,
    patterns: PatternSet,
    m: Machine,
    lines: Seq<Seq<u8>>,
    found_before: bool,
) -> bool
    decreases lines.len(),
{
    if lines.len() == 0 {
        found_before || wanted_bytes(patterns, after_end(m).1) is Some
    } else {
        let (next, completed) = after_read(source, patterns, m, lines[0]);
        found_after(
            source,
            patterns,
            next,
            lines.drop_first(),
            found_before || wanted_bytes(patterns, completed) is Some,
        )
    }
}

/// The bytes of those of `records` that match, in their order.
pub open spec fn matching(patterns: PatternSet, records: Seq<RecordView>) -> Seq<Seq<u8>>
    decreases records.len(),
{
    if records.len() == 0 {
        Seq::empty()
    } else {
        written(wanted_bytes(patterns, Some(records[0]))) + matching(
            patterns,
            records.drop_first(),
        )
    }
}

/// The scan of one source.
pub struct Scanner<'a, 'b> {
    pub patterns: &'a PatternSet,
    pub opts: &'a FormatOptions,
    pub path: &'b str,
    pub assembler: Assembler,
    pub found_match: bool,
}

impl<'a, 'b> Scanner<'a, 'b> {
    /// What rendering needs to know of this scan's source.
    pub open spec fn source(&self) -> Source {
        source_of(*self.opts, self.path.spec_bytes())
    }

    /// The assembler after the next read, and the record that the read
    /// completed, if any.
    pub open spec fn read(&self, line: Seq<u8>) -> (Machine, Option<RecordView>) {
        after_read(self.source(), *self.patterns, self.assembler@, line)
    }

    /// The bytes to write after the next read.
    pub open spec fn wanted(&self, line: Seq<u8>) -> Option<Seq<u8>> {
        wanted_bytes(*self.patterns, self.read(line).1)
    }

    /// A scan of the source displayed as `path`, before its first line.
    pub fn new(
        patterns: &'a PatternSet,
        opts: &'a FormatOptions,
        path: &'b str,
    ) -> (scanner: Scanner<'a, 'b>)
        ensures
            scanner.patterns == patterns,
            scanner.opts == opts,
            scanner.path == path,
            scanner.assembler@ == crate::assembler::initial(),
            !scanner.found_match,
    {
        Scanner { patterns, opts, path, assembler: Assembler::new(), found_match: false }
    }

    /// Whether another line can be taken: the line count has not reached the
    /// largest number.
    pub fn can_read(&self) -> (r: bool)
        ensures
            r == (self.assembler.lines_read < usize::MAX),
    {
        self.assembler.lines_read < usize::MAX
    }

    /// Takes what the next read of the source gave: a physical line with its
    /// terminator, or no bytes at the end of the input. A record that the read
    /// completed is tested against the search patterns; if it matches, its
    /// bytes are handed out and the scan has found a match. What the patterns
    /// decide is stated for a valid pattern set.
    pub fn step(&mut self, line: &[u8]) -> (out: Step)
        requires
            line@.len() > 0 ==> old(self).assembler.lines_read < usize::MAX,
        ensures
            final(self).patterns == old(self).patterns,
            final(self).opts == old(self).opts,
            final(self).path == old(self).path,
            out.done == (line@.len() == 0),
            final(self).found_match == (old(self).found_match || out.output is Some),
            old(self).patterns.valid() ==> final(self).assembler@ == old(self).read(line@).0,
            old(self).patterns.valid() ==> out.output_bytes() == old(self).wanted(line@),
    {
        let done = line.len() == 0;
        let completed = if done {
            self.assembler.finish()
        } else {
            let is_continuation = self.assembler.is_accumulating() && self.patterns.is_continuation(
                line,
            );
            self.assembler.push_line(self.opts, self.path, line, is_continuation)
        };
        let output = match completed {
            Some(record) => {
                if self.patterns.matches(record.bytes.as_slice()) {
                    self.found_match = true;
                    Some(record.bytes)
                } else {
                    None
                }
            },
            None => None,
        };
        Step { output, done }
    }
}

/// A scan writes exactly the records that match, each as a whole and in the
/// order in which the assembler completes them: a record is written if and
/// only if some search pattern matches somewhere in its bytes.
pub proof fn lemma_scan_writes_matching_records(
    source: Source,
    patterns: PatternSet,
    m: Machine,
    lines: Seq<Seq<u8>>,
)
    requires
        patterns.valid(),
        forall|i: int| 0 <= i < lines.len() ==> (#[trigger] lines[i]).len() > 0,
    ensures
        outputs(source, patterns, m, lines) == matching(
            patterns,
            records(source, m, lines, continuation_rule(patterns)),
        ),
    decreases lines.len(),
{
    let continues = continuation_rule(patterns);
    if lines.len() == 0 {
        lemma_matching_of_emitted(patterns, after_end(m).1, Seq::empty());
        assert(emitted(after_end(m).1) + Seq::<RecordView>::empty() =~= emitted(after_end(m).1));
        assert(written(wanted_bytes(patterns, after_end(m).1)) + Seq::<Seq<u8>>::empty()
            =~= written(wanted_bytes(patterns, after_end(m).1)));
    } else {
        let rest = lines.drop_first();
        assert(lines[0].len() > 0);
        let (next, completed) = after_read(source, patterns, m, lines[0]);
        assert((next, completed) == after_line(source, m, lines[0], continues(lines[0])));
        assert forall|i: int| 0 <= i < rest.len() implies (#[trigger] rest[i]).len() > 0 by {
            assert(rest[i] == lines[i + 1]);
        }
        lemma_scan_writes_matching_records(source, patterns, next, rest);
        lemma_matching_of_emitted(patterns, completed, records(source, next, rest, continues));
    }
}

/// The result of a whole source is a match exactly when something was
/// written for it, or a match had been found before.
pub proof fn lemma_found_iff_written(
    source: Source,
    patterns: PatternSet,
    m: Machine,
    lines: Seq<Seq<u8>>,
    found_before: bool,
)
    requires
        patterns.valid(),
    ensures
        found_after(source, patterns, m, lines, found_before) == (found_before || outputs(
            source,
            patterns,
            m,
            lines,
        ).len() > 0),
    decreases lines.len(),
{
    if lines.len() > 0 {
        let (next, completed) = after_read(source, patterns, m, lines[0]);
        let step_found = found_before || wanted_bytes(patterns, completed) is Some;
        lemma_found_iff_written(source, patterns, next, lines.drop_first(), step_found);
    }
}

/// A source scanned from its first line gives a match exactly when one of
/// its records matches.
pub proof fn lemma_found_iff_some_record_matches(
    source: Source,
    patterns: PatternSet,
    lines: Seq<Seq<u8>>,
)
    requires
        patterns.valid(),
        forall|i: int| 0 <= i < lines.len() ==> (#[trigger] lines[i]).len() > 0,
    ensures
        found_after(source, patterns, crate::assembler::initial(), lines, false) == (matching(
            patterns,
            records(source, crate::assembler::initial(), lines, continuation_rule(patterns)),
        ).len() > 0),
{
    lemma_found_iff_written(source, patterns, crate::assembler::initial(), lines, false);
    lemma_scan_writes_matching_records(source, patterns, crate::assembler::initial(), lines);
}

/// The matching records of a step's record, if any, followed by `rest` are
/// what the step writes followed by the matching records of `rest`.
proof fn lemma_matching_of_emitted(
    patterns: PatternSet,
    completed: Option<RecordView>,
    rest: Seq<RecordView>,
)
    ensures
        matching(patterns, emitted(completed) + rest) == written(
            wanted_bytes(patterns, completed),
        ) + matching(patterns, rest),
{
    let all = emitted(completed) + rest;
    match completed {
        Some(record) => {
            assert(all[0] == record);
            assert(all.drop_first() =~= rest);
        },
        None => {
            assert(all =~= rest);
            assert(written(wanted_bytes(patterns, completed)) + matching(patterns, rest)
                =~= matching(patterns, rest));
        },
    }
}

/// Whether any record matched, over all the sources scanned so far.
#[derive(Clone, Copy, Debug, PartialEq, Eq, Structural)]
pub struct ScanResult {
    pub matched: bool,
}

impl ScanResult {
    /// The result before any source was scanned.
    pub fn new() -> (result: ScanResult)
        ensures
            !result.matched,
    {
        ScanResult { matched: false }
    }

    /// Takes in the outcome of one more source. A match in it is joined to
    /// those found before. A failure is handed back, so that the run ends with
    /// the first one, and leaves the result as it was.
    pub fn add_source<E>(&mut self, outcome: Result<bool, E>) -> (r: Result<(), E>)
        ensures
            outcome matches Ok(found) ==> r is Ok && final(self).matched == (old(self).matched
                || found),
            outcome matches Err(err) ==> r == Err::<(), E>(err) && final(self).matched == old(
                self,
            ).matched,
    {
        match outcome {
            Ok(found) => {
                self.matched = self.matched || found;
                Ok(())
            },
            Err(err) => Err(err),
        }
    }
}

/// The exit code for a match.
pub const EXIT_MATCH: i32 = 0;

/// The exit code for a run without a match.
pub const EXIT_NO_MATCH: i32 = 1;

/// The exit code for a run that failed.
pub const EXIT_ERROR: i32 = 2;

/// The exit code of a run: whether a record matched, or that the run failed.
pub fn exit_code<E>(outcome: &Result<ScanResult, E>) -> (code: i32)
    ensures
        (outcome matches Ok(result) && result.matched) ==> code == EXIT_MATCH,
        (outcome matches Ok(result) && !result.matched) ==> code == EXIT_NO_MATCH,
        outcome is Err ==> code == EXIT_ERROR,
{
    match outcome {
        Ok(result) => if result.matched {
            EXIT_MATCH
        } else {
            EXIT_NO_MATCH
        },
        Err(_) => EXIT_ERROR,
    }
}

} // verus!
