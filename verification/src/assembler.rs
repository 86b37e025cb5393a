//! The record assembler: a two-state machine that groups physical lines into
//! logical records.

use crate::format::format_append_line;
use crate::format::format_create_line;
use crate::format::render;
use crate::format::FormatCtx;
use crate::format::FormatOptions;
use vstd::prelude::*;
use vstd::string::StringSliceAdditionalSpecFns;

verus! {

/// A logical record: the rendered bytes of its lines, in the order they were
/// read, and the physical number of its first line.
pub struct Record {
    pub bytes: Vec<u8>,
    pub line_nr: usize,
}

/// A logical record as a value.
pub ghost struct RecordView {
    pub bytes: Seq<u8>,
    pub line_nr: nat,
}

impl View for Record {
    type V = RecordView;

    open spec fn view(&self) -> RecordView {
        RecordView { bytes: self.bytes@, line_nr: self.line_nr as nat }
    }
}

/// Where the assembler stands within its source.
pub enum State {
    /// No line has been read yet.
    ReadingLine,
    /// A record has been started and may still grow.
    ReadingContinuationLines(Record),
}

/// The assembler's state as a value.
pub ghost enum StateView {
    ReadingLine,
    ReadingContinuationLines(RecordView),
}

impl View for State {
    type V = StateView;

    open spec fn view(&self) -> StateView {
        match self {
            State::ReadingLine => StateView::ReadingLine,
            State::ReadingContinuationLines(record) => StateView::ReadingContinuationLines(
                record@,
            ),
        }
    }
}

/// The assembler for one source: its state and the number of physical lines
/// it has taken so far.
pub struct Assembler {
    pub state: State,
    pub lines_read: usize,
}

/// The assembler as a value.
pub ghost struct Machine {
    pub state: StateView,
    pub lines_read: nat,
}

impl View for Assembler {
    type V = Machine;

    open spec fn view(&self) -> Machine {
        Machine { state: self.state@, lines_read: self.lines_read as nat }
    }
}

/// What rendering needs to know of the source: the options and the bytes of
/// its displayed name.
pub ghost struct Source {
    pub opts: FormatOptions,
    pub path: Seq<u8>,
}

/// The source with these options and this displayed name.
pub open spec fn source_of(opts: FormatOptions, path: Seq<u8>) -> Source {
    Source { opts, path }
}

/// The record with these bytes that began at the physical line `line_nr`.
pub open spec fn record_of(bytes: Seq<u8>, line_nr: nat) -> RecordView {
    RecordView { bytes, line_nr }
}

/// The assembler before the first line.
pub open spec fn initial() -> Machine {
    Machine { state: StateView::ReadingLine, lines_read: 0 }
}

/// The assembler after one more physical line, and the record that this line
/// completed, if any. The first line starts a record. A later line extends the
/// record if it is a continuation line; otherwise it completes the record and
/// starts the next one.
pub open spec fn after_line(
    source: Source,
    m: Machine,
    line: Seq<u8>,
    is_continuation: bool,
) -> (Machine, Option<RecordView>) {
    let nr = m.lines_read + 1;
    let text = render(source.opts, source.path, nr, line);
    let fresh = StateView::ReadingContinuationLines(RecordView { bytes: text, line_nr: nr });
    match m.state {
        StateView::ReadingLine => (Machine { state: fresh, lines_read: nr }, None),
        StateView::ReadingContinuationLines(record) => if is_continuation {
            let grown = RecordView { bytes: record.bytes + text, line_nr: record.line_nr };
            (
                Machine { state: StateView::ReadingContinuationLines(grown), lines_read: nr },
                None,
            )
        } else {
            (Machine { state: fresh, lines_read: nr }, Some(record))
        },
    }
}

/// The assembler after the end of its input, and the record that the end
/// completed, if any.
pub open spec fn after_end(m: Machine) -> (Machine, Option<RecordView>) {
    match m.state {
        StateView::ReadingLine => (m, None),
        StateView::ReadingContinuationLines(record) => (
            Machine { state: StateView::ReadingLine, lines_read: m.lines_read },
            Some(record),
        ),
    }
}

/// The records, none or one, that a step completed.
pub open spec fn emitted(out: Option<RecordView>) -> Seq<RecordView> {
    match out {
        Some(record) => seq![record],
        None => Seq::empty(),
    }
}

/// All the records that the assembler completes when it takes `lines`, one
/// after the other, and then the end of the input. `continues` tells which
/// lines are continuation lines.
pub open spec fn records(
    source: Source,
    m: Machine,
    lines: Seq<Seq<u8>>,
    continues: spec_fn(Seq<u8>) -> bool,
) -> Seq<RecordView>
    decreases lines.len(),
{
    if lines.len() == 0 {
        emitted(after_end(m).1)
    } else {
        let (next, out) = after_line(source, m, lines[0], continues(lines[0]));
        emitted(out) + records(source, next, lines.drop_first(), continues)
    }
}

/// The renderings of `lines`, joined, where the first of them has the physical
/// number `first_nr`.
pub open spec fn render_lines(source: Source, first_nr: nat, lines: Seq<Seq<u8>>) -> Seq<u8>
    decreases lines.len(),
{
    if lines.len() == 0 {
        Seq::empty()
    } else {
        render(source.opts, source.path, first_nr, lines[0]) + render_lines(
            source,
            first_nr + 1,
            lines.drop_first(),
        )
    }
}

/// The view of a record that may be there.
pub open spec fn record_view(record: Option<Record>) -> Option<RecordView> {
    match record {
        Some(record) => Some(record@),
        None => None,
    }
}

impl Assembler {
    /// An assembler that has read nothing.
    pub fn new() -> (assembler: Assembler)
        ensures
            assembler@ == initial(),
    {
        Assembler { state: State::ReadingLine, lines_read: 0 }
    }

    /// Whether a record has been started, so that the next line may continue
    /// it.
    pub fn is_accumulating(&self) -> (r: bool)
        ensures
            r == (self@.state is ReadingContinuationLines),
    {
        match &self.state {
            State::ReadingLine => false,
            State::ReadingContinuationLines(_) => true,
        }
    }

    /// Takes the next physical line of the source named `path`. Returns the
    /// record that this line completed, if any.
    pub fn push_line(
        &mut self,
        opts: &FormatOptions,
        path: &str,
        line: &[u8],
        is_continuation: bool,
    ) -> (out: Option<Record>)
        requires
            old(self).lines_read < usize::MAX,
        ensures
            (final(self)@, record_view(out)) == after_line(
                source_of(*opts, path.spec_bytes()),
                old(self)@,
                line@,
                is_continuation,
            ),
    {
        let mut state = State::ReadingLine;
        core::mem::swap(&mut self.state, &mut state);
        self.lines_read = self.lines_read + 1;
        let fctx = FormatCtx { opts, path, line_nr: self.lines_read };
        match state {
            State::ReadingLine => {
                let bytes = format_create_line(&fctx, line);
                self.state = State::ReadingContinuationLines(
                    Record { bytes, line_nr: self.lines_read },
                );
                None
            },
            State::ReadingContinuationLines(mut record) => {
                if is_continuation {
                    format_append_line(&mut record.bytes, &fctx, line);
                    self.state = State::ReadingContinuationLines(record);
                    None
                } else {
                    let bytes = format_create_line(&fctx, line);
                    self.state = State::ReadingContinuationLines(
                        Record { bytes, line_nr: self.lines_read },
                    );
                    Some(record)
                }
            },
        }
    }

    /// Takes the end of the input. Returns the record that was still growing,
    /// if any, and leaves the assembler without one.
    pub fn finish(&mut self) -> (out: Option<Record>)
        ensures
            (final(self)@, record_view(out)) == after_end(old(self)@),
    {
        let mut state = State::ReadingLine;
        core::mem::swap(&mut self.state, &mut state);
        match state {
            State::ReadingLine => None,
            State::ReadingContinuationLines(record) => Some(record),
        }
    }
}

/// A record that is growing takes every continuation line that follows it:
/// at the end of the input it is completed alone, with the renderings of
/// those lines behind its bytes and its line number unchanged.
pub proof fn lemma_continuations_extend_record(
    source: Source,
    m: Machine,
    lines: Seq<Seq<u8>>,
    continues: spec_fn(Seq<u8>) -> bool,
)
    requires
        m.state is ReadingContinuationLines,
        forall|i: int| 0 <= i < lines.len() ==> continues(#[trigger] lines[i]),
    ensures
        records(source, m, lines, continues) == seq![
            record_of(
                m.state->ReadingContinuationLines_0.bytes + render_lines(
                    source,
                    m.lines_read + 1,
                    lines,
                ),
                m.state->ReadingContinuationLines_0.line_nr,
            ),
        ],
    decreases lines.len(),
{
    let record = m.state->ReadingContinuationLines_0;
    if lines.len() == 0 {
        assert(record.bytes + render_lines(source, m.lines_read + 1, lines) =~= record.bytes);
    } else {
        let rest = lines.drop_first();
        let (next, out) = after_line(source, m, lines[0], continues(lines[0]));
        assert(continues(lines[0]));
        assert forall|i: int| 0 <= i < rest.len() implies continues(#[trigger] rest[i]) by {
            assert(rest[i] == lines[i + 1]);
        }
        lemma_continuations_extend_record(source, next, rest, continues);
        let text = render(source.opts, source.path, m.lines_read + 1, lines[0]);
        assert((record.bytes + text) + render_lines(source, next.lines_read + 1, rest)
            =~= record.bytes + render_lines(source, m.lines_read + 1, lines));
        assert(emitted(out) + records(source, next, rest, continues) =~= records(
            source,
            next,
            rest,
            continues,
        ));
    }
}

/// A primary line followed by continuation lines only, up to the end of the
/// input, gives exactly one new record: the renderings of all these lines in
/// order, under the physical number of the primary line. The record that was
/// growing before the primary line, if any, is completed first.
pub proof fn lemma_primary_with_continuations(
    source: Source,
    m: Machine,
    primary: Seq<u8>,
    continuations: Seq<Seq<u8>>,
    continues: spec_fn(Seq<u8>) -> bool,
)
    requires
        m.state is ReadingLine || !continues(primary),
        forall|i: int| 0 <= i < continuations.len() ==> continues(#[trigger] continuations[i]),
    ensures
        records(source, m, seq![primary] + continuations, continues) == emitted(after_end(m).1)
            + seq![
            record_of(
                render_lines(source, m.lines_read + 1, seq![primary] + continuations),
                m.lines_read + 1,
            ),
        ],
{
    let lines = seq![primary] + continuations;
    assert(lines[0] == primary);
    assert(lines.drop_first() =~= continuations);
    let (next, out) = after_line(source, m, primary, continues(primary));
    assert(out == after_end(m).1);
    lemma_continuations_extend_record(source, next, continuations, continues);
}

/// A source of one line gives exactly one record: that line, rendered, under
/// the line number one.
pub proof fn lemma_single_line_record(
    source: Source,
    line: Seq<u8>,
    continues: spec_fn(Seq<u8>) -> bool,
)
    ensures
        records(source, initial(), seq![line], continues) == seq![
            record_of(render(source.opts, source.path, 1, line), 1),
        ],
{
    let lines = seq![line];
    lemma_primary_with_continuations(source, initial(), line, Seq::empty(), continues);
    assert(seq![line] + Seq::<Seq<u8>>::empty() =~= lines);
    assert(lines.drop_first() =~= Seq::<Seq<u8>>::empty());
    assert(render_lines(source, 1, lines) =~= render(source.opts, source.path, 1, line)) by {
        assert(render_lines(source, 2, lines.drop_first()) =~= Seq::<u8>::empty());
    }
    assert(emitted(after_end(initial()).1) + seq![
        RecordView { bytes: render_lines(source, 1, lines), line_nr: 1 },
    ] =~= seq![RecordView { bytes: render(source.opts, source.path, 1, line), line_nr: 1 }]);
}

/// With both prefixes off, the renderings of lines, joined, are the lines
/// themselves, joined.
pub proof fn lemma_plain_lines_are_joined(source: Source, first_nr: nat, lines: Seq<Seq<u8>>)
    requires
        !source.opts.file_prefix,
        !source.opts.line_numbers,
    ensures
        render_lines(source, first_nr, lines) == lines.flatten(),
    decreases lines.len(),
{
    if lines.len() == 0 {
    } else {
        lemma_plain_lines_are_joined(source, first_nr + 1, lines.drop_first());
        assert(render(source.opts, source.path, first_nr, lines[0]) =~= lines[0]);
    }
}

/// With both prefixes off, a source that is one primary line followed by
/// continuation lines only gives exactly one record: the bytes of all its
/// lines, in order and unchanged, under the line number one.
pub proof fn lemma_plain_record_is_its_lines(
    source: Source,
    primary: Seq<u8>,
    continuations: Seq<Seq<u8>>,
    continues: spec_fn(Seq<u8>) -> bool,
)
    requires
        !source.opts.file_prefix,
        !source.opts.line_numbers,
        forall|i: int| 0 <= i < continuations.len() ==> continues(#[trigger] continuations[i]),
    ensures
        records(source, initial(), seq![primary] + continuations, continues) == seq![
            record_of((seq![primary] + continuations).flatten(), 1),
        ],
{
    let lines = seq![primary] + continuations;
    lemma_primary_with_continuations(source, initial(), primary, continuations, continues);
    lemma_plain_lines_are_joined(source, 1, lines);
    assert(emitted(after_end(initial()).1) + seq![
        RecordView { bytes: render_lines(source, 1, lines), line_nr: 1 },
    ] =~= seq![RecordView { bytes: lines.flatten(), line_nr: 1 }]);
}

} // verus!
