//! The formatter: optional `source:` and `line-number:` prefixes in front of a
//! physical line.

use vstd::prelude::*;
use vstd::string::StringSliceAdditionalSpecFns;

verus! {

/// Which prefixes every rendered line carries.
#[derive(Clone, Copy, Debug, PartialEq, Eq, Structural)]
pub struct FormatOptions {
    pub file_prefix: bool,
    pub line_numbers: bool,
}

impl FormatOptions {
    /// Options for a run over `sources` inputs. The source prefix is on when it
    /// was asked for, and always when there is more than one input.
    pub fn for_sources(
        with_filename: bool,
        with_line_number: bool,
        sources: usize,
    ) -> (opts: FormatOptions)
        ensures
            opts.file_prefix == (with_filename || sources > 1),
            opts.line_numbers == with_line_number,
    {
        FormatOptions { file_prefix: with_filename || sources > 1, line_numbers: with_line_number }
    }
}

/// What the formatter needs to know about the line it renders: the options,
/// the displayed name of the source, and the 1-based physical line number.
pub struct FormatCtx<'a, 'b> {
    pub opts: &'a FormatOptions,
    pub path: &'b str,
    pub line_nr: usize,
}

/// The ASCII separator that closes each prefix.
pub const SEPARATOR: u8 = 58;

/// The ASCII digit for `d`, which is below ten.
pub open spec fn digit(d: nat) -> u8
    recommends
        d < 10,
{
    (48 + d) as u8
}

/// `n` in decimal, most significant digit first, without leading zeros.
pub open spec fn decimal(n: nat) -> Seq<u8>
    decreases n,
{
    if n < 10 {
        seq![digit(n)]
    } else {
        decimal(n / 10).push(digit(n % 10))
    }
}

/// The source prefix: the displayed name and a separator, or nothing.
pub open spec fn file_prefix(opts: FormatOptions, path: Seq<u8>) -> Seq<u8> {
    if opts.file_prefix {
        path.push(SEPARATOR)
    } else {
        Seq::empty()
    }
}

/// The line-number prefix: the number in decimal and a separator, or nothing.
pub open spec fn line_prefix(opts: FormatOptions, line_nr: nat) -> Seq<u8> {
    if opts.line_numbers {
        decimal(line_nr).push(SEPARATOR)
    } else {
        Seq::empty()
    }
}

/// A rendered line: source prefix, line-number prefix, then the bytes of the
/// line as they were read, terminator included.
pub open spec fn render(
    opts: FormatOptions,
    path: Seq<u8>,
    line_nr: nat,
    bytes: Seq<u8>,
) -> Seq<u8> {
    file_prefix(opts, path) + line_prefix(opts, line_nr) + bytes
}

impl<'a, 'b> FormatCtx<'a, 'b> {
    /// The bytes of the displayed source name.
    pub open spec fn path_bytes(&self) -> Seq<u8> {
        self.path.spec_bytes()
    }

    /// What this context renders `bytes` to.
    pub open spec fn rendered(&self, bytes: Seq<u8>) -> Seq<u8> {
        render(*self.opts, self.path_bytes(), self.line_nr as nat, bytes)
    }
}

/// Appends `n` in decimal to `acc`.
pub fn append_decimal(acc: &mut Vec<u8>, n: usize)
    ensures
        final(acc)@ == old(acc)@ + decimal(n as nat),
    decreases n,
{
    if n >= 10 {
        append_decimal(acc, n / 10);
    }
    let d: u8 = (n % 10) as u8;
    acc.push(48u8 + d);
    assert(acc@ =~= old(acc)@ + decimal(n as nat));
}

/// Appends the rendering of `bytes` under `fctx` to `acc`.
pub fn format_append_line(acc: &mut Vec<u8>, fctx: &FormatCtx, bytes: &[u8])
    ensures
        final(acc)@ == old(acc)@ + fctx.rendered(bytes@),
{
    if fctx.opts.file_prefix {
        acc.extend_from_slice(fctx.path.as_bytes());
        acc.push(SEPARATOR);
    }
    let ghost with_file = acc@;
    assert(with_file =~= old(acc)@ + file_prefix(*fctx.opts, fctx.path_bytes()));
    if fctx.opts.line_numbers {
        append_decimal(acc, fctx.line_nr);
        acc.push(SEPARATOR);
    }
    let ghost with_nr = acc@;
    assert(with_nr =~= with_file + line_prefix(*fctx.opts, fctx.line_nr as nat));
    acc.extend_from_slice(bytes);
    assert(acc@ =~= old(acc)@ + fctx.rendered(bytes@));
}

/// The rendering of `bytes` under `fctx`, in a buffer of its own.
pub fn format_create_line(fctx: &FormatCtx, bytes: &[u8]) -> (buf: Vec<u8>)
    ensures
        buf@ == fctx.rendered(bytes@),
{
    let mut buf: Vec<u8> = Vec::new();
    format_append_line(&mut buf, fctx, bytes);
    assert(buf@ =~= fctx.rendered(bytes@));
    buf
}

/// With only line numbers on, a rendered line is the number, a separator and
/// then the bytes of the line, untouched.
pub proof fn lemma_line_numbers_keep_content(
    opts: FormatOptions,
    path: Seq<u8>,
    line_nr: nat,
    bytes: Seq<u8>,
)
    requires
        !opts.file_prefix,
        opts.line_numbers,
    ensures
        render(opts, path, line_nr, bytes) == decimal(line_nr).push(SEPARATOR) + bytes,
        render(opts, path, line_nr, bytes).len() == decimal(line_nr).len() + 1 + bytes.len(),
        render(opts, path, line_nr, bytes).skip((decimal(line_nr).len() + 1) as int) == bytes,
{
    let out = render(opts, path, line_nr, bytes);
    assert(out =~= decimal(line_nr).push(SEPARATOR) + bytes);
    assert(out.skip((decimal(line_nr).len() + 1) as int) =~= bytes);
}

/// With both prefixes off, a rendered line is the line itself.
pub proof fn lemma_plain_render_is_identity(
    opts: FormatOptions,
    path: Seq<u8>,
    line_nr: nat,
    bytes: Seq<u8>,
)
    requires
        !opts.file_prefix,
        !opts.line_numbers,
    ensures
        render(opts, path, line_nr, bytes) == bytes,
{
    assert(render(opts, path, line_nr, bytes) =~= bytes);
}

/// Whatever the options, a rendered line ends with the bytes of the line.
pub proof fn lemma_render_ends_with_line(
    opts: FormatOptions,
    path: Seq<u8>,
    line_nr: nat,
    bytes: Seq<u8>,
)
    ensures
        render(opts, path, line_nr, bytes).len() >= bytes.len(),
        render(opts, path, line_nr, bytes).skip(
            render(opts, path, line_nr, bytes).len() - bytes.len(),
        ) == bytes,
{
    let out = render(opts, path, line_nr, bytes);
    assert(out.skip(out.len() - bytes.len()) =~= bytes);
}

} // verus!
