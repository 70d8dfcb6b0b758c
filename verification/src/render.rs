//! Assembly of the final prompt line.
//!
//! The prompt is built inside a `termcolor` buffer so that coloring is
//! decided once per render: an ANSI buffer interleaves escape sequences
//! with the text, a no-color buffer receives the plain bytes only.

use vstd::prelude::*;
use crate::bytes::dec_bytes;
use crate::bytes::lacks_byte;
use crate::bytes::lemma_dec_bytes_digits;
use crate::bytes::lemma_lacks_byte_concat;
use crate::bytes::push_dec;
use crate::escape::escaped;
use crate::escape::lemma_escaped_no_byte;
use crate::escape::write_with_escaped_quote;
use crate::status::GitBits;

verus! {

/// Declares termcolor::Buffer, the in-memory sink the prompt is assembled
/// in; its contents are visible to contracts only through the two spec
/// functions below.
#[verifier::external_type_specification]
#[verifier::external_body]
pub struct ExBuffer(termcolor::Buffer);

/// The raw bytes a buffer has accumulated.
pub uninterp spec fn buffer_bytes(b: termcolor::Buffer) -> Seq<u8>;

/// Whether the buffer renders coloring directives as ANSI sequences
/// rather than dropping them.
pub uninterp spec fn buffer_colored(b: termcolor::Buffer) -> bool;

/// Relies on termcolor::Buffer::ansi: an empty buffer that renders
/// coloring directives as ANSI escape sequences.
#[verifier::external_body]
fn ansi_buffer() -> (r: termcolor::Buffer)
    ensures
        buffer_bytes(r) == Seq::<u8>::empty(),
        buffer_colored(r),
{
    termcolor::Buffer::ansi()
}

/// Relies on termcolor::Buffer::no_color: an empty buffer that drops all
/// coloring directives.
#[verifier::external_body]
fn plain_buffer() -> (r: termcolor::Buffer)
    ensures
        buffer_bytes(r) == Seq::<u8>::empty(),
        !buffer_colored(r),
{
    termcolor::Buffer::no_color()
}

/// Relies on std::io::Write::write_all for termcolor::Buffer: appends the
/// bytes to the in-memory buffer; writing into its Vec backing cannot fail.
#[verifier::external_body]
fn buf_write(b: &mut termcolor::Buffer, data: &Vec<u8>)
    ensures
        buffer_bytes(*final(b)) == buffer_bytes(*old(b)) + data@,
        buffer_colored(*final(b)) == buffer_colored(*old(b)),
{
    let _ = std::io::Write::write_all(b, data.as_slice());
}

/// Relies on termcolor::Buffer::into_inner: hands back exactly the bytes
/// the buffer accumulated.
#[verifier::external_body]
fn buffer_into_vec(b: termcolor::Buffer) -> (r: Vec<u8>)
    ensures
        r@ == buffer_bytes(b),
{
    b.into_inner()
}

/// The ANSI reset sequence.
pub open spec fn ansi_reset() -> Seq<u8> {
    seq![27u8, 91u8, 48u8, 109u8]
}

/// Reset, then red foreground: the attention color for the exit code.
pub open spec fn ansi_error() -> Seq<u8> {
    ansi_reset() + seq![27u8, 91u8, 51u8, 49u8, 109u8]
}

/// Reset, then cyan foreground: the informational color for elapsed time.
pub open spec fn ansi_info() -> Seq<u8> {
    ansi_reset() + seq![27u8, 91u8, 51u8, 54u8, 109u8]
}

/// Reset, bold, then intense cyan: the identity color for the user name.
pub open spec fn ansi_user() -> Seq<u8> {
    ansi_reset() + seq![27u8, 91u8, 49u8, 109u8] + seq![
        27u8,
        91u8,
        51u8,
        56u8,
        59u8,
        53u8,
        59u8,
        49u8,
        52u8,
        109u8,
    ]
}

/// Reset, then intense yellow: the highlight color for the git ref name.
pub open spec fn ansi_refname() -> Seq<u8> {
    ansi_reset() + seq![27u8, 91u8, 51u8, 56u8, 59u8, 53u8, 59u8, 49u8, 49u8, 109u8]
}

/// Relies on termcolor's WriteColor::set_color for Buffer, called with a
/// red foreground spec: an ANSI buffer gets the reset and red-foreground
/// sequences appended, a no-color buffer nothing; writing into the
/// Vec-backed buffer cannot fail.
#[verifier::external_body]
fn set_color_error(b: &mut termcolor::Buffer)
    ensures
        buffer_colored(*final(b)) == buffer_colored(*old(b)),
        buffer_bytes(*final(b)) == buffer_bytes(*old(b)) + (if buffer_colored(*old(b)) {
            ansi_error()
        } else {
            Seq::<u8>::empty()
        }),
{
    let mut style = termcolor::ColorSpec::new();
    style.set_fg(Some(termcolor::Color::Red));
    let _ = termcolor::WriteColor::set_color(b, &style);
}

/// Relies on termcolor's WriteColor::set_color for Buffer, called with a
/// cyan foreground spec: an ANSI buffer gets the reset and cyan-foreground
/// sequences appended, a no-color buffer nothing; writing into the
/// Vec-backed buffer cannot fail.
#[verifier::external_body]
fn set_color_info(b: &mut termcolor::Buffer)
    ensures
        buffer_colored(*final(b)) == buffer_colored(*old(b)),
        buffer_bytes(*final(b)) == buffer_bytes(*old(b)) + (if buffer_colored(*old(b)) {
            ansi_info()
        } else {
            Seq::<u8>::empty()
        }),
{
    let mut style = termcolor::ColorSpec::new();
    style.set_fg(Some(termcolor::Color::Cyan));
    let _ = termcolor::WriteColor::set_color(b, &style);
}

/// Relies on termcolor's WriteColor::set_color for Buffer, called with a
/// bold, intense, cyan foreground spec: an ANSI buffer gets the reset,
/// bold and intense-cyan sequences appended, a no-color buffer nothing;
/// writing into the Vec-backed buffer cannot fail.
#[verifier::external_body]
fn set_color_user(b: &mut termcolor::Buffer)
    ensures
        buffer_colored(*final(b)) == buffer_colored(*old(b)),
        buffer_bytes(*final(b)) == buffer_bytes(*old(b)) + (if buffer_colored(*old(b)) {
            ansi_user()
        } else {
            Seq::<u8>::empty()
        }),
{
    let mut style = termcolor::ColorSpec::new();
    style.set_fg(Some(termcolor::Color::Cyan)).set_bold(true).set_intense(true);
    let _ = termcolor::WriteColor::set_color(b, &style);
}

/// Relies on termcolor's WriteColor::set_color for Buffer, called with an
/// intense yellow foreground spec: an ANSI buffer gets the reset and
/// intense-yellow sequences appended, a no-color buffer nothing; writing
/// into the Vec-backed buffer cannot fail.
#[verifier::external_body]
fn set_color_refname(b: &mut termcolor::Buffer)
    ensures
        buffer_colored(*final(b)) == buffer_colored(*old(b)),
        buffer_bytes(*final(b)) == buffer_bytes(*old(b)) + (if buffer_colored(*old(b)) {
            ansi_refname()
        } else {
            Seq::<u8>::empty()
        }),
{
    let mut style = termcolor::ColorSpec::new();
    style.set_fg(Some(termcolor::Color::Yellow)).set_intense(true);
    let _ = termcolor::WriteColor::set_color(b, &style);
}

/// Relies on termcolor's WriteColor::set_color for Buffer, called with the
/// default spec: an ANSI buffer gets the reset sequence appended, a
/// no-color buffer nothing; writing into the Vec-backed buffer cannot
/// fail.
#[verifier::external_body]
fn set_color_default(b: &mut termcolor::Buffer)
    ensures
        buffer_colored(*final(b)) == buffer_colored(*old(b)),
        buffer_bytes(*final(b)) == buffer_bytes(*old(b)) + (if buffer_colored(*old(b)) {
            ansi_reset()
        } else {
            Seq::<u8>::empty()
        }),
{
    let style = termcolor::ColorSpec::new();
    let _ = termcolor::WriteColor::set_color(b, &style);
}

/// A coloring directive's bytes: the sequence itself when color is on,
/// nothing when it is off.
pub open spec fn color_seg(colored: bool, code: Seq<u8>) -> Seq<u8> {
    if colored {
        code
    } else {
        Seq::<u8>::empty()
    }
}

/// Hundredths of a second in an elapsed tick count, rounded to nearest:
/// the whole seconds from the upper 32 bits times one hundred, plus the
/// lower 32 bits scaled from a 1/2^32 resolution to hundredths.
pub open spec fn hundredths_of(t: u64) -> int {
    (t >> 32) * 100 + ((t & 0xffffffff) * 100 + 0x80000000) / 0x100000000
}

/// An elapsed tick count as seconds with exactly two decimal digits and a
/// trailing `s`.
pub open spec fn elapsed_bytes(t: u64) -> Seq<u8> {
    dec_bytes((hundredths_of(t) / 100) as nat) + seq![
        46u8,
        (48 + (hundredths_of(t) / 10) % 10) as u8,
        (48 + hundredths_of(t) % 10) as u8,
        115u8,
    ]
}

/// Format an elapsed tick count as seconds with two decimal digits.
pub fn format_elapsed(t: u64) -> (r: Vec<u8>)
    ensures
        r@ == elapsed_bytes(t),
{
    let sec: u64 = t >> 32;
    let sub: u64 = t & 0xffffffff;
    proof {
        assert(t >> 32 <= 0xffffffffu64 && t & 0xffffffff <= 0xffffffffu64) by (bit_vector);
    }
    let frach: u64 = (sub * 100 + 0x80000000) / 0x100000000;
    let h: u64 = sec * 100 + frach;
    proof {
        assert(h == hundredths_of(t));
    }
    let mut out: Vec<u8> = Vec::new();
    push_dec(h / 100, &mut out);
    out.push(46);
    out.push(48 + ((h / 10) % 10) as u8);
    out.push(48 + (h % 10) as u8);
    out.push(115);
    proof {
        assert(out@ =~= elapsed_bytes(t));
    }
    out
}

/// Everything one prompt render needs, resolved to plain values.
pub struct PromptContext {
    /// The previous command's exit code, absent when zero or unset.
    pub exit_code: Option<Vec<u8>>,
    /// The previous command's elapsed ticks, when a record was consumed.
    pub elapsed_ticks: Option<u64>,
    /// The user identity string.
    pub user: Vec<u8>,
    /// The git summary, when the directory lies inside a repository.
    pub git: Option<GitBits>,
    /// The working directory, already shortened.
    pub cwd: Vec<u8>,
}

/// The opening marker: the prompt is emitted as a shell variable
/// assignment opened with a single quote and a bracket.
pub open spec fn prompt_open() -> Seq<u8> {
    seq![80u8, 83u8, 49u8, 61u8, 39u8, 91u8]
}

/// The closing marker: a prompt terminator glyph and the closing quote.
pub open spec fn prompt_close() -> Seq<u8> {
    seq![32u8, 226u8, 159u8, 171u8, 32u8, 39u8]
}

/// The exit-code segment: colored code and a space, or nothing.
pub open spec fn exit_segment(exit_code: Option<Vec<u8>>, colored: bool) -> Seq<u8> {
    match exit_code {
        Option::Some(e) => color_seg(colored, ansi_error()) + e@ + seq![32u8],
        Option::None => Seq::<u8>::empty(),
    }
}

/// The elapsed-time segment: colored duration and a space, or nothing.
pub open spec fn elapsed_segment(t: Option<u64>, colored: bool) -> Seq<u8> {
    match t {
        Option::Some(ticks) => color_seg(colored, ansi_info()) + elapsed_bytes(ticks) + seq![32u8],
        Option::None => Seq::<u8>::empty(),
    }
}

/// The user segment: the colored identity string and a space.
pub open spec fn user_segment(user: Seq<u8>, colored: bool) -> Seq<u8> {
    color_seg(colored, ansi_user()) + user + seq![32u8]
}

/// The git segment: the colored, quote-escaped ref name, the dirty-state
/// suffix in default color, and a space; or nothing at all.
pub open spec fn git_segment(git: Option<GitBits>, colored: bool) -> Seq<u8> {
    match git {
        Option::Some(g) => color_seg(colored, ansi_refname()) + escaped(g.head_ref@) + color_seg(
            colored,
            ansi_reset(),
        ) + g.spec_elements() + seq![32u8],
        Option::None => Seq::<u8>::empty(),
    }
}

/// The working-directory segment: quote-escaped, in default color.
pub open spec fn cwd_segment(cwd: Seq<u8>, colored: bool) -> Seq<u8> {
    color_seg(colored, ansi_reset()) + escaped(cwd)
}

/// The full prompt line for a context: the segments in fixed order, each
/// present one followed by a single space, between the opening and closing
/// markers; coloring directives appear exactly when `colored` is set.
pub open spec fn render_bytes(ctx: PromptContext, colored: bool) -> Seq<u8> {
    prompt_open() + exit_segment(ctx.exit_code, colored) + elapsed_segment(
        ctx.elapsed_ticks,
        colored,
    ) + user_segment(ctx.user@, colored) + git_segment(ctx.git, colored) + cwd_segment(
        ctx.cwd@,
        colored,
    ) + prompt_close()
}

/// Write the opening marker.
fn write_open(buf: &mut termcolor::Buffer)
    ensures
        buffer_colored(*final(buf)) == buffer_colored(*old(buf)),
        buffer_bytes(*final(buf)) == buffer_bytes(*old(buf)) + prompt_open(),
{
    let mut lit: Vec<u8> = Vec::new();
    lit.push(80);
    lit.push(83);
    lit.push(49);
    lit.push(61);
    lit.push(39);
    lit.push(91);
    proof {
        assert(lit@ =~= prompt_open());
    }
    buf_write(buf, &lit);
}

/// Write the exit-code segment.
fn write_exit(buf: &mut termcolor::Buffer, exit_code: &Option<Vec<u8>>)
    ensures
        buffer_colored(*final(buf)) == buffer_colored(*old(buf)),
        buffer_bytes(*final(buf)) == buffer_bytes(*old(buf)) + exit_segment(
            *exit_code,
            buffer_colored(*old(buf)),
        ),
{
    match exit_code {
        Some(e) => {
            set_color_error(buf);
            buf_write(buf, e);
            let mut sp: Vec<u8> = Vec::new();
            sp.push(32);
            buf_write(buf, &sp);
            proof {
                assert(buffer_bytes(*buf) =~= buffer_bytes(*old(buf)) + exit_segment(
                    *exit_code,
                    buffer_colored(*old(buf)),
                ));
            }
        },
        None => {
            proof {
                assert(buffer_bytes(*buf) =~= buffer_bytes(*old(buf)) + exit_segment(
                    *exit_code,
                    buffer_colored(*old(buf)),
                ));
            }
        },
    }
}

/// Write the elapsed-time segment.
fn write_elapsed(buf: &mut termcolor::Buffer, elapsed_ticks: &Option<u64>)
    ensures
        buffer_colored(*final(buf)) == buffer_colored(*old(buf)),
        buffer_bytes(*final(buf)) == buffer_bytes(*old(buf)) + elapsed_segment(
            *elapsed_ticks,
            buffer_colored(*old(buf)),
        ),
{
    match elapsed_ticks {
        Some(t) => {
            set_color_info(buf);
            let mut dur = format_elapsed(*t);
            dur.push(32);
            buf_write(buf, &dur);
            proof {
                assert(buffer_bytes(*buf) =~= buffer_bytes(*old(buf)) + elapsed_segment(
                    *elapsed_ticks,
                    buffer_colored(*old(buf)),
                ));
            }
        },
        None => {
            proof {
                assert(buffer_bytes(*buf) =~= buffer_bytes(*old(buf)) + elapsed_segment(
                    *elapsed_ticks,
                    buffer_colored(*old(buf)),
                ));
            }
        },
    }
}

/// Write the user segment.
fn write_user(buf: &mut termcolor::Buffer, user: &Vec<u8>)
    ensures
        buffer_colored(*final(buf)) == buffer_colored(*old(buf)),
        buffer_bytes(*final(buf)) == buffer_bytes(*old(buf)) + user_segment(
            user@,
            buffer_colored(*old(buf)),
        ),
{
    set_color_user(buf);
    buf_write(buf, user);
    let mut sp: Vec<u8> = Vec::new();
    sp.push(32);
    buf_write(buf, &sp);
    proof {
        assert(buffer_bytes(*buf) =~= buffer_bytes(*old(buf)) + user_segment(
            user@,
            buffer_colored(*old(buf)),
        ));
    }
}

/// Write the git segment.
fn write_git(buf: &mut termcolor::Buffer, git: &Option<GitBits>)
    ensures
        buffer_colored(*final(buf)) == buffer_colored(*old(buf)),
        buffer_bytes(*final(buf)) == buffer_bytes(*old(buf)) + git_segment(
            *git,
            buffer_colored(*old(buf)),
        ),
{
    match git {
        Some(g) => {
            set_color_refname(buf);
            let mut name: Vec<u8> = Vec::new();
            write_with_escaped_quote(&g.head_ref, &mut name);
            buf_write(buf, &name);
            set_color_default(buf);
            let mut tail: Vec<u8> = Vec::new();
            g.write_elements(&mut tail);
            tail.push(32);
            buf_write(buf, &tail);
            proof {
                assert(buffer_bytes(*buf) =~= buffer_bytes(*old(buf)) + git_segment(
                    *git,
                    buffer_colored(*old(buf)),
                ));
            }
        },
        None => {
            proof {
                assert(buffer_bytes(*buf) =~= buffer_bytes(*old(buf)) + git_segment(
                    *git,
                    buffer_colored(*old(buf)),
                ));
            }
        },
    }
}

/// Write the working-directory segment and the closing marker.
fn write_cwd_close(buf: &mut termcolor::Buffer, cwd: &Vec<u8>)
    ensures
        buffer_colored(*final(buf)) == buffer_colored(*old(buf)),
        buffer_bytes(*final(buf)) == buffer_bytes(*old(buf)) + cwd_segment(
            cwd@,
            buffer_colored(*old(buf)),
        ) + prompt_close(),
{
    set_color_default(buf);
    let mut dir: Vec<u8> = Vec::new();
    write_with_escaped_quote(cwd, &mut dir);
    dir.push(32);
    dir.push(226);
    dir.push(159);
    dir.push(171);
    dir.push(32);
    dir.push(39);
    buf_write(buf, &dir);
    proof {
        assert(buffer_bytes(*buf) =~= buffer_bytes(*old(buf)) + cwd_segment(
            cwd@,
            buffer_colored(*old(buf)),
        ) + prompt_close());
    }
}

/// Render the prompt line for `ctx`, with coloring exactly when `colored`
/// is set.
pub fn render(ctx: &PromptContext, colored: bool) -> (r: Vec<u8>)
    ensures
        r@ == render_bytes(*ctx, colored),
{
    let mut buf = if colored {
        ansi_buffer()
    } else {
        plain_buffer()
    };
    write_open(&mut buf);
    write_exit(&mut buf, &ctx.exit_code);
    write_elapsed(&mut buf, &ctx.elapsed_ticks);
    write_user(&mut buf, &ctx.user);
    write_git(&mut buf, &ctx.git);
    write_cwd_close(&mut buf, &ctx.cwd);
    proof {
        assert(buffer_bytes(buf) =~= render_bytes(*ctx, colored));
    }
    buffer_into_vec(buf)
}

/// Elapsed-time bytes hold only digits, the dot and the trailing `s`,
/// never a control byte.
proof fn lemma_elapsed_bytes_plain(t: u64, c: u8)
    requires
        c < 46 || c == 47 || c > 115,
    ensures
        lacks_byte(elapsed_bytes(t), c),
{
    lemma_dec_bytes_digits((hundredths_of(t) / 100) as nat);
    let tail = seq![
        46u8,
        (48 + (hundredths_of(t) / 10) % 10) as u8,
        (48 + hundredths_of(t) % 10) as u8,
        115u8,
    ];
    assert(0 <= (hundredths_of(t) / 10) % 10 <= 9);
    assert(0 <= hundredths_of(t) % 10 <= 9);
    lemma_lacks_byte_concat(dec_bytes((hundredths_of(t) / 100) as nat), tail, c);
}

/// With coloring off, the rendered line holds only the plain textual
/// segments: so long as no input itself carries the ANSI escape byte, none
/// appears anywhere in the output.
pub proof fn lemma_plain_render_no_escape(ctx: PromptContext)
    requires
        ctx.exit_code matches Some(e) ==> lacks_byte(e@, 27),
        lacks_byte(ctx.user@, 27),
        ctx.git matches Some(g) ==> lacks_byte(g.head_ref@, 27),
        lacks_byte(ctx.cwd@, 27),
    ensures
        lacks_byte(render_bytes(ctx, false), 27),
{
    let sp = seq![32u8];
    assert(lacks_byte(prompt_open(), 27));
    assert(lacks_byte(prompt_close(), 27));
    assert(lacks_byte(sp, 27));
    assert(lacks_byte(exit_segment(ctx.exit_code, false), 27)) by {
        match ctx.exit_code {
            Option::Some(e) => {
                lemma_lacks_byte_concat(e@, sp, 27);
                assert(exit_segment(ctx.exit_code, false) =~= e@ + sp);
            },
            Option::None => {},
        }
    }
    assert(lacks_byte(elapsed_segment(ctx.elapsed_ticks, false), 27)) by {
        match ctx.elapsed_ticks {
            Option::Some(t) => {
                lemma_elapsed_bytes_plain(t, 27);
                lemma_lacks_byte_concat(elapsed_bytes(t), sp, 27);
                assert(elapsed_segment(ctx.elapsed_ticks, false) =~= elapsed_bytes(t) + sp);
            },
            Option::None => {},
        }
    }
    assert(lacks_byte(user_segment(ctx.user@, false), 27)) by {
        lemma_lacks_byte_concat(ctx.user@, sp, 27);
        assert(user_segment(ctx.user@, false) =~= ctx.user@ + sp);
    }
    assert(lacks_byte(git_segment(ctx.git, false), 27)) by {
        match ctx.git {
            Option::Some(g) => {
                lemma_escaped_no_byte(g.head_ref@, 27);
                assert(lacks_byte(g.spec_elements(), 27));
                lemma_lacks_byte_concat(escaped(g.head_ref@), g.spec_elements(), 27);
                lemma_lacks_byte_concat(escaped(g.head_ref@) + g.spec_elements(), sp, 27);
                assert(git_segment(ctx.git, false) =~= escaped(g.head_ref@) + g.spec_elements()
                    + sp);
            },
            Option::None => {},
        }
    }
    assert(lacks_byte(cwd_segment(ctx.cwd@, false), 27)) by {
        lemma_escaped_no_byte(ctx.cwd@, 27);
        assert(cwd_segment(ctx.cwd@, false) =~= escaped(ctx.cwd@));
    }
    lemma_lacks_byte_concat(prompt_open(), exit_segment(ctx.exit_code, false), 27);
    lemma_lacks_byte_concat(
        prompt_open() + exit_segment(ctx.exit_code, false),
        elapsed_segment(ctx.elapsed_ticks, false),
        27,
    );
    lemma_lacks_byte_concat(
        prompt_open() + exit_segment(ctx.exit_code, false) + elapsed_segment(
            ctx.elapsed_ticks,
            false,
        ),
        user_segment(ctx.user@, false),
        27,
    );
    lemma_lacks_byte_concat(
        prompt_open() + exit_segment(ctx.exit_code, false) + elapsed_segment(
            ctx.elapsed_ticks,
            false,
        ) + user_segment(ctx.user@, false),
        git_segment(ctx.git, false),
        27,
    );
    lemma_lacks_byte_concat(
        prompt_open() + exit_segment(ctx.exit_code, false) + elapsed_segment(
            ctx.elapsed_ticks,
            false,
        ) + user_segment(ctx.user@, false) + git_segment(ctx.git, false),
        cwd_segment(ctx.cwd@, false),
        27,
    );
    lemma_lacks_byte_concat(
        prompt_open() + exit_segment(ctx.exit_code, false) + elapsed_segment(
            ctx.elapsed_ticks,
            false,
        ) + user_segment(ctx.user@, false) + git_segment(ctx.git, false) + cwd_segment(
            ctx.cwd@,
            false,
        ),
        prompt_close(),
        27,
    );
}

/// The exit code to display: none when the shell reported nothing or the
/// command succeeded with `0`, the code's bytes otherwise.
pub fn exit_code_shown(raw: Vec<u8>) -> (r: Option<Vec<u8>>)
    ensures
        raw@.len() == 0 || raw@ == seq![48u8] ==> r is None,
        raw@.len() > 0 && raw@ != seq![48u8] ==> (r matches Some(v) && v@ == raw@),
{
    if raw.len() == 0 {
        return None;
    }
    if raw.len() == 1 && *(&raw[0]) == 48 {
        proof {
            assert(raw@ =~= seq![48u8]);
        }
        return None;
    }
    proof {
        if raw@.len() == 1 {
            assert(raw@[0] != 48 ==> raw@ != seq![48u8]);
        } else {
            assert(raw@.len() != 1);
        }
    }
    Some(raw)
}

} // verus!
