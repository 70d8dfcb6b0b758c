//! Single-quote escaping for bytes embedded in a singly-quoted shell string.
//!
//! Every literal single-quote byte is replaced by the four bytes `'\''`,
//! which close the enclosing quote, insert an escaped quote, and reopen a
//! quote, so that the overall output stays intact when the caller wraps it
//! in single quotes and a POSIX shell evaluates it.

use vstd::prelude::*;

verus! {

/// What one input byte becomes in the escaped output.
pub open spec fn escape_byte(b: u8) -> Seq<u8> {
    if b == 39 {
        seq![39u8, 92u8, 39u8, 39u8]
    } else {
        seq![b]
    }
}

/// The escaped form of a whole byte string.
pub open spec fn escaped(s: Seq<u8>) -> Seq<u8>
    decreases s.len(),
{
    if s.len() == 0 {
        Seq::<u8>::empty()
    } else {
        escape_byte(s[0]) + escaped(s.skip(1))
    }
}

/// Escaping distributes over appending one byte at the end.
pub proof fn lemma_escaped_push(s: Seq<u8>, b: u8)
    ensures
        escaped(s.push(b)) == escaped(s) + escape_byte(b),
    decreases s.len(),
{
    if s.len() == 0 {
        assert(s.push(b)[0] == b);
        assert(s.push(b).skip(1) =~= Seq::<u8>::empty());
        assert(escaped(s.push(b)) == escape_byte(b) + escaped(s.push(b).skip(1)));
        assert(escaped(s.push(b).skip(1)) == Seq::<u8>::empty());
        assert(escaped(s.push(b)) =~= escaped(s) + escape_byte(b));
    } else {
        assert(s.push(b).skip(1) =~= s.skip(1).push(b));
        lemma_escaped_push(s.skip(1), b);
        assert(escaped(s.push(b)) =~= escaped(s) + escape_byte(b));
    }
}

/// Append the escaped form of `input` to `out`.
pub fn write_with_escaped_quote(input: &Vec<u8>, out: &mut Vec<u8>)
    ensures
        final(out)@ == old(out)@ + escaped(input@),
{
    let n = input.len();
    let mut i: usize = 0;
    while i < n
        invariant
            0 <= i <= n,
            n == input@.len(),
            out@ == old(out)@ + escaped(input@.take(i as int)),
        decreases n - i,
    {
        let b = input[i];
        if b == 39 {
            out.push(39);
            out.push(92);
            out.push(39);
            out.push(39);
        } else {
            out.push(b);
        }
        proof {
            assert(input@.take(i + 1 as int) =~= input@.take(i as int).push(input@[i as int]));
            lemma_escaped_push(input@.take(i as int), input@[i as int]);
            assert(out@ =~= old(out)@ + escaped(input@.take(i + 1 as int)));
        }
        i += 1;
    }
    proof {
        assert(input@.take(n as int) =~= input@);
    }
}

/// Where a POSIX shell word scanner currently stands.
pub enum ShellMode {
    /// Outside any quotes; a backslash escapes the next byte.
    Unquoted,
    /// Inside a single-quoted string; only a quote byte ends it.
    InSingle,
}

/// Prepend a byte to the result of evaluating the rest, if that succeeded.
pub open spec fn eval_prepend(b: u8, rest: Option<Seq<u8>>) -> Option<Seq<u8>> {
    match rest {
        Some(t) => Some(seq![b] + t),
        None => None,
    }
}

/// A model of how a POSIX shell reads a word: single quotes delimit literal
/// text, and outside quotes a backslash makes the next byte literal. The
/// result is the text the word denotes, or `None` when the word is
/// ill-formed (an unclosed quote or a trailing backslash).
pub open spec fn shell_eval(mode: ShellMode, s: Seq<u8>) -> Option<Seq<u8>>
    decreases s.len(),
{
    if s.len() == 0 {
        match mode {
            ShellMode::Unquoted => Some(Seq::<u8>::empty()),
            ShellMode::InSingle => None,
        }
    } else {
        match mode {
            ShellMode::Unquoted => {
                if s[0] == 39 {
                    shell_eval(ShellMode::InSingle, s.skip(1))
                } else if s[0] == 92 {
                    if s.len() >= 2 {
                        eval_prepend(s[1], shell_eval(ShellMode::Unquoted, s.skip(2)))
                    } else {
                        None
                    }
                } else {
                    eval_prepend(s[0], shell_eval(ShellMode::Unquoted, s.skip(1)))
                }
            },
            ShellMode::InSingle => {
                if s[0] == 39 {
                    shell_eval(ShellMode::Unquoted, s.skip(1))
                } else {
                    eval_prepend(s[0], shell_eval(ShellMode::InSingle, s.skip(1)))
                }
            },
        }
    }
}

/// Inside an open single quote, the escaped form of `s` followed by a
/// closing quote evaluates back to exactly `s`.
proof fn lemma_escaped_in_single(s: Seq<u8>)
    ensures
        shell_eval(ShellMode::InSingle, escaped(s) + seq![39u8]) == Some(s),
    decreases s.len(),
{
    let w = escaped(s) + seq![39u8];
    if s.len() == 0 {
        assert(w =~= seq![39u8]);
        assert(w.skip(1) =~= Seq::<u8>::empty());
    } else {
        lemma_escaped_in_single(s.skip(1));
        let rest = escaped(s.skip(1)) + seq![39u8];
        if s[0] == 39 {
            assert(w =~= seq![39u8, 92u8, 39u8, 39u8] + rest);
            assert(w[0] == 39u8);
            assert(shell_eval(ShellMode::InSingle, w) == shell_eval(
                ShellMode::Unquoted,
                w.skip(1),
            ));
            let w1 = w.skip(1);
            assert(w1 =~= seq![92u8, 39u8, 39u8] + rest);
            assert(w1[0] == 92u8 && w1[1] == 39u8 && w1.len() >= 2);
            assert(shell_eval(ShellMode::Unquoted, w1) == eval_prepend(
                39u8,
                shell_eval(ShellMode::Unquoted, w1.skip(2)),
            ));
            let w2 = w1.skip(2);
            assert(w2 =~= seq![39u8] + rest);
            assert(w2[0] == 39u8);
            assert(shell_eval(ShellMode::Unquoted, w2) == shell_eval(
                ShellMode::InSingle,
                w2.skip(1),
            ));
            assert(w2.skip(1) =~= rest);
            assert(shell_eval(ShellMode::InSingle, rest) == Some(s.skip(1)));
            assert(seq![39u8] + s.skip(1) =~= s);
        } else {
            assert(w =~= seq![s[0]] + rest);
            assert(w[0] == s[0]);
            assert(w.skip(1) =~= rest);
            assert(seq![s[0]] + s.skip(1) =~= s);
        }
    }
}

/// The escaping round trip: for any input bytes `s`, wrapping `escaped(s)`
/// in single quotes and evaluating the word as a POSIX shell does yields
/// `s` again.
pub proof fn lemma_escape_round_trip(s: Seq<u8>)
    ensures
        shell_eval(ShellMode::Unquoted, seq![39u8] + escaped(s) + seq![39u8]) == Some(s),
{
    let w = seq![39u8] + escaped(s) + seq![39u8];
    assert(w[0] == 39u8);
    assert(w.skip(1) =~= escaped(s) + seq![39u8]);
    lemma_escaped_in_single(s);
}

/// Escaping introduces no escape (ESC, byte 27) control byte: if the input
/// has none, the escaped output has none.
pub proof fn lemma_escaped_no_byte(s: Seq<u8>, c: u8)
    requires
        forall|i: int| 0 <= i < s.len() ==> s[i] != c,
        c != 39,
        c != 92,
    ensures
        forall|i: int| 0 <= i < escaped(s).len() ==> escaped(s)[i] != c,
    decreases s.len(),
{
    if s.len() > 0 {
        assert(forall|i: int| 0 <= i < s.skip(1).len() ==> s.skip(1)[i] != c);
        lemma_escaped_no_byte(s.skip(1), c);
        assert(forall|i: int| 0 <= i < escape_byte(s[0]).len() ==> escape_byte(s[0])[i] != c);
        assert(forall|i: int| 0 <= i < escaped(s).len() ==> escaped(s)[i] != c) by {
            assert(escaped(s) == escape_byte(s[0]) + escaped(s.skip(1)));
        }
    }
}

} // verus!
