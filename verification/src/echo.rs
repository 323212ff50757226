//! What `echo` writes for its arguments.
//!
//! The arguments are taken as the bytes of their UTF-8 encoding, and what is
//! written is bytes. Leading flags choose whether backslash escapes are read
//! and whether a terminator follows.

use crate::cliopt::same_text;
use crate::line::{NEWLINE, TAB};
use vstd::prelude::*;
use vstd::utf8::encode_utf8;

verus! {

/// The character that starts an escape.
pub const BACKSLASH: u8 = 92;

/// The carriage return.
pub const RETURN: u8 = 13;

/// The blank that parts two arguments.
pub const SPACE: u8 = 32;

/// How `echo` is to write.
#[derive(Clone, Copy, Debug, PartialEq, Eq, Structural)]
pub struct EchoOption {
    /// A terminator follows the arguments.
    pub trailing_newline: bool,
    /// Backslash escapes are read.
    pub interpret_escapes: bool,
}

impl EchoOption {
    /// The settings without any flag: escapes are read, a terminator follows.
    pub open spec fn initial() -> EchoOption {
        EchoOption { trailing_newline: true, interpret_escapes: true }
    }

    /// The settings after one flag; any other token changes nothing.
    pub open spec fn with_flag(self, token: Seq<char>) -> EchoOption {
        if token == "-e"@ {
            EchoOption { interpret_escapes: true, ..self }
        } else if token == "-E"@ {
            EchoOption { interpret_escapes: false, ..self }
        } else if token == "-n"@ {
            EchoOption { trailing_newline: false, ..self }
        } else {
            self
        }
    }

    /// The settings after the flags `tokens`, in their order.
    pub open spec fn with_flags(self, tokens: Seq<Seq<char>>) -> EchoOption
        decreases tokens.len(),
    {
        if tokens.len() == 0 {
            self
        } else {
            self.with_flags(tokens.drop_last()).with_flag(tokens.last())
        }
    }
}

/// One of `-e`, `-E`, `-n`.
pub open spec fn is_flag(token: Seq<char>) -> bool {
    token == "-e"@ || token == "-E"@ || token == "-n"@
}

/// How many flags stand at the front of the tokens.
pub open spec fn leading_flags(tokens: Seq<Seq<char>>) -> nat
    decreases tokens.len(),
{
    if tokens.len() == 0 || !is_flag(tokens[0]) {
        0
    } else {
        1 + leading_flags(tokens.skip(1))
    }
}

/// Where the tokens to write begin: behind the leading flags. Where every
/// token is a flag, all of them are written.
pub open spec fn operands_start(tokens: Seq<Seq<char>>) -> nat {
    if leading_flags(tokens) == tokens.len() {
        0
    } else {
        leading_flags(tokens)
    }
}

/// The tokens as bytes.
pub open spec fn bytes_of(tokens: Seq<Seq<char>>) -> Seq<Seq<u8>> {
    Seq::new(tokens.len(), |i: int| encode_utf8(tokens[i]))
}

/// What stands for a backslash and the character behind it: a line feed for
/// `n`, a carriage return for `r`, a tab for `t`, and the two as they are
/// for any other.
pub open spec fn escape(c: u8) -> Seq<u8> {
    if c == 110 {
        seq![NEWLINE]
    } else if c == 114 {
        seq![RETURN]
    } else if c == 116 {
        seq![TAB]
    } else {
        seq![BACKSLASH, c]
    }
}

/// The text with its escapes read. A backslash takes the character behind
/// it, a second backslash too; one at the very end stands for itself.
pub open spec fn unescaped(text: Seq<u8>) -> Seq<u8>
    decreases text.len(),
{
    if text.len() == 0 {
        Seq::empty()
    } else if text[0] != BACKSLASH {
        seq![text[0]] + unescaped(text.skip(1))
    } else if text.len() == 1 {
        seq![BACKSLASH]
    } else {
        escape(text[1]) + unescaped(text.skip(2))
    }
}

/// Each text with its escapes read.
pub open spec fn all_unescaped(texts: Seq<Seq<u8>>) -> Seq<Seq<u8>> {
    Seq::new(texts.len(), |i: int| unescaped(texts[i]))
}

/// The texts one behind the other, a blank between two of them.
pub open spec fn joined(texts: Seq<Seq<u8>>) -> Seq<u8>
    decreases texts.len(),
{
    if texts.len() == 0 {
        Seq::empty()
    } else if texts.len() == 1 {
        texts[0]
    } else {
        joined(texts.drop_last()) + seq![SPACE] + texts.last()
    }
}

/// All that `echo` writes for its arguments.
pub open spec fn echoed(tokens: Seq<Seq<char>>) -> Seq<u8> {
    let option = EchoOption::initial().with_flags(tokens.take(leading_flags(tokens) as int));
    let texts = bytes_of(tokens.skip(operands_start(tokens) as int));
    let body = if option.interpret_escapes {
        joined(all_unescaped(texts))
    } else {
        joined(texts)
    };
    if option.trailing_newline {
        body.push(NEWLINE)
    } else {
        body
    }
}

/// Appends `text` with its escapes read to `out`.
fn push_unescaped(out: &mut Vec<u8>, text: &[u8])
    ensures
        final(out)@ == old(out)@ + unescaped(text@),
{
    let mut i: usize = 0;
    proof {
        assert(text@.skip(0) == text@);
    }
    while i < text.len()
        invariant
            i <= text.len(),
            old(out)@ + unescaped(text@) == out@ + unescaped(text@.skip(i as int)),
        decreases text.len() - i,
    {
        let ghost rest = text@.skip(i as int);
        let c = text[i];
        if c != BACKSLASH {
            proof {
                assert(rest.skip(1) == text@.skip(i + 1));
            }
            out.push(c);
            i += 1;
        } else if i + 1 == text.len() {
            proof {
                assert(rest.len() == 1);
            }
            out.push(BACKSLASH);
            i += 1;
        } else {
            proof {
                assert(rest.skip(2) == text@.skip(i + 2));
                assert(rest[1] == text@[i + 1]);
            }
            let escaped = text[i + 1];
            if escaped == 110 {
                out.push(NEWLINE);
            } else if escaped == 114 {
                out.push(RETURN);
            } else if escaped == 116 {
                out.push(TAB);
            } else {
                out.push(BACKSLASH);
                out.push(escaped);
            }
            i += 2;
        }
    }
}

/// Appends `text` as it is to `out`.
fn push_text(out: &mut Vec<u8>, text: &[u8])
    ensures
        final(out)@ == old(out)@ + text@,
{
    let mut i: usize = 0;
    while i < text.len()
        invariant
            i <= text.len(),
            out@ == old(out)@ + text@.take(i as int),
        decreases text.len() - i,
    {
        out.push(text[i]);
        i += 1;
    }
    proof {
        assert(text@.take(i as int) == text@);
    }
}

/// The arguments with their escapes read, a blank between two of them.
pub fn unescape(s: &[String]) -> (out: Vec<u8>)
    ensures
        out@ == joined(all_unescaped(bytes_of(s.deep_view()))),
{
    let ghost texts = all_unescaped(bytes_of(s.deep_view()));
    let mut out: Vec<u8> = Vec::new();
    let mut i: usize = 0;
    while i < s.len()
        invariant
            i <= s.len(),
            texts == all_unescaped(bytes_of(s.deep_view())),
            out@ == joined(texts.take(i as int)),
        decreases s.len() - i,
    {
        proof {
            assert(texts.take(i + 1).drop_last() == texts.take(i as int));
            assert(texts.take(i + 1).last() == unescaped(encode_utf8(s@[i as int]@)));
        }
        if i > 0 {
            out.push(SPACE);
        }
        push_unescaped(&mut out, s[i].as_str().as_bytes());
        i += 1;
    }
    proof {
        assert(texts.take(i as int) == texts);
    }
    out
}

/// The arguments as they are, a blank between two of them.
pub fn raw(s: &[String]) -> (out: Vec<u8>)
    ensures
        out@ == joined(bytes_of(s.deep_view())),
{
    let ghost texts = bytes_of(s.deep_view());
    let mut out: Vec<u8> = Vec::new();
    let mut i: usize = 0;
    while i < s.len()
        invariant
            i <= s.len(),
            texts == bytes_of(s.deep_view()),
            out@ == joined(texts.take(i as int)),
        decreases s.len() - i,
    {
        proof {
            assert(texts.take(i + 1).drop_last() == texts.take(i as int));
            assert(texts.take(i + 1).last() == encode_utf8(s@[i as int]@));
        }
        if i > 0 {
            out.push(SPACE);
        }
        push_text(&mut out, s[i].as_str().as_bytes());
        i += 1;
    }
    proof {
        assert(texts.take(i as int) == texts);
    }
    out
}

/// Reads the leading flags of `args`: the settings that they make, and
/// where the arguments to write begin.
pub fn scan_flags(args: &[String]) -> (res: (EchoOption, usize))
    ensures
        res.0 == EchoOption::initial().with_flags(
            args.deep_view().take(leading_flags(args.deep_view()) as int),
        ),
        res.1 == operands_start(args.deep_view()),
        res.1 <= args.len(),
{
    let ghost tokens = args.deep_view();
    let mut option = EchoOption { trailing_newline: true, interpret_escapes: true };
    let mut i: usize = 0;
    proof {
        assert(tokens.skip(0) == tokens);
    }
    while i < args.len()
        invariant
            i <= args.len(),
            tokens == args.deep_view(),
            leading_flags(tokens) == i + leading_flags(tokens.skip(i as int)),
            option == EchoOption::initial().with_flags(tokens.take(i as int)),
        decreases args.len() - i,
    {
        let arg = args[i].as_str();
        proof {
            assert(tokens.skip(i as int)[0] == arg@);
            assert(tokens.skip(i as int).skip(1) == tokens.skip(i + 1));
            assert(tokens.take(i + 1).drop_last() == tokens.take(i as int));
            assert(tokens.take(i + 1).last() == arg@);
        }
        if same_text(arg, "-e") {
            option.interpret_escapes = true;
        } else if same_text(arg, "-E") {
            option.interpret_escapes = false;
        } else if same_text(arg, "-n") {
            option.trailing_newline = false;
        } else {
            return (option, i);
        }
        i += 1;
    }
    (option, 0)
}

/// All that `echo` writes for its arguments.
pub fn echo(args: &[String]) -> (out: Vec<u8>)
    ensures
        out@ == echoed(args.deep_view()),
{
    let (option, start) = scan_flags(args);
    let operands = vstd::slice::slice_subrange(args, start, args.len());
    proof {
        assert(operands.deep_view() == args.deep_view().skip(start as int));
    }
    let mut out = if option.interpret_escapes {
        unescape(operands)
    } else {
        raw(operands)
    };
    if option.trailing_newline {
        out.push(NEWLINE);
    }
    out
}

/// A text without a backslash holds no escape: it is written as it is.
pub proof fn unescaped_without_backslash(text: Seq<u8>)
    requires
        forall|i: int| 0 <= i < text.len() ==> text[i] != BACKSLASH,
    ensures
        unescaped(text) == text,
    decreases text.len(),
{
    if text.len() > 0 {
        assert forall|i: int| 0 <= i < text.skip(1).len() implies text.skip(1)[i]
            != BACKSLASH by {
            assert(text.skip(1)[i] == text[i + 1]);
        }
        unescaped_without_backslash(text.skip(1));
        assert(seq![text[0]] + text.skip(1) == text);
    }
}

/// The leading flags are flags, and what follows them is none.
pub proof fn leading_flags_bounds(tokens: Seq<Seq<char>>)
    ensures
        leading_flags(tokens) <= tokens.len(),
        forall|i: int| 0 <= i < leading_flags(tokens) ==> is_flag(#[trigger] tokens[i]),
        leading_flags(tokens) < tokens.len() ==> !is_flag(tokens[leading_flags(tokens) as int]),
    decreases tokens.len(),
{
    if tokens.len() > 0 && is_flag(tokens[0]) {
        leading_flags_bounds(tokens.skip(1));
        assert forall|i: int| 0 <= i < leading_flags(tokens) implies is_flag(
            #[trigger] tokens[i],
        ) by {
            if i > 0 {
                assert(tokens.skip(1)[i - 1] == tokens[i]);
            }
        }
    }
}

} // verus!
