//! The display transformations of a single line, on bytes.
//!
//! A line is a sequence of bytes without its terminator. Each transformation
//! is given twice: as a spec function on `Seq<u8>`, which says what the text
//! becomes, and as an executable function proved to compute it.

use vstd::prelude::*;
use vstd::slice::slice_subrange;

verus! {

/// The line terminator.
pub const NEWLINE: u8 = 10;

/// The horizontal tab.
pub const TAB: u8 = 9;

/// The mark that stands at the end of a line when ends are shown.
pub const END_MARK: u8 = 36;

/// The least width of a line number, which is padded on the left.
pub const NUMBER_WIDTH: usize = 6;

/// The line without one trailing terminator, if it has one.
pub open spec fn strip_newline(raw: Seq<u8>) -> Seq<u8> {
    if raw.len() > 0 && raw.last() == NEWLINE {
        raw.drop_last()
    } else {
        raw
    }
}

/// How one byte is written when non-printing bytes are shown: a tab and the
/// printable characters stand for themselves, a control character `c` becomes
/// `^` and the character 64 above it, DEL becomes `^?`, and a byte with the
/// high bit set becomes `M-` and what the byte without that bit becomes.
pub open spec fn caret_notation(b: u8) -> Seq<u8> {
    if b == TAB {
        seq![TAB]
    } else if b < 32 {
        seq![94u8, (b + 64) as u8]
    } else if b < 127 {
        seq![b]
    } else if b == 127 {
        seq![94u8, 63u8]
    } else if b < 160 {
        seq![77u8, 45u8, 94u8, (b - 64) as u8]
    } else if b < 255 {
        seq![77u8, 45u8, (b - 128) as u8]
    } else {
        seq![77u8, 45u8, 94u8, 63u8]
    }
}

/// The line with every byte in caret notation.
pub open spec fn show_nonprinting(line: Seq<u8>) -> Seq<u8>
    decreases line.len(),
{
    if line.len() == 0 {
        Seq::empty()
    } else {
        show_nonprinting(line.drop_last()) + caret_notation(line.last())
    }
}

/// How one byte is written when tabs are shown: a tab becomes `^I`.
pub open spec fn tab_notation(b: u8) -> Seq<u8> {
    if b == TAB {
        seq![94u8, 73u8]
    } else {
        seq![b]
    }
}

/// The line with every tab written as `^I`.
pub open spec fn show_tabs(line: Seq<u8>) -> Seq<u8>
    decreases line.len(),
{
    if line.len() == 0 {
        Seq::empty()
    } else {
        show_tabs(line.drop_last()) + tab_notation(line.last())
    }
}

/// The decimal digits of `n`, most significant first, in ASCII; none for zero.
pub open spec fn digits(n: nat) -> Seq<u8>
    decreases n,
{
    if n == 0 {
        Seq::empty()
    } else {
        digits(n / 10).push((48 + n % 10) as u8)
    }
}

/// `n` in decimal: its digits, or `0`.
pub open spec fn decimal(n: nat) -> Seq<u8> {
    if n == 0 {
        seq![48u8]
    } else {
        digits(n)
    }
}

/// `text` behind as many spaces as bring it to `width` bytes; a text that is
/// as long or longer stays as it is.
pub open spec fn right_justified(text: Seq<u8>, width: nat) -> Seq<u8> {
    if text.len() >= width {
        text
    } else {
        Seq::new((width - text.len()) as nat, |i: int| 32u8) + text
    }
}

/// What stands before a numbered line: the number, right-justified in
/// `NUMBER_WIDTH` columns, and a tab.
pub open spec fn number_field(n: nat) -> Seq<u8> {
    right_justified(decimal(n), NUMBER_WIDTH as nat).push(TAB)
}

/// The line with the end mark behind it.
pub open spec fn show_end(line: Seq<u8>) -> Seq<u8> {
    line.push(END_MARK)
}

/// The part of `raw` before one trailing terminator.
pub fn without_newline(raw: &[u8]) -> (line: &[u8])
    ensures
        line@ == strip_newline(raw@),
{
    let n = raw.len();
    if n > 0 && raw[n - 1] == NEWLINE {
        slice_subrange(raw, 0, n - 1)
    } else {
        raw
    }
}

/// Appends the caret notation of `b` to `out`.
fn push_caret_notation(out: &mut Vec<u8>, b: u8)
    ensures
        final(out)@ == old(out)@ + caret_notation(b),
{
    if b == TAB {
        out.push(TAB);
    } else if b < 32 {
        out.push(94);
        out.push(b + 64);
    } else if b < 127 {
        out.push(b);
    } else if b == 127 {
        out.push(94);
        out.push(63);
    } else if b < 160 {
        out.push(77);
        out.push(45);
        out.push(94);
        out.push(b - 64);
    } else if b < 255 {
        out.push(77);
        out.push(45);
        out.push(b - 128);
    } else {
        out.push(77);
        out.push(45);
        out.push(94);
        out.push(63);
    }
}

/// Writes every byte of `line` in caret notation.
pub fn escape_nonprinting(line: &[u8]) -> (out: Vec<u8>)
    ensures
        out@ == show_nonprinting(line@),
{
    let mut out: Vec<u8> = Vec::new();
    let mut i: usize = 0;
    while i < line.len()
        invariant
            i <= line.len(),
            out@ == show_nonprinting(line@.take(i as int)),
        decreases line.len() - i,
    {
        proof {
            assert(line@.take(i + 1).drop_last() == line@.take(i as int));
        }
        push_caret_notation(&mut out, line[i]);
        i += 1;
    }
    proof {
        assert(line@.take(i as int) == line@);
    }
    out
}

/// Writes every tab of `line` as `^I`.
pub fn escape_tabs(line: &[u8]) -> (out: Vec<u8>)
    ensures
        out@ == show_tabs(line@),
{
    let mut out: Vec<u8> = Vec::new();
    let mut i: usize = 0;
    while i < line.len()
        invariant
            i <= line.len(),
            out@ == show_tabs(line@.take(i as int)),
        decreases line.len() - i,
    {
        proof {
            assert(line@.take(i + 1).drop_last() == line@.take(i as int));
        }
        let b = line[i];
        if b == TAB {
            out.push(94);
            out.push(73);
        } else {
            out.push(b);
        }
        i += 1;
    }
    proof {
        assert(line@.take(i as int) == line@);
    }
    out
}

/// Writes `n` in decimal.
pub fn decimal_text(n: u64) -> (out: Vec<u8>)
    ensures
        out@ == decimal(n as nat),
{
    let mut out: Vec<u8> = Vec::new();
    if n == 0 {
        out.push(48);
        return out;
    }
    // The digits come out least significant first.
    let mut reversed: Vec<u8> = Vec::new();
    let mut rest: u64 = n;
    while rest > 0
        invariant
            digits(n as nat) == digits(rest as nat) + reversed@.reverse(),
        decreases rest,
    {
        let digit: u8 = 48 + (rest % 10) as u8;
        proof {
            assert(reversed@.push(digit).reverse() == seq![digit] + reversed@.reverse());
            assert(digits(rest as nat) == digits((rest / 10) as nat).push(digit));
        }
        reversed.push(digit);
        rest = rest / 10;
    }
    let mut k: usize = reversed.len();
    while k > 0
        invariant
            k <= reversed.len(),
            out@ == reversed@.reverse().take(reversed.len() - k),
        decreases k,
    {
        k -= 1;
        out.push(reversed[k]);
    }
    proof {
        assert(reversed@.reverse().take(reversed.len() as int) == reversed@.reverse());
    }
    out
}

/// Writes what stands before a numbered line.
pub fn number_field_text(n: u64) -> (out: Vec<u8>)
    ensures
        out@ == number_field(n as nat),
{
    let text = decimal_text(n);
    let mut out: Vec<u8> = Vec::new();
    let room: usize = if text.len() < NUMBER_WIDTH {
        NUMBER_WIDTH - text.len()
    } else {
        0
    };
    let mut i: usize = 0;
    while i < room
        invariant
            i <= room,
            out@ == Seq::new(i as nat, |j: int| 32u8),
        decreases room - i,
    {
        out.push(32);
        i += 1;
    }
    let ghost pad = out@;
    let mut k: usize = 0;
    while k < text.len()
        invariant
            k <= text.len(),
            out@ == pad + text@.take(k as int),
        decreases text.len() - k,
    {
        out.push(text[k]);
        k += 1;
    }
    proof {
        assert(text@.take(k as int) == text@);
        assert(out@ =~= right_justified(text@, NUMBER_WIDTH as nat));
    }
    out.push(TAB);
    out
}

/// A tab or a printable character: what stands for itself in caret notation.
pub open spec fn plain(b: u8) -> bool {
    b == TAB || 32 <= b < 127
}

/// Every byte of the text is plain.
pub open spec fn all_plain(text: Seq<u8>) -> bool {
    forall|i: int| 0 <= i < text.len() ==> plain(#[trigger] text[i])
}

/// Stripping the terminator of a line that a reader cut, so that it has no
/// terminator but at its end, is settled after the first time.
pub proof fn strip_newline_settles(raw: Seq<u8>)
    requires
        forall|i: int| 0 <= i < raw.len() - 1 ==> raw[i] != NEWLINE,
    ensures
        strip_newline(strip_newline(raw)) == strip_newline(raw),
{
}

/// Caret notation of a text is that of its parts, one behind the other.
pub proof fn show_nonprinting_of_parts(front: Seq<u8>, back: Seq<u8>)
    ensures
        show_nonprinting(front + back) == show_nonprinting(front) + show_nonprinting(back),
    decreases back.len(),
{
    if back.len() == 0 {
        assert(front + back == front);
    } else {
        show_nonprinting_of_parts(front, back.drop_last());
        assert((front + back).drop_last() == front + back.drop_last());
        assert((front + back).last() == back.last());
    }
}

/// Caret notation writes plain bytes only.
pub proof fn show_nonprinting_is_plain(line: Seq<u8>)
    ensures
        all_plain(show_nonprinting(line)),
    decreases line.len(),
{
    if line.len() > 0 {
        show_nonprinting_is_plain(line.drop_last());
    }
}

/// A text of plain bytes is its own caret notation.
pub proof fn show_nonprinting_of_plain(text: Seq<u8>)
    requires
        all_plain(text),
    ensures
        show_nonprinting(text) == text,
    decreases text.len(),
{
    if text.len() > 0 {
        show_nonprinting_of_plain(text.drop_last());
        assert(plain(text.last()));
        assert(text.drop_last() + seq![text.last()] == text);
    }
}

/// Caret notation of caret notation is the same text: each byte that the
/// first pass writes stands for itself in the second.
pub proof fn show_nonprinting_twice(line: Seq<u8>)
    ensures
        show_nonprinting(show_nonprinting(line)) == show_nonprinting(line),
{
    show_nonprinting_is_plain(line);
    show_nonprinting_of_plain(show_nonprinting(line));
}

/// Neither notation makes an empty line of one that is not, nor the reverse.
pub proof fn notation_keeps_emptiness(line: Seq<u8>)
    ensures
        show_nonprinting(line).len() == 0 <==> line.len() == 0,
        show_tabs(line).len() == 0 <==> line.len() == 0,
{
}

/// A number field is at least `NUMBER_WIDTH` columns and a tab wide, and
/// ends with the tab.
pub proof fn number_field_shape(n: nat)
    ensures
        number_field(n).len() > NUMBER_WIDTH,
        number_field(n).last() == TAB,
{
}

} // verus!
