use vstd::prelude::*;

use crate::chunk::{Chunk, OpCode};
use crate::value::{ascii_bytes, ascii_chars, number_text_bytes, text_of, Value};

verus! {

/// The decimal digits of `n`, most significant first, as ASCII bytes.
pub open spec fn dec_digits(n: int) -> Seq<u8>
    decreases n
{
    if n < 10 {
        seq![(48 + n) as u8]
    } else {
        dec_digits(n / 10).push((48 + n % 10) as u8)
    }
}

/// `s` left-padded with `fill` bytes up to width `w`; `s` itself once it is
/// at least that wide.
pub open spec fn left_pad(s: Seq<u8>, w: int, fill: u8) -> Seq<u8>
    decreases w - s.len()
{
    if s.len() >= w {
        s
    } else {
        left_pad(seq![fill] + s, w, fill)
    }
}

/// `n` in decimal, zero-padded to at least four digits.
pub open spec fn zero_pad4(n: int) -> Seq<u8> {
    left_pad(dec_digits(n), 4, 48)
}

/// `n` in decimal, right-aligned with spaces to at least four columns.
pub open spec fn space_pad4(n: int) -> Seq<u8> {
    left_pad(dec_digits(n), 4, 32)
}

/// The marker printed in place of a repeated source-line number: three
/// spaces and a bar.
pub open spec fn continuation_marker() -> Seq<u8> {
    seq![32u8, 32u8, 32u8, 124u8]
}

/// The four-column source-line field of a disassembled instruction: the
/// continuation marker when the instruction shares its line with the one
/// before it, the zero-padded line number on every line change, and a
/// `????` diagnostic when the line table holds no entry for the offset.
pub open spec fn line_field(lines: Seq<usize>, off: int) -> Seq<u8> {
    if 0 <= off < lines.len() {
        if off > 0 && lines[off] == lines[off - 1] {
            continuation_marker()
        } else {
            zero_pad4(lines[off] as int)
        }
    } else {
        seq![63u8, 63u8, 63u8, 63u8]
    }
}

/// The mnemonic of an instruction.
pub open spec fn mnemonic(op: OpCode) -> Seq<u8> {
    match op {
        OpCode::OP_CONSTANT(_) => seq![79u8, 80u8, 95u8, 67u8, 79u8, 78u8, 83u8, 84u8, 65u8, 78u8, 84u8],
        OpCode::OP_NEGATE => seq![79u8, 80u8, 95u8, 78u8, 69u8, 71u8, 65u8, 84u8, 69u8],
        OpCode::OP_ADD => seq![79u8, 80u8, 95u8, 65u8, 68u8, 68u8],
        OpCode::OP_SUBTRACT => seq![79u8, 80u8, 95u8, 83u8, 85u8, 66u8, 84u8, 82u8, 65u8, 67u8, 84u8],
        OpCode::OP_MULTIPLY => seq![79u8, 80u8, 95u8, 77u8, 85u8, 76u8, 84u8, 73u8, 80u8, 76u8, 89u8],
        OpCode::OP_DIVIDE => seq![79u8, 80u8, 95u8, 68u8, 73u8, 86u8, 73u8, 68u8, 69u8],
        OpCode::OP_RETURN => seq![79u8, 80u8, 95u8, 82u8, 69u8, 84u8, 85u8, 82u8, 78u8],
    }
}

/// The rendered constant a load-constant instruction refers to, or a `???`
/// diagnostic when its index lies outside the pool: the disassembler
/// degrades gracefully on a malformed chunk instead of faulting.
pub open spec fn constant_field(consts: Seq<Value>, c: int) -> Seq<u8> {
    if 0 <= c < consts.len() {
        text_of(consts[c].bits())
    } else {
        seq![63u8, 63u8, 63u8]
    }
}

/// The instruction part of a disassembled line: the mnemonic, and for a
/// load-constant instruction also its pool index and the rendered constant.
pub open spec fn body_field(code: Seq<OpCode>, consts: Seq<Value>, off: int) -> Seq<u8>
    recommends 0 <= off < code.len()
{
    match code[off] {
        OpCode::OP_CONSTANT(c) => mnemonic(code[off]) + seq![32u8] + space_pad4(c as int) + seq![
            32u8,
        ] + constant_field(consts, c as int),
        _ => mnemonic(code[off]),
    }
}

/// One whole disassembled line: the zero-padded instruction offset, the
/// source-line field, and the instruction body, separated by single spaces.
pub open spec fn dis_line(
    code: Seq<OpCode>,
    consts: Seq<Value>,
    lines: Seq<usize>,
    off: int,
) -> Seq<u8>
    recommends 0 <= off < code.len()
{
    zero_pad4(off) + seq![32u8] + line_field(lines, off) + seq![32u8] + body_field(
        code,
        consts,
        off,
    )
}

/// Law: consecutive instructions sharing a source line show the
/// continuation marker from the second one on, and a line change always
/// shows the new line number.
pub proof fn lemma_continuation_marker(lines: Seq<usize>, off: int)
    requires
        0 <= off < lines.len(),
    ensures
        (off > 0 && lines[off] == lines[off - 1]) ==> line_field(lines, off)
            == continuation_marker(),
        (off == 0 || lines[off] != lines[off - 1]) ==> line_field(lines, off) == zero_pad4(
            lines[off] as int,
        ),
{
}

/// Append the decimal digits of `n` to `out`.
fn push_dec(out: &mut Vec<u8>, n: usize)
    ensures
        final(out)@ == old(out)@ + dec_digits(n as int),
        ascii_bytes(old(out)@) ==> ascii_bytes(final(out)@),
    decreases n,
{
    let ghost pre = out@;
    if n >= 10 {
        push_dec(out, n / 10);
    }
    out.push((n % 10) as u8 + 48);
    proof {
        assert(out@ =~= pre + dec_digits(n as int));
    }
}

/// Append the decimal digits of `n`, left-padded with `fill` to `width`.
fn push_dec_padded(out: &mut Vec<u8>, n: usize, width: usize, fill: u8)
    requires
        fill < 128,
    ensures
        final(out)@ == old(out)@ + left_pad(dec_digits(n as int), width as int, fill),
        ascii_bytes(old(out)@) ==> ascii_bytes(final(out)@),
{
    let mut digits: Vec<u8> = Vec::new();
    push_dec(&mut digits, n);
    while digits.len() < width
        invariant
            left_pad(digits@, width as int, fill) == left_pad(
                dec_digits(n as int),
                width as int,
                fill,
            ),
            ascii_bytes(digits@),
            fill < 128,
        decreases width - digits.len(),
    {
        let ghost before = digits@;
        digits.insert(0, fill);
        proof {
            assert(digits@ =~= seq![fill] + before);
            assert forall|i: int| 0 <= i < digits@.len() implies digits@[i] < 128 by {
                if i > 0 {
                    assert(digits@[i] == before[i - 1]);
                }
            }
        }
    }
    let ghost padded = digits@;
    proof {
        assert(left_pad(padded, width as int, fill) == padded);
    }
    out.append(&mut digits);
}

/// Append the mnemonic of `op` to `out`.
fn push_mnemonic(out: &mut Vec<u8>, op: OpCode)
    ensures
        final(out)@ == old(out)@ + mnemonic(op),
        ascii_bytes(old(out)@) ==> ascii_bytes(final(out)@),
{
    let ghost pre = out@;
    out.push(79);
    out.push(80);
    out.push(95);
    match op {
        OpCode::OP_CONSTANT(_) => {
            out.push(67);
            out.push(79);
            out.push(78);
            out.push(83);
            out.push(84);
            out.push(65);
            out.push(78);
            out.push(84);
        },
        OpCode::OP_NEGATE => {
            out.push(78);
            out.push(69);
            out.push(71);
            out.push(65);
            out.push(84);
            out.push(69);
        },
        OpCode::OP_ADD => {
            out.push(65);
            out.push(68);
            out.push(68);
        },
        OpCode::OP_SUBTRACT => {
            out.push(83);
            out.push(85);
            out.push(66);
            out.push(84);
            out.push(82);
            out.push(65);
            out.push(67);
            out.push(84);
        },
        OpCode::OP_MULTIPLY => {
            out.push(77);
            out.push(85);
            out.push(76);
            out.push(84);
            out.push(73);
            out.push(80);
            out.push(76);
            out.push(89);
        },
        OpCode::OP_DIVIDE => {
            out.push(68);
            out.push(73);
            out.push(86);
            out.push(73);
            out.push(68);
            out.push(69);
        },
        OpCode::OP_RETURN => {
            out.push(82);
            out.push(69);
            out.push(84);
            out.push(85);
            out.push(82);
            out.push(78);
        },
    }
    proof {
        assert(out@ =~= pre + mnemonic(op));
    }
}

/// Disassemble the one instruction at `offset` into a human-readable line:
/// offset, source line (with the continuation marker when the previous
/// instruction shares the line), mnemonic, and for a load-constant
/// instruction its operand index and the resolved constant value.
///
/// Reading a chunk never changes it: the chunk is taken by shared
/// reference, so instructions, constants, and lines are untouched.
pub fn disassemble_instruction(chunk: &Chunk, offset: usize) -> (r: String)
    requires
        offset < chunk.code_view().len(),
    ensures
        r@ == ascii_chars(
            dis_line(chunk.code_view(), chunk.constants_view(), chunk.lines_view(), offset as int),
        ),
{
    let mut out: Vec<u8> = Vec::new();
    push_dec_padded(&mut out, offset, 4, 48);
    out.push(32);
    if offset < chunk.lines_count() {
        let line = chunk.line_at(offset);
        if offset > 0 && chunk.line_at(offset - 1) == line {
            out.push(32);
            out.push(32);
            out.push(32);
            out.push(124);
        } else {
            push_dec_padded(&mut out, line, 4, 48);
        }
    } else {
        out.push(63);
        out.push(63);
        out.push(63);
        out.push(63);
    }
    out.push(32);
    let ghost prefix = out@;
    let instruction = *chunk.at(offset);
    push_mnemonic(&mut out, instruction);
    match instruction {
        OpCode::OP_CONSTANT(c) => {
            out.push(32);
            push_dec_padded(&mut out, c, 4, 32);
            out.push(32);
            if c < chunk.constants_count() {
                let v = chunk.constant_at(c);
                let mut t = number_text_bytes(v.number_bits());
                out.append(&mut t);
            } else {
                out.push(63);
                out.push(63);
                out.push(63);
            }
        },
        _ => {},
    }
    proof {
        assert(out@ =~= dis_line(
            chunk.code_view(),
            chunk.constants_view(),
            chunk.lines_view(),
            offset as int,
        ));
    }
    crate::value::ascii_to_string(out)
}

/// Disassemble a whole chunk, one line per instruction, in instruction
/// order. Pure: the chunk is read through a shared reference and left
/// exactly as it was.
pub fn disassemble_chunk(chunk: &Chunk) -> (r: Vec<String>)
    ensures
        r@.len() == chunk.code_view().len(),
        forall|i: int|
            0 <= i < r@.len() ==> #[trigger] r@[i]@ == ascii_chars(
                dis_line(chunk.code_view(), chunk.constants_view(), chunk.lines_view(), i),
            ),
{
    let mut lines: Vec<String> = Vec::new();
    let count = chunk.count();
    let mut offset: usize = 0;
    #[verifier::loop_isolation(false)]
    while offset < count
        invariant
            0 <= offset <= count,
            lines@.len() == offset,
            forall|i: int|
                0 <= i < offset ==> #[trigger] lines@[i]@ == ascii_chars(
                    dis_line(chunk.code_view(), chunk.constants_view(), chunk.lines_view(), i),
                ),
        decreases count - offset,
    {
        let line = disassemble_instruction(chunk, offset);
        lines.push(line);
        offset = offset + 1;
    }
    lines
}

} // verus!
