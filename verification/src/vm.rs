use vstd::prelude::*;

use rustc_apfloat::Float;

use crate::chunk::{Chunk, OpCode};
use crate::value::{negate_bits, Value};

verus! {

/// The bit pattern of the IEEE-754 double-precision sum of the values with
/// bit patterns `a` and `b`, rounded to nearest, ties to even. The sum is a
/// function of the two bit patterns alone.
pub uninterp spec fn add_of(a: u64, b: u64) -> u64;

/// The bit pattern of the IEEE-754 double-precision difference `a - b`.
pub uninterp spec fn sub_of(a: u64, b: u64) -> u64;

/// The bit pattern of the IEEE-754 double-precision product of `a` and `b`.
pub uninterp spec fn mul_of(a: u64, b: u64) -> u64;

/// The bit pattern of the IEEE-754 double-precision quotient `a / b`.
/// Division by zero follows floating-point semantics: it produces an
/// infinity or NaN bit pattern, never a fault.
pub uninterp spec fn div_of(a: u64, b: u64) -> u64;

/// Relies on the `core::ops::Add` impl of `rustc_apfloat::ieee::Double`
/// (software IEEE-754 binary64 addition, round to nearest, ties to even),
/// together with `Float::from_bits` / `Float::to_bits`; the result depends on
/// the two bit patterns alone.
#[verifier::external_body]
fn add_bits(a: u64, b: u64) -> (r: u64)
    ensures
        r == add_of(a, b),
{
    let x = rustc_apfloat::ieee::Double::from_bits(a as u128);
    let y = rustc_apfloat::ieee::Double::from_bits(b as u128);
    (x + y).value.to_bits() as u64
}

/// Relies on the `core::ops::Sub` impl of `rustc_apfloat::ieee::Double`
/// (software IEEE-754 binary64 subtraction, round to nearest, ties to even).
#[verifier::external_body]
fn sub_bits(a: u64, b: u64) -> (r: u64)
    ensures
        r == sub_of(a, b),
{
    let x = rustc_apfloat::ieee::Double::from_bits(a as u128);
    let y = rustc_apfloat::ieee::Double::from_bits(b as u128);
    (x - y).value.to_bits() as u64
}

/// Relies on the `core::ops::Mul` impl of `rustc_apfloat::ieee::Double`
/// (software IEEE-754 binary64 multiplication, round to nearest, ties to even).
#[verifier::external_body]
fn mul_bits(a: u64, b: u64) -> (r: u64)
    ensures
        r == mul_of(a, b),
{
    let x = rustc_apfloat::ieee::Double::from_bits(a as u128);
    let y = rustc_apfloat::ieee::Double::from_bits(b as u128);
    (x * y).value.to_bits() as u64
}

/// Relies on the `core::ops::Div` impl of `rustc_apfloat::ieee::Double`
/// (software IEEE-754 binary64 division, round to nearest, ties to even;
/// division by zero yields an infinity or NaN, it does not panic).
#[verifier::external_body]
fn div_bits(a: u64, b: u64) -> (r: u64)
    ensures
        r == div_of(a, b),
{
    let x = rustc_apfloat::ieee::Double::from_bits(a as u128);
    let y = rustc_apfloat::ieee::Double::from_bits(b as u128);
    (x / y).value.to_bits() as u64
}

/// Why an execution halted in an error state.
#[derive(Clone, Copy, Debug, PartialEq, Eq, Structural)]
pub enum FaultKind {
    /// An instruction needed more operands than the stack held.
    StackUnderflow,
    /// A load-constant instruction carried an index outside the constant
    /// pool: a producer-error-class fault, reported rather than read past
    /// the end of the pool.
    ConstantOutOfRange,
    /// The cursor ran past the last instruction without executing a return.
    MissingReturn,
}

/// Where and why an execution halted in an error state: the offending
/// instruction offset and the source line recorded for it.
#[derive(Clone, Copy, Debug, PartialEq, Eq, Structural)]
pub struct Fault {
    pub kind: FaultKind,
    pub offset: usize,
    pub line: usize,
}

/// The terminal outcome of one execution: the popped result value on an
/// orderly return, a compile-stage rejection (reserved for a future compile
/// stage; the machine itself never raises it), or a runtime fault.
#[allow(non_camel_case_types)]
#[derive(Clone, Copy, Debug, PartialEq, Eq, Structural)]
pub enum InterpretResult {
    INTERPRET_OK(Value),
    INTERPRET_COMPILE_ERROR,
    INTERPRET_RUNTIME_ERROR(Fault),
}

/// Whether `op` is one of the four binary arithmetic instructions.
pub open spec fn is_binary(op: OpCode) -> bool {
    ||| op == OpCode::OP_ADD
    ||| op == OpCode::OP_SUBTRACT
    ||| op == OpCode::OP_MULTIPLY
    ||| op == OpCode::OP_DIVIDE
}

/// The bit pattern a binary arithmetic instruction pushes, given the bit
/// patterns of its left and right operands.
pub open spec fn binary_result(op: OpCode, a: u64, b: u64) -> u64
    recommends
        is_binary(op),
{
    match op {
        OpCode::OP_ADD => add_of(a, b),
        OpCode::OP_SUBTRACT => sub_of(a, b),
        OpCode::OP_MULTIPLY => mul_of(a, b),
        OpCode::OP_DIVIDE => div_of(a, b),
        _ => 0,
    }
}

/// The runtime fault with the given kind and offset, carrying the source
/// line recorded for that offset (or line 0 where the line table has no
/// entry for it).
pub open spec fn fault_result(lines: Seq<usize>, kind: FaultKind, ip: int) -> InterpretResult {
    InterpretResult::INTERPRET_RUNTIME_ERROR(
        Fault {
            kind,
            offset: ip as usize,
            line: if 0 <= ip < lines.len() {
                lines[ip]
            } else {
                0
            },
        },
    )
}

/// The outcome of executing `code` from instruction `ip` onward with the
/// given constant pool, line table, and operand stack. This is the machine's
/// whole semantics: one instruction per step, strictly sequential advance,
/// halting at the first return, the first fault, or the end of the code.
///
/// A binary instruction pops its right operand first and its left operand
/// second, because operands are pushed left-then-right.
pub open spec fn run_from(
    code: Seq<OpCode>,
    consts: Seq<Value>,
    lines: Seq<usize>,
    ip: int,
    stack: Seq<Value>,
) -> InterpretResult
    decreases code.len() - ip when 0 <= ip <= code.len()
{
    if ip >= code.len() {
        fault_result(lines, FaultKind::MissingReturn, code.len() as int)
    } else {
        match code[ip] {
            OpCode::OP_RETURN => {
                if stack.len() >= 1 {
                    InterpretResult::INTERPRET_OK(stack.last())
                } else {
                    fault_result(lines, FaultKind::StackUnderflow, ip)
                }
            },
            OpCode::OP_CONSTANT(c) => {
                if (c as int) < consts.len() {
                    run_from(code, consts, lines, ip + 1, stack.push(consts[c as int]))
                } else {
                    fault_result(lines, FaultKind::ConstantOutOfRange, ip)
                }
            },
            OpCode::OP_NEGATE => {
                if stack.len() >= 1 {
                    run_from(
                        code,
                        consts,
                        lines,
                        ip + 1,
                        stack.drop_last().push(Value::Number(negate_bits(stack.last().bits()))),
                    )
                } else {
                    fault_result(lines, FaultKind::StackUnderflow, ip)
                }
            },
            op => {
                if stack.len() >= 2 {
                    run_from(
                        code,
                        consts,
                        lines,
                        ip + 1,
                        stack.drop_last().drop_last().push(
                            Value::Number(
                                binary_result(
                                    op,
                                    stack[stack.len() - 2].bits(),
                                    stack.last().bits(),
                                ),
                            ),
                        ),
                    )
                } else {
                    fault_result(lines, FaultKind::StackUnderflow, ip)
                }
            },
        }
    }
}

/// Whether the instructions of `code` from `ip` to the end form a
/// stack-balanced straight-line program over a stack of depth `depth`: loads
/// and arithmetic instructions that always find their operands already
/// pushed, every embedded constant index in range, ending in a single return
/// that finds a result on the stack.
pub open spec fn balanced_from(code: Seq<OpCode>, consts: Seq<Value>, ip: int, depth: int) -> bool
    decreases code.len() - ip when 0 <= ip <= code.len()
{
    if ip >= code.len() {
        false
    } else {
        match code[ip] {
            OpCode::OP_RETURN => ip == code.len() - 1 && depth >= 1,
            OpCode::OP_CONSTANT(c) => (c as int) < consts.len() && balanced_from(
                code,
                consts,
                ip + 1,
                depth + 1,
            ),
            OpCode::OP_NEGATE => depth >= 1 && balanced_from(code, consts, ip + 1, depth),
            _ => depth >= 2 && balanced_from(code, consts, ip + 1, depth - 1),
        }
    }
}

/// The operand stack the straight-line instructions of `code` from `ip` up
/// to, but not including, the final return leave behind: the mathematical
/// evaluation of the postfix expression the instructions encode.
pub open spec fn evaluated_stack(
    code: Seq<OpCode>,
    consts: Seq<Value>,
    ip: int,
    stack: Seq<Value>,
) -> Seq<Value>
    decreases code.len() - ip when 0 <= ip <= code.len()
{
    if ip >= code.len() - 1 {
        stack
    } else {
        match code[ip] {
            OpCode::OP_RETURN => stack,
            OpCode::OP_CONSTANT(c) => evaluated_stack(
                code,
                consts,
                ip + 1,
                stack.push(consts[c as int]),
            ),
            OpCode::OP_NEGATE => evaluated_stack(
                code,
                consts,
                ip + 1,
                stack.drop_last().push(Value::Number(negate_bits(stack.last().bits()))),
            ),
            op => evaluated_stack(
                code,
                consts,
                ip + 1,
                stack.drop_last().drop_last().push(
                    Value::Number(
                        binary_result(op, stack[stack.len() - 2].bits(), stack.last().bits()),
                    ),
                ),
            ),
        }
    }
}

/// Law: a stack-balanced straight-line program never faults. Executing
/// `code` from `ip` with the given stack halts in an orderly return whose
/// result is exactly the top of the mathematically evaluated stack — the
/// value of the postfix expression the instructions encode.
pub proof fn lemma_balanced_runs_ok(
    code: Seq<OpCode>,
    consts: Seq<Value>,
    lines: Seq<usize>,
    ip: int,
    stack: Seq<Value>,
)
    requires
        0 <= ip <= code.len(),
        balanced_from(code, consts, ip, stack.len() as int),
    ensures
        run_from(code, consts, lines, ip, stack) == InterpretResult::INTERPRET_OK(
            evaluated_stack(code, consts, ip, stack).last(),
        ),
    decreases code.len() - ip,
{
    if ip < code.len() {
        match code[ip] {
            OpCode::OP_RETURN => {},
            OpCode::OP_CONSTANT(c) => {
                lemma_balanced_runs_ok(code, consts, lines, ip + 1, stack.push(consts[c as int]));
            },
            OpCode::OP_NEGATE => {
                lemma_balanced_runs_ok(
                    code,
                    consts,
                    lines,
                    ip + 1,
                    stack.drop_last().push(Value::Number(negate_bits(stack.last().bits()))),
                );
            },
            op => {
                lemma_balanced_runs_ok(
                    code,
                    consts,
                    lines,
                    ip + 1,
                    stack.drop_last().drop_last().push(
                        Value::Number(
                            binary_result(op, stack[stack.len() - 2].bits(), stack.last().bits()),
                        ),
                    ),
                );
            },
        }
    }
}

/// Law: executing a whole stack-balanced chunk that ends in a return yields
/// exactly the mathematically expected value of the expression its
/// instructions encode, never a fault.
pub proof fn lemma_balanced_chunk_yields_value(
    code: Seq<OpCode>,
    consts: Seq<Value>,
    lines: Seq<usize>,
)
    requires
        balanced_from(code, consts, 0, 0),
    ensures
        run_from(code, consts, lines, 0, Seq::<Value>::empty()) == InterpretResult::INTERPRET_OK(
            evaluated_stack(code, consts, 0, Seq::<Value>::empty()).last(),
        ),
{
    lemma_balanced_runs_ok(code, consts, lines, 0, Seq::<Value>::empty());
}

/// Law: the machine never reports a compile error itself: that outcome is
/// reserved for a compile stage that rejects malformed source before a
/// chunk exists. Every execution ends in an orderly return or a runtime
/// fault.
pub proof fn lemma_vm_never_reports_compile_error(
    code: Seq<OpCode>,
    consts: Seq<Value>,
    lines: Seq<usize>,
    ip: int,
    stack: Seq<Value>,
)
    requires
        0 <= ip <= code.len(),
    ensures
        run_from(code, consts, lines, ip, stack) != InterpretResult::INTERPRET_COMPILE_ERROR,
    decreases code.len() - ip,
{
    if ip < code.len() {
        match code[ip] {
            OpCode::OP_RETURN => {},
            OpCode::OP_CONSTANT(c) => {
                if (c as int) < consts.len() {
                    lemma_vm_never_reports_compile_error(
                        code,
                        consts,
                        lines,
                        ip + 1,
                        stack.push(consts[c as int]),
                    );
                }
            },
            OpCode::OP_NEGATE => {
                if stack.len() >= 1 {
                    lemma_vm_never_reports_compile_error(
                        code,
                        consts,
                        lines,
                        ip + 1,
                        stack.drop_last().push(Value::Number(negate_bits(stack.last().bits()))),
                    );
                }
            },
            op => {
                if stack.len() >= 2 {
                    lemma_vm_never_reports_compile_error(
                        code,
                        consts,
                        lines,
                        ip + 1,
                        stack.drop_last().drop_last().push(
                            Value::Number(
                                binary_result(
                                    op,
                                    stack[stack.len() - 2].bits(),
                                    stack.last().bits(),
                                ),
                            ),
                        ),
                    );
                }
            },
        }
    }
}

/// Law: on code whose embedded constant indices are all in range — the
/// well-formedness a producer owes the machine — execution never reports a
/// producer-error fault: every halt is an orderly return, a stack
/// underflow, or a missing return.
pub proof fn lemma_well_formed_never_constant_fault(
    code: Seq<OpCode>,
    consts: Seq<Value>,
    lines: Seq<usize>,
    ip: int,
    stack: Seq<Value>,
)
    requires
        0 <= ip <= code.len(),
        forall|i: int|
            0 <= i < code.len() ==> crate::chunk::op_index_ok(
                #[trigger] code[i],
                consts.len() as int,
            ),
    ensures
        run_from(code, consts, lines, ip, stack) matches InterpretResult::INTERPRET_RUNTIME_ERROR(
            f,
        ) ==> f.kind != FaultKind::ConstantOutOfRange,
    decreases code.len() - ip,
{
    if ip < code.len() {
        match code[ip] {
            OpCode::OP_RETURN => {},
            OpCode::OP_CONSTANT(c) => {
                lemma_well_formed_never_constant_fault(
                    code,
                    consts,
                    lines,
                    ip + 1,
                    stack.push(consts[c as int]),
                );
            },
            OpCode::OP_NEGATE => {
                if stack.len() >= 1 {
                    lemma_well_formed_never_constant_fault(
                        code,
                        consts,
                        lines,
                        ip + 1,
                        stack.drop_last().push(Value::Number(negate_bits(stack.last().bits()))),
                    );
                }
            },
            op => {
                if stack.len() >= 2 {
                    lemma_well_formed_never_constant_fault(
                        code,
                        consts,
                        lines,
                        ip + 1,
                        stack.drop_last().drop_last().push(
                            Value::Number(
                                binary_result(
                                    op,
                                    stack[stack.len() - 2].bits(),
                                    stack.last().bits(),
                                ),
                            ),
                        ),
                    );
                }
            },
        }
    }
}

/// Law: an instruction that needs more operands than the stack holds always
/// halts the execution in an error state carrying a stack-underflow fault at
/// that instruction's offset — it is never skipped, retried, or silently
/// coerced. (The executing functions are verified never to panic, so the
/// fault is reported to the caller rather than tearing down the host.)
pub proof fn lemma_underflow_halts(
    code: Seq<OpCode>,
    consts: Seq<Value>,
    lines: Seq<usize>,
    ip: int,
    stack: Seq<Value>,
)
    requires
        0 <= ip < code.len(),
        (is_binary(code[ip]) && stack.len() < 2) || (code[ip] == OpCode::OP_NEGATE && stack.len()
            == 0) || (code[ip] == OpCode::OP_RETURN && stack.len() == 0),
    ensures
        run_from(code, consts, lines, ip, stack) == fault_result(
            lines,
            FaultKind::StackUnderflow,
            ip,
        ),
{
}

/// The offsets of the instructions one execution of `code` from `ip`
/// onward dispatches, in order: every instruction the machine reaches
/// appears exactly once, the halting one included.
pub open spec fn trace_from(
    code: Seq<OpCode>,
    consts: Seq<Value>,
    ip: int,
    stack: Seq<Value>,
) -> Seq<int>
    decreases code.len() - ip when 0 <= ip <= code.len()
{
    if ip >= code.len() {
        Seq::empty()
    } else {
        match code[ip] {
            OpCode::OP_RETURN => seq![ip],
            OpCode::OP_CONSTANT(c) => if (c as int) < consts.len() {
                seq![ip] + trace_from(code, consts, ip + 1, stack.push(consts[c as int]))
            } else {
                seq![ip]
            },
            OpCode::OP_NEGATE => if stack.len() >= 1 {
                seq![ip] + trace_from(
                    code,
                    consts,
                    ip + 1,
                    stack.drop_last().push(Value::Number(negate_bits(stack.last().bits()))),
                )
            } else {
                seq![ip]
            },
            op => if stack.len() >= 2 {
                seq![ip] + trace_from(
                    code,
                    consts,
                    ip + 1,
                    stack.drop_last().drop_last().push(
                        Value::Number(
                            binary_result(op, stack[stack.len() - 2].bits(), stack.last().bits()),
                        ),
                    ),
                )
            } else {
                seq![ip]
            },
        }
    }
}

/// The stack-based virtual machine: an operand stack owned exclusively by
/// this instance for the duration of one execution. The chunk under
/// execution is borrowed read-only for one `interpret` call.
pub struct VM {
    stack: Vec<Value>,
}

impl VM {
    /// The operand stack, bottom first.
    pub closed spec fn stack_view(self) -> Seq<Value> {
        self.stack@
    }

    /// A machine with an empty operand stack, bound to no chunk.
    pub fn new() -> (r: VM)
        ensures
            r.stack_view() == Seq::<Value>::empty(),
    {
        VM { stack: Vec::new() }
    }

    fn push(&mut self, value: Value)
        ensures
            final(self).stack_view() == old(self).stack_view().push(value),
    {
        self.stack.push(value);
    }

    fn pop(&mut self) -> (r: Option<Value>)
        ensures
            match r {
                Some(v) => old(self).stack_view().len() >= 1 && v == old(self).stack_view().last()
                    && final(self).stack_view() == old(self).stack_view().drop_last(),
                None => old(self).stack_view().len() == 0 && final(self).stack_view() == old(
                    self,
                ).stack_view(),
            },
    {
        self.stack.pop()
    }

    /// Pop the two operands of a binary arithmetic instruction (right first,
    /// left second), compute left `op` right, and push the one result.
    /// Returns false, leaving no result pushed, when the stack held fewer
    /// than two operands.
    fn binary_op(&mut self, op: OpCode) -> (ok: bool)
        requires
            is_binary(op),
        ensures
            ok ==> old(self).stack_view().len() >= 2 && final(self).stack_view() == old(
                self,
            ).stack_view().drop_last().drop_last().push(
                Value::Number(
                    binary_result(
                        op,
                        old(self).stack_view()[old(self).stack_view().len() - 2].bits(),
                        old(self).stack_view().last().bits(),
                    ),
                ),
            ),
            !ok ==> old(self).stack_view().len() < 2,
    {
        let b = match self.pop() {
            Some(v) => v,
            None => {
                return false;
            },
        };
        let a = match self.pop() {
            Some(v) => v,
            None => {
                return false;
            },
        };
        let bits = match op {
            OpCode::OP_ADD => add_bits(a.number_bits(), b.number_bits()),
            OpCode::OP_SUBTRACT => sub_bits(a.number_bits(), b.number_bits()),
            OpCode::OP_MULTIPLY => mul_bits(a.number_bits(), b.number_bits()),
            OpCode::OP_DIVIDE => div_bits(a.number_bits(), b.number_bits()),
            _ => {
                proof {
                    assert(false);
                }
                0
            },
        };
        self.push(Value::Number(bits));
        true
    }

    /// Execute `chunk` from its first instruction on a freshly cleared
    /// operand stack, to an orderly return or to the first fault.
    pub fn interpret(&mut self, chunk: &Chunk) -> (r: InterpretResult)
        ensures
            r == run_from(
                chunk.code_view(),
                chunk.constants_view(),
                chunk.lines_view(),
                0,
                Seq::<Value>::empty(),
            ),
    {
        self.stack.clear();
        self.run(chunk)
    }

    /// Step through `chunk`'s instructions in order, starting from the
    /// current operand stack, until a return halts the execution with the
    /// popped result, a fault halts it with its offset and source line, or
    /// the cursor runs off the end of the code.
    pub fn run(&mut self, chunk: &Chunk) -> (r: InterpretResult)
        ensures
            r == run_from(
                chunk.code_view(),
                chunk.constants_view(),
                chunk.lines_view(),
                0,
                old(self).stack_view(),
            ),
    {
        let (result, _) = self.run_core(chunk, false);
        result
    }

    /// Like `run`, but also emit a disassembled trace: the rendered text of
    /// each instruction, in dispatch order, the halting one included. The
    /// result is the same as `run`'s on the same state — tracing is a
    /// debug-mode aid with no influence on program semantics.
    pub fn run_traced(&mut self, chunk: &Chunk) -> (r: (InterpretResult, Vec<String>))
        ensures
            r.0 == run_from(
                chunk.code_view(),
                chunk.constants_view(),
                chunk.lines_view(),
                0,
                old(self).stack_view(),
            ),
            r.1@.len() == trace_from(
                chunk.code_view(),
                chunk.constants_view(),
                0,
                old(self).stack_view(),
            ).len(),
            forall|i: int|
                0 <= i < r.1@.len() ==> #[trigger] r.1@[i]@ == crate::value::ascii_chars(
                    crate::debug::dis_line(
                        chunk.code_view(),
                        chunk.constants_view(),
                        chunk.lines_view(),
                        trace_from(
                            chunk.code_view(),
                            chunk.constants_view(),
                            0,
                            old(self).stack_view(),
                        )[i],
                    ),
                ),
    {
        self.run_core(chunk, true)
    }

    /// The interpreter loop shared by `run` and `run_traced`: fetch, decode,
    /// dispatch, advance, with the trace rendered just before each dispatch
    /// when `trace` is set.
    #[verifier::loop_isolation(false)]
    fn run_core(&mut self, chunk: &Chunk, trace: bool) -> (r: (InterpretResult, Vec<String>))
        ensures
            r.0 == run_from(
                chunk.code_view(),
                chunk.constants_view(),
                chunk.lines_view(),
                0,
                old(self).stack_view(),
            ),
            trace ==> r.1@.len() == trace_from(
                chunk.code_view(),
                chunk.constants_view(),
                0,
                old(self).stack_view(),
            ).len(),
            trace ==> forall|i: int|
                0 <= i < r.1@.len() ==> #[trigger] r.1@[i]@ == crate::value::ascii_chars(
                    crate::debug::dis_line(
                        chunk.code_view(),
                        chunk.constants_view(),
                        chunk.lines_view(),
                        trace_from(
                            chunk.code_view(),
                            chunk.constants_view(),
                            0,
                            old(self).stack_view(),
                        )[i],
                    ),
                ),
            !trace ==> r.1@.len() == 0,
    {
        let ghost code = chunk.code_view();
        let ghost consts = chunk.constants_view();
        let ghost lines = chunk.lines_view();
        let ghost init_stack = old(self).stack_view();
        let mut trace_lines: Vec<String> = Vec::new();
        let ghost mut done: Seq<int> = Seq::empty();
        let count = chunk.count();
        let mut ip: usize = 0;
        while ip < count
            invariant
                0 <= ip <= count,
                run_from(code, consts, lines, 0, init_stack) == run_from(
                    code,
                    consts,
                    lines,
                    ip as int,
                    self.stack_view(),
                ),
                trace_from(code, consts, 0, init_stack) == done + trace_from(
                    code,
                    consts,
                    ip as int,
                    self.stack_view(),
                ),
                trace ==> trace_lines@.len() == done.len(),
                trace ==> forall|i: int|
                    0 <= i < done.len() ==> #[trigger] trace_lines@[i]@
                        == crate::value::ascii_chars(
                        crate::debug::dis_line(code, consts, lines, done[i]),
                    ),
                !trace ==> trace_lines@.len() == 0,
            decreases count - ip,
        {
            let ghost stack0 = self.stack_view();
            if trace {
                let line = crate::debug::disassemble_instruction(chunk, ip);
                trace_lines.push(line);
            }
            proof {
                done = done + seq![ip as int];
            }
            let instruction = *chunk.at(ip);
            match instruction {
                OpCode::OP_RETURN => {
                    proof {
                        assert(trace_from(code, consts, 0, init_stack) =~= done);
                    }
                    match self.pop() {
                        Some(v) => {
                            return (InterpretResult::INTERPRET_OK(v), trace_lines);
                        },
                        None => {
                            return (
                                Self::fault(chunk, FaultKind::StackUnderflow, ip),
                                trace_lines,
                            );
                        },
                    }
                },
                OpCode::OP_CONSTANT(c) => {
                    if c < chunk.constants_count() {
                        let v = chunk.constant_at(c);
                        self.push(v);
                    } else {
                        proof {
                            assert(trace_from(code, consts, 0, init_stack) =~= done);
                        }
                        return (
                            Self::fault(chunk, FaultKind::ConstantOutOfRange, ip),
                            trace_lines,
                        );
                    }
                },
                OpCode::OP_NEGATE => {
                    match self.pop() {
                        Some(v) => {
                            let bits = crate::value::negate_number(v.number_bits());
                            self.push(Value::Number(bits));
                        },
                        None => {
                            proof {
                                assert(trace_from(code, consts, 0, init_stack) =~= done);
                            }
                            return (
                                Self::fault(chunk, FaultKind::StackUnderflow, ip),
                                trace_lines,
                            );
                        },
                    }
                },
                _ => {
                    if !self.binary_op(instruction) {
                        proof {
                            assert(trace_from(code, consts, 0, init_stack) =~= done);
                        }
                        return (Self::fault(chunk, FaultKind::StackUnderflow, ip), trace_lines);
                    }
                },
            }
            proof {
                assert(run_from(code, consts, lines, ip as int, stack0) == run_from(
                    code,
                    consts,
                    lines,
                    ip + 1,
                    self.stack_view(),
                ));
                assert(trace_from(code, consts, ip as int, stack0) == seq![ip as int]
                    + trace_from(code, consts, ip + 1, self.stack_view()));
                assert(trace_from(code, consts, 0, init_stack) =~= done + trace_from(
                    code,
                    consts,
                    ip + 1,
                    self.stack_view(),
                ));
            }
            ip = ip + 1;
        }
        proof {
            assert(trace_from(code, consts, 0, init_stack) =~= done);
        }
        (Self::fault(chunk, FaultKind::MissingReturn, count), trace_lines)
    }

    /// Halt with a runtime fault of the given kind at `offset`, carrying the
    /// source line recorded for that offset (line 0 where the line table has
    /// no entry).
    fn fault(chunk: &Chunk, kind: FaultKind, offset: usize) -> (r: InterpretResult)
        ensures
            r == fault_result(chunk.lines_view(), kind, offset as int),
    {
        let line: usize = if offset < chunk.lines_count() {
            chunk.line_at(offset)
        } else {
            0
        };
        InterpretResult::INTERPRET_RUNTIME_ERROR(Fault { kind, offset, line })
    }
}

} // verus!
