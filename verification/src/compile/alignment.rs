use vstd::prelude::*;
use crate::compile::assembly::{InstructionModel, LineModel, Readable, Register, Writable};
use crate::compile::codegen::{
    add_lines, branch_lines, call_lines, equality_lines, local_label, middle_lines,
    multiply_lines, negate_lines, padding, pop_argument_lines, relational_lines, return_lines,
};
use crate::compile::scope::{load_lines, store_lines, PointerOffset};
use crate::general::text::{decimal, digit_char, digits};

verus! {

/// What is known of the stack at a place in the lines of a function, when
/// the lines are read from the top.
pub struct Tracking {
    /// Whether control can come to this place from a line read before.
    pub reachable: bool,
    /// The number of bytes pushed on the stack since the frame was set up
    /// and not popped, where the place can be reached.
    pub depth: int,
    /// The labels that a jump read before goes to and that are still to
    /// come, each with the depth of the stack at the jump.
    pub pending: Map<Seq<char>, int>,
    /// Whether every call read so far is made with a multiple of 16 bytes
    /// pushed, and every label is reached with one depth from everywhere.
    pub aligned: bool,
}

/// What is known behind the prologue of a function: nothing is pushed yet.
pub open spec fn at_entry() -> Tracking {
    Tracking { reachable: true, depth: 0, pending: Map::empty(), aligned: true }
}

/// The same place with `delta` bytes more on the stack.
pub open spec fn moved(tracking: Tracking, delta: int) -> Tracking {
    Tracking {
        reachable: tracking.reachable,
        depth: tracking.depth + delta,
        pending: tracking.pending,
        aligned: tracking.aligned,
    }
}

/// What is known behind a jump to `label` that may be taken or not.
pub open spec fn jumped(tracking: Tracking, label: Seq<char>) -> Tracking {
    Tracking {
        reachable: tracking.reachable,
        depth: tracking.depth,
        pending: tracking.pending.insert(label, tracking.depth),
        aligned: tracking.aligned && (tracking.pending.contains_key(label)
            ==> tracking.pending[label] == tracking.depth),
    }
}

/// What is known behind a line that control does not pass.
pub open spec fn ended(tracking: Tracking) -> Tracking {
    Tracking {
        reachable: false,
        depth: tracking.depth,
        pending: tracking.pending,
        aligned: tracking.aligned,
    }
}

/// What is known behind an instruction that control can reach.
pub open spec fn executed(tracking: Tracking, instruction: InstructionModel, frame: int)
    -> Tracking {
    match instruction {
        InstructionModel::Push(_) => moved(tracking, 8),
        InstructionModel::Pop(_) => moved(tracking, -8),
        InstructionModel::Sub(register, operand) => if register == Register::Rsp {
            match operand {
                Readable::Literal(n) => moved(tracking, n as int),
                _ => tracking,
            }
        } else {
            tracking
        },
        InstructionModel::Add(register, operand) => if register == Register::Rsp {
            match operand {
                Readable::Literal(n) => moved(tracking, -(n as int)),
                _ => tracking,
            }
        } else {
            tracking
        },
        InstructionModel::Mov(target, _) => if target == Writable::Register(Register::Rsp) {
            moved(tracking, -frame - tracking.depth)
        } else {
            tracking
        },
        InstructionModel::Call(_) => Tracking {
            reachable: tracking.reachable,
            depth: tracking.depth,
            pending: tracking.pending,
            aligned: tracking.aligned && tracking.depth % 16 == 0,
        },
        InstructionModel::Je(label) => jumped(tracking, label),
        InstructionModel::Jmp(label) => ended(jumped(tracking, label)),
        InstructionModel::Ret => ended(tracking),
        _ => tracking,
    }
}

/// What is known behind a line.
///
/// A push or a pop moves the stack by 8 bytes, and an addition to the stack
/// pointer or a subtraction from it by its operand. Moving the frame base
/// into the stack pointer gives the frame up. A call has to find a multiple
/// of 16 bytes pushed. A jump notes the depth for its label; control does
/// not pass an unconditional jump or a return. At a label control arrives
/// from the jumps to it, with the depth noted there, and from the line
/// before, if control passes that.
pub open spec fn step(tracking: Tracking, line: LineModel, frame: int) -> Tracking {
    match line {
        LineModel::Label(name) => if tracking.pending.contains_key(name) {
            Tracking {
                reachable: true,
                depth: tracking.pending[name],
                pending: tracking.pending.remove(name),
                aligned: tracking.aligned && (tracking.reachable ==> tracking.depth
                    == tracking.pending[name]),
            }
        } else {
            tracking
        },
        LineModel::Instruction(instruction) => if tracking.reachable {
            executed(tracking, instruction, frame)
        } else {
            tracking
        },
    }
}

/// What is known behind a sequence of lines.
pub open spec fn scan(lines: Seq<LineModel>, frame: int, tracking: Tracking) -> Tracking
    decreases lines.len(),
{
    if lines.len() == 0 {
        tracking
    } else {
        step(scan(lines.drop_last(), frame, tracking), lines.last(), frame)
    }
}

proof fn lemma_scan_push(lines: Seq<LineModel>, line: LineModel, frame: int, tracking: Tracking)
    ensures
        scan(lines.push(line), frame, tracking) == step(scan(lines, frame, tracking), line, frame),
{
    assert(lines.push(line).drop_last() =~= lines);
}

/// Scanning lines put one after another is scanning the first and then,
/// from what is known behind them, the second.
pub proof fn lemma_scan_concat(a: Seq<LineModel>, b: Seq<LineModel>, frame: int, tracking: Tracking)
    ensures
        scan(a + b, frame, tracking) == scan(b, frame, scan(a, frame, tracking)),
    decreases b.len(),
{
    if b.len() == 0 {
        assert(a + b =~= a);
    } else {
        assert((a + b).drop_last() =~= a + b.drop_last());
        lemma_scan_concat(a, b.drop_last(), frame, tracking);
    }
}

/// Lines that only push and pop move the stack and change nothing else.
pub open spec fn shifts(lines: Seq<LineModel>, delta: int) -> bool {
    forall|frame: int, tracking: Tracking|
        #[trigger] scan(lines, frame, tracking) == if tracking.reachable {
            moved(tracking, delta)
        } else {
            tracking
        }
}

/// Scanning one line is one step.
pub proof fn lemma_scan_1(a: LineModel, frame: int, t: Tracking)
    ensures
        scan(seq![a], frame, t) == step(t, a, frame),
{
    lemma_scan_push(Seq::empty(), a, frame, t);
}

proof fn lemma_scan_2(a: LineModel, b: LineModel, frame: int, t: Tracking)
    ensures
        scan(seq![a, b], frame, t) == step(step(t, a, frame), b, frame),
{
    lemma_scan_1(a, frame, t);
    lemma_scan_push(seq![a], b, frame, t);
    assert(seq![a, b] =~= seq![a].push(b));
}

proof fn lemma_scan_3(a: LineModel, b: LineModel, c: LineModel, frame: int, t: Tracking)
    ensures
        scan(seq![a, b, c], frame, t) == step(step(step(t, a, frame), b, frame), c, frame),
{
    lemma_scan_2(a, b, frame, t);
    lemma_scan_push(seq![a, b], c, frame, t);
    assert(seq![a, b, c] =~= seq![a, b].push(c));
}

proof fn lemma_scan_4(
    a: LineModel,
    b: LineModel,
    c: LineModel,
    d: LineModel,
    frame: int,
    t: Tracking,
)
    ensures
        scan(seq![a, b, c, d], frame, t) == step(
            step(step(step(t, a, frame), b, frame), c, frame),
            d,
            frame,
        ),
{
    lemma_scan_3(a, b, c, frame, t);
    lemma_scan_push(seq![a, b, c], d, frame, t);
    assert(seq![a, b, c, d] =~= seq![a, b, c].push(d));
}

proof fn lemma_scan_5(
    a: LineModel,
    b: LineModel,
    c: LineModel,
    d: LineModel,
    e: LineModel,
    frame: int,
    t: Tracking,
)
    ensures
        scan(seq![a, b, c, d, e], frame, t) == step(
            step(step(step(step(t, a, frame), b, frame), c, frame), d, frame),
            e,
            frame,
        ),
{
    lemma_scan_4(a, b, c, d, frame, t);
    lemma_scan_push(seq![a, b, c, d], e, frame, t);
    assert(seq![a, b, c, d, e] =~= seq![a, b, c, d].push(e));
}

proof fn lemma_scan_6(
    a: LineModel,
    b: LineModel,
    c: LineModel,
    d: LineModel,
    e: LineModel,
    g: LineModel,
    frame: int,
    t: Tracking,
)
    ensures
        scan(seq![a, b, c, d, e, g], frame, t) == step(
            step(step(step(step(step(t, a, frame), b, frame), c, frame), d, frame), e, frame),
            g,
            frame,
        ),
{
    lemma_scan_5(a, b, c, d, e, frame, t);
    lemma_scan_push(seq![a, b, c, d, e], g, frame, t);
    assert(seq![a, b, c, d, e, g] =~= seq![a, b, c, d, e].push(g));
}

/// The lines that negate the top of the stack leave the stack as deep as
/// it was.
pub proof fn lemma_negate_shifts()
    ensures
        shifts(negate_lines(), 0),
{
    let l = negate_lines();
    assert forall|frame: int, t: Tracking|
        #[trigger] scan(l, frame, t) == if t.reachable {
            moved(t, 0)
        } else {
            t
        } by {
        lemma_scan_4(l[0], l[1], l[2], l[3], frame, t);
        assert(l =~= seq![l[0], l[1], l[2], l[3]]);
    }
}

/// The lines of a product or quotient take two values and give one.
pub proof fn lemma_multiply_shifts(operator: crate::token::Operator)
    ensures
        shifts(multiply_lines(operator), -8),
{
    let l = multiply_lines(operator);
    assert forall|frame: int, t: Tracking|
        #[trigger] scan(l, frame, t) == if t.reachable {
            moved(t, -8)
        } else {
            t
        } by {
        if operator == crate::token::Operator::Mul {
            lemma_scan_4(l[0], l[1], l[2], l[3], frame, t);
            assert(l =~= seq![l[0], l[1], l[2], l[3]]);
        } else {
            lemma_scan_5(l[0], l[1], l[2], l[3], l[4], frame, t);
            assert(l =~= seq![l[0], l[1], l[2], l[3], l[4]]);
        }
    }
}

/// The lines of a sum or difference take two values and give one.
pub proof fn lemma_add_shifts(operator: crate::token::Operator)
    ensures
        shifts(add_lines(operator), -8),
{
    let l = add_lines(operator);
    assert forall|frame: int, t: Tracking|
        #[trigger] scan(l, frame, t) == if t.reachable {
            moved(t, -8)
        } else {
            t
        } by {
        lemma_scan_4(l[0], l[1], l[2], l[3], frame, t);
        assert(l =~= seq![l[0], l[1], l[2], l[3]]);
    }
}

/// The lines of a comparison by size take two values and give one.
pub proof fn lemma_relational_shifts(operator: crate::token::Operator)
    ensures
        shifts(relational_lines(operator), -8),
{
    let l = relational_lines(operator);
    assert forall|frame: int, t: Tracking|
        #[trigger] scan(l, frame, t) == if t.reachable {
            moved(t, -8)
        } else {
            t
        } by {
        lemma_scan_6(l[0], l[1], l[2], l[3], l[4], l[5], frame, t);
        assert(l =~= seq![l[0], l[1], l[2], l[3], l[4], l[5]]);
    }
}

/// The lines of a comparison for equality take two values and give one.
pub proof fn lemma_equality_shifts(operator: crate::token::Operator)
    ensures
        shifts(equality_lines(operator), -8),
{
    let l = equality_lines(operator);
    assert forall|frame: int, t: Tracking|
        #[trigger] scan(l, frame, t) == if t.reachable {
            moved(t, -8)
        } else {
            t
        } by {
        lemma_scan_6(l[0], l[1], l[2], l[3], l[4], l[5], frame, t);
        assert(l =~= seq![l[0], l[1], l[2], l[3], l[4], l[5]]);
    }
}

/// The lines that load a variable push one value.
pub proof fn lemma_load_shifts(offset: PointerOffset)
    ensures
        shifts(load_lines(offset), 8),
{
    let l = load_lines(offset);
    assert forall|frame: int, t: Tracking|
        #[trigger] scan(l, frame, t) == if t.reachable {
            moved(t, 8)
        } else {
            t
        } by {
        lemma_scan_4(l[0], l[1], l[2], l[3], frame, t);
        assert(l =~= seq![l[0], l[1], l[2], l[3]]);
    }
}

/// The lines that store into a variable pop one value.
pub proof fn lemma_store_shifts(offset: PointerOffset)
    ensures
        shifts(store_lines(offset), -8),
{
    let l = store_lines(offset);
    assert forall|frame: int, t: Tracking|
        #[trigger] scan(l, frame, t) == if t.reachable {
            moved(t, -8)
        } else {
            t
        } by {
        lemma_scan_4(l[0], l[1], l[2], l[3], frame, t);
        assert(l =~= seq![l[0], l[1], l[2], l[3]]);
    }
}

/// The lines that pop `count` arguments pop `count` values.
pub proof fn lemma_pop_arguments_shift(count: int)
    requires
        0 <= count <= 6,
    ensures
        shifts(pop_argument_lines(count), -8 * count),
    decreases count,
{
    let l = pop_argument_lines(count);
    if count == 0 {
        assert forall|frame: int, t: Tracking|
            #[trigger] scan(l, frame, t) == if t.reachable {
                moved(t, 0)
            } else {
                t
            } by {}
    } else {
        lemma_pop_arguments_shift(count - 1);
        let rest = pop_argument_lines(count - 1);
        assert forall|frame: int, t: Tracking|
            #[trigger] scan(l, frame, t) == if t.reachable {
                moved(t, -8 * count)
            } else {
                t
            } by {
            lemma_scan_concat(seq![l[0]], rest, frame, t);
            lemma_scan_1(l[0], frame, t);
            assert(l =~= seq![l[0]] + rest);
            let middle = scan(seq![l[0]], frame, t);
            assert(scan(rest, frame, middle) == if middle.reachable {
                moved(middle, -8 * (count - 1))
            } else {
                middle
            });
        }
    }
}

/// Behind the lines of a return control does not go on.
pub proof fn lemma_return_ends(frame: int, t: Tracking)
    ensures
        !scan(return_lines(), frame, t).reachable,
        scan(return_lines(), frame, t).pending == t.pending,
        scan(return_lines(), frame, t).aligned == t.aligned,
{
    let l = return_lines();
    lemma_scan_4(l[0], l[1], l[2], l[3], frame, t);
    assert(l =~= seq![l[0], l[1], l[2], l[3]]);
}

/// The padding brings the number of bytes pushed to a multiple of 16.
pub proof fn lemma_padding_aligns(stack_depth: i64)
    ensures
        0 <= padding(stack_depth) < 16,
        (stack_depth + padding(stack_depth)) % 16 == 0,
{
}

/// Behind the lines of a call that is made with the padding for the depth
/// of the stack, one value more is pushed, and the call is aligned.
pub proof fn lemma_call_aligned(symbol: Seq<char>, frame: int, t: Tracking, stack_depth: i64)
    requires
        t.reachable ==> t.depth == stack_depth,
    ensures
        scan(call_lines(symbol, padding(stack_depth)), frame, t) == if t.reachable {
            moved(t, 8)
        } else {
            t
        },
{
    let l = call_lines(symbol, padding(stack_depth));
    lemma_padding_aligns(stack_depth);
    lemma_scan_4(l[0], l[1], l[2], l[3], frame, t);
    assert(l =~= seq![l[0], l[1], l[2], l[3]]);
}

/// Behind the lines that test the condition of a conditional, the value is
/// popped and the depth is noted for the else label.
pub proof fn lemma_branch(else_label: Seq<char>, frame: int, t: Tracking)
    ensures
        scan(branch_lines(else_label), frame, t) == if t.reachable {
            jumped(moved(t, -8), else_label)
        } else {
            t
        },
{
    let l = branch_lines(else_label);
    lemma_scan_3(l[0], l[1], l[2], frame, t);
    assert(l =~= seq![l[0], l[1], l[2]]);
}

/// Between the branches of a conditional, the depth is noted for the end
/// label, and control goes on from the jump to the else label.
pub proof fn lemma_middle(else_label: Seq<char>, end_label: Seq<char>, frame: int, t: Tracking)
    ensures
        scan(middle_lines(else_label, end_label), frame, t) == step(
            if t.reachable {
                ended(jumped(t, end_label))
            } else {
                t
            },
            LineModel::Label(else_label),
            frame,
        ),
{
    let l = middle_lines(else_label, end_label);
    lemma_scan_2(l[0], l[1], frame, t);
    assert(l =~= seq![l[0], l[1]]);
}

/// Different digits have different characters.
proof fn lemma_digit_chars_differ(a: int, b: int)
    requires
        0 <= a < 10,
        0 <= b < 10,
        digit_char(a) == digit_char(b),
    ensures
        a == b,
{
}

/// Two numbers with the same digits are the same number.
pub proof fn lemma_digits_injective(a: nat, b: nat)
    requires
        digits(a) == digits(b),
    ensures
        a == b,
    decreases a,
{
    lemma_digits_length(a);
    lemma_digits_length(b);
    if a < 10 || b < 10 {
        assert(a < 10 && b < 10);
        assert(digits(a)[0] == digit_char(a as int));
        assert(digits(b)[0] == digit_char(b as int));
        lemma_digit_chars_differ(a as int, b as int);
    } else {
        let x = digits(a / 10);
        let y = digits(b / 10);
        assert(digits(a) == x.push(digit_char((a % 10) as int)));
        assert(digits(b) == y.push(digit_char((b % 10) as int)));
        assert(digits(a).last() == digit_char((a % 10) as int));
        assert(digits(b).last() == digit_char((b % 10) as int));
        lemma_digit_chars_differ((a % 10) as int, (b % 10) as int);
        assert(digits(a).drop_last() =~= x);
        assert(digits(b).drop_last() =~= y);
        lemma_digits_injective(a / 10, b / 10);
    }
}

proof fn lemma_digits_length(n: nat)
    ensures
        digits(n).len() >= 1,
        n >= 10 ==> digits(n).len() >= 2,
    decreases n,
{
    if n >= 10 {
        lemma_digits_length(n / 10);
    }
}

/// Labels with different numbers have different names.
pub proof fn lemma_labels_differ(a: u64, b: u64)
    requires
        a != b,
    ensures
        local_label(a) != local_label(b),
{
    if local_label(a) == local_label(b) {
        let x = decimal(a as int);
        let y = decimal(b as int);
        assert(local_label(a).subrange(2, local_label(a).len() as int) =~= x);
        assert(local_label(b).subrange(2, local_label(b).len() as int) =~= y);
        lemma_digits_injective(a as nat, b as nat);
    }
}

} // verus!
