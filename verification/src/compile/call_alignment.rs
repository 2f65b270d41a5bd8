use vstd::prelude::*;
use crate::compile::alignment::{
    at_entry, lemma_add_shifts, lemma_branch, lemma_call_aligned, lemma_equality_shifts,
    lemma_labels_differ, lemma_load_shifts, lemma_middle, lemma_multiply_shifts,
    lemma_negate_shifts, lemma_pop_arguments_shift, lemma_relational_shifts, lemma_return_ends,
    lemma_scan_1, lemma_scan_concat, lemma_store_shifts, moved, scan, Tracking,
};
use crate::compile::assembly::{argument_registers, InstructionModel, LineModel, Readable};
use crate::compile::codegen::{
    add_lines, body_state, branch_lines, call_lines, equality_lines, func_label, gen_add,
    gen_add_tail, gen_arguments, gen_block, gen_body, gen_equality, gen_equality_tail,
    gen_expression, gen_fn_call, gen_if, gen_multiply, gen_multiply_tail, gen_parameters,
    gen_primary, gen_relational, gen_relational_tail, gen_statement, gen_statements, gen_unary,
    labelled, local_label, middle_lines, multiply_lines, negate_lines, padding,
    pop_argument_lines, popped, push_register, pushed, relational_lines, return_lines,
    with_scope, CompileState, Generated,
};
use crate::compile::scope::{instruction, load_lines, store_lines, ScopeModel};
use crate::parse::binary_operation::BinaryOperation;
use crate::parse::grammar::{
    AddModel, BlockModel, EqualityModel, ExpressionModel, FnCallModel, FuncModel, IfModel,
    MultiplyModel, PrimaryModel, RelationalModel, StatementModel, UnaryModel,
};
use crate::sourcecode::Span;

verus! {

/// The compiler's count of the bytes pushed is the number of bytes that the
/// lines read so far have pushed, wherever control can be; every call so
/// far was aligned; and no label that the compiler has still to give out
/// is awaited.
pub open spec fn tracks(tracking: Tracking, state: CompileState) -> bool {
    &&& tracking.aligned
    &&& tracking.reachable ==> tracking.depth == state.stack_depth
    &&& forall|k: u64|
        k >= state.next_label ==> !tracking.pending.contains_key(#[trigger] local_label(k))
}

/// What holds behind the code of a piece of the tree, where the count
/// agreed with the lines before it: the count agrees behind it too and is
/// `delta` bytes larger, the same labels are awaited, and lines that control
/// could not reach have given no way to reach the end.
pub open spec fn keeps_track(
    before: Tracking,
    state: CompileState,
    generated: Generated,
    frame: int,
    delta: int,
) -> bool {
    generated matches Ok(done) ==> {
        let after = scan(done.0, frame, before);
        &&& tracks(after, done.1)
        &&& after.pending == before.pending
        &&& done.1.next_label >= state.next_label
        &&& done.1.stack_depth == state.stack_depth + delta
        &&& !before.reachable ==> !after.reachable
    }
}

proof fn lemma_scan_empty(frame: int, t: Tracking)
    ensures
        scan(Seq::<LineModel>::empty(), frame, t) == t,
{
}

/// The count follows the code of a primary term.
proof fn lemma_primary(primary: PrimaryModel, state: CompileState, t: Tracking, frame: int)
    requires
        tracks(t, state),
    ensures
        keeps_track(t, state, gen_primary(primary, state), frame, 8),
    decreases primary, 0int,
{
    match primary {
        PrimaryModel::Integer(number) => {
            if pushed(state) is Some {
                let line = instruction(InstructionModel::Push(Readable::Literal(number.value)));
                lemma_scan_1(line, frame, t);
            }
        },
        PrimaryModel::Identifier(name) => {
            match state.scope.lookup(name.value) {
                Some(offset) => {
                    lemma_load_shifts(offset);
                    assert(scan(load_lines(offset), frame, t) == if t.reachable {
                        moved(t, 8)
                    } else {
                        t
                    });
                },
                None => {},
            }
        },
        PrimaryModel::Expression(expression) => {
            lemma_expression(*expression, state, t, frame);
        },
        PrimaryModel::FnCall(call) => {
            lemma_fn_call(call, state, t, frame);
        },
    }
}

/// The count follows the code of a call, and the call is aligned.
proof fn lemma_fn_call(call: FnCallModel, state: CompileState, t: Tracking, frame: int)
    requires
        tracks(t, state),
    ensures
        keeps_track(t, state, gen_fn_call(call, state), frame, 8),
    decreases call, 1int,
{
    if call.args.len() <= 6 {
        lemma_arguments(call.args, 0, state, t, frame);
        match gen_arguments(call.args, 0, state) {
            Ok((arguments, evaluated)) => {
                let count = call.args.len() as int;
                let before = popped(evaluated, count);
                if pushed(before) is Some {
                    let t1 = scan(arguments, frame, t);
                    let pops = pop_argument_lines(count);
                    let calls = call_lines(
                        func_label(state.prefix, call.func.value),
                        padding(before.stack_depth),
                    );
                    lemma_pop_arguments_shift(count);
                    let t2 = scan(pops, frame, t1);
                    assert(t2 == if t1.reachable {
                        moved(t1, -8 * count)
                    } else {
                        t1
                    });
                    lemma_call_aligned(
                        func_label(state.prefix, call.func.value),
                        frame,
                        t2,
                        before.stack_depth,
                    );
                    lemma_scan_concat(arguments, pops, frame, t);
                    lemma_scan_concat(arguments + pops, calls, frame, t);
                }
            },
            Err(_) => {},
        }
    }
}

/// The count follows the code of the arguments of a call.
proof fn lemma_arguments(
    arguments: Seq<ExpressionModel>,
    from: int,
    state: CompileState,
    t: Tracking,
    frame: int,
)
    requires
        tracks(t, state),
        0 <= from <= arguments.len(),
    ensures
        keeps_track(
            t,
            state,
            gen_arguments(arguments, from, state),
            frame,
            8 * (arguments.len() - from),
        ),
    decreases arguments, arguments.len() - from,
{
    if from < arguments.len() {
        lemma_expression(arguments[from], state, t, frame);
        match gen_expression(arguments[from], state) {
            Ok((first, next)) => {
                let t1 = scan(first, frame, t);
                lemma_arguments(arguments, from + 1, next, t1, frame);
                match gen_arguments(arguments, from + 1, next) {
                    Ok((rest, last)) => {
                        lemma_scan_concat(first, rest, frame, t);
                    },
                    Err(_) => {},
                }
            },
            Err(_) => {},
        }
    } else {
        lemma_scan_empty(frame, t);
    }
}

/// The count follows the code of a term with its sign.
proof fn lemma_unary(unary: UnaryModel, state: CompileState, t: Tracking, frame: int)
    requires
        tracks(t, state),
    ensures
        keeps_track(t, state, gen_unary(unary, state), frame, 8),
    decreases unary, 0int,
{
    match unary {
        UnaryModel::Positive(operand, _) => {
            lemma_primary(operand, state, t, frame);
        },
        UnaryModel::Negative(operand, _) => {
            lemma_primary(operand, state, t, frame);
            match gen_primary(operand, state) {
                Ok((lines, after)) => {
                    let t1 = scan(lines, frame, t);
                    lemma_negate_shifts();
                    assert(scan(negate_lines(), frame, t1) == if t1.reachable {
                        moved(t1, 0)
                    } else {
                        t1
                    });
                    lemma_scan_concat(lines, negate_lines(), frame, t);
                },
                Err(_) => {},
            }
        },
    }
}

/// The count follows the code of a chain.
proof fn lemma_multiply(chain: MultiplyModel, state: CompileState, t: Tracking, frame: int)
    requires
        tracks(t, state),
    ensures
        keeps_track(t, state, gen_multiply(chain, state), frame, 8),
    decreases chain, 1int,
{
    let head = match chain {
        BinaryOperation::Single(element) => element,
        BinaryOperation::Binary { operator, left, right } => left,
    };
    lemma_unary(head, state, t, frame);
    match gen_unary(head, state) {
        Ok((first, next)) => {
            let t1 = scan(first, frame, t);
            lemma_multiply_tail(chain, next, t1, frame);
            match gen_multiply_tail(chain, next) {
                Ok((rest, last)) => {
                    lemma_scan_concat(first, rest, frame, t);
                },
                Err(_) => {},
            }
        },
        Err(_) => {},
    }
}

/// The count follows what follows the first element of a chain.
proof fn lemma_multiply_tail(chain: MultiplyModel, state: CompileState, t: Tracking, frame: int)
    requires
        tracks(t, state),
    ensures
        keeps_track(t, state, gen_multiply_tail(chain, state), frame, 0),
    decreases chain, 0int,
{
    match chain {
        BinaryOperation::Single(_) => {
            lemma_scan_empty(frame, t);
        },
        BinaryOperation::Binary { operator, left, right } => {
            let element = match *right {
                BinaryOperation::Single(element) => element,
                BinaryOperation::Binary { operator, left, right } => left,
            };
            lemma_unary(element, state, t, frame);
            match gen_unary(element, state) {
                Ok((lines, next)) => {
                    let t1 = scan(lines, frame, t);
                    let joined = multiply_lines(operator.value);
                    lemma_multiply_shifts(operator.value);
                    let t2 = scan(joined, frame, t1);
                    assert(t2 == if t1.reachable {
                        moved(t1, -8)
                    } else {
                        t1
                    });
                    assert(tracks(t2, popped(next, 1)));
                    lemma_multiply_tail(*right, popped(next, 1), t2, frame);
                    match gen_multiply_tail(*right, popped(next, 1)) {
                        Ok((rest, last)) => {
                            lemma_scan_concat(lines, joined, frame, t);
                            lemma_scan_concat(lines + joined, rest, frame, t);
                        },
                        Err(_) => {},
                    }
                },
                Err(_) => {},
            }
        },
    }
}

/// The count follows the code of a chain.
proof fn lemma_add(chain: AddModel, state: CompileState, t: Tracking, frame: int)
    requires
        tracks(t, state),
    ensures
        keeps_track(t, state, gen_add(chain, state), frame, 8),
    decreases chain, 1int,
{
    let head = match chain {
        BinaryOperation::Single(element) => element,
        BinaryOperation::Binary { operator, left, right } => left,
    };
    lemma_multiply(head, state, t, frame);
    match gen_multiply(head, state) {
        Ok((first, next)) => {
            let t1 = scan(first, frame, t);
            lemma_add_tail(chain, next, t1, frame);
            match gen_add_tail(chain, next) {
                Ok((rest, last)) => {
                    lemma_scan_concat(first, rest, frame, t);
                },
                Err(_) => {},
            }
        },
        Err(_) => {},
    }
}

/// The count follows what follows the first element of a chain.
proof fn lemma_add_tail(chain: AddModel, state: CompileState, t: Tracking, frame: int)
    requires
        tracks(t, state),
    ensures
        keeps_track(t, state, gen_add_tail(chain, state), frame, 0),
    decreases chain, 0int,
{
    match chain {
        BinaryOperation::Single(_) => {
            lemma_scan_empty(frame, t);
        },
        BinaryOperation::Binary { operator, left, right } => {
            let element = match *right {
                BinaryOperation::Single(element) => element,
                BinaryOperation::Binary { operator, left, right } => left,
            };
            lemma_multiply(element, state, t, frame);
            match gen_multiply(element, state) {
                Ok((lines, next)) => {
                    let t1 = scan(lines, frame, t);
                    let joined = add_lines(operator.value);
                    lemma_add_shifts(operator.value);
                    let t2 = scan(joined, frame, t1);
                    assert(t2 == if t1.reachable {
                        moved(t1, -8)
                    } else {
                        t1
                    });
                    assert(tracks(t2, popped(next, 1)));
                    lemma_add_tail(*right, popped(next, 1), t2, frame);
                    match gen_add_tail(*right, popped(next, 1)) {
                        Ok((rest, last)) => {
                            lemma_scan_concat(lines, joined, frame, t);
                            lemma_scan_concat(lines + joined, rest, frame, t);
                        },
                        Err(_) => {},
                    }
                },
                Err(_) => {},
            }
        },
    }
}

/// The count follows the code of a chain.
proof fn lemma_relational(chain: RelationalModel, state: CompileState, t: Tracking, frame: int)
    requires
        tracks(t, state),
    ensures
        keeps_track(t, state, gen_relational(chain, state), frame, 8),
    decreases chain, 1int,
{
    let head = match chain {
        BinaryOperation::Single(element) => element,
        BinaryOperation::Binary { operator, left, right } => left,
    };
    lemma_add(head, state, t, frame);
    match gen_add(head, state) {
        Ok((first, next)) => {
            let t1 = scan(first, frame, t);
            lemma_relational_tail(chain, next, t1, frame);
            match gen_relational_tail(chain, next) {
                Ok((rest, last)) => {
                    lemma_scan_concat(first, rest, frame, t);
                },
                Err(_) => {},
            }
        },
        Err(_) => {},
    }
}

/// The count follows what follows the first element of a chain.
proof fn lemma_relational_tail(chain: RelationalModel, state: CompileState, t: Tracking, frame: int)
    requires
        tracks(t, state),
    ensures
        keeps_track(t, state, gen_relational_tail(chain, state), frame, 0),
    decreases chain, 0int,
{
    match chain {
        BinaryOperation::Single(_) => {
            lemma_scan_empty(frame, t);
        },
        BinaryOperation::Binary { operator, left, right } => {
            let element = match *right {
                BinaryOperation::Single(element) => element,
                BinaryOperation::Binary { operator, left, right } => left,
            };
            lemma_add(element, state, t, frame);
            match gen_add(element, state) {
                Ok((lines, next)) => {
                    let t1 = scan(lines, frame, t);
                    let joined = relational_lines(operator.value);
                    lemma_relational_shifts(operator.value);
                    let t2 = scan(joined, frame, t1);
                    assert(t2 == if t1.reachable {
                        moved(t1, -8)
                    } else {
                        t1
                    });
                    assert(tracks(t2, popped(next, 1)));
                    lemma_relational_tail(*right, popped(next, 1), t2, frame);
                    match gen_relational_tail(*right, popped(next, 1)) {
                        Ok((rest, last)) => {
                            lemma_scan_concat(lines, joined, frame, t);
                            lemma_scan_concat(lines + joined, rest, frame, t);
                        },
                        Err(_) => {},
                    }
                },
                Err(_) => {},
            }
        },
    }
}

/// The count follows the code of a chain.
proof fn lemma_equality(chain: EqualityModel, state: CompileState, t: Tracking, frame: int)
    requires
        tracks(t, state),
    ensures
        keeps_track(t, state, gen_equality(chain, state), frame, 8),
    decreases chain, 1int,
{
    let head = match chain {
        BinaryOperation::Single(element) => element,
        BinaryOperation::Binary { operator, left, right } => left,
    };
    lemma_relational(head, state, t, frame);
    match gen_relational(head, state) {
        Ok((first, next)) => {
            let t1 = scan(first, frame, t);
            lemma_equality_tail(chain, next, t1, frame);
            match gen_equality_tail(chain, next) {
                Ok((rest, last)) => {
                    lemma_scan_concat(first, rest, frame, t);
                },
                Err(_) => {},
            }
        },
        Err(_) => {},
    }
}

/// The count follows what follows the first element of a chain.
proof fn lemma_equality_tail(chain: EqualityModel, state: CompileState, t: Tracking, frame: int)
    requires
        tracks(t, state),
    ensures
        keeps_track(t, state, gen_equality_tail(chain, state), frame, 0),
    decreases chain, 0int,
{
    match chain {
        BinaryOperation::Single(_) => {
            lemma_scan_empty(frame, t);
        },
        BinaryOperation::Binary { operator, left, right } => {
            let element = match *right {
                BinaryOperation::Single(element) => element,
                BinaryOperation::Binary { operator, left, right } => left,
            };
            lemma_relational(element, state, t, frame);
            match gen_relational(element, state) {
                Ok((lines, next)) => {
                    let t1 = scan(lines, frame, t);
                    let joined = equality_lines(operator.value);
                    lemma_equality_shifts(operator.value);
                    let t2 = scan(joined, frame, t1);
                    assert(t2 == if t1.reachable {
                        moved(t1, -8)
                    } else {
                        t1
                    });
                    assert(tracks(t2, popped(next, 1)));
                    lemma_equality_tail(*right, popped(next, 1), t2, frame);
                    match gen_equality_tail(*right, popped(next, 1)) {
                        Ok((rest, last)) => {
                            lemma_scan_concat(lines, joined, frame, t);
                            lemma_scan_concat(lines + joined, rest, frame, t);
                        },
                        Err(_) => {},
                    }
                },
                Err(_) => {},
            }
        },
    }
}

/// The count follows the code of an expression.
proof fn lemma_expression(
    expression: ExpressionModel,
    state: CompileState,
    t: Tracking,
    frame: int,
)
    requires
        tracks(t, state),
    ensures
        keeps_track(t, state, gen_expression(expression, state), frame, 8),
    decreases expression, 2int,
{
    match expression {
        ExpressionModel::PureExpression(equality) => {
            lemma_equality(equality, state, t, frame);
        },
        ExpressionModel::IfExpression(branch) => {
            lemma_if(branch, state, t, frame);
        },
        ExpressionModel::BlockExpression(block) => {
            lemma_block(block, state, t, frame);
        },
    }
}

/// The count follows the code of a conditional: both branches start and end
/// at the same depth, and both labels are reached at one depth.
proof fn lemma_if(branch: IfModel, state: CompileState, t: Tracking, frame: int)
    requires
        tracks(t, state),
    ensures
        keeps_track(t, state, gen_if(branch, state), frame, 8),
    decreases branch, 1int,
{
    if state.next_label + 2 <= u64::MAX {
        let n = state.next_label;
        let else_label = local_label(n);
        let end_label = local_label((n + 1) as u64);
        lemma_labels_differ(n, (n + 1) as u64);
        assert forall|k: u64| k >= n + 2 implies local_label(k) != else_label && local_label(k)
            != end_label by {
            lemma_labels_differ(k, n);
            lemma_labels_differ(k, (n + 1) as u64);
        }
        assert(!t.pending.contains_key(else_label));
        assert(!t.pending.contains_key(end_label));
        lemma_expression(*branch.condition, labelled(state), t, frame);
        match gen_expression(*branch.condition, labelled(state)) {
            Ok((condition, tested)) => {
                let t1 = scan(condition, frame, t);
                let test = branch_lines(else_label);
                lemma_branch(else_label, frame, t1);
                let t2 = scan(test, frame, t1);
                assert(tracks(t2, popped(tested, 1)));
                lemma_expression(*branch.then_, popped(tested, 1), t2, frame);
                match gen_expression(*branch.then_, popped(tested, 1)) {
                    Ok((then_, first)) => {
                        let t3 = scan(then_, frame, t2);
                        let between = middle_lines(else_label, end_label);
                        lemma_middle(else_label, end_label, frame, t3);
                        let t4 = scan(between, frame, t3);
                        assert(tracks(t4, popped(first, 1)));
                        lemma_expression(*branch.else_, popped(first, 1), t4, frame);
                        match gen_expression(*branch.else_, popped(first, 1)) {
                            Ok((else_, second)) => {
                                let t5 = scan(else_, frame, t4);
                                let last = seq![LineModel::Label(end_label)];
                                lemma_scan_1(LineModel::Label(end_label), frame, t5);
                                let t6 = scan(last, frame, t5);
                                assert(t6.pending =~= t.pending);
                                lemma_scan_concat(condition, test, frame, t);
                                lemma_scan_concat(condition + test, then_, frame, t);
                                lemma_scan_concat(condition + test + then_, between, frame, t);
                                lemma_scan_concat(
                                    condition + test + then_ + between,
                                    else_,
                                    frame,
                                    t,
                                );
                                lemma_scan_concat(
                                    condition + test + then_ + between + else_,
                                    last,
                                    frame,
                                    t,
                                );
                            },
                            Err(_) => {},
                        }
                    },
                    Err(_) => {},
                }
            },
            Err(_) => {},
        }
    }
}

/// The count follows the code of a block.
proof fn lemma_block(block: BlockModel, state: CompileState, t: Tracking, frame: int)
    requires
        tracks(t, state),
    ensures
        keeps_track(t, state, gen_block(block, state), frame, 8),
    decreases block, 1int,
{
    if state.scope.can_nest() {
        let inside = with_scope(state, state.scope.into_block());
        lemma_statements(block.statements, 0, inside, t, frame);
        match gen_statements(block.statements, 0, inside) {
            Ok((statements, next)) => {
                let t1 = scan(statements, frame, t);
                lemma_expression(*block.outcome, next, t1, frame);
                match gen_expression(*block.outcome, next) {
                    Ok((outcome, last)) => {
                        lemma_scan_concat(statements, outcome, frame, t);
                    },
                    Err(_) => {},
                }
            },
            Err(_) => {},
        }
    }
}

/// The count follows the code of the statements of a block.
proof fn lemma_statements(
    statements: Seq<StatementModel>,
    from: int,
    state: CompileState,
    t: Tracking,
    frame: int,
)
    requires
        tracks(t, state),
    ensures
        keeps_track(t, state, gen_statements(statements, from, state), frame, 0),
    decreases statements, statements.len() - from,
{
    if 0 <= from < statements.len() {
        lemma_statement(statements[from], state, t, frame);
        match gen_statement(statements[from], state) {
            Ok((first, next)) => {
                let t1 = scan(first, frame, t);
                lemma_statements(statements, from + 1, next, t1, frame);
                match gen_statements(statements, from + 1, next) {
                    Ok((rest, last)) => {
                        lemma_scan_concat(first, rest, frame, t);
                    },
                    Err(_) => {},
                }
            },
            Err(_) => {},
        }
    } else {
        lemma_scan_empty(frame, t);
    }
}

/// The count follows the code of a statement; behind a return control does
/// not go on.
proof fn lemma_statement(
    statement: StatementModel,
    state: CompileState,
    t: Tracking,
    frame: int,
)
    requires
        tracks(t, state),
    ensures
        keeps_track(t, state, gen_statement(statement, state), frame, 0),
    decreases statement, 3int,
{
    match statement {
        StatementModel::Assignment { identifier, content, let_span } => {
            lemma_expression(content, state, t, frame);
            match gen_expression(content, state) {
                Ok((value, next)) => {
                    if next.scope.can_grow() && !next.scope.declares(identifier.value) {
                        let scope = next.scope.declare(identifier.value);
                        let t1 = scan(value, frame, t);
                        lemma_store_shifts(scope.next);
                        assert(scan(store_lines(scope.next), frame, t1) == if t1.reachable {
                            moved(t1, -8)
                        } else {
                            t1
                        });
                        lemma_scan_concat(value, store_lines(scope.next), frame, t);
                    }
                },
                Err(_) => {},
            }
        },
        StatementModel::Return { return_span, content } => {
            lemma_expression(content, state, t, frame);
            match gen_expression(content, state) {
                Ok((value, next)) => {
                    let t1 = scan(value, frame, t);
                    lemma_return_ends(frame, t1);
                    lemma_scan_concat(value, return_lines(), frame, t);
                },
                Err(_) => {},
            }
        },
    }
}

/// The lines that move the arguments into their slots leave the stack as
/// deep as it was.
proof fn lemma_parameters(
    names: Seq<Seq<char>>,
    from: int,
    scope: ScopeModel,
    span: Span,
    frame: int,
    t: Tracking,
)
    ensures
        gen_parameters(names, from, scope, span) matches Ok(done) ==> scan(done.0, frame, t) == t,
    decreases names.len() - from,
{
    if 0 <= from < names.len() && from < 6 && scope.can_grow() && !scope.declares(names[from]) {
        let declared = scope.declare(names[from]);
        lemma_parameters(names, from + 1, declared, span, frame, t);
        match gen_parameters(names, from + 1, declared, span) {
            Ok((rest, last)) => {
                let first = seq![push_register(argument_registers()[from])];
                let store = store_lines(declared.next);
                lemma_scan_1(push_register(argument_registers()[from]), frame, t);
                let t1 = scan(first, frame, t);
                lemma_store_shifts(declared.next);
                let t2 = scan(store, frame, t1);
                assert(t2 == if t1.reachable {
                    moved(t1, -8)
                } else {
                    t1
                });
                assert(t2 == t);
                lemma_scan_concat(first, store, frame, t);
                lemma_scan_concat(first + store, rest, frame, t);
            },
            Err(_) => {},
        }
    } else {
        lemma_scan_empty(frame, t);
    }
}

/// Every call in the lines of a function is made with a multiple of 16
/// bytes pushed since the frame was set up, whatever the function
/// declares, and however many values are on the stack at the call. Along
/// with it, every label is reached with the same number of bytes pushed
/// from every jump to it.
pub proof fn lemma_calls_are_aligned(func: FuncModel, prefix: Seq<char>)
    ensures
        gen_body(func, prefix) matches Ok(done) ==> scan(done.0, done.1 as int, at_entry()).aligned,
{
    match gen_parameters(func.args, 0, ScopeModel::fresh(), func.span) {
        Ok((parameters, scope)) => {
            let state = body_state(scope, prefix);
            match gen_expression(func.body, state) {
                Ok((body, last)) => {
                    let frame = last.scope.next as int;
                    let t = at_entry();
                    lemma_parameters(func.args, 0, ScopeModel::fresh(), func.span, frame, t);
                    assert(tracks(t, state));
                    lemma_expression(func.body, state, t, frame);
                    let t1 = scan(body, frame, t);
                    lemma_return_ends(frame, t1);
                    lemma_scan_concat(parameters, body, frame, t);
                    lemma_scan_concat(parameters + body, return_lines(), frame, t);
                },
                Err(_) => {},
            }
        },
        Err(_) => {},
    }
}

/// While a function is compiled, the compiler's count of the bytes pushed
/// is the number of bytes that the lines made so far have pushed: behind
/// the code of an expression that control can pass, the stack is 8 bytes
/// deeper than before it.
pub proof fn lemma_count_follows_the_lines(
    expression: ExpressionModel,
    state: CompileState,
    frame: int,
    tracking: Tracking,
)
    requires
        tracks(tracking, state),
    ensures
        gen_expression(expression, state) matches Ok(done) ==> {
            let after = scan(done.0, frame, tracking);
            &&& done.1.stack_depth == state.stack_depth + 8
            &&& after.reachable ==> tracking.reachable && after.depth == tracking.depth + 8
        },
{
    lemma_expression(expression, state, tracking, frame);
}

} // verus!
