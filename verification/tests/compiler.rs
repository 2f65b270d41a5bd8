use mini_compiler::compile::compiler::FuncCompiler;
use mini_compiler::compile::{
    compile, Address, Compiler, Failure, Instruction, Label, Line, Readable, Register, Scope,
    Writable,
};
use mini_compiler::general::TryReader;
use mini_compiler::parse::{Root, SyntaxTree};
use mini_compiler::sourcecode::{Code, Position, Span};
use mini_compiler::token::tokenize;
use std::collections::HashMap;

fn parse(src: &str) -> Root {
    let tokens = tokenize(&src.to_string()).unwrap();
    let mut reader = TryReader::new(&tokens);
    Root::parse(&mut reader).unwrap()
}

fn build(src: &str) -> Compiler {
    Compiler::generate(&parse(src), "").unwrap()
}

fn texts(lines: &Vec<Line>) -> Vec<String> {
    lines.iter().map(|line| line.text()).collect()
}

fn slot(register: &Register) -> usize {
    match register {
        Register::Rax => 0,
        Register::Al => 0,
        Register::Rcx => 1,
        Register::Rbp => 2,
        Register::Rdi => 3,
        Register::Rdx => 4,
        Register::Rsi => 5,
        Register::Rsp => 6,
        Register::R8 => 7,
        Register::R9 => 8,
    }
}

const RSP: usize = 6;
const HALT: i64 = -1;

/// A machine that runs the lines a compiler gives: registers, a stack in
/// memory and the operands of the last comparison. It counts the calls it
/// makes and checks at each that the bytes pushed since the frame was set up
/// are a multiple of 16.
struct Machine<'a> {
    functions: Vec<&'a Vec<Line>>,
    registers: [i64; 9],
    memory: HashMap<i64, i64>,
    compared: (i64, i64),
    frames: Vec<i64>,
    calls: usize,
    deepest: i64,
}

fn read(machine: &Machine, operand: &Readable) -> i64 {
    match operand {
        Readable::Literal(n) => *n,
        Readable::Register(Register::Al) => machine.registers[0] & 0xff,
        Readable::Register(register) => machine.registers[slot(register)],
        Readable::Address(address) => machine.memory[&machine.registers[slot(&address.register)]],
    }
}

fn set_flag(machine: &mut Machine, register: &Register, holds: bool) {
    let index = slot(register);
    machine.registers[index] = (machine.registers[index] & !0xff) | (holds as i64);
}

fn find_function(machine: &Machine, name: &str) -> usize {
    for (index, lines) in machine.functions.iter().enumerate() {
        if let Some(Line::Label(label)) = lines.first() {
            if label.name == name {
                return index;
            }
        }
    }
    panic!("no function is called {}", name)
}

fn find_label(lines: &Vec<Line>, name: &str) -> usize {
    for (index, line) in lines.iter().enumerate() {
        if let Line::Label(label) = line {
            if label.name == name {
                return index;
            }
        }
    }
    panic!("no label is called {}", name)
}

fn push(machine: &mut Machine, value: i64) {
    machine.registers[RSP] -= 8;
    let at = machine.registers[RSP];
    machine.memory.insert(at, value);
}

fn pop(machine: &mut Machine) -> i64 {
    let at = machine.registers[RSP];
    machine.registers[RSP] += 8;
    machine.memory[&at]
}

fn run_from(compiler: &Compiler, entry: &str) -> (i64, usize, i64) {
    let mut machine = Machine {
        functions: compiler.func_compilers.iter().map(|f| &f.lines).collect(),
        registers: [0; 9],
        memory: HashMap::new(),
        compared: (0, 0),
        frames: Vec::new(),
        calls: 0,
        deepest: 0,
    };
    machine.registers[RSP] = 1 << 20;
    push(&mut machine, HALT);
    let mut function = find_function(&machine, entry);
    let mut pc = 0;
    for _ in 0..1_000_000 {
        let lines = machine.functions[function];
        let line = &lines[pc];
        pc += 1;
        let instruction = match line {
            Line::Label(_) => continue,
            Line::Instruction(instruction) => instruction,
        };
        match instruction {
            Instruction::Push(x) => {
                let value = read(&machine, x);
                push(&mut machine, value);
            }
            Instruction::Pop(r) => {
                machine.registers[slot(r)] = pop(&mut machine);
            }
            Instruction::Add(r, x) => {
                machine.registers[slot(r)] =
                    machine.registers[slot(r)].wrapping_add(read(&machine, x));
            }
            Instruction::Sub(r, x) => {
                machine.registers[slot(r)] =
                    machine.registers[slot(r)].wrapping_sub(read(&machine, x));
                if let (Register::Rsp, true) = (r, pc >= 2) {
                    if let Line::Instruction(Instruction::Mov(
                        Writable::Register(Register::Rbp),
                        Readable::Register(Register::Rsp),
                    )) = &lines[pc - 2]
                    {
                        machine.frames.push(machine.registers[RSP]);
                    }
                }
            }
            Instruction::Imul(r, x) => {
                machine.registers[slot(r)] =
                    machine.registers[slot(r)].wrapping_mul(read(&machine, x));
            }
            Instruction::Cqo => {
                machine.registers[slot(&Register::Rdx)] =
                    if machine.registers[0] < 0 { -1 } else { 0 };
            }
            Instruction::Idiv(r) => {
                let divisor = machine.registers[slot(r)];
                let dividend = machine.registers[0];
                machine.registers[0] = dividend.wrapping_div(divisor);
                machine.registers[slot(&Register::Rdx)] = dividend.wrapping_rem(divisor);
            }
            Instruction::Cmp(r, x) => {
                machine.compared = (machine.registers[slot(r)], read(&machine, x));
            }
            Instruction::Sete(r) => {
                let holds = machine.compared.0 == machine.compared.1;
                set_flag(&mut machine, r, holds);
            }
            Instruction::Setne(r) => {
                let holds = machine.compared.0 != machine.compared.1;
                set_flag(&mut machine, r, holds);
            }
            Instruction::Setl(r) => {
                let holds = machine.compared.0 < machine.compared.1;
                set_flag(&mut machine, r, holds);
            }
            Instruction::Setle(r) => {
                let holds = machine.compared.0 <= machine.compared.1;
                set_flag(&mut machine, r, holds);
            }
            Instruction::Setg(r) => {
                let holds = machine.compared.0 > machine.compared.1;
                set_flag(&mut machine, r, holds);
            }
            Instruction::Setge(r) => {
                let holds = machine.compared.0 >= machine.compared.1;
                set_flag(&mut machine, r, holds);
            }
            Instruction::Mov(w, x) => {
                let value = read(&machine, x);
                match w {
                    Writable::Register(r) => machine.registers[slot(r)] = value,
                    Writable::Address(address) => {
                        let at = machine.registers[slot(&address.register)];
                        machine.memory.insert(at, value);
                    }
                }
            }
            Instruction::Movzb(r, x) => {
                machine.registers[slot(r)] = read(&machine, x) & 0xff;
            }
            Instruction::Je(label) => {
                if machine.compared.0 == machine.compared.1 {
                    pc = find_label(lines, &label.name);
                }
            }
            Instruction::Jmp(label) => {
                pc = find_label(lines, &label.name);
            }
            Instruction::Call(name) => {
                let pushed = machine.frames.last().unwrap() - machine.registers[RSP];
                assert_eq!(pushed % 16, 0, "a call with {} bytes pushed", pushed);
                machine.calls += 1;
                machine.deepest = machine.deepest.max(pushed);
                push(&mut machine, (function * 1_000_000 + pc) as i64);
                function = find_function(&machine, name);
                pc = 0;
            }
            Instruction::Ret => {
                machine.frames.pop();
                let back = pop(&mut machine);
                if back == HALT {
                    assert_eq!(machine.registers[RSP], 1 << 20);
                    return (machine.registers[0], machine.calls, machine.deepest);
                }
                function = (back / 1_000_000) as usize;
                pc = (back % 1_000_000) as usize;
            }
        }
    }
    panic!("the program does not end")
}

fn run(src: &str) -> i64 {
    run_from(&build(src), "main").0
}

fn eval(expression: &str) -> i64 {
    run(&format!("func main() {}", expression))
}

#[test]
fn arithmetic_follows_precedence() {
    assert_eq!(eval("1 + 2 * 3"), 7);
    assert_eq!(eval("(1 + 2) * 3"), 9);
    assert_eq!(eval("10 / 3"), 3);
    assert_eq!(eval("-5 + 3"), -2);
    assert_eq!(eval("1 < 2"), 1);
    assert_eq!(eval("2 < 1"), 0);
    assert_eq!(eval("3 == 3"), 1);
}

#[test]
fn operators_compute_what_they_name() {
    assert_eq!(eval("7 - 2 - 1"), 4);
    assert_eq!(eval("100 / 5 / 2"), 10);
    assert_eq!(eval("-7 / 2"), -3);
    assert_eq!(eval("2 * 3 * 4"), 24);
    assert_eq!(eval("+4"), 4);
    assert_eq!(eval("- (1 + 2)"), -3);
    assert_eq!(eval("3 != 3"), 0);
    assert_eq!(eval("3 != 4"), 1);
    assert_eq!(eval("3 == 4"), 0);
    assert_eq!(eval("2 <= 2"), 1);
    assert_eq!(eval("3 <= 2"), 0);
    assert_eq!(eval("3 > 2"), 1);
    assert_eq!(eval("2 > 2"), 0);
    assert_eq!(eval("2 >= 2"), 1);
    assert_eq!(eval("1 >= 2"), 0);
    assert_eq!(eval("1 + 1 == 2"), 1);
    assert_eq!(eval("1 < 2 == 2 > 1"), 1);
    assert_eq!(eval("1 + 2 < 2 * 2"), 1);
    assert_eq!(eval("300 == 44"), 0);
    assert_eq!(eval("9223372036854775807"), i64::MAX);
}

#[test]
fn conditionals_take_one_branch() {
    assert_eq!(eval("if 1 then 10 else 20"), 10);
    assert_eq!(eval("if 0 then 10 else 20"), 20);
    assert_eq!(eval("if 2 < 1 then 10 else if 1 < 2 then 30 else 40"), 30);
    assert_eq!(eval("1 + (if 0 then 10 else 20) * 2"), 41);
    assert_eq!(eval("if if 1 then 0 else 1 then 5 else 6"), 6);
}

#[test]
fn inner_block_shadows_and_outer_name_comes_back() {
    let inner = "func main() {
        let x := 1
        {
            let x := 2
            return x
            0
        }
    }";
    assert_eq!(run(inner), 2);
    let after = "func main() {
        let x := 1
        let y := {
            let x := 2
            x
        }
        x * 10 + y
    }";
    assert_eq!(run(after), 12);
}

#[test]
fn block_reads_names_of_the_blocks_around_it() {
    let src = "func main() {
        let a := 3
        let b := {
            let c := a + 1
            {
                a + c
            }
        }
        b
    }";
    assert_eq!(run(src), 7);
}

#[test]
fn return_leaves_the_function_at_once() {
    let src = "func main() {
        return 5
        6
    }";
    assert_eq!(run(src), 5);
    let src = "func pick(n) {
        let r := if n then { return 1
            0 } else 2
        r + 10
    }
    func main() pick(1) * 100 + pick(0)";
    assert_eq!(run(src), 112);
}

#[test]
fn function_without_arguments_returns_its_body() {
    assert_eq!(run("func main() 42"), 42);
    assert_eq!(run("func seven() 7\nfunc main() seven() * seven()"), 49);
}

#[test]
fn arguments_bind_by_position() {
    assert_eq!(run("func sub(a, b) a - b\nfunc main() sub(10, 3)"), 7);
    let six = "func f(a, b, c, d, e, g) a + b * 10 + c * 100 + d * 1000 + e * 10000 + g * 100000
func main() f(1, 2, 3, 4, 5, 6)";
    assert_eq!(run(six), 654321);
    assert_eq!(run("func id(x) x\nfunc main() 1 + id(2) + id(id(3)) * id(4)"), 15);
}

#[test]
fn recursion_computes_factorial() {
    let src = "func fact(n) if n < 2 then 1 else n * fact(n - 1)
func main() fact(5)";
    assert_eq!(run(src), 120);
    let fib = "func fib(n) if n < 2 then n else fib(n - 1) + fib(n - 2)
func main() fib(10)";
    assert_eq!(run(fib), 55);
}

#[test]
fn calls_happen_with_a_multiple_of_16_bytes_pushed() {
    // The machine checks every call; these programs call with 0, 8, 16 and
    // 24 bytes of operands pushed, with and without declarations before.
    let src = "func id(x) x
func two(a, b) a + b
func main() {
    let a := id(1)
    let b := 2 + id(3)
    let c := 4 + 5 * id(6)
    let d := 1 + (2 + (3 + two(id(4), 5 + id(6))))
    a + b + c + d + two(1 + id(2), id(a) + id(b)) + two(a, id(1 + two(b, id(c))))
}";
    let compiler = build(src);
    let (value, calls, deepest) = run_from(&compiler, "main");
    assert_eq!(value, 1 + 5 + 34 + 21 + 9 + 41);
    assert_eq!(calls, 14);
    assert_eq!(deepest, 48);
    for args in 0..7 {
        let names: Vec<String> = (0..args).map(|i| format!("p{}", i)).collect();
        let values: Vec<String> = (0..args).map(|i| format!("{}", i + 1)).collect();
        let src = format!(
            "func f({}) 1\nfunc main() {{\n let a := 1\n let b := 2 + f({})\n let c := 3\n a + (b + f({}))\n}}",
            names.join(", "),
            values.join(", "),
            values.join(", ")
        );
        let (value, calls, _) = run_from(&build(&src), "main");
        assert_eq!(value, 5);
        assert_eq!(calls, 2);
    }
}

#[test]
fn padding_is_emitted_around_each_call() {
    let compiler = build("func f() 1\nfunc main() 2 + f()");
    assert_eq!(
        texts(&compiler.func_compilers[1].lines),
        vec![
            "main:",
            "  push rbp",
            "  mov rbp, rsp",
            "  sub rsp, 0",
            "  push 2",
            "  sub rsp, 8",
            "  call f",
            "  add rsp, 8",
            "  push rax",
            "  pop rdi",
            "  pop rax",
            "  add rax, rdi",
            "  push rax",
            "  pop rax",
            "  mov rsp, rbp",
            "  pop rbp",
            "  ret",
        ]
    );
}

#[test]
fn function_lines_in_order() {
    let compiler = build("func add(a, b) a + b");
    assert_eq!(
        texts(&compiler.func_compilers[0].lines),
        vec![
            "add:",
            "  push rbp",
            "  mov rbp, rsp",
            "  sub rsp, 16",
            "  push rdi",
            "  mov rax, rbp",
            "  sub rax, 8",
            "  pop rdi",
            "  mov [rax], rdi",
            "  push rsi",
            "  mov rax, rbp",
            "  sub rax, 16",
            "  pop rdi",
            "  mov [rax], rdi",
            "  mov rax, rbp",
            "  sub rax, 8",
            "  mov rax, [rax]",
            "  push rax",
            "  mov rax, rbp",
            "  sub rax, 16",
            "  mov rax, [rax]",
            "  push rax",
            "  pop rdi",
            "  pop rax",
            "  add rax, rdi",
            "  push rax",
            "  pop rax",
            "  mov rsp, rbp",
            "  pop rbp",
            "  ret",
        ]
    );
}

#[test]
fn conditional_lines_and_labels() {
    let compiler = build("func main() if 1 then if 0 then 2 else 3 else 4");
    assert_eq!(
        texts(&compiler.func_compilers[0].lines),
        vec![
            "main:",
            "  push rbp",
            "  mov rbp, rsp",
            "  sub rsp, 0",
            "  push 1",
            "  pop rax",
            "  cmp rax, 0",
            "  je .L0",
            "  push 0",
            "  pop rax",
            "  cmp rax, 0",
            "  je .L2",
            "  push 2",
            "  jmp .L3",
            ".L2:",
            "  push 3",
            ".L3:",
            "  jmp .L1",
            ".L0:",
            "  push 4",
            ".L1:",
            "  pop rax",
            "  mov rsp, rbp",
            "  pop rbp",
            "  ret",
        ]
    );
}

#[test]
fn operator_lines() {
    let lines = texts(&build("func main() -1 * 2 / 3 - 4 < 5 != 6").func_compilers[0].lines);
    let body: Vec<&str> = lines[4..lines.len() - 4].iter().map(|s| s.as_str()).collect();
    assert_eq!(
        body,
        vec![
            "  push 1",
            "  pop rdi",
            "  mov rax, 0",
            "  sub rax, rdi",
            "  push rax",
            "  push 2",
            "  pop rdi",
            "  pop rax",
            "  imul rax, rdi",
            "  push rax",
            "  push 3",
            "  pop rdi",
            "  pop rax",
            "  cqo",
            "  idiv rdi",
            "  push rax",
            "  push 4",
            "  pop rdi",
            "  pop rax",
            "  sub rax, rdi",
            "  push rax",
            "  push 5",
            "  pop rdi",
            "  pop rax",
            "  cmp rax, rdi",
            "  setl al",
            "  movzx rax, al",
            "  push rax",
            "  push 6",
            "  pop rdi",
            "  pop rax",
            "  cmp rax, rdi",
            "  setne al",
            "  movzx rax, al",
            "  push rax",
        ]
    );
}

#[test]
fn return_statement_lines() {
    let lines = texts(&build("func main() {\n return 1\n 2\n}").func_compilers[0].lines);
    assert_eq!(
        lines[4..].to_vec(),
        vec![
            "  push 1",
            "  pop rax",
            "  mov rsp, rbp",
            "  pop rbp",
            "  ret",
            "  push 2",
            "  pop rax",
            "  mov rsp, rbp",
            "  pop rbp",
            "  ret",
        ]
    );
}

#[test]
fn frame_counts_every_declaration() {
    let src = "func main(a) {
    let b := 1
    let c := { let d := 2
        d }
    if a then { let e := 3
        e } else { let g := 4
        g }
}";
    let lines = texts(&build(src).func_compilers[0].lines);
    assert_eq!(lines[3], "  sub rsp, 48");
}

#[test]
fn assembly_text() {
    let compiler = build("func main() 1\nfunc f() 2");
    let main = "\n.global main\nmain:\n  push rbp\n  mov rbp, rsp\n  sub rsp, 0\n  push 1\n  pop rax\n  mov rsp, rbp\n  pop rbp\n  ret";
    let f = "\n.global f\nf:\n  push rbp\n  mov rbp, rsp\n  sub rsp, 0\n  push 2\n  pop rax\n  mov rsp, rbp\n  pop rbp\n  ret";
    assert_eq!(compiler.func_compilers[0].assembly_string(), main);
    assert_eq!(compiler.func_compilers[1].assembly_string(), f);
    assert_eq!(compiler.assembly_string(), format!("\n\n{}\n\n{}", main, f));
    assert_eq!(texts(compiler.func_compilers[0].lines()).len(), 9);
    assert_eq!(build("").assembly_string(), "");
}

#[test]
fn symbol_prefix_goes_before_every_function_name() {
    let root = parse("func f() 1\nfunc main() f()");
    let compiler = Compiler::generate(&root, "_").unwrap();
    let lines = texts(&compiler.func_compilers[1].lines);
    assert_eq!(lines[0], "_main:");
    assert_eq!(lines[5], "  call _f");
    assert!(compiler.func_compilers[1].assembly_string().starts_with("\n.global _main\n_main:\n"));
    assert_eq!(run_from(&compiler, "_main").0, 1);
    let one = FuncCompiler::generate(&root.funcs[0], "x_").unwrap();
    assert_eq!(texts(&one.lines)[0], "x_f:");
}

#[test]
fn undefined_symbol_fails_with_the_span_of_the_identifier() {
    let root = parse("func main() 1 + foo * 2");
    assert_eq!(
        Compiler::generate(&root, "").err(),
        Some(Failure::UndefinedSymbol(Span::new(0, 16, 3)))
    );
    let error = Compiler::compile(&root, "").err().unwrap();
    assert_eq!(error.0, Span::new(0, 16, 3));
    assert_eq!(error.1, "未定義のシンボルです。");
    let error = FuncCompiler::compile(&root.funcs[0], "").err().unwrap();
    assert_eq!(error.0, Span::new(0, 16, 3));
    let error = compile(&root, "").err().unwrap();
    assert_eq!(error.0, Span::new(0, 16, 3));

    let root = parse("func main() {\n let y := {\n let x := 1\n x\n }\n x\n}");
    assert_eq!(
        Compiler::generate(&root, "").err(),
        Some(Failure::UndefinedSymbol(Span::new(5, 1, 1)))
    );
    let root = parse("func f(a) a\nfunc main() a");
    assert_eq!(
        Compiler::generate(&root, "").err(),
        Some(Failure::UndefinedSymbol(Span::new(1, 12, 1)))
    );
    let root = parse("func main() {\n let x := x\n x\n}");
    assert_eq!(
        Compiler::generate(&root, "").err(),
        Some(Failure::UndefinedSymbol(Span::new(1, 10, 1)))
    );
}

#[test]
fn repeated_parameter_is_an_argument_error() {
    let root = parse("func f(a, b, a) 1");
    assert_eq!(
        Compiler::generate(&root, "").err(),
        Some(Failure::ArgumentError(Span::new(0, 0, 17)))
    );
    let error = Compiler::compile(&root, "").err().unwrap();
    assert_eq!(error.0, Span::new(0, 0, 17));
    assert_eq!(error.1, "引数エラー");
}

#[test]
fn redeclaration_in_one_block_is_a_defect() {
    let root = parse("func main() {\n let x := 1\n let x := 2\n x\n}");
    assert_eq!(Compiler::generate(&root, "").err(), Some(Failure::Defect));
    assert_eq!(Failure::Defect.message(), "内部エラー");
    let root = parse("func main(x) {\n let x := 1\n x\n}");
    assert_eq!(run_from(&Compiler::generate(&root, "").unwrap(), "main").0, 1);
}

#[test]
fn free_compile_gives_all_lines_in_order() {
    let root = parse("func f() 1\nfunc main() f()");
    let lines = compile(&root, "").ok().unwrap();
    let compiler = Compiler::compile(&root, "").ok().unwrap();
    let mut expected = texts(&compiler.func_compilers[0].lines);
    expected.extend(texts(&compiler.func_compilers[1].lines));
    assert_eq!(texts(&lines), expected);
    assert_eq!(expected.len(), 9 + 12);
}

#[test]
fn instruction_text() {
    let rax = Register::Rax;
    let rdi = Readable::Register(Register::Rdi);
    let label = || Label { name: ".L7".to_string() };
    assert_eq!(Instruction::Push(Readable::Literal(-5)).destination_code(), "push -5");
    assert_eq!(
        Instruction::Push(Readable::Literal(i64::MIN)).destination_code(),
        "push -9223372036854775808"
    );
    assert_eq!(Instruction::Push(Readable::Literal(0)).destination_code(), "push 0");
    assert_eq!(Instruction::Push(Readable::Literal(1090)).destination_code(), "push 1090");
    assert_eq!(Instruction::Pop(Register::R8).destination_code(), "pop r8");
    assert_eq!(Instruction::Add(rax, rdi).destination_code(), "add rax, rdi");
    assert_eq!(Instruction::Sub(Register::Rsp, Readable::Literal(16)).destination_code(), "sub rsp, 16");
    assert_eq!(Instruction::Imul(rax, rdi).destination_code(), "imul rax, rdi");
    assert_eq!(Instruction::Cqo.destination_code(), "cqo");
    assert_eq!(Instruction::Idiv(Register::Rdi).destination_code(), "idiv rdi");
    assert_eq!(Instruction::Cmp(rax, Readable::Literal(0)).destination_code(), "cmp rax, 0");
    assert_eq!(Instruction::Sete(Register::Al).destination_code(), "sete al");
    assert_eq!(Instruction::Setne(Register::Al).destination_code(), "setne al");
    assert_eq!(Instruction::Setl(Register::Al).destination_code(), "setl al");
    assert_eq!(Instruction::Setle(Register::Al).destination_code(), "setle al");
    assert_eq!(Instruction::Setg(Register::Al).destination_code(), "setg al");
    assert_eq!(Instruction::Setge(Register::Al).destination_code(), "setge al");
    assert_eq!(
        Instruction::Mov(
            Writable::Address(Address::new(Register::Rax)),
            Readable::Address(Address::new(Register::Rbp))
        )
        .destination_code(),
        "mov [rax], [rbp]"
    );
    assert_eq!(
        Instruction::Mov(Writable::Register(Register::Rcx), Readable::Register(Register::Rdx))
            .destination_code(),
        "mov rcx, rdx"
    );
    assert_eq!(
        Instruction::Movzb(rax, Readable::Register(Register::Al)).destination_code(),
        "movzx rax, al"
    );
    assert_eq!(Instruction::Je(label()).destination_code(), "je .L7");
    assert_eq!(Instruction::Jmp(label()).destination_code(), "jmp .L7");
    assert_eq!(Instruction::Call("main".to_string()).destination_code(), "call main");
    assert_eq!(Instruction::Ret.destination_code(), "ret");
    assert_eq!(Line::Label(label()).text(), ".L7:");
    assert_eq!(Line::Instruction(Instruction::Ret).text(), "  ret");
    assert_eq!(Line::Instruction(Instruction::Ret).duplicate().text(), "  ret");
    assert_eq!(Line::Label(label()).clone().text(), ".L7:");
}

#[test]
fn operand_symbols() {
    assert_eq!(Readable::Literal(12).symbol(), "12");
    assert_eq!(Readable::Register(Register::Rsi).symbol(), "rsi");
    assert_eq!(Readable::Address(Address::new(Register::R9)).symbol(), "[r9]");
    assert_eq!(Writable::Register(Register::Rsp).symbol(), "rsp");
    assert_eq!(Writable::Address(Address::new(Register::Rdx)).symbol(), "[rdx]");
    assert_eq!(Register::Rcx.symbol(), "rcx");
    assert_eq!(Address::new(Register::Rbp).register, Register::Rbp);
    assert_eq!(
        Register::fn_args(),
        vec![
            Register::Rdi,
            Register::Rsi,
            Register::Rdx,
            Register::Rcx,
            Register::R8,
            Register::R9
        ]
    );
}

fn name(text: &str) -> Code<String> {
    Code { value: text.to_string(), span: Span::new(2, 3, text.len()) }
}

#[test]
fn scope_gives_each_declaration_a_slot() {
    let mut scope = Scope::new();
    assert_eq!(scope.frame_size(), 0);
    assert_eq!(texts(&scope.prologue()), vec!["  push rbp", "  mov rbp, rsp", "  sub rsp, 0"]);
    assert_eq!(
        texts(&scope.declare(&"a".to_string()).unwrap()),
        vec!["  mov rax, rbp", "  sub rax, 8", "  pop rdi", "  mov [rax], rdi"]
    );
    assert_eq!(
        texts(&scope.declare(&"b".to_string()).unwrap()),
        vec!["  mov rax, rbp", "  sub rax, 16", "  pop rdi", "  mov [rax], rdi"]
    );
    assert_eq!(scope.frame_size(), 16);
    assert_eq!(
        texts(&scope.lookup(&name("a")).unwrap()),
        vec!["  mov rax, rbp", "  sub rax, 8", "  mov rax, [rax]", "  push rax"]
    );
    assert_eq!(texts(&scope.lookup(&name("b")).unwrap())[1], "  sub rax, 16");
    assert_eq!(texts(&scope.prologue())[2], "  sub rsp, 16");
    assert_eq!(texts(&scope.epilogue()), vec!["  mov rsp, rbp", "  pop rbp", "  ret"]);
}

#[test]
fn scope_lookup_fails_with_the_span_of_the_name() {
    let mut scope = Scope::new();
    assert_eq!(scope.lookup(&name("a")).err(), Some(Span::new(2, 3, 1)));
    scope.declare(&"ab".to_string()).unwrap();
    assert_eq!(scope.lookup(&name("a")).err(), Some(Span::new(2, 3, 1)));
    assert_eq!(scope.lookup(&name("abc")).err(), Some(Span::new(2, 3, 3)));
    assert!(scope.lookup(&name("ab")).is_ok());
}

#[test]
fn scope_rejects_redeclaration_in_one_block_only() {
    let mut scope = Scope::new();
    assert!(scope.declare(&"a".to_string()).is_ok());
    assert!(scope.declare(&"a".to_string()).is_err());
    assert_eq!(scope.frame_size(), 8);
    scope.into_block();
    assert_eq!(scope.last_block(), 2);
    assert!(scope.declare(&"a".to_string()).is_ok());
    assert!(scope.declare(&"a".to_string()).is_err());
    assert_eq!(texts(&scope.lookup(&name("a")).unwrap())[1], "  sub rax, 16");
    scope.into_block();
    assert_eq!(texts(&scope.lookup(&name("a")).unwrap())[1], "  sub rax, 16");
    assert!(scope.declare(&"a".to_string()).is_ok());
    assert_eq!(texts(&scope.lookup(&name("a")).unwrap())[1], "  sub rax, 24");
    scope.outof_block();
    assert_eq!(texts(&scope.lookup(&name("a")).unwrap())[1], "  sub rax, 16");
    scope.outof_block();
    assert_eq!(texts(&scope.lookup(&name("a")).unwrap())[1], "  sub rax, 8");
    scope.outof_block();
    assert_eq!(texts(&scope.lookup(&name("a")).unwrap())[1], "  sub rax, 8");
    // A block that was closed does not come back: its names stay hidden.
    scope.into_block();
    assert_eq!(scope.last_block(), 4);
    assert_eq!(texts(&scope.lookup(&name("a")).unwrap())[1], "  sub rax, 8");
    assert!(scope.declare(&"a".to_string()).is_ok());
    assert_eq!(scope.frame_size(), 32);
}

#[test]
fn failure_explains_itself() {
    let span = Span { start: Position { line: 1, pos: 2 }, end: Position { line: 1, pos: 5 } };
    let (place, message) = Failure::UndefinedSymbol(span).explain();
    assert_eq!(place, span);
    assert_eq!(message, "未定義のシンボルです。");
    assert_eq!(Failure::ArgumentError(span).message(), "引数エラー");
}
