use vstd::prelude::*;
use crate::general::text::{decimal, push_decimal, push_text};

verus! {

/// One line of assembly: an instruction or a label that marks a place.
#[derive(Clone)]
pub enum Line {
    Instruction(Instruction),
    Label(Label),
}

/// A machine instruction with its operands.
#[derive(Clone)]
pub enum Instruction {
    // stack
    Push(Readable),
    Pop(Register),
    // operator
    Add(Register, Readable),
    Sub(Register, Readable),
    Imul(Register, Readable),
    Cqo,
    Idiv(Register),
    Cmp(Register, Readable),
    Sete(Register),
    Setne(Register),
    Setl(Register),
    Setle(Register),
    Setg(Register),
    Setge(Register),
    // move
    Mov(Writable, Readable),
    Movzb(Register, Readable),
    // jump
    Je(Label),
    Jmp(Label),
    Call(String),
    Ret,
}

/// What an instruction is, with names as sequences of characters.
pub enum InstructionModel {
    Push(Readable),
    Pop(Register),
    Add(Register, Readable),
    Sub(Register, Readable),
    Imul(Register, Readable),
    Cqo,
    Idiv(Register),
    Cmp(Register, Readable),
    Sete(Register),
    Setne(Register),
    Setl(Register),
    Setle(Register),
    Setg(Register),
    Setge(Register),
    Mov(Writable, Readable),
    Movzb(Register, Readable),
    Je(Seq<char>),
    Jmp(Seq<char>),
    Call(Seq<char>),
    Ret,
}

/// What a line is, with names as sequences of characters.
pub enum LineModel {
    Instruction(InstructionModel),
    Label(Seq<char>),
}

impl View for Instruction {
    type V = InstructionModel;

    open spec fn view(&self) -> InstructionModel {
        match *self {
            Instruction::Push(x) => InstructionModel::Push(x),
            Instruction::Pop(r) => InstructionModel::Pop(r),
            Instruction::Add(r, x) => InstructionModel::Add(r, x),
            Instruction::Sub(r, x) => InstructionModel::Sub(r, x),
            Instruction::Imul(r, x) => InstructionModel::Imul(r, x),
            Instruction::Cqo => InstructionModel::Cqo,
            Instruction::Idiv(r) => InstructionModel::Idiv(r),
            Instruction::Cmp(r, x) => InstructionModel::Cmp(r, x),
            Instruction::Sete(r) => InstructionModel::Sete(r),
            Instruction::Setne(r) => InstructionModel::Setne(r),
            Instruction::Setl(r) => InstructionModel::Setl(r),
            Instruction::Setle(r) => InstructionModel::Setle(r),
            Instruction::Setg(r) => InstructionModel::Setg(r),
            Instruction::Setge(r) => InstructionModel::Setge(r),
            Instruction::Mov(w, x) => InstructionModel::Mov(w, x),
            Instruction::Movzb(r, x) => InstructionModel::Movzb(r, x),
            Instruction::Je(label) => InstructionModel::Je(label@),
            Instruction::Jmp(label) => InstructionModel::Jmp(label@),
            Instruction::Call(name) => InstructionModel::Call(name@),
            Instruction::Ret => InstructionModel::Ret,
        }
    }
}

impl View for Line {
    type V = LineModel;

    open spec fn view(&self) -> LineModel {
        match *self {
            Line::Instruction(instruction) => LineModel::Instruction(instruction@),
            Line::Label(label) => LineModel::Label(label@),
        }
    }
}

/// The models of a sequence of lines.
pub open spec fn line_models(lines: Seq<Line>) -> Seq<LineModel> {
    Seq::new(lines.len(), |i: int| lines[i]@)
}

/// The models of lines put one after another are the models put one after
/// another.
pub proof fn lemma_line_models_concat(a: Seq<Line>, b: Seq<Line>)
    ensures
        line_models(a + b) == line_models(a) + line_models(b),
{
    assert(line_models(a + b) =~= line_models(a) + line_models(b));
}

/// The models of lines with one more line are the models with one more.
pub proof fn lemma_line_models_push(a: Seq<Line>, line: Line)
    ensures
        line_models(a.push(line)) == line_models(a).push(line@),
{
    assert(line_models(a.push(line)) =~= line_models(a).push(line@));
}

/// The text of an instruction with one operand.
pub open spec fn one_operand_code(mnemonic: Seq<char>, operand: Seq<char>) -> Seq<char> {
    mnemonic + seq![' '] + operand
}

/// The text of an instruction with a destination and a source.
pub open spec fn two_operand_code(mnemonic: Seq<char>, destination: Seq<char>, source: Seq<char>)
    -> Seq<char> {
    mnemonic + seq![' '] + destination + seq![',', ' '] + source
}

/// The text of an instruction in Intel syntax.
pub open spec fn instruction_code(instruction: InstructionModel) -> Seq<char> {
    match instruction {
        InstructionModel::Push(x) => one_operand_code("push"@, x.name()),
        InstructionModel::Pop(r) => one_operand_code("pop"@, r.name()),
        InstructionModel::Add(r, x) => two_operand_code("add"@, r.name(), x.name()),
        InstructionModel::Sub(r, x) => two_operand_code("sub"@, r.name(), x.name()),
        InstructionModel::Imul(r, x) => two_operand_code("imul"@, r.name(), x.name()),
        InstructionModel::Cqo => "cqo"@,
        InstructionModel::Idiv(r) => one_operand_code("idiv"@, r.name()),
        InstructionModel::Cmp(r, x) => two_operand_code("cmp"@, r.name(), x.name()),
        InstructionModel::Sete(r) => one_operand_code("sete"@, r.name()),
        InstructionModel::Setne(r) => one_operand_code("setne"@, r.name()),
        InstructionModel::Setl(r) => one_operand_code("setl"@, r.name()),
        InstructionModel::Setle(r) => one_operand_code("setle"@, r.name()),
        InstructionModel::Setg(r) => one_operand_code("setg"@, r.name()),
        InstructionModel::Setge(r) => one_operand_code("setge"@, r.name()),
        InstructionModel::Mov(w, x) => two_operand_code("mov"@, w.name(), x.name()),
        InstructionModel::Movzb(r, x) => two_operand_code("movzx"@, r.name(), x.name()),
        InstructionModel::Je(label) => one_operand_code("je"@, label),
        InstructionModel::Jmp(label) => one_operand_code("jmp"@, label),
        InstructionModel::Call(name) => one_operand_code("call"@, name),
        InstructionModel::Ret => "ret"@,
    }
}

/// The text of a line: an instruction behind two spaces, or a label with a
/// colon.
pub open spec fn line_text(line: LineModel) -> Seq<char> {
    match line {
        LineModel::Instruction(instruction) => seq![' ', ' '] + instruction_code(instruction),
        LineModel::Label(name) => name.push(':'),
    }
}

fn one_operand(mnemonic: &str, operand: &str) -> (r: String)
    ensures
        r@ == one_operand_code(mnemonic@, operand@),
{
    let mut text = String::new();
    push_text(&mut text, mnemonic);
    text.push(' ');
    push_text(&mut text, operand);
    assert(text@ =~= one_operand_code(mnemonic@, operand@));
    text
}

fn two_operands(mnemonic: &str, destination: &str, source: &str) -> (r: String)
    ensures
        r@ == two_operand_code(mnemonic@, destination@, source@),
{
    let mut text = String::new();
    push_text(&mut text, mnemonic);
    text.push(' ');
    push_text(&mut text, destination);
    text.push(',');
    text.push(' ');
    push_text(&mut text, source);
    assert(text@ =~= two_operand_code(mnemonic@, destination@, source@));
    text
}

impl Instruction {
    /// The text of the instruction in Intel syntax.
    pub fn destination_code(&self) -> (r: String)
        ensures
            r@ == instruction_code(self@),
    {
        match self {
            Instruction::Push(x) => one_operand("push", x.symbol().as_str()),
            Instruction::Pop(r) => one_operand("pop", r.symbol().as_str()),
            Instruction::Add(r, x) => two_operands("add", r.symbol().as_str(), x.symbol().as_str()),
            Instruction::Sub(r, x) => two_operands("sub", r.symbol().as_str(), x.symbol().as_str()),
            Instruction::Imul(r, x) => two_operands(
                "imul",
                r.symbol().as_str(),
                x.symbol().as_str(),
            ),
            Instruction::Cqo => "cqo".to_owned(),
            Instruction::Idiv(r) => one_operand("idiv", r.symbol().as_str()),
            Instruction::Cmp(r, x) => two_operands("cmp", r.symbol().as_str(), x.symbol().as_str()),
            Instruction::Sete(r) => one_operand("sete", r.symbol().as_str()),
            Instruction::Setne(r) => one_operand("setne", r.symbol().as_str()),
            Instruction::Setl(r) => one_operand("setl", r.symbol().as_str()),
            Instruction::Setle(r) => one_operand("setle", r.symbol().as_str()),
            Instruction::Setg(r) => one_operand("setg", r.symbol().as_str()),
            Instruction::Setge(r) => one_operand("setge", r.symbol().as_str()),
            Instruction::Mov(w, x) => two_operands("mov", w.symbol().as_str(), x.symbol().as_str()),
            Instruction::Movzb(r, x) => two_operands(
                "movzx",
                r.symbol().as_str(),
                x.symbol().as_str(),
            ),
            Instruction::Je(label) => one_operand("je", label.name.as_str()),
            Instruction::Jmp(label) => one_operand("jmp", label.name.as_str()),
            Instruction::Call(name) => one_operand("call", name.as_str()),
            Instruction::Ret => "ret".to_owned(),
        }
    }
}

impl Instruction {
    /// A copy of the instruction.
    pub fn duplicate(&self) -> (r: Instruction)
        ensures
            r@ == self@,
    {
        match self {
            Instruction::Push(x) => Instruction::Push(*x),
            Instruction::Pop(r) => Instruction::Pop(*r),
            Instruction::Add(r, x) => Instruction::Add(*r, *x),
            Instruction::Sub(r, x) => Instruction::Sub(*r, *x),
            Instruction::Imul(r, x) => Instruction::Imul(*r, *x),
            Instruction::Cqo => Instruction::Cqo,
            Instruction::Idiv(r) => Instruction::Idiv(*r),
            Instruction::Cmp(r, x) => Instruction::Cmp(*r, *x),
            Instruction::Sete(r) => Instruction::Sete(*r),
            Instruction::Setne(r) => Instruction::Setne(*r),
            Instruction::Setl(r) => Instruction::Setl(*r),
            Instruction::Setle(r) => Instruction::Setle(*r),
            Instruction::Setg(r) => Instruction::Setg(*r),
            Instruction::Setge(r) => Instruction::Setge(*r),
            Instruction::Mov(w, x) => Instruction::Mov(*w, *x),
            Instruction::Movzb(r, x) => Instruction::Movzb(*r, *x),
            Instruction::Je(label) => Instruction::Je(label.clone()),
            Instruction::Jmp(label) => Instruction::Jmp(label.clone()),
            Instruction::Call(name) => Instruction::Call(name.clone()),
            Instruction::Ret => Instruction::Ret,
        }
    }
}

impl Line {
    /// A copy of the line.
    pub fn duplicate(&self) -> (r: Line)
        ensures
            r@ == self@,
    {
        match self {
            Line::Instruction(instruction) => Line::Instruction(instruction.duplicate()),
            Line::Label(label) => Line::Label(label.clone()),
        }
    }

    /// The text of the line.
    pub fn text(&self) -> (r: String)
        ensures
            r@ == line_text(self@),
    {
        match self {
            Line::Instruction(instruction) => {
                let mut text = String::new();
                text.push(' ');
                text.push(' ');
                push_text(&mut text, instruction.destination_code().as_str());
                assert(text@ =~= line_text(self@));
                text
            },
            Line::Label(label) => {
                let mut text = label.name.clone();
                text.push(':');
                text
            },
        }
    }
}

/// An operand that can be read: a number, a register or the memory a
/// register points to.
#[derive(Debug, PartialEq, Eq, Clone, Copy, Structural)]
pub enum Readable {
    Literal(i64),
    Register(Register),
    Address(Address),
}

impl Readable {
    /// How the operand is written.
    pub open spec fn name(self) -> Seq<char> {
        match self {
            Readable::Literal(n) => decimal(n as int),
            Readable::Register(r) => r.name(),
            Readable::Address(address) => address.name(),
        }
    }

    pub fn symbol(&self) -> (r: String)
        ensures
            r@ == self.name(),
    {
        match self {
            Readable::Literal(n) => {
                let mut text = String::new();
                push_decimal(&mut text, *n);
                assert(text@ =~= decimal(*n as int));
                text
            },
            Readable::Register(r) => r.symbol(),
            Readable::Address(address) => address.symbol(),
        }
    }
}

/// An operand that can be written: a register or the memory a register
/// points to.
#[derive(Debug, PartialEq, Eq, Clone, Copy, Structural)]
pub enum Writable {
    Register(Register),
    Address(Address),
}

impl Writable {
    /// How the operand is written.
    pub open spec fn name(self) -> Seq<char> {
        match self {
            Writable::Register(r) => r.name(),
            Writable::Address(address) => address.name(),
        }
    }

    pub fn symbol(&self) -> (r: String)
        ensures
            r@ == self.name(),
    {
        match self {
            Writable::Register(r) => r.symbol(),
            Writable::Address(address) => address.symbol(),
        }
    }
}

#[derive(Debug, PartialEq, Eq, Clone, Copy, Structural)]
pub enum Register {
    Rax,
    Rcx,
    Rbp,
    Rdi,
    Rdx,
    Rsi,
    Rsp,
    R8,
    R9,
    Al,
}

/// The registers that carry the arguments of a call, in the order of the
/// arguments.
pub open spec fn argument_registers() -> Seq<Register> {
    seq![Register::Rdi, Register::Rsi, Register::Rdx, Register::Rcx, Register::R8, Register::R9]
}

impl Register {
    /// How the register is written.
    pub open spec fn name(self) -> Seq<char> {
        match self {
            Register::Rax => "rax"@,
            Register::Rcx => "rcx"@,
            Register::Rbp => "rbp"@,
            Register::Rdi => "rdi"@,
            Register::Rdx => "rdx"@,
            Register::Rsi => "rsi"@,
            Register::Rsp => "rsp"@,
            Register::R8 => "r8"@,
            Register::R9 => "r9"@,
            Register::Al => "al"@,
        }
    }

    pub fn symbol(&self) -> (r: String)
        ensures
            r@ == self.name(),
    {
        match self {
            Register::Rax => "rax".to_owned(),
            Register::Rcx => "rcx".to_owned(),
            Register::Rbp => "rbp".to_owned(),
            Register::Rdi => "rdi".to_owned(),
            Register::Rdx => "rdx".to_owned(),
            Register::Rsi => "rsi".to_owned(),
            Register::Rsp => "rsp".to_owned(),
            Register::R8 => "r8".to_owned(),
            Register::R9 => "r9".to_owned(),
            Register::Al => "al".to_owned(),
        }
    }

    pub fn fn_args() -> (r: Vec<Register>)
        ensures
            r@ == argument_registers(),
    {
        let mut registers: Vec<Register> = Vec::new();
        registers.push(Register::Rdi);
        registers.push(Register::Rsi);
        registers.push(Register::Rdx);
        registers.push(Register::Rcx);
        registers.push(Register::R8);
        registers.push(Register::R9);
        assert(registers@ =~= argument_registers());
        registers
    }
}

/// The memory that a register points to.
#[derive(Debug, PartialEq, Eq, Clone, Copy, Structural)]
pub struct Address {
    pub register: Register,
}

impl Address {
    /// How the operand is written: the register in square brackets.
    pub open spec fn name(self) -> Seq<char> {
        seq!['['] + self.register.name() + seq![']']
    }

    pub fn new(register: Register) -> (r: Address)
        ensures
            r == (Address { register }),
    {
        Address { register }
    }

    pub fn symbol(&self) -> (r: String)
        ensures
            r@ == self.name(),
    {
        let mut text = String::new();
        text.push('[');
        push_text(&mut text, self.register.symbol().as_str());
        text.push(']');
        assert(text@ =~= self.name());
        text
    }
}

/// A name for a place in the code.
pub struct Label {
    pub name: String,
}

impl View for Label {
    type V = Seq<char>;

    open spec fn view(&self) -> Seq<char> {
        self.name@
    }
}

impl Clone for Label {
    fn clone(&self) -> (r: Label)
        ensures
            r == *self,
    {
        Label { name: self.name.clone() }
    }
}

} // verus!
