use vstd::prelude::*;
use crate::compile::assembly::{
    line_models, Address, Instruction, InstructionModel, Line, LineModel, Readable, Register,
    Writable,
};
use crate::sourcecode::Code;
use crate::sourcecode::Span;

verus! {

/// The distance of a variable's slot below the frame base, in bytes.
pub type PointerOffset = i64;

/// A declared variable: its name, the block it was declared in and its slot.
pub struct Variable {
    pub name: String,
    pub block: u64,
    pub offset: PointerOffset,
}

/// What a variable is, with its name as a sequence of characters.
pub struct VariableModel {
    pub name: Seq<char>,
    pub block: u64,
    pub offset: PointerOffset,
}

impl View for Variable {
    type V = VariableModel;

    open spec fn view(&self) -> VariableModel {
        VariableModel { name: self.name@, block: self.block, offset: self.offset }
    }
}

/// The state of a function's symbol table.
///
/// The blocks that are open form a stack of numbers, the innermost last;
/// the function's outermost scope has the number 0. Each block gets a number
/// that no block had before it.
pub struct ScopeModel {
    /// The variables in the order declared.
    pub variables: Seq<VariableModel>,
    /// The size of the frame so far, in bytes.
    pub next: PointerOffset,
    /// The numbers of the open blocks.
    pub block_stack: Seq<u64>,
    /// The number given to the last block.
    pub block_seq: u64,
}

/// The slot of the first variable from index `from` on with the given name
/// and block.
pub open spec fn find_from(variables: Seq<VariableModel>, name: Seq<char>, block: u64, from: int)
    -> Option<PointerOffset>
    decreases variables.len() - from,
{
    if from < 0 || from >= variables.len() {
        None
    } else if variables[from].name == name && variables[from].block == block {
        Some(variables[from].offset)
    } else {
        find_from(variables, name, block, from + 1)
    }
}

impl ScopeModel {
    /// The table of a function that has declared nothing yet.
    pub open spec fn fresh() -> ScopeModel {
        ScopeModel {
            variables: Seq::empty(),
            next: 0,
            block_stack: Seq::empty(),
            block_seq: 1,
        }
    }

    /// The number of the innermost open block.
    pub open spec fn current_block(self) -> u64 {
        if self.block_stack.len() == 0 {
            0
        } else {
            self.block_stack[self.block_stack.len() - 1]
        }
    }

    /// The slot of the variable with the given name that was declared in
    /// the given block.
    pub open spec fn find(self, name: Seq<char>, block: u64) -> Option<PointerOffset> {
        find_from(self.variables, name, block, 0)
    }

    /// The slot that `name` stands for when the innermost `depth` open
    /// blocks are searched from the inside out, and then the outermost
    /// scope.
    pub open spec fn lookup_from(self, name: Seq<char>, depth: int) -> Option<PointerOffset>
        decreases depth,
    {
        if depth <= 0 || depth > self.block_stack.len() {
            self.find(name, 0)
        } else {
            match self.find(name, self.block_stack[depth - 1]) {
                Some(offset) => Some(offset),
                None => self.lookup_from(name, depth - 1),
            }
        }
    }

    /// The slot that `name` stands for: that of the innermost open block
    /// that declares it, or else that of the outermost scope.
    pub open spec fn lookup(self, name: Seq<char>) -> Option<PointerOffset> {
        self.lookup_from(name, self.block_stack.len() as int)
    }

    /// Tells whether the innermost open block has declared `name`.
    pub open spec fn declares(self, name: Seq<char>) -> bool {
        self.find(name, self.current_block()) is Some
    }

    /// Tells whether the frame can grow by one more slot.
    pub open spec fn can_grow(self) -> bool {
        self.next + 8 <= i64::MAX
    }

    /// The table after `name` got a new slot in the innermost open block.
    pub open spec fn declare(self, name: Seq<char>) -> ScopeModel {
        ScopeModel {
            variables: self.variables.push(
                VariableModel {
                    name,
                    block: self.current_block(),
                    offset: (self.next + 8) as i64,
                },
            ),
            next: (self.next + 8) as i64,
            block_stack: self.block_stack,
            block_seq: self.block_seq,
        }
    }

    /// Tells whether one more block can get a number.
    pub open spec fn can_nest(self) -> bool {
        self.block_seq + 1 <= u64::MAX
    }

    /// The table after a new block was opened.
    pub open spec fn into_block(self) -> ScopeModel {
        ScopeModel {
            variables: self.variables,
            next: self.next,
            block_stack: self.block_stack.push((self.block_seq + 1) as u64),
            block_seq: (self.block_seq + 1) as u64,
        }
    }

    /// The table after the innermost block was closed. Its variables keep
    /// their slots: the frame only grows.
    pub open spec fn outof_block(self) -> ScopeModel {
        ScopeModel {
            variables: self.variables,
            next: self.next,
            block_stack: if self.block_stack.len() == 0 {
                self.block_stack
            } else {
                self.block_stack.drop_last()
            },
            block_seq: self.block_seq,
        }
    }
}

impl ScopeModel {
    /// No block, open or closed, and no variable has a number above the
    /// number given to the last block.
    pub open spec fn numbered(self) -> bool {
        &&& forall|i: int|
            0 <= i < self.variables.len() ==> (#[trigger] self.variables[i]).block
                <= self.block_seq
        &&& forall|i: int|
            0 <= i < self.block_stack.len() ==> #[trigger] self.block_stack[i] <= self.block_seq
    }
}

/// A fresh table is numbered, and declaring a name or opening a block keeps
/// a table numbered.
pub proof fn lemma_numbered(scope: ScopeModel, name: Seq<char>)
    requires
        scope.numbered(),
    ensures
        ScopeModel::fresh().numbered(),
        scope.declare(name).numbered(),
        scope.can_nest() ==> scope.into_block().numbered(),
        scope.outof_block().numbered(),
{
    let declared = scope.declare(name);
    assert forall|i: int| 0 <= i < declared.variables.len() implies (
    #[trigger] declared.variables[i]).block <= declared.block_seq by {
        if i < scope.variables.len() {
            assert(declared.variables[i] == scope.variables[i]);
        } else if scope.block_stack.len() > 0 {
            assert(scope.block_stack[scope.block_stack.len() - 1] <= scope.block_seq);
        }
    }
    if scope.can_nest() {
        let opened = scope.into_block();
        assert forall|i: int| 0 <= i < opened.block_stack.len() implies #[trigger]
        opened.block_stack[i] <= opened.block_seq by {
            if i < scope.block_stack.len() {
                assert(opened.block_stack[i] == scope.block_stack[i]);
            }
        }
        assert forall|i: int| 0 <= i < opened.variables.len() implies (
        #[trigger] opened.variables[i]).block <= opened.block_seq by {
            assert(opened.variables[i] == scope.variables[i]);
        }
    }
    let closed = scope.outof_block();
    assert forall|i: int| 0 <= i < closed.block_stack.len() implies #[trigger]
    closed.block_stack[i] <= closed.block_seq by {
        assert(closed.block_stack[i] == scope.block_stack[i]);
    }
}

/// Looking for a name in a block finds nothing among variables of other
/// blocks, and finds a variable added last only if no earlier one matches.
proof fn lemma_find_from_push(
    variables: Seq<VariableModel>,
    added: VariableModel,
    name: Seq<char>,
    block: u64,
    from: int,
)
    requires
        0 <= from <= variables.len(),
    ensures
        find_from(variables.push(added), name, block, from) == match find_from(
            variables,
            name,
            block,
            from,
        ) {
            Some(offset) => Some(offset),
            None => if added.name == name && added.block == block {
                Some(added.offset)
            } else {
                None
            },
        },
    decreases variables.len() - from,
{
    if from < variables.len() {
        assert(variables.push(added)[from] == variables[from]);
        lemma_find_from_push(variables, added, name, block, from + 1);
    } else {
        assert(variables.push(added)[from] == added);
        assert(find_from(variables.push(added), name, block, from + 1) is None);
    }
}

/// Looking for a name in a block whose number no variable has finds
/// nothing.
proof fn lemma_find_from_none(variables: Seq<VariableModel>, name: Seq<char>, block: u64, from: int)
    requires
        0 <= from,
        forall|i: int| 0 <= i < variables.len() ==> (#[trigger] variables[i]).block != block,
    ensures
        find_from(variables, name, block, from) is None,
    decreases variables.len() - from,
{
    if from < variables.len() {
        lemma_find_from_none(variables, name, block, from + 1);
    }
}

/// What a name stands for in the blocks around a new block does not change
/// when the new block declares a name.
proof fn lemma_lookup_from_declare(
    scope: ScopeModel,
    inner: ScopeModel,
    added: VariableModel,
    name: Seq<char>,
    depth: int,
)
    requires
        scope.numbered(),
        scope.can_nest(),
        0 <= depth <= scope.block_stack.len(),
        added.block == scope.block_seq + 1,
        inner.variables == scope.variables.push(added),
        inner.block_stack.len() >= scope.block_stack.len(),
        forall|i: int|
            0 <= i < scope.block_stack.len() ==> inner.block_stack[i] == scope.block_stack[i],
    ensures
        inner.lookup_from(name, depth) == scope.lookup_from(name, depth),
    decreases depth,
{
    lemma_find_from_push(scope.variables, added, name, 0, 0);
    if depth > 0 {
        lemma_find_from_push(scope.variables, added, name, scope.block_stack[depth - 1], 0);
        lemma_lookup_from_declare(scope, inner, added, name, depth - 1);
    }
}

/// What a name stands for does not depend on the blocks above the ones
/// that are searched.
proof fn lemma_lookup_from_prefix(a: ScopeModel, b: ScopeModel, name: Seq<char>, depth: int)
    requires
        a.variables == b.variables,
        0 <= depth <= a.block_stack.len(),
        depth <= b.block_stack.len(),
        forall|i: int| 0 <= i < depth ==> a.block_stack[i] == b.block_stack[i],
    ensures
        a.lookup_from(name, depth) == b.lookup_from(name, depth),
    decreases depth,
{
    if depth > 0 {
        lemma_lookup_from_prefix(a, b, name, depth - 1);
    }
}

/// A name declared in a block shadows the same name of the blocks around
/// it: inside the block the name stands for the new slot, and when the
/// block is closed it stands again for what it stood for before the block
/// was opened. Another name stands for the same slot throughout.
pub proof fn lemma_block_shadows(scope: ScopeModel, name: Seq<char>, other: Seq<char>)
    requires
        scope.numbered(),
        scope.can_nest(),
        scope.can_grow(),
        other != name,
    ensures
        scope.into_block().declare(name).lookup(name) == Some((scope.next + 8) as i64),
        scope.into_block().declare(name).lookup(other) == scope.lookup(other),
        scope.into_block().declare(name).outof_block().lookup(name) == scope.lookup(name),
        scope.into_block().declare(name).outof_block().lookup(other) == scope.lookup(other),
        scope.into_block().declare(name).outof_block().numbered(),
{
    let opened = scope.into_block();
    let inner = opened.declare(name);
    let closed = inner.outof_block();
    let number = (scope.block_seq + 1) as u64;
    let added = VariableModel { name, block: number, offset: (scope.next + 8) as i64 };
    let depth = scope.block_stack.len() as int;
    assert(opened.current_block() == number);
    assert(inner.variables == scope.variables.push(added));
    assert(inner.block_stack.len() == depth + 1 && inner.block_stack[depth] == number);
    assert(closed.block_stack =~= scope.block_stack);
    // Inside the block the new variable is found first.
    lemma_find_from_none(scope.variables, name, number, 0);
    lemma_find_from_push(scope.variables, added, name, number, 0);
    assert(inner.lookup_from(name, depth + 1) == Some(added.offset));
    // Another name is not found in the new block, and the search goes on
    // in the blocks around it.
    lemma_find_from_none(scope.variables, other, number, 0);
    lemma_find_from_push(scope.variables, added, other, number, 0);
    lemma_lookup_from_declare(scope, inner, added, other, depth);
    assert(inner.lookup_from(other, depth + 1) == inner.lookup_from(other, depth));
    // When the block is closed, its variable has a number that is not
    // searched.
    lemma_lookup_from_declare(scope, closed, added, name, depth);
    lemma_lookup_from_declare(scope, closed, added, other, depth);
    assert forall|i: int| 0 <= i < closed.variables.len() implies (
    #[trigger] closed.variables[i]).block <= closed.block_seq by {
        if i < scope.variables.len() {
            assert(closed.variables[i] == scope.variables[i]);
        }
    }
}

pub open spec fn instruction(instruction: InstructionModel) -> LineModel {
    LineModel::Instruction(instruction)
}

/// The lines that push the value of the slot at `offset`.
pub open spec fn load_lines(offset: PointerOffset) -> Seq<LineModel> {
    seq![
        instruction(
            InstructionModel::Mov(
                Writable::Register(Register::Rax),
                Readable::Register(Register::Rbp),
            ),
        ),
        instruction(InstructionModel::Sub(Register::Rax, Readable::Literal(offset))),
        instruction(
            InstructionModel::Mov(
                Writable::Register(Register::Rax),
                Readable::Address(Address { register: Register::Rax }),
            ),
        ),
        instruction(InstructionModel::Push(Readable::Register(Register::Rax))),
    ]
}

/// The lines that pop a value into the slot at `offset`.
pub open spec fn store_lines(offset: PointerOffset) -> Seq<LineModel> {
    seq![
        instruction(
            InstructionModel::Mov(
                Writable::Register(Register::Rax),
                Readable::Register(Register::Rbp),
            ),
        ),
        instruction(InstructionModel::Sub(Register::Rax, Readable::Literal(offset))),
        instruction(InstructionModel::Pop(Register::Rdi)),
        instruction(
            InstructionModel::Mov(
                Writable::Address(Address { register: Register::Rax }),
                Readable::Register(Register::Rdi),
            ),
        ),
    ]
}

/// The lines that set up a frame of `size` bytes.
pub open spec fn prologue_lines(size: PointerOffset) -> Seq<LineModel> {
    seq![
        instruction(InstructionModel::Push(Readable::Register(Register::Rbp))),
        instruction(
            InstructionModel::Mov(
                Writable::Register(Register::Rbp),
                Readable::Register(Register::Rsp),
            ),
        ),
        instruction(InstructionModel::Sub(Register::Rsp, Readable::Literal(size))),
    ]
}

/// The lines that give the frame up and return to the caller.
pub open spec fn epilogue_lines() -> Seq<LineModel> {
    seq![
        instruction(
            InstructionModel::Mov(
                Writable::Register(Register::Rsp),
                Readable::Register(Register::Rbp),
            ),
        ),
        instruction(InstructionModel::Pop(Register::Rbp)),
        instruction(InstructionModel::Ret),
    ]
}

/// The models of a sequence of variables.
pub open spec fn variable_models(variables: Seq<Variable>) -> Seq<VariableModel> {
    Seq::new(variables.len(), |i: int| variables[i]@)
}

/// The symbol table of one function: it gives each declared name a slot in
/// the function's frame and finds the slot a name stands for.
pub struct Scope {
    variables: Vec<Variable>,
    next: PointerOffset,
    block_stack: Vec<u64>,
    block_seq: u64,
}

impl View for Scope {
    type V = ScopeModel;

    closed spec fn view(&self) -> ScopeModel {
        ScopeModel {
            variables: variable_models(self.variables@),
            next: self.next,
            block_stack: self.block_stack@,
            block_seq: self.block_seq,
        }
    }
}

impl Scope {
    pub fn new() -> (r: Scope)
        ensures
            r@ == ScopeModel::fresh(),
    {
        let r = Scope {
            variables: Vec::new(),
            next: 0,
            block_stack: Vec::new(),
            block_seq: 1,
        };
        assert(variable_models(r.variables@) =~= Seq::empty());
        r
    }

    /// The size of the frame so far, in bytes.
    pub fn frame_size(&self) -> (r: PointerOffset)
        ensures
            r == self@.next,
    {
        self.next
    }

    /// The number given to the last block.
    pub fn last_block(&self) -> (r: u64)
        ensures
            r == self@.block_seq,
    {
        self.block_seq
    }

    /// Finds the slot of `name` in the given block.
    fn find(&self, name: &String, block: u64) -> (r: Option<PointerOffset>)
        ensures
            r == self@.find(name@, block),
    {
        let mut i: usize = 0;
        while i < self.variables.len()
            invariant
                i <= self.variables@.len(),
                self@.find(name@, block) == find_from(self@.variables, name@, block, i as int),
            decreases self.variables@.len() - i,
        {
            let variable = &self.variables[i];
            if variable.block == block && variable.name == *name {
                return Some(variable.offset);
            }
            i = i + 1;
        }
        None
    }

    /// Gives the lines that push the value of the variable that `target`
    /// names. Fails with the span of `target` where no open block and not
    /// the outermost scope declares the name.
    pub fn lookup(&self, target: &Code<String>) -> (r: Result<Vec<Line>, Span>)
        ensures
            match r {
                Ok(lines) => self@.lookup(target.value@) matches Some(offset) && line_models(
                    lines@,
                ) == load_lines(offset),
                Err(span) => self@.lookup(target.value@) is None && span == target.span,
            },
    {
        let mut depth = self.block_stack.len();
        let mut found: Option<PointerOffset> = None;
        while depth > 0 && found.is_none()
            invariant
                depth <= self.block_stack@.len(),
                match found {
                    Some(offset) => self@.lookup(target.value@) == Some(offset),
                    None => self@.lookup(target.value@) == self@.lookup_from(
                        target.value@,
                        depth as int,
                    ),
                },
            decreases depth + (if found is None { 1int } else { 0int }),
        {
            match self.find(&target.value, self.block_stack[depth - 1]) {
                Some(offset) => {
                    found = Some(offset);
                },
                None => {
                    depth = depth - 1;
                },
            }
        }
        if found.is_none() {
            found = self.find(&target.value, 0);
        }
        match found {
            Some(offset) => {
                let mut lines: Vec<Line> = Vec::new();
                lines.push(
                    Line::Instruction(
                        Instruction::Mov(
                            Writable::Register(Register::Rax),
                            Readable::Register(Register::Rbp),
                        ),
                    ),
                );
                lines.push(Line::Instruction(Instruction::Sub(Register::Rax, Readable::Literal(offset))));
                lines.push(
                    Line::Instruction(
                        Instruction::Mov(
                            Writable::Register(Register::Rax),
                            Readable::Address(Address::new(Register::Rax)),
                        ),
                    ),
                );
                lines.push(Line::Instruction(Instruction::Push(Readable::Register(Register::Rax))));
                assert(line_models(lines@) =~= load_lines(offset));
                Ok(lines)
            },
            None => Err(target.span),
        }
    }

    /// Gives `target` a new slot in the innermost open block and returns
    /// the lines that pop the top of the stack into it. Fails, and changes
    /// nothing, where that block has declared the name before.
    pub fn declare(&mut self, target: &String) -> (r: Result<Vec<Line>, ()>)
        requires
            old(self)@.can_grow(),
        ensures
            match r {
                Ok(lines) => !old(self)@.declares(target@) && final(self)@ == old(self)@.declare(
                    target@,
                ) && line_models(lines@) == store_lines(final(self)@.next),
                Err(_) => old(self)@.declares(target@) && final(self)@ == old(self)@,
            },
    {
        let block = if self.block_stack.len() == 0 {
            0
        } else {
            self.block_stack[self.block_stack.len() - 1]
        };
        if self.find(target, block).is_some() {
            return Err(());
        }
        let ghost before = self.variables@;
        self.next = self.next + 8;
        let variable = Variable { name: target.clone(), block, offset: self.next };
        self.variables.push(variable);
        assert(variable_models(self.variables@) =~= variable_models(before).push(variable@));
        let mut lines: Vec<Line> = Vec::new();
        lines.push(
            Line::Instruction(
                Instruction::Mov(Writable::Register(Register::Rax), Readable::Register(Register::Rbp)),
            ),
        );
        lines.push(Line::Instruction(Instruction::Sub(Register::Rax, Readable::Literal(self.next))));
        lines.push(Line::Instruction(Instruction::Pop(Register::Rdi)));
        lines.push(
            Line::Instruction(
                Instruction::Mov(
                    Writable::Address(Address::new(Register::Rax)),
                    Readable::Register(Register::Rdi),
                ),
            ),
        );
        assert(line_models(lines@) =~= store_lines(self.next));
        Ok(lines)
    }

    /// The lines that save the caller's frame base and reserve the frame.
    pub fn prologue(&self) -> (lines: Vec<Line>)
        ensures
            line_models(lines@) == prologue_lines(self@.next),
    {
        let mut lines: Vec<Line> = Vec::new();
        lines.push(Line::Instruction(Instruction::Push(Readable::Register(Register::Rbp))));
        lines.push(
            Line::Instruction(
                Instruction::Mov(Writable::Register(Register::Rbp), Readable::Register(Register::Rsp)),
            ),
        );
        lines.push(Line::Instruction(Instruction::Sub(Register::Rsp, Readable::Literal(self.next))));
        assert(line_models(lines@) =~= prologue_lines(self.next));
        lines
    }

    /// The lines that give the frame up and return to the caller.
    pub fn epilogue(&self) -> (lines: Vec<Line>)
        ensures
            line_models(lines@) == epilogue_lines(),
    {
        let mut lines: Vec<Line> = Vec::new();
        lines.push(
            Line::Instruction(
                Instruction::Mov(Writable::Register(Register::Rsp), Readable::Register(Register::Rbp)),
            ),
        );
        lines.push(Line::Instruction(Instruction::Pop(Register::Rbp)));
        lines.push(Line::Instruction(Instruction::Ret));
        assert(line_models(lines@) =~= epilogue_lines());
        lines
    }

    /// Opens a block: names declared from now on shadow those of the
    /// blocks around it.
    pub fn into_block(&mut self)
        requires
            old(self)@.can_nest(),
        ensures
            final(self)@ == old(self)@.into_block(),
    {
        self.block_seq = self.block_seq + 1;
        self.block_stack.push(self.block_seq);
    }

    /// Closes the innermost block.
    pub fn outof_block(&mut self)
        ensures
            final(self)@ == old(self)@.outof_block(),
    {
        let ghost before = self.block_stack@;
        let _ = self.block_stack.pop();
        assert(before.len() > 0 ==> self.block_stack@ =~= before.drop_last());
    }
}

} // verus!
