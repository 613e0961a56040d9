//! Lowering of an elaborated program to a plan of LLVM instructions: the
//! functions to declare and, for each, its basic blocks and the steps that
//! fill them, in the order in which an LLVM builder makes them.

use vstd::prelude::*;
use crate::ast::{BinaryOperator, UnaryOperator};
use crate::codegen::{ComparisonPredicate, bit_pattern, comparison_predicate, entry_function, function_name, integer_bit_pattern, is_entry, llvm_function_name, predicate_of, value_width};
use crate::comptime::{ComptimeFunction, ComptimeValue, FunctionId};
use crate::elaboration::{ElaboratedProgram, program_within, template_bound};
use crate::hir::{
    HirBlock, HirElseBranch, HirExpression, HirExpressionData, HirParameter, HirPlace, HirPlaceData, HirStatement,
    HirStatementData, block_diverges, block_refs_valid, expression_refs_valid, function_refs_valid, place_refs_valid,
    statement_diverges, statement_refs_valid,
};
use crate::symbols::{Symbol, SymbolId, SymbolKind};
use crate::text::{decimal_text, join, type_debug_text, value_debug_text};
use crate::types::{IntegerType, TargetInfo, Type, spec_bit_width, spec_is_signed, spec_maximum, spec_minimum, supported_width};
use crate::elaboration::evaluation::{comparison_result, integer_outcome, is_arithmetic};

verus! {

broadcast use vstd::std_specs::vec::axiom_vec_index_decreases;

/// A value computed by an instruction of the function being built.
#[derive(Debug, Clone, Copy, PartialEq, Eq, Structural)]
pub struct Register(pub u32);

/// A basic block of the function being built: its index there.
#[derive(Debug, Clone, Copy, PartialEq, Eq, Structural)]
pub struct BlockId(pub u32);

/// The integer arithmetic that LLVM performs.
#[derive(Debug, Clone, Copy, PartialEq, Eq, Structural)]
pub enum ArithmeticOpcode {
    Add,
    Subtract,
    Multiply,
    SignedDivide,
    UnsignedDivide,
}

/// A function that a call can reach.
#[derive(Debug, Clone, Copy, PartialEq, Eq, Structural)]
pub enum Callee {
    /// A compile-time function, declared as `flang_fn_` and its index.
    Function(FunctionId),
    /// An external function, declared under its link name.
    External(SymbolId),
    /// LLVM's `llvm.trap` intrinsic.
    Trap,
}

/// One step of building a basic block: an instruction, or the terminator
/// that ends the block.
#[derive(Debug)]
pub enum Step {
    /// `dest` is the integer constant `bits` of `width` bits.
    Constant { dest: Register, width: u32, bits: u64, signed: bool },
    /// `dest` is the function's parameter `index`, named `arg` and the index.
    Parameter { dest: Register, index: u32 },
    /// `dest` is `lhs opcode rhs`.
    Arithmetic { dest: Register, opcode: ArithmeticOpcode, lhs: Register, rhs: Register },
    /// `dest` is the comparison of `lhs` with `rhs`.
    Compare { dest: Register, predicate: ComparisonPredicate, lhs: Register, rhs: Register },
    /// `dest` is `-operand`.
    Negate { dest: Register, operand: Register },
    /// Calls `callee`; `dest` receives the result of a function that has one.
    Call { dest: Option<Register>, callee: Callee, arguments: Vec<Register> },
    /// `dest` points to fresh stack storage for an integer of `width` bits.
    Allocate { dest: Register, width: u32, name: String },
    /// `dest` points to fresh stack storage for `length` integers of `element_width` bits.
    AllocateArray { dest: Register, element_width: u32, length: u32, name: String },
    /// Stores zeros into the whole array that `pointer` points to.
    StoreZeroArray { pointer: Register, element_width: u32, length: u32 },
    /// Stores `value` where `pointer` points.
    Store { pointer: Register, value: Register },
    /// `dest` is the integer of `width` bits that `pointer` points to.
    Load { dest: Register, width: u32, pointer: Register },
    /// `dest` points to element `index` of the array at `array`; `zero` is
    /// the first index of the address computation.
    ElementPointer { dest: Register, array: Register, element_width: u32, length: u32, zero: Register, index: Register },
    /// `dest` is `value` truncated to `width` bits.
    Truncate { dest: Register, value: Register, width: u32 },
    /// Ends the block by returning, with a value or none.
    Return { value: Option<Register> },
    /// Ends the block by jumping to `target`.
    Branch { target: BlockId },
    /// Ends the block by jumping to `then_block` when `condition` holds, else to `else_block`.
    ConditionalBranch { condition: Register, then_block: BlockId, else_block: BlockId },
    /// Ends a block that control never reaches.
    Unreachable,
}

/// A basic block: its name and its steps in order.
#[derive(Debug)]
pub struct BlockPlan {
    pub name: &'static str,
    pub steps: Vec<Step>,
}

/// A function to define: its name, the widths of its parameters and of its
/// result (`None` for a function that returns nothing), and its blocks.
#[derive(Debug)]
pub struct FunctionPlan {
    pub name: String,
    pub parameter_widths: Vec<u32>,
    pub return_width: Option<u32>,
    pub blocks: Vec<BlockPlan>,
}

/// An external function to declare.
#[derive(Debug)]
pub struct ExternalDeclaration {
    pub symbol: SymbolId,
    pub link_name: String,
    pub parameter_widths: Vec<u32>,
    pub return_width: Option<u32>,
}

/// The whole module: external functions to declare, the compile-time
/// functions in the order of their identities, then the executable's `main`.
#[derive(Debug)]
pub struct ModulePlan {
    pub externals: Vec<ExternalDeclaration>,
    pub functions: Vec<FunctionPlan>,
    pub main: FunctionPlan,
}

/// The width that a function with result type `type_` returns: `Some(None)`
/// for `unit`, which returns nothing; `None` for a type it cannot return.
pub open spec fn result_width(type_: Type, target: TargetInfo) -> Option<Option<u32>> {
    match type_ {
        Type::Integer(t) => Some(Some(spec_bit_width(t, target))),
        Type::Bool => Some(Some(1u32)),
        Type::Unit => Some(None),
        _ => None,
    }
}

/// `widths` are, one for one, the widths of values of `types`.
pub open spec fn widths_of(types: Seq<Type>, target: TargetInfo, widths: Seq<u32>) -> bool {
    &&& widths.len() == types.len()
    &&& forall|i: int| 0 <= i < types.len() ==> value_width(#[trigger] types[i], target) == Some(widths[i])
}

/// The types of the parameters of a compile-time function.
pub open spec fn parameter_types(function: ComptimeFunction) -> Seq<Type> {
    function.hir.parameters@.map_values(|parameter: HirParameter| parameter.type_)
}

/// `plan` declares the compile-time function `id`: its name, and the
/// widths of its parameters and result.
pub open spec fn declares_function(plan: FunctionPlan, id: int, function: ComptimeFunction, target: TargetInfo) -> bool {
    &&& plan.name@ == function_name(FunctionId(id as u32))
    &&& widths_of(parameter_types(function), target, plan.parameter_widths@)
    &&& result_width(function.hir.return_type, target) == Some(plan.return_width)
}

/// `declaration` declares the external function `symbol` under its link name.
pub open spec fn declares_external(declaration: ExternalDeclaration, symbol: Symbol, target: TargetInfo) -> bool {
    match symbol.kind {
        SymbolKind::ExternFunction { link_name, .. } => match symbol.type_ {
            Type::Function { parameters, return_type } => {
                &&& declaration.link_name@ == link_name@
                &&& widths_of(parameters@, target, declaration.parameter_widths@)
                &&& result_width(*return_type, target) == Some(declaration.return_width)
            },
            _ => false,
        },
        _ => false,
    }
}

/// The declarations are those of the external functions of the symbol table,
/// each once, in the order of the table.
pub open spec fn declares_externals(declarations: Seq<ExternalDeclaration>, symbols: Seq<Symbol>, target: TargetInfo) -> bool {
    &&& forall|k: int| 0 <= k < declarations.len() ==> {
        &&& (#[trigger] declarations[k]).symbol.0 < symbols.len()
        &&& declares_external(declarations[k], symbols[declarations[k].symbol.0 as int], target)
    }
    &&& forall|k: int, l: int| 0 <= k < l < declarations.len() ==>
        (#[trigger] declarations[k]).symbol.0 < (#[trigger] declarations[l]).symbol.0
    &&& forall|s: int| 0 <= s < symbols.len() && (#[trigger] symbols[s]).kind is ExternFunction ==>
        exists|k: int| 0 <= k < declarations.len() && #[trigger] declarations[k].symbol.0 == s
}

/// The plans declare the compile-time functions of `functions`, one for one,
/// in the order of their identities.
pub open spec fn declares_functions(plans: Seq<FunctionPlan>, functions: Seq<ComptimeFunction>, target: TargetInfo) -> bool {
    &&& plans.len() == functions.len()
    &&& forall|i: int| 0 <= i < plans.len() ==> declares_function(#[trigger] plans[i], i, functions[i], target)
}

/// The executable's `main`: it takes nothing, calls the compile-time
/// function `id` without arguments, and returns its result cut to 32 bits.
pub open spec fn main_calls(main: FunctionPlan, id: FunctionId) -> bool {
    &&& main.name@ == seq!['m', 'a', 'i', 'n']
    &&& main.parameter_widths@.len() == 0
    &&& main.return_width == Some(32u32)
    &&& main.blocks@.len() == 1
    &&& main.blocks@[0].steps@.len() == 3
    &&& match main.blocks@[0].steps@[0] {
        Step::Call { dest: Some(result), callee, arguments } => {
            &&& callee == Callee::Function(id)
            &&& arguments@.len() == 0
            &&& match main.blocks@[0].steps@[1] {
                Step::Truncate { dest: status, value, width } => {
                    &&& value == result
                    &&& width == 32
                    &&& main.blocks@[0].steps@[2] == (Step::Return { value: Some(status) })
                },
                _ => false,
            }
        },
        _ => false,
    }
}

/// Whether values of `type_` are signed integers.
pub open spec fn signed_type(type_: Type) -> bool {
    match type_ {
        Type::Integer(t) => spec_is_signed(t),
        _ => false,
    }
}

/// The instruction for an arithmetic operator on integers of the given
/// signedness: division is signed or unsigned as the integers are.
pub open spec fn opcode_of(operator: BinaryOperator, signed: bool) -> ArithmeticOpcode {
    match operator {
        BinaryOperator::Add => ArithmeticOpcode::Add,
        BinaryOperator::Subtract => ArithmeticOpcode::Subtract,
        BinaryOperator::Multiply => ArithmeticOpcode::Multiply,
        _ => if signed { ArithmeticOpcode::SignedDivide } else { ArithmeticOpcode::UnsignedDivide },
    }
}

/// What an arithmetic instruction computes from the values of its operands,
/// read as integers of the operands' signedness: the sum, the difference,
/// the product, or the quotient rounded toward zero.
pub open spec fn opcode_result(opcode: ArithmeticOpcode, a: int, b: int) -> int {
    match opcode {
        ArithmeticOpcode::Add => a + b,
        ArithmeticOpcode::Subtract => a - b,
        ArithmeticOpcode::Multiply => a * b,
        ArithmeticOpcode::SignedDivide => if b == 0 {
            0
        } else if (a >= 0) == (b > 0) {
            absolute(a) / absolute(b)
        } else {
            -(absolute(a) / absolute(b))
        },
        ArithmeticOpcode::UnsignedDivide => if b == 0 { 0 } else { a / b },
    }
}

/// What a comparison instruction decides of the values of its operands.
pub open spec fn predicate_holds(predicate: ComparisonPredicate, a: int, b: int) -> bool {
    match predicate {
        ComparisonPredicate::Equal => a == b,
        ComparisonPredicate::NotEqual => a != b,
        ComparisonPredicate::SignedLess | ComparisonPredicate::UnsignedLess => a < b,
        ComparisonPredicate::SignedLessOrEqual | ComparisonPredicate::UnsignedLessOrEqual => a <= b,
        ComparisonPredicate::SignedGreater | ComparisonPredicate::UnsignedGreater => a > b,
        ComparisonPredicate::SignedGreaterOrEqual | ComparisonPredicate::UnsignedGreaterOrEqual => a >= b,
    }
}

/// The absolute value of `x`.
pub open spec fn absolute(x: int) -> int {
    if x < 0 { -x } else { x }
}

/// Law: the instruction that lowering plans for an arithmetic operator on
/// integers of type `t` computes, on operands of `t`, the value that the
/// operator has at compile time whenever that value fits `t`.
pub proof fn law_lowered_arithmetic_agrees(operator: BinaryOperator, a: i128, b: i128, t: IntegerType, target: TargetInfo)
    requires
        is_arithmetic(operator),
        spec_minimum(t, target) <= a <= spec_maximum(t, target),
        spec_minimum(t, target) <= b <= spec_maximum(t, target),
        integer_outcome(operator, a, b, t, target) is Value,
    ensures
        opcode_result(opcode_of(operator, spec_is_signed(t)), a as int, b as int)
            == integer_outcome(operator, a, b, t, target)->Value_0,
{
    if operator is Divide {
        let x = a as int;
        let d = b as int;
        assert(d != 0);
        if x > 0 && d > 0 {
        } else if x < 0 && d < 0 {
            assert((x * -1) == absolute(x));
            assert((d * -1) == absolute(d));
        } else if x < 0 {
            assert((x * -1) == absolute(x));
        } else if x > 0 {
            assert((d * -1) == absolute(d));
        }
    }
}

/// Law: the comparison instruction that lowering plans for a comparison
/// operator on integers of type `t` decides, on operands of `t`, what the
/// operator decides at compile time.
pub proof fn law_lowered_comparison_agrees(operator: BinaryOperator, a: i128, b: i128, t: IntegerType, target: TargetInfo)
    requires
        !is_arithmetic(operator),
        spec_minimum(t, target) <= a <= spec_maximum(t, target),
        spec_minimum(t, target) <= b <= spec_maximum(t, target),
    ensures
        predicate_of(operator, spec_is_signed(t)) matches Some(p)
            && predicate_holds(p, a as int, b as int) == comparison_result(operator, a as int, b as int),
{
}

/// The last step that an expression of `expression`'s kind plans for its
/// value `r`: an integer or boolean literal is a constant of its type's
/// width and bit pattern, a comparison compares with the predicate of its
/// operands' signedness, other binary operators compute with the opcode of
/// that signedness, and a negation negates.
pub open spec fn value_step(expression: HirExpression, r: Register, target: TargetInfo, step: Step) -> bool {
    match expression.data {
        HirExpressionData::Integer(v) => match expression.type_ {
            Type::Integer(t) => step == (Step::Constant {
                dest: r,
                width: spec_bit_width(t, target),
                bits: bit_pattern(v as int, spec_bit_width(t, target) as nat) as u64,
                signed: spec_is_signed(t),
            }),
            _ => false,
        },
        HirExpressionData::Bool(b) => step == (Step::Constant { dest: r, width: 1, bits: if b { 1 } else { 0 }, signed: false }),
        HirExpressionData::Binary { lhs, operator, rhs } => match predicate_of(operator, signed_type(lhs.type_)) {
            Some(p) => match step {
                Step::Compare { dest, predicate, .. } => dest == r && predicate == p,
                _ => false,
            },
            None => match step {
                Step::Arithmetic { dest, opcode, .. } => dest == r && opcode == opcode_of(operator, signed_type(lhs.type_)),
                _ => false,
            },
        },
        HirExpressionData::Unary { .. } => step matches Step::Negate { dest, .. } && dest == r,
        _ => true,
    }
}

/// A step that ends its basic block.
pub open spec fn is_terminator(step: Step) -> bool {
    step is Return || step is Branch || step is ConditionalBranch || step is Unreachable
}

/// No step ends the block yet.
pub open spec fn block_open(steps: Seq<Step>) -> bool {
    forall|i: int| 0 <= i < steps.len() ==> !is_terminator(#[trigger] steps[i])
}

/// The block ends with a terminator, its only one.
pub open spec fn block_closed(steps: Seq<Step>) -> bool {
    &&& steps.len() > 0
    &&& is_terminator(steps.last())
    &&& block_open(steps.drop_last())
}

/// Every block of the function ends with its only terminator.
pub open spec fn function_closed(plan: FunctionPlan) -> bool {
    forall|j: int| 0 <= j < plan.blocks@.len() ==> block_closed(#[trigger] plan.blocks@[j].steps@)
}

/// Every path through the function ends in a return: its body never goes on
/// past its end, or it returns `unit` and is given a return at its end.
pub open spec fn ends_in_return(function: ComptimeFunction) -> bool {
    block_diverges(function.hir.body) || function.hir.return_type is Unit
}

/// A literal that lowering plans as one constant: a boolean, or an integer
/// of an integer type.
pub open spec fn plain_literal(e: HirExpression) -> bool {
    e.data is Bool || (e.data is Integer && e.type_ is Integer)
}

/// The operands of a comparison or arithmetic step.
pub open spec fn step_operands(step: Step) -> Option<(Register, Register)> {
    match step {
        Step::Compare { lhs, rhs, .. } => Some((lhs, rhs)),
        Step::Arithmetic { lhs, rhs, .. } => Some((lhs, rhs)),
        _ => None,
    }
}

/// The plan of `f`'s body, when `f` does nothing but return a plain literal:
/// the literal's constant in the first register, then its return.
pub open spec fn literal_body(f: ComptimeFunction, target: TargetInfo, blocks: Seq<BlockPlan>) -> bool {
    plain_function(f) && f.hir.body.statements@.len() > 0 ==> match f.hir.body.statements@[0].data {
        HirStatementData::Return(Some(e)) => plain_literal(e) ==> {
            &&& blocks.len() == 1
            &&& blocks[0].steps@.len() == 2
            &&& value_step(e, Register(0), target, blocks[0].steps@[0])
            &&& blocks[0].steps@[1] == (Step::Return { value: Some(Register(0)) })
        },
        _ => true,
    }
}

/// A return of nothing or of a plain literal.
pub open spec fn plain_return(s: HirStatement) -> bool {
    s.data matches HirStatementData::Return(value) && (value matches Some(e) ==> plain_literal(e))
}

/// A function that lowering plans without looking past its first statement:
/// it captures nothing, takes no parameters, and its body starts with a plain
/// return, or is empty in a function that returns `unit`.
pub open spec fn plain_function(f: ComptimeFunction) -> bool {
    &&& f.captures@.len() == 0
    &&& f.hir.parameters@.len() == 0
    &&& (f.hir.body.statements@.len() > 0 && plain_return(f.hir.body.statements@[0]))
        || (f.hir.body.statements@.len() == 0 && f.hir.return_type is Unit)
}

/// An external function symbol has a signature that LLVM can declare:
/// a function type of integer or boolean parameters, with such a result or none.
pub open spec fn external_declarable(symbol: Symbol, target: TargetInfo) -> bool {
    symbol.kind is ExternFunction ==> match symbol.type_ {
        Type::Function { parameters, return_type } => {
            &&& forall|i: int| 0 <= i < parameters@.len() ==> (#[trigger] value_width(parameters@[i], target)) is Some
            &&& result_width(*return_type, target) is Some
        },
        _ => false,
    }
}

/// A compile-time function has a signature that LLVM can declare.
pub open spec fn function_declarable(f: ComptimeFunction, target: TargetInfo) -> bool {
    &&& forall|i: int| 0 <= i < parameter_types(f).len() ==> (#[trigger] value_width(parameter_types(f)[i], target)) is Some
    &&& result_width(f.hir.return_type, target) is Some
}

/// How a statement ends: a return ends the block it leaves control in
/// (`ending`) with a return, with a value exactly when the statement has
/// one; a loop ends the block it started in (`started`) with a branch to its
/// condition and goes on after the loop; statements other than returns,
/// loops and conditionals go on.
pub open spec fn statement_step(statement: HirStatement, flow: EmitFlow, started: Seq<Step>, ending: Seq<Step>) -> bool {
    match statement.data {
        HirStatementData::Return(value) => {
            &&& flow == EmitFlow::Terminates
            &&& ending.last() matches Step::Return { value: returned }
            &&& returned is Some == value is Some
        },
        HirStatementData::If { .. } => true,
        HirStatementData::While { .. } => flow == EmitFlow::Continues && started.last() is Branch,
        _ => flow == EmitFlow::Continues,
    }
}

/// A local of the function being built, as LLVM holds it.
#[derive(Debug, Clone, Copy, PartialEq, Eq, Structural)]
pub enum LocalOperand {
    Value(Register),
    Mutable(Register),
    Array { pointer: Register, element_width: u32, length: u32 },
}

/// Whether emission can continue after a statement or control has left the block.
#[derive(Debug, Clone, Copy, PartialEq, Eq, Structural)]
pub enum EmitFlow {
    Continues,
    Terminates,
}

/// The locals of the function being built, latest last.
pub type Operands = Vec<(SymbolId, LocalOperand)>;

/// The local that `symbol` stands for among `operands`: its latest entry.
pub open spec fn operand_entry(operands: Seq<(SymbolId, LocalOperand)>, symbol: SymbolId) -> Option<LocalOperand>
    decreases operands.len(),
{
    if operands.len() == 0 {
        None
    } else if operands.last().0 == symbol {
        Some(operands.last().1)
    } else {
        operand_entry(operands.drop_last(), symbol)
    }
}

/// The local that `symbol` stands for: its latest entry.
fn operand_of(operands: &Operands, symbol: SymbolId) -> (operand: Option<LocalOperand>)
    ensures
        operand == operand_entry(operands@, symbol),
{
    let mut i: usize = operands.len();
    assert(operands@.take(i as int) =~= operands@);
    while i > 0
        invariant
            i <= operands@.len(),
            operand_entry(operands@, symbol) == operand_entry(operands@.take(i as int), symbol),
        decreases i,
    {
        assert(operands@.take(i as int).last() == operands@[i - 1]);
        assert(operands@.take(i as int).drop_last() =~= operands@.take(i - 1));
        if operands[i - 1].0 == symbol {
            return Some(operands[i - 1].1);
        }
        i = i - 1;
    }
    None
}

/// A copy of the locals, for a branch that may add its own.
fn copy_operands(operands: &Operands) -> (copy: Operands)
    ensures
        copy@ == operands@,
{
    let mut copy: Operands = Vec::new();
    let mut i: usize = 0;
    while i < operands.len()
        invariant
            i <= operands@.len(),
            copy@ == operands@.subrange(0, i as int),
        decreases operands@.len() - i,
    {
        copy.push(operands[i]);
        i += 1;
    }
    assert(operands@.subrange(0, i as int) =~= operands@);
    copy
}

/// Plans the LLVM code of an elaborated program for `target`.
pub struct CodeGenerator<'program> {
    program: &'program ElaboratedProgram,
    target: TargetInfo,
    declared_functions: Vec<FunctionId>,
    external_functions: Vec<SymbolId>,
    blocks: Vec<BlockPlan>,
    current: usize,
    widths: Vec<u32>,
}

/// What holds of a code generator between its steps: it builds in a block
/// of the function under construction.
pub open spec fn generator_wf(blocks: Seq<BlockPlan>, current: usize, widths: Seq<u32>) -> bool {
    &&& current < blocks.len()
    &&& blocks.len() <= u32::MAX
    &&& widths.len() <= u32::MAX
}

impl<'program> CodeGenerator<'program> {
    /// The generator is building in one of the blocks it made.
    pub closed spec fn wf(&self) -> bool {
        &&& generator_wf(self.blocks@, self.current, self.widths@)
        &&& supported_width(self.target)
        &&& program_within(self.program)
    }

    /// Every compile-time function of the program is declared, in the order
    /// of its identity.
    closed spec fn declared_all(&self) -> bool {
        &&& self.declared_functions@.len() == self.program.functions.view_functions().len()
        &&& forall|k: int| 0 <= k < self.declared_functions@.len() ==> #[trigger] self.declared_functions@[k] == FunctionId(k as u32)
    }

    /// Nothing is declared yet.
    pub closed spec fn is_fresh(&self) -> bool {
        self.declared_functions@.len() == 0
    }

    /// The elaborated expression refers only to symbols and functions of the program.
    closed spec fn in_program(&self, e: HirExpression) -> bool {
        expression_refs_valid(e, self.program.symbols.symbols@.len(), self.program.functions.view_functions().len(), template_bound())
    }

    /// The elaborated block refers only to symbols and functions of the program.
    closed spec fn block_in_program(&self, b: HirBlock) -> bool {
        block_refs_valid(b, self.program.symbols.symbols@.len(), self.program.functions.view_functions().len(), template_bound())
    }

    /// The elaborated statement refers only to symbols and functions of the program.
    closed spec fn statement_in_program(&self, st: HirStatement) -> bool {
        statement_refs_valid(st, self.program.symbols.symbols@.len(), self.program.functions.view_functions().len(), template_bound())
    }

    /// The assignment target refers only to symbols and functions of the program.
    closed spec fn place_in_program(&self, p: HirPlace) -> bool {
        place_refs_valid(p, self.program.symbols.symbols@.len(), self.program.functions.view_functions().len(), template_bound())
    }

    /// How a step of building a function may change the generator: it stays
    /// well formed, keeps its program, target and declarations, and only adds blocks.
    pub closed spec fn extends(&self, later: Self) -> bool {
        &&& later.wf()
        &&& later.target == self.target
        &&& later.program == self.program
        &&& later.declared_functions == self.declared_functions
        &&& later.external_functions == self.external_functions
        &&& later.blocks@.len() >= self.blocks@.len()
    }

    /// What a call's callee reaches: a function known at compile time, an
    /// external function that was declared, or the function or external
    /// function that a symbol's compile-time value is.
    pub closed spec fn callee_of(&self, callee: HirExpression, c: Callee) -> bool {
        match callee.data {
            HirExpressionData::KnownFunction(id) => c == Callee::Function(id) && self.declared_functions@.contains(id),
            HirExpressionData::Symbol(s) => if self.external_functions@.contains(s) {
                c == Callee::External(s)
            } else {
                &&& self.program.values.view_values().contains_key(s.0)
                &&& match self.program.values.view_values()[s.0] {
                    ComptimeValue::Function(id) => c == Callee::Function(id) && self.declared_functions@.contains(id),
                    ComptimeValue::ExternFunction(e) => c == Callee::External(e) && self.external_functions@.contains(e),
                    _ => false,
                }
            },
            _ => false,
        }
    }

    /// The program that the generator plans.
    pub closed spec fn spec_program(&self) -> &'program ElaboratedProgram {
        self.program
    }

    /// The target that the generator plans for.
    pub closed spec fn spec_target(&self) -> TargetInfo {
        self.target
    }

    /// A generator for `program` on `target`, with nothing planned yet.
    pub fn new(program: &'program ElaboratedProgram, target: TargetInfo) -> (generator: CodeGenerator<'program>)
        requires
            supported_width(target),
            program_within(program),
        ensures
            generator.wf(),
            generator.spec_program() == program,
            generator.spec_target() == target,
            generator.is_fresh(),
    {
        let mut blocks: Vec<BlockPlan> = Vec::new();
        blocks.push(BlockPlan { name: "entry", steps: Vec::new() });
        CodeGenerator {
            program,
            target,
            declared_functions: Vec::new(),
            external_functions: Vec::new(),
            blocks,
            current: 0,
            widths: Vec::new(),
        }
    }

    /// Starts a new function: one empty block named `entry`, current, and no registers.
    fn start_function(&mut self)
        ensures
            final(self).wf() == (supported_width(final(self).target) && program_within(final(self).program)),
            final(self).blocks@.len() == 1,
            final(self).blocks@[0].steps@.len() == 0,
            final(self).current == 0,
            final(self).widths@.len() == 0,
            final(self).target == old(self).target,
            final(self).program == old(self).program,
            final(self).declared_functions == old(self).declared_functions,
            final(self).external_functions == old(self).external_functions,
    {
        let mut blocks: Vec<BlockPlan> = Vec::new();
        blocks.push(BlockPlan { name: "entry", steps: Vec::new() });
        self.blocks = blocks;
        self.current = 0;
        self.widths = Vec::new();
    }

    /// Takes the blocks of the function just built.
    fn finish_function(&mut self) -> (blocks: Vec<BlockPlan>)
        requires
            old(self).wf(),
        ensures
            blocks@ == old(self).blocks@,
            final(self).wf(),
            final(self).target == old(self).target,
            final(self).program == old(self).program,
            final(self).declared_functions == old(self).declared_functions,
            final(self).external_functions == old(self).external_functions,
    {
        let mut blocks: Vec<BlockPlan> = Vec::new();
        blocks.push(BlockPlan { name: "entry", steps: Vec::new() });
        std::mem::swap(&mut blocks, &mut self.blocks);
        self.current = 0;
        self.widths = Vec::new();
        blocks
    }

    /// A new register that holds an integer of `width` bits.
    fn fresh_register(&mut self, width: u32) -> (result: Result<Register, String>)
        requires
            old(self).wf(),
        ensures
            old(self).extends(*final(self)),
            result matches Ok(r) ==> r.0 < final(self).widths@.len() && final(self).widths@[r.0 as int] == width,
            result matches Ok(r) ==> r.0 == old(self).widths@.len() && final(self).widths@ == old(self).widths@.push(width),
            result is Err ==> final(self).widths == old(self).widths,
            final(self).blocks == old(self).blocks,
            final(self).current == old(self).current,
            result is Ok <==> old(self).widths@.len() < u32::MAX,
    {
        if self.widths.len() >= 0xffff_ffff {
            return Err(String::from_str("function needs more LLVM values than the compiler can name"));
        }
        let register = Register(self.widths.len() as u32);
        self.widths.push(width);
        Ok(register)
    }

    /// The width of the integer that `register` holds.
    fn width_of(&self, register: Register) -> (width: u32)
        ensures
            width == (if register.0 < self.widths@.len() { self.widths@[register.0 as int] } else { 0 }),
    {
        if (register.0 as usize) < self.widths.len() {
            self.widths[register.0 as usize]
        } else {
            0
        }
    }

    /// Appends a step to the current block.
    fn push_step(&mut self, step: Step)
        requires
            old(self).wf(),
        ensures
            old(self).extends(*final(self)),
            final(self).widths == old(self).widths,
            final(self).blocks@.len() == old(self).blocks@.len(),
            final(self).current == old(self).current,
            final(self).blocks@[old(self).current as int].steps@ == old(self).blocks@[old(self).current as int].steps@.push(step),
            final(self).blocks@[old(self).current as int].name == old(self).blocks@[old(self).current as int].name,
            forall|j: int| 0 <= j < old(self).blocks@.len() && j != old(self).current ==>
                #[trigger] final(self).blocks@[j] == old(self).blocks@[j],
    {
        let index = self.current;
        let mut block = BlockPlan { name: "entry", steps: Vec::new() };
        std::mem::swap(&mut block, &mut self.blocks[index]);
        block.steps.push(step);
        std::mem::swap(&mut block, &mut self.blocks[index]);
    }

    /// Appends a new, empty block named `name` to the function.
    fn append_block(&mut self, name: &'static str) -> (result: Result<BlockId, String>)
        requires
            old(self).wf(),
        ensures
            old(self).extends(*final(self)),
            final(self).current == old(self).current,
            final(self).widths == old(self).widths,
            result matches Ok(b) ==> {
                &&& b.0 == old(self).blocks@.len()
                &&& final(self).blocks@.len() == old(self).blocks@.len() + 1
                &&& final(self).blocks@[b.0 as int].steps@.len() == 0
            },
            result matches Ok(b) ==> final(self).blocks@[b.0 as int].name == name,
            result is Err ==> final(self).blocks == old(self).blocks,
            result is Err <==> old(self).blocks@.len() >= 0xffff_fffe,
            forall|j: int| 0 <= j < old(self).blocks@.len() ==> #[trigger] final(self).blocks@[j] == old(self).blocks@[j],
    {
        if self.blocks.len() >= 0xffff_fffe {
            return Err(String::from_str("function needs more basic blocks than the compiler can name"));
        }
        let id = BlockId(self.blocks.len() as u32);
        self.blocks.push(BlockPlan { name, steps: Vec::new() });
        Ok(id)
    }

    /// Makes `block` the block that steps are appended to.
    fn position_at_end(&mut self, block: BlockId)
        requires
            old(self).wf(),
            (block.0 as int) < old(self).blocks@.len(),
        ensures
            old(self).extends(*final(self)),
            final(self).blocks == old(self).blocks,
            final(self).widths == old(self).widths,
            final(self).current == block.0,
    {
        self.current = block.0 as usize;
    }

    /// The step that the current block ends with so far.
    closed spec fn last_step(&self) -> Step {
        self.blocks@[self.current as int].steps@.last()
    }

    /// The current block is still open for more steps.
    closed spec fn building(&self) -> bool {
        block_open(self.blocks@[self.current as int].steps@)
    }

    /// From `self` to `later`, planning only added steps to the current block
    /// and to blocks it made itself; each of those that it left ends with its
    /// only terminator, and the block it builds in now is still open when
    /// `continues`, and ended otherwise.
    closed spec fn planned_from(&self, later: Self, continues: bool) -> bool {
        &&& forall|j: int| 0 <= j < self.blocks@.len() && j != self.current ==> #[trigger] later.blocks@[j] == self.blocks@[j]
        &&& forall|j: int| 0 <= j < later.blocks@.len() && j != later.current && (j >= self.blocks@.len() || j == self.current) ==>
            block_closed(#[trigger] later.blocks@[j].steps@)
        &&& later.current >= self.blocks@.len() || later.current == self.current
        &&& if continues { later.building() } else { block_closed(later.blocks@[later.current as int].steps@) }
    }

    /// A register holding the integer constant `bits` of `width` bits.
    fn constant(&mut self, width: u32, bits: u64, signed: bool) -> (result: Result<Register, String>)
        requires
            old(self).wf(),
        ensures
            old(self).extends(*final(self)),
            result matches Ok(r) ==> final(self).last_step() == (Step::Constant { dest: r, width, bits, signed }),
            result matches Ok(r) ==> r.0 == old(self).widths@.len() && final(self).widths@ == old(self).widths@.push(width),
            result matches Ok(r) ==> final(self).blocks@[old(self).current as int].steps@
                == old(self).blocks@[old(self).current as int].steps@.push(Step::Constant { dest: r, width, bits, signed }),
            result is Ok <==> old(self).widths@.len() < u32::MAX,
            final(self).current == old(self).current,
            final(self).blocks@.len() == old(self).blocks@.len(),
            forall|j: int| 0 <= j < old(self).blocks@.len() && j != old(self).current ==>
                #[trigger] final(self).blocks@[j] == old(self).blocks@[j],
            old(self).building() ==> result is Ok ==> old(self).planned_from(*final(self), true),
    {
        let dest = self.fresh_register(width)?;
        self.push_step(Step::Constant { dest, width, bits, signed });
        Ok(dest)
    }

    /// The width of the LLVM integer that holds a value of `type_`.
    fn llvm_int_type(&self, type_: &Type) -> (result: Result<u32, String>)
        requires
            self.wf(),
        ensures
            result matches Ok(w) ==> value_width(*type_, self.target) == Some(w),
            result is Err ==> value_width(*type_, self.target) is None,
    {
        match type_ {
            Type::Integer(t) => Ok(t.bit_width(&self.target)),
            Type::Bool => Ok(1),
            _ => Err(join(join(String::from_str("unsupported LLVM value type: "), type_debug_text(type_).as_str()), "")),
        }
    }

    /// The element width and length of the LLVM array that holds a value of `type_`.
    fn llvm_array_type(&self, type_: &Type) -> (result: Result<(u32, u32), String>)
        requires
            self.wf(),
        ensures
            result matches Ok((w, n)) ==> *type_ matches Type::FixedArray { size, base_type }
                && n == size && value_width(*base_type, self.target) == Some(w),
            result is Err <==> !(*type_ matches Type::FixedArray { size, base_type }
                && size <= 0xffff_ffff && value_width(*base_type, self.target) is Some),
    {
        match type_ {
            Type::FixedArray { size, base_type } => {
                if *size > 0xffff_ffff {
                    return Err(String::from_str("array length does not fit in LLVM's array length"));
                }
                let element_width = self.llvm_int_type(base_type)?;
                Ok((element_width, *size as u32))
            },
            _ => Err(join(String::from_str("expected fixed array type, found "), type_debug_text(type_).as_str())),
        }
    }

    /// The width of a function's result: `None` for `unit`.
    fn llvm_return_width(&self, type_: &Type, message: &str) -> (result: Result<Option<u32>, String>)
        requires
            self.wf(),
        ensures
            result matches Ok(w) ==> result_width(*type_, self.target) == Some(w),
            result is Err ==> result_width(*type_, self.target) is None,
    {
        match type_ {
            Type::Integer(_) | Type::Bool => Ok(Some(self.llvm_int_type(type_)?)),
            Type::Unit => Ok(None),
            unsupported => Err(join(join(join(String::from_str(message), "`"), type_debug_text(unsupported).as_str()), "`")),
        }
    }

    /// The widths of the LLVM integers that hold parameters of the given types.
    fn llvm_parameter_widths(&self, types: &Vec<Type>) -> (result: Result<Vec<u32>, String>)
        requires
            self.wf(),
        ensures
            result matches Ok(widths) ==> widths_of(types@, self.target, widths@),
            result is Err ==> exists|i: int| 0 <= i < types@.len() && value_width(#[trigger] types@[i], self.target) is None,
    {
        let mut widths: Vec<u32> = Vec::new();
        let mut i: usize = 0;
        while i < types.len()
            invariant
                self.wf(),
                i <= types@.len(),
                widths_of(types@.take(i as int), self.target, widths@),
            decreases types@.len() - i,
        {
            widths.push(self.llvm_int_type(&types[i])?);
            proof {
                assert(types@.take(i + 1) =~= types@.take(i as int).push(types@[i as int]));
            }
            i += 1;
        }
        assert(types@.take(i as int) =~= types@);
        Ok(widths)
    }

    /// The declarations of the external functions of the symbol table.
    fn declare_external_functions(&mut self) -> (result: Result<Vec<ExternalDeclaration>, String>)
        requires
            old(self).wf(),
        ensures
            final(self).wf(),
            final(self).target == old(self).target,
            final(self).program == old(self).program,
            final(self).declared_functions == old(self).declared_functions,
            result matches Ok(declarations) ==>
                declares_externals(declarations@, old(self).program.symbols.symbols@, old(self).target),
            old(self).program.symbols.symbols@.len() <= 0xffff_ffff
                && (forall|t: int| 0 <= t < old(self).program.symbols.symbols@.len() ==>
                    external_declarable(#[trigger] old(self).program.symbols.symbols@[t], old(self).target)) ==> result is Ok,
    {
        let mut declarations: Vec<ExternalDeclaration> = Vec::new();
        let symbols = &self.program.symbols.symbols;
        let mut index: usize = 0;
        while index < symbols.len()
            invariant
                self.wf(),
                self.target == old(self).target,
                self.program == old(self).program,
                self.declared_functions == old(self).declared_functions,
                index <= symbols@.len(),
                symbols == &self.program.symbols.symbols,
                forall|k: int| 0 <= k < declarations@.len() ==> {
                    &&& (#[trigger] declarations@[k]).symbol.0 < index
                    &&& declares_external(declarations@[k], symbols@[declarations@[k].symbol.0 as int], self.target)
                },
                forall|k: int, l: int| 0 <= k < l < declarations@.len() ==>
                    (#[trigger] declarations@[k]).symbol.0 < (#[trigger] declarations@[l]).symbol.0,
                forall|t: int| 0 <= t < index && (#[trigger] symbols@[t]).kind is ExternFunction ==>
                    exists|k: int| 0 <= k < declarations@.len() && #[trigger] declarations@[k].symbol.0 == t,
            decreases symbols@.len() - index,
        {
            let symbol = &symbols[index];
            match &symbol.kind {
                SymbolKind::ExternFunction { link_name, .. } => {
                    let (parameter_types, return_type) = match &symbol.type_ {
                        Type::Function { parameters, return_type } => (parameters, return_type),
                        _ => {
                            return Err(String::from_str("external function symbol does not have a function type"));
                        },
                    };
                    let parameter_widths = self.llvm_parameter_widths(parameter_types)?;
                    let return_width = self.llvm_return_width(return_type, "unsupported external return type ")?;
                    if index > 0xffff_fffe {
                        return Err(String::from_str("too many symbols"));
                    }
                    let id = SymbolId(index as u32);
                    let ghost before = declarations@;
                    declarations.push(ExternalDeclaration { symbol: id, link_name: link_name.clone(), parameter_widths, return_width });
                    self.external_functions.push(id);
                    proof {
                        assert(declarations@[before.len() as int].symbol.0 == index);
                        assert forall|t: int| 0 <= t < index + 1 && (#[trigger] symbols@[t]).kind is ExternFunction implies
                            exists|k: int| 0 <= k < declarations@.len() && #[trigger] declarations@[k].symbol.0 == t by {
                            if t < index {
                                let k = choose|k: int| 0 <= k < before.len() && #[trigger] before[k].symbol.0 == t;
                                assert(declarations@[k] == before[k]);
                            } else {
                                assert(declarations@[before.len() as int].symbol.0 == t);
                            }
                        }
                    }
                },
                _ => {},
            }
            index += 1;
        }
        Ok(declarations)
    }

    /// The declarations of the compile-time functions: parameter and result
    /// widths, in the order of their identities.
    fn declare_functions(&mut self) -> (result: Result<Vec<FunctionPlan>, String>)
        requires
            old(self).wf(),
            old(self).is_fresh(),
        ensures
            final(self).wf(),
            final(self).target == old(self).target,
            final(self).program == old(self).program,
            result matches Ok(plans) ==>
                declares_functions(plans@, old(self).program.functions.view_functions(), old(self).target),
            result is Ok ==> final(self).declared_all(),
            old(self).program.functions.view_functions().len() <= 0xffff_ffff
                && (forall|k: int| 0 <= k < old(self).program.functions.view_functions().len() ==>
                    function_declarable(#[trigger] old(self).program.functions.view_functions()[k], old(self).target)) ==> result is Ok,
    {
        let mut plans: Vec<FunctionPlan> = Vec::new();
        let count = self.program.functions.len();
        let mut i: usize = 0;
        while i < count
            invariant
                self.wf(),
                self.target == old(self).target,
                self.program == old(self).program,
                i <= count,
                count == self.program.functions.view_functions().len(),
                plans@.len() == i,
                forall|k: int| 0 <= k < i ==>
                    declares_function(#[trigger] plans@[k], k, self.program.functions.view_functions()[k], self.target),
                self.declared_functions@.len() == i,
                forall|k: int| 0 <= k < i ==> #[trigger] self.declared_functions@[k] == FunctionId(k as u32),
            decreases count - i,
        {
            if i > 0xffff_fffe {
                return Err(String::from_str("too many functions"));
            }
            let id = FunctionId(i as u32);
            let function = self.program.functions.get(id).unwrap();
            let mut types: Vec<Type> = Vec::new();
            let mut p: usize = 0;
            while p < function.hir.parameters.len()
                invariant
                    p <= function.hir.parameters@.len(),
                    types@.len() == p,
                    forall|q: int| 0 <= q < p ==>
                        value_width(#[trigger] types@[q], self.target) == value_width(parameter_types(*function)[q], self.target),
                decreases function.hir.parameters@.len() - p,
            {
                types.push(function.hir.parameters[p].type_.duplicate());
                p += 1;
            }
            let parameter_widths = self.llvm_parameter_widths(&types)?;
            proof {
                assert(widths_of(parameter_types(*function), self.target, parameter_widths@)) by {
                    assert forall|q: int| 0 <= q < parameter_types(*function).len() implies
                        value_width(#[trigger] parameter_types(*function)[q], self.target) == Some(parameter_widths@[q]) by {
                        assert(value_width(types@[q], self.target) == Some(parameter_widths@[q]));
                    }
                }
            }
            let return_width = self.llvm_return_width(&function.hir.return_type, "unsupported LLVM function return type: ")?;
            plans.push(FunctionPlan { name: llvm_function_name(id), parameter_widths, return_width, blocks: Vec::new() });
            self.declared_functions.push(id);
            i += 1;
        }
        Ok(plans)
    }

    /// Whether the compile-time function `id` was declared.
    fn function_declared(&self, id: FunctionId) -> (declared: bool)
        ensures
            declared == self.declared_functions@.contains(id),
    {
        let mut i: usize = 0;
        while i < self.declared_functions.len()
            invariant
                i <= self.declared_functions@.len(),
                forall|k: int| 0 <= k < i ==> self.declared_functions@[k] != id,
            decreases self.declared_functions@.len() - i,
        {
            if self.declared_functions[i] == id {
                return true;
            }
            i += 1;
        }
        false
    }

    /// Whether the external function `symbol` was declared.
    fn external_declared(&self, symbol: SymbolId) -> (declared: bool)
        ensures
            declared == self.external_functions@.contains(symbol),
    {
        let mut i: usize = 0;
        while i < self.external_functions.len()
            invariant
                i <= self.external_functions@.len(),
                forall|k: int| 0 <= k < i ==> self.external_functions@[k] != symbol,
            decreases self.external_functions@.len() - i,
        {
            if self.external_functions[i] == symbol {
                return true;
            }
            i += 1;
        }
        false
    }

    /// Plans the bodies of the declared functions into `plans`.
    fn emit_function_bodies(&mut self, plans: &mut Vec<FunctionPlan>) -> (result: Result<(), String>)
        requires
            old(self).wf(),
            old(self).declared_all(),
            old(plans)@.len() == old(self).program.functions.view_functions().len(),
        ensures
            final(self).wf(),
            final(self).target == old(self).target,
            final(self).program == old(self).program,
            final(self).declared_functions == old(self).declared_functions,
            final(plans)@.len() == old(plans)@.len(),
            forall|k: int| 0 <= k < old(plans)@.len() ==> {
                &&& (#[trigger] final(plans)@[k]).name == old(plans)@[k].name
                &&& final(plans)@[k].parameter_widths == old(plans)@[k].parameter_widths
                &&& final(plans)@[k].return_width == old(plans)@[k].return_width
            },
            result is Ok ==> forall|k: int| 0 <= k < old(self).program.functions.view_functions().len() ==>
                function_closed(#[trigger] final(plans)@[k]),
            result is Ok ==> forall|k: int| 0 <= k < old(self).program.functions.view_functions().len() ==>
                ends_in_return(#[trigger] old(self).program.functions.view_functions()[k]),
            result is Ok ==> forall|k: int| 0 <= k < old(self).program.functions.view_functions().len() ==>
                literal_body(#[trigger] old(self).program.functions.view_functions()[k], old(self).target, final(plans)@[k].blocks@),
            old(self).program.functions.view_functions().len() <= 0xffff_ffff
                && (forall|k: int| 0 <= k < old(self).program.functions.view_functions().len() ==>
                    plain_function(#[trigger] old(self).program.functions.view_functions()[k])) ==> result is Ok,
    {
        let count = self.program.functions.len();
        let mut i: usize = 0;
        while i < count
            invariant
                self.wf(),
                self.target == old(self).target,
                self.program == old(self).program,
                self.declared_functions == old(self).declared_functions,
                i <= count,
                count == self.program.functions.view_functions().len(),
                plans@.len() == old(plans)@.len(),
                old(plans)@.len() == count,
                forall|k: int| 0 <= k < old(plans)@.len() ==> {
                    &&& (#[trigger] plans@[k]).name == old(plans)@[k].name
                    &&& plans@[k].parameter_widths == old(plans)@[k].parameter_widths
                    &&& plans@[k].return_width == old(plans)@[k].return_width
                },
                forall|k: int| 0 <= k < i ==> function_closed(#[trigger] plans@[k]),
                forall|k: int| 0 <= k < i ==> ends_in_return(#[trigger] self.program.functions.view_functions()[k]),
                forall|k: int| 0 <= k < i ==> literal_body(#[trigger] self.program.functions.view_functions()[k], self.target, plans@[k].blocks@),
            decreases count - i,
        {
            if i > 0xffff_fffe {
                return Err(String::from_str("too many functions"));
            }
            let id = FunctionId(i as u32);
            let function = self.program.functions.get(id).unwrap();
            let blocks = self.emit_function_body(function)?;
            let mut plan = FunctionPlan { name: String::new(), parameter_widths: Vec::new(), return_width: None, blocks: Vec::new() };
            std::mem::swap(&mut plan, &mut plans[i]);
            plan.blocks = blocks;
            std::mem::swap(&mut plan, &mut plans[i]);
            i += 1;
        }
        Ok(())
    }

    /// Plans the body of one function: its captured compile-time values and
    /// its parameters become locals, then its statements follow.
    fn emit_function_body(&mut self, function: &ComptimeFunction) -> (result: Result<Vec<BlockPlan>, String>)
        requires
            old(self).wf(),
            function_refs_valid(*function.hir, old(self).program.symbols.symbols@.len(), old(self).program.functions.view_functions().len(), template_bound()),
        ensures
            final(self).wf(),
            final(self).target == old(self).target,
            final(self).program == old(self).program,
            final(self).declared_functions == old(self).declared_functions,
            result matches Ok(blocks) ==> forall|k: int| 0 <= k < blocks@.len() ==> block_closed(#[trigger] blocks@[k].steps@),
            result is Ok ==> ends_in_return(*function),
            plain_function(*function) ==> result is Ok,
            plain_function(*function) && function.hir.body.statements@.len() > 0 ==> match function.hir.body.statements@[0].data {
                HirStatementData::Return(Some(e)) => plain_literal(e) ==> (result matches Ok(blocks) && {
                    &&& blocks@.len() == 1
                    &&& blocks@[0].steps@.len() == 2
                    &&& value_step(e, Register(0), old(self).target, blocks@[0].steps@[0])
                    &&& blocks@[0].steps@[1] == (Step::Return { value: Some(Register(0)) })
                }),
                _ => true,
            },
            (exists|c: int| 0 <= c < function.captures@.len()
                && !((#[trigger] function.captures@[c]).1 is Integer || function.captures@[c].1 is Bool)) ==> result is Err,
    {
        self.start_function();
        let ghost started = *self;
        let mut operands: Operands = Vec::new();
        let mut c: usize = 0;
        while c < function.captures.len()
            invariant
                self.wf(),
                self.target == old(self).target,
                self.program == old(self).program,
                self.declared_functions == old(self).declared_functions,
                started.blocks@.len() == 1,
                started.current == 0,
                started.planned_from(*self, true),
                c <= function.captures@.len(),
                function.captures@.len() == 0 ==> self.widths@.len() == 0 && self.blocks == started.blocks && self.current == 0,
                forall|k: int| 0 <= k < c ==> (#[trigger] function.captures@[k]).1 is Integer || function.captures@[k].1 is Bool,
            decreases function.captures@.len() - c,
        {
            let (symbol, value) = (function.captures[c].0, &function.captures[c].1);
            let register = match value {
                ComptimeValue::Integer { value, type_ } => {
                    let width = type_.bit_width(&self.target);
                    let bits = integer_bit_pattern(*value, *type_, &self.target);
                    self.constant(width, bits, type_.is_signed())?
                },
                ComptimeValue::Bool(value) => self.constant(1, if *value { 1 } else { 0 }, false)?,
                unsupported => {
                    return Err(join(String::from_str("unsupported compile-time capture in LLVM function: "), value_debug_text(unsupported).as_str()));
                },
            };
            operands.push((symbol, LocalOperand::Value(register)));
            c += 1;
        }
        let mut p: usize = 0;
        while p < function.hir.parameters.len()
            invariant
                self.wf(),
                self.target == old(self).target,
                self.program == old(self).program,
                self.declared_functions == old(self).declared_functions,
                started.blocks@.len() == 1,
                started.current == 0,
                started.planned_from(*self, true),
                p <= function.hir.parameters@.len(),
                function.captures@.len() == 0 && function.hir.parameters@.len() == 0 ==> self.widths@.len() == 0
                    && self.blocks == started.blocks && self.current == 0,
            decreases function.hir.parameters@.len() - p,
        {
            let width = self.llvm_int_type(&function.hir.parameters[p].type_)?;
            let dest = self.fresh_register(width)?;
            if p > 0xffff_fffe {
                return Err(String::from_str("too many parameters"));
            }
            self.push_step(Step::Parameter { dest, index: p as u32 });
            operands.push((function.hir.parameters[p].symbol, LocalOperand::Value(dest)));
            p += 1;
        }
        let flow = self.emit_block(&function.hir.body, &mut operands)?;
        match flow {
            EmitFlow::Continues => {
                if matches!(function.hir.return_type, Type::Unit) {
                    self.push_step(Step::Return { value: None });
                } else {
                    return Err(String::from_str("Function body without a return"));
                }
            },
            EmitFlow::Terminates => {},
        }
        Ok(self.finish_function())
    }

    /// Plans the executable's `main`: it calls the program's `main` and
    /// returns its result truncated to 32 bits.
    fn emit_main_wrapper(&mut self) -> (result: Result<FunctionPlan, String>)
        requires
            old(self).wf(),
            old(self).declared_all(),
        ensures
            final(self).wf(),
            final(self).target == old(self).target,
            result matches Ok(plan) ==> exists|id: FunctionId| is_entry(old(self).program, id) && #[trigger] main_calls(plan, id),
            result matches Ok(plan) ==> function_closed(plan),
            (forall|id: FunctionId| !is_entry(old(self).program, id)) ==> result is Err,
            (exists|id: FunctionId| is_entry(old(self).program, id)) ==> result is Ok,
            old(self).program.entry_symbol is None ==> (result matches Err(message)
                && message@ == "entry module does not define `main`"@),
    {
        let function_id = match entry_function(self.program) {
            Ok(id) => id,
            Err(error) => {
                return Err(String::from_str(error.message()));
            },
        };
        self.start_function();
        let result = self.fresh_register(64)?;
        let mut arguments: Vec<Register> = Vec::new();
        self.push_step(Step::Call { dest: Some(result), callee: Callee::Function(function_id), arguments });
        let status = self.fresh_register(32)?;
        self.push_step(Step::Truncate { dest: status, value: result, width: 32 });
        self.push_step(Step::Return { value: Some(status) });
        let blocks = self.finish_function();
        let plan = FunctionPlan { name: String::from_str("main"), parameter_widths: Vec::new(), return_width: Some(32), blocks };
        proof {
            reveal_strlit("main");
            assert(plan.name@ =~= seq!['m', 'a', 'i', 'n']);
            assert(main_calls(plan, function_id));
            assert(block_closed(plan.blocks@[0].steps@)) by {
                assert(plan.blocks@[0].steps@.drop_last() =~= plan.blocks@[0].steps@.subrange(0, 2));
            }
        }
        Ok(plan)
    }

    /// Plans the statements of a block until one leaves it.
    fn emit_block(&mut self, block: &HirBlock, operands: &mut Operands) -> (result: Result<EmitFlow, String>)
        requires
            old(self).wf(),
            old(self).block_in_program(*block),
            old(self).building(),
        ensures
            old(self).extends(*final(self)),
            result matches Ok(flow) ==> old(self).planned_from(*final(self), flow == EmitFlow::Continues),
            result matches Ok(flow) ==> (flow == EmitFlow::Terminates <==> block_diverges(*block)),
            block.statements@.len() == 0 ==> result == Ok::<EmitFlow, String>(EmitFlow::Continues),
            block.statements@.len() > 0 && plain_return(block.statements@[0]) && old(self).widths@.len() < u32::MAX
                ==> result == Ok::<EmitFlow, String>(EmitFlow::Terminates),
            block.statements@.len() > 0 && old(self).widths@.len() < u32::MAX ==> match block.statements@[0].data {
                HirStatementData::Return(Some(e)) => plain_literal(e) ==> {
                    &&& final(self).blocks@.len() == old(self).blocks@.len()
                    &&& final(self).current == old(self).current
                    &&& final(self).blocks@[old(self).current as int].steps@.len() == old(self).blocks@[old(self).current as int].steps@.len() + 2
                    &&& final(self).blocks@[old(self).current as int].steps@.take(old(self).blocks@[old(self).current as int].steps@.len() as int)
                        == old(self).blocks@[old(self).current as int].steps@
                    &&& value_step(e, Register(old(self).widths@.len() as u32), old(self).target,
                        final(self).blocks@[old(self).current as int].steps@[old(self).blocks@[old(self).current as int].steps@.len() as int])
                    &&& final(self).blocks@[old(self).current as int].steps@.last()
                        == (Step::Return { value: Some(Register(old(self).widths@.len() as u32)) })
                },
                _ => true,
            },
        decreases block, 1nat,
    {
        let mut i: usize = 0;
        while i < block.statements.len()
            invariant
                old(self).extends(*self),
                old(self).planned_from(*self, true),
                self.block_in_program(*block),
                i <= block.statements@.len(),
                forall|k: int| 0 <= k < i ==> !statement_diverges(#[trigger] block.statements@[k]),
                i == 0 ==> self.widths@.len() == old(self).widths@.len() && self.blocks == old(self).blocks
                    && self.current == old(self).current && self.target == old(self).target,
            decreases block.statements@.len() - i,
        {
            proof {
                assert(decreases_to!(*block => block.statements));
                assert(decreases_to!(block.statements => block.statements@));
                assert(decreases_to!(block.statements@ => block.statements@[i as int]));
            }
            let flow = self.emit_statement(&block.statements[i], operands)?;
            match flow {
                EmitFlow::Continues => {},
                EmitFlow::Terminates => {
                    assert(statement_diverges(block.statements@[i as int]));
                    return Ok(EmitFlow::Terminates);
                },
            }
            i += 1;
        }
        Ok(EmitFlow::Continues)
    }

    /// The storage an assignment writes to.
    fn emit_place(&mut self, place: &HirPlace, operands: &Operands) -> (result: Result<Register, String>)
        requires
            old(self).wf(),
            old(self).place_in_program(*place),
            old(self).building(),
        ensures
            old(self).extends(*final(self)),
            result is Ok ==> old(self).planned_from(*final(self), true),
            place.data matches HirPlaceData::Symbol(s) ==> match operand_entry(operands@, s) {
                Some(LocalOperand::Mutable(pointer)) => result == Ok::<Register, String>(pointer),
                _ => result is Err,
            },
            place.data is Index ==> (result matches Ok(r) ==> final(self).last_step() matches Step::ElementPointer { dest, .. } && dest == r),
            place.data is Symbol ==> final(self).widths == old(self).widths && final(self).blocks == old(self).blocks
                && final(self).current == old(self).current,
        decreases place, 1nat,
    {
        match &place.data {
            HirPlaceData::Symbol(symbol) => match operand_of(operands, *symbol) {
                Some(LocalOperand::Mutable(pointer)) => Ok(pointer),
                _ => Err(String::from_str("symbol place does not have mutable LLVM storage")),
            },
            HirPlaceData::Index { array, index, array_size } => self.emit_array_element_pointer(*array, index, *array_size, operands),
        }
    }

    /// A pointer to element `index` of the local array `array`, after a check
    /// that traps when the index is not below the array's length.
    fn emit_array_element_pointer(&mut self, array: SymbolId, index: &HirExpression, array_size: usize, operands: &Operands) -> (result: Result<Register, String>)
        requires
            old(self).wf(),
            old(self).in_program(*index),
            old(self).building(),
        ensures
            old(self).extends(*final(self)),
            result is Ok ==> old(self).planned_from(*final(self), true),
            result matches Ok(r) ==> final(self).last_step() matches Step::ElementPointer { dest, array: a, element_width, length, .. }
                && dest == r && operand_entry(operands@, array) == Some(LocalOperand::Array { pointer: a, element_width, length }),
            !(operand_entry(operands@, array) matches Some(LocalOperand::Array { .. })) ==> result is Err,
        decreases index, 3nat,
    {
        let (pointer, element_width, length) = match operand_of(operands, array) {
            Some(LocalOperand::Array { pointer, element_width, length }) => (pointer, element_width, length),
            _ => {
                return Err(String::from_str("array has no local LLVM storage"));
            },
        };
        let index = self.emit_expression(index, operands)?;
        self.emit_array_bounds_check(index, array_size)?;
        let zero = self.constant(64, 0, false)?;
        let dest = self.fresh_register(0)?;
        self.push_step(Step::ElementPointer { dest, array: pointer, element_width, length, zero, index });
        Ok(dest)
    }

    /// Plans one statement.
    #[verifier::rlimit(100)]
    #[verifier::spinoff_prover]
    fn emit_statement(&mut self, statement: &HirStatement, operands: &mut Operands) -> (result: Result<EmitFlow, String>)
        requires
            old(self).wf(),
            old(self).statement_in_program(*statement),
            old(self).building(),
        ensures
            old(self).extends(*final(self)),
            result matches Ok(flow) ==> old(self).planned_from(*final(self), flow == EmitFlow::Continues),
            result matches Ok(flow) ==> statement_step(
                *statement,
                flow,
                final(self).blocks@[old(self).current as int].steps@,
                final(self).blocks@[final(self).current as int].steps@,
            ),
            result matches Ok(flow) ==> (flow == EmitFlow::Terminates <==> statement_diverges(*statement)),
            plain_return(*statement) && old(self).widths@.len() < u32::MAX ==> result is Ok,
            statement.data is Error ==> result is Err,
            match statement.data {
                HirStatementData::Return(Some(e)) => plain_literal(e) && old(self).widths@.len() < u32::MAX ==> {
                    &&& final(self).blocks@[old(self).current as int].steps@.last()
                        == (Step::Return { value: Some(Register(old(self).widths@.len() as u32)) })
                    &&& final(self).blocks@.len() == old(self).blocks@.len()
                    &&& final(self).current == old(self).current
                    &&& final(self).blocks@[old(self).current as int].steps@.len() == old(self).blocks@[old(self).current as int].steps@.len() + 2
                    &&& final(self).blocks@[old(self).current as int].steps@.take(old(self).blocks@[old(self).current as int].steps@.len() as int)
                        == old(self).blocks@[old(self).current as int].steps@
                    &&& value_step(e, Register(old(self).widths@.len() as u32), old(self).target,
                        final(self).blocks@[old(self).current as int].steps@[old(self).blocks@[old(self).current as int].steps@.len() as int])
                },
                HirStatementData::Binding { symbol, expression } => plain_literal(expression) && old(self).widths@.len() + 2 < u32::MAX ==> {
                    &&& result is Ok
                    &&& final(operands)@.drop_last() == old(operands)@
                    &&& if old(self).spec_program().symbols.symbols@[symbol.0 as int].kind == (SymbolKind::Local { mutable: true }) {
                        &&& final(operands)@.last() == (symbol, LocalOperand::Mutable(Register((old(self).widths@.len() + 1) as u32)))
                        &&& final(self).last_step() == (Step::Store {
                            pointer: Register((old(self).widths@.len() + 1) as u32),
                            value: Register(old(self).widths@.len() as u32),
                        })
                    } else {
                        final(operands)@.last() == (symbol, LocalOperand::Value(Register(old(self).widths@.len() as u32)))
                    }
                },
                HirStatementData::Assignment { target, expression } => match target.data {
                    HirPlaceData::Symbol(s) => match operand_entry(old(operands)@, s) {
                        Some(LocalOperand::Mutable(pointer)) => plain_literal(expression) && old(self).widths@.len() < u32::MAX ==>
                            result is Ok && final(self).last_step() == (Step::Store { pointer, value: Register(old(self).widths@.len() as u32) }),
                        _ => result is Err,
                    },
                    _ => true,
                },
                _ => true,
            },
        decreases statement, 1nat,
    {
        match &statement.data {
            HirStatementData::Error => Err(String::from_str("Evil")),
            HirStatementData::Expression(expression) => {
                match &expression.data {
                    HirExpressionData::Call { .. } => {
                        let value = self.emit_call(operands, expression)?;
                        if value.is_some() {
                            return Err(String::from_str("value-producing expression used as a unit statement"));
                        }
                        Ok(EmitFlow::Continues)
                    },
                    _ => Err(String::from_str("unsupported unit expression statement")),
                }
            },
            HirStatementData::Assignment { target, expression } => {
                let pointer = self.emit_place(target, operands)?;
                let value = self.emit_expression(expression, operands)?;
                self.push_step(Step::Store { pointer, value });
                Ok(EmitFlow::Continues)
            },
            HirStatementData::If { condition, then_block, else_branch } => {
                let condition = self.emit_expression(condition, operands)?;
                let then_bb = self.append_block("if.then")?;
                let else_bb = self.append_block("if.else")?;
                let merge_bb = self.append_block("if.end")?;
                self.push_step(Step::ConditionalBranch { condition, then_block: then_bb, else_block: else_bb });
                self.position_at_end(then_bb);
                let mut then_operands = copy_operands(operands);
                let then_flow = self.emit_block(then_block, &mut then_operands)?;
                let then_continues = matches!(then_flow, EmitFlow::Continues);
                if then_continues {
                    self.push_step(Step::Branch { target: merge_bb });
                }
                self.position_at_end(else_bb);
                let mut else_operands = copy_operands(operands);
                let else_flow = match else_branch {
                    Some(HirElseBranch::Else(block)) => self.emit_block(block, &mut else_operands)?,
                    Some(HirElseBranch::ElseIf(nested)) => self.emit_statement(nested, &mut else_operands)?,
                    None => EmitFlow::Continues,
                };
                let else_continues = matches!(else_flow, EmitFlow::Continues);
                if else_continues {
                    self.push_step(Step::Branch { target: merge_bb });
                }
                self.position_at_end(merge_bb);
                if then_continues || else_continues {
                    Ok(EmitFlow::Continues)
                } else {
                    self.push_step(Step::Unreachable);
                    Ok(EmitFlow::Terminates)
                }
            },
            HirStatementData::While { condition, while_block } => {
                let condition_bb = self.append_block("while.condition")?;
                let body_bb = self.append_block("while.body")?;
                let end_bb = self.append_block("while.end")?;
                self.push_step(Step::Branch { target: condition_bb });
                self.position_at_end(condition_bb);
                let condition_value = self.emit_expression(condition, operands)?;
                self.push_step(Step::ConditionalBranch { condition: condition_value, then_block: body_bb, else_block: end_bb });
                self.position_at_end(body_bb);
                let mut body_operands = copy_operands(operands);
                let body_flow = self.emit_block(while_block, &mut body_operands)?;
                if matches!(body_flow, EmitFlow::Continues) {
                    self.push_step(Step::Branch { target: condition_bb });
                }
                self.position_at_end(end_bb);
                Ok(EmitFlow::Continues)
            },
            HirStatementData::Binding { symbol, expression } => {
                if matches!(expression.data, HirExpressionData::ArrayRepeatInitialization { .. }) {
                    self.emit_zero_array_binding(*symbol, expression, operands)?;
                    return Ok(EmitFlow::Continues);
                }
                let value = self.emit_expression(expression, operands)?;
                let symbol_info = self.program.symbols.get(*symbol);
                match &symbol_info.kind {
                    SymbolKind::Local { mutable: true } => {
                        let width = self.width_of(value);
                        let pointer = self.fresh_register(0)?;
                        self.push_step(Step::Allocate { dest: pointer, width, name: symbol_info.name.clone() });
                        self.push_step(Step::Store { pointer, value });
                        operands.push((*symbol, LocalOperand::Mutable(pointer)));
                    },
                    _ => {
                        operands.push((*symbol, LocalOperand::Value(value)));
                    },
                }
                Ok(EmitFlow::Continues)
            },
            HirStatementData::Return(Some(expression)) => {
                let value = self.emit_expression(expression, operands)?;
                self.push_step(Step::Return { value: Some(value) });
                Ok(EmitFlow::Terminates)
            },
            HirStatementData::Return(None) => {
                self.push_step(Step::Return { value: None });
                Ok(EmitFlow::Terminates)
            },
        }
    }

    /// Plans the computation of an expression's value.
    fn emit_expression(&mut self, expression: &HirExpression, operands: &Operands) -> (result: Result<Register, String>)
        requires
            old(self).wf(),
            old(self).in_program(*expression),
            old(self).building(),
        ensures
            old(self).extends(*final(self)),
            result is Ok ==> old(self).planned_from(*final(self), true),
            result matches Ok(r) ==> value_step(*expression, r, old(self).target, final(self).last_step()),
            plain_literal(*expression) && old(self).widths@.len() < u32::MAX ==> result is Ok,
            plain_literal(*expression) && old(self).widths@.len() < u32::MAX ==> result == Ok::<Register, String>(Register(old(self).widths@.len() as u32))
                && final(self).widths@.len() == old(self).widths@.len() + 1
                && final(self).current == old(self).current
                && final(self).blocks@.len() == old(self).blocks@.len()
                && final(self).blocks@[old(self).current as int].steps@
                    == old(self).blocks@[old(self).current as int].steps@.push(final(self).last_step()),
            match expression.data {
                HirExpressionData::Binary { lhs, rhs, .. } => plain_literal(*lhs) && plain_literal(*rhs) && old(self).widths@.len() + 3 < u32::MAX ==> {
                    &&& result == Ok::<Register, String>(Register((old(self).widths@.len() + 2) as u32))
                    &&& step_operands(final(self).last_step()) == Some((Register(old(self).widths@.len() as u32), Register((old(self).widths@.len() + 1) as u32)))
                    &&& final(self).widths@.len() == old(self).widths@.len() + 3
                    &&& final(self).current == old(self).current
                },
                _ => true,
            },
            expression.data is StringLiteral || expression.data is TypeValue || expression.data is Function
                || expression.data is Error || expression.data is FunctionTemplate || expression.data is KnownFunction
                || expression.data is ArrayRepeatInitialization ==> result is Err,
            match expression.data {
                HirExpressionData::Symbol(s) => match operand_entry(operands@, s) {
                    Some(LocalOperand::Value(v)) => result == Ok::<Register, String>(v),
                    Some(LocalOperand::Array { .. }) => result is Err,
                    _ => true,
                },
                _ => true,
            },
        decreases expression, 2nat,
    {
        match &expression.data {
            HirExpressionData::StringLiteral(_) => Err(String::from_str("`str` has no runtime representation")),
            HirExpressionData::Index { base, index } => {
                let symbol = match &base.data {
                    HirExpressionData::Symbol(symbol) => *symbol,
                    _ => {
                        return Err(String::from_str("only local arrays can currently be indexed"));
                    },
                };
                let size = match &base.type_ {
                    Type::FixedArray { size, .. } => *size,
                    _ => {
                        return Err(String::from_str("index base lost its array type"));
                    },
                };
                let element_pointer = self.emit_array_element_pointer(symbol, index, size, operands)?;
                let width = self.llvm_int_type(&expression.type_)?;
                let dest = self.fresh_register(width)?;
                self.push_step(Step::Load { dest, width, pointer: element_pointer });
                Ok(dest)
            },
            HirExpressionData::ArrayRepeatInitialization { .. } => Err(String::from_str("array initializers are only supported as the value of a local binding")),
            HirExpressionData::Integer(value) => {
                let integer_type = match expression.type_.as_integer() {
                    Some(t) => t,
                    None => {
                        return Err(String::from_str("integer expression lost its integer type"));
                    },
                };
                let width = self.llvm_int_type(&expression.type_)?;
                let bits = integer_bit_pattern(*value, integer_type, &self.target);
                self.constant(width, bits, integer_type.is_signed())
            },
            HirExpressionData::Symbol(symbol_id) => {
                match operand_of(operands, *symbol_id) {
                    Some(LocalOperand::Array { .. }) => {
                        return Err(String::from_str("arrays cannot be used as values yet"));
                    },
                    Some(LocalOperand::Value(value)) => {
                        return Ok(value);
                    },
                    Some(LocalOperand::Mutable(pointer)) => {
                        let width = self.llvm_int_type(&self.program.symbols.get(*symbol_id).type_)?;
                        let dest = self.fresh_register(width)?;
                        self.push_step(Step::Load { dest, width, pointer });
                        return Ok(dest);
                    },
                    None => {},
                }
                match self.program.values.get(*symbol_id) {
                    Some(ComptimeValue::Integer { value, type_ }) => {
                        let width = type_.bit_width(&self.target);
                        let bits = integer_bit_pattern(*value, *type_, &self.target);
                        self.constant(width, bits, type_.is_signed())
                    },
                    Some(ComptimeValue::Bool(value)) => self.constant(1, if *value { 1 } else { 0 }, false),
                    _ => Err(String::from_str("symbol has no available LLVM value")),
                }
            },
            HirExpressionData::Unary { operator, operand } => {
                let operand = self.emit_expression(operand, operands)?;
                match operator {
                    UnaryOperator::Negate => {
                        let width = self.width_of(operand);
                        let dest = self.fresh_register(width)?;
                        self.push_step(Step::Negate { dest, operand });
                        Ok(dest)
                    },
                }
            },
            HirExpressionData::Binary { lhs, operator, rhs } => {
                let signed = match lhs.type_.as_integer() {
                    Some(t) => t.is_signed(),
                    None => false,
                };
                let lhs = self.emit_expression(lhs, operands)?;
                let rhs = self.emit_expression(rhs, operands)?;
                match comparison_predicate(*operator, signed) {
                    Some(predicate) => {
                        let dest = self.fresh_register(1)?;
                        self.push_step(Step::Compare { dest, predicate, lhs, rhs });
                        Ok(dest)
                    },
                    None => {
                        let opcode = match operator {
                            BinaryOperator::Add => ArithmeticOpcode::Add,
                            BinaryOperator::Subtract => ArithmeticOpcode::Subtract,
                            BinaryOperator::Multiply => ArithmeticOpcode::Multiply,
                            _ => if signed { ArithmeticOpcode::SignedDivide } else { ArithmeticOpcode::UnsignedDivide },
                        };
                        let width = self.width_of(lhs);
                        let dest = self.fresh_register(width)?;
                        self.push_step(Step::Arithmetic { dest, opcode, lhs, rhs });
                        Ok(dest)
                    },
                }
            },
            HirExpressionData::Call { .. } => match self.emit_call(operands, expression)? {
                Some(value) => Ok(value),
                None => Err(String::from_str("unit-returning call used as a value")),
            },
            HirExpressionData::Bool(value) => self.constant(1, if *value { 1 } else { 0 }, false),
            HirExpressionData::FunctionTemplate(_) => Err(String::from_str("an unspecialized function template reached LLVM value emission")),
            HirExpressionData::Function(_) | HirExpressionData::Error | HirExpressionData::KnownFunction(_) => {
                Err(String::from_str("expression is not supported by Inkwell backend yet"))
            },
            HirExpressionData::TypeValue(_) => Err(String::from_str("type values have no runtime representation")),
        }
    }

    /// Plans a check that `index` is below `array_size`: a block that traps
    /// when it is not, and the current block continues in a block where it is.
    fn emit_array_bounds_check(&mut self, index: Register, array_size: usize) -> (result: Result<(), String>)
        requires
            old(self).wf(),
            old(self).building(),
        ensures
            old(self).extends(*final(self)),
            result is Ok ==> old(self).planned_from(*final(self), true),
            result is Ok ==> {
                &&& final(self).blocks@.len() == old(self).blocks@.len() + 2
                &&& final(self).current == old(self).blocks@.len()
                &&& final(self).blocks@[old(self).current as int].steps@.last() == (Step::ConditionalBranch {
                    condition: Register((old(self).widths@.len() + 1) as u32),
                    then_block: BlockId(old(self).blocks@.len() as u32),
                    else_block: BlockId((old(self).blocks@.len() + 1) as u32),
                })
                &&& final(self).blocks@[old(self).current as int].steps@[final(self).blocks@[old(self).current as int].steps@.len() - 2] == (Step::Compare {
                    dest: Register((old(self).widths@.len() + 1) as u32),
                    predicate: ComparisonPredicate::UnsignedLess,
                    lhs: index,
                    rhs: Register(old(self).widths@.len() as u32),
                })
                &&& final(self).blocks@[old(self).blocks@.len() + 1int].steps@.len() == 2
                &&& final(self).blocks@[old(self).blocks@.len() + 1int].steps@[0] matches Step::Call { dest: None, callee: Callee::Trap, .. }
                &&& final(self).blocks@[old(self).blocks@.len() + 1int].steps@[1] is Unreachable
            },
            old(self).blocks@.len() + 2 < 0xffff_fffe && old(self).widths@.len() + 2 < u32::MAX ==> result is Ok,
    {
        let valid_block = self.append_block("index.valid")?;
        let invalid_block = self.append_block("index.invalid")?;
        let width = self.width_of(index);
        let length = self.constant(width, array_size as u64, false)?;
        let valid = self.fresh_register(1)?;
        self.push_step(Step::Compare { dest: valid, predicate: ComparisonPredicate::UnsignedLess, lhs: index, rhs: length });
        self.push_step(Step::ConditionalBranch { condition: valid, then_block: valid_block, else_block: invalid_block });
        let ghost branched = self.blocks@[old(self).current as int].steps@;
        self.position_at_end(invalid_block);
        self.push_step(Step::Call { dest: None, callee: Callee::Trap, arguments: Vec::new() });
        self.push_step(Step::Unreachable);
        self.position_at_end(valid_block);
        assert(self.blocks@[old(self).current as int].steps@ == branched);
        assert(self.blocks@[old(self).blocks@.len() + 1int].steps@.len() == 2);
        assert(self.blocks@.len() == old(self).blocks@.len() + 2);
        assert(self.current == old(self).blocks@.len());
        assert(valid_block.0 == old(self).blocks@.len());
        assert(invalid_block.0 == old(self).blocks@.len() + 1);
        assert(length.0 == old(self).widths@.len());
        assert(valid.0 == old(self).widths@.len() + 1);
        assert(branched.last() == (Step::ConditionalBranch { condition: valid, then_block: valid_block, else_block: invalid_block }));
        Ok(())
    }

    /// Plans a call; its register when the callee returns a value.
    fn emit_call(&mut self, operands: &Operands, call: &HirExpression) -> (result: Result<Option<Register>, String>)
        requires
            old(self).wf(),
            old(self).in_program(*call),
            old(self).building(),
        ensures
            old(self).extends(*final(self)),
            result is Ok ==> old(self).planned_from(*final(self), true),
            result matches Ok(d) ==> final(self).last_step() matches Step::Call { dest, callee, arguments }
                && dest == d && arguments@.len() == call.data->Call_arguments@.len() && old(self).callee_of(*call.data->Call_callee, callee),
            !(call.data is Call) ==> result is Err,
        decreases call, 1nat,
    {
        let (callee, arguments) = match &call.data {
            HirExpressionData::Call { callee, arguments } => (callee, arguments),
            _ => {
                return Err(String::from_str("expected a call"));
            },
        };
        let (target, return_width) = self.resolve_function(callee)?;
        let mut llvm_arguments: Vec<Register> = Vec::new();
        let mut i: usize = 0;
        while i < arguments.len()
            invariant
                old(self).extends(*self),
                old(self).planned_from(*self, true),
                forall|j: int| 0 <= j < arguments@.len() ==> self.in_program(#[trigger] arguments@[j]),
                i <= arguments@.len(),
                call.data == (HirExpressionData::Call { callee: *callee, arguments: *arguments }),
                llvm_arguments@.len() == i,
            decreases arguments@.len() - i,
        {
            proof {
                assert(decreases_to!(*call => call.data));
                assert(decreases_to!(call.data => call.data->Call_arguments));
                assert(call.data->Call_arguments == *arguments);
                assert(decreases_to!(*arguments => arguments@));
                assert(decreases_to!(arguments@ => arguments@[i as int]));
            }
            let argument = self.emit_expression(&arguments[i], operands)?;
            llvm_arguments.push(argument);
            i += 1;
        }
        let dest = match return_width {
            Some(width) => Some(self.fresh_register(width)?),
            None => None,
        };
        proof {
            assert(llvm_arguments@.len() == arguments@.len());
        }
        self.push_step(Step::Call { dest, callee: target, arguments: llvm_arguments });
        Ok(dest)
    }

    /// The width of the result of a function of type `type_`.
    fn function_return_width(&self, type_: &Type) -> (result: Result<Option<u32>, String>)
        requires
            self.wf(),
        ensures
            result matches Ok(w) ==> *type_ matches Type::Function { return_type, .. } && result_width(*return_type, self.target) == Some(w),
            result is Err <==> !(*type_ matches Type::Function { return_type, .. } && result_width(*return_type, self.target) is Some),
    {
        match type_ {
            Type::Function { return_type, .. } => self.llvm_return_width(return_type, "unsupported LLVM function return type: "),
            _ => Err(String::from_str("callee does not have a function type")),
        }
    }

    /// The function a callee stands for, with the width of its result: only
    /// callees known at compile time are supported.
    fn resolve_function(&self, callee: &HirExpression) -> (result: Result<(Callee, Option<u32>), String>)
        requires
            self.wf(),
        ensures
            result matches Ok((c, w)) ==> {
                &&& callee.type_ matches Type::Function { return_type, .. } && result_width(*return_type, self.target) == Some(w)
                &&& self.callee_of(*callee, c)
            },
            !(callee.data is KnownFunction || callee.data is Symbol) ==> result is Err,
    {
        match &callee.data {
            HirExpressionData::KnownFunction(function_id) => {
                if !self.function_declared(*function_id) {
                    return Err(join(join(String::from_str("specialized function "), decimal_text(function_id.index() as i128).as_str()), " was not declared"));
                }
                let width = self.function_return_width(&callee.type_)?;
                Ok((Callee::Function(*function_id), width))
            },
            HirExpressionData::Symbol(symbol_id) => {
                if self.external_declared(*symbol_id) {
                    let width = self.function_return_width(&callee.type_)?;
                    return Ok((Callee::External(*symbol_id), width));
                }
                match self.program.values.get(*symbol_id) {
                    Some(ComptimeValue::Function(function_id)) => {
                        if !self.function_declared(*function_id) {
                            return Err(join(join(String::from_str("function "), decimal_text(function_id.index() as i128).as_str()), " was not declared"));
                        }
                        let width = self.function_return_width(&callee.type_)?;
                        Ok((Callee::Function(*function_id), width))
                    },
                    Some(ComptimeValue::ExternFunction(external_symbol)) => {
                        if !self.external_declared(*external_symbol) {
                            return Err(join(join(String::from_str("external function symbol "), decimal_text(external_symbol.0 as i128).as_str()), " was not declared"));
                        }
                        let width = self.function_return_width(&callee.type_)?;
                        Ok((Callee::External(*external_symbol), width))
                    },
                    _ => Err(String::from_str("callee does not have a compile-time function value")),
                }
            },
            _ => Err(String::from_str("Inkwell backend only supports statically known callees")),
        }
    }

    /// Plans a local array bound to `[0; N]`: stack storage filled with zeros.
    fn emit_zero_array_binding(&mut self, symbol: SymbolId, expression: &HirExpression, operands: &mut Operands) -> (result: Result<(), String>)
        requires
            old(self).wf(),
            symbol.0 < old(self).program.symbols.symbols@.len() && old(self).in_program(*expression),
            old(self).building(),
        ensures
            old(self).extends(*final(self)),
            result is Ok ==> old(self).planned_from(*final(self), true),
            result is Ok ==> {
                &&& final(operands)@.len() == old(operands)@.len() + 1
                &&& final(operands)@.drop_last() == old(operands)@
                &&& final(operands)@.last().0 == symbol
                &&& final(operands)@.last().1 matches LocalOperand::Array { pointer, element_width, length }
                &&& final(self).last_step() == (Step::StoreZeroArray { pointer, element_width, length })
                &&& expression.type_ matches Type::FixedArray { size, base_type }
                &&& length == size && value_width(*base_type, old(self).target) == Some(element_width)
            },
            result is Err ==> final(operands)@ == old(operands)@,
            !(expression.data matches HirExpressionData::ArrayRepeatInitialization { value, .. } && value.data == HirExpressionData::Integer(0)) ==> result is Err,
    {
        let value = match &expression.data {
            HirExpressionData::ArrayRepeatInitialization { value, .. } => value,
            _ => {
                return Err(String::from_str("expected array repeat initializer"));
            },
        };
        match &value.data {
            HirExpressionData::Integer(0) => {},
            _ => {
                return Err(String::from_str("only `[0; N]` array initialization is supported for now"));
            },
        }
        let name = self.program.symbols.get(symbol).name.clone();
        let (element_width, length) = self.llvm_array_type(&expression.type_)?;
        let pointer = self.fresh_register(0)?;
        self.push_step(Step::AllocateArray { dest: pointer, element_width, length, name });
        self.push_step(Step::StoreZeroArray { pointer, element_width, length });
        operands.push((symbol, LocalOperand::Array { pointer, element_width, length }));
        Ok(())
    }
}

/// Plans the LLVM module of an elaborated program: its external functions,
/// its compile-time functions and the executable's `main`.
pub fn emit(program: &ElaboratedProgram, target: TargetInfo) -> (result: Result<ModulePlan, String>)
    requires
        supported_width(target),
        program_within(program),
    ensures
        result matches Ok(plan) ==> {
            &&& declares_externals(plan.externals@, program.symbols.symbols@, target)
            &&& declares_functions(plan.functions@, program.functions.view_functions(), target)
            &&& exists|id: FunctionId| is_entry(program, id) && #[trigger] main_calls(plan.main, id)
            &&& forall|k: int| 0 <= k < plan.functions@.len() ==> function_closed(#[trigger] plan.functions@[k])
            &&& function_closed(plan.main)
            &&& forall|k: int| 0 <= k < program.functions.view_functions().len() ==>
                ends_in_return(#[trigger] program.functions.view_functions()[k])
            &&& forall|k: int| 0 <= k < program.functions.view_functions().len() ==>
                literal_body(#[trigger] program.functions.view_functions()[k], target, plan.functions@[k].blocks@)
        },
        (forall|id: FunctionId| !is_entry(program, id)) ==> result is Err,
        (exists|id: FunctionId| is_entry(program, id))
            && program.symbols.symbols@.len() <= 0xffff_ffff
            && program.functions.view_functions().len() <= 0xffff_ffff
            && (forall|t: int| 0 <= t < program.symbols.symbols@.len() ==> external_declarable(#[trigger] program.symbols.symbols@[t], target))
            && (forall|k: int| 0 <= k < program.functions.view_functions().len() ==>
                function_declarable(#[trigger] program.functions.view_functions()[k], target)
                && plain_function(program.functions.view_functions()[k])) ==> result is Ok,
    program.entry_symbol is None
        && program.symbols.symbols@.len() <= 0xffff_ffff
        && program.functions.view_functions().len() <= 0xffff_ffff
        && (forall|t: int| 0 <= t < program.symbols.symbols@.len() ==> external_declarable(#[trigger] program.symbols.symbols@[t], target))
        && (forall|k: int| 0 <= k < program.functions.view_functions().len() ==>
            function_declarable(#[trigger] program.functions.view_functions()[k], target)
            && plain_function(program.functions.view_functions()[k]))
        ==> (result matches Err(message) && message@ == "entry module does not define `main`"@),
{
    let mut generator = CodeGenerator::new(program, target);
    let externals = generator.declare_external_functions()?;
    let mut functions = generator.declare_functions()?;
    generator.emit_function_bodies(&mut functions)?;
    let main = generator.emit_main_wrapper()?;
    Ok(ModulePlan { externals, functions, main })
}

} // verus!
