//! The generator of the intermediate representation.
//!
//! The generator keeps one context for every function that is open, the
//! innermost last. A context has at most one block under construction; an
//! instruction that is generated while no block is open is an error, and is
//! dropped. A name is resolved from the innermost context outwards: a local
//! of the context itself, an upvalue that it has already, or, found as a
//! local or an upvalue further out, a new upvalue in every context on the
//! way in. A name that is found nowhere is a global.

use vstd::prelude::*;
use crate::common::number::{from_usize, spec_from_count};
use crate::common::text::{decimal, spec_decimal};
use crate::frontend::parser::ast::{BinOp, Expression, Literal, Program, Statement, UnOp};
use crate::frontend::ir::{IRBinOp, IRUnOp};
use crate::frontend::ir::{
    spec_block_views, spec_error_views, spec_function_views, spec_instr_views, spec_local_views,
    spec_name_views, spec_operand_views, spec_upvalue_views, BlockView, ErrorView, FunctionView,
    IRBasicBlock, IRFunction, IRGeneratorError, IRInstruction, IRModule, IROperand, IRTerminator,
    IRUpVal, IRUpValType, InstrView, OperandView, TermView,
};

verus! {

/// The block of a context that is under construction.
#[derive(Debug)]
pub struct IRActiveBlock {
    pub id: usize,
    pub instructions: Vec<IRInstruction>,
}

/// What the generator knows of a function that is open.
#[derive(Debug)]
pub struct IRFunctionContext {
    pub name: String,
    pub params: Vec<String>,
    pub local_variables: Vec<(String, usize)>,
    pub upvalues: Vec<(String, IRUpVal)>,
    pub sub_functions: Vec<String>,
    pub active_block: Option<IRActiveBlock>,
    pub basic_blocks: Vec<IRBasicBlock>,
    pub next_reg: usize,
    pub next_block_id: usize,
}

pub struct IRGenerator {
    pub module: IRModule,
    pub function_contexts: Vec<IRFunctionContext>,
    pub next_func_id: usize,
    pub errors: Vec<IRGeneratorError>,
}

/// Where a name lives.
#[derive(Debug, Clone, Copy, PartialEq, Eq, Structural)]
pub enum IRValueScope {
    Global,
    Local(usize),
    UpVal(IRUpVal),
}

/// A context as contracts see it.
pub struct ContextView {
    pub name: Seq<char>,
    pub params: Seq<Seq<char>>,
    pub locals: Seq<(Seq<char>, usize)>,
    pub upvalues: Seq<(Seq<char>, IRUpVal)>,
    pub subs: Seq<Seq<char>>,
    pub active: Option<(usize, Seq<InstrView>)>,
    pub blocks: Seq<BlockView>,
    pub next_reg: usize,
    pub next_block_id: usize,
}

impl View for IRFunctionContext {
    type V = ContextView;

    open spec fn view(&self) -> ContextView {
        ContextView {
            name: self.name@,
            params: spec_name_views(self.params@),
            locals: spec_local_views(self.local_variables@),
            upvalues: spec_upvalue_views(self.upvalues@),
            subs: spec_name_views(self.sub_functions@),
            active: match self.active_block {
                Some(b) => Some((b.id, spec_instr_views(b.instructions@))),
                None => None,
            },
            blocks: spec_block_views(self.basic_blocks@),
            next_reg: self.next_reg,
            next_block_id: self.next_block_id,
        }
    }
}

/// The contexts as contracts see them.
pub open spec fn spec_context_views(contexts: Seq<IRFunctionContext>) -> Seq<ContextView> {
    contexts.map_values(|c: IRFunctionContext| c@)
}

/// A generator as contracts see it.
pub struct GenView {
    pub functions: Seq<FunctionView>,
    pub contexts: Seq<ContextView>,
    pub next_func_id: usize,
    pub errors: Seq<ErrorView>,
}

impl View for IRGenerator {
    type V = GenView;

    open spec fn view(&self) -> GenView {
        GenView {
            functions: spec_function_views(self.module.functions@),
            contexts: spec_context_views(self.function_contexts@),
            next_func_id: self.next_func_id,
            errors: spec_error_views(self.errors@),
        }
    }
}

/// One more, as far as the machine word goes.
pub open spec fn spec_next(n: usize) -> usize {
    if n < usize::MAX {
        (n + 1) as usize
    } else {
        n
    }
}

/// The slot of the first local with the given name.
pub open spec fn spec_local_slot(locals: Seq<(Seq<char>, usize)>, name: Seq<char>) -> Option<usize>
    decreases locals.len(),
{
    if locals.len() == 0 {
        None
    } else {
        match spec_local_slot(locals.drop_last(), name) {
            Some(s) => Some(s),
            None => if locals.last().0 == name {
                Some(locals.last().1)
            } else {
                None
            },
        }
    }
}

/// The first upvalue with the given name.
pub open spec fn spec_upvalue_named(upvalues: Seq<(Seq<char>, IRUpVal)>, name: Seq<char>) -> Option<
    IRUpVal,
>
    decreases upvalues.len(),
{
    if upvalues.len() == 0 {
        None
    } else {
        match spec_upvalue_named(upvalues.drop_last(), name) {
            Some(u) => Some(u),
            None => if upvalues.last().0 == name {
                Some(upvalues.last().1)
            } else {
                None
            },
        }
    }
}

/// The index of the first local with the given name.
pub open spec fn spec_local_index(locals: Seq<(Seq<char>, usize)>, name: Seq<char>) -> Option<int>
    decreases locals.len(),
{
    if locals.len() == 0 {
        None
    } else {
        match spec_local_index(locals.drop_last(), name) {
            Some(i) => Some(i),
            None => if locals.last().0 == name {
                Some(locals.len() - 1)
            } else {
                None
            },
        }
    }
}

/// What the two lookups find.
pub proof fn lemma_local_index(locals: Seq<(Seq<char>, usize)>, name: Seq<char>)
    ensures
        match spec_local_index(locals, name) {
            Some(i) => 0 <= i < locals.len() && locals[i].0 == name && spec_local_slot(locals, name)
                == Some(locals[i].1) && forall|j: int| 0 <= j < i ==> (#[trigger] locals[j]).0 != name,
            None => spec_local_slot(locals, name) is None && forall|j: int|
                0 <= j < locals.len() ==> (#[trigger] locals[j]).0 != name,
        },
    decreases locals.len(),
{
    if locals.len() > 0 {
        lemma_local_index(locals.drop_last(), name);
        match spec_local_index(locals.drop_last(), name) {
            Some(i) => {
                assert(locals.drop_last()[i] == locals[i]);
                assert forall|j: int| 0 <= j < i implies (#[trigger] locals[j]).0 != name by {
                    assert(locals.drop_last()[j] == locals[j]);
                }
            },
            None => {
                assert forall|j: int| 0 <= j < locals.len() - 1 implies (#[trigger] locals[j]).0
                    != name by {
                    assert(locals.drop_last()[j] == locals[j]);
                }
            },
        }
    }
}

/// The index of the first upvalue with the given name.
pub open spec fn spec_upvalue_index(upvalues: Seq<(Seq<char>, IRUpVal)>, name: Seq<char>) -> Option<int>
    decreases upvalues.len(),
{
    if upvalues.len() == 0 {
        None
    } else {
        match spec_upvalue_index(upvalues.drop_last(), name) {
            Some(i) => Some(i),
            None => if upvalues.last().0 == name {
                Some(upvalues.len() - 1)
            } else {
                None
            },
        }
    }
}

/// What the two lookups find.
pub proof fn lemma_upvalue_index(upvalues: Seq<(Seq<char>, IRUpVal)>, name: Seq<char>)
    ensures
        match spec_upvalue_index(upvalues, name) {
            Some(i) => 0 <= i < upvalues.len() && upvalues[i].0 == name && spec_upvalue_named(
                upvalues,
                name,
            ) == Some(upvalues[i].1) && forall|j: int|
                0 <= j < i ==> (#[trigger] upvalues[j]).0 != name,
            None => spec_upvalue_named(upvalues, name) is None && forall|j: int|
                0 <= j < upvalues.len() ==> (#[trigger] upvalues[j]).0 != name,
        },
    decreases upvalues.len(),
{
    if upvalues.len() > 0 {
        lemma_upvalue_index(upvalues.drop_last(), name);
        match spec_upvalue_index(upvalues.drop_last(), name) {
            Some(i) => {
                assert(upvalues.drop_last()[i] == upvalues[i]);
                assert forall|j: int| 0 <= j < i implies (#[trigger] upvalues[j]).0 != name by {
                    assert(upvalues.drop_last()[j] == upvalues[j]);
                }
            },
            None => {
                assert forall|j: int| 0 <= j < upvalues.len() - 1 implies (#[trigger] upvalues[j]).0
                    != name by {
                    assert(upvalues.drop_last()[j] == upvalues[j]);
                }
            },
        }
    }
}

/// The context with one more upvalue, which gets the next slot.
pub open spec fn spec_with_upvalue(c: ContextView, name: Seq<char>, ty: IRUpValType) -> ContextView {
    ContextView {
        name: c.name,
        params: c.params,
        locals: c.locals,
        upvalues: c.upvalues.push((name, IRUpVal { slot: c.upvalues.len() as usize, ty })),
        subs: c.subs,
        active: c.active,
        blocks: c.blocks,
        next_reg: c.next_reg,
        next_block_id: c.next_block_id,
    }
}

/// Where the name lives for context `idx`, and the contexts afterwards: a
/// local or an upvalue of the context itself; else, where the context
/// outside finds it as a local or an upvalue, a new upvalue of this context
/// that captures it; else a global.
pub open spec fn spec_var_scope(contexts: Seq<ContextView>, idx: int, name: Seq<char>) -> (
    Seq<ContextView>,
    IRValueScope,
)
    decreases idx,
{
    if idx < 0 || idx >= contexts.len() {
        (contexts, IRValueScope::Global)
    } else {
        match spec_local_slot(contexts[idx].locals, name) {
            Some(slot) => (contexts, IRValueScope::Local(slot)),
            None => match spec_upvalue_named(contexts[idx].upvalues, name) {
                Some(uv) => (contexts, IRValueScope::UpVal(uv)),
                None => if idx > 0 {
                    let outer = spec_var_scope(contexts, idx - 1, name);
                    match outer.1 {
                        IRValueScope::Local(slot) => (
                            outer.0.update(
                                idx,
                                spec_with_upvalue(outer.0[idx], name, IRUpValType::LocalVar(slot)),
                            ),
                            IRValueScope::UpVal(
                                IRUpVal {
                                    slot: outer.0[idx].upvalues.len() as usize,
                                    ty: IRUpValType::LocalVar(slot),
                                },
                            ),
                        ),
                        IRValueScope::UpVal(parent) => (
                            outer.0.update(
                                idx,
                                spec_with_upvalue(
                                    outer.0[idx],
                                    name,
                                    IRUpValType::UpVal(parent.slot),
                                ),
                            ),
                            IRValueScope::UpVal(
                                IRUpVal {
                                    slot: outer.0[idx].upvalues.len() as usize,
                                    ty: IRUpValType::UpVal(parent.slot),
                                },
                            ),
                        ),
                        IRValueScope::Global => (outer.0, IRValueScope::Global),
                    }
                } else {
                    (contexts, IRValueScope::Global)
                },
            },
        }
    }
}

/// Resolving a name keeps the number of contexts, and changes no context
/// but by giving it upvalues.
pub proof fn lemma_var_scope(contexts: Seq<ContextView>, idx: int, name: Seq<char>)
    ensures
        spec_var_scope(contexts, idx, name).0.len() == contexts.len(),
        forall|i: int|
            0 <= i < contexts.len() ==> {
                let a = #[trigger] spec_var_scope(contexts, idx, name).0[i];
                let b = contexts[i];
                &&& a.name == b.name
                &&& a.params == b.params
                &&& a.locals == b.locals
                &&& a.subs == b.subs
                &&& a.active == b.active
                &&& a.blocks == b.blocks
                &&& a.next_reg == b.next_reg
                &&& a.next_block_id == b.next_block_id
                &&& i > idx ==> a == b
            },
    decreases idx,
{
    if 0 < idx < contexts.len() {
        lemma_var_scope(contexts, idx - 1, name);
    }
}

impl GenView {
    /// The innermost context.
    pub open spec fn top(self) -> ContextView {
        self.contexts.last()
    }

    /// The generator with the innermost context replaced.
    pub open spec fn with_top(self, c: ContextView) -> GenView {
        GenView {
            functions: self.functions,
            contexts: self.contexts.update(self.contexts.len() - 1, c),
            next_func_id: self.next_func_id,
            errors: self.errors,
        }
    }

    /// The generator with one more error.
    pub open spec fn err(self, e: ErrorView) -> GenView {
        GenView {
            functions: self.functions,
            contexts: self.contexts,
            next_func_id: self.next_func_id,
            errors: self.errors.push(e),
        }
    }

    /// The generator after an instruction is generated: the open block of
    /// the innermost context has it; where no block is open, it is dropped
    /// and the error `UnreachableCode` is recorded.
    pub open spec fn emit(self, i: InstrView) -> GenView {
        if self.contexts.len() == 0 {
            self
        } else {
            let c = self.top();
            match c.active {
                Some((id, instrs)) => self.with_top(
                    ContextView {
                        name: c.name,
                        params: c.params,
                        locals: c.locals,
                        upvalues: c.upvalues,
                        subs: c.subs,
                        active: Some((id, instrs.push(i))),
                        blocks: c.blocks,
                        next_reg: c.next_reg,
                        next_block_id: c.next_block_id,
                    },
                ),
                None => self.err(ErrorView::UnreachableCode),
            }
        }
    }

    /// The register that is allocated next.
    pub open spec fn reg(self) -> usize {
        if self.contexts.len() == 0 {
            0
        } else {
            self.top().next_reg
        }
    }

    /// The generator after a register is allocated.
    pub open spec fn alloc_reg(self) -> GenView {
        if self.contexts.len() == 0 {
            self
        } else {
            let c = self.top();
            self.with_top(
                ContextView {
                    name: c.name,
                    params: c.params,
                    locals: c.locals,
                    upvalues: c.upvalues,
                    subs: c.subs,
                    active: c.active,
                    blocks: c.blocks,
                    next_reg: spec_next(c.next_reg),
                    next_block_id: c.next_block_id,
                },
            )
        }
    }

    /// The block id that is allocated next.
    pub open spec fn bb_id(self) -> usize {
        if self.contexts.len() == 0 {
            0
        } else {
            self.top().next_block_id
        }
    }

    /// The generator after a block id is allocated.
    pub open spec fn alloc_bb_id(self) -> GenView {
        if self.contexts.len() == 0 {
            self
        } else {
            let c = self.top();
            self.with_top(
                ContextView {
                    name: c.name,
                    params: c.params,
                    locals: c.locals,
                    upvalues: c.upvalues,
                    subs: c.subs,
                    active: c.active,
                    blocks: c.blocks,
                    next_reg: c.next_reg,
                    next_block_id: spec_next(c.next_block_id),
                },
            )
        }
    }

    /// The generator after the block with the given id is opened: it is
    /// empty, and a block that was open is dropped.
    pub open spec fn open_bb_lazy(self, id: usize) -> GenView {
        if self.contexts.len() == 0 {
            self
        } else {
            let c = self.top();
            self.with_top(
                ContextView {
                    name: c.name,
                    params: c.params,
                    locals: c.locals,
                    upvalues: c.upvalues,
                    subs: c.subs,
                    active: Some((id, Seq::empty())),
                    blocks: c.blocks,
                    next_reg: c.next_reg,
                    next_block_id: c.next_block_id,
                },
            )
        }
    }

    /// The generator after a block with a new id is opened.
    pub open spec fn open_bb(self) -> GenView {
        self.alloc_bb_id().open_bb_lazy(self.bb_id())
    }

    /// Whether a block is open.
    pub open spec fn has_active_bb(self) -> bool {
        self.contexts.len() > 0 && self.top().active is Some
    }

    /// The generator after the open block is closed with the terminator:
    /// the block is the last of the function's blocks, and no block is open.
    /// Where no block is open nothing happens.
    pub open spec fn close_bb(self, term: TermView) -> GenView {
        if self.contexts.len() == 0 {
            self
        } else {
            let c = self.top();
            match c.active {
                Some((id, instrs)) => self.with_top(
                    ContextView {
                        name: c.name,
                        params: c.params,
                        locals: c.locals,
                        upvalues: c.upvalues,
                        subs: c.subs,
                        active: None,
                        blocks: c.blocks.push(
                            BlockView { id, instructions: instrs, terminator: term },
                        ),
                        next_reg: c.next_reg,
                        next_block_id: c.next_block_id,
                    },
                ),
                None => self,
            }
        }
    }

    /// The generator after a function is opened: the innermost context
    /// lists it among the prototypes that it contains, and a new context is
    /// the innermost.
    pub open spec fn open_function(self, name: Seq<char>, params: Seq<Seq<char>>) -> GenView {
        let listed = if self.contexts.len() == 0 {
            self.contexts
        } else {
            let c = self.top();
            self.contexts.update(
                self.contexts.len() - 1,
                ContextView {
                    name: c.name,
                    params: c.params,
                    locals: c.locals,
                    upvalues: c.upvalues,
                    subs: c.subs.push(name),
                    active: c.active,
                    blocks: c.blocks,
                    next_reg: c.next_reg,
                    next_block_id: c.next_block_id,
                },
            )
        };
        GenView {
            functions: self.functions,
            contexts: listed.push(
                ContextView {
                    name,
                    params,
                    locals: Seq::empty(),
                    upvalues: Seq::empty(),
                    subs: Seq::empty(),
                    active: None,
                    blocks: Seq::empty(),
                    next_reg: 0,
                    next_block_id: 0,
                },
            ),
            next_func_id: self.next_func_id,
            errors: self.errors,
        }
    }

    /// The generator after the innermost function is closed: the function
    /// is the last of the module's functions, and its context is gone.
    pub open spec fn close_function(self) -> GenView {
        if self.contexts.len() == 0 {
            self
        } else {
            let c = self.top();
            GenView {
                functions: self.functions.push(
                    FunctionView {
                        name: c.name,
                        params: c.params,
                        basic_blocks: c.blocks,
                        local_variables: c.locals,
                        upvalues: c.upvalues,
                        sub_functions: c.subs,
                    },
                ),
                contexts: self.contexts.drop_last(),
                next_func_id: self.next_func_id,
                errors: self.errors,
            }
        }
    }

    /// The slot that a declaration of the name gets: the number of locals
    /// that the context has.
    pub open spec fn new_slot(self) -> usize {
        if self.contexts.len() == 0 {
            0
        } else {
            self.top().locals.len() as usize
        }
    }

    /// The generator after a local is declared: the name has the slot
    /// `new_slot`, whether it had one before or not.
    pub open spec fn decl_local(self, name: Seq<char>) -> GenView {
        if self.contexts.len() == 0 {
            self
        } else {
            let c = self.top();
            let slot = c.locals.len() as usize;
            self.with_top(
                ContextView {
                    name: c.name,
                    params: c.params,
                    locals: match spec_local_index(c.locals, name) {
                        Some(i) => c.locals.update(i, (name, slot)),
                        None => c.locals.push((name, slot)),
                    },
                    upvalues: c.upvalues,
                    subs: c.subs,
                    active: c.active,
                    blocks: c.blocks,
                    next_reg: c.next_reg,
                    next_block_id: c.next_block_id,
                },
            )
        }
    }

    /// The slot of a local of the innermost context.
    pub open spec fn find_local(self, name: Seq<char>) -> Option<usize> {
        if self.contexts.len() == 0 {
            None
        } else {
            spec_local_slot(self.top().locals, name)
        }
    }

    /// Where the name lives for the innermost context.
    pub open spec fn scope(self, name: Seq<char>) -> IRValueScope {
        spec_var_scope(self.contexts, self.contexts.len() - 1, name).1
    }

    /// The generator after the name is resolved for the innermost context.
    pub open spec fn resolve(self, name: Seq<char>) -> GenView {
        GenView {
            functions: self.functions,
            contexts: spec_var_scope(self.contexts, self.contexts.len() - 1, name).0,
            next_func_id: self.next_func_id,
            errors: self.errors,
        }
    }

    /// The generator after a function id is taken.
    pub open spec fn take_func_id(self) -> GenView {
        GenView {
            functions: self.functions,
            contexts: self.contexts,
            next_func_id: spec_next(self.next_func_id),
            errors: self.errors,
        }
    }
}

/// The name of the prototype of a named local function.
pub open spec fn spec_mangled(name: Seq<char>, id: usize) -> Seq<char> {
    "__local_fn_"@ + name + "_"@ + spec_decimal(id as nat)
}

/// The name of the prototype of a function without a name.
pub open spec fn spec_anonymous(id: usize) -> Seq<char> {
    "__anon_fn_"@ + spec_decimal(id as nat)
}

/// Replacing one context replaces its view.
pub proof fn lemma_context_update(contexts: Seq<IRFunctionContext>, i: int, c: IRFunctionContext)
    requires
        0 <= i < contexts.len(),
    ensures
        spec_context_views(contexts.update(i, c)) == spec_context_views(contexts).update(i, c@),
{
    assert(spec_context_views(contexts.update(i, c)) =~= spec_context_views(contexts).update(i, c@));
}

impl IRGenerator {
    pub fn new() -> (r: IRGenerator)
        ensures
            r@.functions.len() == 0,
            r@.contexts.len() == 0,
            r@.next_func_id == 0,
            r@.errors.len() == 0,
    {
        IRGenerator {
            module: IRModule { functions: Vec::new() },
            function_contexts: Vec::new(),
            next_func_id: 0,
            errors: Vec::new(),
        }
    }

    /// The errors that generation has met so far.
    pub fn get_err(&self) -> (r: &Vec<IRGeneratorError>)
        ensures
            *r == self.errors,
    {
        &self.errors
    }

    /// The module that has been generated so far.
    pub fn get_module(&self) -> (r: &IRModule)
        ensures
            *r == self.module,
    {
        &self.module
    }

    /// Records an error.
    pub fn emit_err(&mut self, err: IRGeneratorError)
        ensures
            final(self)@ == old(self)@.err(err@),
    {
        self.errors.push(err);
        proof {
            assert(spec_error_views(self.errors@) =~= spec_error_views(old(self).errors@).push(
                err@,
            ));
        }
    }

    /// Puts an instruction into the open block; see [`GenView::emit`].
    pub fn emit(&mut self, instr: IRInstruction)
        ensures
            final(self)@ == old(self)@.emit(instr@),
    {
        let n = self.function_contexts.len();
        if n == 0 {
            return ;
        }
        let ghost before = self.function_contexts@[n - 1];
        let open = self.function_contexts[n - 1].active_block.is_some();
        if !open {
            self.emit_err(IRGeneratorError::UnreachableCode);
            return ;
        }
        match &mut self.function_contexts[n - 1].active_block {
            Some(b) => {
                b.instructions.push(instr);
            },
            None => {},
        }
        proof {
            let after = self.function_contexts@[n - 1];
            let ins0 = before.active_block->0.instructions@;
            assert(spec_instr_views(ins0.push(instr)) =~= spec_instr_views(ins0).push(instr@));
            assert(self.function_contexts@ =~= old(self).function_contexts@.update(n - 1, after));
            lemma_context_update(old(self).function_contexts@, n - 1, after);
        }
    }

    /// Takes the next register.
    pub fn alloc_reg(&mut self) -> (r: usize)
        ensures
            r == old(self)@.reg(),
            final(self)@ == old(self)@.alloc_reg(),
    {
        let n = self.function_contexts.len();
        if n == 0 {
            return 0;
        }
        let reg = self.function_contexts[n - 1].next_reg;
        if reg < usize::MAX {
            self.function_contexts[n - 1].next_reg = reg + 1;
        }
        proof {
            let after = self.function_contexts@[n - 1];
            assert(self.function_contexts@ =~= old(self).function_contexts@.update(n - 1, after));
            lemma_context_update(old(self).function_contexts@, n - 1, after);
        }
        reg
    }

    /// Takes the next block id.
    pub fn alloc_bb_id(&mut self) -> (r: usize)
        ensures
            r == old(self)@.bb_id(),
            final(self)@ == old(self)@.alloc_bb_id(),
    {
        let n = self.function_contexts.len();
        if n == 0 {
            return 0;
        }
        let id = self.function_contexts[n - 1].next_block_id;
        if id < usize::MAX {
            self.function_contexts[n - 1].next_block_id = id + 1;
        }
        proof {
            let after = self.function_contexts@[n - 1];
            assert(self.function_contexts@ =~= old(self).function_contexts@.update(n - 1, after));
            lemma_context_update(old(self).function_contexts@, n - 1, after);
        }
        id
    }

    /// Opens the block with the given id.
    pub fn open_bb_lazy(&mut self, id: usize) -> (r: usize)
        ensures
            r == id,
            final(self)@ == old(self)@.open_bb_lazy(id),
    {
        let n = self.function_contexts.len();
        if n == 0 {
            return id;
        }
        self.function_contexts[n - 1].active_block = Some(
            IRActiveBlock { id, instructions: Vec::new() },
        );
        proof {
            let after = self.function_contexts@[n - 1];
            assert(spec_instr_views(Seq::<IRInstruction>::empty()) =~= Seq::<InstrView>::empty());
            assert(self.function_contexts@ =~= old(self).function_contexts@.update(n - 1, after));
            lemma_context_update(old(self).function_contexts@, n - 1, after);
        }
        id
    }

    /// Opens a block with a new id.
    pub fn open_bb(&mut self) -> (r: usize)
        ensures
            r == old(self)@.bb_id(),
            final(self)@ == old(self)@.open_bb(),
    {
        let id = self.alloc_bb_id();
        self.open_bb_lazy(id)
    }

    /// Whether a block is open.
    pub fn has_active_bb(&self) -> (r: bool)
        ensures
            r == self@.has_active_bb(),
    {
        let n = self.function_contexts.len();
        if n == 0 {
            return false;
        }
        proof {
            assert(spec_context_views(self.function_contexts@).last() == self.function_contexts@[n
                - 1]@);
        }
        self.function_contexts[n - 1].active_block.is_some()
    }

    /// Closes the open block with the terminator; see
    /// [`GenView::close_bb`].
    pub fn close_bb(&mut self, terminator: IRTerminator)
        ensures
            final(self)@ == old(self)@.close_bb(terminator@),
    {
        let n = self.function_contexts.len();
        if n == 0 {
            return ;
        }
        let ghost before = self.function_contexts@[n - 1];
        proof {
            assert(spec_context_views(self.function_contexts@).last() == before@);
        }
        let mut taken: Option<IRActiveBlock> = None;
        core::mem::swap(&mut self.function_contexts[n - 1].active_block, &mut taken);
        match taken {
            Some(b) => {
                let ghost blocks0 = self.function_contexts@[n - 1].basic_blocks@;
                let bb = IRBasicBlock { id: b.id, instructions: b.instructions, terminator };
                self.function_contexts[n - 1].basic_blocks.push(bb);
                proof {
                    let after = self.function_contexts@[n - 1];
                    assert(spec_block_views(blocks0.push(bb)) =~= spec_block_views(blocks0).push(
                        bb@,
                    ));
                    assert(self.function_contexts@ =~= old(self).function_contexts@.update(
                        n - 1,
                        after,
                    ));
                    lemma_context_update(old(self).function_contexts@, n - 1, after);
                }
            },
            None => {
                proof {
                    assert(self.function_contexts@ =~= old(self).function_contexts@);
                }
            },
        }
    }

    /// Closes the open block, if there is one.
    pub fn try_close_bb(&mut self, terminator: IRTerminator)
        ensures
            final(self)@ == old(self)@.close_bb(terminator@),
    {
        if self.has_active_bb() {
            self.close_bb(terminator);
        } else {
            proof {
                let n = self.function_contexts@.len();
                if n > 0 {
                    assert(spec_context_views(self.function_contexts@).last()
                        == self.function_contexts@[n - 1]@);
                }
            }
        }
    }
}

/// A copy of the names.
pub fn copy_names(v: &Vec<String>) -> (r: Vec<String>)
    ensures
        spec_name_views(r@) == spec_name_views(v@),
{
    let mut r: Vec<String> = Vec::new();
    let mut i: usize = 0;
    while i < v.len()
        invariant
            i <= v.len(),
            r@.len() == i,
            forall|j: int| 0 <= j < i ==> (#[trigger] r@[j])@ == v@[j]@,
        decreases v.len() - i,
    {
        r.push(v[i].clone());
        i += 1;
    }
    proof {
        assert(spec_name_views(r@) =~= spec_name_views(v@));
    }
    r
}

impl IRGenerator {
    /// Opens a function; see [`GenView::open_function`].
    pub fn open_function(&mut self, name: String, params: Vec<String>)
        ensures
            final(self)@ == old(self)@.open_function(name@, spec_name_views(params@)),
    {
        let n = self.function_contexts.len();
        let ghost listed = self.function_contexts@;
        if n > 0 {
            let ghost subs0 = self.function_contexts@[n - 1].sub_functions@;
            proof {
                assert(spec_context_views(self.function_contexts@).last()
                    == self.function_contexts@[n - 1]@);
            }
            self.function_contexts[n - 1].sub_functions.push(name.clone());
            proof {
                let after = self.function_contexts@[n - 1];
                assert(spec_name_views(after.sub_functions@) =~= spec_name_views(subs0).push(name@));
                assert(self.function_contexts@ =~= old(self).function_contexts@.update(n - 1, after));
                lemma_context_update(old(self).function_contexts@, n - 1, after);
                listed = self.function_contexts@;
            }
        }
        let ctx = IRFunctionContext {
            name,
            params,
            local_variables: Vec::new(),
            upvalues: Vec::new(),
            sub_functions: Vec::new(),
            active_block: None,
            basic_blocks: Vec::new(),
            next_reg: 0,
            next_block_id: 0,
        };
        self.function_contexts.push(ctx);
        proof {
            assert(spec_local_views(ctx.local_variables@) =~= Seq::<(Seq<char>, usize)>::empty());
            assert(spec_upvalue_views(ctx.upvalues@) =~= Seq::<(Seq<char>, IRUpVal)>::empty());
            assert(spec_name_views(ctx.sub_functions@) =~= Seq::<Seq<char>>::empty());
            assert(spec_block_views(ctx.basic_blocks@) =~= Seq::<BlockView>::empty());
            assert(spec_context_views(self.function_contexts@) =~= spec_context_views(listed).push(
                ctx@,
            ));
        }
    }

    /// Closes the innermost function; see [`GenView::close_function`].
    pub fn close_function(&mut self)
        ensures
            final(self)@ == old(self)@.close_function(),
    {
        let n = self.function_contexts.len();
        if n == 0 {
            return ;
        }
        proof {
            assert(spec_context_views(self.function_contexts@).last()
                == self.function_contexts@[n - 1]@);
        }
        let ctx = self.function_contexts.pop().unwrap();
        let ghost functions0 = self.module.functions@;
        let func = IRFunction {
            name: ctx.name,
            params: ctx.params,
            basic_blocks: ctx.basic_blocks,
            local_variables: ctx.local_variables,
            upvalues: ctx.upvalues,
            sub_functions: ctx.sub_functions,
        };
        self.module.functions.push(func);
        proof {
            assert(spec_function_views(functions0.push(func)) =~= spec_function_views(
                functions0,
            ).push(func@));
            assert(spec_context_views(self.function_contexts@) =~= spec_context_views(
                old(self).function_contexts@,
            ).drop_last());
        }
    }

    /// The slot of a local of the innermost context.
    pub fn find_local(&self, name: &String) -> (r: Option<usize>)
        ensures
            r == self@.find_local(name@),
    {
        let n = self.function_contexts.len();
        if n == 0 {
            return None;
        }
        proof {
            assert(spec_context_views(self.function_contexts@).last()
                == self.function_contexts@[n - 1]@);
        }
        match Self::local_index(&self.function_contexts[n - 1].local_variables, name) {
            Some(i) => {
                proof {
                    lemma_local_index(
                        spec_local_views(self.function_contexts@[n - 1].local_variables@),
                        name@,
                    );
                }
                Some(self.function_contexts[n - 1].local_variables[i].1)
            },
            None => {
                proof {
                    lemma_local_index(
                        spec_local_views(self.function_contexts@[n - 1].local_variables@),
                        name@,
                    );
                }
                None
            },
        }
    }

    fn local_index(locals: &Vec<(String, usize)>, name: &String) -> (r: Option<usize>)
        ensures
            match r {
                Some(i) => i < locals@.len() && spec_local_index(spec_local_views(locals@), name@)
                    == Some(i as int),
                None => spec_local_index(spec_local_views(locals@), name@) is None,
            },
    {
        let ghost views = spec_local_views(locals@);
        proof {
            lemma_local_index(views, name@);
        }
        let mut i: usize = 0;
        while i < locals.len()
            invariant
                i <= locals.len(),
                views == spec_local_views(locals@),
                forall|j: int| 0 <= j < i ==> (#[trigger] views[j]).0 != name@,
            decreases locals.len() - i,
        {
            if locals[i].0 == *name {
                proof {
                    lemma_local_index(views, name@);
                    assert(views[i as int].0 == name@);
                    match spec_local_index(views, name@) {
                        Some(k) => {
                            if k < i {
                                assert(views[k].0 != name@);
                            }
                        },
                        None => {},
                    }
                }
                return Some(i);
            }
            proof {
                assert(views[i as int].0 == locals@[i as int].0@);
            }
            i += 1;
        }
        None
    }

    fn upvalue_index(upvalues: &Vec<(String, IRUpVal)>, name: &String) -> (r: Option<usize>)
        ensures
            match r {
                Some(i) => i < upvalues@.len() && spec_upvalue_index(
                    spec_upvalue_views(upvalues@),
                    name@,
                ) == Some(i as int),
                None => spec_upvalue_index(spec_upvalue_views(upvalues@), name@) is None,
            },
    {
        let ghost views = spec_upvalue_views(upvalues@);
        proof {
            lemma_upvalue_index(views, name@);
        }
        let mut i: usize = 0;
        while i < upvalues.len()
            invariant
                i <= upvalues.len(),
                views == spec_upvalue_views(upvalues@),
                forall|j: int| 0 <= j < i ==> (#[trigger] views[j]).0 != name@,
            decreases upvalues.len() - i,
        {
            if upvalues[i].0 == *name {
                proof {
                    lemma_upvalue_index(views, name@);
                    assert(views[i as int].0 == name@);
                    match spec_upvalue_index(views, name@) {
                        Some(k) => {
                            if k < i {
                                assert(views[k].0 != name@);
                            }
                        },
                        None => {},
                    }
                }
                return Some(i);
            }
            proof {
                assert(views[i as int].0 == upvalues@[i as int].0@);
            }
            i += 1;
        }
        None
    }

    /// Declares a local of the innermost context; see
    /// [`GenView::decl_local`].
    pub fn decl_local(&mut self, name: String) -> (r: usize)
        ensures
            r == old(self)@.new_slot(),
            final(self)@ == old(self)@.decl_local(name@),
    {
        let n = self.function_contexts.len();
        if n == 0 {
            return 0;
        }
        proof {
            assert(spec_context_views(self.function_contexts@).last()
                == self.function_contexts@[n - 1]@);
        }
        let slot = self.function_contexts[n - 1].local_variables.len();
        let ghost locals0 = self.function_contexts@[n - 1].local_variables@;
        match Self::local_index(&self.function_contexts[n - 1].local_variables, &name) {
            Some(i) => {
                self.function_contexts[n - 1].local_variables[i].1 = slot;
                proof {
                    let after = self.function_contexts@[n - 1];
                    lemma_local_index(spec_local_views(locals0), name@);
                    assert(spec_local_views(locals0)[i as int].0 == name@);
                    assert(after.local_variables@[i as int].0 == locals0[i as int].0);
                    assert(spec_local_views(after.local_variables@) =~= spec_local_views(
                        locals0,
                    ).update(i as int, (name@, slot)));
                    assert(self.function_contexts@ =~= old(self).function_contexts@.update(
                        n - 1,
                        after,
                    ));
                    lemma_context_update(old(self).function_contexts@, n - 1, after);
                }
            },
            None => {
                self.function_contexts[n - 1].local_variables.push((name, slot));
                proof {
                    let after = self.function_contexts@[n - 1];
                    assert(spec_local_views(after.local_variables@) =~= spec_local_views(
                        locals0,
                    ).push((name@, slot)));
                    assert(self.function_contexts@ =~= old(self).function_contexts@.update(
                        n - 1,
                        after,
                    ));
                    lemma_context_update(old(self).function_contexts@, n - 1, after);
                }
            },
        }
        slot
    }

    /// Gives context `func_idx` one more upvalue, which gets the next slot.
    pub fn add_upval_to_context(&mut self, func_idx: usize, name: &String, ty: IRUpValType) -> (r:
        IRUpVal)
        requires
            func_idx < old(self).function_contexts@.len(),
        ensures
            r == (IRUpVal { slot: old(self)@.contexts[func_idx as int].upvalues.len() as usize, ty }),
            final(self)@.contexts == old(self)@.contexts.update(
                func_idx as int,
                spec_with_upvalue(old(self)@.contexts[func_idx as int], name@, ty),
            ),
            final(self)@.functions == old(self)@.functions,
            final(self)@.next_func_id == old(self)@.next_func_id,
            final(self)@.errors == old(self)@.errors,
            final(self).function_contexts@.len() == old(self).function_contexts@.len(),
    {
        let ghost ups0 = self.function_contexts@[func_idx as int].upvalues@;
        let slot = self.function_contexts[func_idx].upvalues.len();
        let uv = IRUpVal { slot, ty };
        self.function_contexts[func_idx].upvalues.push((name.clone(), uv));
        proof {
            let after = self.function_contexts@[func_idx as int];
            assert(spec_upvalue_views(after.upvalues@) =~= spec_upvalue_views(ups0).push(
                (name@, uv),
            ));
            assert(self.function_contexts@ =~= old(self).function_contexts@.update(
                func_idx as int,
                after,
            ));
            lemma_context_update(old(self).function_contexts@, func_idx as int, after);
        }
        uv
    }

    /// Where the name lives for context `func_idx`; see
    /// [`spec_var_scope`].
    pub fn var_scope_impl(&mut self, func_idx: usize, name: &String) -> (r: IRValueScope)
        requires
            func_idx < old(self).function_contexts@.len(),
        ensures
            r == spec_var_scope(old(self)@.contexts, func_idx as int, name@).1,
            final(self)@.contexts == spec_var_scope(old(self)@.contexts, func_idx as int, name@).0,
            final(self)@.functions == old(self)@.functions,
            final(self)@.next_func_id == old(self)@.next_func_id,
            final(self)@.errors == old(self)@.errors,
            final(self).function_contexts@.len() == old(self).function_contexts@.len(),
        decreases func_idx,
    {
        proof {
            lemma_local_index(
                spec_local_views(self.function_contexts@[func_idx as int].local_variables@),
                name@,
            );
            lemma_upvalue_index(
                spec_upvalue_views(self.function_contexts@[func_idx as int].upvalues@),
                name@,
            );
        }
        match Self::local_index(&self.function_contexts[func_idx].local_variables, name) {
            Some(i) => {
                return IRValueScope::Local(self.function_contexts[func_idx].local_variables[i].1);
            },
            None => {},
        }
        match Self::upvalue_index(&self.function_contexts[func_idx].upvalues, name) {
            Some(i) => {
                return IRValueScope::UpVal(self.function_contexts[func_idx].upvalues[i].1);
            },
            None => {},
        }
        if func_idx > 0 {
            let outer = self.var_scope_impl(func_idx - 1, name);
            proof {
                lemma_var_scope(old(self)@.contexts, func_idx - 1, name@);
            }
            match outer {
                IRValueScope::Local(slot) => {
                    let uv = self.add_upval_to_context(func_idx, name, IRUpValType::LocalVar(slot));
                    IRValueScope::UpVal(uv)
                },
                IRValueScope::UpVal(parent) => {
                    let uv = self.add_upval_to_context(
                        func_idx,
                        name,
                        IRUpValType::UpVal(parent.slot),
                    );
                    IRValueScope::UpVal(uv)
                },
                IRValueScope::Global => IRValueScope::Global,
            }
        } else {
            IRValueScope::Global
        }
    }

    /// Where the name lives for the innermost context.
    pub fn var_scope(&mut self, name: &String) -> (r: IRValueScope)
        ensures
            r == old(self)@.scope(name@),
            final(self)@ == old(self)@.resolve(name@),
    {
        let n = self.function_contexts.len();
        if n == 0 {
            proof {
                assert(self@.contexts =~= spec_var_scope(self@.contexts, -1, name@).0);
            }
            return IRValueScope::Global;
        }
        self.var_scope_impl(n - 1, name)
    }

    /// The name of the prototype of a function without a name; the
    /// function id is taken.
    pub fn alloc_anonymous_func_name(&mut self) -> (r: String)
        ensures
            r@ == spec_anonymous(old(self)@.next_func_id),
            final(self)@ == old(self)@.take_func_id(),
    {
        let id = self.next_func_id;
        if id < usize::MAX {
            self.next_func_id = id + 1;
        }
        let mut s = String::from_str("__anon_fn_");
        let d = decimal(id);
        s.append(d.as_str());
        s
    }

    /// The name of the prototype of a named local function; the function
    /// id is taken.
    pub fn mangle_local_fn_name(&mut self, name: &String) -> (r: String)
        ensures
            r@ == spec_mangled(name@, old(self)@.next_func_id),
            final(self)@ == old(self)@.take_func_id(),
    {
        let id = self.next_func_id;
        if id < usize::MAX {
            self.next_func_id = id + 1;
        }
        let mut s = String::from_str("__local_fn_");
        s.append(name.as_str());
        s.append("_");
        let d = decimal(id);
        s.append(d.as_str());
        s
    }
}

/// The operator of the intermediate representation for an operator of
/// the syntax tree.
pub open spec fn spec_ir_binop(op: BinOp) -> IRBinOp {
    match op {
        BinOp::Add => IRBinOp::Add,
        BinOp::Sub => IRBinOp::Sub,
        BinOp::Mul => IRBinOp::Mul,
        BinOp::Div => IRBinOp::Div,
        BinOp::Pow => IRBinOp::Pow,
        BinOp::Concat => IRBinOp::Concat,
        BinOp::Eq => IRBinOp::Eq,
        BinOp::Neq => IRBinOp::Neq,
        BinOp::Lt => IRBinOp::Lt,
        BinOp::Gt => IRBinOp::Gt,
        BinOp::Leq => IRBinOp::Leq,
        BinOp::Geq => IRBinOp::Geq,
        BinOp::And => IRBinOp::And,
        BinOp::Or => IRBinOp::Or,
        BinOp::Assign => IRBinOp::Eq,
    }
}

/// An immediate is loaded into a new register.
pub open spec fn sg_imm(g: GenView, v: OperandView) -> (GenView, OperandView) {
    let d = g.reg();
    (g.alloc_reg().emit(InstrView::LoadImm { dest: d, value: v }), OperandView::Reg(d))
}

/// A name is read into a new register: a local from its slot, an upvalue
/// from its upvalue slot, a global by its name, which is loaded first.
pub open spec fn sg_load(g: GenView, name: Seq<char>) -> (GenView, OperandView) {
    let g1 = g.resolve(name);
    match g.scope(name) {
        IRValueScope::Local(slot) => {
            let d = g1.reg();
            (
                g1.alloc_reg().emit(InstrView::LoadLocal { dest: d, src: OperandView::Slot(slot) }),
                OperandView::Reg(d),
            )
        },
        IRValueScope::Global => {
            let n = sg_imm(g1, OperandView::ImmStr(name));
            let d = n.0.reg();
            (n.0.alloc_reg().emit(InstrView::LoadGlobal { dest: d, name: n.1 }), OperandView::Reg(d))
        },
        IRValueScope::UpVal(uv) => {
            let d = g1.reg();
            (
                g1.alloc_reg().emit(
                    InstrView::LoadUpVal { dest: d, src: OperandView::UpVal(uv.slot) },
                ),
                OperandView::Reg(d),
            )
        },
    }
}

/// A value is stored under a name: in the slot of a local, or in a
/// global by its name, which is loaded first. The new register holds the
/// stored value. An upvalue cannot be stored to: the error
/// `UndefinedVariable` is recorded and the value itself is the result.
pub open spec fn sg_store(g: GenView, name: Seq<char>, src: OperandView) -> (GenView, OperandView) {
    let g1 = g.resolve(name);
    match g.scope(name) {
        IRValueScope::Local(slot) => {
            let d = g1.reg();
            (
                g1.alloc_reg().emit(
                    InstrView::StoreLocal { dest: d, dst: OperandView::Slot(slot), src },
                ),
                OperandView::Reg(d),
            )
        },
        IRValueScope::Global => {
            let n = sg_imm(g1, OperandView::ImmStr(name));
            let d = n.0.reg();
            (
                n.0.alloc_reg().emit(InstrView::StoreGlobal { dest: d, name: n.1, src }),
                OperandView::Reg(d),
            )
        },
        IRValueScope::UpVal(_) => (g1.err(ErrorView::UndefinedVariable(name)), src),
    }
}

/// How many more nested lowering steps a statement has of its own: an
/// `if` has one for each of its branches.
pub open spec fn spec_rank(s: Statement) -> nat {
    match s {
        Statement::IfStmt { elif_branches, .. } => elif_branches@.len() + 3,
        _ => 3,
    }
}

/// The module, the contexts and the result after an expression is
/// lowered.
pub open spec fn sg_expr(g: GenView, e: Expression) -> (GenView, OperandView)
    decreases e, 1nat,
{
    match e {
        Expression::Identifier(name) => sg_load(g, name@),
        Expression::Literal(lit) => match lit {
            Literal::Number(n) => sg_imm(g, OperandView::ImmFloat(n)),
            Literal::String(s) => sg_imm(g, OperandView::ImmStr(s@)),
            Literal::Boolean(b) => sg_imm(g, OperandView::ImmBool(b)),
            Literal::Nil => sg_imm(g, OperandView::Nil),
            Literal::Function { params, body, name } => {
                let f = sg_fn(g, name, params, body@);
                let d = f.0.reg();
                (
                    f.0.alloc_reg().emit(
                        InstrView::FnProto { dest: d, func_proto: OperandView::Proto(f.1) },
                    ),
                    OperandView::Reg(d),
                )
            },
        },
        Expression::BinOp { left, operator, right } => if operator == BinOp::Assign {
            sg_assign(g, e)
        } else {
            let l = sg_expr(g, *left);
            let r = sg_expr(l.0, *right);
            let d = r.0.reg();
            (
                r.0.alloc_reg().emit(
                    InstrView::Binary {
                        dest: d,
                        src1: l.1,
                        src2: r.1,
                        operator: spec_ir_binop(operator),
                    },
                ),
                OperandView::Reg(d),
            )
        },
        Expression::UnOp { operator, operand } => {
            let o = sg_expr(g, *operand);
            match operator {
                UnOp::Pos => (o.0.err(ErrorView::Unsupported("unary plus"@)), o.1),
                UnOp::Neg => {
                    let d = o.0.reg();
                    (
                        o.0.alloc_reg().emit(
                            InstrView::Unary { dest: d, operator: IRUnOp::Neg, src: o.1 },
                        ),
                        OperandView::Reg(d),
                    )
                },
                UnOp::Not => {
                    let d = o.0.reg();
                    (
                        o.0.alloc_reg().emit(
                            InstrView::Unary { dest: d, operator: IRUnOp::Not, src: o.1 },
                        ),
                        OperandView::Reg(d),
                    )
                },
            }
        },
        Expression::FnCall { callee, arguments } => {
            let c = sg_expr(g, *callee);
            let a = sg_exprs(c.0, arguments@, arguments@.len() as int);
            let d = a.0.reg();
            (
                a.0.alloc_reg().emit(InstrView::Call { dest: d, callee: c.1, args: a.1 }),
                OperandView::Reg(d),
            )
        },
        Expression::IndexOf { collection, index } => {
            let c = sg_expr(g, *collection);
            let i = sg_expr(c.0, *index);
            let d = i.0.reg();
            (
                i.0.alloc_reg().emit(
                    match *index {
                        Expression::Literal(Literal::String(_)) => InstrView::MemberOf {
                            dest: d,
                            collection: c.1,
                            member: i.1,
                        },
                        Expression::Literal(Literal::Number(_)) => InstrView::IndexOf {
                            dest: d,
                            collection: c.1,
                            index: i.1,
                        },
                        _ => InstrView::GetTable { dest: d, table: c.1, key: i.1 },
                    },
                ),
                OperandView::Reg(d),
            )
        },
        Expression::MemberAccess { collection, member } => {
            let c = sg_expr(g, *collection);
            let m = sg_imm(c.0, OperandView::ImmStr(member@));
            let d = m.0.reg();
            (
                m.0.alloc_reg().emit(
                    InstrView::MemberOf { dest: d, collection: c.1, member: m.1 },
                ),
                OperandView::Reg(d),
            )
        },
        Expression::TableCtor { fields } => sg_table(g, e),
    }
}

/// The first `n` expressions are lowered in order.
pub open spec fn sg_exprs(g: GenView, es: Seq<Expression>, n: int) -> (GenView, Seq<OperandView>)
    decreases es, n,
{
    if n <= 0 || n > es.len() {
        (g, Seq::empty())
    } else {
        let before = sg_exprs(g, es, n - 1);
        let here = sg_expr(before.0, es[n - 1]);
        (here.0, before.1.push(here.1))
    }
}

/// An assignment is lowered: the value first, then the store to a name,
/// a member or an index. Any other target is the error `InvalidLValue`.
pub open spec fn sg_assign(g: GenView, e: Expression) -> (GenView, OperandView)
    decreases e, 0nat,
{
    match e {
        Expression::BinOp { left, right, .. } => {
            let src = sg_expr(g, *right);
            match *left {
                Expression::Identifier(name) => sg_store(src.0, name@, src.1),
                Expression::MemberAccess { collection, member } => {
                    let c = sg_expr(src.0, *collection);
                    let k = sg_imm(c.0, OperandView::ImmStr(member@));
                    let d = k.0.reg();
                    (
                        k.0.alloc_reg().emit(
                            InstrView::SetMember {
                                dest: d,
                                collection: c.1,
                                member: k.1,
                                value: src.1,
                            },
                        ),
                        OperandView::Reg(d),
                    )
                },
                Expression::IndexOf { collection, index } => {
                    let c = sg_expr(src.0, *collection);
                    match *index {
                        Expression::Literal(Literal::String(s)) => {
                            let k = sg_imm(c.0, OperandView::ImmStr(s@));
                            let d = k.0.reg();
                            (
                                k.0.alloc_reg().emit(
                                    InstrView::SetMember {
                                        dest: d,
                                        collection: c.1,
                                        member: k.1,
                                        value: src.1,
                                    },
                                ),
                                OperandView::Reg(d),
                            )
                        },
                        Expression::Literal(Literal::Number(n)) => {
                            let k = sg_imm(c.0, OperandView::ImmFloat(n));
                            let d = k.0.reg();
                            (
                                k.0.alloc_reg().emit(
                                    InstrView::SetIndex {
                                        dest: d,
                                        collection: c.1,
                                        index: k.1,
                                        value: src.1,
                                    },
                                ),
                                OperandView::Reg(d),
                            )
                        },
                        _ => {
                            let k = sg_expr(c.0, *index);
                            let d = k.0.reg();
                            (
                                k.0.alloc_reg().emit(
                                    InstrView::SetTable {
                                        dest: d,
                                        table: c.1,
                                        key: k.1,
                                        value: src.1,
                                    },
                                ),
                                OperandView::Reg(d),
                            )
                        },
                    }
                },
                _ => (src.0.err(ErrorView::InvalidLValue), src.1),
            }
        },
        _ => (g, OperandView::Nil),
    }
}

/// The number of the first `n` fields that have a key.
pub open spec fn spec_keyed(fields: Seq<(Option<Expression>, Expression)>, n: int) -> nat
    decreases n,
{
    if n <= 0 || n > fields.len() {
        0
    } else {
        spec_keyed(fields, n - 1) + (if fields[n - 1].0 is Some {
            1nat
        } else {
            0nat
        })
    }
}

/// A table constructor is lowered: the numbers of positional and of keyed
/// fields are loaded, the table is made, and the fields are stored in order.
pub open spec fn sg_table(g: GenView, e: Expression) -> (GenView, OperandView)
    decreases e, 0nat,
{
    match e {
        Expression::TableCtor { fields } => {
            let keyed = spec_keyed(fields@, fields@.len() as int);
            let a = sg_imm(
                g,
                OperandView::ImmFloat(spec_from_count((fields@.len() - keyed) as nat)),
            );
            let h = sg_imm(a.0, OperandView::ImmFloat(spec_from_count(keyed)));
            let t = h.0.reg();
            let made = h.0.alloc_reg().emit(
                InstrView::NewTable { dest: t, size_array: a.1, size_hash: h.1 },
            );
            (
                sg_fields(made, fields@, fields@.len() as int, OperandView::Reg(t)),
                OperandView::Reg(t),
            )
        },
        _ => (g, OperandView::Nil),
    }
}

/// The first `n` fields of a table constructor are stored: a keyed field
/// under its key, as a member, an index or a general key by the kind of the
/// key; a positional field under its position among all fields, counted
/// from 1.
pub open spec fn sg_fields(
    g: GenView,
    fields: Seq<(Option<Expression>, Expression)>,
    n: int,
    tbl: OperandView,
) -> GenView
    decreases fields, n,
{
    if n <= 0 || n > fields.len() {
        g
    } else {
        let before = sg_fields(g, fields, n - 1, tbl);
        match fields[n - 1].0 {
            Some(k) => {
                let key = sg_expr(before, k);
                let value = sg_expr(key.0, fields[n - 1].1);
                let d = value.0.reg();
                value.0.alloc_reg().emit(
                    match k {
                        Expression::Literal(Literal::String(_)) => InstrView::SetMember {
                            dest: d,
                            collection: tbl,
                            member: key.1,
                            value: value.1,
                        },
                        Expression::Literal(Literal::Number(_)) => InstrView::SetIndex {
                            dest: d,
                            collection: tbl,
                            index: key.1,
                            value: value.1,
                        },
                        _ => InstrView::SetTable {
                            dest: d,
                            table: tbl,
                            key: key.1,
                            value: value.1,
                        },
                    },
                )
            },
            None => {
                let key = sg_imm(before, OperandView::ImmFloat(spec_from_count(n as nat)));
                let value = sg_expr(key.0, fields[n - 1].1);
                let d = value.0.reg();
                value.0.alloc_reg().emit(
                    InstrView::SetIndex {
                        dest: d,
                        collection: tbl,
                        index: key.1,
                        value: value.1,
                    },
                )
            },
        }
    }
}

/// The name of the prototype of a function literal: mangled for a named
/// function, made up for one without a name.
pub open spec fn spec_proto_name(next_func_id: usize, name: Option<String>) -> Seq<char> {
    match name {
        Some(n) => spec_mangled(n@, next_func_id),
        None => spec_anonymous(next_func_id),
    }
}

/// The first `n` parameters are declared as locals.
pub open spec fn sg_params(g: GenView, params: Seq<String>, n: int) -> GenView
    decreases n,
{
    if n <= 0 || n > params.len() {
        g
    } else {
        sg_params(g, params, n - 1).decl_local(params[n - 1]@)
    }
}

/// A function literal is lowered to a prototype of its own: a new context
/// with the parameters as its first locals and one block for the body, which
/// returns `Unit` if it is still open at the end. The result is the
/// prototype's name.
pub open spec fn sg_fn(
    g: GenView,
    name: Option<String>,
    params: Vec<String>,
    body: Seq<Statement>,
) -> (GenView, Seq<char>)
    decreases body, body.len() + 1,
{
    let func_name = spec_proto_name(g.next_func_id, name);
    let opened = g.take_func_id().open_function(func_name, spec_name_views(params@));
    let declared = sg_params(opened, params@, params@.len() as int);
    let done = sg_stmts(declared.open_bb(), body, body.len() as int);
    (
        done.close_bb(TermView::Return(seq![OperandView::Unit])).close_function(),
        func_name,
    )
}

/// The first `n` statements are lowered in order.
pub open spec fn sg_stmts(g: GenView, stmts: Seq<Statement>, n: int) -> GenView
    decreases stmts, n,
{
    if n <= 0 || n > stmts.len() {
        g
    } else {
        sg_stmt(sg_stmts(g, stmts, n - 1), stmts[n - 1])
    }
}

/// Whether the expression is the literal of a function with a name.
pub open spec fn spec_named_function(e: Expression) -> bool {
    match e {
        Expression::Literal(Literal::Function { name, .. }) => name is Some,
        _ => false,
    }
}

/// The slot of a local for a declaration: the slot that the name has, or
/// a new one.
pub open spec fn sg_local(g: GenView, name: Seq<char>) -> (GenView, usize) {
    match g.find_local(name) {
        Some(s) => (g, s),
        None => (g.decl_local(name), g.new_slot()),
    }
}

/// The first `n` pairs of a declaration are lowered: the value, then the
/// store to the local's slot, which is new unless the name is a local
/// already; the stored value is dropped. The local of a function with a name
/// is declared before its value is lowered, so that the function can refer
/// to itself.
pub open spec fn sg_decls(g: GenView, names: Seq<String>, values: Seq<Expression>, n: int) -> GenView
    decreases values, n,
{
    if n <= 0 || n > names.len() || n > values.len() {
        g
    } else {
        let before = sg_decls(g, names, values, n - 1);
        let name = names[n - 1]@;
        let early = spec_named_function(values[n - 1]);
        let first = if early {
            sg_local(before, name)
        } else {
            (before, 0usize)
        };
        let src = sg_expr(first.0, values[n - 1]);
        let second = if early {
            (src.0, first.1)
        } else {
            sg_local(src.0, name)
        };
        let d = second.0.reg();
        second.0.alloc_reg().emit(
            InstrView::StoreLocal { dest: d, dst: OperandView::Slot(second.1), src: src.1 },
        ).emit(InstrView::Drop { src: OperandView::Reg(d) })
    }
}

/// A statement is lowered.
pub open spec fn sg_stmt(g: GenView, s: Statement) -> GenView
    decreases s, spec_rank(s),
{
    match s {
        Statement::ExprStatement(e) => {
            let r = sg_expr(g, *e);
            r.0.emit(InstrView::Drop { src: r.1 })
        },
        Statement::Declaration { names, values } => sg_decls(
            g,
            names@,
            values@,
            if names@.len() < values@.len() {
                names@.len() as int
            } else {
                values@.len() as int
            },
        ),
        Statement::IfStmt { .. } => sg_if(g, s, 0),
        Statement::WhileStmt { condition, body } => {
            let cond_id = g.bb_id();
            let g1 = g.alloc_bb_id();
            let body_id = g1.bb_id();
            let g2 = g1.alloc_bb_id();
            let merge_id = g2.bb_id();
            let g3 = g2.alloc_bb_id().close_bb(TermView::FallThrough).open_bb_lazy(cond_id);
            let c = sg_expr(g3, *condition);
            let g4 = c.0.close_bb(
                TermView::Branch { cond: c.1, br_true: body_id, br_false: merge_id },
            ).open_bb_lazy(body_id);
            sg_stmts(g4, body@, body@.len() as int).close_bb(TermView::Jump(cond_id)).open_bb_lazy(
                merge_id,
            )
        },
        Statement::RepeatStmt { body, condition } => {
            let body_id = g.bb_id();
            let g1 = g.alloc_bb_id();
            let cond_id = g1.bb_id();
            let g2 = g1.alloc_bb_id();
            let merge_id = g2.bb_id();
            let g3 = g2.alloc_bb_id().close_bb(TermView::FallThrough).open_bb_lazy(body_id);
            let g4 = sg_stmts(g3, body@, body@.len() as int).close_bb(
                TermView::FallThrough,
            ).open_bb_lazy(cond_id);
            let c = sg_expr(g4, *condition);
            c.0.close_bb(
                TermView::Branch { cond: c.1, br_true: merge_id, br_false: body_id },
            ).open_bb_lazy(merge_id)
        },
        Statement::ReturnStmt { values } => {
            let ops = sg_exprs(g, values@, values@.len() as int);
            let checked = if ops.0.has_active_bb() {
                ops.0
            } else {
                ops.0.err(ErrorView::MultipleReturnStatements)
            };
            checked.close_bb(TermView::Return(ops.1))
        },
    }
}

/// The branch of an `if` statement with the number `k` is lowered, and
/// those after it: the condition, then a block for the statements of the
/// branch, a block for what follows, which is the next branch or the `else`
/// part, and a block where both meet.
pub open spec fn sg_if(g: GenView, s: Statement, k: int) -> GenView
    decreases s, (spec_rank(s) - 1 - k) as nat,
{
    match s {
        Statement::IfStmt { condition, then_branch, elif_branches, else_branch } => {
            if k < 0 || k > elif_branches@.len() {
                g
            } else {
                let c = if k == 0 {
                    sg_expr(g, *condition)
                } else {
                    sg_expr(g, elif_branches@[k - 1].0)
                };
                let then_id = c.0.bb_id();
                let g1 = c.0.alloc_bb_id();
                let else_id = g1.bb_id();
                let g2 = g1.alloc_bb_id();
                let merge_id = g2.bb_id();
                let g3 = g2.alloc_bb_id().close_bb(
                    TermView::Branch { cond: c.1, br_true: then_id, br_false: else_id },
                ).open_bb_lazy(then_id);
                let g4 = if k == 0 {
                    sg_stmts(g3, then_branch@, then_branch@.len() as int)
                } else {
                    sg_stmts(g3, elif_branches@[k - 1].1@, elif_branches@[k - 1].1@.len() as int)
                };
                let g5 = g4.close_bb(TermView::Jump(merge_id)).open_bb_lazy(else_id);
                let g6 = if k < elif_branches@.len() {
                    sg_if(g5, s, k + 1)
                } else {
                    match else_branch {
                        Some(stmts) => sg_stmts(g5, stmts@, stmts@.len() as int),
                        None => g5,
                    }
                };
                g6.close_bb(TermView::Jump(merge_id)).open_bb_lazy(merge_id)
            }
        },
        _ => g,
    }
}

/// A program is lowered: its statements are the body of `_start`, which
/// returns `Unit` if its last block is still open at the end.
pub open spec fn sg_module(g: GenView, program: Program) -> GenView {
    sg_stmts(
        g.open_function("_start"@, Seq::empty()).open_bb(),
        program.body@,
        program.body@.len() as int,
    ).close_bb(TermView::Return(seq![OperandView::Unit])).close_function()
}

impl IRGenerator {
    fn imm(&mut self, value: IROperand) -> (r: IROperand)
        ensures
            (final(self)@, r@) == sg_imm(old(self)@, value@),
    {
        let d = self.alloc_reg();
        self.emit(IRInstruction::LoadImm { dest: d, value });
        IROperand::Reg(d)
    }

    fn load(&mut self, name: &String) -> (r: IROperand)
        ensures
            (final(self)@, r@) == sg_load(old(self)@, name@),
    {
        match self.var_scope(name) {
            IRValueScope::Local(slot) => {
                let d = self.alloc_reg();
                self.emit(IRInstruction::LoadLocal { dest: d, src: IROperand::Slot(slot) });
                IROperand::Reg(d)
            },
            IRValueScope::Global => {
                let n = self.imm(IROperand::ImmStr(name.clone()));
                let d = self.alloc_reg();
                self.emit(IRInstruction::LoadGlobal { dest: d, name: n });
                IROperand::Reg(d)
            },
            IRValueScope::UpVal(uv) => {
                let d = self.alloc_reg();
                self.emit(IRInstruction::LoadUpVal { dest: d, src: IROperand::UpVal(uv.slot) });
                IROperand::Reg(d)
            },
        }
    }

    fn store(&mut self, name: &String, src: IROperand) -> (r: IROperand)
        ensures
            (final(self)@, r@) == sg_store(old(self)@, name@, src@),
    {
        match self.var_scope(name) {
            IRValueScope::Local(slot) => {
                let d = self.alloc_reg();
                self.emit(IRInstruction::StoreLocal { dest: d, dst: IROperand::Slot(slot), src });
                IROperand::Reg(d)
            },
            IRValueScope::Global => {
                let n = self.imm(IROperand::ImmStr(name.clone()));
                let d = self.alloc_reg();
                self.emit(IRInstruction::StoreGlobal { dest: d, name: n, src });
                IROperand::Reg(d)
            },
            IRValueScope::UpVal(_) => {
                self.emit_err(IRGeneratorError::UndefinedVariable(name.clone()));
                src
            },
        }
    }

    fn ir_binop(op: BinOp) -> (r: IRBinOp)
        ensures
            r == spec_ir_binop(op),
    {
        match op {
            BinOp::Add => IRBinOp::Add,
            BinOp::Sub => IRBinOp::Sub,
            BinOp::Mul => IRBinOp::Mul,
            BinOp::Div => IRBinOp::Div,
            BinOp::Pow => IRBinOp::Pow,
            BinOp::Concat => IRBinOp::Concat,
            BinOp::Eq => IRBinOp::Eq,
            BinOp::Neq => IRBinOp::Neq,
            BinOp::Lt => IRBinOp::Lt,
            BinOp::Gt => IRBinOp::Gt,
            BinOp::Leq => IRBinOp::Leq,
            BinOp::Geq => IRBinOp::Geq,
            BinOp::And => IRBinOp::And,
            BinOp::Or => IRBinOp::Or,
            BinOp::Assign => IRBinOp::Eq,
        }
    }

    /// Lowers a literal that is no function: it is loaded into a new
    /// register.
    pub fn generate_simple_literal(&mut self, lit: &Literal) -> (r: IROperand)
        requires
            !(*lit is Function),
        ensures
            (final(self)@, r@) == sg_imm(
                old(self)@,
                match *lit {
                    Literal::Number(n) => OperandView::ImmFloat(n),
                    Literal::String(s) => OperandView::ImmStr(s@),
                    Literal::Boolean(b) => OperandView::ImmBool(b),
                    _ => OperandView::Nil,
                },
            ),
    {
        let imm_val = match lit {
            Literal::Number(n) => IROperand::ImmFloat(*n),
            Literal::String(s) => IROperand::ImmStr(s.clone()),
            Literal::Boolean(b) => IROperand::ImmBool(*b),
            _ => IROperand::Nil,
        };
        self.imm(imm_val)
    }

    /// Lowers an expression; see [`sg_expr`].
    pub fn generate_expr(&mut self, expr: &Expression) -> (r: IROperand)
        ensures
            (final(self)@, r@) == sg_expr(old(self)@, *expr),
        decreases *expr, 1nat,
    {
        match expr {
            Expression::Identifier(name) => self.load(name),
            Expression::Literal(lit) => match lit {
                Literal::Function { params, body, name } => {
                    let func_operand = self.generate_fn_decl_impl(true, name, params, body);
                    let d = self.alloc_reg();
                    self.emit(IRInstruction::FnProto { dest: d, func_proto: func_operand });
                    IROperand::Reg(d)
                },
                _ => self.generate_simple_literal(lit),
            },
            Expression::BinOp { left, operator, right } => {
                if *operator == BinOp::Assign {
                    return self.generate_assignment(expr);
                }
                let l = self.generate_expr(left);
                let r = self.generate_expr(right);
                let d = self.alloc_reg();
                self.emit(
                    IRInstruction::Binary {
                        dest: d,
                        src1: l,
                        src2: r,
                        operator: Self::ir_binop(*operator),
                    },
                );
                IROperand::Reg(d)
            },
            Expression::UnOp { operator, operand } => {
                let o = self.generate_expr(operand);
                match operator {
                    UnOp::Pos => {
                        self.emit_err(
                            IRGeneratorError::Unsupported(String::from_str("unary plus")),
                        );
                        o
                    },
                    UnOp::Neg => {
                        let d = self.alloc_reg();
                        self.emit(IRInstruction::Unary { dest: d, operator: IRUnOp::Neg, src: o });
                        IROperand::Reg(d)
                    },
                    UnOp::Not => {
                        let d = self.alloc_reg();
                        self.emit(IRInstruction::Unary { dest: d, operator: IRUnOp::Not, src: o });
                        IROperand::Reg(d)
                    },
                }
            },
            Expression::FnCall { callee, arguments } => {
                let c = self.generate_expr(callee);
                let args = self.generate_exprs(arguments);
                let d = self.alloc_reg();
                self.emit(IRInstruction::Call { dest: d, callee: c, args });
                IROperand::Reg(d)
            },
            Expression::IndexOf { collection, index } => {
                let c = self.generate_expr(collection);
                let i = self.generate_expr(index);
                let d = self.alloc_reg();
                match &**index {
                    Expression::Literal(Literal::String(_)) => {
                        self.emit(IRInstruction::MemberOf { dest: d, collection: c, member: i });
                    },
                    Expression::Literal(Literal::Number(_)) => {
                        self.emit(IRInstruction::IndexOf { dest: d, collection: c, index: i });
                    },
                    _ => {
                        self.emit(IRInstruction::GetTable { dest: d, table: c, key: i });
                    },
                }
                IROperand::Reg(d)
            },
            Expression::MemberAccess { collection, member } => {
                let c = self.generate_expr(collection);
                let m = self.imm(IROperand::ImmStr(member.clone()));
                let d = self.alloc_reg();
                self.emit(IRInstruction::MemberOf { dest: d, collection: c, member: m });
                IROperand::Reg(d)
            },
            Expression::TableCtor { .. } => self.generate_table_ctor_expr(expr),
        }
    }

    /// Lowers the expressions in order; see [`sg_exprs`].
    pub fn generate_exprs(&mut self, es: &Vec<Expression>) -> (r: Vec<IROperand>)
        ensures
            (final(self)@, spec_operand_views(r@)) == sg_exprs(old(self)@, es@, es@.len() as int),
        decreases es@, es@.len(),
    {
        let mut regs: Vec<IROperand> = Vec::new();
        let mut i: usize = 0;
        proof {
            assert(spec_operand_views(regs@) =~= Seq::<OperandView>::empty());
        }
        while i < es.len()
            invariant
                i <= es.len(),
                (self@, spec_operand_views(regs@)) == sg_exprs(old(self)@, es@, i as int),
            decreases es.len() - i,
        {
            let ghost before = regs@;
            let r = self.generate_expr(&es[i]);
            let ghost shown = r@;
            regs.push(r);
            proof {
                assert(spec_operand_views(regs@) =~= spec_operand_views(before).push(shown));
            }
            i += 1;
        }
        regs
    }

    /// Lowers an assignment; see [`sg_assign`].
    pub fn generate_assignment(&mut self, expr: &Expression) -> (r: IROperand)
        requires
            *expr is BinOp,
        ensures
            (final(self)@, r@) == sg_assign(old(self)@, *expr),
        decreases *expr, 0nat,
    {
        match expr {
            Expression::BinOp { left, right, .. } => {
                let src = self.generate_expr(right);
                match &**left {
                    Expression::Identifier(name) => self.store(name, src),
                    Expression::MemberAccess { collection, member } => {
                        let c = self.generate_expr(collection);
                        let k = self.imm(IROperand::ImmStr(member.clone()));
                        let d = self.alloc_reg();
                        self.emit(
                            IRInstruction::SetMember {
                                dest: d,
                                collection: c,
                                member: k,
                                value: src,
                            },
                        );
                        IROperand::Reg(d)
                    },
                    Expression::IndexOf { collection, index } => {
                        let c = self.generate_expr(collection);
                        match &**index {
                            Expression::Literal(Literal::String(s)) => {
                                let k = self.imm(IROperand::ImmStr(s.clone()));
                                let d = self.alloc_reg();
                                self.emit(
                                    IRInstruction::SetMember {
                                        dest: d,
                                        collection: c,
                                        member: k,
                                        value: src,
                                    },
                                );
                                IROperand::Reg(d)
                            },
                            Expression::Literal(Literal::Number(n)) => {
                                let k = self.imm(IROperand::ImmFloat(*n));
                                let d = self.alloc_reg();
                                self.emit(
                                    IRInstruction::SetIndex {
                                        dest: d,
                                        collection: c,
                                        index: k,
                                        value: src,
                                    },
                                );
                                IROperand::Reg(d)
                            },
                            _ => {
                                let k = self.generate_expr(index);
                                let d = self.alloc_reg();
                                self.emit(
                                    IRInstruction::SetTable {
                                        dest: d,
                                        table: c,
                                        key: k,
                                        value: src,
                                    },
                                );
                                IROperand::Reg(d)
                            },
                        }
                    },
                    _ => {
                        self.emit_err(IRGeneratorError::InvalidLValue);
                        src
                    },
                }
            },
            _ => IROperand::Nil,
        }
    }

    fn count_keyed(fields: &Vec<(Option<Expression>, Expression)>) -> (r: usize)
        ensures
            r == spec_keyed(fields@, fields@.len() as int),
            r <= fields@.len(),
    {
        let mut n: usize = 0;
        let mut i: usize = 0;
        while i < fields.len()
            invariant
                i <= fields.len(),
                n <= i,
                n == spec_keyed(fields@, i as int),
            decreases fields.len() - i,
        {
            if fields[i].0.is_some() {
                n += 1;
            }
            i += 1;
        }
        n
    }

    /// Lowers a table constructor; see [`sg_table`].
    pub fn generate_table_ctor_expr(&mut self, expr: &Expression) -> (r: IROperand)
        requires
            *expr is TableCtor,
        ensures
            (final(self)@, r@) == sg_table(old(self)@, *expr),
        decreases *expr, 0nat,
    {
        match expr {
            Expression::TableCtor { fields } => {
                let keyed = Self::count_keyed(fields);
                let a = self.imm(IROperand::ImmFloat(from_usize(fields.len() - keyed)));
                let h = self.imm(IROperand::ImmFloat(from_usize(keyed)));
                let t = self.alloc_reg();
                self.emit(IRInstruction::NewTable { dest: t, size_array: a, size_hash: h });
                let ghost made = self@;
                let ghost tbl = OperandView::Reg(t);
                let mut i: usize = 0;
                while i < fields.len()
                    invariant
                        i <= fields.len(),
                        decreases_to!(*expr => fields@),
                        tbl == OperandView::Reg(t),
                        self@ == sg_fields(made, fields@, i as int, tbl),
                    decreases fields.len() - i,
                {
                    match &fields[i].0 {
                        Some(k) => {
                            let key = self.generate_expr(k);
                            let value = self.generate_expr(&fields[i].1);
                            let d = self.alloc_reg();
                            match k {
                                Expression::Literal(Literal::String(_)) => {
                                    self.emit(
                                        IRInstruction::SetMember {
                                            dest: d,
                                            collection: IROperand::Reg(t),
                                            member: key,
                                            value,
                                        },
                                    );
                                },
                                Expression::Literal(Literal::Number(_)) => {
                                    self.emit(
                                        IRInstruction::SetIndex {
                                            dest: d,
                                            collection: IROperand::Reg(t),
                                            index: key,
                                            value,
                                        },
                                    );
                                },
                                _ => {
                                    self.emit(
                                        IRInstruction::SetTable {
                                            dest: d,
                                            table: IROperand::Reg(t),
                                            key,
                                            value,
                                        },
                                    );
                                },
                            }
                        },
                        None => {
                            let key = self.imm(IROperand::ImmFloat(from_usize(i + 1)));
                            let value = self.generate_expr(&fields[i].1);
                            let d = self.alloc_reg();
                            self.emit(
                                IRInstruction::SetIndex {
                                    dest: d,
                                    collection: IROperand::Reg(t),
                                    index: key,
                                    value,
                                },
                            );
                        },
                    }
                    i += 1;
                }
                IROperand::Reg(t)
            },
            _ => IROperand::Nil,
        }
    }

    /// Lowers a function literal to a prototype of its own; see [`sg_fn`].
    pub fn generate_fn_decl_impl(
        &mut self,
        is_local: bool,
        name: &Option<String>,
        params: &Vec<String>,
        body: &Vec<Statement>,
    ) -> (r: IROperand)
        requires
            is_local,
        ensures
            final(self)@ == sg_fn(old(self)@, *name, *params, body@).0,
            r@ == OperandView::Proto(sg_fn(old(self)@, *name, *params, body@).1),
        decreases body@, body@.len() + 1,
    {
        let func_name = match name {
            Some(n) => self.mangle_local_fn_name(n),
            None => self.alloc_anonymous_func_name(),
        };
        self.open_function(func_name.clone(), copy_names(params));
        let ghost opened = self@;
        let mut i: usize = 0;
        while i < params.len()
            invariant
                i <= params.len(),
                self@ == sg_params(opened, params@, i as int),
            decreases params.len() - i,
        {
            self.decl_local(params[i].clone());
            i += 1;
        }
        self.open_bb();
        self.generate_stmts(body);
        let mut ops: Vec<IROperand> = Vec::new();
        ops.push(IROperand::Unit);
        proof {
            assert(spec_operand_views(ops@) =~= seq![OperandView::Unit]);
        }
        self.try_close_bb(IRTerminator::Return(ops));
        self.close_function();
        IROperand::Proto(func_name)
    }

    /// Lowers the statements in order; see [`sg_stmts`].
    pub fn generate_stmts(&mut self, stmts: &Vec<Statement>)
        ensures
            final(self)@ == sg_stmts(old(self)@, stmts@, stmts@.len() as int),
        decreases stmts@, stmts@.len(),
    {
        let mut i: usize = 0;
        while i < stmts.len()
            invariant
                i <= stmts.len(),
                self@ == sg_stmts(old(self)@, stmts@, i as int),
            decreases stmts.len() - i,
        {
            self.generate_stmt(&stmts[i]);
            i += 1;
        }
    }

    /// Lowers the branch of an `if` statement with the number `k`, and
    /// those after it; see [`sg_if`].
    pub fn generate_if_expr(&mut self, stmt: &Statement, k: usize)
        requires
            *stmt is IfStmt,
            k <= stmt->elif_branches@.len(),
        ensures
            final(self)@ == sg_if(old(self)@, *stmt, k as int),
        decreases *stmt, (spec_rank(*stmt) - 1 - k) as nat,
    {
        match stmt {
            Statement::IfStmt { condition, then_branch, elif_branches, else_branch } => {
                let c = if k == 0 {
                    self.generate_expr(condition)
                } else {
                    self.generate_expr(&elif_branches[k - 1].0)
                };
                let then_id = self.alloc_bb_id();
                let else_id = self.alloc_bb_id();
                let merge_id = self.alloc_bb_id();
                self.try_close_bb(
                    IRTerminator::Branch { cond: c, br_true: then_id, br_false: else_id },
                );
                self.open_bb_lazy(then_id);
                if k == 0 {
                    self.generate_stmts(then_branch);
                } else {
                    self.generate_stmts(&elif_branches[k - 1].1);
                }
                self.try_close_bb(IRTerminator::Jump(merge_id));
                self.open_bb_lazy(else_id);
                if k < elif_branches.len() {
                    self.generate_if_expr(stmt, k + 1);
                } else {
                    match else_branch {
                        Some(stmts) => {
                            self.generate_stmts(stmts);
                        },
                        None => {},
                    }
                }
                self.try_close_bb(IRTerminator::Jump(merge_id));
                self.open_bb_lazy(merge_id);
            },
            _ => {},
        }
    }

    /// Lowers a `while` statement: a block for the condition, which the
    /// block before falls through to, a block for the body, which jumps back
    /// to the condition, and a block for what follows.
    pub fn generate_while_expr(&mut self, stmt: &Statement)
        requires
            *stmt is WhileStmt,
        ensures
            final(self)@ == sg_stmt(old(self)@, *stmt),
        decreases *stmt, 2nat,
    {
        match stmt {
            Statement::WhileStmt { condition, body } => {
                let cond_id = self.alloc_bb_id();
                let body_id = self.alloc_bb_id();
                let merge_id = self.alloc_bb_id();
                self.try_close_bb(IRTerminator::FallThrough);
                self.open_bb_lazy(cond_id);
                let c = self.generate_expr(condition);
                self.close_bb(
                    IRTerminator::Branch { cond: c, br_true: body_id, br_false: merge_id },
                );
                self.open_bb_lazy(body_id);
                self.generate_stmts(body);
                self.try_close_bb(IRTerminator::Jump(cond_id));
                self.open_bb_lazy(merge_id);
            },
            _ => {},
        }
    }

    /// Lowers a `repeat` statement: a block for the body, which the block
    /// before falls through to, a block for the condition, which branches
    /// back to the body while it does not hold, and a block for what follows.
    pub fn generate_repeat_expr(&mut self, stmt: &Statement)
        requires
            *stmt is RepeatStmt,
        ensures
            final(self)@ == sg_stmt(old(self)@, *stmt),
        decreases *stmt, 2nat,
    {
        match stmt {
            Statement::RepeatStmt { body, condition } => {
                let body_id = self.alloc_bb_id();
                let cond_id = self.alloc_bb_id();
                let merge_id = self.alloc_bb_id();
                self.try_close_bb(IRTerminator::FallThrough);
                self.open_bb_lazy(body_id);
                self.generate_stmts(body);
                self.try_close_bb(IRTerminator::FallThrough);
                self.open_bb_lazy(cond_id);
                let c = self.generate_expr(condition);
                self.try_close_bb(
                    IRTerminator::Branch { cond: c, br_true: merge_id, br_false: body_id },
                );
                self.open_bb_lazy(merge_id);
            },
            _ => {},
        }
    }

    /// Lowers a `return`: its values, then the end of the open block. A
    /// `return` where no block is open is the error
    /// `MultipleReturnStatements`.
    pub fn generate_return_stmt(&mut self, values: &Vec<Expression>)
        ensures
            final(self)@ == ({
                let ops = sg_exprs(old(self)@, values@, values@.len() as int);
                let checked = if ops.0.has_active_bb() {
                    ops.0
                } else {
                    ops.0.err(ErrorView::MultipleReturnStatements)
                };
                checked.close_bb(TermView::Return(ops.1))
            }),
        decreases values@, values@.len() + 1,
    {
        let ops = self.generate_exprs(values);
        if !self.has_active_bb() {
            self.emit_err(IRGeneratorError::MultipleReturnStatements);
        }
        self.close_bb(IRTerminator::Return(ops));
    }

    fn local_slot(&mut self, name: &String) -> (r: usize)
        ensures
            (final(self)@, r) == sg_local(old(self)@, name@),
    {
        match self.find_local(name) {
            Some(slot) => slot,
            None => self.decl_local(name.clone()),
        }
    }

    fn generate_decls(&mut self, names: &Vec<String>, values: &Vec<Expression>)
        ensures
            final(self)@ == sg_decls(
                old(self)@,
                names@,
                values@,
                if names@.len() < values@.len() {
                    names@.len() as int
                } else {
                    values@.len() as int
                },
            ),
        decreases values@, values@.len() + 1,
    {
        let count = if names.len() < values.len() {
            names.len()
        } else {
            values.len()
        };
        let mut i: usize = 0;
        while i < count
            invariant
                i <= count,
                count <= names.len(),
                count <= values.len(),
                self@ == sg_decls(old(self)@, names@, values@, i as int),
            decreases count - i,
        {
            let early = match &values[i] {
                Expression::Literal(Literal::Function { name, .. }) => name.is_some(),
                _ => false,
            };
            let mut slot: usize = 0;
            if early {
                slot = self.local_slot(&names[i]);
            }
            let src = self.generate_expr(&values[i]);
            if !early {
                slot = self.local_slot(&names[i]);
            }
            let d = self.alloc_reg();
            self.emit(IRInstruction::StoreLocal { dest: d, dst: IROperand::Slot(slot), src });
            self.emit(IRInstruction::Drop { src: IROperand::Reg(d) });
            i += 1;
        }
    }

    /// Lowers a statement; see [`sg_stmt`].
    pub fn generate_stmt(&mut self, stmt: &Statement)
        ensures
            final(self)@ == sg_stmt(old(self)@, *stmt),
        decreases *stmt, spec_rank(*stmt),
    {
        match stmt {
            Statement::ExprStatement(expr) => {
                let reg = self.generate_expr(expr);
                self.emit(IRInstruction::Drop { src: reg });
            },
            Statement::Declaration { names, values } => {
                self.generate_decls(names, values);
            },
            Statement::IfStmt { .. } => {
                self.generate_if_expr(stmt, 0);
            },
            Statement::WhileStmt { .. } => {
                self.generate_while_expr(stmt);
            },
            Statement::RepeatStmt { .. } => {
                self.generate_repeat_expr(stmt);
            },
            Statement::ReturnStmt { values } => {
                self.generate_return_stmt(values);
            },
        }
    }

    /// Lowers a program; see [`sg_module`].
    pub fn generate_module(&mut self, module: &Program)
        ensures
            final(self)@ == sg_module(old(self)@, *module),
    {
        self.open_function(String::from_str("_start"), Vec::new());
        proof {
            assert(spec_name_views(Seq::<String>::empty()) =~= Seq::<Seq<char>>::empty());
        }
        self.open_bb();
        self.generate_stmts(&module.body);
        let mut ops: Vec<IROperand> = Vec::new();
        ops.push(IROperand::Unit);
        proof {
            assert(spec_operand_views(ops@) =~= seq![OperandView::Unit]);
        }
        self.try_close_bb(IRTerminator::Return(ops));
        self.close_function();
    }

    /// Generates the module of a program; see [`sg_module`].
    pub fn generate(&mut self, program: &Program)
        ensures
            final(self)@ == sg_module(old(self)@, *program),
    {
        self.generate_module(program);
    }
}

} // verus!
