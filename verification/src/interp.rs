//! The stack interpreter. It runs one instruction per `step` and hands out what it cannot
//! do itself: a call of a host function, and the floating-point arithmetic, whose results
//! the embedder feeds back with `resume_host` and `push_value`.
use vstd::prelude::*;
use crate::control::{
    BlockSignature, ControlKind, ControlMap, openers_view, spec_u32_imm, build_control_map, copy_types, map_wf, read_block_signature,
    read_fixed_u32, read_fixed_u64, read_i32_immediate, read_i64_immediate, read_memarg, read_u32_immediate,
};
use crate::frames::{
    ExecControlFrame, ExecutionBudget, FrameView, branch_to, control_entry_height, ensure_control_info, exit_control_frame,
    frames_view, spec_exit,
};
use crate::grammar::imported_functions;
use crate::host::{GlobalHandle, GlobalHandleError, TableHandle, TableHandleError};
use crate::instantiate::{MAX_CALL_DEPTH, RuntimeLimits};
use crate::memory::LinearMemory;
use crate::numeric::{
    binary_integer, compare_i32, compare_i64, convert, sign_extend, sign_op, unary_integer, spec_compare, spec_unary_integer,
    spec_binary_integer, spec_sign_op, spec_convert, spec_sign_extend, is_unary_int, is_sign_op, is_bit_conversion,
    is_sign_extension,
};
use crate::exec::{
    branch_effect, bulk_effect, const_effect, else_end_effect, exec_branch, exec_bulk_memory, exec_data_segment, exec_element_segment, exec_reference, exec_table, data_segment_effect, element_segment_effect, reference_effect, table_effect, exec_const, exec_else_end, exec_global, exec_memory, exec_structured, exec_variable,
    global_effect, grow_effect, memory_effect, structured_effect, variable_effect,
};
use crate::queries::import_type_index;
use crate::runtime_error::RuntimeError;
use crate::types::{DataMode, ElementMode, Export, ExportKind, FuncType, Module, ValueType};
use crate::value::{
    Value, f32_from_stack, f64_from_stack, i32_from_stack, pop_typed, same_types, validate_values, zero,
    spec_pop_typed, first_mismatch, lemma_first_mismatch_at, lemma_validate_ok,
    spec_validate, spec_zero, values_match, expect_type,
};
use crate::types::{lemma_map_values_add, lemma_map_values_push};

verus! {

/// What a step leaves for the embedder to do.
#[derive(Debug)]
pub enum Outcome {
    /// The machine can take its next step.
    Continue,
    /// The invoked function returned these values.
    Finished(Vec<Value>),
    /// Call host function import `import_index` (`module`.`name`) with `args`, then
    /// hand its results to `resume_host`.
    CallHost { import_index: usize, module: String, name: String, args: Vec<Value> },
    /// Compute floating-point instruction `opcode` (with `subopcode` after the 0xfc
    /// prefix) on `operands`, in stack order, then hand the result to `push_value`.
    Float { opcode: u8, subopcode: u32, operands: Vec<Value> },
}

/// What the machine waits for.
#[derive(Debug, Clone)]
pub enum Awaiting {
    Nothing,
    HostResults { import_index: usize, results: Vec<ValueType>, top_level: bool },
    FloatResult,
}

/// One running function: where it is, its locals, operand stack and control frames.
#[derive(Debug)]
pub struct Activation {
    pub defined: usize,
    pub depth: usize,
    pub pc: usize,
    pub locals: Vec<Value>,
    pub local_types: Vec<ValueType>,
    pub stack: Vec<Value>,
    pub controls: Vec<ExecControlFrame>,
    pub result_types: Vec<ValueType>,
}

/// The instruction bytes of defined function `d`.
pub open spec fn code_of(m: Module, d: int) -> Seq<u8> {
    m.code@[d].code@
}

/// What the interpreter relies on in a module: every function names an existing type,
/// every defined function has a body, and function indices fit in `u32`.
pub open spec fn module_ok(m: Module) -> bool {
    let imported = imported_functions(m@.imports);
    &&& forall|k: int| 0 <= k < imported.len() ==> (#[trigger] import_type_index(imported[k]) matches Some(t)
        && t < m.types@.len())
    &&& forall|d: int| 0 <= d < m.function_type_indices@.len() ==> #[trigger] m.function_type_indices@[d]
        < m.types@.len()
    &&& m.code@.len() == m.function_type_indices@.len()
    &&& imported.len() + m.function_type_indices@.len() <= u32::MAX
}

pub open spec fn frame_ok(code: Seq<u8>, f: FrameView) -> bool {
    &&& f.end_pc < code.len()
    &&& f.body_pc <= code.len()
}

/// An activation's position, locals and frames fit the body `code`.
pub open spec fn act_ok(code: Seq<u8>, a: Activation) -> bool {
    &&& a.pc <= code.len()
    &&& a.locals@.len() == a.local_types@.len()
    &&& forall|i: int| 0 <= i < a.controls@.len() ==> #[trigger] frame_ok(code, frames_view(a.controls@)[i])
}

impl Activation {
    pub open spec fn wf(&self, m: Module) -> bool {
        &&& self.defined < m.code@.len()
        &&& self.depth < MAX_CALL_DEPTH
        &&& act_ok(code_of(m, self.defined as int), *self)
    }
}

/// An instance's state and the invocation in progress.
pub struct Machine {
    pub module: Module,
    pub control_maps: Vec<ControlMap>,
    pub memory: Option<LinearMemory>,
    pub table: Option<TableHandle>,
    pub globals: Vec<GlobalHandle>,
    pub identity: u64,
    pub limits: RuntimeLimits,
    pub calls: Vec<Activation>,
    pub budget: ExecutionBudget,
    pub awaiting: Awaiting,
    /// For each element segment, whether it has been dropped: active and declarative
    /// segments are dropped once the instance is set up, passive ones by `elem.drop`.
    pub dropped_elements: Vec<bool>,
    /// For each data segment, whether it has been dropped: active segments are dropped once
    /// the instance is set up, passive ones by `data.drop`.
    pub dropped_data: Vec<bool>,
}

impl Machine {
    pub open spec fn spec_calls(&self) -> Seq<Activation> {
        self.calls@
    }

    pub open spec fn wf(&self) -> bool {
        &&& module_ok(self.module)
        &&& self.control_maps@.len() == self.module.code@.len()
        &&& forall|d: int| 0 <= d < self.control_maps@.len() ==> #[trigger] map_wf(
            code_of(self.module, d),
            self.control_maps@[d].view(),
        )
        &&& self.memory matches Some(m) ==> m.wf()
        &&& self.table matches Some(t) ==> t.wf()
        &&& forall|i: int| 0 <= i < self.globals@.len() ==> (#[trigger] self.globals@[i]).wf()
        &&& forall|i: int| 0 <= i < self.spec_calls().len() ==> (#[trigger] self.spec_calls()[i]).wf(
            self.module,
        )
    }

    /// A machine for `module`, with the control maps of its bodies and its instantiated
    /// memory, table and globals; no function is running.
    pub fn new(
        module: Module,
        control_maps: Vec<ControlMap>,
        memory: Option<LinearMemory>,
        table: Option<TableHandle>,
        globals: Vec<GlobalHandle>,
        identity: u64,
        limits: RuntimeLimits,
    ) -> (m: Machine)
        requires
            module_ok(module),
            control_maps@.len() == module.code@.len(),
            forall|d: int| 0 <= d < control_maps@.len() ==> #[trigger] map_wf(code_of(module, d), control_maps@[d].view()),
            memory matches Some(m) ==> m.wf(),
            table matches Some(t) ==> t.wf(),
            forall|i: int| 0 <= i < globals@.len() ==> (#[trigger] globals@[i]).wf(),
        ensures
            m.wf(),
            m.module == module,
            m.control_maps == control_maps,
            m.memory == memory,
            m.table == table,
            m.globals == globals,
            m.identity == identity,
            m.limits == limits,
            m.spec_calls().len() == 0,
            m.awaiting is Nothing,
            m.dropped_elements@ == Seq::new(module.elements@.len(), |i: int| !(module.elements@[i].mode is Passive)),
            m.dropped_data@ == Seq::new(module.data@.len(), |i: int| !(module.data@[i].mode is Passive)),
    {
        let mut dropped_elements: Vec<bool> = Vec::new();
        let mut i: usize = 0;
        while i < module.elements.len()
            invariant
                i <= module.elements@.len(),
                dropped_elements@ == Seq::new(i as nat, |k: int| !(module.elements@[k].mode is Passive)),
            decreases module.elements@.len() - i,
        {
            let passive = match module.elements[i].mode {
                ElementMode::Passive => true,
                _ => false,
            };
            dropped_elements.push(!passive);
            i = i + 1;
            assert(dropped_elements@ =~= Seq::new(i as nat, |k: int| !(module.elements@[k].mode is Passive)));
        }
        let mut dropped_data: Vec<bool> = Vec::new();
        let mut j: usize = 0;
        while j < module.data.len()
            invariant
                j <= module.data@.len(),
                dropped_data@ == Seq::new(j as nat, |k: int| !(module.data@[k].mode is Passive)),
            decreases module.data@.len() - j,
        {
            let passive = match module.data[j].mode {
                DataMode::Passive => true,
                _ => false,
            };
            dropped_data.push(!passive);
            j = j + 1;
            assert(dropped_data@ =~= Seq::new(j as nat, |k: int| !(module.data@[k].mode is Passive)));
        }
        Machine {
            module,
            control_maps,
            memory,
            table,
            globals,
            identity,
            limits,
            calls: Vec::new(),
            budget: ExecutionBudget { fuel_remaining: None, host_calls: 0 },
            awaiting: Awaiting::Nothing,
            dropped_elements,
            dropped_data,
        }
    }

    /// The signature of function `function_index` of the function index space.
    pub fn function_type(&self, function_index: u32) -> (r: Result<FuncType, RuntimeError>)
        requires
            module_ok(self.module),
        ensures
            r matches Ok(t) ==> function_type_is(self.module, function_index as int, t),
            r is Err ==> r == Err::<FuncType, RuntimeError>(RuntimeError::FunctionOutOfBounds(function_index))
                && function_index >= imported_functions(self.module@.imports).len()
                + self.module.function_type_indices@.len(),
            function_index < imported_functions(self.module@.imports).len()
                + self.module.function_type_indices@.len() ==> r is Ok,
    {
        let function = function_index as usize;
        let imported = self.module.function_import_count();
        let type_index = if function < imported {
            match self.module.function_import_type_index(function) {
                Some(t) => t,
                None => return Err(RuntimeError::FunctionOutOfBounds(function_index)),
            }
        } else {
            let defined = function - imported;
            if defined >= self.module.function_type_indices.len() {
                return Err(RuntimeError::FunctionOutOfBounds(function_index));
            }
            self.module.function_type_indices[defined]
        };
        let ty = &self.module.types[type_index as usize];
        Ok(FuncType { params: copy_types(&ty.params), results: copy_types(&ty.results) })
    }

    /// The index of the exported function called `name`.
    pub fn exported_function_index(&self, name: &String) -> (r: Result<u32, RuntimeError>)
        ensures
            r == export_lookup(self.module.exports@, *name, 0),
    {
        let mut k: usize = 0;
        while k < self.module.exports.len()
            invariant
                k <= self.module.exports@.len(),
                export_lookup(self.module.exports@, *name, 0) == export_lookup(self.module.exports@, *name, k as int),
            decreases self.module.exports@.len() - k,
        {
            let export = &self.module.exports[k];
            if export.name == *name {
                if export.kind != ExportKind::Function {
                    return Err(RuntimeError::ExportNotFunction(name.clone()));
                }
                return Ok(export.index);
            }
            k = k + 1;
        }
        Err(RuntimeError::ExportNotFound(name.clone()))
    }

    /// The current value of global `index`.
    pub fn global(&self, index: u32) -> (v: Option<Value>)
        ensures
            (index as int) < self.globals@.len() ==> v == Some(self.globals@[index as int].spec_value()),
            (index as int) >= self.globals@.len() ==> v is None,
    {
        if (index as usize) < self.globals.len() {
            Some(self.globals[index as usize].get())
        } else {
            None
        }
    }
}

/// Well-formedness depends on neither the budget nor what the machine waits for.
pub proof fn lemma_wf_same_state(a: Machine, b: Machine)
    requires
        a.wf(),
        b.module == a.module,
        b.control_maps == a.control_maps,
        b.memory == a.memory,
        b.table == a.table,
        b.globals == a.globals,
        b.calls == a.calls,
    ensures
        b.wf(),
{
    assert forall|i: int| 0 <= i < b.spec_calls().len() implies (#[trigger] b.spec_calls()[i]).wf(b.module) by {
        assert(a.spec_calls()[i].wf(a.module));
    }
    assert forall|i: int| 0 <= i < b.globals@.len() implies (#[trigger] b.globals@[i]).wf() by {
        assert(a.globals@[i].wf());
    }
    assert forall|d: int| 0 <= d < b.control_maps@.len() implies #[trigger] map_wf(
        code_of(b.module, d),
        b.control_maps@[d].view(),
    ) by {
        assert(map_wf(code_of(a.module, d), a.control_maps@[d].view()));
    }
}

/// What looking up export `name` among `exports`, from position `k` on, gives: the
/// function index of the first export of that name, or the error for a name that no export
/// has or that names something other than a function.
pub open spec fn export_lookup(exports: Seq<Export>, name: String, k: int) -> Result<u32, RuntimeError>
    decreases exports.len() - k,
{
    if k < 0 || k >= exports.len() {
        Err(RuntimeError::ExportNotFound(name))
    } else if exports[k].name@ == name@ {
        if exports[k].kind == ExportKind::Function {
            Ok(exports[k].index)
        } else {
            Err(RuntimeError::ExportNotFunction(name))
        }
    } else {
        export_lookup(exports, name, k + 1)
    }
}

/// The position in the type section of the signature of function `f`.
pub open spec fn signature_index(m: Module, f: int) -> int {
    let imported = imported_functions(m@.imports);
    if f < imported.len() {
        import_type_index(imported[f])->Some_0 as int
    } else {
        m.function_type_indices@[f - imported.len()] as int
    }
}

/// `t` is the signature of function `f` of the module's function index space.
pub open spec fn function_type_is(m: Module, f: int, t: FuncType) -> bool {
    let imported = imported_functions(m@.imports);
    let type_index = if f < imported.len() {
        import_type_index(imported[f])->Some_0 as int
    } else {
        m.function_type_indices@[f - imported.len()] as int
    };
    &&& 0 <= f < imported.len() + m.function_type_indices@.len()
    &&& t.params@ == m.types@[type_index].params@
    &&& t.results@ == m.types@[type_index].results@
}


/// A table error reported against element `index`.
pub open spec fn spec_table_element_error(error: TableHandleError, index: u32) -> RuntimeError {
    match error {
        TableHandleError::OutOfBounds { .. } => RuntimeError::TableElementOutOfBounds(index),
        TableHandleError::ForeignFunctionReference { .. } => RuntimeError::ForeignTableFunctionReference {
            element_index: index,
        },
        TableHandleError::AlreadyBound => RuntimeError::ControlInvariant("table binding changed while instance is live"),
        TableHandleError::AllocationFailed { elements } => RuntimeError::TableAllocationFailed { elements },
        TableHandleError::InvalidLimits { .. } => RuntimeError::ControlInvariant("table handle has inconsistent limits"),
    }
}

pub fn map_table_element_error(error: TableHandleError, index: u32) -> (e: RuntimeError)
    ensures
        e == spec_table_element_error(error, index),
{
    match error {
        TableHandleError::OutOfBounds { .. } => RuntimeError::TableElementOutOfBounds(index),
        TableHandleError::ForeignFunctionReference { .. } => RuntimeError::ForeignTableFunctionReference {
            element_index: index,
        },
        TableHandleError::AlreadyBound => RuntimeError::ControlInvariant("table binding changed while instance is live"),
        TableHandleError::AllocationFailed { elements } => RuntimeError::TableAllocationFailed { elements },
        TableHandleError::InvalidLimits { .. } => RuntimeError::ControlInvariant("table handle has inconsistent limits"),
    }
}

/// The floating-point instructions the embedder computes: the operand type and count of
/// each (`subopcode` counts after the 0xfc prefix).
pub open spec fn float_operands(opcode: u8, subopcode: u32) -> Option<(ValueType, nat)> {
    if 0x5b <= opcode <= 0x60 || 0x92 <= opcode <= 0x97 {
        Some((ValueType::F32, 2))
    } else if 0x61 <= opcode <= 0x66 || 0xa0 <= opcode <= 0xa5 {
        Some((ValueType::F64, 2))
    } else if 0x8d <= opcode <= 0x91 || opcode == 0xa8 || opcode == 0xa9 || opcode == 0xae || opcode == 0xaf
        || opcode == 0xbb {
        Some((ValueType::F32, 1))
    } else if 0x9b <= opcode <= 0x9f || opcode == 0xaa || opcode == 0xab || opcode == 0xb0 || opcode == 0xb1
        || opcode == 0xb6 {
        Some((ValueType::F64, 1))
    } else if opcode == 0xb2 || opcode == 0xb3 || opcode == 0xb7 || opcode == 0xb8 {
        Some((ValueType::I32, 1))
    } else if opcode == 0xb4 || opcode == 0xb5 || opcode == 0xb9 || opcode == 0xba {
        Some((ValueType::I64, 1))
    } else if opcode == 0xfc && subopcode <= 7 {
        Some((if subopcode == 0 || subopcode == 1 || subopcode == 4 || subopcode == 5 {
            ValueType::F32
        } else {
            ValueType::F64
        }, 1))
    } else {
        None
    }
}

fn float_operand_kind(opcode: u8, subopcode: u32) -> (r: Option<(ValueType, usize)>)
    ensures
        match float_operands(opcode, subopcode) {
            Some((t, n)) => r == Some((t, n as usize)),
            None => r is None,
        },
{
    if (opcode >= 0x5b && opcode <= 0x60) || (opcode >= 0x92 && opcode <= 0x97) {
        Some((ValueType::F32, 2))
    } else if (opcode >= 0x61 && opcode <= 0x66) || (opcode >= 0xa0 && opcode <= 0xa5) {
        Some((ValueType::F64, 2))
    } else if (opcode >= 0x8d && opcode <= 0x91) || opcode == 0xa8 || opcode == 0xa9 || opcode == 0xae
        || opcode == 0xaf || opcode == 0xbb {
        Some((ValueType::F32, 1))
    } else if (opcode >= 0x9b && opcode <= 0x9f) || opcode == 0xaa || opcode == 0xab || opcode == 0xb0
        || opcode == 0xb1 || opcode == 0xb6 {
        Some((ValueType::F64, 1))
    } else if opcode == 0xb2 || opcode == 0xb3 || opcode == 0xb7 || opcode == 0xb8 {
        Some((ValueType::I32, 1))
    } else if opcode == 0xb4 || opcode == 0xb5 || opcode == 0xb9 || opcode == 0xba {
        Some((ValueType::I64, 1))
    } else if opcode == 0xfc && subopcode <= 7 {
        if subopcode == 0 || subopcode == 1 || subopcode == 4 || subopcode == 5 {
            Some((ValueType::F32, 1))
        } else {
            Some((ValueType::F64, 1))
        }
    } else {
        None
    }
}

/// Pops the `count` operands of a floating-point instruction, all of type `ty`, and returns
/// them in stack order.
fn pop_operands(stack: &mut Vec<Value>, ty: ValueType, count: usize) -> (r: Result<Vec<Value>, RuntimeError>)
    requires
        count == 1 || count == 2,
    ensures
        r matches Ok(v) ==> v@.len() == count && final(stack)@ == old(stack)@.subrange(
            0,
            old(stack)@.len() - count,
        ) && v@ == old(stack)@.subrange(old(stack)@.len() - count, old(stack)@.len() as int)
            && forall|i: int| 0 <= i < count ==> (#[trigger] v@[i]).spec_value_type() == ty,
        r is Ok <==> old(stack)@.len() >= count && forall|i: int|
            old(stack)@.len() - count <= i < old(stack)@.len() ==> (#[trigger] old(stack)@[i]).spec_value_type() == ty,
{
    let top = pop_typed(stack, ty)?;
    let mut operands: Vec<Value> = Vec::new();
    if count == 2 {
        let below = pop_typed(stack, ty)?;
        operands.push(below);
    }
    operands.push(top);
    assert(operands@ =~= old(stack)@.subrange(old(stack)@.len() - count, old(stack)@.len() as int));
    Ok(operands)
}

impl Machine {
    /// Starts function `function_index` on `args` at call depth `depth`. A host import is
    /// handed out (after the host-call allowance is charged); a defined function gets an
    /// activation with its arguments and zeroed locals.
    fn enter_function(&mut self, function_index: u32, args: Vec<Value>, depth: usize, top_level: bool) -> (r: Result<
        Outcome,
        RuntimeError,
    >)
        requires
            old(self).wf(),
            old(self).awaiting is Nothing,
        ensures
            final(self).wf(),
            final(self).module == old(self).module,
            final(self).control_maps == old(self).control_maps,
            final(self).memory == old(self).memory,
            final(self).table == old(self).table,
            final(self).globals == old(self).globals,
            final(self).budget.fuel_remaining == old(self).budget.fuel_remaining,
            r matches Ok(Outcome::CallHost { .. }) ==> final(self).awaiting is HostResults,
            !(r matches Ok(Outcome::CallHost { .. })) ==> final(self).awaiting is Nothing,
            call_entered(
                old(self).module,
                old(self).limits,
                old(self).budget.host_calls,
                old(self).spec_calls(),
                *final(self),
                function_index,
                args@,
                depth,
                r,
            ),
    {
        let function = function_index as usize;
        let imported = self.module.function_import_count();
        if function < imported {
            self.budget.consume_host_call(self.limits.max_host_calls)?;
            let import = match self.module.function_import(function) {
                Some(i) => i,
                None => return Err(RuntimeError::FunctionOutOfBounds(function_index)),
            };
            let type_index = match import.function_type_index() {
                Some(t) => t,
                None => return Err(RuntimeError::FunctionOutOfBounds(function_index)),
            };
            proof {
                assert(import_type_index(imported_functions(self.module@.imports)[function as int]) matches Some(
                    t,
                ) && t < self.module.types@.len());
            }
            let ty = &self.module.types[type_index as usize];
            validate_values(&ty.params, &args)?;
            let module_name = import.module.clone();
            let name = import.name.clone();
            let results = copy_types(&ty.results);
            self.awaiting = Awaiting::HostResults { import_index: function, results, top_level };
            return Ok(Outcome::CallHost { import_index: function, module: module_name, name, args });
        }
        let limit = if self.limits.max_call_depth < MAX_CALL_DEPTH { self.limits.max_call_depth } else {
            MAX_CALL_DEPTH
        };
        if depth >= limit {
            return Err(RuntimeError::CallDepthExceeded { limit });
        }
        let defined = function - imported;
        if defined >= self.module.function_type_indices.len() {
            return Err(RuntimeError::FunctionOutOfBounds(function_index));
        }
        let type_index = self.module.function_type_indices[defined];
        let ty = &self.module.types[type_index as usize];
        validate_values(&ty.params, &args)?;
        let body = &self.module.code[defined];
        let ghost groups = body.locals@;
        let ghost params = ty.params@;
        let ghost arguments = args@;
        let mut locals = args;
        let mut local_types = copy_types(&ty.params);
        let mut g: usize = 0;
        assert(groups.take(0) =~= Seq::<(u32, ValueType)>::empty());
        assert(local_types@ =~= params + declared_local_types(groups.take(0)));
        assert(locals@ =~= arguments + declared_local_types(groups.take(0)).map_values(zero_of()));
        while g < body.locals.len()
            invariant
                g <= body.locals@.len(),
                groups == body.locals@,
                locals@.len() == local_types@.len(),
                local_types@ == params + declared_local_types(groups.take(g as int)),
                locals@ == arguments + declared_local_types(groups.take(g as int)).map_values(zero_of()),
            decreases body.locals@.len() - g,
        {
            let (count, local_type) = body.locals[g];
            let ghost start_types = local_types@;
            let ghost start_locals = locals@;
            let mut k: u32 = 0;
            while k < count
                invariant
                    k <= count,
                    locals@.len() == local_types@.len(),
                    local_types@ == start_types + Seq::new(k as nat, |i: int| local_type),
                    locals@ == start_locals + Seq::new(k as nat, |i: int| local_type).map_values(zero_of()),
                decreases count - k,
            {
                let ghost run = Seq::new(k as nat, |i: int| local_type);
                assert(Seq::new((k + 1) as nat, |i: int| local_type) =~= run.push(local_type));
                proof {
                    lemma_map_values_push(run, local_type, zero_of());
                }
                locals.push(zero(local_type));
                local_types.push(local_type);
                assert(local_types@ =~= start_types + Seq::new((k + 1) as nat, |i: int| local_type));
                assert(locals@ =~= start_locals + Seq::new((k + 1) as nat, |i: int| local_type).map_values(zero_of()));
                k = k + 1;
            }
            proof {
                let next = groups.take(g + 1);
                assert(next.drop_last() =~= groups.take(g as int));
                assert(next.last() == (count, local_type));
                let run = Seq::new(count as nat, |i: int| local_type);
                assert(declared_local_types(next) == declared_local_types(groups.take(g as int)) + run);
                lemma_map_values_add(declared_local_types(groups.take(g as int)), run, zero_of());
                assert(local_types@ =~= params + declared_local_types(next));
                assert(locals@ =~= arguments + declared_local_types(next).map_values(zero_of()));
            }
            g = g + 1;
        }
        assert(groups.take(groups.len() as int) =~= groups);
        let code_len = body.code.len();
        if code_len == 0 {
            return Err(RuntimeError::ControlInvariant("function body is empty"));
        }
        let result_types = copy_types(&ty.results);
        let mut controls: Vec<ExecControlFrame> = Vec::new();
        controls.push(ExecControlFrame {
            kind: ControlKind::Function,
            body_pc: 0,
            end_pc: code_len - 1,
            stack_height: 0,
            param_types: Vec::new(),
            result_types: copy_types(&ty.results),
        });
        let activation = Activation {
            defined,
            depth,
            pc: 0,
            locals,
            local_types,
            stack: Vec::new(),
            controls,
            result_types,
        };
        proof {
            assert(frame_ok(code_of(self.module, defined as int), frames_view(activation.controls@)[0]));
        }
        self.calls.push(activation);
        proof {
            assert forall|i: int| 0 <= i < self.spec_calls().len() implies (#[trigger] self.spec_calls()[i]).wf(
                self.module,
            ) by {
                if i < old(self).spec_calls().len() {
                    assert(self.spec_calls()[i] == old(self).spec_calls()[i]);
                }
            }
            assert(self.spec_calls().drop_last() =~= old(self).spec_calls());
            let a = self.spec_calls().last();
            assert(a.locals@ == arguments + declared_local_types(groups).map_values(zero_of()));
            assert(a.local_types@ == params + declared_local_types(groups));
            assert(frames_view(a.controls@) =~= seq![
                FrameView {
                    kind: ControlKind::Function,
                    body_pc: 0,
                    end_pc: (code_len - 1) as nat,
                    stack_height: 0,
                    params: Seq::empty(),
                    results: ty.results@,
                },
            ]);
        }
        Ok(Outcome::Continue)
    }

    /// Starts a fresh invocation of function `function_index` on `args`, with a fresh budget.
    pub fn invoke(&mut self, function_index: u32, args: Vec<Value>) -> (r: Result<Outcome, RuntimeError>)
        requires
            old(self).wf(),
        ensures
            final(self).wf(),
            final(self).module == old(self).module,
            final(self).budget.fuel_remaining == old(self).limits.fuel,
            call_entered(old(self).module, old(self).limits, 0, Seq::empty(), *final(self), function_index, args@, 0, r),
    {
        self.calls = Vec::new();
        self.budget = ExecutionBudget::new(self.limits);
        self.awaiting = Awaiting::Nothing;
        self.enter_function(function_index, args, 0, true)
    }

    /// Starts the export called `name`. Unless `values` asks for all results, an export
    /// with more than one result is refused before it runs.
    pub fn invoke_export(&mut self, name: &String, args: Vec<Value>, values: bool) -> (r: Result<
        Outcome,
        RuntimeError,
    >)
        requires
            old(self).wf(),
        ensures
            final(self).wf(),
            final(self).module == old(self).module,
            match export_lookup(old(self).module.exports@, *name, 0) {
                Err(e) => r == Err::<Outcome, RuntimeError>(e) && *final(self) == *old(self),
                Ok(f) => {
                    let m = old(self).module;
                    let count = imported_functions(m@.imports).len() + m.function_type_indices@.len();
                    if !values && f >= count {
                        r == Err::<Outcome, RuntimeError>(RuntimeError::FunctionOutOfBounds(f)) && *final(self)
                            == *old(self)
                    } else if !values && m.types@[signature_index(m, f as int)].results@.len() > 1 {
                        r == Err::<Outcome, RuntimeError>(
                            RuntimeError::MultiValueResultRequiresValuesApi {
                                results: m.types@[signature_index(m, f as int)].results@.len() as usize,
                            },
                        ) && *final(self) == *old(self)
                    } else {
                        &&& final(self).budget.fuel_remaining == old(self).limits.fuel
                        &&& call_entered(m, old(self).limits, 0, Seq::empty(), *final(self), f, args@, 0, r)
                    }
                },
            },
    {
        let function_index = self.exported_function_index(name)?;
        if !values {
            let ty = self.function_type(function_index)?;
            if ty.results.len() > 1 {
                return Err(RuntimeError::MultiValueResultRequiresValuesApi { results: ty.results.len() });
            }
        }
        self.invoke(function_index, args)
    }

    /// Returns from the activation `a`, which has reached its end: its stack must hold
    /// exactly its results, which go to the caller, or out if there is none.
    fn finish_activation(&mut self, a: Activation) -> (r: Result<Outcome, RuntimeError>)
        requires
            old(self).wf(),
        ensures
            final(self).wf(),
            final(self).module == old(self).module,
            final(self).control_maps == old(self).control_maps,
            final(self).memory == old(self).memory,
            final(self).table == old(self).table,
            final(self).globals == old(self).globals,
            final(self).budget == old(self).budget,
            final(self).awaiting == old(self).awaiting,
            r matches Ok(Outcome::Finished(v)) ==> old(self).spec_calls().len() == 0 && v@ == a.stack@
                && values_match(a.result_types@, v@),
            returned(old(self).spec_calls(), a.stack@, a.result_types@, *final(self), r),
    {
        let result_arity = a.result_types.len();
        if a.stack.len() != result_arity {
            return Err(RuntimeError::ResultArityMismatch { expected: result_arity, actual: a.stack.len() });
        }
        validate_values(&a.result_types, &a.stack)?;
        let mut results = a.stack;
        match self.calls.pop() {
            None => Ok(Outcome::Finished(results)),
            Some(mut caller) => {
                let ghost caller_stack = caller.stack@;
                let ghost returned_values = results@;
                caller.stack.append(&mut results);
                self.calls.push(caller);
                proof {
                    assert forall|i: int| 0 <= i < self.spec_calls().len() implies (#[trigger] self.spec_calls()[i]).wf(
                        self.module,
                    ) by {
                        assert(old(self).spec_calls()[i].wf(self.module));
                    }
                    assert(self.spec_calls().drop_last() =~= old(self).spec_calls().drop_last());
                    assert(self.spec_calls().last().stack@ == caller_stack + returned_values);
                }
                Ok(Outcome::Continue)
            },
        }
    }

    /// Hands the machine the results of the host call it waits for; they must match the
    /// import's result types.
    pub fn resume_host(&mut self, results: Vec<Value>) -> (r: Result<Outcome, RuntimeError>)
        requires
            old(self).wf(),
        ensures
            final(self).wf(),
            final(self).module == old(self).module,
            !(old(self).awaiting is HostResults) ==> r is Err,
            (old(self).awaiting is HostResults && r is Ok) ==> values_match(
                old(self).awaiting->HostResults_results@,
                results@,
            ),
            host_resumed(*old(self), *final(self), results@, r),
    {
        let (import_index, types, top_level) = match &self.awaiting {
            Awaiting::HostResults { import_index, results, top_level } => (*import_index, copy_types(results), *top_level),
            _ => return Err(RuntimeError::ControlInvariant("no host call is pending")),
        };
        self.awaiting = Awaiting::Nothing;
        proof {
            lemma_wf_same_state(*old(self), *self);
        }
        let (module_name, name) = match self.module.function_import(import_index) {
            Some(import) => (import.module.clone(), import.name.clone()),
            None => return Err(RuntimeError::FunctionOutOfBounds(import_index as u32)),
        };
        if results.len() != types.len() {
            return Err(RuntimeError::HostResultArityMismatch {
                module: module_name,
                name,
                expected: types.len(),
                actual: results.len(),
            });
        }
        let ghost imports = imported_functions(old(self).module@.imports);
        let mut i: usize = 0;
        while i < results.len()
            invariant
                self.wf(),
                self.module == old(self).module,
                results@.len() == types@.len(),
                i <= results@.len(),
                forall|j: int| 0 <= j < i ==> #[trigger] results@[j].spec_value_type() == types@[j],
                imports == imported_functions(old(self).module@.imports),
                old(self).awaiting matches Awaiting::HostResults { import_index: k, results: t, top_level: l } && k
                    == import_index && t@ == types@ && l == top_level,
                import_index < imports.len(),
                module_name@ == imports[import_index as int].module,
                name@ == imports[import_index as int].name,
            decreases results@.len() - i,
        {
            let actual = results[i].value_type();
            if actual != types[i] {
                proof {
                    lemma_first_mismatch_at(types@, results@, 0, i as int);
                }
                return Err(RuntimeError::HostResultTypeMismatch {
                    module: module_name,
                    name,
                    expected: types[i],
                    actual,
                });
            }
            i = i + 1;
        }
        proof {
            lemma_validate_ok(types@, results@);
        }
        if top_level {
            return Ok(Outcome::Finished(results));
        }
        let mut results = results;
        match self.calls.pop() {
            None => Err(RuntimeError::ControlInvariant("host call returned without a caller")),
            Some(mut caller) => {
                let ghost caller_stack = caller.stack@;
                let ghost handed = results@;
                caller.stack.append(&mut results);
                self.calls.push(caller);
                proof {
                    assert forall|i: int| 0 <= i < self.spec_calls().len() implies (#[trigger] self.spec_calls()[i]).wf(
                        self.module,
                    ) by {
                        assert(old(self).spec_calls()[i].wf(self.module));
                    }
                    assert(self.spec_calls().drop_last() =~= old(self).spec_calls().drop_last());
                    assert(self.spec_calls().last().stack@ == caller_stack + handed);
                }
                Ok(Outcome::Continue)
            },
        }
    }

    /// Hands the machine the value of the floating-point instruction it waits for.
    pub fn push_value(&mut self, value: Value) -> (r: Result<(), RuntimeError>)
        requires
            old(self).wf(),
        ensures
            final(self).wf(),
            final(self).module == old(self).module,
            !(old(self).awaiting is FloatResult) ==> r == Err::<(), RuntimeError>(
                RuntimeError::ControlInvariant("no floating-point result is pending"),
            ),
            old(self).awaiting is FloatResult && old(self).spec_calls().len() == 0 ==> r == Err::<(), RuntimeError>(
                RuntimeError::ControlInvariant("no function is running"),
            ),
            old(self).awaiting is FloatResult && old(self).spec_calls().len() > 0 ==> {
                let top = old(self).spec_calls().last();
                let now = final(self).spec_calls().last();
                &&& r is Ok
                &&& final(self).awaiting is Nothing
                &&& final(self).spec_calls().len() == old(self).spec_calls().len()
                &&& final(self).spec_calls().drop_last() == old(self).spec_calls().drop_last()
                &&& now.stack@ == top.stack@.push(value)
                &&& now.pc == top.pc
                &&& now.locals == top.locals
                &&& now.controls == top.controls
                &&& final(self).memory == old(self).memory
                &&& final(self).globals == old(self).globals
                &&& final(self).table == old(self).table
            },
    {
        match self.awaiting {
            Awaiting::FloatResult => {},
            _ => return Err(RuntimeError::ControlInvariant("no floating-point result is pending")),
        }
        self.awaiting = Awaiting::Nothing;
        match self.calls.pop() {
            None => Err(RuntimeError::ControlInvariant("no function is running")),
            Some(mut a) => {
                a.stack.push(value);
                self.calls.push(a);
                proof {
                    assert forall|i: int| 0 <= i < self.spec_calls().len() implies (#[trigger] self.spec_calls()[i]).wf(
                        self.module,
                    ) by {
                        assert(old(self).spec_calls()[i].wf(self.module));
                    }
                    assert(self.spec_calls().drop_last() =~= old(self).spec_calls().drop_last());
                }
                Ok(())
            },
        }
    }
}


/// The machine runs an instruction on its next step: it waits for nothing, and the
/// innermost activation has not reached the end of its body.
pub open spec fn runs_instruction(m: Machine) -> bool {
    &&& m.awaiting is Nothing
    &&& m.spec_calls().len() > 0
    &&& m.spec_calls().last().pc < code_of(m.module, m.spec_calls().last().defined as int).len()
}

/// The effect on the operand stack of the instructions that compute on it alone:
/// integer comparisons, integer arithmetic, the sign-bit operators, the conversions that
/// only move bits and the sign extensions.
pub open spec fn numeric_effect(opcode: u8, s: Seq<Value>) -> Option<(Result<(), RuntimeError>, Seq<Value>)> {
    if 0x45 <= opcode <= 0x4f {
        Some(spec_compare(s, opcode, false))
    } else if 0x50 <= opcode <= 0x5a {
        Some(spec_compare(s, opcode, true))
    } else if is_unary_int(opcode) {
        Some(spec_unary_integer(s, opcode))
    } else if (0x6a <= opcode <= 0x78) || (0x7c <= opcode <= 0x8a) {
        Some(spec_binary_integer(s, opcode))
    } else if is_sign_op(opcode) {
        Some(spec_sign_op(s, opcode))
    } else if is_bit_conversion(opcode) {
        Some(spec_convert(s, opcode))
    } else if is_sign_extension(opcode) {
        Some(spec_sign_extend(s, opcode))
    } else {
        None
    }
}

/// The instruction the machine's next step runs.
pub open spec fn next_opcode(m: Machine) -> u8 {
    code_of(m.module, m.spec_calls().last().defined as int)[m.spec_calls().last().pc as int]
}

/// A numeric instruction replaces the operand stack as `numeric_effect` says, moves to the
/// next byte and leaves locals, frames and the rest of the machine alone; it fails exactly
/// when the effect does.
pub open spec fn numeric_step(before: Machine, after: Machine, r: Result<Outcome, RuntimeError>) -> bool {
    let top = before.spec_calls().last();
    let fuel_ok = !(before.budget.fuel_remaining matches Some(n) && n == 0);
    runs_instruction(before) && fuel_ok && numeric_effect(next_opcode(before), top.stack@) is Some ==> {
        let (res, s) = numeric_effect(next_opcode(before), top.stack@)->Some_0;
        &&& res is Err ==> r == Err::<Outcome, RuntimeError>(res->Err_0)
        &&& res is Ok ==> {
            &&& r matches Ok(Outcome::Continue)
            &&& after.spec_calls().len() == before.spec_calls().len()
            &&& after.spec_calls().drop_last() == before.spec_calls().drop_last()
            &&& after.spec_calls().last().stack@ == s
            &&& after.spec_calls().last().pc == top.pc + 1
            &&& after.spec_calls().last().locals == top.locals
            &&& after.spec_calls().last().controls == top.controls
            &&& after.memory == before.memory
            &&& after.globals == before.globals
        }
    }
}

/// The instructions that work on the locals and operand stack of the running activation,
/// on the globals or on memory (`drop`, `select`, the local and global accesses, the
/// constants, the loads and stores, `memory.size` and `memory.grow`) change the machine as
/// their effects say, move past their immediates and leave the frames, the other
/// activations and the table alone; they fail exactly when their effects do.
pub open spec fn local_step(before: Machine, after: Machine, r: Result<Outcome, RuntimeError>) -> bool {
    let top = before.spec_calls().last();
    let code = code_of(before.module, top.defined as int);
    let op = next_opcode(before);
    let pc = top.pc + 1;
    let fuel_ok = !(before.budget.fuel_remaining matches Some(n) && n == 0);
    let now = after.spec_calls().last();
    let same_frames = {
        &&& r matches Ok(Outcome::Continue)
        &&& after.spec_calls().len() == before.spec_calls().len()
        &&& after.spec_calls().drop_last() == before.spec_calls().drop_last()
        &&& now.controls == top.controls
        &&& after.table == before.table
    };
    runs_instruction(before) && fuel_ok ==> {
        &&& (op == 0x1a || op == 0x1b || 0x20 <= op <= 0x22) ==> match variable_effect(
            code,
            op,
            pc,
            top.locals@,
            top.local_types@,
            top.stack@,
        ) {
            Err(e) => r == Err::<Outcome, RuntimeError>(e),
            Ok((p, l, st)) => {
                &&& same_frames
                &&& now.pc == p
                &&& now.locals@ == l
                &&& now.stack@ == st
                &&& after.memory == before.memory
                &&& after.globals == before.globals
            },
        }
        &&& (0x41 <= op <= 0x44) ==> match const_effect(code, op, pc, top.stack@) {
            Err(e) => r == Err::<Outcome, RuntimeError>(e),
            Ok((p, st)) => {
                &&& same_frames
                &&& now.pc == p
                &&& now.locals == top.locals
                &&& now.stack@ == st
                &&& after.memory == before.memory
                &&& after.globals == before.globals
            },
        }
        &&& (op == 0x23 || op == 0x24) ==> match global_effect(
            before.module,
            before.globals@,
            code,
            op,
            pc,
            top.stack@,
        ) {
            Err(e) => r == Err::<Outcome, RuntimeError>(e),
            Ok((p, st, w)) => {
                &&& same_frames
                &&& now.pc == p
                &&& now.locals == top.locals
                &&& now.stack@ == st
                &&& after.memory == before.memory
                &&& match w {
                    None => after.globals@ == before.globals@,
                    Some((i, v)) => {
                        &&& after.globals@.len() == before.globals@.len()
                        &&& forall|j: int|
                            0 <= j < before.globals@.len() && j != i ==> #[trigger] after.globals@[j]
                                == before.globals@[j]
                        &&& after.globals@[i].spec_value() == v
                        &&& after.globals@[i].spec_type() == before.globals@[i].spec_type()
                        &&& after.globals@[i].spec_mutable() == before.globals@[i].spec_mutable()
                    },
                }
            },
        }
        &&& op == 0x40 ==> {
            &&& grow_effect(
                before.memory,
                after.memory,
                code,
                pc,
                top.stack@,
                match r {
                    Err(e) => Some(e),
                    Ok(_) => None,
                },
                now.pc as int,
                now.stack@,
            )
            &&& r is Ok ==> same_frames && now.locals == top.locals && after.globals == before.globals
        }
        &&& (0x28 <= op <= 0x3f) ==> match memory_effect(before.memory, code, op, pc, top.stack@) {
            Err(e) => r == Err::<Outcome, RuntimeError>(e),
            Ok((p, st, bytes)) => {
                &&& same_frames
                &&& now.pc == p
                &&& now.locals == top.locals
                &&& now.stack@ == st
                &&& after.memory matches Some(m) && m@ == bytes
                &&& after.globals == before.globals
            },
        }
    }
}

/// The types of the locals that a body declares, group after group.
pub open spec fn declared_local_types(groups: Seq<(u32, ValueType)>) -> Seq<ValueType>
    decreases groups.len(),
{
    if groups.len() == 0 {
        Seq::empty()
    } else {
        declared_local_types(groups.drop_last()) + Seq::new(groups.last().0 as nat, |i: int| groups.last().1)
    }
}

pub open spec fn zero_of() -> spec_fn(ValueType) -> Value {
    |t: ValueType| spec_zero(t)
}

/// The call depth past which a defined function is not entered.
pub open spec fn depth_limit(limits: RuntimeLimits) -> usize {
    if limits.max_call_depth < MAX_CALL_DEPTH {
        limits.max_call_depth
    } else {
        MAX_CALL_DEPTH
    }
}

/// Calling function `f` of module `m` with `args` at call depth `depth`, with `host_calls`
/// host calls made so far and `calls` running. An imported function costs a host call of
/// the budget, checks `args` against its type and hands the call to the embedder. A
/// defined function is not entered at the depth limit or past it; otherwise it checks
/// `args` against its type and starts a new activation at the start of its body, its
/// declared locals zero and one frame around the whole body.
pub open spec fn call_entered(
    m: Module,
    limits: RuntimeLimits,
    host_calls: u64,
    calls: Seq<Activation>,
    after: Machine,
    f: u32,
    args: Seq<Value>,
    depth: usize,
    r: Result<Outcome, RuntimeError>,
) -> bool {
    let imported = imported_functions(m@.imports);
    if f < imported.len() {
        let limit = limits.max_host_calls;
        if limit matches Some(l) && host_calls >= l {
            r == Err::<Outcome, RuntimeError>(RuntimeError::HostCallLimitExceeded { limit: limit->Some_0 })
        } else {
            let import = imported[f as int];
            let t = m.types@[import_type_index(import)->Some_0 as int];
            match spec_validate(t.params@, args) {
                Err(e) => r == Err::<Outcome, RuntimeError>(e),
                Ok(_) => {
                    &&& r matches Ok(Outcome::CallHost { import_index, module, name, args: a }) && import_index == f
                        && module@ == import.module && name@ == import.name && a@ == args
                    &&& after.awaiting is HostResults
                    &&& after.spec_calls() == calls
                },
            }
        }
    } else {
        let d = f - imported.len();
        if depth >= depth_limit(limits) {
            r == Err::<Outcome, RuntimeError>(RuntimeError::CallDepthExceeded { limit: depth_limit(limits) })
        } else if d >= m.function_type_indices@.len() {
            r == Err::<Outcome, RuntimeError>(RuntimeError::FunctionOutOfBounds(f))
        } else {
            let t = m.types@[m.function_type_indices@[d] as int];
            let body = m.code@[d];
            match spec_validate(t.params@, args) {
                Err(e) => r == Err::<Outcome, RuntimeError>(e),
                Ok(_) => if body.code@.len() == 0 {
                    r == Err::<Outcome, RuntimeError>(RuntimeError::ControlInvariant("function body is empty"))
                } else {
                    let declared = declared_local_types(body.locals@);
                    let a = after.spec_calls().last();
                    &&& r == Ok::<Outcome, RuntimeError>(Outcome::Continue)
                    &&& after.spec_calls().len() == calls.len() + 1
                    &&& after.spec_calls().drop_last() == calls
                    &&& a.defined == d
                    &&& a.depth == depth
                    &&& a.pc == 0
                    &&& a.local_types@ == t.params@ + declared
                    &&& a.locals@ == args + declared.map_values(zero_of())
                    &&& a.stack@.len() == 0
                    &&& a.result_types@ == t.results@
                    &&& frames_view(a.controls@) == seq![
                        FrameView {
                            kind: ControlKind::Function,
                            body_pc: 0,
                            end_pc: (body.code@.len() - 1) as nat,
                            stack_height: 0,
                            params: Seq::empty(),
                            results: t.results@,
                        },
                    ]
                },
            }
        }
    }
}

/// Handing the machine the `results` of the host call it waits for: they must be as many
/// as the import's result types, and of those types, the first departure reported; they
/// are then the invocation's results, if the host function was the one invoked, or go onto
/// the calling activation's stack.
pub open spec fn host_resumed(before: Machine, after: Machine, results: Seq<Value>, r: Result<Outcome, RuntimeError>) -> bool {
    match before.awaiting {
        Awaiting::HostResults { import_index, results: types, top_level } => {
            let imports = imported_functions(before.module@.imports);
            import_index < imports.len() ==> {
                let import = imports[import_index as int];
                if results.len() != types@.len() {
                    r matches Err(RuntimeError::HostResultArityMismatch { module, name, expected, actual })
                        && module@ == import.module && name@ == import.name && expected == types@.len()
                        && actual == results.len()
                } else {
                    match first_mismatch(types@, results, 0) {
                        Some(i) => r matches Err(RuntimeError::HostResultTypeMismatch { module, name, expected, actual })
                            && module@ == import.module && name@ == import.name && expected == types@[i]
                            && actual == results[i].spec_value_type(),
                        None => if top_level {
                            r matches Ok(Outcome::Finished(v)) && v@ == results
                        } else if before.spec_calls().len() == 0 {
                            r == Err::<Outcome, RuntimeError>(
                                RuntimeError::ControlInvariant("host call returned without a caller"),
                            )
                        } else {
                            let caller = before.spec_calls().last();
                            let now = after.spec_calls().last();
                            &&& r matches Ok(Outcome::Continue)
                            &&& after.spec_calls().len() == before.spec_calls().len()
                            &&& after.spec_calls().drop_last() == before.spec_calls().drop_last()
                            &&& now.stack@ == caller.stack@ + results
                            &&& now.pc == caller.pc
                            &&& now.locals == caller.locals
                            &&& now.controls == caller.controls
                        },
                    }
                }
            }
        },
        _ => r == Err::<Outcome, RuntimeError>(RuntimeError::ControlInvariant("no host call is pending")),
    }
}

/// Returning from an activation whose operand stack is `stack` and whose function has
/// result types `results`, with `calls` below it: the stack must hold exactly values of
/// those types, which go onto the caller's stack, or out of the machine if there is no
/// caller.
pub open spec fn returned(
    calls: Seq<Activation>,
    stack: Seq<Value>,
    results: Seq<ValueType>,
    after: Machine,
    r: Result<Outcome, RuntimeError>,
) -> bool {
    if stack.len() != results.len() {
        r == Err::<Outcome, RuntimeError>(
            RuntimeError::ResultArityMismatch { expected: results.len() as usize, actual: stack.len() as usize },
        )
    } else {
        match spec_validate(results, stack) {
            Err(e) => r == Err::<Outcome, RuntimeError>(e),
            Ok(_) => if calls.len() == 0 {
                r matches Ok(Outcome::Finished(v)) && v@ == stack
            } else {
                let caller = calls.last();
                let now = after.spec_calls().last();
                &&& r matches Ok(Outcome::Continue)
                &&& after.spec_calls().len() == calls.len()
                &&& after.spec_calls().drop_last() == calls.drop_last()
                &&& now.stack@ == caller.stack@ + stack
                &&& now.pc == caller.pc
                &&& now.locals == caller.locals
                &&& now.controls == caller.controls
                &&& now.defined == caller.defined
                &&& now.depth == caller.depth
            },
        }
    }
}

/// The parameter types of function `f` of the function index space.
pub open spec fn callee_params(m: Module, f: int) -> Seq<ValueType> {
    let imported = imported_functions(m@.imports);
    if f < imported.len() {
        m.types@[import_type_index(imported[f])->Some_0 as int].params@
    } else {
        m.types@[m.function_type_indices@[f - imported.len()] as int].params@
    }
}

/// The result types of function `f` of the function index space.
pub open spec fn callee_results(m: Module, f: int) -> Seq<ValueType> {
    let imported = imported_functions(m@.imports);
    if f < imported.len() {
        m.types@[import_type_index(imported[f])->Some_0 as int].results@
    } else {
        m.types@[m.function_type_indices@[f - imported.len()] as int].results@
    }
}

/// Activation `a`, whose operand stack is now `stack` and whose immediates end at `p`,
/// calls `callee`, with `calls` running below it: it takes the callee's arguments from the
/// top of the stack, waits after the immediates, and calls the callee one level deeper.
pub open spec fn call_from(
    m: Module,
    limits: RuntimeLimits,
    host_calls: u64,
    calls: Seq<Activation>,
    a: Activation,
    stack: Seq<Value>,
    p: int,
    callee: u32,
    after: Machine,
    r: Result<Outcome, RuntimeError>,
) -> bool {
    let n = callee_params(m, callee as int).len();
    let len = stack.len();
    if len < n {
        r == Err::<Outcome, RuntimeError>(RuntimeError::StackUnderflow)
    } else {
        let below = if r matches Ok(Outcome::CallHost { .. }) {
            after.spec_calls()
        } else {
            after.spec_calls().drop_last()
        };
        let caller = below.last();
        &&& call_entered(
            m,
            limits,
            host_calls,
            below,
            after,
            callee,
            stack.subrange(len - n, len as int),
            (a.depth + 1) as usize,
            r,
        )
        &&& r is Ok ==> {
            &&& below.len() == calls.len() + 1
            &&& below.drop_last() == calls
            &&& caller.pc == p
            &&& caller.stack@ == stack.subrange(0, len - n)
            &&& caller.locals == a.locals
            &&& caller.controls == a.controls
            &&& caller.defined == a.defined
            &&& caller.depth == a.depth
        }
    }
}

/// A direct `call` (0x10) by activation `a`, whose immediate starts at `a.pc`, with `calls`
/// running below it, calls the function its immediate names.
pub open spec fn direct_call(
    m: Module,
    limits: RuntimeLimits,
    host_calls: u64,
    calls: Seq<Activation>,
    a: Activation,
    after: Machine,
    r: Result<Outcome, RuntimeError>,
) -> bool {
    let code = code_of(m, a.defined as int);
    match spec_u32_imm(code, a.pc as int) {
        Err(e) => r == Err::<Outcome, RuntimeError>(e),
        Ok((callee, p)) => if callee >= imported_functions(m@.imports).len() + m.function_type_indices@.len() {
            r == Err::<Outcome, RuntimeError>(RuntimeError::FunctionOutOfBounds(callee))
        } else {
            call_from(m, limits, host_calls, calls, a, a.stack@, p, callee, after, r)
        },
    }
}

/// A `call_indirect` (0x11) by activation `a`, whose immediates start at `a.pc`, with
/// `calls` running below it: the element the top of the stack selects in table 0 must
/// hold a function of this instance whose signature is the type the immediate names,
/// and that function is called.
pub open spec fn indirect_call(
    m: Module,
    table: Option<TableHandle>,
    identity: u64,
    limits: RuntimeLimits,
    host_calls: u64,
    calls: Seq<Activation>,
    a: Activation,
    after: Machine,
    r: Result<Outcome, RuntimeError>,
) -> bool {
    let code = code_of(m, a.defined as int);
    match spec_u32_imm(code, a.pc as int) {
        Err(e) => r == Err::<Outcome, RuntimeError>(e),
        Ok((expected, p1)) => match spec_u32_imm(code, p1) {
            Err(e) => r == Err::<Outcome, RuntimeError>(e),
            Ok((table_index, p)) => if table_index != 0 || table is None {
                r == Err::<Outcome, RuntimeError>(RuntimeError::TableIndexOutOfBounds(table_index))
            } else {
                let (selector, stack) = spec_pop_typed(a.stack@, ValueType::I32);
                match selector {
                    Err(e) => r == Err::<Outcome, RuntimeError>(e),
                    Ok(selector) => {
                        let element = selector->I32_0 as u32;
                        let slots = table->Some_0@;
                        if element >= slots.len() {
                            r == Err::<Outcome, RuntimeError>(RuntimeError::TableElementOutOfBounds(element))
                        } else {
                            match slots[element as int] {
                                None => r == Err::<Outcome, RuntimeError>(
                                    RuntimeError::UninitializedTableElement(element),
                                ),
                                Some(f) => if f.owner != identity {
                                    r == Err::<Outcome, RuntimeError>(
                                        RuntimeError::ForeignTableFunctionReference { element_index: element },
                                    )
                                } else if expected >= m.types@.len() {
                                    r == Err::<Outcome, RuntimeError>(
                                        RuntimeError::ControlInvariant("validated call_indirect type is missing"),
                                    )
                                } else if f.function_index >= imported_functions(m@.imports).len()
                                    + m.function_type_indices@.len() {
                                    r == Err::<Outcome, RuntimeError>(
                                        RuntimeError::FunctionOutOfBounds(f.function_index),
                                    )
                                } else if callee_params(m, f.function_index as int) != m.types@[expected as int].params@
                                    || callee_results(m, f.function_index as int)
                                    != m.types@[expected as int].results@ {
                                    r == Err::<Outcome, RuntimeError>(
                                        RuntimeError::IndirectCallTypeMismatch {
                                            expected_type: expected,
                                            function_index: f.function_index,
                                        },
                                    )
                                } else {
                                    call_from(m, limits, host_calls, calls, a, stack, p, f.function_index, after, r)
                                },
                            }
                        }
                    },
                }
            },
        },
    }
}

/// A `call` (0x10) or `call_indirect` (0x11) runs as `direct_call` or `indirect_call` says
/// of the running activation, moved past the opcode, with the other activations below it.
pub open spec fn call_step(before: Machine, after: Machine, r: Result<Outcome, RuntimeError>) -> bool {
    let top = before.spec_calls().last();
    let fuel_ok = !(before.budget.fuel_remaining matches Some(n) && n == 0);
    let moved = (Activation { pc: (top.pc + 1) as usize, ..top });
    let below = before.spec_calls().drop_last();
    &&& runs_instruction(before) && fuel_ok && next_opcode(before) == 0x10 ==> direct_call(
        before.module,
        before.limits,
        before.budget.host_calls,
        below,
        moved,
        after,
        r,
    )
    &&& runs_instruction(before) && fuel_ok && next_opcode(before) == 0x11 ==> indirect_call(
        before.module,
        before.table,
        before.identity,
        before.limits,
        before.budget.host_calls,
        below,
        moved,
        after,
        r,
    )
}

/// Handing out floating-point instruction `op` (`sub` after the 0xfc prefix) of activation
/// `a`, whose immediates end at `p`, with `below` running under it: its operands, all of
/// the instruction's operand type, leave the top of `a`'s stack for the embedder, and the
/// machine waits for the result; operands that are missing or of another type are refused.
pub open spec fn handed_out(
    below: Seq<Activation>,
    a: Activation,
    after: Machine,
    r: Result<Outcome, RuntimeError>,
    op: u8,
    sub: u32,
    p: int,
) -> bool {
    let now = after.spec_calls().last();
    let len = a.stack@.len();
    let (ty, n) = float_operands(op, sub)->Some_0;
    let fits = len >= n && forall|i: int| len - n <= i < len ==> (#[trigger] a.stack@[i]).spec_value_type() == ty;
    &&& r is Ok <==> fits
    &&& fits ==> {
        &&& r matches Ok(Outcome::Float { opcode, subopcode, operands }) && opcode == op && subopcode == sub
            && operands@ == a.stack@.subrange(len - n, len as int)
        &&& after.awaiting is FloatResult
        &&& after.spec_calls().len() == below.len() + 1
        &&& after.spec_calls().drop_last() == below
        &&& now.stack@ == a.stack@.subrange(0, len - n)
        &&& now.pc == p
        &&& now.locals == a.locals
        &&& now.controls == a.controls
    }
}

/// Instruction `op` of activation `a`, past its opcode at `pc`, when the machine does not
/// run it itself: a floating-point instruction is handed out as `handed_out` says; any
/// other is refused.
pub open spec fn handoff(below: Seq<Activation>, a: Activation, code: Seq<u8>, pc: int, after: Machine, r: Result<Outcome, RuntimeError>, op: u8) -> bool {
    &&& (op != 0xfc && float_operands(op, 0) is Some) ==> handed_out(below, a, after, r, op, 0, pc)
    &&& (op != 0xfc && float_operands(op, 0) is None) ==> r == Err::<Outcome, RuntimeError>(
        RuntimeError::UnsupportedOpcode(op),
    )
    &&& op == 0xfc ==> match spec_u32_imm(code, pc) {
        Err(e) => r == Err::<Outcome, RuntimeError>(e),
        Ok((sub, p)) => if float_operands(op, sub) is Some {
            handed_out(below, a, after, r, op, sub, p)
        } else {
            r == Err::<Outcome, RuntimeError>(RuntimeError::UnsupportedPrefixedOpcode { prefix: 0xfc, subopcode: sub })
        },
    }
}

/// The instructions that the machine runs itself.
pub open spec fn runs_itself(op: u8) -> bool {
    ||| 0x01 <= op <= 0x05
    ||| 0x0b <= op <= 0x11
    ||| op == 0x1a || op == 0x1b
    ||| 0x20 <= op <= 0x24
    ||| 0x28 <= op <= 0x5a
    ||| 0x67 <= op <= 0x8a
    ||| is_sign_op(op)
    ||| is_bit_conversion(op)
    ||| is_sign_extension(op)
    ||| 0xd0 <= op <= 0xd2
}

/// The next step runs `memory.copy` or `memory.fill`: the 0xfc prefix followed by
/// subopcode 10 or 11.
pub open spec fn runs_bulk(m: Machine) -> bool {
    let top = m.spec_calls().last();
    &&& runs_instruction(m)
    &&& next_opcode(m) == 0xfc
    &&& spec_u32_imm(code_of(m.module, top.defined as int), top.pc + 1) matches Ok((sub, _)) && (sub == 10 || sub
        == 11)
}

/// `ref.null`, `ref.is_null` and `ref.func` replace the operand stack as
/// `reference_effect` says, move past their immediates and leave the rest of the machine
/// alone; they fail exactly when the effect does.
pub open spec fn reference_step(before: Machine, after: Machine, r: Result<Outcome, RuntimeError>) -> bool {
    let top = before.spec_calls().last();
    let code = code_of(before.module, top.defined as int);
    let op = next_opcode(before);
    let fuel_ok = !(before.budget.fuel_remaining matches Some(n) && n == 0);
    let now = after.spec_calls().last();
    let functions = (imported_functions(before.module@.imports).len() + before.module.function_type_indices@.len()) as int;
    (runs_instruction(before) && fuel_ok && 0xd0 <= op <= 0xd2) ==> match reference_effect(
        code,
        op,
        top.pc + 1,
        top.stack@,
        functions,
    ) {
        Err(e) => r == Err::<Outcome, RuntimeError>(e),
        Ok((p, st)) => {
            &&& r matches Ok(Outcome::Continue)
            &&& after.spec_calls().len() == before.spec_calls().len()
            &&& after.spec_calls().drop_last() == before.spec_calls().drop_last()
            &&& now.pc == p
            &&& now.stack@ == st
            &&& now.locals == top.locals
            &&& now.controls == top.controls
            &&& after.memory == before.memory
            &&& after.globals == before.globals
            &&& after.table == before.table
        },
    }
}

/// The next step runs `memory.init`, `data.drop`, `table.init` or `elem.drop`: the 0xfc
/// prefix followed by subopcode 8, 9, 12 or 13.
pub open spec fn runs_segment(m: Machine) -> bool {
    let top = m.spec_calls().last();
    &&& runs_instruction(m)
    &&& next_opcode(m) == 0xfc
    &&& spec_u32_imm(code_of(m.module, top.defined as int), top.pc + 1) matches Ok((sub, _)) && (sub == 8 || sub == 9
        || sub == 12 || sub == 13)
}

/// The segment instructions change the operand stack, memory or table and the dropped
/// segments as `data_segment_effect` and `element_segment_effect` say, move past their
/// immediates and leave locals, frames and globals alone; they fail exactly when the effect
/// does.
pub open spec fn segment_step(before: Machine, after: Machine, r: Result<Outcome, RuntimeError>) -> bool {
    let top = before.spec_calls().last();
    let code = code_of(before.module, top.defined as int);
    let fuel_ok = !(before.budget.fuel_remaining matches Some(n) && n == 0);
    let now = after.spec_calls().last();
    let continued = {
        &&& r matches Ok(Outcome::Continue)
        &&& after.spec_calls().len() == before.spec_calls().len()
        &&& after.spec_calls().drop_last() == before.spec_calls().drop_last()
        &&& now.locals == top.locals
        &&& now.controls == top.controls
        &&& after.globals == before.globals
    };
    (runs_segment(before) && fuel_ok) ==> {
        let (sub, p) = spec_u32_imm(code, top.pc + 1)->Ok_0;
        if sub == 8 || sub == 9 {
            match data_segment_effect(before.module, before.memory, before.dropped_data@, code, sub, p, top.stack@) {
                Err(e) => r == Err::<Outcome, RuntimeError>(e),
                Ok((q, st, bytes, dd)) => {
                    &&& continued
                    &&& now.pc == q
                    &&& now.stack@ == st
                    &&& after.dropped_data@ == dd
                    &&& after.dropped_elements == before.dropped_elements
                    &&& after.table == before.table
                    &&& match bytes {
                        Some(b) => after.memory matches Some(mm) && mm@ == b && mm.spec_max_pages()
                            == before.memory->Some_0.spec_max_pages(),
                        None => after.memory == before.memory,
                    }
                },
            }
        } else {
            match element_segment_effect(
                before.module,
                before.table,
                before.dropped_elements@,
                before.identity,
                code,
                sub,
                p,
                top.stack@,
            ) {
                Err(e) => r == Err::<Outcome, RuntimeError>(e),
                Ok((q, st, slots, dd)) => {
                    &&& continued
                    &&& now.pc == q
                    &&& now.stack@ == st
                    &&& after.dropped_elements@ == dd
                    &&& after.dropped_data == before.dropped_data
                    &&& after.memory == before.memory
                    &&& match slots {
                        Some(v) => after.table matches Some(t) && t@ == v && t.spec_maximum()
                            == before.table->Some_0.spec_maximum() && t.spec_owner() == before.table->Some_0.spec_owner(),
                        None => after.table == before.table,
                    }
                },
            }
        }
    }
}

/// The next step runs `table.copy`, `table.grow`, `table.size` or `table.fill`: the 0xfc
/// prefix followed by subopcode 14 to 17.
pub open spec fn runs_table(m: Machine) -> bool {
    let top = m.spec_calls().last();
    &&& runs_instruction(m)
    &&& next_opcode(m) == 0xfc
    &&& spec_u32_imm(code_of(m.module, top.defined as int), top.pc + 1) matches Ok((sub, _)) && 14 <= sub <= 17
}

/// The table instructions change the operand stack and the table as `table_effect`
/// says, move past their immediates and leave locals, frames, memory and globals alone; they
/// fail exactly when the effect does.
pub open spec fn table_step(before: Machine, after: Machine, r: Result<Outcome, RuntimeError>) -> bool {
    let top = before.spec_calls().last();
    let code = code_of(before.module, top.defined as int);
    let fuel_ok = !(before.budget.fuel_remaining matches Some(n) && n == 0);
    let now = after.spec_calls().last();
    (runs_table(before) && fuel_ok) ==> {
        let (sub, p) = spec_u32_imm(code, top.pc + 1)->Ok_0;
        &&& table_effect(
            before.table,
            after.table,
            before.identity,
            code,
            sub,
            p,
            top.stack@,
            match r {
                Err(e) => Some(e),
                Ok(_) => None,
            },
            now.pc as int,
            now.stack@,
        )
        &&& r is Ok ==> {
            &&& r matches Ok(Outcome::Continue)
            &&& after.spec_calls().len() == before.spec_calls().len()
            &&& after.spec_calls().drop_last() == before.spec_calls().drop_last()
            &&& now.locals == top.locals
            &&& now.controls == top.controls
            &&& after.memory == before.memory
            &&& after.globals == before.globals
        }
    }
}

/// `memory.copy` and `memory.fill` change the operand stack and memory as `bulk_effect`
/// says, move past their immediates and leave locals, frames, globals and table alone; they
/// fail exactly when the effect does.
pub open spec fn bulk_step(before: Machine, after: Machine, r: Result<Outcome, RuntimeError>) -> bool {
    let top = before.spec_calls().last();
    let code = code_of(before.module, top.defined as int);
    let fuel_ok = !(before.budget.fuel_remaining matches Some(n) && n == 0);
    let now = after.spec_calls().last();
    (runs_bulk(before) && fuel_ok) ==> {
        let (sub, p) = spec_u32_imm(code, top.pc + 1)->Ok_0;
        match bulk_effect(before.memory, code, sub, p, top.stack@) {
            Err(e) => r == Err::<Outcome, RuntimeError>(e),
            Ok((q, st, bytes)) => {
                &&& r matches Ok(Outcome::Continue)
                &&& after.spec_calls().len() == before.spec_calls().len()
                &&& after.spec_calls().drop_last() == before.spec_calls().drop_last()
                &&& now.pc == q
                &&& now.stack@ == st
                &&& now.locals == top.locals
                &&& now.controls == top.controls
                &&& after.memory matches Some(mm) && mm@ == bytes && mm.spec_max_pages()
                    == before.memory->Some_0.spec_max_pages()
                &&& after.globals == before.globals
                &&& after.table == before.table
            },
        }
    }
}

/// The instructions the machine does not run itself are handed out, or refused, as
/// `handoff` says, and the memory, globals and table stay as they are.
pub open spec fn handoff_step(before: Machine, after: Machine, r: Result<Outcome, RuntimeError>) -> bool {
    let top = before.spec_calls().last();
    let op = next_opcode(before);
    let fuel_ok = !(before.budget.fuel_remaining matches Some(n) && n == 0);
    (runs_instruction(before) && fuel_ok && !runs_itself(op) && !runs_bulk(before) && !runs_table(before)
        && !runs_segment(before)) ==> {
        &&& handoff(
            before.spec_calls().drop_last(),
            top,
            code_of(before.module, top.defined as int),
            top.pc + 1,
            after,
            r,
            op,
        )
        &&& r is Ok ==> after.memory == before.memory && after.globals == before.globals && after.table
            == before.table
    }
}

/// A machine that waits for a result, or runs no function, takes no step.
pub open spec fn idle_step(before: Machine, r: Result<Outcome, RuntimeError>) -> bool {
    &&& !(before.awaiting is Nothing) ==> r == Err::<Outcome, RuntimeError>(
        RuntimeError::ControlInvariant("the machine waits for a result"),
    )
    &&& before.awaiting is Nothing && before.spec_calls().len() == 0 ==> r == Err::<Outcome, RuntimeError>(
        RuntimeError::ControlInvariant("no function is running"),
    )
}

/// An activation returns, as `returned` says, once its body is done or when an `end`
/// closes its function frame.
pub open spec fn return_step(before: Machine, after: Machine, r: Result<Outcome, RuntimeError>) -> bool {
    let top = before.spec_calls().last();
    let code = code_of(before.module, top.defined as int);
    let fuel_ok = !(before.budget.fuel_remaining matches Some(n) && n == 0);
    let below = before.spec_calls().drop_last();
    &&& (before.awaiting is Nothing && before.spec_calls().len() > 0 && top.pc >= code.len()) ==> returned(
        below,
        top.stack@,
        top.result_types@,
        after,
        r,
    )
    &&& (runs_instruction(before) && fuel_ok && next_opcode(before) == 0x0b) ==> match else_end_effect(
        0x0b,
        top.pc as int,
        top.pc + 1,
        frames_view(top.controls@),
        top.stack@,
    ) {
        Ok((_, _, true)) => returned(below, top.stack@, top.result_types@, after, r),
        _ => true,
    }
}

/// The structured-control instructions (`nop`, `block`, `loop`, `if`, `else`, an `end`
/// that closes a block, and the branches) change the running activation's frames, operand
/// stack and position as their effects say, by the control map of its body, and leave
/// everything else alone; they fail exactly when their effects do.
pub open spec fn control_step(before: Machine, after: Machine, r: Result<Outcome, RuntimeError>) -> bool {
    let top = before.spec_calls().last();
    let code = code_of(before.module, top.defined as int);
    let op = next_opcode(before);
    let pc = top.pc + 1;
    let fuel_ok = !(before.budget.fuel_remaining matches Some(n) && n == 0);
    let now = after.spec_calls().last();
    let moved = |c: Seq<FrameView>, st: Seq<Value>, p: int|
        {
            &&& r matches Ok(Outcome::Continue)
            &&& after.spec_calls().len() == before.spec_calls().len()
            &&& after.spec_calls().drop_last() == before.spec_calls().drop_last()
            &&& frames_view(now.controls@) == c
            &&& now.stack@ == st
            &&& now.pc == p
            &&& now.locals == top.locals
            &&& after.memory == before.memory
            &&& after.table == before.table
            &&& after.globals == before.globals
        };
    runs_instruction(before) && fuel_ok ==> {
        &&& op == 0x01 ==> moved(frames_view(top.controls@), top.stack@, pc)
        &&& (0x02 <= op <= 0x04) ==> match structured_effect(
            before.module,
            openers_view(before.control_maps@[top.defined as int].openers@),
            code,
            op,
            top.pc as int,
            pc,
            frames_view(top.controls@),
            top.stack@,
        ) {
            Err(e) => r == Err::<Outcome, RuntimeError>(e),
            Ok((c, st, p)) => moved(c, st, p),
        }
        &&& (op == 0x05 || op == 0x0b) ==> match else_end_effect(
            op,
            top.pc as int,
            pc,
            frames_view(top.controls@),
            top.stack@,
        ) {
            Err(e) => r == Err::<Outcome, RuntimeError>(e),
            Ok((c, p, ended)) => !ended ==> moved(c, top.stack@, p),
        }
        &&& (0x0c <= op <= 0x0f) ==> match branch_effect(code, op, pc, frames_view(top.controls@), top.stack@) {
            Err(e) => r == Err::<Outcome, RuntimeError>(e),
            Ok((c, st, p)) => moved(c, st, p),
        }
    }
}

/// One step's use of the instruction budget: an instruction costs one unit of a limited
/// budget and cannot run on an empty one; a step that runs no instruction costs nothing.
pub open spec fn fuel_step(before: Machine, after: Machine, r: Result<Outcome, RuntimeError>) -> bool {
    if runs_instruction(before) {
        match before.budget.fuel_remaining {
            None => after.budget.fuel_remaining is None,
            Some(n) => if n == 0 {
                r == Err::<Outcome, RuntimeError>(RuntimeError::FuelExhausted)
            } else {
                after.budget.fuel_remaining == Some((n - 1) as u64)
            },
        }
    } else {
        after.budget.fuel_remaining == before.budget.fuel_remaining
    }
}

impl Machine {
    /// Runs a call instruction (`call` 0x10 or `call_indirect` 0x11) of activation `a`,
    /// which goes back on the call stack below its callee.
    fn exec_call(&mut self, a: Activation, opcode: u8) -> (r: Result<Outcome, RuntimeError>)
        requires
            old(self).wf(),
            old(self).awaiting is Nothing,
            a.wf(old(self).module),
            opcode == 0x10 || opcode == 0x11,
        ensures
            final(self).wf(),
            final(self).module == old(self).module,
            final(self).control_maps == old(self).control_maps,
            final(self).budget.fuel_remaining == old(self).budget.fuel_remaining,
            opcode == 0x10 ==> direct_call(
                old(self).module,
                old(self).limits,
                old(self).budget.host_calls,
                old(self).spec_calls(),
                a,
                *final(self),
                r,
            ),
            opcode == 0x11 ==> indirect_call(
                old(self).module,
                old(self).table,
                old(self).identity,
                old(self).limits,
                old(self).budget.host_calls,
                old(self).spec_calls(),
                a,
                *final(self),
                r,
            ),
    {
        let mut a = a;
        let d = a.defined;
        let callee: u32;
        let param_count: usize;
        if opcode == 0x10 {
            callee = read_u32_immediate(self.module.code[d].code.as_slice(), &mut a.pc)?;
            let callee_type = self.function_type(callee)?;
            param_count = callee_type.params.len();
        } else {
            let expected_type_index = read_u32_immediate(self.module.code[d].code.as_slice(), &mut a.pc)?;
            let table_index = read_u32_immediate(self.module.code[d].code.as_slice(), &mut a.pc)?;
            if table_index != 0 || self.table.is_none() {
                return Err(RuntimeError::TableIndexOutOfBounds(table_index));
            }
            let element_index = i32_from_stack(&mut a.stack)? as u32;
            let found = match &self.table {
                Some(table) => table.function_index_for_instance(element_index, self.identity),
                None => return Err(RuntimeError::TableIndexOutOfBounds(table_index)),
            };
            callee = match found {
                Err(e) => return Err(map_table_element_error(e, element_index)),
                Ok(None) => return Err(RuntimeError::UninitializedTableElement(element_index)),
                Ok(Some(f)) => f,
            };
            if expected_type_index as usize >= self.module.types.len() {
                return Err(RuntimeError::ControlInvariant("validated call_indirect type is missing"));
            }
            let actual_type = self.function_type(callee)?;
            let expected_type = &self.module.types[expected_type_index as usize];
            if !same_types(&actual_type.params, &expected_type.params) || !same_types(
                &actual_type.results,
                &expected_type.results,
            ) {
                return Err(RuntimeError::IndirectCallTypeMismatch {
                    expected_type: expected_type_index,
                    function_index: callee,
                });
            }
            param_count = expected_type.params.len();
        }
        if a.stack.len() < param_count {
            return Err(RuntimeError::StackUnderflow);
        }
        let ghost stack_before = a.stack@;
        let call_args = a.stack.split_off(a.stack.len() - param_count);
        let depth = a.depth;
        self.calls.push(a);
        let ghost pushed = self.spec_calls();
        proof {
            assert forall|i: int| 0 <= i < self.spec_calls().len() implies (#[trigger] self.spec_calls()[i]).wf(
                self.module,
            ) by {
                if i < old(self).spec_calls().len() {
                    assert(old(self).spec_calls()[i].wf(self.module));
                }
            }
            assert(pushed.drop_last() =~= old(self).spec_calls());
        }
        let r = self.enter_function(callee, call_args, depth + 1, false);
        proof {
            let below = if r matches Ok(Outcome::CallHost { .. }) {
                self.spec_calls()
            } else {
                self.spec_calls().drop_last()
            };
            if r is Ok {
                assert(below == pushed);
            }
            assert(call_entered(
                old(self).module,
                old(self).limits,
                old(self).budget.host_calls,
                below,
                *self,
                callee,
                stack_before.subrange(stack_before.len() - param_count, stack_before.len() as int),
                (depth + 1) as usize,
                r,
            ));
        }
        r
    }

    /// Hands out floating-point instruction `opcode` of activation `a`, which goes back on
    /// the call stack; any other instruction left over is refused.
    fn hand_out(&mut self, a: Activation, opcode: u8) -> (r: Result<Outcome, RuntimeError>)
        requires
            old(self).wf(),
            old(self).awaiting is Nothing,
            a.wf(old(self).module),
        ensures
            final(self).wf(),
            final(self).module == old(self).module,
            final(self).control_maps == old(self).control_maps,
            final(self).memory == old(self).memory,
            final(self).globals == old(self).globals,
            final(self).table == old(self).table,
            final(self).budget == old(self).budget,
            handoff(old(self).spec_calls(), a, code_of(old(self).module, a.defined as int), a.pc as int, *final(self), r, opcode),
    {
        let mut a = a;
        let d = a.defined;
        let subopcode = if opcode == 0xfc {
            read_u32_immediate(self.module.code[d].code.as_slice(), &mut a.pc)?
        } else {
            0
        };
        match float_operand_kind(opcode, subopcode) {
            Some((ty, count)) => {
                let operands = pop_operands(&mut a.stack, ty, count)?;
                self.calls.push(a);
                self.awaiting = Awaiting::FloatResult;
                proof {
                    assert forall|i: int| 0 <= i < self.spec_calls().len() implies (#[trigger] self.spec_calls()[i]).wf(
                        self.module,
                    ) by {
                        if i < old(self).spec_calls().len() {
                            assert(old(self).spec_calls()[i].wf(self.module));
                        }
                    }
                    assert(self.spec_calls().drop_last() =~= old(self).spec_calls());
                }
                Ok(Outcome::Float { opcode, subopcode, operands })
            },
            None => {
                if opcode == 0xfc {
                    return Err(RuntimeError::UnsupportedPrefixedOpcode { prefix: 0xfc, subopcode });
                }
                Err(RuntimeError::UnsupportedOpcode(opcode))
            },
        }
    }

    /// Runs the next instruction of the innermost activation, or returns from it once its
    /// body is done.
    pub fn step(&mut self) -> (r: Result<Outcome, RuntimeError>)
        requires
            old(self).wf(),
        ensures
            final(self).wf(),
            final(self).module == old(self).module,
            final(self).control_maps == old(self).control_maps,
            fuel_step(*old(self), *final(self), r),
            numeric_step(*old(self), *final(self), r),
            local_step(*old(self), *final(self), r),
            bulk_step(*old(self), *final(self), r),
            table_step(*old(self), *final(self), r),
            segment_step(*old(self), *final(self), r),
            reference_step(*old(self), *final(self), r),
            control_step(*old(self), *final(self), r),
            call_step(*old(self), *final(self), r),
            return_step(*old(self), *final(self), r),
            handoff_step(*old(self), *final(self), r),
            idle_step(*old(self), r),
    {
        match self.awaiting {
            Awaiting::Nothing => {},
            _ => return Err(RuntimeError::ControlInvariant("the machine waits for a result")),
        }
        let mut a = match self.calls.pop() {
            Some(a) => a,
            None => return Err(RuntimeError::ControlInvariant("no function is running")),
        };
        proof {
            assert(old(self).spec_calls()[old(self).spec_calls().len() - 1].wf(self.module));
            assert forall|i: int| 0 <= i < self.spec_calls().len() implies (#[trigger] self.spec_calls()[i]).wf(
                self.module,
            ) by {
                assert(old(self).spec_calls()[i].wf(self.module));
            }
        }
        let d = a.defined;
        let code_len = self.module.code[d].code.len();
        if a.pc >= code_len {
            return self.finish_activation(a);
        }
        self.budget.consume_instruction()?;
        let offset = a.pc;
        let opcode = self.module.code[d].code[offset];
        a.pc = offset + 1;
        proof {
            assert(map_wf(code_of(self.module, d as int), self.control_maps@[d as int].view()));
        }
        if opcode == 0x01 {
        } else if opcode >= 0x02 && opcode <= 0x04 {
            exec_structured(
                &self.module,
                &self.control_maps[d],
                self.module.code[d].code.as_slice(),
                &mut a,
                opcode,
                offset,
            )?;
        } else if opcode == 0x05 || opcode == 0x0b {
            let ended = exec_else_end(self.module.code[d].code.as_slice(), &mut a, opcode, offset)?;
            if ended {
                return self.finish_activation(a);
            }
        } else if opcode >= 0x0c && opcode <= 0x0f {
            exec_branch(self.module.code[d].code.as_slice(), &mut a, opcode)?;
        } else if opcode == 0x10 || opcode == 0x11 {
            return self.exec_call(a, opcode);
        } else if opcode == 0x1a || opcode == 0x1b || (opcode >= 0x20 && opcode <= 0x22) {
            exec_variable(self.module.code[d].code.as_slice(), &mut a, opcode)?;
        } else if opcode == 0x23 || opcode == 0x24 {
            exec_global(&self.module, &mut self.globals, self.module.code[d].code.as_slice(), &mut a, opcode)?;
        } else if opcode >= 0x28 && opcode <= 0x40 {
            exec_memory(&mut self.memory, self.module.code[d].code.as_slice(), &mut a, opcode)?;
        } else if opcode >= 0x41 && opcode <= 0x44 {
            exec_const(self.module.code[d].code.as_slice(), &mut a, opcode)?;
        } else if opcode >= 0x45 && opcode <= 0x4f {
            compare_i32(&mut a.stack, opcode)?;
        } else if opcode >= 0x50 && opcode <= 0x5a {
            compare_i64(&mut a.stack, opcode)?;
        } else if (opcode >= 0x67 && opcode <= 0x69) || (opcode >= 0x79 && opcode <= 0x7b) {
            unary_integer(&mut a.stack, opcode)?;
        } else if (opcode >= 0x6a && opcode <= 0x78) || (opcode >= 0x7c && opcode <= 0x8a) {
            binary_integer(&mut a.stack, opcode)?;
        } else if opcode == 0x8b || opcode == 0x8c || opcode == 0x98 || opcode == 0x99 || opcode == 0x9a
            || opcode == 0xa6 {
            sign_op(&mut a.stack, opcode)?;
        } else if opcode == 0xa7 || opcode == 0xac || opcode == 0xad || (opcode >= 0xbc && opcode <= 0xbf) {
            convert(&mut a.stack, opcode)?;
        } else if opcode >= 0xc0 && opcode <= 0xc4 {
            sign_extend(&mut a.stack, opcode)?;
        } else if opcode >= 0xd0 && opcode <= 0xd2 {
            let imported = self.module.function_import_count();
            exec_reference(
                self.module.code[d].code.as_slice(),
                &mut a,
                opcode,
                imported,
                self.module.function_type_indices.len(),
            )?;
        } else if opcode == 0xfc {
            let mut after_sub = a.pc;
            match read_u32_immediate(self.module.code[d].code.as_slice(), &mut after_sub) {
                Ok(sub) => {
                    if sub == 8 || sub == 9 {
                        a.pc = after_sub;
                        exec_data_segment(
                            &self.module,
                            &mut self.memory,
                            &mut self.dropped_data,
                            self.module.code[d].code.as_slice(),
                            &mut a,
                            sub,
                        )?;
                    } else if sub == 12 || sub == 13 {
                        a.pc = after_sub;
                        exec_element_segment(
                            &self.module,
                            &mut self.table,
                            &mut self.dropped_elements,
                            self.identity,
                            self.module.code[d].code.as_slice(),
                            &mut a,
                            sub,
                        )?;
                    } else if sub == 10 || sub == 11 {
                        a.pc = after_sub;
                        exec_bulk_memory(&mut self.memory, self.module.code[d].code.as_slice(), &mut a, sub)?;
                    } else if sub >= 14 && sub <= 17 {
                        a.pc = after_sub;
                        exec_table(&mut self.table, self.identity, self.module.code[d].code.as_slice(), &mut a, sub)?;
                    } else {
                        return self.hand_out(a, opcode);
                    }
                },
                Err(_) => return self.hand_out(a, opcode),
            }
        } else {
            return self.hand_out(a, opcode);
        }
        self.calls.push(a);
        proof {
            assert forall|i: int| 0 <= i < self.spec_calls().len() implies (#[trigger] self.spec_calls()[i]).wf(
                self.module,
            ) by {
                if i < old(self).spec_calls().len() - 1 {
                    assert(old(self).spec_calls()[i].wf(self.module));
                }
            }
            assert(self.spec_calls().drop_last() =~= old(self).spec_calls().drop_last());
        }
        Ok(Outcome::Continue)
    }
}


/// Whether the interpreter can rely on `module` as `module_ok` describes.
pub fn check_module(module: &Module) -> (r: bool)
    ensures
        r == module_ok(*module),
{
    let imported = module.function_import_count();
    let mut k: usize = 0;
    while k < imported
        invariant
            k <= imported,
            imported == imported_functions(module@.imports).len(),
            forall|j: int| 0 <= j < k ==> (#[trigger] import_type_index(imported_functions(module@.imports)[j]) matches Some(
                t,
            ) && t < module.types@.len()),
        decreases imported - k,
    {
        match module.function_import_type_index(k) {
            Some(t) => {
                if t as usize >= module.types.len() {
                    return false;
                }
            },
            None => {
                return false;
            },
        }
        k = k + 1;
    }
    let mut d: usize = 0;
    while d < module.function_type_indices.len()
        invariant
            d <= module.function_type_indices@.len(),
            forall|j: int| 0 <= j < d ==> #[trigger] module.function_type_indices@[j] < module.types@.len(),
        decreases module.function_type_indices@.len() - d,
    {
        if module.function_type_indices[d] as usize >= module.types.len() {
            return false;
        }
        d = d + 1;
    }
    module.code.len() == module.function_type_indices.len() && (imported as u128)
        + (module.function_type_indices.len() as u128) <= u32::MAX as u128
}

} // verus!
