//! The control frames of a running function, the branch and exit rules over them, and
//! the per-invocation execution budget.
use vstd::prelude::*;
use crate::control::{BlockSignature, ControlInfo, ControlKind, copy_types};
use crate::instantiate::RuntimeLimits;
use crate::runtime_error::RuntimeError;
use crate::types::ValueType;
use crate::value::{Value, values_match, validate_values, same_types, spec_validate};

verus! {

/// An entered structured instruction (or the function itself): where its body starts and
/// ends, the stack height below its operands, and its signature.
#[derive(Debug, Clone)]
pub struct ExecControlFrame {
    pub kind: ControlKind,
    pub body_pc: usize,
    pub end_pc: usize,
    pub stack_height: usize,
    pub param_types: Vec<ValueType>,
    pub result_types: Vec<ValueType>,
}

pub struct FrameView {
    pub kind: ControlKind,
    pub body_pc: nat,
    pub end_pc: nat,
    pub stack_height: nat,
    pub params: Seq<ValueType>,
    pub results: Seq<ValueType>,
}

impl ExecControlFrame {
    pub open spec fn view(&self) -> FrameView {
        FrameView {
            kind: self.kind,
            body_pc: self.body_pc as nat,
            end_pc: self.end_pc as nat,
            stack_height: self.stack_height as nat,
            params: self.param_types@,
            results: self.result_types@,
        }
    }

    /// The types a branch to this frame carries: a loop's parameters, otherwise its results.
    pub fn label_types(&self) -> (t: Vec<ValueType>)
        ensures
            t@ == label_types_of(self.view()),
    {
        if self.kind == ControlKind::Loop {
            copy_types(&self.param_types)
        } else {
            copy_types(&self.result_types)
        }
    }

    pub fn copy(&self) -> (f: ExecControlFrame)
        ensures
            f.view() == self.view(),
    {
        ExecControlFrame {
            kind: self.kind,
            body_pc: self.body_pc,
            end_pc: self.end_pc,
            stack_height: self.stack_height,
            param_types: copy_types(&self.param_types),
            result_types: copy_types(&self.result_types),
        }
    }
}

pub open spec fn label_types_of(f: FrameView) -> Seq<ValueType> {
    if f.kind == ControlKind::Loop { f.params } else { f.results }
}

pub open spec fn frames_view(c: Seq<ExecControlFrame>) -> Seq<FrameView> {
    Seq::new(c.len(), |i: int| c[i].view())
}

/// The stack height at which a structured instruction with parameters `params` starts:
/// its parameters must be on top of the stack.
pub open spec fn spec_entry_height(stack: Seq<Value>, params: Seq<ValueType>) -> Result<usize, RuntimeError> {
    if stack.len() < params.len() {
        Err(RuntimeError::StackUnderflow)
    } else {
        match spec_validate(params, stack.subrange(stack.len() - params.len(), stack.len() as int)) {
            Err(e) => Err(e),
            Ok(_) => Ok((stack.len() - params.len()) as usize),
        }
    }
}

pub fn control_entry_height(stack: &[Value], params: &[ValueType]) -> (r: Result<usize, RuntimeError>)
    ensures
        r == spec_entry_height(stack@, params@),
{
    if stack.len() < params.len() {
        return Err(RuntimeError::StackUnderflow);
    }
    let height = stack.len() - params.len();
    let top = slice_from(stack, height);
    validate_values(params, top)?;
    Ok(height)
}

/// The values from position `start` to the end.
pub fn slice_from(stack: &[Value], start: usize) -> (t: &[Value])
    requires
        start <= stack@.len(),
    ensures
        t@ == stack@.subrange(start as int, stack@.len() as int),
{
    &stack[start..stack.len()]
}

/// The kind and signature recorded for an opener agree with the instruction read now.
pub fn ensure_control_info(info: &ControlInfo, kind: ControlKind, signature: &BlockSignature) -> (r: Result<
    (),
    RuntimeError,
>)
    ensures
        r is Ok <==> info.kind == kind && info.signature.params@ == signature.params@
            && info.signature.results@ == signature.results@,
        r is Err ==> r == Err::<(), RuntimeError>(
            RuntimeError::ControlInvariant("control metadata disagrees with instruction stream"),
        ),
{
    if info.kind != kind || !same_types(&info.signature.params, &signature.params) || !same_types(
        &info.signature.results,
        &signature.results,
    ) {
        return Err(RuntimeError::ControlInvariant("control metadata disagrees with instruction stream"));
    }
    Ok(())
}

/// Leaving the innermost frame: the stack must hold exactly the frame's results above
/// its base height.
pub open spec fn spec_exit(controls: Seq<FrameView>, stack: Seq<Value>) -> Result<Seq<FrameView>, RuntimeError> {
    if controls.len() == 0 {
        Err(RuntimeError::ControlInvariant("attempted to leave missing control frame"))
    } else {
        let f = controls.last();
        let expected = f.stack_height + f.results.len();
        if stack.len() != expected {
            Err(
                RuntimeError::ControlStackMismatch {
                    expected: if expected <= usize::MAX { expected as usize } else { usize::MAX },
                    actual: stack.len() as usize,
                },
            )
        } else {
            match spec_validate(f.results, stack.subrange(f.stack_height as int, stack.len() as int)) {
                Err(e) => Err(e),
                Ok(_) => Ok(controls.drop_last()),
            }
        }
    }
}

/// Pops the innermost frame after checking its results.
pub fn exit_control_frame(controls: &mut Vec<ExecControlFrame>, stack: &[Value]) -> (r: Result<(), RuntimeError>)
    ensures
        match spec_exit(frames_view(old(controls)@), stack@) {
            Ok(c) => r is Ok && frames_view(final(controls)@) == c,
            Err(e) => r == Err::<(), RuntimeError>(e),
        },
{
    let ghost before = frames_view(controls@);
    let frame = match controls.pop() {
        Some(f) => f,
        None => return Err(RuntimeError::ControlInvariant("attempted to leave missing control frame")),
    };
    assert(frame.view() == before.last());
    assert(frames_view(controls@) =~= before.drop_last());
    let wide: u128 = frame.stack_height as u128 + frame.result_types.len() as u128;
    if stack.len() as u128 != wide {
        let expected = if wide <= usize::MAX as u128 { wide as usize } else { usize::MAX };
        return Err(RuntimeError::ControlStackMismatch { expected, actual: stack.len() });
    }
    validate_values(&frame.result_types, slice_from(stack, frame.stack_height))?;
    Ok(())
}

/// A copy of the values from position `start` on.
pub fn copy_values_from(stack: &[Value], start: usize) -> (v: Vec<Value>)
    requires
        start <= stack@.len(),
    ensures
        v@ == stack@.subrange(start as int, stack@.len() as int),
{
    let mut v: Vec<Value> = Vec::new();
    let mut i = start;
    while i < stack.len()
        invariant
            start <= i <= stack@.len(),
            v@ == stack@.subrange(start as int, i as int),
        decreases stack@.len() - i,
    {
        v.push(stack[i]);
        i = i + 1;
        assert(v@ =~= stack@.subrange(start as int, i as int));
    }
    v
}

/// A branch to the frame `depth` levels out: the label's values move from the top of the
/// stack down to the target's base height; a loop is re-entered at its body, any other
/// frame is left after its `end`, and leaving the function frame ends the body.
pub open spec fn spec_branch(controls: Seq<FrameView>, stack: Seq<Value>, depth: u32, code_len: nat) -> Result<
    (Seq<FrameView>, Seq<Value>, nat),
    RuntimeError,
> {
    if depth >= controls.len() {
        Err(RuntimeError::BranchDepthOutOfBounds(depth))
    } else {
        let ti = controls.len() - 1 - depth;
        let target = controls[ti];
        let label = label_types_of(target);
        let current = controls.last().stack_height;
        let available = if stack.len() >= current { stack.len() - current } else { 0 };
        if available < label.len() {
            Err(RuntimeError::StackUnderflow)
        } else {
            let vals = stack.subrange(stack.len() - label.len(), stack.len() as int);
            match spec_validate(label, vals) {
                Err(e) => Err(e),
                Ok(_) => {
                    let base = if target.stack_height <= stack.len() {
                        stack.subrange(0, target.stack_height as int)
                    } else {
                        stack
                    };
                    let new_stack = base + vals;
                    match target.kind {
                        ControlKind::Loop => Ok((controls.subrange(0, ti + 1), new_stack, target.body_pc)),
                        ControlKind::Function => Ok((Seq::empty(), new_stack, code_len)),
                        _ => Ok((controls.subrange(0, ti), new_stack, target.end_pc + 1)),
                    }
                },
            }
        }
    }
}

pub fn branch_to(
    controls: &mut Vec<ExecControlFrame>,
    stack: &mut Vec<Value>,
    depth: u32,
    pc: &mut usize,
    code_len: usize,
) -> (r: Result<(), RuntimeError>)
    requires
        forall|i: int| 0 <= i < old(controls)@.len() ==> #[trigger] old(controls)@[i].end_pc < code_len,
    ensures
        match spec_branch(frames_view(old(controls)@), old(stack)@, depth, code_len as nat) {
            Ok((c, s, p)) => r is Ok && frames_view(final(controls)@) == c && final(stack)@ == s && *final(pc) == p,
            Err(e) => r == Err::<(), RuntimeError>(e) && final(controls)@ == old(controls)@ && final(stack)@
                == old(stack)@ && *final(pc) == *old(pc),
        },
        forall|i: int| 0 <= i < final(controls)@.len() ==> #[trigger] final(controls)@[i] == old(controls)@[i],
        final(controls)@.len() <= old(controls)@.len(),
{
    let ghost fv = frames_view(controls@);
    if depth as usize >= controls.len() {
        return Err(RuntimeError::BranchDepthOutOfBounds(depth));
    }
    let target_index = controls.len() - 1 - depth as usize;
    let target = controls[target_index].copy();
    let label_types = target.label_types();
    let label_arity = label_types.len();
    let current_height = controls[controls.len() - 1].stack_height;
    let available = if stack.len() >= current_height { stack.len() - current_height } else { 0 };
    if available < label_arity {
        return Err(RuntimeError::StackUnderflow);
    }
    let mut label_values = copy_values_from(stack, stack.len() - label_arity);
    validate_values(&label_types, &label_values)?;
    stack.truncate(target.stack_height);
    stack.append(&mut label_values);
    match target.kind {
        ControlKind::Loop => {
            controls.truncate(target_index + 1);
            *pc = target.body_pc;
            assert(frames_view(controls@) =~= fv.subrange(0, target_index + 1));
        },
        ControlKind::Function => {
            controls.clear();
            *pc = code_len;
            assert(frames_view(controls@) =~= Seq::<FrameView>::empty());
        },
        _ => {
            controls.truncate(target_index);
            *pc = target.end_pc + 1;
            assert(frames_view(controls@) =~= fv.subrange(0, target_index as int));
        },
    }
    Ok(())
}

/// What remains of the per-invocation allowances: instructions (when limited) and host
/// calls made so far.
#[derive(Debug, Clone, Copy, PartialEq, Eq, Structural)]
pub struct ExecutionBudget {
    pub fuel_remaining: Option<u64>,
    pub host_calls: u64,
}

impl ExecutionBudget {
    pub fn new(limits: RuntimeLimits) -> (b: ExecutionBudget)
        ensures
            b == (ExecutionBudget { fuel_remaining: limits.fuel, host_calls: 0 }),
    {
        ExecutionBudget { fuel_remaining: limits.fuel, host_calls: 0 }
    }

    /// Pays for one instruction: with a limit, an empty budget traps and a non-empty one
    /// loses one unit; without one, nothing changes.
    pub fn consume_instruction(&mut self) -> (r: Result<(), RuntimeError>)
        ensures
            final(self).host_calls == old(self).host_calls,
            match old(self).fuel_remaining {
                None => r is Ok && final(self).fuel_remaining is None,
                Some(n) => if n == 0 {
                    r == Err::<(), RuntimeError>(RuntimeError::FuelExhausted) && *final(self) == *old(self)
                } else {
                    r is Ok && final(self).fuel_remaining == Some((n - 1) as u64)
                },
            },
    {
        if let Some(remaining) = self.fuel_remaining {
            if remaining == 0 {
                return Err(RuntimeError::FuelExhausted);
            }
            self.fuel_remaining = Some(remaining - 1);
        }
        Ok(())
    }

    /// Pays for one host call against `limit`, if there is one.
    pub fn consume_host_call(&mut self, limit: Option<u64>) -> (r: Result<(), RuntimeError>)
        ensures
            final(self).fuel_remaining == old(self).fuel_remaining,
            (limit matches Some(l) && old(self).host_calls >= l) ==> r == Err::<(), RuntimeError>(
                RuntimeError::HostCallLimitExceeded { limit: limit->Some_0 },
            ) && *final(self) == *old(self),
            !(limit matches Some(l) && old(self).host_calls >= l) ==> r is Ok && final(self).host_calls == if old(
                self,
            ).host_calls == u64::MAX {
                u64::MAX
            } else {
                (old(self).host_calls + 1) as u64
            },
    {
        if let Some(l) = limit {
            if self.host_calls >= l {
                return Err(RuntimeError::HostCallLimitExceeded { limit: l });
            }
        }
        self.host_calls = self.host_calls.saturating_add(1);
        Ok(())
    }
}

} // verus!
