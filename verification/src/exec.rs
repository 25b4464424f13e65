//! The instruction groups of the interpreter, each on one activation.
use vstd::prelude::*;
use crate::control::{
    ControlKind, ControlMap, InfoView, map_wf, closed_info, openers_view, read_block_signature, read_fixed_u32,
    spec_block_signature,
    read_fixed_u64, read_i32_immediate, read_i64_immediate, read_memarg, read_u32_immediate,
};
use crate::frames::{
    ExecControlFrame, FrameView, branch_to, control_entry_height, ensure_control_info, exit_control_frame, frames_view,
    spec_branch, spec_entry_height, spec_exit,
};
use crate::host::{FunctionRef, GlobalHandle, TableHandle};
use crate::interp::{Activation, act_ok, frame_ok};
use crate::memory::{
    LinearMemory, WASM_PAGE_SIZE, law_load_after_store, le, lemma_pow256_facts, pow256, sext, spec_access_range, spec_load,
    spec_store, zeros,
};
use crate::numeric::{
    lemma_cast32, lemma_cast64, lemma_wrap32_of_unsigned, lemma_wrap64_of_unsigned, unsigned32, unsigned64, wrap32,
    wrap64,
};
use crate::runtime_error::RuntimeError;
use crate::grammar::spec_global_type;
use crate::types::{Module, ValueType};
use crate::value::{Value, expect_type, i32_from_stack, pop_typed, spec_expect_type, spec_pop_typed};
use crate::control::{
    read_bulk_immediates, read_ref_type, read_segment_immediates, spec_bulk_immediates, spec_ref_type,
    spec_segment_immediates, spec_fixed, spec_i32_imm, spec_i64_imm, spec_memarg, spec_u32_imm,
};
use crate::memory::{spec_copy, spec_fill};

verus! {

/// What an instruction may not change in its activation.
pub open spec fn same_shape(a: Activation, b: Activation) -> bool {
    &&& b.defined == a.defined
    &&& b.depth == a.depth
    &&& b.local_types == a.local_types
    &&& b.result_types == a.result_types
}

/// What `block` (0x02), `loop` (0x03) or `if` (0x04) at `offset`, its block type starting
/// at `pc`, makes of the frames and the operand stack and where it goes, by the boundaries
/// recorded for it in `openers`: it enters its frame, or, for an `if` whose condition is
/// false, enters it at its `else` or goes past its `end`; or the trap.
pub open spec fn structured_effect(
    module: Module,
    openers: Seq<Option<InfoView>>,
    code: Seq<u8>,
    opcode: u8,
    offset: int,
    pc: int,
    controls: Seq<FrameView>,
    stack: Seq<Value>,
) -> Result<(Seq<FrameView>, Seq<Value>, int), RuntimeError> {
    match spec_block_signature(module, code, pc) {
        Err(e) => Err(e),
        Ok(((params, results), p)) => {
            let (condition, s1) = if opcode == 0x04 {
                spec_pop_typed(stack, ValueType::I32)
            } else {
                (Ok(Value::I32(1)), stack)
            };
            match condition {
                Err(e) => Err(e),
                Ok(condition) => if !(0 <= offset < openers.len() && openers[offset] is Some) {
                    Err(RuntimeError::ControlInvariant("structured-control opener has no boundary metadata"))
                } else {
                    let info = openers[offset]->Some_0;
                    let kind = if opcode == 0x02 {
                        ControlKind::Block
                    } else if opcode == 0x03 {
                        ControlKind::Loop
                    } else {
                        ControlKind::If
                    };
                    if !(info.kind == kind && info.params == params && info.results == results) {
                        Err(RuntimeError::ControlInvariant("control metadata disagrees with instruction stream"))
                    } else {
                        match spec_entry_height(s1, params) {
                            Err(e) => Err(e),
                            Ok(height) => {
                                let frame = FrameView {
                                    kind,
                                    body_pc: info.body_pc,
                                    end_pc: info.end_pc,
                                    stack_height: height as nat,
                                    params,
                                    results,
                                };
                                if condition->I32_0 != 0 {
                                    Ok((controls.push(frame), s1, p))
                                } else {
                                    match info.else_pc {
                                        Some(e) => Ok((controls.push(frame), s1, (e + 1) as int)),
                                        None => Ok((controls, s1.subrange(0, height as int), (info.end_pc + 1) as int)),
                                    }
                                }
                            },
                        }
                    }
                },
            }
        },
    }
}

/// Runs `block` (0x02), `loop` (0x03) or `if` (0x04) at `offset`: checks the recorded
/// boundaries against the block type just read and enters the frame, or, for an `if` whose
/// condition is false, goes to its `else` or past its `end`.
pub fn exec_structured(
    module: &Module,
    map: &ControlMap,
    code: &[u8],
    a: &mut Activation,
    opcode: u8,
    offset: usize,
) -> (r: Result<(), RuntimeError>)
    requires
        map_wf(code@, map.view()),
        act_ok(code@, *old(a)),
        offset < code@.len(),
        old(a).pc == offset + 1,
        opcode == 0x02 || opcode == 0x03 || opcode == 0x04,
    ensures
        r is Ok ==> act_ok(code@, *final(a)) && same_shape(*old(a), *final(a)) && final(a).locals == old(a).locals,
        match structured_effect(
            *module,
            openers_view(map.openers@),
            code@,
            opcode,
            offset as int,
            old(a).pc as int,
            frames_view(old(a).controls@),
            old(a).stack@,
        ) {
            Ok((c, st, p)) => r is Ok && frames_view(final(a).controls@) == c && final(a).stack@ == st
                && final(a).pc == p,
            Err(e) => r == Err::<(), RuntimeError>(e),
        },
{
    let code_len = code.len();
    let signature = read_block_signature(module, code, &mut a.pc)?;
    let condition: i32 = if opcode == 0x04 {
        i32_from_stack(&mut a.stack)?
    } else {
        1
    };
    let info = map.info(offset)?;
    proof {
        let v = openers_view(map.openers@);
        assert(v[offset as int] == Some(map.openers@[offset as int]->Some_0.view_at(offset as nat)));
        assert(closed_info(code@, info.view_at(offset as nat)));
    }
    let kind = if opcode == 0x02 {
        ControlKind::Block
    } else if opcode == 0x03 {
        ControlKind::Loop
    } else {
        ControlKind::If
    };
    ensure_control_info(&info, kind, &signature)?;
    let stack_height = control_entry_height(&a.stack, &signature.params)?;
    let frame = ExecControlFrame {
        kind,
        body_pc: info.body_pc,
        end_pc: info.end_pc,
        stack_height,
        param_types: signature.params,
        result_types: signature.results,
    };
    let ghost before = a.controls@;
    if condition != 0 {
        a.controls.push(frame);
    } else if let Some(else_pc) = info.else_pc {
        a.controls.push(frame);
        a.pc = else_pc + 1;
    } else {
        a.stack.truncate(frame.stack_height);
        a.pc = info.end_pc + 1;
    }
    proof {
        assert forall|i: int| 0 <= i < a.controls@.len() implies #[trigger] frame_ok(
            code@,
            frames_view(a.controls@)[i],
        ) by {
            if i < before.len() {
                assert(frames_view(a.controls@)[i] == frames_view(before)[i]);
            }
        }
    }
    Ok(())
}

/// What `else` (0x05) or `end` (0x0b) at `offset` makes of the frames, where it goes and
/// whether it ended the function's own frame; or the trap. `pc` is the position after it.
pub open spec fn else_end_effect(opcode: u8, offset: int, pc: int, controls: Seq<FrameView>, stack: Seq<Value>) -> Result<
    (Seq<FrameView>, int, bool),
    RuntimeError,
> {
    if controls.len() == 0 {
        Err(
            RuntimeError::ControlInvariant(
                if opcode == 0x05 {
                    "else encountered without active control frame"
                } else {
                    "end encountered without active control frame"
                },
            ),
        )
    } else {
        let f = controls.last();
        if opcode == 0x05 && f.kind != ControlKind::If {
            Err(RuntimeError::ControlInvariant("else encountered outside active if"))
        } else if opcode != 0x05 && f.end_pc != offset {
            Err(RuntimeError::ControlInvariant("end offset does not match active control frame"))
        } else {
            match spec_exit(controls, stack) {
                Err(e) => Err(e),
                Ok(c) => if opcode == 0x05 {
                    Ok((c, (f.end_pc + 1) as int, false))
                } else {
                    Ok((c, pc, f.kind == ControlKind::Function))
                },
            }
        }
    }
}

/// Runs `else` (0x05) or `end` (0x0b) at `offset`, leaving the innermost frame; answers
/// whether that frame was the function's own.
pub fn exec_else_end(code: &[u8], a: &mut Activation, opcode: u8, offset: usize) -> (r: Result<bool, RuntimeError>)
    requires
        act_ok(code@, *old(a)),
        offset < code@.len(),
        old(a).pc == offset + 1,
        opcode == 0x05 || opcode == 0x0b,
    ensures
        r is Ok ==> act_ok(code@, *final(a)) && same_shape(*old(a), *final(a)) && final(a).locals == old(a).locals
            && final(a).stack == old(a).stack,
        match else_end_effect(opcode, offset as int, old(a).pc as int, frames_view(old(a).controls@), old(a).stack@) {
            Ok((c, p, ended)) => r == Ok::<bool, RuntimeError>(ended) && frames_view(final(a).controls@) == c
                && final(a).pc == p,
            Err(e) => r == Err::<bool, RuntimeError>(e),
        },
{
    let code_len = code.len();
    let last = a.controls.len();
    if last == 0 {
        return Err(RuntimeError::ControlInvariant(
            if opcode == 0x05 {
                "else encountered without active control frame"
            } else {
                "end encountered without active control frame"
            },
        ));
    }
    let kind = a.controls[last - 1].kind;
    let end_pc = a.controls[last - 1].end_pc;
    proof {
        assert(frame_ok(code@, frames_view(a.controls@)[last - 1]));
    }
    if opcode == 0x05 {
        if kind != ControlKind::If {
            return Err(RuntimeError::ControlInvariant("else encountered outside active if"));
        }
    } else if end_pc != offset {
        return Err(RuntimeError::ControlInvariant("end offset does not match active control frame"));
    }
    let ghost before = a.controls@;
    exit_control_frame(&mut a.controls, a.stack.as_slice())?;
    proof {
        assert(frames_view(a.controls@) =~= frames_view(before).drop_last());
        assert forall|i: int| 0 <= i < a.controls@.len() implies #[trigger] frame_ok(
            code@,
            frames_view(a.controls@)[i],
        ) by {
            assert(frames_view(a.controls@)[i] == frames_view(before)[i]);
        }
    }
    if opcode == 0x05 {
        a.pc = end_pc + 1;
        Ok(false)
    } else {
        Ok(kind == ControlKind::Function)
    }
}

/// A branch to the frame `depth` levels out, its position as an integer.
pub open spec fn take_branch(controls: Seq<FrameView>, stack: Seq<Value>, depth: u32, code_len: nat) -> Result<
    (Seq<FrameView>, Seq<Value>, int),
    RuntimeError,
> {
    match spec_branch(controls, stack, depth, code_len) {
        Err(e) => Err(e),
        Ok((c, s, p)) => Ok((c, s, p as int)),
    }
}

/// The depth that a `br_table` whose targets from the `i`-th on are listed from `pc` picks
/// for `selector`, `chosen` being what the targets before picked: the listed depth at
/// position `selector`, else the default listed last; and the position after the default.
pub open spec fn table_target(code: Seq<u8>, pc: int, count: nat, selector: u32, i: nat, chosen: Option<u32>) -> Result<
    (u32, int),
    RuntimeError,
>
    decreases count - i,
{
    match spec_u32_imm(code, pc) {
        Err(e) => Err(e),
        Ok((d, p)) => if i >= count {
            Ok((
                match chosen {
                    Some(c) => c,
                    None => d,
                },
                p,
            ))
        } else {
            table_target(code, p, count, selector, i + 1, if i == selector { Some(d) } else { chosen })
        },
    }
}

/// What `br` (0x0c), `br_if` (0x0d), `br_table` (0x0e) or `return` (0x0f), its immediates
/// starting at `pc`, makes of the frames and the operand stack, and where it goes; or the
/// trap.
pub open spec fn branch_effect(code: Seq<u8>, opcode: u8, pc: int, controls: Seq<FrameView>, stack: Seq<Value>) -> Result<
    (Seq<FrameView>, Seq<Value>, int),
    RuntimeError,
> {
    if opcode == 0x0f {
        if controls.len() == 0 {
            Err(RuntimeError::ControlInvariant("return executed without function frame"))
        } else {
            take_branch(controls, stack, (controls.len() - 1) as u32, code.len())
        }
    } else {
        match spec_u32_imm(code, pc) {
            Err(e) => Err(e),
            Ok((n, p)) => if opcode == 0x0c {
                take_branch(controls, stack, n, code.len())
            } else {
                let (operand, s1) = spec_pop_typed(stack, ValueType::I32);
                match operand {
                    Err(e) => Err(e),
                    Ok(operand) => if opcode == 0x0d {
                        if operand->I32_0 == 0 {
                            Ok((controls, s1, p))
                        } else {
                            take_branch(controls, s1, n, code.len())
                        }
                    } else {
                        match table_target(code, p, n as nat, operand->I32_0 as u32, 0, None) {
                            Err(e) => Err(e),
                            Ok((d, _)) => take_branch(controls, s1, d, code.len()),
                        }
                    },
                }
            },
        }
    }
}

/// Runs `br` (0x0c), `br_if` (0x0d), `br_table` (0x0e) or `return` (0x0f).
pub fn exec_branch(code: &[u8], a: &mut Activation, opcode: u8) -> (r: Result<(), RuntimeError>)
    requires
        act_ok(code@, *old(a)),
        opcode == 0x0c || opcode == 0x0d || opcode == 0x0e || opcode == 0x0f,
    ensures
        r is Ok ==> act_ok(code@, *final(a)) && same_shape(*old(a), *final(a)) && final(a).locals == old(a).locals,
        match branch_effect(code@, opcode, old(a).pc as int, frames_view(old(a).controls@), old(a).stack@) {
            Ok((c, st, p)) => r is Ok && frames_view(final(a).controls@) == c && final(a).stack@ == st
                && final(a).pc == p,
            Err(e) => r == Err::<(), RuntimeError>(e),
        },
{
    let code_len = code.len();
    proof {
        assert forall|i: int| 0 <= i < a.controls@.len() implies #[trigger] a.controls@[i].end_pc < code@.len() by {
            assert(frame_ok(code@, frames_view(a.controls@)[i]));
        }
    }
    let branch_depth: u32 = if opcode == 0x0c {
        read_u32_immediate(code, &mut a.pc)?
    } else if opcode == 0x0d {
        let depth = read_u32_immediate(code, &mut a.pc)?;
        let condition = i32_from_stack(&mut a.stack)?;
        if condition == 0 {
            return Ok(());
        }
        depth
    } else if opcode == 0x0e {
        let target_count = read_u32_immediate(code, &mut a.pc)?;
        let selector = i32_from_stack(&mut a.stack)? as u32;
        let ghost list_pc = a.pc as int;
        let ghost popped = a.stack@;
        let mut selected: Option<u32> = None;
        let mut target_index: u32 = 0;
        while target_index < target_count
            invariant
                a.pc <= code@.len(),
                table_target(code@, list_pc, target_count as nat, selector, 0, None) == table_target(
                    code@,
                    a.pc as int,
                    target_count as nat,
                    selector,
                    target_index as nat,
                    selected,
                ),
                a.stack@ == popped,
                opcode == 0x0e,
                spec_u32_imm(code@, old(a).pc as int) == Ok::<(u32, int), RuntimeError>((target_count, list_pc)),
                spec_pop_typed(old(a).stack@, ValueType::I32).1 == popped,
                spec_pop_typed(old(a).stack@, ValueType::I32).0 matches Ok(v) && (v->I32_0 as u32) == selector,
                target_index <= target_count,
                a.controls == old(a).controls,
                a.locals == old(a).locals,
                same_shape(*old(a), *a),
                forall|i: int| 0 <= i < a.controls@.len() ==> #[trigger] a.controls@[i].end_pc < code@.len(),
            decreases target_count - target_index,
        {
            let ghost here = a.pc as int;
            let depth = match read_u32_immediate(code, &mut a.pc) {
                Ok(d) => d,
                Err(e) => {
                    assert(table_target(code@, here, target_count as nat, selector, target_index as nat, selected)
                        == Err::<(u32, int), RuntimeError>(e));
                    return Err(e);
                },
            };
            if target_index == selector {
                selected = Some(depth);
            }
            target_index = target_index + 1;
        }
        let default_depth = read_u32_immediate(code, &mut a.pc)?;
        match selected {
            Some(d) => d,
            None => default_depth,
        }
    } else {
        if a.controls.len() == 0 {
            return Err(RuntimeError::ControlInvariant("return executed without function frame"));
        }
        (a.controls.len() - 1) as u32
    };
    let ghost before = a.controls@;
    assert(a.controls == old(a).controls);
    branch_to(&mut a.controls, &mut a.stack, branch_depth, &mut a.pc, code.len())?;
    proof {
        let ti = before.len() - 1 - branch_depth;
        assert(frame_ok(code@, frames_view(before)[ti]));
        assert forall|i: int| 0 <= i < a.controls@.len() implies #[trigger] frame_ok(
            code@,
            frames_view(a.controls@)[i],
        ) by {
            assert(frames_view(a.controls@)[i] == frames_view(before)[i]);
        }
        assert(a.pc <= code@.len());
    }
    Ok(())
}

/// What `drop` (0x1a), `select` (0x1b), `local.get` (0x20), `local.set` (0x21) or
/// `local.tee` (0x22) make of an activation whose next immediate starts at `pc`: the
/// position after it, the locals and the operand stack; or the trap.
pub open spec fn variable_effect(
    code: Seq<u8>,
    opcode: u8,
    pc: int,
    locals: Seq<Value>,
    types: Seq<ValueType>,
    stack: Seq<Value>,
) -> Result<(int, Seq<Value>, Seq<Value>), RuntimeError> {
    if opcode == 0x1a {
        if stack.len() == 0 {
            Err(RuntimeError::StackUnderflow)
        } else {
            Ok((pc, locals, stack.drop_last()))
        }
    } else if opcode == 0x1b {
        let (condition, s1) = spec_pop_typed(stack, ValueType::I32);
        match condition {
            Err(e) => Err(e),
            Ok(c) => if s1.len() < 2 {
                Err(RuntimeError::StackUnderflow)
            } else {
                let second = s1.last();
                let first = s1.drop_last().last();
                if second.spec_value_type() != first.spec_value_type() {
                    Err(RuntimeError::ValueTypeMismatch {
                        expected: first.spec_value_type(),
                        actual: second.spec_value_type(),
                    })
                } else {
                    Ok((pc, locals, s1.drop_last().drop_last().push(if c->I32_0 != 0 { first } else { second })))
                }
            },
        }
    } else {
        match spec_u32_imm(code, pc) {
            Err(e) => Err(e),
            Ok((index, p)) => if index >= types.len() {
                Err(RuntimeError::LocalOutOfBounds(index))
            } else if opcode == 0x20 {
                Ok((p, locals, stack.push(locals[index as int])))
            } else if opcode == 0x21 {
                let (v, s1) = spec_pop_typed(stack, types[index as int]);
                match v {
                    Err(e) => Err(e),
                    Ok(v) => Ok((p, locals.update(index as int, v), s1)),
                }
            } else if stack.len() == 0 {
                Err(RuntimeError::StackUnderflow)
            } else {
                match spec_expect_type(stack.last(), types[index as int]) {
                    Err(e) => Err(e),
                    Ok(v) => Ok((p, locals.update(index as int, v), stack)),
                }
            },
        }
    }
}

/// Runs `drop` (0x1a), `select` (0x1b), `local.get` (0x20), `local.set` (0x21) or
/// `local.tee` (0x22).
pub fn exec_variable(code: &[u8], a: &mut Activation, opcode: u8) -> (r: Result<(), RuntimeError>)
    requires
        act_ok(code@, *old(a)),
        opcode == 0x1a || opcode == 0x1b || opcode == 0x20 || opcode == 0x21 || opcode == 0x22,
    ensures
        r is Ok ==> act_ok(code@, *final(a)) && same_shape(*old(a), *final(a)) && final(a).controls == old(
            a,
        ).controls,
        match variable_effect(code@, opcode, old(a).pc as int, old(a).locals@, old(a).local_types@, old(a).stack@) {
            Ok((p, l, s)) => r is Ok && final(a).pc == p && final(a).locals@ == l && final(a).stack@ == s,
            Err(e) => r == Err::<(), RuntimeError>(e),
        },
{
    if opcode == 0x1a {
        match a.stack.pop() {
            Some(_) => Ok(()),
            None => Err(RuntimeError::StackUnderflow),
        }
    } else if opcode == 0x1b {
        let condition = i32_from_stack(&mut a.stack)?;
        let second = match a.stack.pop() {
            Some(v) => v,
            None => return Err(RuntimeError::StackUnderflow),
        };
        let first = match a.stack.pop() {
            Some(v) => v,
            None => return Err(RuntimeError::StackUnderflow),
        };
        let expected = first.value_type();
        let actual = second.value_type();
        if actual != expected {
            return Err(RuntimeError::ValueTypeMismatch { expected, actual });
        }
        a.stack.push(if condition != 0 { first } else { second });
        Ok(())
    } else {
        let index = read_u32_immediate(code, &mut a.pc)?;
        let i = index as usize;
        if i >= a.local_types.len() {
            return Err(RuntimeError::LocalOutOfBounds(index));
        }
        if opcode == 0x20 {
            let value = a.locals[i];
            a.stack.push(value);
            Ok(())
        } else if opcode == 0x21 {
            let expected = a.local_types[i];
            let value = pop_typed(&mut a.stack, expected)?;
            a.locals.set(i, value);
            Ok(())
        } else {
            let expected = a.local_types[i];
            let value = match a.stack.last() {
                Some(v) => *v,
                None => return Err(RuntimeError::StackUnderflow),
            };
            expect_type(value, expected)?;
            a.locals.set(i, value);
            Ok(())
        }
    }
}

/// What `global.get` (0x23) or `global.set` (0x24) does, its index starting at `pc`: the
/// position after the index, the operand stack, and the global written with its new value,
/// if any; or the trap.
pub open spec fn global_effect(
    module: Module,
    globals: Seq<GlobalHandle>,
    code: Seq<u8>,
    opcode: u8,
    pc: int,
    stack: Seq<Value>,
) -> Result<(int, Seq<Value>, Option<(int, Value)>), RuntimeError> {
    match spec_u32_imm(code, pc) {
        Err(e) => Err(e),
        Ok((index, p)) => if opcode == 0x23 {
            if index >= globals.len() {
                Err(RuntimeError::GlobalOutOfBounds(index))
            } else {
                Ok((p, stack.push(globals[index as int].spec_value()), None))
            }
        } else {
            match spec_global_type(module@, index as int) {
                None => Err(RuntimeError::GlobalOutOfBounds(index)),
                Some(t) => if !t.mutable {
                    Err(RuntimeError::ImmutableGlobalSet(index))
                } else {
                    let (v, s1) = spec_pop_typed(stack, t.value_type);
                    match v {
                        Err(e) => Err(e),
                        Ok(v) => if index >= globals.len() {
                            Err(RuntimeError::GlobalOutOfBounds(index))
                        } else if !globals[index as int].spec_mutable() {
                            Err(RuntimeError::ImmutableGlobalSet(index))
                        } else if v.spec_value_type() != globals[index as int].spec_type() {
                            Err(RuntimeError::ValueTypeMismatch {
                                expected: globals[index as int].spec_type(),
                                actual: v.spec_value_type(),
                            })
                        } else {
                            Ok((p, s1, Some((index as int, v))))
                        },
                    }
                },
            }
        },
    }
}

/// Runs `global.get` (0x23) or `global.set` (0x24).
pub fn exec_global(module: &Module, globals: &mut Vec<GlobalHandle>, code: &[u8], a: &mut Activation, opcode: u8) -> (r: Result<
    (),
    RuntimeError,
>)
    requires
        act_ok(code@, *old(a)),
        opcode == 0x23 || opcode == 0x24,
        forall|i: int| 0 <= i < old(globals)@.len() ==> (#[trigger] old(globals)@[i]).wf(),
    ensures
        r is Ok ==> act_ok(code@, *final(a)) && same_shape(*old(a), *final(a)) && final(a).controls == old(
            a,
        ).controls && final(a).locals == old(a).locals,
        final(globals)@.len() == old(globals)@.len(),
        forall|i: int| 0 <= i < final(globals)@.len() ==> (#[trigger] final(globals)@[i]).wf(),
        match global_effect(*module, old(globals)@, code@, opcode, old(a).pc as int, old(a).stack@) {
            Ok((p, s, w)) => r is Ok && final(a).pc == p && final(a).stack@ == s && match w {
                None => final(globals)@ == old(globals)@,
                Some((i, v)) => {
                    &&& forall|j: int| 0 <= j < old(globals)@.len() && j != i ==> #[trigger] final(globals)@[j]
                        == old(globals)@[j]
                    &&& final(globals)@[i].spec_value() == v
                    &&& final(globals)@[i].spec_type() == old(globals)@[i].spec_type()
                    &&& final(globals)@[i].spec_mutable() == old(globals)@[i].spec_mutable()
                },
            },
            Err(e) => r == Err::<(), RuntimeError>(e),
        },
{
    let index = read_u32_immediate(code, &mut a.pc)?;
    let i = index as usize;
    if opcode == 0x23 {
        if i >= globals.len() {
            return Err(RuntimeError::GlobalOutOfBounds(index));
        }
        let value = globals[i].get();
        a.stack.push(value);
        return Ok(());
    }
    let global_type = match module.global_type(index) {
        Some(t) => t,
        None => return Err(RuntimeError::GlobalOutOfBounds(index)),
    };
    if !global_type.mutable {
        return Err(RuntimeError::ImmutableGlobalSet(index));
    }
    let value = pop_typed(&mut a.stack, global_type.value_type)?;
    if i >= globals.len() {
        return Err(RuntimeError::GlobalOutOfBounds(index));
    }
    let ghost before = globals@;
    let result = globals[i].set(value);
    proof {
        assert(before[i as int].wf());
        assert forall|j: int| 0 <= j < globals@.len() implies (#[trigger] globals@[j]).wf() by {
            if j != i {
                assert(globals@[j] == before[j]);
            }
        }
    }
    match result {
        Ok(()) => Ok(()),
        Err(crate::host::GlobalHandleError::Immutable) => Err(RuntimeError::ImmutableGlobalSet(index)),
        Err(crate::host::GlobalHandleError::TypeMismatch { expected, actual }) => Err(
            RuntimeError::ValueTypeMismatch { expected, actual },
        ),
    }
}

/// What a constant instruction makes of an operand stack, its immediate starting at `pc`:
/// the position after the immediate and the stack with the constant pushed; or the trap.
/// Floating-point constants keep their bits.
pub open spec fn const_effect(code: Seq<u8>, opcode: u8, pc: int, stack: Seq<Value>) -> Result<
    (int, Seq<Value>),
    RuntimeError,
> {
    if opcode == 0x41 {
        match spec_i32_imm(code, pc) {
            Ok((v, p)) => Ok((p, stack.push(Value::I32(v)))),
            Err(e) => Err(e),
        }
    } else if opcode == 0x42 {
        match spec_i64_imm(code, pc) {
            Ok((v, p)) => Ok((p, stack.push(Value::I64(v)))),
            Err(e) => Err(e),
        }
    } else if opcode == 0x43 {
        match spec_fixed(code, pc, 4, "truncated f32 immediate") {
            Ok((v, p)) => Ok((p, stack.push(Value::F32(v as u32)))),
            Err(e) => Err(e),
        }
    } else {
        match spec_fixed(code, pc, 8, "truncated f64 immediate") {
            Ok((v, p)) => Ok((p, stack.push(Value::F64(v as u64)))),
            Err(e) => Err(e),
        }
    }
}

/// Runs the constants: `i32.const` (0x41), `i64.const` (0x42), `f32.const` (0x43) and
/// `f64.const` (0x44), whose bits are kept as they are.
pub fn exec_const(code: &[u8], a: &mut Activation, opcode: u8) -> (r: Result<(), RuntimeError>)
    requires
        act_ok(code@, *old(a)),
        0x41 <= opcode <= 0x44,
    ensures
        r is Ok ==> act_ok(code@, *final(a)) && same_shape(*old(a), *final(a)) && final(a).controls == old(
            a,
        ).controls && final(a).locals == old(a).locals,
        match const_effect(code@, opcode, old(a).pc as int, old(a).stack@) {
            Ok((p, s)) => r is Ok && final(a).pc == p && final(a).stack@ == s,
            Err(e) => r == Err::<(), RuntimeError>(e),
        },
{
    let value = if opcode == 0x41 {
        Value::I32(read_i32_immediate(code, &mut a.pc)?)
    } else if opcode == 0x42 {
        Value::I64(read_i64_immediate(code, &mut a.pc)?)
    } else if opcode == 0x43 {
        Value::F32(read_fixed_u32(code, &mut a.pc)?)
    } else {
        Value::F64(read_fixed_u64(code, &mut a.pc)?)
    };
    a.stack.push(value);
    Ok(())
}

/// The number of bytes a load (0x28..=0x35) reads.
pub open spec fn load_width(opcode: u8) -> usize {
    if opcode == 0x29 || opcode == 0x2b {
        8
    } else if opcode == 0x28 || opcode == 0x2a || opcode == 0x34 || opcode == 0x35 {
        4
    } else if opcode == 0x2e || opcode == 0x2f || opcode == 0x32 || opcode == 0x33 {
        2
    } else {
        1
    }
}

/// The value a load makes of the little-endian number `raw` it read: wrapped or
/// sign- or zero-extended to its type, or kept as the bits of a float.
pub open spec fn load_value(opcode: u8, raw: nat) -> Value {
    if opcode == 0x28 {
        Value::I32(wrap32(raw as int))
    } else if opcode == 0x29 {
        Value::I64(wrap64(raw as int))
    } else if opcode == 0x2a {
        Value::F32(raw as u32)
    } else if opcode == 0x2b {
        Value::F64(raw as u64)
    } else if opcode == 0x2c {
        Value::I32(sext(raw, 1) as i32)
    } else if opcode == 0x2d {
        Value::I32(raw as i32)
    } else if opcode == 0x2e {
        Value::I32(sext(raw, 2) as i32)
    } else if opcode == 0x2f {
        Value::I32(raw as i32)
    } else if opcode == 0x30 {
        Value::I64(sext(raw, 1) as i64)
    } else if opcode == 0x31 {
        Value::I64(raw as i64)
    } else if opcode == 0x32 {
        Value::I64(sext(raw, 2) as i64)
    } else if opcode == 0x33 {
        Value::I64(raw as i64)
    } else if opcode == 0x34 {
        Value::I64(sext(raw, 4) as i64)
    } else {
        Value::I64(raw as i64)
    }
}

/// The loads that read their bytes as a two's-complement number: the full-width integer
/// loads and the narrow loads with a signed suffix.
pub open spec fn sign_extending_load(opcode: u8) -> bool {
    opcode == 0x28 || opcode == 0x29 || opcode == 0x2c || opcode == 0x2e || opcode == 0x30 || opcode
        == 0x32 || opcode == 0x34
}

/// The integer a loaded integer value holds.
pub open spec fn integer_of(v: Value) -> int {
    match v {
        Value::I32(x) => x as int,
        Value::I64(x) => x as int,
        _ => 0,
    }
}

/// An integer load of `w` bytes keeps their little-endian number `raw` modulo `256^w` and
/// gives it the type the opcode names (`i32` for 0x28 and 0x2c..=0x2f, `i64` for the
/// others): a signed load gives the one value in `-256^w/2 .. 256^w/2` congruent to `raw`
/// (negative exactly when the top byte's high bit is set), an unsigned load gives `raw`
/// itself. A float load keeps the bits.
pub proof fn law_load_extends(opcode: u8, raw: nat)
    requires
        0x28 <= opcode <= 0x35,
        raw < pow256(load_width(opcode) as nat),
    ensures
        ({
            let w = pow256(load_width(opcode) as nat);
            let v = load_value(opcode, raw);
            &&& opcode == 0x2a ==> v == Value::F32(raw as u32) && raw < 0x1_0000_0000
            &&& opcode == 0x2b ==> v == Value::F64(raw as u64) && raw < 0x1_0000_0000_0000_0000
            &&& (opcode == 0x28 || 0x2c <= opcode <= 0x2f) ==> v is I32
            &&& (opcode == 0x29 || 0x30 <= opcode <= 0x35) ==> v is I64
            &&& opcode != 0x2a && opcode != 0x2b ==> {
                &&& integer_of(v) == raw || integer_of(v) == raw - w
                &&& sign_extending_load(opcode) ==> -(w / 2) <= integer_of(v) < w / 2
                &&& sign_extending_load(opcode) ==> (integer_of(v) < 0 <==> raw >= w / 2)
                &&& !sign_extending_load(opcode) ==> integer_of(v) == raw
            }
        }),
{
    lemma_pow256_facts();
}

/// The number of bytes a store (0x36..=0x3e) writes.
pub open spec fn store_width(opcode: u8) -> usize {
    if opcode == 0x37 || opcode == 0x39 {
        8
    } else if opcode == 0x36 || opcode == 0x38 || opcode == 0x3e {
        4
    } else if opcode == 0x3b || opcode == 0x3d {
        2
    } else {
        1
    }
}

/// The type of the value a store takes.
pub open spec fn store_type(opcode: u8) -> ValueType {
    if opcode == 0x36 || opcode == 0x3a || opcode == 0x3b {
        ValueType::I32
    } else if opcode == 0x38 {
        ValueType::F32
    } else if opcode == 0x39 {
        ValueType::F64
    } else {
        ValueType::I64
    }
}

/// The number whose low bytes a store writes: an integer as unsigned, a float's bits.
pub open spec fn store_bits(v: Value) -> nat {
    match v {
        Value::I32(x) => unsigned32(x) as nat,
        Value::I64(x) => unsigned64(x) as nat,
        Value::F32(b) => b as nat,
        Value::F64(b) => b as nat,
        Value::FuncRef(_) => 0,
    }
}

/// The unsigned reading of an integer value.
pub open spec fn unsigned_of(v: Value) -> int {
    match v {
        Value::I32(x) => unsigned32(x),
        Value::I64(x) => unsigned64(x),
        _ => 0,
    }
}

/// A narrow store (`i32.store8`, `i32.store16`, `i64.store8`, `i64.store16`, `i64.store32`)
/// writes the low 1, 2, 1, 2 or 4 bytes of the value: the zero-extending load of the same
/// size at the same place reads back the value's unsigned reading modulo `256^width`, and
/// the sign-extending one the value that this is the low bytes of, in the signed range of
/// that width.
pub proof fn law_narrow_store_then_load(mem: Seq<u8>, address: i32, displacement: u32, opcode: u8, value: Value)
    requires
        0x3a <= opcode <= 0x3e,
        mem.len() <= usize::MAX,
        value.spec_value_type() == store_type(opcode),
        spec_store(mem, address, displacement, store_width(opcode), store_bits(value)) is Ok,
    ensures
        ({
            let stored = spec_store(mem, address, displacement, store_width(opcode), store_bits(value))->Ok_0;
            let w: usize = if opcode == 0x3a || opcode == 0x3c { 1 } else if opcode == 0x3e { 4 } else { 2 };
            let unsigned_load: u8 = if opcode == 0x3a {
                0x2d
            } else if opcode == 0x3b {
                0x2f
            } else if opcode == 0x3c {
                0x31
            } else if opcode == 0x3d {
                0x33
            } else {
                0x35
            };
            let signed_load = (unsigned_load - 1) as u8;
            &&& store_width(opcode) == w
            &&& load_width(unsigned_load) == w && load_width(signed_load) == w
            &&& stored.len() == mem.len()
            &&& spec_access_range(stored.len(), address, displacement, w) matches Ok((s, e)) && {
                let raw = le(stored.subrange(s as int, e as int));
                &&& integer_of(load_value(unsigned_load, raw)) == unsigned_of(value) % (pow256(w as nat) as int)
                &&& integer_of(load_value(signed_load, raw)) == unsigned_of(value) % (pow256(w as nat) as int)
                    || integer_of(load_value(signed_load, raw)) == unsigned_of(value) % (pow256(w as nat) as int)
                    - pow256(w as nat)
                &&& -(pow256(w as nat) / 2) <= integer_of(load_value(signed_load, raw)) < pow256(w as nat) / 2
                &&& (opcode <= 0x3b ==> load_value(unsigned_load, raw) is I32 && load_value(signed_load, raw) is I32)
                &&& (opcode >= 0x3c ==> load_value(unsigned_load, raw) is I64 && load_value(signed_load, raw) is I64)
            }
        }),
{
    let width = store_width(opcode);
    let bits = store_bits(value);
    law_load_after_store(mem, address, displacement, width, bits);
    lemma_pow256_facts();
    let stored = spec_store(mem, address, displacement, width, bits)->Ok_0;
    let (s, e) = spec_access_range(mem.len(), address, displacement, width)->Ok_0;
    assert(spec_load(stored, address, displacement, width, |raw: nat| raw) == Ok::<nat, RuntimeError>(
        le(stored.subrange(s as int, e as int)),
    ));
    let raw = le(stored.subrange(s as int, e as int));
    assert(raw == bits % pow256(width as nat));
    let unsigned_load: u8 = if opcode == 0x3a {
        0x2d
    } else if opcode == 0x3b {
        0x2f
    } else if opcode == 0x3c {
        0x31
    } else if opcode == 0x3d {
        0x33
    } else {
        0x35
    };
    law_load_extends(unsigned_load, raw);
    law_load_extends((unsigned_load - 1) as u8, raw);
}

/// An `i32.store` of `v` read back by `i64.load32_s` gives `v` widened with its sign, and by
/// `i64.load32_u` gives its unsigned reading.
pub proof fn law_i32_store_then_i64_load32(mem: Seq<u8>, address: i32, displacement: u32, v: i32)
    requires
        mem.len() <= usize::MAX,
        spec_store(mem, address, displacement, store_width(0x36), store_bits(Value::I32(v))) is Ok,
    ensures
        ({
            let stored = spec_store(mem, address, displacement, store_width(0x36), store_bits(Value::I32(v)))->Ok_0;
            &&& load_width(0x34) == store_width(0x36) && load_width(0x35) == store_width(0x36)
            &&& spec_access_range(stored.len(), address, displacement, load_width(0x34)) matches Ok((s, e)) && {
                let raw = le(stored.subrange(s as int, e as int));
                &&& load_value(0x34, raw) == Value::I64(v as i64)
                &&& load_value(0x35, raw) == Value::I64(unsigned32(v) as i64)
            }
        }),
{
    let bits = store_bits(Value::I32(v));
    law_load_after_store(mem, address, displacement, 4, bits);
    lemma_pow256_facts();
    lemma_cast32(v, 0);
    let stored = spec_store(mem, address, displacement, 4, bits)->Ok_0;
    let (s, e) = spec_access_range(mem.len(), address, displacement, 4)->Ok_0;
    assert(spec_load(stored, address, displacement, 4, |raw: nat| raw) == Ok::<nat, RuntimeError>(
        le(stored.subrange(s as int, e as int)),
    ));
    let raw = le(stored.subrange(s as int, e as int));
    assert(raw == bits % pow256(4));
    law_load_extends(0x34, raw);
    law_load_extends(0x35, raw);
}

/// A full-width store (`i32.store`, `i64.store`, `f32.store`, `f64.store`) followed by the
/// load of the same type at the same address and displacement finds the stored value: the
/// store keeps the memory's length, so the load's range is the store's, and the bytes
/// there read back as the value.
pub proof fn law_store_then_load(mem: Seq<u8>, address: i32, displacement: u32, opcode: u8, value: Value)
    requires
        0x36 <= opcode <= 0x39,
        mem.len() <= usize::MAX,
        value.spec_value_type() == store_type(opcode),
        spec_store(mem, address, displacement, store_width(opcode), store_bits(value)) is Ok,
    ensures
        ({
            let stored = spec_store(mem, address, displacement, store_width(opcode), store_bits(value))->Ok_0;
            let load = (opcode - 0x0e) as u8;
            &&& load_width(load) == store_width(opcode)
            &&& spec_access_range(stored.len(), address, displacement, load_width(load)) matches Ok((s, e))
                && load_value(load, le(stored.subrange(s as int, e as int))) == value
        }),
{
    let width = store_width(opcode);
    let bits = store_bits(value);
    law_load_after_store(mem, address, displacement, width, bits);
    lemma_pow256_facts();
    let stored = spec_store(mem, address, displacement, width, bits)->Ok_0;
    let (s, e) = spec_access_range(mem.len(), address, displacement, width)->Ok_0;
    assert(spec_load(stored, address, displacement, width, |raw: nat| raw) == Ok::<nat, RuntimeError>(
        le(stored.subrange(s as int, e as int)),
    ));
    let raw = le(stored.subrange(s as int, e as int));
    assert(raw == bits % pow256(width as nat));
    match value {
        Value::I32(x) => {
            lemma_cast32(x, 0);
            lemma_wrap32_of_unsigned(x as u32);
            assert(raw == unsigned32(x));
            assert(load_value(0x28, raw) == Value::I32(x));
        },
        Value::I64(x) => {
            lemma_cast64(x, 0);
            lemma_wrap64_of_unsigned(x as u64);
            assert(raw == unsigned64(x));
            assert(load_value(0x29, raw) == Value::I64(x));
        },
        Value::F32(b) => {
            assert(opcode == 0x38);
            assert(b as nat % 0x1_0000_0000 == b as nat);
            assert(raw == b);
        },
        Value::F64(b) => {
            assert(opcode == 0x39);
            assert(b as nat % 0x1_0000_0000_0000_0000 == b as nat);
            assert(raw == b);
        },
        _ => {},
    }
}

/// What a load (0x28..=0x35), a store (0x36..=0x3e) or `memory.size` (0x3f) makes of the
/// memory and an operand stack, its immediates starting at `pc`: the position after them,
/// the stack and the memory's bytes; or the trap.
pub open spec fn memory_effect(memory: Option<LinearMemory>, code: Seq<u8>, opcode: u8, pc: int, stack: Seq<Value>) -> Result<
    (int, Seq<Value>, Seq<u8>),
    RuntimeError,
> {
    if opcode == 0x3f {
        match spec_u32_imm(code, pc) {
            Err(e) => Err(e),
            Ok((index, p)) => match memory {
                Some(m) => if index != 0 {
                    Err(RuntimeError::MemoryIndexOutOfBounds(index))
                } else {
                    Ok((p, stack.push(Value::I32(m.spec_size_pages() as i32)), m@))
                },
                None => Err(RuntimeError::MemoryIndexOutOfBounds(index)),
            },
        }
    } else {
        match spec_memarg(code, pc) {
            Err(e) => Err(e),
            Ok(((_, displacement), p)) => if opcode <= 0x35 {
                let (address, s1) = spec_pop_typed(stack, ValueType::I32);
                match address {
                    Err(e) => Err(e),
                    Ok(address) => match memory {
                        None => Err(RuntimeError::MemoryUnavailable),
                        Some(m) => match spec_access_range(m@.len(), address->I32_0, displacement, load_width(opcode)) {
                            Err(e) => Err(e),
                            Ok((start, end)) => Ok((
                                p,
                                s1.push(load_value(opcode, le(m@.subrange(start as int, end as int)))),
                                m@,
                            )),
                        },
                    },
                }
            } else {
                let (value, s1) = spec_pop_typed(stack, store_type(opcode));
                match value {
                    Err(e) => Err(e),
                    Ok(value) => {
                        let (address, s2) = spec_pop_typed(s1, ValueType::I32);
                        match address {
                            Err(e) => Err(e),
                            Ok(address) => match memory {
                                None => Err(RuntimeError::MemoryUnavailable),
                                Some(m) => match spec_store(
                                    m@,
                                    address->I32_0,
                                    displacement,
                                    store_width(opcode),
                                    store_bits(value),
                                ) {
                                    Err(e) => Err(e),
                                    Ok(bytes) => Ok((p, s2, bytes)),
                                },
                            },
                        }
                    },
                }
            },
        }
    }
}

/// What `memory.grow` (0x40), its memory index starting at `pc`, does: it takes the number
/// of pages from the operand stack and pushes the previous number of pages, having grown
/// the memory by that many zero pages, or pushes -1 and leaves the memory as it was, as
/// it must where the growth would pass the maximum; `failed` is the trap, if any, and
/// `new_pc` and `new_stack` what is left after it.
pub open spec fn grow_effect(
    memory: Option<LinearMemory>,
    grown: Option<LinearMemory>,
    code: Seq<u8>,
    pc: int,
    stack: Seq<Value>,
    failed: Option<RuntimeError>,
    new_pc: int,
    new_stack: Seq<Value>,
) -> bool {
    match spec_u32_imm(code, pc) {
        Err(e) => failed == Some(e),
        Ok((index, p)) => match memory {
            None => failed == Some(RuntimeError::MemoryIndexOutOfBounds(index)),
            Some(m) => if index != 0 {
                failed == Some(RuntimeError::MemoryIndexOutOfBounds(index))
            } else {
                let (delta, s1) = spec_pop_typed(stack, ValueType::I32);
                match delta {
                    Err(e) => failed == Some(e),
                    Ok(delta) => {
                        let pages = unsigned32(delta->I32_0);
                        &&& failed is None
                        &&& new_pc == p
                        &&& new_stack.drop_last() == s1
                        &&& new_stack.len() == s1.len() + 1
                        &&& grown matches Some(g) && g.spec_max_pages() == m.spec_max_pages() && {
                            &&& m.spec_size_pages() + pages > m.spec_max_pages() ==> new_stack.last() == Value::I32(
                                -1i32,
                            )
                            &&& pages == 0 && m.spec_size_pages() <= m.spec_max_pages() ==> new_stack.last()
                                == Value::I32(m.spec_size_pages() as i32)
                            &&& new_stack.last() == Value::I32(-1i32) ==> g@ == m@
                            &&& new_stack.last() != Value::I32(-1i32) ==> {
                                &&& new_stack.last() == Value::I32(m.spec_size_pages() as i32)
                                &&& g@ == m@ + zeros((pages * WASM_PAGE_SIZE) as nat)
                            }
                        }
                    },
                }
            },
        },
    }
}

/// What `memory.copy` (subopcode 10) or `memory.fill` (11) after the 0xfc prefix does, its
/// memory indices starting at `pc`: it takes the length, then the byte value or source
/// address, then the destination address from the operand stack, and writes memory as
/// `spec_fill` or `spec_copy` say; it gives the position after the immediates, the stack
/// and the bytes that are left.
pub open spec fn bulk_effect(memory: Option<LinearMemory>, code: Seq<u8>, subopcode: u32, pc: int, stack: Seq<Value>) -> Result<
    (int, Seq<Value>, Seq<u8>),
    RuntimeError,
> {
    match spec_bulk_immediates(code, subopcode, pc) {
        Err(e) => Err(e),
        Ok(p) => match memory {
            None => Err(RuntimeError::MemoryIndexOutOfBounds(0)),
            Some(m) => {
                let (length, s1) = spec_pop_typed(stack, ValueType::I32);
                match length {
                    Err(e) => Err(e),
                    Ok(length) => {
                        let (second, s2) = spec_pop_typed(s1, ValueType::I32);
                        match second {
                            Err(e) => Err(e),
                            Ok(second) => {
                                let (destination, s3) = spec_pop_typed(s2, ValueType::I32);
                                match destination {
                                    Err(e) => Err(e),
                                    Ok(destination) => {
                                        let d = destination->I32_0 as u32;
                                        let n = length->I32_0 as u32;
                                        let written = if subopcode == 10 {
                                            spec_copy(m@, d, second->I32_0 as u32, n)
                                        } else {
                                            spec_fill(m@, d, second->I32_0 as u8, n)
                                        };
                                        match written {
                                            Err(e) => Err(e),
                                            Ok(bytes) => Ok((p, s3, bytes)),
                                        }
                                    },
                                }
                            },
                        }
                    },
                }
            },
        },
    }
}

/// Runs `memory.copy` (subopcode 10) or `memory.fill` (11); `pc` stands after the subopcode.
pub fn exec_bulk_memory(memory: &mut Option<LinearMemory>, code: &[u8], a: &mut Activation, subopcode: u32) -> (r: Result<
    (),
    RuntimeError,
>)
    requires
        act_ok(code@, *old(a)),
        subopcode == 10 || subopcode == 11,
        *old(memory) matches Some(m) ==> m.wf(),
    ensures
        r is Ok ==> act_ok(code@, *final(a)) && same_shape(*old(a), *final(a)) && final(a).controls == old(
            a,
        ).controls && final(a).locals == old(a).locals,
        (*final(memory)) is Some == (*old(memory)) is Some,
        *final(memory) matches Some(m) ==> m.wf(),
        match bulk_effect(*old(memory), code@, subopcode, old(a).pc as int, old(a).stack@) {
            Ok((p, s, bytes)) => r is Ok && final(a).pc == p && final(a).stack@ == s && final(memory)->Some_0@
                == bytes && final(memory)->Some_0.spec_max_pages() == old(memory)->Some_0.spec_max_pages(),
            Err(e) => r == Err::<(), RuntimeError>(e),
        },
{
    read_bulk_immediates(code, &mut a.pc, subopcode)?;
    match memory {
        None => Err(RuntimeError::MemoryIndexOutOfBounds(0)),
        Some(m) => {
            let length = pop_typed(&mut a.stack, ValueType::I32)?;
            let second = pop_typed(&mut a.stack, ValueType::I32)?;
            let destination = pop_typed(&mut a.stack, ValueType::I32)?;
            let n = length.as_i32() as u32;
            let d = destination.as_i32() as u32;
            if subopcode == 10 {
                m.copy_within(d, second.as_i32() as u32, n)
            } else {
                m.fill(d, second.as_i32() as u8, n)
            }
        },
    }
}

/// The slot contents that a `funcref` operand of instance `owner` stands for.
pub open spec fn slot_of(v: Value, owner: u64) -> Option<FunctionRef> {
    match v {
        Value::FuncRef(Some(f)) => Some(FunctionRef { owner, function_index: f }),
        _ => None,
    }
}

/// What `table.size` (subopcode 16), `table.grow` (15), `table.fill` (17) or `table.copy`
/// (14) after the 0xfc prefix does, its table indices starting at `pc`, to the table of
/// instance `owner`. `table.size` pushes the number of slots. `table.grow` takes the number
/// of slots and the reference to fill them with from the operand stack and pushes the
/// previous number of slots, having appended the new ones, or pushes -1 and leaves the table
/// as it was, as it must where the growth would pass the maximum or the `u32` range.
/// `table.fill` takes the length, the reference and the first slot; `table.copy` the length,
/// the source and the destination; either writes the slots as if through a buffer, or traps
/// and writes nothing where a range is not all in the table. `failed` is the trap, if any,
/// and `new_pc` and `new_stack` what is left after it.
pub open spec fn table_effect(
    table: Option<TableHandle>,
    grown: Option<TableHandle>,
    owner: u64,
    code: Seq<u8>,
    subopcode: u32,
    pc: int,
    stack: Seq<Value>,
    failed: Option<RuntimeError>,
    new_pc: int,
    new_stack: Seq<Value>,
) -> bool {
    match spec_bulk_immediates(code, subopcode, pc) {
        Err(e) => failed == Some(e),
        Ok(p) => match table {
            None => failed == Some(RuntimeError::TableIndexOutOfBounds(0)),
            Some(t) => if subopcode == 16 {
                &&& failed is None
                &&& new_pc == p
                &&& new_stack == stack.push(Value::I32(t@.len() as i32))
                &&& grown == table
            } else {
                let (count, s1) = spec_pop_typed(stack, ValueType::I32);
                let second_type = if subopcode == 14 { ValueType::I32 } else { ValueType::FuncRef };
                let (second, s2) = spec_pop_typed(s1, second_type);
                let (first, s3) = spec_pop_typed(s2, ValueType::I32);
                let kept = grown matches Some(g) && g.wf() && g.spec_maximum() == t.spec_maximum()
                    && g.spec_owner() == t.spec_owner();
                match count {
                    Err(e) => failed == Some(e),
                    Ok(count) => match second {
                        Err(e) => failed == Some(e),
                        Ok(second) => if subopcode == 15 {
                            let delta = count->I32_0 as u32;
                            let unchanged = new_stack == s2.push(Value::I32(-1i32)) && grown->Some_0@ == t@;
                            &&& failed is None
                            &&& new_pc == p
                            &&& kept
                            &&& (t@.len() + delta > u32::MAX || (t.spec_maximum() matches Some(m) && t@.len()
                                + delta > m)) ==> unchanged
                            &&& unchanged || (new_stack == s2.push(Value::I32(t@.len() as i32))
                                && grown->Some_0@ == t@ + Seq::new(delta as nat, |i: int| slot_of(second, owner)))
                        } else {
                            match first {
                                Err(e) => failed == Some(e),
                                Ok(first) => {
                                    let n = count->I32_0 as u32;
                                    let d = first->I32_0 as u32;
                                    if d + n > t@.len() {
                                        failed == Some(RuntimeError::TableElementOutOfBounds(d))
                                    } else if subopcode == 14 && (second->I32_0 as u32) + n > t@.len() {
                                        failed == Some(RuntimeError::TableElementOutOfBounds(second->I32_0 as u32))
                                    } else {
                                        let s = second->I32_0 as u32;
                                        &&& failed is None
                                        &&& new_pc == p
                                        &&& new_stack == s3
                                        &&& kept
                                        &&& grown->Some_0@ == if subopcode == 17 {
                                            t@.subrange(0, d as int) + Seq::new(n as nat, |i: int| slot_of(second, owner))
                                                + t@.subrange(d + n, t@.len() as int)
                                        } else {
                                            t@.subrange(0, d as int) + t@.subrange(s as int, s + n) + t@.subrange(
                                                d + n,
                                                t@.len() as int,
                                            )
                                        }
                                    }
                                },
                            }
                        },
                    },
                }
            },
        },
    }
}

/// Runs `table.size` (subopcode 16), `table.grow` (15), `table.fill` (17) or `table.copy`
/// (14); `pc` stands after the subopcode.
pub fn exec_table(table: &mut Option<TableHandle>, owner: u64, code: &[u8], a: &mut Activation, subopcode: u32) -> (r: Result<
    (),
    RuntimeError,
>)
    requires
        act_ok(code@, *old(a)),
        14 <= subopcode <= 17,
        *old(table) matches Some(t) ==> t.wf(),
    ensures
        r is Ok ==> act_ok(code@, *final(a)) && same_shape(*old(a), *final(a)) && final(a).controls == old(
            a,
        ).controls && final(a).locals == old(a).locals,
        (*final(table)) is Some == (*old(table)) is Some,
        *final(table) matches Some(t) ==> t.wf(),
        r is Err ==> (*final(table) matches Some(t) ==> t@ == old(table)->Some_0@),
        table_effect(
            *old(table),
            *final(table),
            owner,
            code@,
            subopcode,
            old(a).pc as int,
            old(a).stack@,
            match r {
                Err(e) => Some(e),
                Ok(_) => None,
            },
            final(a).pc as int,
            final(a).stack@,
        ),
{
    read_bulk_immediates(code, &mut a.pc, subopcode)?;
    match table {
        None => Err(RuntimeError::TableIndexOutOfBounds(0)),
        Some(t) => {
            if subopcode == 16 {
                let length = t.len();
                assert((length as i32) == (t@.len() as i32));
                a.stack.push(Value::I32(length as i32));
                return Ok(());
            }
            let count = pop_typed(&mut a.stack, ValueType::I32)?;
            let second_type = if subopcode == 14 { ValueType::I32 } else { ValueType::FuncRef };
            let second = pop_typed(&mut a.stack, second_type)?;
            let slot = match second {
                Value::FuncRef(Some(f)) => Some(FunctionRef { owner, function_index: f }),
                _ => None,
            };
            assert(slot == slot_of(second, owner));
            if subopcode == 15 {
                let ghost before = *t;
                match t.grow(count.as_i32() as u32, slot) {
                    Some(previous) => {
                        assert((previous as i32) == (before@.len() as i32));
                        a.stack.push(Value::I32(previous as i32));
                    },
                    None => a.stack.push(Value::I32(-1)),
                }
                return Ok(());
            }
            let first = pop_typed(&mut a.stack, ValueType::I32)?;
            let n = count.as_i32() as u32;
            let d = first.as_i32() as u32;
            if subopcode == 17 {
                if !t.fill(d, slot, n) {
                    return Err(RuntimeError::TableElementOutOfBounds(d));
                }
            } else {
                let s = second.as_i32() as u32;
                if !t.copy_within(d, s, n) {
                    if d as u64 + n as u64 > t.len() as u64 {
                        return Err(RuntimeError::TableElementOutOfBounds(d));
                    }
                    return Err(RuntimeError::TableElementOutOfBounds(s));
                }
            }
            Ok(())
        },
    }
}

/// What `ref.null` (0xd0), `ref.is_null` (0xd1) or `ref.func` (0xd2), its immediate
/// starting at `pc`, does in a module of `functions` functions: `ref.null` pushes the null
/// reference, `ref.is_null` replaces a reference by whether it is null, and `ref.func`
/// pushes a reference to a function of the module.
pub open spec fn reference_effect(code: Seq<u8>, opcode: u8, pc: int, stack: Seq<Value>, functions: int) -> Result<
    (int, Seq<Value>),
    RuntimeError,
> {
    if opcode == 0xd0 {
        match spec_ref_type(code, pc) {
            Err(e) => Err(e),
            Ok(p) => Ok((p, stack.push(Value::FuncRef(None)))),
        }
    } else if opcode == 0xd1 {
        let (v, s1) = spec_pop_typed(stack, ValueType::FuncRef);
        match v {
            Err(e) => Err(e),
            Ok(v) => Ok((pc, s1.push(Value::I32(if v->FuncRef_0 is None { 1 } else { 0 })))),
        }
    } else {
        match spec_u32_imm(code, pc) {
            Err(e) => Err(e),
            Ok((f, p)) => if f >= functions {
                Err(RuntimeError::FunctionOutOfBounds(f))
            } else {
                Ok((p, stack.push(Value::FuncRef(Some(f)))))
            },
        }
    }
}

/// Runs `ref.null`, `ref.is_null` or `ref.func` in a module with `imported` imported and
/// `defined` defined functions.
pub fn exec_reference(code: &[u8], a: &mut Activation, opcode: u8, imported: usize, defined: usize) -> (r: Result<
    (),
    RuntimeError,
>)
    requires
        act_ok(code@, *old(a)),
        0xd0 <= opcode <= 0xd2,
    ensures
        r is Ok ==> act_ok(code@, *final(a)) && same_shape(*old(a), *final(a)) && final(a).controls == old(
            a,
        ).controls && final(a).locals == old(a).locals,
        match reference_effect(code@, opcode, old(a).pc as int, old(a).stack@, imported + defined) {
            Ok((p, s)) => r is Ok && final(a).pc == p && final(a).stack@ == s,
            Err(e) => r == Err::<(), RuntimeError>(e),
        },
{
    if opcode == 0xd0 {
        read_ref_type(code, &mut a.pc)?;
        a.stack.push(Value::FuncRef(None));
    } else if opcode == 0xd1 {
        let v = pop_typed(&mut a.stack, ValueType::FuncRef)?;
        let null = match v {
            Value::FuncRef(None) => 1,
            _ => 0,
        };
        a.stack.push(Value::I32(null));
    } else {
        let f = read_u32_immediate(code, &mut a.pc)?;
        let fi = f as usize;
        if !(fi < imported || fi - imported < defined) {
            return Err(RuntimeError::FunctionOutOfBounds(f));
        }
        a.stack.push(Value::FuncRef(Some(f)));
    }
    Ok(())
}

/// The bytes left in data segment `x`: none once it is dropped, or where it does not exist.
pub open spec fn data_left(module: Module, dropped: Seq<bool>, x: u32) -> Seq<u8> {
    if x < module.data@.len() && x < dropped.len() && !dropped[x as int] {
        module.data@[x as int].bytes@
    } else {
        Seq::empty()
    }
}

/// The function indices left in element segment `x`: none once it is dropped, or where it
/// does not exist.
pub open spec fn elements_left(module: Module, dropped: Seq<bool>, x: u32) -> Seq<u32> {
    if x < module.elements@.len() && x < dropped.len() && !dropped[x as int] {
        module.elements@[x as int].function_indices@
    } else {
        Seq::empty()
    }
}

/// `dropped` with segment `x` dropped, where it exists.
pub open spec fn drop_segment(dropped: Seq<bool>, x: u32) -> Seq<bool> {
    if x < dropped.len() {
        dropped.update(x as int, true)
    } else {
        dropped
    }
}

/// What `memory.init` (subopcode 8) or `data.drop` (9) after the 0xfc prefix does, its
/// immediates starting at `pc`: `data.drop` drops the segment; `memory.init` takes the
/// length, the offset in the segment and the destination address from the operand stack and
/// writes those bytes of what is left of the segment, or traps and writes nothing where
/// either range is out of bounds, the segment's first. It gives the position after the
/// immediates, the stack, the new memory bytes where memory is written, and the dropped
/// segments.
pub open spec fn data_segment_effect(
    module: Module,
    memory: Option<LinearMemory>,
    dropped: Seq<bool>,
    code: Seq<u8>,
    subopcode: u32,
    pc: int,
    stack: Seq<Value>,
) -> Result<(int, Seq<Value>, Option<Seq<u8>>, Seq<bool>), RuntimeError> {
    match spec_segment_immediates(code, subopcode, pc) {
        Err(e) => Err(e),
        Ok((x, p)) => if subopcode == 9 {
            Ok((p, stack, None, drop_segment(dropped, x)))
        } else {
            match memory {
                None => Err(RuntimeError::MemoryIndexOutOfBounds(0)),
                Some(m) => {
                    let (length, s1) = spec_pop_typed(stack, ValueType::I32);
                    let (offset, s2) = spec_pop_typed(s1, ValueType::I32);
                    let (destination, s3) = spec_pop_typed(s2, ValueType::I32);
                    match length {
                        Err(e) => Err(e),
                        Ok(length) => match offset {
                            Err(e) => Err(e),
                            Ok(offset) => match destination {
                                Err(e) => Err(e),
                                Ok(destination) => {
                                    let n = length->I32_0 as u32;
                                    let s = offset->I32_0 as u32;
                                    let d = destination->I32_0 as u32;
                                    let bytes = data_left(module, dropped, x);
                                    if s + n > bytes.len() {
                                        Err(RuntimeError::DataSegmentSourceOutOfBounds { segment: x, offset: s, length: n })
                                    } else if d + n > m@.len() {
                                        Err(RuntimeError::MemoryOutOfBounds { address: d as u64, width: n as usize })
                                    } else {
                                        Ok((
                                            p,
                                            s3,
                                            Some(m@.subrange(0, d as int) + bytes.subrange(s as int, s + n) + m@.subrange(
                                                d + n,
                                                m@.len() as int,
                                            )),
                                            dropped,
                                        ))
                                    }
                                },
                            },
                        },
                    }
                },
            }
        },
    }
}

/// What `table.init` (subopcode 12) or `elem.drop` (13) after the 0xfc prefix does to the
/// table of instance `owner`, its immediates starting at `pc`: `elem.drop` drops the
/// segment; `table.init` takes the length, the offset in the segment and the first slot from
/// the operand stack and stores references to those functions of what is left of the
/// segment, or traps and stores nothing where either range is out of bounds, the segment's
/// first.
pub open spec fn element_segment_effect(
    module: Module,
    table: Option<TableHandle>,
    dropped: Seq<bool>,
    owner: u64,
    code: Seq<u8>,
    subopcode: u32,
    pc: int,
    stack: Seq<Value>,
) -> Result<(int, Seq<Value>, Option<Seq<Option<FunctionRef>>>, Seq<bool>), RuntimeError> {
    match spec_segment_immediates(code, subopcode, pc) {
        Err(e) => Err(e),
        Ok((x, p)) => if subopcode == 13 {
            Ok((p, stack, None, drop_segment(dropped, x)))
        } else {
            match table {
                None => Err(RuntimeError::TableIndexOutOfBounds(0)),
                Some(t) => {
                    let (length, s1) = spec_pop_typed(stack, ValueType::I32);
                    let (offset, s2) = spec_pop_typed(s1, ValueType::I32);
                    let (destination, s3) = spec_pop_typed(s2, ValueType::I32);
                    match length {
                        Err(e) => Err(e),
                        Ok(length) => match offset {
                            Err(e) => Err(e),
                            Ok(offset) => match destination {
                                Err(e) => Err(e),
                                Ok(destination) => {
                                    let n = length->I32_0 as u32;
                                    let s = offset->I32_0 as u32;
                                    let d = destination->I32_0 as u32;
                                    let indices = elements_left(module, dropped, x);
                                    if s + n > indices.len() {
                                        Err(
                                            RuntimeError::ElementSegmentSourceOutOfBounds { segment: x, offset: s, length: n },
                                        )
                                    } else if d + n > t@.len() {
                                        Err(RuntimeError::TableElementOutOfBounds(d))
                                    } else {
                                        Ok((
                                            p,
                                            s3,
                                            Some(t@.subrange(0, d as int) + Seq::new(
                                                n as nat,
                                                |i: int| Some(FunctionRef { owner, function_index: indices[s + i] }),
                                            ) + t@.subrange(d + n, t@.len() as int)),
                                            dropped,
                                        ))
                                    }
                                },
                            },
                        },
                    }
                },
            }
        },
    }
}

/// Runs `memory.init` (subopcode 8) or `data.drop` (9); `pc` stands after the subopcode.
pub fn exec_data_segment(
    module: &Module,
    memory: &mut Option<LinearMemory>,
    dropped: &mut Vec<bool>,
    code: &[u8],
    a: &mut Activation,
    subopcode: u32,
) -> (r: Result<(), RuntimeError>)
    requires
        act_ok(code@, *old(a)),
        subopcode == 8 || subopcode == 9,
        *old(memory) matches Some(m) ==> m.wf(),
    ensures
        r is Ok ==> act_ok(code@, *final(a)) && same_shape(*old(a), *final(a)) && final(a).controls == old(
            a,
        ).controls && final(a).locals == old(a).locals,
        (*final(memory)) is Some == (*old(memory)) is Some,
        *final(memory) matches Some(m) ==> m.wf(),
        match data_segment_effect(*module, *old(memory), old(dropped)@, code@, subopcode, old(a).pc as int, old(a).stack@) {
            Ok((p, s, bytes, dd)) => {
                &&& r is Ok
                &&& final(a).pc == p
                &&& final(a).stack@ == s
                &&& final(dropped)@ == dd
                &&& match bytes {
                    Some(b) => final(memory)->Some_0@ == b && final(memory)->Some_0.spec_max_pages() == old(
                        memory,
                    )->Some_0.spec_max_pages(),
                    None => *final(memory) == *old(memory),
                }
            },
            Err(e) => r == Err::<(), RuntimeError>(e),
        },
{
    let x = read_segment_immediates(code, &mut a.pc, subopcode)?;
    if subopcode == 9 {
        if (x as usize) < dropped.len() {
            dropped.set(x as usize, true);
        }
        return Ok(());
    }
    match memory {
        None => Err(RuntimeError::MemoryIndexOutOfBounds(0)),
        Some(m) => {
            let length = pop_typed(&mut a.stack, ValueType::I32)?;
            let offset = pop_typed(&mut a.stack, ValueType::I32)?;
            let destination = pop_typed(&mut a.stack, ValueType::I32)?;
            let n = length.as_i32() as u32;
            let s = offset.as_i32() as u32;
            let d = destination.as_i32() as u32;
            let xi = x as usize;
            let live = xi < module.data.len() && xi < dropped.len() && !dropped[xi];
            let available: usize = if live { module.data[xi].bytes.len() } else { 0 };
            if s as u64 + n as u64 > available as u64 {
                return Err(RuntimeError::DataSegmentSourceOutOfBounds { segment: x, offset: s, length: n });
            }
            if live {
                m.copy_in(d, module.data[xi].bytes.as_slice(), s as usize, n as usize)
            } else {
                let empty: Vec<u8> = Vec::new();
                m.copy_in(d, empty.as_slice(), 0, 0)
            }
        },
    }
}

/// Runs `table.init` (subopcode 12) or `elem.drop` (13); `pc` stands after the subopcode.
pub fn exec_element_segment(
    module: &Module,
    table: &mut Option<TableHandle>,
    dropped: &mut Vec<bool>,
    owner: u64,
    code: &[u8],
    a: &mut Activation,
    subopcode: u32,
) -> (r: Result<(), RuntimeError>)
    requires
        act_ok(code@, *old(a)),
        subopcode == 12 || subopcode == 13,
        *old(table) matches Some(t) ==> t.wf(),
    ensures
        r is Ok ==> act_ok(code@, *final(a)) && same_shape(*old(a), *final(a)) && final(a).controls == old(
            a,
        ).controls && final(a).locals == old(a).locals,
        (*final(table)) is Some == (*old(table)) is Some,
        *final(table) matches Some(t) ==> t.wf(),
        match element_segment_effect(
            *module,
            *old(table),
            old(dropped)@,
            owner,
            code@,
            subopcode,
            old(a).pc as int,
            old(a).stack@,
        ) {
            Ok((p, s, slots, dd)) => {
                &&& r is Ok
                &&& final(a).pc == p
                &&& final(a).stack@ == s
                &&& final(dropped)@ == dd
                &&& match slots {
                    Some(v) => final(table)->Some_0@ == v && final(table)->Some_0.spec_maximum() == old(
                        table,
                    )->Some_0.spec_maximum() && final(table)->Some_0.spec_owner() == old(table)->Some_0.spec_owner(),
                    None => *final(table) == *old(table),
                }
            },
            Err(e) => r == Err::<(), RuntimeError>(e),
        },
{
    let x = read_segment_immediates(code, &mut a.pc, subopcode)?;
    if subopcode == 13 {
        if (x as usize) < dropped.len() {
            dropped.set(x as usize, true);
        }
        return Ok(());
    }
    match table {
        None => Err(RuntimeError::TableIndexOutOfBounds(0)),
        Some(t) => {
            let length = pop_typed(&mut a.stack, ValueType::I32)?;
            let offset = pop_typed(&mut a.stack, ValueType::I32)?;
            let destination = pop_typed(&mut a.stack, ValueType::I32)?;
            let n = length.as_i32() as u32;
            let s = offset.as_i32() as u32;
            let d = destination.as_i32() as u32;
            let xi = x as usize;
            let live = xi < module.elements.len() && xi < dropped.len() && !dropped[xi];
            let available: usize = if live { module.elements[xi].function_indices.len() } else { 0 };
            if s as u64 + n as u64 > available as u64 {
                return Err(RuntimeError::ElementSegmentSourceOutOfBounds { segment: x, offset: s, length: n });
            }
            let ok = if live {
                t.init_from(d, module.elements[xi].function_indices.as_slice(), s as usize, n as usize, owner)
            } else {
                let empty: Vec<u32> = Vec::new();
                t.init_from(d, empty.as_slice(), 0, 0, owner)
            };
            if !ok {
                return Err(RuntimeError::TableElementOutOfBounds(d));
            }
            Ok(())
        },
    }
}

/// Runs a load (0x28..=0x35), a store (0x36..=0x3e), `memory.size` (0x3f) or
/// `memory.grow` (0x40).
pub fn exec_memory(memory: &mut Option<LinearMemory>, code: &[u8], a: &mut Activation, opcode: u8) -> (r: Result<
    (),
    RuntimeError,
>)
    requires
        act_ok(code@, *old(a)),
        0x28 <= opcode <= 0x40,
        *old(memory) matches Some(m) ==> m.wf(),
    ensures
        r is Ok ==> act_ok(code@, *final(a)) && same_shape(*old(a), *final(a)) && final(a).controls == old(
            a,
        ).controls && final(a).locals == old(a).locals,
        (*final(memory)) is Some == (*old(memory)) is Some,
        *final(memory) matches Some(m) ==> m.wf(),
        opcode < 0x40 ==> match memory_effect(*old(memory), code@, opcode, old(a).pc as int, old(a).stack@) {
            Ok((p, s, bytes)) => r is Ok && final(a).pc == p && final(a).stack@ == s && final(memory)->Some_0@
                == bytes && final(memory)->Some_0.spec_max_pages() == old(memory)->Some_0.spec_max_pages(),
            Err(e) => r == Err::<(), RuntimeError>(e),
        },
        opcode == 0x40 ==> grow_effect(
            *old(memory),
            *final(memory),
            code@,
            old(a).pc as int,
            old(a).stack@,
            match r {
                Err(e) => Some(e),
                Ok(_) => None,
            },
            final(a).pc as int,
            final(a).stack@,
        ),
{
    if opcode >= 0x3f {
        let memory_index = read_u32_immediate(code, &mut a.pc)?;
        if memory_index != 0 || memory.is_none() {
            return Err(RuntimeError::MemoryIndexOutOfBounds(memory_index));
        }
        match memory {
            Some(m) => {
                if opcode == 0x3f {
                    let pages = m.size_pages();
                    a.stack.push(Value::I32(pages as i32));
                } else {
                    let delta_value = i32_from_stack(&mut a.stack)?;
                    proof {
                        lemma_cast32(delta_value, 0);
                    }
                    let delta = delta_value as u32;
                    let ghost before = *m;
                    let previous = m.grow(delta);
                    a.stack.push(Value::I32(previous));
                    assert(previous != -1i32 ==> previous == before.spec_size_pages() as i32);
                    assert(a.stack@.drop_last() =~= spec_pop_typed(old(a).stack@, ValueType::I32).1);
                }
                return Ok(());
            },
            None => return Err(RuntimeError::MemoryIndexOutOfBounds(memory_index)),
        }
    }
    let (_, displacement) = read_memarg(code, &mut a.pc)?;
    if opcode <= 0x35 {
        let address = i32_from_stack(&mut a.stack)?;
        let m = match memory {
            Some(m) => m,
            None => return Err(RuntimeError::MemoryUnavailable),
        };
        let value = match opcode {
            0x28 => Value::I32(m.load_i32(address, displacement)?),
            0x29 => Value::I64(m.load_i64(address, displacement)?),
            0x2a => Value::F32(m.load_f32(address, displacement)?),
            0x2b => Value::F64(m.load_f64(address, displacement)?),
            0x2c => Value::I32(m.load_i8_s(address, displacement)?),
            0x2d => Value::I32(m.load_i8_u(address, displacement)?),
            0x2e => Value::I32(m.load_i16_s(address, displacement)?),
            0x2f => Value::I32(m.load_i16_u(address, displacement)?),
            0x30 => Value::I64(m.load_i64_8_s(address, displacement)?),
            0x31 => Value::I64(m.load_i64_8_u(address, displacement)?),
            0x32 => Value::I64(m.load_i64_16_s(address, displacement)?),
            0x33 => Value::I64(m.load_i64_16_u(address, displacement)?),
            0x34 => Value::I64(m.load_i64_32_s(address, displacement)?),
            _ => Value::I64(m.load_i64_32_u(address, displacement)?),
        };
        a.stack.push(value);
        return Ok(());
    }
    let value_type = if opcode == 0x36 || opcode == 0x3a || opcode == 0x3b {
        ValueType::I32
    } else if opcode == 0x38 {
        ValueType::F32
    } else if opcode == 0x39 {
        ValueType::F64
    } else {
        ValueType::I64
    };
    let value = pop_typed(&mut a.stack, value_type)?;
    let address = i32_from_stack(&mut a.stack)?;
    let m = match memory {
        Some(m) => m,
        None => return Err(RuntimeError::MemoryUnavailable),
    };
    match value {
        Value::I32(v) => {
            if opcode == 0x36 {
                m.store_i32(address, displacement, v)?;
            } else if opcode == 0x3a {
                m.store_i8(address, displacement, v)?;
            } else {
                m.store_i16(address, displacement, v)?;
            }
        },
        Value::I64(v) => {
            if opcode == 0x37 {
                m.store_i64(address, displacement, v)?;
            } else if opcode == 0x3c {
                m.store_i64_8(address, displacement, v)?;
            } else if opcode == 0x3d {
                m.store_i64_16(address, displacement, v)?;
            } else {
                m.store_i64_32(address, displacement, v)?;
            }
        },
        Value::F32(v) => {
            m.store_f32(address, displacement, v)?;
        },
        Value::F64(v) => {
            m.store_f64(address, displacement, v)?;
        },
        Value::FuncRef(_) => {},
    }
    Ok(())
}

} // verus!
