//! Runtime values and the typed operand-stack primitives.
use vstd::prelude::*;
use crate::runtime_error::RuntimeError;
use crate::types::ValueType;

verus! {

/// A runtime value. Floating-point values are held by their IEEE-754 bit patterns,
/// so that moving them through locals, globals, memory and the stack never changes them.
#[derive(Debug, Clone, Copy, PartialEq, Eq, Structural)]
pub enum Value {
    I32(i32),
    I64(i64),
    F32(u32),
    F64(u64),
    FuncRef(Option<u32>),
}

impl Value {
    pub open spec fn spec_value_type(self) -> ValueType {
        match self {
            Value::I32(_) => ValueType::I32,
            Value::I64(_) => ValueType::I64,
            Value::F32(_) => ValueType::F32,
            Value::F64(_) => ValueType::F64,
            Value::FuncRef(_) => ValueType::FuncRef,
        }
    }

    pub fn value_type(self) -> (t: ValueType)
        ensures
            t == self.spec_value_type(),
    {
        match self {
            Value::I32(_) => ValueType::I32,
            Value::I64(_) => ValueType::I64,
            Value::F32(_) => ValueType::F32,
            Value::F64(_) => ValueType::F64,
            Value::FuncRef(_) => ValueType::FuncRef,
        }
    }

    /// The payload of an `i32` value; any other value is a caller error.
    pub fn as_i32(self) -> (v: i32)
        requires
            self is I32,
        ensures
            self == Value::I32(v),
    {
        match self {
            Value::I32(v) => v,
            _ => 0,
        }
    }

    /// The payload of an `i64` value; any other value is a caller error.
    pub fn as_i64(self) -> (v: i64)
        requires
            self is I64,
        ensures
            self == Value::I64(v),
    {
        match self {
            Value::I64(v) => v,
            _ => 0,
        }
    }
}

/// The zero value of each type: the initial content of a declared local.
pub open spec fn spec_zero(ty: ValueType) -> Value {
    match ty {
        ValueType::I32 => Value::I32(0),
        ValueType::I64 => Value::I64(0),
        ValueType::F32 => Value::F32(0),
        ValueType::F64 => Value::F64(0),
        ValueType::FuncRef => Value::FuncRef(None),
    }
}

pub fn zero(ty: ValueType) -> (v: Value)
    ensures
        v == spec_zero(ty),
        v.spec_value_type() == ty,
{
    match ty {
        ValueType::I32 => Value::I32(0),
        ValueType::I64 => Value::I64(0),
        ValueType::F32 => Value::F32(0),
        ValueType::F64 => Value::F64(0),
        ValueType::FuncRef => Value::FuncRef(None),
    }
}

/// `value` itself when it has type `expected`, else the mismatch.
pub open spec fn spec_expect_type(value: Value, expected: ValueType) -> Result<Value, RuntimeError> {
    if value.spec_value_type() == expected {
        Ok(value)
    } else {
        Err(RuntimeError::ValueTypeMismatch { expected, actual: value.spec_value_type() })
    }
}

pub fn expect_type(value: Value, expected: ValueType) -> (r: Result<Value, RuntimeError>)
    ensures
        r == spec_expect_type(value, expected),
{
    let actual = value.value_type();
    if actual == expected {
        Ok(value)
    } else {
        Err(RuntimeError::ValueTypeMismatch { expected, actual })
    }
}

/// Popping a value of type `expected`: an empty stack underflows and stays as it is;
/// otherwise the top value is removed, and it is returned only if it has that type.
pub open spec fn spec_pop_typed(stack: Seq<Value>, expected: ValueType) -> (
    Result<Value, RuntimeError>,
    Seq<Value>,
) {
    if stack.len() == 0 {
        (Err(RuntimeError::StackUnderflow), stack)
    } else {
        (spec_expect_type(stack.last(), expected), stack.drop_last())
    }
}

pub fn pop_typed(stack: &mut Vec<Value>, expected: ValueType) -> (r: Result<Value, RuntimeError>)
    ensures
        (r, final(stack)@) == spec_pop_typed(old(stack)@, expected),
{
    match stack.pop() {
        None => Err(RuntimeError::StackUnderflow),
        Some(value) => expect_type(value, expected),
    }
}

/// Pops an `i32` operand.
pub fn i32_from_stack(stack: &mut Vec<Value>) -> (r: Result<i32, RuntimeError>)
    ensures
        final(stack)@ == spec_pop_typed(old(stack)@, ValueType::I32).1,
        match spec_pop_typed(old(stack)@, ValueType::I32).0 {
            Ok(v) => r == Ok::<i32, RuntimeError>(v->I32_0),
            Err(e) => r == Err::<i32, RuntimeError>(e),
        },
{
    match pop_typed(stack, ValueType::I32) {
        Ok(Value::I32(v)) => Ok(v),
        Ok(_) => Err(RuntimeError::StackUnderflow),
        Err(e) => Err(e),
    }
}

/// Pops an `i64` operand.
pub fn i64_from_stack(stack: &mut Vec<Value>) -> (r: Result<i64, RuntimeError>)
    ensures
        final(stack)@ == spec_pop_typed(old(stack)@, ValueType::I64).1,
        match spec_pop_typed(old(stack)@, ValueType::I64).0 {
            Ok(v) => r == Ok::<i64, RuntimeError>(v->I64_0),
            Err(e) => r == Err::<i64, RuntimeError>(e),
        },
{
    match pop_typed(stack, ValueType::I64) {
        Ok(Value::I64(v)) => Ok(v),
        Ok(_) => Err(RuntimeError::StackUnderflow),
        Err(e) => Err(e),
    }
}

/// Pops an `f32` operand as its bit pattern.
pub fn f32_from_stack(stack: &mut Vec<Value>) -> (r: Result<u32, RuntimeError>)
    ensures
        final(stack)@ == spec_pop_typed(old(stack)@, ValueType::F32).1,
        match spec_pop_typed(old(stack)@, ValueType::F32).0 {
            Ok(v) => r == Ok::<u32, RuntimeError>(v->F32_0),
            Err(e) => r == Err::<u32, RuntimeError>(e),
        },
{
    match pop_typed(stack, ValueType::F32) {
        Ok(Value::F32(v)) => Ok(v),
        Ok(_) => Err(RuntimeError::StackUnderflow),
        Err(e) => Err(e),
    }
}

/// Pops an `f64` operand as its bit pattern.
pub fn f64_from_stack(stack: &mut Vec<Value>) -> (r: Result<u64, RuntimeError>)
    ensures
        final(stack)@ == spec_pop_typed(old(stack)@, ValueType::F64).1,
        match spec_pop_typed(old(stack)@, ValueType::F64).0 {
            Ok(v) => r == Ok::<u64, RuntimeError>(v->F64_0),
            Err(e) => r == Err::<u64, RuntimeError>(e),
        },
{
    match pop_typed(stack, ValueType::F64) {
        Ok(Value::F64(v)) => Ok(v),
        Ok(_) => Err(RuntimeError::StackUnderflow),
        Err(e) => Err(e),
    }
}

/// Checks that `values` has exactly the types `types`, in order.
pub open spec fn values_match(types: Seq<ValueType>, values: Seq<Value>) -> bool {
    &&& values.len() == types.len()
    &&& forall|i: int| 0 <= i < values.len() ==> #[trigger] values[i].spec_value_type() == types[i]
}

/// The first position, from `i` on, at which `values` departs from `types`.
pub open spec fn first_mismatch(types: Seq<ValueType>, values: Seq<Value>, i: int) -> Option<int>
    decreases values.len() - i,
{
    if i < 0 || i >= values.len() || i >= types.len() {
        None
    } else if values[i].spec_value_type() != types[i] {
        Some(i)
    } else {
        first_mismatch(types, values, i + 1)
    }
}

/// `Ok` exactly when `values` has the types `types`; a length difference is reported first,
/// and otherwise the first value of the wrong type.
pub open spec fn spec_validate(types: Seq<ValueType>, values: Seq<Value>) -> Result<(), RuntimeError> {
    if values.len() != types.len() {
        Err(RuntimeError::WrongArgumentCount { expected: types.len() as usize, actual: values.len() as usize })
    } else {
        match first_mismatch(types, values, 0) {
            Some(i) => Err(RuntimeError::ValueTypeMismatch { expected: types[i], actual: values[i].spec_value_type() }),
            None => Ok(()),
        }
    }
}

proof fn lemma_first_mismatch(types: Seq<ValueType>, values: Seq<Value>, i: int)
    requires
        0 <= i <= values.len(),
        values.len() == types.len(),
        forall|j: int| 0 <= j < i ==> #[trigger] values[j].spec_value_type() == types[j],
    ensures
        first_mismatch(types, values, i) is None <==> values_match(types, values),
    decreases values.len() - i,
{
    if i < values.len() && values[i].spec_value_type() == types[i] {
        lemma_first_mismatch(types, values, i + 1);
    }
}

/// The first departure is at `i` when every value before it has its type and the value
/// at `i` has not, counting from any `k` up to `i`.
pub proof fn lemma_first_mismatch_at(types: Seq<ValueType>, values: Seq<Value>, k: int, i: int)
    requires
        0 <= k <= i < values.len(),
        i < types.len(),
        forall|j: int| 0 <= j < i ==> #[trigger] values[j].spec_value_type() == types[j],
        values[i].spec_value_type() != types[i],
    ensures
        first_mismatch(types, values, k) == Some(i),
    decreases i - k,
{
    if k < i {
        lemma_first_mismatch_at(types, values, k + 1, i);
    }
}

/// The validation verdict is `Ok` exactly when the types match.
pub proof fn lemma_validate_ok(types: Seq<ValueType>, values: Seq<Value>)
    ensures
        spec_validate(types, values) is Ok <==> values_match(types, values),
{
    if values.len() == types.len() {
        lemma_first_mismatch(types, values, 0);
    }
}

pub fn validate_values(types: &[ValueType], values: &[Value]) -> (r: Result<(), RuntimeError>)
    ensures
        r == spec_validate(types@, values@),
        r is Ok <==> values_match(types@, values@),
{
    proof {
        lemma_validate_ok(types@, values@);
    }
    if values.len() != types.len() {
        return Err(RuntimeError::WrongArgumentCount { expected: types.len(), actual: values.len() });
    }
    let mut i: usize = 0;
    while i < values.len()
        invariant
            values@.len() == types@.len(),
            0 <= i <= values@.len(),
            first_mismatch(types@, values@, 0) == first_mismatch(types@, values@, i as int),
        decreases values@.len() - i,
    {
        match expect_type(values[i], types[i]) {
            Ok(_) => {},
            Err(e) => {
                return Err(e);
            },
        }
        i = i + 1;
    }
    Ok(())
}

/// Equal type sequences.
pub fn same_types(a: &[ValueType], b: &[ValueType]) -> (r: bool)
    ensures
        r == (a@ == b@),
{
    if a.len() != b.len() {
        return false;
    }
    let mut i: usize = 0;
    while i < a.len()
        invariant
            a@.len() == b@.len(),
            i <= a@.len(),
            forall|j: int| 0 <= j < i ==> a@[j] == b@[j],
        decreases a@.len() - i,
    {
        if a[i] != b[i] {
            return false;
        }
        i = i + 1;
    }
    assert(a@ =~= b@);
    true
}

} // verus!
