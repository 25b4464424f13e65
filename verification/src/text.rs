//! Numbers and names rendered as text, for messages.
use vstd::prelude::*;
use vstd::string::StringExecFns;
use crate::types::{ImportKind, ValueType};

verus! {

/// The character of decimal digit `d`.
pub open spec fn digit_char(d: nat) -> char {
    if d == 0 {
        '0'
    } else if d == 1 {
        '1'
    } else if d == 2 {
        '2'
    } else if d == 3 {
        '3'
    } else if d == 4 {
        '4'
    } else if d == 5 {
        '5'
    } else if d == 6 {
        '6'
    } else if d == 7 {
        '7'
    } else if d == 8 {
        '8'
    } else {
        '9'
    }
}

/// The decimal numeral of `n`, without leading zeros.
pub open spec fn decimal_chars(n: nat) -> Seq<char>
    decreases n,
{
    if n < 10 {
        seq![digit_char(n)]
    } else {
        decimal_chars(n / 10).push(digit_char(n % 10))
    }
}

fn digit_str(d: u64) -> (s: &'static str)
    requires
        d < 10,
    ensures
        s@ == seq![digit_char(d as nat)],
{
    proof {
        reveal_strlit("0");
        reveal_strlit("1");
        reveal_strlit("2");
        reveal_strlit("3");
        reveal_strlit("4");
        reveal_strlit("5");
        reveal_strlit("6");
        reveal_strlit("7");
        reveal_strlit("8");
        reveal_strlit("9");
    }
    if d == 0 {
        "0"
    } else if d == 1 {
        "1"
    } else if d == 2 {
        "2"
    } else if d == 3 {
        "3"
    } else if d == 4 {
        "4"
    } else if d == 5 {
        "5"
    } else if d == 6 {
        "6"
    } else if d == 7 {
        "7"
    } else if d == 8 {
        "8"
    } else {
        "9"
    }
}

/// The decimal numeral of `n`.
pub fn render_decimal(n: u64) -> (s: String)
    ensures
        s@ == decimal_chars(n as nat),
    decreases n,
{
    if n < 10 {
        String::from_str(digit_str(n))
    } else {
        let mut s = render_decimal(n / 10);
        s.append(digit_str(n % 10));
        s
    }
}


/// The lower-case hexadecimal digit of `d`.
pub open spec fn hex_digit(d: nat) -> char {
    if d < 10 {
        digit_char(d)
    } else if d == 10 {
        'a'
    } else if d == 11 {
        'b'
    } else if d == 12 {
        'c'
    } else if d == 13 {
        'd'
    } else if d == 14 {
        'e'
    } else {
        'f'
    }
}

/// A byte as two lower-case hexadecimal digits.
pub open spec fn hex2(b: u8) -> Seq<char> {
    seq![hex_digit((b / 16) as nat), hex_digit((b % 16) as nat)]
}

fn hex_digit_str(d: u8) -> (s: &'static str)
    requires
        d < 16,
    ensures
        s@ == seq![hex_digit(d as nat)],
{
    proof {
        reveal_strlit("a");
        reveal_strlit("b");
        reveal_strlit("c");
        reveal_strlit("d");
        reveal_strlit("e");
        reveal_strlit("f");
    }
    if d < 10 {
        digit_str(d as u64)
    } else if d == 10 {
        "a"
    } else if d == 11 {
        "b"
    } else if d == 12 {
        "c"
    } else if d == 13 {
        "d"
    } else if d == 14 {
        "e"
    } else {
        "f"
    }
}

/// A byte as two lower-case hexadecimal digits.
pub fn render_hex2(b: u8) -> (s: String)
    ensures
        s@ == hex2(b),
{
    let mut s = String::from_str(hex_digit_str(b / 16));
    s.append(hex_digit_str(b % 16));
    s
}

/// Four bytes listed as hexadecimal pairs in brackets, as `[00, 61, 73, 6d]`.
pub open spec fn bytes4_hex(b: [u8; 4]) -> Seq<char> {
    "["@ + hex2(b@[0]) + ", "@ + hex2(b@[1]) + ", "@ + hex2(b@[2]) + ", "@ + hex2(b@[3]) + "]"@
}

pub fn render_bytes4_hex(b: [u8; 4]) -> (s: String)
    ensures
        s@ == bytes4_hex(b),
{
    let mut s = String::from_str("[");
    s.append(render_hex2(b[0]).as_str());
    s.append(", ");
    s.append(render_hex2(b[1]).as_str());
    s.append(", ");
    s.append(render_hex2(b[2]).as_str());
    s.append(", ");
    s.append(render_hex2(b[3]).as_str());
    s.append("]");
    s
}

/// The text of `s` in double quotes, with quotes, backslashes and characters that are not
/// printable escaped, as the standard library's debug formatting of a string writes it.
pub uninterp spec fn debug_quoted(s: Seq<char>) -> Seq<char>;

/// Quotes and escapes `s` by the standard library's debug formatting of `str`
/// (`<str as Debug>::fmt`). The contract claims only that the result is a function of the
/// text alone.
#[verifier::external_body]
pub(crate) fn quote(s: &str) -> (q: String)
    ensures
        q@ == debug_quoted(s@),
{
    format!("{s:?}")
}

/// The name of a value type.
pub open spec fn value_type_name(t: ValueType) -> Seq<char> {
    match t {
        ValueType::I32 => "I32"@,
        ValueType::I64 => "I64"@,
        ValueType::F32 => "F32"@,
        ValueType::F64 => "F64"@,
        ValueType::FuncRef => "FuncRef"@,
    }
}

pub fn render_value_type(t: ValueType) -> (s: String)
    ensures
        s@ == value_type_name(t),
{
    match t {
        ValueType::I32 => String::from_str("I32"),
        ValueType::I64 => String::from_str("I64"),
        ValueType::F32 => String::from_str("F32"),
        ValueType::F64 => String::from_str("F64"),
        ValueType::FuncRef => String::from_str("FuncRef"),
    }
}

/// The name of an import kind.
pub open spec fn import_kind_name(k: ImportKind) -> Seq<char> {
    match k {
        ImportKind::Function => "Function"@,
        ImportKind::Table => "Table"@,
        ImportKind::Memory => "Memory"@,
        ImportKind::Global => "Global"@,
    }
}

pub fn render_import_kind(k: ImportKind) -> (s: String)
    ensures
        s@ == import_kind_name(k),
{
    match k {
        ImportKind::Function => String::from_str("Function"),
        ImportKind::Table => String::from_str("Table"),
        ImportKind::Memory => String::from_str("Memory"),
        ImportKind::Global => String::from_str("Global"),
    }
}

/// An optional count: `None`, or `Some(` and its decimal numeral and `)`.
pub open spec fn optional_count(o: Option<u32>) -> Seq<char> {
    match o {
        None => "None"@,
        Some(v) => "Some("@ + decimal_chars(v as nat) + ")"@,
    }
}

pub fn render_optional_count(o: Option<u32>) -> (s: String)
    ensures
        s@ == optional_count(o),
{
    match o {
        None => String::from_str("None"),
        Some(v) => {
            let mut s = String::from_str("Some(");
            s.append(render_decimal(v as u64).as_str());
            s.append(")");
            s
        },
    }
}

/// `true` or `false`.
pub open spec fn bool_text(b: bool) -> Seq<char> {
    if b {
        "true"@
    } else {
        "false"@
    }
}

pub fn render_bool(b: bool) -> (s: String)
    ensures
        s@ == bool_text(b),
{
    if b {
        String::from_str("true")
    } else {
        String::from_str("false")
    }
}

} // verus!
