//! Runtime values and the handles that refer to them.
//!
//! Every `Value` is allocated once in the pool and never mutated in
//! place; operations always produce a new value. Stack slots and scope
//! bindings do not own values: they hold a `ValueRef`, either an index
//! into the pool or the free-standing `Null` that a failed variable
//! lookup resolves to (no pool storage backs that one).

use vstd::prelude::*;
use vstd::string::StringExecFns;

use crate::float::float_text;

verus! {

/// A runtime value. `Float` holds the bit pattern of an IEEE 754
/// binary64 value. `Variable` is an unresolved name placeholder, and
/// `Function` records the index of the `PushFunction` instruction that
/// is the function's identity.
#[derive(Debug, Clone)]
pub enum Value {
    Null,
    Int(i32),
    Float(u64),
    String(String),
    Variable { identifier: String },
    Function { position: usize },
}

/// Model of a `Value`.
pub enum ValueV {
    Null,
    Int(i32),
    Float(u64),
    String(Seq<char>),
    Variable { identifier: Seq<char> },
    Function { position: usize },
}

impl View for Value {
    type V = ValueV;

    open spec fn view(&self) -> ValueV {
        match self {
            Value::Null => ValueV::Null,
            Value::Int(i) => ValueV::Int(*i),
            Value::Float(bits) => ValueV::Float(*bits),
            Value::String(s) => ValueV::String(s@),
            Value::Variable { identifier } => ValueV::Variable { identifier: identifier@ },
            Value::Function { position } => ValueV::Function { position: *position },
        }
    }
}

impl Value {
    /// A copy of this value that models exactly the same thing.
    pub fn duplicate(&self) -> (r: Value)
        ensures
            r@ == self@,
    {
        match self {
            Value::Null => Value::Null,
            Value::Int(i) => Value::Int(*i),
            Value::Float(bits) => Value::Float(*bits),
            Value::String(s) => Value::String(s.clone()),
            Value::Variable { identifier } => Value::Variable { identifier: identifier.clone() },
            Value::Function { position } => Value::Function { position: *position },
        }
    }
}

/// What a stack slot or a scope binding holds: a reference into the
/// pool, or the free-standing `Null` of a failed lookup.
#[derive(Debug, Clone, Copy, PartialEq, Eq, Structural)]
pub enum ValueRef {
    Pooled(usize),
    NullRef,
}

/// The decimal digit characters of `n` (for `n >= 0`), most significant
/// first.
pub open spec fn dec_digits(n: int) -> Seq<char>
    decreases n,
{
    if n < 10 {
        seq![digit_char(n)]
    } else {
        dec_digits(n / 10).push(digit_char(n % 10))
    }
}

/// The character of one decimal digit.
pub open spec fn digit_char(d: int) -> char {
    if d == 0 {
        '0'
    } else if d == 1 {
        '1'
    } else if d == 2 {
        '2'
    } else if d == 3 {
        '3'
    } else if d == 4 {
        '4'
    } else if d == 5 {
        '5'
    } else if d == 6 {
        '6'
    } else if d == 7 {
        '7'
    } else if d == 8 {
        '8'
    } else {
        '9'
    }
}

/// The decimal text of a signed integer.
pub open spec fn int_text(i: int) -> Seq<char> {
    if i < 0 {
        seq!['-'] + dec_digits(-i)
    } else {
        dec_digits(i)
    }
}

/// How a value is shown to the caller: its tag, with the payload in
/// parentheses, string payloads quoted.
pub open spec fn render_view(v: ValueV) -> Seq<char> {
    match v {
        ValueV::Null => "Null"@,
        ValueV::Int(i) => "Int("@ + int_text(i as int) + ")"@,
        ValueV::Float(bits) => "Float("@ + float_text(bits) + ")"@,
        ValueV::String(s) => "String(\""@ + s + "\")"@,
        ValueV::Variable { identifier } => "Variable(\""@ + identifier + "\")"@,
        ValueV::Function { position } => "Function("@ + dec_digits(position as int) + ")"@,
    }
}

fn digit_str(d: u64) -> (r: &'static str)
    requires
        d < 10,
    ensures
        r@ == seq![digit_char(d as int)],
{
    proof {
        reveal_strlit("0");
        reveal_strlit("1");
        reveal_strlit("2");
        reveal_strlit("3");
        reveal_strlit("4");
        reveal_strlit("5");
        reveal_strlit("6");
        reveal_strlit("7");
        reveal_strlit("8");
        reveal_strlit("9");
    }
    let r = if d == 0 {
        "0"
    } else if d == 1 {
        "1"
    } else if d == 2 {
        "2"
    } else if d == 3 {
        "3"
    } else if d == 4 {
        "4"
    } else if d == 5 {
        "5"
    } else if d == 6 {
        "6"
    } else if d == 7 {
        "7"
    } else if d == 8 {
        "8"
    } else {
        "9"
    };
    proof {
        assert(r@ =~= seq![digit_char(d as int)]);
    }
    r
}

/// The decimal text of `n`.
pub fn dec_text(n: u64) -> (r: String)
    ensures
        r@ == dec_digits(n as int),
    decreases n,
{
    if n < 10 {
        String::from_str(digit_str(n))
    } else {
        let mut s = dec_text(n / 10);
        s.append(digit_str(n % 10));
        proof {
            assert(s@ =~= dec_digits(n as int));
        }
        s
    }
}

/// The decimal text of a signed 32-bit integer.
pub fn int_to_text(i: i32) -> (r: String)
    ensures
        r@ == int_text(i as int),
{
    if i < 0 {
        let mag: u64 = (-(i as i64)) as u64;
        let mut s = String::from_str("-");
        proof {
            reveal_strlit("-");
            assert(s@ =~= seq!['-']);
        }
        let digits = dec_text(mag);
        s.append(digits.as_str());
        proof {
            assert(s@ =~= int_text(i as int));
        }
        s
    } else {
        dec_text(i as u64)
    }
}

impl Value {
    /// The text shown to the caller for this value.
    pub fn render(&self) -> (r: String)
        ensures
            r@ == render_view(self@),
    {
        match self {
            Value::Null => {
                let r = String::from_str("Null");
                r
            },
            Value::Int(i) => {
                let mut s = String::from_str("Int(");
                let digits = int_to_text(*i);
                s.append(digits.as_str());
                s.append(")");
                proof {
                    assert(s@ =~= render_view(self@));
                }
                s
            },
            Value::Float(bits) => {
                let mut s = String::from_str("Float(");
                let digits = crate::float::bits_to_text(*bits);
                s.append(digits.as_str());
                s.append(")");
                proof {
                    assert(s@ =~= render_view(self@));
                }
                s
            },
            Value::String(text) => {
                let mut s = String::from_str("String(\"");
                s.append(text.as_str());
                s.append("\")");
                proof {
                    assert(s@ =~= render_view(self@));
                }
                s
            },
            Value::Variable { identifier } => {
                let mut s = String::from_str("Variable(\"");
                s.append(identifier.as_str());
                s.append("\")");
                proof {
                    assert(s@ =~= render_view(self@));
                }
                s
            },
            Value::Function { position } => {
                let mut s = String::from_str("Function(");
                let digits = dec_text(*position as u64);
                s.append(digits.as_str());
                s.append(")");
                proof {
                    assert(s@ =~= render_view(self@));
                }
                s
            },
        }
    }
}

} // verus!
