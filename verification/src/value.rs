//! The values that travel in message bodies, and their type signatures.

use vstd::prelude::*;
use vstd::string::StringExecFns;

verus! {

/// An object path.
#[derive(Clone, Debug, PartialEq, Eq)]
pub struct Path(pub String);

/// A type signature.
#[derive(Clone, Debug, PartialEq, Eq)]
pub struct Signature(pub String);

/// The basic values: those that may be the key of a dictionary entry.
#[derive(Clone, Debug, PartialEq, Eq)]
pub enum BasicValue {
    Byte(u8),
    Boolean(bool),
    Int16(i16),
    Uint16(u16),
    Int32(i32),
    Uint32(u32),
    Int64(i64),
    Uint64(u64),
    String(String),
    ObjectPath(Path),
    Signature(Signature),
}

/// A sequence of values of any types, with the signature `(..)` of its
/// contents.
#[derive(Debug, PartialEq)]
pub struct Struct {
    pub objects: Vec<Value>,
    pub signature: Signature,
}

/// A value that carries its own signature.
#[derive(Debug, PartialEq)]
pub struct Variant {
    pub object: Box<Value>,
    pub signature: Signature,
}

/// A sequence of values of one type, with its signature `a..`.
#[derive(Debug, PartialEq)]
pub struct Array {
    pub objects: Vec<Value>,
    pub signature: Signature,
}

/// Entries of one key type and one value type, with the signature `a{..}`.
#[derive(Debug, PartialEq)]
pub struct Dictionary {
    pub entries: Vec<(BasicValue, Value)>,
    pub signature: Signature,
}

/// Any value of a message body. A double is held by its bit pattern.
#[derive(Debug, PartialEq)]
pub enum Value {
    BasicValue(BasicValue),
    Double(u64),
    Array(Array),
    Variant(Variant),
    Struct(Struct),
    Dictionary(Dictionary),
}

impl BasicValue {
    /// The signature of a basic value: one letter for each kind.
    pub open spec fn signature(self) -> Seq<char> {
        match self {
            BasicValue::Byte(_) => seq!['y'],
            BasicValue::Boolean(_) => seq!['b'],
            BasicValue::Int16(_) => seq!['n'],
            BasicValue::Uint16(_) => seq!['q'],
            BasicValue::Int32(_) => seq!['i'],
            BasicValue::Uint32(_) => seq!['u'],
            BasicValue::Int64(_) => seq!['x'],
            BasicValue::Uint64(_) => seq!['t'],
            BasicValue::String(_) => seq!['s'],
            BasicValue::ObjectPath(_) => seq!['o'],
            BasicValue::Signature(_) => seq!['g'],
        }
    }

    /// The signature of a basic value.
    pub fn get_signature(&self) -> (r: String)
        ensures
            r@ == self.signature(),
    {
        let letter = match self {
            BasicValue::Byte(_) => "y",
            BasicValue::Boolean(_) => "b",
            BasicValue::Int16(_) => "n",
            BasicValue::Uint16(_) => "q",
            BasicValue::Int32(_) => "i",
            BasicValue::Uint32(_) => "u",
            BasicValue::Int64(_) => "x",
            BasicValue::Uint64(_) => "t",
            BasicValue::String(_) => "s",
            BasicValue::ObjectPath(_) => "o",
            BasicValue::Signature(_) => "g",
        };
        proof {
            reveal_strlit("y");
            reveal_strlit("b");
            reveal_strlit("n");
            reveal_strlit("q");
            reveal_strlit("i");
            reveal_strlit("u");
            reveal_strlit("x");
            reveal_strlit("t");
            reveal_strlit("s");
            reveal_strlit("o");
            reveal_strlit("g");
            assert(letter@ =~= self.signature());
        }
        letter.to_owned()
    }
}

impl Value {
    /// The signature of a value: a letter for a basic value, a double and a
    /// variant, and the signature that a container was built with.
    pub open spec fn signature(self) -> Seq<char> {
        match self {
            Value::BasicValue(b) => b.signature(),
            Value::Double(_) => seq!['d'],
            Value::Array(a) => a.signature.0@,
            Value::Variant(_) => seq!['v'],
            Value::Struct(s) => s.signature.0@,
            Value::Dictionary(d) => d.signature.0@,
        }
    }

    /// The signature of a value.
    pub fn get_signature(&self) -> (r: String)
        ensures
            r@ == self.signature(),
    {
        match self {
            Value::BasicValue(b) => b.get_signature(),
            Value::Double(_) => {
                proof {
                    reveal_strlit("d");
                    assert("d"@ =~= seq!['d']);
                }
                "d".to_owned()
            },
            Value::Array(a) => a.signature.0.clone(),
            Value::Variant(_) => {
                proof {
                    reveal_strlit("v");
                    assert("v"@ =~= seq!['v']);
                }
                "v".to_owned()
            },
            Value::Struct(s) => s.signature.0.clone(),
            Value::Dictionary(d) => d.signature.0.clone(),
        }
    }

    /// A string value.
    pub fn string(text: &str) -> (r: Value)
        ensures
            r matches Value::BasicValue(BasicValue::String(s)) && s@ == text@,
    {
        Value::BasicValue(BasicValue::String(text.to_owned()))
    }

    /// The text of a string value.
    pub open spec fn text(self) -> Option<Seq<char>> {
        match self {
            Value::BasicValue(BasicValue::String(s)) => Some(s@),
            _ => None,
        }
    }
}

/// The signatures of a list of values, one after the other.
pub open spec fn signature_of(values: Seq<Value>) -> Seq<char>
    decreases values.len(),
{
    if values.len() == 0 {
        Seq::empty()
    } else {
        signature_of(values.drop_last()) + values.last().signature()
    }
}

/// The signatures of a list of values, one after the other.
pub fn values_signature(values: &Vec<Value>) -> (r: String)
    ensures
        r@ == signature_of(values@),
{
    let mut out = String::new();
    let mut i: usize = 0;
    while i < values.len()
        invariant
            i <= values.len(),
            out@ == signature_of(values@.take(i as int)),
        decreases values.len() - i,
    {
        let one = values[i].get_signature();
        out.append(one.as_str());
        proof {
            assert(values@.take(i as int + 1).drop_last() =~= values@.take(i as int));
        }
        i = i + 1;
    }
    assert(values@.take(i as int) =~= values@);
    out
}

/// A copy of a list of values.
fn copy_values(values: &Vec<Value>) -> (r: Vec<Value>)
    ensures
        r@.len() == values@.len(),
    decreases values,
{
    let mut out: Vec<Value> = Vec::new();
    let mut i: usize = 0;
    while i < values.len()
        invariant
            i <= values.len(),
            out@.len() == i,
        decreases values.len() - i,
    {
        out.push(values[i].clone());
        i = i + 1;
    }
    out
}

/// A copy of a list of dictionary entries.
fn copy_entries(entries: &Vec<(BasicValue, Value)>) -> (r: Vec<(BasicValue, Value)>)
    ensures
        r@.len() == entries@.len(),
    decreases entries,
{
    let mut out: Vec<(BasicValue, Value)> = Vec::new();
    let mut i: usize = 0;
    while i < entries.len()
        invariant
            i <= entries.len(),
            out@.len() == i,
        decreases entries.len() - i,
    {
        out.push((entries[i].0.clone(), entries[i].1.clone()));
        i = i + 1;
    }
    out
}

impl Clone for Value {
    /// A copy of the value.
    fn clone(&self) -> (r: Value)
        decreases self,
    {
        match self {
            Value::BasicValue(b) => Value::BasicValue(b.clone()),
            Value::Double(bits) => Value::Double(*bits),
            Value::Array(a) => Value::Array(
                Array { objects: copy_values(&a.objects), signature: a.signature.clone() },
            ),
            Value::Variant(w) => Value::Variant(
                Variant { object: Box::new((*w.object).clone()), signature: w.signature.clone() },
            ),
            Value::Struct(s) => Value::Struct(
                Struct { objects: copy_values(&s.objects), signature: s.signature.clone() },
            ),
            Value::Dictionary(d) => Value::Dictionary(
                Dictionary { entries: copy_entries(&d.entries), signature: d.signature.clone() },
            ),
        }
    }
}

} // verus!
