//! Values that cross between the host and the virtual machine.

use crate::extn::matchdata::{MatchData, MatchDataView};
use crate::extn::regexp::{Regexp, RegexpView};
use crate::text::decode;
use vstd::prelude::*;
use vstd::string::*;
use vstd::utf8::{decode_utf8, encode_utf8, valid_utf8};

verus! {

/// The integer type of the virtual machine.
pub type Int = i64;

/// A value of the virtual machine in the shape that the host can read.
#[derive(Debug, PartialEq, Eq)]
pub enum Value {
    /// Nothing.
    Nil,
    /// A boolean.
    Bool(bool),
    /// A signed integer.
    Fixnum(Int),
    /// A floating-point number, held as the 64 bits of its representation.
    Float(u64),
    /// A sequence of bytes.
    Bytes(Vec<u8>),
    /// A text.
    String(String),
    /// A sequence of values.
    Array(Vec<Value>),
    /// A regular expression that the host holds.
    Regexp(Regexp),
    /// A match that the host holds.
    MatchData(MatchData),
}

/// The shape of a value as the virtual machine tags it.
#[derive(Debug, Clone, Copy, PartialEq, Eq)]
pub enum Ruby {
    Nil,
    Bool,
    Fixnum,
    Float,
    String,
    Array,
    /// An object whose data the host holds.
    Data,
}

/// The shape of a value as the host wants it.
#[derive(Debug, Clone, Copy, PartialEq, Eq)]
pub enum Rust {
    Bool,
    Bytes,
    SignedInt,
    Float,
    String,
    Vec,
}

/// A conversion was asked for that the tag of the value does not allow.
#[derive(Debug, Clone, Copy, PartialEq, Eq)]
pub struct ConvertError {
    /// The shape that the value has.
    pub from: Ruby,
    /// The shape that was asked for.
    pub to: Rust,
}

/// A [`Value`] over plain values.
pub enum ValueView {
    Nil,
    Bool(bool),
    Fixnum(int),
    Float(u64),
    Bytes(Seq<u8>),
    String(Seq<char>),
    Array(Seq<ValueView>),
    Regexp(RegexpView),
    MatchData(MatchDataView),
}

impl View for Value {
    type V = ValueView;

    open spec fn view(&self) -> ValueView
        decreases self,
    {
        match self {
            Value::Nil => ValueView::Nil,
            Value::Bool(b) => ValueView::Bool(*b),
            Value::Fixnum(i) => ValueView::Fixnum(*i as int),
            Value::Float(bits) => ValueView::Float(*bits),
            Value::Bytes(bytes) => ValueView::Bytes(bytes@),
            Value::String(text) => ValueView::String(text@),
            Value::Array(items) => ValueView::Array(
                Seq::new(
                    items@.len(),
                    |i: int|
                        if 0 <= i < items@.len() {
                            items@[i].view()
                        } else {
                            ValueView::Nil
                        },
                ),
            ),
            Value::Regexp(regexp) => ValueView::Regexp(regexp@),
            Value::MatchData(data) => ValueView::MatchData(data@),
        }
    }
}

impl ValueView {
    /// The tag of the value.
    pub open spec fn ruby_type(self) -> Ruby {
        match self {
            ValueView::Nil => Ruby::Nil,
            ValueView::Bool(_) => Ruby::Bool,
            ValueView::Fixnum(_) => Ruby::Fixnum,
            ValueView::Float(_) => Ruby::Float,
            ValueView::Bytes(_) => Ruby::String,
            ValueView::String(_) => Ruby::String,
            ValueView::Array(_) => Ruby::Array,
            ValueView::Regexp(_) => Ruby::Data,
            ValueView::MatchData(_) => Ruby::Data,
        }
    }
}

impl Value {
    /// The tag of the value. Bytes and text are both strings to the virtual
    /// machine.
    pub fn ruby_type(&self) -> (tag: Ruby)
        ensures
            tag == self@.ruby_type(),
    {
        match self {
            Value::Nil => Ruby::Nil,
            Value::Bool(_) => Ruby::Bool,
            Value::Fixnum(_) => Ruby::Fixnum,
            Value::Float(_) => Ruby::Float,
            Value::Bytes(_) => Ruby::String,
            Value::String(_) => Ruby::String,
            Value::Array(_) => Ruby::Array,
            Value::Regexp(_) => Ruby::Data,
            Value::MatchData(_) => Ruby::Data,
        }
    }

    /// The boolean that the value is; refused where it is none.
    pub fn try_into_bool(&self) -> (converted: Result<bool, ConvertError>)
        ensures
            match self@ {
                ValueView::Bool(b) => converted == Ok::<bool, ConvertError>(b),
                other => converted == Err::<bool, ConvertError>(
                    ConvertError { from: other.ruby_type(), to: Rust::Bool },
                ),
            },
    {
        match self {
            Value::Bool(b) => Ok(*b),
            _ => Err(ConvertError { from: self.ruby_type(), to: Rust::Bool }),
        }
    }

    /// The integer that the value is; refused where it is none.
    pub fn try_into_int(&self) -> (converted: Result<Int, ConvertError>)
        ensures
            match self@ {
                ValueView::Fixnum(i) => converted matches Ok(n) && n == i,
                other => converted == Err::<Int, ConvertError>(
                    ConvertError { from: other.ruby_type(), to: Rust::SignedInt },
                ),
            },
    {
        match self {
            Value::Fixnum(i) => Ok(*i),
            _ => Err(ConvertError { from: self.ruby_type(), to: Rust::SignedInt }),
        }
    }

    /// The bits of the floating-point number that the value is; refused
    /// where it is none.
    pub fn try_into_float_bits(&self) -> (converted: Result<u64, ConvertError>)
        ensures
            match self@ {
                ValueView::Float(bits) => converted == Ok::<u64, ConvertError>(bits),
                other => converted == Err::<u64, ConvertError>(
                    ConvertError { from: other.ruby_type(), to: Rust::Float },
                ),
            },
    {
        match self {
            Value::Float(bits) => Ok(*bits),
            _ => Err(ConvertError { from: self.ruby_type(), to: Rust::Float }),
        }
    }

    /// The text of the value. A text gives itself. Bytes give the text that
    /// they encode, and are refused, as a string that is no text, where
    /// they are no valid UTF-8. A value of any other tag is refused.
    pub fn try_into_string(&self) -> (converted: Result<String, ConvertError>)
        ensures
            match self@ {
                ValueView::String(text) => converted matches Ok(s) && s@ == text,
                ValueView::Bytes(bytes) => if valid_utf8(bytes) {
                    converted matches Ok(s) && s@ == decode_utf8(bytes)
                } else {
                    converted matches Err(error) && error == (ConvertError {
                        from: Ruby::String,
                        to: Rust::String,
                    })
                },
                other => converted matches Err(error) && error == (ConvertError {
                    from: other.ruby_type(),
                    to: Rust::String,
                }),
            },
    {
        match self {
            Value::String(text) => Ok(text.clone()),
            Value::Bytes(bytes) => match decode(bytes.as_slice()) {
                Ok(text) => Ok(text),
                Err(_) => Err(ConvertError { from: Ruby::String, to: Rust::String }),
            },
            _ => Err(ConvertError { from: self.ruby_type(), to: Rust::String }),
        }
    }

    /// The bytes of the value. Bytes give themselves, and a text gives the
    /// bytes that encode it. A value of any other tag is refused.
    pub fn try_into_bytes(&self) -> (converted: Result<Vec<u8>, ConvertError>)
        ensures
            match self@ {
                ValueView::Bytes(bytes) => converted matches Ok(b) && b@ == bytes,
                ValueView::String(text) => converted matches Ok(b) && b@ == encode_utf8(text),
                other => converted matches Err(error) && error == (ConvertError {
                    from: other.ruby_type(),
                    to: Rust::Bytes,
                }),
            },
    {
        match self {
            Value::Bytes(bytes) => Ok(bytes.clone()),
            Value::String(text) => Ok(text.as_str().as_bytes_vec()),
            _ => Err(ConvertError { from: self.ruby_type(), to: Rust::Bytes }),
        }
    }

    /// The values that the value holds; refused where it is no sequence.
    pub fn try_into_array(&self) -> (converted: Result<&Vec<Value>, ConvertError>)
        ensures
            match self {
                Value::Array(items) => converted == Ok::<&Vec<Value>, ConvertError>(items),
                other => converted == Err::<&Vec<Value>, ConvertError>(
                    ConvertError { from: other@.ruby_type(), to: Rust::Vec },
                ),
            },
    {
        match self {
            Value::Array(items) => Ok(items),
            _ => Err(ConvertError { from: self.ruby_type(), to: Rust::Vec }),
        }
    }

    /// Whether the value is nothing.
    pub fn is_nil(&self) -> (nil: bool)
        ensures
            nil == (self@ is Nil),
    {
        match self {
            Value::Nil => true,
            _ => false,
        }
    }
}

} // verus!
