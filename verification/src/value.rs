//! The values that extractors take from a request, and the kinds of text
//! that they read them from.

use vstd::prelude::*;
use crate::text::{parse_bounded, parse_unsigned, same_text};

verus! {

/// A value that an extractor took from a request.
#[derive(Debug)]
pub enum Value {
    Unsigned(u64),
    Text(String),
    Flag(bool),
    /// An optional field that the request does not have.
    Absent,
}

/// The mathematical value of a [`Value`].
pub enum ValueView {
    Unsigned(u64),
    Text(Seq<char>),
    Flag(bool),
    Absent,
}

impl View for Value {
    type V = ValueView;

    open spec fn view(&self) -> ValueView {
        match self {
            Value::Unsigned(n) => ValueView::Unsigned(*n),
            Value::Text(s) => ValueView::Text(s@),
            Value::Flag(b) => ValueView::Flag(*b),
            Value::Absent => ValueView::Absent,
        }
    }
}

impl DeepView for Value {
    type V = ValueView;

    open spec fn deep_view(&self) -> ValueView {
        self@
    }
}

impl Clone for Value {
    fn clone(&self) -> (r: Value)
        ensures
            r@ == self@,
    {
        match self {
            Value::Unsigned(n) => Value::Unsigned(*n),
            Value::Text(s) => Value::Text(s.clone()),
            Value::Flag(b) => Value::Flag(*b),
            Value::Absent => Value::Absent,
        }
    }
}

/// What a piece of text is read as.
#[derive(Debug, Clone, Copy)]
pub enum Kind {
    /// An unsigned decimal number no larger than `max`.
    Unsigned { max: u64 },
    /// The text itself.
    Text,
    /// `true` or `false`.
    Flag,
}

impl Kind {
    /// The value that `text` denotes, if it denotes one of this kind.
    pub open spec fn read(self, text: Seq<char>) -> Option<ValueView> {
        match self {
            Kind::Unsigned { max } => match parse_unsigned(text, max) {
                Some(n) => Some(ValueView::Unsigned(n)),
                None => None,
            },
            Kind::Text => Some(ValueView::Text(text)),
            Kind::Flag => if text == "true"@ {
                Some(ValueView::Flag(true))
            } else if text == "false"@ {
                Some(ValueView::Flag(false))
            } else {
                None
            },
        }
    }

    /// Reads `text` as a value of this kind.
    pub fn parse(&self, text: &str) -> (r: Option<Value>)
        ensures
            r.deep_view() == self.read(text@),
    {
        match self {
            Kind::Unsigned { max } => match parse_bounded(text, *max) {
                Some(n) => Some(Value::Unsigned(n)),
                None => None,
            },
            Kind::Text => Some(Value::Text(text.to_owned())),
            Kind::Flag => {
                if same_text(text, "true") {
                    Some(Value::Flag(true))
                } else if same_text(text, "false") {
                    Some(Value::Flag(false))
                } else {
                    None
                }
            },
        }
    }

    /// Unsigned numbers that fit in 16 bits.
    pub fn u16() -> (k: Kind)
        ensures
            k == (Kind::Unsigned { max: 0xffff }),
    {
        Kind::Unsigned { max: 0xffff }
    }

    /// Unsigned numbers that fit in 32 bits.
    pub fn u32() -> (k: Kind)
        ensures
            k == (Kind::Unsigned { max: 0xffff_ffff }),
    {
        Kind::Unsigned { max: 0xffff_ffff }
    }

    /// Unsigned numbers that fit in 64 bits.
    pub fn u64() -> (k: Kind)
        ensures
            k == (Kind::Unsigned { max: u64::MAX }),
    {
        Kind::Unsigned { max: u64::MAX }
    }

    /// Unsigned numbers that fit in a `usize`.
    pub fn usize() -> (k: Kind)
        ensures
            k == (Kind::Unsigned { max: usize::MAX as u64 }),
    {
        Kind::Unsigned { max: usize::MAX as u64 }
    }
}

} // verus!
