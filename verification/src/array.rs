//! Reading a raw data block token by token.
//!
//! A data block's text is split into whitespace-separated tokens once, and
//! the tokens are then consumed in order as strings, integers or floats;
//! running out of tokens is the data block being shorter than its declared
//! counts promise.

use vstd::prelude::*;

use crate::error::Error;
use crate::error::NumericKind;
use crate::float::FloatBits;
use crate::float::f32_of_text;
use crate::float::parse_f32;
use crate::text::parse_i32;
use crate::text::parse_usize;
use crate::text::spec_parse_i32;
use crate::text::spec_parse_usize;
use crate::text::spec_tokens;
use crate::text::split_tokens;
use crate::text::views_of;

verus! {

/// An in-order reader over the tokens of one raw data block.
pub struct ArrayIter {
    pub tokens: Vec<String>,
    pub pos: usize,
    pub name: String,
}

impl ArrayIter {
    /// Whether the reading position is inside the token list.
    pub open spec fn wf(&self) -> bool {
        self.pos <= self.tokens@.len()
    }

    /// A reader over the whitespace-separated tokens of `text`.  `size` is
    /// the declared element count of the block; it is not needed to read,
    /// only the tokens themselves are.  `name` describes the block in the
    /// error reported when it runs out of tokens.
    pub fn new(text: &String, size: usize, name: &'static str) -> (r: ArrayIter)
        ensures
            views_of(r.tokens@) == spec_tokens(text@),
            r.pos == 0,
            r.name@ == name@,
            r.wf(),
    {
        let tokens = split_tokens(text.as_str());
        proof {
            assert(views_of(tokens@).len() == tokens@.len());
        }
        ArrayIter { tokens, pos: 0, name: name.to_owned() }
    }

    /// Consumes and returns the next token.
    pub fn read_str(&mut self) -> (r: Result<String, Error>)
        requires
            old(self).wf(),
        ensures
            final(self).wf(),
            final(self).tokens == old(self).tokens,
            final(self).name == old(self).name,
            match r {
                Ok(t) => old(self).pos < old(self).tokens@.len() && t@ == old(self).tokens@[old(
                    self,
                ).pos as int]@ && final(self).pos == old(self).pos + 1,
                Err(e) => e matches Error::UnexpectedEndOfData { context } && context@ == old(
                    self,
                ).name@ && old(self).pos == old(self).tokens@.len() && *final(self) == *old(self),
            },
    {
        if self.pos < self.tokens.len() {
            let t = self.tokens[self.pos].clone();
            self.pos = self.pos + 1;
            Ok(t)
        } else {
            Err(Error::UnexpectedEndOfData { context: self.name.clone() })
        }
    }

    /// Consumes the next token and parses it as an unsigned integer.
    pub fn read_usize(&mut self) -> (r: Result<usize, Error>)
        requires
            old(self).wf(),
        ensures
            final(self).wf(),
            final(self).tokens == old(self).tokens,
            final(self).name == old(self).name,
            match r {
                Ok(u) => old(self).pos < old(self).tokens@.len() && spec_parse_usize(
                    old(self).tokens@[old(self).pos as int]@,
                ) == Some(u) && final(self).pos == old(self).pos + 1,
                Err(e) => match e {
                    Error::UnexpectedEndOfData { context } => context@ == old(self).name@ && old(
                        self,
                    ).pos == old(self).tokens@.len() && *final(self) == *old(self),
                    Error::NumericParse { kind, field, token } => old(self).pos < old(
                        self,
                    ).tokens@.len() && spec_parse_usize(token@) is None && token@ == old(
                        self,
                    ).tokens@[old(self).pos as int]@ && kind == NumericKind::Unsigned && final(self).pos
                        == old(self).pos + 1 && field@ == "array element"@,
                    _ => false,
                },
            },
    {
        let t = match self.read_str() {
            Ok(t) => t,
            Err(e) => {
                return Err(e);
            },
        };
        match parse_usize(t.as_str()) {
            Some(u) => Ok(u),
            None => Err(
                Error::NumericParse {
                    kind: NumericKind::Unsigned,
                    field: ("array element").to_owned(),
                    token: t,
                },
            ),
        }
    }

    /// Consumes the next token and parses it as a signed integer.
    pub fn read_i32(&mut self) -> (r: Result<i32, Error>)
        requires
            old(self).wf(),
        ensures
            final(self).wf(),
            final(self).tokens == old(self).tokens,
            final(self).name == old(self).name,
            match r {
                Ok(v) => old(self).pos < old(self).tokens@.len() && spec_parse_i32(
                    old(self).tokens@[old(self).pos as int]@,
                ) == Some(v) && final(self).pos == old(self).pos + 1,
                Err(e) => match e {
                    Error::UnexpectedEndOfData { context } => context@ == old(self).name@ && old(
                        self,
                    ).pos == old(self).tokens@.len() && *final(self) == *old(self),
                    Error::NumericParse { kind, field, token } => old(self).pos < old(
                        self,
                    ).tokens@.len() && spec_parse_i32(token@) is None && token@ == old(
                        self,
                    ).tokens@[old(self).pos as int]@ && kind == NumericKind::Int && final(self).pos == old(
                        self,
                    ).pos + 1 && field@ == "array element"@,
                    _ => false,
                },
            },
    {
        let t = match self.read_str() {
            Ok(t) => t,
            Err(e) => {
                return Err(e);
            },
        };
        match parse_i32(t.as_str()) {
            Some(v) => Ok(v),
            None => Err(
                Error::NumericParse {
                    kind: NumericKind::Int,
                    field: ("array element").to_owned(),
                    token: t,
                },
            ),
        }
    }

    /// Consumes the next token and parses it as a 32-bit float.
    pub fn read_f32(&mut self) -> (r: Result<FloatBits, Error>)
        requires
            old(self).wf(),
        ensures
            final(self).wf(),
            final(self).tokens == old(self).tokens,
            final(self).name == old(self).name,
            match r {
                Ok(f) => old(self).pos < old(self).tokens@.len() && f32_of_text(
                    old(self).tokens@[old(self).pos as int]@,
                ) == Some(f.bits) && final(self).pos == old(self).pos + 1,
                Err(e) => match e {
                    Error::UnexpectedEndOfData { context } => context@ == old(self).name@ && old(
                        self,
                    ).pos == old(self).tokens@.len() && *final(self) == *old(self),
                    Error::NumericParse { kind, field, token } => old(self).pos < old(
                        self,
                    ).tokens@.len() && f32_of_text(token@) is None && token@ == old(
                        self,
                    ).tokens@[old(self).pos as int]@ && kind == NumericKind::Float && final(self).pos
                        == old(self).pos + 1 && field@ == "array element"@,
                    _ => false,
                },
            },
    {
        let t = match self.read_str() {
            Ok(t) => t,
            Err(e) => {
                return Err(e);
            },
        };
        match parse_f32(t.as_str()) {
            Some(f) => Ok(f),
            None => Err(
                Error::NumericParse {
                    kind: NumericKind::Float,
                    field: ("array element").to_owned(),
                    token: t,
                },
            ),
        }
    }
}

} // verus!
