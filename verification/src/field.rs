//! Reading one field of a record: absent, a number, or malformed.

use vstd::prelude::*;
use vstd::string::StringExecFns;
use crate::number::numeric;
use crate::text::{blank, is_blank, is_numeric};

verus! {

/// The text of a number, as it stood in a field.
pub struct Number {
    text: String,
}

impl View for Number {
    type V = Seq<char>;

    closed spec fn view(&self) -> Seq<char> {
        self.text@
    }
}

impl Number {
    #[verifier::type_invariant]
    spec fn denotes_a_number(self) -> bool {
        is_numeric(self.text@)
    }

    /// Takes `s` as a number, if it denotes one.
    pub fn parse(s: &str) -> (n: Option<Number>)
        ensures
            n is Some <==> is_numeric(s@),
            n matches Some(v) ==> v@ == s@,
    {
        if numeric(s) {
            Some(Number { text: String::from_str(s) })
        } else {
            None
        }
    }

    /// The number's text.
    pub fn as_str(&self) -> (s: &str)
        ensures
            s@ == self@,
            is_numeric(s@),
    {
        proof {
            use_type_invariant(self);
        }
        self.text.as_str()
    }
}

impl Clone for Number {
    fn clone(&self) -> (n: Number)
        ensures
            n == *self,
    {
        proof {
            use_type_invariant(self);
        }
        Number { text: self.text.clone() }
    }
}

/// Why a field could not be read.
#[derive(Clone, Copy, Debug, PartialEq, Eq, Structural)]
pub enum FieldError {
    /// The record has no such column.
    Missing,
    /// The field is neither blank nor a number.
    NotNumeric,
}

/// What a field holds: `Ok(None)` for a blank field, which stands for "no
/// current value" and never for zero; the number's text for a number; an
/// error otherwise.
pub open spec fn field_value_of(field: Option<Seq<char>>) -> Result<Option<Seq<char>>, FieldError> {
    match field {
        None => Err(FieldError::Missing),
        Some(s) => if is_blank(s) {
            Ok(None)
        } else if is_numeric(s) {
            Ok(Some(s))
        } else {
            Err(FieldError::NotNumeric)
        },
    }
}

/// The text of each present value, for comparing a reading with its model.
pub open spec fn reading_view(r: Result<Option<Number>, FieldError>) -> Result<
    Option<Seq<char>>,
    FieldError,
> {
    match r {
        Ok(Some(n)) => Ok(Some(n@)),
        Ok(None) => Ok(None),
        Err(e) => Err(e),
    }
}

/// Reads a field. `None` is a column that the record does not have.
pub fn get_field_value(field: Option<&str>) -> (r: Result<Option<Number>, FieldError>)
    ensures
        reading_view(r) == field_value_of(
            match field {
                Some(s) => Some(s@),
                None => None,
            },
        ),
{
    match field {
        None => Err(FieldError::Missing),
        Some(s) => {
            if blank(s) {
                Ok(None)
            } else {
                match Number::parse(s) {
                    Some(n) => Ok(Some(n)),
                    None => Err(FieldError::NotNumeric),
                }
            }
        },
    }
}

} // verus!
