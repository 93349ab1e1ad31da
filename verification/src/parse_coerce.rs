//! Expressions as the types that constructs ask for.
use vstd::prelude::*;
use crate::parse_nodes::{Expr, ParseError};

verus! {

/// What coercing an expression to a type gives, with its collations assigned
/// where the construct has them assigned at once.
pub struct CoercedForm {
    pub typ: u32,
    pub expr: Result<Expr, i32>,
}

/// An expression: what transforming it gives, and what coercing that to the
/// types that it can be coerced to gives (errors by their numbers).
pub struct Coercible {
    pub transformed: Result<Expr, i32>,
    pub coerced: Vec<CoercedForm>,
    /// The error of coercing it to any other type.
    pub other: i32,
}

/// The first form of this type from `i` on.
pub open spec fn form_from(forms: Seq<CoercedForm>, typ: u32, i: int) -> int
    decreases forms.len() - i,
{
    if i < 0 || i >= forms.len() {
        forms.len() as int
    } else if forms[i].typ == typ {
        i
    } else {
        form_from(forms, typ, i + 1)
    }
}

/// The transformed expression as this type.
pub open spec fn as_type(c: Coercible, typ: u32) -> Result<Expr, ParseError> {
    match c.transformed {
        Err(e) => Err(ParseError::Outside(e)),
        Ok(_) => {
            let i = form_from(c.coerced@, typ, 0);
            if i < c.coerced@.len() {
                match c.coerced@[i].expr {
                    Ok(e) => Ok(e),
                    Err(e) => Err(ParseError::Outside(e)),
                }
            } else {
                Err(ParseError::Outside(c.other))
            }
        },
    }
}

/// The transformed expression as this type.
pub fn coerce_to_specific_type(c: &Coercible, typ: u32) -> (r: Result<Expr, ParseError>)
    ensures
        r == as_type(*c, typ),
{
    match &c.transformed {
        Err(e) => {
            return Err(ParseError::Outside(*e));
        },
        Ok(_) => {},
    }
    let mut i: usize = 0;
    while i < c.coerced.len()
        invariant
            i <= c.coerced@.len(),
            c.transformed is Ok,
            form_from(c.coerced@, typ, 0) == form_from(c.coerced@, typ, i as int),
        decreases c.coerced@.len() - i,
    {
        if c.coerced[i].typ == typ {
            return match &c.coerced[i].expr {
                Ok(e) => Ok(e.dup()),
                Err(e) => Err(ParseError::Outside(*e)),
            };
        }
        i = i + 1;
    }
    Err(ParseError::Outside(c.other))
}

} // verus!
