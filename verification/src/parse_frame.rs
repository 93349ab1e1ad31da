//! The offsets of window frames.
use vstd::prelude::*;
use crate::parse_coerce;
use crate::parse_coerce::{coerce_to_specific_type, Coercible};
use crate::parse_nodes::{AmprocRow, Catalog, Construct, Expr, ParseError, INT8OID, UNKNOWNOID};
use crate::parse_statement::checkExprIsVarFree;

verus! {

pub const FRAMEOPTION_RANGE: i32 = 0x00002;
pub const FRAMEOPTION_ROWS: i32 = 0x00004;
pub const FRAMEOPTION_GROUPS: i32 = 0x00008;
/// The frame starts at an offset.
pub const FRAMEOPTION_START_OFFSET: i32 = 0x02800;
/// The frame ends at an offset.
pub const FRAMEOPTION_END_OFFSET: i32 = 0x05000;
/// The options of a window without a frame clause.
pub const FRAMEOPTION_DEFAULTS: i32 = 0x00422;
/// The number of the support function that decides what is in range.
pub const BTINRANGE_PROC: i16 = 3;

/// A transformed offset.
pub struct FrameOffset {
    pub node: Option<Expr>,
    /// The function that decides what is in range, where one does.
    pub in_range_func: u32,
}

/// The expression as this type; variables of the query are refused.
pub open spec fn coerced_offset(
    c: Coercible,
    typ: u32,
    construct: Construct,
    func: u32,
) -> Result<FrameOffset, ParseError> {
    match parse_coerce::as_type(c, typ) {
        Err(e) => Err(e),
        Ok(n) => match n.var_location {
            Some(location) => Err(ParseError::ContainsVariables { construct, location }),
            None => Ok(FrameOffset { node: Some(n), in_range_func: func }),
        },
    }
}

/// What was found among the support functions.
pub ghost struct InRange {
    /// How many there are for the column's type.
    pub nfuncs: nat,
    /// How many of them can take the offset.
    pub nmatches: nat,
    pub typ: u32,
    pub func: u32,
}

/// Whether a row is an in-range function for a type.
pub open spec fn is_in_range(r: AmprocRow, family: u32, opcintype: u32) -> bool {
    r.family == family && r.lefttype == opcintype && r.amprocnum == BTINRANGE_PROC
}

/// The first `n` support functions: the one for the preferred type is taken
/// where there is one, else the last that can take the offset.
pub open spec fn in_range(
    cat: &Catalog,
    n: nat,
    family: u32,
    opcintype: u32,
    node_type: u32,
    preferred: u32,
) -> InRange
    decreases n,
{
    if n == 0 {
        InRange { nfuncs: 0, nmatches: 0, typ: 0, func: 0 }
    } else {
        let p = in_range(cat, (n - 1) as nat, family, opcintype, node_type, preferred);
        let r = cat.amprocs@[n - 1];
        if !is_in_range(r, family, opcintype) {
            p
        } else if !cat.coercible(node_type, r.righttype) {
            InRange { nfuncs: p.nfuncs + 1, ..p }
        } else if p.typ != preferred {
            InRange {
                nfuncs: p.nfuncs + 1,
                nmatches: p.nmatches + 1,
                typ: r.righttype,
                func: r.amproc,
            }
        } else {
            InRange { nfuncs: p.nfuncs + 1, nmatches: p.nmatches + 1, ..p }
        }
    }
}

/// The type that the offset is best taken as.
pub open spec fn preferred_type(node_type: u32, opcintype: u32) -> u32 {
    if node_type != UNKNOWNOID {
        node_type
    } else {
        opcintype
    }
}

/// The offset of a RANGE frame.
pub open spec fn range_offset(
    c: Coercible,
    n: Expr,
    family: u32,
    opcintype: u32,
    cat: &Catalog,
) -> Result<FrameOffset, ParseError> {
    let preferred = preferred_type(n.rtype, opcintype);
    let s = in_range(cat, cat.amprocs@.len(), family, opcintype, n.rtype, preferred);
    if s.nfuncs == 0 {
        Err(ParseError::FrameNotSupported { coltype: opcintype, location: n.location })
    } else if s.nmatches == 0 {
        Err(
            ParseError::FrameTypeNotSupported {
                coltype: opcintype,
                offtype: n.rtype,
                location: n.location,
            },
        )
    } else if s.nmatches != 1 && s.typ != preferred {
        Err(
            ParseError::FrameAmbiguous {
                coltype: opcintype,
                offtype: n.rtype,
                location: n.location,
            },
        )
    } else {
        coerced_offset(c, s.typ, Construct::Range, s.func)
    }
}

/// Whether an offset that can be transformed comes with a kind of frame.
pub open spec fn fits(clause: Option<Coercible>, frame_options: i32) -> bool {
    clause matches Some(c) && c.transformed is Ok ==> has_mode(frame_options)
}

/// Whether the options say which kind of frame it is.
pub open spec fn has_mode(frame_options: i32) -> bool {
    frame_options & FRAMEOPTION_ROWS != 0 || frame_options & FRAMEOPTION_RANGE != 0
        || frame_options & FRAMEOPTION_GROUPS != 0
}

/// What a frame that counts rows or groups is called.
pub open spec fn count_construct(frame_options: i32) -> Construct {
    if frame_options & FRAMEOPTION_ROWS != 0 {
        Construct::Rows
    } else {
        Construct::Groups
    }
}

/// The offset of a frame.
pub open spec fn frame_offset(
    frame_options: i32,
    family: u32,
    opcintype: u32,
    clause: Option<Coercible>,
    cat: &Catalog,
) -> Result<FrameOffset, ParseError> {
    match clause {
        None => Ok(FrameOffset { node: None, in_range_func: 0 }),
        Some(c) => match c.transformed {
            Err(e) => Err(ParseError::Outside(e)),
            Ok(n) => if frame_options & FRAMEOPTION_ROWS == 0 && frame_options & FRAMEOPTION_RANGE
                != 0 {
                range_offset(c, n, family, opcintype, cat)
            } else {
                coerced_offset(c, INT8OID, count_construct(frame_options), 0)
            },
        },
    }
}

fn coerce_offset(c: &Coercible, typ: u32, construct: Construct, func: u32) -> (r: Result<
    FrameOffset,
    ParseError,
>)
    ensures
        r == coerced_offset(*c, typ, construct, func),
{
    match coerce_to_specific_type(c, typ) {
        Err(e) => Err(e),
        Ok(n) => match checkExprIsVarFree(&n, construct) {
            Err(e) => Err(e),
            Ok(_) => Ok(FrameOffset { node: Some(n), in_range_func: func }),
        },
    }
}

fn find_in_range(
    cat: &Catalog,
    family: u32,
    opcintype: u32,
    node_type: u32,
    preferred: u32,
) -> (r: (usize, usize, u32, u32))
    ensures
        in_range(cat, cat.amprocs@.len(), family, opcintype, node_type, preferred) == (InRange {
            nfuncs: r.0 as nat,
            nmatches: r.1 as nat,
            typ: r.2,
            func: r.3,
        }),
{
    let mut nfuncs: usize = 0;
    let mut nmatches: usize = 0;
    let mut typ: u32 = 0;
    let mut func: u32 = 0;
    let mut i: usize = 0;
    while i < cat.amprocs.len()
        invariant
            i <= cat.amprocs@.len(),
            nmatches <= nfuncs <= i,
            in_range(cat, i as nat, family, opcintype, node_type, preferred) == (InRange {
                nfuncs: nfuncs as nat,
                nmatches: nmatches as nat,
                typ,
                func,
            }),
        decreases cat.amprocs@.len() - i,
    {
        let r: AmprocRow = cat.amprocs[i];
        if r.family == family && r.lefttype == opcintype && r.amprocnum == BTINRANGE_PROC {
            nfuncs = nfuncs + 1;
            if cat.can_coerce_type(node_type, r.righttype) {
                nmatches = nmatches + 1;
                if typ != preferred {
                    typ = r.righttype;
                    func = r.amproc;
                }
            }
        }
        i = i + 1;
    }
    (nfuncs, nmatches, typ, func)
}

/// Transforms the offset of a frame.
pub fn transformFrameOffset(
    frame_options: i32,
    rangeopfamily: u32,
    rangeopcintype: u32,
    clause: &Option<Coercible>,
    cat: &Catalog,
) -> (r: Result<FrameOffset, ParseError>)
    requires
        fits(*clause, frame_options),
    ensures
        r == frame_offset(frame_options, rangeopfamily, rangeopcintype, *clause, cat),
{
    let c: &Coercible = match clause {
        None => {
            return Ok(FrameOffset { node: None, in_range_func: 0 });
        },
        Some(c) => c,
    };
    let n: &Expr = match &c.transformed {
        Err(e) => {
            return Err(ParseError::Outside(*e));
        },
        Ok(n) => n,
    };
    if frame_options & FRAMEOPTION_ROWS == 0 && frame_options & FRAMEOPTION_RANGE != 0 {
        let preferred: u32 = if n.rtype != UNKNOWNOID {
            n.rtype
        } else {
            rangeopcintype
        };
        let (nfuncs, nmatches, typ, func) = find_in_range(
            cat,
            rangeopfamily,
            rangeopcintype,
            n.rtype,
            preferred,
        );
        if nfuncs == 0 {
            return Err(
                ParseError::FrameNotSupported { coltype: rangeopcintype, location: n.location },
            );
        }
        if nmatches == 0 {
            return Err(
                ParseError::FrameTypeNotSupported {
                    coltype: rangeopcintype,
                    offtype: n.rtype,
                    location: n.location,
                },
            );
        }
        if nmatches != 1 && typ != preferred {
            return Err(
                ParseError::FrameAmbiguous {
                    coltype: rangeopcintype,
                    offtype: n.rtype,
                    location: n.location,
                },
            );
        }
        return coerce_offset(c, typ, Construct::Range, func);
    }
    let construct: Construct = if frame_options & FRAMEOPTION_ROWS != 0 {
        Construct::Rows
    } else {
        Construct::Groups
    };
    coerce_offset(c, INT8OID, construct, 0)
}

/// Where an in-range function takes exactly the offset's own type, that
/// function decides.
pub proof fn law_exact_type_is_taken(
    cat: &Catalog,
    n: nat,
    family: u32,
    opcintype: u32,
    preferred: u32,
    k: int,
)
    requires
        n <= cat.amprocs@.len(),
        0 <= k < n,
        is_in_range(cat.amprocs@[k], family, opcintype),
        cat.amprocs@[k].righttype == preferred,
    ensures
        ({
            let s = in_range(cat, n, family, opcintype, preferred, preferred);
            s.typ == preferred && s.nfuncs >= 1 && s.nmatches >= 1
        }),
    decreases n,
{
    if k < n - 1 {
        law_exact_type_is_taken(cat, (n - 1) as nat, family, opcintype, preferred, k);
    }
}

} // verus!
