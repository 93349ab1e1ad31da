//! Functions in FROM.
use vstd::prelude::*;
use crate::parse_nodes::ParseError;
use crate::parse_range;
use crate::parse_range::{check_srf_top_level, FromFlags, Srf};
use crate::text::str_eq;

verus! {

/// What transforming the call of an item gave (errors by their numbers).
pub struct FuncReply {
    pub transformed: Result<u64, i32>,
    /// The last set-returning function that was come across before it.
    pub last_srf: Option<Srf>,
    /// The last one that was come across after it.
    pub srf: Option<Srf>,
    /// Whether it refers to other items of the query.
    pub has_vars: Result<bool, i32>,
    /// The name that the call gives to a column.
    pub figured: String,
}

/// A function in FROM.
pub struct RangeFunc {
    pub is_func_call: bool,
    pub funcname: Vec<String>,
    pub nargs: usize,
    pub agg_order: bool,
    pub agg_filter: bool,
    pub over: bool,
    pub agg_star: bool,
    pub agg_distinct: bool,
    pub func_variadic: bool,
    /// How many columns its own column definition list has.
    pub ncoldefs: usize,
    pub location: i32,
    /// What transforming `item_call` gave, for each of its items: one, or one
    /// for each argument where it is taken apart.
    pub replies: Vec<FuncReply>,
}

/// One item of ROWS FROM: a function, or one argument of an UNNEST.
#[derive(Clone, Copy, Debug, PartialEq, Eq, Structural)]
pub struct FuncItem {
    pub func: usize,
    pub arg: usize,
}

/// The call that is transformed for an item.
pub enum ItemCall {
    /// The function as it was written.
    AsWritten,
    /// A plain call with a single argument, which is this one of those that
    /// were written.
    OneArgument { funcname: Vec<String>, arg: usize, location: i32 },
}

/// Which column definition list an item has.
#[derive(Clone, Copy, Debug, PartialEq, Eq, Structural)]
pub enum Coldeflist {
    /// The function's own.
    Of(usize),
    /// The one written behind the whole item.
    Whole,
}

/// Functions in FROM as they were written.
pub struct RangeFunctionDef {
    pub functions: Vec<RangeFunc>,
    pub is_rowsfrom: bool,
    pub ordinality: bool,
    pub lateral: bool,
    /// How many columns the column definition list behind the item has.
    pub ncoldefs: usize,
    pub coldeflist_location: i32,
    /// Assigning collations failed.
    pub collations: Option<i32>,
}

/// Functions in FROM, transformed.
pub struct RangeFunction {
    pub items: Vec<FuncItem>,
    /// The transformed calls, and their names.
    pub funcexprs: Vec<u64>,
    pub funcnames: Vec<String>,
    pub coldeflists: Vec<Coldeflist>,
    pub is_lateral: bool,
}

/// Whether a call is `unnest` of several arguments with nothing around it,
/// which is taken apart into one call for each argument.
pub open spec fn taken_apart(f: RangeFunc) -> bool {
    f.is_func_call && f.funcname@.len() == 1 && f.funcname@[0]@ == "unnest"@ && f.nargs > 1
        && !f.agg_order && !f.agg_filter && !f.over && !f.agg_star && !f.agg_distinct
        && !f.func_variadic && f.ncoldefs == 0
}

/// Whether there is a reply for each item that a function comes to.
pub open spec fn answered(f: RangeFunc) -> bool {
    &&& f.replies@.len() == if taken_apart(f) {
        f.nargs as nat
    } else {
        1
    }
    &&& forall|k: int|
        0 <= k < f.replies@.len() ==> ((#[trigger] f.replies@[k]).srf is None
            ==> f.replies@[k].last_srf is None)
}

/// Whether a call of `unnest` is taken apart into one call per argument.
pub fn is_taken_apart(f: &RangeFunc) -> (r: bool)
    ensures
        r == taken_apart(*f),
{
    f.is_func_call && f.funcname.len() == 1 && str_eq(f.funcname[0].as_str(), "unnest") && f.nargs
        > 1 && !f.agg_order && !f.agg_filter && !f.over && !f.agg_star && !f.agg_distinct
        && !f.func_variadic && f.ncoldefs == 0
}

/// The characters of names.
pub open spec fn name_views(v: Seq<String>) -> Seq<Seq<char>> {
    v.map_values(|s: String| s@)
}

/// The call that is transformed for item `arg` of a function: `pg_catalog.unnest`
/// of one argument where the function is taken apart, else the function itself.
pub fn item_call(f: &RangeFunc, arg: usize) -> (r: ItemCall)
    ensures
        !taken_apart(*f) ==> r is AsWritten,
        taken_apart(*f) ==> (r matches ItemCall::OneArgument { funcname, arg: a, location }
            && name_views(funcname@) == seq!["pg_catalog"@, "unnest"@] && a == arg && location
            == f.location),
{
    if !is_taken_apart(f) {
        return ItemCall::AsWritten;
    }
    let mut funcname: Vec<String> = Vec::new();
    funcname.push(String::from_str("pg_catalog"));
    funcname.push(String::from_str("unnest"));
    assert(name_views(funcname@) =~= seq!["pg_catalog"@, "unnest"@]);
    ItemCall::OneArgument { funcname, arg, location: f.location }
}

/// The items so far, whether one of them refers to other items of the query,
/// and the error that stopped the work.
pub ghost struct ItemsBuilt {
    pub items: Seq<FuncItem>,
    pub exprs: Seq<u64>,
    pub names: Seq<Seq<char>>,
    pub vars: Result<bool, i32>,
    pub err: Option<ParseError>,
}

/// What looking at items in order for references to others gives: the first
/// reference, or error, decides.
pub open spec fn either(a: Result<bool, i32>, b: Result<bool, i32>) -> Result<bool, i32> {
    match a {
        Ok(false) => b,
        _ => a,
    }
}

/// The error that a reply comes to.
pub open spec fn reply_error(r: FuncReply) -> Option<ParseError> {
    match r.transformed {
        Err(e) => Some(ParseError::Outside(e)),
        Ok(expr) => parse_range::srf_refused(r.last_srf, r.srf, expr),
    }
}

/// The first `k` replies for function `i`.
pub open spec fn func_replies(p: ItemsBuilt, replies: Seq<FuncReply>, i: int, k: nat) -> ItemsBuilt
    decreases k,
{
    if k == 0 {
        p
    } else {
        let q = func_replies(p, replies, i, (k - 1) as nat);
        if q.err is Some {
            q
        } else {
            match reply_error(replies[k - 1]) {
                Some(e) => ItemsBuilt { err: Some(e), ..q },
                None => ItemsBuilt {
                    items: q.items.push(FuncItem { func: i as usize, arg: (k - 1) as usize }),
                    exprs: q.exprs.push(replies[k - 1].transformed->Ok_0),
                    names: q.names.push(replies[k - 1].figured@),
                    vars: either(q.vars, replies[k - 1].has_vars),
                    err: None,
                },
            }
        }
    }
}

/// The first `n` functions; none may have two column definition lists.
pub open spec fn func_items(def: RangeFunctionDef, n: nat) -> ItemsBuilt
    decreases n,
{
    if n == 0 {
        ItemsBuilt {
            items: Seq::empty(),
            exprs: Seq::empty(),
            names: Seq::empty(),
            vars: Ok(false),
            err: None,
        }
    } else {
        let p = func_items(def, (n - 1) as nat);
        let f = def.functions@[n - 1];
        if p.err is Some {
            p
        } else {
            let q = func_replies(p, f.replies@, n - 1, f.replies@.len());
            if q.err is None && f.ncoldefs > 0 && def.ncoldefs > 0 {
                ItemsBuilt {
                    err: Some(
                        ParseError::MultipleColdeflists { location: def.coldeflist_location },
                    ),
                    ..q
                }
            } else {
                q
            }
        }
    }
}

/// What is wrong with the column definition list behind the whole item.
pub open spec fn coldeflist_refused(def: RangeFunctionDef, nitems: nat) -> Option<ParseError> {
    let location = def.coldeflist_location;
    if def.ncoldefs == 0 {
        None
    } else if nitems != 1 {
        if def.is_rowsfrom {
            Some(ParseError::RowsFromColdeflist { location })
        } else {
            Some(ParseError::UnnestColdeflist { location })
        }
    } else if def.ordinality {
        Some(ParseError::OrdinalityColdeflist { location })
    } else {
        None
    }
}

/// The error that stops functions in FROM.
pub open spec fn function_error(def: RangeFunctionDef) -> Option<ParseError> {
    let b = func_items(def, def.functions@.len());
    if b.err is Some {
        b.err
    } else {
        match def.collations {
            Some(e) => Some(ParseError::Outside(e)),
            None => match coldeflist_refused(def, b.items.len()) {
                Some(e) => Some(e),
                None => match b.vars {
                    Err(e) if !def.lateral => Some(ParseError::Outside(e)),
                    _ => None,
                },
            },
        }
    }
}

/// The column definition lists of the items.
pub open spec fn coldeflists(def: RangeFunctionDef, items: Seq<FuncItem>) -> Seq<Coldeflist> {
    if def.ncoldefs > 0 {
        seq![Coldeflist::Whole]
    } else {
        items.map_values(|i: FuncItem| Coldeflist::Of(i.func))
    }
}

proof fn lemma_replies_stop(
    p: ItemsBuilt,
    replies: Seq<FuncReply>,
    i: int,
    m: nat,
    k: nat,
)
    requires
        m <= k,
        func_replies(p, replies, i, m).err is Some,
    ensures
        func_replies(p, replies, i, k) == func_replies(p, replies, i, m),
    decreases k,
{
    if m < k {
        lemma_replies_stop(p, replies, i, m, (k - 1) as nat);
    }
}

proof fn lemma_items_stop(def: RangeFunctionDef, m: nat, n: nat)
    requires
        m <= n,
        func_items(def, m).err is Some,
    ensures
        func_items(def, n) == func_items(def, m),
    decreases n,
{
    if m < n {
        lemma_items_stop(def, m, (n - 1) as nat);
    }
}

/// The items that were made so far.
struct Made {
    items: Vec<FuncItem>,
    exprs: Vec<u64>,
    names: Vec<String>,
    vars: Result<bool, i32>,
}

impl Made {
    closed spec fn built(self) -> ItemsBuilt {
        ItemsBuilt {
            items: self.items@,
            exprs: self.exprs@,
            names: name_views(self.names@),
            vars: self.vars,
            err: None,
        }
    }
}

fn take_replies(made: &mut Made, f: &RangeFunc, i: usize) -> (r: Result<(), ParseError>)
    requires
        answered(*f),
    ensures
        ({
            let q = func_replies(old(made).built(), f.replies@, i as int, f.replies@.len());
            match r {
                Ok(_) => q == final(made).built(),
                Err(e) => q.err == Some(e),
            }
        }),
{
    let ghost p = made.built();
    let mut k: usize = 0;
    while k < f.replies.len()
        invariant
            k <= f.replies@.len(),
            answered(*f),
            p == old(made).built(),
            func_replies(p, f.replies@, i as int, k as nat) == made.built(),
        decreases f.replies@.len() - k,
    {
        let reply: &FuncReply = &f.replies[k];
        let ghost before = made.built();
        match reply.transformed {
            Err(e) => {
                proof {
                    lemma_replies_stop(p, f.replies@, i as int, (k + 1) as nat, f.replies@.len());
                }
                return Err(ParseError::Outside(e));
            },
            Ok(expr) => {
                match check_srf_top_level(reply.last_srf, reply.srf, expr) {
                    Err(e) => {
                        proof {
                            lemma_replies_stop(
                                p,
                                f.replies@,
                                i as int,
                                (k + 1) as nat,
                                f.replies@.len(),
                            );
                        }
                        return Err(e);
                    },
                    Ok(_) => {},
                }
                made.exprs.push(expr);
            },
        }
        made.items.push(FuncItem { func: i, arg: k });
        made.names.push(String::from_str(reply.figured.as_str()));
        if let Ok(false) = made.vars {
            made.vars = reply.has_vars;
        }
        k = k + 1;
        assert(made.built().names =~= before.names.push(reply.figured@));
    }
    Ok(())
}

/// Whether the flags stay raised when an error stops the items: only a
/// set-returning function at the wrong place lowers them at once.
pub open spec fn stays_raised(err: Option<ParseError>) -> bool {
    err is Some && !(err->0 is SrfNotTopLevel)
}

/// Transforms functions in FROM, whose calls were transformed while the flags
/// were raised.
pub fn transformRangeFunction(def: &RangeFunctionDef, flags: &mut FromFlags) -> (r: Result<
    RangeFunction,
    ParseError,
>)
    requires
        forall|k: int| 0 <= k < def.functions@.len() ==> answered(#[trigger] def.functions@[k]),
    ensures
        *final(flags) == (if stays_raised(func_items(*def, def.functions@.len()).err) {
            *old(flags)
        } else {
            FromFlags { lateral_active: false, ..*old(flags) }
        }),
        ({
            let b = func_items(*def, def.functions@.len());
            match r {
                Ok(f) => {
                    &&& function_error(*def) is None
                    &&& f.items@ == b.items
                    &&& f.funcexprs@ == b.exprs
                    &&& name_views(f.funcnames@) == b.names
                    &&& f.coldeflists@ == coldeflists(*def, b.items)
                    &&& f.is_lateral == (def.lateral || b.vars == Ok::<bool, i32>(true))
                },
                Err(e) => function_error(*def) == Some(e),
            }
        }),
{
    let mut made: Made = Made {
        items: Vec::new(),
        exprs: Vec::new(),
        names: Vec::new(),
        vars: Ok(false),
    };
    let mut i: usize = 0;
    assert(made.built().names =~= Seq::empty());
    while i < def.functions.len()
        invariant
            i <= def.functions@.len(),
            *flags == *old(flags),
            forall|k: int|
                0 <= k < def.functions@.len() ==> answered(#[trigger] def.functions@[k]),
            func_items(*def, i as nat) == made.built(),
        decreases def.functions@.len() - i,
    {
        assert(answered(def.functions@[i as int]));
        match take_replies(&mut made, &def.functions[i], i) {
            Err(e) => {
                proof {
                    lemma_items_stop(*def, (i + 1) as nat, def.functions@.len());
                }
                match e {
                    ParseError::SrfNotTopLevel { .. } => {
                        flags.lateral_active = false;
                    },
                    _ => {},
                }
                return Err(e);
            },
            Ok(_) => {},
        }
        if def.functions[i].ncoldefs > 0 && def.ncoldefs > 0 {
            proof {
                lemma_items_stop(*def, (i + 1) as nat, def.functions@.len());
            }
            return Err(ParseError::MultipleColdeflists { location: def.coldeflist_location });
        }
        i = i + 1;
    }
    flags.lateral_active = false;
    let Made { items, exprs, names, vars } = made;
    if let Some(e) = def.collations {
        return Err(ParseError::Outside(e));
    }
    let location: i32 = def.coldeflist_location;
    let mut lists: Vec<Coldeflist> = Vec::new();
    if def.ncoldefs > 0 {
        if items.len() != 1 {
            if def.is_rowsfrom {
                return Err(ParseError::RowsFromColdeflist { location });
            }
            return Err(ParseError::UnnestColdeflist { location });
        }
        if def.ordinality {
            return Err(ParseError::OrdinalityColdeflist { location });
        }
        lists.push(Coldeflist::Whole);
        assert(lists@ =~= coldeflists(*def, items@));
    } else {
        let mut k: usize = 0;
        while k < items.len()
            invariant
                k <= items@.len(),
                lists@ == items@.take(k as int).map_values(
                    |i: FuncItem| Coldeflist::Of(i.func),
                ),
            decreases items@.len() - k,
        {
            lists.push(Coldeflist::Of(items[k].func));
            k = k + 1;
            assert(items@.take(k as int) =~= items@.take(k - 1).push(items@[k - 1]));
            assert(lists@ =~= items@.take(k as int).map_values(
                |i: FuncItem| Coldeflist::Of(i.func),
            ));
        }
        assert(items@.take(k as int) =~= items@);
    }
    let mut is_lateral: bool = def.lateral;
    if !is_lateral {
        match vars {
            Err(e) => {
                return Err(ParseError::Outside(e));
            },
            Ok(found) => {
                is_lateral = found;
            },
        }
    }
    Ok(
        RangeFunction {
            items,
            funcexprs: exprs,
            funcnames: names,
            coldeflists: lists,
            is_lateral,
        },
    )
}

proof fn lemma_replies_len(p: ItemsBuilt, replies: Seq<FuncReply>, i: int, k: nat)
    requires
        func_replies(p, replies, i, k).err is None,
        k <= replies.len(),
    ensures
        func_replies(p, replies, i, k).items.len() == p.items.len() + k,
        p.err is None,
    decreases k,
{
    if k > 0 {
        lemma_replies_len(p, replies, i, (k - 1) as nat);
    }
}

/// UNNEST of several arguments is as many items as it has arguments; any other
/// function is one item.
pub proof fn law_items_of_functions(def: RangeFunctionDef, n: nat)
    requires
        0 < n <= def.functions@.len(),
        answered(def.functions@[n - 1]),
        func_items(def, n).err is None,
    ensures
        func_items(def, n).items.len() == func_items(def, (n - 1) as nat).items.len() + if taken_apart(
            def.functions@[n - 1],
        ) {
            def.functions@[n - 1].nargs as nat
        } else {
            1
        },
{
    let p = func_items(def, (n - 1) as nat);
    let f = def.functions@[n - 1];
    lemma_replies_len(p, f.replies@, n - 1, f.replies@.len());
}

} // verus!
