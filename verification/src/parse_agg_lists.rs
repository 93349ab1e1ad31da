//! The ORDER BY, DISTINCT and WITHIN GROUP of aggregate calls.
use vstd::prelude::*;
use crate::parse_distinct;
use crate::parse_distinct::transformDistinctClause;
use crate::parse_distinct_on;
use crate::parse_group;
use crate::parse_nodes::{
    Catalog, ParseError, ParseExprKind, ParseFlags, SortBy, SortGroupClause, TargetEntry,
};
use crate::parse_sort;
use crate::parse_sort::{addTargetToSortList, find_referred, transformSortClause};

verus! {

/// A list that groups by an entry stays about entries of the target list.
proof fn lemma_group_added_listed(
    tl: Seq<TargetEntry>,
    i: int,
    gl: Seq<SortGroupClause>,
    location: i32,
    cat: &Catalog,
)
    requires
        0 <= i < tl.len(),
        parse_sort::max_ref(tl) < u32::MAX,
        parse_sort::listed(tl, gl),
    ensures
        ({
            let b = parse_group::group_added(tl, i, gl, location, cat);
            parse_sort::listed(b.tl, b.sl) && b.tl.len() == tl.len() && parse_sort::max_ref(b.tl)
                <= parse_sort::max_ref(tl) + 1
        }),
{
    let b = parse_group::group_added(tl, i, gl, location, cat);
    parse_sort::lemma_settled(tl, i);
    parse_distinct_on::lemma_group_added_keeps(tl, i, gl, location, cat);
    parse_sort::lemma_listed_kept(tl, b.tl, gl);
    match parse_sort::settled(tl, i) {
        None => {},
        Some(t) => {
            parse_sort::lemma_numbered(t, i);
            assert forall|k: int| 0 <= k < b.sl.len() implies (#[trigger] b.sl[k]).tleSortGroupRef
                != 0 && parse_sort::has_ref(b.tl, b.sl[k].tleSortGroupRef) by {
                if k < gl.len() {
                    assert(b.sl[k] == gl[k]);
                } else {
                    assert(b.tl[i].ressortgroupref == b.sl[k].tleSortGroupRef);
                }
            }
        },
    }
}

/// Every item of DISTINCT is about an entry of the target list.
pub proof fn law_distinct_is_about_entries(
    tl: Seq<TargetEntry>,
    sc: Seq<SortGroupClause>,
    n: nat,
    cat: &Catalog,
)
    requires
        n <= tl.len(),
        parse_sort::max_ref(tl) + tl.len() <= u32::MAX,
        parse_sort::listed(tl, sc),
    ensures
        ({
            let b = parse_distinct::results_grouped(tl, sc, n, cat);
            parse_sort::listed(b.tl, b.sl) && b.tl.len() == tl.len() && parse_sort::max_ref(b.tl)
                <= parse_sort::max_ref(tl) + n
        }),
    decreases n,
{
    if n > 0 {
        law_distinct_is_about_entries(tl, sc, (n - 1) as nat, cat);
        let p = parse_distinct::results_grouped(tl, sc, (n - 1) as nat, cat);
        if p.err is None && !p.tl[n - 1].resjunk {
            lemma_group_added_listed(p.tl, n - 1, p.sl, p.tl[n - 1].expr.location, cat);
        }
    }
}

/// ORDER BY adds one entry per item at most.
proof fn lemma_sorted_len(
    tl: Seq<TargetEntry>,
    orderby: Seq<SortBy>,
    n: nat,
    kind: ParseExprKind,
    use_sql99: bool,
    flags: ParseFlags,
    cat: &Catalog,
)
    ensures
        tl.len() <= parse_sort::sorted(tl, orderby, n, kind, use_sql99, flags, cat).tl.len()
            <= tl.len() + n,
    decreases n,
{
    if n > 0 {
        lemma_sorted_len(tl, orderby, (n - 1) as nat, kind, use_sql99, flags, cat);
        let p = parse_sort::sorted(tl, orderby, (n - 1) as nat, kind, use_sql99, flags, cat);
        parse_sort::lemma_found(orderby[n - 1].node, p.tl, kind, use_sql99, flags);
        parse_sort::lemma_found_bounds(orderby[n - 1].node, p.tl, kind, use_sql99, flags);
    }
}

/// The first item from `k` on that cannot be sorted.
pub open spec fn unsortable_from(sl: Seq<SortGroupClause>, k: int) -> int
    decreases sl.len() - k,
{
    if k < 0 || k >= sl.len() {
        sl.len() as int
    } else if sl[k].sortop == 0 {
        k
    } else {
        unsortable_from(sl, k + 1)
    }
}

/// The types of the entries that are part of the result.
pub open spec fn result_types(tl: Seq<TargetEntry>) -> Seq<u32>
    decreases tl.len(),
{
    if tl.len() == 0 {
        Seq::empty()
    } else if tl.last().resjunk {
        result_types(tl.drop_last())
    } else {
        result_types(tl.drop_last()).push(tl.last().expr.rtype)
    }
}

/// The lists of an aggregate call, and the error that stopped the work.
pub ghost struct AggBuilt {
    pub tl: Seq<TargetEntry>,
    pub order: Seq<SortGroupClause>,
    pub distinct: Seq<SortGroupClause>,
    pub err: Option<ParseError>,
}

/// The ORDER BY of an aggregate call, and its DISTINCT if it has one, all of
/// whose items must be sortable.
pub open spec fn agg_lists(
    tl: Seq<TargetEntry>,
    agg_order: Seq<SortBy>,
    agg_distinct: bool,
    flags: ParseFlags,
    cat: &Catalog,
) -> AggBuilt {
    let o = parse_sort::sorted(
        tl,
        agg_order,
        agg_order.len(),
        ParseExprKind::OrderBy,
        true,
        flags,
        cat,
    );
    if o.err is Some || !agg_distinct {
        AggBuilt { tl: o.tl, order: o.sl, distinct: Seq::empty(), err: o.err }
    } else {
        let d = parse_distinct::distinct(o.tl, o.sl, true, cat);
        let u = unsortable_from(d.sl, 0);
        AggBuilt {
            tl: d.tl,
            order: o.sl,
            distinct: d.sl,
            err: if d.err is None && u < d.sl.len() {
                let t = parse_distinct::sorted_entry(d.tl, d.sl[u]);
                Some(ParseError::NoDistinctOrdering { typ: t.expr.rtype, location: t.expr.location })
            } else {
                d.err
            },
        }
    }
}

/// The lists of an aggregate call.
pub struct AggLists {
    pub order: Vec<SortGroupClause>,
    pub distinct: Vec<SortGroupClause>,
    /// The types of its arguments.
    pub argtypes: Vec<u32>,
}

fn argument_types(tlist: &Vec<TargetEntry>) -> (r: Vec<u32>)
    ensures
        r@ == result_types(tlist@),
{
    let mut types: Vec<u32> = Vec::new();
    let mut i: usize = 0;
    assert(tlist@.take(0) =~= Seq::empty());
    while i < tlist.len()
        invariant
            i <= tlist@.len(),
            types@ == result_types(tlist@.take(i as int)),
        decreases tlist@.len() - i,
    {
        assert(tlist@.take(i + 1).drop_last() =~= tlist@.take(i as int));
        if !tlist[i].resjunk {
            types.push(tlist[i].expr.rtype);
        }
        i = i + 1;
    }
    assert(tlist@.take(i as int) =~= tlist@);
    types
}

/// Transforms the ORDER BY and the DISTINCT of an aggregate call.
pub fn transform_agg_order_distinct(
    tlist: &mut Vec<TargetEntry>,
    agg_order: &Vec<SortBy>,
    agg_distinct: bool,
    flags: ParseFlags,
    cat: &Catalog,
) -> (r: Result<AggLists, ParseError>)
    requires
        parse_sort::max_ref(old(tlist)@) + old(tlist)@.len() + 2 * agg_order@.len() <= u32::MAX,
    ensures
        ({
            let b = agg_lists(old(tlist)@, agg_order@, agg_distinct, flags, cat);
            final(tlist)@ == b.tl && match r {
                Ok(l) => b.err is None && l.order@ == b.order && l.distinct@ == b.distinct
                    && l.argtypes@ == result_types(b.tl),
                Err(e) => b.err == Some(e),
            }
        }),
{
    let ghost tl0 = tlist@;
    proof {
        parse_sort::law_sort_list_is_about_entries(
            tl0,
            agg_order@,
            agg_order@.len(),
            ParseExprKind::OrderBy,
            true,
            flags,
            cat,
        );
        lemma_sorted_len(
            tl0,
            agg_order@,
            agg_order@.len(),
            ParseExprKind::OrderBy,
            true,
            flags,
            cat,
        );
    }
    let order: Vec<SortGroupClause> = match transformSortClause(
        agg_order,
        tlist,
        ParseExprKind::OrderBy,
        true,
        flags,
        cat,
    ) {
        Err(e) => {
            return Err(e);
        },
        Ok(l) => l,
    };
    if !agg_distinct {
        let argtypes: Vec<u32> = argument_types(tlist);
        return Ok(AggLists { order, distinct: Vec::new(), argtypes });
    }
    let ghost tl1 = tlist@;
    proof {
        assert forall|k: int| 0 <= k < order@.len() implies parse_sort::referred_from(
            tl1,
            (#[trigger] order@[k]).tleSortGroupRef,
            0,
        ) < tl1.len() by {
            parse_sort::lemma_referred(tl1, order@[k].tleSortGroupRef, 0);
        }
        law_distinct_is_about_entries(tl1, order@, tl1.len(), cat);
    }
    let distinct: Vec<SortGroupClause> = match transformDistinctClause(tlist, &order, true, cat) {
        Err(e) => {
            return Err(e);
        },
        Ok(l) => l,
    };
    let mut k: usize = 0;
    while k < distinct.len()
        invariant
            k <= distinct@.len(),
            parse_sort::listed(tlist@, distinct@),
            unsortable_from(distinct@, 0) == unsortable_from(distinct@, k as int),
            ({
                let b = agg_lists(old(tlist)@, agg_order@, agg_distinct, flags, cat);
                let u = unsortable_from(distinct@, 0);
                &&& b.tl == tlist@
                &&& b.order == order@
                &&& b.distinct == distinct@
                &&& u < distinct@.len() ==> b.err == Some(
                    ParseError::NoDistinctOrdering {
                        typ: parse_distinct::sorted_entry(tlist@, distinct@[u]).expr.rtype,
                        location: parse_distinct::sorted_entry(tlist@, distinct@[u]).expr.location,
                    },
                )
                &&& u >= distinct@.len() ==> b.err is None
            }),
        decreases distinct@.len() - k,
    {
        if distinct[k].sortop == 0 {
            proof {
                assert(distinct@[k as int].tleSortGroupRef != 0);
                parse_sort::lemma_referred(tlist@, distinct@[k as int].tleSortGroupRef, 0);
            }
            let t: usize = find_referred(tlist, distinct[k].tleSortGroupRef);
            return Err(
                ParseError::NoDistinctOrdering {
                    typ: tlist[t].expr.rtype,
                    location: tlist[t].expr.location,
                },
            );
        }
        k = k + 1;
    }
    let argtypes: Vec<u32> = argument_types(tlist);
    Ok(AggLists { order, distinct, argtypes })
}

/// The sort list of WITHIN GROUP: the first `n` arguments, each sorted as its
/// ORDER BY item says.
pub open spec fn within_group(
    tl: Seq<TargetEntry>,
    agg_order: Seq<SortBy>,
    n: nat,
    cat: &Catalog,
) -> parse_sort::Built
    decreases n,
{
    if n == 0 {
        parse_sort::Built { tl, sl: Seq::empty(), err: None }
    } else {
        let b = within_group(tl, agg_order, (n - 1) as nat, cat);
        if b.err is Some {
            b
        } else {
            parse_sort::sort_added(b.tl, n - 1, b.sl, agg_order[n - 1], cat)
        }
    }
}

proof fn lemma_within_group_stop(
    tl: Seq<TargetEntry>,
    agg_order: Seq<SortBy>,
    m: nat,
    n: nat,
    cat: &Catalog,
)
    requires
        m <= n,
        within_group(tl, agg_order, m, cat).err is Some,
    ensures
        within_group(tl, agg_order, n, cat) == within_group(tl, agg_order, m, cat),
    decreases n,
{
    if m < n {
        lemma_within_group_stop(tl, agg_order, m, (n - 1) as nat, cat);
    }
}

/// Transforms the WITHIN GROUP of an ordered-set aggregate: one ORDER BY item
/// for each aggregated argument.
pub fn transform_agg_within_group(
    tlist: &mut Vec<TargetEntry>,
    agg_order: &Vec<SortBy>,
    cat: &Catalog,
) -> (r: Result<Vec<SortGroupClause>, ParseError>)
    requires
        old(tlist)@.len() == agg_order@.len(),
        parse_sort::max_ref(old(tlist)@) + agg_order@.len() <= u32::MAX,
    ensures
        parse_distinct::comes_to(
            final(tlist)@,
            r,
            within_group(old(tlist)@, agg_order@, agg_order@.len(), cat),
        ),
{
    let ghost tl0 = tlist@;
    let mut torder: Vec<SortGroupClause> = Vec::new();
    let mut i: usize = 0;
    while i < agg_order.len()
        invariant
            i <= agg_order@.len(),
            tl0 == old(tlist)@,
            tlist@.len() == agg_order@.len(),
            parse_sort::max_ref(tl0) + agg_order@.len() <= u32::MAX,
            parse_sort::max_ref(tlist@) <= parse_sort::max_ref(tl0) + i,
            parse_sort::is_built(
                tlist@,
                torder@,
                None,
                within_group(tl0, agg_order@, i as nat, cat),
            ),
        decreases agg_order@.len() - i,
    {
        match addTargetToSortList(tlist, i, &mut torder, &agg_order[i], cat) {
            Err(e) => {
                proof {
                    lemma_within_group_stop(
                        tl0,
                        agg_order@,
                        (i + 1) as nat,
                        agg_order@.len(),
                        cat,
                    );
                }
                return Err(e);
            },
            Ok(_) => {},
        }
        i = i + 1;
    }
    Ok(torder)
}

} // verus!
