//! SELECT DISTINCT and SELECT DISTINCT ON.
use vstd::prelude::*;
use crate::parse_group;
use crate::parse_group::addTargetToGroupList;
use crate::parse_nodes::{Catalog, ParseError, SortGroupClause, TargetEntry};
use crate::parse_sort;
use crate::parse_sort::find_referred;

verus! {

/// Whether every item of a sort list is about an entry of the target list.
pub open spec fn refers(tl: Seq<TargetEntry>, sc: Seq<SortGroupClause>) -> bool {
    forall|k: int|
        0 <= k < sc.len() ==> parse_sort::referred_from(
            tl,
            (#[trigger] sc[k]).tleSortGroupRef,
            0,
        ) < tl.len()
}

/// The entry that an item of a sort list is about.
pub open spec fn sorted_entry(tl: Seq<TargetEntry>, s: SortGroupClause) -> TargetEntry {
    tl[parse_sort::referred_from(tl, s.tleSortGroupRef, 0)]
}

/// The first ORDER BY item from `k` on that is not part of the result.
pub open spec fn junk_from(tl: Seq<TargetEntry>, sc: Seq<SortGroupClause>, k: int) -> int
    decreases sc.len() - k,
{
    if k < 0 || k >= sc.len() {
        sc.len() as int
    } else if sorted_entry(tl, sc[k]).resjunk {
        k
    } else {
        junk_from(tl, sc, k + 1)
    }
}

/// Grouping by those of the first `n` entries that are part of the result.
pub open spec fn results_grouped(
    tl: Seq<TargetEntry>,
    sc: Seq<SortGroupClause>,
    n: nat,
    cat: &Catalog,
) -> parse_sort::Built
    decreases n,
{
    if n == 0 {
        parse_sort::Built { tl, sl: sc, err: None }
    } else {
        let b = results_grouped(tl, sc, (n - 1) as nat, cat);
        if b.err is Some || b.tl[n - 1].resjunk {
            b
        } else {
            parse_group::group_added(b.tl, n - 1, b.sl, b.tl[n - 1].expr.location, cat)
        }
    }
}

/// DISTINCT: the ORDER BY items, then the rest of the result.
pub open spec fn distinct(
    tl: Seq<TargetEntry>,
    sc: Seq<SortGroupClause>,
    is_agg: bool,
    cat: &Catalog,
) -> parse_sort::Built {
    let j = junk_from(tl, sc, 0);
    if j < sc.len() {
        parse_sort::Built {
            tl,
            sl: sc,
            err: Some(
                ParseError::DistinctOrderByMismatch {
                    is_agg,
                    location: sorted_entry(tl, sc[j]).expr.location,
                },
            ),
        }
    } else {
        let b = results_grouped(tl, sc, tl.len(), cat);
        if b.err is None && b.sl.len() == 0 {
            parse_sort::Built { err: Some(ParseError::DistinctNoColumns { is_agg }), ..b }
        } else {
            b
        }
    }
}

proof fn lemma_results_grouped_stop(
    tl: Seq<TargetEntry>,
    sc: Seq<SortGroupClause>,
    m: nat,
    n: nat,
    cat: &Catalog,
)
    requires
        m <= n,
        results_grouped(tl, sc, m, cat).err is Some,
    ensures
        results_grouped(tl, sc, n, cat) == results_grouped(tl, sc, m, cat),
    decreases n,
{
    if m < n {
        lemma_results_grouped_stop(tl, sc, m, (n - 1) as nat, cat);
    }
}

/// What a call came to is what is described.
pub open spec fn comes_to(
    tl: Seq<TargetEntry>,
    r: Result<Vec<SortGroupClause>, ParseError>,
    b: parse_sort::Built,
) -> bool {
    tl == b.tl && match r {
        Ok(list) => b.err is None && list@ == b.sl,
        Err(e) => b.err == Some(e),
    }
}

/// Transforms DISTINCT into a list to group by: all ORDER BY items, which must
/// be part of the result, followed by the rest of the result.
pub fn transformDistinctClause(
    targetlist: &mut Vec<TargetEntry>,
    sort_clause: &Vec<SortGroupClause>,
    is_agg: bool,
    cat: &Catalog,
) -> (r: Result<Vec<SortGroupClause>, ParseError>)
    requires
        refers(old(targetlist)@, sort_clause@),
        parse_sort::max_ref(old(targetlist)@) + old(targetlist)@.len() <= u32::MAX,
    ensures
        comes_to(
            final(targetlist)@,
            r,
            distinct(old(targetlist)@, sort_clause@, is_agg, cat),
        ),
        final(targetlist)@.len() == old(targetlist)@.len(),
{
    let ghost tl0 = targetlist@;
    let mut result: Vec<SortGroupClause> = Vec::new();
    let mut k: usize = 0;
    while k < sort_clause.len()
        invariant
            k <= sort_clause@.len(),
            targetlist@ == tl0,
            tl0 == old(targetlist)@,
            refers(tl0, sort_clause@),
            result@ == sort_clause@.take(k as int),
            junk_from(tl0, sort_clause@, 0) == junk_from(tl0, sort_clause@, k as int),
        decreases sort_clause@.len() - k,
    {
        assert(refers(tl0, sort_clause@));
        let s: SortGroupClause = sort_clause[k];
        let t: usize = find_referred(targetlist, s.tleSortGroupRef);
        if targetlist[t].resjunk {
            return Err(
                ParseError::DistinctOrderByMismatch {
                    is_agg,
                    location: targetlist[t].expr.location,
                },
            );
        }
        result.push(s);
        k = k + 1;
        assert(sort_clause@.take(k as int) =~= sort_clause@.take(k - 1).push(s));
    }
    assert(sort_clause@.take(k as int) =~= sort_clause@);
    let n: usize = targetlist.len();
    let mut i: usize = 0;
    while i < n
        invariant
            i <= n,
            n == tl0.len(),
            n == targetlist@.len(),
            tl0 == old(targetlist)@,
            junk_from(tl0, sort_clause@, 0) == sort_clause@.len(),
            parse_sort::max_ref(tl0) + tl0.len() <= u32::MAX,
            parse_sort::max_ref(targetlist@) <= parse_sort::max_ref(tl0) + i,
            parse_sort::is_built(
                targetlist@,
                result@,
                None,
                results_grouped(tl0, sort_clause@, i as nat, cat),
            ),
        decreases n - i,
    {
        if !targetlist[i].resjunk {
            let location: i32 = targetlist[i].expr.location;
            match addTargetToGroupList(targetlist, i, &mut result, location, cat) {
                Err(e) => {
                    proof {
                        lemma_results_grouped_stop(
                            tl0,
                            sort_clause@,
                            (i + 1) as nat,
                            tl0.len(),
                            cat,
                        );
                    }
                    return Err(e);
                },
                Ok(_) => {},
            }
        }
        i = i + 1;
    }
    if result.len() == 0 {
        return Err(ParseError::DistinctNoColumns { is_agg });
    }
    Ok(result)
}

/// Whether a list groups by an entry.
pub open spec fn covered(t: TargetEntry, sl: Seq<SortGroupClause>) -> bool {
    t.ressortgroupref != 0 && exists|k: int|
        0 <= k < sl.len() && (#[trigger] sl[k]).tleSortGroupRef == t.ressortgroupref
}

/// Grouping by an entry covers it, uncovers no other, and keeps what the list
/// held.
proof fn lemma_group_added(
    tl: Seq<TargetEntry>,
    i: int,
    gl: Seq<SortGroupClause>,
    location: i32,
    cat: &Catalog,
)
    requires
        0 <= i < tl.len(),
        parse_sort::max_ref(tl) < u32::MAX,
    ensures
        ({
            let b = parse_group::group_added(tl, i, gl, location, cat);
            &&& b.tl.len() == tl.len()
            &&& gl.len() <= b.sl.len()
            &&& b.sl.take(gl.len() as int) == gl
            &&& b.err is None ==> covered(b.tl[i], b.sl)
            &&& forall|j: int|
                0 <= j < tl.len() && covered(#[trigger] tl[j], gl) ==> covered(b.tl[j], b.sl)
            &&& forall|j: int| 0 <= j < tl.len() ==> (#[trigger] b.tl[j]).resjunk == tl[j].resjunk
            &&& parse_sort::max_ref(b.tl) <= parse_sort::max_ref(tl) + 1
        }),
{
    parse_sort::lemma_settled(tl, i);
    let b = parse_group::group_added(tl, i, gl, location, cat);
    assert(b.sl.take(gl.len() as int) =~= gl);
    match parse_sort::settled(tl, i) {
        None => {},
        Some(t) => {
            parse_sort::lemma_numbered(t, i);
            parse_sort::lemma_max_ref(t);
            if b.err is None {
                if parse_sort::in_sort_list(t[i].ressortgroupref, 0, gl, cat) {
                    let k = choose|k: int|
                        0 <= k < gl.len() && parse_sort::item_is_about(
                            #[trigger] gl[k],
                            t[i].ressortgroupref,
                            0,
                            cat,
                        );
                    assert(b.sl[k].tleSortGroupRef == b.tl[i].ressortgroupref);
                } else {
                    assert(b.sl[gl.len() as int].tleSortGroupRef == b.tl[i].ressortgroupref);
                }
            }
            assert forall|j: int| 0 <= j < tl.len() && covered(#[trigger] tl[j], gl) implies covered(
                b.tl[j],
                b.sl,
            ) by {
                let k = choose|k: int|
                    0 <= k < gl.len() && (#[trigger] gl[k]).tleSortGroupRef
                        == tl[j].ressortgroupref;
                assert(b.sl[k] == gl[k]);
                assert(b.tl[j].ressortgroupref == tl[j].ressortgroupref);
            }
        },
    }
}

proof fn lemma_results_grouped(
    tl: Seq<TargetEntry>,
    sc: Seq<SortGroupClause>,
    n: nat,
    cat: &Catalog,
)
    requires
        n <= tl.len(),
        parse_sort::max_ref(tl) + tl.len() <= u32::MAX,
    ensures
        ({
            let b = results_grouped(tl, sc, n, cat);
            &&& b.tl.len() == tl.len()
            &&& sc.len() <= b.sl.len()
            &&& b.sl.take(sc.len() as int) == sc
            &&& parse_sort::max_ref(b.tl) <= parse_sort::max_ref(tl) + n
            &&& forall|j: int| 0 <= j < tl.len() ==> (#[trigger] b.tl[j]).resjunk == tl[j].resjunk
            &&& b.err is None ==> forall|j: int|
                0 <= j < n && !(#[trigger] b.tl[j]).resjunk ==> covered(b.tl[j], b.sl)
        }),
    decreases n,
{
    if n == 0 {
        assert(sc.take(sc.len() as int) =~= sc);
    } else {
        lemma_results_grouped(tl, sc, (n - 1) as nat, cat);
        let p = results_grouped(tl, sc, (n - 1) as nat, cat);
        if p.err is None && !p.tl[n - 1].resjunk {
            let b = results_grouped(tl, sc, n, cat);
            lemma_group_added(p.tl, n - 1, p.sl, p.tl[n - 1].expr.location, cat);
            assert(b.sl.take(sc.len() as int) =~= sc) by {
                assert(p.sl.take(sc.len() as int) == sc);
                assert(b.sl.take(p.sl.len() as int) == p.sl);
                assert forall|k: int| 0 <= k < sc.len() implies b.sl[k] == sc[k] by {
                    assert(b.sl[k] == b.sl.take(p.sl.len() as int)[k]);
                    assert(p.sl[k] == p.sl.take(sc.len() as int)[k]);
                }
            }
            if b.err is None {
                assert forall|j: int| 0 <= j < n && !(#[trigger] b.tl[j]).resjunk implies covered(
                    b.tl[j],
                    b.sl,
                ) by {
                    if j < n - 1 {
                        assert(b.tl[j].resjunk == p.tl[j].resjunk);
                        assert(covered(p.tl[j], p.sl));
                    }
                }
            }
        }
    }
}

/// DISTINCT starts with the ORDER BY items and groups by the whole result.
pub proof fn law_distinct_covers_the_result(
    tl: Seq<TargetEntry>,
    sc: Seq<SortGroupClause>,
    is_agg: bool,
    cat: &Catalog,
    j: int,
)
    requires
        parse_sort::max_ref(tl) + tl.len() <= u32::MAX,
        distinct(tl, sc, is_agg, cat).err is None,
        0 <= j < tl.len(),
        !tl[j].resjunk,
    ensures
        ({
            let b = distinct(tl, sc, is_agg, cat);
            sc.len() <= b.sl.len() && b.sl.take(sc.len() as int) == sc && covered(b.tl[j], b.sl)
        }),
{
    lemma_results_grouped(tl, sc, tl.len(), cat);
    let b = results_grouped(tl, sc, tl.len(), cat);
    assert(b.tl[j].resjunk == tl[j].resjunk);
}

} // verus!
