//! SELECT DISTINCT ON, and the ORDER BY and DISTINCT of aggregates.
use vstd::prelude::*;
use crate::parse_distinct;
use crate::parse_group;
use crate::parse_group::addTargetToGroupList;
use crate::parse_nodes::{
    Catalog, ParseError, ParseExprKind, ParseFlags, RawExpr, SortGroupClause, TargetEntry,
};
use crate::parse_sort;
use crate::parse_sort::{
    assignSortGroupRef, find_referred, findTargetlistEntrySQL92, targetIsInSortList,
};

verus! {

/// The target list, the numbers of the DISTINCT ON expressions, and the error
/// that stopped the work.
pub ghost struct RefsBuilt {
    pub tl: Seq<TargetEntry>,
    pub refs: Seq<u32>,
    pub err: Option<ParseError>,
}

/// Numbering the entries that the first `n` DISTINCT ON expressions stand for.
pub open spec fn on_refs(
    tl: Seq<TargetEntry>,
    dl: Seq<RawExpr>,
    n: nat,
    flags: ParseFlags,
) -> RefsBuilt
    decreases n,
{
    if n == 0 {
        RefsBuilt { tl, refs: Seq::empty(), err: None }
    } else {
        let p = on_refs(tl, dl, (n - 1) as nat, flags);
        if p.err is Some {
            p
        } else {
            let f = parse_sort::found_sql92(dl[n - 1], p.tl, ParseExprKind::DistinctOn, flags);
            match f.res {
                Err(e) => RefsBuilt { tl: f.tl, refs: p.refs, err: Some(e) },
                Ok(i) => {
                    let t = parse_sort::numbered(f.tl, i);
                    RefsBuilt { tl: t, refs: p.refs.push(t[i].ressortgroupref), err: None }
                },
            }
        }
    }
}

/// The ORDER BY items that lead DISTINCT ON, whether an item was skipped, and
/// the number of an item that matches after one that does not.
pub ghost struct OnSorted {
    pub sl: Seq<SortGroupClause>,
    pub skipped: bool,
    pub clash: Option<u32>,
}

/// The first `n` ORDER BY items held against the DISTINCT ON expressions.
pub open spec fn on_sorted(sc: Seq<SortGroupClause>, refs: Seq<u32>, n: nat) -> OnSorted
    decreases n,
{
    if n == 0 {
        OnSorted { sl: Seq::empty(), skipped: false, clash: None }
    } else {
        let p = on_sorted(sc, refs, (n - 1) as nat);
        let s = sc[n - 1];
        if p.clash is Some {
            p
        } else if !refs.contains(s.tleSortGroupRef) {
            OnSorted { skipped: true, ..p }
        } else if p.skipped {
            OnSorted { clash: Some(s.tleSortGroupRef), ..p }
        } else {
            OnSorted { sl: p.sl.push(s), ..p }
        }
    }
}

/// The first DISTINCT ON expression from `i` on with this number.
pub open spec fn matching_ref(refs: Seq<u32>, r: u32, i: int) -> int
    decreases refs.len() - i,
{
    if i < 0 || i >= refs.len() {
        refs.len() as int
    } else if refs[i] == r {
        i
    } else {
        matching_ref(refs, r, i + 1)
    }
}

/// Grouping by those of the first `n` DISTINCT ON expressions that ORDER BY
/// does not lead with.
pub open spec fn on_rest(
    tl: Seq<TargetEntry>,
    dl: Seq<RawExpr>,
    refs: Seq<u32>,
    o: OnSorted,
    n: nat,
    cat: &Catalog,
) -> parse_sort::Built
    decreases n,
{
    if n == 0 {
        parse_sort::Built { tl, sl: o.sl, err: None }
    } else {
        let p = on_rest(tl, dl, refs, o, (n - 1) as nat, cat);
        let t = parse_sort::referred_from(p.tl, refs[n - 1], 0);
        if p.err is Some || parse_sort::in_sort_list(p.tl[t].ressortgroupref, 0, p.sl, cat) {
            p
        } else if o.skipped {
            parse_sort::Built {
                err: Some(
                    ParseError::DistinctOnOrderByMismatch { location: dl[n - 1].location },
                ),
                ..p
            }
        } else {
            parse_group::group_added(p.tl, t, p.sl, dl[n - 1].location, cat)
        }
    }
}

/// DISTINCT ON: ORDER BY items that match lend their operators; they must come
/// before all others, and with others present they must cover everything.
pub open spec fn distinct_on(
    tl: Seq<TargetEntry>,
    dl: Seq<RawExpr>,
    sc: Seq<SortGroupClause>,
    flags: ParseFlags,
    cat: &Catalog,
) -> parse_sort::Built {
    let r = on_refs(tl, dl, dl.len(), flags);
    let o = on_sorted(sc, r.refs, sc.len());
    if r.err is Some {
        parse_sort::Built { tl: r.tl, sl: Seq::empty(), err: r.err }
    } else {
        match o.clash {
            Some(c) => parse_sort::Built {
                tl: r.tl,
                sl: o.sl,
                err: Some(
                    ParseError::DistinctOnOrderByMismatch {
                        location: dl[matching_ref(r.refs, c, 0)].location,
                    },
                ),
            },
            None => on_rest(r.tl, dl, r.refs, o, dl.len(), cat),
        }
    }
}

proof fn lemma_on_refs_stop(
    tl: Seq<TargetEntry>,
    dl: Seq<RawExpr>,
    m: nat,
    n: nat,
    flags: ParseFlags,
)
    requires
        m <= n,
        on_refs(tl, dl, m, flags).err is Some,
    ensures
        on_refs(tl, dl, n, flags) == on_refs(tl, dl, m, flags),
    decreases n,
{
    if m < n {
        lemma_on_refs_stop(tl, dl, m, (n - 1) as nat, flags);
    }
}

proof fn lemma_on_sorted_stop(sc: Seq<SortGroupClause>, refs: Seq<u32>, m: nat, n: nat)
    requires
        m <= n,
        on_sorted(sc, refs, m).clash is Some,
    ensures
        on_sorted(sc, refs, n) == on_sorted(sc, refs, m),
    decreases n,
{
    if m < n {
        lemma_on_sorted_stop(sc, refs, m, (n - 1) as nat);
    }
}

proof fn lemma_on_rest_stop(
    tl: Seq<TargetEntry>,
    dl: Seq<RawExpr>,
    refs: Seq<u32>,
    o: OnSorted,
    m: nat,
    n: nat,
    cat: &Catalog,
)
    requires
        m <= n,
        on_rest(tl, dl, refs, o, m, cat).err is Some,
    ensures
        on_rest(tl, dl, refs, o, n, cat) == on_rest(tl, dl, refs, o, m, cat),
    decreases n,
{
    if m < n {
        lemma_on_rest_stop(tl, dl, refs, o, m, (n - 1) as nat, cat);
    }
}

/// Whether every number of a list is that of some entry.
pub open spec fn all_refer(tl: Seq<TargetEntry>, refs: Seq<u32>) -> bool {
    forall|k: int|
        0 <= k < refs.len() ==> #[trigger] refs[k] != 0 && parse_sort::has_ref(tl, refs[k])
}

proof fn lemma_refer_kept(a: Seq<TargetEntry>, b: Seq<TargetEntry>, refs: Seq<u32>)
    requires
        all_refer(a, refs),
        parse_sort::refs_kept(a, b),
    ensures
        all_refer(b, refs),
{
    assert forall|k: int| 0 <= k < refs.len() implies #[trigger] refs[k] != 0
        && parse_sort::has_ref(b, refs[k]) by {
        let j = choose|j: int| 0 <= j < a.len() && (#[trigger] a[j]).ressortgroupref == refs[k];
        assert(b[j].ressortgroupref == refs[k]);
    }
}

/// Grouping by an entry keeps all numbers.
pub proof fn lemma_group_added_keeps(
    tl: Seq<TargetEntry>,
    i: int,
    gl: Seq<SortGroupClause>,
    location: i32,
    cat: &Catalog,
)
    requires
        0 <= i < tl.len(),
        parse_sort::max_ref(tl) < u32::MAX,
    ensures
        parse_sort::refs_kept(tl, parse_group::group_added(tl, i, gl, location, cat).tl),
{
    parse_sort::lemma_settled(tl, i);
    match parse_sort::settled(tl, i) {
        Some(t) => parse_sort::lemma_numbered(t, i),
        None => {},
    }
}

fn contains_ref(refs: &Vec<u32>, r: u32) -> (i: usize)
    ensures
        i == matching_ref(refs@, r, 0),
        i <= refs@.len(),
        i < refs@.len() <==> refs@.contains(r),
{
    let mut i: usize = 0;
    while i < refs.len()
        invariant
            i <= refs@.len(),
            matching_ref(refs@, r, 0) == matching_ref(refs@, r, i as int),
            forall|k: int| 0 <= k < i ==> refs@[k] != r,
        decreases refs@.len() - i,
    {
        if refs[i] == r {
            assert(refs@[i as int] == r);
            return i;
        }
        i = i + 1;
    }
    i
}

/// Where the first DISTINCT ON expression with this number stands.
pub fn get_matching_location(sortgroupref: u32, refs: &Vec<u32>, exprs: &Vec<RawExpr>) -> (r: i32)
    requires
        refs@.contains(sortgroupref),
        refs@.len() <= exprs@.len(),
    ensures
        r == exprs@[matching_ref(refs@, sortgroupref, 0)].location,
{
    let i: usize = contains_ref(refs, sortgroupref);
    exprs[i].location
}

fn number_all(distinctlist: &Vec<RawExpr>, targetlist: &mut Vec<TargetEntry>, flags: ParseFlags) -> (r:
    Result<Vec<u32>, ParseError>)
    requires
        parse_sort::max_ref(old(targetlist)@) + distinctlist@.len() < u32::MAX,
    ensures
        ({
            let b = on_refs(old(targetlist)@, distinctlist@, distinctlist@.len(), flags);
            final(targetlist)@ == b.tl && match r {
                Ok(refs) => b.err is None && refs@ == b.refs && refs@.len() == distinctlist@.len()
                    && all_refer(final(targetlist)@, refs@),
                Err(e) => b.err == Some(e),
            }
        }),
        parse_sort::max_ref(final(targetlist)@) < u32::MAX,
{
    let ghost tl0 = targetlist@;
    let mut refs: Vec<u32> = Vec::new();
    let mut i: usize = 0;
    while i < distinctlist.len()
        invariant
            i <= distinctlist@.len(),
            tl0 == old(targetlist)@,
            refs@.len() == i,
            all_refer(targetlist@, refs@),
            parse_sort::max_ref(tl0) + distinctlist@.len() < u32::MAX,
            parse_sort::max_ref(targetlist@) <= parse_sort::max_ref(tl0) + i,
            on_refs(tl0, distinctlist@, i as nat, flags) == (RefsBuilt {
                tl: targetlist@,
                refs: refs@,
                err: None,
            }),
        decreases distinctlist@.len() - i,
    {
        let ghost before = targetlist@;
        proof {
            parse_sort::lemma_found(
                distinctlist@[i as int],
                before,
                ParseExprKind::DistinctOn,
                false,
                flags,
            );
            parse_sort::lemma_steps_keep(
                distinctlist@[i as int],
                before,
                0,
                ParseExprKind::DistinctOn,
                false,
                flags,
            );
        }
        match findTargetlistEntrySQL92(
            &distinctlist[i],
            targetlist,
            ParseExprKind::DistinctOn,
            flags,
        ) {
            Err(e) => {
                proof {
                    lemma_on_refs_stop(
                        tl0,
                        distinctlist@,
                        (i + 1) as nat,
                        distinctlist@.len(),
                        flags,
                    );
                }
                return Err(e);
            },
            Ok(t) => {
                let ghost mid = targetlist@;
                proof {
                    lemma_refer_kept(before, mid, refs@);
                    parse_sort::lemma_numbered(mid, t as int);
                    parse_sort::lemma_steps_keep(
                        distinctlist@[i as int],
                        mid,
                        t as int,
                        ParseExprKind::DistinctOn,
                        false,
                        flags,
                    );
                    lemma_refer_kept(mid, parse_sort::numbered(mid, t as int), refs@);
                }
                let r: u32 = assignSortGroupRef(targetlist, t);
                assert(targetlist@[t as int].ressortgroupref == r);
                refs.push(r);
            },
        }
        i = i + 1;
    }
    Ok(refs)
}

fn leading_items(
    sort_clause: &Vec<SortGroupClause>,
    refs: &Vec<u32>,
) -> (r: (Vec<SortGroupClause>, bool, Option<u32>))
    ensures
        ({
            let o = on_sorted(sort_clause@, refs@, sort_clause@.len());
            r.0@ == o.sl && r.1 == o.skipped && r.2 == o.clash
        }),
        r.2 matches Some(c) ==> refs@.contains(c),
{
    let mut list: Vec<SortGroupClause> = Vec::new();
    let mut skipped: bool = false;
    let mut k: usize = 0;
    while k < sort_clause.len()
        invariant
            k <= sort_clause@.len(),
            on_sorted(sort_clause@, refs@, k as nat) == (OnSorted {
                sl: list@,
                skipped,
                clash: None,
            }),
        decreases sort_clause@.len() - k,
    {
        let s: SortGroupClause = sort_clause[k];
        if contains_ref(refs, s.tleSortGroupRef) < refs.len() {
            if skipped {
                proof {
                    lemma_on_sorted_stop(
                        sort_clause@,
                        refs@,
                        (k + 1) as nat,
                        sort_clause@.len(),
                    );
                }
                return (list, skipped, Some(s.tleSortGroupRef));
            }
            list.push(s);
        } else {
            skipped = true;
        }
        k = k + 1;
    }
    (list, skipped, None)
}

/// Transforms DISTINCT ON into a list to group by.
pub fn transformDistinctOnClause(
    distinctlist: &Vec<RawExpr>,
    targetlist: &mut Vec<TargetEntry>,
    sort_clause: &Vec<SortGroupClause>,
    flags: ParseFlags,
    cat: &Catalog,
) -> (r: Result<Vec<SortGroupClause>, ParseError>)
    requires
        distinctlist@.len() > 0,
        parse_sort::max_ref(old(targetlist)@) + distinctlist@.len() < u32::MAX,
    ensures
        parse_distinct::comes_to(
            final(targetlist)@,
            r,
            distinct_on(old(targetlist)@, distinctlist@, sort_clause@, flags, cat),
        ),
{
    let ghost tl0 = targetlist@;
    let refs: Vec<u32> = match number_all(distinctlist, targetlist, flags) {
        Err(e) => {
            return Err(e);
        },
        Ok(refs) => refs,
    };
    let ghost tl1 = targetlist@;
    let (mut result, skipped, clash) = leading_items(sort_clause, &refs);
    if let Some(c) = clash {
        let location: i32 = get_matching_location(c, &refs, distinctlist);
        return Err(ParseError::DistinctOnOrderByMismatch { location });
    }
    let ghost o = on_sorted(sort_clause@, refs@, sort_clause@.len());
    let mut i: usize = 0;
    while i < distinctlist.len()
        invariant
            i <= distinctlist@.len(),
            refs@.len() == distinctlist@.len(),
            tl0 == old(targetlist)@,
            on_refs(tl0, distinctlist@, distinctlist@.len(), flags) == (RefsBuilt {
                tl: tl1,
                refs: refs@,
                err: None,
            }),
            o == on_sorted(sort_clause@, refs@, sort_clause@.len()),
            o.clash is None,
            o.skipped == skipped,
            all_refer(targetlist@, refs@),
            parse_sort::max_ref(targetlist@) < u32::MAX,
            parse_sort::is_built(
                targetlist@,
                result@,
                None,
                on_rest(tl1, distinctlist@, refs@, o, i as nat, cat),
            ),
        decreases distinctlist@.len() - i,
    {
        proof {
            assert(refs@[i as int] != 0);
            parse_sort::lemma_referred(targetlist@, refs@[i as int], 0);
        }
        let t: usize = find_referred(targetlist, refs[i]);
        if !targetIsInSortList(targetlist[t].ressortgroupref, 0, &result, cat) {
            if skipped {
                proof {
                    lemma_on_rest_stop(
                        tl1,
                        distinctlist@,
                        refs@,
                        o,
                        (i + 1) as nat,
                        distinctlist@.len(),
                        cat,
                    );
                }
                return Err(
                    ParseError::DistinctOnOrderByMismatch { location: distinctlist[i].location },
                );
            }
            proof {
                lemma_group_added_keeps(
                    targetlist@,
                    t as int,
                    result@,
                    distinctlist@[i as int].location,
                    cat,
                );
                lemma_refer_kept(
                    targetlist@,
                    parse_group::group_added(
                        targetlist@,
                        t as int,
                        result@,
                        distinctlist@[i as int].location,
                        cat,
                    ).tl,
                    refs@,
                );
            }
            match addTargetToGroupList(targetlist, t, &mut result, distinctlist[i].location, cat) {
                Err(e) => {
                    proof {
                        lemma_on_rest_stop(
                            tl1,
                            distinctlist@,
                            refs@,
                            o,
                            (i + 1) as nat,
                            distinctlist@.len(),
                            cat,
                        );
                    }
                    return Err(e);
                },
                Ok(_) => {},
            }
        }
        i = i + 1;
    }
    Ok(result)
}

/// What DISTINCT ON takes from ORDER BY is a prefix of it, and no later ORDER
/// BY item is about a DISTINCT ON expression.
pub proof fn law_distinct_on_takes_a_prefix(sc: Seq<SortGroupClause>, refs: Seq<u32>, n: nat)
    requires
        n <= sc.len(),
        on_sorted(sc, refs, n).clash is None,
    ensures
        ({
            let o = on_sorted(sc, refs, n);
            &&& o.sl.len() <= n
            &&& o.sl == sc.take(o.sl.len() as int)
            &&& o.skipped <==> o.sl.len() < n
            &&& forall|k: int|
                o.sl.len() <= k < n ==> !refs.contains((#[trigger] sc[k]).tleSortGroupRef)
        }),
    decreases n,
{
    if n > 0 {
        law_distinct_on_takes_a_prefix(sc, refs, (n - 1) as nat);
        let p = on_sorted(sc, refs, (n - 1) as nat);
        let o = on_sorted(sc, refs, n);
        if refs.contains(sc[n - 1].tleSortGroupRef) {
            assert(o.sl =~= sc.take(n as int));
        }
    } else {
        assert(sc.take(0) =~= Seq::empty());
    }
}

} // verus!
