//! What holds of DISTINCT and DISTINCT ON.
use vstd::prelude::*;
use crate::group_laws;
use crate::parse_distinct;
use crate::parse_distinct_on;
use crate::parse_nodes::{
    Catalog, ParseError, ParseExprKind, ParseFlags, RawExpr, SortGroupClause, TargetEntry,
};
use crate::parse_sort;

verus! {

proof fn lemma_junk(tl: Seq<TargetEntry>, sc: Seq<SortGroupClause>, k: int)
    requires
        0 <= k <= sc.len(),
        forall|j: int|
            0 <= j < k ==> !parse_distinct::sorted_entry(tl, #[trigger] sc[j]).resjunk,
    ensures
        ({
            let m = parse_distinct::junk_from(tl, sc, k);
            &&& k <= m <= sc.len()
            &&& m < sc.len() ==> parse_distinct::sorted_entry(tl, sc[m]).resjunk
            &&& forall|j: int|
                0 <= j < m ==> !parse_distinct::sorted_entry(tl, #[trigger] sc[j]).resjunk
        }),
    decreases sc.len() - k,
{
    if k < sc.len() && !parse_distinct::sorted_entry(tl, sc[k]).resjunk {
        lemma_junk(tl, sc, k + 1);
    }
}

/// DISTINCT is refused where ORDER BY has an item that is not part of the
/// result, exactly then for this reason, and at the first such item.
pub proof fn law_distinct_orders_by_the_result(
    tl: Seq<TargetEntry>,
    sc: Seq<SortGroupClause>,
    is_agg: bool,
    cat: &Catalog,
    k: int,
    i: int,
)
    requires
        parse_distinct::refers(tl, sc),
        0 <= k < sc.len(),
        0 <= i < tl.len(),
        tl[i].ressortgroupref == sc[k].tleSortGroupRef,
        forall|j: int| 0 <= j < tl.len() && j != i ==> (#[trigger] tl[j]).ressortgroupref
            != sc[k].tleSortGroupRef,
        forall|j: int|
            0 <= j < k ==> !parse_distinct::sorted_entry(tl, #[trigger] sc[j]).resjunk,
    ensures
        ({
            let b = parse_distinct::distinct(tl, sc, is_agg, cat);
            &&& tl[i].resjunk ==> b.err == Some(
                ParseError::DistinctOrderByMismatch { is_agg, location: tl[i].expr.location },
            ) && b.tl == tl
            &&& parse_distinct::sorted_entry(tl, sc[k]) == tl[i]
        }),
{
    parse_sort::lemma_referred(tl, sc[k].tleSortGroupRef, 0);
    let t = parse_sort::referred_from(tl, sc[k].tleSortGroupRef, 0);
    assert(tl[t].ressortgroupref == sc[k].tleSortGroupRef);
    lemma_junk(tl, sc, 0);
}

/// DISTINCT is not refused for its ORDER BY where all items of it are part of
/// the result. It is refused for want of columns exactly where there is nothing
/// to group by.
pub proof fn law_when_distinct_is_accepted(
    tl: Seq<TargetEntry>,
    sc: Seq<SortGroupClause>,
    is_agg: bool,
    cat: &Catalog,
)
    requires
        forall|j: int|
            0 <= j < sc.len() ==> !parse_distinct::sorted_entry(tl, #[trigger] sc[j]).resjunk,
    ensures
        ({
            let b = parse_distinct::distinct(tl, sc, is_agg, cat);
            let g = parse_distinct::results_grouped(tl, sc, tl.len(), cat);
            &&& b.tl == g.tl && b.sl == g.sl
            &&& g.err is Some ==> b.err == g.err
            &&& g.err is None && g.sl.len() > 0 ==> b.err is None
            &&& g.err is None && g.sl.len() == 0 ==> b.err == Some(
                ParseError::DistinctNoColumns { is_agg },
            )
        }),
{
    lemma_junk(tl, sc, 0);
}

/// Whether an entry of the result has this number.
pub open spec fn shown_as(tl: Seq<TargetEntry>, r: u32) -> bool {
    exists|j: int|
        0 <= j < tl.len() && !(#[trigger] tl[j]).resjunk && tl[j].ressortgroupref == r
}

/// Beyond the ORDER BY items, DISTINCT groups by entries of the result only.
pub proof fn law_distinct_groups_by_the_result_only(
    tl: Seq<TargetEntry>,
    sc: Seq<SortGroupClause>,
    n: nat,
    cat: &Catalog,
)
    requires
        n <= tl.len(),
        parse_sort::max_ref(tl) + n <= u32::MAX,
    ensures
        ({
            let b = parse_distinct::results_grouped(tl, sc, n, cat);
            &&& b.tl.len() == tl.len()
            &&& sc.len() <= b.sl.len()
            &&& forall|k: int|
                sc.len() <= k < b.sl.len() ==> shown_as(
                    b.tl,
                    (#[trigger] b.sl[k]).tleSortGroupRef,
                )
            &&& forall|k: int| 0 <= k < sc.len() ==> #[trigger] b.sl[k] == sc[k]
            &&& forall|j: int| 0 <= j < tl.len() ==> (#[trigger] b.tl[j]).resjunk == tl[j].resjunk
            &&& parse_sort::max_ref(b.tl) <= parse_sort::max_ref(tl) + n
        }),
    decreases n,
{
    if n > 0 {
        law_distinct_groups_by_the_result_only(tl, sc, (n - 1) as nat, cat);
        let p = parse_distinct::results_grouped(tl, sc, (n - 1) as nat, cat);
        let b = parse_distinct::results_grouped(tl, sc, n, cat);
        if p.err is None && !p.tl[n - 1].resjunk {
            let i = n - 1;
            parse_sort::lemma_settled(p.tl, i);
            match parse_sort::settled(p.tl, i) {
                None => {},
                Some(t) => {
                    parse_sort::lemma_numbered(t, i);
                    parse_sort::lemma_max_ref(t);
                },
            }
            assert forall|k: int| sc.len() <= k < b.sl.len() implies shown_as(
                b.tl,
                (#[trigger] b.sl[k]).tleSortGroupRef,
            ) by {
                if k < p.sl.len() {
                    assert(b.sl[k] == p.sl[k]);
                    let r = p.sl[k].tleSortGroupRef;
                    let j = choose|j: int|
                        0 <= j < p.tl.len() && !(#[trigger] p.tl[j]).resjunk
                            && p.tl[j].ressortgroupref == r;
                    if p.tl[j].ressortgroupref != 0 || j != i {
                        assert(!b.tl[j].resjunk && b.tl[j].ressortgroupref == r);
                    } else {
                        assert(b.sl.len() == p.sl.len() || b.sl.len() == p.sl.len() + 1);
                        assert(b.tl[j].ressortgroupref == r || r == 0);
                        lemma_items_are_numbered(tl, sc, (n - 1) as nat, cat, k);
                    }
                } else {
                    assert(!b.tl[i].resjunk && b.tl[i].ressortgroupref
                        == b.sl[k].tleSortGroupRef);
                }
            }
        }
    }
}

proof fn lemma_items_are_numbered(
    tl: Seq<TargetEntry>,
    sc: Seq<SortGroupClause>,
    n: nat,
    cat: &Catalog,
    k: int,
)
    requires
        n <= tl.len(),
        parse_sort::max_ref(tl) + n <= u32::MAX,
        sc.len() <= k < parse_distinct::results_grouped(tl, sc, n, cat).sl.len(),
    ensures
        parse_distinct::results_grouped(tl, sc, n, cat).sl[k].tleSortGroupRef != 0,
    decreases n,
{
    if n > 0 {
        let p = parse_distinct::results_grouped(tl, sc, (n - 1) as nat, cat);
        let b = parse_distinct::results_grouped(tl, sc, n, cat);
        law_distinct_groups_by_the_result_only(tl, sc, (n - 1) as nat, cat);
        if p.err is None && !p.tl[n - 1].resjunk {
            parse_sort::lemma_settled(p.tl, n - 1);
            match parse_sort::settled(p.tl, n - 1) {
                None => {},
                Some(t) => {
                    parse_sort::lemma_numbered(t, n - 1);
                },
            }
        }
        if k < p.sl.len() {
            lemma_items_are_numbered(tl, sc, (n - 1) as nat, cat, k);
            assert(b.sl[k] == p.sl[k]);
        }
    }
}

/// The expressions of DISTINCT ON stand for entries of the target list, each by
/// that entry's number.
pub proof fn law_distinct_on_finds_its_entries(
    tl: Seq<TargetEntry>,
    dl: Seq<RawExpr>,
    n: nat,
    flags: ParseFlags,
)
    requires
        n < dl.len(),
        parse_distinct_on::on_refs(tl, dl, n, flags).err is None,
    ensures
        ({
            let p = parse_distinct_on::on_refs(tl, dl, n, flags);
            let q = parse_distinct_on::on_refs(tl, dl, n + 1, flags);
            let f = parse_sort::found(
                dl[n as int],
                p.tl,
                ParseExprKind::DistinctOn,
                false,
                flags,
            );
            &&& f.res is Err ==> q.err == Some(f.res->Err_0)
            &&& f.res is Ok ==> q.err is None && q.refs == p.refs.push(
                q.tl[f.res->Ok_0].ressortgroupref,
            ) && q.tl == parse_sort::numbered(f.tl, f.res->Ok_0)
        }),
{
}

/// DISTINCT ON clashes with ORDER BY exactly where an ORDER BY item about one of
/// its expressions comes after one that is not.
pub proof fn law_distinct_on_clashes(sc: Seq<SortGroupClause>, refs: Seq<u32>, n: nat)
    requires
        n <= sc.len(),
    ensures
        ({
            let o = parse_distinct_on::on_sorted(sc, refs, n);
            &&& o.clash is Some <==> exists|i: int, j: int|
                0 <= i < j < n && !refs.contains((#[trigger] sc[i]).tleSortGroupRef)
                    && refs.contains((#[trigger] sc[j]).tleSortGroupRef)
            &&& o.clash matches Some(r) ==> refs.contains(r)
            &&& o.clash is None ==> (o.skipped <==> exists|i: int|
                0 <= i < n && !refs.contains((#[trigger] sc[i]).tleSortGroupRef))
        }),
    decreases n,
{
    if n > 0 {
        law_distinct_on_clashes(sc, refs, (n - 1) as nat);
        let p = parse_distinct_on::on_sorted(sc, refs, (n - 1) as nat);
        let o = parse_distinct_on::on_sorted(sc, refs, n);
        let last = sc[n - 1];
        if p.clash is None {
            if refs.contains(last.tleSortGroupRef) && p.skipped {
                let i = choose|i: int|
                    0 <= i < n - 1 && !refs.contains((#[trigger] sc[i]).tleSortGroupRef);
                assert(!refs.contains(sc[i].tleSortGroupRef) && refs.contains(
                    sc[n - 1].tleSortGroupRef,
                ));
            }
            if !refs.contains(last.tleSortGroupRef) {
                assert(!refs.contains(sc[n - 1].tleSortGroupRef));
            }
        }
    }
}

/// DISTINCT ON groups by all of its expressions, the leading ORDER BY items
/// first; it is refused where ORDER BY goes on with something else and an
/// expression is left.
pub proof fn law_distinct_on_groups_by_its_expressions(
    tl: Seq<TargetEntry>,
    dl: Seq<RawExpr>,
    refs: Seq<u32>,
    o: parse_distinct_on::OnSorted,
    n: nat,
    cat: &Catalog,
)
    requires
        n <= refs.len(),
        refs.len() == dl.len(),
        parse_distinct_on::all_refer(tl, refs),
        parse_sort::max_ref(tl) < u32::MAX,
        parse_distinct_on::on_rest(tl, dl, refs, o, n, cat).err is None,
    ensures
        ({
            let b = parse_distinct_on::on_rest(tl, dl, refs, o, n, cat);
            &&& group_laws::goes_on(o.sl, b.sl)
            &&& forall|k: int| 0 <= k < n ==> group_laws::groups_by(b.sl, #[trigger] refs[k])
            &&& forall|k: int|
                o.sl.len() <= k < b.sl.len() ==> refs.contains(
                    (#[trigger] b.sl[k]).tleSortGroupRef,
                )
            &&& o.skipped ==> b.sl == o.sl
            &&& parse_distinct_on::all_refer(b.tl, refs)
            &&& parse_sort::max_ref(b.tl) < u32::MAX
        }),
    decreases n,
{
    if n == 0 {
        assert(o.sl.take(o.sl.len() as int) =~= o.sl);
    } else {
        law_distinct_on_groups_by_its_expressions(tl, dl, refs, o, (n - 1) as nat, cat);
        let p = parse_distinct_on::on_rest(tl, dl, refs, o, (n - 1) as nat, cat);
        let b = parse_distinct_on::on_rest(tl, dl, refs, o, n, cat);
        let r = refs[n - 1];
        assert(parse_sort::has_ref(p.tl, r));
        parse_sort::lemma_referred(p.tl, r, 0);
        let t = parse_sort::referred_from(p.tl, r, 0);
        assert(p.tl[t].ressortgroupref == r);
        if parse_sort::in_sort_list(r, 0, p.sl, cat) {
            let k = choose|k: int|
                0 <= k < p.sl.len() && parse_sort::item_is_about(#[trigger] p.sl[k], r, 0, cat);
            assert(b.sl[k].tleSortGroupRef == r);
        } else {
            parse_distinct_on::lemma_group_added_keeps(
                p.tl,
                t,
                p.sl,
                dl[n - 1].location,
                cat,
            );
            parse_sort::lemma_settled(p.tl, t);
            assert(b.sl.take(p.sl.len() as int) =~= p.sl);
            assert(b.sl[p.sl.len() as int].tleSortGroupRef == r);
            assert(refs.contains(r));
            assert(b.sl.take(o.sl.len() as int) =~= p.sl.take(o.sl.len() as int));
            assert forall|k: int| 0 <= k < refs.len() implies #[trigger] refs[k] != 0
                && parse_sort::has_ref(b.tl, refs[k]) by {
                let j = choose|j: int|
                    0 <= j < p.tl.len() && (#[trigger] p.tl[j]).ressortgroupref == refs[k];
                assert(b.tl[j].ressortgroupref == refs[k]);
            }
        }
        assert forall|k: int| 0 <= k < n implies group_laws::groups_by(
            b.sl,
            #[trigger] refs[k],
        ) by {
            if k < n - 1 {
                let m = choose|m: int|
                    0 <= m < p.sl.len() && (#[trigger] p.sl[m]).tleSortGroupRef == refs[k];
                assert(b.sl[m].tleSortGroupRef == refs[k]);
            }
        }
        assert forall|k: int| o.sl.len() <= k < b.sl.len() implies refs.contains(
            (#[trigger] b.sl[k]).tleSortGroupRef,
        ) by {
            if k < p.sl.len() {
                assert(b.sl[k] == p.sl[k]);
            }
        }
    }
}

/// Where ORDER BY goes on with something else, an expression that it does not
/// lead with is refused, at that expression.
pub proof fn law_distinct_on_must_lead(
    tl: Seq<TargetEntry>,
    dl: Seq<RawExpr>,
    refs: Seq<u32>,
    o: parse_distinct_on::OnSorted,
    n: nat,
    cat: &Catalog,
)
    requires
        n < refs.len(),
        o.skipped,
        parse_distinct_on::on_rest(tl, dl, refs, o, n, cat).err is None,
        parse_sort::has_ref(parse_distinct_on::on_rest(tl, dl, refs, o, n, cat).tl, refs[n as int]),
        !group_laws::groups_by(
            parse_distinct_on::on_rest(tl, dl, refs, o, n, cat).sl,
            refs[n as int],
        ),
    ensures
        parse_distinct_on::on_rest(tl, dl, refs, o, n + 1, cat).err == Some(
            ParseError::DistinctOnOrderByMismatch { location: dl[n as int].location },
        ),
{
    let p = parse_distinct_on::on_rest(tl, dl, refs, o, n, cat);
    let r = refs[n as int];
    parse_sort::lemma_referred(p.tl, r, 0);
    if parse_sort::in_sort_list(r, 0, p.sl, cat) {
        let k = choose|k: int|
            0 <= k < p.sl.len() && parse_sort::item_is_about(#[trigger] p.sl[k], r, 0, cat);
        assert(p.sl[k].tleSortGroupRef == r);
    }
}

/// The place of a clash is that of the first expression with the number.
pub proof fn law_place_of_a_clash(refs: Seq<u32>, r: u32, i: int)
    requires
        0 <= i <= refs.len(),
        forall|j: int| 0 <= j < i ==> refs[j] != r,
    ensures
        ({
            let m = parse_distinct_on::matching_ref(refs, r, i);
            &&& i <= m <= refs.len()
            &&& m < refs.len() <==> refs.contains(r)
            &&& m < refs.len() ==> refs[m] == r
            &&& forall|j: int| 0 <= j < m ==> refs[j] != r
        }),
    decreases refs.len() - i,
{
    if i < refs.len() && refs[i] != r {
        law_place_of_a_clash(refs, r, i + 1);
    } else if i < refs.len() {
        assert(refs[i] == r);
    }
}

} // verus!
