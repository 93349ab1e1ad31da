//! What holds of GROUP BY: what flattening keeps, what is grouped by, and what
//! the grouping sets hold.
use vstd::prelude::*;
use crate::parse_group;
use crate::parse_group::{GNode, GroupRule, RawSetKind};
use crate::parse_group_clause;
use crate::parse_group_clause::{GSet, GroupingSetKind};
use crate::parse_nodes;
use crate::parse_nodes::{Catalog, ParseError, RawExpr, SortGroupClause, TargetEntry};
use crate::parse_sort;

verus! {

/// The expressions in an item, in order; a row that was not written out stands
/// for its columns.
pub open spec fn leaves(g: GNode) -> Seq<RawExpr>
    decreases g,
{
    match g {
        GNode::Item(raw) => seq![raw],
        GNode::Row(implicit, args, whole) => if implicit {
            leaves_of(args)
        } else {
            seq![whole]
        },
        GNode::GroupingSet(_, content, _) => leaves_of(content),
        GNode::List(items) => leaves_of(items),
    }
}

/// The expressions in items, in order.
pub open spec fn leaves_of(s: Seq<GNode>) -> Seq<RawExpr>
    decreases s,
{
    if s.len() == 0 {
        Seq::empty()
    } else {
        leaves_of(s.drop_last()) + leaves(s.last())
    }
}

proof fn lemma_leaves_add(a: Seq<GNode>, b: Seq<GNode>)
    ensures
        leaves_of(a + b) =~= leaves_of(a) + leaves_of(b),
    decreases b.len(),
{
    if b.len() == 0 {
        assert(a + b =~= a);
    } else {
        assert((a + b).drop_last() =~= a + b.drop_last());
        lemma_leaves_add(a, b.drop_last());
    }
}

proof fn lemma_leaves_one(g: GNode)
    ensures
        leaves_of(seq![g]) =~= leaves(g),
{
    reveal_with_fuel(leaves_of, 2);
    assert(seq![g].drop_last() =~= Seq::empty());
}

/// Whether an item is an empty grouping set that has content all the same.
pub open spec fn is_odd(g: GNode) -> bool {
    g matches GNode::GroupingSet(kind, content, _) && kind == RawSetKind::Empty && content.len() > 0
}

proof fn lemma_flat_leaves(g: GNode, toplevel: bool)
    requires
        toplevel ==> !is_odd(g),
    ensures
        leaves_of(parse_group::spliced(parse_group::flat(g, toplevel))) =~= leaves(g),
        leaves_of(parse_group::as_cell(parse_group::flat(g, toplevel))) =~= leaves(g),
    decreases g,
{
    reveal_with_fuel(leaves_of, 2);
    match g {
        GNode::Row(implicit, args, _) => {
            if implicit {
                lemma_flat_list_leaves(args, false);
                lemma_leaves_one(GNode::List(parse_group::flat_list(args, false)));
            } else {
                lemma_leaves_one(g);
            }
        },
        GNode::GroupingSet(kind, content, location) => {
            lemma_flat_content_leaves(content);
            lemma_leaves_one(
                GNode::GroupingSet(kind, parse_group::flat_content(content), location),
            );
            lemma_leaves_one(GNode::List(parse_group::flat_content(content)));
        },
        _ => {
            lemma_leaves_one(g);
        },
    }
}

proof fn lemma_flat_list_leaves(s: Seq<GNode>, toplevel: bool)
    requires
        toplevel ==> forall|k: int| 0 <= k < s.len() ==> !is_odd(#[trigger] s[k]),
    ensures
        leaves_of(parse_group::flat_list(s, toplevel)) =~= leaves_of(s),
    decreases s,
{
    if s.len() > 0 {
        let t = s.drop_last();
        if toplevel {
            assert forall|k: int| 0 <= k < t.len() implies !is_odd(#[trigger] t[k]) by {
                assert(t[k] == s[k]);
            }
            assert(!is_odd(s[s.len() - 1]));
        }
        lemma_flat_list_leaves(t, toplevel);
        lemma_flat_leaves(s.last(), toplevel);
        lemma_leaves_add(
            parse_group::flat_list(t, toplevel),
            parse_group::spliced(parse_group::flat(s.last(), toplevel)),
        );
    }
}

proof fn lemma_flat_content_leaves(s: Seq<GNode>)
    ensures
        leaves_of(parse_group::flat_content(s)) =~= leaves_of(s),
    decreases s,
{
    if s.len() > 0 {
        lemma_flat_content_leaves(s.drop_last());
        lemma_flat_leaves(s.last(), false);
        let f = parse_group::flat(s.last(), false);
        lemma_leaves_add(
            parse_group::flat_content(s.drop_last()),
            parse_group::spliced(f),
        );
        lemma_leaves_add(
            parse_group::flat_content(s.drop_last()),
            parse_group::as_cell(f),
        );
    }
}

/// Flattening keeps every expression, in order, and adds none.
pub proof fn law_flattening_keeps_the_expressions(s: Seq<GNode>, toplevel: bool)
    requires
        toplevel ==> forall|k: int| 0 <= k < s.len() ==> !is_odd(#[trigger] s[k]),
    ensures
        leaves_of(parse_group::flat_list(s, toplevel)) == leaves_of(s),
{
    lemma_flat_list_leaves(s, toplevel);
}

/// At top level, an expression and a written row stay one item each, a row that
/// was not written out becomes its columns, and a grouping set that is not
/// empty stays one of its kind; empty ones go.
pub proof fn law_flattening_item_by_item(s: Seq<GNode>, g: GNode)
    ensures
        ({
            let before = parse_group::flat_list(s, true);
            let after = parse_group::flat_list(s.push(g), true);
            match g {
                GNode::Item(_) | GNode::List(_) => after =~= before.push(g),
                GNode::Row(implicit, args, _) => if implicit {
                    after =~= before + parse_group::flat_list(args, false)
                } else {
                    after =~= before.push(g)
                },
                GNode::GroupingSet(kind, content, location) => if kind == RawSetKind::Empty {
                    after =~= before
                } else {
                    after =~= before.push(
                        GNode::GroupingSet(kind, parse_group::flat_content(content), location),
                    )
                },
            }
        }),
{
    assert(s.push(g).drop_last() =~= s);
    assert(s.push(g).last() == g);
    reveal_with_fuel(parse_group::flat, 3);
    reveal_with_fuel(parse_group::flat_list, 3);
    reveal_with_fuel(parse_group::flat_content, 3);
}

/// Inside a grouping set, an expression and a written row stay one item each,
/// a row that was not written out becomes a list of its columns, GROUPING SETS
/// are replaced by their items, and other sets stay, empty ones included.
pub proof fn law_flattening_content_item_by_item(s: Seq<GNode>, g: GNode)
    ensures
        ({
            let before = parse_group::flat_content(s);
            let after = parse_group::flat_content(s.push(g));
            match g {
                GNode::Item(_) | GNode::List(_) => after =~= before.push(g),
                GNode::Row(implicit, args, _) => if implicit {
                    after =~= before.push(GNode::List(parse_group::flat_list(args, false)))
                } else {
                    after =~= before.push(g)
                },
                GNode::GroupingSet(kind, content, location) => if kind == RawSetKind::Sets {
                    after =~= before + parse_group::flat_content(content)
                } else {
                    after =~= before.push(
                        GNode::GroupingSet(kind, parse_group::flat_content(content), location),
                    )
                },
            }
        }),
{
    assert(s.push(g).drop_last() =~= s);
    assert(s.push(g).last() == g);
    reveal_with_fuel(parse_group::flat, 3);
    reveal_with_fuel(parse_group::flat_list, 3);
    reveal_with_fuel(parse_group::flat_content, 3);
}

/// Whether a list groups by the entry with this number.
pub open spec fn groups_by(fl: Seq<SortGroupClause>, r: u32) -> bool {
    exists|k: int| 0 <= k < fl.len() && (#[trigger] fl[k]).tleSortGroupRef == r
}

/// Grouping by an expression: a repetition, and only that, gives 0. Else the
/// number is that of the entry that the expression was found as, and the list
/// groups by it. The list keeps its items, and at most one is added.
pub proof fn law_grouping_by_an_expression(
    tl: Seq<TargetEntry>,
    fl: Seq<SortGroupClause>,
    seen: Seq<u32>,
    raw: RawExpr,
    sc: Seq<SortGroupClause>,
    rule: GroupRule,
    toplevel: bool,
    cat: &Catalog,
)
    requires
        parse_sort::max_ref(tl) < u32::MAX,
        parse_group::group_item(tl, fl, seen, raw, sc, rule, toplevel, cat).res is Ok,
    ensures
        ({
            let g = parse_group::group_item(tl, fl, seen, raw, sc, rule, toplevel, cat);
            let f = parse_sort::found(raw, tl, rule.kind, rule.use_sql99, rule.flags);
            let i = f.res->Ok_0;
            let r = g.res->Ok_0;
            let had = f.tl[i].ressortgroupref;
            &&& f.res is Ok
            &&& 0 <= i < g.tl.len()
            &&& g.tl.len() == f.tl.len()
            &&& fl.len() <= g.fl.len() <= fl.len() + 1
            &&& g.fl.take(fl.len() as int) == fl
            &&& r == 0 <==> had != 0 && seen.contains(had)
            &&& r == 0 ==> g.fl == fl && g.tl == f.tl
            &&& r != 0 ==> r == g.tl[i].ressortgroupref && groups_by(g.fl, r)
            &&& g.fl.len() > fl.len() ==> r != 0 && g.fl[fl.len() as int].tleSortGroupRef == r
            &&& had != 0 ==> g.tl[i].ressortgroupref == had
        }),
{
    let g = parse_group::group_item(tl, fl, seen, raw, sc, rule, toplevel, cat);
    let f = parse_sort::found(raw, tl, rule.kind, rule.use_sql99, rule.flags);
    parse_sort::lemma_found_bounds(raw, tl, rule.kind, rule.use_sql99, rule.flags);
    parse_sort::lemma_found(raw, tl, rule.kind, rule.use_sql99, rule.flags);
    let i = f.res->Ok_0;
    let had = f.tl[i].ressortgroupref;
    parse_group_clause::lemma_donor(sc, had, 0);
    parse_sort::lemma_settled(f.tl, i);
    assert(g.fl.take(fl.len() as int) =~= fl);
    if had > 0 && !seen.contains(had) && parse_sort::in_sort_list(had, 0, fl, cat) {
        let k = choose|k: int|
            0 <= k < fl.len() && parse_sort::item_is_about(#[trigger] fl[k], had, 0, cat);
        assert(g.fl[k].tleSortGroupRef == had);
    }
    match parse_sort::settled(f.tl, i) {
        None => {},
        Some(t) => {
            parse_sort::lemma_numbered(t, i);
            if parse_sort::in_sort_list(t[i].ressortgroupref, 0, fl, cat) {
                let k = choose|k: int|
                    0 <= k < fl.len() && parse_sort::item_is_about(
                        #[trigger] fl[k],
                        t[i].ressortgroupref,
                        0,
                        cat,
                    );
                assert(g.fl[k].tleSortGroupRef == t[i].ressortgroupref);
            }
        },
    }
    if g.fl.len() > fl.len() {
        assert(g.fl[fl.len() as int].tleSortGroupRef == g.res->Ok_0);
    }
}

/// What is added to the list is taken from an ORDER BY item about the same
/// entry where there is one, with nulls last inside a grouping set; else it is
/// what the entry's type is grouped by, upwards and with nulls last.
pub proof fn law_what_grouping_goes_by(
    tl: Seq<TargetEntry>,
    fl: Seq<SortGroupClause>,
    seen: Seq<u32>,
    raw: RawExpr,
    sc: Seq<SortGroupClause>,
    rule: GroupRule,
    toplevel: bool,
    cat: &Catalog,
)
    requires
        parse_sort::max_ref(tl) < u32::MAX,
        parse_group::group_item(tl, fl, seen, raw, sc, rule, toplevel, cat).res is Ok,
        parse_group::group_item(tl, fl, seen, raw, sc, rule, toplevel, cat).fl.len() > fl.len(),
    ensures
        ({
            let g = parse_group::group_item(tl, fl, seen, raw, sc, rule, toplevel, cat);
            let f = parse_sort::found(raw, tl, rule.kind, rule.use_sql99, rule.flags);
            let e = f.tl[f.res->Ok_0];
            let new = g.fl[fl.len() as int];
            let typ = if e.expr.rtype == 705 {
                25
            } else {
                e.expr.rtype
            };
            if e.ressortgroupref != 0 && groups_by(sc, e.ressortgroupref) {
                exists|k: int|
                    {
                        &&& 0 <= k < sc.len()
                        &&& (#[trigger] sc[k]).tleSortGroupRef == e.ressortgroupref
                        &&& new.eqop == sc[k].eqop
                        &&& new.sortop == sc[k].sortop
                        &&& new.reverse_sort == sc[k].reverse_sort
                        &&& new.hashable == sc[k].hashable
                        &&& new.nulls_first == (toplevel && sc[k].nulls_first)
                    }
            } else {
                let row = parse_nodes::type_row(cat.types@, typ);
                &&& row is Some
                &&& row->0.grouping is Some
                &&& new.eqop == row->0.grouping->0.eqop
                &&& new.sortop == row->0.grouping->0.sortop
                &&& new.hashable == row->0.grouping->0.hashable
                &&& !new.reverse_sort
                &&& !new.nulls_first
            }
        }),
{
    let f = parse_sort::found(raw, tl, rule.kind, rule.use_sql99, rule.flags);
    parse_sort::lemma_found_bounds(raw, tl, rule.kind, rule.use_sql99, rule.flags);
    parse_sort::lemma_found(raw, tl, rule.kind, rule.use_sql99, rule.flags);
    let had = f.tl[f.res->Ok_0].ressortgroupref;
    parse_group_clause::lemma_donor(sc, had, 0);
    lemma_donor_found(sc, had, 0);
    let d = parse_group::donor_from(sc, had, 0);
    if d < sc.len() {
        assert(sc[d].tleSortGroupRef == had);
    }
}

proof fn lemma_donor_found(sc: Seq<SortGroupClause>, r: u32, k: int)
    requires
        0 <= k <= sc.len(),
        forall|j: int| 0 <= j < k ==> (#[trigger] sc[j]).tleSortGroupRef != r,
    ensures
        groups_by(sc, r) <==> parse_group::donor_from(sc, r, k) < sc.len(),
    decreases sc.len() - k,
{
    if k < sc.len() && sc[k].tleSortGroupRef != r {
        lemma_donor_found(sc, r, k + 1);
    } else if k < sc.len() {
        assert(sc[k].tleSortGroupRef == r);
    }
}

/// Whether a number occurs in a grouping set.
pub open spec fn occurs(g: GSet, r: u32) -> bool
    decreases g,
{
    g.refs.contains(r) || occurs_in(g.content, r)
}

/// Whether a number occurs in one of the grouping sets.
pub open spec fn occurs_in(s: Seq<GSet>, r: u32) -> bool
    decreases s,
{
    s.len() > 0 && (occurs_in(s.drop_last(), r) || occurs(s.last(), r))
}

proof fn lemma_occurs_add(a: Seq<GSet>, b: Seq<GSet>, r: u32)
    ensures
        occurs_in(a + b, r) <==> occurs_in(a, r) || occurs_in(b, r),
    decreases b.len(),
{
    if b.len() == 0 {
        assert(a + b =~= a);
    } else {
        assert((a + b).drop_last() =~= a + b.drop_last());
        lemma_occurs_add(a, b.drop_last(), r);
    }
}

proof fn lemma_occurs_one(g: GSet, r: u32)
    ensures
        occurs_in(seq![g], r) <==> occurs(g, r),
{
    reveal_with_fuel(occurs_in, 2);
    assert(seq![g].drop_last() =~= Seq::empty());
}

proof fn lemma_groups_by_kept(a: Seq<SortGroupClause>, b: Seq<SortGroupClause>, r: u32)
    requires
        a.len() <= b.len(),
        b.take(a.len() as int) == a,
        groups_by(a, r),
    ensures
        groups_by(b, r),
{
    let k = choose|k: int| 0 <= k < a.len() && (#[trigger] a[k]).tleSortGroupRef == r;
    assert(b.take(a.len() as int)[k] == a[k]);
    assert(b[k].tleSortGroupRef == r);
}

/// Whether `b` has the items of `a` first.
pub open spec fn goes_on(a: Seq<SortGroupClause>, b: Seq<SortGroupClause>) -> bool {
    a.len() <= b.len() && b.take(a.len() as int) == a
}

proof fn lemma_goes_on(
    a: Seq<SortGroupClause>,
    b: Seq<SortGroupClause>,
    c: Seq<SortGroupClause>,
)
    requires
        goes_on(a, b),
        goes_on(b, c),
    ensures
        goes_on(a, c),
{
    assert(c.take(a.len() as int) =~= c.take(b.len() as int).take(a.len() as int));
}

/// Whether sets hold exactly numbers that a list groups by, and all those that
/// it groups by beyond its first `n` items.
pub open spec fn covers(sets: Seq<GSet>, fl: Seq<SortGroupClause>, n: int) -> bool {
    &&& forall|k: int|
        n <= k < fl.len() ==> occurs_in(sets, (#[trigger] fl[k]).tleSortGroupRef)
    &&& forall|r: u32| #[trigger] occurs_in(sets, r) ==> groups_by(fl, r)
}

proof fn lemma_covers_add(
    a: Seq<GSet>,
    b: Seq<GSet>,
    fl: Seq<SortGroupClause>,
    gl: Seq<SortGroupClause>,
    n: int,
)
    requires
        covers(a, fl, n),
        covers(b, gl, fl.len() as int),
        goes_on(fl, gl),
        0 <= n <= fl.len(),
    ensures
        covers(a + b, gl, n),
{
    assert forall|k: int| n <= k < gl.len() implies occurs_in(
        a + b,
        (#[trigger] gl[k]).tleSortGroupRef,
    ) by {
        lemma_occurs_add(a, b, gl[k].tleSortGroupRef);
        if k < fl.len() {
            assert(gl.take(fl.len() as int)[k] == fl[k]);
            assert(occurs_in(a, fl[k].tleSortGroupRef));
        }
    }
    assert forall|r: u32| #[trigger] occurs_in(a + b, r) implies groups_by(gl, r) by {
        lemma_occurs_add(a, b, r);
        if occurs_in(a, r) {
            lemma_groups_by_kept(fl, gl, r);
        }
    }
}

proof fn lemma_list_cover(
    tl: Seq<TargetEntry>,
    fl: Seq<SortGroupClause>,
    s: Seq<GNode>,
    sc: Seq<SortGroupClause>,
    rule: GroupRule,
    cat: &Catalog,
)
    requires
        parse_group_clause::sound(tl, fl),
        parse_sort::max_ref(tl) + parse_group::weight_list(s) <= u32::MAX,
        parse_group_clause::list_items(tl, fl, s, sc, rule, cat).err is None,
    ensures
        ({
            let b = parse_group_clause::list_items(tl, fl, s, sc, rule, cat);
            &&& goes_on(fl, b.fl)
            &&& forall|k: int|
                fl.len() <= k < b.fl.len() ==> b.refs.contains(
                    (#[trigger] b.fl[k]).tleSortGroupRef,
                )
            &&& forall|r: u32| #[trigger] b.refs.contains(r) ==> groups_by(b.fl, r)
        }),
    decreases s.len(),
{
    if s.len() == 0 {
        assert(fl.take(fl.len() as int) =~= fl);
    } else {
        let t = s.drop_last();
        reveal_with_fuel(parse_group::weight_list, 2);
        reveal_with_fuel(parse_group::weight, 2);
        lemma_list_cover(tl, fl, t, sc, rule, cat);
        parse_group_clause::lemma_list_items_sound(tl, fl, t, sc, rule, cat);
        let p = parse_group_clause::list_items(tl, fl, t, sc, rule, cat);
        let b = parse_group_clause::list_items(tl, fl, s, sc, rule, cat);
        let raw = parse_group_clause::raw_of(s.last())->0;
        assert(parse_group::weight(s.last()) >= 1);
        law_grouping_by_an_expression(p.tl, p.fl, p.refs, raw, sc, rule, false, cat);
        lemma_goes_on(fl, p.fl, b.fl);
        assert forall|k: int| fl.len() <= k < b.fl.len() implies b.refs.contains(
            (#[trigger] b.fl[k]).tleSortGroupRef,
        ) by {
            if k < p.fl.len() {
                assert(b.fl.take(p.fl.len() as int)[k] == p.fl[k]);
                let x = p.fl[k].tleSortGroupRef;
                let j = choose|j: int| 0 <= j < p.refs.len() && p.refs[j] == x;
                assert(b.refs[j] == x);
            } else {
                assert(b.refs[p.refs.len() as int] == b.fl[k].tleSortGroupRef);
            }
        }
        assert forall|r: u32| #[trigger] b.refs.contains(r) implies groups_by(b.fl, r) by {
            let j = choose|j: int| 0 <= j < b.refs.len() && b.refs[j] == r;
            if j < p.refs.len() {
                assert(p.refs[j] == r);
                assert(p.refs.contains(r));
                lemma_groups_by_kept(p.fl, b.fl, r);
            }
        }
    }
}

proof fn lemma_sets_cover(
    tl: Seq<TargetEntry>,
    fl: Seq<SortGroupClause>,
    s: Seq<GNode>,
    sc: Seq<SortGroupClause>,
    rule: GroupRule,
    cat: &Catalog,
)
    requires
        parse_group_clause::sound(tl, fl),
        parse_sort::max_ref(tl) + parse_group::weight_list(s) <= u32::MAX,
        parse_group_clause::set_items(tl, fl, s, sc, rule, cat).err is None,
    ensures
        ({
            let b = parse_group_clause::set_items(tl, fl, s, sc, rule, cat);
            &&& goes_on(fl, b.fl)
            &&& covers(b.sets, b.fl, fl.len() as int)
            &&& b.sets.len() == s.len()
        }),
    decreases s,
{
    if s.len() == 0 {
        assert(fl.take(fl.len() as int) =~= fl);
    } else {
        let t = s.drop_last();
        reveal_with_fuel(parse_group::weight_list, 2);
        reveal_with_fuel(parse_group_clause::set_items, 2);
        lemma_sets_cover(tl, fl, t, sc, rule, cat);
        parse_group_clause::lemma_set_items_sound(tl, fl, t, sc, rule, cat);
        let p = parse_group_clause::set_items(tl, fl, t, sc, rule, cat);
        let c = parse_group_clause::set_cell(p.tl, p.fl, s.last(), sc, rule, cat);
        lemma_cell_cover(p.tl, p.fl, s.last(), sc, rule, cat);
        lemma_goes_on(fl, p.fl, c.fl);
        lemma_covers_add(p.sets, c.sets, p.fl, c.fl, fl.len() as int);
    }
}

proof fn lemma_cell_cover(
    tl: Seq<TargetEntry>,
    fl: Seq<SortGroupClause>,
    g: GNode,
    sc: Seq<SortGroupClause>,
    rule: GroupRule,
    cat: &Catalog,
)
    requires
        parse_group_clause::sound(tl, fl),
        parse_sort::max_ref(tl) + parse_group::weight(g) <= u32::MAX,
        parse_group_clause::set_cell(tl, fl, g, sc, rule, cat).err is None,
    ensures
        ({
            let b = parse_group_clause::set_cell(tl, fl, g, sc, rule, cat);
            &&& goes_on(fl, b.fl)
            &&& covers(b.sets, b.fl, fl.len() as int)
            &&& b.sets.len() == 1
            &&& (g matches GNode::GroupingSet(kind, _, _) ==> b.sets[0].kind == set_kind(kind))
            &&& !(g is GroupingSet) ==> b.sets[0].kind == GroupingSetKind::Simple
        }),
    decreases g,
{
    let b = parse_group_clause::set_cell(tl, fl, g, sc, rule, cat);
    reveal_with_fuel(parse_group_clause::set_cell, 2);
    reveal_with_fuel(occurs_in, 2);
    match g {
        GNode::List(items) => {
            lemma_list_cover(tl, fl, items, sc, rule, cat);
            lemma_simple_covers(b.sets[0], b.fl, fl.len() as int);
            assert(b.sets =~= seq![b.sets[0]]);
        },
        GNode::GroupingSet(kind, content, location) => {
            lemma_sets_cover(tl, fl, content, sc, rule, cat);
            let c = parse_group_clause::set_items(tl, fl, content, sc, rule, cat);
            lemma_wrapped_covers(b.sets[0], c.sets, b.fl, fl.len() as int);
            assert(b.sets =~= seq![b.sets[0]]);
        },
        GNode::Item(raw) => {
            lemma_item_cover(tl, fl, raw, sc, rule, cat);
        },
        GNode::Row(_, _, whole) => {
            lemma_item_cover(tl, fl, whole, sc, rule, cat);
        },
    }
}

proof fn lemma_simple_covers(g: GSet, fl: Seq<SortGroupClause>, n: int)
    requires
        g.content.len() == 0,
        forall|k: int| n <= k < fl.len() ==> g.refs.contains((#[trigger] fl[k]).tleSortGroupRef),
        forall|r: u32| #[trigger] g.refs.contains(r) ==> groups_by(fl, r),
    ensures
        covers(seq![g], fl, n),
{
    reveal_with_fuel(occurs, 2);
    reveal_with_fuel(occurs_in, 3);
    assert forall|k: int| n <= k < fl.len() implies occurs_in(
        seq![g],
        (#[trigger] fl[k]).tleSortGroupRef,
    ) by {
        lemma_occurs_one(g, fl[k].tleSortGroupRef);
    }
    assert forall|r: u32| #[trigger] occurs_in(seq![g], r) implies groups_by(fl, r) by {
        lemma_occurs_one(g, r);
    }
}

proof fn lemma_wrapped_covers(g: GSet, sets: Seq<GSet>, fl: Seq<SortGroupClause>, n: int)
    requires
        g.refs.len() == 0,
        g.content == sets,
        covers(sets, fl, n),
    ensures
        covers(seq![g], fl, n),
{
    assert forall|k: int| n <= k < fl.len() implies occurs_in(
        seq![g],
        (#[trigger] fl[k]).tleSortGroupRef,
    ) by {
        lemma_occurs_one(g, fl[k].tleSortGroupRef);
    }
    assert forall|r: u32| #[trigger] occurs_in(seq![g], r) implies groups_by(fl, r) by {
        lemma_occurs_one(g, r);
        assert(occurs_in(sets, r));
    }
}

proof fn lemma_item_cover(
    tl: Seq<TargetEntry>,
    fl: Seq<SortGroupClause>,
    raw: RawExpr,
    sc: Seq<SortGroupClause>,
    rule: GroupRule,
    cat: &Catalog,
)
    requires
        parse_sort::max_ref(tl) < u32::MAX,
        parse_group_clause::set_of_item(tl, fl, raw, sc, rule, cat).err is None,
    ensures
        ({
            let b = parse_group_clause::set_of_item(tl, fl, raw, sc, rule, cat);
            &&& goes_on(fl, b.fl)
            &&& covers(b.sets, b.fl, fl.len() as int)
            &&& b.sets.len() == 1
            &&& b.sets[0].kind == GroupingSetKind::Simple
            &&& b.sets[0].refs.len() == 1
        }),
{
    let b = parse_group_clause::set_of_item(tl, fl, raw, sc, rule, cat);
    law_grouping_by_an_expression(tl, fl, Seq::empty(), raw, sc, rule, false, cat);
    let g = b.sets[0];
    assert forall|k: int| fl.len() <= k < b.fl.len() implies g.refs.contains(
        (#[trigger] b.fl[k]).tleSortGroupRef,
    ) by {
        assert(g.refs[0] == b.fl[k].tleSortGroupRef);
    }
    lemma_simple_covers(g, b.fl, fl.len() as int);
    assert(b.sets =~= seq![g]);
}

/// The kind of set that something written makes.
pub open spec fn set_kind(k: RawSetKind) -> GroupingSetKind {
    match k {
        RawSetKind::Empty => GroupingSetKind::Empty,
        RawSetKind::Sets => GroupingSetKind::Sets,
        RawSetKind::Cube => GroupingSetKind::Cube,
        RawSetKind::Rollup => GroupingSetKind::Rollup,
    }
}

/// A grouping set has one member per item, in the order of the items: a set of
/// the same kind for a set, and a simple set for anything else.
pub proof fn law_members_of_a_grouping_set(
    tl: Seq<TargetEntry>,
    fl: Seq<SortGroupClause>,
    s: Seq<GNode>,
    sc: Seq<SortGroupClause>,
    rule: GroupRule,
    cat: &Catalog,
    i: int,
)
    requires
        parse_group_clause::sound(tl, fl),
        parse_sort::max_ref(tl) + parse_group::weight_list(s) <= u32::MAX,
        parse_group_clause::set_items(tl, fl, s, sc, rule, cat).err is None,
        0 <= i < s.len(),
    ensures
        ({
            let b = parse_group_clause::set_items(tl, fl, s, sc, rule, cat);
            &&& b.sets.len() == s.len()
            &&& (s[i] matches GNode::GroupingSet(kind, _, _) ==> b.sets[i].kind == set_kind(kind))
            &&& !(s[i] is GroupingSet) ==> b.sets[i].kind == GroupingSetKind::Simple
        }),
    decreases s.len(),
{
    let t = s.drop_last();
    reveal_with_fuel(parse_group::weight_list, 2);
    reveal_with_fuel(parse_group_clause::set_items, 2);
    lemma_sets_cover(tl, fl, s, sc, rule, cat);
    lemma_sets_cover(tl, fl, t, sc, rule, cat);
    parse_group_clause::lemma_set_items_sound(tl, fl, t, sc, rule, cat);
    let p = parse_group_clause::set_items(tl, fl, t, sc, rule, cat);
    lemma_cell_cover(p.tl, p.fl, s.last(), sc, rule, cat);
    if i < t.len() {
        law_members_of_a_grouping_set(tl, fl, t, sc, rule, cat, i);
        assert(t[i] == s[i]);
    }
}

/// A set is of the kind that was written and holds what its items make. Only a
/// CUBE of more than twelve is refused.
pub proof fn law_cube_is_limited(
    kind: RawSetKind,
    location: i32,
    c: parse_group_clause::SetsBuilt,
)
    ensures
        ({
            let b = parse_group_clause::set_of(kind, location, c);
            let large = kind == RawSetKind::Cube && c.sets.len() > 12;
            &&& c.err is Some ==> b.err == c.err
            &&& c.err is None ==> (b.err == Some(ParseError::CubeLimit { location }) <==> large)
            &&& c.err is None && !large ==> {
                &&& b.err is None
                &&& b.sets.len() == 1
                &&& b.sets[0].kind == set_kind(kind)
                &&& b.sets[0].content == c.sets
                &&& b.sets[0].refs.len() == 0
                &&& b.sets[0].location == location
            }
            &&& b.tl == c.tl && b.fl == c.fl
        }),
{
}

/// Each number grouped by at top level is alone in a simple set.
pub open spec fn alone(sets: Seq<GSet>, r: u32) -> bool {
    exists|m: int|
        0 <= m < sets.len() && (#[trigger] sets[m]).kind == GroupingSetKind::Simple && sets[m].refs
            == seq![r]
}

proof fn lemma_clause_cover(
    tl: Seq<TargetEntry>,
    s: Seq<GNode>,
    sc: Seq<SortGroupClause>,
    rule: GroupRule,
    cat: &Catalog,
)
    requires
        parse_sort::max_ref(tl) + parse_group::weight_list(s) <= u32::MAX,
        parse_group_clause::clause_items(tl, s, true, sc, rule, cat).err is None,
    ensures
        ({
            let b = parse_group_clause::clause_items(tl, s, true, sc, rule, cat);
            &&& covers(b.sets, b.fl, 0)
            &&& forall|r: u32| #[trigger] b.seen.contains(r) ==> r != 0 && alone(b.sets, r)
        }),
    decreases s.len(),
{
    if s.len() > 0 {
        let t = s.drop_last();
        reveal_with_fuel(parse_group::weight_list, 2);
        reveal_with_fuel(parse_group::weight, 2);
        let p = parse_group_clause::clause_items(tl, t, true, sc, rule, cat);
        let b = parse_group_clause::clause_items(tl, s, true, sc, rule, cat);
        lemma_clause_cover(tl, t, sc, rule, cat);
        parse_group_clause::law_grouping_has_no_repeats(tl, t, true, sc, rule, cat);
        match s.last() {
            GNode::GroupingSet(kind, content, location) => {
                if kind == RawSetKind::Empty {
                    let g = b.sets.last();
                    assert(p.fl.take(p.fl.len() as int) =~= p.fl);
                    assert forall|r: u32| #[trigger] occurs_in(seq![g], r) implies groups_by(
                        p.fl,
                        r,
                    ) by {
                        lemma_occurs_one(g, r);
                    }
                    lemma_covers_add(p.sets, seq![g], p.fl, p.fl, 0);
                    assert(b.sets =~= p.sets + seq![g]);
                } else {
                    let c = parse_group_clause::set_items(p.tl, p.fl, content, sc, rule, cat);
                    let w = parse_group_clause::set_of(kind, location, c);
                    lemma_sets_cover(p.tl, p.fl, content, sc, rule, cat);
                    lemma_wrapped_covers(w.sets[0], c.sets, b.fl, p.fl.len() as int);
                    assert(w.sets =~= seq![w.sets[0]]);
                    lemma_covers_add(p.sets, w.sets, p.fl, b.fl, 0);
                }
            },
            GNode::List(_) => {},
            GNode::Item(raw) => {
                assert(parse_group::weight(s.last()) >= 1);
                lemma_clause_item_cover(p, raw, sc, rule, cat);
            },
            GNode::Row(_, _, whole) => {
                assert(parse_group::weight(s.last()) >= 1);
                lemma_clause_item_cover(p, whole, sc, rule, cat);
            },
        }
        if parse_group_clause::raw_of(s.last()) is None {
            assert forall|r: u32| #[trigger] b.seen.contains(r) implies r != 0 && alone(
                b.sets,
                r,
            ) by {
                assert(p.seen.contains(r));
                lemma_alone_kept(p.sets, b.sets, r);
            }
        }
    }
}

proof fn lemma_alone_kept(a: Seq<GSet>, b: Seq<GSet>, r: u32)
    requires
        a.len() <= b.len(),
        forall|m: int| 0 <= m < a.len() ==> #[trigger] b[m] == a[m],
        alone(a, r),
    ensures
        alone(b, r),
{
    let m = choose|m: int|
        0 <= m < a.len() && (#[trigger] a[m]).kind == GroupingSetKind::Simple && a[m].refs
            == seq![r];
    assert(b[m] == a[m]);
}

proof fn lemma_clause_item_cover(
    p: parse_group_clause::ClauseBuilt,
    raw: RawExpr,
    sc: Seq<SortGroupClause>,
    rule: GroupRule,
    cat: &Catalog,
)
    requires
        parse_sort::max_ref(p.tl) < u32::MAX,
        covers(p.sets, p.fl, 0),
        forall|r: u32| #[trigger] p.seen.contains(r) ==> r != 0 && alone(p.sets, r),
        parse_group_clause::clause_item(p, raw, true, sc, rule, cat).err is None,
    ensures
        ({
            let b = parse_group_clause::clause_item(p, raw, true, sc, rule, cat);
            let f = parse_sort::found(raw, p.tl, rule.kind, rule.use_sql99, rule.flags);
            let r = b.tl[f.res->Ok_0].ressortgroupref;
            &&& covers(b.sets, b.fl, 0)
            &&& forall|r: u32| #[trigger] b.seen.contains(r) ==> r != 0 && alone(b.sets, r)
            &&& f.res is Ok
            &&& 0 <= f.res->Ok_0 < b.tl.len()
            &&& r != 0
            &&& alone(b.sets, r)
            &&& b.seen.contains(r)
            &&& p.sets.len() <= b.sets.len()
            &&& forall|m: int| 0 <= m < p.sets.len() ==> #[trigger] b.sets[m] == p.sets[m]
            &&& b.sets.len() - p.sets.len() == b.seen.len() - p.seen.len()
        }),
{
    let b = parse_group_clause::clause_item(p, raw, true, sc, rule, cat);
    let g = parse_group::group_item(p.tl, p.fl, p.seen, raw, sc, rule, true, cat);
    law_grouping_by_an_expression(p.tl, p.fl, p.seen, raw, sc, rule, true, cat);
    let f = parse_sort::found(raw, p.tl, rule.kind, rule.use_sql99, rule.flags);
    let r = g.res->Ok_0;
    if r == 0 {
        assert(b.sets == p.sets && b.fl == p.fl && b.seen == p.seen);
    } else {
        let x = b.sets.last();
        assert(b.sets =~= p.sets + seq![x]);
        assert forall|k: int| p.fl.len() <= k < b.fl.len() implies x.refs.contains(
            (#[trigger] b.fl[k]).tleSortGroupRef,
        ) by {
            assert(x.refs[0] == b.fl[k].tleSortGroupRef);
        }
        lemma_simple_covers(x, b.fl, p.fl.len() as int);
        lemma_covers_add(p.sets, seq![x], p.fl, b.fl, 0);
        assert(b.seen[p.seen.len() as int] == r);
        assert(b.sets[p.sets.len() as int].refs == seq![r]);
        assert forall|q: u32| #[trigger] b.seen.contains(q) implies q != 0 && alone(
            b.sets,
            q,
        ) by {
            let j = choose|j: int| 0 <= j < b.seen.len() && b.seen[j] == q;
            if j < p.seen.len() {
                assert(p.seen[j] == q);
                assert(p.seen.contains(q));
                lemma_alone_kept(p.sets, b.sets, q);
            }
        }
    }
}

/// Beside grouping sets, every entry that is grouped by occurs in one of the
/// sets, and nothing else does.
pub proof fn law_every_grouped_entry_is_in_a_set(
    tl: Seq<TargetEntry>,
    s: Seq<GNode>,
    sc: Seq<SortGroupClause>,
    rule: GroupRule,
    cat: &Catalog,
    r: u32,
)
    requires
        parse_sort::max_ref(tl) + parse_group::weight_list(s) <= u32::MAX,
        parse_group_clause::clause_items(tl, s, true, sc, rule, cat).err is None,
    ensures
        ({
            let b = parse_group_clause::clause_items(tl, s, true, sc, rule, cat);
            groups_by(b.fl, r) <==> occurs_in(b.sets, r)
        }),
{
    lemma_clause_cover(tl, s, sc, rule, cat);
    let b = parse_group_clause::clause_items(tl, s, true, sc, rule, cat);
    if groups_by(b.fl, r) {
        let k = choose|k: int| 0 <= k < b.fl.len() && (#[trigger] b.fl[k]).tleSortGroupRef == r;
        assert(occurs_in(b.sets, b.fl[k].tleSortGroupRef));
    }
}

proof fn lemma_clause_grows(
    tl: Seq<TargetEntry>,
    s: Seq<GNode>,
    i: int,
    sc: Seq<SortGroupClause>,
    rule: GroupRule,
    cat: &Catalog,
)
    requires
        0 <= i <= s.len(),
        parse_sort::max_ref(tl) + parse_group::weight_list(s) <= u32::MAX,
        parse_group_clause::clause_items(tl, s, true, sc, rule, cat).err is None,
    ensures
        ({
            let p = parse_group_clause::clause_items(tl, s.take(i), true, sc, rule, cat);
            let b = parse_group_clause::clause_items(tl, s, true, sc, rule, cat);
            &&& p.err is None
            &&& p.sets.len() <= b.sets.len()
            &&& forall|m: int| 0 <= m < p.sets.len() ==> #[trigger] b.sets[m] == p.sets[m]
            &&& parse_sort::refs_kept(p.tl, b.tl)
            &&& parse_sort::max_ref(p.tl) + parse_group::weight_list(s.skip(i)) <= u32::MAX
        }),
    decreases s.len() - i,
{
    if i == s.len() {
        assert(s.take(i) =~= s);
        assert(s.skip(i) =~= Seq::empty());
        parse_group_clause::law_grouping_has_no_repeats(tl, s, true, sc, rule, cat);
    } else {
        lemma_clause_grows(tl, s, i + 1, sc, rule, cat);
        let t = s.take(i + 1);
        assert(t.drop_last() =~= s.take(i));
        assert(t.last() == s[i]);
        let p = parse_group_clause::clause_items(tl, s.take(i), true, sc, rule, cat);
        let q = parse_group_clause::clause_items(tl, t, true, sc, rule, cat);
        let b = parse_group_clause::clause_items(tl, s, true, sc, rule, cat);
        assert(s.take(i) + s.skip(i) =~= s);
        parse_group::lemma_weight_add(s.take(i), s.skip(i));
        parse_group_clause::law_grouping_has_no_repeats(tl, s.take(i), true, sc, rule, cat);
        assert(parse_sort::refs_kept(p.tl, q.tl)) by {
            match s[i] {
                GNode::GroupingSet(_, content, _) => {
                    parse_group_clause::lemma_set_items_keep(p.tl, p.fl, content, sc, rule, cat);
                },
                GNode::List(_) => {},
                GNode::Item(raw) => {
                    parse_group_clause::lemma_group_item_keeps(
                        p.tl,
                        p.fl,
                        p.seen,
                        raw,
                        sc,
                        rule,
                        true,
                        cat,
                    );
                },
                GNode::Row(_, _, whole) => {
                    parse_group_clause::lemma_group_item_keeps(
                        p.tl,
                        p.fl,
                        p.seen,
                        whole,
                        sc,
                        rule,
                        true,
                        cat,
                    );
                },
            }
        }
        assert forall|j: int| 0 <= j < p.tl.len() && p.tl[j].ressortgroupref != 0 implies (
        #[trigger] b.tl[j]).ressortgroupref == p.tl[j].ressortgroupref by {
            assert(q.tl[j].ressortgroupref == p.tl[j].ressortgroupref);
        }
        assert forall|m: int| 0 <= m < p.sets.len() implies #[trigger] b.sets[m] == p.sets[m] by {
            assert(q.sets[m] == p.sets[m]);
            assert(b.sets[m] == q.sets[m]);
        }
    }
}

/// Beside grouping sets, a plain expression is a simple set of its own, which
/// holds just the number of the entry that the expression was found as.
pub proof fn law_a_plain_expression_is_a_set(
    tl: Seq<TargetEntry>,
    s: Seq<GNode>,
    i: int,
    sc: Seq<SortGroupClause>,
    rule: GroupRule,
    cat: &Catalog,
)
    requires
        parse_sort::max_ref(tl) + parse_group::weight_list(s) <= u32::MAX,
        parse_group_clause::clause_items(tl, s, true, sc, rule, cat).err is None,
        0 <= i < s.len(),
        s[i] is Item || s[i] is Row,
    ensures
        ({
            let raw = match s[i] {
                GNode::Item(raw) => raw,
                GNode::Row(_, _, whole) => whole,
                _ => arbitrary(),
            };
            let p = parse_group_clause::clause_items(tl, s.take(i), true, sc, rule, cat);
            let b = parse_group_clause::clause_items(tl, s, true, sc, rule, cat);
            let f = parse_sort::found(raw, p.tl, rule.kind, rule.use_sql99, rule.flags);
            let r = b.tl[f.res->Ok_0].ressortgroupref;
            &&& f.res is Ok
            &&& 0 <= f.res->Ok_0 < b.tl.len()
            &&& r != 0
            &&& exists|m: int|
                0 <= m < b.sets.len() && (#[trigger] b.sets[m]).kind == GroupingSetKind::Simple
                    && b.sets[m].refs == seq![r]
        }),
{
    lemma_clause_grows(tl, s, i, sc, rule, cat);
    lemma_clause_grows(tl, s, i + 1, sc, rule, cat);
    let raw = match s[i] {
        GNode::Item(raw) => raw,
        GNode::Row(_, _, whole) => whole,
        _ => arbitrary(),
    };
    let t = s.take(i + 1);
    assert(t.drop_last() =~= s.take(i));
    assert(t.last() == s[i]);
    let p = parse_group_clause::clause_items(tl, s.take(i), true, sc, rule, cat);
    let q = parse_group_clause::clause_items(tl, t, true, sc, rule, cat);
    let b = parse_group_clause::clause_items(tl, s, true, sc, rule, cat);
    assert(s.take(i) + s.skip(i) =~= s);
    parse_group::lemma_weight_add(s.take(i), s.skip(i));
    assert(s.skip(i).drop_first() =~= s.skip(i + 1));
    assert(seq![s[i]] + s.skip(i + 1) =~= s.skip(i));
    parse_group::lemma_weight_add(seq![s[i]], s.skip(i + 1));
    reveal_with_fuel(parse_group::weight_list, 2);
    reveal_with_fuel(parse_group::weight, 2);
    assert(seq![s[i]].drop_last() =~= Seq::empty());
    assert(parse_group::weight(s[i]) >= 1);
    lemma_clause_cover(tl, s.take(i), sc, rule, cat);
    lemma_clause_item_cover(p, raw, sc, rule, cat);
    let f = parse_sort::found(raw, p.tl, rule.kind, rule.use_sql99, rule.flags);
    let r = q.tl[f.res->Ok_0].ressortgroupref;
    assert(b.tl[f.res->Ok_0].ressortgroupref == r);
    lemma_alone_kept(q.sets, b.sets, r);
}

/// How many of the items are grouping sets.
pub open spec fn written_sets(s: Seq<GNode>) -> nat {
    s.filter(|g: GNode| g is GroupingSet).len()
}

/// There is one set per written grouping set and per expression that is not a
/// repetition.
pub proof fn law_number_of_sets(
    tl: Seq<TargetEntry>,
    s: Seq<GNode>,
    sc: Seq<SortGroupClause>,
    rule: GroupRule,
    cat: &Catalog,
)
    requires
        parse_sort::max_ref(tl) + parse_group::weight_list(s) <= u32::MAX,
        parse_group_clause::clause_items(tl, s, true, sc, rule, cat).err is None,
    ensures
        ({
            let b = parse_group_clause::clause_items(tl, s, true, sc, rule, cat);
            b.sets.len() == b.seen.len() + written_sets(s)
        }),
    decreases s.len(),
{
    reveal(Seq::filter);
    if s.len() > 0 {
        let t = s.drop_last();
        reveal_with_fuel(parse_group::weight_list, 2);
        law_number_of_sets(tl, t, sc, rule, cat);
    }
}

/// A written grouping set makes one set of its kind, at its place among the
/// sets; what came before it keeps its place.
pub proof fn law_a_written_set_keeps_its_place(
    tl: Seq<TargetEntry>,
    s: Seq<GNode>,
    i: int,
    sc: Seq<SortGroupClause>,
    rule: GroupRule,
    cat: &Catalog,
)
    requires
        parse_sort::max_ref(tl) + parse_group::weight_list(s) <= u32::MAX,
        parse_group_clause::clause_items(tl, s, true, sc, rule, cat).err is None,
        0 <= i < s.len(),
        s[i] is GroupingSet,
    ensures
        ({
            let p = parse_group_clause::clause_items(tl, s.take(i), true, sc, rule, cat);
            let b = parse_group_clause::clause_items(tl, s, true, sc, rule, cat);
            let at = p.sets.len() as int;
            &&& at < b.sets.len()
            &&& b.sets.take(at) =~= p.sets
            &&& b.sets[at].kind == set_kind(s[i]->GroupingSet_0)
            &&& b.sets[at].location == s[i]->GroupingSet_2
            &&& b.sets[at].refs.len() == 0
            &&& s[i]->GroupingSet_0 != RawSetKind::Empty ==> b.sets[at].content
                == parse_group_clause::set_items(
                p.tl,
                p.fl,
                s[i]->GroupingSet_1,
                sc,
                rule,
                cat,
            ).sets
        }),
{
    lemma_clause_grows(tl, s, i, sc, rule, cat);
    lemma_clause_grows(tl, s, i + 1, sc, rule, cat);
    let t = s.take(i + 1);
    assert(t.drop_last() =~= s.take(i));
    assert(t.last() == s[i]);
    let p = parse_group_clause::clause_items(tl, s.take(i), true, sc, rule, cat);
    let q = parse_group_clause::clause_items(tl, t, true, sc, rule, cat);
    let b = parse_group_clause::clause_items(tl, s, true, sc, rule, cat);
    let at = p.sets.len() as int;
    assert(q.sets.len() == p.sets.len() + 1);
    assert(b.sets[at] == q.sets[at]);
}

/// Where grouping sets were written and flattening leaves nothing, one empty
/// set is kept; else the flattened items are taken as they are.
pub proof fn law_empty_sets_leave_one(s: Seq<GNode>)
    ensures
        ({
            let f = parse_group::flat_list(s, true);
            let k = parse_group_clause::flat_items(s);
            let some = exists|i: int| 0 <= i < s.len() && #[trigger] s[i] is GroupingSet;
            &&& f.len() > 0 || !some ==> k == f
            &&& f.len() == 0 && some ==> k.len() == 1 && (k[0] matches GNode::GroupingSet(
                kind,
                content,
                _,
            ) && kind == RawSetKind::Empty && content.len() == 0)
            &&& parse_group_clause::has_sets(s) <==> some
        }),
{
    if parse_group_clause::has_sets(s) {
        let i = choose|i: int|
            0 <= i < s.len() && parse_group_clause::is_grouping_set(#[trigger] s[i]);
        assert(s[i] is GroupingSet);
    }
    if exists|i: int| 0 <= i < s.len() && #[trigger] s[i] is GroupingSet {
        let i = choose|i: int| 0 <= i < s.len() && #[trigger] s[i] is GroupingSet;
        assert(parse_group_clause::is_grouping_set(s[i]));
    }
}

} // verus!
