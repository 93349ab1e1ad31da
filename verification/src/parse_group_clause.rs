//! GROUP BY as a whole: a flat list to group by, and the tree of grouping sets
//! over it.
use vstd::prelude::*;
use crate::parse_group;
use crate::parse_group::{
    flatten_grouping_sets_list, transformGroupClauseExpr, GNode, GroupNode, GroupRule, RawSetKind,
};
use crate::parse_nodes::{Catalog, ParseError, RawExpr, SortGroupClause, TargetEntry};
use crate::parse_sort;

verus! {

/// No place in the query text.
pub const NO_LOCATION: i32 = -1;

/// The largest CUBE that is accepted.
pub const CUBE_LIMIT: usize = 12;

/// What a grouping set is.
#[derive(Clone, Copy, Debug, PartialEq, Eq, Structural)]
pub enum GroupingSetKind {
    Empty,
    /// Numbers of entries that are grouped by together.
    Simple,
    Sets,
    Cube,
    Rollup,
}

/// A grouping set.
pub struct GroupingSet {
    pub kind: GroupingSetKind,
    pub refs: Vec<u32>,
    pub content: Vec<GroupingSet>,
    pub location: i32,
}

/// A grouping set, as a tree.
pub ghost struct GSet {
    pub kind: GroupingSetKind,
    pub refs: Seq<u32>,
    pub content: Seq<GSet>,
    pub location: i32,
}

/// The tree that a grouping set stands for.
pub open spec fn deep_set(g: GroupingSet) -> GSet
    decreases g,
{
    GSet {
        kind: g.kind,
        refs: g.refs@,
        content: deep_sets(g.content@),
        location: g.location,
    }
}

/// The trees that grouping sets stand for.
pub open spec fn deep_sets(s: Seq<GroupingSet>) -> Seq<GSet>
    decreases s,
{
    if s.len() == 0 {
        Seq::empty()
    } else {
        deep_sets(s.drop_last()).push(deep_set(s.last()))
    }
}

/// The kind of a grouping set that was written as `k`.
pub open spec fn kind_of(k: RawSetKind) -> GroupingSetKind {
    match k {
        RawSetKind::Empty => GroupingSetKind::Empty,
        RawSetKind::Sets => GroupingSetKind::Sets,
        RawSetKind::Cube => GroupingSetKind::Cube,
        RawSetKind::Rollup => GroupingSetKind::Rollup,
    }
}

fn to_kind(k: RawSetKind) -> (r: GroupingSetKind)
    ensures
        r == kind_of(k),
{
    match k {
        RawSetKind::Empty => GroupingSetKind::Empty,
        RawSetKind::Sets => GroupingSetKind::Sets,
        RawSetKind::Cube => GroupingSetKind::Cube,
        RawSetKind::Rollup => GroupingSetKind::Rollup,
    }
}

/// A set of entries that are grouped by together.
pub open spec fn simple(refs: Seq<u32>, location: i32) -> GSet {
    GSet { kind: GroupingSetKind::Simple, refs, content: Seq::empty(), location }
}

/// Where an item stands.
pub open spec fn node_location(g: GNode) -> i32
    decreases g,
{
    match g {
        GNode::Item(raw) => raw.location,
        GNode::Row(_, _, whole) => whole.location,
        GNode::GroupingSet(_, _, location) => location,
        GNode::List(items) => list_location(items),
    }
}

/// Where the first item with a known place stands, or -1.
pub open spec fn list_location(s: Seq<GNode>) -> i32
    decreases s,
{
    if s.len() == 0 {
        NO_LOCATION
    } else {
        let p = list_location(s.drop_last());
        if p >= 0 {
            p
        } else if node_location(s.last()) >= 0 {
            node_location(s.last())
        } else {
            NO_LOCATION
        }
    }
}

fn location_of(n: &GroupNode) -> (r: i32)
    ensures
        r == node_location(parse_group::deep(*n)),
    decreases n,
{
    match n {
        GroupNode::Item(raw) => raw.location,
        GroupNode::Row { whole, .. } => whole.location,
        GroupNode::GroupingSet { location, .. } => *location,
        GroupNode::List { items } => expr_location_list(items),
    }
}

proof fn lemma_list_location_found(s: Seq<GNode>, i: int)
    requires
        0 <= i <= s.len(),
        list_location(s.take(i)) >= 0,
    ensures
        list_location(s) == list_location(s.take(i)),
    decreases s.len() - i,
{
    if i == s.len() {
        assert(s.take(i) =~= s);
    } else {
        assert(s.take(i + 1).drop_last() =~= s.take(i));
        lemma_list_location_found(s, i + 1);
    }
}

/// Where the first item with a known place stands, or -1.
pub fn expr_location_list(list: &Vec<GroupNode>) -> (r: i32)
    ensures
        r == list_location(parse_group::deep_list(list@)),
    decreases list,
{
    let ghost s = parse_group::deep_list(list@);
    proof {
        parse_group::lemma_deep_list(list@);
        assert(s.take(0) =~= Seq::empty());
    }
    let mut i: usize = 0;
    while i < list.len()
        invariant
            i <= list@.len(),
            s == parse_group::deep_list(list@),
            s.len() == list@.len(),
            list_location(s.take(i as int)) == -1,
        decreases list@.len() - i,
    {
        proof {
            parse_group::lemma_deep_list(list@);
            assert(s[i as int] == parse_group::deep(list@[i as int]));
            assert(s.take(i + 1).drop_last() =~= s.take(i as int));
            assert(decreases_to!(list => list@));
            assert(decreases_to!(list@ => list@[i as int]));
        }
        let loc: i32 = location_of(&list[i]);
        if loc >= 0 {
            proof {
                lemma_list_location_found(s, i + 1);
            }
            return loc;
        }
        i = i + 1;
    }
    assert(s.take(i as int) =~= s);
    -1
}

/// The expression that an item is, unless it is a set or a list.
pub open spec fn raw_of(g: GNode) -> Option<RawExpr> {
    match g {
        GNode::Item(raw) => Some(raw),
        GNode::Row(_, _, whole) => Some(whole),
        _ => None,
    }
}

fn raw_item(n: &GroupNode) -> (r: Option<&RawExpr>)
    ensures
        match r {
            Some(x) => raw_of(parse_group::deep(*n)) == Some(*x),
            None => raw_of(parse_group::deep(*n)) is None,
        },
{
    match n {
        GroupNode::Item(raw) => Some(raw),
        GroupNode::Row { whole, .. } => Some(whole),
        _ => None,
    }
}

/// The two lists, the numbers of a list of items, and the error that stopped
/// the work.
pub ghost struct ListBuilt {
    pub tl: Seq<TargetEntry>,
    pub fl: Seq<SortGroupClause>,
    pub refs: Seq<u32>,
    pub err: Option<ParseError>,
}

/// Grouping by a list of items together; repetitions within it are dropped.
pub open spec fn list_items(
    tl: Seq<TargetEntry>,
    fl: Seq<SortGroupClause>,
    s: Seq<GNode>,
    sc: Seq<SortGroupClause>,
    rule: GroupRule,
    cat: &Catalog,
) -> ListBuilt
    decreases s.len(),
{
    if s.len() == 0 {
        ListBuilt { tl, fl, refs: Seq::empty(), err: None }
    } else {
        let p = list_items(tl, fl, s.drop_last(), sc, rule, cat);
        if p.err is Some {
            p
        } else {
            match raw_of(s.last()) {
                None => ListBuilt { err: Some(ParseError::UnexpectedGroupItem), ..p },
                Some(raw) => {
                    let g = parse_group::group_item(
                        p.tl,
                        p.fl,
                        p.refs,
                        raw,
                        sc,
                        rule,
                        false,
                        cat,
                    );
                    match g.res {
                        Err(e) => ListBuilt { tl: g.tl, fl: g.fl, refs: p.refs, err: Some(e) },
                        Ok(r) => ListBuilt {
                            tl: g.tl,
                            fl: g.fl,
                            refs: if r > 0 {
                                p.refs.push(r)
                            } else {
                                p.refs
                            },
                            err: None,
                        },
                    }
                },
            }
        }
    }
}

proof fn lemma_list_items_stop(
    tl: Seq<TargetEntry>,
    fl: Seq<SortGroupClause>,
    s: Seq<GNode>,
    i: int,
    sc: Seq<SortGroupClause>,
    rule: GroupRule,
    cat: &Catalog,
)
    requires
        0 <= i <= s.len(),
        list_items(tl, fl, s.take(i), sc, rule, cat).err is Some,
    ensures
        list_items(tl, fl, s, sc, rule, cat) == list_items(tl, fl, s.take(i), sc, rule, cat),
    decreases s.len() - i,
{
    if i == s.len() {
        assert(s.take(i) =~= s);
    } else {
        assert(s.take(i + 1).drop_last() =~= s.take(i));
        lemma_list_items_stop(tl, fl, s, i + 1, sc, rule, cat);
    }
}

pub proof fn lemma_weight_prefix(s: Seq<GNode>, i: int)
    requires
        0 <= i < s.len(),
    ensures
        parse_group::weight_list(s.take(i)) + parse_group::weight(s[i]) == parse_group::weight_list(
            s.take(i + 1),
        ),
        parse_group::weight_list(s.take(i + 1)) <= parse_group::weight_list(s),
{
    assert(s.take(i + 1).drop_last() =~= s.take(i));
    assert(s.take(i + 1) + s.skip(i + 1) =~= s);
    parse_group::lemma_weight_add(s.take(i + 1), s.skip(i + 1));
}

/// Groups by a list of items together; gives their numbers.
pub fn transformGroupClauseList(
    targetlist: &mut Vec<TargetEntry>,
    flatresult: &mut Vec<SortGroupClause>,
    list: &Vec<GroupNode>,
    sort_clause: &Vec<SortGroupClause>,
    rule: GroupRule,
    cat: &Catalog,
) -> (r: Result<Vec<u32>, ParseError>)
    requires
        parse_sort::max_ref(old(targetlist)@) + parse_group::weight_list(
            parse_group::deep_list(list@),
        ) <= u32::MAX,
    ensures
        ({
            let b = list_items(
                old(targetlist)@,
                old(flatresult)@,
                parse_group::deep_list(list@),
                sort_clause@,
                rule,
                cat,
            );
            final(targetlist)@ == b.tl && final(flatresult)@ == b.fl && match r {
                Ok(refs) => b.err is None && refs@ == b.refs,
                Err(e) => b.err == Some(e),
            }
        }),
        parse_sort::max_ref(final(targetlist)@) <= parse_sort::max_ref(old(targetlist)@)
            + parse_group::weight_list(parse_group::deep_list(list@)),
{
    let ghost tl0 = targetlist@;
    let ghost fl0 = flatresult@;
    let ghost s = parse_group::deep_list(list@);
    let mut seen: Vec<u32> = Vec::new();
    let mut i: usize = 0;
    proof {
        parse_group::lemma_deep_list(list@);
        assert(s.take(0) =~= Seq::empty());
    }
    while i < list.len()
        invariant
            i <= list@.len(),
            tl0 == old(targetlist)@,
            fl0 == old(flatresult)@,
            s == parse_group::deep_list(list@),
            s.len() == list@.len(),
            parse_sort::max_ref(tl0) + parse_group::weight_list(s) <= u32::MAX,
            parse_sort::max_ref(targetlist@) <= parse_sort::max_ref(tl0) + parse_group::weight_list(
                s.take(i as int),
            ),
            list_items(tl0, fl0, s.take(i as int), sort_clause@, rule, cat) == (ListBuilt {
                tl: targetlist@,
                fl: flatresult@,
                refs: seen@,
                err: None,
            }),
        decreases list@.len() - i,
    {
        proof {
            parse_group::lemma_deep_list(list@);
            assert(s[i as int] == parse_group::deep(list@[i as int]));
            assert(s.take(i + 1).drop_last() =~= s.take(i as int));
            lemma_weight_prefix(s, i as int);
        }
        let raw: &RawExpr = match raw_item(&list[i]) {
            Some(raw) => raw,
            None => {
                proof {
                    lemma_list_items_stop(tl0, fl0, s, i + 1, sort_clause@, rule, cat);
                }
                return Err(ParseError::UnexpectedGroupItem);
            },
        };
        match transformGroupClauseExpr(
            targetlist,
            flatresult,
            &seen,
            raw,
            sort_clause,
            rule,
            false,
            cat,
        ) {
            Err(e) => {
                proof {
                    lemma_list_items_stop(tl0, fl0, s, i + 1, sort_clause@, rule, cat);
                }
                return Err(e);
            },
            Ok(r) => {
                if r > 0 {
                    seen.push(r);
                }
            },
        }
        i = i + 1;
    }
    assert(s.take(i as int) =~= s);
    Ok(seen)
}

/// The two lists, the grouping sets, and the error that stopped the work.
pub ghost struct SetsBuilt {
    pub tl: Seq<TargetEntry>,
    pub fl: Seq<SortGroupClause>,
    pub sets: Seq<GSet>,
    pub err: Option<ParseError>,
}

/// The items of a grouping set, in order, each as a set.
pub open spec fn set_items(
    tl: Seq<TargetEntry>,
    fl: Seq<SortGroupClause>,
    s: Seq<GNode>,
    sc: Seq<SortGroupClause>,
    rule: GroupRule,
    cat: &Catalog,
) -> SetsBuilt
    decreases s,
{
    if s.len() == 0 {
        SetsBuilt { tl, fl, sets: Seq::empty(), err: None }
    } else {
        let p = set_items(tl, fl, s.drop_last(), sc, rule, cat);
        if p.err is Some {
            p
        } else {
            let c = set_cell(p.tl, p.fl, s.last(), sc, rule, cat);
            SetsBuilt { tl: c.tl, fl: c.fl, sets: p.sets + c.sets, err: c.err }
        }
    }
}

/// One item of a grouping set, as a set.
pub open spec fn set_cell(
    tl: Seq<TargetEntry>,
    fl: Seq<SortGroupClause>,
    g: GNode,
    sc: Seq<SortGroupClause>,
    rule: GroupRule,
    cat: &Catalog,
) -> SetsBuilt
    decreases g,
{
    match g {
        GNode::List(items) => {
            let l = list_items(tl, fl, items, sc, rule, cat);
            SetsBuilt {
                tl: l.tl,
                fl: l.fl,
                sets: if l.err is Some {
                    Seq::empty()
                } else {
                    seq![simple(l.refs, list_location(items))]
                },
                err: l.err,
            }
        },
        GNode::GroupingSet(kind, content, location) => {
            let c = set_items(tl, fl, content, sc, rule, cat);
            set_of(kind, location, c)
        },
        GNode::Item(raw) => set_of_item(tl, fl, raw, sc, rule, cat),
        GNode::Row(_, _, whole) => set_of_item(tl, fl, whole, sc, rule, cat),
    }
}

/// A set made of what was built of its items; a CUBE must not be too large.
pub open spec fn set_of(kind: RawSetKind, location: i32, c: SetsBuilt) -> SetsBuilt {
    if c.err is Some {
        SetsBuilt { sets: Seq::empty(), ..c }
    } else if kind == RawSetKind::Cube && c.sets.len() > CUBE_LIMIT {
        SetsBuilt { sets: Seq::empty(), err: Some(ParseError::CubeLimit { location }), ..c }
    } else {
        SetsBuilt {
            sets: seq![
                GSet { kind: kind_of(kind), refs: Seq::empty(), content: c.sets, location },
            ],
            ..c
        }
    }
}

/// A single expression of a grouping set.
pub open spec fn set_of_item(
    tl: Seq<TargetEntry>,
    fl: Seq<SortGroupClause>,
    raw: RawExpr,
    sc: Seq<SortGroupClause>,
    rule: GroupRule,
    cat: &Catalog,
) -> SetsBuilt {
    let g = parse_group::group_item(tl, fl, Seq::empty(), raw, sc, rule, false, cat);
    match g.res {
        Err(e) => SetsBuilt { tl: g.tl, fl: g.fl, sets: Seq::empty(), err: Some(e) },
        Ok(r) => SetsBuilt {
            tl: g.tl,
            fl: g.fl,
            sets: seq![simple(seq![r], raw.location)],
            err: None,
        },
    }
}

/// Whether a call that makes one set came out as described.
pub open spec fn is_set(
    tl: Seq<TargetEntry>,
    fl: Seq<SortGroupClause>,
    r: Result<GroupingSet, ParseError>,
    b: SetsBuilt,
) -> bool {
    tl == b.tl && fl == b.fl && match r {
        Ok(g) => b.err is None && b.sets == seq![deep_set(g)],
        Err(e) => b.err == Some(e),
    }
}

proof fn lemma_set_items_stop(
    tl: Seq<TargetEntry>,
    fl: Seq<SortGroupClause>,
    s: Seq<GNode>,
    i: int,
    sc: Seq<SortGroupClause>,
    rule: GroupRule,
    cat: &Catalog,
)
    requires
        0 <= i <= s.len(),
        set_items(tl, fl, s.take(i), sc, rule, cat).err is Some,
    ensures
        set_items(tl, fl, s, sc, rule, cat).err == set_items(tl, fl, s.take(i), sc, rule, cat).err,
        set_items(tl, fl, s, sc, rule, cat).tl == set_items(tl, fl, s.take(i), sc, rule, cat).tl,
        set_items(tl, fl, s, sc, rule, cat).fl == set_items(tl, fl, s.take(i), sc, rule, cat).fl,
    decreases s.len() - i,
{
    if i == s.len() {
        assert(s.take(i) =~= s);
    } else {
        assert(s.take(i + 1).drop_last() =~= s.take(i));
        lemma_set_items_stop(tl, fl, s, i + 1, sc, rule, cat);
    }
}

fn simple_set(refs: Vec<u32>, location: i32) -> (r: GroupingSet)
    ensures
        deep_set(r) == simple(refs@, location),
{
    GroupingSet { kind: GroupingSetKind::Simple, refs, content: Vec::new(), location }
}

/// One item of a grouping set, as a set.
fn transform_cell(
    targetlist: &mut Vec<TargetEntry>,
    flatresult: &mut Vec<SortGroupClause>,
    n: &GroupNode,
    sort_clause: &Vec<SortGroupClause>,
    rule: GroupRule,
    cat: &Catalog,
) -> (r: Result<GroupingSet, ParseError>)
    requires
        parse_sort::max_ref(old(targetlist)@) + parse_group::weight(parse_group::deep(*n))
            <= u32::MAX,
    ensures
        is_set(
            final(targetlist)@,
            final(flatresult)@,
            r,
            set_cell(
                old(targetlist)@,
                old(flatresult)@,
                parse_group::deep(*n),
                sort_clause@,
                rule,
                cat,
            ),
        ),
        parse_sort::max_ref(final(targetlist)@) <= parse_sort::max_ref(old(targetlist)@)
            + parse_group::weight(parse_group::deep(*n)),
    decreases n,
{
    match n {
        GroupNode::List { items } => {
            match transformGroupClauseList(
                targetlist,
                flatresult,
                items,
                sort_clause,
                rule,
                cat,
            ) {
                Err(e) => Err(e),
                Ok(l) => Ok(simple_set(l, expr_location_list(items))),
            }
        },
        GroupNode::GroupingSet { kind, content, location } => transformGroupingSet(
            targetlist,
            flatresult,
            *kind,
            content,
            *location,
            sort_clause,
            rule,
            cat,
        ),
        GroupNode::Item(raw) => transform_item(
            targetlist,
            flatresult,
            raw,
            sort_clause,
            rule,
            cat,
        ),
        GroupNode::Row { whole, .. } => transform_item(
            targetlist,
            flatresult,
            whole,
            sort_clause,
            rule,
            cat,
        ),
    }
}

fn transform_item(
    targetlist: &mut Vec<TargetEntry>,
    flatresult: &mut Vec<SortGroupClause>,
    raw: &RawExpr,
    sort_clause: &Vec<SortGroupClause>,
    rule: GroupRule,
    cat: &Catalog,
) -> (r: Result<GroupingSet, ParseError>)
    requires
        parse_sort::max_ref(old(targetlist)@) < u32::MAX,
    ensures
        is_set(
            final(targetlist)@,
            final(flatresult)@,
            r,
            set_of_item(old(targetlist)@, old(flatresult)@, *raw, sort_clause@, rule, cat),
        ),
        parse_sort::max_ref(final(targetlist)@) <= parse_sort::max_ref(old(targetlist)@) + 1,
{
    let none: Vec<u32> = Vec::new();
    match transformGroupClauseExpr(
        targetlist,
        flatresult,
        &none,
        raw,
        sort_clause,
        rule,
        false,
        cat,
    ) {
        Err(e) => Err(e),
        Ok(r) => {
            let mut refs: Vec<u32> = Vec::new();
            refs.push(r);
            assert(refs@ =~= seq![r]);
            Ok(simple_set(refs, raw.location))
        },
    }
}

/// Groups by the items of a grouping set.
pub fn transformGroupingSet(
    targetlist: &mut Vec<TargetEntry>,
    flatresult: &mut Vec<SortGroupClause>,
    kind: RawSetKind,
    content: &Vec<GroupNode>,
    location: i32,
    sort_clause: &Vec<SortGroupClause>,
    rule: GroupRule,
    cat: &Catalog,
) -> (r: Result<GroupingSet, ParseError>)
    requires
        parse_sort::max_ref(old(targetlist)@) + parse_group::weight_list(
            parse_group::deep_list(content@),
        ) <= u32::MAX,
    ensures
        is_set(
            final(targetlist)@,
            final(flatresult)@,
            r,
            set_of(
                kind,
                location,
                set_items(
                    old(targetlist)@,
                    old(flatresult)@,
                    parse_group::deep_list(content@),
                    sort_clause@,
                    rule,
                    cat,
                ),
            ),
        ),
        parse_sort::max_ref(final(targetlist)@) <= parse_sort::max_ref(old(targetlist)@)
            + parse_group::weight_list(parse_group::deep_list(content@)),
    decreases content,
{
    let ghost tl0 = targetlist@;
    let ghost fl0 = flatresult@;
    let ghost s = parse_group::deep_list(content@);
    let mut sets: Vec<GroupingSet> = Vec::new();
    let mut i: usize = 0;
    proof {
        parse_group::lemma_deep_list(content@);
        assert(s.take(0) =~= Seq::empty());
    }
    while i < content.len()
        invariant
            i <= content@.len(),
            tl0 == old(targetlist)@,
            fl0 == old(flatresult)@,
            s == parse_group::deep_list(content@),
            s.len() == content@.len(),
            parse_sort::max_ref(tl0) + parse_group::weight_list(s) <= u32::MAX,
            parse_sort::max_ref(targetlist@) <= parse_sort::max_ref(tl0) + parse_group::weight_list(
                s.take(i as int),
            ),
            set_items(tl0, fl0, s.take(i as int), sort_clause@, rule, cat) == (SetsBuilt {
                tl: targetlist@,
                fl: flatresult@,
                sets: deep_sets(sets@),
                err: None,
            }),
        decreases content@.len() - i,
    {
        proof {
            parse_group::lemma_deep_list(content@);
            assert(s[i as int] == parse_group::deep(content@[i as int]));
            assert(s.take(i + 1).drop_last() =~= s.take(i as int));
            lemma_weight_prefix(s, i as int);
            assert(decreases_to!(content => content@));
            assert(decreases_to!(content@ => content@[i as int]));
            reveal_with_fuel(set_items, 2);
        }
        match transform_cell(targetlist, flatresult, &content[i], sort_clause, rule, cat) {
            Err(e) => {
                proof {
                    lemma_set_items_stop(tl0, fl0, s, i + 1, sort_clause@, rule, cat);
                }
                return Err(e);
            },
            Ok(g) => {
                let ghost before = sets@;
                sets.push(g);
                proof {
                    assert(sets@.drop_last() =~= before);
                    assert(deep_sets(sets@) =~= deep_sets(before) + seq![deep_set(g)]);
                }
            },
        }
        i = i + 1;
    }
    assert(s.take(i as int) =~= s);
    proof {
        lemma_deep_sets_len(sets@);
    }
    if kind == RawSetKind::Cube && sets.len() > CUBE_LIMIT {
        return Err(ParseError::CubeLimit { location });
    }
    Ok(GroupingSet { kind: to_kind(kind), refs: Vec::new(), content: sets, location })
}

proof fn lemma_deep_sets_len(s: Seq<GroupingSet>)
    ensures
        deep_sets(s).len() == s.len(),
    decreases s.len(),
{
    if s.len() > 0 {
        lemma_deep_sets_len(s.drop_last());
    }
}

/// The two lists, the numbers grouped by at top level, the grouping sets, and
/// the error that stopped the work.
pub ghost struct ClauseBuilt {
    pub tl: Seq<TargetEntry>,
    pub fl: Seq<SortGroupClause>,
    pub seen: Seq<u32>,
    pub sets: Seq<GSet>,
    pub err: Option<ParseError>,
}

/// Whether an item is a grouping set.
pub open spec fn is_grouping_set(g: GNode) -> bool {
    g is GroupingSet
}

/// Whether GROUP BY has a grouping set among its items.
pub open spec fn has_sets(s: Seq<GNode>) -> bool {
    exists|k: int| 0 <= k < s.len() && is_grouping_set(#[trigger] s[k])
}

/// The items of GROUP BY, flattened. Where only empty grouping sets were
/// written, one is kept.
pub open spec fn flat_items(s: Seq<GNode>) -> Seq<GNode> {
    let f = parse_group::flat_list(s, true);
    if f.len() == 0 && has_sets(s) {
        seq![GNode::GroupingSet(RawSetKind::Empty, Seq::empty(), list_location(s))]
    } else {
        f
    }
}

/// One flattened item of GROUP BY.
pub open spec fn clause_step(
    p: ClauseBuilt,
    g: GNode,
    with_sets: bool,
    sc: Seq<SortGroupClause>,
    rule: GroupRule,
    cat: &Catalog,
) -> ClauseBuilt {
    match g {
        GNode::GroupingSet(kind, content, location) => if kind == RawSetKind::Empty {
            ClauseBuilt {
                sets: p.sets.push(
                    GSet {
                        kind: GroupingSetKind::Empty,
                        refs: Seq::empty(),
                        content: Seq::empty(),
                        location,
                    },
                ),
                ..p
            }
        } else {
            let c = set_of(kind, location, set_items(p.tl, p.fl, content, sc, rule, cat));
            ClauseBuilt { tl: c.tl, fl: c.fl, seen: p.seen, sets: p.sets + c.sets, err: c.err }
        },
        GNode::List(_) => ClauseBuilt { err: Some(ParseError::UnexpectedGroupItem), ..p },
        GNode::Item(raw) => clause_item(p, raw, with_sets, sc, rule, cat),
        GNode::Row(_, _, whole) => clause_item(p, whole, with_sets, sc, rule, cat),
    }
}

/// One expression of GROUP BY; beside grouping sets it counts as a set too.
pub open spec fn clause_item(
    p: ClauseBuilt,
    raw: RawExpr,
    with_sets: bool,
    sc: Seq<SortGroupClause>,
    rule: GroupRule,
    cat: &Catalog,
) -> ClauseBuilt {
    let g = parse_group::group_item(p.tl, p.fl, p.seen, raw, sc, rule, true, cat);
    match g.res {
        Err(e) => ClauseBuilt { tl: g.tl, fl: g.fl, seen: p.seen, sets: p.sets, err: Some(e) },
        Ok(r) => ClauseBuilt {
            tl: g.tl,
            fl: g.fl,
            seen: if r > 0 {
                p.seen.push(r)
            } else {
                p.seen
            },
            sets: if r > 0 && with_sets {
                p.sets.push(simple(seq![r], raw.location))
            } else {
                p.sets
            },
            err: None,
        },
    }
}

/// The flattened items of GROUP BY, in order; the first error stops the work.
pub open spec fn clause_items(
    tl: Seq<TargetEntry>,
    s: Seq<GNode>,
    with_sets: bool,
    sc: Seq<SortGroupClause>,
    rule: GroupRule,
    cat: &Catalog,
) -> ClauseBuilt
    decreases s.len(),
{
    if s.len() == 0 {
        ClauseBuilt { tl, fl: Seq::empty(), seen: Seq::empty(), sets: Seq::empty(), err: None }
    } else {
        let p = clause_items(tl, s.drop_last(), with_sets, sc, rule, cat);
        if p.err is Some {
            p
        } else {
            clause_step(p, s.last(), with_sets, sc, rule, cat)
        }
    }
}

proof fn lemma_clause_items_stop(
    tl: Seq<TargetEntry>,
    s: Seq<GNode>,
    i: int,
    with_sets: bool,
    sc: Seq<SortGroupClause>,
    rule: GroupRule,
    cat: &Catalog,
)
    requires
        0 <= i <= s.len(),
        clause_items(tl, s.take(i), with_sets, sc, rule, cat).err is Some,
    ensures
        clause_items(tl, s, with_sets, sc, rule, cat) == clause_items(
            tl,
            s.take(i),
            with_sets,
            sc,
            rule,
            cat,
        ),
    decreases s.len() - i,
{
    if i == s.len() {
        assert(s.take(i) =~= s);
    } else {
        assert(s.take(i + 1).drop_last() =~= s.take(i));
        lemma_clause_items_stop(tl, s, i + 1, with_sets, sc, rule, cat);
    }
}

fn any_set(list: &Vec<GroupNode>) -> (r: bool)
    ensures
        r == has_sets(parse_group::deep_list(list@)),
{
    let ghost s = parse_group::deep_list(list@);
    proof {
        parse_group::lemma_deep_list(list@);
    }
    let mut i: usize = 0;
    while i < list.len()
        invariant
            i <= list@.len(),
            s == parse_group::deep_list(list@),
            s.len() == list@.len(),
            forall|k: int| 0 <= k < i ==> !is_grouping_set(#[trigger] s[k]),
        decreases list@.len() - i,
    {
        proof {
            parse_group::lemma_deep_list(list@);
            assert(s[i as int] == parse_group::deep(list@[i as int]));
        }
        if let GroupNode::GroupingSet { .. } = &list[i] {
            assert(is_grouping_set(s[i as int]));
            return true;
        }
        i = i + 1;
    }
    false
}

/// What GROUP BY comes to.
pub struct GroupClause {
    /// What to group by.
    pub group_clause: Vec<SortGroupClause>,
    /// The grouping sets over it; none where none were written.
    pub grouping_sets: Vec<GroupingSet>,
}

fn clause_one(
    targetlist: &mut Vec<TargetEntry>,
    result: &mut Vec<SortGroupClause>,
    seen: &mut Vec<u32>,
    gsets: &mut Vec<GroupingSet>,
    n: &GroupNode,
    with_sets: bool,
    sort_clause: &Vec<SortGroupClause>,
    rule: GroupRule,
    cat: &Catalog,
) -> (r: Result<(), ParseError>)
    requires
        parse_sort::max_ref(old(targetlist)@) + parse_group::weight(parse_group::deep(*n))
            <= u32::MAX,
    ensures
        ({
            let p = ClauseBuilt {
                tl: old(targetlist)@,
                fl: old(result)@,
                seen: old(seen)@,
                sets: deep_sets(old(gsets)@),
                err: None,
            };
            let q = clause_step(p, parse_group::deep(*n), with_sets, sort_clause@, rule, cat);
            final(targetlist)@ == q.tl && final(result)@ == q.fl && final(seen)@ == q.seen
                && parse_sort::err_of(r) == q.err && (r is Ok ==> deep_sets(final(gsets)@)
                == q.sets)
        }),
        parse_sort::max_ref(final(targetlist)@) <= parse_sort::max_ref(old(targetlist)@)
            + parse_group::weight(parse_group::deep(*n)),
{
    let ghost before = gsets@;
    match n {
        GroupNode::GroupingSet { kind, content, location } => {
            if *kind == RawSetKind::Empty {
                gsets.push(
                    GroupingSet {
                        kind: GroupingSetKind::Empty,
                        refs: Vec::new(),
                        content: Vec::new(),
                        location: *location,
                    },
                );
                proof {
                    assert(gsets@.drop_last() =~= before);
                    let g = gsets@.last();
                    assert(deep_sets(g.content@) =~= Seq::empty());
                    assert(deep_set(g) == (GSet {
                        kind: GroupingSetKind::Empty,
                        refs: Seq::empty(),
                        content: Seq::empty(),
                        location: *location,
                    }));
                }
                return Ok(());
            }
            match transformGroupingSet(
                targetlist,
                result,
                *kind,
                content,
                *location,
                sort_clause,
                rule,
                cat,
            ) {
                Err(e) => Err(e),
                Ok(g) => {
                    gsets.push(g);
                    proof {
                        assert(gsets@.drop_last() =~= before);
                        assert(deep_sets(gsets@) =~= deep_sets(before) + seq![deep_set(g)]);
                    }
                    Ok(())
                },
            }
        },
        GroupNode::List { .. } => Err(ParseError::UnexpectedGroupItem),
        _ => {
            let raw: &RawExpr = match raw_item(n) {
                Some(raw) => raw,
                None => {
                    return Err(ParseError::UnexpectedGroupItem);
                },
            };
            match transformGroupClauseExpr(
                targetlist,
                result,
                seen,
                raw,
                sort_clause,
                rule,
                true,
                cat,
            ) {
                Err(e) => Err(e),
                Ok(r) => {
                    if r > 0 {
                        seen.push(r);
                        if with_sets {
                            let mut refs: Vec<u32> = Vec::new();
                            refs.push(r);
                            assert(refs@ =~= seq![r]);
                            gsets.push(simple_set(refs, raw.location));
                            assert(gsets@.drop_last() =~= before);
                        }
                    }
                    Ok(())
                },
            }
        },
    }
}

/// Transforms GROUP BY into a list to group by and the grouping sets over it.
/// Items that are not in the target list are added to it.
pub fn transformGroupClause(
    grouplist: Vec<GroupNode>,
    targetlist: &mut Vec<TargetEntry>,
    sort_clause: &Vec<SortGroupClause>,
    rule: GroupRule,
    cat: &Catalog,
) -> (r: Result<GroupClause, ParseError>)
    requires
        parse_sort::max_ref(old(targetlist)@) + parse_group::weight_list(
            parse_group::deep_list(grouplist@),
        ) <= u32::MAX,
    ensures
        ({
            let s = parse_group::deep_list(grouplist@);
            let b = clause_items(
                old(targetlist)@,
                flat_items(s),
                has_sets(s),
                sort_clause@,
                rule,
                cat,
            );
            final(targetlist)@ == b.tl && match r {
                Ok(g) => b.err is None && g.group_clause@ == b.fl && deep_sets(g.grouping_sets@)
                    == b.sets,
                Err(e) => b.err == Some(e),
            }
        }),
        parse_sort::max_ref(final(targetlist)@) <= parse_sort::max_ref(old(targetlist)@)
            + parse_group::weight_list(parse_group::deep_list(grouplist@)),
{
    let ghost tl0 = targetlist@;
    let ghost written = parse_group::deep_list(grouplist@);
    let location: i32 = expr_location_list(&grouplist);
    let with_sets: bool = any_set(&grouplist);
    proof {
        parse_group::lemma_flat_list_weight(written, true);
    }
    let mut flat: Vec<GroupNode> = flatten_grouping_sets_list(grouplist, true);
    proof {
        parse_group::lemma_deep_list(flat@);
    }
    if flat.len() == 0 && with_sets {
        let content: Vec<GroupNode> = Vec::new();
        flat.push(GroupNode::GroupingSet { kind: RawSetKind::Empty, content, location });
        proof {
            let g = GNode::GroupingSet(RawSetKind::Empty, Seq::empty(), location);
            assert(parse_group::deep_list(content@) =~= Seq::empty());
            assert(parse_group::deep(flat@[0]) == g);
            parse_group::lemma_deep_list(flat@);
            assert(parse_group::deep_list(flat@) =~= seq![g]);
            reveal_with_fuel(parse_group::weight_list, 2);
            assert(seq![g].drop_last() =~= Seq::empty());
            assert(parse_group::weight_list(seq![g]) == 0);
        }
    }
    let ghost s = parse_group::deep_list(flat@);
    assert(s == flat_items(written));
    let mut result: Vec<SortGroupClause> = Vec::new();
    let mut seen: Vec<u32> = Vec::new();
    let mut gsets: Vec<GroupingSet> = Vec::new();
    let mut i: usize = 0;
    proof {
        parse_group::lemma_deep_list(flat@);
        assert(s.take(0) =~= Seq::empty());
    }
    while i < flat.len()
        invariant
            i <= flat@.len(),
            tl0 == old(targetlist)@,
            s == parse_group::deep_list(flat@),
            s.len() == flat@.len(),
            written == parse_group::deep_list(grouplist@),
            s == flat_items(written),
            with_sets == has_sets(written),
            parse_group::weight_list(s) <= parse_group::weight_list(written),
            parse_sort::max_ref(tl0) + parse_group::weight_list(s) <= u32::MAX,
            parse_sort::max_ref(targetlist@) <= parse_sort::max_ref(tl0) + parse_group::weight_list(
                s.take(i as int),
            ),
            clause_items(tl0, s.take(i as int), with_sets, sort_clause@, rule, cat) == (
            ClauseBuilt {
                tl: targetlist@,
                fl: result@,
                seen: seen@,
                sets: deep_sets(gsets@),
                err: None,
            }),
        decreases flat@.len() - i,
    {
        proof {
            parse_group::lemma_deep_list(flat@);
            assert(s[i as int] == parse_group::deep(flat@[i as int]));
            assert(s.take(i + 1).drop_last() =~= s.take(i as int));
            lemma_weight_prefix(s, i as int);
        }
        match clause_one(
            targetlist,
            &mut result,
            &mut seen,
            &mut gsets,
            &flat[i],
            with_sets,
            sort_clause,
            rule,
            cat,
        ) {
            Err(e) => {
                proof {
                    lemma_clause_items_stop(tl0, s, i + 1, with_sets, sort_clause@, rule, cat);
                }
                return Err(e);
            },
            Ok(_) => {},
        }
        i = i + 1;
    }
    assert(s.take(i as int) =~= s);
    Ok(GroupClause { group_clause: result, grouping_sets: gsets })
}

/// Grouping by an item keeps all numbers.
pub proof fn lemma_group_item_keeps(
    tl: Seq<TargetEntry>,
    fl: Seq<SortGroupClause>,
    seen: Seq<u32>,
    raw: RawExpr,
    sc: Seq<SortGroupClause>,
    rule: GroupRule,
    toplevel: bool,
    cat: &Catalog,
)
    ensures
        parse_sort::refs_kept(
            tl,
            parse_group::group_item(tl, fl, seen, raw, sc, rule, toplevel, cat).tl,
        ),
{
    parse_sort::lemma_found_bounds(raw, tl, rule.kind, rule.use_sql99, rule.flags);
    parse_sort::lemma_found(raw, tl, rule.kind, rule.use_sql99, rule.flags);
}

proof fn lemma_list_items_keep(
    tl: Seq<TargetEntry>,
    fl: Seq<SortGroupClause>,
    s: Seq<GNode>,
    sc: Seq<SortGroupClause>,
    rule: GroupRule,
    cat: &Catalog,
)
    ensures
        parse_sort::refs_kept(tl, list_items(tl, fl, s, sc, rule, cat).tl),
    decreases s.len(),
{
    if s.len() > 0 {
        lemma_list_items_keep(tl, fl, s.drop_last(), sc, rule, cat);
        let p = list_items(tl, fl, s.drop_last(), sc, rule, cat);
        match raw_of(s.last()) {
            Some(raw) => lemma_group_item_keeps(
                p.tl,
                p.fl,
                p.refs,
                raw,
                sc,
                rule,
                false,
                cat,
            ),
            None => {},
        }
    }
}

pub proof fn lemma_set_items_keep(
    tl: Seq<TargetEntry>,
    fl: Seq<SortGroupClause>,
    s: Seq<GNode>,
    sc: Seq<SortGroupClause>,
    rule: GroupRule,
    cat: &Catalog,
)
    ensures
        parse_sort::refs_kept(tl, set_items(tl, fl, s, sc, rule, cat).tl),
    decreases s,
{
    if s.len() > 0 {
        lemma_set_items_keep(tl, fl, s.drop_last(), sc, rule, cat);
        let p = set_items(tl, fl, s.drop_last(), sc, rule, cat);
        lemma_set_cell_keeps(p.tl, p.fl, s.last(), sc, rule, cat);
    }
}

proof fn lemma_set_cell_keeps(
    tl: Seq<TargetEntry>,
    fl: Seq<SortGroupClause>,
    g: GNode,
    sc: Seq<SortGroupClause>,
    rule: GroupRule,
    cat: &Catalog,
)
    ensures
        parse_sort::refs_kept(tl, set_cell(tl, fl, g, sc, rule, cat).tl),
    decreases g,
{
    match g {
        GNode::List(items) => lemma_list_items_keep(tl, fl, items, sc, rule, cat),
        GNode::GroupingSet(_, content, _) => lemma_set_items_keep(
            tl,
            fl,
            content,
            sc,
            rule,
            cat,
        ),
        GNode::Item(raw) => lemma_group_item_keeps(
            tl,
            fl,
            Seq::empty(),
            raw,
            sc,
            rule,
            false,
            cat,
        ),
        GNode::Row(_, _, whole) => lemma_group_item_keeps(
            tl,
            fl,
            Seq::empty(),
            whole,
            sc,
            rule,
            false,
            cat,
        ),
    }
}

/// GROUP BY keeps the entries of the target list and their numbers.
pub proof fn law_grouping_keeps_numbers(
    tl: Seq<TargetEntry>,
    s: Seq<GNode>,
    with_sets: bool,
    sc: Seq<SortGroupClause>,
    rule: GroupRule,
    cat: &Catalog,
)
    ensures
        parse_sort::refs_kept(tl, clause_items(tl, s, with_sets, sc, rule, cat).tl),
    decreases s.len(),
{
    if s.len() > 0 {
        law_grouping_keeps_numbers(tl, s.drop_last(), with_sets, sc, rule, cat);
        let p = clause_items(tl, s.drop_last(), with_sets, sc, rule, cat);
        match s.last() {
            GNode::GroupingSet(_, content, _) => lemma_set_items_keep(
                p.tl,
                p.fl,
                content,
                sc,
                rule,
                cat,
            ),
            GNode::List(_) => {},
            GNode::Item(raw) => lemma_group_item_keeps(
                p.tl,
                p.fl,
                p.seen,
                raw,
                sc,
                rule,
                true,
                cat,
            ),
            GNode::Row(_, _, whole) => lemma_group_item_keeps(
                p.tl,
                p.fl,
                p.seen,
                whole,
                sc,
                rule,
                true,
                cat,
            ),
        }
    }
}

/// Whether a list groups by no entry twice.
pub open spec fn no_repeats(fl: Seq<SortGroupClause>) -> bool {
    forall|i: int, j: int|
        0 <= i < j < fl.len() ==> (#[trigger] fl[i]).tleSortGroupRef != (
        #[trigger] fl[j]).tleSortGroupRef
}

pub proof fn lemma_group_item_no_repeats(
    tl: Seq<TargetEntry>,
    fl: Seq<SortGroupClause>,
    seen: Seq<u32>,
    raw: RawExpr,
    sc: Seq<SortGroupClause>,
    rule: GroupRule,
    toplevel: bool,
    cat: &Catalog,
)
    requires
        no_repeats(fl),
        parse_sort::listed(tl, fl),
        parse_sort::max_ref(tl) < u32::MAX,
    ensures
        ({
            let g = parse_group::group_item(tl, fl, seen, raw, sc, rule, toplevel, cat);
            &&& no_repeats(g.fl)
            &&& parse_sort::listed(g.tl, g.fl)
            &&& parse_sort::max_ref(g.tl) <= parse_sort::max_ref(tl) + 1
        }),
{
    let g = parse_group::group_item(tl, fl, seen, raw, sc, rule, toplevel, cat);
    let f = parse_sort::found(raw, tl, rule.kind, rule.use_sql99, rule.flags);
    parse_sort::lemma_found_bounds(raw, tl, rule.kind, rule.use_sql99, rule.flags);
    parse_sort::lemma_found(raw, tl, rule.kind, rule.use_sql99, rule.flags);
    parse_sort::lemma_steps_keep(raw, tl, 0, rule.kind, rule.use_sql99, rule.flags);
    parse_sort::lemma_listed_kept(tl, f.tl, fl);
    match f.res {
        Err(_) => {},
        Ok(i) => {
            let r = f.tl[i].ressortgroupref;
            let d = parse_group::donor_from(sc, r, 0);
            if r > 0 && !parse_sort::in_sort_list(r, 0, fl, cat) {
                lemma_not_listed(r, fl, cat);
                lemma_donor(sc, r, 0);
            }
            if g.fl.len() > fl.len() {
                if r > 0 && d < sc.len() {
                    assert(g.fl[fl.len() as int].tleSortGroupRef == r);
                    assert(g.tl[i].ressortgroupref == r);
                }
            }
            parse_sort::lemma_settled(f.tl, i);
            match parse_sort::settled(f.tl, i) {
                None => {},
                Some(t) => {
                    parse_sort::lemma_numbered(t, i);
                    parse_sort::lemma_max_ref(t);
                    assert(parse_sort::refs_kept(f.tl, t));
                    assert(parse_sort::refs_kept(t, parse_sort::numbered(t, i)));
                    parse_sort::lemma_listed_kept(f.tl, t, fl);
                    parse_sort::lemma_listed_kept(t, parse_sort::numbered(t, i), fl);
                    if r == 0 {
                        let n = (parse_sort::max_ref(t) + 1) as u32;
                        assert forall|k: int| 0 <= k < fl.len() implies (
                        #[trigger] fl[k]).tleSortGroupRef != n by {
                            assert(parse_sort::has_ref(t, fl[k].tleSortGroupRef));
                        }
                    }
                },
            }
            assert forall|k: int| 0 <= k < g.fl.len() implies (#[trigger] g.fl[k]).tleSortGroupRef
                != 0 && parse_sort::has_ref(g.tl, g.fl[k].tleSortGroupRef) by {
                if k < fl.len() {
                    assert(g.fl[k] == fl[k]);
                } else {
                    assert(g.tl[i].ressortgroupref == g.fl[k].tleSortGroupRef);
                }
            }
        },
    }
}

pub proof fn lemma_not_listed(r: u32, fl: Seq<SortGroupClause>, cat: &Catalog)
    requires
        r != 0,
        !parse_sort::in_sort_list(r, 0, fl, cat),
    ensures
        forall|k: int| 0 <= k < fl.len() ==> (#[trigger] fl[k]).tleSortGroupRef != r,
{
    assert forall|k: int| 0 <= k < fl.len() implies (#[trigger] fl[k]).tleSortGroupRef != r by {
        assert(!parse_sort::item_is_about(fl[k], r, 0, cat));
    }
}

pub proof fn lemma_donor(sc: Seq<SortGroupClause>, r: u32, k: int)
    requires
        0 <= k <= sc.len(),
    ensures
        ({
            let d = parse_group::donor_from(sc, r, k);
            k <= d <= sc.len() && (d < sc.len() ==> sc[d].tleSortGroupRef == r)
        }),
    decreases sc.len() - k,
{
    if k < sc.len() && sc[k].tleSortGroupRef != r {
        lemma_donor(sc, r, k + 1);
    }
}

/// Whether a list groups by no entry twice, and only by entries of the target
/// list.
pub open spec fn sound(tl: Seq<TargetEntry>, fl: Seq<SortGroupClause>) -> bool {
    no_repeats(fl) && parse_sort::listed(tl, fl)
}

pub proof fn lemma_list_items_sound(
    tl: Seq<TargetEntry>,
    fl: Seq<SortGroupClause>,
    s: Seq<GNode>,
    sc: Seq<SortGroupClause>,
    rule: GroupRule,
    cat: &Catalog,
)
    requires
        sound(tl, fl),
        parse_sort::max_ref(tl) + parse_group::weight_list(s) <= u32::MAX,
    ensures
        ({
            let b = list_items(tl, fl, s, sc, rule, cat);
            sound(b.tl, b.fl) && parse_sort::max_ref(b.tl) <= parse_sort::max_ref(tl)
                + parse_group::weight_list(s)
        }),
    decreases s.len(),
{
    if s.len() > 0 {
        lemma_list_items_sound(tl, fl, s.drop_last(), sc, rule, cat);
        let p = list_items(tl, fl, s.drop_last(), sc, rule, cat);
        reveal_with_fuel(parse_group::weight_list, 2);
        reveal_with_fuel(parse_group::weight, 2);
        match raw_of(s.last()) {
            Some(raw) => {
                assert(parse_group::weight(s.last()) >= 1);
                lemma_group_item_no_repeats(p.tl, p.fl, p.refs, raw, sc, rule, false, cat);
            },
            None => {},
        }
    }
}

pub proof fn lemma_set_items_sound(
    tl: Seq<TargetEntry>,
    fl: Seq<SortGroupClause>,
    s: Seq<GNode>,
    sc: Seq<SortGroupClause>,
    rule: GroupRule,
    cat: &Catalog,
)
    requires
        sound(tl, fl),
        parse_sort::max_ref(tl) + parse_group::weight_list(s) <= u32::MAX,
    ensures
        ({
            let b = set_items(tl, fl, s, sc, rule, cat);
            sound(b.tl, b.fl) && parse_sort::max_ref(b.tl) <= parse_sort::max_ref(tl)
                + parse_group::weight_list(s)
        }),
    decreases s,
{
    if s.len() > 0 {
        reveal_with_fuel(parse_group::weight_list, 2);
        lemma_set_items_sound(tl, fl, s.drop_last(), sc, rule, cat);
        let p = set_items(tl, fl, s.drop_last(), sc, rule, cat);
        if p.err is None {
            lemma_set_cell_sound(p.tl, p.fl, s.last(), sc, rule, cat);
        }
    }
}

pub proof fn lemma_set_cell_sound(
    tl: Seq<TargetEntry>,
    fl: Seq<SortGroupClause>,
    g: GNode,
    sc: Seq<SortGroupClause>,
    rule: GroupRule,
    cat: &Catalog,
)
    requires
        sound(tl, fl),
        parse_sort::max_ref(tl) + parse_group::weight(g) <= u32::MAX,
    ensures
        ({
            let b = set_cell(tl, fl, g, sc, rule, cat);
            sound(b.tl, b.fl) && parse_sort::max_ref(b.tl) <= parse_sort::max_ref(tl)
                + parse_group::weight(g)
        }),
    decreases g,
{
    match g {
        GNode::List(items) => lemma_list_items_sound(tl, fl, items, sc, rule, cat),
        GNode::GroupingSet(_, content, _) => lemma_set_items_sound(
            tl,
            fl,
            content,
            sc,
            rule,
            cat,
        ),
        GNode::Item(raw) => lemma_group_item_no_repeats(
            tl,
            fl,
            Seq::empty(),
            raw,
            sc,
            rule,
            false,
            cat,
        ),
        GNode::Row(_, _, whole) => lemma_group_item_no_repeats(
            tl,
            fl,
            Seq::empty(),
            whole,
            sc,
            rule,
            false,
            cat,
        ),
    }
}

/// GROUP BY, with or without grouping sets, groups by no entry twice, and only
/// by entries of the target list.
pub proof fn law_grouping_has_no_repeats(
    tl: Seq<TargetEntry>,
    s: Seq<GNode>,
    with_sets: bool,
    sc: Seq<SortGroupClause>,
    rule: GroupRule,
    cat: &Catalog,
)
    requires
        parse_sort::max_ref(tl) + parse_group::weight_list(s) <= u32::MAX,
    ensures
        ({
            let b = clause_items(tl, s, with_sets, sc, rule, cat);
            sound(b.tl, b.fl) && parse_sort::max_ref(b.tl) <= parse_sort::max_ref(tl)
                + parse_group::weight_list(s)
        }),
    decreases s.len(),
{
    if s.len() > 0 {
        reveal_with_fuel(parse_group::weight_list, 2);
        reveal_with_fuel(parse_group::weight, 2);
        law_grouping_has_no_repeats(tl, s.drop_last(), with_sets, sc, rule, cat);
        let p = clause_items(tl, s.drop_last(), with_sets, sc, rule, cat);
        if p.err is None {
            match s.last() {
                GNode::GroupingSet(_, content, _) => {
                    lemma_set_items_sound(p.tl, p.fl, content, sc, rule, cat);
                },
                GNode::List(_) => {},
                GNode::Item(raw) => {
                    assert(parse_group::weight(s.last()) >= 1);
                    lemma_group_item_no_repeats(p.tl, p.fl, p.seen, raw, sc, rule, true, cat);
                },
                GNode::Row(_, _, whole) => {
                    assert(parse_group::weight(s.last()) >= 1);
                    lemma_group_item_no_repeats(p.tl, p.fl, p.seen, whole, sc, rule, true, cat);
                },
            }
        }
    }
}

/// GROUP BY without grouping sets has none in its result.
pub proof fn law_no_sets_without_grouping_sets(
    tl: Seq<TargetEntry>,
    s: Seq<GNode>,
    sc: Seq<SortGroupClause>,
    rule: GroupRule,
    cat: &Catalog,
)
    requires
        !has_sets(s),
    ensures
        clause_items(tl, s, false, sc, rule, cat).sets.len() == 0,
    decreases s.len(),
{
    if s.len() > 0 {
        let t = s.drop_last();
        assert forall|k: int| 0 <= k < t.len() implies !is_grouping_set(#[trigger] t[k]) by {
            assert(!is_grouping_set(s[k]));
        }
        law_no_sets_without_grouping_sets(tl, t, sc, rule, cat);
        assert(!is_grouping_set(s[s.len() - 1]));
    }
}

} // verus!
