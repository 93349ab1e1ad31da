//! GROUP BY: flattening grouping sets, and grouping by items, lists and sets.
use vstd::prelude::*;
use crate::parse_nodes;
use crate::parse_nodes::{
    Catalog, ParseError, ParseExprKind, ParseFlags, RawExpr, SortGroupClause, SortOps, TargetEntry,
};
use crate::parse_sort;
use crate::parse_sort::{assignSortGroupRef, find_target, settle_type, targetIsInSortList};

verus! {

/// What a grouping set was written as.
#[derive(Clone, Copy, Debug, PartialEq, Eq, Structural)]
pub enum RawSetKind {
    Empty,
    Sets,
    Cube,
    Rollup,
}

/// An item of GROUP BY.
pub enum GroupNode {
    Item(RawExpr),
    /// A row; where it was not written out, it stands for its columns.
    Row { implicit: bool, args: Vec<GroupNode>, whole: RawExpr },
    GroupingSet { kind: RawSetKind, content: Vec<GroupNode>, location: i32 },
    /// Items that are grouped by together.
    List { items: Vec<GroupNode> },
}

/// An item of GROUP BY, as a tree.
pub ghost enum GNode {
    Item(RawExpr),
    Row(bool, Seq<GNode>, RawExpr),
    GroupingSet(RawSetKind, Seq<GNode>, i32),
    List(Seq<GNode>),
}

/// The tree that a node stands for.
pub open spec fn deep(n: GroupNode) -> GNode
    decreases n,
{
    match n {
        GroupNode::Item(raw) => GNode::Item(raw),
        GroupNode::Row { implicit, args, whole } => GNode::Row(implicit, deep_list(args@), whole),
        GroupNode::GroupingSet { kind, content, location } => GNode::GroupingSet(
            kind,
            deep_list(content@),
            location,
        ),
        GroupNode::List { items } => GNode::List(deep_list(items@)),
    }
}

/// The trees that nodes stand for.
pub open spec fn deep_list(s: Seq<GroupNode>) -> Seq<GNode>
    decreases s,
{
    if s.len() == 0 {
        Seq::empty()
    } else {
        deep_list(s.drop_last()).push(deep(s.last()))
    }
}

pub proof fn lemma_deep_list(s: Seq<GroupNode>)
    ensures
        deep_list(s).len() == s.len(),
        forall|i: int| 0 <= i < s.len() ==> #[trigger] deep_list(s)[i] == deep(s[i]),
    decreases s.len(),
{
    if s.len() > 0 {
        lemma_deep_list(s.drop_last());
        assert forall|i: int| 0 <= i < s.len() implies #[trigger] deep_list(s)[i] == deep(s[i]) by {
            if i < s.len() - 1 {
                assert(deep_list(s.drop_last())[i] == deep(s.drop_last()[i]));
            }
        }
    }
}

proof fn lemma_deep_list_add(a: Seq<GroupNode>, b: Seq<GroupNode>)
    ensures
        deep_list(a + b) == deep_list(a) + deep_list(b),
{
    lemma_deep_list(a);
    lemma_deep_list(b);
    lemma_deep_list(a + b);
    assert(deep_list(a + b) =~= deep_list(a) + deep_list(b));
}

/// What flattening an item leaves: nothing, one item, or several.
pub ghost enum Flat {
    Nil,
    One(GNode),
    Many(Seq<GNode>),
}

/// What flattening an item leaves, as a list.
pub open spec fn spliced(f: Flat) -> Seq<GNode> {
    match f {
        Flat::Nil => Seq::empty(),
        Flat::One(g) => seq![g],
        Flat::Many(l) => l,
    }
}

/// What flattening an item of a grouping set leaves, as one item of the set.
pub open spec fn as_cell(f: Flat) -> Seq<GNode> {
    match f {
        Flat::Nil => Seq::empty(),
        Flat::One(g) => seq![g],
        Flat::Many(l) => seq![GNode::List(l)],
    }
}

/// Whether the item is written GROUPING SETS.
pub open spec fn is_sets(g: GNode) -> bool {
    g matches GNode::GroupingSet(kind, _, _) && kind == RawSetKind::Sets
}

/// An item with rows that were not written out replaced by their columns and
/// GROUPING SETS inside GROUPING SETS merged; at top level, empty grouping sets
/// are left out.
pub open spec fn flat(g: GNode, toplevel: bool) -> Flat
    decreases g,
{
    match g {
        GNode::Row(implicit, args, _) => if implicit {
            Flat::Many(flat_list(args, false))
        } else {
            Flat::One(g)
        },
        GNode::GroupingSet(kind, content, location) => if toplevel && kind == RawSetKind::Empty {
            Flat::Nil
        } else if toplevel || kind != RawSetKind::Sets {
            Flat::One(GNode::GroupingSet(kind, flat_content(content), location))
        } else {
            Flat::Many(flat_content(content))
        },
        _ => Flat::One(g),
    }
}

/// A list of items, flattened.
pub open spec fn flat_list(s: Seq<GNode>, toplevel: bool) -> Seq<GNode>
    decreases s,
{
    if s.len() == 0 {
        Seq::empty()
    } else {
        flat_list(s.drop_last(), toplevel) + spliced(flat(s.last(), toplevel))
    }
}

/// The items of a grouping set, flattened.
pub open spec fn flat_content(s: Seq<GNode>) -> Seq<GNode>
    decreases s,
{
    if s.len() == 0 {
        Seq::empty()
    } else {
        flat_content(s.drop_last()) + if is_sets(s.last()) {
            spliced(flat(s.last(), false))
        } else {
            as_cell(flat(s.last(), false))
        }
    }
}

/// What flattening an item leaves: nothing, one item, or several.
pub enum Flattened {
    Nil,
    One(GroupNode),
    Many(Vec<GroupNode>),
}

/// What flattening left, as trees.
pub open spec fn deep_flat(f: Flattened) -> Flat {
    match f {
        Flattened::Nil => Flat::Nil,
        Flattened::One(g) => Flat::One(deep(g)),
        Flattened::Many(l) => Flat::Many(deep_list(l@)),
    }
}

fn node_is_sets(n: &GroupNode) -> (r: bool)
    ensures
        r == is_sets(deep(*n)),
{
    match n {
        GroupNode::GroupingSet { kind, .. } => *kind == RawSetKind::Sets,
        _ => false,
    }
}

fn push_spliced(result: &mut Vec<GroupNode>, f: Flattened)
    ensures
        deep_list(final(result)@) == deep_list(old(result)@) + spliced(deep_flat(f)),
{
    let ghost r0 = result@;
    match f {
        Flattened::Nil => {
            assert(deep_list(r0) + Seq::<GNode>::empty() =~= deep_list(r0));
        },
        Flattened::One(g) => {
            result.push(g);
            proof {
                lemma_deep_list(result@);
                lemma_deep_list(r0);
                assert(result@.drop_last() =~= r0);
                assert(deep_list(result@) =~= deep_list(r0) + seq![deep(g)]);
            }
        },
        Flattened::Many(mut l) => {
            proof {
                lemma_deep_list_add(r0, l@);
            }
            result.append(&mut l);
        },
    }
}

fn push_cell(result: &mut Vec<GroupNode>, f: Flattened)
    ensures
        deep_list(final(result)@) == deep_list(old(result)@) + as_cell(deep_flat(f)),
{
    match f {
        Flattened::Many(items) => push_spliced(
            result,
            Flattened::One(GroupNode::List { items }),
        ),
        other => push_spliced(result, other),
    }
}

/// Flattens an item.
pub fn flatten_grouping_sets(expr: GroupNode, toplevel: bool) -> (r: Flattened)
    ensures
        deep_flat(r) == flat(deep(expr), toplevel),
    decreases expr,
{
    match expr {
        GroupNode::Row { implicit, args, whole } => {
            if implicit {
                Flattened::Many(flatten_grouping_sets_list(args, false))
            } else {
                Flattened::One(GroupNode::Row { implicit, args, whole })
            }
        },
        GroupNode::GroupingSet { kind, content, location } => {
            if toplevel && kind == RawSetKind::Empty {
                return Flattened::Nil;
            }
            let content: Vec<GroupNode> = flatten_content(content);
            if toplevel || kind != RawSetKind::Sets {
                Flattened::One(GroupNode::GroupingSet { kind, content, location })
            } else {
                Flattened::Many(content)
            }
        },
        other => Flattened::One(other),
    }
}

/// Flattens a list of items.
pub fn flatten_grouping_sets_list(list: Vec<GroupNode>, toplevel: bool) -> (r: Vec<GroupNode>)
    ensures
        deep_list(r@) == flat_list(deep_list(list@), toplevel),
    decreases list,
{
    let ghost orig = list@;
    let ghost trees = deep_list(orig);
    let mut rest: Vec<GroupNode> = list;
    let mut result: Vec<GroupNode> = Vec::new();
    let ghost mut i: int = 0;
    proof {
        lemma_deep_list(orig);
        assert(trees.take(0) =~= Seq::empty());
        assert(orig.skip(0) =~= orig);
    }
    while rest.len() > 0
        invariant
            0 <= i <= orig.len(),
            rest@ == orig.skip(i),
            orig.len() == trees.len(),
            orig == list@,
            trees == deep_list(orig),
            deep_list(result@) == flat_list(trees.take(i), toplevel),
        decreases rest@.len(),
    {
        let n: GroupNode = rest.remove(0);
        proof {
            assert(n == orig[i]);
            lemma_deep_list(orig);
            assert(trees.take(i + 1).drop_last() =~= trees.take(i));
            assert(orig.skip(i + 1) =~= rest@);
            assert(decreases_to!(list => list@));
            assert(decreases_to!(list@ => list@[i]));
        }
        let f: Flattened = flatten_grouping_sets(n, toplevel);
        push_spliced(&mut result, f);
        proof {
            i = i + 1;
        }
    }
    assert(trees.take(i) =~= trees);
    result
}

fn flatten_content(list: Vec<GroupNode>) -> (r: Vec<GroupNode>)
    ensures
        deep_list(r@) == flat_content(deep_list(list@)),
    decreases list,
{
    let ghost orig = list@;
    let ghost trees = deep_list(orig);
    let mut rest: Vec<GroupNode> = list;
    let mut result: Vec<GroupNode> = Vec::new();
    let ghost mut i: int = 0;
    proof {
        lemma_deep_list(orig);
        assert(trees.take(0) =~= Seq::empty());
        assert(orig.skip(0) =~= orig);
    }
    while rest.len() > 0
        invariant
            0 <= i <= orig.len(),
            rest@ == orig.skip(i),
            orig.len() == trees.len(),
            orig == list@,
            trees == deep_list(orig),
            deep_list(result@) == flat_content(trees.take(i)),
        decreases rest@.len(),
    {
        let n: GroupNode = rest.remove(0);
        proof {
            assert(n == orig[i]);
            lemma_deep_list(orig);
            assert(trees.take(i + 1).drop_last() =~= trees.take(i));
            assert(orig.skip(i + 1) =~= rest@);
            assert(decreases_to!(list => list@));
            assert(decreases_to!(list@ => list@[i]));
        }
        let sets: bool = node_is_sets(&n);
        let f: Flattened = flatten_grouping_sets(n, false);
        if sets {
            push_spliced(&mut result, f);
        } else {
            push_cell(&mut result, f);
        }
        proof {
            i = i + 1;
        }
    }
    assert(trees.take(i) =~= trees);
    result
}

/// Flattening leaves no GROUPING SETS directly inside another grouping set.
pub proof fn law_no_nested_grouping_sets(s: Seq<GNode>, i: int)
    requires
        0 <= i < flat_content(s).len(),
    ensures
        !is_sets(flat_content(s)[i]),
    decreases s,
{
    reveal_with_fuel(flat_content, 2);
    reveal_with_fuel(flat, 2);
    let p = flat_content(s.drop_last());
    if i < p.len() {
        law_no_nested_grouping_sets(s.drop_last(), i);
    } else {
        let last = s.last();
        match last {
            GNode::GroupingSet(kind, content, _) => {
                if kind == RawSetKind::Sets {
                    law_no_nested_grouping_sets(content, i - p.len());
                }
            },
            _ => {},
        }
    }
}

/// At top level, flattening leaves no empty grouping set.
pub proof fn law_no_empty_set_at_top(s: Seq<GNode>, i: int)
    requires
        0 <= i < flat_list(s, true).len(),
        forall|k: int| 0 <= k < s.len() ==> !(#[trigger] s[k] is Row),
    ensures
        !(flat_list(s, true)[i] matches GNode::GroupingSet(kind, _, _) && kind
            == RawSetKind::Empty),
    decreases s,
{
    reveal_with_fuel(flat_list, 2);
    reveal_with_fuel(flat, 2);
    let p = flat_list(s.drop_last(), true);
    assert(s.last() == s[s.len() - 1]);
    if i < p.len() {
        assert forall|k: int| 0 <= k < s.drop_last().len() implies !(#[trigger] s.drop_last()[k]
            is Row) by {
            assert(s.drop_last()[k] == s[k]);
        }
        law_no_empty_set_at_top(s.drop_last(), i);
    }
}

/// How many items a tree can add to the grouping.
pub open spec fn weight(g: GNode) -> nat
    decreases g,
{
    match g {
        GNode::Item(_) => 1,
        GNode::Row(_, args, _) => 1 + weight_list(args),
        GNode::GroupingSet(_, content, _) => weight_list(content),
        GNode::List(items) => weight_list(items),
    }
}

/// How many items trees can add to the grouping.
pub open spec fn weight_list(s: Seq<GNode>) -> nat
    decreases s,
{
    if s.len() == 0 {
        0
    } else {
        weight_list(s.drop_last()) + weight(s.last())
    }
}

pub proof fn lemma_weight_add(a: Seq<GNode>, b: Seq<GNode>)
    ensures
        weight_list(a + b) == weight_list(a) + weight_list(b),
    decreases b.len(),
{
    if b.len() == 0 {
        assert(a + b =~= a);
    } else {
        assert((a + b).drop_last() =~= a + b.drop_last());
        lemma_weight_add(a, b.drop_last());
    }
}

proof fn lemma_weight_one(g: GNode)
    ensures
        weight_list(seq![g]) == weight(g),
{
    reveal_with_fuel(weight_list, 2);
    assert(seq![g].drop_last() =~= Seq::empty());
}

/// Flattening an item adds no items.
proof fn lemma_flat_weight(g: GNode, toplevel: bool)
    ensures
        weight_list(spliced(flat(g, toplevel))) <= weight(g),
        weight_list(as_cell(flat(g, toplevel))) <= weight(g),
    decreases g,
{
    match g {
        GNode::Row(implicit, args, _) => {
            if implicit {
                lemma_flat_list_weight(args, false);
                lemma_weight_one(GNode::List(flat_list(args, false)));
            } else {
                lemma_weight_one(g);
            }
        },
        GNode::GroupingSet(kind, content, location) => {
            lemma_flat_content_weight(content);
            lemma_weight_one(GNode::GroupingSet(kind, flat_content(content), location));
            lemma_weight_one(GNode::List(flat_content(content)));
        },
        _ => {
            lemma_weight_one(g);
        },
    }
}

/// Flattening a list adds no items.
pub proof fn lemma_flat_list_weight(s: Seq<GNode>, toplevel: bool)
    ensures
        weight_list(flat_list(s, toplevel)) <= weight_list(s),
    decreases s,
{
    if s.len() > 0 {
        lemma_flat_list_weight(s.drop_last(), toplevel);
        lemma_flat_weight(s.last(), toplevel);
        lemma_weight_add(
            flat_list(s.drop_last(), toplevel),
            spliced(flat(s.last(), toplevel)),
        );
    }
}

proof fn lemma_flat_content_weight(s: Seq<GNode>)
    ensures
        weight_list(flat_content(s)) <= weight_list(s),
    decreases s,
{
    if s.len() > 0 {
        lemma_flat_content_weight(s.drop_last());
        lemma_flat_weight(s.last(), false);
        lemma_weight_add(flat_content(s.drop_last()), spliced(flat(s.last(), false)));
        lemma_weight_add(flat_content(s.drop_last()), as_cell(flat(s.last(), false)));
    }
}

/// How items are looked up.
#[derive(Clone, Copy, Debug, PartialEq, Eq, Structural)]
pub struct GroupRule {
    pub kind: ParseExprKind,
    pub use_sql99: bool,
    pub flags: ParseFlags,
}

/// Grouping by entry `i`, unless the list groups by it already.
pub open spec fn group_added(
    tl: Seq<TargetEntry>,
    i: int,
    gl: Seq<SortGroupClause>,
    location: i32,
    cat: &Catalog,
) -> parse_sort::Built {
    match parse_sort::settled(tl, i) {
        None => parse_sort::Built {
            tl,
            sl: gl,
            err: Some(parse_sort::unsettled(tl, i)),
        },
        Some(t) => if parse_sort::in_sort_list(t[i].ressortgroupref, 0, gl, cat) {
            parse_sort::Built { tl: t, sl: gl, err: None }
        } else {
            let typ = parse_sort::settled_type(tl, i);
            match parse_nodes::type_row(cat.types@, typ) {
                Some(row) if row.grouping is Some => parse_sort::Built {
                    tl: parse_sort::numbered(t, i),
                    sl: gl.push(
                        SortGroupClause {
                            tleSortGroupRef: parse_sort::numbered(t, i)[i].ressortgroupref,
                            eqop: row.grouping->Some_0.eqop,
                            sortop: row.grouping->Some_0.sortop,
                            reverse_sort: false,
                            nulls_first: false,
                            hashable: row.grouping->Some_0.hashable,
                        },
                    ),
                    err: None,
                },
                _ => parse_sort::Built {
                    tl: t,
                    sl: gl,
                    err: Some(ParseError::NoSortOperator { typ, location }),
                },
            }
        },
    }
}

fn grouping_ops(typ: u32, cat: &Catalog) -> (r: Option<SortOps>)
    ensures
        r == match parse_nodes::type_row(cat.types@, typ) {
            Some(row) => row.grouping,
            None => None,
        },
{
    match cat.type_ops(typ) {
        Some(row) => row.grouping,
        None => None,
    }
}

/// Groups by entry `i`, unless the list groups by it already.
pub fn addTargetToGroupList(
    tlist: &mut Vec<TargetEntry>,
    i: usize,
    grouplist: &mut Vec<SortGroupClause>,
    location: i32,
    cat: &Catalog,
) -> (r: Result<(), ParseError>)
    requires
        i < old(tlist)@.len(),
        parse_sort::max_ref(old(tlist)@) < u32::MAX,
    ensures
        parse_sort::is_built(
            final(tlist)@,
            final(grouplist)@,
            parse_sort::err_of(r),
            group_added(old(tlist)@, i as int, old(grouplist)@, location, cat),
        ),
        final(tlist)@.len() == old(tlist)@.len(),
        parse_sort::max_ref(final(tlist)@) <= parse_sort::max_ref(old(tlist)@) + 1,
        old(tlist)@[i as int].ressortgroupref != 0 ==> parse_sort::max_ref(final(tlist)@)
            == parse_sort::max_ref(old(tlist)@),
{
    proof {
        parse_sort::lemma_settled(tlist@, i as int);
    }
    let typ: u32 = match settle_type(tlist, i) {
        Ok(t) => t,
        Err(e) => {
            return Err(e);
        },
    };
    if !targetIsInSortList(tlist[i].ressortgroupref, 0, grouplist, cat) {
        let ops: SortOps = match grouping_ops(typ, cat) {
            Some(ops) => ops,
            None => {
                return Err(ParseError::NoSortOperator { typ, location });
            },
        };
        proof {
            parse_sort::lemma_numbered(tlist@, i as int);
        }
        let tleSortGroupRef: u32 = assignSortGroupRef(tlist, i);
        grouplist.push(
            SortGroupClause {
                tleSortGroupRef,
                eqop: ops.eqop,
                sortop: ops.sortop,
                reverse_sort: false,
                nulls_first: false,
                hashable: ops.hashable,
            },
        );
    }
    Ok(())
}

/// The first ORDER BY item from `k` on about the entry with number `r`.
pub open spec fn donor_from(sc: Seq<SortGroupClause>, r: u32, k: int) -> int
    decreases sc.len() - k,
{
    if k < 0 || k >= sc.len() {
        sc.len() as int
    } else if sc[k].tleSortGroupRef == r {
        k
    } else {
        donor_from(sc, r, k + 1)
    }
}

fn find_donor(sort_clause: &Vec<SortGroupClause>, r: u32) -> (k: usize)
    ensures
        k == donor_from(sort_clause@, r, 0),
        k <= sort_clause@.len(),
{
    let mut k: usize = 0;
    while k < sort_clause.len()
        invariant
            k <= sort_clause@.len(),
            donor_from(sort_clause@, r, 0) == donor_from(sort_clause@, r, k as int),
        decreases sort_clause@.len() - k,
    {
        if sort_clause[k].tleSortGroupRef == r {
            return k;
        }
        k = k + 1;
    }
    k
}

/// The two lists, and the number of the entry that was grouped by (0 for a
/// repetition).
pub ghost struct GroupedItem {
    pub tl: Seq<TargetEntry>,
    pub fl: Seq<SortGroupClause>,
    pub res: Result<u32, ParseError>,
}

/// Grouping by one item: a repetition is dropped; an ORDER BY item about the
/// same entry lends its operators (nulls last inside a grouping set).
pub open spec fn group_item(
    tl: Seq<TargetEntry>,
    fl: Seq<SortGroupClause>,
    seen: Seq<u32>,
    raw: RawExpr,
    sc: Seq<SortGroupClause>,
    rule: GroupRule,
    toplevel: bool,
    cat: &Catalog,
) -> GroupedItem {
    let f = parse_sort::found(raw, tl, rule.kind, rule.use_sql99, rule.flags);
    match f.res {
        Err(e) => GroupedItem { tl: f.tl, fl, res: Err(e) },
        Ok(i) => {
            let r = f.tl[i].ressortgroupref;
            let d = donor_from(sc, r, 0);
            if r > 0 && seen.contains(r) {
                GroupedItem { tl: f.tl, fl, res: Ok(0) }
            } else if r > 0 && parse_sort::in_sort_list(r, 0, fl, cat) {
                GroupedItem { tl: f.tl, fl, res: Ok(r) }
            } else if r > 0 && d < sc.len() {
                GroupedItem {
                    tl: f.tl,
                    fl: fl.push(
                        SortGroupClause {
                            nulls_first: toplevel && sc[d].nulls_first,
                            ..sc[d]
                        },
                    ),
                    res: Ok(r),
                }
            } else {
                let b = group_added(f.tl, i, fl, raw.location, cat);
                match b.err {
                    Some(e) => GroupedItem { tl: b.tl, fl: b.sl, res: Err(e) },
                    None => GroupedItem { tl: b.tl, fl: b.sl, res: Ok(b.tl[i].ressortgroupref) },
                }
            }
        },
    }
}

/// Whether a call's outcome is the one described.
pub open spec fn is_grouped(
    tl: Seq<TargetEntry>,
    fl: Seq<SortGroupClause>,
    res: Result<u32, ParseError>,
    g: GroupedItem,
) -> bool {
    tl == g.tl && fl == g.fl && res == g.res
}

fn contains_ref(seen: &Vec<u32>, r: u32) -> (b: bool)
    ensures
        b == seen@.contains(r),
{
    let mut i: usize = 0;
    while i < seen.len()
        invariant
            i <= seen@.len(),
            forall|k: int| 0 <= k < i ==> seen@[k] != r,
        decreases seen@.len() - i,
    {
        if seen[i] == r {
            assert(seen@[i as int] == r);
            return true;
        }
        i = i + 1;
    }
    false
}

/// Groups by one item.
pub fn transformGroupClauseExpr(
    targetlist: &mut Vec<TargetEntry>,
    flatresult: &mut Vec<SortGroupClause>,
    seen_local: &Vec<u32>,
    gexpr: &RawExpr,
    sort_clause: &Vec<SortGroupClause>,
    rule: GroupRule,
    toplevel: bool,
    cat: &Catalog,
) -> (r: Result<u32, ParseError>)
    requires
        parse_sort::max_ref(old(targetlist)@) < u32::MAX,
    ensures
        is_grouped(
            final(targetlist)@,
            final(flatresult)@,
            r,
            group_item(
                old(targetlist)@,
                old(flatresult)@,
                seen_local@,
                *gexpr,
                sort_clause@,
                rule,
                toplevel,
                cat,
            ),
        ),
        parse_sort::max_ref(final(targetlist)@) <= parse_sort::max_ref(old(targetlist)@) + 1,
{
    proof {
        parse_sort::lemma_found(*gexpr, targetlist@, rule.kind, rule.use_sql99, rule.flags);
    }
    let i: usize = match find_target(gexpr, targetlist, rule.kind, rule.use_sql99, rule.flags) {
        Err(e) => {
            return Err(e);
        },
        Ok(i) => i,
    };
    let r: u32 = targetlist[i].ressortgroupref;
    if r > 0 {
        if contains_ref(seen_local, r) {
            return Ok(0);
        }
        if targetIsInSortList(r, 0, flatresult, cat) {
            return Ok(r);
        }
        let d: usize = find_donor(sort_clause, r);
        if d < sort_clause.len() {
            let mut grpc: SortGroupClause = sort_clause[d];
            grpc.nulls_first = toplevel && grpc.nulls_first;
            flatresult.push(grpc);
            return Ok(r);
        }
    }
    match addTargetToGroupList(targetlist, i, flatresult, gexpr.location, cat) {
        Err(e) => Err(e),
        Ok(_) => Ok(targetlist[i].ressortgroupref),
    }
}

} // verus!
