//! What holds of finding entries of a target list and of ORDER BY.
use vstd::prelude::*;
use crate::parse_nodes;
use crate::parse_nodes::{
    Catalog, CommutatorRow, Expr, OrderingRow, ParseError, ParseExprKind, ParseFlags, RawExpr,
    RawKind, SortBy, SortByDir, SortByNulls, SortGroupClause, TargetEntry, TypeRow,
};
use crate::parse_sort;

verus! {

/// How many entries are part of the result.
pub open spec fn shown(tl: Seq<TargetEntry>) -> nat {
    tl.filter(|t: TargetEntry| !t.resjunk).len()
}

proof fn lemma_shown(tl: Seq<TargetEntry>, i: int)
    requires
        0 <= i < tl.len(),
    ensures
        shown(tl.take(i + 1)) == shown(tl.take(i)) + if tl[i].resjunk {
            0int
        } else {
            1
        },
{
    reveal(Seq::filter);
    assert(tl.take(i + 1).drop_last() =~= tl.take(i));
    assert(tl.take(i + 1).last() == tl[i]);
}

proof fn lemma_shown_grows(tl: Seq<TargetEntry>, i: int, j: int)
    requires
        0 <= i <= j <= tl.len(),
    ensures
        shown(tl.take(i)) <= shown(tl.take(j)),
    decreases j - i,
{
    if i < j {
        lemma_shown(tl, i);
        lemma_shown_grows(tl, i + 1, j);
    }
}

proof fn lemma_position(tl: Seq<TargetEntry>, pos: int, i: int)
    requires
        0 <= i <= tl.len(),
        pos >= 1,
    ensures
        ({
            let m = parse_sort::position_from(tl, pos, i);
            let all = shown(tl.take(tl.len() as int));
            &&& i <= m <= tl.len()
            &&& m < tl.len() ==> !tl[m].resjunk && shown(tl.take(m)) == shown(tl.take(i)) + pos - 1
            &&& m < tl.len() ==> all >= shown(tl.take(i)) + pos
            &&& m == tl.len() ==> all < shown(tl.take(i)) + pos
        }),
    decreases tl.len() - i,
{
    if i < tl.len() {
        lemma_shown(tl, i);
        lemma_shown_grows(tl, i + 1, tl.len() as int);
        if tl[i].resjunk {
            lemma_position(tl, pos, i + 1);
        } else if pos > 1 {
            lemma_position(tl, pos - 1, i + 1);
        }
    }
}

/// A position counts the entries that are part of the result, from 1: as many
/// as it says, less one, stand before the entry that is found. It is refused
/// exactly where there are not that many.
pub proof fn law_positions_count_the_result(
    raw: RawExpr,
    tl: Seq<TargetEntry>,
    kind: ParseExprKind,
    flags: ParseFlags,
    pos: i32,
)
    requires
        raw.kind == RawKind::IntegerConst(pos),
    ensures
        ({
            let f = parse_sort::found(raw, tl, kind, false, flags);
            &&& f.tl == tl
            &&& f.res == Err::<int, ParseError>(
                ParseError::PositionNotInList { kind, position: pos, location: raw.location },
            ) <==> pos < 1 || pos > shown(tl)
            &&& f.res matches Ok(i) ==> {
                &&& 0 <= i < tl.len()
                &&& !tl[i].resjunk
                &&& shown(tl.take(i)) == pos - 1
            }
            &&& kind == ParseExprKind::OrderBy || kind == ParseExprKind::DistinctOn ==> (
            f.res is Ok <==> 1 <= pos <= shown(tl))
        }),
{
    assert(tl.take(tl.len() as int) =~= tl);
    reveal(Seq::filter);
    assert(shown(tl.take(0)) == 0);
    if pos >= 1 {
        lemma_position(tl, pos as int, 0);
    }
}

/// Two positions find two entries, in the same order.
pub proof fn law_positions_keep_the_order(
    a: RawExpr,
    b: RawExpr,
    tl: Seq<TargetEntry>,
    p: i32,
    q: i32,
    flags: ParseFlags,
)
    requires
        a.kind == RawKind::IntegerConst(p),
        b.kind == RawKind::IntegerConst(q),
        1 <= p < q <= shown(tl),
    ensures
        parse_sort::found(a, tl, ParseExprKind::OrderBy, false, flags).res->Ok_0
            < parse_sort::found(b, tl, ParseExprKind::OrderBy, false, flags).res->Ok_0,
{
    law_positions_count_the_result(a, tl, ParseExprKind::OrderBy, flags, p);
    law_positions_count_the_result(b, tl, ParseExprKind::OrderBy, flags, q);
    let i = parse_sort::found(a, tl, ParseExprKind::OrderBy, false, flags).res->Ok_0;
    let j = parse_sort::found(b, tl, ParseExprKind::OrderBy, false, flags).res->Ok_0;
    if j <= i {
        lemma_shown_grows(tl, j, i);
    }
}

/// Whether an entry is part of the result under this name.
pub open spec fn shows_as(t: TargetEntry, name: Seq<char>) -> bool {
    !t.resjunk && t.resname is Some && t.resname->0@ == name
}

proof fn lemma_named(tl: Seq<TargetEntry>, name: Seq<char>, i: int)
    requires
        0 <= i <= tl.len(),
        forall|j: int| 0 <= j < i ==> !shows_as(#[trigger] tl[j], name),
    ensures
        ({
            let m = parse_sort::named_from(tl, name, i);
            &&& i <= m <= tl.len()
            &&& m < tl.len() ==> shows_as(tl[m], name)
            &&& forall|j: int| 0 <= j < m ==> !shows_as(#[trigger] tl[j], name)
        }),
    decreases tl.len() - i,
{
    if i < tl.len() && !parse_sort::is_named(tl[i], name) {
        lemma_named(tl, name, i + 1);
    }
}

/// Whether a name is looked up in the result: always but in GROUP BY, where a
/// column of FROM goes first.
pub open spec fn looks_at_result(raw: RawExpr, kind: ParseExprKind) -> bool {
    kind != ParseExprKind::GroupBy || raw.from_column == Ok::<bool, i32>(false)
}

/// A name finds the first entry of the result that has it. It is ambiguous
/// exactly where two entries have it and their values differ.
pub proof fn law_names_find_the_result_column(
    raw: RawExpr,
    tl: Seq<TargetEntry>,
    kind: ParseExprKind,
    flags: ParseFlags,
    name: Seq<char>,
    k: int,
)
    requires
        raw.kind matches RawKind::ColumnName(n) && n@ == name,
        looks_at_result(raw, kind),
        0 <= k < tl.len(),
        shows_as(tl[k], name),
    ensures
        ({
            let f = parse_sort::found(raw, tl, kind, false, flags);
            &&& f.tl == tl
            &&& f.res == Err::<int, ParseError>(
                ParseError::AmbiguousColumn { kind, location: raw.location },
            ) <==> exists|i: int, j: int|
                0 <= i < tl.len() && 0 <= j < tl.len() && shows_as(#[trigger] tl[i], name)
                    && shows_as(#[trigger] tl[j], name) && tl[i].expr.key != tl[j].expr.key
            &&& f.res matches Ok(i) ==> {
                &&& 0 <= i <= k
                &&& shows_as(tl[i], name)
                &&& forall|j: int| 0 <= j < i ==> !shows_as(#[trigger] tl[j], name)
            }
        }),
{
    lemma_named(tl, name, 0);
    let m = parse_sort::named_from(tl, name, 0);
    let f = parse_sort::found(raw, tl, kind, false, flags);
    if exists|i: int, j: int|
        0 <= i < tl.len() && 0 <= j < tl.len() && shows_as(#[trigger] tl[i], name) && shows_as(
            #[trigger] tl[j],
            name,
        ) && tl[i].expr.key != tl[j].expr.key {
        let (i, j) = choose|i: int, j: int|
            0 <= i < tl.len() && 0 <= j < tl.len() && shows_as(#[trigger] tl[i], name) && shows_as(
                #[trigger] tl[j],
                name,
            ) && tl[i].expr.key != tl[j].expr.key;
        if tl[i].expr.key != tl[m].expr.key {
            assert(parse_sort::is_named(tl[i], name));
        } else {
            assert(parse_sort::is_named(tl[j], name));
        }
        assert(parse_sort::ambiguous(tl, name, m));
    }
    if parse_sort::ambiguous(tl, name, m) {
        let j = choose|j: int|
            m < j < tl.len() && parse_sort::is_named(#[trigger] tl[j], name) && tl[j].expr.key
                != tl[m].expr.key;
        assert(shows_as(tl[j], name) && shows_as(tl[m], name));
    }
}

/// A name that no entry of the result has, and in GROUP BY a name of a column
/// of FROM, is looked up as an expression; there, an error of looking into FROM
/// is handed on.
pub proof fn law_other_names_are_expressions(
    raw: RawExpr,
    tl: Seq<TargetEntry>,
    kind: ParseExprKind,
    flags: ParseFlags,
    name: Seq<char>,
)
    requires
        raw.kind matches RawKind::ColumnName(n) && n@ == name,
    ensures
        ({
            let f = parse_sort::found(raw, tl, kind, false, flags);
            let e = parse_sort::found(raw, tl, kind, true, flags);
            let group = kind == ParseExprKind::GroupBy;
            &&& group && raw.from_column == Ok::<bool, i32>(true) ==> f == e
            &&& group && raw.from_column is Err ==> f.res == Err::<int, ParseError>(
                ParseError::Outside(raw.from_column->Err_0),
            ) && f.tl == tl
            &&& looks_at_result(raw, kind) && (forall|j: int|
                0 <= j < tl.len() ==> !shows_as(#[trigger] tl[j], name)) ==> f == e
        }),
{
    lemma_named(tl, name, 0);
}

proof fn lemma_matching(tl: Seq<TargetEntry>, key: u64, i: int)
    requires
        0 <= i <= tl.len(),
        forall|j: int| 0 <= j < i ==> parse_nodes::stripped((#[trigger] tl[j]).expr).key != key,
    ensures
        ({
            let m = parse_sort::matching_from(tl, key, i);
            &&& i <= m <= tl.len()
            &&& m < tl.len() ==> parse_nodes::stripped(tl[m].expr).key == key
            &&& forall|j: int|
                0 <= j < m ==> parse_nodes::stripped((#[trigger] tl[j]).expr).key != key
        }),
    decreases tl.len() - i,
{
    if i < tl.len() && parse_nodes::stripped(tl[i].expr).key != key {
        lemma_matching(tl, key, i + 1);
    }
}

/// An expression finds the first entry that equals it below the coercions that
/// were not written out. Where none does, it becomes a new entry at the end,
/// which is not part of the result.
pub proof fn law_expressions_find_their_equal(
    raw: RawExpr,
    tl: Seq<TargetEntry>,
    kind: ParseExprKind,
    flags: ParseFlags,
)
    ensures
        ({
            let f = parse_sort::found(raw, tl, kind, true, flags);
            &&& f.res is Err <==> raw.transformed is Err
            &&& raw.transformed matches Err(e) ==> f.tl == tl && f.res == Err::<int, ParseError>(
                ParseError::Outside(e),
            )
            &&& raw.transformed matches Ok(e) ==> {
                let i = f.res->Ok_0;
                &&& 0 <= i <= tl.len()
                &&& i < tl.len() ==> f.tl == tl && parse_nodes::stripped(tl[i].expr).key == e.key
                &&& forall|j: int|
                    0 <= j < i ==> parse_nodes::stripped((#[trigger] tl[j]).expr).key != e.key
                &&& i == tl.len() ==> {
                    &&& f.tl.len() == tl.len() + 1
                    &&& forall|j: int| 0 <= j < tl.len() ==> #[trigger] f.tl[j] == tl[j]
                    &&& f.tl[i].expr == e
                    &&& f.tl[i].resjunk
                    &&& f.tl[i].ressortgroupref == 0
                    &&& f.tl[i].resname is None
                    &&& tl.len() < i16::MAX ==> f.tl[i].resno == tl.len() + 1
                }
            }
        }),
{
    match raw.transformed {
        Ok(e) => lemma_matching(tl, e.key, 0),
        Err(_) => {},
    }
}

/// A constant that is no integer is refused where items go by SQL92; other
/// expressions go by SQL99 there too.
pub proof fn law_other_items(
    raw: RawExpr,
    tl: Seq<TargetEntry>,
    kind: ParseExprKind,
    flags: ParseFlags,
)
    ensures
        raw.kind is OtherConst ==> parse_sort::found(raw, tl, kind, false, flags).res == Err::<
            int,
            ParseError,
        >(ParseError::NonIntegerConstant { kind, location: raw.location }),
        raw.kind is Other ==> parse_sort::found(raw, tl, kind, false, flags) == parse_sort::found(
            raw,
            tl,
            kind,
            true,
            flags,
        ),
{
}

/// GROUP BY does not go by an entry that holds an aggregate or a window
/// function of a query that has some; ORDER BY and DISTINCT ON go by any entry.
pub proof fn law_what_grouping_refuses(e: Expr, flags: ParseFlags)
    ensures
        parse_sort::refused(e, ParseExprKind::OrderBy, flags) is None,
        parse_sort::refused(e, ParseExprKind::DistinctOn, flags) is None,
        parse_sort::refused(e, ParseExprKind::GroupBy, flags) is None <==> !(flags.has_aggs
            && e.agg_location is Some) && !(flags.has_window_funcs && e.window_location is Some),
        flags.has_aggs && e.agg_location is Some ==> parse_sort::refused(
            e,
            ParseExprKind::GroupBy,
            flags,
        ) == Some(ParseError::AggregateInGroupBy { location: e.agg_location->0 }),
        !(flags.has_aggs && e.agg_location is Some) && flags.has_window_funcs
            && e.window_location is Some ==> parse_sort::refused(e, ParseExprKind::GroupBy, flags)
            == Some(ParseError::WindowInGroupBy { location: e.window_location->0 }),
{
}

/// The row that is found about a type is about that type; none is found only
/// where there is none. So it is of an operator's commutator and of what an
/// ordering operator belongs to.
pub proof fn law_catalog_rows(
    types: Seq<TypeRow>,
    typ: u32,
    comms: Seq<CommutatorRow>,
    orders: Seq<OrderingRow>,
    op: u32,
)
    ensures
        parse_nodes::type_row(types, typ) matches Some(r) ==> r.typ == typ && types.contains(r),
        parse_nodes::type_row(types, typ) is None ==> forall|k: int|
            0 <= k < types.len() ==> (#[trigger] types[k]).typ != typ,
        parse_nodes::ordering_row(orders, op) matches Some(r) ==> r.op == op && orders.contains(r),
        parse_nodes::ordering_row(orders, op) is None ==> forall|k: int|
            0 <= k < orders.len() ==> (#[trigger] orders[k]).op != op,
        parse_nodes::commutator(comms, op) != 0 ==> comms.contains(
            CommutatorRow { op, commutator: parse_nodes::commutator(comms, op) },
        ),
        (forall|k: int| 0 <= k < comms.len() ==> (#[trigger] comms[k]).op != op)
            ==> parse_nodes::commutator(comms, op) == 0,
    decreases types.len() + comms.len() + orders.len(),
{
    if types.len() > 0 && types[0].typ != typ {
        law_catalog_rows(types.skip(1), typ, Seq::empty(), Seq::empty(), op);
        let t = types.skip(1);
        match parse_nodes::type_row(types, typ) {
            Some(r) => {
                let k = choose|k: int| 0 <= k < t.len() && t[k] == r;
                assert(types[k + 1] == r);
            },
            None => {
                assert forall|k: int| 0 <= k < types.len() implies (#[trigger] types[k]).typ
                    != typ by {
                    if k > 0 {
                        assert(t[k - 1] == types[k]);
                    }
                }
            },
        }
    } else if types.len() > 0 {
        assert(types[0].typ == typ);
    }
    if orders.len() > 0 && orders[0].op != op {
        law_catalog_rows(Seq::empty(), typ, Seq::empty(), orders.skip(1), op);
        let t = orders.skip(1);
        match parse_nodes::ordering_row(orders, op) {
            Some(r) => {
                let k = choose|k: int| 0 <= k < t.len() && t[k] == r;
                assert(orders[k + 1] == r);
            },
            None => {
                assert forall|k: int| 0 <= k < orders.len() implies (#[trigger] orders[k]).op
                    != op by {
                    if k > 0 {
                        assert(t[k - 1] == orders[k]);
                    }
                }
            },
        }
    } else if orders.len() > 0 {
        assert(orders[0].op == op);
    }
    if comms.len() > 0 && comms[0].op != op {
        law_catalog_rows(Seq::empty(), typ, comms.skip(1), Seq::empty(), op);
        let t = comms.skip(1);
        let r = CommutatorRow { op, commutator: parse_nodes::commutator(comms, op) };
        if parse_nodes::commutator(comms, op) != 0 {
            let k = choose|k: int| 0 <= k < t.len() && t[k] == r;
            assert(comms[k + 1] == r);
        }
        if forall|k: int| 0 <= k < comms.len() ==> (#[trigger] comms[k]).op != op {
            assert forall|k: int| 0 <= k < t.len() implies (#[trigger] t[k]).op != op by {
                assert(t[k] == comms[k + 1]);
            }
        }
    } else if comms.len() > 0 {
        assert(comms[0] == (CommutatorRow { op, commutator: comms[0].commutator }));
        assert(comms[0].op == op);
    }
}

/// The type that an entry is sorted by: its own, and text for a literal of
/// unknown type.
pub open spec fn sorts_as(t: TargetEntry) -> u32 {
    if t.expr.rtype == 705 {
        25
    } else {
        t.expr.rtype
    }
}

/// ORDER BY without a direction, or upwards, takes the operators that order the
/// entry's type upwards; downwards, those that order it downwards; with USING,
/// the operator that is written. Nothing is taken where there is none.
pub proof fn law_direction_picks_the_operators(sb: SortBy, typ: u32, cat: &Catalog)
    ensures
        ({
            let r = parse_sort::sort_operators(sb, typ, cat);
            let row = parse_nodes::type_row(cat.types@, typ);
            let up = sb.dir == SortByDir::Default || sb.dir == SortByDir::Asc;
            let down = sb.dir == SortByDir::Desc;
            &&& up ==> (r is Ok <==> row is Some && row->0.ascending is Some)
            &&& up && r is Ok ==> (r->Ok_0).0 == row->0.ascending->0 && !(r->Ok_0).1
            &&& down ==> (r is Ok <==> row is Some && row->0.descending is Some)
            &&& down && r is Ok ==> (r->Ok_0).0 == row->0.descending->0 && (r->Ok_0).1
            &&& sb.dir == SortByDir::Using ==> (r is Ok <==> sb.using.opid is Ok && sb.using.eqop
                != 0)
            &&& sb.dir == SortByDir::Using && r is Ok ==> {
                &&& (r->Ok_0).0.sortop == sb.using.opid->Ok_0
                &&& (r->Ok_0).0.eqop == sb.using.eqop
                &&& (r->Ok_0).0.hashable == sb.using.hashable
                &&& (r->Ok_0).1 == sb.using.reverse
            }
        }),
{
}

/// Nulls come first exactly where that is written, or where nothing is written
/// and the order is downwards.
pub proof fn law_place_of_nulls(sb: SortBy, reverse: bool)
    ensures
        parse_sort::nulls_first(sb, reverse) <==> sb.nulls == SortByNulls::First || (sb.nulls
            == SortByNulls::Default && reverse),
{
}

/// Adding an item about an entry keeps the items that were there. Where it is
/// new, it refers to that entry and sorts by the operators for the entry's
/// type; it is left out only where an item about the entry sorts the same way
/// or the opposite way.
pub proof fn law_sort_item_is_about_its_entry(
    tl: Seq<TargetEntry>,
    i: int,
    sl: Seq<SortGroupClause>,
    sb: SortBy,
    cat: &Catalog,
)
    requires
        0 <= i < tl.len(),
        parse_sort::max_ref(tl) < u32::MAX,
        parse_sort::sort_added(tl, i, sl, sb, cat).err is None,
    ensures
        ({
            let b = parse_sort::sort_added(tl, i, sl, sb, cat);
            let ops = parse_sort::sort_operators(sb, sorts_as(tl[i]), cat);
            let r = b.tl[i].ressortgroupref;
            let new = b.sl[sl.len() as int];
            &&& ops is Ok
            &&& b.tl.len() == tl.len()
            &&& sl.len() <= b.sl.len() <= sl.len() + 1
            &&& b.sl.take(sl.len() as int) == sl
            &&& r != 0
            &&& b.sl.len() == sl.len() + 1 ==> {
                &&& new.tleSortGroupRef == r
                &&& new.sortop == (ops->Ok_0).0.sortop
                &&& new.eqop == (ops->Ok_0).0.eqop
                &&& new.hashable == (ops->Ok_0).0.hashable
                &&& new.reverse_sort == (ops->Ok_0).1
                &&& new.nulls_first == (sb.nulls == SortByNulls::First || (sb.nulls
                    == SortByNulls::Default && new.reverse_sort))
            }
            &&& b.sl.len() == sl.len() ==> exists|k: int|
                0 <= k < sl.len() && (#[trigger] sl[k]).tleSortGroupRef == r && ((ops->Ok_0).0.sortop
                    == 0 || (ops->Ok_0).0.sortop == sl[k].sortop || (ops->Ok_0).0.sortop
                    == parse_nodes::commutator(cat.commutators@, sl[k].sortop))
            &&& exists|k: int| 0 <= k < b.sl.len() && (#[trigger] b.sl[k]).tleSortGroupRef == r
            &&& forall|j: int| 0 <= j < tl.len() && j != i ==> #[trigger] b.tl[j] == tl[j]
        }),
{
    let b = parse_sort::sort_added(tl, i, sl, sb, cat);
    let t = parse_sort::settled(tl, i)->0;
    parse_sort::lemma_settled(tl, i);
    parse_sort::lemma_numbered(t, i);
    let ops = parse_sort::sort_operators(sb, sorts_as(tl[i]), cat);
    assert(b.sl.take(sl.len() as int) =~= sl);
    if parse_sort::in_sort_list(t[i].ressortgroupref, (ops->Ok_0).0.sortop, sl, cat) {
        let k = choose|k: int|
            0 <= k < sl.len() && parse_sort::item_is_about(
                #[trigger] sl[k],
                t[i].ressortgroupref,
                (ops->Ok_0).0.sortop,
                cat,
            );
        assert(sl[k].tleSortGroupRef == t[i].ressortgroupref);
        assert(b.sl[k].tleSortGroupRef == b.tl[i].ressortgroupref);
    } else {
        assert(b.sl[sl.len() as int].tleSortGroupRef == b.tl[i].ressortgroupref);
    }
}

proof fn lemma_sorted_grows(
    tl: Seq<TargetEntry>,
    orderby: Seq<SortBy>,
    k: nat,
    n: nat,
    kind: ParseExprKind,
    use_sql99: bool,
    flags: ParseFlags,
    cat: &Catalog,
)
    requires
        k <= n <= orderby.len(),
        parse_sort::max_ref(tl) + n <= u32::MAX,
        parse_sort::sorted(tl, orderby, n, kind, use_sql99, flags, cat).err is None,
    ensures
        ({
            let p = parse_sort::sorted(tl, orderby, k, kind, use_sql99, flags, cat);
            let b = parse_sort::sorted(tl, orderby, n, kind, use_sql99, flags, cat);
            &&& p.err is None
            &&& p.sl.len() <= b.sl.len()
            &&& b.sl.take(p.sl.len() as int) == p.sl
            &&& parse_sort::refs_kept(p.tl, b.tl)
        }),
    decreases n,
{
    let p = parse_sort::sorted(tl, orderby, k, kind, use_sql99, flags, cat);
    if k == n {
        assert(p.sl.take(p.sl.len() as int) =~= p.sl);
    } else {
        let m = (n - 1) as nat;
        lemma_sorted_grows(tl, orderby, k, m, kind, use_sql99, flags, cat);
        let q = parse_sort::sorted(tl, orderby, m, kind, use_sql99, flags, cat);
        let b = parse_sort::sorted(tl, orderby, n, kind, use_sql99, flags, cat);
        parse_sort::law_sort_list_is_about_entries(tl, orderby, m, kind, use_sql99, flags, cat);
        let sb = orderby[n - 1];
        let f = parse_sort::found(sb.node, q.tl, kind, use_sql99, flags);
        parse_sort::lemma_found_bounds(sb.node, q.tl, kind, use_sql99, flags);
        parse_sort::lemma_found(sb.node, q.tl, kind, use_sql99, flags);
        parse_sort::lemma_steps_keep(sb.node, q.tl, 0, kind, use_sql99, flags);
        parse_sort::lemma_listed_kept(q.tl, f.tl, q.sl);
        let i = f.res->Ok_0;
        law_sort_item_is_about_its_entry(f.tl, i, q.sl, sb, cat);
        parse_sort::lemma_sort_added(f.tl, i, q.sl, sb, cat);
        assert(b.sl.take(p.sl.len() as int) =~= b.sl.take(q.sl.len() as int).take(
            p.sl.len() as int,
        ));
        assert forall|j: int| 0 <= j < p.tl.len() && p.tl[j].ressortgroupref != 0 implies (
        #[trigger] b.tl[j]).ressortgroupref == p.tl[j].ressortgroupref by {
            assert(q.tl[j].ressortgroupref == p.tl[j].ressortgroupref);
            assert(f.tl[j].ressortgroupref == q.tl[j].ressortgroupref);
        }
    }
}

/// Every item of ORDER BY is in the sort list: some item of the list refers to
/// the entry that it was found as. What comes later in ORDER BY comes no
/// earlier in the list.
pub proof fn law_every_order_by_item_sorts(
    tl: Seq<TargetEntry>,
    orderby: Seq<SortBy>,
    k: int,
    kind: ParseExprKind,
    use_sql99: bool,
    flags: ParseFlags,
    cat: &Catalog,
)
    requires
        0 <= k < orderby.len(),
        parse_sort::max_ref(tl) + orderby.len() <= u32::MAX,
        parse_sort::sorted(tl, orderby, orderby.len(), kind, use_sql99, flags, cat).err is None,
    ensures
        ({
            let p = parse_sort::sorted(tl, orderby, k as nat, kind, use_sql99, flags, cat);
            let q = parse_sort::sorted(tl, orderby, (k + 1) as nat, kind, use_sql99, flags, cat);
            let b = parse_sort::sorted(tl, orderby, orderby.len(), kind, use_sql99, flags, cat);
            let f = parse_sort::found(orderby[k].node, p.tl, kind, use_sql99, flags);
            let r = b.tl[f.res->Ok_0].ressortgroupref;
            &&& f.res is Ok
            &&& 0 <= f.res->Ok_0 < b.tl.len()
            &&& r != 0
            &&& exists|m: int| 0 <= m < q.sl.len() && (#[trigger] b.sl[m]).tleSortGroupRef == r
            &&& b.sl.take(q.sl.len() as int) == q.sl
            &&& q.sl.take(p.sl.len() as int) == p.sl
            &&& p.sl.len() <= q.sl.len() <= p.sl.len() + 1
            &&& q.sl.len() <= b.sl.len()
        }),
{
    let n = orderby.len();
    let p = parse_sort::sorted(tl, orderby, k as nat, kind, use_sql99, flags, cat);
    let q = parse_sort::sorted(tl, orderby, (k + 1) as nat, kind, use_sql99, flags, cat);
    let b = parse_sort::sorted(tl, orderby, n, kind, use_sql99, flags, cat);
    lemma_sorted_grows(tl, orderby, k as nat, n, kind, use_sql99, flags, cat);
    lemma_sorted_grows(tl, orderby, (k + 1) as nat, n, kind, use_sql99, flags, cat);
    parse_sort::law_sort_list_is_about_entries(tl, orderby, k as nat, kind, use_sql99, flags, cat);
    let sb = orderby[k];
    let f = parse_sort::found(sb.node, p.tl, kind, use_sql99, flags);
    parse_sort::lemma_found_bounds(sb.node, p.tl, kind, use_sql99, flags);
    parse_sort::lemma_found(sb.node, p.tl, kind, use_sql99, flags);
    let i = f.res->Ok_0;
    assert(q == parse_sort::sort_step(p, sb, kind, use_sql99, flags, cat));
    law_sort_item_is_about_its_entry(f.tl, i, p.sl, sb, cat);
    let m = choose|m: int|
        0 <= m < q.sl.len() && (#[trigger] q.sl[m]).tleSortGroupRef == q.tl[i].ressortgroupref;
    assert(b.sl.take(q.sl.len() as int)[m] == q.sl[m]);
    assert(b.sl[m].tleSortGroupRef == b.tl[i].ressortgroupref);
}

/// An error of ORDER BY is that of its first item that has one.
pub proof fn law_first_error_stops_ordering(
    tl: Seq<TargetEntry>,
    orderby: Seq<SortBy>,
    n: nat,
    kind: ParseExprKind,
    use_sql99: bool,
    flags: ParseFlags,
    cat: &Catalog,
)
    requires
        n < orderby.len(),
    ensures
        ({
            let p = parse_sort::sorted(tl, orderby, n, kind, use_sql99, flags, cat);
            let q = parse_sort::sorted(tl, orderby, n + 1, kind, use_sql99, flags, cat);
            let f = parse_sort::found(orderby[n as int].node, p.tl, kind, use_sql99, flags);
            &&& p.err is Some ==> q == p
            &&& p.err is None && f.res is Err ==> q.err == Some(f.res->Err_0) && q.sl == p.sl
            &&& p.err is None && f.res is Ok ==> q == parse_sort::sort_added(
                f.tl,
                f.res->Ok_0,
                p.sl,
                orderby[n as int],
                cat,
            )
        }),
{
}

/// Where a type cannot be sorted, the error points to the ORDER BY item, or to
/// its expression where the item has no place; an operator that does not order
/// is refused.
pub proof fn law_what_cannot_be_sorted(sb: SortBy, typ: u32, cat: &Catalog)
    ensures
        ({
            let r = parse_sort::sort_operators(sb, typ, cat);
            &&& r matches Err(ParseError::NoSortOperator { typ: t, location }) ==> t == typ
                && location == if sb.location >= 0 {
                sb.location
            } else {
                sb.node.location
            }
            &&& r is Err && !(sb.dir is Using) ==> r->Err_0 is NoSortOperator
            &&& sb.dir is Using && sb.using.opid is Err ==> r->Err_0 == ParseError::Outside(
                sb.using.opid->Err_0,
            )
            &&& sb.dir is Using && sb.using.opid is Ok ==> (r is Ok <==> sb.using.eqop != 0)
            &&& sb.dir is Using && sb.using.opid is Ok && sb.using.eqop == 0 ==> r->Err_0
                == ParseError::NotAnOrderingOperator
        }),
{
}

} // verus!
