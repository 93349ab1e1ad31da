//! Window definitions.
use vstd::prelude::*;
use crate::parse_coerce::Coercible;
use crate::parse_frame;
use crate::parse_frame::{
    transformFrameOffset, FrameOffset, FRAMEOPTION_DEFAULTS, FRAMEOPTION_END_OFFSET,
    FRAMEOPTION_GROUPS, FRAMEOPTION_RANGE, FRAMEOPTION_START_OFFSET,
};
use crate::parse_group;
use crate::parse_group::{GroupNode, GroupRule};
use crate::parse_group_clause;
use crate::parse_group_clause::transformGroupClause;
use crate::parse_nodes;
use crate::parse_nodes::{
    Catalog, Expr, NamedError, OrderingRow, ParseError, ParseExprKind, ParseFlags, SortBy, SortByDir,
    SortGroupClause, TargetEntry,
};
use crate::parse_sort;
use crate::parse_sort::{find_referred, transformSortClause};
use crate::text::str_eq;

verus! {

/// A window as it was written.
pub struct WindowDef {
    pub name: Option<String>,
    /// The window that this one copies.
    pub refname: Option<String>,
    pub order_clause: Vec<SortBy>,
    pub partition_clause: Vec<GroupNode>,
    pub frame_options: i32,
    pub start_offset: Option<Coercible>,
    pub end_offset: Option<Coercible>,
    pub location: i32,
}

/// A window.
pub struct WindowClause {
    pub name: Option<String>,
    pub refname: Option<String>,
    pub partition_clause: Vec<SortGroupClause>,
    pub order_clause: Vec<SortGroupClause>,
    pub frame_options: i32,
    pub start_offset: Option<Expr>,
    pub end_offset: Option<Expr>,
    pub start_in_range_func: u32,
    pub end_in_range_func: u32,
    pub in_range_coll: u32,
    pub in_range_asc: bool,
    pub in_range_nulls_first: bool,
    /// The number that window functions refer to it by.
    pub winref: u32,
    /// The ORDER BY was copied from another window.
    pub copied_order: bool,
}

/// A window, with its lists as sequences.
pub ghost struct WView {
    pub name: Option<Seq<char>>,
    pub refname: Option<Seq<char>>,
    pub partition: Seq<SortGroupClause>,
    pub order: Seq<SortGroupClause>,
    pub frame_options: i32,
    pub start: FrameOffset,
    pub end: FrameOffset,
    pub in_range_coll: u32,
    pub in_range_asc: bool,
    pub in_range_nulls_first: bool,
    pub winref: u32,
    pub copied_order: bool,
}

/// The characters of an optional name.
pub open spec fn chars(s: Option<String>) -> Option<Seq<char>> {
    match s {
        Some(x) => Some(x@),
        None => None,
    }
}

impl View for WindowClause {
    type V = WView;

    open spec fn view(&self) -> WView {
        WView {
            name: chars(self.name),
            refname: chars(self.refname),
            partition: self.partition_clause@,
            order: self.order_clause@,
            frame_options: self.frame_options,
            start: FrameOffset {
                node: self.start_offset,
                in_range_func: self.start_in_range_func,
            },
            end: FrameOffset { node: self.end_offset, in_range_func: self.end_in_range_func },
            in_range_coll: self.in_range_coll,
            in_range_asc: self.in_range_asc,
            in_range_nulls_first: self.in_range_nulls_first,
            winref: self.winref,
            copied_order: self.copied_order,
        }
    }
}

/// The first window from `i` on with this name.
pub open spec fn window_from(ws: Seq<WView>, name: Seq<char>, i: int) -> int
    decreases ws.len() - i,
{
    if i < 0 || i >= ws.len() {
        ws.len() as int
    } else if ws[i].name == Some(name) {
        i
    } else {
        window_from(ws, name, i + 1)
    }
}

/// The windows, with their lists as sequences.
pub open spec fn views(ws: Seq<WindowClause>) -> Seq<WView> {
    Seq::new(ws.len(), |i: int| ws[i]@)
}

/// What is checked of the names of a window.
pub open spec fn names_refused(done: Seq<WView>, wd: WindowDef) -> Option<ParseError> {
    if wd.name matches Some(n) && window_from(done, n@, 0) < done.len() {
        Some(ParseError::WindowRedefined { location: wd.location })
    } else if wd.refname matches Some(n) && window_from(done, n@, 0) >= done.len() {
        Some(ParseError::WindowUndefined { location: wd.location })
    } else {
        None
    }
}

/// The window that a window copies.
pub open spec fn copied_window(done: Seq<WView>, wd: WindowDef) -> Option<WView> {
    match wd.refname {
        Some(n) => Some(done[window_from(done, n@, 0)]),
        None => None,
    }
}

/// The ORDER BY of a window: its own, or that of the window it copies.
pub open spec fn order_of(
    from: Option<WView>,
    order: Seq<SortGroupClause>,
) -> Seq<SortGroupClause> {
    match from {
        Some(w) => if order.len() > 0 {
            order
        } else {
            w.order
        },
        None => order,
    }
}

/// What is checked against the window that is copied: a copy keeps its
/// partitioning, may add ORDER BY only where it has none, and it must not have
/// a frame.
pub open spec fn copy_refused(
    from: Option<WView>,
    wd: WindowDef,
    order: Seq<SortGroupClause>,
    partition: Seq<SortGroupClause>,
) -> Option<ParseError> {
    match from {
        None => None,
        Some(w) => if partition.len() > 0 {
            Some(ParseError::OverridePartition { location: wd.location })
        } else if order.len() > 0 && w.order.len() > 0 {
            Some(ParseError::OverrideOrder { location: wd.location })
        } else if w.frame_options != FRAMEOPTION_DEFAULTS {
            Some(
                ParseError::CopyFramedWindow {
                    hint: wd.name is None && order_of(from, order).len() == 0 && wd.frame_options
                        == FRAMEOPTION_DEFAULTS,
                    location: wd.location,
                },
            )
        } else {
            None
        },
    }
}

/// Whether the frame is a RANGE with an offset.
pub open spec fn is_range_offset(frame_options: i32) -> bool {
    frame_options & FRAMEOPTION_RANGE != 0 && frame_options & (FRAMEOPTION_START_OFFSET
        | FRAMEOPTION_END_OFFSET) != 0
}

/// What is checked of the frame against ORDER BY.
pub open spec fn frame_refused(wd: WindowDef, order: Seq<SortGroupClause>) -> Option<ParseError> {
    if is_range_offset(wd.frame_options) && order.len() != 1 {
        Some(ParseError::RangeNeedsOneColumn { location: wd.location })
    } else if wd.frame_options & FRAMEOPTION_GROUPS != 0 && order.len() == 0 {
        Some(ParseError::GroupsNeedsOrder { location: wd.location })
    } else {
        None
    }
}

/// The operator family and type that a RANGE with an offset works in.
pub open spec fn range_ordering(
    wd: WindowDef,
    order: Seq<SortGroupClause>,
    cat: &Catalog,
) -> (u32, u32) {
    if is_range_offset(wd.frame_options) {
        match parse_nodes::ordering_row(cat.orderings@, order[0].sortop) {
            Some(row) => (row.family, row.opcintype),
            None => (0, 0),
        }
    } else {
        (0, 0)
    }
}

/// The expression that an item of a sort list is about.
pub open spec fn sort_key(tl: Seq<TargetEntry>, s: SortGroupClause) -> Expr {
    tl[parse_sort::referred_from(tl, s.tleSortGroupRef, 0)].expr
}

/// The window made of a definition whose lists were transformed.
pub open spec fn window_made(
    tl: Seq<TargetEntry>,
    done: Seq<WView>,
    wd: WindowDef,
    order: Seq<SortGroupClause>,
    partition: Seq<SortGroupClause>,
    winref: u32,
    cat: &Catalog,
) -> Result<WView, ParseError> {
    let from = copied_window(done, wd);
    let o = order_of(from, order);
    let (family, opcintype) = range_ordering(wd, o, cat);
    match copy_refused(from, wd, order, partition) {
        Some(e) => Err(e),
        None => match frame_refused(wd, o) {
            Some(e) => Err(e),
            None => match parse_frame::frame_offset(
                wd.frame_options,
                family,
                opcintype,
                wd.start_offset,
                cat,
            ) {
                Err(e) => Err(e),
                Ok(start) => match parse_frame::frame_offset(
                    wd.frame_options,
                    family,
                    opcintype,
                    wd.end_offset,
                    cat,
                ) {
                    Err(e) => Err(e),
                    Ok(end) => Ok(
                        WView {
                            name: chars(wd.name),
                            refname: chars(wd.refname),
                            partition: match from {
                                Some(w) => w.partition,
                                None => partition,
                            },
                            order: o,
                            frame_options: wd.frame_options,
                            start,
                            end,
                            in_range_coll: if is_range_offset(wd.frame_options) {
                                sort_key(tl, o[0]).collation
                            } else {
                                0
                            },
                            in_range_asc: is_range_offset(wd.frame_options) && !o[0].reverse_sort,
                            in_range_nulls_first: is_range_offset(wd.frame_options)
                                && o[0].nulls_first,
                            winref,
                            copied_order: from is Some && order.len() == 0,
                        },
                    ),
                },
            },
        },
    }
}

/// The target list, the windows so far, and the error that stopped the work.
pub ghost struct WindowsBuilt {
    pub tl: Seq<TargetEntry>,
    pub ws: Seq<WView>,
    pub err: Option<ParseError>,
}

/// How PARTITION BY items are looked up.
pub open spec fn partition_rule(flags: ParseFlags) -> GroupRule {
    GroupRule { kind: ParseExprKind::WindowPartition, use_sql99: true, flags }
}

/// ORDER BY of a window.
pub open spec fn window_sorted(
    tl: Seq<TargetEntry>,
    wd: WindowDef,
    flags: ParseFlags,
    cat: &Catalog,
) -> parse_sort::Built {
    parse_sort::sorted(
        tl,
        wd.order_clause@,
        wd.order_clause@.len(),
        ParseExprKind::WindowOrder,
        true,
        flags,
        cat,
    )
}

/// PARTITION BY of a window.
pub open spec fn window_grouped(
    tl: Seq<TargetEntry>,
    wd: WindowDef,
    order: Seq<SortGroupClause>,
    flags: ParseFlags,
    cat: &Catalog,
) -> parse_group_clause::ClauseBuilt {
    let s = parse_group::deep_list(wd.partition_clause@);
    parse_group_clause::clause_items(
        tl,
        parse_group_clause::flat_items(s),
        parse_group_clause::has_sets(s),
        order,
        partition_rule(flags),
        cat,
    )
}

/// One more window.
pub open spec fn window_step(
    p: WindowsBuilt,
    wd: WindowDef,
    flags: ParseFlags,
    cat: &Catalog,
) -> WindowsBuilt {
    let o = window_sorted(p.tl, wd, flags, cat);
    let g = window_grouped(o.tl, wd, o.sl, flags, cat);
    match names_refused(p.ws, wd) {
        Some(e) => WindowsBuilt { err: Some(e), ..p },
        None => if o.err is Some {
            WindowsBuilt { tl: o.tl, ws: p.ws, err: o.err }
        } else if g.err is Some {
            WindowsBuilt { tl: g.tl, ws: p.ws, err: g.err }
        } else {
            match window_made(g.tl, p.ws, wd, o.sl, g.fl, (p.ws.len() + 1) as u32, cat) {
                Err(e) => WindowsBuilt { tl: g.tl, ws: p.ws, err: Some(e) },
                Ok(w) => WindowsBuilt { tl: g.tl, ws: p.ws.push(w), err: None },
            }
        },
    }
}

/// The first `n` windows; the first error stops the work.
pub open spec fn windows(
    tl: Seq<TargetEntry>,
    defs: Seq<WindowDef>,
    n: nat,
    flags: ParseFlags,
    cat: &Catalog,
) -> WindowsBuilt
    decreases n,
{
    if n == 0 {
        WindowsBuilt { tl, ws: Seq::empty(), err: None }
    } else {
        let p = windows(tl, defs, (n - 1) as nat, flags, cat);
        if p.err is Some {
            p
        } else {
            window_step(p, defs[n - 1], flags, cat)
        }
    }
}

proof fn lemma_windows_stop(
    tl: Seq<TargetEntry>,
    defs: Seq<WindowDef>,
    m: nat,
    n: nat,
    flags: ParseFlags,
    cat: &Catalog,
)
    requires
        m <= n,
        windows(tl, defs, m, flags, cat).err is Some,
    ensures
        windows(tl, defs, n, flags, cat) == windows(tl, defs, m, flags, cat),
    decreases n,
{
    if m < n {
        lemma_windows_stop(tl, defs, m, (n - 1) as nat, flags, cat);
    }
}

/// How many items a window can add to the target list.
pub open spec fn def_weight(wd: WindowDef) -> nat {
    wd.order_clause@.len() + parse_group::weight_list(parse_group::deep_list(wd.partition_clause@))
}

/// How many items windows can add to the target list.
pub open spec fn defs_weight(defs: Seq<WindowDef>) -> nat
    decreases defs.len(),
{
    if defs.len() == 0 {
        0
    } else {
        defs_weight(defs.drop_last()) + def_weight(defs.last())
    }
}

proof fn lemma_defs_weight(defs: Seq<WindowDef>, i: int)
    requires
        0 <= i < defs.len(),
    ensures
        defs_weight(defs.take(i + 1)) == defs_weight(defs.take(i)) + def_weight(defs[i]),
        defs_weight(defs.take(i + 1)) <= defs_weight(defs),
    decreases defs.len() - i,
{
    assert(defs.take(i + 1).drop_last() =~= defs.take(i));
    if i + 1 < defs.len() {
        lemma_defs_weight(defs, i + 1);
    } else {
        assert(defs.take(i + 1) =~= defs);
    }
}

/// Whether the catalogs know what every sort operator belongs to.
pub open spec fn knows_orderings(cat: &Catalog) -> bool {
    forall|k: int|
        0 <= k < cat.types@.len() ==> {
            let t = #[trigger] cat.types@[k];
            &&& t.ascending matches Some(ops) ==> parse_nodes::ordering_row(
                cat.orderings@,
                ops.sortop,
            ) is Some
            &&& t.descending matches Some(ops) ==> parse_nodes::ordering_row(
                cat.orderings@,
                ops.sortop,
            ) is Some
        }
}

/// Whether the catalogs know what the operator of an item's USING belongs to.
pub open spec fn knows_using(sb: SortBy, cat: &Catalog) -> bool {
    sb.dir == SortByDir::Using && sb.using.eqop != 0 ==> (sb.using.opid matches Ok(op)
        ==> parse_nodes::ordering_row(cat.orderings@, op) is Some)
}

/// Whether a definition is one that the grammar gives: an offset comes with a
/// kind of frame.
pub open spec fn def_ok(wd: WindowDef) -> bool {
    &&& parse_frame::fits(wd.start_offset, wd.frame_options)
    &&& parse_frame::fits(wd.end_offset, wd.frame_options)
}

/// Whether the catalogs know what the operator belongs to that a RANGE with an
/// offset goes by: the one of the single ORDER BY item of a window that comes
/// so far.
pub open spec fn range_known(
    p: WindowsBuilt,
    wd: WindowDef,
    flags: ParseFlags,
    cat: &Catalog,
) -> bool {
    let o = window_sorted(p.tl, wd, flags, cat);
    let g = window_grouped(o.tl, wd, o.sl, flags, cat);
    let from = copied_window(p.ws, wd);
    let order = order_of(from, o.sl);
    is_range_offset(wd.frame_options) && names_refused(p.ws, wd) is None && o.err is None && g.err
        is None && copy_refused(from, wd, o.sl, g.fl) is None && order.len() == 1
        ==> parse_nodes::ordering_row(cat.orderings@, order[0].sortop) is Some
}

/// Whether the catalogs know the operators of all ranged windows that the work
/// comes to.
pub open spec fn ranges_known(
    tl: Seq<TargetEntry>,
    defs: Seq<WindowDef>,
    flags: ParseFlags,
    cat: &Catalog,
) -> bool {
    forall|k: nat|
        k < defs.len() && (#[trigger] windows(tl, defs, k, flags, cat)).err is None ==> range_known(
            windows(tl, defs, k, flags, cat),
            defs[k as int],
            flags,
            cat,
        )
}

/// Whether the catalogs know the operators that a definition's ORDER BY names.
pub open spec fn def_known(wd: WindowDef, cat: &Catalog) -> bool {
    forall|k: int|
        0 <= k < wd.order_clause@.len() ==> knows_using(#[trigger] wd.order_clause@[k], cat)
}

/// Whether the operators of a sort list are known.
pub open spec fn ordered(sl: Seq<SortGroupClause>, cat: &Catalog) -> bool {
    forall|k: int|
        0 <= k < sl.len() ==> parse_nodes::ordering_row(
            cat.orderings@,
            (#[trigger] sl[k]).sortop,
        ) is Some
}

proof fn lemma_type_row(rows: Seq<parse_nodes::TypeRow>, typ: u32)
    ensures
        parse_nodes::type_row(rows, typ) matches Some(t) ==> exists|k: int|
            0 <= k < rows.len() && #[trigger] rows[k] == t,
    decreases rows.len(),
{
    if rows.len() > 0 {
        if rows[0].typ != typ {
            lemma_type_row(rows.skip(1), typ);
            match parse_nodes::type_row(rows.skip(1), typ) {
                Some(t) => {
                    let k = choose|k: int|
                        0 <= k < rows.skip(1).len() && #[trigger] rows.skip(1)[k] == t;
                    assert(rows[k + 1] == t);
                },
                None => {},
            }
        } else {
            assert(rows[0] == rows[0]);
        }
    }
}

proof fn lemma_sorted_ordered(
    tl: Seq<TargetEntry>,
    orderby: Seq<SortBy>,
    n: nat,
    flags: ParseFlags,
    cat: &Catalog,
)
    requires
        n <= orderby.len(),
        knows_orderings(cat),
        forall|k: int| 0 <= k < orderby.len() ==> knows_using(#[trigger] orderby[k], cat),
    ensures
        ordered(
            parse_sort::sorted(tl, orderby, n, ParseExprKind::WindowOrder, true, flags, cat).sl,
            cat,
        ),
    decreases n,
{
    if n > 0 {
        lemma_sorted_ordered(tl, orderby, (n - 1) as nat, flags, cat);
        let p = parse_sort::sorted(
            tl,
            orderby,
            (n - 1) as nat,
            ParseExprKind::WindowOrder,
            true,
            flags,
            cat,
        );
        let sb = orderby[n - 1];
        assert(knows_using(sb, cat));
        let f = parse_sort::found(sb.node, p.tl, ParseExprKind::WindowOrder, true, flags);
        match f.res {
            Ok(i) => {
                let typ = parse_sort::settled_type(f.tl, i);
                lemma_type_row(cat.types@, typ);
                assert(parse_sort::sort_operators(sb, typ, cat) matches Ok(x)
                    ==> parse_nodes::ordering_row(cat.orderings@, x.0.sortop) is Some);
            },
            Err(_) => {},
        }
    }
}

/// The first window with this name.
pub fn findWindowClause(wclist: &Vec<WindowClause>, name: &str) -> (r: Option<usize>)
    ensures
        match r {
            Some(i) => i == window_from(views(wclist@), name@, 0) && i < wclist@.len(),
            None => window_from(views(wclist@), name@, 0) == wclist@.len(),
        },
{
    let ghost ws = views(wclist@);
    let mut i: usize = 0;
    while i < wclist.len()
        invariant
            i <= wclist@.len(),
            ws == views(wclist@),
            window_from(ws, name@, 0) == window_from(ws, name@, i as int),
        decreases wclist@.len() - i,
    {
        assert(ws[i as int] == wclist@[i as int]@);
        if let Some(n) = &wclist[i].name {
            if str_eq(n.as_str(), name) {
                return Some(i);
            }
        }
        i = i + 1;
    }
    None
}

/// A copy of a sort list.
pub fn copy_sort_group_list(list: &Vec<SortGroupClause>) -> (r: Vec<SortGroupClause>)
    ensures
        r@ == list@,
{
    let mut out: Vec<SortGroupClause> = Vec::new();
    let mut i: usize = 0;
    while i < list.len()
        invariant
            i <= list@.len(),
            out@ == list@.take(i as int),
        decreases list@.len() - i,
    {
        out.push(list[i]);
        i = i + 1;
        assert(list@.take(i as int) =~= list@.take(i - 1).push(list@[i - 1]));
    }
    assert(list@.take(i as int) =~= list@);
    out
}

/// The expression that a sort or group clause refers to by this number.
pub fn get_sortgroupclause_expr(sort_group_ref: u32, targetlist: &Vec<TargetEntry>) -> (r: &Expr)
    requires
        parse_sort::has_ref(targetlist@, sort_group_ref),
    ensures
        *r == targetlist@[parse_sort::referred_from(targetlist@, sort_group_ref, 0)].expr,
{
    proof {
        parse_sort::lemma_referred(targetlist@, sort_group_ref, 0);
    }
    let i: usize = find_referred(targetlist, sort_group_ref);
    &targetlist[i].expr
}

fn find_names(done: &Vec<WindowClause>, wd: &WindowDef) -> (r: Result<Option<usize>, ParseError>)
    ensures
        match r {
            Err(e) => names_refused(views(done@), *wd) == Some(e),
            Ok(None) => names_refused(views(done@), *wd) is None && wd.refname is None,
            Ok(Some(i)) => names_refused(views(done@), *wd) is None && i < done@.len() && (
            wd.refname matches Some(n) && i == window_from(views(done@), n@, 0)),
        },
{
    if let Some(n) = &wd.name {
        if findWindowClause(done, n.as_str()).is_some() {
            return Err(ParseError::WindowRedefined { location: wd.location });
        }
    }
    match &wd.refname {
        Some(n) => match findWindowClause(done, n.as_str()) {
            Some(i) => Ok(Some(i)),
            None => Err(ParseError::WindowUndefined { location: wd.location }),
        },
        None => Ok(None),
    }
}

/// Whether the sort lists of windows are about entries of the target list.
pub open spec fn done_ok(tl: Seq<TargetEntry>, ws: Seq<WView>) -> bool {
    forall|k: int| 0 <= k < ws.len() ==> parse_sort::listed(tl, (#[trigger] ws[k]).order)
}

fn range_facts(
    targetlist: &Vec<TargetEntry>,
    s: SortGroupClause,
    cat: &Catalog,
) -> (r: (OrderingRow, u32))
    requires
        parse_sort::has_ref(targetlist@, s.tleSortGroupRef),
        parse_nodes::ordering_row(cat.orderings@, s.sortop) is Some,
    ensures
        Some(r.0) == parse_nodes::ordering_row(cat.orderings@, s.sortop),
        r.1 == sort_key(targetlist@, s).collation,
{
    let coll: u32 = get_sortgroupclause_expr(s.tleSortGroupRef, targetlist).collation;
    match cat.ordering_op_properties(s.sortop) {
        Some(row) => (row, coll),
        None => (OrderingRow { op: 0, family: 0, opcintype: 0 }, coll),
    }
}

fn check_copy(
    from: &WindowClause,
    wd: &WindowDef,
    order: &Vec<SortGroupClause>,
    partition: &Vec<SortGroupClause>,
) -> (r: Option<ParseError>)
    ensures
        r == copy_refused(Some(from@), *wd, order@, partition@),
{
    if partition.len() > 0 {
        return Some(ParseError::OverridePartition { location: wd.location });
    }
    if order.len() > 0 && from.order_clause.len() > 0 {
        return Some(ParseError::OverrideOrder { location: wd.location });
    }
    if from.frame_options != FRAMEOPTION_DEFAULTS {
        let hint: bool = wd.name.is_none() && order.len() == 0 && from.order_clause.len() == 0
            && wd.frame_options == FRAMEOPTION_DEFAULTS;
        return Some(ParseError::CopyFramedWindow { hint, location: wd.location });
    }
    None
}

fn make_window(
    targetlist: &Vec<TargetEntry>,
    done: &Vec<WindowClause>,
    from: Option<usize>,
    wd: WindowDef,
    order: Vec<SortGroupClause>,
    partition: Vec<SortGroupClause>,
    winref: u32,
    cat: &Catalog,
) -> (r: Result<WindowClause, ParseError>)
    requires
        match from {
            None => wd.refname is None,
            Some(i) => i < done@.len() && (wd.refname matches Some(n) && i == window_from(
                views(done@),
                n@,
                0,
            )),
        },
        def_ok(wd),
        done_ok(targetlist@, views(done@)),
        parse_sort::listed(targetlist@, order@),
        ({
            let from = copied_window(views(done@), wd);
            let o = order_of(from, order@);
            is_range_offset(wd.frame_options) && copy_refused(from, wd, order@, partition@) is None
                && o.len() == 1 ==> parse_nodes::ordering_row(cat.orderings@, o[0].sortop) is Some
        }),
    ensures
        match (
            r,
            window_made(targetlist@, views(done@), wd, order@, partition@, winref, cat),
        ) {
            (Ok(w), Ok(v)) => w@ == v && parse_sort::listed(targetlist@, v.order),
            (Err(a), Err(b)) => a == b,
            _ => false,
        },
{
    let mut order: Vec<SortGroupClause> = order;
    let mut partition: Vec<SortGroupClause> = partition;
    let mut copied_order: bool = false;
    if let Some(i) = from {
        assert(views(done@)[i as int] == done@[i as int]@);
        match check_copy(&done[i], &wd, &order, &partition) {
            Some(e) => {
                return Err(e);
            },
            None => {},
        }
        partition = copy_sort_group_list(&done[i].partition_clause);
        if order.len() == 0 {
            order = copy_sort_group_list(&done[i].order_clause);
            copied_order = true;
        }
    }
    let is_range: bool = wd.frame_options & FRAMEOPTION_RANGE != 0 && wd.frame_options & (
    FRAMEOPTION_START_OFFSET | FRAMEOPTION_END_OFFSET) != 0;
    let mut family: u32 = 0;
    let mut opcintype: u32 = 0;
    let mut coll: u32 = 0;
    let mut asc: bool = false;
    let mut nulls_first: bool = false;
    if is_range {
        if order.len() != 1 {
            return Err(ParseError::RangeNeedsOneColumn { location: wd.location });
        }
        let s: SortGroupClause = order[0];
        let (row, c) = range_facts(targetlist, s, cat);
        family = row.family;
        opcintype = row.opcintype;
        coll = c;
        asc = !s.reverse_sort;
        nulls_first = s.nulls_first;
    }
    if wd.frame_options & FRAMEOPTION_GROUPS != 0 && order.len() == 0 {
        return Err(ParseError::GroupsNeedsOrder { location: wd.location });
    }
    let start: FrameOffset = match transformFrameOffset(
        wd.frame_options,
        family,
        opcintype,
        &wd.start_offset,
        cat,
    ) {
        Ok(x) => x,
        Err(e) => {
            return Err(e);
        },
    };
    let end: FrameOffset = match transformFrameOffset(
        wd.frame_options,
        family,
        opcintype,
        &wd.end_offset,
        cat,
    ) {
        Ok(x) => x,
        Err(e) => {
            return Err(e);
        },
    };
    Ok(
        WindowClause {
            name: wd.name,
            refname: wd.refname,
            partition_clause: partition,
            order_clause: order,
            frame_options: wd.frame_options,
            start_offset: start.node,
            end_offset: end.node,
            start_in_range_func: start.in_range_func,
            end_in_range_func: end.in_range_func,
            in_range_coll: coll,
            in_range_asc: asc,
            in_range_nulls_first: nulls_first,
            winref,
            copied_order,
        },
    )
}

proof fn lemma_done_kept(a: Seq<TargetEntry>, b: Seq<TargetEntry>, ws: Seq<WView>)
    requires
        done_ok(a, ws),
        parse_sort::refs_kept(a, b),
    ensures
        done_ok(b, ws),
{
    assert forall|k: int| 0 <= k < ws.len() implies parse_sort::listed(
        b,
        (#[trigger] ws[k]).order,
    ) by {
        parse_sort::lemma_listed_kept(a, b, ws[k].order);
    }
}

fn window_one(
    targetlist: &mut Vec<TargetEntry>,
    done: &mut Vec<WindowClause>,
    wd: WindowDef,
    flags: ParseFlags,
    cat: &Catalog,
) -> (r: Result<(), ParseError>)
    requires
        range_known(
            WindowsBuilt { tl: old(targetlist)@, ws: views(old(done)@), err: None },
            wd,
            flags,
            cat,
        ),
        def_ok(wd),
        done_ok(old(targetlist)@, views(old(done)@)),
        old(done)@.len() < u32::MAX,
        parse_sort::max_ref(old(targetlist)@) + def_weight(wd) <= u32::MAX,
    ensures
        ({
            let q = window_step(
                WindowsBuilt { tl: old(targetlist)@, ws: views(old(done)@), err: None },
                wd,
                flags,
                cat,
            );
            final(targetlist)@ == q.tl && parse_sort::err_of(r) == q.err && views(final(done)@)
                == q.ws
        }),
        r is Ok ==> done_ok(final(targetlist)@, views(final(done)@)) && final(done)@.len()
            == old(done)@.len() + 1,
        parse_sort::max_ref(final(targetlist)@) <= parse_sort::max_ref(old(targetlist)@)
            + def_weight(wd),
{
    let ghost wd0 = wd;
    let ghost tl0 = targetlist@;
    let ghost ws0 = views(done@);
    let from: Option<usize> = match find_names(done, &wd) {
        Err(e) => {
            return Err(e);
        },
        Ok(x) => x,
    };
    let WindowDef {
        name,
        refname,
        order_clause,
        partition_clause,
        frame_options,
        start_offset,
        end_offset,
        location,
    } = wd;
    proof {
        parse_sort::law_sort_list_is_about_entries(
            tl0,
            order_clause@,
            order_clause@.len(),
            ParseExprKind::WindowOrder,
            true,
            flags,
            cat,
        );
    }
    let order: Vec<SortGroupClause> = match transformSortClause(
        &order_clause,
        targetlist,
        ParseExprKind::WindowOrder,
        true,
        flags,
        cat,
    ) {
        Err(e) => {
            return Err(e);
        },
        Ok(l) => l,
    };
    let ghost tl1 = targetlist@;
    let ghost items = parse_group::deep_list(partition_clause@);
    proof {
        lemma_done_kept(tl0, tl1, ws0);
        parse_group_clause::law_grouping_keeps_numbers(
            tl1,
            parse_group_clause::flat_items(items),
            parse_group_clause::has_sets(items),
            order@,
            partition_rule(flags),
            cat,
        );
    }
    let rule: GroupRule = GroupRule {
        kind: ParseExprKind::WindowPartition,
        use_sql99: true,
        flags,
    };
    let partition: Vec<SortGroupClause> = match transformGroupClause(
        partition_clause,
        targetlist,
        &order,
        rule,
        cat,
    ) {
        Err(e) => {
            return Err(e);
        },
        Ok(g) => g.group_clause,
    };
    let ghost tl2 = targetlist@;
    proof {
        lemma_done_kept(tl1, tl2, ws0);
        parse_sort::lemma_listed_kept(tl1, tl2, order@);
    }
    let winref: u32 = done.len() as u32 + 1;
    let rest: WindowDef = WindowDef {
        name,
        refname,
        order_clause,
        partition_clause: Vec::new(),
        frame_options,
        start_offset,
        end_offset,
        location,
    };
    assert(window_made(tl2, ws0, rest, order@, partition@, winref, cat) == window_made(
        tl2,
        ws0,
        wd0,
        order@,
        partition@,
        winref,
        cat,
    ));
    match make_window(targetlist, done, from, rest, order, partition, winref, cat) {
        Err(e) => Err(e),
        Ok(w) => {
            done.push(w);
            assert(views(done@) =~= ws0.push(w@));
            Ok(())
        },
    }
}

/// The window that an error about a definition names: the one that is defined
/// again, or the one that is copied.
pub open spec fn named_window(wd: WindowDef, e: ParseError) -> Option<Seq<char>> {
    match e {
        ParseError::WindowRedefined { .. } => chars(wd.name),
        ParseError::WindowUndefined { .. }
        | ParseError::OverridePartition { .. }
        | ParseError::OverrideOrder { .. }
        | ParseError::CopyFramedWindow { .. } => chars(wd.refname),
        _ => None,
    }
}

/// A copy of an optional name.
pub fn copy_name(name: &Option<String>) -> (r: Option<String>)
    ensures
        chars(r) == chars(*name),
{
    match name {
        Some(s) => Some(String::from_str(s.as_str())),
        None => None,
    }
}

/// Transforms window definitions, in order. Items of ORDER BY and PARTITION BY
/// that are not in the target list are added to it. An error about the name of
/// a window comes with that name.
pub fn transformWindowDefinitions(
    windowdefs: Vec<WindowDef>,
    targetlist: &mut Vec<TargetEntry>,
    flags: ParseFlags,
    cat: &Catalog,
) -> (r: Result<Vec<WindowClause>, NamedError>)
    requires
        ranges_known(old(targetlist)@, windowdefs@, flags, cat),
        forall|k: int| 0 <= k < windowdefs@.len() ==> def_ok(#[trigger] windowdefs@[k]),
        windowdefs@.len() < u32::MAX,
        parse_sort::max_ref(old(targetlist)@) + defs_weight(windowdefs@) <= u32::MAX,
    ensures
        ({
            let b = windows(old(targetlist)@, windowdefs@, windowdefs@.len(), flags, cat);
            final(targetlist)@ == b.tl && match r {
                Ok(ws) => b.err is None && views(ws@) == b.ws,
                Err(e) => b.err == Some(e.error) && b.ws.len() < windowdefs@.len() && chars(
                    e.name,
                ) == named_window(windowdefs@[b.ws.len() as int], e.error),
            }
        }),
{
    let ghost tl0 = targetlist@;
    let ghost defs = windowdefs@;
    let mut rest: Vec<WindowDef> = windowdefs;
    let mut result: Vec<WindowClause> = Vec::new();
    let ghost mut i: int = 0;
    proof {
        assert(defs.skip(0) =~= defs);
        assert(defs.take(0) =~= Seq::empty());
        assert(views(result@) =~= Seq::empty());
    }
    while rest.len() > 0
        invariant
            0 <= i <= defs.len(),
            defs == windowdefs@,
            tl0 == old(targetlist)@,
            rest@ == defs.skip(i),
            result@.len() == i,
            ranges_known(tl0, defs, flags, cat),
            forall|k: int| 0 <= k < defs.len() ==> def_ok(#[trigger] defs[k]),
            defs.len() < u32::MAX,
            parse_sort::max_ref(tl0) + defs_weight(defs) <= u32::MAX,
            parse_sort::max_ref(targetlist@) <= parse_sort::max_ref(tl0) + defs_weight(
                defs.take(i),
            ),
            done_ok(targetlist@, views(result@)),
            windows(tl0, defs, i as nat, flags, cat) == (WindowsBuilt {
                tl: targetlist@,
                ws: views(result@),
                err: None,
            }),
        decreases rest@.len(),
    {
        let wd: WindowDef = rest.remove(0);
        let name: Option<String> = copy_name(&wd.name);
        let refname: Option<String> = copy_name(&wd.refname);
        proof {
            assert(wd == defs[i]);
            assert(defs.skip(i + 1) =~= rest@);
            lemma_defs_weight(defs, i);
        }
        match window_one(targetlist, &mut result, wd, flags, cat) {
            Err(error) => {
                proof {
                    lemma_windows_stop(tl0, defs, (i + 1) as nat, defs.len(), flags, cat);
                }
                let named: Option<String> = match error {
                    ParseError::WindowRedefined { .. } => name,
                    ParseError::WindowUndefined { .. }
                    | ParseError::OverridePartition { .. }
                    | ParseError::OverrideOrder { .. }
                    | ParseError::CopyFramedWindow { .. } => refname,
                    _ => None,
                };
                return Err(NamedError { error, name: named });
            },
            Ok(_) => {},
        }
        proof {
            i = i + 1;
        }
    }
    Ok(result)
}

proof fn lemma_window_from(ws: Seq<WView>, name: Seq<char>, i: int)
    requires
        0 <= i <= ws.len(),
    ensures
        window_from(ws, name, i) >= ws.len() <==> forall|k: int|
            i <= k < ws.len() ==> (#[trigger] ws[k]).name != Some(name),
    decreases ws.len() - i,
{
    if i < ws.len() && ws[i].name != Some(name) {
        lemma_window_from(ws, name, i + 1);
    } else if i < ws.len() {
        assert(ws[i].name == Some(name));
    }
}

/// Windows are numbered in order from one, and no two have the same name.
pub proof fn law_windows_are_numbered_and_unique(
    tl: Seq<TargetEntry>,
    defs: Seq<WindowDef>,
    n: nat,
    flags: ParseFlags,
    cat: &Catalog,
)
    requires
        n <= defs.len(),
        defs.len() < u32::MAX,
        windows(tl, defs, n, flags, cat).err is None,
    ensures
        ({
            let ws = windows(tl, defs, n, flags, cat).ws;
            &&& ws.len() == n
            &&& forall|k: int| 0 <= k < n ==> (#[trigger] ws[k]).winref == k + 1 && ws[k].name
                == chars(defs[k].name)
            &&& forall|j: int, k: int|
                0 <= j < k < n && (#[trigger] ws[k]).name is Some ==> (#[trigger] ws[j]).name
                    != ws[k].name
        }),
    decreases n,
{
    if n > 0 {
        law_windows_are_numbered_and_unique(tl, defs, (n - 1) as nat, flags, cat);
        let p = windows(tl, defs, (n - 1) as nat, flags, cat).ws;
        let wd = defs[n - 1];
        match wd.name {
            Some(s) => lemma_window_from(p, s@, 0),
            None => {},
        }
    }
}

proof fn lemma_orders_known(
    tl: Seq<TargetEntry>,
    defs: Seq<WindowDef>,
    n: nat,
    flags: ParseFlags,
    cat: &Catalog,
)
    requires
        n <= defs.len(),
        knows_orderings(cat),
        forall|k: int| 0 <= k < defs.len() ==> def_known(#[trigger] defs[k], cat),
    ensures
        forall|k: int|
            0 <= k < windows(tl, defs, n, flags, cat).ws.len() ==> ordered(
                (#[trigger] windows(tl, defs, n, flags, cat).ws[k]).order,
                cat,
            ),
    decreases n,
{
    if n > 0 {
        let p = windows(tl, defs, (n - 1) as nat, flags, cat);
        let wd = defs[n - 1];
        lemma_orders_known(tl, defs, (n - 1) as nat, flags, cat);
        assert(def_known(wd, cat));
        lemma_sorted_ordered(p.tl, wd.order_clause@, wd.order_clause@.len(), flags, cat);
        match wd.refname {
            Some(s) => lemma_window_from_bounds(p.ws, s@, 0),
            None => {},
        }
    }
}

proof fn lemma_window_from_bounds(ws: Seq<WView>, name: Seq<char>, i: int)
    requires
        0 <= i <= ws.len(),
    ensures
        i <= window_from(ws, name, i) <= ws.len(),
    decreases ws.len() - i,
{
    if i < ws.len() {
        lemma_window_from_bounds(ws, name, i + 1);
    }
}

/// Ranged windows never lack an operator where the catalogs know what every
/// sort operator belongs to, and so do those that ORDER BY names.
pub proof fn law_known_operators_suffice(
    tl: Seq<TargetEntry>,
    defs: Seq<WindowDef>,
    flags: ParseFlags,
    cat: &Catalog,
)
    requires
        knows_orderings(cat),
        forall|k: int| 0 <= k < defs.len() ==> def_known(#[trigger] defs[k], cat),
    ensures
        ranges_known(tl, defs, flags, cat),
{
    assert forall|k: nat|
        k < defs.len() && (#[trigger] windows(tl, defs, k, flags, cat)).err is None implies range_known(
        windows(tl, defs, k, flags, cat),
        defs[k as int],
        flags,
        cat,
    ) by {
        let p = windows(tl, defs, k, flags, cat);
        let wd = defs[k as int];
        lemma_orders_known(tl, defs, k, flags, cat);
        assert(def_known(wd, cat));
        lemma_sorted_ordered(p.tl, wd.order_clause@, wd.order_clause@.len(), flags, cat);
        match wd.refname {
            Some(s) => lemma_window_from_bounds(p.ws, s@, 0),
            None => {},
        }
    }
}

/// A window that copies another has the same partitioning, and the same
/// ORDER BY unless it brings one of its own.
pub proof fn law_copies_keep_partitioning(
    tl: Seq<TargetEntry>,
    done: Seq<WView>,
    wd: WindowDef,
    order: Seq<SortGroupClause>,
    partition: Seq<SortGroupClause>,
    winref: u32,
    cat: &Catalog,
)
    requires
        wd.refname is Some,
        window_made(tl, done, wd, order, partition, winref, cat) is Ok,
    ensures
        ({
            let w = window_made(tl, done, wd, order, partition, winref, cat)->Ok_0;
            let from = done[window_from(done, wd.refname->Some_0@, 0)];
            &&& partition.len() == 0
            &&& w.partition == from.partition
            &&& w.copied_order ==> w.order == from.order
            &&& !w.copied_order ==> from.order.len() == 0
            &&& from.frame_options == FRAMEOPTION_DEFAULTS
        }),
{
}

} // verus!
