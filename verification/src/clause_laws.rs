//! What holds of window definitions, frame offsets, WHERE, LIMIT, ON CONFLICT,
//! index and statistics expressions, and the lists of aggregate calls.
use vstd::prelude::*;
use crate::group_laws;
use crate::parse_agg_lists;
use crate::parse_coerce;
use crate::parse_coerce::{CoercedForm, Coercible};
use crate::parse_distinct;
use crate::parse_frame;
use crate::parse_group;
use crate::parse_group_clause;
use crate::parse_nodes;
use crate::parse_nodes::{
    AmprocRow, Catalog, Construct, Expr, ParseError, ParseExprKind, ParseFlags, SortBy, SortByDir,
    SortByNulls, SortGroupClause, TargetEntry,
};
use crate::parse_sort;
use crate::parse_statement;
use crate::parse_statement::{
    IndexReplies, IndexStmt, InferClause, InferKey, LimitDef, Slot, TargetReplies, TargetState,
};
use crate::parse_window;
use crate::parse_window::{WView, WindowDef};
use crate::sort_laws;

verus! {

proof fn lemma_form(forms: Seq<CoercedForm>, typ: u32, i: int)
    requires
        0 <= i <= forms.len(),
        forall|j: int| 0 <= j < i ==> (#[trigger] forms[j]).typ != typ,
    ensures
        ({
            let m = parse_coerce::form_from(forms, typ, i);
            &&& i <= m <= forms.len()
            &&& m < forms.len() ==> forms[m].typ == typ
            &&& forall|j: int| 0 <= j < m ==> (#[trigger] forms[j]).typ != typ
        }),
    decreases forms.len() - i,
{
    if i < forms.len() && forms[i].typ != typ {
        lemma_form(forms, typ, i + 1);
    }
}

/// An expression as a type is the form of that type that it can be coerced to;
/// an error of transforming it goes first, and where there is no such form, the
/// error is that of coercing it.
pub proof fn law_coercion_goes_by_type(c: Coercible, typ: u32, k: int)
    requires
        0 <= k < c.coerced@.len(),
    ensures
        c.transformed matches Err(e) ==> parse_coerce::as_type(c, typ) == Err::<Expr, ParseError>(
            ParseError::Outside(e),
        ),
        c.transformed is Ok && c.coerced@[k].typ == typ && (forall|j: int|
            0 <= j < k ==> (#[trigger] c.coerced@[j]).typ != typ) ==> parse_coerce::as_type(c, typ)
            == match c.coerced@[k].expr {
            Ok(e) => Ok::<Expr, ParseError>(e),
            Err(e) => Err(ParseError::Outside(e)),
        },
        c.transformed is Ok && (forall|j: int|
            0 <= j < c.coerced@.len() ==> (#[trigger] c.coerced@[j]).typ != typ)
            ==> parse_coerce::as_type(c, typ) == Err::<Expr, ParseError>(
            ParseError::Outside(c.other),
        ),
{
    lemma_form(c.coerced@, typ, 0);
}

/// WHERE is taken as a boolean (type 16); without one there is none.
pub proof fn law_where_is_boolean(c: Coercible)
    ensures
        parse_statement::condition(None) == Ok::<Option<Expr>, ParseError>(None),
        parse_statement::condition(Some(c)) == match parse_coerce::as_type(c, 16) {
            Ok(e) => Ok::<Option<Expr>, ParseError>(Some(e)),
            Err(e) => Err(e),
        },
{
}

/// LIMIT and OFFSET are taken as a bigint (type 20). Variables of the query are
/// refused, and so is a LIMIT of NULL where ties are kept.
pub proof fn law_limit_is_a_bigint(c: LimitDef, kind: ParseExprKind, with_ties: bool)
    ensures
        parse_statement::limited(None, kind, with_ties) == Ok::<Option<Expr>, ParseError>(None),
        ({
            let r = parse_statement::limited(Some(c), kind, with_ties);
            let n = parse_coerce::as_type(c.count, 20);
            &&& n matches Err(e) ==> r == Err::<Option<Expr>, ParseError>(e)
            &&& n is Ok && n->Ok_0.var_location is Some ==> r == Err::<Option<Expr>, ParseError>(
                ParseError::ContainsVariables {
                    construct: Construct::RowCount,
                    location: n->Ok_0.var_location->0,
                },
            )
            &&& r == Err::<Option<Expr>, ParseError>(ParseError::NullRowCountWithTies) ==> kind
                == ParseExprKind::Limit && with_ties && c.is_null_const
            &&& n is Ok && n->Ok_0.var_location is None && kind == ParseExprKind::Limit && with_ties
                && c.is_null_const ==> r == Err::<Option<Expr>, ParseError>(
                ParseError::NullRowCountWithTies,
            )
            &&& r is Ok <==> n is Ok && n->Ok_0.var_location is None && !(kind
                == ParseExprKind::Limit && with_ties && c.is_null_const)
            &&& r is Ok ==> r->Ok_0 == Some(n->Ok_0)
        }),
{
    if parse_coerce::as_type(c.count, 20) is Err {
        lemma_form(c.count.coerced@, 20, 0);
    }
}

/// A transition table cannot be changed, unless a schema names another table.
/// Else the table that was opened becomes the target, with the rights that are
/// asked for; the one before is closed first.
pub proof fn law_target_of_a_statement(
    st: TargetState,
    qualified: bool,
    is_enr: bool,
    rs: TargetReplies,
    also_source: bool,
    perms: u64,
)
    ensures
        ({
            let (t, r) = parse_statement::target_set(
                st,
                qualified,
                is_enr,
                rs,
                also_source,
                perms,
            );
            let refused = is_enr && !qualified;
            let stuck = st.target_relation is Some && rs.close_error is Some;
            let hidden = also_source && rs.visible_error is Some;
            &&& refused ==> t == st && r == Err::<i32, ParseError>(ParseError::TargetNotModifiable)
            &&& !refused && stuck ==> r == Err::<i32, ParseError>(
                ParseError::Outside(rs.close_error->0),
            ) && t.target_relation is None
            &&& !refused && !stuck && rs.opened is Err ==> r == Err::<i32, ParseError>(
                ParseError::Outside(rs.opened->Err_0),
            ) && t.target_relation is None
            &&& !refused && !stuck && rs.opened is Ok && hidden ==> r == Err::<i32, ParseError>(
                ParseError::Outside(rs.visible_error->0),
            )
            &&& r is Ok <==> !refused && !stuck && rs.opened is Ok && !hidden
            &&& r is Ok ==> {
                &&& t.target_relation == Some((rs.opened->Ok_0).0)
                &&& t.target_rtindex == (rs.opened->Ok_0).1
                &&& r->Ok_0 == (rs.opened->Ok_0).1
                &&& t.required_perms == perms
                &&& t.in_query == also_source
            }
        }),
{
}

/// A key of ON CONFLICT must have no direction and no place for nulls; it takes
/// the collation and the operator class that it names.
pub proof fn law_key_of_on_conflict(k: InferKey, location: i32)
    ensures
        ({
            let r = parse_statement::infer_elem(k, location);
            let plain = k.ordering == SortByDir::Default && k.nulls_ordering
                == SortByNulls::Default;
            let coll_bad = k.collation is Some && k.collation->0 is Err;
            let class_bad = k.opclass is Some && k.opclass->0 is Err;
            &&& k.ordering != SortByDir::Default ==> r->Err_0 == (ParseError::ConflictOrdering {
                location,
            })
            &&& k.ordering == SortByDir::Default && k.nulls_ordering != SortByNulls::Default
                ==> r->Err_0 == (ParseError::ConflictNulls { location })
            &&& r is Ok <==> plain && k.transformed is Ok && !coll_bad && !class_bad
            &&& plain && k.transformed is Err ==> r->Err_0 == ParseError::Outside(
                k.transformed->Err_0,
            )
            &&& r is Ok ==> {
                &&& (r->Ok_0).expr == k.transformed->Ok_0
                &&& (r->Ok_0).infercollid == match k.collation {
                    Some(Ok(x)) => x,
                    _ => 0,
                }
                &&& (r->Ok_0).inferopclass == match k.opclass {
                    Some(Ok(x)) => x,
                    _ => 0,
                }
            }
        }),
{
}

/// ON CONFLICT picks its index by all of its keys, in order; the first that is
/// refused stops it.
pub proof fn law_keys_of_on_conflict(c: InferClause, n: nat)
    requires
        n <= c.elems@.len(),
    ensures
        ({
            let b = parse_statement::infer_elems(c, n);
            &&& b.err is None <==> forall|k: int|
                0 <= k < n ==> parse_statement::infer_elem(#[trigger] c.elems@[k], c.location) is Ok
            &&& b.err is None ==> b.elems.len() == n && forall|k: int|
                0 <= k < n ==> parse_statement::infer_elem(c.elems@[k], c.location) == Ok::<
                    parse_statement::InferenceElem,
                    ParseError,
                >(#[trigger] b.elems[k])
            &&& b.err is Some ==> exists|k: int|
                0 <= k < n && parse_statement::infer_elem(#[trigger] c.elems@[k], c.location)
                    == Err::<parse_statement::InferenceElem, ParseError>(b.err->0) && forall|j: int|
                    0 <= j < k ==> parse_statement::infer_elem(
                        #[trigger] c.elems@[j],
                        c.location,
                    ) is Ok
        }),
    decreases n,
{
    if n > 0 {
        law_keys_of_on_conflict(c, (n - 1) as nat);
        let p = parse_statement::infer_elems(c, (n - 1) as nat);
        let b = parse_statement::infer_elems(c, n);
        if p.err is None {
            if b.err is Some {
                assert(parse_statement::infer_elem(c.elems@[n - 1], c.location) is Err);
            }
        }
    }
}

/// DO UPDATE must name its arbiter, and a system catalog has none; then come
/// the keys, the predicate and the constraint.
pub proof fn law_what_stops_on_conflict(
    is_update: bool,
    infer: Option<InferClause>,
    is_catalog: bool,
    location: i32,
)
    ensures
        ({
            let e = parse_statement::conflict_error(is_update, infer, is_catalog, location);
            let keys = parse_statement::infer_elems(infer->0, (infer->0).elems@.len()).err;
            &&& is_update && infer is None ==> e == Some(
                ParseError::ConflictNeedsInference { location },
            )
            &&& !(is_update && infer is None) && is_catalog ==> e == Some(
                ParseError::ConflictOnCatalog { location },
            )
            &&& !is_update && !is_catalog && infer is None ==> e is None
            &&& !is_catalog && infer is Some && keys is Some ==> e == keys
            &&& !is_catalog && infer is Some && keys is None ==> (e is None
                <==> !((infer->0).where_clause is Some && (infer->0).where_clause->0 is Err) && !((
            infer->0).constraint is Some && (infer->0).constraint->0 is Err))
        }),
{
}

/// Naming a constraint asks for the right to read (2), beside those asked for,
/// and for all columns of the constraint, counted from 7; else nothing is asked
/// for.
pub proof fn law_constraint_needs_reading(
    perms: u64,
    cols: Set<i32>,
    perms1: u64,
    cols1: Set<i32>,
    infer: Option<InferClause>,
    attnos: Seq<i16>,
    k: int,
)
    requires
        parse_statement::perms_widened(perms, cols, perms1, cols1, infer),
    ensures
        infer is None || (infer->0).constraint is None ==> perms1 == perms && cols1 == cols,
        infer is Some && (infer->0).constraint is Some && (infer->0).constraint->0 is Ok ==> perms1
            == perms | 2 && cols.subset_of(cols1),
        infer is Some && (infer->0).constraint is Some && (infer->0).constraint->0 is Ok && attnos
            == (((infer->0).constraint->0)->Ok_0).1@ && 0 <= k < attnos.len() ==> cols1.contains(
            (attnos[k] + 7) as i32,
        ),
{
    if infer is Some && (infer->0).constraint is Some && (infer->0).constraint->0 is Ok && attnos
        == (((infer->0).constraint->0)->Ok_0).1@ && 0 <= k < attnos.len() {
        let ss = attnos.map_values(|a: i16| (a + 7) as i32);
        assert(ss[k] == (attnos[k] + 7) as i32);
        assert(ss.to_set().contains(ss[k]));
    }
}

proof fn lemma_bad(slots: Seq<Slot>, rs: Seq<Result<Expr, i32>>, i: int)
    requires
        0 <= i <= slots.len(),
        forall|j: int| 0 <= j < i ==> (#[trigger] slots[j]) is Empty || rs[j] is Ok,
    ensures
        ({
            let m = parse_statement::bad_slot_from(slots, rs, i);
            &&& i <= m <= slots.len()
            &&& m < slots.len() ==> !(slots[m] is Empty) && rs[m] is Err
            &&& forall|j: int| 0 <= j < m ==> (#[trigger] slots[j]) is Empty || rs[j] is Ok
        }),
    decreases slots.len() - i,
{
    if i < slots.len() && (slots[i] is Empty || rs[i] is Ok) {
        lemma_bad(slots, rs, i + 1);
    }
}

/// The expressions of an index or of statistics are accepted exactly where each
/// can be transformed, no other table is referred to, and the table can be
/// closed; plain columns are not looked at.
pub proof fn law_expressions_of_one_table(
    slots: Seq<Slot>,
    rs: Seq<Result<Expr, i32>>,
    rtable_len: usize,
    other: ParseError,
    close_error: Option<i32>,
)
    ensures
        ({
            let e = parse_statement::slots_error(slots, rs, rtable_len, other, close_error);
            let fine = forall|j: int|
                0 <= j < slots.len() ==> (#[trigger] slots[j]) is Empty || rs[j] is Ok;
            &&& e is None <==> fine && rtable_len == 1 && close_error is None
            &&& fine && rtable_len != 1 ==> e == Some(other)
            &&& fine && rtable_len == 1 && close_error is Some ==> e == Some(
                ParseError::Outside(close_error->0),
            )
            &&& !fine ==> exists|k: int|
                0 <= k < slots.len() && !((#[trigger] slots[k]) is Empty) && rs[k] is Err && e
                    == Some(ParseError::Outside(rs[k]->Err_0)) && forall|j: int|
                    0 <= j < k ==> (#[trigger] slots[j]) is Empty || rs[j] is Ok
        }),
{
    lemma_bad(slots, rs, 0);
}

/// An index that was transformed is left alone. Else its table must open, then
/// its predicate must be a boolean (type 16), then its keys are looked at.
pub proof fn law_what_stops_an_index(s: IndexStmt, rs: IndexReplies)
    ensures
        ({
            let e = parse_statement::index_error(s, rs);
            let p = parse_coerce::as_type(rs.predicate, 16);
            &&& s.transformed ==> e is None
            &&& !s.transformed && rs.open_error is Some ==> e == Some(
                ParseError::Outside(rs.open_error->0),
            )
            &&& !s.transformed && rs.open_error is None && !(s.where_clause is Empty) && p is Err
                ==> e == Some(p->Err_0)
            &&& !s.transformed && rs.open_error is None && (s.where_clause is Empty || p is Ok)
                ==> e == parse_statement::slots_error(
                s.params@.map_values(|x: parse_statement::IndexElem| x.expr),
                rs.keys@.map_values(|r: parse_statement::KeyReply| r.transformed),
                rs.rtable_len,
                ParseError::IndexOtherTable,
                rs.close_error,
            )
            &&& !s.transformed && rs.open_error is None && !(s.where_clause is Empty) && p is Ok
                ==> parse_statement::index_predicate(s, rs) == Slot::Made(p->Ok_0)
            &&& s.where_clause is Empty ==> parse_statement::index_predicate(s, rs) is Empty
        }),
{
}

proof fn lemma_window(ws: Seq<WView>, name: Seq<char>, i: int)
    requires
        0 <= i <= ws.len(),
        forall|j: int| 0 <= j < i ==> (#[trigger] ws[j]).name != Some(name),
    ensures
        ({
            let m = parse_window::window_from(ws, name, i);
            &&& i <= m <= ws.len()
            &&& m < ws.len() ==> ws[m].name == Some(name)
            &&& forall|j: int| 0 <= j < m ==> (#[trigger] ws[j]).name != Some(name)
        }),
    decreases ws.len() - i,
{
    if i < ws.len() && ws[i].name != Some(name) {
        lemma_window(ws, name, i + 1);
    }
}

/// Whether a window of this name is there.
pub open spec fn has_window(ws: Seq<WView>, name: Seq<char>) -> bool {
    exists|k: int| 0 <= k < ws.len() && (#[trigger] ws[k]).name == Some(name)
}

/// A window's name must be new, and the window that it copies must be there
/// already.
pub proof fn law_names_of_windows(done: Seq<WView>, wd: WindowDef)
    ensures
        ({
            let e = parse_window::names_refused(done, wd);
            let again = wd.name is Some && has_window(done, wd.name->0@);
            let unknown = wd.refname is Some && !has_window(done, wd.refname->0@);
            &&& again ==> e == Some(ParseError::WindowRedefined { location: wd.location })
            &&& !again && unknown ==> e == Some(
                ParseError::WindowUndefined { location: wd.location },
            )
            &&& !again && !unknown ==> e is None
            &&& wd.refname is Some && !unknown ==> parse_window::copied_window(done, wd) is Some
                && (parse_window::copied_window(done, wd)->0).name == Some(wd.refname->0@)
            &&& wd.refname is None ==> parse_window::copied_window(done, wd) is None
        }),
{
    match wd.name {
        Some(n) => lemma_window(done, n@, 0),
        None => {},
    }
    match wd.refname {
        Some(n) => lemma_window(done, n@, 0),
        None => {},
    }
}

/// Whether the frame is a RANGE with an offset: mode bit 2, and one of the bits
/// of an offset.
pub open spec fn ranges(frame_options: i32) -> bool {
    frame_options & 2 != 0 && frame_options & 0x7800 != 0
}

/// A window that copies none has its own lists. Every window has the frame, the
/// name and the number that it is given.
pub proof fn law_window_is_its_definition(
    tl: Seq<TargetEntry>,
    done: Seq<WView>,
    wd: WindowDef,
    order: Seq<SortGroupClause>,
    partition: Seq<SortGroupClause>,
    winref: u32,
    cat: &Catalog,
)
    requires
        parse_window::window_made(tl, done, wd, order, partition, winref, cat) is Ok,
    ensures
        ({
            let w = parse_window::window_made(tl, done, wd, order, partition, winref, cat)->Ok_0;
            &&& wd.refname is None ==> w.partition == partition && w.order == order
                && !w.copied_order
            &&& wd.refname is Some ==> (w.copied_order <==> order.len() == 0)
            &&& order.len() > 0 ==> w.order == order
            &&& w.frame_options == wd.frame_options
            &&& w.winref == winref
            &&& w.name is Some <==> wd.name is Some
            &&& w.name is Some ==> w.name->0 == wd.name->0@
            &&& wd.start_offset is Some <==> w.start.node is Some
            &&& wd.end_offset is Some <==> w.end.node is Some
        }),
{
}

/// A copy may not bring its own PARTITION BY, nor an ORDER BY where the copied
/// window has one, and may not copy a frame that was written (0x422 stands for
/// none); in this order.
pub proof fn law_what_a_copy_may_not(
    from: Option<WView>,
    wd: WindowDef,
    order: Seq<SortGroupClause>,
    partition: Seq<SortGroupClause>,
)
    ensures
        ({
            let e = parse_window::copy_refused(from, wd, order, partition);
            let w = from->0;
            &&& from is None ==> e is None
            &&& from is Some && partition.len() > 0 ==> e == Some(
                ParseError::OverridePartition { location: wd.location },
            )
            &&& from is Some && partition.len() == 0 && order.len() > 0 && w.order.len() > 0 ==> e
                == Some(ParseError::OverrideOrder { location: wd.location })
            &&& from is Some && partition.len() == 0 && !(order.len() > 0 && w.order.len() > 0) ==> (
            e is Some <==> w.frame_options != 0x422)
            &&& e matches Some(ParseError::CopyFramedWindow { hint, location }) ==> location
                == wd.location && (hint <==> wd.name is None && order.len() == 0 && w.order.len()
                == 0 && wd.frame_options == 0x422)
        }),
{
}

/// RANGE with an offset needs exactly one ORDER BY item, GROUPS at least one.
pub proof fn law_frames_need_an_order(wd: WindowDef, order: Seq<SortGroupClause>)
    ensures
        parse_window::is_range_offset(wd.frame_options) <==> ranges(wd.frame_options),
        ({
            let e = parse_window::frame_refused(wd, order);
            &&& ranges(wd.frame_options) && order.len() != 1 ==> e == Some(
                ParseError::RangeNeedsOneColumn { location: wd.location },
            )
            &&& !(ranges(wd.frame_options) && order.len() != 1) && wd.frame_options & 8 != 0
                && order.len() == 0 ==> e == Some(
                ParseError::GroupsNeedsOrder { location: wd.location },
            )
            &&& e is None <==> !(ranges(wd.frame_options) && order.len() != 1) && !(wd.frame_options
                & 8 != 0 && order.len() == 0)
        }),
{
    assert(0x02800i32 | 0x05000i32 == 0x7800i32) by (bit_vector);
}

/// A RANGE with an offset goes by the direction, the nulls and the collation of
/// its one ORDER BY item; no other frame has any of these.
pub proof fn law_range_goes_by_its_order(
    tl: Seq<TargetEntry>,
    done: Seq<WView>,
    wd: WindowDef,
    order: Seq<SortGroupClause>,
    partition: Seq<SortGroupClause>,
    winref: u32,
    cat: &Catalog,
)
    requires
        parse_window::window_made(tl, done, wd, order, partition, winref, cat) is Ok,
    ensures
        ({
            let w = parse_window::window_made(tl, done, wd, order, partition, winref, cat)->Ok_0;
            let r = ranges(wd.frame_options);
            let row = parse_nodes::ordering_row(cat.orderings@, w.order[0].sortop);
            let (family, typ) = if r && row is Some {
                (row->0.family, row->0.opcintype)
            } else {
                (0u32, 0u32)
            };
            &&& r ==> w.order.len() == 1
            &&& r ==> w.in_range_asc == !w.order[0].reverse_sort
            &&& r ==> w.in_range_nulls_first == w.order[0].nulls_first
            &&& r ==> w.in_range_coll == parse_window::sort_key(tl, w.order[0]).collation
            &&& !r ==> !w.in_range_asc && !w.in_range_nulls_first && w.in_range_coll == 0
            &&& parse_frame::frame_offset(wd.frame_options, family, typ, wd.start_offset, cat)
                == Ok::<parse_frame::FrameOffset, ParseError>(w.start)
            &&& parse_frame::frame_offset(wd.frame_options, family, typ, wd.end_offset, cat) == Ok::<
                parse_frame::FrameOffset,
                ParseError,
            >(w.end)
        }),
{
    law_frames_need_an_order(wd, order);
}

/// Each window has the ORDER BY and PARTITION BY of its own definition, looked
/// up one window after another; the first error stops the work.
pub proof fn law_windows_one_after_another(
    tl: Seq<TargetEntry>,
    defs: Seq<WindowDef>,
    n: nat,
    flags: ParseFlags,
    cat: &Catalog,
)
    requires
        n < defs.len(),
    ensures
        ({
            let p = parse_window::windows(tl, defs, n, flags, cat);
            let q = parse_window::windows(tl, defs, n + 1, flags, cat);
            let wd = defs[n as int];
            let o = parse_sort::sorted(
                p.tl,
                wd.order_clause@,
                wd.order_clause@.len(),
                ParseExprKind::WindowOrder,
                true,
                flags,
                cat,
            );
            let s = parse_group::deep_list(wd.partition_clause@);
            let g = parse_group_clause::clause_items(
                o.tl,
                parse_group_clause::flat_items(s),
                parse_group_clause::has_sets(s),
                o.sl,
                parse_group::GroupRule {
                    kind: ParseExprKind::WindowPartition,
                    use_sql99: true,
                    flags,
                },
                cat,
            );
            &&& p.err is Some ==> q == p
            &&& p.err is None && q.err is None ==> {
                &&& q.ws.len() == p.ws.len() + 1
                &&& q.ws.take(p.ws.len() as int) =~= p.ws
                &&& o.err is None && g.err is None
                &&& q.tl == g.tl
                &&& wd.refname is None ==> q.ws.last().order == o.sl && q.ws.last().partition
                    == g.fl
            }
            &&& p.err is None && q.err is Some ==> q.ws == p.ws
        }),
{
}

/// A frame that counts rows (mode bit 4) or groups takes its offset as a bigint
/// (type 20) and needs no function; an offset that holds a variable of the
/// query is refused; without an offset there is nothing to do.
pub proof fn law_counted_offsets(
    frame_options: i32,
    family: u32,
    typ: u32,
    c: Coercible,
    cat: &Catalog,
)
    ensures
        parse_frame::frame_offset(frame_options, family, typ, None, cat) == Ok::<
            parse_frame::FrameOffset,
            ParseError,
        >(parse_frame::FrameOffset { node: None, in_range_func: 0 }),
        ({
            let r = parse_frame::frame_offset(frame_options, family, typ, Some(c), cat);
            let n = parse_coerce::as_type(c, 20);
            let counts = frame_options & 4 != 0 || frame_options & 2 == 0;
            let construct = if frame_options & 4 != 0 {
                Construct::Rows
            } else {
                Construct::Groups
            };
            &&& c.transformed matches Err(e) ==> r == Err::<parse_frame::FrameOffset, ParseError>(
                ParseError::Outside(e),
            )
            &&& c.transformed is Ok && counts && n is Err ==> r == Err::<
                parse_frame::FrameOffset,
                ParseError,
            >(n->Err_0)
            &&& c.transformed is Ok && counts && n is Ok && n->Ok_0.var_location is Some ==> r
                == Err::<parse_frame::FrameOffset, ParseError>(
                ParseError::ContainsVariables { construct, location: n->Ok_0.var_location->0 },
            )
            &&& c.transformed is Ok && counts && n is Ok && n->Ok_0.var_location is None ==> r
                == Ok::<parse_frame::FrameOffset, ParseError>(
                parse_frame::FrameOffset { node: Some(n->Ok_0), in_range_func: 0 },
            )
        }),
{
}

/// Whether a row is an in-range function (number 3) of this family for a column
/// of this type.
pub open spec fn for_column(r: AmprocRow, family: u32, typ: u32) -> bool {
    r.family == family && r.lefttype == typ && r.amprocnum == 3
}

/// The type that an offset is best taken as: its own, or the column's where it
/// has none yet (705).
pub open spec fn best(typ: u32, node_type: u32) -> u32 {
    if node_type == 705 {
        typ
    } else {
        node_type
    }
}

/// Whether a function for the column takes the best type, and the offset can be
/// taken as it.
pub open spec fn best_fits(cat: &Catalog, family: u32, typ: u32, node_type: u32) -> bool {
    cat.coercible(node_type, best(typ, node_type)) && exists|k: int|
        0 <= k < cat.amprocs@.len() && for_column(#[trigger] cat.amprocs@[k], family, typ)
            && cat.amprocs@[k].righttype == best(typ, node_type)
}

proof fn lemma_in_range(
    cat: &Catalog,
    n: nat,
    family: u32,
    typ: u32,
    node_type: u32,
    preferred: u32,
)
    requires
        n <= cat.amprocs@.len(),
        preferred != 0,
    ensures
        ({
            let s = parse_frame::in_range(cat, n, family, typ, node_type, preferred);
            let rows = cat.amprocs@.take(n as int);
            &&& s.nfuncs == rows.filter(|r: AmprocRow| for_column(r, family, typ)).len()
            &&& s.nmatches == rows.filter(
                |r: AmprocRow| for_column(r, family, typ) && cat.coercible(node_type, r.righttype),
            ).len()
            &&& s.nmatches > 0 ==> exists|k: int|
                0 <= k < n && for_column(#[trigger] cat.amprocs@[k], family, typ) && cat.coercible(
                    node_type,
                    cat.amprocs@[k].righttype,
                ) && cat.amprocs@[k].righttype == s.typ && cat.amprocs@[k].amproc == s.func
            &&& s.nmatches == 0 ==> s.typ == 0
            &&& s.nmatches <= s.nfuncs
            &&& s.typ == preferred <==> exists|k: int|
                0 <= k < n && for_column(#[trigger] cat.amprocs@[k], family, typ) && cat.coercible(
                    node_type,
                    preferred,
                ) && cat.amprocs@[k].righttype == preferred
        }),
    decreases n,
{
    reveal(Seq::filter);
    if n > 0 {
        lemma_in_range(cat, (n - 1) as nat, family, typ, node_type, preferred);
        let rows = cat.amprocs@.take(n as int);
        assert(rows.drop_last() =~= cat.amprocs@.take(n - 1));
        assert(rows.last() == cat.amprocs@[n - 1]);
        let p = parse_frame::in_range(cat, (n - 1) as nat, family, typ, node_type, preferred);
        let s = parse_frame::in_range(cat, n, family, typ, node_type, preferred);
        let r = cat.amprocs@[n - 1];
        if for_column(r, family, typ) && cat.coercible(node_type, r.righttype) && p.typ
            != preferred {
            assert(for_column(cat.amprocs@[n - 1], family, typ));
            assert(s.typ == r.righttype && s.func == r.amproc);
        }
    }
}

/// A RANGE offset is taken as a type that an in-range function for the column
/// takes, and by that function. It is refused where there is none, where none
/// can take it, and where several can and none has the preferred type.
pub proof fn law_range_offsets(c: Coercible, n: Expr, family: u32, typ: u32, cat: &Catalog)
    requires
        typ != 0,
        n.rtype != 0,
    ensures
        ({
            let r = parse_frame::range_offset(c, n, family, typ, cat);
            let all = cat.amprocs@.filter(|r: AmprocRow| for_column(r, family, typ)).len();
            let fit = cat.amprocs@.filter(
                |r: AmprocRow| for_column(r, family, typ) && cat.coercible(n.rtype, r.righttype),
            ).len();
            &&& all == 0 ==> r->Err_0 == (ParseError::FrameNotSupported {
                coltype: typ,
                location: n.location,
            })
            &&& all > 0 && fit == 0 ==> r->Err_0 == (ParseError::FrameTypeNotSupported {
                coltype: typ,
                offtype: n.rtype,
                location: n.location,
            })
            &&& r is Ok ==> fit > 0 && exists|k: int|
                0 <= k < cat.amprocs@.len() && for_column(
                    #[trigger] cat.amprocs@[k],
                    family,
                    typ,
                ) && cat.coercible(n.rtype, cat.amprocs@[k].righttype) && cat.amprocs@[k].amproc
                    == (r->Ok_0).in_range_func && parse_coerce::as_type(
                    c,
                    cat.amprocs@[k].righttype,
                ) == Ok::<Expr, ParseError>((r->Ok_0).node->0) && (r->Ok_0).node is Some && (
                fit == 1 || cat.amprocs@[k].righttype == best(typ, n.rtype))
            &&& r is Ok ==> ((r->Ok_0).node->0).var_location is None
            &&& fit > 1 && !best_fits(cat, family, typ, n.rtype) ==> r->Err_0 == (
            ParseError::FrameAmbiguous { coltype: typ, offtype: n.rtype, location: n.location })
            &&& best_fits(cat, family, typ, n.rtype) ==> (r is Ok <==> (parse_coerce::as_type(
                c,
                best(typ, n.rtype),
            ) matches Ok(x) && x.var_location is None))
            &&& fit == 1 && r is Err ==> exists|k: int|
                0 <= k < cat.amprocs@.len() && for_column(
                    #[trigger] cat.amprocs@[k],
                    family,
                    typ,
                ) && cat.coercible(n.rtype, cat.amprocs@[k].righttype) && !(parse_coerce::as_type(
                    c,
                    cat.amprocs@[k].righttype,
                ) matches Ok(x) && x.var_location is None)
        }),
{
    let preferred = parse_frame::preferred_type(n.rtype, typ);
    assert(cat.amprocs@.take(cat.amprocs@.len() as int) =~= cat.amprocs@);
    lemma_in_range(cat, cat.amprocs@.len(), family, typ, n.rtype, preferred);
}

/// The argument types of an aggregate call are those of the entries that are
/// part of the result, in order.
pub proof fn law_argument_types(tl: Seq<TargetEntry>)
    ensures
        parse_agg_lists::result_types(tl) =~= tl.filter(
            |t: TargetEntry| !t.resjunk,
        ).map_values(|t: TargetEntry| t.expr.rtype),
    decreases tl.len(),
{
    reveal(Seq::filter);
    let f = |t: TargetEntry| !t.resjunk;
    let g = |t: TargetEntry| t.expr.rtype;
    if tl.len() > 0 {
        law_argument_types(tl.drop_last());
        let a = tl.drop_last().filter(f);
        if !tl.last().resjunk {
            assert(tl.filter(f) =~= a.push(tl.last()));
            assert(a.push(tl.last()).map_values(g) =~= a.map_values(g).push(g(tl.last())));
        }
    }
}

proof fn lemma_unsortable(sl: Seq<SortGroupClause>, k: int)
    requires
        0 <= k <= sl.len(),
        forall|j: int| 0 <= j < k ==> (#[trigger] sl[j]).sortop != 0,
    ensures
        ({
            let m = parse_agg_lists::unsortable_from(sl, k);
            &&& k <= m <= sl.len()
            &&& m < sl.len() ==> sl[m].sortop == 0
            &&& forall|j: int| 0 <= j < m ==> (#[trigger] sl[j]).sortop != 0
        }),
    decreases sl.len() - k,
{
    if k < sl.len() && sl[k].sortop != 0 {
        lemma_unsortable(sl, k + 1);
    }
}

/// The ORDER BY of an aggregate call goes by SQL99. DISTINCT in it is accepted
/// exactly where DISTINCT of its entries is, and each can be sorted.
pub proof fn law_lists_of_an_aggregate(
    tl: Seq<TargetEntry>,
    agg_order: Seq<SortBy>,
    agg_distinct: bool,
    flags: ParseFlags,
    cat: &Catalog,
)
    ensures
        ({
            let b = parse_agg_lists::agg_lists(tl, agg_order, agg_distinct, flags, cat);
            let o = parse_sort::sorted(
                tl,
                agg_order,
                agg_order.len(),
                ParseExprKind::OrderBy,
                true,
                flags,
                cat,
            );
            let d = parse_distinct::distinct(o.tl, o.sl, true, cat);
            &&& o.err is Some ==> b.err == o.err
            &&& o.err is None && !agg_distinct ==> b.err is None && b.order == o.sl
                && b.distinct.len() == 0 && b.tl == o.tl
            &&& o.err is None && agg_distinct && d.err is Some ==> b.err == d.err
            &&& o.err is None && agg_distinct && d.err is None ==> (b.err is None <==> forall|j: int|
                0 <= j < d.sl.len() ==> (#[trigger] d.sl[j]).sortop != 0)
            &&& b.err is None && agg_distinct ==> b.order == o.sl && b.distinct == d.sl
        }),
{
    let o = parse_sort::sorted(
        tl,
        agg_order,
        agg_order.len(),
        ParseExprKind::OrderBy,
        true,
        flags,
        cat,
    );
    lemma_unsortable(parse_distinct::distinct(o.tl, o.sl, true, cat).sl, 0);
}

/// WITHIN GROUP sorts each aggregated argument as its own ORDER BY item says.
pub proof fn law_within_group_goes_by_place(
    tl: Seq<TargetEntry>,
    agg_order: Seq<SortBy>,
    n: nat,
    cat: &Catalog,
)
    requires
        n < agg_order.len(),
        n < tl.len(),
        parse_sort::max_ref(tl) + agg_order.len() <= u32::MAX,
        parse_agg_lists::within_group(tl, agg_order, n + 1, cat).err is None,
    ensures
        ({
            let p = parse_agg_lists::within_group(tl, agg_order, n, cat);
            let b = parse_agg_lists::within_group(tl, agg_order, n + 1, cat);
            &&& p.err is None
            &&& p.tl.len() == tl.len() && b.tl.len() == tl.len()
            &&& b.sl.take(p.sl.len() as int) == p.sl
            &&& b.tl[n as int].ressortgroupref != 0
            &&& group_laws::groups_by(b.sl, b.tl[n as int].ressortgroupref)
        }),
{
    lemma_within(tl, agg_order, n, cat);
    let p = parse_agg_lists::within_group(tl, agg_order, n, cat);
    sort_laws::law_sort_item_is_about_its_entry(p.tl, n as int, p.sl, agg_order[n as int], cat);
    let b = parse_agg_lists::within_group(tl, agg_order, n + 1, cat);
    let k = choose|k: int|
        0 <= k < b.sl.len() && (#[trigger] b.sl[k]).tleSortGroupRef
            == b.tl[n as int].ressortgroupref;
    assert(b.sl[k].tleSortGroupRef == b.tl[n as int].ressortgroupref);
}

proof fn lemma_within(tl: Seq<TargetEntry>, agg_order: Seq<SortBy>, n: nat, cat: &Catalog)
    requires
        n <= agg_order.len(),
        n <= tl.len(),
        parse_sort::max_ref(tl) + agg_order.len() <= u32::MAX,
        parse_agg_lists::within_group(tl, agg_order, n, cat).err is None,
    ensures
        ({
            let b = parse_agg_lists::within_group(tl, agg_order, n, cat);
            &&& b.tl.len() == tl.len()
            &&& parse_sort::max_ref(b.tl) <= parse_sort::max_ref(tl) + n
        }),
    decreases n,
{
    if n > 0 {
        lemma_within(tl, agg_order, (n - 1) as nat, cat);
        let p = parse_agg_lists::within_group(tl, agg_order, (n - 1) as nat, cat);
        parse_sort::lemma_settled(p.tl, n - 1);
        match parse_sort::settled(p.tl, n - 1) {
            None => {},
            Some(t) => parse_sort::lemma_numbered(t, n - 1),
        }
    }
}

/// Whether all slots up to `k`, itself among them, could be transformed.
pub open spec fn fine_up_to(slots: Seq<Slot>, rs: Seq<Result<Expr, i32>>, k: int) -> bool {
    forall|j: int| 0 <= j <= k ==> (#[trigger] slots[j]) is Empty || rs[j] is Ok
}

/// Statistics that were transformed are left alone. Else their table must
/// open, each expression is replaced by what it was transformed to, up to the
/// first that could not be, and only their own table may be referred to.
pub proof fn law_expressions_of_statistics(
    s: parse_statement::StatsStmt,
    rs: parse_statement::StatsReplies,
    k: int,
)
    requires
        0 <= k < s.exprs@.len(),
    ensures
        ({
            let e = parse_statement::stats_error(s, rs);
            let t = parse_statement::stats_slot(s, rs, k);
            let works = !s.transformed && rs.open_error is None;
            &&& s.transformed ==> e is None && t == s.exprs@[k]
            &&& !s.transformed && rs.open_error is Some ==> e == Some(
                ParseError::Outside(rs.open_error->0),
            ) && t == s.exprs@[k]
            &&& works ==> e == parse_statement::slots_error(
                s.exprs@,
                rs.exprs@,
                rs.rtable_len,
                ParseError::StatsOtherTable,
                rs.close_error,
            )
            &&& works && !(s.exprs@[k] is Empty) && fine_up_to(s.exprs@, rs.exprs@, k) ==> t
                == Slot::Made(rs.exprs@[k]->Ok_0)
            &&& s.exprs@[k] is Empty || !fine_up_to(s.exprs@, rs.exprs@, k) ==> t == s.exprs@[k]
        }),
{
    lemma_bad(s.exprs@, rs.exprs@, 0);
}

/// A key of an index is replaced where all before it, and it, could be
/// transformed; it keeps its name, or gets the one made up for it.
pub proof fn law_keys_of_an_index(
    s: IndexStmt,
    rs: IndexReplies,
    k: int,
    q: parse_statement::IndexElem,
)
    requires
        0 <= k < s.params@.len(),
        s.params@.len() == rs.keys@.len(),
    ensures
        ({
            let p = s.params@[k];
            let fine = forall|j: int|
                0 <= j <= k ==> (#[trigger] s.params@[j]).expr is Empty
                    || rs.keys@[j].transformed is Ok;
            &&& parse_statement::key_reached(s, rs, k) <==> !s.transformed && rs.open_error is None
                && (s.where_clause is Empty || parse_coerce::as_type(rs.predicate, 16) is Ok)
                && fine && !(p.expr is Empty)
            &&& parse_statement::key_made(p, rs.keys@[k], q) ==> q.expr == Slot::Made(
                rs.keys@[k].transformed->Ok_0,
            )
            &&& parse_statement::key_made(p, rs.keys@[k], q) && p.colname is Some ==> q.colname is Some
                && q.colname->0@ == p.colname->0@
            &&& parse_statement::key_made(p, rs.keys@[k], q) && p.colname is None ==> (
            q.colname is Some <==> rs.keys@[k].figured is Some)
        }),
{
    let a = parse_statement::key_slots(s.params@);
    let b = parse_statement::key_results(rs.keys@);
    lemma_bad(a, b, 0);
    let m = parse_statement::bad_slot_from(a, b, 0);
    assert forall|j: int| 0 <= j < s.params@.len() implies (#[trigger] s.params@[j]).expr == a[j]
        && rs.keys@[j].transformed == b[j] by {}
    if m <= k {
        assert(s.params@[m].expr == a[m]);
    }
    if k < m {
        assert forall|j: int| 0 <= j <= k implies (#[trigger] s.params@[j]).expr is Empty
            || rs.keys@[j].transformed is Ok by {
            assert(a[j] is Empty || b[j] is Ok);
        }
    }
}

} // verus!
