//! What holds of the items of FROM: names, samples, subqueries, functions and
//! XMLTABLE.
use vstd::prelude::*;
use crate::parse_coerce;
use crate::parse_coerce::Coercible;
use crate::parse_from;
use crate::parse_from::{JoinTree, NsItem};
use crate::parse_nodes::{Expr, ParseError, TargetEntry};
use crate::parse_range;
use crate::parse_range::{
    FlaggedItem, FromFlags, FromItem, FromNode, RangeEntry, SampleClause, Srf, SubView,
};
use crate::parse_range_function;
use crate::parse_range_function::{
    Coldeflist, FuncItem, FuncReply, ItemsBuilt, RangeFunc, RangeFunctionDef,
};
use crate::parse_table_func;
use crate::parse_table_func::{ColumnDefault, RangeTableFunc, TableFuncCol, TableFuncNamespace};
use crate::parse_window;

verus! {

/// What LATERAL may see of names changes nothing else about them.
pub proof fn law_lateral_state(ns: Seq<NsItem>, only: bool, ok: bool, k: int)
    requires
        0 <= k < ns.len(),
    ensures
        parse_from::with_lateral(ns, only, ok).len() == ns.len(),
        ({
            let a = parse_from::with_lateral(ns, only, ok)[k];
            &&& a.lateral_only == only
            &&& a.lateral_ok == ok
            &&& a.names == ns[k].names
            &&& a.rtindex == ns[k].rtindex
            &&& a.rel_visible == ns[k].rel_visible
            &&& a.cols_visible == ns[k].cols_visible
        }),
{
}

/// Whether an item of FROM goes through: it was transformed, and its names
/// clash with none.
pub open spec fn accepted(i: Result<FromItem, i32>) -> bool {
    i is Ok && (i->Ok_0).conflict is None
}

/// FROM is accepted exactly where each of its items is. They are joined in
/// their order, and the first that is not accepted stops the work.
pub proof fn law_items_of_from(
    ns: Seq<NsItem>,
    trees: Seq<JoinTree>,
    items: Seq<Result<FromItem, i32>>,
    n: nat,
)
    requires
        n <= items.len(),
    ensures
        ({
            let b = parse_range::from_items(ns, trees, items, n);
            &&& b.err is None <==> forall|k: int| 0 <= k < n ==> accepted(#[trigger] items[k])
            &&& b.err is None ==> b.trees.len() == trees.len() + n && forall|k: int|
                0 <= k < n ==> b.trees[trees.len() + k] == ((#[trigger] items[k])->Ok_0).tree
            &&& trees.is_prefix_of(b.trees)
            &&& ns.is_prefix_of(b.ns)
            &&& b.err is Some ==> exists|k: int|
                0 <= k < n && !accepted(#[trigger] items[k]) && b.err == Some(
                    ParseError::Outside(
                        match items[k] {
                            Err(e) => e,
                            Ok(i) => i.conflict->0,
                        },
                    ),
                ) && b.trees.len() == trees.len() + k && forall|j: int|
                    0 <= j < k ==> accepted(#[trigger] items[j])
        }),
    decreases n,
{
    if n > 0 {
        law_items_of_from(ns, trees, items, (n - 1) as nat);
        let p = parse_range::from_items(ns, trees, items, (n - 1) as nat);
        let b = parse_range::from_items(ns, trees, items, n);
        if p.err is None {
            if accepted(items[n - 1]) {
                assert forall|k: int| 0 <= k < n implies b.trees[trees.len() + k] == ((
                #[trigger] items[k])->Ok_0).tree by {
                    if k < n - 1 {
                        assert(p.trees[trees.len() + k] == (items[k]->Ok_0).tree);
                    }
                }
            } else {
                assert(!accepted(items[n - 1]));
            }
        }
    }
}

/// The names of an item come behind those before it, and are for LATERAL only
/// until FROM is done.
pub proof fn law_names_of_an_item(
    ns: Seq<NsItem>,
    trees: Seq<JoinTree>,
    items: Seq<Result<FromItem, i32>>,
    n: nat,
    k: int,
)
    requires
        n < items.len(),
        parse_range::from_items(ns, trees, items, n + 1).err is None,
        0 <= k < (items[n as int]->Ok_0).namespace@.len(),
    ensures
        ({
            let p = parse_range::from_items(ns, trees, items, n);
            let q = parse_range::from_items(ns, trees, items, n + 1);
            let own = (items[n as int]->Ok_0).namespace@;
            let a = q.ns[p.ns.len() + k];
            &&& q.ns.len() == p.ns.len() + own.len()
            &&& p.ns.is_prefix_of(q.ns)
            &&& a.names == own[k].names && a.rtindex == own[k].rtindex
            &&& a.rel_visible == own[k].rel_visible && a.cols_visible == own[k].cols_visible
            &&& a.lateral_only && a.lateral_ok
        }),
{
}

/// An unqualified name is a WITH query, else a transition table, else a
/// relation; a qualified one is always a relation.
pub proof fn law_what_an_item_is(q: bool, cte: bool, enr: bool)
    ensures
        ({
            let e = parse_range::range_entry(
                FromNode::RangeVar { qualified: q, is_cte: cte, is_enr: enr },
            );
            &&& e is Cte <==> !q && cte
            &&& e is Enr <==> !q && !cte && enr
            &&& e is Relation <==> q || !cte && !enr
        }),
        parse_range::range_entry(FromNode::RangeFunction) is Function,
        parse_range::range_entry(FromNode::RangeSubselect) is Subquery,
        parse_range::range_entry(FromNode::RangeTableFunc) is TableFunc,
        parse_range::range_entry(FromNode::JsonTable) is JsonTable,
{
}

proof fn lemma_bad_arg(args: Seq<Coercible>, types: Seq<u32>, i: int)
    requires
        0 <= i <= args.len(),
        forall|j: int| 0 <= j < i ==> parse_coerce::as_type(#[trigger] args[j], types[j]) is Ok,
    ensures
        ({
            let m = parse_range::bad_arg_from(args, types, i);
            &&& i <= m <= args.len()
            &&& m < args.len() ==> parse_coerce::as_type(args[m], types[m]) is Err
            &&& forall|j: int|
                0 <= j < m ==> parse_coerce::as_type(#[trigger] args[j], types[j]) is Ok
        }),
    decreases args.len() - i,
{
    if i < args.len() && parse_coerce::as_type(args[i], types[i]) is Ok {
        lemma_bad_arg(args, types, i + 1);
    }
}

/// Whether something can be sampled: a table (`r`), a materialized view (`m`)
/// or a partitioned table (`p`).
pub open spec fn samples_well(s: SampleClause) -> bool {
    s.entry is Relation && (s.relkind == 'r' || s.relkind == 'm' || s.relkind == 'p')
}

/// A sample is accepted exactly where its relation can be sampled, its method
/// is there and is one (type 3310), each argument is of its type, and a seed,
/// where one is given, is allowed and a double precision number (701).
pub proof fn law_when_a_sample_is_accepted(s: SampleClause)
    ensures
        parse_range::sample_error(s) is None <==> {
            &&& samples_well(s)
            &&& s.handler is Ok && s.handler->Ok_0 != 0
            &&& s.rettype == Ok::<u32, i32>(3310)
            &&& s.param_types is Ok && (s.param_types->Ok_0)@.len() == s.args@.len()
            &&& forall|k: int|
                0 <= k < s.args@.len() ==> parse_coerce::as_type(
                    #[trigger] s.args@[k],
                    (s.param_types->Ok_0)@[k],
                ) is Ok
            &&& s.repeatable is Some ==> s.repeatable_across_queries && parse_coerce::as_type(
                s.repeatable->0,
                701,
            ) is Ok
        },
{
    if s.param_types is Ok && (s.param_types->Ok_0)@.len() == s.args@.len() {
        lemma_bad_arg(s.args@, (s.param_types->Ok_0)@, 0);
    }
}

/// What is wrong with a sample is reported in this order: the relation, the
/// method, its type, the number of arguments, the first bad one, the seed.
pub proof fn law_what_stops_a_sample(s: SampleClause)
    ensures
        ({
            let e = parse_range::sample_error(s);
            let method = samples_well(s) && s.handler is Ok;
            let known = method && s.handler->Ok_0 != 0 && s.rettype is Ok;
            let typed = known && s.rettype->Ok_0 == 3310 && s.param_types is Ok;
            let types = (s.param_types->Ok_0)@;
            let n = s.args@.len();
            &&& !samples_well(s) <==> e == Some(
                ParseError::SampleWrongRelkind { location: s.relation_location },
            )
            &&& samples_well(s) && s.handler is Err ==> e == Some(
                ParseError::Outside(s.handler->Err_0),
            )
            &&& method && s.handler->Ok_0 == 0 ==> e == Some(
                ParseError::SampleNoMethod { location: s.location },
            )
            &&& known && s.rettype->Ok_0 != 3310 ==> e == Some(
                ParseError::SampleWrongRettype { location: s.location },
            )
            &&& typed && types.len() != n && types.len() <= usize::MAX && n <= usize::MAX ==> (
            e matches Some(ParseError::SampleArgCount { want, got, location }) && want
                == types.len() && got == n && location == s.location)
            &&& typed && types.len() == n && (exists|k: int|
                0 <= k < n && parse_coerce::as_type(#[trigger] s.args@[k], types[k]) is Err)
                ==> exists|k: int|
                0 <= k < n && parse_coerce::as_type(#[trigger] s.args@[k], types[k]) == Err::<
                    Expr,
                    ParseError,
                >(e->0) && e is Some && forall|j: int|
                    0 <= j < k ==> parse_coerce::as_type(#[trigger] s.args@[j], types[j]) is Ok
            &&& typed && types.len() == n && (forall|k: int|
                0 <= k < n ==> parse_coerce::as_type(#[trigger] s.args@[k], types[k]) is Ok)
                && s.repeatable is Some && !s.repeatable_across_queries ==> e == Some(
                ParseError::SampleNoRepeatable { location: s.location },
            )
        }),
{
    if s.param_types is Ok && (s.param_types->Ok_0)@.len() == s.args@.len() {
        lemma_bad_arg(s.args@, (s.param_types->Ok_0)@, 0);
    }
}

/// Each argument of a sample is taken as its own type.
pub proof fn law_arguments_of_a_sample(args: Seq<Coercible>, types: Seq<u32>, k: int)
    requires
        0 <= k < args.len(),
        parse_coerce::as_type(args[k], types[k]) is Ok,
    ensures
        parse_range::typed_args(args, types).len() == args.len(),
        parse_coerce::as_type(args[k], types[k]) == Ok::<Expr, ParseError>(
            parse_range::typed_args(args, types)[k],
        ),
{
}

/// A qualified name has a dot between two parts.
pub proof fn law_dots_between_names(parts: Seq<Seq<char>>, p: Seq<char>)
    ensures
        parse_range::dotted(seq![p]) =~= p,
        parts.len() > 0 ==> {
            let t = parse_range::dotted(parts.push(p));
            let n = parse_range::dotted(parts).len() as int;
            &&& t.len() == n + 1 + p.len()
            &&& t.take(n) =~= parse_range::dotted(parts)
            &&& t[n] == '.'
            &&& t.skip(n + 1) =~= p
        },
{
    reveal_strlit(".");
    assert(parts.push(p).drop_last() =~= parts);
}

/// The columns of a subquery are the entries of its result, in order, with
/// their names and types.
pub proof fn law_columns_of_a_subquery(tl: Seq<TargetEntry>)
    ensures
        parse_range::sub_columns(tl) =~= tl.filter(|t: TargetEntry| !t.resjunk).map_values(
            |t: TargetEntry|
                SubView {
                    name: parse_window::chars(t.resname),
                    typ: t.expr.rtype,
                    typmod: t.expr.typmod,
                    collation: t.expr.collation,
                },
        ),
    decreases tl.len(),
{
    reveal(Seq::filter);
    let f = |t: TargetEntry| !t.resjunk;
    let g = |t: TargetEntry|
        SubView {
            name: parse_window::chars(t.resname),
            typ: t.expr.rtype,
            typmod: t.expr.typmod,
            collation: t.expr.collation,
        };
    if tl.len() > 0 {
        law_columns_of_a_subquery(tl.drop_last());
        let a = tl.drop_last().filter(f);
        if !tl.last().resjunk {
            assert(tl.filter(f) =~= a.push(tl.last()));
            assert(a.push(tl.last()).map_values(g) =~= a.map_values(g).push(g(tl.last())));
        }
    }
}

/// A subquery sees items to its left only where LATERAL was written; functions
/// always do. Behind an item nothing is raised.
pub proof fn law_what_an_item_may_see(f: FromFlags, lateral: bool)
    ensures
        f.raised(FlaggedItem::Subselect { lateral }).lateral_active == lateral,
        f.raised(FlaggedItem::Subselect { lateral }).in_subselect,
        f.raised(FlaggedItem::Function).lateral_active,
        f.raised(FlaggedItem::TableFunc).lateral_active,
        f.raised(FlaggedItem::Function).in_subselect == f.in_subselect,
        f.raised(FlaggedItem::TableFunc).in_subselect == f.in_subselect,
        !f.left().lateral_active && !f.left().in_subselect,
{
}

/// A set-returning function that was come across must be the whole expression.
pub proof fn law_set_functions_stand_at_the_top(last: Option<Srf>, now: Option<Srf>, expr: u64)
    ensures
        ({
            let e = parse_range::srf_refused(last, now, expr);
            let same = last is Some && now is Some && (last->0).id == (now->0).id;
            &&& e is Some <==> now is Some && !same && (now->0).id != expr
            &&& e is Some ==> e == Some(
                ParseError::SrfNotTopLevel { location: (now->0).location },
            )
        }),
{
}

/// Only a plain `unnest` of two arguments or more is taken apart.
pub proof fn law_what_is_taken_apart(f: RangeFunc)
    ensures
        parse_range_function::taken_apart(f) ==> f.is_func_call && f.nargs >= 2
            && f.funcname@.len() == 1 && f.funcname@[0]@ =~= seq!['u', 'n', 'n', 'e', 's', 't']
            && f.ncoldefs == 0,
        parse_range_function::taken_apart(f) ==> !f.agg_order && !f.agg_filter && !f.over
            && !f.agg_star && !f.agg_distinct && !f.func_variadic,
        f.is_func_call && f.nargs >= 2 && f.funcname@.len() == 1 && f.funcname@[0]@ =~= seq![
            'u',
            'n',
            'n',
            'e',
            's',
            't',
        ] && !f.agg_order && !f.agg_filter && !f.over && !f.agg_star && !f.agg_distinct
            && !f.func_variadic && f.ncoldefs == 0 ==> parse_range_function::taken_apart(f),
{
    reveal_strlit("unnest");
    assert("unnest"@ =~= seq!['u', 'n', 'n', 'e', 's', 't']);
}

/// Whether the call of an item goes through: it was transformed, and no
/// set-returning function stands below its top.
pub open spec fn replied(r: FuncReply) -> bool {
    r.transformed is Ok && parse_range::srf_refused(r.last_srf, r.srf, r.transformed->Ok_0) is None
}

/// A function's items are accepted exactly where each call is. Each item keeps
/// its function, its argument, its call and its name.
pub proof fn law_items_of_a_function(p: ItemsBuilt, replies: Seq<FuncReply>, i: usize, k: nat)
    requires
        p.err is None,
        k <= replies.len() <= usize::MAX,
        p.exprs.len() == p.items.len(),
        p.names.len() == p.items.len(),
    ensures
        ({
            let q = parse_range_function::func_replies(p, replies, i as int, k);
            &&& q.err is None <==> forall|j: int| 0 <= j < k ==> replied(#[trigger] replies[j])
            &&& q.err is None ==> q.items.len() == p.items.len() + k
            &&& q.exprs.len() == q.items.len() && q.names.len() == q.items.len()
            &&& q.err is None ==> forall|j: int|
                0 <= j < k ==> {
                    &&& q.items[p.items.len() + j].func == i
                    &&& q.items[p.items.len() + j].arg == j
                    &&& q.exprs[p.items.len() + j] == (#[trigger] replies[j]).transformed->Ok_0
                    &&& q.names[p.items.len() + j] == replies[j].figured@
                }
            &&& p.items.is_prefix_of(q.items)
            &&& p.exprs.is_prefix_of(q.exprs)
            &&& p.names.is_prefix_of(q.names)
            &&& q.err is Some ==> exists|j: int|
                0 <= j < k && !replied(#[trigger] replies[j]) && (replies[j].transformed is Err
                    ==> q.err == Some(ParseError::Outside(replies[j].transformed->Err_0))) && (
                replies[j].transformed is Ok ==> q.err == Some(
                    ParseError::SrfNotTopLevel { location: (replies[j].srf->0).location },
                )) && forall|m: int| 0 <= m < j ==> replied(#[trigger] replies[m])
        }),
    decreases k,
{
    if k > 0 {
        law_items_of_a_function(p, replies, i, (k - 1) as nat);
        let o = parse_range_function::func_replies(p, replies, i as int, (k - 1) as nat);
        let q = parse_range_function::func_replies(p, replies, i as int, k);
        if o.err is None {
            if replied(replies[k - 1]) {
                assert forall|j: int| 0 <= j < k implies {
                    &&& q.items[p.items.len() + j].func == i
                    &&& q.items[p.items.len() + j].arg == j
                    &&& q.exprs[p.items.len() + j] == (#[trigger] replies[j]).transformed->Ok_0
                    &&& q.names[p.items.len() + j] == replies[j].figured@
                } by {
                    if j < k - 1 {
                        assert(o.exprs[p.items.len() + j] == replies[j].transformed->Ok_0);
                    }
                }
            } else {
                assert(!replied(replies[k - 1]));
            }
        }
    }
}

/// Items refer to others where one of them does.
pub proof fn law_references_of_functions(
    p: ItemsBuilt,
    replies: Seq<FuncReply>,
    i: int,
    k: nat,
)
    requires
        k <= replies.len(),
        p.err is None,
        p.vars is Ok,
        parse_range_function::func_replies(p, replies, i, k).err is None,
        forall|j: int| 0 <= j < k ==> (#[trigger] replies[j]).has_vars is Ok,
    ensures
        ({
            let v = parse_range_function::func_replies(p, replies, i, k).vars;
            &&& v is Ok
            &&& v->Ok_0 <==> p.vars->Ok_0 || exists|j: int|
                0 <= j < k && (#[trigger] replies[j]).has_vars->Ok_0
        }),
    decreases k,
{
    if k > 0 {
        let o = parse_range_function::func_replies(p, replies, i, (k - 1) as nat);
        law_references_of_functions(p, replies, i, (k - 1) as nat);
        assert(replies[k - 1].has_vars is Ok);
    }
}

/// Functions come one after another. One with a list of its own columns must
/// not have another behind the whole item.
pub proof fn law_functions_one_after_another(def: RangeFunctionDef, n: nat)
    requires
        n < def.functions@.len(),
    ensures
        ({
            let p = parse_range_function::func_items(def, n);
            let q = parse_range_function::func_items(def, n + 1);
            let f = def.functions@[n as int];
            let r = parse_range_function::func_replies(p, f.replies@, n as int, f.replies@.len());
            let twice = f.ncoldefs > 0 && def.ncoldefs > 0;
            &&& p.err is Some ==> q == p
            &&& p.err is None && r.err is Some ==> q.err == r.err
            &&& p.err is None && r.err is None && twice ==> q.err == Some(
                ParseError::MultipleColdeflists { location: def.coldeflist_location },
            )
            &&& p.err is None && r.err is None && !twice ==> q == r
            &&& parse_range_function::func_items(def, 0).items.len() == 0
            &&& parse_range_function::func_items(def, 0).err is None
            &&& parse_range_function::func_items(def, 0).vars == Ok::<bool, i32>(false)
        }),
{
    reveal_with_fuel(parse_range_function::func_items, 2);
}

/// A list of columns behind the whole item needs a single function, without
/// ordinality. Then it is that function's; without one each has its own.
pub proof fn law_lists_of_columns(def: RangeFunctionDef, items: Seq<FuncItem>, k: int)
    requires
        0 <= k < items.len(),
    ensures
        ({
            let e = parse_range_function::coldeflist_refused(def, items.len());
            let location = def.coldeflist_location;
            let many = def.ncoldefs > 0 && items.len() > 1;
            &&& many && def.is_rowsfrom <==> e == Some(ParseError::RowsFromColdeflist { location })
            &&& many && !def.is_rowsfrom <==> e == Some(ParseError::UnnestColdeflist { location })
            &&& def.ncoldefs > 0 && items.len() == 1 && def.ordinality <==> e == Some(
                ParseError::OrdinalityColdeflist { location },
            )
            &&& e is None <==> def.ncoldefs == 0 || items.len() == 1 && !def.ordinality
        }),
        def.ncoldefs == 0 ==> parse_range_function::coldeflists(def, items).len() == items.len()
            && parse_range_function::coldeflists(def, items)[k] == Coldeflist::Of(items[k].func),
        def.ncoldefs > 0 ==> parse_range_function::coldeflists(def, items).len() == 1
            && parse_range_function::coldeflists(def, items)[0] == Coldeflist::Whole,
{
}

/// Functions are accepted exactly where their items are, collations could be
/// assigned, and the list of columns is in order; where LATERAL was not
/// written, references must have been looked for without an error.
pub proof fn law_when_functions_are_accepted(def: RangeFunctionDef)
    ensures
        ({
            let b = parse_range_function::func_items(def, def.functions@.len());
            let c = parse_range_function::coldeflist_refused(def, b.items.len());
            let e = parse_range_function::function_error(def);
            &&& e is None <==> b.err is None && def.collations is None && c is None && (def.lateral
                || b.vars is Ok)
            &&& b.err is Some ==> e == b.err
            &&& b.err is None && def.collations is Some ==> e == Some(
                ParseError::Outside(def.collations->0),
            )
            &&& b.err is None && def.collations is None && c is Some ==> e == c
        }),
        !parse_range_function::stays_raised(None),
{
}

/// A default is taken as the column's type where it has not that type already,
/// and must not return a set.
pub proof fn law_default_of_a_column(d: ColumnDefault, target: u32, typmod: i32)
    ensures
        ({
            let r = parse_table_func::default_coerced(d, target, typmod);
            let n = d.transformed->Ok_0;
            let as_is = n.rtype == target && typmod == -1;
            &&& d.transformed is Err ==> r == Err::<Expr, ParseError>(
                ParseError::Outside(d.transformed->Err_0),
            )
            &&& d.transformed is Ok && as_is && !n.returns_set ==> r == Ok::<Expr, ParseError>(n)
            &&& d.transformed is Ok && !as_is && d.coerced is Err ==> r == Err::<Expr, ParseError>(
                ParseError::Outside(d.coerced->Err_0),
            )
            &&& d.transformed is Ok && !as_is && d.coerced == Ok::<Option<Expr>, i32>(None) ==> r
                == Err::<Expr, ParseError>(
                ParseError::ArgumentTypeMismatch { target, input: n.rtype, location: n.location },
            )
            &&& d.transformed is Ok && !as_is && (d.coerced matches Ok(Some(x)) && !x.returns_set)
                ==> r == Ok::<Expr, ParseError>((d.coerced->Ok_0)->0)
            &&& r is Ok ==> !(r->Ok_0).returns_set
            &&& d.transformed is Ok && as_is && n.returns_set ==> r == Err::<Expr, ParseError>(
                ParseError::ArgumentReturnsSet { location: n.location },
            )
        }),
{
}

/// A FOR ORDINALITY column is an integer (type 23), and there is one at most;
/// any other column has the type that was written, and is no set.
pub proof fn law_type_of_a_column(c: TableFuncCol, at: int)
    ensures
        ({
            let r = parse_table_func::column_type(c, at);
            &&& c.for_ordinality && at == -1 ==> r == Ok::<(u32, i32), ParseError>((23, -1i32))
            &&& c.for_ordinality && at != -1 ==> r == Err::<(u32, i32), ParseError>(
                ParseError::MultipleOrdinality { location: c.location },
            )
            &&& !c.for_ordinality && c.setof ==> r == Err::<(u32, i32), ParseError>(
                ParseError::ColumnSetof { location: c.location },
            )
            &&& !c.for_ordinality && !c.setof ==> (r is Ok <==> c.typ is Ok)
            &&& !c.for_ordinality && !c.setof && c.typ is Ok ==> r->Ok_0 == c.typ->Ok_0
        }),
{
}

/// A column that is accepted has its own type, collation and nullability, its
/// path as text (type 25), its default as its type, and a name of its own.
pub proof fn law_column_of_a_table_function(cols: Seq<TableFuncCol>, n: nat)
    requires
        n < cols.len(),
        parse_table_func::table_columns(cols, n).err is None,
    ensures
        ({
            let p = parse_table_func::table_columns(cols, n);
            let q = parse_table_func::table_columns(cols, n + 1);
            let c = cols[n as int];
            let t = parse_table_func::column_type(c, p.ordinalitycol);
            let path = c.colexpr is Some;
            let pe = parse_coerce::as_type(c.colexpr->0, 25);
            let de = parse_table_func::default_coerced(c.default->0, (t->Ok_0).0, (t->Ok_0).1);
            let taken = exists|j: int| 0 <= j < n && (#[trigger] cols[j]).name@ == c.name@;
            &&& q.err is None <==> t is Ok && c.collation is Ok && (path ==> pe is Ok) && (
            c.default is Some ==> de is Ok && (c.default->0).collate_error is None) && !taken
            &&& q.err is None ==> {
                &&& q.columns.len() == p.columns.len() + 1 && p.columns.is_prefix_of(q.columns)
                &&& q.columns.last().typ == (t->Ok_0).0
                &&& q.columns.last().typmod == (t->Ok_0).1
                &&& q.columns.last().collation == c.collation->Ok_0
                &&& q.columns.last().not_null == c.is_not_null
                &&& q.colexprs.last() == if path {
                    Some(pe->Ok_0)
                } else {
                    None
                }
                &&& q.defaults.last() == if c.default is Some {
                    Some(de->Ok_0)
                } else {
                    None
                }
                &&& p.colexprs.is_prefix_of(q.colexprs) && p.defaults.is_prefix_of(q.defaults)
                &&& q.ordinalitycol == if c.for_ordinality {
                    n as int
                } else {
                    p.ordinalitycol
                }
            }
            &&& t is Err ==> q.err == Some(t->Err_0)
            &&& t is Ok && c.collation is Ok && (path ==> pe is Ok) && (c.default is Some
                ==> de is Ok && (c.default->0).collate_error is None) && taken ==> q.err == Some(
                ParseError::ColumnNotUnique { location: c.location },
            )
        }),
{
    let c = cols[n as int];
    if exists|j: int| 0 <= j < n && (#[trigger] cols[j]).name@ == c.name@ {
        let j = choose|j: int| 0 <= j < n && (#[trigger] cols[j]).name@ == c.name@;
        assert(cols[j].name@ == cols[n as int].name@);
        assert(parse_table_func::named_before(cols, n as int));
    }
    if parse_table_func::named_before(cols, n as int) {
        let j = choose|j: int| 0 <= j < n && #[trigger] cols[j].name@ == cols[n as int].name@;
        assert(cols[j].name@ == c.name@);
    }
}

/// The name of a namespace, where it is not the default one.
pub open spec fn space_name(n: TableFuncNamespace) -> Option<Seq<char>> {
    match n.name {
        Some(s) => Some(s@),
        None => None,
    }
}

/// A namespace is refused where its URI is no text (type 25), or an earlier
/// one has its name, or is the default one too.
pub proof fn law_namespace_is_refused(ns: Seq<TableFuncNamespace>, k: int)
    requires
        0 <= k < ns.len(),
    ensures
        ({
            let e = parse_table_func::namespace_refused(ns, k);
            let u = parse_coerce::as_type(ns[k].uri, 25);
            let taken = exists|j: int| 0 <= j < k && space_name(#[trigger] ns[j]) == space_name(ns[k]);
            &&& u is Err ==> e == Some(u->Err_0)
            &&& u is Ok && taken && ns[k].name is Some ==> e == Some(
                ParseError::NamespaceNotUnique { location: ns[k].location },
            )
            &&& u is Ok && taken && ns[k].name is None ==> e == Some(
                ParseError::MultipleDefaultNamespaces { location: ns[k].location },
            )
            &&& u is Ok && !taken ==> e is None
        }),
{
    assert forall|j: int| 0 <= j < k implies parse_table_func::same_namespace(
        #[trigger] ns[j],
        ns[k],
    ) == (space_name(ns[j]) == space_name(ns[k])) by {}
    if exists|j: int| 0 <= j < k && space_name(#[trigger] ns[j]) == space_name(ns[k]) {
        let j = choose|j: int| 0 <= j < k && space_name(#[trigger] ns[j]) == space_name(ns[k]);
        assert(parse_table_func::same_namespace(ns[j], ns[k]));
    }
}

proof fn lemma_refused(ns: Seq<TableFuncNamespace>, k: int)
    requires
        0 <= k <= ns.len(),
        forall|j: int|
            0 <= j < k ==> #[trigger] parse_table_func::namespace_refused(ns, j) is None,
    ensures
        ({
            let m = parse_table_func::refused_from(ns, k);
            &&& k <= m <= ns.len()
            &&& m < ns.len() ==> parse_table_func::namespace_refused(ns, m) is Some
            &&& forall|j: int|
                0 <= j < m ==> #[trigger] parse_table_func::namespace_refused(ns, j) is None
        }),
    decreases ns.len() - k,
{
    if k < ns.len() && parse_table_func::namespace_refused(ns, k) is None {
        lemma_refused(ns, k + 1);
    }
}

/// XMLTABLE is accepted exactly where its row expression is a text (25), its
/// document is XML (142), its columns and its namespaces are in order, and
/// references, unless LATERAL was written, were looked for without an error.
pub proof fn law_when_a_table_function_is_accepted(t: RangeTableFunc)
    ensures
        ({
            let e = parse_table_func::table_func_error(t);
            let row = parse_coerce::as_type(t.rowexpr, 25);
            let doc = parse_coerce::as_type(t.docexpr, 142);
            let b = parse_table_func::table_columns(t.columns@, t.columns@.len());
            let spaces = forall|k: int|
                0 <= k < t.namespaces@.len() ==> #[trigger] parse_table_func::namespace_refused(
                    t.namespaces@,
                    k,
                ) is None;
            &&& e is None <==> row is Ok && doc is Ok && b.err is None && spaces && (t.lateral
                || t.has_vars is Ok)
            &&& row is Err ==> e == Some(row->Err_0)
            &&& row is Ok && doc is Err ==> e == Some(doc->Err_0)
            &&& row is Ok && doc is Ok && b.err is Some ==> e == b.err
            &&& row is Ok && doc is Ok && b.err is None && !spaces ==> exists|k: int|
                0 <= k < t.namespaces@.len() && e
                    == #[trigger] parse_table_func::namespace_refused(t.namespaces@, k) && e is Some
                    && forall|j: int|
                    0 <= j < k ==> #[trigger] parse_table_func::namespace_refused(
                        t.namespaces@,
                        j,
                    ) is None
        }),
{
    lemma_refused(t.namespaces@, 0);
}

/// XMLTABLE keeps the names of its columns and namespaces, takes each URI as
/// text (25), and is lateral where that was written or it refers to others.
pub proof fn law_table_function_keeps_its_parts(
    rtf: RangeTableFunc,
    t: parse_table_func::TableFunc,
    i: int,
    k: int,
)
    requires
        parse_table_func::is_table_func(rtf, t),
    ensures
        t.colnames@.len() == rtf.columns@.len(),
        0 <= i < rtf.columns@.len() ==> t.colnames@[i]@ == rtf.columns@[i].name@,
        t.ns_names@.len() == rtf.namespaces@.len() && t.ns_uris@.len() == rtf.namespaces@.len(),
        0 <= k < rtf.namespaces@.len() ==> parse_window::chars(t.ns_names@[k]) == space_name(
            rtf.namespaces@[k],
        ),
        0 <= k < rtf.namespaces@.len() && parse_coerce::as_type(rtf.namespaces@[k].uri, 25) is Ok
            ==> parse_coerce::as_type(rtf.namespaces@[k].uri, 25) == Ok::<Expr, ParseError>(
            t.ns_uris@[k],
        ),
        parse_coerce::as_type(rtf.rowexpr, 25) == Ok::<Expr, ParseError>(t.rowexpr),
        parse_coerce::as_type(rtf.docexpr, 142) == Ok::<Expr, ParseError>(t.docexpr),
        rtf.lateral ==> t.is_lateral,
        rtf.has_vars is Ok && !rtf.lateral ==> t.is_lateral == rtf.has_vars->Ok_0,
        t.location == rtf.location,
{
    let names = t.colnames@.map_values(|s: String| s@);
    let cols = parse_table_func::col_names(rtf.columns@);
    assert(names.len() == cols.len());
    if 0 <= i < rtf.columns@.len() {
        assert(names[i] == cols[i]);
    }
    let a = t.ns_names@.map_values(|s: Option<String>| parse_window::chars(s));
    let b = parse_table_func::space_names(rtf.namespaces@);
    assert(a.len() == b.len());
    if 0 <= k < rtf.namespaces@.len() {
        assert(a[k] == b[k]);
    }
}

/// Errors about the method of a sample name it; no other error does.
pub proof fn law_errors_that_name_the_method(e: ParseError)
    ensures
        parse_range::names_method(e) <==> e is SampleNoMethod || e is SampleWrongRettype
            || e is SampleArgCount || e is SampleNoRepeatable,
{
}

/// An error about a column of XMLTABLE names the first column that was not
/// accepted; one about a namespace names that.
pub proof fn law_errors_that_name_a_part(t: RangeTableFunc, location: i32, n: nat)
    requires
        n < t.columns@.len(),
        parse_table_func::table_columns(t.columns@, n).err is None,
        parse_table_func::table_columns(t.columns@, n + 1).err is Some,
    ensures
        parse_table_func::named_part(t, ParseError::ColumnSetof { location }) == Some(
            t.columns@[n as int].name@,
        ),
        parse_table_func::named_part(t, ParseError::ColumnNotUnique { location }) == Some(
            t.columns@[n as int].name@,
        ),
        parse_table_func::named_part(t, ParseError::MultipleOrdinality { location }) is None,
{
    parse_table_func::law_accepted_columns(t.columns@, n);
    lemma_stays(t.columns@, n + 1, t.columns@.len());
}

proof fn lemma_stays(cols: Seq<TableFuncCol>, m: nat, n: nat)
    requires
        m <= n,
        parse_table_func::table_columns(cols, m).err is Some,
    ensures
        parse_table_func::table_columns(cols, n) == parse_table_func::table_columns(cols, m),
    decreases n,
{
    if m < n {
        lemma_stays(cols, m, (n - 1) as nat);
    }
}

} // verus!
