//! The items of FROM: relations, samples, subqueries and functions.
use vstd::prelude::*;
use crate::parse_coerce;
use crate::parse_coerce::{coerce_to_specific_type, Coercible};
use crate::parse_from;
use crate::parse_from::{setNamespaceLateralState, JoinTree, NsItem};
use crate::parse_nodes::{Expr, NamedError, ParseError, TargetEntry, FLOAT8OID};
use crate::parse_window;

verus! {

/// An item of FROM that was transformed.
pub struct FromItem {
    pub tree: JoinTree,
    pub namespace: Vec<NsItem>,
    /// Its names clash with those visible before (the error's number).
    pub conflict: Option<i32>,
}

/// The visible names, how many items were joined, and the error that stopped
/// the work.
pub ghost struct FromBuilt {
    pub ns: Seq<NsItem>,
    pub trees: Seq<JoinTree>,
    pub err: Option<ParseError>,
}

/// The first `n` items of FROM: each is visible to those after it through
/// LATERAL only.
pub open spec fn from_items(
    ns: Seq<NsItem>,
    trees: Seq<JoinTree>,
    items: Seq<Result<FromItem, i32>>,
    n: nat,
) -> FromBuilt
    decreases n,
{
    if n == 0 {
        FromBuilt { ns, trees, err: None }
    } else {
        let p = from_items(ns, trees, items, (n - 1) as nat);
        if p.err is Some {
            p
        } else {
            match items[n - 1] {
                Err(e) => FromBuilt { err: Some(ParseError::Outside(e)), ..p },
                Ok(item) => match item.conflict {
                    Some(e) => FromBuilt { err: Some(ParseError::Outside(e)), ..p },
                    None => FromBuilt {
                        ns: p.ns + parse_from::with_lateral(item.namespace@, true, true),
                        trees: p.trees.push(item.tree),
                        err: None,
                    },
                },
            }
        }
    }
}

proof fn lemma_from_items_stop(
    ns: Seq<NsItem>,
    trees: Seq<JoinTree>,
    items: Seq<Result<FromItem, i32>>,
    m: nat,
    n: nat,
)
    requires
        m <= n,
        from_items(ns, trees, items, m).err is Some,
    ensures
        from_items(ns, trees, items, n) == from_items(ns, trees, items, m),
    decreases n,
{
    if m < n {
        lemma_from_items_stop(ns, trees, items, m, (n - 1) as nat);
    }
}

/// Joins the items of FROM, in order; afterwards all of their names are visible.
pub fn transformFromClause(
    namespace: &mut Vec<NsItem>,
    joinlist: &mut Vec<JoinTree>,
    frm_list: Vec<Result<FromItem, i32>>,
) -> (r: Result<(), ParseError>)
    ensures
        ({
            let b = from_items(old(namespace)@, old(joinlist)@, frm_list@, frm_list@.len());
            final(joinlist)@ == b.trees && match r {
                Ok(_) => b.err is None && final(namespace)@ == parse_from::with_lateral(
                    b.ns,
                    false,
                    true,
                ),
                Err(e) => b.err == Some(e) && final(namespace)@ == b.ns,
            }
        }),
{
    let ghost ns0 = namespace@;
    let ghost t0 = joinlist@;
    let ghost items = frm_list@;
    let mut rest: Vec<Result<FromItem, i32>> = frm_list;
    let ghost mut i: int = 0;
    assert(items.skip(0) =~= items);
    while rest.len() > 0
        invariant
            0 <= i <= items.len(),
            items == frm_list@,
            ns0 == old(namespace)@,
            t0 == old(joinlist)@,
            rest@ == items.skip(i),
            from_items(ns0, t0, items, i as nat) == (FromBuilt {
                ns: namespace@,
                trees: joinlist@,
                err: None,
            }),
        decreases rest@.len(),
    {
        let item: Result<FromItem, i32> = rest.remove(0);
        proof {
            assert(item == items[i]);
            assert(items.skip(i + 1) =~= rest@);
        }
        match item {
            Err(e) => {
                proof {
                    lemma_from_items_stop(ns0, t0, items, (i + 1) as nat, items.len());
                }
                return Err(ParseError::Outside(e));
            },
            Ok(item) => {
                if let Some(e) = item.conflict {
                    proof {
                        lemma_from_items_stop(ns0, t0, items, (i + 1) as nat, items.len());
                    }
                    return Err(ParseError::Outside(e));
                }
                let FromItem { tree, namespace: mut names, conflict: _ } = item;
                setNamespaceLateralState(&mut names, true, true);
                joinlist.push(tree);
                namespace.append(&mut names);
            },
        }
        proof {
            i = i + 1;
        }
    }
    setNamespaceLateralState(namespace, false, true);
    Ok(())
}

/// After FROM, no name is visible to LATERAL only.
pub proof fn law_from_shows_everything(ns: Seq<NsItem>, k: int)
    requires
        0 <= k < ns.len(),
    ensures
        !parse_from::with_lateral(ns, false, true)[k].lateral_only,
        parse_from::with_lateral(ns, false, true)[k].lateral_ok,
        parse_from::with_lateral(ns, false, true)[k].rtindex == ns[k].rtindex,
{
}

/// What is written as an item of FROM.
#[derive(Clone, Copy, Debug, PartialEq, Eq, Structural)]
pub enum FromNode {
    /// A name; unqualified ones may name a WITH query or a transition table.
    RangeVar { qualified: bool, is_cte: bool, is_enr: bool },
    RangeFunction,
    RangeSubselect,
    RangeTableFunc,
    JsonTable,
}

/// What an item of FROM is entered in the range table as.
#[derive(Clone, Copy, Debug, PartialEq, Eq, Structural)]
pub enum RangeEntry {
    Cte,
    Enr,
    Relation,
    Function,
    Subquery,
    TableFunc,
    JsonTable,
}

/// What an item of FROM is entered as: an unqualified name is looked for among
/// the WITH queries, then among the transition tables.
pub open spec fn range_entry(n: FromNode) -> RangeEntry {
    match n {
        FromNode::RangeVar { qualified, is_cte, is_enr } => if !qualified && is_cte {
            RangeEntry::Cte
        } else if !qualified && is_enr {
            RangeEntry::Enr
        } else {
            RangeEntry::Relation
        },
        FromNode::RangeFunction => RangeEntry::Function,
        FromNode::RangeSubselect => RangeEntry::Subquery,
        FromNode::RangeTableFunc => RangeEntry::TableFunc,
        FromNode::JsonTable => RangeEntry::JsonTable,
    }
}

/// What an item of FROM is entered in the range table as.
pub fn transformFromClauseItem(n: FromNode) -> (r: RangeEntry)
    ensures
        r == range_entry(n),
{
    match n {
        FromNode::RangeVar { qualified, is_cte, is_enr } => {
            if !qualified {
                if is_cte {
                    return RangeEntry::Cte;
                }
                if is_enr {
                    return RangeEntry::Enr;
                }
            }
            RangeEntry::Relation
        },
        FromNode::RangeFunction => RangeEntry::Function,
        FromNode::RangeSubselect => RangeEntry::Subquery,
        FromNode::RangeTableFunc => RangeEntry::TableFunc,
        FromNode::JsonTable => RangeEntry::JsonTable,
    }
}

/// The type that the handler of a sampling method returns.
pub const TSM_HANDLEROID: u32 = 3310;

/// Whether an entry of the range table can be sampled: plain tables,
/// materialized views and partitioned tables can.
pub fn can_be_sampled(entry: RangeEntry, relkind: char) -> (r: bool)
    ensures
        r == (entry == RangeEntry::Relation && (relkind == 'r' || relkind == 'm' || relkind
            == 'p')),
{
    entry == RangeEntry::Relation && (relkind == 'r' || relkind == 'm' || relkind == 'p')
}

/// What is known of a TABLESAMPLE clause (errors by their numbers).
pub struct SampleClause {
    pub entry: RangeEntry,
    pub relkind: char,
    pub relation_location: i32,
    pub location: i32,
    /// The method's handler, 0 where there is none.
    pub handler: Result<u32, i32>,
    pub rettype: Result<u32, i32>,
    /// The types of the arguments that the method takes (an error where it
    /// cannot be had).
    pub param_types: Result<Vec<u32>, i32>,
    pub args: Vec<Coercible>,
    pub repeatable_across_queries: bool,
    /// The seed of REPEATABLE, where that is given.
    pub repeatable: Option<Coercible>,
    /// The name of the method.
    pub method: Vec<String>,
}

/// A TABLESAMPLE clause, transformed.
pub struct TableSampleClause {
    pub tsmhandler: u32,
    pub args: Vec<Expr>,
    pub repeatable: Option<Expr>,
}

/// The first argument from `i` on that is not of the type that is asked for.
pub open spec fn bad_arg_from(args: Seq<Coercible>, types: Seq<u32>, i: int) -> int
    decreases args.len() - i,
{
    if i < 0 || i >= args.len() {
        args.len() as int
    } else if parse_coerce::as_type(args[i], types[i]) is Err {
        i
    } else {
        bad_arg_from(args, types, i + 1)
    }
}

/// The arguments as the types that are asked for.
pub open spec fn typed_args(args: Seq<Coercible>, types: Seq<u32>) -> Seq<Expr> {
    Seq::new(args.len(), |i: int| parse_coerce::as_type(args[i], types[i])->Ok_0)
}

/// What is wrong with a TABLESAMPLE clause.
pub open spec fn sample_error(s: SampleClause) -> Option<ParseError> {
    if !(s.entry == RangeEntry::Relation && (s.relkind == 'r' || s.relkind == 'm' || s.relkind
        == 'p')) {
        Some(ParseError::SampleWrongRelkind { location: s.relation_location })
    } else {
        match (s.handler, s.rettype, s.param_types) {
            (Err(e), _, _) => Some(ParseError::Outside(e)),
            (Ok(handler), rettype, param_types) => if handler == 0 {
                Some(ParseError::SampleNoMethod { location: s.location })
            } else {
                match (rettype, param_types) {
                    (Err(e), _) => Some(ParseError::Outside(e)),
                    (Ok(t), types) => if t != TSM_HANDLEROID {
                        Some(ParseError::SampleWrongRettype { location: s.location })
                    } else {
                        match types {
                            Err(e) => Some(ParseError::Outside(e)),
                            Ok(types) => sample_args_error(s, types@),
                        }
                    },
                }
            },
        }
    }
}

/// What is wrong with the arguments of a TABLESAMPLE clause.
pub open spec fn sample_args_error(s: SampleClause, types: Seq<u32>) -> Option<ParseError> {
    let bad = bad_arg_from(s.args@, types, 0);
    if s.args@.len() != types.len() {
        Some(
            ParseError::SampleArgCount {
                want: types.len() as usize,
                got: s.args@.len() as usize,
                location: s.location,
            },
        )
    } else if bad < s.args@.len() {
        Some(parse_coerce::as_type(s.args@[bad], types[bad])->Err_0)
    } else {
        match s.repeatable {
            None => None,
            Some(seed) => if !s.repeatable_across_queries {
                Some(ParseError::SampleNoRepeatable { location: s.location })
            } else {
                match parse_coerce::as_type(seed, FLOAT8OID) {
                    Err(e) => Some(e),
                    Ok(_) => None,
                }
            },
        }
    }
}

/// Whether an error about TABLESAMPLE names the method.
pub open spec fn names_method(e: ParseError) -> bool {
    e is SampleNoMethod || e is SampleWrongRettype || e is SampleArgCount || e is SampleNoRepeatable
}

fn sample_fault(s: &SampleClause, error: ParseError) -> (r: NamedError)
    ensures
        r.error == error,
        r.name is Some <==> names_method(error),
        r.name matches Some(n) ==> n@ == dotted(
            Seq::new(s.method@.len(), |i: int| s.method@[i]@),
        ),
{
    let name: Option<String> = match error {
        ParseError::SampleNoMethod { .. } | ParseError::SampleWrongRettype { .. }
        | ParseError::SampleArgCount { .. } | ParseError::SampleNoRepeatable { .. } => Some(
            name_list_to_string(&s.method),
        ),
        _ => None,
    };
    NamedError { error, name }
}

fn sample_args(s: &SampleClause, types: &Vec<u32>) -> (r: Result<Vec<Expr>, ParseError>)
    requires
        s.args@.len() == types@.len(),
    ensures
        ({
            let bad = bad_arg_from(s.args@, types@, 0);
            match r {
                Ok(v) => bad >= s.args@.len() && v@ == typed_args(s.args@, types@),
                Err(e) => bad < s.args@.len() && parse_coerce::as_type(s.args@[bad], types@[bad])
                    == Err::<Expr, ParseError>(e),
            }
        }),
{
    let mut out: Vec<Expr> = Vec::new();
    let mut i: usize = 0;
    while i < s.args.len()
        invariant
            i <= s.args@.len(),
            s.args@.len() == types@.len(),
            out@.len() == i,
            bad_arg_from(s.args@, types@, 0) == bad_arg_from(s.args@, types@, i as int),
            forall|k: int|
                0 <= k < i ==> #[trigger] out@[k] == typed_args(s.args@, types@)[k],
        decreases s.args@.len() - i,
    {
        match coerce_to_specific_type(&s.args[i], types[i]) {
            Err(e) => {
                return Err(e);
            },
            Ok(x) => {
                out.push(x);
            },
        }
        i = i + 1;
    }
    assert(out@ =~= typed_args(s.args@, types@));
    Ok(out)
}

/// Transforms a TABLESAMPLE clause: its arguments are of the types that the
/// method takes, and the seed of REPEATABLE is a double precision number.
pub fn transformRangeTableSample(s: &SampleClause) -> (r: Result<TableSampleClause, NamedError>)
    ensures
        match r {
            Ok(c) => {
                &&& sample_error(*s) is None
                &&& s.handler == Ok::<u32, i32>(c.tsmhandler)
                &&& c.args@ == typed_args(s.args@, (s.param_types->Ok_0)@)
                &&& c.repeatable == match s.repeatable {
                    None => None,
                    Some(seed) => Some(parse_coerce::as_type(seed, FLOAT8OID)->Ok_0),
                }
            },
            Err(e) => {
                &&& sample_error(*s) == Some(e.error)
                &&& e.name is Some <==> names_method(e.error)
                &&& e.name matches Some(n) ==> n@ == dotted(
                    Seq::new(s.method@.len(), |i: int| s.method@[i]@),
                )
            },
        },
{
    if !can_be_sampled(s.entry, s.relkind) {
        return Err(
            sample_fault(s, ParseError::SampleWrongRelkind { location: s.relation_location }),
        );
    }
    let tsmhandler: u32 = match s.handler {
        Err(e) => {
            return Err(sample_fault(s, ParseError::Outside(e)));
        },
        Ok(h) => h,
    };
    if tsmhandler == 0 {
        return Err(sample_fault(s, ParseError::SampleNoMethod { location: s.location }));
    }
    match s.rettype {
        Err(e) => {
            return Err(sample_fault(s, ParseError::Outside(e)));
        },
        Ok(t) => {
            if t != TSM_HANDLEROID {
                return Err(
                    sample_fault(s, ParseError::SampleWrongRettype { location: s.location }),
                );
            }
        },
    }
    let types: &Vec<u32> = match &s.param_types {
        Err(e) => {
            return Err(sample_fault(s, ParseError::Outside(*e)));
        },
        Ok(v) => v,
    };
    if s.args.len() != types.len() {
        return Err(
            sample_fault(
                s,
                ParseError::SampleArgCount {
                    want: types.len(),
                    got: s.args.len(),
                    location: s.location,
                },
            ),
        );
    }
    let args: Vec<Expr> = match sample_args(s, types) {
        Err(e) => {
            return Err(sample_fault(s, e));
        },
        Ok(v) => v,
    };
    let repeatable: Option<Expr> = match &s.repeatable {
        None => None,
        Some(seed) => {
            if !s.repeatable_across_queries {
                return Err(
                    sample_fault(s, ParseError::SampleNoRepeatable { location: s.location }),
                );
            }
            match coerce_to_specific_type(seed, FLOAT8OID) {
                Err(e) => {
                    return Err(sample_fault(s, e));
                },
                Ok(x) => Some(x),
            }
        },
    };
    Ok(TableSampleClause { tsmhandler, args, repeatable })
}

/// The names, with a dot between two.
pub open spec fn dotted(parts: Seq<Seq<char>>) -> Seq<char>
    decreases parts.len(),
{
    if parts.len() == 0 {
        Seq::empty()
    } else if parts.len() == 1 {
        parts[0]
    } else {
        dotted(parts.drop_last()) + "."@ + parts.last()
    }
}

/// A qualified name as text.
pub fn name_list_to_string(parts: &Vec<String>) -> (r: String)
    ensures
        r@ == dotted(Seq::new(parts@.len(), |i: int| parts@[i]@)),
{
    let ghost ps = Seq::new(parts@.len(), |i: int| parts@[i]@);
    let mut out: String = String::from_str("");
    proof {
        reveal_strlit("");
        assert(out@ =~= Seq::empty());
        assert(ps.take(0) =~= Seq::empty());
    }
    let mut i: usize = 0;
    while i < parts.len()
        invariant
            i <= parts@.len(),
            ps == Seq::new(parts@.len(), |i: int| parts@[i]@),
            out@ == dotted(ps.take(i as int)),
        decreases parts@.len() - i,
    {
        if i > 0 {
            out.append(".");
        }
        out.append(parts[i].as_str());
        proof {
            assert(ps.take(i + 1).drop_last() =~= ps.take(i as int));
            if i == 0 {
                assert(out@ =~= ps[0]);
            }
        }
        i = i + 1;
    }
    assert(ps.take(i as int) =~= ps);
    out
}

/// A column of a subquery in FROM.
pub struct SubColumn {
    pub name: Option<String>,
    pub typ: u32,
    pub typmod: i32,
    pub collation: u32,
}

/// A column of a subquery in FROM, with its name as characters.
pub ghost struct SubView {
    pub name: Option<Seq<char>>,
    pub typ: u32,
    pub typmod: i32,
    pub collation: u32,
}

impl View for SubColumn {
    type V = SubView;

    open spec fn view(&self) -> SubView {
        SubView {
            name: parse_window::chars(self.name),
            typ: self.typ,
            typmod: self.typmod,
            collation: self.collation,
        }
    }
}

/// The columns of a subquery: the entries that are part of its result.
pub open spec fn sub_columns(tl: Seq<TargetEntry>) -> Seq<SubView>
    decreases tl.len(),
{
    if tl.len() == 0 {
        Seq::empty()
    } else if tl.last().resjunk {
        sub_columns(tl.drop_last())
    } else {
        sub_columns(tl.drop_last()).push(
            SubView {
                name: parse_window::chars(tl.last().resname),
                typ: tl.last().expr.rtype,
                typmod: tl.last().expr.typmod,
                collation: tl.last().expr.collation,
            },
        )
    }
}

/// What the parser keeps about the FROM item that is being transformed.
#[derive(Clone, Copy, Debug, PartialEq, Eq, Structural)]
pub struct FromFlags {
    /// Items to the left may be referred to.
    pub lateral_active: bool,
    /// A subquery of FROM is being transformed.
    pub in_subselect: bool,
}

/// An item of FROM whose parts are transformed with flags raised.
#[derive(Clone, Copy, Debug, PartialEq, Eq, Structural)]
pub enum FlaggedItem {
    Subselect { lateral: bool },
    Function,
    TableFunc,
}

impl FromFlags {
    /// The flags while the parts of an item are transformed: functions may
    /// refer to items to the left in any case, subqueries only where that was
    /// written.
    pub open spec fn raised(self, item: FlaggedItem) -> FromFlags {
        match item {
            FlaggedItem::Subselect { lateral } => FromFlags {
                lateral_active: lateral,
                in_subselect: true,
            },
            _ => FromFlags { lateral_active: true, ..self },
        }
    }

    /// The flags behind an item.
    pub open spec fn left(self) -> FromFlags {
        FromFlags { lateral_active: false, in_subselect: false }
    }

    /// Raises the flags for an item; then its parts are transformed.
    pub fn enter(&mut self, item: FlaggedItem)
        ensures
            *final(self) == old(self).raised(item),
    {
        match item {
            FlaggedItem::Subselect { lateral } => {
                self.lateral_active = lateral;
                self.in_subselect = true;
            },
            _ => {
                self.lateral_active = true;
            },
        }
    }

    /// Lowers the flags.
    pub fn leave(&mut self)
        ensures
            *final(self) == old(self).left(),
    {
        self.lateral_active = false;
        self.in_subselect = false;
    }
}

/// A subquery, analyzed.
pub struct SubQuery {
    pub is_select: bool,
    pub target_list: Vec<TargetEntry>,
}

/// What is raised for an item is lowered behind it.
pub proof fn law_flags_are_lowered(f: FromFlags, item: FlaggedItem)
    requires
        !f.lateral_active,
        !f.in_subselect,
    ensures
        f.raised(item).left() == f,
{
}

/// The columns that a subquery in FROM has; only SELECT can stand there.
pub fn transformRangeSubselect(query: &Result<SubQuery, i32>, flags: &mut FromFlags) -> (r: Result<
    Vec<SubColumn>,
    ParseError,
>)
    ensures
        *final(flags) == (if query is Ok {
            old(flags).left()
        } else {
            *old(flags)
        }),
        match (*query, r) {
            (Ok(q), Ok(cols)) => q.is_select && Seq::new(cols@.len(), |i: int| cols@[i]@)
                == sub_columns(q.target_list@),
            (Ok(q), Err(e)) => !q.is_select && e == ParseError::NonSelectSubquery,
            (Err(n), Err(e)) => e == ParseError::Outside(n),
            (Err(_), Ok(_)) => false,
        },
{
    let query: &SubQuery = match query {
        Err(e) => {
            return Err(ParseError::Outside(*e));
        },
        Ok(q) => q,
    };
    flags.leave();
    let target_list: &Vec<TargetEntry> = &query.target_list;
    if !query.is_select {
        return Err(ParseError::NonSelectSubquery);
    }
    let mut cols: Vec<SubColumn> = Vec::new();
    let mut i: usize = 0;
    proof {
        assert(target_list@.take(0) =~= Seq::empty());
        assert(Seq::new(cols@.len(), |i: int| cols@[i]@) =~= Seq::empty());
    }
    while i < target_list.len()
        invariant
            i <= target_list@.len(),
            Seq::new(cols@.len(), |i: int| cols@[i]@) == sub_columns(target_list@.take(i as int)),
        decreases target_list@.len() - i,
    {
        let ghost before = Seq::new(cols@.len(), |i: int| cols@[i]@);
        assert(target_list@.take(i + 1).drop_last() =~= target_list@.take(i as int));
        if !target_list[i].resjunk {
            let name: Option<String> = match &target_list[i].resname {
                Some(n) => Some(n.clone()),
                None => None,
            };
            let col: SubColumn = SubColumn {
                name,
                typ: target_list[i].expr.rtype,
                typmod: target_list[i].expr.typmod,
                collation: target_list[i].expr.collation,
            };
            let ghost v = col@;
            cols.push(col);
            assert(Seq::new(cols@.len(), |i: int| cols@[i]@) =~= before.push(v));
        }
        i = i + 1;
    }
    assert(target_list@.take(i as int) =~= target_list@);
    Ok(cols)
}

/// A set-returning function that transforming came across.
#[derive(Clone, Copy, Debug, PartialEq, Eq, Structural)]
pub struct Srf {
    pub id: u64,
    pub location: i32,
}

/// Whether a set-returning function that was come across stands at top level:
/// it must be the expression itself.
pub open spec fn srf_refused(last: Option<Srf>, now: Option<Srf>, expr: u64) -> Option<ParseError> {
    match now {
        None => None,
        Some(n) => {
            let moved = match last {
                Some(l) => l.id != n.id,
                None => true,
            };
            if moved && n.id != expr {
                Some(ParseError::SrfNotTopLevel { location: n.location })
            } else {
                None
            }
        },
    }
}

/// Refuses a set-returning function that is not at top level of FROM.
pub fn check_srf_top_level(last_srf: Option<Srf>, now: Option<Srf>, newfexpr: u64) -> (r: Result<
    (),
    ParseError,
>)
    requires
        now is None ==> last_srf is None,
    ensures
        r == match srf_refused(last_srf, now, newfexpr) {
            Some(e) => Err::<(), ParseError>(e),
            None => Ok::<(), ParseError>(()),
        },
{
    match now {
        None => Ok(()),
        Some(n) => {
            let moved: bool = match last_srf {
                Some(l) => l.id != n.id,
                None => true,
            };
            if moved && n.id != newfexpr {
                return Err(ParseError::SrfNotTopLevel { location: n.location });
            }
            Ok(())
        },
    }
}

} // verus!
