//! Clauses of statements: the target table, WHERE, LIMIT, index and statistics
//! expressions, and ON CONFLICT.
use vstd::prelude::*;
use crate::parse_from;
use crate::parse_coerce;
use crate::parse_coerce::{coerce_to_specific_type, Coercible};
use crate::parse_nodes::{
    Construct, Expr, NamedError, ParseError, ParseExprKind, SortByDir, SortByNulls, BOOLOID,
    INT8OID,
};
use crate::parse_window;
use crate::parse_window::copy_name;

verus! {

/// The right to read.
pub const ACL_SELECT: u64 = 2;

/// What columns' numbers are counted from in lists of used columns.
pub const FirstLowInvalidHeapAttributeNumber: i32 = -7;

/// What the parser knows of the table that a statement changes.
#[derive(Clone, Copy, Debug, PartialEq, Eq, Structural)]
pub struct TargetState {
    /// The table that is open.
    pub target_relation: Option<u32>,
    /// Its entry in the range table.
    pub target_rtindex: i32,
    /// The rights that the statement needs on it.
    pub required_perms: u64,
    /// It is also read from.
    pub in_query: bool,
}

/// What came of the work around a statement's table (errors by their numbers).
#[derive(Clone, Copy, Debug, PartialEq, Eq)]
pub struct TargetReplies {
    /// Closing the table that was the target before failed.
    pub close_error: Option<i32>,
    /// The table that was opened, and its entry in the range table.
    pub opened: Result<(u32, i32), i32>,
    /// Making its columns visible failed.
    pub visible_error: Option<i32>,
}

/// The target after a statement's table was looked up.
pub open spec fn target_set(
    st: TargetState,
    qualified: bool,
    is_enr: bool,
    rs: TargetReplies,
    also_source: bool,
    required_perms: u64,
) -> (TargetState, Result<i32, ParseError>) {
    if !qualified && is_enr {
        (st, Err(ParseError::TargetNotModifiable))
    } else if st.target_relation is Some && rs.close_error is Some {
        (
            TargetState { target_relation: None, ..st },
            Err(ParseError::Outside(rs.close_error->0)),
        )
    } else {
        match rs.opened {
            Err(e) => (
                TargetState { target_relation: None, ..st },
                Err(ParseError::Outside(e)),
            ),
            Ok((rel, rtindex)) => if also_source && rs.visible_error is Some {
                (
                    TargetState { target_relation: Some(rel), required_perms, ..st },
                    Err(ParseError::Outside(rs.visible_error->0)),
                )
            } else {
                (
                    TargetState {
                        target_relation: Some(rel),
                        target_rtindex: rtindex,
                        required_perms,
                        in_query: also_source,
                    },
                    Ok(rtindex),
                )
            },
        }
    }
}

/// Whether the table that was the target before is closed.
pub fn closes_old_target(st: &TargetState, qualified: bool, is_enr: bool) -> (r: bool)
    ensures
        r == (st.target_relation is Some && (qualified || !is_enr)),
{
    st.target_relation.is_some() && (qualified || !is_enr)
}

/// Makes a table the target of a statement; a transition table cannot be one,
/// and the error says which table that is. Gives the table's number in the
/// range table.
pub fn setTargetTable(
    st: &mut TargetState,
    relname: &str,
    qualified: bool,
    is_enr: bool,
    rs: TargetReplies,
    also_source: bool,
    required_perms: u64,
) -> (r: Result<i32, NamedError>)
    ensures
        ({
            let (st1, res) = target_set(*old(st), qualified, is_enr, rs, also_source, required_perms);
            &&& *final(st) == st1
            &&& match r {
                Ok(rtindex) => res == Ok::<i32, ParseError>(rtindex),
                Err(e) => {
                    &&& res == Err::<i32, ParseError>(e.error)
                    &&& parse_window::chars(e.name) == if e.error is TargetNotModifiable {
                        Some(relname@)
                    } else {
                        None
                    }
                },
            }
        }),
{
    if !qualified && is_enr {
        return Err(
            NamedError {
                error: ParseError::TargetNotModifiable,
                name: Some(String::from_str(relname)),
            },
        );
    }
    if st.target_relation.is_some() {
        st.target_relation = None;
        if let Some(e) = rs.close_error {
            return Err(NamedError { error: ParseError::Outside(e), name: None });
        }
    }
    match rs.opened {
        Err(e) => Err(NamedError { error: ParseError::Outside(e), name: None }),
        Ok((rel, rtindex)) => {
            st.target_relation = Some(rel);
            st.required_perms = required_perms;
            if also_source {
                if let Some(e) = rs.visible_error {
                    return Err(NamedError { error: ParseError::Outside(e), name: None });
                }
            }
            st.target_rtindex = rtindex;
            st.in_query = also_source;
            Ok(rtindex)
        },
    }
}

/// A condition, where there is one, as a boolean.
pub open spec fn condition(clause: Option<Coercible>) -> Result<Option<Expr>, ParseError> {
    match clause {
        None => Ok(None),
        Some(c) => match parse_coerce::as_type(c, BOOLOID) {
            Err(e) => Err(e),
            Ok(n) => Ok(Some(n)),
        },
    }
}

/// Transforms a condition and coerces it to boolean, where there is one.
pub fn transformWhereClause(clause: &Option<Coercible>) -> (r: Result<Option<Expr>, ParseError>)
    ensures
        r == condition(*clause),
{
    match clause {
        None => Ok(None),
        Some(c) => match coerce_to_specific_type(c, BOOLOID) {
            Err(e) => Err(e),
            Ok(n) => Ok(Some(n)),
        },
    }
}

/// Refuses an expression that holds a variable of this level.
pub fn checkExprIsVarFree(n: &Expr, construct: Construct) -> (r: Result<(), ParseError>)
    ensures
        r == match n.var_location {
            Some(location) => Err::<(), ParseError>(
                ParseError::ContainsVariables { construct, location },
            ),
            None => Ok::<(), ParseError>(()),
        },
{
    match n.var_location {
        Some(location) => Err(ParseError::ContainsVariables { construct, location }),
        None => Ok(()),
    }
}

/// A LIMIT or OFFSET as it was written.
pub struct LimitDef {
    pub count: Coercible,
    /// It is the constant NULL.
    pub is_null_const: bool,
}

/// A LIMIT or OFFSET: a bigint without variables, and not NULL where ties are
/// kept.
pub open spec fn limited(clause: Option<LimitDef>, kind: ParseExprKind, with_ties: bool) -> Result<
    Option<Expr>,
    ParseError,
> {
    match clause {
        None => Ok(None),
        Some(c) => match parse_coerce::as_type(c.count, INT8OID) {
            Err(e) => Err(e),
            Ok(n) => match n.var_location {
                Some(location) => Err(
                    ParseError::ContainsVariables { construct: Construct::RowCount, location },
                ),
                None => if kind == ParseExprKind::Limit && with_ties && c.is_null_const {
                    Err(ParseError::NullRowCountWithTies)
                } else {
                    Ok(Some(n))
                },
            },
        },
    }
}

/// Transforms LIMIT or OFFSET.
pub fn transformLimitClause(clause: &Option<LimitDef>, kind: ParseExprKind, with_ties: bool) -> (r:
    Result<Option<Expr>, ParseError>)
    ensures
        r == limited(*clause, kind, with_ties),
{
    let c: &LimitDef = match clause {
        None => {
            return Ok(None);
        },
        Some(c) => c,
    };
    let n: Expr = match coerce_to_specific_type(&c.count, INT8OID) {
        Err(e) => {
            return Err(e);
        },
        Ok(n) => n,
    };
    match checkExprIsVarFree(&n, Construct::RowCount) {
        Err(e) => {
            return Err(e);
        },
        Ok(_) => {},
    }
    if kind == ParseExprKind::Limit && with_ties && c.is_null_const {
        return Err(ParseError::NullRowCountWithTies);
    }
    Ok(Some(n))
}

/// An expression in a statement.
pub enum Slot {
    Empty,
    /// As it was written.
    Raw,
    Made(Expr),
}

/// A key of an index: a column, or an expression.
pub struct IndexElem {
    pub colname: Option<String>,
    pub expr: Slot,
}

/// An index as it was written, or as it was transformed.
pub struct IndexStmt {
    pub transformed: bool,
    pub where_clause: Slot,
    pub params: Vec<IndexElem>,
}

/// What came of the expression of a key (errors by their numbers).
pub struct KeyReply {
    /// The name that would be made up for it.
    pub figured: Option<String>,
    pub transformed: Result<Expr, i32>,
}

/// What came of the work around an index (errors by their numbers).
pub struct IndexReplies {
    /// Opening the table failed.
    pub open_error: Option<i32>,
    /// The predicate, where the index has one.
    pub predicate: Coercible,
    /// One for each key; only those of expressions count.
    pub keys: Vec<KeyReply>,
    /// How many tables were referred to.
    pub rtable_len: usize,
    /// Closing the table failed.
    pub close_error: Option<i32>,
}

/// The first expression from `i` on that raises an error.
pub open spec fn bad_slot_from(slots: Seq<Slot>, rs: Seq<Result<Expr, i32>>, i: int) -> int
    decreases slots.len() - i,
{
    if i < 0 || i >= slots.len() {
        slots.len() as int
    } else if !(slots[i] is Empty) && rs[i] is Err {
        i
    } else {
        bad_slot_from(slots, rs, i + 1)
    }
}

/// The expressions of keys.
pub open spec fn key_slots(ps: Seq<IndexElem>) -> Seq<Slot> {
    ps.map_values(|p: IndexElem| p.expr)
}

/// What transforming the expressions gives.
pub open spec fn key_results(rs: Seq<KeyReply>) -> Seq<Result<Expr, i32>> {
    rs.map_values(|r: KeyReply| r.transformed)
}

/// What the expressions of a statement come to at the end: none raises an
/// error, and no other table is referred to.
pub open spec fn slots_error(
    slots: Seq<Slot>,
    rs: Seq<Result<Expr, i32>>,
    rtable_len: usize,
    other_table: ParseError,
    close_error: Option<i32>,
) -> Option<ParseError> {
    let bad = bad_slot_from(slots, rs, 0);
    if bad < slots.len() {
        Some(ParseError::Outside(rs[bad]->Err_0))
    } else if rtable_len != 1 {
        Some(other_table)
    } else {
        match close_error {
            Some(e) => Some(ParseError::Outside(e)),
            None => None,
        }
    }
}

/// The error that keeps the predicate from being transformed.
pub open spec fn predicate_error(s: IndexStmt, rs: IndexReplies) -> Option<ParseError> {
    if rs.open_error is Some {
        Some(ParseError::Outside(rs.open_error->0))
    } else if s.where_clause is Empty {
        None
    } else {
        match parse_coerce::as_type(rs.predicate, BOOLOID) {
            Err(e) => Some(e),
            Ok(_) => None,
        }
    }
}

/// The error that stops an index.
pub open spec fn index_error(s: IndexStmt, rs: IndexReplies) -> Option<ParseError> {
    if s.transformed {
        None
    } else if predicate_error(s, rs) is Some {
        predicate_error(s, rs)
    } else {
        slots_error(
            key_slots(s.params@),
            key_results(rs.keys@),
            rs.rtable_len,
            ParseError::IndexOtherTable,
            rs.close_error,
        )
    }
}

/// The predicate afterwards.
pub open spec fn index_predicate(s: IndexStmt, rs: IndexReplies) -> Slot {
    if s.transformed || s.where_clause is Empty || predicate_error(s, rs) is Some {
        s.where_clause
    } else {
        Slot::Made(parse_coerce::as_type(rs.predicate, BOOLOID)->Ok_0)
    }
}

/// Whether a key is that expression, transformed: it keeps its name, or gets
/// the one made up for it.
pub open spec fn key_made(p: IndexElem, r: KeyReply, q: IndexElem) -> bool {
    &&& q.expr == Slot::Made(r.transformed->Ok_0)
    &&& parse_window::chars(q.colname) == if p.colname is None {
        parse_window::chars(r.figured)
    } else {
        parse_window::chars(p.colname)
    }
}

/// Whether the work got past key `k`, and found an expression there.
pub open spec fn key_reached(s: IndexStmt, rs: IndexReplies, k: int) -> bool {
    &&& !s.transformed
    &&& predicate_error(s, rs) is None
    &&& k < bad_slot_from(key_slots(s.params@), key_results(rs.keys@), 0)
    &&& !(s.params@[k].expr is Empty)
}

/// Transforms the predicate of an index.
fn make_predicate(stmt: &mut IndexStmt, rs: &IndexReplies) -> (r: Result<(), ParseError>)
    requires
        !old(stmt).transformed,
    ensures
        final(stmt).where_clause == index_predicate(*old(stmt), *rs),
        final(stmt).transformed == old(stmt).transformed,
        final(stmt).params == old(stmt).params,
        match r {
            Err(e) => predicate_error(*old(stmt), *rs) == Some(e),
            Ok(_) => predicate_error(*old(stmt), *rs) is None,
        },
{
    if let Some(e) = rs.open_error {
        return Err(ParseError::Outside(e));
    }
    if let Slot::Empty = stmt.where_clause {
        return Ok(());
    }
    let qual: Expr = match coerce_to_specific_type(&rs.predicate, BOOLOID) {
        Err(e) => {
            return Err(e);
        },
        Ok(n) => n,
    };
    stmt.where_clause = Slot::Made(qual);
    Ok(())
}

proof fn lemma_bad_slot(slots: Seq<Slot>, rs: Seq<Result<Expr, i32>>, i: int)
    requires
        0 <= i <= slots.len(),
    ensures
        i <= bad_slot_from(slots, rs, i) <= slots.len(),
    decreases slots.len() - i,
{
    if i < slots.len() {
        lemma_bad_slot(slots, rs, i + 1);
    }
}

/// Transforms an index in place: its expressions may refer to its own table
/// only, and expressions without a name get one. An index that was transformed
/// already is left as it is. Where an error stops the work, what came before
/// it stays transformed.
pub fn transformIndexStmt(stmt: &mut IndexStmt, rs: &IndexReplies) -> (r: Result<(), ParseError>)
    requires
        rs.keys@.len() == old(stmt).params@.len(),
    ensures
        match r {
            Err(e) => index_error(*old(stmt), *rs) == Some(e),
            Ok(_) => index_error(*old(stmt), *rs) is None,
        },
        final(stmt).transformed == (r is Ok),
        final(stmt).where_clause == index_predicate(*old(stmt), *rs),
        final(stmt).params@.len() == old(stmt).params@.len(),
        forall|k: int|
            #![trigger final(stmt).params@[k]]
            0 <= k < old(stmt).params@.len() ==> if key_reached(*old(stmt), *rs, k) {
                key_made(old(stmt).params@[k], rs.keys@[k], final(stmt).params@[k])
            } else {
                final(stmt).params@[k] == old(stmt).params@[k]
            },
{
    if stmt.transformed {
        return Ok(());
    }
    match make_predicate(stmt, rs) {
        Err(e) => {
            return Err(e);
        },
        Ok(_) => {},
    }
    let ghost ps = old(stmt).params@;
    let ghost slots = key_slots(ps);
    let ghost res = key_results(rs.keys@);
    let mut i: usize = 0;
    while i < stmt.params.len()
        invariant
            i <= stmt.params@.len(),
            ps == old(stmt).params@,
            slots == key_slots(ps),
            res == key_results(rs.keys@),
            rs.keys@.len() == ps.len(),
            stmt.params@.len() == ps.len(),
            !stmt.transformed,
            !old(stmt).transformed,
            predicate_error(*old(stmt), *rs) is None,
            stmt.where_clause == index_predicate(*old(stmt), *rs),
            bad_slot_from(slots, res, 0) == bad_slot_from(slots, res, i as int),
            forall|k: int|
                #![trigger stmt.params@[k]]
                0 <= k < i ==> if ps[k].expr is Empty {
                    stmt.params@[k] == ps[k]
                } else {
                    key_made(ps[k], rs.keys@[k], stmt.params@[k])
                },
            forall|k: int| i <= k < ps.len() ==> #[trigger] stmt.params@[k] == ps[k],
        decreases stmt.params@.len() - i,
    {
        proof {
            lemma_bad_slot(slots, res, i as int);
            lemma_bad_slot(slots, res, i + 1);
            assert(slots[i as int] == ps[i as int].expr);
            assert(res[i as int] == rs.keys@[i as int].transformed);
            assert(stmt.params@[i as int] == ps[i as int]);
        }
        let is_expr: bool = match stmt.params[i].expr {
            Slot::Empty => false,
            _ => true,
        };
        if is_expr {
            match &rs.keys[i].transformed {
                Err(e) => {
                    return Err(ParseError::Outside(*e));
                },
                Ok(x) => {
                    let colname: Option<String> = if stmt.params[i].colname.is_none() {
                        copy_name(&rs.keys[i].figured)
                    } else {
                        copy_name(&stmt.params[i].colname)
                    };
                    stmt.params.set(i, IndexElem { colname, expr: Slot::Made(x.dup()) });
                },
            }
        }
        i = i + 1;
    }
    if rs.rtable_len != 1 {
        return Err(ParseError::IndexOtherTable);
    }
    if let Some(e) = rs.close_error {
        return Err(ParseError::Outside(e));
    }
    stmt.transformed = true;
    Ok(())
}

/// Extended statistics as they were written, or as they were transformed.
pub struct StatsStmt {
    pub transformed: bool,
    /// Empty for a plain column.
    pub exprs: Vec<Slot>,
}

/// What came of the work around extended statistics (errors by their numbers).
pub struct StatsReplies {
    /// Opening the table failed.
    pub open_error: Option<i32>,
    /// One for each expression.
    pub exprs: Vec<Result<Expr, i32>>,
    /// How many tables were referred to.
    pub rtable_len: usize,
    /// Closing the table failed.
    pub close_error: Option<i32>,
}

/// The error that stops extended statistics.
pub open spec fn stats_error(s: StatsStmt, rs: StatsReplies) -> Option<ParseError> {
    if s.transformed {
        None
    } else {
        match rs.open_error {
            Some(e) => Some(ParseError::Outside(e)),
            None => slots_error(
                s.exprs@,
                rs.exprs@,
                rs.rtable_len,
                ParseError::StatsOtherTable,
                rs.close_error,
            ),
        }
    }
}

/// An expression of extended statistics afterwards.
pub open spec fn stats_slot(s: StatsStmt, rs: StatsReplies, k: int) -> Slot {
    if s.transformed || rs.open_error is Some || s.exprs@[k] is Empty || k >= bad_slot_from(
        s.exprs@,
        rs.exprs@,
        0,
    ) {
        s.exprs@[k]
    } else {
        Slot::Made(rs.exprs@[k]->Ok_0)
    }
}

/// Transforms extended statistics in place: their expressions may refer to
/// their own table only. Where an error stops the work, what came before it
/// stays transformed.
pub fn transformStatsStmt(stmt: &mut StatsStmt, rs: &StatsReplies) -> (r: Result<(), ParseError>)
    requires
        rs.exprs@.len() == old(stmt).exprs@.len(),
    ensures
        match r {
            Ok(_) => stats_error(*old(stmt), *rs) is None,
            Err(e) => stats_error(*old(stmt), *rs) == Some(e),
        },
        final(stmt).transformed == (r is Ok),
        final(stmt).exprs@ == Seq::new(
            old(stmt).exprs@.len(),
            |k: int| stats_slot(*old(stmt), *rs, k),
        ),
{
    if stmt.transformed {
        assert(stmt.exprs@ =~= Seq::new(
            old(stmt).exprs@.len(),
            |k: int| stats_slot(*old(stmt), *rs, k),
        ));
        return Ok(());
    }
    if let Some(e) = rs.open_error {
        assert(stmt.exprs@ =~= Seq::new(
            old(stmt).exprs@.len(),
            |k: int| stats_slot(*old(stmt), *rs, k),
        ));
        return Err(ParseError::Outside(e));
    }
    let ghost es = old(stmt).exprs@;
    let ghost made = Seq::new(es.len(), |k: int| stats_slot(*old(stmt), *rs, k));
    let mut i: usize = 0;
    while i < stmt.exprs.len()
        invariant
            i <= stmt.exprs@.len(),
            es == old(stmt).exprs@,
            rs.exprs@.len() == es.len(),
            stmt.exprs@.len() == es.len(),
            !stmt.transformed,
            !old(stmt).transformed,
            rs.open_error is None,
            made == Seq::new(es.len(), |k: int| stats_slot(*old(stmt), *rs, k)),
            bad_slot_from(es, rs.exprs@, 0) == bad_slot_from(es, rs.exprs@, i as int),
            forall|k: int| 0 <= k < i ==> #[trigger] stmt.exprs@[k] == made[k],
            forall|k: int| i <= k < es.len() ==> #[trigger] stmt.exprs@[k] == es[k],
        decreases stmt.exprs@.len() - i,
    {
        proof {
            lemma_bad_slot(es, rs.exprs@, i as int);
            lemma_bad_slot(es, rs.exprs@, i + 1);
            assert(stmt.exprs@[i as int] == es[i as int]);
        }
        let is_expr: bool = match stmt.exprs[i] {
            Slot::Empty => false,
            _ => true,
        };
        if is_expr {
            match &rs.exprs[i] {
                Err(e) => {
                    assert(stmt.exprs@ =~= made);
                    return Err(ParseError::Outside(*e));
                },
                Ok(x) => {
                    stmt.exprs.set(i, Slot::Made(x.dup()));
                },
            }
        }
        i = i + 1;
    }
    assert(stmt.exprs@ =~= made);
    if rs.rtable_len != 1 {
        return Err(ParseError::StatsOtherTable);
    }
    if let Some(e) = rs.close_error {
        return Err(ParseError::Outside(e));
    }
    stmt.transformed = true;
    Ok(())
}

/// A key of ON CONFLICT (errors by their numbers).
pub struct InferKey {
    pub ordering: SortByDir,
    pub nulls_ordering: SortByNulls,
    pub transformed: Result<Expr, i32>,
    /// The collation that is named.
    pub collation: Option<Result<u32, i32>>,
    /// The operator class that is named.
    pub opclass: Option<Result<u32, i32>>,
}

/// What ON CONFLICT names.
pub struct InferClause {
    pub elems: Vec<InferKey>,
    /// What transforming the predicate gives, where there is one.
    pub where_clause: Option<Result<Expr, i32>>,
    /// The constraint that is named, and the numbers of its columns.
    pub constraint: Option<Result<(u32, Vec<i16>), i32>>,
    pub location: i32,
}

/// A key that picks the index of ON CONFLICT.
pub struct InferenceElem {
    pub expr: Expr,
    pub infercollid: u32,
    pub inferopclass: u32,
}

/// What a key of ON CONFLICT comes to; it has no direction.
pub open spec fn infer_elem(k: InferKey, location: i32) -> Result<InferenceElem, ParseError> {
    if k.ordering != SortByDir::Default {
        Err(ParseError::ConflictOrdering { location })
    } else if k.nulls_ordering != SortByNulls::Default {
        Err(ParseError::ConflictNulls { location })
    } else {
        match (k.transformed, named_oid(k.collation), named_oid(k.opclass)) {
            (Err(e), _, _) => Err(ParseError::Outside(e)),
            (Ok(_), Err(e), _) => Err(ParseError::Outside(e)),
            (Ok(_), Ok(_), Err(e)) => Err(ParseError::Outside(e)),
            (Ok(expr), Ok(infercollid), Ok(inferopclass)) => Ok(
                InferenceElem { expr, infercollid, inferopclass },
            ),
        }
    }
}

/// What a name resolves to; 0 where none is given.
pub open spec fn named_oid(n: Option<Result<u32, i32>>) -> Result<u32, i32> {
    match n {
        None => Ok(0),
        Some(r) => r,
    }
}

/// The keys so far, and the error that stopped the work.
pub ghost struct KeysBuilt {
    pub elems: Seq<InferenceElem>,
    pub err: Option<ParseError>,
}

/// The first `n` keys of ON CONFLICT.
pub open spec fn infer_elems(c: InferClause, n: nat) -> KeysBuilt
    decreases n,
{
    if n == 0 {
        KeysBuilt { elems: Seq::empty(), err: None }
    } else {
        let p = infer_elems(c, (n - 1) as nat);
        if p.err is Some {
            p
        } else {
            match infer_elem(c.elems@[n - 1], c.location) {
                Err(e) => KeysBuilt { err: Some(e), ..p },
                Ok(x) => KeysBuilt { elems: p.elems.push(x), err: None },
            }
        }
    }
}

proof fn lemma_infer_stop(c: InferClause, m: nat, n: nat)
    requires
        m <= n,
        infer_elems(c, m).err is Some,
    ensures
        infer_elems(c, n) == infer_elems(c, m),
    decreases n,
{
    if m < n {
        lemma_infer_stop(c, m, (n - 1) as nat);
    }
}

fn make_elem(k: &InferKey, location: i32) -> (r: Result<InferenceElem, ParseError>)
    ensures
        r == infer_elem(*k, location),
{
    if k.ordering != SortByDir::Default {
        return Err(ParseError::ConflictOrdering { location });
    }
    if k.nulls_ordering != SortByNulls::Default {
        return Err(ParseError::ConflictNulls { location });
    }
    let expr: &Expr = match &k.transformed {
        Err(e) => {
            return Err(ParseError::Outside(*e));
        },
        Ok(x) => x,
    };
    let infercollid: u32 = match k.collation {
        None => 0,
        Some(Ok(x)) => x,
        Some(Err(e)) => {
            return Err(ParseError::Outside(e));
        },
    };
    let inferopclass: u32 = match k.opclass {
        None => 0,
        Some(Ok(x)) => x,
        Some(Err(e)) => {
            return Err(ParseError::Outside(e));
        },
    };
    Ok(InferenceElem { expr: expr.dup(), infercollid, inferopclass })
}

/// The keys that pick the index of ON CONFLICT.
pub fn resolve_unique_index_expr(infer: &InferClause) -> (r: Result<
    Vec<InferenceElem>,
    ParseError,
>)
    ensures
        ({
            let b = infer_elems(*infer, infer.elems@.len());
            match r {
                Ok(v) => b.err is None && v@ == b.elems,
                Err(e) => b.err == Some(e),
            }
        }),
{
    let mut out: Vec<InferenceElem> = Vec::new();
    let mut i: usize = 0;
    while i < infer.elems.len()
        invariant
            i <= infer.elems@.len(),
            infer_elems(*infer, i as nat) == (KeysBuilt { elems: out@, err: None }),
        decreases infer.elems@.len() - i,
    {
        match make_elem(&infer.elems[i], infer.location) {
            Err(e) => {
                proof {
                    lemma_infer_stop(*infer, (i + 1) as nat, infer.elems@.len());
                }
                return Err(e);
            },
            Ok(x) => {
                out.push(x);
            },
        }
        i = i + 1;
    }
    Ok(out)
}

/// The rights that a statement needs on its target.
pub struct PermInfo {
    pub required_perms: u64,
    /// The columns that are read, counted from the lowest system column.
    pub selected_cols: Vec<i32>,
}

/// Which index or constraint arbitrates ON CONFLICT.
pub struct Arbiter {
    pub elems: Vec<InferenceElem>,
    pub where_clause: Option<Expr>,
    pub constraint: u32,
}

/// The error that stops ON CONFLICT.
pub open spec fn conflict_error(
    is_update: bool,
    infer: Option<InferClause>,
    is_catalog: bool,
    location: i32,
) -> Option<ParseError> {
    if is_update && infer is None {
        Some(ParseError::ConflictNeedsInference { location })
    } else if is_catalog {
        Some(ParseError::ConflictOnCatalog { location })
    } else {
        match infer {
            None => None,
            Some(c) => {
                let b = infer_elems(c, c.elems@.len());
                if b.err is Some {
                    b.err
                } else {
                    match (c.where_clause, c.constraint) {
                        (Some(Err(e)), _) => Some(ParseError::Outside(e)),
                        (_, Some(Err(e))) => Some(ParseError::Outside(e)),
                        _ => None,
                    }
                }
            },
        }
    }
}

/// The numbers of columns, counted from the lowest system column.
pub open spec fn shifted(cols: Seq<i16>) -> Set<i32> {
    cols.map_values(|a: i16| (a + 7) as i32).to_set()
}

/// Whether the rights were widened as ON CONSTRAINT asks: reading the columns
/// of the constraint; without it they are as before.
pub open spec fn perms_widened(
    old_perms: u64,
    old_cols: Set<i32>,
    new_perms: u64,
    new_cols: Set<i32>,
    infer: Option<InferClause>,
) -> bool {
    match infer {
        Some(InferClause { constraint: Some(Ok((_, attnos))), .. }) => new_perms == (old_perms
            | ACL_SELECT) && new_cols == old_cols.union(shifted(attnos@)),
        _ => new_perms == old_perms && new_cols == old_cols,
    }
}

fn widen(perm: &mut PermInfo, attnos: &Vec<i16>)
    ensures
        final(perm).required_perms == old(perm).required_perms | ACL_SELECT,
        final(perm).selected_cols@.to_set() == old(perm).selected_cols@.to_set().union(
            shifted(attnos@),
        ),
{
    perm.required_perms = perm.required_perms | ACL_SELECT;
    let ghost c0 = perm.selected_cols@.to_set();
    let ghost p0 = perm.required_perms;
    let ghost ss = attnos@.map_values(|a: i16| (a + 7) as i32);
    let mut i: usize = 0;
    proof {
        assert(ss.take(0).to_set() =~= Set::empty());
        assert(c0.union(ss.take(0).to_set()) =~= c0);
    }
    while i < attnos.len()
        invariant
            i <= attnos@.len(),
            ss == attnos@.map_values(|a: i16| (a + 7) as i32),
            perm.required_perms == p0,
            perm.selected_cols@.to_set() == c0.union(ss.take(i as int).to_set()),
        decreases attnos@.len() - i,
    {
        let col: i32 = attnos[i] as i32 - FirstLowInvalidHeapAttributeNumber;
        parse_from::add_member(&mut perm.selected_cols, col);
        proof {
            assert(ss[i as int] == col);
            let a = ss.take(i as int);
            let b = ss.take(i + 1);
            assert(b =~= a.push(col));
            assert forall|x: i32| b.to_set().contains(x) <==> a.to_set().insert(col).contains(x) by {
                if a.contains(x) {
                    let j = choose|j: int| 0 <= j < a.len() && a[j] == x;
                    assert(b[j] == x);
                }
                if x == col {
                    assert(b[a.len() as int] == x);
                }
                if b.contains(x) && x != col {
                    let j = choose|j: int| 0 <= j < b.len() && b[j] == x;
                    assert(a[j] == x);
                }
            }
            assert(b.to_set() =~= a.to_set().insert(col));
            assert(c0.union(a.to_set()).insert(col) =~= c0.union(b.to_set()));
        }
        i = i + 1;
    }
    assert(ss.take(i as int) =~= ss);
}

/// Finds the arbiter of ON CONFLICT: DO UPDATE must name one, and system
/// catalogs have none. Its predicate is taken as it is transformed, of whatever
/// type. Naming a constraint needs the right to read its columns.
pub fn transformOnConflictArbiter(
    is_update: bool,
    infer: &Option<InferClause>,
    is_catalog: bool,
    location: i32,
    perm: &mut PermInfo,
) -> (r: Result<Arbiter, ParseError>)
    ensures
        match r {
            Err(e) => conflict_error(is_update, *infer, is_catalog, location) == Some(e)
                && *final(perm) == *old(perm),
            Ok(a) => {
                &&& conflict_error(is_update, *infer, is_catalog, location) is None
                &&& perms_widened(
                    old(perm).required_perms,
                    old(perm).selected_cols@.to_set(),
                    final(perm).required_perms,
                    final(perm).selected_cols@.to_set(),
                    *infer,
                )
                &&& match *infer {
                    None => a.elems@.len() == 0 && a.where_clause is None && a.constraint == 0,
                    Some(c) => {
                        &&& a.elems@ == infer_elems(c, c.elems@.len()).elems
                        &&& a.where_clause == match c.where_clause {
                            Some(Ok(x)) => Some(x),
                            _ => None,
                        }
                        &&& a.constraint == match c.constraint {
                            Some(Ok((oid, _))) => oid,
                            _ => 0,
                        }
                    },
                }
            },
        },
{
    if is_update && infer.is_none() {
        return Err(ParseError::ConflictNeedsInference { location });
    }
    if is_catalog {
        return Err(ParseError::ConflictOnCatalog { location });
    }
    let c: &InferClause = match infer {
        None => {
            return Ok(Arbiter { elems: Vec::new(), where_clause: None, constraint: 0 });
        },
        Some(c) => c,
    };
    let elems: Vec<InferenceElem> = match resolve_unique_index_expr(c) {
        Err(e) => {
            return Err(e);
        },
        Ok(v) => v,
    };
    let where_clause: Option<Expr> = match &c.where_clause {
        None => None,
        Some(Ok(x)) => Some(x.dup()),
        Some(Err(e)) => {
            return Err(ParseError::Outside(*e));
        },
    };
    let constraint: u32 = match &c.constraint {
        None => 0,
        Some(Err(e)) => {
            return Err(ParseError::Outside(*e));
        },
        Some(Ok(x)) => {
            widen(perm, &x.1);
            x.0
        },
    };
    Ok(Arbiter { elems, where_clause, constraint })
}

} // verus!
