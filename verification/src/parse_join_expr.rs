//! A join as a whole: its columns, its place in the range table, and the names
//! that are visible beside it.
use vstd::prelude::*;
use crate::join_laws;
use crate::parse_from;
use crate::parse_from::{markRelsAsNulledBy, JoinTree, NsItem, MAX_JOIN_COLUMNS};
use crate::parse_join;
use crate::parse_join::{
    buildMergedJoinVar, extractRemainingColumns, ArgForm, JoinPlan, JoinType, MergePick,
    MergeTypes, MergedVar, NsColumn, VarReturningType,
};
use crate::parse_nodes::{Expr, ParseError};

verus! {

/// One side of a join, transformed.
pub struct JoinSide {
    pub tree: JoinTree,
    pub namespace: Vec<NsItem>,
    pub colnames: Vec<String>,
    pub columns: Vec<NsColumn>,
}

/// What is written of a join beside its sides and the joined columns.
#[derive(Clone, Copy, Debug, PartialEq, Eq, Structural)]
pub struct JoinDef {
    pub jointype: JoinType,
    /// Which item's names the join's are.
    pub names: u64,
    pub has_alias: bool,
    /// The alias of USING: which item's names these are.
    pub using_alias: Option<u64>,
}

/// What came of the work around a join (errors by their numbers).
pub struct JoinReplies {
    /// The condition, transformed; none if there is none.
    pub quals: Result<Option<Expr>, i32>,
    /// What the coercion rules say of each pair of joined columns.
    pub merges: Vec<MergeTypes>,
    /// Adding the join to the range table failed.
    pub entry: Option<i32>,
    /// The alias of USING clashes with a visible name.
    pub alias_conflict: Option<i32>,
}

/// What the parser keeps across FROM.
pub struct FromState {
    /// How many entries the range table has.
    pub rtable_len: i32,
    /// The joins that null each relation.
    pub nullingrels: Vec<Vec<i32>>,
    /// Whether each entry of the range table is a join.
    pub joinexprs: Vec<bool>,
}

/// What a column of a join stands for.
#[derive(Clone, Copy, Debug, PartialEq, Eq, Structural)]
pub enum JoinVar {
    /// Two columns, merged.
    Merged { var: MergedVar, left: NsColumn, right: NsColumn },
    /// A column of one side, at its own place.
    Input(NsColumn),
}

/// A transformed join.
pub struct JoinResult {
    pub tree: JoinTree,
    pub rtindex: i32,
    pub namespace: Vec<NsItem>,
    pub colnames: Vec<String>,
    pub columns: Vec<NsColumn>,
    /// The merged columns, which come first.
    pub merged: Vec<MergedVar>,
    /// What each column stands for.
    pub colvars: Vec<JoinVar>,
    pub l_colnos: Vec<usize>,
    pub r_colnos: Vec<usize>,
    pub quals: Option<Expr>,
    /// The columns of the alias of USING, if there is one: the merged ones.
    pub using_alias_colnames: Option<Vec<String>>,
}

/// The merged columns, how they are referred to, and the error that stopped
/// the work.
pub ghost struct MergedBuilt {
    pub vars: Seq<MergedVar>,
    pub cols: Seq<NsColumn>,
    pub err: Option<ParseError>,
}

/// The first `n` merged columns.
pub open spec fn merged_columns(
    l: Seq<NsColumn>,
    r: Seq<NsColumn>,
    ln: Seq<usize>,
    rn: Seq<usize>,
    merges: Seq<MergeTypes>,
    jointype: JoinType,
    rtindex: i32,
    n: nat,
) -> MergedBuilt
    decreases n,
{
    if n == 0 {
        MergedBuilt { vars: Seq::empty(), cols: Seq::empty(), err: None }
    } else {
        let p = merged_columns(l, r, ln, rn, merges, jointype, rtindex, (n - 1) as nat);
        let lc = l[ln[n - 1] - 1];
        let rc = r[rn[n - 1] - 1];
        if p.err is Some {
            p
        } else {
            match parse_join::merged(jointype, lc, rc, merges[n - 1]) {
                Err(e) => MergedBuilt { err: Some(e), ..p },
                Ok(v) => MergedBuilt {
                    vars: p.vars.push(v),
                    cols: p.cols.push(
                        parse_join::merged_column(
                            v,
                            lc,
                            rc,
                            merges[n - 1].collation->Ok_0,
                            rtindex as u32,
                            n - 1,
                        ),
                    ),
                    err: None,
                },
            }
        }
    }
}

proof fn lemma_merged_stop(
    l: Seq<NsColumn>,
    r: Seq<NsColumn>,
    ln: Seq<usize>,
    rn: Seq<usize>,
    merges: Seq<MergeTypes>,
    jointype: JoinType,
    rtindex: i32,
    m: nat,
    n: nat,
)
    requires
        m <= n,
        merged_columns(l, r, ln, rn, merges, jointype, rtindex, m).err is Some,
    ensures
        merged_columns(l, r, ln, rn, merges, jointype, rtindex, n) == merged_columns(
            l,
            r,
            ln,
            rn,
            merges,
            jointype,
            rtindex,
            m,
        ),
    decreases n,
{
    if m < n {
        lemma_merged_stop(l, r, ln, rn, merges, jointype, rtindex, m, (n - 1) as nat);
    }
}

/// The columns with these numbers.
pub open spec fn picked<T>(s: Seq<T>, nos: Seq<usize>) -> Seq<T> {
    Seq::new(nos.len(), |i: int| s[nos[i] - 1])
}

/// The columns of one side that are not joined.
pub open spec fn rest(side: JoinSide, nos: Seq<usize>) -> Seq<usize> {
    parse_join::remaining(
        parse_join::names(side.colnames@),
        side.columns@,
        nos,
        side.colnames@.len(),
    )
}

/// An alias hides the inputs: every column is the join's own in the text.
pub open spec fn hidden(cols: Seq<NsColumn>, rtindex: i32) -> Seq<NsColumn> {
    Seq::new(
        cols.len(),
        |k: int|
            NsColumn {
                varnosyn: rtindex as u32,
                varattnosyn: (k + 1) as i16,
                ..cols[k]
            },
    )
}

/// The columns of a join: the merged ones, then the rest of the left, then the
/// rest of the right.
pub open spec fn join_columns(
    l: JoinSide,
    r: JoinSide,
    plan: JoinPlan,
    merged: Seq<NsColumn>,
    has_alias: bool,
    rtindex: i32,
) -> Seq<NsColumn> {
    let cols = merged + picked(l.columns@, rest(l, plan.l_colnos@)) + picked(
        r.columns@,
        rest(r, plan.r_colnos@),
    );
    if has_alias {
        hidden(cols, rtindex)
    } else {
        cols
    }
}

/// The columns of one side with these numbers, each standing for itself.
pub open spec fn inputs(cols: Seq<NsColumn>) -> Seq<JoinVar> {
    cols.map_values(|c: NsColumn| JoinVar::Input(c))
}

/// What the merged columns stand for.
pub open spec fn merged_vars(
    l: Seq<NsColumn>,
    r: Seq<NsColumn>,
    ln: Seq<usize>,
    rn: Seq<usize>,
    vars: Seq<MergedVar>,
) -> Seq<JoinVar> {
    Seq::new(
        vars.len(),
        |k: int| JoinVar::Merged { var: vars[k], left: l[ln[k] - 1], right: r[rn[k] - 1] },
    )
}

/// What the columns of a join stand for: the merged ones, then the rest of the
/// left, then the rest of the right. An alias changes nothing of it.
pub open spec fn join_vars(l: JoinSide, r: JoinSide, plan: JoinPlan, vars: Seq<MergedVar>) -> Seq<
    JoinVar,
> {
    merged_vars(l.columns@, r.columns@, plan.l_colnos@, plan.r_colnos@, vars) + inputs(
        picked(l.columns@, rest(l, plan.l_colnos@)),
    ) + inputs(picked(r.columns@, rest(r, plan.r_colnos@)))
}

/// How many columns a join has.
pub open spec fn join_width(l: JoinSide, r: JoinSide, plan: JoinPlan) -> nat {
    plan.using@.len() + rest(l, plan.l_colnos@).len() + rest(r, plan.r_colnos@).len()
}

/// The names of a join's columns.
pub open spec fn join_names(l: JoinSide, r: JoinSide, plan: JoinPlan) -> Seq<Seq<char>> {
    parse_join::names(plan.using@) + picked(
        parse_join::names(l.colnames@),
        rest(l, plan.l_colnos@),
    ) + picked(parse_join::names(r.colnames@), rest(r, plan.r_colnos@))
}

/// The relations that a join can null, marked.
pub open spec fn join_marked(
    ns: Seq<Set<i32>>,
    jointype: JoinType,
    l: JoinTree,
    r: JoinTree,
    rtindex: i32,
) -> Seq<Set<i32>> {
    match jointype {
        JoinType::Inner => ns,
        JoinType::Left => parse_from::marked(ns, r, rtindex),
        JoinType::Right => parse_from::marked(ns, l, rtindex),
        JoinType::Full => parse_from::marked(parse_from::marked(ns, l, rtindex), r, rtindex),
    }
}

/// The join's own item.
pub open spec fn join_item(def: JoinDef, rtindex: i32) -> NsItem {
    NsItem {
        names: def.names,
        rtindex,
        rel_visible: def.has_alias,
        cols_visible: true,
        lateral_only: false,
        lateral_ok: true,
    }
}

/// The item of the alias of USING.
pub open spec fn using_item(names: u64, rtindex: i32) -> NsItem {
    NsItem {
        names,
        rtindex,
        rel_visible: true,
        cols_visible: true,
        lateral_only: false,
        lateral_ok: true,
    }
}

/// An item inside a join: still visible as a table name, but its columns only
/// with that name.
pub open spec fn inside(i: NsItem) -> NsItem {
    NsItem { cols_visible: false, lateral_only: false, lateral_ok: true, ..i }
}

/// The names visible beside a join: with an alias the join's only, else also
/// those inside it.
pub open spec fn join_namespace(
    l: Seq<NsItem>,
    r: Seq<NsItem>,
    def: JoinDef,
    rtindex: i32,
) -> Seq<NsItem> {
    let mine = l + r + match def.using_alias {
        Some(n) => seq![using_item(n, rtindex)],
        None => Seq::empty(),
    };
    if def.has_alias {
        seq![join_item(def, rtindex)]
    } else {
        mine.map_values(|i: NsItem| inside(i)).push(join_item(def, rtindex))
    }
}

/// The error that keeps a join out of the range table.
pub open spec fn entry_error(m: MergedBuilt, replies: JoinReplies) -> Option<ParseError> {
    match replies.quals {
        Err(e) => Some(ParseError::Outside(e)),
        Ok(_) => if m.err is Some {
            m.err
        } else {
            match replies.entry {
                Some(e) => Some(ParseError::Outside(e)),
                None => None,
            }
        },
    }
}

/// The error that stops a join.
pub open spec fn join_error(m: MergedBuilt, replies: JoinReplies, def: JoinDef) -> Option<
    ParseError,
> {
    if entry_error(m, replies) is Some {
        entry_error(m, replies)
    } else if def.using_alias is Some && replies.alias_conflict is Some {
        Some(ParseError::Outside(replies.alias_conflict->0))
    } else {
        None
    }
}

/// A column of a join that is not merged stands for the column of a side that
/// it was, at that column's own place. Without an alias it is that column; an
/// alias only makes the text refer to the join.
pub proof fn law_unmerged_columns_stand_for_inputs(
    l: JoinSide,
    r: JoinSide,
    plan: JoinPlan,
    vars: Seq<MergedVar>,
    cols: Seq<NsColumn>,
    has_alias: bool,
    rtindex: i32,
    k: int,
)
    requires
        vars.len() == plan.using@.len(),
        cols.len() == plan.using@.len(),
        plan.using@.len() <= k < join_width(l, r, plan),
    ensures
        ({
            let n = plan.using@.len() as int;
            let lr = rest(l, plan.l_colnos@);
            let rr = rest(r, plan.r_colnos@);
            let c = if k < n + lr.len() {
                l.columns@[lr[k - n] - 1]
            } else {
                r.columns@[rr[k - n - lr.len()] - 1]
            };
            &&& join_vars(l, r, plan, vars).len() == join_width(l, r, plan)
            &&& join_vars(l, r, plan, vars)[k] == JoinVar::Input(c)
            &&& join_columns(l, r, plan, cols, has_alias, rtindex)[k] == if has_alias {
                NsColumn { varnosyn: rtindex as u32, varattnosyn: (k + 1) as i16, ..c }
            } else {
                c
            }
        }),
{
}

/// Exactly one item beside a join has columns that are visible without a table
/// name: the join itself, which is last.
pub proof fn law_only_the_join_shows_its_columns(
    l: Seq<NsItem>,
    r: Seq<NsItem>,
    def: JoinDef,
    rtindex: i32,
    k: int,
)
    requires
        0 <= k < join_namespace(l, r, def, rtindex).len(),
    ensures
        ({
            let ns = join_namespace(l, r, def, rtindex);
            &&& ns[k].cols_visible <==> k == ns.len() - 1
            &&& ns.last() == join_item(def, rtindex)
            &&& !ns[k].lateral_only && ns[k].lateral_ok
        }),
{
}

fn merge_all(
    l: &JoinSide,
    r: &JoinSide,
    plan: &JoinPlan,
    merges: &Vec<MergeTypes>,
    jointype: JoinType,
    rtindex: i32,
) -> (res: Result<(Vec<MergedVar>, Vec<NsColumn>), ParseError>)
    requires
        rtindex >= 1,
        l.colnames@.len() == l.columns@.len(),
        r.colnames@.len() == r.columns@.len(),
        plan.using@.len() <= MAX_JOIN_COLUMNS,
        parse_join::plan_ok(*plan, l.colnames@.len(), r.colnames@.len()),
        merges@.len() == plan.using@.len(),
    ensures
        ({
            let b = merged_columns(
                l.columns@,
                r.columns@,
                plan.l_colnos@,
                plan.r_colnos@,
                merges@,
                jointype,
                rtindex,
                merges@.len(),
            );
            match res {
                Ok(x) => b.err is None && x.0@ == b.vars && x.1@ == b.cols && x.0@.len()
                    == merges@.len() && x.1@.len() == merges@.len(),
                Err(e) => b.err == Some(e),
            }
        }),
{
    let mut vars: Vec<MergedVar> = Vec::new();
    let mut cols: Vec<NsColumn> = Vec::new();
    let mut k: usize = 0;
    while k < merges.len()
        invariant
            k <= merges@.len(),
            rtindex >= 1,
            l.colnames@.len() == l.columns@.len(),
            r.colnames@.len() == r.columns@.len(),
            plan.using@.len() <= MAX_JOIN_COLUMNS,
            parse_join::plan_ok(*plan, l.colnames@.len(), r.colnames@.len()),
            merges@.len() == plan.using@.len(),
            vars@.len() == k,
            cols@.len() == k,
            merged_columns(
                l.columns@,
                r.columns@,
                plan.l_colnos@,
                plan.r_colnos@,
                merges@,
                jointype,
                rtindex,
                k as nat,
            ) == (MergedBuilt { vars: vars@, cols: cols@, err: None }),
        decreases merges@.len() - k,
    {
        assert(1 <= plan.l_colnos@[k as int] <= l.colnames@.len());
        assert(1 <= plan.r_colnos@[k as int] <= r.colnames@.len());
        let lc: NsColumn = l.columns[plan.l_colnos[k] - 1];
        let rc: NsColumn = r.columns[plan.r_colnos[k] - 1];
        match buildMergedJoinVar(jointype, lc, rc, merges[k]) {
            Err(e) => {
                proof {
                    lemma_merged_stop(
                        l.columns@,
                        r.columns@,
                        plan.l_colnos@,
                        plan.r_colnos@,
                        merges@,
                        jointype,
                        rtindex,
                        (k + 1) as nat,
                        merges@.len(),
                    );
                }
                return Err(e);
            },
            Ok(v) => {
                let attno: i16 = (k + 1) as i16;
                let collation: u32 = match merges[k].collation {
                    Ok(c) => c,
                    Err(_) => 0,
                };
                let col: NsColumn = if v.pick == MergePick::Left && v.left == ArgForm::Plain {
                    lc
                } else if v.pick == MergePick::Right && v.right == ArgForm::Plain {
                    rc
                } else {
                    NsColumn {
                        varno: rtindex as u32,
                        varattno: attno,
                        vartype: v.rtype,
                        vartypmod: v.typmod,
                        varcollid: collation,
                        varreturningtype: VarReturningType::Default,
                        varnosyn: rtindex as u32,
                        varattnosyn: attno,
                        dontexpand: false,
                    }
                };
                vars.push(v);
                cols.push(col);
            },
        }
        k = k + 1;
    }
    Ok((vars, cols))
}

fn append_picked(
    cols: &mut Vec<NsColumn>,
    colnames: &mut Vec<String>,
    side: &JoinSide,
    nos: &Vec<usize>,
)
    requires
        side.colnames@.len() == side.columns@.len(),
        forall|k: int| 0 <= k < nos@.len() ==> 1 <= #[trigger] nos@[k] <= side.colnames@.len(),
    ensures
        final(cols)@ == old(cols)@ + picked(side.columns@, nos@),
        parse_join::names(final(colnames)@) == parse_join::names(old(colnames)@) + picked(
            parse_join::names(side.colnames@),
            nos@,
        ),
{
    let ghost c0 = cols@;
    let ghost n0 = parse_join::names(colnames@);
    let ghost sn = parse_join::names(side.colnames@);
    let mut i: usize = 0;
    assert(c0 + picked(side.columns@, nos@.take(0)) =~= c0);
    assert(n0 + picked(sn, nos@.take(0)) =~= n0);
    while i < nos.len()
        invariant
            i <= nos@.len(),
            side.colnames@.len() == side.columns@.len(),
            forall|k: int| 0 <= k < nos@.len() ==> 1 <= #[trigger] nos@[k] <= side.colnames@.len(),
            sn == parse_join::names(side.colnames@),
            c0 == old(cols)@,
            n0 == parse_join::names(old(colnames)@),
            cols@ == c0 + picked(side.columns@, nos@.take(i as int)),
            parse_join::names(colnames@) == n0 + picked(sn, nos@.take(i as int)),
        decreases nos@.len() - i,
    {
        assert(1 <= nos@[i as int] <= side.colnames@.len());
        let at: usize = nos[i] - 1;
        let ghost before = colnames@;
        cols.push(side.columns[at]);
        colnames.push(side.colnames[at].clone());
        i = i + 1;
        proof {
            assert(nos@.take(i as int) =~= nos@.take(i - 1).push(nos@[i - 1]));
            assert(picked(side.columns@, nos@.take(i as int)) =~= picked(
                side.columns@,
                nos@.take(i - 1),
            ).push(side.columns@[at as int]));
            assert(picked(sn, nos@.take(i as int)) =~= picked(sn, nos@.take(i - 1)).push(
                sn[at as int],
            ));
            assert(parse_join::names(colnames@) =~= parse_join::names(before).push(
                side.colnames@[at as int]@,
            ));
            assert(cols@ =~= c0 + picked(side.columns@, nos@.take(i as int)));
            assert(parse_join::names(colnames@) =~= n0 + picked(sn, nos@.take(i as int)));
        }
    }
    assert(nos@.take(i as int) =~= nos@);
}

/// What columns stand for, of which the first ones are merged.
fn vars_of(
    l: &JoinSide,
    r: &JoinSide,
    ln: &Vec<usize>,
    rn: &Vec<usize>,
    merged: &Vec<MergedVar>,
    columns: &Vec<NsColumn>,
) -> (v: Vec<JoinVar>)
    requires
        merged@.len() <= columns@.len(),
        merged@.len() == ln@.len(),
        merged@.len() == rn@.len(),
        forall|k: int| 0 <= k < ln@.len() ==> 1 <= #[trigger] ln@[k] <= l.columns@.len(),
        forall|k: int| 0 <= k < rn@.len() ==> 1 <= #[trigger] rn@[k] <= r.columns@.len(),
    ensures
        v@ == merged_vars(l.columns@, r.columns@, ln@, rn@, merged@) + inputs(
            columns@.skip(merged@.len() as int),
        ),
{
    let ghost all = merged_vars(l.columns@, r.columns@, ln@, rn@, merged@) + inputs(
        columns@.skip(merged@.len() as int),
    );
    let mut v: Vec<JoinVar> = Vec::new();
    let mut k: usize = 0;
    while k < columns.len()
        invariant
            k <= columns@.len(),
            merged@.len() <= columns@.len(),
            merged@.len() == ln@.len(),
            merged@.len() == rn@.len(),
            forall|k: int| 0 <= k < ln@.len() ==> 1 <= #[trigger] ln@[k] <= l.columns@.len(),
            forall|k: int| 0 <= k < rn@.len() ==> 1 <= #[trigger] rn@[k] <= r.columns@.len(),
            all == merged_vars(l.columns@, r.columns@, ln@, rn@, merged@) + inputs(
                columns@.skip(merged@.len() as int),
            ),
            v@ == all.take(k as int),
        decreases columns@.len() - k,
    {
        if k < merged.len() {
            assert(1 <= ln@[k as int] <= l.columns@.len());
            assert(1 <= rn@[k as int] <= r.columns@.len());
            v.push(
                JoinVar::Merged {
                    var: merged[k],
                    left: l.columns[ln[k] - 1],
                    right: r.columns[rn[k] - 1],
                },
            );
        } else {
            v.push(JoinVar::Input(columns[k]));
        }
        k = k + 1;
        assert(v@ =~= all.take(k as int));
    }
    assert(all.take(k as int) =~= all);
    v
}

fn hide_inputs(cols: &mut Vec<NsColumn>, rtindex: i32)
    requires
        rtindex >= 1,
        old(cols)@.len() <= MAX_JOIN_COLUMNS,
    ensures
        final(cols)@ == hidden(old(cols)@, rtindex),
{
    let ghost c0 = cols@;
    let mut k: usize = 0;
    while k < cols.len()
        invariant
            k <= cols@.len(),
            cols@.len() == c0.len(),
            c0 == old(cols)@,
            c0.len() <= MAX_JOIN_COLUMNS,
            rtindex >= 1,
            forall|j: int| 0 <= j < k ==> #[trigger] cols@[j] == hidden(c0, rtindex)[j],
            forall|j: int| k <= j < c0.len() ==> #[trigger] cols@[j] == c0[j],
        decreases cols@.len() - k,
    {
        let mut c: NsColumn = cols[k];
        c.varnosyn = rtindex as u32;
        c.varattnosyn = (k + 1) as i16;
        cols.set(k, c);
        k = k + 1;
    }
    assert(cols@ =~= hidden(c0, rtindex));
}

fn append_inside(out: &mut Vec<NsItem>, items: &Vec<NsItem>)
    ensures
        final(out)@ == old(out)@ + items@.map_values(|i: NsItem| inside(i)),
{
    let ghost o0 = out@;
    let mut i: usize = 0;
    assert(o0 + items@.take(0).map_values(|i: NsItem| inside(i)) =~= o0);
    while i < items.len()
        invariant
            i <= items@.len(),
            o0 == old(out)@,
            out@ == o0 + items@.take(i as int).map_values(|i: NsItem| inside(i)),
        decreases items@.len() - i,
    {
        let mut item: NsItem = items[i];
        item.cols_visible = false;
        item.lateral_only = false;
        item.lateral_ok = true;
        out.push(item);
        i = i + 1;
        proof {
            assert(items@.take(i as int) =~= items@.take(i - 1).push(items@[i - 1]));
            assert(out@ =~= o0 + items@.take(i as int).map_values(|i: NsItem| inside(i)));
        }
    }
    assert(items@.take(i as int) =~= items@);
}

fn namespace_of(l: &Vec<NsItem>, r: &Vec<NsItem>, def: JoinDef, rtindex: i32) -> (ns: Vec<NsItem>)
    ensures
        ns@ == join_namespace(l@, r@, def, rtindex),
{
    let mut ns: Vec<NsItem> = Vec::new();
    if !def.has_alias {
        append_inside(&mut ns, l);
        append_inside(&mut ns, r);
        if let Some(names) = def.using_alias {
            ns.push(
                NsItem {
                    names,
                    rtindex,
                    rel_visible: true,
                    cols_visible: false,
                    lateral_only: false,
                    lateral_ok: true,
                },
            );
        }
    }
    ns.push(
        NsItem {
            names: def.names,
            rtindex,
            rel_visible: def.has_alias,
            cols_visible: true,
            lateral_only: false,
            lateral_ok: true,
        },
    );
    assert(ns@ =~= join_namespace(l@, r@, def, rtindex));
    ns
}

fn mark_nulled(
    nullingrels: &mut Vec<Vec<i32>>,
    jointype: JoinType,
    l: &JoinTree,
    r: &JoinTree,
    rtindex: i32,
)
    requires
        parse_from::tree_ok(*l),
        parse_from::tree_ok(*r),
    ensures
        parse_from::null_sets(final(nullingrels)@) == join_marked(
            parse_from::null_sets(old(nullingrels)@),
            jointype,
            *l,
            *r,
            rtindex,
        ),
{
    match jointype {
        JoinType::Inner => {},
        JoinType::Left => {
            markRelsAsNulledBy(nullingrels, r, rtindex);
        },
        JoinType::Right => {
            markRelsAsNulledBy(nullingrels, l, rtindex);
        },
        JoinType::Full => {
            markRelsAsNulledBy(nullingrels, l, rtindex);
            markRelsAsNulledBy(nullingrels, r, rtindex);
        },
    }
}

/// Which entries of the range table are joins, with a join as entry `rtindex`.
pub open spec fn join_recorded(je: Seq<bool>, rtindex: int) -> Seq<bool> {
    je + Seq::new((rtindex - 1 - je.len()) as nat, |i: int| false) + seq![true]
}

fn record_join(joinexprs: &mut Vec<bool>, rtindex: i32)
    requires
        old(joinexprs)@.len() < rtindex,
    ensures
        final(joinexprs)@ == join_recorded(old(joinexprs)@, rtindex as int),
        final(joinexprs)@.len() == rtindex,
{
    let ghost j0 = joinexprs@;
    let n: usize = rtindex as usize - 1;
    while joinexprs.len() < n
        invariant
            n == rtindex - 1,
            j0 == old(joinexprs)@,
            j0.len() <= joinexprs@.len() <= n,
            joinexprs@ == j0 + Seq::new((joinexprs@.len() - j0.len()) as nat, |i: int| false),
        decreases n - joinexprs@.len(),
    {
        joinexprs.push(false);
        assert(joinexprs@ =~= j0 + Seq::new(
            (joinexprs@.len() - j0.len()) as nat,
            |i: int| false,
        ));
    }
    joinexprs.push(true);
    assert(joinexprs@ =~= join_recorded(j0, rtindex as int));
}

fn copy_names(v: &Vec<String>) -> (r: Vec<String>)
    ensures
        parse_join::names(r@) == parse_join::names(v@),
{
    let mut r: Vec<String> = Vec::new();
    let mut i: usize = 0;
    while i < v.len()
        invariant
            i <= v@.len(),
            r@.len() == i,
            forall|j: int| 0 <= j < i ==> (#[trigger] r@[j])@ == v@[j]@,
        decreases v@.len() - i,
    {
        r.push(String::from_str(v[i].as_str()));
        i = i + 1;
    }
    assert(parse_join::names(r@) =~= parse_join::names(v@));
    r
}

/// Makes a join of its two transformed sides. With an alias every column is
/// numbered as the join's own; the range table takes the join last, and only
/// the clash of the alias of USING is found after that.
pub fn transformJoinExpr(
    l: JoinSide,
    r: JoinSide,
    def: JoinDef,
    plan: JoinPlan,
    replies: &JoinReplies,
    state: &mut FromState,
) -> (res: Result<JoinResult, ParseError>)
    requires
        parse_from::tree_ok(l.tree),
        parse_from::tree_ok(r.tree),
        l.colnames@.len() == l.columns@.len(),
        r.colnames@.len() == r.columns@.len(),
        plan.using@.len() <= MAX_JOIN_COLUMNS,
        def.has_alias ==> join_width(l, r, plan) <= MAX_JOIN_COLUMNS,
        parse_join::plan_ok(plan, l.colnames@.len(), r.colnames@.len()),
        replies.merges@.len() == plan.using@.len(),
        0 <= old(state).rtable_len < i32::MAX,
        old(state).joinexprs@.len() <= old(state).rtable_len,
    ensures
        ({
            let rtindex = (old(state).rtable_len + 1) as i32;
            let m = merged_columns(
                l.columns@,
                r.columns@,
                plan.l_colnos@,
                plan.r_colnos@,
                replies.merges@,
                def.jointype,
                rtindex,
                replies.merges@.len(),
            );
            match res {
                Err(e) => join_error(m, *replies, def) == Some(e),
                Ok(j) => {
                    &&& replies.quals == Ok::<Option<Expr>, i32>(j.quals)
                    &&& j.using_alias_colnames is Some <==> def.using_alias is Some
                    &&& def.using_alias is Some ==> parse_join::names(
                        j.using_alias_colnames->0@,
                    ) == parse_join::names(plan.using@)
                    &&& join_error(m, *replies, def) is None
                    &&& j.rtindex == rtindex
                    &&& j.tree == (JoinTree::Join {
                        larg: Box::new(l.tree),
                        rarg: Box::new(r.tree),
                        rtindex,
                    })
                    &&& j.namespace@ == join_namespace(l.namespace@, r.namespace@, def, rtindex)
                    &&& parse_join::names(j.colnames@) == join_names(l, r, plan)
                    &&& j.columns@ == join_columns(l, r, plan, m.cols, def.has_alias, rtindex)
                    &&& j.merged@ == m.vars
                    &&& j.colvars@ == join_vars(l, r, plan, m.vars)
                    &&& j.l_colnos@ == plan.l_colnos@ + rest(l, plan.l_colnos@)
                    &&& j.r_colnos@ == plan.r_colnos@ + rest(r, plan.r_colnos@)
                },
            }
        }),
        ({
            let rtindex = (old(state).rtable_len + 1) as i32;
            let m = merged_columns(
                l.columns@,
                r.columns@,
                plan.l_colnos@,
                plan.r_colnos@,
                replies.merges@,
                def.jointype,
                rtindex,
                replies.merges@.len(),
            );
            if entry_error(m, *replies) is None {
                &&& final(state).rtable_len == rtindex
                &&& final(state).joinexprs@ == join_recorded(
                    old(state).joinexprs@,
                    rtindex as int,
                )
            } else {
                &&& final(state).rtable_len == old(state).rtable_len
                &&& final(state).joinexprs@ == old(state).joinexprs@
            }
        }),
        parse_from::null_sets(final(state).nullingrels@) == if replies.quals is Err {
            parse_from::null_sets(old(state).nullingrels@)
        } else {
            join_marked(
                parse_from::null_sets(old(state).nullingrels@),
                def.jointype,
                l.tree,
                r.tree,
                (old(state).rtable_len + 1) as i32,
            )
        },
        forall|rel: int|
            rel >= 1 ==> #[trigger] parse_from::nulled_by(
                parse_from::null_sets(final(state).nullingrels@),
                rel,
            ) == if replies.quals is Ok && join_laws::can_null(
                def.jointype,
                l.tree,
                r.tree,
                rel,
            ) {
                parse_from::nulled_by(
                    parse_from::null_sets(old(state).nullingrels@),
                    rel,
                ).insert((old(state).rtable_len + 1) as i32)
            } else {
                parse_from::nulled_by(parse_from::null_sets(old(state).nullingrels@), rel)
            },
{
    let quals: Option<Expr> = match &replies.quals {
        Err(e) => {
            return Err(ParseError::Outside(*e));
        },
        Ok(None) => None,
        Ok(Some(q)) => Some(q.dup()),
    };
    let rtindex: i32 = state.rtable_len + 1;
    mark_nulled(&mut state.nullingrels, def.jointype, &l.tree, &r.tree, rtindex);
    proof {
        let before = parse_from::null_sets(old(state).nullingrels@);
        assert forall|rel: int| rel >= 1 implies #[trigger] parse_from::nulled_by(
            parse_from::null_sets(state.nullingrels@),
            rel,
        ) == if join_laws::can_null(def.jointype, l.tree, r.tree, rel) {
            parse_from::nulled_by(before, rel).insert(rtindex)
        } else {
            parse_from::nulled_by(before, rel)
        } by {
            join_laws::law_outer_joins_null_the_other_side(
                before,
                def.jointype,
                l.tree,
                r.tree,
                rtindex,
                rel,
            );
        }
    }
    let (merged, mut columns) = match merge_all(
        &l,
        &r,
        &plan,
        &replies.merges,
        def.jointype,
        rtindex,
    ) {
        Ok(x) => x,
        Err(e) => {
            return Err(e);
        },
    };
    let mut l_rest: Vec<usize> = extractRemainingColumns(&l.colnames, &l.columns, &plan.l_colnos);
    let mut r_rest: Vec<usize> = extractRemainingColumns(&r.colnames, &r.columns, &plan.r_colnos);
    let JoinPlan { using, mut l_colnos, mut r_colnos } = plan;
    let using_alias_colnames: Option<Vec<String>> = match def.using_alias {
        Some(_) => Some(copy_names(&using)),
        None => None,
    };
    let mut colnames: Vec<String> = using;
    append_picked(&mut columns, &mut colnames, &l, &l_rest);
    append_picked(&mut columns, &mut colnames, &r, &r_rest);
    let colvars: Vec<JoinVar> = vars_of(&l, &r, &l_colnos, &r_colnos, &merged, &columns);
    proof {
        let lp = picked(l.columns@, rest(l, plan.l_colnos@));
        let rp = picked(r.columns@, rest(r, plan.r_colnos@));
        assert(columns@.skip(merged@.len() as int) =~= lp + rp);
        assert(inputs(lp + rp) =~= inputs(lp) + inputs(rp));
        assert(colvars@ =~= join_vars(l, r, plan, merged@));
    }
    if def.has_alias {
        hide_inputs(&mut columns, rtindex);
    }
    l_colnos.append(&mut l_rest);
    r_colnos.append(&mut r_rest);
    if let Some(e) = replies.entry {
        return Err(ParseError::Outside(e));
    }
    state.rtable_len = rtindex;
    record_join(&mut state.joinexprs, rtindex);
    if def.using_alias.is_some() {
        if let Some(e) = replies.alias_conflict {
            return Err(ParseError::Outside(e));
        }
    }
    let namespace: Vec<NsItem> = namespace_of(&l.namespace, &r.namespace, def, rtindex);
    Ok(
        JoinResult {
            tree: JoinTree::Join { larg: Box::new(l.tree), rarg: Box::new(r.tree), rtindex },
            rtindex,
            namespace,
            colnames,
            columns,
            merged,
            colvars,
            l_colnos,
            r_colnos,
            quals,
            using_alias_colnames,
        },
    )
}

/// Two columns that a join compares for equality.
#[derive(Clone, Copy, Debug, PartialEq, Eq, Structural)]
pub struct ColumnPair {
    pub left: NsColumn,
    pub right: NsColumn,
}

/// The condition that USING stands for: every pair equal.
pub struct UsingQual {
    pub pairs: Vec<ColumnPair>,
    /// Several comparisons, all of which must hold.
    pub conjunction: bool,
}

/// The pairs of columns that USING compares.
pub open spec fn using_pairs(
    l: Seq<NsColumn>,
    r: Seq<NsColumn>,
    ln: Seq<usize>,
    rn: Seq<usize>,
) -> Seq<ColumnPair> {
    Seq::new(ln.len(), |k: int| ColumnPair { left: l[ln[k] - 1], right: r[rn[k] - 1] })
}

/// Builds the condition that USING stands for.
pub fn transformJoinUsingClause(l: &Vec<NsColumn>, r: &Vec<NsColumn>, plan: &JoinPlan) -> (q:
    UsingQual)
    requires
        parse_join::plan_ok(*plan, l@.len(), r@.len()),
    ensures
        q.pairs@ == using_pairs(l@, r@, plan.l_colnos@, plan.r_colnos@),
        q.conjunction == (plan.using@.len() != 1),
{
    let mut pairs: Vec<ColumnPair> = Vec::new();
    let mut k: usize = 0;
    while k < plan.l_colnos.len()
        invariant
            k <= plan.l_colnos@.len(),
            parse_join::plan_ok(*plan, l@.len(), r@.len()),
            pairs@.len() == k,
            forall|j: int|
                0 <= j < k ==> #[trigger] pairs@[j] == using_pairs(
                    l@,
                    r@,
                    plan.l_colnos@,
                    plan.r_colnos@,
                )[j],
        decreases plan.l_colnos@.len() - k,
    {
        assert(1 <= plan.l_colnos@[k as int] <= l@.len());
        assert(1 <= plan.r_colnos@[k as int] <= r@.len());
        pairs.push(
            ColumnPair { left: l[plan.l_colnos[k] - 1], right: r[plan.r_colnos[k] - 1] },
        );
        k = k + 1;
    }
    assert(pairs@ =~= using_pairs(l@, r@, plan.l_colnos@, plan.r_colnos@));
    let conjunction: bool = pairs.len() != 1;
    UsingQual { pairs, conjunction }
}

/// The columns that USING compares have the same name on either side.
pub proof fn law_using_pairs_have_the_same_name(
    l: Seq<Seq<char>>,
    r: Seq<Seq<char>>,
    using: Seq<Seq<char>>,
    n: nat,
    k: int,
)
    requires
        n <= using.len(),
        l.len() < usize::MAX,
        r.len() < usize::MAX,
        parse_join::using_columns(l, r, using, n).err is None,
        0 <= k < n,
    ensures
        ({
            let b = parse_join::using_columns(l, r, using, n);
            &&& b.l.len() == n
            &&& b.r.len() == n
            &&& 1 <= b.l[k] <= l.len()
            &&& 1 <= b.r[k] <= r.len()
            &&& l[b.l[k] - 1] == using[k]
            &&& r[b.r[k] - 1] == using[k]
        }),
    decreases n,
{
    let p = parse_join::using_columns(l, r, using, (n - 1) as nat);
    parse_join::lemma_name_from(l, using[n - 1], 0);
    parse_join::lemma_name_from(r, using[n - 1], 0);
    if n > 1 {
        law_using_pairs_have_the_same_name(
            l,
            r,
            using,
            (n - 1) as nat,
            if k < n - 1 {
                k
            } else {
                0
            },
        );
    }
}

} // verus!
