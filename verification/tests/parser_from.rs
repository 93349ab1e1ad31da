use pgrust::parse_error::{error_hint, error_message, error_sqlstate, ErrorNames};
use pgrust::parse_from::{
    expose_left, hide_left, markRelsAsNulledBy, setNamespaceLateralState, transformJoinOnClause,
    JoinTree, NsItem,
};
use pgrust::parse_join::{
    buildMergedJoinVar, plan_join, ArgForm, JoinPlan, JoinType, MergePick, MergeTypes, NsColumn,
    VarReturningType,
};
use pgrust::parse_join_expr::{
    transformJoinExpr, transformJoinUsingClause, FromState, JoinDef, JoinReplies, JoinResult,
    JoinSide, JoinVar,
};
use pgrust::parse_coerce::{CoercedForm, Coercible};
use pgrust::parse_nodes::{
    Construct, Expr, ExprTag, NamedError, ParseError, ParseExprKind, SortByDir, SortByNulls,
    TargetEntry, BOOLOID, FLOAT8OID, INT4OID, INT8OID, TEXTOID, XMLOID,
};
use pgrust::parse_range::{
    can_be_sampled, check_srf_top_level, name_list_to_string, transformFromClause,
    transformFromClauseItem, transformRangeSubselect, transformRangeTableSample, FlaggedItem,
    FromFlags, FromItem, FromNode, RangeEntry, SampleClause, Srf, SubQuery, TSM_HANDLEROID,
};
use pgrust::parse_range_function::{
    is_taken_apart, item_call, transformRangeFunction, Coldeflist, FuncReply, ItemCall, RangeFunc,
    RangeFunction, RangeFunctionDef,
};
use pgrust::parse_statement::{
    closes_old_target, setTargetTable, transformIndexStmt, transformLimitClause,
    transformOnConflictArbiter, transformStatsStmt, transformWhereClause, IndexElem, IndexReplies,
    IndexStmt, InferClause, InferKey, KeyReply, LimitDef, PermInfo, Slot, StatsReplies, StatsStmt,
    TargetReplies, TargetState,
};
use pgrust::parse_table_func::{
    transformRangeTableFunc, ColumnDefault, RangeTableFunc, TableFunc, TableFuncCol,
    TableFuncNamespace,
};

fn names() -> ErrorNames {
    ErrorNames {
        name: String::from("x"),
        kind_name: String::new(),
        row_count: String::from("LIMIT"),
        main_type: String::from("integer"),
        other_type: String::from("text"),
    }
}

fn says(e: ParseError, code: &str, text: &str) {
    assert_eq!(error_sqlstate(e), Some(code), "{e:?}");
    assert_eq!(error_message(e, &names()).as_deref(), Some(text), "{e:?}");
}

fn strings(v: &[&str]) -> Vec<String> {
    v.iter().map(|s| String::from(*s)).collect()
}

fn col(varno: u32, attno: i16, vartype: u32) -> NsColumn {
    NsColumn {
        varno,
        varattno: attno,
        vartype,
        vartypmod: -1,
        varcollid: 0,
        varreturningtype: VarReturningType::Default,
        varnosyn: varno,
        varattnosyn: attno,
        dontexpand: false,
    }
}

fn ns(names: u64, rtindex: i32) -> NsItem {
    NsItem {
        names,
        rtindex,
        rel_visible: true,
        cols_visible: true,
        lateral_only: false,
        lateral_ok: true,
    }
}

fn side(varno: u32) -> JoinSide {
    JoinSide {
        tree: JoinTree::Rel { rtindex: varno as i32 },
        namespace: vec![ns(varno as u64, varno as i32)],
        colnames: strings(&["x", "y"]),
        columns: vec![col(varno, 1, INT4OID), col(varno, 2, INT4OID)],
    }
}

fn def(jointype: JoinType) -> JoinDef {
    JoinDef { jointype, names: 100, has_alias: false, using_alias: None }
}

fn state(rtable_len: i32) -> FromState {
    FromState { rtable_len, nullingrels: Vec::new(), joinexprs: Vec::new() }
}

fn same_types() -> MergeTypes {
    MergeTypes {
        outtype: Ok(INT4OID),
        outtypmod: -1,
        l_coerced: Err(1),
        r_coerced: Err(2),
        collation: Ok(0),
    }
}

fn plan(using: &[&str], natural: bool) -> Result<JoinPlan, NamedError> {
    plan_join(&strings(&["x", "y"]), &strings(&["x", "y"]), strings(using), natural, None)
}

fn joined(d: JoinDef, using: &[&str], st: &mut FromState) -> JoinResult {
    let replies = JoinReplies {
        quals: Ok(Some(expr(90, BOOLOID))),
        merges: using.iter().map(|_| same_types()).collect(),
        entry: None,
        alias_conflict: None,
    };
    match transformJoinExpr(side(1), side(2), d, plan(using, false).ok().unwrap(), &replies, st) {
        Ok(j) => j,
        Err(e) => panic!("{e:?}"),
    }
}

fn places(j: &JoinResult) -> Vec<(u32, i16)> {
    j.columns.iter().map(|c| (c.varno, c.varattno)).collect()
}

fn lowered() -> FromFlags {
    FromFlags { lateral_active: false, in_subselect: false }
}

fn form(key: u64, typ: u32) -> Coercible {
    Coercible {
        transformed: Ok(expr(key, typ)),
        coerced: vec![CoercedForm { typ, expr: Ok(expr(key, typ)) }],
        other: 70,
    }
}

#[test]
fn a_join_keeps_its_condition_and_its_using_alias() {
    let mut d = def(JoinType::Inner);
    d.using_alias = Some(55);
    let j = joined(d, &["x"], &mut state(2));
    assert_eq!(j.quals.map(|q| q.key), Some(90));
    assert_eq!(j.using_alias_colnames, Some(strings(&["x"])));
    let j = joined(def(JoinType::Inner), &["x"], &mut state(2));
    assert_eq!(j.using_alias_colnames, None);
}

#[test]
fn a_refused_join_leaves_the_range_table_alone() {
    let run = |quals: Result<Option<Expr>, i32>, entry, alias_conflict, st: &mut FromState| {
        let replies = JoinReplies { quals, merges: Vec::new(), entry, alias_conflict };
        let mut d = def(JoinType::Left);
        d.using_alias = Some(55);
        let p = plan(&[], false).ok().unwrap();
        transformJoinExpr(side(1), side(2), d, p, &replies, st).err()
    };
    let mut st = state(2);
    assert_eq!(run(Err(4), None, None, &mut st), Some(ParseError::Outside(4)));
    assert_eq!((st.rtable_len, st.joinexprs.len(), st.nullingrels.len()), (2, 0, 0));
    assert_eq!(run(Ok(None), Some(5), None, &mut st), Some(ParseError::Outside(5)));
    assert_eq!((st.rtable_len, st.joinexprs.len()), (2, 0));
    assert_eq!(st.nullingrels, vec![vec![], vec![3]]);
    assert_eq!(run(Ok(None), None, Some(6), &mut st), Some(ParseError::Outside(6)));
    assert_eq!((st.rtable_len, st.joinexprs), (3, vec![false, false, true]));
}

#[test]
fn an_on_join_has_the_columns_of_both_sides() {
    let mut st = state(2);
    let j = joined(def(JoinType::Inner), &[], &mut st);
    assert_eq!(j.colnames, strings(&["x", "y", "x", "y"]));
    assert_eq!(places(&j), [(1, 1), (1, 2), (2, 1), (2, 2)]);
    assert_eq!((j.l_colnos.clone(), j.r_colnos.clone()), (vec![1, 2], vec![1, 2]));
    assert_eq!((j.rtindex, st.rtable_len), (3, 3));
    assert_eq!(st.joinexprs, [false, false, true]);
    assert!(st.nullingrels.is_empty());
    assert!(matches!(j.tree, JoinTree::Join { rtindex: 3, .. }));
    let shown: Vec<_> = j.namespace.iter().map(|n| (n.rtindex, n.rel_visible, n.cols_visible)).collect();
    assert_eq!(shown, [(1, true, false), (2, true, false), (3, false, true)]);
}

#[test]
fn explicit_join_on_end_to_end() {
    let mut st = state(2);
    let j = joined(def(JoinType::Inner), &[], &mut st);
    assert_eq!(st.rtable_len, 3);
    assert_eq!(j.merged.len(), 0);
    assert!(j.using_alias_colnames.is_none());
    assert_eq!(j.colnames, strings(&["x", "y", "x", "y"]));
    assert_eq!(j.colvars.len(), 4);
    for (i, (varno, attno)) in [(1, 1), (1, 2), (2, 1), (2, 2)].iter().enumerate() {
        match j.colvars[i] {
            JoinVar::Input(v) => assert_eq!((v.varno, v.varattno), (*varno, *attno)),
            JoinVar::Merged { .. } => panic!("nothing is merged"),
        }
    }
    assert_eq!(j.l_colnos, [1, 2]);
    assert_eq!(j.r_colnos, [1, 2]);
    assert_eq!(j.rtindex, 3);
    match &j.tree {
        JoinTree::Join { larg, rarg, rtindex } => {
            assert_eq!(*rtindex, 3);
            assert!(matches!(**larg, JoinTree::Rel { rtindex: 1 }));
            assert!(matches!(**rarg, JoinTree::Rel { rtindex: 2 }));
        }
        JoinTree::Rel { .. } => panic!("a join"),
    }
    assert!(j.quals.is_some());

    // SELECT * expands the join's item to the columns of the tables.
    assert_eq!(places(&j), [(1, 1), (1, 2), (2, 1), (2, 2)]);

    // A join alias hides the inputs.
    let mut d = def(JoinType::Inner);
    d.has_alias = true;
    let a = joined(d, &[], &mut state(2));
    assert!(a.namespace.len() == 1 && a.namespace[0].rtindex == 3);
    assert_eq!(places(&a)[0], (1, 1));

    // Nested joins chain left-deep with a second entry.
    let left = JoinSide {
        tree: j.tree,
        namespace: j.namespace,
        colnames: j.colnames,
        columns: j.columns,
    };
    let replies = JoinReplies {
        quals: Ok(Some(expr(91, BOOLOID))),
        merges: Vec::new(),
        entry: None,
        alias_conflict: None,
    };
    st.rtable_len = 4;
    let p = JoinPlan { using: Vec::new(), l_colnos: Vec::new(), r_colnos: Vec::new() };
    let n = transformJoinExpr(left, side(4), def(JoinType::Inner), p, &replies, &mut st);
    let n = n.ok().unwrap();
    assert_eq!((n.rtindex, st.rtable_len), (5, 5));
    match &n.tree {
        JoinTree::Join { larg, rarg, .. } => {
            assert!(matches!(**larg, JoinTree::Join { rtindex: 3, .. }));
            assert!(matches!(**rarg, JoinTree::Rel { rtindex: 4 }));
        }
        JoinTree::Rel { .. } => panic!("a join"),
    }
}

#[test]
fn columns_stand_for_their_inputs_under_an_alias() {
    let mut d = def(JoinType::Full);
    d.has_alias = true;
    let j = joined(d, &["x"], &mut state(2));
    match j.colvars[0] {
        JoinVar::Merged { var, left, right } => {
            assert_eq!(var.pick, MergePick::Coalesce);
            assert_eq!((left.varno, left.varattno), (1, 1));
            assert_eq!((right.varno, right.varattno), (2, 1));
        }
        JoinVar::Input(_) => panic!("it is merged"),
    }
    assert_eq!(j.colvars[1], JoinVar::Input(col(1, 2, INT4OID)));
    assert_eq!(j.colvars[2], JoinVar::Input(col(2, 2, INT4OID)));
    assert_eq!((j.columns[1].varnosyn, j.columns[1].varattnosyn), (3, 2));
}

#[test]
fn an_alias_hides_the_inputs() {
    let mut d = def(JoinType::Inner);
    d.has_alias = true;
    let mut st = state(2);
    let j = joined(d, &[], &mut st);
    assert_eq!(j.namespace.len(), 1);
    assert!(j.namespace[0].rel_visible && j.namespace[0].cols_visible);
    assert_eq!(places(&j), [(1, 1), (1, 2), (2, 1), (2, 2)]);
    let syn: Vec<_> = j.columns.iter().map(|c| (c.varnosyn, c.varattnosyn)).collect();
    assert_eq!(syn, [(3, 1), (3, 2), (3, 3), (3, 4)]);
}

#[test]
fn using_columns_come_first() {
    let mut st = state(2);
    let j = joined(def(JoinType::Left), &["y"], &mut st);
    assert_eq!(j.colnames, strings(&["y", "x", "x"]));
    assert_eq!(places(&j), [(1, 2), (1, 1), (2, 1)]);
    assert_eq!((j.l_colnos.clone(), j.r_colnos.clone()), (vec![2, 1], vec![2, 1]));
    assert_eq!(j.merged[0].pick, MergePick::Left);
    assert_eq!(st.nullingrels, vec![vec![], vec![3]]);

    let mut st = state(2);
    let j = joined(def(JoinType::Full), &["x"], &mut st);
    assert_eq!(places(&j), [(3, 1), (1, 2), (2, 2)]);
    assert_eq!(j.merged[0].pick, MergePick::Coalesce);
    assert_eq!(st.nullingrels, vec![vec![3], vec![3]]);

    let p = plan(&["x", "y"], false).ok().unwrap();
    let q = transformJoinUsingClause(&side(1).columns, &side(2).columns, &p);
    assert!(q.conjunction);
    assert_eq!((q.pairs[1].left.varattno, q.pairs[1].right.varno), (2, 2));
}

#[test]
fn a_using_alias_is_a_name_of_its_own() {
    let mut d = def(JoinType::Inner);
    d.using_alias = Some(55);
    let mut st = state(2);
    let j = joined(d, &["x"], &mut st);
    let shown: Vec<_> = j.namespace.iter().map(|n| n.names).collect();
    assert_eq!(shown, [1, 2, 55, 100]);
    assert!(!j.namespace[2].cols_visible);
}

#[test]
fn natural_joins_use_common_names() {
    let p = plan_join(
        &strings(&["b", "", "a", "c"]),
        &strings(&["c", "", "b"]),
        Vec::new(),
        true,
        None,
    );
    let p = p.ok().unwrap();
    assert_eq!(p.using, strings(&["b", "c"]));
    assert_eq!((p.l_colnos, p.r_colnos), (vec![1, 4], vec![3, 1]));
}

fn says_of(e: NamedError, name: &str, code: &str, text: &str) {
    assert_eq!(e.name.as_deref(), Some(name));
    let mut n = names();
    n.name = String::from(name);
    assert_eq!(error_sqlstate(e.error), Some(code));
    assert_eq!(error_message(e.error, &n).as_deref(), Some(text));
}

#[test]
fn using_refusals() {
    let e = plan(&["x", "x"], false).err().unwrap();
    says_of(e, "x", "42701", "column name \"x\" appears more than once in USING clause");
    let e = plan(&["x", "z"], false).err().unwrap();
    says_of(e, "z", "42703", "column \"z\" specified in USING clause does not exist in left table");
    let both = strings(&["x", "x"]);
    let one = strings(&["x"]);
    let e = plan_join(&one, &both, strings(&["x"]), false, None).err().unwrap();
    says_of(e, "x", "42702", "common column name \"x\" appears more than once in right table");
    let e = plan_join(&both, &one, strings(&["x"]), false, None).err().unwrap();
    says_of(e, "x", "42702", "common column name \"x\" appears more than once in left table");
    let e = plan_join(&one, &strings(&[]), strings(&["x"]), false, None).err().unwrap();
    says_of(e, "x", "42703", "column \"x\" specified in USING clause does not exist in right table");
    let e = plan_join(&one, &one, strings(&["x"]), false, Some(9)).err().unwrap();
    assert_eq!((e.error, e.name), (ParseError::Outside(9), None));
}

#[test]
fn merged_columns_are_plain_where_they_can_be() {
    let l = col(1, 1, INT4OID);
    let r = col(2, 1, 20);
    let m = MergeTypes {
        outtype: Ok(20),
        outtypmod: -1,
        l_coerced: Ok(-1),
        r_coerced: Err(2),
        collation: Ok(0),
    };
    let v = buildMergedJoinVar(JoinType::Inner, l, r, m).unwrap();
    assert_eq!((v.pick, v.left, v.right), (MergePick::Right, ArgForm::Coerced, ArgForm::Plain));
    let v = buildMergedJoinVar(JoinType::Left, l, r, m).unwrap();
    assert_eq!((v.pick, v.rtype), (MergePick::Left, 20));
    let mut typed = same_types();
    typed.outtypmod = 8;
    let v = buildMergedJoinVar(JoinType::Inner, l, l, typed).unwrap();
    assert_eq!((v.pick, v.left, v.typmod), (MergePick::Left, ArgForm::Relabelled, 8));
    let mut mixed = m;
    mixed.collation = Err(8);
    assert_eq!(buildMergedJoinVar(JoinType::Inner, l, r, mixed), Err(ParseError::Outside(8)));
    let mut none = m;
    none.outtype = Err(7);
    assert_eq!(buildMergedJoinVar(JoinType::Inner, l, r, none), Err(ParseError::Outside(7)));
}

#[test]
fn marking_reaches_the_whole_tree() {
    let t = JoinTree::Join {
        larg: Box::new(JoinTree::Rel { rtindex: 1 }),
        rarg: Box::new(JoinTree::Rel { rtindex: 2 }),
        rtindex: 3,
    };
    let mut n: Vec<Vec<i32>> = Vec::new();
    markRelsAsNulledBy(&mut n, &t, 5);
    markRelsAsNulledBy(&mut n, &t, 5);
    assert_eq!(n, vec![vec![5], vec![5], vec![5]]);
}

#[test]
fn the_left_side_is_exposed_and_hidden_again() {
    let before = vec![ns(9, 9)];
    let mut space = before.clone();
    let mut left = vec![ns(1, 1)];
    let n = expose_left(&mut space, &mut left, JoinType::Right);
    assert_eq!(space.len(), 2);
    assert!(space[1].lateral_only && !space[1].lateral_ok);
    hide_left(&mut space, n);
    assert_eq!(space, before);

    let saved = transformJoinOnClause(&mut space, &mut left);
    assert_eq!(saved, before);
    assert!(space.len() == 1 && !space[0].lateral_only && space[0].lateral_ok);
    setNamespaceLateralState(&mut space, true, true);
    assert!(space[0].lateral_only);
}

#[test]
fn from_items_become_visible_together() {
    let from = |rt: i32| FromItem {
        tree: JoinTree::Rel { rtindex: rt },
        namespace: vec![ns(rt as u64, rt)],
        conflict: None,
    };
    let mut space: Vec<NsItem> = Vec::new();
    let mut trees: Vec<JoinTree> = Vec::new();
    transformFromClause(&mut space, &mut trees, vec![Ok(from(1)), Ok(from(2))]).unwrap();
    assert_eq!((space.len(), trees.len()), (2, 2));
    assert!(space.iter().all(|n| !n.lateral_only && n.lateral_ok));
    let mut clash = from(3);
    clash.conflict = Some(4);
    let e = transformFromClause(&mut space, &mut trees, vec![Ok(clash)]);
    assert_eq!(e, Err(ParseError::Outside(4)));
    assert_eq!(transformFromClause(&mut space, &mut trees, vec![Err(6)]), Err(ParseError::Outside(6)));
    assert_eq!(space.len(), 2);
}

#[test]
fn comma_join_from_items_append_two_rtes() {
    let plain = FromNode::RangeVar { qualified: false, is_cte: false, is_enr: false };
    assert_eq!(transformFromClauseItem(plain), RangeEntry::Relation);
    let from = |rt: i32| FromItem {
        tree: JoinTree::Rel { rtindex: rt },
        namespace: vec![ns(rt as u64, rt)],
        conflict: None,
    };
    let mut space: Vec<NsItem> = Vec::new();
    let mut fromlist: Vec<JoinTree> = Vec::new();
    transformFromClause(&mut space, &mut fromlist, vec![Ok(from(1)), Ok(from(2))]).unwrap();
    assert_eq!(fromlist.len(), 2);
    assert!(matches!(fromlist[0], JoinTree::Rel { rtindex: 1 }));
    assert!(matches!(fromlist[1], JoinTree::Rel { rtindex: 2 }));
    assert_eq!(space.iter().map(|n| n.rtindex).collect::<Vec<_>>(), [1, 2]);
    assert!(space.iter().all(|n| n.rel_visible && n.cols_visible));
}

#[test]
fn unqualified_names_are_ctes_first() {
    let name = |qualified, is_cte, is_enr| {
        transformFromClauseItem(FromNode::RangeVar { qualified, is_cte, is_enr })
    };
    assert_eq!(name(false, true, true), RangeEntry::Cte);
    assert_eq!(name(false, false, true), RangeEntry::Enr);
    assert_eq!(name(true, true, true), RangeEntry::Relation);
    assert_eq!(transformFromClauseItem(FromNode::RangeTableFunc), RangeEntry::TableFunc);
}

fn sample() -> SampleClause {
    SampleClause {
        entry: RangeEntry::Relation,
        relkind: 'r',
        relation_location: 3,
        location: 9,
        handler: Ok(3313),
        rettype: Ok(TSM_HANDLEROID),
        param_types: Ok(vec![700]),
        args: vec![form(40, 700)],
        repeatable_across_queries: true,
        repeatable: None,
        method: strings(&["s", "bernoulli"]),
    }
}

#[test]
fn samples_are_transformed() {
    let mut s = sample();
    s.repeatable = Some(form(41, FLOAT8OID));
    let c = transformRangeTableSample(&s).ok().unwrap();
    assert_eq!(c.tsmhandler, 3313);
    assert_eq!(c.args.iter().map(|a| a.key).collect::<Vec<_>>(), [40]);
    assert_eq!(c.repeatable.map(|e| e.key), Some(41));
    let c = transformRangeTableSample(&sample()).ok().unwrap();
    assert!(c.repeatable.is_none());
    s.repeatable = Some(form(41, TEXTOID));
    assert_eq!(transformRangeTableSample(&s).err().unwrap().error, ParseError::Outside(70));
    s.args = vec![form(40, TEXTOID)];
    assert_eq!(transformRangeTableSample(&s).err().unwrap().error, ParseError::Outside(70));
}

#[test]
fn samples_are_checked() {
    let refusal = |s: &SampleClause| transformRangeTableSample(s).err().unwrap();
    let method = "s.bernoulli";
    assert!(can_be_sampled(RangeEntry::Relation, 'p') && !can_be_sampled(RangeEntry::Cte, 'r'));
    let mut s = sample();
    s.relkind = 'v';
    let e = refusal(&s);
    assert_eq!((e.error, e.name), (ParseError::SampleWrongRelkind { location: 3 }, None));
    says(
        e.error,
        "0A000",
        "TABLESAMPLE clause can only be applied to tables and materialized views",
    );
    let mut s = sample();
    s.handler = Ok(0);
    says_of(refusal(&s), method, "42704", "tablesample method s.bernoulli does not exist");
    let mut s = sample();
    s.rettype = Ok(16);
    says_of(
        refusal(&s),
        method,
        "42809",
        "function s.bernoulli must return type tsm_handler",
    );
    let mut s = sample();
    s.args = Vec::new();
    says_of(
        refusal(&s),
        method,
        "2202H",
        "tablesample method s.bernoulli requires 1 argument, not 0",
    );
    s.param_types = Ok(vec![700, 701]);
    says_of(
        refusal(&s),
        method,
        "2202H",
        "tablesample method s.bernoulli requires 2 arguments, not 0",
    );
    let mut s = sample();
    s.repeatable = Some(form(41, FLOAT8OID));
    s.repeatable_across_queries = false;
    says_of(
        refusal(&s),
        method,
        "0A000",
        "tablesample method s.bernoulli does not support REPEATABLE",
    );
    assert_eq!(name_list_to_string(&strings(&["a", "b", "c"])), "a.b.c");
    assert_eq!(name_list_to_string(&strings(&[])), "");
}

fn expr(key: u64, rtype: u32) -> Expr {
    Expr {
        tag: ExprTag::Other,
        key,
        rtype,
        typmod: -1,
        collation: 100,
        location: 7,
        implicit: false,
        arg: None,
        text_form: Err(71),
        agg_location: None,
        window_location: None,
        var_location: None,
        returns_set: false,
    }
}

#[test]
fn subqueries_show_their_result() {
    let te = |name: &str, resjunk: bool| TargetEntry {
        expr: expr(1, INT4OID),
        resno: 1,
        resname: Some(String::from(name)),
        ressortgroupref: 0,
        resjunk,
    };
    let query = |is_select, target_list| Ok(SubQuery { is_select, target_list });
    let mut flags = lowered();
    flags.enter(FlaggedItem::Subselect { lateral: true });
    assert!(flags.lateral_active && flags.in_subselect);
    let select = query(true, vec![te("a", false), te("b", true)]);
    let cols = match transformRangeSubselect(&select, &mut flags) {
        Ok(c) => c,
        Err(e) => panic!("{e:?}"),
    };
    assert_eq!(flags, lowered());
    assert_eq!(cols.len(), 1);
    assert_eq!(cols[0].name.as_deref(), Some("a"));
    assert_eq!((cols[0].typ, cols[0].typmod, cols[0].collation), (INT4OID, -1, 100));
    let e = transformRangeSubselect(&query(false, Vec::new()), &mut flags).err().unwrap();
    says(e, "XX000", "unexpected non-SELECT command in subquery in FROM");
}

fn reply(id: u64) -> FuncReply {
    FuncReply {
        transformed: Ok(id),
        last_srf: None,
        srf: None,
        has_vars: Ok(false),
        figured: format!("f{id}"),
    }
}

fn functions(d: &RangeFunctionDef) -> Result<RangeFunction, ParseError> {
    let mut flags = lowered();
    flags.enter(FlaggedItem::Function);
    assert!(flags.lateral_active && !flags.in_subselect);
    let r = transformRangeFunction(d, &mut flags);
    assert!(r.is_err() || flags == lowered());
    r
}

fn func(name: &str, nargs: usize) -> RangeFunc {
    RangeFunc {
        is_func_call: true,
        funcname: strings(&[name]),
        nargs,
        agg_order: false,
        agg_filter: false,
        over: false,
        agg_star: false,
        agg_distinct: false,
        func_variadic: false,
        ncoldefs: 0,
        location: 15,
        replies: vec![reply(1)],
    }
}

fn from_functions(functions: Vec<RangeFunc>) -> RangeFunctionDef {
    RangeFunctionDef {
        functions,
        is_rowsfrom: false,
        ordinality: false,
        lateral: false,
        ncoldefs: 0,
        coldeflist_location: 33,
        collations: None,
    }
}

#[test]
fn unnest_is_taken_apart() {
    let mut u = func("unnest", 2);
    assert!(is_taken_apart(&u));
    match item_call(&u, 1) {
        ItemCall::OneArgument { funcname, arg, location } => {
            assert_eq!((funcname, arg, location), (strings(&["pg_catalog", "unnest"]), 1, 15));
        }
        ItemCall::AsWritten => panic!("it is taken apart"),
    }
    assert!(matches!(item_call(&func("f", 2), 0), ItemCall::AsWritten));
    u.replies = vec![reply(1), reply(2)];
    u.replies[1].has_vars = Ok(true);
    let r = functions(&from_functions(vec![u])).ok().unwrap();
    assert_eq!(r.items.len(), 2);
    assert_eq!((r.funcexprs, r.funcnames), (vec![1, 2], strings(&["f1", "f2"])));
    assert_eq!(r.coldeflists, vec![Coldeflist::Of(0), Coldeflist::Of(0)]);
    assert!(r.is_lateral);
    assert!(!is_taken_apart(&func("unnest", 1)));
    assert!(!is_taken_apart(&func("generate_series", 2)));
}

#[test]
fn the_search_for_references_can_fail() {
    let mut u = func("unnest", 2);
    u.replies = vec![reply(1), reply(2)];
    u.replies[1].has_vars = Err(8);
    let mut d = from_functions(vec![u]);
    assert_eq!(functions(&d).err(), Some(ParseError::Outside(8)));
    d.functions[0].replies[0].has_vars = Ok(true);
    assert!(functions(&d).ok().unwrap().is_lateral);
    d.functions[0].replies[0].has_vars = Err(9);
    d.lateral = true;
    assert!(functions(&d).ok().unwrap().is_lateral);

    let mut t = xml(vec![xml_col("a")]);
    t.has_vars = Err(8);
    assert_eq!(refused(&t), ParseError::Outside(8));
    t.lateral = true;
    assert!(table(&t).ok().unwrap().is_lateral);
}

#[test]
fn column_definition_lists_are_checked() {
    let mut f = func("f", 1);
    f.ncoldefs = 1;
    let mut d = from_functions(vec![f]);
    d.ncoldefs = 2;
    let e = functions(&d).err().unwrap();
    says(e, "42601", "multiple column definition lists are not allowed for the same function");

    let mut d = from_functions(vec![func("f", 1)]);
    d.ncoldefs = 2;
    let r = functions(&d).ok().unwrap();
    assert_eq!(r.coldeflists, vec![Coldeflist::Whole]);
    d.ordinality = true;
    let e = functions(&d).err().unwrap();
    says(e, "42601", "WITH ORDINALITY cannot be used with a column definition list");

    let mut d = from_functions(vec![func("f", 1), func("g", 1)]);
    d.ncoldefs = 2;
    d.is_rowsfrom = true;
    let e = functions(&d).err().unwrap();
    says(e, "42601", "ROWS FROM() with multiple functions cannot have a column definition list");
    assert_eq!(
        error_hint(e),
        Some("Put a separate column definition list for each function inside ROWS FROM().")
    );
    d.is_rowsfrom = false;
    let e = functions(&d).err().unwrap();
    says(e, "42601", "UNNEST() with multiple arguments cannot have a column definition list");
}

#[test]
fn set_returning_functions_stand_at_top_level() {
    let s = |id| Some(Srf { id, location: 21 });
    assert_eq!(check_srf_top_level(None, None, 1), Ok(()));
    assert_eq!(check_srf_top_level(None, s(1), 1), Ok(()));
    assert_eq!(check_srf_top_level(s(5), s(5), 1), Ok(()));
    let e = check_srf_top_level(s(5), s(6), 1).unwrap_err();
    assert_eq!(e, ParseError::SrfNotTopLevel { location: 21 });
    says(e, "0A000", "set-returning functions must appear at top level of FROM");
}

fn xml_col(name: &str) -> TableFuncCol {
    TableFuncCol {
        name: String::from(name),
        for_ordinality: false,
        setof: false,
        typ: Ok((TEXTOID, -1)),
        collation: Ok(100),
        colexpr: None,
        default: None,
        is_not_null: false,
        location: 11,
    }
}

fn xml(columns: Vec<TableFuncCol>) -> RangeTableFunc {
    RangeTableFunc {
        rowexpr: form(50, TEXTOID),
        docexpr: form(51, XMLOID),
        columns,
        namespaces: Vec::new(),
        lateral: false,
        has_vars: Ok(true),
        location: 19,
    }
}

fn table(t: &RangeTableFunc) -> Result<TableFunc, (ParseError, Option<String>)> {
    let mut flags = lowered();
    flags.enter(FlaggedItem::TableFunc);
    assert!(flags.lateral_active);
    let r = transformRangeTableFunc(t, &mut flags);
    assert_eq!(flags, lowered());
    r.map_err(|e| (e.error, e.name))
}

fn refused(t: &RangeTableFunc) -> ParseError {
    table(t).err().unwrap().0
}

fn ordinality(name: &str) -> TableFuncCol {
    let mut c = xml_col(name);
    c.for_ordinality = true;
    c
}

#[test]
fn xmltable_columns() {
    let mut path = xml_col("a");
    path.colexpr = Some(form(52, TEXTOID));
    let t = table(&xml(vec![path, ordinality("n")])).ok().unwrap();
    assert_eq!(t.ordinalitycol, 1);
    assert_eq!((t.columns[0].typ, t.columns[1].typ), (TEXTOID, INT4OID));
    assert_eq!(t.colnames, strings(&["a", "n"]));
    let paths: Vec<_> = t.colexprs.iter().map(|e| e.as_ref().map(|e| e.key)).collect();
    assert_eq!(paths, [Some(52), None]);
    assert_eq!((t.rowexpr.key, t.docexpr.key, t.location), (50, 51, 19));
    assert!(t.is_lateral);
    says(
        refused(&xml(vec![ordinality("m"), ordinality("n")])),
        "42601",
        "only one FOR ORDINALITY column is allowed",
    );
    let (e, name) = table(&xml(vec![xml_col("v"), xml_col("x"), xml_col("x")])).err().unwrap();
    says(e, "42601", "column name \"x\" is not unique");
    assert_eq!(name.as_deref(), Some("x"));
    let mut set = xml_col("x");
    set.setof = true;
    let (e, name) = table(&xml(vec![set])).err().unwrap();
    says(e, "42P16", "column \"x\" cannot be declared SETOF");
    assert_eq!(name.as_deref(), Some("x"));
}

#[test]
fn xmltable_expressions_are_coerced() {
    let mut t = xml(vec![xml_col("a")]);
    t.docexpr = form(51, TEXTOID);
    assert_eq!(refused(&t), ParseError::Outside(70));
    t.rowexpr.transformed = Err(5);
    assert_eq!(refused(&t), ParseError::Outside(5));
    let mut path = xml_col("a");
    path.colexpr = Some(form(52, INT4OID));
    assert_eq!(refused(&xml(vec![path])), ParseError::Outside(70));
}

#[test]
fn xmltable_defaults() {
    let with = |coerced: Result<Option<Expr>, i32>| {
        let mut c = xml_col("a");
        let transformed = Ok(expr(1, INT4OID));
        c.default = Some(ColumnDefault { transformed, coerced, collate_error: None });
        table(&xml(vec![c]))
    };
    let t = with(Ok(Some(expr(2, TEXTOID)))).ok().unwrap();
    assert_eq!(t.defaults[0].as_ref().map(|e| e.key), Some(2));
    let e = with(Ok(None)).err().unwrap().0;
    says(e, "42846", "argument of XMLTABLE must be type integer, not type text");
    let mut s = expr(2, TEXTOID);
    s.returns_set = true;
    let e = with(Ok(Some(s))).err().unwrap().0;
    says(e, "42601", "argument of XMLTABLE must not return a set");
}

#[test]
fn xmltable_namespaces() {
    let with = |a: Option<&str>, b: Option<&str>| {
        let mut t = xml(vec![xml_col("a")]);
        for (k, n) in [a, b].into_iter().enumerate() {
            t.namespaces.push(TableFuncNamespace {
                name: n.map(String::from),
                uri: form(60 + k as u64, TEXTOID),
                location: 2,
            });
        }
        table(&t)
    };
    let t = with(Some("x"), None).ok().unwrap();
    assert_eq!(t.ns_names, vec![Some(String::from("x")), None]);
    let uris: Vec<_> = t.ns_uris.iter().map(|e| e.key).collect();
    assert_eq!(uris, [60, 61]);
    let (e, name) = with(Some("x"), Some("x")).err().unwrap();
    says(e, "42601", "namespace name \"x\" is not unique");
    assert_eq!(name.as_deref(), Some("x"));
    says(with(None, None).err().unwrap().0, "42601", "only one default namespace is allowed");
}

#[test]
fn targets_are_tables() {
    let mut st =
        TargetState { target_relation: Some(1), target_rtindex: 1, required_perms: 0, in_query: false };
    let mut rs = TargetReplies { close_error: None, opened: Ok((9, 2)), visible_error: None };
    assert!(closes_old_target(&st, false, false));
    let e = setTargetTable(&mut st, "new_rows", false, true, rs, true, 8).err().unwrap();
    says_of(
        e,
        "new_rows",
        "0A000",
        "relation \"new_rows\" cannot be the target of a modifying statement",
    );
    assert_eq!(setTargetTable(&mut st, "t", false, false, rs, true, 8).ok(), Some(2));
    assert_eq!((st.target_relation, st.required_perms, st.in_query), (Some(9), 8, true));
    rs.opened = Err(3);
    let e = setTargetTable(&mut st, "t", true, true, rs, true, 8).err().unwrap();
    assert_eq!((e.error, e.name), (ParseError::Outside(3), None));
    assert_eq!(st.target_relation, None);
    rs.opened = Ok((7, 4));
    rs.close_error = Some(5);
    rs.visible_error = Some(6);
    let e = setTargetTable(&mut st, "t", true, false, rs, true, 2).err().unwrap();
    assert_eq!(e.error, ParseError::Outside(6));
    assert_eq!((st.target_relation, st.target_rtindex, st.required_perms), (Some(7), 2, 2));
    let e = setTargetTable(&mut st, "t", true, false, rs, false, 2).err().unwrap();
    assert_eq!((e.error, st.target_relation), (ParseError::Outside(5), None));
    assert_eq!(setTargetTable(&mut st, "t", true, false, rs, false, 2).ok(), Some(4));
    assert!(!st.in_query);
}

#[test]
fn conditions_and_limits() {
    assert!(matches!(transformWhereClause(&None), Ok(None)));
    let bool_key = |c| transformWhereClause(&Some(c)).map(|e| e.map(|e| e.key));
    assert_eq!(bool_key(form(1, BOOLOID)), Ok(Some(1)));
    assert_eq!(bool_key(form(1, TEXTOID)), Err(ParseError::Outside(70)));
    let limit = |null: bool, ties: bool, kind: ParseExprKind| {
        let clause = Some(LimitDef { count: form(1, INT8OID), is_null_const: null });
        transformLimitClause(&clause, kind, ties)
    };
    assert!(limit(false, true, ParseExprKind::Limit).is_ok());
    assert!(limit(true, false, ParseExprKind::Limit).is_ok());
    assert!(limit(true, true, ParseExprKind::Offset).is_ok());
    let e = limit(true, true, ParseExprKind::Limit).err().unwrap();
    says(e, "2201W", "row count cannot be null in FETCH FIRST ... WITH TIES clause");
    let mut v = form(1, INT8OID);
    let mut var = expr(1, INT8OID);
    var.var_location = Some(4);
    v.coerced[0].expr = Ok(var);
    let clause = Some(LimitDef { count: v, is_null_const: false });
    let e = transformLimitClause(&clause, ParseExprKind::Limit, false).err().unwrap();
    assert_eq!(
        e,
        ParseError::ContainsVariables { construct: Construct::RowCount, location: 4 }
    );
    says(e, "42P10", "argument of LIMIT must not contain variables");
}

#[test]
fn select_1_limit_1_end_to_end() {
    let mut one = expr(1, INT4OID);
    one.location = 15;
    let mut cast = expr(2, INT8OID);
    cast.tag = ExprTag::FuncExpr;
    cast.implicit = true;
    cast.collation = 0;
    cast.arg = Some(Box::new(one.dup()));
    let count = Coercible {
        transformed: Ok(one),
        coerced: vec![CoercedForm { typ: INT8OID, expr: Ok(cast) }],
        other: 70,
    };
    assert!(matches!(transformLimitClause(&None, ParseExprKind::Offset, false), Ok(None)));
    let clause = Some(LimitDef { count, is_null_const: false });
    let f = transformLimitClause(&clause, ParseExprKind::Limit, false).ok().unwrap().unwrap();
    assert_eq!((f.tag, f.rtype), (ExprTag::FuncExpr, INT8OID));
    assert!(f.implicit && !f.returns_set);
    assert_eq!(f.collation, 0);
    let arg = f.arg.unwrap();
    assert_eq!((arg.rtype, arg.location), (INT4OID, 15));
}

fn index() -> IndexStmt {
    let elem = |name: Option<&str>, expr| IndexElem { colname: name.map(String::from), expr };
    IndexStmt {
        transformed: false,
        where_clause: Slot::Raw,
        params: vec![
            elem(None, Slot::Raw),
            elem(Some("c"), Slot::Raw),
            elem(Some("d"), Slot::Empty),
        ],
    }
}

fn index_replies() -> IndexReplies {
    let key = |k: u64, figured: &str| KeyReply {
        figured: Some(String::from(figured)),
        transformed: Ok(expr(k, TEXTOID)),
    };
    IndexReplies {
        open_error: None,
        predicate: form(80, BOOLOID),
        keys: vec![key(81, "lower"), key(82, "upper"), key(83, "unused")],
        rtable_len: 1,
        close_error: None,
    }
}

fn made(s: &Slot) -> Option<u64> {
    match s {
        Slot::Made(e) => Some(e.key),
        _ => None,
    }
}

#[test]
fn index_expressions_are_transformed_in_place() {
    let mut s = index();
    assert_eq!(transformIndexStmt(&mut s, &index_replies()), Ok(()));
    assert!(s.transformed);
    assert_eq!(made(&s.where_clause), Some(80));
    let got: Vec<_> = s.params.iter().map(|p| (p.colname.as_deref(), made(&p.expr))).collect();
    assert_eq!(got, [(Some("lower"), Some(81)), (Some("c"), Some(82)), (Some("d"), None)]);
    let mut again = index_replies();
    again.keys[0].transformed = Err(9);
    assert_eq!(transformIndexStmt(&mut s, &again), Ok(()));

    let mut s = index();
    let mut rs = index_replies();
    rs.keys[1].transformed = Err(9);
    assert_eq!(transformIndexStmt(&mut s, &rs), Err(ParseError::Outside(9)));
    assert!(!s.transformed);
    let got: Vec<_> = s.params.iter().map(|p| (p.colname.as_deref(), made(&p.expr))).collect();
    assert_eq!(got, [(Some("lower"), Some(81)), (Some("c"), None), (Some("d"), None)]);

    let mut s = index();
    let mut rs = index_replies();
    rs.predicate = form(80, TEXTOID);
    assert_eq!(transformIndexStmt(&mut s, &rs), Err(ParseError::Outside(70)));
    assert!(matches!(s.where_clause, Slot::Raw) && s.params[0].colname.is_none());
}

#[test]
fn index_and_statistics_expressions_name_one_table() {
    let mut rs = index_replies();
    rs.rtable_len = 2;
    says(
        transformIndexStmt(&mut index(), &rs).err().unwrap(),
        "42P10",
        "index expressions and predicates can refer only to the table being indexed",
    );
    let mut st = StatsStmt { transformed: false, exprs: vec![Slot::Empty, Slot::Raw] };
    let mut rs = StatsReplies {
        open_error: None,
        exprs: vec![Err(3), Ok(expr(85, INT4OID))],
        rtable_len: 2,
        close_error: None,
    };
    says(
        transformStatsStmt(&mut st, &rs).unwrap_err(),
        "42P10",
        "statistics expressions can refer only to the table being referenced",
    );
    assert!(!st.transformed);
    rs.rtable_len = 1;
    assert_eq!(transformStatsStmt(&mut st, &rs), Ok(()));
    assert!(st.transformed);
    assert_eq!((made(&st.exprs[0]), made(&st.exprs[1])), (None, Some(85)));
}

fn key(ordering: SortByDir, nulls_ordering: SortByNulls) -> InferKey {
    InferKey {
        ordering,
        nulls_ordering,
        transformed: Ok(expr(1, INT4OID)),
        collation: None,
        opclass: Some(Ok(1978)),
    }
}

fn infer(k: InferKey) -> Option<InferClause> {
    Some(InferClause { elems: vec![k], where_clause: None, constraint: None, location: 44 })
}

#[test]
fn on_conflict_arbiters() {
    let mut perm = PermInfo { required_perms: 1, selected_cols: vec![8] };
    let plain = infer(key(SortByDir::Default, SortByNulls::Default));
    let a = transformOnConflictArbiter(true, &plain, false, 5, &mut perm).ok().unwrap();
    assert_eq!((a.elems.len(), a.constraint), (1, 0));
    assert_eq!((a.elems[0].infercollid, a.elems[0].inferopclass), (0, 1978));
    assert_eq!((perm.required_perms, perm.selected_cols.clone()), (1, vec![8]));

    let named = Some(InferClause {
        elems: Vec::new(),
        where_clause: None,
        constraint: Some(Ok((777, vec![1, 2]))),
        location: 44,
    });
    let a = transformOnConflictArbiter(true, &named, false, 5, &mut perm).ok().unwrap();
    assert_eq!(a.constraint, 777);
    assert_eq!((perm.required_perms, perm.selected_cols.clone()), (3, vec![8, 9]));

    let a = transformOnConflictArbiter(false, &None, false, 5, &mut perm).ok().unwrap();
    assert!(a.elems.is_empty() && a.where_clause.is_none());
}

#[test]
fn the_arbiter_predicate_is_not_coerced() {
    let mut perm = PermInfo { required_perms: 0, selected_cols: Vec::new() };
    let mut c = infer(key(SortByDir::Default, SortByNulls::Default));
    c.as_mut().unwrap().where_clause = Some(Ok(expr(33, TEXTOID)));
    let a = transformOnConflictArbiter(true, &c, false, 5, &mut perm).ok().unwrap();
    assert_eq!(a.where_clause.map(|e| (e.key, e.rtype)), Some((33, TEXTOID)));
    c.as_mut().unwrap().where_clause = Some(Err(9));
    let e = transformOnConflictArbiter(true, &c, false, 5, &mut perm).err();
    assert_eq!(e, Some(ParseError::Outside(9)));
}

#[test]
fn insert_on_conflict_error_shapes() {
    let mut perm = PermInfo { required_perms: 0, selected_cols: Vec::new() };
    let e = transformOnConflictArbiter(true, &None, false, 5, &mut perm).err().unwrap();
    says(e, "42601", "ON CONFLICT DO UPDATE requires inference specification or constraint name");
    let x = infer(key(SortByDir::Default, SortByNulls::Default));
    let e = transformOnConflictArbiter(false, &x, true, 5, &mut perm).err().unwrap();
    says(e, "0A000", "ON CONFLICT is not supported with system catalog tables");
    let desc = infer(key(SortByDir::Desc, SortByNulls::Default));
    let e = transformOnConflictArbiter(false, &desc, false, 5, &mut perm).err().unwrap();
    says(e, "0A000", "ASC/DESC is not allowed in ON CONFLICT clause");
    let mut nope = key(SortByDir::Default, SortByNulls::Default);
    nope.transformed = Err(42703);
    let e = transformOnConflictArbiter(false, &infer(nope), false, 5, &mut perm).err();
    assert_eq!(e, Some(ParseError::Outside(42703)));
}

#[test]
fn on_conflict_refusals() {
    let mut perm = PermInfo { required_perms: 0, selected_cols: Vec::new() };
    let e = transformOnConflictArbiter(true, &None, false, 5, &mut perm).err().unwrap();
    says(e, "42601", "ON CONFLICT DO UPDATE requires inference specification or constraint name");
    assert_eq!(error_hint(e), Some("For example, ON CONFLICT (column_name)."));
    let plain = infer(key(SortByDir::Default, SortByNulls::Default));
    let e = transformOnConflictArbiter(false, &plain, true, 5, &mut perm).err().unwrap();
    says(e, "0A000", "ON CONFLICT is not supported with system catalog tables");
    let desc = infer(key(SortByDir::Desc, SortByNulls::Default));
    let e = transformOnConflictArbiter(false, &desc, false, 5, &mut perm).err().unwrap();
    assert_eq!(e, ParseError::ConflictOrdering { location: 44 });
    says(e, "0A000", "ASC/DESC is not allowed in ON CONFLICT clause");
    let nulls = infer(key(SortByDir::Default, SortByNulls::First));
    let e = transformOnConflictArbiter(false, &nulls, false, 5, &mut perm).err().unwrap();
    says(e, "0A000", "NULLS FIRST/LAST is not allowed in ON CONFLICT clause");
}
