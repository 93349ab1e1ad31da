use pgrust::parse_agg_lists::{transform_agg_order_distinct, transform_agg_within_group};
use pgrust::parse_distinct::transformDistinctClause;
use pgrust::parse_distinct_on::transformDistinctOnClause;
use pgrust::parse_error::{
    error_detail, error_hint, error_location, error_message, error_sqlstate, ErrorNames,
};
use pgrust::parse_coerce::{CoercedForm, Coercible};
use pgrust::parse_frame::{
    FRAMEOPTION_DEFAULTS, FRAMEOPTION_GROUPS, FRAMEOPTION_RANGE, FRAMEOPTION_ROWS,
};
use pgrust::parse_group::{GroupNode, GroupRule, RawSetKind};
use pgrust::parse_group_clause::{transformGroupClause, GroupClause, GroupingSetKind};
use pgrust::parse_nodes::{
    strip_implicit_coercions, AmprocRow, Catalog, CoercionRow, CommutatorRow, Expr, ExprTag,
    OrderingRow, ParseError, ParseExprKind, ParseFlags, RawExpr, RawKind, SortBy, SortByDir,
    SortByNulls, SortOps, TargetEntry, TypeRow, UsingOperator, INT4OID, INT8OID, TEXTOID,
    UNKNOWNOID,
};
use pgrust::parse_sort::{assignSortGroupRef, targetIsInSortList, transformSortClause};
use pgrust::parse_window::{transformWindowDefinitions, WindowClause, WindowDef};

const PLAIN: ParseFlags = ParseFlags { has_aggs: false, has_window_funcs: false };

fn expr(key: u64, rtype: u32) -> Expr {
    Expr {
        tag: ExprTag::Var,
        key,
        rtype,
        typmod: -1,
        collation: 0,
        location: 7,
        implicit: false,
        arg: None,
        text_form: Err(71),
        agg_location: None,
        window_location: None,
        var_location: None,
        returns_set: false,
    }
}

fn entry(e: Expr, resno: i16, name: &str) -> TargetEntry {
    TargetEntry { expr: e, resno, resname: Some(String::from(name)), ressortgroupref: 0, resjunk: false }
}

fn raw(kind: RawKind, e: Expr) -> RawExpr {
    RawExpr { kind, location: 18, from_column: Ok(false), transformed: Ok(e) }
}

fn item(key: u64) -> RawExpr {
    raw(RawKind::Other, expr(key, INT4OID))
}

fn column(name: &str, key: u64) -> RawExpr {
    raw(RawKind::ColumnName(String::from(name)), expr(key, INT4OID))
}

fn no_using() -> UsingOperator {
    UsingOperator { opid: Err(72), eqop: 0, reverse: false, hashable: false }
}

fn sort_by(node: RawExpr, dir: SortByDir) -> SortBy {
    SortBy { node, dir, nulls: SortByNulls::Default, using: no_using(), location: -1 }
}

fn catalog() -> Catalog {
    Catalog {
        types: vec![
            TypeRow {
                typ: INT4OID,
                ascending: Some(SortOps { sortop: 97, eqop: 96, hashable: true }),
                descending: Some(SortOps { sortop: 521, eqop: 96, hashable: true }),
                grouping: Some(SortOps { sortop: 97, eqop: 96, hashable: true }),
            },
            TypeRow {
                typ: TEXTOID,
                ascending: Some(SortOps { sortop: 664, eqop: 98, hashable: true }),
                descending: Some(SortOps { sortop: 666, eqop: 98, hashable: true }),
                grouping: Some(SortOps { sortop: 664, eqop: 98, hashable: true }),
            },
            TypeRow {
                typ: 28,
                ascending: None,
                descending: None,
                grouping: Some(SortOps { sortop: 0, eqop: 352, hashable: true }),
            },
        ],
        commutators: vec![
            CommutatorRow { op: 97, commutator: 521 },
            CommutatorRow { op: 521, commutator: 97 },
        ],
        orderings: vec![
            OrderingRow { op: 97, family: 1976, opcintype: INT4OID },
            OrderingRow { op: 521, family: 1976, opcintype: INT4OID },
            OrderingRow { op: 664, family: 1994, opcintype: TEXTOID },
            OrderingRow { op: 666, family: 1994, opcintype: TEXTOID },
        ],
        amprocs: vec![
            AmprocRow { family: 1976, lefttype: INT4OID, amprocnum: 1, righttype: INT4OID, amproc: 351 },
            AmprocRow { family: 1976, lefttype: INT4OID, amprocnum: 3, righttype: INT8OID, amproc: 4127 },
            AmprocRow { family: 1976, lefttype: INT4OID, amprocnum: 3, righttype: INT4OID, amproc: 4128 },
        ],
        coercions: vec![CoercionRow { from: INT4OID, to: INT8OID }, CoercionRow { from: 21, to: INT8OID }, CoercionRow { from: 21, to: INT4OID }],
    }
}

fn names() -> ErrorNames {
    ErrorNames {
        name: String::from("w"),
        kind_name: String::from("ORDER BY"),
        row_count: String::from("LIMIT"),
        main_type: String::from("integer"),
        other_type: String::from("text"),
    }
}

fn says(e: ParseError, code: &str, text: &str) {
    assert_eq!(error_sqlstate(e), Some(code), "{e:?}");
    assert_eq!(error_message(e, &names()).as_deref(), Some(text), "{e:?}");
}

#[test]
fn select_1_order_by_1_end_to_end() {
    let mut tl = vec![entry(expr(1, INT4OID), 1, "?column?")];
    let s = transformSortClause(
        &vec![sort_by(raw(RawKind::IntegerConst(1), expr(9, INT4OID)), SortByDir::Default)],
        &mut tl,
        ParseExprKind::OrderBy,
        false,
        PLAIN,
        &catalog(),
    )
    .unwrap();
    assert_eq!(s.len(), 1);
    assert_eq!(s[0].tleSortGroupRef, 1);
    assert_eq!((s[0].eqop, s[0].sortop), (96, 97));
    assert!(!s[0].reverse_sort && !s[0].nulls_first && s[0].hashable);
    assert_eq!(tl[0].ressortgroupref, 1);
    assert!(!tl[0].resjunk);
}

#[test]
fn order_by_adds_what_is_not_selected() {
    let mut tl = vec![entry(expr(1, INT4OID), 1, "x")];
    let s = transformSortClause(
        &vec![sort_by(item(2), SortByDir::Desc), sort_by(column("x", 1), SortByDir::Asc)],
        &mut tl,
        ParseExprKind::OrderBy,
        false,
        PLAIN,
        &catalog(),
    )
    .unwrap();
    assert_eq!(tl.len(), 2);
    assert!(tl[1].resjunk && tl[1].resname.is_none() && tl[1].resno == 2);
    assert_eq!((s[0].tleSortGroupRef, s[0].sortop), (1, 521));
    assert!(s[0].reverse_sort && s[0].nulls_first);
    assert_eq!((s[1].tleSortGroupRef, tl[0].ressortgroupref), (2, 2));
}

#[test]
fn sorting_the_other_way_round_again_is_dropped() {
    let mut tl = vec![entry(expr(1, INT4OID), 1, "x")];
    let s = transformSortClause(
        &vec![sort_by(column("x", 1), SortByDir::Asc), sort_by(column("x", 1), SortByDir::Desc)],
        &mut tl,
        ParseExprKind::OrderBy,
        false,
        PLAIN,
        &catalog(),
    )
    .unwrap();
    assert_eq!(s.len(), 1);
    assert!(targetIsInSortList(1, 97, &s, &catalog()));
    assert!(targetIsInSortList(1, 521, &s, &catalog()));
    assert!(targetIsInSortList(1, 0, &s, &catalog()));
    assert!(!targetIsInSortList(1, 664, &s, &catalog()));
    assert!(!targetIsInSortList(0, 0, &s, &catalog()));
}

#[test]
fn unknown_literals_are_sorted_as_text() {
    let mut e = expr(1, UNKNOWNOID);
    e.text_form = Ok(Box::new(expr(11, TEXTOID)));
    let mut tl = vec![entry(e, 1, "l")];
    let by = vec![sort_by(column("l", 1), SortByDir::Asc)];
    let s = transformSortClause(&by, &mut tl, ParseExprKind::OrderBy, false, PLAIN, &catalog());
    assert_eq!(s.unwrap()[0].sortop, 664);
    assert_eq!((tl[0].expr.key, tl[0].expr.rtype), (11, TEXTOID));

    let mut tl = vec![entry(expr(1, UNKNOWNOID), 1, "l")];
    let s = transformSortClause(&by, &mut tl, ParseExprKind::OrderBy, false, PLAIN, &catalog());
    assert_eq!(s, Err(ParseError::Outside(71)));
}

#[test]
fn order_by_refusals() {
    let sorted = |r: RawExpr, dir: SortByDir| {
        let mut tl = vec![entry(expr(1, INT4OID), 1, "x"), entry(expr(2, INT4OID), 2, "x")];
        transformSortClause(
            &vec![sort_by(r, dir)],
            &mut tl,
            ParseExprKind::OrderBy,
            false,
            PLAIN,
            &catalog(),
        )
        .unwrap_err()
    };
    let e = sorted(column("x", 1), SortByDir::Asc);
    assert_eq!(e, ParseError::AmbiguousColumn { kind: ParseExprKind::OrderBy, location: 18 });
    says(e, "42702", "ORDER BY \"w\" is ambiguous");
    let e = sorted(raw(RawKind::IntegerConst(3), expr(9, INT4OID)), SortByDir::Asc);
    says(e, "42P10", "ORDER BY position 3 is not in select list");
    let e = sorted(raw(RawKind::IntegerConst(-1), expr(9, INT4OID)), SortByDir::Asc);
    says(e, "42P10", "ORDER BY position -1 is not in select list");
    let e = sorted(raw(RawKind::OtherConst, expr(9, INT4OID)), SortByDir::Asc);
    says(e, "42601", "non-integer constant in ORDER BY");
    let e = sorted(raw(RawKind::Other, expr(9, 28)), SortByDir::Asc);
    assert_eq!(e, ParseError::NoSortOperator { typ: 28, location: 18 });
    assert_eq!(error_message(e, &names()), None);
    let mut bad = item(9);
    bad.transformed = Err(55);
    assert_eq!(sorted(bad, SortByDir::Asc), ParseError::Outside(55));
}

#[test]
fn duplicate_names_of_one_value_are_not_ambiguous() {
    let mut tl = vec![entry(expr(1, INT4OID), 1, "x"), entry(expr(1, INT4OID), 2, "x")];
    let by = vec![sort_by(column("x", 1), SortByDir::Asc)];
    let s = transformSortClause(&by, &mut tl, ParseExprKind::OrderBy, false, PLAIN, &catalog());
    assert_eq!(s.unwrap()[0].tleSortGroupRef, 1);
    assert_eq!((tl[0].ressortgroupref, tl[1].ressortgroupref), (1, 0));
}

#[test]
fn using_operators_must_order() {
    let mut by = vec![sort_by(item(1), SortByDir::Using)];
    by[0].using = UsingOperator { opid: Ok(97), eqop: 96, reverse: false, hashable: true };
    let mut tl = vec![entry(expr(1, INT4OID), 1, "x")];
    let s = transformSortClause(&by, &mut tl, ParseExprKind::OrderBy, true, PLAIN, &catalog());
    assert_eq!(s.unwrap()[0].sortop, 97);
    by[0].using = UsingOperator { opid: Ok(96), eqop: 0, reverse: false, hashable: true };
    let e = transformSortClause(&by, &mut tl, ParseExprKind::OrderBy, true, PLAIN, &catalog())
        .unwrap_err();
    says(e, "42809", "operator w is not a valid ordering operator");
    assert_eq!(
        error_hint(e),
        Some("Ordering operators must be \"<\" or \">\" members of btree operator families.")
    );
    by[0].using = no_using();
    let e = transformSortClause(&by, &mut tl, ParseExprKind::OrderBy, true, PLAIN, &catalog());
    assert_eq!(e, Err(ParseError::Outside(72)));
}

#[test]
fn null_order_can_be_written() {
    let mut by = vec![sort_by(item(1), SortByDir::Asc)];
    by[0].nulls = SortByNulls::First;
    let mut tl = vec![entry(expr(1, INT4OID), 1, "x")];
    let s = transformSortClause(&by, &mut tl, ParseExprKind::OrderBy, true, PLAIN, &catalog());
    let s = s.unwrap();
    assert!(s[0].nulls_first && !s[0].reverse_sort);
}

#[test]
fn implicit_coercions_are_looked_through() {
    let mut c = expr(5, INT8OID);
    c.tag = ExprTag::FuncExpr;
    c.implicit = true;
    c.arg = Some(Box::new(expr(1, INT4OID)));
    assert_eq!(strip_implicit_coercions(&c).key, 1);
    let mut tl = vec![entry(c, 1, "x")];
    let by = vec![sort_by(item(1), SortByDir::Asc)];
    let s = transformSortClause(&by, &mut tl, ParseExprKind::OrderBy, true, PLAIN, &catalog());
    assert!(s.is_err() && tl.len() == 1);
}

#[test]
fn numbers_are_given_once() {
    let mut tl = vec![entry(expr(1, INT4OID), 1, "a"), entry(expr(2, INT4OID), 2, "b")];
    tl[1].ressortgroupref = 4;
    assert_eq!(assignSortGroupRef(&mut tl, 0), 5);
    assert_eq!(assignSortGroupRef(&mut tl, 0), 5);
    assert_eq!(assignSortGroupRef(&mut tl, 1), 4);
}

fn rule() -> GroupRule {
    GroupRule { kind: ParseExprKind::GroupBy, use_sql99: false, flags: PLAIN }
}

fn two() -> Vec<TargetEntry> {
    vec![entry(expr(1, INT4OID), 1, "x"), entry(expr(2, INT4OID), 2, "y")]
}

fn group(list: Vec<GroupNode>, tl: &mut Vec<TargetEntry>) -> Result<GroupClause, ParseError> {
    transformGroupClause(list, tl, &Vec::new(), rule(), &catalog())
}

fn set(kind: RawSetKind, content: Vec<GroupNode>) -> GroupNode {
    GroupNode::GroupingSet { kind, content, location: 30 }
}

fn one(key: u64) -> GroupNode {
    GroupNode::Item(item(key))
}

#[test]
fn plain_group_by() {
    let mut tl = two();
    let g = group(vec![one(1), one(1)], &mut tl).unwrap();
    assert!(g.grouping_sets.is_empty());
    assert_eq!(g.group_clause.len(), 1);
    let gc = g.group_clause[0];
    assert_eq!(gc.tleSortGroupRef, tl[0].ressortgroupref);
    assert!(tl[0].ressortgroupref > 0);
    assert_eq!((gc.eqop, gc.sortop, gc.hashable), (96, 97, true));
    assert!(!gc.reverse_sort && !gc.nulls_first);
}

#[test]
fn group_by_rollup_end_to_end() {
    let mut tl = two();
    let g = group(vec![set(RawSetKind::Rollup, vec![one(1), one(2)])], &mut tl).unwrap();
    assert_eq!(g.group_clause.len(), 2);
    let (r0, r1) = (tl[0].ressortgroupref, tl[1].ressortgroupref);
    assert!(r0 > 0 && r1 > 0);
    assert_eq!(g.grouping_sets.len(), 1);
    let gs = &g.grouping_sets[0];
    assert_eq!(gs.kind, GroupingSetKind::Rollup);
    assert_eq!(gs.content.len(), 2);
    assert_eq!(gs.content[0].kind, GroupingSetKind::Simple);
    assert_eq!(gs.content[0].refs, [r0]);
    assert_eq!(gs.content[1].kind, GroupingSetKind::Simple);
    assert_eq!(gs.content[1].refs, [r1]);
}

#[test]
fn group_by_cube_end_to_end() {
    let mut tl = two();
    let g = group(vec![set(RawSetKind::Cube, vec![one(1), one(2)])], &mut tl).unwrap();
    assert_eq!(g.group_clause.len(), 2);
    assert_eq!(g.grouping_sets.len(), 1);
    assert_eq!(g.grouping_sets[0].kind, GroupingSetKind::Cube);
    assert_eq!(g.grouping_sets[0].content.len(), 2);
}

#[test]
fn group_by_grouping_sets_end_to_end() {
    let mut tl = two();
    let sets = vec![one(1), one(2), set(RawSetKind::Empty, vec![])];
    let g = group(vec![set(RawSetKind::Sets, sets)], &mut tl).unwrap();
    assert_eq!(g.group_clause.len(), 2);
    assert_eq!(g.grouping_sets.len(), 1);
    let gs = &g.grouping_sets[0];
    assert_eq!(gs.content[0].kind, GroupingSetKind::Simple);
    assert_eq!(gs.content[1].kind, GroupingSetKind::Simple);
    assert_eq!(gs.kind, GroupingSetKind::Sets);
    assert_eq!(gs.content.len(), 3);
    assert_eq!(gs.content[0].refs, [tl[0].ressortgroupref]);
    assert_eq!(gs.content[1].refs, [tl[1].ressortgroupref]);
    assert_eq!(gs.content[2].kind, GroupingSetKind::Empty);
    assert!(gs.content[2].content.is_empty());
}

#[test]
fn nested_grouping_sets_are_merged() {
    let mut tl = two();
    let inner = set(RawSetKind::Sets, vec![one(1), one(2)]);
    let g = group(vec![set(RawSetKind::Sets, vec![inner, one(1)])], &mut tl).unwrap();
    assert_eq!(g.grouping_sets[0].content.len(), 3);
    assert!(g.grouping_sets[0].content.iter().all(|s| s.kind == GroupingSetKind::Simple));
    assert_eq!(g.group_clause.len(), 2);
}

#[test]
fn an_implicit_row_is_grouped_by_together() {
    let mut tl = two();
    let row = GroupNode::Row { implicit: true, args: vec![one(1), one(2), one(1)], whole: item(77) };
    let g = group(vec![set(RawSetKind::Sets, vec![row])], &mut tl).unwrap();
    assert_eq!(g.grouping_sets[0].content.len(), 1);
    assert_eq!(g.grouping_sets[0].content[0].refs, [1, 2]);
    assert_eq!(tl.len(), 2);
    let row = GroupNode::Row { implicit: false, args: vec![one(1)], whole: item(77) };
    group(vec![row], &mut tl).unwrap();
    assert_eq!(tl.len(), 3);
    assert!(tl[2].resjunk);
}

#[test]
fn only_empty_sets_leave_one() {
    let mut tl = two();
    let g = group(vec![set(RawSetKind::Empty, vec![]), set(RawSetKind::Empty, vec![])], &mut tl);
    let g = g.unwrap();
    assert!(g.group_clause.is_empty());
    assert_eq!(g.grouping_sets.len(), 1);
    assert_eq!(g.grouping_sets[0].kind, GroupingSetKind::Empty);
    assert_eq!(g.grouping_sets[0].location, 30);
}

#[test]
fn select_group_by_end_to_end() {
    let mut tl = vec![entry(expr(1, INT4OID), 1, "x"), entry(expr(2, INT8OID), 2, "count")];
    let g = group(vec![GroupNode::Item(column("x", 1))], &mut tl).unwrap();
    assert!(g.grouping_sets.is_empty());
    assert_eq!(g.group_clause.len(), 1);
    let gc = g.group_clause[0];
    assert_eq!(tl[0].resname.as_deref(), Some("x"));
    assert_eq!(gc.tleSortGroupRef, tl[0].ressortgroupref);
    assert!(tl[0].ressortgroupref > 0);
    assert_eq!((gc.eqop, gc.sortop, gc.hashable), (96, 97, true));
    assert!(!gc.reverse_sort && !gc.nulls_first);
}

#[test]
fn group_by_empty_parens_end_to_end() {
    let mut tl = vec![entry(expr(1, INT8OID), 1, "count")];
    let g = group(vec![set(RawSetKind::Empty, vec![])], &mut tl).unwrap();
    assert!(g.group_clause.is_empty());
    assert_eq!(g.grouping_sets.len(), 1);
    let gs = &g.grouping_sets[0];
    assert_eq!(gs.kind, GroupingSetKind::Empty);
    assert!(gs.content.is_empty());

    let mut tl = vec![entry(expr(1, INT4OID), 1, "?column?")];
    let g = group(vec![set(RawSetKind::Empty, vec![])], &mut tl).unwrap();
    assert_eq!(g.grouping_sets.len(), 1);
}

#[test]
fn cube_with_13_elements_is_54011() {
    let mut tl = two();
    let content: Vec<GroupNode> = (0..13).map(|_| one(1)).collect();
    let e = group(vec![set(RawSetKind::Cube, content)], &mut tl).err().unwrap();
    says(e, "54011", "CUBE is limited to 12 elements");
    let content: Vec<GroupNode> = (0..12).map(|_| one(1)).collect();
    assert!(group(vec![set(RawSetKind::Cube, content)], &mut tl).is_ok());
}

#[test]
fn order_by_lends_its_operators_to_group_by() {
    let mut tl = two();
    let by = vec![sort_by(column("x", 1), SortByDir::Desc)];
    let sc =
        transformSortClause(&by, &mut tl, ParseExprKind::OrderBy, false, PLAIN, &catalog()).unwrap();
    let g = transformGroupClause(vec![one(1)], &mut tl, &sc, rule(), &catalog()).unwrap();
    assert_eq!(g.group_clause[0], sc[0]);
    let nested = vec![set(RawSetKind::Rollup, vec![one(1)])];
    let g = transformGroupClause(nested, &mut tl, &sc, rule(), &catalog()).unwrap();
    assert!(g.group_clause[0].reverse_sort && !g.group_clause[0].nulls_first);
}

#[test]
fn group_by_prefers_a_column_and_refuses_aggregates() {
    let mut tl = two();
    let mut c = column("y", 5);
    c.from_column = Ok(true);
    group(vec![GroupNode::Item(c)], &mut tl).unwrap();
    assert_eq!(tl.len(), 3);

    let mut agg = expr(1, INT4OID);
    agg.agg_location = Some(12);
    let mut tl = vec![entry(agg, 1, "n")];
    let mut r = rule();
    r.flags.has_aggs = true;
    let e = transformGroupClause(
        vec![GroupNode::Item(column("n", 1))],
        &mut tl,
        &Vec::new(),
        r,
        &catalog(),
    )
    .err()
    .unwrap();
    assert_eq!(e, ParseError::AggregateInGroupBy { location: 12 });
    assert_eq!(error_location(e), Some(12));
    assert_eq!(error_sqlstate(e), Some("42803"));

    let mut win = expr(1, INT4OID);
    win.window_location = Some(13);
    let mut tl = vec![entry(win, 1, "n")];
    r.flags.has_window_funcs = true;
    let e = transformGroupClause(
        vec![GroupNode::Item(column("n", 1))],
        &mut tl,
        &Vec::new(),
        r,
        &catalog(),
    )
    .err()
    .unwrap();
    assert_eq!(e, ParseError::WindowInGroupBy { location: 13 });
}

#[test]
fn lists_are_not_items() {
    let mut tl = two();
    let e = group(vec![GroupNode::List { items: vec![one(1)] }], &mut tl).err();
    assert_eq!(e, Some(ParseError::UnexpectedGroupItem));
}

#[test]
fn distinct_groups_by_the_whole_result() {
    let mut tl = two();
    let by = vec![sort_by(column("y", 2), SortByDir::Desc)];
    let sc =
        transformSortClause(&by, &mut tl, ParseExprKind::OrderBy, false, PLAIN, &catalog()).unwrap();
    let d = transformDistinctClause(&mut tl, &sc, false, &catalog()).unwrap();
    assert_eq!(d.len(), 2);
    assert_eq!(d[0], sc[0]);
    assert_eq!(d[1].tleSortGroupRef, tl[0].ressortgroupref);
}

#[test]
fn distinct_refusals() {
    let mut tl = two();
    let by = vec![sort_by(item(9), SortByDir::Asc)];
    let sc =
        transformSortClause(&by, &mut tl, ParseExprKind::OrderBy, false, PLAIN, &catalog()).unwrap();
    let e = transformDistinctClause(&mut tl, &sc, false, &catalog()).unwrap_err();
    says(e, "42P10", "for SELECT DISTINCT, ORDER BY expressions must appear in select list");
    let e = transformDistinctClause(&mut tl, &sc, true, &catalog()).unwrap_err();
    says(
        e,
        "42P10",
        "in an aggregate with DISTINCT, ORDER BY expressions must appear in argument list",
    );
    let mut none: Vec<TargetEntry> = Vec::new();
    let e = transformDistinctClause(&mut none, &Vec::new(), false, &catalog()).unwrap_err();
    says(e, "42601", "SELECT DISTINCT must have at least one column");
    let e = transformDistinctClause(&mut none, &Vec::new(), true, &catalog()).unwrap_err();
    says(e, "42601", "an aggregate with DISTINCT must have at least one argument");
}

#[test]
fn distinct_on_must_lead_order_by() {
    let order = |tl: &mut Vec<TargetEntry>, keys: &[u64]| {
        let by: Vec<SortBy> = keys.iter().map(|k| sort_by(item(*k), SortByDir::Desc)).collect();
        transformSortClause(&by, tl, ParseExprKind::OrderBy, false, PLAIN, &catalog()).unwrap()
    };
    let mut tl = two();
    let sc = order(&mut tl, &[1, 2]);
    let d = transformDistinctOnClause(&vec![item(1)], &mut tl, &sc, PLAIN, &catalog()).unwrap();
    assert_eq!(d, vec![sc[0]]);

    let mut tl = two();
    let sc = order(&mut tl, &[2, 1]);
    let e = transformDistinctOnClause(&vec![item(1)], &mut tl, &sc, PLAIN, &catalog()).unwrap_err();
    says(e, "42P10", "SELECT DISTINCT ON expressions must match initial ORDER BY expressions");

    let mut tl = two();
    let sc = order(&mut tl, &[1, 2]);
    let e = transformDistinctOnClause(&vec![item(1), item(9)], &mut tl, &sc, PLAIN, &catalog());
    assert_eq!(e, Err(ParseError::DistinctOnOrderByMismatch { location: 18 }));

    let mut tl = two();
    let d = transformDistinctOnClause(&vec![item(2)], &mut tl, &Vec::new(), PLAIN, &catalog());
    assert_eq!(d.unwrap()[0].tleSortGroupRef, tl[1].ressortgroupref);
}

#[test]
fn aggregates_sort_and_distinguish_their_arguments() {
    let mut tl = two();
    let l = transform_agg_order_distinct(
        &mut tl,
        &vec![sort_by(item(1), SortByDir::Asc)],
        true,
        PLAIN,
        &catalog(),
    )
    .unwrap();
    assert_eq!((l.order.len(), l.distinct.len()), (1, 2));
    assert_eq!(l.argtypes, [INT4OID, INT4OID]);

    let mut tl = vec![entry(expr(1, 28), 1, "x")];
    let e = transform_agg_order_distinct(&mut tl, &Vec::new(), true, PLAIN, &catalog()).err().unwrap();
    says(e, "42883", "could not identify an ordering operator for type integer");
    assert_eq!(
        error_detail(e),
        Some("Aggregates with DISTINCT must be able to sort their inputs.")
    );

    let mut tl = two();
    let by = vec![sort_by(item(1), SortByDir::Asc), sort_by(item(2), SortByDir::Desc)];
    let s = transform_agg_within_group(&mut tl, &by, &catalog()).unwrap();
    assert_eq!((s[0].tleSortGroupRef, s[1].tleSortGroupRef), (1, 2));
    assert_eq!((s[0].sortop, s[1].sortop), (97, 521));
}

fn window(name: Option<&str>, refname: Option<&str>, part: &[u64], order: &[u64]) -> WindowDef {
    WindowDef {
        name: name.map(String::from),
        refname: refname.map(String::from),
        order_clause: order.iter().map(|k| sort_by(item(*k), SortByDir::Asc)).collect(),
        partition_clause: part.iter().map(|k| one(*k)).collect(),
        frame_options: FRAMEOPTION_DEFAULTS,
        start_offset: None,
        end_offset: None,
        location: 40,
    }
}

fn windows(defs: Vec<WindowDef>) -> Result<Vec<WindowClause>, ParseError> {
    let mut tl = two();
    transformWindowDefinitions(defs, &mut tl, PLAIN, &catalog()).map_err(|e| e.error)
}

fn refused_name(defs: Vec<WindowDef>) -> Option<String> {
    let mut tl = two();
    transformWindowDefinitions(defs, &mut tl, PLAIN, &catalog()).err().unwrap().name
}

#[test]
fn refusals_name_the_window() {
    let first = || window(Some("v"), None, &[1], &[]);
    let redefined = vec![first(), window(Some("v"), None, &[], &[])];
    assert_eq!(refused_name(redefined).as_deref(), Some("v"));
    let unknown = vec![first(), window(None, Some("u"), &[], &[])];
    assert_eq!(refused_name(unknown).as_deref(), Some("u"));
    let overridden = vec![first(), window(Some("w"), Some("v"), &[1], &[])];
    assert_eq!(refused_name(overridden).as_deref(), Some("v"));
    let mut groups = window(Some("g"), None, &[], &[]);
    groups.frame_options = FRAMEOPTION_GROUPS;
    assert_eq!(refused_name(vec![groups]), None);
}

#[test]
fn orderings_count_for_ranges_only() {
    let mut tl = two();
    let mut bare = catalog();
    bare.orderings = Vec::new();
    let w = transformWindowDefinitions(vec![window(None, None, &[], &[1])], &mut tl, PLAIN, &bare);
    assert_eq!(w.ok().map(|w| w.len()), Some(1));

    // A ranged window needs its own operator to be known, and no other.
    let mut few = catalog();
    few.orderings = vec![OrderingRow { op: 97, family: 1976, opcintype: INT4OID }];
    let mut tl = two();
    let mut down = window(None, None, &[], &[]);
    down.order_clause = vec![sort_by(item(2), SortByDir::Desc)];
    let ranged = range(&[1], offset(5, INT4OID, &[INT4OID, INT8OID]));
    let w = transformWindowDefinitions(vec![down, ranged], &mut tl, PLAIN, &few).ok().unwrap();
    assert_eq!(w[1].start_in_range_func, 4128);
}

#[test]
fn windows_are_numbered() {
    let w = windows(vec![
        window(None, None, &[1], &[1]),
        window(None, None, &[], &[1]),
        window(None, None, &[1], &[]),
    ])
    .unwrap();
    let shape: Vec<_> = w
        .iter()
        .map(|w| (w.winref, w.partition_clause.len(), w.order_clause.len()))
        .collect();
    assert_eq!(shape, [(1, 1, 1), (2, 0, 1), (3, 1, 0)]);
    assert_eq!(w[0].partition_clause[0].tleSortGroupRef, 1);
    assert_eq!(w[0].order_clause[0].tleSortGroupRef, 1);
    assert_eq!(w[0].frame_options, FRAMEOPTION_DEFAULTS);
}

#[test]
fn a_copied_window_keeps_its_partitioning() {
    let w = windows(vec![
        window(Some("w"), None, &[1], &[]),
        window(None, Some("w"), &[], &[2]),
        window(None, Some("w"), &[], &[]),
    ])
    .unwrap();
    assert_eq!(w[1].refname.as_deref(), Some("w"));
    assert_eq!(w[1].partition_clause, w[0].partition_clause);
    assert_eq!(w[1].order_clause.len(), 1);
    assert!(!w[1].copied_order && w[2].copied_order);
}

#[test]
fn window_functions_end_to_end() {
    let mut tl = vec![entry(expr(1, INT4OID), 1, "x")];
    let defs = vec![
        window(None, None, &[1], &[1]),
        window(None, None, &[], &[1]),
        window(None, None, &[1], &[]),
    ];
    let w = transformWindowDefinitions(defs, &mut tl, PLAIN, &catalog()).ok().unwrap();
    assert_eq!(w.len(), 3);
    assert_eq!(w[0].winref, 1);
    assert_eq!(w[0].partition_clause.len(), 1);
    assert_eq!(w[0].order_clause.len(), 1);
    assert_eq!(w[0].frame_options, FRAMEOPTION_DEFAULTS);
    assert_eq!(w[0].partition_clause[0].tleSortGroupRef, tl[0].ressortgroupref);
    assert_eq!(w[0].order_clause[0].tleSortGroupRef, tl[0].ressortgroupref);
    assert_eq!((w[1].winref, w[1].partition_clause.len(), w[1].order_clause.len()), (2, 0, 1));
    assert_eq!((w[2].winref, w[2].partition_clause.len(), w[2].order_clause.len()), (3, 1, 0));
}

#[test]
fn named_window_end_to_end() {
    let mut def = window(Some("w"), None, &[1], &[]);
    def.order_clause = vec![sort_by(item(1), SortByDir::Desc)];
    let w = windows(vec![def]).unwrap();
    assert_eq!(w.len(), 1);
    assert_eq!(w[0].name.as_deref(), Some("w"));
    assert_eq!(w[0].winref, 1);
    assert_eq!(w[0].partition_clause.len(), 1);
    assert!(w[0].order_clause[0].reverse_sort);
}

#[test]
fn window_refname_copies_partition() {
    let w = windows(vec![
        window(Some("w"), None, &[1], &[]),
        window(None, Some("w"), &[], &[1]),
    ])
    .unwrap();
    assert_eq!(w.len(), 2);
    assert_eq!(w[1].refname.as_deref(), Some("w"));
    assert_eq!(w[1].partition_clause.len(), 1);
    assert_eq!(w[1].order_clause.len(), 1);
    assert!(!w[1].copied_order);
}

#[test]
fn duplicate_window_name_is_42p20() {
    let e = windows(vec![window(Some("w"), None, &[], &[]), window(Some("w"), None, &[], &[])]);
    says(e.err().unwrap(), "42P20", "window \"w\" is already defined");
}

#[test]
fn cannot_override_partition_by_42p20() {
    let e = windows(vec![window(Some("w"), None, &[1], &[]), window(None, Some("w"), &[1], &[])]);
    says(e.err().unwrap(), "42P20", "cannot override PARTITION BY clause of window \"w\"");
}

#[test]
fn cannot_override_order_by_42p20() {
    let e = windows(vec![window(Some("w"), None, &[], &[1]), window(None, Some("w"), &[], &[1])]);
    says(e.err().unwrap(), "42P20", "cannot override ORDER BY clause of window \"w\"");
}

#[test]
fn window_refusals() {
    let e = windows(vec![window(None, Some("w"), &[], &[])]).err().unwrap();
    says(e, "42704", "window \"w\" does not exist");

    let mut framed = window(Some("w"), None, &[], &[]);
    framed.frame_options = FRAMEOPTION_ROWS;
    let e = windows(vec![framed, window(None, Some("w"), &[], &[])]).err().unwrap();
    says(e, "42P20", "cannot copy window \"w\" because it has a frame clause");
    assert_eq!(error_hint(e), Some("Omit the parentheses in this OVER clause."));

    let mut framed = window(Some("w"), None, &[], &[]);
    framed.frame_options = FRAMEOPTION_ROWS;
    let e = windows(vec![framed, window(None, Some("w"), &[], &[1])]).err().unwrap();
    assert_eq!(e, ParseError::CopyFramedWindow { hint: false, location: 40 });
    assert_eq!(error_hint(e), None);

    let mut groups = window(None, None, &[], &[]);
    groups.frame_options = FRAMEOPTION_GROUPS;
    says(
        windows(vec![groups]).err().unwrap(),
        "42P20",
        "GROUPS mode requires an ORDER BY clause",
    );
}

fn offset(key: u64, rtype: u32, forms: &[u32]) -> Option<Coercible> {
    Some(Coercible {
        transformed: Ok(expr(key, rtype)),
        coerced: forms.iter().map(|t| CoercedForm { typ: *t, expr: Ok(expr(key + 100, *t)) }).collect(),
        other: 77,
    })
}

fn range(order: &[u64], o: Option<Coercible>) -> WindowDef {
    let mut w = window(None, None, &[], order);
    w.frame_options = FRAMEOPTION_RANGE | 0x800;
    w.start_offset = o;
    w
}

#[test]
fn range_offsets_pick_the_in_range_function() {
    let w = windows(vec![range(&[1], offset(5, INT4OID, &[INT4OID, INT8OID]))]).unwrap();
    assert_eq!(w[0].start_in_range_func, 4128);
    assert_eq!(w[0].start_offset.as_ref().map(|e| e.rtype), Some(INT4OID));
    assert!(w[0].in_range_asc && !w[0].in_range_nulls_first);
    let w = windows(vec![range(&[1], offset(5, INT8OID, &[INT8OID]))]).unwrap();
    assert_eq!(w[0].start_in_range_func, 4127);

    let e = windows(vec![range(&[1], offset(5, TEXTOID, &[]))]).err().unwrap();
    says(
        e,
        "0A000",
        "RANGE with offset PRECEDING/FOLLOWING is not supported for column type integer and offset type text",
    );
    assert_eq!(error_hint(e), Some("Cast the offset value to an appropriate type."));
    let e = windows(vec![range(&[1], offset(5, 21, &[]))]).err().unwrap();
    assert_eq!(e, ParseError::FrameAmbiguous { coltype: INT4OID, offtype: 21, location: 7 });
    let e = windows(vec![range(&[1, 2], offset(5, INT4OID, &[INT4OID]))]).err().unwrap();
    says(
        e,
        "42P20",
        "RANGE with offset PRECEDING/FOLLOWING requires exactly one ORDER BY column",
    );
}

#[test]
fn row_offsets_are_bigints_without_variables() {
    let rows = |o: Option<Coercible>| {
        let mut w = window(None, None, &[], &[]);
        w.frame_options = FRAMEOPTION_ROWS;
        w.end_offset = o;
        windows(vec![w])
    };
    let w = rows(offset(5, INT4OID, &[INT8OID])).unwrap();
    assert_eq!(w[0].end_offset.as_ref().map(|e| e.rtype), Some(INT8OID));
    let e = rows(offset(5, TEXTOID, &[])).err().unwrap();
    assert_eq!(e, ParseError::Outside(77));
    let mut o = offset(5, INT4OID, &[INT8OID]);
    let mut var = expr(105, INT8OID);
    var.var_location = Some(50);
    o.as_mut().unwrap().coerced[0].expr = Ok(var);
    let e = rows(o).err().unwrap();
    says(e, "42P10", "argument of ROWS must not contain variables");
}

#[test]
fn a_column_type_without_range_support() {
    let mut by = range(&[], offset(5, INT4OID, &[INT4OID]));
    by.order_clause = vec![sort_by(raw(RawKind::Other, expr(3, TEXTOID)), SortByDir::Asc)];
    let e = windows(vec![by]).err().unwrap();
    says(
        e,
        "0A000",
        "RANGE with offset PRECEDING/FOLLOWING is not supported for column type integer",
    );
}
