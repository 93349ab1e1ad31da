//! What holds of joins: which relations they can null, which columns they join
//! and have, and which names are visible beside them.
use vstd::prelude::*;
use crate::parse_from;
use crate::parse_from::{JoinTree, NsItem};
use crate::parse_join;
use crate::parse_join::{ArgForm, JoinPlan, JoinType, MergePick, MergeTypes, NsColumn};
use crate::parse_join_expr;
use crate::parse_join_expr::{JoinDef, JoinReplies, JoinSide, MergedBuilt};
use crate::parse_nodes::ParseError;

verus! {

/// Whether a join can make the rows of a relation in its left or right side
/// null: those of the right side where rows of the left are kept without a
/// match, and the other way round.
pub open spec fn can_null(jointype: JoinType, l: JoinTree, r: JoinTree, rel: int) -> bool {
    ||| (jointype == JoinType::Left || jointype == JoinType::Full) && parse_from::tree_rels(
        r,
    ).contains(rel)
    ||| (jointype == JoinType::Right || jointype == JoinType::Full) && parse_from::tree_rels(
        l,
    ).contains(rel)
}

/// A relation becomes nulled by a join exactly where it stands in a side that
/// the join can null, and by nothing else.
pub proof fn law_outer_joins_null_the_other_side(
    ns: Seq<Set<i32>>,
    jointype: JoinType,
    l: JoinTree,
    r: JoinTree,
    rtindex: i32,
    rel: int,
)
    requires
        parse_from::tree_ok(l),
        parse_from::tree_ok(r),
        rel >= 1,
    ensures
        parse_from::nulled_by(
            parse_join_expr::join_marked(ns, jointype, l, r, rtindex),
            rel,
        ) == if can_null(jointype, l, r, rel) {
            parse_from::nulled_by(ns, rel).insert(rtindex)
        } else {
            parse_from::nulled_by(ns, rel)
        },
{
    parse_from::law_marking_marks_the_tree(ns, l, rtindex, rel);
    parse_from::law_marking_marks_the_tree(ns, r, rtindex, rel);
    parse_from::law_marking_marks_the_tree(
        parse_from::marked(ns, l, rtindex),
        r,
        rtindex,
        rel,
    );
    assert(parse_from::nulled_by(ns, rel).insert(rtindex).insert(rtindex) =~= parse_from::nulled_by(
        ns,
        rel,
    ).insert(rtindex));
}

/// An inner join nulls nothing; a left join nulls only on its right, a right
/// join only on its left.
pub proof fn law_preserved_sides_are_not_nulled(
    ns: Seq<Set<i32>>,
    jointype: JoinType,
    l: JoinTree,
    r: JoinTree,
    rtindex: i32,
    rel: int,
)
    requires
        parse_from::tree_ok(l),
        parse_from::tree_ok(r),
        rel >= 1,
        !parse_from::nulled_by(ns, rel).contains(rtindex),
        parse_from::tree_rels(l).disjoint(parse_from::tree_rels(r)),
    ensures
        ({
            let hit = parse_from::nulled_by(
                parse_join_expr::join_marked(ns, jointype, l, r, rtindex),
                rel,
            ).contains(rtindex);
            let on_left = parse_from::tree_rels(l).contains(rel);
            let on_right = parse_from::tree_rels(r).contains(rel);
            &&& jointype == JoinType::Inner ==> !hit
            &&& jointype == JoinType::Left ==> (hit <==> on_right)
            &&& jointype == JoinType::Left && on_left ==> !hit
            &&& jointype == JoinType::Right ==> (hit <==> on_left)
            &&& jointype == JoinType::Right && on_right ==> !hit
            &&& jointype == JoinType::Full ==> (hit <==> on_left || on_right)
        }),
{
    law_outer_joins_null_the_other_side(ns, jointype, l, r, rtindex, rel);
}

/// The relations of a tree are those of its parts and the join itself.
pub proof fn law_relations_of_a_tree(larg: JoinTree, rarg: JoinTree, rtindex: i32, rel: int)
    ensures
        parse_from::tree_rels(JoinTree::Rel { rtindex }).contains(rel) <==> rel == rtindex,
        parse_from::tree_rels(
            JoinTree::Join { larg: Box::new(larg), rarg: Box::new(rarg), rtindex },
        ).contains(rel) <==> rel == rtindex || parse_from::tree_rels(larg).contains(rel)
            || parse_from::tree_rels(rarg).contains(rel),
{
}

/// Marking the relations of a tree again changes nothing.
pub proof fn law_marking_twice_is_marking_once(
    ns: Seq<Set<i32>>,
    t: JoinTree,
    jindex: i32,
    rel: int,
)
    requires
        parse_from::tree_ok(t),
        rel >= 1,
    ensures
        parse_from::nulled_by(
            parse_from::marked(parse_from::marked(ns, t, jindex), t, jindex),
            rel,
        ) =~= parse_from::nulled_by(parse_from::marked(ns, t, jindex), rel),
{
    parse_from::law_marking_marks_the_tree(ns, t, jindex, rel);
    parse_from::law_marking_marks_the_tree(
        parse_from::marked(ns, t, jindex),
        t,
        jindex,
        rel,
    );
}

/// A NATURAL JOIN joins by the left's names that the right has too, in the
/// left's order; columns without a name do not count.
pub proof fn law_natural_join_takes_common_names(l: Seq<Seq<char>>, r: Seq<Seq<char>>)
    ensures
        parse_join::natural_names(l, r, l.len()) == l.filter(
            |x: Seq<char>| x.len() > 0 && r.contains(x),
        ),
{
    assert(l.take(l.len() as int) =~= l);
    lemma_natural(l, r, l.len());
}

proof fn lemma_natural(l: Seq<Seq<char>>, r: Seq<Seq<char>>, n: nat)
    requires
        n <= l.len(),
    ensures
        parse_join::natural_names(l, r, n) == l.take(n as int).filter(
            |x: Seq<char>| x.len() > 0 && r.contains(x),
        ),
    decreases n,
{
    reveal(Seq::filter);
    if n > 0 {
        lemma_natural(l, r, (n - 1) as nat);
        assert(l.take(n as int).drop_last() =~= l.take(n - 1));
        assert(l.take(n as int).last() == l[n - 1]);
    }
}

/// Written names are taken as they are written; NATURAL takes the common ones.
pub proof fn law_names_of_a_join(
    l: Seq<Seq<char>>,
    r: Seq<Seq<char>>,
    using: Seq<Seq<char>>,
)
    ensures
        parse_join::using_names(l, r, using, false) == using,
        parse_join::using_names(l, r, using, true) == l.filter(
            |x: Seq<char>| x.len() > 0 && r.contains(x),
        ),
{
    law_natural_join_takes_common_names(l, r);
}

/// A name of USING stands for a column of a side exactly where that side has
/// the name once. It is missing where the side lacks it, and ambiguous where
/// the side has it more than once.
pub proof fn law_using_name_stands_for_one_column(
    ns: Seq<Seq<char>>,
    u: Seq<char>,
    column: usize,
    left: bool,
)
    ensures
        ({
            let s = parse_join::using_scan(ns, u, column, left);
            &&& s == Err::<int, ParseError>(ParseError::UsingMissing { column, left })
                <==> !ns.contains(u)
            &&& s == Err::<int, ParseError>(ParseError::UsingAmbiguous { column, left })
                <==> exists|i: int, j: int|
                0 <= i < j < ns.len() && #[trigger] ns[i] == u && #[trigger] ns[j] == u
            &&& s matches Ok(i) ==> 0 <= i < ns.len() && ns[i] == u && forall|j: int|
                0 <= j < ns.len() && #[trigger] ns[j] == u ==> j == i
            &&& s is Ok || s == Err::<int, ParseError>(ParseError::UsingMissing { column, left })
                || s == Err::<int, ParseError>(ParseError::UsingAmbiguous { column, left })
        }),
{
    parse_join::lemma_name_from(ns, u, 0);
    let i = parse_join::name_from(ns, u, 0);
    if i < ns.len() {
        parse_join::lemma_name_from(ns, u, i + 1);
        assert(ns[i] == u);
    }
}

/// Whether exactly one of the names is `u`.
pub open spec fn once(ns: Seq<Seq<char>>, u: Seq<char>) -> bool {
    ns.contains(u) && forall|i: int, j: int|
        0 <= i < j < ns.len() && #[trigger] ns[i] == u ==> #[trigger] ns[j] != u
}

/// USING is accepted exactly where no name is repeated and each is the name of
/// exactly one column on either side.
pub proof fn law_using_is_accepted(
    l: Seq<Seq<char>>,
    r: Seq<Seq<char>>,
    using: Seq<Seq<char>>,
    n: nat,
)
    requires
        n <= using.len(),
    ensures
        parse_join::using_columns(l, r, using, n).err is None <==> forall|k: int|
            0 <= k < n ==> once(l, #[trigger] using[k]) && once(r, using[k]) && !using.take(
                k,
            ).contains(using[k]),
    decreases n,
{
    if n > 0 {
        law_using_is_accepted(l, r, using, (n - 1) as nat);
        let u = using[n - 1];
        let column = (n - 1) as usize;
        law_using_name_stands_for_one_column(l, u, column, true);
        law_using_name_stands_for_one_column(r, u, column, false);
        let t = using.take(n - 1);
        if parse_join::occurs_before(using, n - 1) {
            let k = choose|k: int| 0 <= k < n - 1 && #[trigger] using[k] == using[n - 1];
            assert(t[k] == u);
        }
        if t.contains(u) {
            let k = choose|k: int| 0 <= k < t.len() && t[k] == u;
            assert(using[k] == using[n - 1]);
        }
        let b = parse_join::using_columns(l, r, using, n);
        let p = parse_join::using_columns(l, r, using, (n - 1) as nat);
        if b.err is None {
            assert forall|k: int| 0 <= k < n implies once(l, #[trigger] using[k]) && once(
                r,
                using[k],
            ) && !using.take(k).contains(using[k]) by {}
        } else if p.err is None {
            assert(!(once(l, u) && once(r, u) && !t.contains(u)));
        }
    }
}

/// The first name of USING that is not accepted decides the error: a name that
/// is repeated first, then the left side, then the right.
pub proof fn law_using_error_is_the_first(
    l: Seq<Seq<char>>,
    r: Seq<Seq<char>>,
    using: Seq<Seq<char>>,
    n: nat,
)
    requires
        n < using.len(),
        n < usize::MAX,
        parse_join::using_columns(l, r, using, n).err is None,
    ensures
        ({
            let u = using[n as int];
            let column = n as usize;
            let e = parse_join::using_columns(l, r, using, n + 1).err;
            &&& using.take(n as int).contains(u) ==> e == Some(
                ParseError::UsingDuplicate { column },
            )
            &&& !using.take(n as int).contains(u) && !l.contains(u) ==> e == Some(
                ParseError::UsingMissing { column, left: true },
            )
            &&& !using.take(n as int).contains(u) && l.contains(u) && !once(l, u) ==> e == Some(
                ParseError::UsingAmbiguous { column, left: true },
            )
            &&& !using.take(n as int).contains(u) && once(l, u) && !r.contains(u) ==> e == Some(
                ParseError::UsingMissing { column, left: false },
            )
            &&& !using.take(n as int).contains(u) && once(l, u) && r.contains(u) && !once(r, u)
                ==> e == Some(ParseError::UsingAmbiguous { column, left: false })
        }),
{
    let u = using[n as int];
    let column = n as usize;
    law_using_name_stands_for_one_column(l, u, column, true);
    law_using_name_stands_for_one_column(r, u, column, false);
    let t = using.take(n as int);
    if t.contains(u) {
        let k = choose|k: int| 0 <= k < t.len() && t[k] == u;
        assert(using[k] == using[n as int]);
    }
    if parse_join::occurs_before(using, n as int) {
        let k = choose|k: int| 0 <= k < n && #[trigger] using[k] == using[n as int];
        assert(t[k] == u);
    }
}

/// A merged column has the common type. Each input is taken as it is exactly
/// where it has that type and its modifier. An inner join prefers an input that
/// is taken as it is, the left one first.
pub proof fn law_merged_column_has_the_common_type(
    jointype: JoinType,
    l: NsColumn,
    r: NsColumn,
    m: MergeTypes,
)
    requires
        parse_join::merged(jointype, l, r, m) is Ok,
    ensures
        ({
            let v = parse_join::merged(jointype, l, r, m)->Ok_0;
            let t = m.outtype->Ok_0;
            &&& m.outtype is Ok
            &&& v.rtype == t
            &&& v.left == ArgForm::Coerced <==> l.vartype != t
            &&& v.left == ArgForm::Plain <==> l.vartype == t && l.vartypmod == m.outtypmod
            &&& v.right == ArgForm::Coerced <==> r.vartype != t
            &&& v.right == ArgForm::Plain <==> r.vartype == t && r.vartypmod == m.outtypmod
            &&& jointype == JoinType::Inner ==> (v.pick == MergePick::Right <==> v.right
                == ArgForm::Plain && v.left != ArgForm::Plain)
            &&& jointype == JoinType::Inner ==> v.pick != MergePick::Coalesce
            &&& v.pick == MergePick::Left && v.left != ArgForm::Coerced ==> v.typmod == m.outtypmod
            &&& v.pick == MergePick::Left && v.left == ArgForm::Coerced ==> v.typmod
                == m.l_coerced->Ok_0
            &&& v.pick == MergePick::Right && v.right != ArgForm::Coerced ==> v.typmod
                == m.outtypmod
            &&& v.pick == MergePick::Right && v.right == ArgForm::Coerced ==> v.typmod
                == m.r_coerced->Ok_0
            &&& v.pick == MergePick::Coalesce && v.left != ArgForm::Coerced && v.right
                != ArgForm::Coerced ==> v.typmod == m.outtypmod
        }),
{
}

/// Two columns can be merged exactly where they have a common type, each that
/// has another type can be coerced to it, and the result has a collation. The
/// first of these that fails, in this order, is the error.
pub proof fn law_when_columns_can_be_merged(
    jointype: JoinType,
    l: NsColumn,
    r: NsColumn,
    m: MergeTypes,
)
    ensures
        ({
            let v = parse_join::merged(jointype, l, r, m);
            let t = m.outtype->Ok_0;
            let l_bad = m.outtype is Ok && l.vartype != t && m.l_coerced is Err;
            let r_bad = m.outtype is Ok && r.vartype != t && m.r_coerced is Err;
            &&& v is Ok <==> m.outtype is Ok && !l_bad && !r_bad && m.collation is Ok
            &&& m.outtype matches Err(e) ==> v->Err_0 == ParseError::Outside(e)
            &&& l_bad ==> v->Err_0 == ParseError::Outside(m.l_coerced->Err_0)
            &&& !l_bad && r_bad ==> v->Err_0 == ParseError::Outside(m.r_coerced->Err_0)
            &&& m.outtype is Ok && !l_bad && !r_bad && m.collation is Err ==> v->Err_0
                == ParseError::Outside(m.collation->Err_0)
        }),
{
}

/// A merged column that is one of its inputs is referred to as that input; else
/// it is a column of the join, at its own place.
pub proof fn law_how_a_merged_column_is_referred_to(
    jointype: JoinType,
    l: NsColumn,
    r: NsColumn,
    m: MergeTypes,
    rtindex: u32,
    k: int,
)
    requires
        parse_join::merged(jointype, l, r, m) is Ok,
        0 <= k < 32767,
    ensures
        ({
            let v = parse_join::merged(jointype, l, r, m)->Ok_0;
            let c = parse_join::merged_column(v, l, r, m.collation->Ok_0, rtindex, k);
            let left_is = v.pick == MergePick::Left && v.left == ArgForm::Plain;
            let right_is = v.pick == MergePick::Right && v.right == ArgForm::Plain;
            &&& left_is ==> c == l
            &&& right_is ==> c == r
            &&& !left_is && !right_is ==> {
                &&& c.varno == rtindex && c.varnosyn == rtindex
                &&& c.varattno == k + 1 && c.varattnosyn == k + 1
                &&& c.vartype == m.outtype->Ok_0
                &&& c.vartypmod == v.typmod
                &&& c.varcollid == m.collation->Ok_0
                &&& !c.dontexpand
            }
            &&& jointype == JoinType::Full ==> c.varno == rtindex
        }),
{
}

proof fn lemma_merged_columns(
    l: Seq<NsColumn>,
    r: Seq<NsColumn>,
    ln: Seq<usize>,
    rn: Seq<usize>,
    merges: Seq<MergeTypes>,
    jointype: JoinType,
    rtindex: i32,
    n: nat,
)
    requires
        parse_join_expr::merged_columns(l, r, ln, rn, merges, jointype, rtindex, n).err is None,
    ensures
        ({
            let b = parse_join_expr::merged_columns(l, r, ln, rn, merges, jointype, rtindex, n);
            &&& b.vars.len() == n
            &&& b.cols.len() == n
            &&& forall|k: int|
                0 <= k < n ==> {
                    &&& parse_join::merged(jointype, l[ln[k] - 1], r[rn[k] - 1], merges[k]) == Ok::<
                        parse_join::MergedVar,
                        ParseError,
                    >(#[trigger] b.vars[k])
                    &&& b.cols[k] == parse_join::merged_column(
                        b.vars[k],
                        l[ln[k] - 1],
                        r[rn[k] - 1],
                        merges[k].collation->Ok_0,
                        rtindex as u32,
                        k,
                    )
                }
        }),
    decreases n,
{
    if n > 0 {
        lemma_merged_columns(l, r, ln, rn, merges, jointype, rtindex, (n - 1) as nat);
    }
}

/// Each pair of joined columns makes one merged column, in the order of the
/// pairs.
pub proof fn law_each_pair_is_merged(
    l: Seq<NsColumn>,
    r: Seq<NsColumn>,
    ln: Seq<usize>,
    rn: Seq<usize>,
    merges: Seq<MergeTypes>,
    jointype: JoinType,
    rtindex: i32,
    n: nat,
    k: int,
)
    requires
        parse_join_expr::merged_columns(l, r, ln, rn, merges, jointype, rtindex, n).err is None,
        0 <= k < n,
    ensures
        ({
            let b = parse_join_expr::merged_columns(l, r, ln, rn, merges, jointype, rtindex, n);
            let lc = l[ln[k] - 1];
            let rc = r[rn[k] - 1];
            &&& b.vars.len() == n
            &&& b.cols.len() == n
            &&& parse_join::merged(jointype, lc, rc, merges[k]) == Ok::<
                parse_join::MergedVar,
                ParseError,
            >(b.vars[k])
            &&& b.cols[k] == parse_join::merged_column(
                b.vars[k],
                lc,
                rc,
                merges[k].collation->Ok_0,
                rtindex as u32,
                k,
            )
        }),
{
    lemma_merged_columns(l, r, ln, rn, merges, jointype, rtindex, n);
}

/// A join has the joined columns under the names of USING first, then the other
/// columns of the left, then those of the right, under their own names.
pub proof fn law_names_of_the_columns(l: JoinSide, r: JoinSide, plan: JoinPlan, k: int)
    requires
        0 <= k < parse_join_expr::join_width(l, r, plan),
    ensures
        ({
            let ns = parse_join_expr::join_names(l, r, plan);
            let n = plan.using@.len() as int;
            let lr = parse_join_expr::rest(l, plan.l_colnos@);
            let rr = parse_join_expr::rest(r, plan.r_colnos@);
            &&& ns.len() == n + lr.len() + rr.len()
            &&& k < n ==> ns[k] == plan.using@[k]@
            &&& n <= k < n + lr.len() ==> {
                let at = lr[k - n] - 1;
                0 <= at < l.colnames@.len() ==> ns[k] == l.colnames@[at]@
            }
            &&& n + lr.len() <= k ==> {
                let at = rr[k - n - lr.len()] - 1;
                0 <= at < r.colnames@.len() ==> ns[k] == r.colnames@[at]@
            }
        }),
{
}

/// A column of a side is either joined or stands among the others, where it is
/// neither dropped nor left out of `*`; the others are in the side's order.
pub proof fn law_other_columns_of_a_side(side: JoinSide, nos: Seq<usize>, a: usize)
    requires
        side.colnames@.len() == side.columns@.len(),
        side.colnames@.len() <= usize::MAX,
    ensures
        ({
            let s = parse_join_expr::rest(side, nos);
            &&& s.contains(a) <==> 1 <= a <= side.colnames@.len() && !nos.contains(a)
                && side.colnames@[a - 1]@.len() > 0 && !side.columns@[a - 1].dontexpand
            &&& forall|i: int, j: int| 0 <= i < j < s.len() ==> #[trigger] s[i] < #[trigger] s[j]
        }),
{
    parse_join::law_remaining_columns(
        parse_join::names(side.colnames@),
        side.columns@,
        nos,
        side.colnames@.len(),
    );
}

/// With an alias only the join is visible. Without one, every name inside it
/// still is, as a table name only, before the join.
pub proof fn law_names_beside_a_join(
    l: Seq<NsItem>,
    r: Seq<NsItem>,
    def: JoinDef,
    rtindex: i32,
    k: int,
)
    ensures
        ({
            let ns = parse_join_expr::join_namespace(l, r, def, rtindex);
            let extra = if def.using_alias is Some {
                1int
            } else {
                0
            };
            let own = ns.last();
            &&& def.has_alias ==> ns.len() == 1
            &&& !def.has_alias ==> ns.len() == l.len() + r.len() + extra + 1
            &&& own.names == def.names && own.rtindex == rtindex && own.cols_visible
                && !own.lateral_only && own.lateral_ok
            &&& own.rel_visible <==> def.has_alias
            &&& !def.has_alias && 0 <= k < l.len() ==> ns[k].names == l[k].names && ns[k].rtindex
                == l[k].rtindex && ns[k].rel_visible == l[k].rel_visible && !ns[k].cols_visible
            &&& !def.has_alias && 0 <= k < r.len() ==> ns[l.len() + k].names == r[k].names
                && ns[l.len() + k].rtindex == r[k].rtindex && ns[l.len() + k].rel_visible
                == r[k].rel_visible && !ns[l.len() + k].cols_visible
            &&& !def.has_alias && def.using_alias is Some ==> {
                let u = ns[(l.len() + r.len()) as int];
                u.names == def.using_alias->0 && u.rtindex == rtindex && u.rel_visible
                    && !u.cols_visible
            }
        }),
{
}

/// An alias makes the text refer to the join: to its number, and to the column's
/// place in it. Nothing else of a column changes.
pub proof fn law_alias_hides_the_inputs(cols: Seq<NsColumn>, rtindex: i32, k: int)
    requires
        0 <= k < cols.len(),
        k < 32767,
        rtindex >= 1,
    ensures
        ({
            let h = parse_join_expr::hidden(cols, rtindex);
            &&& h.len() == cols.len()
            &&& h[k].varnosyn == rtindex
            &&& h[k].varattnosyn == k + 1
            &&& h[k].varno == cols[k].varno
            &&& h[k].varattno == cols[k].varattno
            &&& h[k].vartype == cols[k].vartype
            &&& h[k].vartypmod == cols[k].vartypmod
            &&& h[k].varcollid == cols[k].varcollid
            &&& h[k].dontexpand == cols[k].dontexpand
        }),
{
}

/// What stops a join: first an error of its condition, then one of merging its
/// columns, then one of adding it to the range table, then a clash of the alias
/// of USING.
pub proof fn law_what_stops_a_join(m: MergedBuilt, replies: JoinReplies, def: JoinDef)
    ensures
        ({
            let e = parse_join_expr::join_error(m, replies, def);
            let clash = def.using_alias is Some && replies.alias_conflict is Some;
            &&& e is None <==> replies.quals is Ok && m.err is None && replies.entry is None
                && !clash
            &&& replies.quals is Err ==> e == Some(ParseError::Outside(replies.quals->Err_0))
            &&& replies.quals is Ok && m.err is Some ==> e == m.err
            &&& replies.quals is Ok && m.err is None && replies.entry is Some ==> e == Some(
                ParseError::Outside(replies.entry->0),
            )
            &&& replies.quals is Ok && m.err is None && replies.entry is None && clash ==> e
                == Some(ParseError::Outside(replies.alias_conflict->0))
        }),
{
}

/// The join is recorded under its number; what was recorded stays, and what is
/// between is no join.
pub proof fn law_join_is_recorded(je: Seq<bool>, rtindex: int, k: int)
    requires
        je.len() < rtindex,
        0 <= k < rtindex,
    ensures
        ({
            let j = parse_join_expr::join_recorded(je, rtindex);
            &&& j.len() == rtindex
            &&& k < je.len() ==> j[k] == je[k]
            &&& je.len() <= k < rtindex - 1 ==> !j[k]
            &&& j[rtindex - 1]
        }),
{
}

/// While the right side of a join is transformed, the left side's names are
/// visible to LATERAL only, which may use them where the join keeps no row of
/// the right side without a match.
pub proof fn law_left_side_is_lateral(
    ns: Seq<NsItem>,
    left: Seq<NsItem>,
    jointype: JoinType,
    k: int,
)
    requires
        0 <= k < left.len(),
    ensures
        ({
            let e = parse_from::exposed(ns, left, jointype);
            let i = e[ns.len() + k];
            &&& e.len() == ns.len() + left.len()
            &&& i.lateral_only
            &&& i.lateral_ok <==> jointype == JoinType::Inner || jointype == JoinType::Left
            &&& i.names == left[k].names
            &&& i.rtindex == left[k].rtindex
            &&& i.rel_visible == left[k].rel_visible
            &&& i.cols_visible == left[k].cols_visible
        }),
{
}

/// USING compares each pair of joined columns, in order.
pub proof fn law_using_compares_the_pairs(
    l: Seq<NsColumn>,
    r: Seq<NsColumn>,
    ln: Seq<usize>,
    rn: Seq<usize>,
    k: int,
)
    requires
        0 <= k < ln.len(),
    ensures
        parse_join_expr::using_pairs(l, r, ln, rn).len() == ln.len(),
        parse_join_expr::using_pairs(l, r, ln, rn)[k].left == l[ln[k] - 1],
        parse_join_expr::using_pairs(l, r, ln, rn)[k].right == r[rn[k] - 1],
{
}

/// The columns of a join: first those that were merged, then the others of the
/// left, then those of the right. Under an alias each is referred to by the
/// join and its place there; else as before.
pub proof fn law_columns_of_a_join(
    l: JoinSide,
    r: JoinSide,
    plan: JoinPlan,
    merged: Seq<NsColumn>,
    has_alias: bool,
    rtindex: i32,
    k: int,
)
    requires
        0 <= k < merged.len() + parse_join_expr::rest(l, plan.l_colnos@).len()
            + parse_join_expr::rest(r, plan.r_colnos@).len(),
        rtindex >= 0,
        k < 32767,
    ensures
        ({
            let a = parse_join_expr::rest(l, plan.l_colnos@);
            let b = parse_join_expr::rest(r, plan.r_colnos@);
            let m = merged.len() as int;
            let cols = parse_join_expr::join_columns(l, r, plan, merged, has_alias, rtindex);
            let from = if k < m {
                merged[k]
            } else if k < m + a.len() {
                l.columns@[a[k - m] - 1]
            } else {
                r.columns@[b[k - m - a.len()] - 1]
            };
            &&& cols.len() == m + a.len() + b.len()
            &&& cols[k].varno == from.varno && cols[k].varattno == from.varattno
            &&& cols[k].vartype == from.vartype && cols[k].vartypmod == from.vartypmod
            &&& cols[k].varcollid == from.varcollid && cols[k].dontexpand == from.dontexpand
            &&& has_alias ==> cols[k].varnosyn == rtindex && cols[k].varattnosyn == k + 1
            &&& !has_alias ==> cols[k].varnosyn == from.varnosyn && cols[k].varattnosyn
                == from.varattnosyn
        }),
{
}

/// What the columns of a join stand for, in the same order: a merged one for
/// its pair, any other for itself.
pub proof fn law_what_columns_stand_for(
    l: JoinSide,
    r: JoinSide,
    plan: JoinPlan,
    vars: Seq<parse_join::MergedVar>,
    k: int,
)
    requires
        0 <= k < vars.len() + parse_join_expr::rest(l, plan.l_colnos@).len()
            + parse_join_expr::rest(r, plan.r_colnos@).len(),
    ensures
        ({
            let a = parse_join_expr::rest(l, plan.l_colnos@);
            let b = parse_join_expr::rest(r, plan.r_colnos@);
            let m = vars.len() as int;
            let vs = parse_join_expr::join_vars(l, r, plan, vars);
            &&& vs.len() == m + a.len() + b.len()
            &&& k < m ==> (vs[k] matches parse_join_expr::JoinVar::Merged { var, left, right }
                && var == vars[k] && left == l.columns@[plan.l_colnos@[k] - 1] && right
                == r.columns@[plan.r_colnos@[k] - 1])
            &&& m <= k < m + a.len() ==> vs[k] == parse_join_expr::JoinVar::Input(
                l.columns@[a[k - m] - 1],
            )
            &&& m + a.len() <= k ==> vs[k] == parse_join_expr::JoinVar::Input(
                r.columns@[b[k - m - a.len()] - 1],
            )
        }),
{
}

} // verus!
