//! FROM: what a join makes of its two sides, and what names are visible.
use vstd::prelude::*;
use crate::parse_join::JoinType;

verus! {

/// The largest number that a column can have.
pub const MAX_JOIN_COLUMNS: usize = 32767;

/// An item whose names can be visible.
#[derive(Clone, Copy, Debug, PartialEq, Eq, Structural)]
pub struct NsItem {
    /// Which item's names these are.
    pub names: u64,
    /// Its number in the range table.
    pub rtindex: i32,
    /// Visible as a table name.
    pub rel_visible: bool,
    /// Its columns are visible without a table name.
    pub cols_visible: bool,
    /// Visible to LATERAL only.
    pub lateral_only: bool,
    /// LATERAL may refer to it.
    pub lateral_ok: bool,
}

/// The items with this LATERAL state.
pub open spec fn with_lateral(ns: Seq<NsItem>, only: bool, ok: bool) -> Seq<NsItem> {
    ns.map_values(|i: NsItem| NsItem { lateral_only: only, lateral_ok: ok, ..i })
}

/// Sets what LATERAL may see of some items.
pub fn setNamespaceLateralState(namespace: &mut Vec<NsItem>, lateral_only: bool, lateral_ok: bool)
    ensures
        final(namespace)@ == with_lateral(old(namespace)@, lateral_only, lateral_ok),
{
    let ghost ns0 = namespace@;
    let mut i: usize = 0;
    while i < namespace.len()
        invariant
            i <= namespace@.len(),
            namespace@.len() == ns0.len(),
            ns0 == old(namespace)@,
            forall|k: int|
                0 <= k < i ==> #[trigger] namespace@[k] == with_lateral(
                    ns0,
                    lateral_only,
                    lateral_ok,
                )[k],
            forall|k: int| i <= k < ns0.len() ==> #[trigger] namespace@[k] == ns0[k],
        decreases namespace@.len() - i,
    {
        let mut item: NsItem = namespace[i];
        item.lateral_only = lateral_only;
        item.lateral_ok = lateral_ok;
        namespace.set(i, item);
        i = i + 1;
    }
    assert(namespace@ =~= with_lateral(ns0, lateral_only, lateral_ok));
}

/// The left side of a join is visible to a LATERAL right side, and may be
/// referred to in an inner or a left join.
pub open spec fn exposed(ns: Seq<NsItem>, left: Seq<NsItem>, jointype: JoinType) -> Seq<NsItem> {
    ns + with_lateral(left, true, jointype == JoinType::Inner || jointype == JoinType::Left)
}

fn append_items(ns: &mut Vec<NsItem>, items: &Vec<NsItem>)
    ensures
        final(ns)@ == old(ns)@ + items@,
{
    let ghost ns0 = ns@;
    let mut i: usize = 0;
    while i < items.len()
        invariant
            i <= items@.len(),
            ns0 == old(ns)@,
            ns@ == ns0 + items@.take(i as int),
        decreases items@.len() - i,
    {
        ns.push(items[i]);
        i = i + 1;
        assert(items@.take(i as int) =~= items@.take(i - 1).push(items@[i - 1]));
    }
    assert(items@.take(i as int) =~= items@);
}

/// Makes the left side of a join visible while its right side is transformed;
/// gives the length that the names visible before had.
pub fn expose_left(
    namespace: &mut Vec<NsItem>,
    left: &mut Vec<NsItem>,
    jointype: JoinType,
) -> (r: usize)
    ensures
        r == old(namespace)@.len(),
        final(namespace)@ == exposed(old(namespace)@, old(left)@, jointype),
        final(left)@ == with_lateral(
            old(left)@,
            true,
            jointype == JoinType::Inner || jointype == JoinType::Left,
        ),
{
    let n: usize = namespace.len();
    let ok: bool = jointype == JoinType::Inner || jointype == JoinType::Left;
    setNamespaceLateralState(left, true, ok);
    append_items(namespace, left);
    n
}

/// Hides the left side of a join again.
pub fn hide_left(namespace: &mut Vec<NsItem>, sv_namespace_length: usize)
    requires
        sv_namespace_length <= old(namespace)@.len(),
    ensures
        final(namespace)@ == old(namespace)@.take(sv_namespace_length as int),
{
    namespace.truncate(sv_namespace_length);
    assert(namespace@ =~= old(namespace)@.take(sv_namespace_length as int));
}

/// Exposing the left side of a join and hiding it again changes nothing.
pub proof fn law_hiding_undoes_exposing(
    ns: Seq<NsItem>,
    left: Seq<NsItem>,
    jointype: JoinType,
)
    ensures
        exposed(ns, left, jointype).take(ns.len() as int) == ns,
{
    assert(exposed(ns, left, jointype).take(ns.len() as int) =~= ns);
}

/// Makes exactly the two sides of a join visible for its ON condition; gives
/// what was visible before, to be put back afterwards.
pub fn transformJoinOnClause(namespace: &mut Vec<NsItem>, mine: &mut Vec<NsItem>) -> (saved: Vec<
    NsItem,
>)
    ensures
        saved@ == old(namespace)@,
        final(mine)@ == with_lateral(old(mine)@, false, true),
        final(namespace)@ == final(mine)@,
{
    setNamespaceLateralState(mine, false, true);
    let mut saved: Vec<NsItem> = Vec::new();
    append_items(&mut saved, mine);
    std::mem::swap(&mut saved, namespace);
    assert(namespace@ =~= mine@);
    saved
}

/// What FROM is made of.
pub enum JoinTree {
    Rel { rtindex: i32 },
    Join { larg: Box<JoinTree>, rarg: Box<JoinTree>, rtindex: i32 },
}

/// Whether all numbers of a tree are numbers of range table entries.
pub open spec fn tree_ok(t: JoinTree) -> bool
    decreases t,
{
    match t {
        JoinTree::Rel { rtindex } => rtindex >= 1,
        JoinTree::Join { larg, rarg, rtindex } => rtindex >= 1 && tree_ok(*larg) && tree_ok(
            *rarg,
        ),
    }
}

/// The relations in a tree.
pub open spec fn tree_rels(t: JoinTree) -> Set<int>
    decreases t,
{
    match t {
        JoinTree::Rel { rtindex } => set![rtindex as int],
        JoinTree::Join { larg, rarg, rtindex } => tree_rels(*larg).union(tree_rels(*rarg)).insert(
            rtindex as int,
        ),
    }
}

/// The joins that null each relation, as sets.
pub open spec fn null_sets(v: Seq<Vec<i32>>) -> Seq<Set<i32>> {
    Seq::new(v.len(), |i: int| v[i]@.to_set())
}

/// At least `n` relations, the new ones nulled by no join.
pub open spec fn grown(ns: Seq<Set<i32>>, n: int) -> Seq<Set<i32>> {
    if ns.len() >= n {
        ns
    } else {
        ns + Seq::new((n - ns.len()) as nat, |i: int| Set::empty())
    }
}

/// Marking one relation as nulled by a join.
pub open spec fn marked_one(ns: Seq<Set<i32>>, varno: i32, jindex: i32) -> Seq<Set<i32>> {
    let g = grown(ns, varno as int);
    g.update(varno - 1, g[varno - 1].insert(jindex))
}

/// Marking every relation of a tree as nulled by a join.
pub open spec fn marked(ns: Seq<Set<i32>>, t: JoinTree, jindex: i32) -> Seq<Set<i32>>
    decreases t,
{
    match t {
        JoinTree::Rel { rtindex } => marked_one(ns, rtindex, jindex),
        JoinTree::Join { larg, rarg, rtindex } => marked_one(
            marked(marked(ns, *larg, jindex), *rarg, jindex),
            rtindex,
            jindex,
        ),
    }
}

fn has_member(v: &Vec<i32>, x: i32) -> (r: bool)
    ensures
        r == v@.contains(x),
{
    let mut i: usize = 0;
    while i < v.len()
        invariant
            i <= v@.len(),
            forall|k: int| 0 <= k < i ==> v@[k] != x,
        decreases v@.len() - i,
    {
        if v[i] == x {
            assert(v@[i as int] == x);
            return true;
        }
        i = i + 1;
    }
    false
}

/// Adds a number to a list that holds each number once.
pub fn add_member(v: &mut Vec<i32>, x: i32)
    ensures
        final(v)@.to_set() == old(v)@.to_set().insert(x),
{
    let ghost v0 = v@;
    if has_member(v, x) {
        assert(v0.to_set().insert(x) =~= v0.to_set());
        return;
    }
    v.push(x);
    proof {
        assert forall|a: i32| v@.to_set().contains(a) <==> v0.to_set().insert(x).contains(a) by {
            if v0.contains(a) {
                let k = choose|k: int| 0 <= k < v0.len() && v0[k] == a;
                assert(v@[k] == a);
            }
            if a == x {
                assert(v@[v0.len() as int] == x);
            }
            if v@.contains(a) && a != x {
                let k = choose|k: int| 0 <= k < v@.len() && v@[k] == a;
                assert(v0[k] == a);
            }
        }
        assert(v@.to_set() =~= v0.to_set().insert(x));
    }
}

fn mark_one(nullingrels: &mut Vec<Vec<i32>>, varno: i32, jindex: i32)
    requires
        varno >= 1,
    ensures
        null_sets(final(nullingrels)@) == marked_one(null_sets(old(nullingrels)@), varno, jindex),
{
    let ghost ns0 = null_sets(nullingrels@);
    let n: usize = varno as usize;
    while nullingrels.len() < n
        invariant
            n == varno,
            ns0 == null_sets(old(nullingrels)@),
            ns0.len() <= nullingrels@.len(),
            nullingrels@.len() <= n || nullingrels@.len() == ns0.len(),
            null_sets(nullingrels@) == grown(ns0, nullingrels@.len() as int),
        decreases n - nullingrels@.len(),
    {
        let ghost before = nullingrels@;
        let none: Vec<i32> = Vec::new();
        assert(none@.to_set() =~= Set::<i32>::empty());
        nullingrels.push(none);
        assert(null_sets(nullingrels@) =~= null_sets(before).push(Set::empty()));
        assert(null_sets(nullingrels@) =~= grown(ns0, nullingrels@.len() as int));
    }
    assert(null_sets(nullingrels@) =~= grown(ns0, n as int));
    let ghost mid = nullingrels@;
    let mut members: Vec<i32> = Vec::new();
    std::mem::swap(&mut members, &mut nullingrels[n - 1]);
    add_member(&mut members, jindex);
    nullingrels.set(n - 1, members);
    assert(null_sets(nullingrels@) =~= marked_one(ns0, varno, jindex));
}

/// Marks every relation of a tree as nulled by a join.
pub fn markRelsAsNulledBy(nullingrels: &mut Vec<Vec<i32>>, n: &JoinTree, jindex: i32)
    requires
        tree_ok(*n),
    ensures
        null_sets(final(nullingrels)@) == marked(null_sets(old(nullingrels)@), *n, jindex),
    decreases n,
{
    match n {
        JoinTree::Rel { rtindex } => {
            mark_one(nullingrels, *rtindex, jindex);
        },
        JoinTree::Join { larg, rarg, rtindex } => {
            markRelsAsNulledBy(nullingrels, &**larg, jindex);
            markRelsAsNulledBy(nullingrels, &**rarg, jindex);
            mark_one(nullingrels, *rtindex, jindex);
        },
    }
}

/// The joins that null a relation.
pub open spec fn nulled_by(ns: Seq<Set<i32>>, rel: int) -> Set<i32> {
    if 1 <= rel <= ns.len() {
        ns[rel - 1]
    } else {
        Set::empty()
    }
}

proof fn lemma_marked_one(ns: Seq<Set<i32>>, varno: i32, jindex: i32, rel: int)
    requires
        varno >= 1,
        rel >= 1,
    ensures
        nulled_by(marked_one(ns, varno, jindex), rel) == if rel == varno {
            nulled_by(ns, rel).insert(jindex)
        } else {
            nulled_by(ns, rel)
        },
{
}

/// Marking a tree adds the join to exactly the relations of the tree.
pub proof fn law_marking_marks_the_tree(
    ns: Seq<Set<i32>>,
    t: JoinTree,
    jindex: i32,
    rel: int,
)
    requires
        tree_ok(t),
        rel >= 1,
    ensures
        nulled_by(marked(ns, t, jindex), rel) == if tree_rels(t).contains(rel) {
            nulled_by(ns, rel).insert(jindex)
        } else {
            nulled_by(ns, rel)
        },
    decreases t,
{
    match t {
        JoinTree::Rel { rtindex } => lemma_marked_one(ns, rtindex, jindex, rel),
        JoinTree::Join { larg, rarg, rtindex } => {
            law_marking_marks_the_tree(ns, *larg, jindex, rel);
            let a = marked(ns, *larg, jindex);
            law_marking_marks_the_tree(a, *rarg, jindex, rel);
            let b = marked(a, *rarg, jindex);
            lemma_marked_one(b, rtindex, jindex, rel);
            assert(nulled_by(marked(ns, t, jindex), rel) =~= if tree_rels(t).contains(rel) {
                nulled_by(ns, rel).insert(jindex)
            } else {
                nulled_by(ns, rel)
            });
        },
    }
}

} // verus!
