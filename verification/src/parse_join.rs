//! JOIN ... USING and NATURAL JOIN: which columns are joined, and what columns
//! a join has.
use vstd::prelude::*;
use crate::parse_nodes::{NamedError, ParseError};
use crate::text::str_eq;

verus! {

#[derive(Clone, Copy, Debug, PartialEq, Eq, Structural)]
pub enum JoinType {
    Inner,
    Left,
    Right,
    Full,
}

/// Which row a column of a RETURNING list is read from.
#[derive(Clone, Copy, Debug, PartialEq, Eq, Structural)]
pub enum VarReturningType {
    Default,
    Old,
    New,
}

/// How a column of an item in FROM is referred to.
#[derive(Clone, Copy, Debug, PartialEq, Eq, Structural)]
pub struct NsColumn {
    pub varno: u32,
    pub varattno: i16,
    pub vartype: u32,
    pub vartypmod: i32,
    pub varcollid: u32,
    pub varreturningtype: VarReturningType,
    /// How it is referred to in the query's text.
    pub varnosyn: u32,
    pub varattnosyn: i16,
    /// Left out of `*`.
    pub dontexpand: bool,
}

/// The names, as sequences of characters.
pub open spec fn names(v: Seq<String>) -> Seq<Seq<char>> {
    Seq::new(v.len(), |i: int| v[i]@)
}

/// The first of the names from `i` on that is `u`.
pub open spec fn name_from(ns: Seq<Seq<char>>, u: Seq<char>, i: int) -> int
    decreases ns.len() - i,
{
    if i < 0 || i >= ns.len() {
        ns.len() as int
    } else if ns[i] == u {
        i
    } else {
        name_from(ns, u, i + 1)
    }
}

/// The one column with a name, unless there is none or more than one.
pub open spec fn using_scan(
    ns: Seq<Seq<char>>,
    u: Seq<char>,
    column: usize,
    left: bool,
) -> Result<int, ParseError> {
    let i = name_from(ns, u, 0);
    if i >= ns.len() {
        Err(ParseError::UsingMissing { column, left })
    } else if name_from(ns, u, i + 1) < ns.len() {
        Err(ParseError::UsingAmbiguous { column, left })
    } else {
        Ok(i)
    }
}

/// The first of the names that is `u` is one, and none before it is.
pub proof fn lemma_name_from(ns: Seq<Seq<char>>, u: Seq<char>, i: int)
    requires
        0 <= i <= ns.len(),
    ensures
        i <= name_from(ns, u, i) <= ns.len(),
        name_from(ns, u, i) < ns.len() ==> ns[name_from(ns, u, i)] == u,
        forall|k: int| i <= k < name_from(ns, u, i) ==> #[trigger] ns[k] != u,
    decreases ns.len() - i,
{
    if i < ns.len() && ns[i] != u {
        lemma_name_from(ns, u, i + 1);
    }
}

fn find_name(v: &Vec<String>, u: &str, start: usize) -> (r: usize)
    requires
        start <= v@.len(),
    ensures
        r == name_from(names(v@), u@, start as int),
        start <= r <= v@.len(),
{
    let ghost ns = names(v@);
    let mut i: usize = start;
    while i < v.len()
        invariant
            start <= i <= v@.len(),
            ns == names(v@),
            name_from(ns, u@, start as int) == name_from(ns, u@, i as int),
        decreases v@.len() - i,
    {
        assert(ns[i as int] == v@[i as int]@);
        if str_eq(v[i].as_str(), u) {
            return i;
        }
        i = i + 1;
    }
    i
}

/// Looks for the one column that a name in USING stands for.
pub fn scanForUsingColumn(
    colnames: &Vec<String>,
    u_colname: &str,
    column: usize,
    left: bool,
) -> (r: Result<usize, ParseError>)
    ensures
        match (r, using_scan(names(colnames@), u_colname@, column, left)) {
            (Ok(i), Ok(j)) => i == j && i < colnames@.len(),
            (Err(a), Err(b)) => a == b,
            _ => false,
        },
{
    let i: usize = find_name(colnames, u_colname, 0);
    if i >= colnames.len() {
        return Err(ParseError::UsingMissing { column, left });
    }
    if find_name(colnames, u_colname, i + 1) < colnames.len() {
        return Err(ParseError::UsingAmbiguous { column, left });
    }
    Ok(i)
}

/// The names that a NATURAL JOIN joins by: those of the first `n` columns on
/// the left that the right has too, in the left's order.
pub open spec fn natural_names(l: Seq<Seq<char>>, r: Seq<Seq<char>>, n: nat) -> Seq<Seq<char>>
    decreases n,
{
    if n == 0 {
        Seq::empty()
    } else {
        let p = natural_names(l, r, (n - 1) as nat);
        if l[n - 1].len() > 0 && r.contains(l[n - 1]) {
            p.push(l[n - 1])
        } else {
            p
        }
    }
}

fn natural_columns(l: &Vec<String>, r: &Vec<String>) -> (u: Vec<String>)
    ensures
        names(u@) == natural_names(names(l@), names(r@), l@.len()),
{
    let ghost ln = names(l@);
    let ghost rn = names(r@);
    let mut u: Vec<String> = Vec::new();
    let mut i: usize = 0;
    assert(names(u@) =~= Seq::empty());
    while i < l.len()
        invariant
            i <= l@.len(),
            ln == names(l@),
            rn == names(r@),
            names(u@) == natural_names(ln, rn, i as nat),
        decreases l@.len() - i,
    {
        assert(ln[i as int] == l@[i as int]@);
        let empty: bool = l[i].as_str().unicode_len() == 0;
        let at: usize = find_name(r, l[i].as_str(), 0);
        proof {
            lemma_name_from(rn, ln[i as int], 0);
            if at < r@.len() {
                assert(rn[at as int] == ln[i as int]);
            }
        }
        if !empty && at < r.len() {
            let ghost before = u@;
            u.push(l[i].clone());
            assert(names(u@) =~= names(before).push(ln[i as int]));
        }
        i = i + 1;
    }
    u
}

/// The numbers (from one) of the joined columns on either side, and the error
/// that stopped the work.
pub ghost struct UsingBuilt {
    pub l: Seq<usize>,
    pub r: Seq<usize>,
    pub err: Option<ParseError>,
}

/// Whether a name occurs among the first `n`.
pub open spec fn occurs_before(using: Seq<Seq<char>>, n: int) -> bool {
    exists|k: int| 0 <= k < n && #[trigger] using[k] == using[n]
}

/// The first `n` names of USING: none may be repeated, and each must be the
/// name of exactly one column on either side.
pub open spec fn using_columns(
    l: Seq<Seq<char>>,
    r: Seq<Seq<char>>,
    using: Seq<Seq<char>>,
    n: nat,
) -> UsingBuilt
    decreases n,
{
    if n == 0 {
        UsingBuilt { l: Seq::empty(), r: Seq::empty(), err: None }
    } else {
        let p = using_columns(l, r, using, (n - 1) as nat);
        let column = (n - 1) as usize;
        if p.err is Some {
            p
        } else if occurs_before(using, n - 1) {
            UsingBuilt { err: Some(ParseError::UsingDuplicate { column }), ..p }
        } else {
            match using_scan(l, using[n - 1], column, true) {
                Err(e) => UsingBuilt { err: Some(e), ..p },
                Ok(i) => match using_scan(r, using[n - 1], column, false) {
                    Err(e) => UsingBuilt { err: Some(e), ..p },
                    Ok(j) => UsingBuilt {
                        l: p.l.push((i + 1) as usize),
                        r: p.r.push((j + 1) as usize),
                        err: None,
                    },
                },
            }
        }
    }
}

proof fn lemma_using_stop(
    l: Seq<Seq<char>>,
    r: Seq<Seq<char>>,
    using: Seq<Seq<char>>,
    m: nat,
    n: nat,
)
    requires
        m <= n,
        using_columns(l, r, using, m).err is Some,
    ensures
        using_columns(l, r, using, n) == using_columns(l, r, using, m),
    decreases n,
{
    if m < n {
        lemma_using_stop(l, r, using, m, (n - 1) as nat);
    }
}

/// What a join is joined by.
pub struct JoinPlan {
    /// The names of the joined columns.
    pub using: Vec<String>,
    /// Their numbers on the left, from one.
    pub l_colnos: Vec<usize>,
    /// Their numbers on the right, from one.
    pub r_colnos: Vec<usize>,
}

/// Whether a plan is of a join between sides with these many columns.
pub open spec fn plan_ok(p: JoinPlan, l: nat, r: nat) -> bool {
    &&& p.l_colnos@.len() == p.using@.len()
    &&& p.r_colnos@.len() == p.using@.len()
    &&& forall|k: int| 0 <= k < p.l_colnos@.len() ==> 1 <= #[trigger] p.l_colnos@[k] <= l
    &&& forall|k: int| 0 <= k < p.r_colnos@.len() ==> 1 <= #[trigger] p.r_colnos@[k] <= r
}

/// The names of USING, written or implied by NATURAL.
pub open spec fn using_names(
    l: Seq<Seq<char>>,
    r: Seq<Seq<char>>,
    using: Seq<Seq<char>>,
    natural: bool,
) -> Seq<Seq<char>> {
    if natural {
        natural_names(l, r, l.len())
    } else {
        using
    }
}

fn repeated(using: &Vec<String>, n: usize) -> (r: bool)
    requires
        n < using@.len(),
    ensures
        r == occurs_before(names(using@), n as int),
{
    let ghost ns = names(using@);
    let mut k: usize = 0;
    while k < n
        invariant
            k <= n < using@.len(),
            ns == names(using@),
            forall|j: int| 0 <= j < k ==> #[trigger] ns[j] != ns[n as int],
        decreases n - k,
    {
        assert(ns[k as int] == using@[k as int]@);
        assert(ns[n as int] == using@[n as int]@);
        if str_eq(using[k].as_str(), using[n].as_str()) {
            assert(ns[k as int] == ns[n as int]);
            return true;
        }
        k = k + 1;
    }
    false
}

/// Finds the columns that a join is joined by, unless the names of the two
/// sides clash (with the error of this number). An error about USING names the
/// column.
pub fn plan_join(
    l_colnames: &Vec<String>,
    r_colnames: &Vec<String>,
    written: Vec<String>,
    natural: bool,
    conflict: Option<i32>,
) -> (r: Result<JoinPlan, NamedError>)
    ensures
        conflict matches Some(e) ==> r is Err && (r->Err_0).error == ParseError::Outside(e)
            && (r->Err_0).name is None,
        conflict is None ==> ({
            let ln = names(l_colnames@);
            let rn = names(r_colnames@);
            let un = using_names(ln, rn, names(written@), natural);
            let b = using_columns(ln, rn, un, un.len());
            match r {
                Ok(p) => b.err is None && names(p.using@) == un && p.l_colnos@ == b.l
                    && p.r_colnos@ == b.r && plan_ok(p, l_colnames@.len(), r_colnames@.len()),
                Err(e) => b.err == Some(e.error) && b.l.len() < un.len() && e.name is Some
                    && (e.name->0)@ == un[b.l.len() as int],
            }
        }),
{
    if let Some(e) = conflict {
        return Err(NamedError { error: ParseError::Outside(e), name: None });
    }
    let ghost ln = names(l_colnames@);
    let ghost rn = names(r_colnames@);
    let using: Vec<String> = if natural {
        natural_columns(l_colnames, r_colnames)
    } else {
        written
    };
    let ghost un = names(using@);
    let mut l_colnos: Vec<usize> = Vec::new();
    let mut r_colnos: Vec<usize> = Vec::new();
    let l_count: usize = l_colnames.len();
    let r_count: usize = r_colnames.len();
    let mut k: usize = 0;
    while k < using.len()
        invariant
            conflict is None,
            l_count == l_colnames@.len(),
            r_count == r_colnames@.len(),
            k <= using@.len(),
            un == names(using@),
            ln == names(l_colnames@),
            rn == names(r_colnames@),
            l_colnos@.len() == k,
            r_colnos@.len() == k,
            forall|j: int| 0 <= j < k ==> 1 <= #[trigger] l_colnos@[j] <= l_colnames@.len(),
            forall|j: int| 0 <= j < k ==> 1 <= #[trigger] r_colnos@[j] <= r_colnames@.len(),
            using_columns(ln, rn, un, k as nat) == (UsingBuilt {
                l: l_colnos@,
                r: r_colnos@,
                err: None,
            }),
            un == using_names(ln, rn, names(written@), natural),
        decreases using@.len() - k,
    {
        assert(un[k as int] == using@[k as int]@);
        if repeated(&using, k) {
            proof {
                lemma_using_stop(ln, rn, un, (k + 1) as nat, un.len());
            }
            return Err(
                NamedError {
                    error: ParseError::UsingDuplicate { column: k },
                    name: Some(String::from_str(using[k].as_str())),
                },
            );
        }
        match scanForUsingColumn(l_colnames, using[k].as_str(), k, true) {
            Err(error) => {
                proof {
                    lemma_using_stop(ln, rn, un, (k + 1) as nat, un.len());
                }
                return Err(
                    NamedError { error, name: Some(String::from_str(using[k].as_str())) },
                );
            },
            Ok(i) => {
                match scanForUsingColumn(r_colnames, using[k].as_str(), k, false) {
                    Err(error) => {
                        proof {
                            lemma_using_stop(ln, rn, un, (k + 1) as nat, un.len());
                        }
                        return Err(
                            NamedError { error, name: Some(String::from_str(using[k].as_str())) },
                        );
                    },
                    Ok(j) => {
                        l_colnos.push(i + 1);
                        r_colnos.push(j + 1);
                    },
                }
            },
        }
        k = k + 1;
    }
    Ok(JoinPlan { using, l_colnos, r_colnos })
}

/// What an input of a merged column became.
#[derive(Clone, Copy, Debug, PartialEq, Eq, Structural)]
pub enum ArgForm {
    /// The column itself.
    Plain,
    /// Marked as having another type modifier.
    Relabelled,
    /// Coerced to the common type.
    Coerced,
}

/// What a merged column is made of.
#[derive(Clone, Copy, Debug, PartialEq, Eq, Structural)]
pub enum MergePick {
    Left,
    Right,
    Coalesce,
}

/// What the coercion rules say of two columns that are merged.
#[derive(Clone, Copy, Debug, PartialEq, Eq)]
pub struct MergeTypes {
    /// The common type (or the number of the error).
    pub outtype: Result<u32, i32>,
    pub outtypmod: i32,
    /// The type modifier of the left column coerced to the common type.
    pub l_coerced: Result<i32, i32>,
    /// The type modifier of the right column coerced to the common type.
    pub r_coerced: Result<i32, i32>,
    /// The collation that the merged column is given.
    pub collation: Result<u32, i32>,
}

/// A merged column.
#[derive(Clone, Copy, Debug, PartialEq, Eq, Structural)]
pub struct MergedVar {
    pub pick: MergePick,
    pub left: ArgForm,
    pub right: ArgForm,
    pub rtype: u32,
    pub typmod: i32,
}

/// What an input of a merged column becomes, and its type modifier then.
pub open spec fn merge_arg(
    typ: u32,
    typmod: i32,
    outtype: u32,
    outtypmod: i32,
    coerced: Result<i32, i32>,
) -> Result<(ArgForm, i32), ParseError> {
    if typ != outtype {
        match coerced {
            Ok(t) => Ok((ArgForm::Coerced, t)),
            Err(e) => Err(ParseError::Outside(e)),
        }
    } else if typmod != outtypmod {
        Ok((ArgForm::Relabelled, outtypmod))
    } else {
        Ok((ArgForm::Plain, typmod))
    }
}

/// The type modifier of a COALESCE of two values of one type.
pub open spec fn coalesce_typmod(l: i32, r: i32) -> i32 {
    if l == r {
        l
    } else {
        NO_TYPMOD
    }
}

/// No type modifier.
pub const NO_TYPMOD: i32 = -1;

/// The column that two joined columns are merged into: a plain column where
/// the kind of join allows it, else the left, the right, or whichever is not
/// null.
pub open spec fn merged(jointype: JoinType, l: NsColumn, r: NsColumn, m: MergeTypes) -> Result<
    MergedVar,
    ParseError,
> {
    match m.outtype {
        Err(e) => Err(ParseError::Outside(e)),
        Ok(outtype) => match merge_arg(
            l.vartype,
            l.vartypmod,
            outtype,
            m.outtypmod,
            m.l_coerced,
        ) {
            Err(e) => Err(e),
            Ok((left, lt)) => match merge_arg(
                r.vartype,
                r.vartypmod,
                outtype,
                m.outtypmod,
                m.r_coerced,
            ) {
                Err(e) => Err(e),
                Ok((right, rt)) => {
                    let pick = match jointype {
                        JoinType::Inner => if left != ArgForm::Plain && right == ArgForm::Plain {
                            MergePick::Right
                        } else {
                            MergePick::Left
                        },
                        JoinType::Left => MergePick::Left,
                        JoinType::Right => MergePick::Right,
                        JoinType::Full => MergePick::Coalesce,
                    };
                    match m.collation {
                        Err(e) => Err(ParseError::Outside(e)),
                        Ok(_) => Ok(
                            MergedVar {
                                pick,
                                left,
                                right,
                                rtype: outtype,
                                typmod: match pick {
                                    MergePick::Left => lt,
                                    MergePick::Right => rt,
                                    MergePick::Coalesce => coalesce_typmod(lt, rt),
                                },
                            },
                        ),
                    }
                },
            },
        },
    }
}

fn merge_input(
    typ: u32,
    typmod: i32,
    outtype: u32,
    outtypmod: i32,
    coerced: Result<i32, i32>,
) -> (r: Result<(ArgForm, i32), ParseError>)
    ensures
        r == merge_arg(typ, typmod, outtype, outtypmod, coerced),
{
    if typ != outtype {
        match coerced {
            Ok(t) => Ok((ArgForm::Coerced, t)),
            Err(e) => Err(ParseError::Outside(e)),
        }
    } else if typmod != outtypmod {
        Ok((ArgForm::Relabelled, outtypmod))
    } else {
        Ok((ArgForm::Plain, typmod))
    }
}

/// Merges two joined columns into one.
pub fn buildMergedJoinVar(jointype: JoinType, l: NsColumn, r: NsColumn, m: MergeTypes) -> (res:
    Result<MergedVar, ParseError>)
    ensures
        res == merged(jointype, l, r, m),
{
    let outtype: u32 = match m.outtype {
        Ok(t) => t,
        Err(e) => {
            return Err(ParseError::Outside(e));
        },
    };
    let (left, lt) = match merge_input(l.vartype, l.vartypmod, outtype, m.outtypmod, m.l_coerced) {
        Ok(x) => x,
        Err(e) => {
            return Err(e);
        },
    };
    let (right, rt) = match merge_input(
        r.vartype,
        r.vartypmod,
        outtype,
        m.outtypmod,
        m.r_coerced,
    ) {
        Ok(x) => x,
        Err(e) => {
            return Err(e);
        },
    };
    let pick: MergePick = match jointype {
        JoinType::Inner => {
            if left != ArgForm::Plain && right == ArgForm::Plain {
                MergePick::Right
            } else {
                MergePick::Left
            }
        },
        JoinType::Left => MergePick::Left,
        JoinType::Right => MergePick::Right,
        JoinType::Full => MergePick::Coalesce,
    };
    let typmod: i32 = match pick {
        MergePick::Left => lt,
        MergePick::Right => rt,
        MergePick::Coalesce => {
            if lt == rt {
                lt
            } else {
                NO_TYPMOD
            }
        },
    };
    if let Err(e) = m.collation {
        return Err(ParseError::Outside(e));
    }
    Ok(MergedVar { pick, left, right, rtype: outtype, typmod })
}

/// How a merged column is referred to: as one of the inputs where it is one,
/// else as column `k + 1` of the join.
pub open spec fn merged_column(
    v: MergedVar,
    l: NsColumn,
    r: NsColumn,
    collation: u32,
    rtindex: u32,
    k: int,
) -> NsColumn {
    if v.pick == MergePick::Left && v.left == ArgForm::Plain {
        l
    } else if v.pick == MergePick::Right && v.right == ArgForm::Plain {
        r
    } else {
        NsColumn {
            varno: rtindex,
            varattno: (k + 1) as i16,
            vartype: v.rtype,
            vartypmod: v.typmod,
            varcollid: collation,
            varreturningtype: VarReturningType::Default,
            varnosyn: rtindex,
            varattnosyn: (k + 1) as i16,
            dontexpand: false,
        }
    }
}

/// An outer join never takes a merged column from its nullable side alone.
pub proof fn law_merged_column_is_not_nulled(
    jointype: JoinType,
    l: NsColumn,
    r: NsColumn,
    m: MergeTypes,
)
    requires
        merged(jointype, l, r, m) is Ok,
    ensures
        ({
            let v = merged(jointype, l, r, m)->Ok_0;
            &&& jointype == JoinType::Left ==> v.pick == MergePick::Left
            &&& jointype == JoinType::Right ==> v.pick == MergePick::Right
            &&& jointype == JoinType::Full <==> v.pick == MergePick::Coalesce
        }),
{
}

/// The columns of one side (numbers from one) among the first `n` that are
/// neither joined, dropped nor left out.
pub open spec fn remaining(
    ns: Seq<Seq<char>>,
    cols: Seq<NsColumn>,
    colnos: Seq<usize>,
    n: nat,
) -> Seq<usize>
    decreases n,
{
    if n == 0 {
        Seq::empty()
    } else {
        let p = remaining(ns, cols, colnos, (n - 1) as nat);
        if ns[n - 1].len() == 0 || cols[n - 1].dontexpand || colnos.contains(n as usize) {
            p
        } else {
            p.push(n as usize)
        }
    }
}

fn contains_colno(colnos: &Vec<usize>, n: usize) -> (r: bool)
    ensures
        r == colnos@.contains(n),
{
    let mut i: usize = 0;
    while i < colnos.len()
        invariant
            i <= colnos@.len(),
            forall|k: int| 0 <= k < i ==> colnos@[k] != n,
        decreases colnos@.len() - i,
    {
        if colnos[i] == n {
            assert(colnos@[i as int] == n);
            return true;
        }
        i = i + 1;
    }
    false
}

/// The columns of one side that are neither joined, dropped nor left out.
pub fn extractRemainingColumns(
    src_colnames: &Vec<String>,
    src_nscolumns: &Vec<NsColumn>,
    src_colnos: &Vec<usize>,
) -> (r: Vec<usize>)
    requires
        src_colnames@.len() == src_nscolumns@.len(),
    ensures
        r@ == remaining(
            names(src_colnames@),
            src_nscolumns@,
            src_colnos@,
            src_colnames@.len(),
        ),
        forall|k: int| 0 <= k < r@.len() ==> 1 <= #[trigger] r@[k] <= src_colnames@.len(),
        r@.len() <= src_colnames@.len(),
{
    let ghost ns = names(src_colnames@);
    let mut out: Vec<usize> = Vec::new();
    let mut i: usize = 0;
    while i < src_colnames.len()
        invariant
            i <= src_colnames@.len(),
            src_colnames@.len() == src_nscolumns@.len(),
            ns == names(src_colnames@),
            out@.len() <= i,
            forall|k: int| 0 <= k < out@.len() ==> 1 <= #[trigger] out@[k] <= i,
            out@ == remaining(ns, src_nscolumns@, src_colnos@, i as nat),
        decreases src_colnames@.len() - i,
    {
        assert(ns[i as int] == src_colnames@[i as int]@);
        let dropped: bool = src_colnames[i].as_str().unicode_len() == 0;
        let attnum: usize = i + 1;
        if !(dropped || src_nscolumns[i].dontexpand || contains_colno(src_colnos, attnum)) {
            out.push(attnum);
        }
        i = i + 1;
    }
    out
}

/// A join has every column of a side that is neither dropped nor left out
/// exactly once beside the joined ones, in order.
pub proof fn law_remaining_columns(
    ns: Seq<Seq<char>>,
    cols: Seq<NsColumn>,
    colnos: Seq<usize>,
    n: nat,
)
    requires
        n <= ns.len(),
        ns.len() <= usize::MAX,
        ns.len() == cols.len(),
    ensures
        ({
            let r = remaining(ns, cols, colnos, n);
            &&& forall|i: int, j: int|
                0 <= i < j < r.len() ==> #[trigger] r[i] < #[trigger] r[j]
            &&& forall|a: usize|
                #[trigger] r.contains(a) <==> (1 <= a <= n && ns[a - 1].len() > 0 && !cols[a
                    - 1].dontexpand && !colnos.contains(a))
        }),
    decreases n,
{
    if n > 0 {
        law_remaining_columns(ns, cols, colnos, (n - 1) as nat);
        let p = remaining(ns, cols, colnos, (n - 1) as nat);
        let r = remaining(ns, cols, colnos, n);
        assert forall|i: int, j: int| 0 <= i < j < r.len() implies #[trigger] r[i]
            < #[trigger] r[j] by {
            if j == p.len() {
                assert(p.contains(p[i]));
            }
        }
        assert forall|a: usize| #[trigger]
            r.contains(a) <==> (1 <= a <= n && ns[a - 1].len() > 0 && !cols[a - 1].dontexpand
                && !colnos.contains(a)) by {
            if r.len() > p.len() {
                assert(r[p.len() as int] == n as usize);
                if p.contains(a) {
                    let k = choose|k: int| 0 <= k < p.len() && p[k] == a;
                    assert(r[k] == a);
                }
                if r.contains(a) && a != n {
                    let k = choose|k: int| 0 <= k < r.len() && r[k] == a;
                    assert(p[k] == a);
                }
            }
            assert(p.contains(a) <==> (1 <= a <= n - 1 && ns[a - 1].len() > 0 && !cols[a
                - 1].dontexpand && !colnos.contains(a)));
        }
    }
}

} // verus!
