//! Finding and adding target list entries, and ORDER BY.
use vstd::prelude::*;
use crate::parse_nodes;
use crate::parse_nodes::{
    strip_implicit_coercions, Catalog, Expr, ParseError, ParseExprKind, ParseFlags, RawExpr,
    RawKind, SortBy, SortByDir, SortByNulls, SortGroupClause, SortOps, TargetEntry, TEXTOID,
    UNKNOWNOID,
};
use crate::text::str_eq;

verus! {

/// Whether an entry is part of the result under this name.
pub open spec fn is_named(t: TargetEntry, name: Seq<char>) -> bool {
    !t.resjunk && (t.resname matches Some(n) && n@ == name)
}

/// The first entry from `i` on with this name; the length where there is none.
pub open spec fn named_from(tl: Seq<TargetEntry>, name: Seq<char>, i: int) -> int
    decreases tl.len() - i,
{
    if i < 0 || i >= tl.len() {
        tl.len() as int
    } else if is_named(tl[i], name) {
        i
    } else {
        named_from(tl, name, i + 1)
    }
}

/// The first entry from `i` on that equals an expression once its implicit
/// coercions are stripped.
pub open spec fn matching_from(tl: Seq<TargetEntry>, key: u64, i: int) -> int
    decreases tl.len() - i,
{
    if i < 0 || i >= tl.len() {
        tl.len() as int
    } else if parse_nodes::stripped(tl[i].expr).key == key {
        i
    } else {
        matching_from(tl, key, i + 1)
    }
}

/// The `pos`th entry of the result, counting from `i`.
pub open spec fn position_from(tl: Seq<TargetEntry>, pos: int, i: int) -> int
    decreases tl.len() - i,
{
    if i < 0 || i >= tl.len() || pos < 1 {
        tl.len() as int
    } else if tl[i].resjunk {
        position_from(tl, pos, i + 1)
    } else if pos == 1 {
        i
    } else {
        position_from(tl, pos - 1, i + 1)
    }
}

/// The first entry from `i` on that a sort or group clause refers to by `r`.
pub open spec fn referred_from(tl: Seq<TargetEntry>, r: u32, i: int) -> int
    decreases tl.len() - i,
{
    if i < 0 || i >= tl.len() {
        tl.len() as int
    } else if tl[i].ressortgroupref == r {
        i
    } else {
        referred_from(tl, r, i + 1)
    }
}

/// Whether the name also stands for a value other than that of entry `m`.
pub open spec fn ambiguous(tl: Seq<TargetEntry>, name: Seq<char>, m: int) -> bool {
    exists|j: int|
        m < j < tl.len() && is_named(#[trigger] tl[j], name) && tl[j].expr.key != tl[m].expr.key
}

/// Whether an entry found by name or by position may be used.
pub open spec fn refused(e: Expr, kind: ParseExprKind, flags: ParseFlags) -> Option<ParseError> {
    match kind {
        ParseExprKind::GroupBy => match (e.agg_location, e.window_location) {
            (Some(location), _) if flags.has_aggs => Some(
                ParseError::AggregateInGroupBy { location },
            ),
            (_, Some(location)) if flags.has_window_funcs => Some(
                ParseError::WindowInGroupBy { location },
            ),
            _ => None,
        },
        ParseExprKind::OrderBy | ParseExprKind::DistinctOn => None,
        _ => Some(ParseError::UnexpectedExprKind),
    }
}

/// A target list, and the entry that was asked for.
pub ghost struct Found {
    pub tl: Seq<TargetEntry>,
    pub res: Result<int, ParseError>,
}

/// The entry that an item stands for by SQL99's rule: an equal expression, or
/// a new entry that is not part of the result.
pub open spec fn found_sql99(raw: RawExpr, tl: Seq<TargetEntry>) -> Found {
    match raw.transformed {
        Err(e) => Found { tl, res: Err(ParseError::Outside(e)) },
        Ok(expr) => {
            let m = matching_from(tl, expr.key, 0);
            if m < tl.len() {
                Found { tl, res: Ok(m) }
            } else {
                Found {
                    tl: tl.push(
                        TargetEntry {
                            expr,
                            resno: (tl.len() + 1) as i16,
                            resname: None,
                            ressortgroupref: 0,
                            resjunk: true,
                        },
                    ),
                    res: Ok(tl.len() as int),
                }
            }
        },
    }
}

/// An entry found by name or by position, if it may be used.
pub open spec fn found_checked(
    tl: Seq<TargetEntry>,
    i: int,
    kind: ParseExprKind,
    flags: ParseFlags,
) -> Found {
    match refused(tl[i].expr, kind, flags) {
        Some(e) => Found { tl, res: Err(e) },
        None => Found { tl, res: Ok(i) },
    }
}

/// The entry that an item stands for by SQL92's rule: a result column's name
/// (GROUP BY prefers a column of FROM), a position, or else SQL99's rule.
pub open spec fn found_sql92(
    raw: RawExpr,
    tl: Seq<TargetEntry>,
    kind: ParseExprKind,
    flags: ParseFlags,
) -> Found {
    match raw.kind {
        RawKind::ColumnName(name) => {
            if kind == ParseExprKind::GroupBy && raw.from_column is Err {
                Found { tl, res: Err(ParseError::Outside(raw.from_column->Err_0)) }
            } else if kind == ParseExprKind::GroupBy && raw.from_column == Ok::<bool, i32>(true) {
                found_sql99(raw, tl)
            } else {
                let m = named_from(tl, name@, 0);
                if m >= tl.len() {
                    found_sql99(raw, tl)
                } else if ambiguous(tl, name@, m) {
                    Found {
                        tl,
                        res: Err(ParseError::AmbiguousColumn { kind, location: raw.location }),
                    }
                } else {
                    found_checked(tl, m, kind, flags)
                }
            }
        },
        RawKind::IntegerConst(pos) => {
            let m = position_from(tl, pos as int, 0);
            if m >= tl.len() {
                Found {
                    tl,
                    res: Err(
                        ParseError::PositionNotInList {
                            kind,
                            position: pos,
                            location: raw.location,
                        },
                    ),
                }
            } else {
                found_checked(tl, m, kind, flags)
            }
        },
        RawKind::OtherConst => Found {
            tl,
            res: Err(ParseError::NonIntegerConstant { kind, location: raw.location }),
        },
        RawKind::Other => found_sql99(raw, tl),
    }
}

/// The entry that an item stands for.
pub open spec fn found(
    raw: RawExpr,
    tl: Seq<TargetEntry>,
    kind: ParseExprKind,
    use_sql99: bool,
    flags: ParseFlags,
) -> Found {
    if use_sql99 {
        found_sql99(raw, tl)
    } else {
        found_sql92(raw, tl, kind, flags)
    }
}

/// Whether a lookup's outcome is the one described.
pub open spec fn is_found(r: Result<usize, ParseError>, f: Found) -> bool {
    match (r, f.res) {
        (Ok(i), Ok(j)) => i == j && i < f.tl.len(),
        (Err(a), Err(b)) => a == b,
        _ => false,
    }
}

fn resname_is(t: &TargetEntry, name: &str) -> (r: bool)
    ensures
        r == (t.resname matches Some(n) && n@ == name@),
{
    match &t.resname {
        Some(n) => str_eq(n.as_str(), name),
        None => false,
    }
}

/// Whether an entry found by name or by position may be used.
pub fn checkTargetlistEntrySQL92(e: &Expr, kind: ParseExprKind, flags: ParseFlags) -> (r: Result<
    (),
    ParseError,
>)
    ensures
        r == match refused(*e, kind, flags) {
            Some(x) => Err::<(), ParseError>(x),
            None => Ok::<(), ParseError>(()),
        },
{
    match kind {
        ParseExprKind::GroupBy => {
            if flags.has_aggs {
                if let Some(location) = e.agg_location {
                    return Err(ParseError::AggregateInGroupBy { location });
                }
            }
            if flags.has_window_funcs {
                if let Some(location) = e.window_location {
                    return Err(ParseError::WindowInGroupBy { location });
                }
            }
            Ok(())
        },
        ParseExprKind::OrderBy | ParseExprKind::DistinctOn => Ok(()),
        _ => Err(ParseError::UnexpectedExprKind),
    }
}

/// The entry that an item stands for by SQL99's rule.
pub fn findTargetlistEntrySQL99(raw: &RawExpr, tlist: &mut Vec<TargetEntry>) -> (r: Result<
    usize,
    ParseError,
>)
    ensures
        final(tlist)@ == found_sql99(*raw, old(tlist)@).tl,
        is_found(r, found_sql99(*raw, old(tlist)@)),
{
    let expr: &Expr = match &raw.transformed {
        Err(e) => {
            return Err(ParseError::Outside(*e));
        },
        Ok(expr) => expr,
    };
    let mut i: usize = 0;
    while i < tlist.len()
        invariant
            i <= tlist@.len(),
            *tlist == *old(tlist),
            raw.transformed == Ok::<Expr, i32>(*expr),
            matching_from(tlist@, expr.key, 0) == matching_from(tlist@, expr.key, i as int),
        decreases tlist@.len() - i,
    {
        if strip_implicit_coercions(&tlist[i].expr).key == expr.key {
            return Ok(i);
        }
        i = i + 1;
    }
    let n: usize = tlist.len();
    let resno: i16 = (n as u128 + 1) as i16;
    tlist.push(
        TargetEntry {
            expr: expr.dup(),
            resno,
            resname: None,
            ressortgroupref: 0,
            resjunk: true,
        },
    );
    Ok(n)
}

fn find_named(tlist: &Vec<TargetEntry>, name: &str) -> (r: usize)
    ensures
        r == named_from(tlist@, name@, 0),
        r <= tlist@.len(),
{
    let mut i: usize = 0;
    while i < tlist.len()
        invariant
            i <= tlist@.len(),
            named_from(tlist@, name@, 0) == named_from(tlist@, name@, i as int),
        decreases tlist@.len() - i,
    {
        if !tlist[i].resjunk && resname_is(&tlist[i], name) {
            return i;
        }
        i = i + 1;
    }
    i
}

fn is_ambiguous(tlist: &Vec<TargetEntry>, name: &str, m: usize) -> (r: bool)
    requires
        m < tlist@.len(),
    ensures
        r == ambiguous(tlist@, name@, m as int),
{
    let n: usize = tlist.len();
    let mut i: usize = m + 1;
    while i < n
        invariant
            n == tlist@.len(),
            m < i <= tlist@.len(),
            forall|j: int|
                m < j < i ==> !(is_named(#[trigger] tlist@[j], name@) && tlist@[j].expr.key
                    != tlist@[m as int].expr.key),
        decreases tlist@.len() - i,
    {
        if !tlist[i].resjunk && resname_is(&tlist[i], name) && tlist[i].expr.key
            != tlist[m].expr.key {
            assert(is_named(tlist@[i as int], name@));
            return true;
        }
        i = i + 1;
    }
    false
}

fn find_position(tlist: &Vec<TargetEntry>, pos: i32) -> (r: usize)
    ensures
        r == position_from(tlist@, pos as int, 0),
        r <= tlist@.len(),
{
    if pos < 1 {
        return tlist.len();
    }
    let mut left: i32 = pos;
    let mut i: usize = 0;
    while i < tlist.len()
        invariant
            i <= tlist@.len(),
            left >= 1,
            position_from(tlist@, pos as int, 0) == position_from(tlist@, left as int, i as int),
        decreases tlist@.len() - i,
    {
        if !tlist[i].resjunk {
            if left == 1 {
                return i;
            }
            left = left - 1;
        }
        i = i + 1;
    }
    i
}

/// The first entry that a sort or group clause refers to by `r`.
pub fn find_referred(tlist: &Vec<TargetEntry>, r: u32) -> (i: usize)
    ensures
        i == referred_from(tlist@, r, 0),
        i <= tlist@.len(),
{
    let mut i: usize = 0;
    while i < tlist.len()
        invariant
            i <= tlist@.len(),
            referred_from(tlist@, r, 0) == referred_from(tlist@, r, i as int),
        decreases tlist@.len() - i,
    {
        if tlist[i].ressortgroupref == r {
            return i;
        }
        i = i + 1;
    }
    i
}

fn checked(tlist: &Vec<TargetEntry>, i: usize, kind: ParseExprKind, flags: ParseFlags) -> (r:
    Result<usize, ParseError>)
    requires
        i < tlist@.len(),
    ensures
        is_found(r, found_checked(tlist@, i as int, kind, flags)),
{
    match checkTargetlistEntrySQL92(&tlist[i].expr, kind, flags) {
        Ok(_) => Ok(i),
        Err(e) => Err(e),
    }
}

/// The entry that an item stands for by SQL92's rule.
pub fn findTargetlistEntrySQL92(
    raw: &RawExpr,
    tlist: &mut Vec<TargetEntry>,
    kind: ParseExprKind,
    flags: ParseFlags,
) -> (r: Result<usize, ParseError>)
    ensures
        final(tlist)@ == found_sql92(*raw, old(tlist)@, kind, flags).tl,
        is_found(r, found_sql92(*raw, old(tlist)@, kind, flags)),
{
    match &raw.kind {
        RawKind::ColumnName(name) => {
            if kind == ParseExprKind::GroupBy {
                match raw.from_column {
                    Err(e) => {
                        return Err(ParseError::Outside(e));
                    },
                    Ok(in_from) => {
                        if in_from {
                            return findTargetlistEntrySQL99(raw, tlist);
                        }
                    },
                }
            }
            let m: usize = find_named(tlist, name.as_str());
            if m >= tlist.len() {
                return findTargetlistEntrySQL99(raw, tlist);
            }
            if is_ambiguous(tlist, name.as_str(), m) {
                return Err(ParseError::AmbiguousColumn { kind, location: raw.location });
            }
            checked(tlist, m, kind, flags)
        },
        RawKind::IntegerConst(pos) => {
            let m: usize = find_position(tlist, *pos);
            if m >= tlist.len() {
                return Err(
                    ParseError::PositionNotInList { kind, position: *pos, location: raw.location },
                );
            }
            checked(tlist, m, kind, flags)
        },
        RawKind::OtherConst => Err(ParseError::NonIntegerConstant { kind, location: raw.location }),
        RawKind::Other => findTargetlistEntrySQL99(raw, tlist),
    }
}

/// The entry that an item stands for.
pub fn find_target(
    raw: &RawExpr,
    tlist: &mut Vec<TargetEntry>,
    kind: ParseExprKind,
    use_sql99: bool,
    flags: ParseFlags,
) -> (r: Result<usize, ParseError>)
    ensures
        final(tlist)@ == found(*raw, old(tlist)@, kind, use_sql99, flags).tl,
        is_found(r, found(*raw, old(tlist)@, kind, use_sql99, flags)),
{
    if use_sql99 {
        findTargetlistEntrySQL99(raw, tlist)
    } else {
        findTargetlistEntrySQL92(raw, tlist, kind, flags)
    }
}

/// The largest number that a sort or group clause refers to an entry by.
pub open spec fn max_ref(tl: Seq<TargetEntry>) -> u32
    decreases tl.len(),
{
    if tl.len() == 0 {
        0
    } else {
        let m = max_ref(tl.drop_last());
        if tl.last().ressortgroupref > m {
            tl.last().ressortgroupref
        } else {
            m
        }
    }
}

/// The target list with a number for entry `i`: the one it has, or else the
/// next that is free.
pub open spec fn numbered(tl: Seq<TargetEntry>, i: int) -> Seq<TargetEntry> {
    if tl[i].ressortgroupref != 0 {
        tl
    } else {
        tl.update(i, TargetEntry { ressortgroupref: (max_ref(tl) + 1) as u32, ..tl[i] })
    }
}

/// No entry's number is larger than the largest, and the largest is some
/// entry's unless no entry has one.
pub proof fn lemma_max_ref(tl: Seq<TargetEntry>)
    ensures
        forall|i: int| 0 <= i < tl.len() ==> (#[trigger] tl[i]).ressortgroupref <= max_ref(tl),
        max_ref(tl) == 0 || exists|i: int|
            0 <= i < tl.len() && (#[trigger] tl[i]).ressortgroupref == max_ref(tl),
    decreases tl.len(),
{
    if tl.len() > 0 {
        let t = tl.drop_last();
        lemma_max_ref(t);
        assert forall|i: int| 0 <= i < tl.len() implies (#[trigger] tl[i]).ressortgroupref
            <= max_ref(tl) by {
            if i < t.len() {
                assert(t[i] == tl[i]);
            }
        }
        if tl.last().ressortgroupref > max_ref(t) {
            assert(tl[tl.len() - 1].ressortgroupref == max_ref(tl));
        } else if max_ref(t) != 0 {
            let j = choose|j: int|
                0 <= j < t.len() && (#[trigger] t[j]).ressortgroupref == max_ref(t);
            assert(tl[j].ressortgroupref == max_ref(tl));
        }
    }
}

/// A number that bounds all others from above, and is one of them, is the
/// largest.
proof fn lemma_max_ref_is(tl: Seq<TargetEntry>, m: u32)
    requires
        forall|i: int| 0 <= i < tl.len() ==> (#[trigger] tl[i]).ressortgroupref <= m,
        m == 0 || exists|i: int| 0 <= i < tl.len() && (#[trigger] tl[i]).ressortgroupref == m,
    ensures
        max_ref(tl) == m,
{
    lemma_max_ref(tl);
}

/// Numbering an entry raises the largest number by one at most.
pub proof fn lemma_numbered(tl: Seq<TargetEntry>, i: int)
    requires
        0 <= i < tl.len(),
        max_ref(tl) < u32::MAX,
    ensures
        numbered(tl, i).len() == tl.len(),
        max_ref(tl) <= max_ref(numbered(tl, i)) <= max_ref(tl) + 1,
        numbered(tl, i)[i].ressortgroupref != 0,
{
    lemma_max_ref(tl);
    let n = numbered(tl, i);
    lemma_max_ref(n);
    if tl[i].ressortgroupref == 0 {
        assert(n[i].ressortgroupref == max_ref(tl) + 1);
        lemma_max_ref_is(n, (max_ref(tl) + 1) as u32);
    }
}

/// A new number differs from every number in use, the number that an entry has
/// is kept, and numbering twice is numbering once.
pub proof fn law_numbers_are_unique(tl: Seq<TargetEntry>, i: int, j: int)
    requires
        0 <= i < tl.len(),
        0 <= j < tl.len(),
        i != j,
        max_ref(tl) < u32::MAX,
    ensures
        numbered(tl, i)[j] == tl[j],
        tl[i].ressortgroupref == 0 ==> numbered(tl, i)[i].ressortgroupref
            != numbered(tl, i)[j].ressortgroupref,
        tl[i].ressortgroupref != 0 ==> numbered(tl, i) == tl,
        numbered(numbered(tl, i), i) == numbered(tl, i),
{
    lemma_max_ref(tl);
}

/// Gives entry `i` a number that sort and group clauses refer to it by.
pub fn assignSortGroupRef(tlist: &mut Vec<TargetEntry>, i: usize) -> (r: u32)
    requires
        i < old(tlist)@.len(),
        max_ref(old(tlist)@) < u32::MAX,
    ensures
        final(tlist)@ == numbered(old(tlist)@, i as int),
        r == final(tlist)@[i as int].ressortgroupref,
{
    if tlist[i].ressortgroupref != 0 {
        return tlist[i].ressortgroupref;
    }
    let mut m: u32 = 0;
    let mut k: usize = 0;
    while k < tlist.len()
        invariant
            k <= tlist@.len(),
            *tlist == *old(tlist),
            forall|j: int| 0 <= j < k ==> (#[trigger] tlist@[j]).ressortgroupref <= m,
            m == 0 || exists|j: int| 0 <= j < k && (#[trigger] tlist@[j]).ressortgroupref == m,
        decreases tlist@.len() - k,
    {
        if tlist[k].ressortgroupref > m {
            m = tlist[k].ressortgroupref;
            assert(tlist@[k as int].ressortgroupref == m);
        }
        k = k + 1;
    }
    proof {
        lemma_max_ref_is(tlist@, m);
    }
    tlist[i].ressortgroupref = m + 1;
    m + 1
}

/// Whether one item of a sort list is about this entry, sorted this way or
/// the opposite way (any way where no operator is given).
pub open spec fn item_is_about(
    s: SortGroupClause,
    tle_ref: u32,
    sortop: u32,
    cat: &Catalog,
) -> bool {
    s.tleSortGroupRef == tle_ref && (sortop == 0 || sortop == s.sortop || sortop
        == parse_nodes::commutator(cat.commutators@, s.sortop))
}

/// Whether a sort list has an item about this entry.
pub open spec fn in_sort_list(
    tle_ref: u32,
    sortop: u32,
    sl: Seq<SortGroupClause>,
    cat: &Catalog,
) -> bool {
    tle_ref != 0 && exists|k: int|
        0 <= k < sl.len() && item_is_about(#[trigger] sl[k], tle_ref, sortop, cat)
}

/// Whether a sort list has an item about the entry with this number.
pub fn targetIsInSortList(
    tle_ref: u32,
    sortop: u32,
    sort_list: &Vec<SortGroupClause>,
    cat: &Catalog,
) -> (r: bool)
    ensures
        r == in_sort_list(tle_ref, sortop, sort_list@, cat),
{
    if tle_ref == 0 {
        return false;
    }
    let mut k: usize = 0;
    while k < sort_list.len()
        invariant
            k <= sort_list@.len(),
            tle_ref != 0,
            forall|j: int|
                0 <= j < k ==> !item_is_about(#[trigger] sort_list@[j], tle_ref, sortop, cat),
        decreases sort_list@.len() - k,
    {
        let s: SortGroupClause = sort_list[k];
        if s.tleSortGroupRef == tle_ref && (sortop == 0 || sortop == s.sortop || sortop
            == cat.get_commutator(s.sortop)) {
            assert(item_is_about(sort_list@[k as int], tle_ref, sortop, cat));
            return true;
        }
        k = k + 1;
    }
    false
}

/// A target list, the list that is built up beside it, and the error that
/// stopped the work.
pub ghost struct Built {
    pub tl: Seq<TargetEntry>,
    pub sl: Seq<SortGroupClause>,
    pub err: Option<ParseError>,
}

/// What came of a call: the two lists, and the error.
pub open spec fn is_built(
    tl: Seq<TargetEntry>,
    sl: Seq<SortGroupClause>,
    err: Option<ParseError>,
    b: Built,
) -> bool {
    tl == b.tl && sl == b.sl && err == b.err
}

/// The error of a result.
pub open spec fn err_of<T>(r: Result<T, ParseError>) -> Option<ParseError> {
    match r {
        Ok(_) => None,
        Err(e) => Some(e),
    }
}

/// The target list with a literal of unknown type in entry `i` taken as text;
/// nothing where that cannot be done.
pub open spec fn settled(tl: Seq<TargetEntry>, i: int) -> Option<Seq<TargetEntry>> {
    if tl[i].expr.rtype != UNKNOWNOID {
        Some(tl)
    } else {
        match tl[i].expr.text_form {
            Ok(t) => Some(tl.update(i, TargetEntry { expr: *t, ..tl[i] })),
            Err(_) => None,
        }
    }
}

/// The error of taking the literal in entry `i` as text.
pub open spec fn unsettled(tl: Seq<TargetEntry>, i: int) -> ParseError {
    ParseError::Outside(tl[i].expr.text_form->Err_0)
}

/// The type that entry `i` is sorted or grouped as.
pub open spec fn settled_type(tl: Seq<TargetEntry>, i: int) -> u32 {
    if tl[i].expr.rtype == UNKNOWNOID {
        TEXTOID
    } else {
        tl[i].expr.rtype
    }
}

/// Takes a literal of unknown type in entry `i` as text; gives the type that
/// the entry is sorted or grouped as.
pub fn settle_type(tlist: &mut Vec<TargetEntry>, i: usize) -> (r: Result<u32, ParseError>)
    requires
        i < old(tlist)@.len(),
    ensures
        match settled(old(tlist)@, i as int) {
            Some(tl) => final(tlist)@ == tl && r == Ok::<u32, ParseError>(
                settled_type(old(tlist)@, i as int),
            ),
            None => final(tlist)@ == old(tlist)@ && r == Err::<u32, ParseError>(
                unsettled(old(tlist)@, i as int),
            ),
        },
{
    if tlist[i].expr.rtype != UNKNOWNOID {
        return Ok(tlist[i].expr.rtype);
    }
    let text: Expr = match &tlist[i].expr.text_form {
        Ok(t) => (&**t).dup(),
        Err(e) => {
            return Err(ParseError::Outside(*e));
        },
    };
    tlist[i].expr = text;
    Ok(TEXTOID)
}

/// Where an ORDER BY item stands.
pub open spec fn sortby_location(sb: SortBy) -> i32 {
    if sb.location < 0 {
        sb.node.location
    } else {
        sb.location
    }
}

/// The operators that an ORDER BY item asks for on a type, and whether they
/// order downwards.
pub open spec fn sort_operators(sb: SortBy, typ: u32, cat: &Catalog) -> Result<
    (SortOps, bool),
    ParseError,
> {
    let missing = ParseError::NoSortOperator { typ, location: sortby_location(sb) };
    let row = parse_nodes::type_row(cat.types@, typ);
    match sb.dir {
        SortByDir::Default | SortByDir::Asc => match row {
            Some(t) if t.ascending is Some => Ok((t.ascending->Some_0, false)),
            _ => Err(missing),
        },
        SortByDir::Desc => match row {
            Some(t) if t.descending is Some => Ok((t.descending->Some_0, true)),
            _ => Err(missing),
        },
        SortByDir::Using => match sb.using.opid {
            Err(e) => Err(ParseError::Outside(e)),
            Ok(sortop) => if sb.using.eqop == 0 {
                Err(ParseError::NotAnOrderingOperator)
            } else {
                Ok(
                    (
                        SortOps { sortop, eqop: sb.using.eqop, hashable: sb.using.hashable },
                        sb.using.reverse,
                    ),
                )
            },
        },
    }
}

/// Whether an ORDER BY item puts nulls first.
pub open spec fn nulls_first(sb: SortBy, reverse: bool) -> bool {
    match sb.nulls {
        SortByNulls::Default => reverse,
        SortByNulls::First => true,
        SortByNulls::Last => false,
    }
}

/// Adding an ORDER BY item about entry `i`.
pub open spec fn sort_added(
    tl: Seq<TargetEntry>,
    i: int,
    sl: Seq<SortGroupClause>,
    sb: SortBy,
    cat: &Catalog,
) -> Built {
    match settled(tl, i) {
        None => Built {
            tl,
            sl,
            err: Some(unsettled(tl, i)),
        },
        Some(t) => match sort_operators(sb, settled_type(tl, i), cat) {
            Err(e) => Built { tl: t, sl, err: Some(e) },
            Ok((ops, reverse)) => if in_sort_list(t[i].ressortgroupref, ops.sortop, sl, cat) {
                Built { tl: t, sl, err: None }
            } else {
                Built {
                    tl: numbered(t, i),
                    sl: sl.push(
                        SortGroupClause {
                            tleSortGroupRef: numbered(t, i)[i].ressortgroupref,
                            eqop: ops.eqop,
                            sortop: ops.sortop,
                            reverse_sort: reverse,
                            nulls_first: nulls_first(sb, reverse),
                            hashable: ops.hashable,
                        },
                    ),
                    err: None,
                }
            },
        },
    }
}

fn operators_for(sb: &SortBy, typ: u32, cat: &Catalog) -> (r: Result<(SortOps, bool), ParseError>)
    ensures
        r == sort_operators(*sb, typ, cat),
{
    let location: i32 = if sb.location < 0 {
        sb.node.location
    } else {
        sb.location
    };
    match sb.dir {
        SortByDir::Default | SortByDir::Asc => {
            if let Some(t) = cat.type_ops(typ) {
                if let Some(ops) = t.ascending {
                    return Ok((ops, false));
                }
            }
            Err(ParseError::NoSortOperator { typ, location })
        },
        SortByDir::Desc => {
            if let Some(t) = cat.type_ops(typ) {
                if let Some(ops) = t.descending {
                    return Ok((ops, true));
                }
            }
            Err(ParseError::NoSortOperator { typ, location })
        },
        SortByDir::Using => match sb.using.opid {
            Err(e) => Err(ParseError::Outside(e)),
            Ok(sortop) => {
                if sb.using.eqop == 0 {
                    return Err(ParseError::NotAnOrderingOperator);
                }
                Ok(
                    (
                        SortOps { sortop, eqop: sb.using.eqop, hashable: sb.using.hashable },
                        sb.using.reverse,
                    ),
                )
            },
        },
    }
}

/// Taking a literal as text changes no number.
pub proof fn lemma_settled(tl: Seq<TargetEntry>, i: int)
    requires
        0 <= i < tl.len(),
    ensures
        settled(tl, i) matches Some(t) ==> t.len() == tl.len() && max_ref(t) == max_ref(tl),
{
    lemma_max_ref(tl);
    match settled(tl, i) {
        Some(t) => {
            assert forall|j: int| 0 <= j < t.len() implies (#[trigger] t[j]).ressortgroupref
                == tl[j].ressortgroupref by {}
            lemma_max_ref(t);
            if max_ref(tl) != 0 {
                let j = choose|j: int|
                    0 <= j < tl.len() && (#[trigger] tl[j]).ressortgroupref == max_ref(tl);
                assert(t[j].ressortgroupref == max_ref(tl));
            }
            lemma_max_ref_is(t, max_ref(tl));
        },
        None => {},
    }
}

/// Adds an ORDER BY item about entry `i` to a sort list, unless the list has
/// an item about it that sorts the same way or the opposite way.
pub fn addTargetToSortList(
    tlist: &mut Vec<TargetEntry>,
    i: usize,
    sortlist: &mut Vec<SortGroupClause>,
    sortby: &SortBy,
    cat: &Catalog,
) -> (r: Result<(), ParseError>)
    requires
        i < old(tlist)@.len(),
        max_ref(old(tlist)@) < u32::MAX,
    ensures
        is_built(
            final(tlist)@,
            final(sortlist)@,
            err_of(r),
            sort_added(old(tlist)@, i as int, old(sortlist)@, *sortby, cat),
        ),
        final(tlist)@.len() == old(tlist)@.len(),
        max_ref(final(tlist)@) <= max_ref(old(tlist)@) + 1,
{
    proof {
        lemma_settled(tlist@, i as int);
    }
    let typ: u32 = match settle_type(tlist, i) {
        Ok(t) => t,
        Err(e) => {
            return Err(e);
        },
    };
    let (ops, reverse) = match operators_for(sortby, typ, cat) {
        Ok(x) => x,
        Err(e) => {
            return Err(e);
        },
    };
    if !targetIsInSortList(tlist[i].ressortgroupref, ops.sortop, sortlist, cat) {
        proof {
            lemma_numbered(tlist@, i as int);
        }
        let tleSortGroupRef: u32 = assignSortGroupRef(tlist, i);
        let nulls_first: bool = match sortby.nulls {
            SortByNulls::Default => reverse,
            SortByNulls::First => true,
            SortByNulls::Last => false,
        };
        sortlist.push(
            SortGroupClause {
                tleSortGroupRef,
                eqop: ops.eqop,
                sortop: ops.sortop,
                reverse_sort: reverse,
                nulls_first,
                hashable: ops.hashable,
            },
        );
    }
    Ok(())
}

/// One item of ORDER BY.
pub open spec fn sort_step(
    b: Built,
    sb: SortBy,
    kind: ParseExprKind,
    use_sql99: bool,
    flags: ParseFlags,
    cat: &Catalog,
) -> Built {
    let f = found(sb.node, b.tl, kind, use_sql99, flags);
    match f.res {
        Err(e) => Built { tl: f.tl, sl: b.sl, err: Some(e) },
        Ok(i) => sort_added(f.tl, i, b.sl, sb, cat),
    }
}

/// The first `n` items of ORDER BY; the first error stops the work.
pub open spec fn sorted(
    tl: Seq<TargetEntry>,
    orderby: Seq<SortBy>,
    n: nat,
    kind: ParseExprKind,
    use_sql99: bool,
    flags: ParseFlags,
    cat: &Catalog,
) -> Built
    decreases n,
{
    if n == 0 {
        Built { tl, sl: Seq::empty(), err: None }
    } else {
        let b = sorted(tl, orderby, (n - 1) as nat, kind, use_sql99, flags, cat);
        if b.err is Some {
            b
        } else {
            sort_step(b, orderby[n - 1], kind, use_sql99, flags, cat)
        }
    }
}

proof fn lemma_sorted_stops(
    tl: Seq<TargetEntry>,
    orderby: Seq<SortBy>,
    m: nat,
    n: nat,
    kind: ParseExprKind,
    use_sql99: bool,
    flags: ParseFlags,
    cat: &Catalog,
)
    requires
        m <= n,
        sorted(tl, orderby, m, kind, use_sql99, flags, cat).err is Some,
    ensures
        sorted(tl, orderby, n, kind, use_sql99, flags, cat) == sorted(
            tl,
            orderby,
            m,
            kind,
            use_sql99,
            flags,
            cat,
        ),
    decreases n,
{
    if m < n {
        lemma_sorted_stops(tl, orderby, m, (n - 1) as nat, kind, use_sql99, flags, cat);
    }
}

/// Looking an entry up gives no number.
pub proof fn lemma_found(
    raw: RawExpr,
    tl: Seq<TargetEntry>,
    kind: ParseExprKind,
    use_sql99: bool,
    flags: ParseFlags,
)
    ensures
        max_ref(found(raw, tl, kind, use_sql99, flags).tl) == max_ref(tl),
        tl.len() <= found(raw, tl, kind, use_sql99, flags).tl.len() <= tl.len() + 1,
{
    let t = found(raw, tl, kind, use_sql99, flags).tl;
    if t != tl {
        assert(t.drop_last() =~= tl);
    }
}

/// Transforms ORDER BY into a sort list. Items that are not in the target list
/// are added to it.
pub fn transformSortClause(
    orderby: &Vec<SortBy>,
    targetlist: &mut Vec<TargetEntry>,
    kind: ParseExprKind,
    use_sql99: bool,
    flags: ParseFlags,
    cat: &Catalog,
) -> (r: Result<Vec<SortGroupClause>, ParseError>)
    requires
        max_ref(old(targetlist)@) + orderby@.len() <= u32::MAX,
    ensures
        ({
            let b = sorted(
                old(targetlist)@,
                orderby@,
                orderby@.len(),
                kind,
                use_sql99,
                flags,
                cat,
            );
            final(targetlist)@ == b.tl && match r {
                Ok(list) => b.err is None && list@ == b.sl,
                Err(e) => b.err == Some(e),
            }
        }),
        max_ref(final(targetlist)@) <= max_ref(old(targetlist)@) + orderby@.len(),
{
    let ghost tl0 = targetlist@;
    let mut sortlist: Vec<SortGroupClause> = Vec::new();
    let mut i: usize = 0;
    while i < orderby.len()
        invariant
            i <= orderby@.len(),
            tl0 == old(targetlist)@,
            max_ref(tl0) + orderby@.len() <= u32::MAX,
            max_ref(targetlist@) <= max_ref(tl0) + i,
            is_built(
                targetlist@,
                sortlist@,
                None,
                sorted(tl0, orderby@, i as nat, kind, use_sql99, flags, cat),
            ),
        decreases orderby@.len() - i,
    {
        proof {
            lemma_found(orderby@[i as int].node, targetlist@, kind, use_sql99, flags);
        }
        match find_target(&orderby[i].node, targetlist, kind, use_sql99, flags) {
            Err(e) => {
                proof {
                    lemma_sorted_stops(
                        tl0,
                        orderby@,
                        (i + 1) as nat,
                        orderby@.len(),
                        kind,
                        use_sql99,
                        flags,
                        cat,
                    );
                }
                return Err(e);
            },
            Ok(t) => {
                match addTargetToSortList(targetlist, t, &mut sortlist, &orderby[i], cat) {
                    Err(e) => {
                        proof {
                            lemma_sorted_stops(
                                tl0,
                                orderby@,
                                (i + 1) as nat,
                                orderby@.len(),
                                kind,
                                use_sql99,
                                flags,
                                cat,
                            );
                        }
                        return Err(e);
                    },
                    Ok(_) => {},
                }
            },
        }
        i = i + 1;
    }
    Ok(sortlist)
}

/// Whether some entry has this number.
pub open spec fn has_ref(tl: Seq<TargetEntry>, r: u32) -> bool {
    exists|j: int| 0 <= j < tl.len() && (#[trigger] tl[j]).ressortgroupref == r
}

/// The first entry with a number is found exactly where some entry has it.
pub proof fn lemma_referred(tl: Seq<TargetEntry>, r: u32, i: int)
    requires
        0 <= i <= tl.len(),
        forall|j: int| 0 <= j < i ==> (#[trigger] tl[j]).ressortgroupref != r,
    ensures
        has_ref(tl, r) <==> referred_from(tl, r, i) < tl.len(),
        i <= referred_from(tl, r, i) <= tl.len(),
        referred_from(tl, r, i) < tl.len() ==> tl[referred_from(tl, r, i)].ressortgroupref == r,
    decreases tl.len() - i,
{
    if i < tl.len() && tl[i].ressortgroupref != r {
        lemma_referred(tl, r, i + 1);
    }
}

/// Whether `b` has the entries of `a`, each with the number it had if it had
/// one, and perhaps more entries.
pub open spec fn refs_kept(a: Seq<TargetEntry>, b: Seq<TargetEntry>) -> bool {
    a.len() <= b.len() && forall|j: int|
        0 <= j < a.len() && a[j].ressortgroupref != 0 ==> (#[trigger] b[j]).ressortgroupref
            == a[j].ressortgroupref
}

/// Whether every item of a list is about an entry of the target list.
pub open spec fn listed(tl: Seq<TargetEntry>, sl: Seq<SortGroupClause>) -> bool {
    forall|k: int|
        0 <= k < sl.len() ==> (#[trigger] sl[k]).tleSortGroupRef != 0 && has_ref(
            tl,
            sl[k].tleSortGroupRef,
        )
}

/// Whether no two entries have the same number.
pub open spec fn distinct_refs(tl: Seq<TargetEntry>) -> bool {
    forall|i: int, j: int|
        0 <= i < j < tl.len() && (#[trigger] tl[i]).ressortgroupref != 0 ==> tl[i].ressortgroupref
            != (#[trigger] tl[j]).ressortgroupref
}

/// A list stays about entries of the target list while these keep their
/// numbers.
pub proof fn lemma_listed_kept(
    a: Seq<TargetEntry>,
    b: Seq<TargetEntry>,
    sl: Seq<SortGroupClause>,
)
    requires
        refs_kept(a, b),
        listed(a, sl),
    ensures
        listed(b, sl),
{
    assert forall|k: int| 0 <= k < sl.len() implies (#[trigger] sl[k]).tleSortGroupRef != 0
        && has_ref(b, sl[k].tleSortGroupRef) by {
        let r = sl[k].tleSortGroupRef;
        let j = choose|j: int| 0 <= j < a.len() && (#[trigger] a[j]).ressortgroupref == r;
        assert(b[j].ressortgroupref == r);
    }
}

/// Looking an entry up, taking it as text and numbering it keep all numbers.
pub proof fn lemma_steps_keep(
    raw: RawExpr,
    tl: Seq<TargetEntry>,
    i: int,
    kind: ParseExprKind,
    use_sql99: bool,
    flags: ParseFlags,
)
    ensures
        refs_kept(tl, found(raw, tl, kind, use_sql99, flags).tl),
        distinct_refs(tl) ==> distinct_refs(found(raw, tl, kind, use_sql99, flags).tl),
        0 <= i < tl.len() ==> (settled(tl, i) matches Some(t) ==> refs_kept(tl, t) && (
        distinct_refs(tl) ==> distinct_refs(t))),
        0 <= i < tl.len() && max_ref(tl) < u32::MAX ==> refs_kept(tl, numbered(tl, i)) && (
        distinct_refs(tl) ==> distinct_refs(numbered(tl, i))),
{
    lemma_max_ref(tl);
}

proof fn lemma_named_bounds(tl: Seq<TargetEntry>, name: Seq<char>, i: int)
    requires
        0 <= i,
    ensures
        0 <= named_from(tl, name, i),
    decreases tl.len() - i,
{
    if i < tl.len() {
        lemma_named_bounds(tl, name, i + 1);
    }
}

proof fn lemma_matching_bounds(tl: Seq<TargetEntry>, key: u64, i: int)
    requires
        0 <= i,
    ensures
        0 <= matching_from(tl, key, i),
    decreases tl.len() - i,
{
    if i < tl.len() {
        lemma_matching_bounds(tl, key, i + 1);
    }
}

proof fn lemma_position_bounds(tl: Seq<TargetEntry>, pos: int, i: int)
    requires
        0 <= i,
    ensures
        0 <= position_from(tl, pos, i),
    decreases tl.len() - i,
{
    if i < tl.len() && pos >= 1 {
        lemma_position_bounds(tl, pos, i + 1);
        lemma_position_bounds(tl, pos - 1, i + 1);
    }
}

/// An entry that was found is in the list.
pub proof fn lemma_found_bounds(
    raw: RawExpr,
    tl: Seq<TargetEntry>,
    kind: ParseExprKind,
    use_sql99: bool,
    flags: ParseFlags,
)
    ensures
        found(raw, tl, kind, use_sql99, flags).res matches Ok(i) ==> 0 <= i < found(
            raw,
            tl,
            kind,
            use_sql99,
            flags,
        ).tl.len(),
{
    match raw.transformed {
        Ok(expr) => lemma_matching_bounds(tl, expr.key, 0),
        Err(_) => {},
    }
    match raw.kind {
        RawKind::ColumnName(name) => lemma_named_bounds(tl, name@, 0),
        RawKind::IntegerConst(pos) => lemma_position_bounds(tl, pos as int, 0),
        _ => {},
    }
}

/// Adding an ORDER BY item keeps all numbers, and the list stays about entries
/// of the target list.
pub proof fn lemma_sort_added(
    tl: Seq<TargetEntry>,
    i: int,
    sl: Seq<SortGroupClause>,
    sb: SortBy,
    cat: &Catalog,
)
    requires
        0 <= i < tl.len(),
        max_ref(tl) < u32::MAX,
        listed(tl, sl),
    ensures
        ({
            let b = sort_added(tl, i, sl, sb, cat);
            &&& refs_kept(tl, b.tl)
            &&& listed(b.tl, b.sl)
            &&& distinct_refs(tl) ==> distinct_refs(b.tl)
            &&& max_ref(b.tl) <= max_ref(tl) + 1
        }),
{
    let b = sort_added(tl, i, sl, sb, cat);
    lemma_settled(tl, i);
    lemma_steps_keep(sb.node, tl, i, ParseExprKind::OrderBy, true, ParseFlags {
        has_aggs: false,
        has_window_funcs: false,
    });
    match settled(tl, i) {
        None => {},
        Some(t) => {
            lemma_numbered(t, i);
            lemma_steps_keep(sb.node, t, i, ParseExprKind::OrderBy, true, ParseFlags {
                has_aggs: false,
                has_window_funcs: false,
            });
            lemma_listed_kept(tl, t, sl);
            lemma_listed_kept(t, numbered(t, i), sl);
            assert forall|k: int| 0 <= k < b.sl.len() implies (#[trigger] b.sl[k]).tleSortGroupRef
                != 0 && has_ref(b.tl, b.sl[k].tleSortGroupRef) by {
                if k < sl.len() {
                    assert(b.sl[k] == sl[k]);
                } else {
                    assert(b.tl[i].ressortgroupref == b.sl[k].tleSortGroupRef);
                }
            }
        },
    }
}

/// Every item of a transformed ORDER BY is about an entry of the target list,
/// entries keep their numbers, and no two entries come to share one.
pub proof fn law_sort_list_is_about_entries(
    tl: Seq<TargetEntry>,
    orderby: Seq<SortBy>,
    n: nat,
    kind: ParseExprKind,
    use_sql99: bool,
    flags: ParseFlags,
    cat: &Catalog,
)
    requires
        n <= orderby.len(),
        max_ref(tl) + n <= u32::MAX,
    ensures
        ({
            let b = sorted(tl, orderby, n, kind, use_sql99, flags, cat);
            &&& listed(b.tl, b.sl)
            &&& refs_kept(tl, b.tl)
            &&& distinct_refs(tl) ==> distinct_refs(b.tl)
            &&& max_ref(b.tl) <= max_ref(tl) + n
        }),
    decreases n,
{
    if n > 0 {
        law_sort_list_is_about_entries(
            tl,
            orderby,
            (n - 1) as nat,
            kind,
            use_sql99,
            flags,
            cat,
        );
        let p = sorted(tl, orderby, (n - 1) as nat, kind, use_sql99, flags, cat);
        let b = sorted(tl, orderby, n, kind, use_sql99, flags, cat);
        if p.err is None {
            let sb = orderby[n - 1];
            let f = found(sb.node, p.tl, kind, use_sql99, flags);
            lemma_steps_keep(sb.node, p.tl, 0, kind, use_sql99, flags);
            lemma_found(sb.node, p.tl, kind, use_sql99, flags);
            lemma_listed_kept(p.tl, f.tl, p.sl);
            lemma_found_bounds(sb.node, p.tl, kind, use_sql99, flags);
            match f.res {
                Ok(i) => lemma_sort_added(f.tl, i, p.sl, sb, cat),
                Err(_) => {},
            }
        }
    }
}

} // verus!
