//! XMLTABLE in FROM.
use vstd::prelude::*;
use crate::parse_coerce;
use crate::parse_coerce::{coerce_to_specific_type, Coercible};
use crate::parse_nodes::{Expr, NamedError, ParseError, INT4OID, TEXTOID, XMLOID};
use crate::parse_range::FromFlags;
use crate::parse_window;
use crate::parse_window::copy_name;
use crate::text::str_eq;

verus! {

/// No FOR ORDINALITY column.
pub const NO_ORDINALITY: i32 = -1;

/// No type modifier.
pub const NO_TYPMOD: i32 = -1;

/// The default of a column: what transforming it gives, and what coercing that
/// to the column's type gives where it can be done (errors by their numbers).
pub struct ColumnDefault {
    pub transformed: Result<Expr, i32>,
    pub coerced: Result<Option<Expr>, i32>,
    /// Assigning its collations failed.
    pub collate_error: Option<i32>,
}

/// A column of XMLTABLE as it was written.
pub struct TableFuncCol {
    pub name: String,
    pub for_ordinality: bool,
    pub setof: bool,
    /// Its type and type modifier.
    pub typ: Result<(u32, i32), i32>,
    /// The collation of its type.
    pub collation: Result<u32, i32>,
    /// Its PATH expression.
    pub colexpr: Option<Coercible>,
    pub default: Option<ColumnDefault>,
    pub is_not_null: bool,
    pub location: i32,
}

/// A namespace of XMLTABLE.
pub struct TableFuncNamespace {
    /// None for the default namespace.
    pub name: Option<String>,
    pub uri: Coercible,
    pub location: i32,
}

/// XMLTABLE as it was written.
pub struct RangeTableFunc {
    /// The expression that gives the rows, and the document.
    pub rowexpr: Coercible,
    pub docexpr: Coercible,
    pub columns: Vec<TableFuncCol>,
    pub namespaces: Vec<TableFuncNamespace>,
    pub lateral: bool,
    /// Whether it refers to other items of the query.
    pub has_vars: Result<bool, i32>,
    pub location: i32,
}

/// A column of XMLTABLE.
#[derive(Clone, Copy, Debug, PartialEq, Eq, Structural)]
pub struct TableColumn {
    pub typ: u32,
    pub typmod: i32,
    pub collation: u32,
    pub not_null: bool,
}

/// XMLTABLE, transformed.
pub struct TableFunc {
    /// A text.
    pub rowexpr: Expr,
    /// An XML document.
    pub docexpr: Expr,
    pub colnames: Vec<String>,
    pub columns: Vec<TableColumn>,
    /// The PATH expressions, as text.
    pub colexprs: Vec<Option<Expr>>,
    pub defaults: Vec<Option<Expr>>,
    /// The names of the namespaces; none for the default one.
    pub ns_names: Vec<Option<String>>,
    /// Their URIs, as text.
    pub ns_uris: Vec<Expr>,
    pub location: i32,
    /// Which column is FOR ORDINALITY, from zero.
    pub ordinalitycol: i32,
    pub is_lateral: bool,
}

/// A default as the column's type; it must not return a set.
pub open spec fn default_coerced(d: ColumnDefault, target: u32, typmod: i32) -> Result<
    Expr,
    ParseError,
> {
    match d.transformed {
        Err(e) => Err(ParseError::Outside(e)),
        Ok(node) => {
            let r = if node.rtype != target || typmod != NO_TYPMOD {
                match d.coerced {
                    Err(e) => Err::<Expr, ParseError>(ParseError::Outside(e)),
                    Ok(None) => Err(
                        ParseError::ArgumentTypeMismatch {
                            target,
                            input: node.rtype,
                            location: node.location,
                        },
                    ),
                    Ok(Some(n)) => Ok(n),
                }
            } else {
                Ok(node)
            };
            match r {
                Err(e) => Err(e),
                Ok(n) => if n.returns_set {
                    Err(ParseError::ArgumentReturnsSet { location: node.location })
                } else {
                    Ok(n)
                },
            }
        },
    }
}

/// Coerces a default to the column's type.
pub fn coerce_to_specific_type_typmod(d: &ColumnDefault, target_type: u32, target_typmod: i32) -> (r:
    Result<Expr, ParseError>)
    ensures
        r == default_coerced(*d, target_type, target_typmod),
{
    let node: &Expr = match &d.transformed {
        Err(e) => {
            return Err(ParseError::Outside(*e));
        },
        Ok(n) => n,
    };
    let n: &Expr = if node.rtype != target_type || target_typmod != NO_TYPMOD {
        match &d.coerced {
            Err(e) => {
                return Err(ParseError::Outside(*e));
            },
            Ok(None) => {
                return Err(
                    ParseError::ArgumentTypeMismatch {
                        target: target_type,
                        input: node.rtype,
                        location: node.location,
                    },
                );
            },
            Ok(Some(n)) => n,
        }
    } else {
        node
    };
    if n.returns_set {
        return Err(ParseError::ArgumentReturnsSet { location: node.location });
    }
    Ok(n.dup())
}

/// The columns so far, and the error that stopped the work.
pub ghost struct ColumnsBuilt {
    pub columns: Seq<TableColumn>,
    pub colexprs: Seq<Option<Expr>>,
    pub defaults: Seq<Option<Expr>>,
    pub ordinalitycol: int,
    pub err: Option<ParseError>,
}

/// The type of a column: a FOR ORDINALITY column is an integer, and there is
/// one at most; a column cannot be SETOF.
pub open spec fn column_type(c: TableFuncCol, ordinalitycol: int) -> Result<
    (u32, i32),
    ParseError,
> {
    if c.for_ordinality {
        if ordinalitycol != -1 {
            Err(ParseError::MultipleOrdinality { location: c.location })
        } else {
            Ok((INT4OID, NO_TYPMOD))
        }
    } else if c.setof {
        Err(ParseError::ColumnSetof { location: c.location })
    } else {
        match c.typ {
            Err(e) => Err(ParseError::Outside(e)),
            Ok(t) => Ok(t),
        }
    }
}

/// The default of a column, if it has one.
pub open spec fn column_default(c: TableFuncCol, typ: u32, typmod: i32) -> Result<
    Option<Expr>,
    ParseError,
> {
    match c.default {
        None => Ok(None),
        Some(d) => match default_coerced(d, typ, typmod) {
            Err(e) => Err(e),
            Ok(n) => match d.collate_error {
                Some(e) => Err(ParseError::Outside(e)),
                None => Ok(Some(n)),
            },
        },
    }
}

/// The PATH expression of a column as text, if it has one.
pub open spec fn column_path(c: TableFuncCol) -> Result<Option<Expr>, ParseError> {
    match c.colexpr {
        None => Ok(None),
        Some(e) => match parse_coerce::as_type(e, TEXTOID) {
            Err(e) => Err(e),
            Ok(n) => Ok(Some(n)),
        },
    }
}

/// A column with what it comes to; names must be unique.
pub open spec fn column_made(
    cols: Seq<TableFuncCol>,
    k: int,
    ordinalitycol: int,
) -> Result<(TableColumn, Option<Expr>, Option<Expr>), ParseError> {
    let c = cols[k];
    match column_type(c, ordinalitycol) {
        Err(e) => Err(e),
        Ok((typ, typmod)) => match c.collation {
            Err(e) => Err(ParseError::Outside(e)),
            Ok(collation) => match column_path(c) {
                Err(e) => Err(e),
                Ok(path) => match column_default(c, typ, typmod) {
                    Err(e) => Err(e),
                    Ok(default) => if named_before(cols, k) {
                        Err(ParseError::ColumnNotUnique { location: c.location })
                    } else {
                        Ok(
                            (
                                TableColumn { typ, typmod, collation, not_null: c.is_not_null },
                                path,
                                default,
                            ),
                        )
                    },
                },
            },
        },
    }
}

/// Whether an earlier column has the name of column `k`.
pub open spec fn named_before(cols: Seq<TableFuncCol>, k: int) -> bool {
    exists|j: int| 0 <= j < k && #[trigger] cols[j].name@ == cols[k].name@
}

/// The first `n` columns.
pub open spec fn table_columns(cols: Seq<TableFuncCol>, n: nat) -> ColumnsBuilt
    decreases n,
{
    if n == 0 {
        ColumnsBuilt {
            columns: Seq::empty(),
            colexprs: Seq::empty(),
            defaults: Seq::empty(),
            ordinalitycol: -1,
            err: None,
        }
    } else {
        let p = table_columns(cols, (n - 1) as nat);
        if p.err is Some {
            p
        } else {
            match column_made(cols, n - 1, p.ordinalitycol) {
                Err(e) => ColumnsBuilt { err: Some(e), ..p },
                Ok((c, x, d)) => ColumnsBuilt {
                    columns: p.columns.push(c),
                    colexprs: p.colexprs.push(x),
                    defaults: p.defaults.push(d),
                    ordinalitycol: if cols[n - 1].for_ordinality {
                        n - 1
                    } else {
                        p.ordinalitycol
                    },
                    err: None,
                },
            }
        }
    }
}

/// What is wrong with namespace `k`: names must be unique, and there is one
/// default namespace at most.
pub open spec fn namespace_refused(ns: Seq<TableFuncNamespace>, k: int) -> Option<ParseError> {
    match parse_coerce::as_type(ns[k].uri, TEXTOID) {
        Err(e) => Some(e),
        Ok(_) => match ns[k].name {
            Some(_) => if exists|j: int| 0 <= j < k && same_namespace(#[trigger] ns[j], ns[k]) {
                Some(ParseError::NamespaceNotUnique { location: ns[k].location })
            } else {
                None
            },
            None => if exists|j: int| 0 <= j < k && same_namespace(#[trigger] ns[j], ns[k]) {
                Some(ParseError::MultipleDefaultNamespaces { location: ns[k].location })
            } else {
                None
            },
        },
    }
}

/// Whether two namespaces have the same name, or are both the default.
pub open spec fn same_namespace(a: TableFuncNamespace, b: TableFuncNamespace) -> bool {
    match (a.name, b.name) {
        (Some(x), Some(y)) => x@ == y@,
        (None, None) => true,
        _ => false,
    }
}

/// The first namespace from `k` on that is refused.
pub open spec fn refused_from(ns: Seq<TableFuncNamespace>, k: int) -> int
    decreases ns.len() - k,
{
    if k < 0 || k >= ns.len() {
        ns.len() as int
    } else if namespace_refused(ns, k) is Some {
        k
    } else {
        refused_from(ns, k + 1)
    }
}

/// The URIs of namespaces as text.
pub open spec fn uris(ns: Seq<TableFuncNamespace>) -> Seq<Expr> {
    Seq::new(ns.len(), |k: int| parse_coerce::as_type(ns[k].uri, TEXTOID)->Ok_0)
}

/// The error that stops XMLTABLE.
pub open spec fn table_func_error(t: RangeTableFunc) -> Option<ParseError> {
    match parse_coerce::as_type(t.rowexpr, TEXTOID) {
        Err(e) => Some(e),
        Ok(_) => match parse_coerce::as_type(t.docexpr, XMLOID) {
            Err(e) => Some(e),
            Ok(_) => {
                let b = table_columns(t.columns@, t.columns@.len());
                let k = refused_from(t.namespaces@, 0);
                if b.err is Some {
                    b.err
                } else if k < t.namespaces@.len() {
                    namespace_refused(t.namespaces@, k)
                } else {
                    match t.has_vars {
                        Err(e) if !t.lateral => Some(ParseError::Outside(e)),
                        _ => None,
                    }
                }
            },
        },
    }
}

/// The column or namespace that an error about XMLTABLE names.
pub open spec fn named_part(t: RangeTableFunc, e: ParseError) -> Option<Seq<char>> {
    match e {
        ParseError::ColumnSetof { .. } | ParseError::ColumnNotUnique { .. } => {
            let k = table_columns(t.columns@, t.columns@.len()).columns.len();
            Some(t.columns@[k as int].name@)
        },
        ParseError::NamespaceNotUnique { .. } => parse_window::chars(
            t.namespaces@[refused_from(t.namespaces@, 0)].name,
        ),
        _ => None,
    }
}

proof fn lemma_columns_stop(cols: Seq<TableFuncCol>, m: nat, n: nat)
    requires
        m <= n,
        table_columns(cols, m).err is Some,
    ensures
        table_columns(cols, n) == table_columns(cols, m),
    decreases n,
{
    if m < n {
        lemma_columns_stop(cols, m, (n - 1) as nat);
    }
}

fn is_named_before(cols: &Vec<TableFuncCol>, k: usize) -> (r: bool)
    requires
        k < cols@.len(),
    ensures
        r == named_before(cols@, k as int),
{
    let mut j: usize = 0;
    while j < k
        invariant
            j <= k < cols@.len(),
            forall|i: int| 0 <= i < j ==> #[trigger] cols@[i].name@ != cols@[k as int].name@,
        decreases k - j,
    {
        if str_eq(cols[j].name.as_str(), cols[k].name.as_str()) {
            assert(cols@[j as int].name@ == cols@[k as int].name@);
            return true;
        }
        j = j + 1;
    }
    false
}

fn make_column(cols: &Vec<TableFuncCol>, k: usize, ordinalitycol: i32) -> (r: Result<
    (TableColumn, Option<Expr>, Option<Expr>),
    ParseError,
>)
    requires
        k < cols@.len(),
    ensures
        r == column_made(cols@, k as int, ordinalitycol as int),
{
    let c: &TableFuncCol = &cols[k];
    let (typ, typmod) = if c.for_ordinality {
        if ordinalitycol != NO_ORDINALITY {
            return Err(ParseError::MultipleOrdinality { location: c.location });
        }
        (INT4OID, NO_TYPMOD)
    } else {
        if c.setof {
            return Err(ParseError::ColumnSetof { location: c.location });
        }
        match c.typ {
            Err(e) => {
                return Err(ParseError::Outside(e));
            },
            Ok(t) => t,
        }
    };
    let collation: u32 = match c.collation {
        Err(e) => {
            return Err(ParseError::Outside(e));
        },
        Ok(x) => x,
    };
    let path: Option<Expr> = match &c.colexpr {
        None => None,
        Some(x) => match coerce_to_specific_type(x, TEXTOID) {
            Err(e) => {
                return Err(e);
            },
            Ok(n) => Some(n),
        },
    };
    let default: Option<Expr> = match &c.default {
        None => None,
        Some(d) => match coerce_to_specific_type_typmod(d, typ, typmod) {
            Err(e) => {
                return Err(e);
            },
            Ok(n) => {
                if let Some(e) = d.collate_error {
                    return Err(ParseError::Outside(e));
                }
                Some(n)
            },
        },
    };
    if is_named_before(cols, k) {
        return Err(ParseError::ColumnNotUnique { location: c.location });
    }
    Ok((TableColumn { typ, typmod, collation, not_null: c.is_not_null }, path, default))
}

fn is_same_namespace(a: &TableFuncNamespace, b: &TableFuncNamespace) -> (r: bool)
    ensures
        r == same_namespace(*a, *b),
{
    match (&a.name, &b.name) {
        (Some(x), Some(y)) => str_eq(x.as_str(), y.as_str()),
        (None, None) => true,
        _ => false,
    }
}

fn check_namespace(ns: &Vec<TableFuncNamespace>, k: usize) -> (r: Result<Expr, ParseError>)
    requires
        k < ns@.len(),
    ensures
        match r {
            Err(e) => namespace_refused(ns@, k as int) == Some(e),
            Ok(n) => namespace_refused(ns@, k as int) is None && parse_coerce::as_type(
                ns@[k as int].uri,
                TEXTOID,
            ) == Ok::<Expr, ParseError>(n),
        },
{
    let uri: Expr = match coerce_to_specific_type(&ns[k].uri, TEXTOID) {
        Err(e) => {
            return Err(e);
        },
        Ok(n) => n,
    };
    let mut j: usize = 0;
    while j < k
        invariant
            j <= k < ns@.len(),
            parse_coerce::as_type(ns@[k as int].uri, TEXTOID) == Ok::<Expr, ParseError>(uri),
            forall|i: int| 0 <= i < j ==> !same_namespace(#[trigger] ns@[i], ns@[k as int]),
        decreases k - j,
    {
        if is_same_namespace(&ns[j], &ns[k]) {
            assert(same_namespace(ns@[j as int], ns@[k as int]));
            return Err(
                if ns[k].name.is_some() {
                    ParseError::NamespaceNotUnique { location: ns[k].location }
                } else {
                    ParseError::MultipleDefaultNamespaces { location: ns[k].location }
                },
            );
        }
        j = j + 1;
    }
    Ok(uri)
}

/// The names of columns.
pub open spec fn col_names(cols: Seq<TableFuncCol>) -> Seq<Seq<char>> {
    cols.map_values(|c: TableFuncCol| c.name@)
}

/// The names of namespaces.
pub open spec fn space_names(ns: Seq<TableFuncNamespace>) -> Seq<Option<Seq<char>>> {
    ns.map_values(|n: TableFuncNamespace| parse_window::chars(n.name))
}

/// Whether `t` is XMLTABLE as written in `rtf`, transformed.
pub open spec fn is_table_func(rtf: RangeTableFunc, t: TableFunc) -> bool {
    let b = table_columns(rtf.columns@, rtf.columns@.len());
    &&& parse_coerce::as_type(rtf.rowexpr, TEXTOID) == Ok::<Expr, ParseError>(t.rowexpr)
    &&& parse_coerce::as_type(rtf.docexpr, XMLOID) == Ok::<Expr, ParseError>(t.docexpr)
    &&& t.colnames@.map_values(|s: String| s@) == col_names(rtf.columns@)
    &&& t.columns@ == b.columns
    &&& t.colexprs@ == b.colexprs
    &&& t.defaults@ == b.defaults
    &&& t.ordinalitycol == b.ordinalitycol
    &&& t.ns_names@.map_values(|s: Option<String>| parse_window::chars(s)) == space_names(
        rtf.namespaces@,
    )
    &&& t.ns_uris@ == uris(rtf.namespaces@)
    &&& t.is_lateral == (rtf.lateral || rtf.has_vars == Ok::<bool, i32>(true))
    &&& t.location == rtf.location
}

fn table_columns_of(rtf: &RangeTableFunc, t: &mut TableFunc) -> (r: Result<(), NamedError>)
    requires
        rtf.columns@.len() <= i32::MAX,
        old(t).colnames@.len() == 0,
        old(t).columns@.len() == 0,
        old(t).colexprs@.len() == 0,
        old(t).defaults@.len() == 0,
        old(t).ordinalitycol == NO_ORDINALITY,
    ensures
        *final(t) == (TableFunc {
            colnames: final(t).colnames,
            columns: final(t).columns,
            colexprs: final(t).colexprs,
            defaults: final(t).defaults,
            ordinalitycol: final(t).ordinalitycol,
            ..*old(t)
        }),
        ({
            let b = table_columns(rtf.columns@, rtf.columns@.len());
            match r {
                Ok(_) => b == (ColumnsBuilt {
                    columns: final(t).columns@,
                    colexprs: final(t).colexprs@,
                    defaults: final(t).defaults@,
                    ordinalitycol: final(t).ordinalitycol as int,
                    err: None,
                }) && final(t).colnames@.map_values(|s: String| s@) == col_names(rtf.columns@),
                Err(e) => b.err == Some(e.error) && !(e.error is NamespaceNotUnique)
                    && b.columns.len() < rtf.columns@.len()
                    && parse_window::chars(e.name) == (match e.error {
                    ParseError::ColumnSetof { .. } | ParseError::ColumnNotUnique { .. } => Some(
                        rtf.columns@[b.columns.len() as int].name@,
                    ),
                    _ => None,
                }),
            }
        }),
{
    let mut k: usize = 0;
    proof {
        assert(t.columns@ =~= Seq::empty());
        assert(t.colexprs@ =~= Seq::empty());
        assert(t.defaults@ =~= Seq::empty());
        assert(t.colnames@.map_values(|s: String| s@) =~= col_names(rtf.columns@.take(0)));
    }
    while k < rtf.columns.len()
        invariant
            k <= rtf.columns@.len(),
            rtf.columns@.len() <= i32::MAX,
            *t == (TableFunc {
                colnames: t.colnames,
                columns: t.columns,
                colexprs: t.colexprs,
                defaults: t.defaults,
                ordinalitycol: t.ordinalitycol,
                ..*old(t)
            }),
            t.columns@.len() == k,
            t.colnames@.map_values(|s: String| s@) == col_names(rtf.columns@.take(k as int)),
            table_columns(rtf.columns@, k as nat) == (ColumnsBuilt {
                columns: t.columns@,
                colexprs: t.colexprs@,
                defaults: t.defaults@,
                ordinalitycol: t.ordinalitycol as int,
                err: None,
            }),
        decreases rtf.columns@.len() - k,
    {
        match make_column(&rtf.columns, k, t.ordinalitycol) {
            Err(error) => {
                proof {
                    lemma_columns_stop(rtf.columns@, (k + 1) as nat, rtf.columns@.len());
                }
                let name: Option<String> = match error {
                    ParseError::ColumnSetof { .. } | ParseError::ColumnNotUnique { .. } => Some(
                        String::from_str(rtf.columns[k].name.as_str()),
                    ),
                    _ => None,
                };
                return Err(NamedError { error, name });
            },
            Ok((c, x, d)) => {
                let ghost before = t.colnames@;
                t.colnames.push(String::from_str(rtf.columns[k].name.as_str()));
                t.columns.push(c);
                t.colexprs.push(x);
                t.defaults.push(d);
                if rtf.columns[k].for_ordinality {
                    t.ordinalitycol = k as i32;
                }
                proof {
                    assert(rtf.columns@.take(k + 1) =~= rtf.columns@.take(k as int).push(
                        rtf.columns@[k as int],
                    ));
                    assert(t.colnames@.map_values(|s: String| s@) =~= before.map_values(
                        |s: String| s@,
                    ).push(rtf.columns@[k as int].name@));
                    assert(t.colnames@.map_values(|s: String| s@) =~= col_names(
                        rtf.columns@.take(k + 1),
                    ));
                }
            },
        }
        k = k + 1;
    }
    assert(rtf.columns@.take(k as int) =~= rtf.columns@);
    Ok(())
}

fn table_spaces_of(rtf: &RangeTableFunc, t: &mut TableFunc) -> (r: Result<(), NamedError>)
    requires
        old(t).ns_names@.len() == 0,
        old(t).ns_uris@.len() == 0,
    ensures
        *final(t) == (TableFunc {
            ns_names: final(t).ns_names,
            ns_uris: final(t).ns_uris,
            ..*old(t)
        }),
        ({
            let k = refused_from(rtf.namespaces@, 0);
            match r {
                Ok(_) => k >= rtf.namespaces@.len() && final(t).ns_names@.map_values(
                    |s: Option<String>| parse_window::chars(s),
                ) == space_names(rtf.namespaces@) && final(t).ns_uris@ == uris(rtf.namespaces@),
                Err(e) => 0 <= k < rtf.namespaces@.len() && namespace_refused(rtf.namespaces@, k)
                    == Some(e.error) && parse_window::chars(e.name) == (match e.error {
                    ParseError::NamespaceNotUnique { .. } => parse_window::chars(
                        rtf.namespaces@[k].name,
                    ),
                    _ => None,
                }),
            }
        }),
{
    let ghost ns = rtf.namespaces@;
    let mut j: usize = 0;
    proof {
        assert(t.ns_names@.map_values(|s: Option<String>| parse_window::chars(s)) =~= space_names(
            ns.take(0),
        ));
        assert(t.ns_uris@ =~= uris(ns.take(0)));
    }
    while j < rtf.namespaces.len()
        invariant
            j <= rtf.namespaces@.len(),
            ns == rtf.namespaces@,
            *t == (TableFunc { ns_names: t.ns_names, ns_uris: t.ns_uris, ..*old(t) }),
            refused_from(ns, 0) == refused_from(ns, j as int),
            t.ns_names@.map_values(|s: Option<String>| parse_window::chars(s)) == space_names(
                ns.take(j as int),
            ),
            t.ns_uris@ == uris(ns.take(j as int)),
        decreases rtf.namespaces@.len() - j,
    {
        match check_namespace(&rtf.namespaces, j) {
            Err(error) => {
                let name: Option<String> = match error {
                    ParseError::NamespaceNotUnique { .. } => copy_name(&rtf.namespaces[j].name),
                    _ => None,
                };
                return Err(NamedError { error, name });
            },
            Ok(uri) => {
                let ghost before = t.ns_names@;
                t.ns_uris.push(uri);
                t.ns_names.push(copy_name(&rtf.namespaces[j].name));
                proof {
                    let f = |s: Option<String>| parse_window::chars(s);
                    assert(ns.take(j + 1) =~= ns.take(j as int).push(ns[j as int]));
                    assert(t.ns_names@.map_values(f) =~= before.map_values(f).push(
                        parse_window::chars(ns[j as int].name),
                    ));
                    assert(t.ns_names@.map_values(f) =~= space_names(ns.take(j + 1)));
                    assert(t.ns_uris@ =~= uris(ns.take(j + 1)));
                }
            },
        }
        j = j + 1;
    }
    assert(ns.take(j as int) =~= ns);
    Ok(())
}

/// Transforms XMLTABLE, whose expressions were transformed while the flags were
/// raised: rows, paths and URIs are taken as text, the document as XML. The
/// flags are lowered in any case.
pub fn transformRangeTableFunc(rtf: &RangeTableFunc, flags: &mut FromFlags) -> (r: Result<
    TableFunc,
    NamedError,
>)
    requires
        rtf.columns@.len() <= i32::MAX,
    ensures
        *final(flags) == (FromFlags { lateral_active: false, ..*old(flags) }),
        match r {
            Ok(t) => table_func_error(*rtf) is None && is_table_func(*rtf, t),
            Err(e) => table_func_error(*rtf) == Some(e.error) && parse_window::chars(e.name)
                == named_part(*rtf, e.error),
        },
{
    flags.lateral_active = false;
    let rowexpr: Expr = match coerce_to_specific_type(&rtf.rowexpr, TEXTOID) {
        Err(error) => {
            return Err(NamedError { error, name: None });
        },
        Ok(n) => n,
    };
    let docexpr: Expr = match coerce_to_specific_type(&rtf.docexpr, XMLOID) {
        Err(error) => {
            return Err(NamedError { error, name: None });
        },
        Ok(n) => n,
    };
    let mut t: TableFunc = TableFunc {
        rowexpr,
        docexpr,
        colnames: Vec::new(),
        columns: Vec::new(),
        colexprs: Vec::new(),
        defaults: Vec::new(),
        ns_names: Vec::new(),
        ns_uris: Vec::new(),
        ordinalitycol: NO_ORDINALITY,
        is_lateral: rtf.lateral,
        location: rtf.location,
    };
    match table_columns_of(rtf, &mut t) {
        Err(e) => {
            return Err(e);
        },
        Ok(_) => {},
    }
    match table_spaces_of(rtf, &mut t) {
        Err(e) => {
            return Err(e);
        },
        Ok(_) => {},
    }
    if !t.is_lateral {
        match rtf.has_vars {
            Err(e) => {
                return Err(NamedError { error: ParseError::Outside(e), name: None });
            },
            Ok(found) => {
                t.is_lateral = found;
            },
        }
    }
    Ok(t)
}

/// XMLTABLE that is accepted has one column per definition, with unique names,
/// and the FOR ORDINALITY column, if any, is the only one.
pub proof fn law_accepted_columns(cols: Seq<TableFuncCol>, n: nat)
    requires
        n <= cols.len(),
        table_columns(cols, n).err is None,
    ensures
        ({
            let b = table_columns(cols, n);
            &&& b.columns.len() == n
            &&& b.colexprs.len() == n
            &&& b.defaults.len() == n
            &&& -1 <= b.ordinalitycol < n
            &&& forall|k: int|
                0 <= k < n ==> (cols[k].for_ordinality <==> #[trigger] is_at(b.ordinalitycol, k))
            &&& forall|j: int, k: int|
                0 <= j < k < n ==> #[trigger] cols[j].name@ != #[trigger] cols[k].name@
        }),
    decreases n,
{
    if n > 0 {
        law_accepted_columns(cols, (n - 1) as nat);
        let p = table_columns(cols, (n - 1) as nat);
        let b = table_columns(cols, n);
        assert(!named_before(cols, n - 1));
        assert forall|k: int| 0 <= k < n implies (cols[k].for_ordinality <==> #[trigger] is_at(
            b.ordinalitycol,
            k,
        )) by {
            if k < n - 1 {
                assert(cols[k].for_ordinality <==> is_at(p.ordinalitycol, k));
            }
        }
    }
}

proof fn lemma_not_refused(ns: Seq<TableFuncNamespace>, k: int, i: int)
    requires
        0 <= k <= i < refused_from(ns, k),
        refused_from(ns, k) <= ns.len(),
    ensures
        namespace_refused(ns, i) is None,
    decreases ns.len() - k,
{
    if k < i {
        lemma_not_refused(ns, k + 1, i);
    }
}

/// The namespaces of XMLTABLE that is accepted are all different, and one of
/// them at most is the default one.
pub proof fn law_accepted_namespaces(t: RangeTableFunc, i: int, j: int)
    requires
        table_func_error(t) is None,
        0 <= i < j < t.namespaces@.len(),
    ensures
        !same_namespace(t.namespaces@[i], t.namespaces@[j]),
{
    let ns = t.namespaces@;
    lemma_refused_from(ns, 0);
    lemma_not_refused(ns, 0, j);
    assert(namespace_refused(ns, j) is None);
}

proof fn lemma_refused_from(ns: Seq<TableFuncNamespace>, k: int)
    requires
        0 <= k <= ns.len(),
    ensures
        k <= refused_from(ns, k) <= ns.len(),
        refused_from(ns, k) < ns.len() ==> namespace_refused(ns, refused_from(ns, k)) is Some,
    decreases ns.len() - k,
{
    if k < ns.len() {
        lemma_refused_from(ns, k + 1);
    }
}

/// Whether a place is a given one.
pub open spec fn is_at(place: int, k: int) -> bool {
    place == k
}

} // verus!
