//! The parts of expressions, target lists and sort clauses that clause
//! analysis looks at, as plain values. What transforming an expression or
//! looking up an operator gives is part of those values.
use vstd::prelude::*;

verus! {

pub const InvalidOid: u32 = 0;
pub const BOOLOID: u32 = 16;
pub const INT8OID: u32 = 20;
pub const INT4OID: u32 = 23;
pub const TEXTOID: u32 = 25;
pub const XMLOID: u32 = 142;
pub const FLOAT8OID: u32 = 701;
pub const UNKNOWNOID: u32 = 705;

/// What an expression is, as far as it matters.
#[derive(Clone, Copy, Debug, PartialEq, Eq, Structural)]
pub enum ExprTag {
    Var,
    FuncExpr,
    RelabelType,
    CoerceViaIO,
    ArrayCoerceExpr,
    ConvertRowtypeExpr,
    CoalesceExpr,
    Other,
}

/// A transformed expression.
pub struct Expr {
    pub tag: ExprTag,
    /// Equal expressions, and only those, have the same key.
    pub key: u64,
    pub rtype: u32,
    pub typmod: i32,
    pub collation: u32,
    pub location: i32,
    /// A coercion that was not written out.
    pub implicit: bool,
    /// What a coercion coerces; the first argument of a function.
    pub arg: Option<Box<Expr>>,
    /// The expression coerced to text (or the number of the error).
    pub text_form: Result<Box<Expr>, i32>,
    /// Where it holds an aggregate of this level.
    pub agg_location: Option<i32>,
    /// Where it holds a window function.
    pub window_location: Option<i32>,
    /// Where it holds a variable of this level.
    pub var_location: Option<i32>,
    pub returns_set: bool,
}

impl Expr {
    /// A copy.
    pub fn dup(&self) -> (r: Expr)
        ensures
            r == *self,
        decreases self,
    {
        Expr {
            tag: self.tag,
            key: self.key,
            rtype: self.rtype,
            typmod: self.typmod,
            collation: self.collation,
            location: self.location,
            implicit: self.implicit,
            arg: match &self.arg {
                Some(b) => Some(Box::new((&**b).dup())),
                None => None,
            },
            text_form: match &self.text_form {
                Ok(b) => Ok(Box::new((&**b).dup())),
                Err(e) => Err(*e),
            },
            agg_location: self.agg_location,
            window_location: self.window_location,
            var_location: self.var_location,
            returns_set: self.returns_set,
        }
    }
}

/// Whether the tag is one of the coercions.
pub open spec fn is_coercion(t: ExprTag) -> bool {
    t == ExprTag::FuncExpr || t == ExprTag::RelabelType || t == ExprTag::CoerceViaIO || t
        == ExprTag::ArrayCoerceExpr || t == ExprTag::ConvertRowtypeExpr
}

/// The expression below the coercions that were not written out.
pub open spec fn stripped(e: Expr) -> Expr
    decreases e,
{
    match e.arg {
        Some(a) => if is_coercion(e.tag) && e.implicit {
            stripped(*a)
        } else {
            e
        },
        None => e,
    }
}

/// The expression below the coercions that were not written out.
pub fn strip_implicit_coercions(e: &Expr) -> (r: &Expr)
    ensures
        *r == stripped(*e),
    decreases e,
{
    match &e.arg {
        Some(a) => {
            if (e.tag == ExprTag::FuncExpr || e.tag == ExprTag::RelabelType || e.tag
                == ExprTag::CoerceViaIO || e.tag == ExprTag::ArrayCoerceExpr || e.tag
                == ExprTag::ConvertRowtypeExpr) && e.implicit {
                strip_implicit_coercions(&**a)
            } else {
                e
            }
        },
        None => e,
    }
}

/// Stripping leaves nothing to strip.
pub proof fn law_stripping_is_idempotent(e: Expr)
    ensures
        stripped(stripped(e)) == stripped(e),
    decreases e,
{
    match e.arg {
        Some(a) => {
            if is_coercion(e.tag) && e.implicit {
                law_stripping_is_idempotent(*a);
            }
        },
        None => {},
    }
}

/// One entry of a target list.
pub struct TargetEntry {
    pub expr: Expr,
    pub resno: i16,
    pub resname: Option<String>,
    /// The number that sort and group clauses refer to it by; 0 = none.
    pub ressortgroupref: u32,
    /// Not part of the result.
    pub resjunk: bool,
}

/// One item of a sort, group or distinct clause.
#[derive(Clone, Copy, Debug, PartialEq, Eq, Structural)]
pub struct SortGroupClause {
    pub tleSortGroupRef: u32,
    pub eqop: u32,
    pub sortop: u32,
    pub reverse_sort: bool,
    pub nulls_first: bool,
    pub hashable: bool,
}

/// Where an expression stands.
#[derive(Clone, Copy, Debug, PartialEq, Eq, Structural)]
pub enum ParseExprKind {
    GroupBy,
    OrderBy,
    DistinctOn,
    WindowOrder,
    WindowPartition,
    Limit,
    Offset,
    Where,
}

/// What is known about the query so far.
#[derive(Clone, Copy, Debug, PartialEq, Eq, Structural)]
pub struct ParseFlags {
    pub has_aggs: bool,
    pub has_window_funcs: bool,
}

/// What an item looks like before it is transformed.
pub enum RawKind {
    /// A lone column name.
    ColumnName(String),
    IntegerConst(i32),
    OtherConst,
    Other,
}

/// An item as it was written, with what transforming it gives (or the number
/// of the error that it raises).
pub struct RawExpr {
    pub kind: RawKind,
    pub location: i32,
    /// Whether the name is also that of a column in FROM.
    pub from_column: Result<bool, i32>,
    pub transformed: Result<Expr, i32>,
}

#[derive(Clone, Copy, Debug, PartialEq, Eq, Structural)]
pub enum SortByDir {
    Default,
    Asc,
    Desc,
    Using,
}

#[derive(Clone, Copy, Debug, PartialEq, Eq, Structural)]
pub enum SortByNulls {
    Default,
    First,
    Last,
}

/// The operator of a USING clause and what the catalogs know of it.
#[derive(Clone, Copy, Debug, PartialEq, Eq)]
pub struct UsingOperator {
    /// The operator that the name resolves to (or the number of the error).
    pub opid: Result<u32, i32>,
    /// The equality it orders by, where it is an ordering operator.
    pub eqop: u32,
    /// Whether it orders downwards.
    pub reverse: bool,
    /// Whether the equality can be hashed.
    pub hashable: bool,
}

/// One item of ORDER BY.
pub struct SortBy {
    pub node: RawExpr,
    pub dir: SortByDir,
    pub nulls: SortByNulls,
    pub using: UsingOperator,
    pub location: i32,
}

/// The operators of a type for one purpose.
#[derive(Clone, Copy, Debug, PartialEq, Eq, Structural)]
pub struct SortOps {
    pub sortop: u32,
    pub eqop: u32,
    pub hashable: bool,
}

/// What the catalogs know of sorting and grouping a type; nothing where the
/// type lacks an operator that the purpose needs.
#[derive(Clone, Copy, Debug, PartialEq, Eq, Structural)]
pub struct TypeRow {
    pub typ: u32,
    pub ascending: Option<SortOps>,
    pub descending: Option<SortOps>,
    pub grouping: Option<SortOps>,
}

/// Two operators that are each other's commutator.
#[derive(Clone, Copy, Debug, PartialEq, Eq, Structural)]
pub struct CommutatorRow {
    pub op: u32,
    pub commutator: u32,
}

/// What an ordering operator belongs to.
#[derive(Clone, Copy, Debug, PartialEq, Eq, Structural)]
pub struct OrderingRow {
    pub op: u32,
    pub family: u32,
    pub opcintype: u32,
}

/// A support function of an operator family.
#[derive(Clone, Copy, Debug, PartialEq, Eq, Structural)]
pub struct AmprocRow {
    pub family: u32,
    pub lefttype: u32,
    pub amprocnum: i16,
    pub righttype: u32,
    pub amproc: u32,
}

/// An implicit coercion that exists.
#[derive(Clone, Copy, Debug, PartialEq, Eq, Structural)]
pub struct CoercionRow {
    pub from: u32,
    pub to: u32,
}

/// What the catalogs hold, as far as clause analysis asks.
pub struct Catalog {
    pub types: Vec<TypeRow>,
    pub commutators: Vec<CommutatorRow>,
    pub orderings: Vec<OrderingRow>,
    pub amprocs: Vec<AmprocRow>,
    pub coercions: Vec<CoercionRow>,
}

/// The first row about a type.
pub open spec fn type_row(rows: Seq<TypeRow>, typ: u32) -> Option<TypeRow>
    decreases rows.len(),
{
    if rows.len() == 0 {
        None
    } else if rows[0].typ == typ {
        Some(rows[0])
    } else {
        type_row(rows.skip(1), typ)
    }
}

/// The commutator of an operator, or none (0).
pub open spec fn commutator(rows: Seq<CommutatorRow>, op: u32) -> u32
    decreases rows.len(),
{
    if rows.len() == 0 {
        0
    } else if rows[0].op == op {
        rows[0].commutator
    } else {
        commutator(rows.skip(1), op)
    }
}

/// The first row about an ordering operator.
pub open spec fn ordering_row(rows: Seq<OrderingRow>, op: u32) -> Option<OrderingRow>
    decreases rows.len(),
{
    if rows.len() == 0 {
        None
    } else if rows[0].op == op {
        Some(rows[0])
    } else {
        ordering_row(rows.skip(1), op)
    }
}

impl Catalog {
    /// What is known of sorting and grouping a type.
    pub fn type_ops(&self, typ: u32) -> (r: Option<TypeRow>)
        ensures
            r == type_row(self.types@, typ),
    {
        let mut i: usize = 0;
        assert(self.types@.skip(0) =~= self.types@);
        while i < self.types.len()
            invariant
                i <= self.types@.len(),
                type_row(self.types@, typ) == type_row(self.types@.skip(i as int), typ),
            decreases self.types@.len() - i,
        {
            assert(self.types@.skip(i as int).skip(1) =~= self.types@.skip(i + 1));
            if self.types[i].typ == typ {
                return Some(self.types[i]);
            }
            i = i + 1;
        }
        None
    }

    /// The commutator of an operator, or none (0).
    pub fn get_commutator(&self, op: u32) -> (r: u32)
        ensures
            r == commutator(self.commutators@, op),
    {
        let mut i: usize = 0;
        assert(self.commutators@.skip(0) =~= self.commutators@);
        while i < self.commutators.len()
            invariant
                i <= self.commutators@.len(),
                commutator(self.commutators@, op) == commutator(self.commutators@.skip(i as int), op),
            decreases self.commutators@.len() - i,
        {
            assert(self.commutators@.skip(i as int).skip(1) =~= self.commutators@.skip(i + 1));
            if self.commutators[i].op == op {
                return self.commutators[i].commutator;
            }
            i = i + 1;
        }
        0
    }

    /// What an ordering operator belongs to.
    pub fn ordering_op_properties(&self, op: u32) -> (r: Option<OrderingRow>)
        ensures
            r == ordering_row(self.orderings@, op),
    {
        let mut i: usize = 0;
        assert(self.orderings@.skip(0) =~= self.orderings@);
        while i < self.orderings.len()
            invariant
                i <= self.orderings@.len(),
                ordering_row(self.orderings@, op) == ordering_row(self.orderings@.skip(i as int), op),
            decreases self.orderings@.len() - i,
        {
            assert(self.orderings@.skip(i as int).skip(1) =~= self.orderings@.skip(i + 1));
            if self.orderings[i].op == op {
                return Some(self.orderings[i]);
            }
            i = i + 1;
        }
        None
    }

    /// Whether an implicit coercion exists; a type is coerced to itself.
    pub open spec fn coercible(&self, from: u32, to: u32) -> bool {
        from == to || self.coercions@.contains(CoercionRow { from, to })
    }

    /// Whether an implicit coercion exists.
    pub fn can_coerce_type(&self, from: u32, to: u32) -> (r: bool)
        ensures
            r == self.coercible(from, to),
    {
        if from == to {
            return true;
        }
        let mut i: usize = 0;
        while i < self.coercions.len()
            invariant
                i <= self.coercions@.len(),
                forall|k: int| 0 <= k < i ==> self.coercions@[k] != (CoercionRow { from, to }),
            decreases self.coercions@.len() - i,
        {
            if self.coercions[i].from == from && self.coercions[i].to == to {
                assert(self.coercions@[i as int] == (CoercionRow { from, to }));
                return true;
            }
            i = i + 1;
        }
        assert(!self.coercions@.contains(CoercionRow { from, to }));
        false
    }
}

/// The construct whose argument is refused.
#[derive(Clone, Copy, Debug, PartialEq, Eq, Structural)]
pub enum Construct {
    Rows,
    Range,
    Groups,
    /// LIMIT, OFFSET or FETCH, as the statement has it.
    RowCount,
}

/// Why clause analysis refused a query. Names are not part of it: an error
/// says which item it is about.
#[derive(Clone, Copy, Debug, PartialEq, Eq, Structural)]
pub enum ParseError {
    /// Transforming an item raised this.
    Outside(i32),
    /// Looking up the operators of this type raises an error of its own.
    NoSortOperator { typ: u32, location: i32 },
    NotAnOrderingOperator,
    AmbiguousColumn { kind: ParseExprKind, location: i32 },
    NonIntegerConstant { kind: ParseExprKind, location: i32 },
    PositionNotInList { kind: ParseExprKind, position: i32, location: i32 },
    AggregateInGroupBy { location: i32 },
    WindowInGroupBy { location: i32 },
    UnexpectedExprKind,
    /// A list stands for an item; transforming it raises an error of its own.
    UnexpectedGroupItem,
    CubeLimit { location: i32 },
    DistinctOrderByMismatch { is_agg: bool, location: i32 },
    DistinctNoColumns { is_agg: bool },
    DistinctOnOrderByMismatch { location: i32 },
    NoDistinctOrdering { typ: u32, location: i32 },
    WindowRedefined { location: i32 },
    WindowUndefined { location: i32 },
    OverridePartition { location: i32 },
    OverrideOrder { location: i32 },
    CopyFramedWindow { hint: bool, location: i32 },
    RangeNeedsOneColumn { location: i32 },
    GroupsNeedsOrder { location: i32 },
    FrameNotSupported { coltype: u32, location: i32 },
    FrameTypeNotSupported { coltype: u32, offtype: u32, location: i32 },
    FrameAmbiguous { coltype: u32, offtype: u32, location: i32 },
    ContainsVariables { construct: Construct, location: i32 },
    NullRowCountWithTies,
    UsingDuplicate { column: usize },
    UsingAmbiguous { column: usize, left: bool },
    UsingMissing { column: usize, left: bool },
    SampleWrongRelkind { location: i32 },
    SampleNoMethod { location: i32 },
    SampleWrongRettype { location: i32 },
    SampleArgCount { want: usize, got: usize, location: i32 },
    SampleNoRepeatable { location: i32 },
    NonSelectSubquery,
    SrfNotTopLevel { location: i32 },
    MultipleColdeflists { location: i32 },
    RowsFromColdeflist { location: i32 },
    UnnestColdeflist { location: i32 },
    OrdinalityColdeflist { location: i32 },
    MultipleOrdinality { location: i32 },
    ColumnSetof { location: i32 },
    ColumnNotUnique { location: i32 },
    NamespaceNotUnique { location: i32 },
    MultipleDefaultNamespaces { location: i32 },
    ArgumentTypeMismatch { target: u32, input: u32, location: i32 },
    ArgumentReturnsSet { location: i32 },
    TargetNotModifiable,
    IndexOtherTable,
    StatsOtherTable,
    ConflictNeedsInference { location: i32 },
    ConflictOnCatalog { location: i32 },
    ConflictOrdering { location: i32 },
    ConflictNulls { location: i32 },
}

/// An error with the name that its text holds, where it holds one.
pub struct NamedError {
    pub error: ParseError,
    pub name: Option<String>,
}

} // verus!
