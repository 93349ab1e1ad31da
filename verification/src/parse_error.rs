//! What is said to the user when clause analysis refuses a query.
use vstd::prelude::*;
use crate::parse_nodes::{Construct, ParseError};
use crate::text;
use crate::text::{append_i64, append_u64};

verus! {

/// The names that an error's text holds, as far as it holds them.
pub struct ErrorNames {
    /// The column, window, namespace, method, operator or relation.
    pub name: String,
    /// What the clause is called.
    pub kind_name: String,
    /// What the row count is called in the statement.
    pub row_count: String,
    /// The type that is asked for, or that of the column.
    pub main_type: String,
    /// The type that was given, or that of the offset.
    pub other_type: String,
}

/// What a construct is called.
pub open spec fn construct_text(c: Construct, n: ErrorNames) -> Seq<char> {
    match c {
        Construct::Rows => "ROWS"@,
        Construct::Range => "RANGE"@,
        Construct::Groups => "GROUPS"@,
        Construct::RowCount => n.row_count@,
    }
}

/// How an argument count goes on.
pub open spec fn arguments(want: usize) -> Seq<char> {
    if want == 1 {
        " argument, not "@
    } else {
        " arguments, not "@
    }
}

/// The text of an error; errors that were raised by transforming an item have
/// their own.
pub open spec fn error_text(e: ParseError, n: ErrorNames) -> Option<Seq<char>> {
    match e {
        ParseError::NotAnOrderingOperator => Some("operator "@ + n.name@ + " is not a valid ordering operator"@),
        ParseError::AmbiguousColumn { .. } => Some(n.kind_name@ + " \""@ + n.name@ + "\" is ambiguous"@),
        ParseError::NonIntegerConstant { .. } => Some("non-integer constant in "@ + n.kind_name@),
        ParseError::PositionNotInList { position, .. } => Some(n.kind_name@ + " position "@ + text::dec_int(position as int) + " is not in select list"@),
        ParseError::AggregateInGroupBy { .. } => Some("aggregate functions are not allowed in "@ + n.kind_name@),
        ParseError::WindowInGroupBy { .. } => Some("window functions are not allowed in "@ + n.kind_name@),
        ParseError::UnexpectedExprKind => Some("unexpected exprKind in checkTargetlistEntrySQL92"@),
        ParseError::CubeLimit { .. } => Some("CUBE is limited to 12 elements"@),
        ParseError::DistinctOrderByMismatch { is_agg: true, .. } => Some("in an aggregate with DISTINCT, ORDER BY expressions must appear in argument list"@),
        ParseError::DistinctOrderByMismatch { is_agg: false, .. } => Some("for SELECT DISTINCT, ORDER BY expressions must appear in select list"@),
        ParseError::DistinctNoColumns { is_agg: true } => Some("an aggregate with DISTINCT must have at least one argument"@),
        ParseError::DistinctNoColumns { is_agg: false } => Some("SELECT DISTINCT must have at least one column"@),
        ParseError::DistinctOnOrderByMismatch { .. } => Some("SELECT DISTINCT ON expressions must match initial ORDER BY expressions"@),
        ParseError::NoDistinctOrdering { .. } => Some("could not identify an ordering operator for type "@ + n.main_type@),
        ParseError::WindowRedefined { .. } => Some("window \""@ + n.name@ + "\" is already defined"@),
        ParseError::WindowUndefined { .. } => Some("window \""@ + n.name@ + "\" does not exist"@),
        ParseError::OverridePartition { .. } => Some("cannot override PARTITION BY clause of window \""@ + n.name@ + "\""@),
        ParseError::OverrideOrder { .. } => Some("cannot override ORDER BY clause of window \""@ + n.name@ + "\""@),
        ParseError::CopyFramedWindow { hint: true, .. } => Some("cannot copy window \""@ + n.name@ + "\" because it has a frame clause"@),
        ParseError::CopyFramedWindow { hint: false, .. } => Some("cannot copy window \""@ + n.name@ + "\" because it has a frame clause"@),
        ParseError::RangeNeedsOneColumn { .. } => Some("RANGE with offset PRECEDING/FOLLOWING requires exactly one ORDER BY column"@),
        ParseError::GroupsNeedsOrder { .. } => Some("GROUPS mode requires an ORDER BY clause"@),
        ParseError::FrameNotSupported { .. } => Some("RANGE with offset PRECEDING/FOLLOWING is not supported for column type "@ + n.main_type@),
        ParseError::FrameTypeNotSupported { .. } => Some("RANGE with offset PRECEDING/FOLLOWING is not supported for column type "@ + n.main_type@ + " and offset type "@ + n.other_type@),
        ParseError::FrameAmbiguous { .. } => Some("RANGE with offset PRECEDING/FOLLOWING has multiple interpretations for column type "@ + n.main_type@ + " and offset type "@ + n.other_type@),
        ParseError::ContainsVariables { construct, .. } => Some("argument of "@ + construct_text(construct, n) + " must not contain variables"@),
        ParseError::NullRowCountWithTies => Some("row count cannot be null in FETCH FIRST ... WITH TIES clause"@),
        ParseError::UsingDuplicate { .. } => Some("column name \""@ + n.name@ + "\" appears more than once in USING clause"@),
        ParseError::UsingAmbiguous { left: true, .. } => Some("common column name \""@ + n.name@ + "\" appears more than once in left table"@),
        ParseError::UsingAmbiguous { left: false, .. } => Some("common column name \""@ + n.name@ + "\" appears more than once in right table"@),
        ParseError::UsingMissing { left: true, .. } => Some("column \""@ + n.name@ + "\" specified in USING clause does not exist in left table"@),
        ParseError::UsingMissing { left: false, .. } => Some("column \""@ + n.name@ + "\" specified in USING clause does not exist in right table"@),
        ParseError::SampleWrongRelkind { .. } => Some("TABLESAMPLE clause can only be applied to tables and materialized views"@),
        ParseError::SampleNoMethod { .. } => Some("tablesample method "@ + n.name@ + " does not exist"@),
        ParseError::SampleWrongRettype { .. } => Some("function "@ + n.name@ + " must return type tsm_handler"@),
        ParseError::SampleArgCount { want, got, .. } => Some("tablesample method "@ + n.name@ + " requires "@ + text::dec(want as nat) + arguments(want) + text::dec(got as nat)),
        ParseError::SampleNoRepeatable { .. } => Some("tablesample method "@ + n.name@ + " does not support REPEATABLE"@),
        ParseError::NonSelectSubquery => Some("unexpected non-SELECT command in subquery in FROM"@),
        ParseError::SrfNotTopLevel { .. } => Some("set-returning functions must appear at top level of FROM"@),
        ParseError::MultipleColdeflists { .. } => Some("multiple column definition lists are not allowed for the same function"@),
        ParseError::RowsFromColdeflist { .. } => Some("ROWS FROM() with multiple functions cannot have a column definition list"@),
        ParseError::UnnestColdeflist { .. } => Some("UNNEST() with multiple arguments cannot have a column definition list"@),
        ParseError::OrdinalityColdeflist { .. } => Some("WITH ORDINALITY cannot be used with a column definition list"@),
        ParseError::MultipleOrdinality { .. } => Some("only one FOR ORDINALITY column is allowed"@),
        ParseError::ColumnSetof { .. } => Some("column \""@ + n.name@ + "\" cannot be declared SETOF"@),
        ParseError::ColumnNotUnique { .. } => Some("column name \""@ + n.name@ + "\" is not unique"@),
        ParseError::NamespaceNotUnique { .. } => Some("namespace name \""@ + n.name@ + "\" is not unique"@),
        ParseError::MultipleDefaultNamespaces { .. } => Some("only one default namespace is allowed"@),
        ParseError::ArgumentTypeMismatch { .. } => Some("argument of XMLTABLE must be type "@ + n.main_type@ + ", not type "@ + n.other_type@),
        ParseError::ArgumentReturnsSet { .. } => Some("argument of XMLTABLE must not return a set"@),
        ParseError::TargetNotModifiable => Some("relation \""@ + n.name@ + "\" cannot be the target of a modifying statement"@),
        ParseError::IndexOtherTable => Some("index expressions and predicates can refer only to the table being indexed"@),
        ParseError::StatsOtherTable => Some("statistics expressions can refer only to the table being referenced"@),
        ParseError::ConflictNeedsInference { .. } => Some("ON CONFLICT DO UPDATE requires inference specification or constraint name"@),
        ParseError::ConflictOnCatalog { .. } => Some("ON CONFLICT is not supported with system catalog tables"@),
        ParseError::ConflictOrdering { .. } => Some("ASC/DESC is not allowed in ON CONFLICT clause"@),
        ParseError::ConflictNulls { .. } => Some("NULLS FIRST/LAST is not allowed in ON CONFLICT clause"@),
        _ => None,
    }
}

/// The text of an error.
pub fn error_message(e: ParseError, n: &ErrorNames) -> (r: Option<String>)
    ensures
        match r {
            Some(s) => error_text(e, *n) == Some(s@),
            None => error_text(e, *n) is None,
        },
{
    let mut s: String = String::from_str("");
    proof {
        reveal_strlit("");
        assert(s@ =~= Seq::empty());
    }
    match e {
        ParseError::NotAnOrderingOperator => {
            s.append("operator ");
            assert(s@ =~= "operator "@);
            s.append(n.name.as_str());
            s.append(" is not a valid ordering operator");
        },
        ParseError::AmbiguousColumn { .. } => {
            s.append(n.kind_name.as_str());
            assert(s@ =~= n.kind_name@);
            s.append(" \"");
            s.append(n.name.as_str());
            s.append("\" is ambiguous");
        },
        ParseError::NonIntegerConstant { .. } => {
            s.append("non-integer constant in ");
            assert(s@ =~= "non-integer constant in "@);
            s.append(n.kind_name.as_str());
        },
        ParseError::PositionNotInList { position, .. } => {
            s.append(n.kind_name.as_str());
            assert(s@ =~= n.kind_name@);
            s.append(" position ");
            append_i64(&mut s, position as i64);
            s.append(" is not in select list");
        },
        ParseError::AggregateInGroupBy { .. } => {
            s.append("aggregate functions are not allowed in ");
            assert(s@ =~= "aggregate functions are not allowed in "@);
            s.append(n.kind_name.as_str());
        },
        ParseError::WindowInGroupBy { .. } => {
            s.append("window functions are not allowed in ");
            assert(s@ =~= "window functions are not allowed in "@);
            s.append(n.kind_name.as_str());
        },
        ParseError::UnexpectedExprKind => {
            s.append("unexpected exprKind in checkTargetlistEntrySQL92");
            assert(s@ =~= "unexpected exprKind in checkTargetlistEntrySQL92"@);
        },
        ParseError::CubeLimit { .. } => {
            s.append("CUBE is limited to 12 elements");
            assert(s@ =~= "CUBE is limited to 12 elements"@);
        },
        ParseError::DistinctOrderByMismatch { is_agg: true, .. } => {
            s.append("in an aggregate with DISTINCT, ORDER BY expressions must appear in argument list");
            assert(s@ =~= "in an aggregate with DISTINCT, ORDER BY expressions must appear in argument list"@);
        },
        ParseError::DistinctOrderByMismatch { is_agg: false, .. } => {
            s.append("for SELECT DISTINCT, ORDER BY expressions must appear in select list");
            assert(s@ =~= "for SELECT DISTINCT, ORDER BY expressions must appear in select list"@);
        },
        ParseError::DistinctNoColumns { is_agg: true } => {
            s.append("an aggregate with DISTINCT must have at least one argument");
            assert(s@ =~= "an aggregate with DISTINCT must have at least one argument"@);
        },
        ParseError::DistinctNoColumns { is_agg: false } => {
            s.append("SELECT DISTINCT must have at least one column");
            assert(s@ =~= "SELECT DISTINCT must have at least one column"@);
        },
        ParseError::DistinctOnOrderByMismatch { .. } => {
            s.append("SELECT DISTINCT ON expressions must match initial ORDER BY expressions");
            assert(s@ =~= "SELECT DISTINCT ON expressions must match initial ORDER BY expressions"@);
        },
        ParseError::NoDistinctOrdering { .. } => {
            s.append("could not identify an ordering operator for type ");
            assert(s@ =~= "could not identify an ordering operator for type "@);
            s.append(n.main_type.as_str());
        },
        ParseError::WindowRedefined { .. } => {
            s.append("window \"");
            assert(s@ =~= "window \""@);
            s.append(n.name.as_str());
            s.append("\" is already defined");
        },
        ParseError::WindowUndefined { .. } => {
            s.append("window \"");
            assert(s@ =~= "window \""@);
            s.append(n.name.as_str());
            s.append("\" does not exist");
        },
        ParseError::OverridePartition { .. } => {
            s.append("cannot override PARTITION BY clause of window \"");
            assert(s@ =~= "cannot override PARTITION BY clause of window \""@);
            s.append(n.name.as_str());
            s.append("\"");
        },
        ParseError::OverrideOrder { .. } => {
            s.append("cannot override ORDER BY clause of window \"");
            assert(s@ =~= "cannot override ORDER BY clause of window \""@);
            s.append(n.name.as_str());
            s.append("\"");
        },
        ParseError::CopyFramedWindow { hint: true, .. } => {
            s.append("cannot copy window \"");
            assert(s@ =~= "cannot copy window \""@);
            s.append(n.name.as_str());
            s.append("\" because it has a frame clause");
        },
        ParseError::CopyFramedWindow { hint: false, .. } => {
            s.append("cannot copy window \"");
            assert(s@ =~= "cannot copy window \""@);
            s.append(n.name.as_str());
            s.append("\" because it has a frame clause");
        },
        ParseError::RangeNeedsOneColumn { .. } => {
            s.append("RANGE with offset PRECEDING/FOLLOWING requires exactly one ORDER BY column");
            assert(s@ =~= "RANGE with offset PRECEDING/FOLLOWING requires exactly one ORDER BY column"@);
        },
        ParseError::GroupsNeedsOrder { .. } => {
            s.append("GROUPS mode requires an ORDER BY clause");
            assert(s@ =~= "GROUPS mode requires an ORDER BY clause"@);
        },
        ParseError::FrameNotSupported { .. } => {
            s.append("RANGE with offset PRECEDING/FOLLOWING is not supported for column type ");
            assert(s@ =~= "RANGE with offset PRECEDING/FOLLOWING is not supported for column type "@);
            s.append(n.main_type.as_str());
        },
        ParseError::FrameTypeNotSupported { .. } => {
            s.append("RANGE with offset PRECEDING/FOLLOWING is not supported for column type ");
            assert(s@ =~= "RANGE with offset PRECEDING/FOLLOWING is not supported for column type "@);
            s.append(n.main_type.as_str());
            s.append(" and offset type ");
            s.append(n.other_type.as_str());
        },
        ParseError::FrameAmbiguous { .. } => {
            s.append("RANGE with offset PRECEDING/FOLLOWING has multiple interpretations for column type ");
            assert(s@ =~= "RANGE with offset PRECEDING/FOLLOWING has multiple interpretations for column type "@);
            s.append(n.main_type.as_str());
            s.append(" and offset type ");
            s.append(n.other_type.as_str());
        },
        ParseError::ContainsVariables { construct, .. } => {
            s.append("argument of ");
            assert(s@ =~= "argument of "@);
            s.append(
                match construct {
                    Construct::Rows => "ROWS",
                    Construct::Range => "RANGE",
                    Construct::Groups => "GROUPS",
                    Construct::RowCount => n.row_count.as_str(),
                },
            );
            s.append(" must not contain variables");
        },
        ParseError::NullRowCountWithTies => {
            s.append("row count cannot be null in FETCH FIRST ... WITH TIES clause");
            assert(s@ =~= "row count cannot be null in FETCH FIRST ... WITH TIES clause"@);
        },
        ParseError::UsingDuplicate { .. } => {
            s.append("column name \"");
            assert(s@ =~= "column name \""@);
            s.append(n.name.as_str());
            s.append("\" appears more than once in USING clause");
        },
        ParseError::UsingAmbiguous { left: true, .. } => {
            s.append("common column name \"");
            assert(s@ =~= "common column name \""@);
            s.append(n.name.as_str());
            s.append("\" appears more than once in left table");
        },
        ParseError::UsingAmbiguous { left: false, .. } => {
            s.append("common column name \"");
            assert(s@ =~= "common column name \""@);
            s.append(n.name.as_str());
            s.append("\" appears more than once in right table");
        },
        ParseError::UsingMissing { left: true, .. } => {
            s.append("column \"");
            assert(s@ =~= "column \""@);
            s.append(n.name.as_str());
            s.append("\" specified in USING clause does not exist in left table");
        },
        ParseError::UsingMissing { left: false, .. } => {
            s.append("column \"");
            assert(s@ =~= "column \""@);
            s.append(n.name.as_str());
            s.append("\" specified in USING clause does not exist in right table");
        },
        ParseError::SampleWrongRelkind { .. } => {
            s.append("TABLESAMPLE clause can only be applied to tables and materialized views");
            assert(s@ =~= "TABLESAMPLE clause can only be applied to tables and materialized views"@);
        },
        ParseError::SampleNoMethod { .. } => {
            s.append("tablesample method ");
            assert(s@ =~= "tablesample method "@);
            s.append(n.name.as_str());
            s.append(" does not exist");
        },
        ParseError::SampleWrongRettype { .. } => {
            s.append("function ");
            assert(s@ =~= "function "@);
            s.append(n.name.as_str());
            s.append(" must return type tsm_handler");
        },
        ParseError::SampleArgCount { want, got, .. } => {
            s.append("tablesample method ");
            assert(s@ =~= "tablesample method "@);
            s.append(n.name.as_str());
            s.append(" requires ");
            append_u64(&mut s, want as u64);
            if want == 1 {
                s.append(" argument, not ");
            } else {
                s.append(" arguments, not ");
            }
            append_u64(&mut s, got as u64);
        },
        ParseError::SampleNoRepeatable { .. } => {
            s.append("tablesample method ");
            assert(s@ =~= "tablesample method "@);
            s.append(n.name.as_str());
            s.append(" does not support REPEATABLE");
        },
        ParseError::NonSelectSubquery => {
            s.append("unexpected non-SELECT command in subquery in FROM");
            assert(s@ =~= "unexpected non-SELECT command in subquery in FROM"@);
        },
        ParseError::SrfNotTopLevel { .. } => {
            s.append("set-returning functions must appear at top level of FROM");
            assert(s@ =~= "set-returning functions must appear at top level of FROM"@);
        },
        ParseError::MultipleColdeflists { .. } => {
            s.append("multiple column definition lists are not allowed for the same function");
            assert(s@ =~= "multiple column definition lists are not allowed for the same function"@);
        },
        ParseError::RowsFromColdeflist { .. } => {
            s.append("ROWS FROM() with multiple functions cannot have a column definition list");
            assert(s@ =~= "ROWS FROM() with multiple functions cannot have a column definition list"@);
        },
        ParseError::UnnestColdeflist { .. } => {
            s.append("UNNEST() with multiple arguments cannot have a column definition list");
            assert(s@ =~= "UNNEST() with multiple arguments cannot have a column definition list"@);
        },
        ParseError::OrdinalityColdeflist { .. } => {
            s.append("WITH ORDINALITY cannot be used with a column definition list");
            assert(s@ =~= "WITH ORDINALITY cannot be used with a column definition list"@);
        },
        ParseError::MultipleOrdinality { .. } => {
            s.append("only one FOR ORDINALITY column is allowed");
            assert(s@ =~= "only one FOR ORDINALITY column is allowed"@);
        },
        ParseError::ColumnSetof { .. } => {
            s.append("column \"");
            assert(s@ =~= "column \""@);
            s.append(n.name.as_str());
            s.append("\" cannot be declared SETOF");
        },
        ParseError::ColumnNotUnique { .. } => {
            s.append("column name \"");
            assert(s@ =~= "column name \""@);
            s.append(n.name.as_str());
            s.append("\" is not unique");
        },
        ParseError::NamespaceNotUnique { .. } => {
            s.append("namespace name \"");
            assert(s@ =~= "namespace name \""@);
            s.append(n.name.as_str());
            s.append("\" is not unique");
        },
        ParseError::MultipleDefaultNamespaces { .. } => {
            s.append("only one default namespace is allowed");
            assert(s@ =~= "only one default namespace is allowed"@);
        },
        ParseError::ArgumentTypeMismatch { .. } => {
            s.append("argument of XMLTABLE must be type ");
            assert(s@ =~= "argument of XMLTABLE must be type "@);
            s.append(n.main_type.as_str());
            s.append(", not type ");
            s.append(n.other_type.as_str());
        },
        ParseError::ArgumentReturnsSet { .. } => {
            s.append("argument of XMLTABLE must not return a set");
            assert(s@ =~= "argument of XMLTABLE must not return a set"@);
        },
        ParseError::TargetNotModifiable => {
            s.append("relation \"");
            assert(s@ =~= "relation \""@);
            s.append(n.name.as_str());
            s.append("\" cannot be the target of a modifying statement");
        },
        ParseError::IndexOtherTable => {
            s.append("index expressions and predicates can refer only to the table being indexed");
            assert(s@ =~= "index expressions and predicates can refer only to the table being indexed"@);
        },
        ParseError::StatsOtherTable => {
            s.append("statistics expressions can refer only to the table being referenced");
            assert(s@ =~= "statistics expressions can refer only to the table being referenced"@);
        },
        ParseError::ConflictNeedsInference { .. } => {
            s.append("ON CONFLICT DO UPDATE requires inference specification or constraint name");
            assert(s@ =~= "ON CONFLICT DO UPDATE requires inference specification or constraint name"@);
        },
        ParseError::ConflictOnCatalog { .. } => {
            s.append("ON CONFLICT is not supported with system catalog tables");
            assert(s@ =~= "ON CONFLICT is not supported with system catalog tables"@);
        },
        ParseError::ConflictOrdering { .. } => {
            s.append("ASC/DESC is not allowed in ON CONFLICT clause");
            assert(s@ =~= "ASC/DESC is not allowed in ON CONFLICT clause"@);
        },
        ParseError::ConflictNulls { .. } => {
            s.append("NULLS FIRST/LAST is not allowed in ON CONFLICT clause");
            assert(s@ =~= "NULLS FIRST/LAST is not allowed in ON CONFLICT clause"@);
        },
        _ => {
            return None;
        },
    }
    Some(s)
}

/// The five characters of an error's code.
pub open spec fn error_code(e: ParseError) -> Option<Seq<char>> {
    match e {
        ParseError::NotAnOrderingOperator => Some("42809"@),
        ParseError::AmbiguousColumn { .. } => Some("42702"@),
        ParseError::NonIntegerConstant { .. } => Some("42601"@),
        ParseError::PositionNotInList { .. } => Some("42P10"@),
        ParseError::AggregateInGroupBy { .. } => Some("42803"@),
        ParseError::WindowInGroupBy { .. } => Some("42P20"@),
        ParseError::UnexpectedExprKind => Some("XX000"@),
        ParseError::CubeLimit { .. } => Some("54011"@),
        ParseError::DistinctOrderByMismatch { is_agg: true, .. } => Some("42P10"@),
        ParseError::DistinctOrderByMismatch { is_agg: false, .. } => Some("42P10"@),
        ParseError::DistinctNoColumns { is_agg: true } => Some("42601"@),
        ParseError::DistinctNoColumns { is_agg: false } => Some("42601"@),
        ParseError::DistinctOnOrderByMismatch { .. } => Some("42P10"@),
        ParseError::NoDistinctOrdering { .. } => Some("42883"@),
        ParseError::WindowRedefined { .. } => Some("42P20"@),
        ParseError::WindowUndefined { .. } => Some("42704"@),
        ParseError::OverridePartition { .. } => Some("42P20"@),
        ParseError::OverrideOrder { .. } => Some("42P20"@),
        ParseError::CopyFramedWindow { hint: true, .. } => Some("42P20"@),
        ParseError::CopyFramedWindow { hint: false, .. } => Some("42P20"@),
        ParseError::RangeNeedsOneColumn { .. } => Some("42P20"@),
        ParseError::GroupsNeedsOrder { .. } => Some("42P20"@),
        ParseError::FrameNotSupported { .. } => Some("0A000"@),
        ParseError::FrameTypeNotSupported { .. } => Some("0A000"@),
        ParseError::FrameAmbiguous { .. } => Some("0A000"@),
        ParseError::ContainsVariables { .. } => Some("42P10"@),
        ParseError::NullRowCountWithTies => Some("2201W"@),
        ParseError::UsingDuplicate { .. } => Some("42701"@),
        ParseError::UsingAmbiguous { left: true, .. } => Some("42702"@),
        ParseError::UsingAmbiguous { left: false, .. } => Some("42702"@),
        ParseError::UsingMissing { left: true, .. } => Some("42703"@),
        ParseError::UsingMissing { left: false, .. } => Some("42703"@),
        ParseError::SampleWrongRelkind { .. } => Some("0A000"@),
        ParseError::SampleNoMethod { .. } => Some("42704"@),
        ParseError::SampleWrongRettype { .. } => Some("42809"@),
        ParseError::SampleArgCount { .. } => Some("2202H"@),
        ParseError::SampleNoRepeatable { .. } => Some("0A000"@),
        ParseError::NonSelectSubquery => Some("XX000"@),
        ParseError::SrfNotTopLevel { .. } => Some("0A000"@),
        ParseError::MultipleColdeflists { .. } => Some("42601"@),
        ParseError::RowsFromColdeflist { .. } => Some("42601"@),
        ParseError::UnnestColdeflist { .. } => Some("42601"@),
        ParseError::OrdinalityColdeflist { .. } => Some("42601"@),
        ParseError::MultipleOrdinality { .. } => Some("42601"@),
        ParseError::ColumnSetof { .. } => Some("42P16"@),
        ParseError::ColumnNotUnique { .. } => Some("42601"@),
        ParseError::NamespaceNotUnique { .. } => Some("42601"@),
        ParseError::MultipleDefaultNamespaces { .. } => Some("42601"@),
        ParseError::ArgumentTypeMismatch { .. } => Some("42846"@),
        ParseError::ArgumentReturnsSet { .. } => Some("42601"@),
        ParseError::TargetNotModifiable => Some("0A000"@),
        ParseError::IndexOtherTable => Some("42P10"@),
        ParseError::StatsOtherTable => Some("42P10"@),
        ParseError::ConflictNeedsInference { .. } => Some("42601"@),
        ParseError::ConflictOnCatalog { .. } => Some("0A000"@),
        ParseError::ConflictOrdering { .. } => Some("0A000"@),
        ParseError::ConflictNulls { .. } => Some("0A000"@),
        _ => None,
    }
}

/// The five characters of an error's code.
pub fn error_sqlstate(e: ParseError) -> (r: Option<&'static str>)
    ensures
        match r {
            Some(s) => error_code(e) == Some(s@),
            None => error_code(e) is None,
        },
{
    match e {
        ParseError::NotAnOrderingOperator => Some("42809"),
        ParseError::AmbiguousColumn { .. } => Some("42702"),
        ParseError::NonIntegerConstant { .. } => Some("42601"),
        ParseError::PositionNotInList { .. } => Some("42P10"),
        ParseError::AggregateInGroupBy { .. } => Some("42803"),
        ParseError::WindowInGroupBy { .. } => Some("42P20"),
        ParseError::UnexpectedExprKind => Some("XX000"),
        ParseError::CubeLimit { .. } => Some("54011"),
        ParseError::DistinctOrderByMismatch { is_agg: true, .. } => Some("42P10"),
        ParseError::DistinctOrderByMismatch { is_agg: false, .. } => Some("42P10"),
        ParseError::DistinctNoColumns { is_agg: true } => Some("42601"),
        ParseError::DistinctNoColumns { is_agg: false } => Some("42601"),
        ParseError::DistinctOnOrderByMismatch { .. } => Some("42P10"),
        ParseError::NoDistinctOrdering { .. } => Some("42883"),
        ParseError::WindowRedefined { .. } => Some("42P20"),
        ParseError::WindowUndefined { .. } => Some("42704"),
        ParseError::OverridePartition { .. } => Some("42P20"),
        ParseError::OverrideOrder { .. } => Some("42P20"),
        ParseError::CopyFramedWindow { hint: true, .. } => Some("42P20"),
        ParseError::CopyFramedWindow { hint: false, .. } => Some("42P20"),
        ParseError::RangeNeedsOneColumn { .. } => Some("42P20"),
        ParseError::GroupsNeedsOrder { .. } => Some("42P20"),
        ParseError::FrameNotSupported { .. } => Some("0A000"),
        ParseError::FrameTypeNotSupported { .. } => Some("0A000"),
        ParseError::FrameAmbiguous { .. } => Some("0A000"),
        ParseError::ContainsVariables { .. } => Some("42P10"),
        ParseError::NullRowCountWithTies => Some("2201W"),
        ParseError::UsingDuplicate { .. } => Some("42701"),
        ParseError::UsingAmbiguous { left: true, .. } => Some("42702"),
        ParseError::UsingAmbiguous { left: false, .. } => Some("42702"),
        ParseError::UsingMissing { left: true, .. } => Some("42703"),
        ParseError::UsingMissing { left: false, .. } => Some("42703"),
        ParseError::SampleWrongRelkind { .. } => Some("0A000"),
        ParseError::SampleNoMethod { .. } => Some("42704"),
        ParseError::SampleWrongRettype { .. } => Some("42809"),
        ParseError::SampleArgCount { .. } => Some("2202H"),
        ParseError::SampleNoRepeatable { .. } => Some("0A000"),
        ParseError::NonSelectSubquery => Some("XX000"),
        ParseError::SrfNotTopLevel { .. } => Some("0A000"),
        ParseError::MultipleColdeflists { .. } => Some("42601"),
        ParseError::RowsFromColdeflist { .. } => Some("42601"),
        ParseError::UnnestColdeflist { .. } => Some("42601"),
        ParseError::OrdinalityColdeflist { .. } => Some("42601"),
        ParseError::MultipleOrdinality { .. } => Some("42601"),
        ParseError::ColumnSetof { .. } => Some("42P16"),
        ParseError::ColumnNotUnique { .. } => Some("42601"),
        ParseError::NamespaceNotUnique { .. } => Some("42601"),
        ParseError::MultipleDefaultNamespaces { .. } => Some("42601"),
        ParseError::ArgumentTypeMismatch { .. } => Some("42846"),
        ParseError::ArgumentReturnsSet { .. } => Some("42601"),
        ParseError::TargetNotModifiable => Some("0A000"),
        ParseError::IndexOtherTable => Some("42P10"),
        ParseError::StatsOtherTable => Some("42P10"),
        ParseError::ConflictNeedsInference { .. } => Some("42601"),
        ParseError::ConflictOnCatalog { .. } => Some("0A000"),
        ParseError::ConflictOrdering { .. } => Some("0A000"),
        ParseError::ConflictNulls { .. } => Some("0A000"),
        _ => None,
    }
}

/// What the user is advised to do.
pub open spec fn hint_text(e: ParseError) -> Option<Seq<char>> {
    match e {
        ParseError::NotAnOrderingOperator => Some("Ordering operators must be \"<\" or \">\" members of btree operator families."@),
        ParseError::CopyFramedWindow { hint: true, .. } => Some("Omit the parentheses in this OVER clause."@),
        ParseError::FrameTypeNotSupported { .. } => Some("Cast the offset value to an appropriate type."@),
        ParseError::FrameAmbiguous { .. } => Some("Cast the offset value to the exact intended type."@),
        ParseError::RowsFromColdeflist { .. } => Some("Put a separate column definition list for each function inside ROWS FROM()."@),
        ParseError::UnnestColdeflist { .. } => Some("Use separate UNNEST() calls inside ROWS FROM(), and attach a column definition list to each one."@),
        ParseError::OrdinalityColdeflist { .. } => Some("Put the column definition list inside ROWS FROM()."@),
        ParseError::ConflictNeedsInference { .. } => Some("For example, ON CONFLICT (column_name)."@),
        _ => None,
    }
}

/// What the user is advised to do.
pub fn error_hint(e: ParseError) -> (r: Option<&'static str>)
    ensures
        match r {
            Some(s) => hint_text(e) == Some(s@),
            None => hint_text(e) is None,
        },
{
    match e {
        ParseError::NotAnOrderingOperator => Some("Ordering operators must be \"<\" or \">\" members of btree operator families."),
        ParseError::CopyFramedWindow { hint: true, .. } => Some("Omit the parentheses in this OVER clause."),
        ParseError::FrameTypeNotSupported { .. } => Some("Cast the offset value to an appropriate type."),
        ParseError::FrameAmbiguous { .. } => Some("Cast the offset value to the exact intended type."),
        ParseError::RowsFromColdeflist { .. } => Some("Put a separate column definition list for each function inside ROWS FROM()."),
        ParseError::UnnestColdeflist { .. } => Some("Use separate UNNEST() calls inside ROWS FROM(), and attach a column definition list to each one."),
        ParseError::OrdinalityColdeflist { .. } => Some("Put the column definition list inside ROWS FROM()."),
        ParseError::ConflictNeedsInference { .. } => Some("For example, ON CONFLICT (column_name)."),
        _ => None,
    }
}

/// What is said beside an error's text.
pub open spec fn detail_text(e: ParseError) -> Option<Seq<char>> {
    match e {
        ParseError::NoDistinctOrdering { .. } => Some(
            "Aggregates with DISTINCT must be able to sort their inputs."@,
        ),
        _ => None,
    }
}

/// What is said beside an error's text.
pub fn error_detail(e: ParseError) -> (r: Option<&'static str>)
    ensures
        match r {
            Some(s) => detail_text(e) == Some(s@),
            None => detail_text(e) is None,
        },
{
    match e {
        ParseError::NoDistinctOrdering { .. } => Some(
            "Aggregates with DISTINCT must be able to sort their inputs.",
        ),
        _ => None,
    }
}

/// Where in the query an error is.
pub open spec fn location_of(e: ParseError) -> Option<i32> {
    match e {
        ParseError::NoSortOperator { location, .. } => Some(location),
        ParseError::AmbiguousColumn { location, .. } => Some(location),
        ParseError::NonIntegerConstant { location, .. } => Some(location),
        ParseError::PositionNotInList { location, .. } => Some(location),
        ParseError::AggregateInGroupBy { location } => Some(location),
        ParseError::WindowInGroupBy { location } => Some(location),
        ParseError::CubeLimit { location } => Some(location),
        ParseError::DistinctOrderByMismatch { location, .. } => Some(location),
        ParseError::DistinctOnOrderByMismatch { location } => Some(location),
        ParseError::NoDistinctOrdering { location, .. } => Some(location),
        ParseError::WindowRedefined { location } => Some(location),
        ParseError::WindowUndefined { location } => Some(location),
        ParseError::OverridePartition { location } => Some(location),
        ParseError::OverrideOrder { location } => Some(location),
        ParseError::CopyFramedWindow { location, .. } => Some(location),
        ParseError::RangeNeedsOneColumn { location } => Some(location),
        ParseError::GroupsNeedsOrder { location } => Some(location),
        ParseError::FrameNotSupported { location, .. } => Some(location),
        ParseError::FrameTypeNotSupported { location, .. } => Some(location),
        ParseError::FrameAmbiguous { location, .. } => Some(location),
        ParseError::ContainsVariables { location, .. } => Some(location),
        ParseError::SampleWrongRelkind { location } => Some(location),
        ParseError::SampleNoMethod { location } => Some(location),
        ParseError::SampleWrongRettype { location } => Some(location),
        ParseError::SampleArgCount { location, .. } => Some(location),
        ParseError::SampleNoRepeatable { location } => Some(location),
        ParseError::SrfNotTopLevel { location } => Some(location),
        ParseError::MultipleColdeflists { location } => Some(location),
        ParseError::RowsFromColdeflist { location } => Some(location),
        ParseError::UnnestColdeflist { location } => Some(location),
        ParseError::OrdinalityColdeflist { location } => Some(location),
        ParseError::MultipleOrdinality { location } => Some(location),
        ParseError::ColumnSetof { location } => Some(location),
        ParseError::ColumnNotUnique { location } => Some(location),
        ParseError::NamespaceNotUnique { location } => Some(location),
        ParseError::MultipleDefaultNamespaces { location } => Some(location),
        ParseError::ArgumentTypeMismatch { location, .. } => Some(location),
        ParseError::ArgumentReturnsSet { location } => Some(location),
        ParseError::ConflictNeedsInference { location } => Some(location),
        ParseError::ConflictOnCatalog { location } => Some(location),
        ParseError::ConflictOrdering { location } => Some(location),
        ParseError::ConflictNulls { location } => Some(location),
        _ => None,
    }
}

/// Where in the query an error is.
pub fn error_location(e: ParseError) -> (r: Option<i32>)
    ensures
        r == location_of(e),
{
    match e {
        ParseError::NoSortOperator { location, .. } => Some(location),
        ParseError::AmbiguousColumn { location, .. } => Some(location),
        ParseError::NonIntegerConstant { location, .. } => Some(location),
        ParseError::PositionNotInList { location, .. } => Some(location),
        ParseError::AggregateInGroupBy { location } => Some(location),
        ParseError::WindowInGroupBy { location } => Some(location),
        ParseError::CubeLimit { location } => Some(location),
        ParseError::DistinctOrderByMismatch { location, .. } => Some(location),
        ParseError::DistinctOnOrderByMismatch { location } => Some(location),
        ParseError::NoDistinctOrdering { location, .. } => Some(location),
        ParseError::WindowRedefined { location } => Some(location),
        ParseError::WindowUndefined { location } => Some(location),
        ParseError::OverridePartition { location } => Some(location),
        ParseError::OverrideOrder { location } => Some(location),
        ParseError::CopyFramedWindow { location, .. } => Some(location),
        ParseError::RangeNeedsOneColumn { location } => Some(location),
        ParseError::GroupsNeedsOrder { location } => Some(location),
        ParseError::FrameNotSupported { location, .. } => Some(location),
        ParseError::FrameTypeNotSupported { location, .. } => Some(location),
        ParseError::FrameAmbiguous { location, .. } => Some(location),
        ParseError::ContainsVariables { location, .. } => Some(location),
        ParseError::SampleWrongRelkind { location } => Some(location),
        ParseError::SampleNoMethod { location } => Some(location),
        ParseError::SampleWrongRettype { location } => Some(location),
        ParseError::SampleArgCount { location, .. } => Some(location),
        ParseError::SampleNoRepeatable { location } => Some(location),
        ParseError::SrfNotTopLevel { location } => Some(location),
        ParseError::MultipleColdeflists { location } => Some(location),
        ParseError::RowsFromColdeflist { location } => Some(location),
        ParseError::UnnestColdeflist { location } => Some(location),
        ParseError::OrdinalityColdeflist { location } => Some(location),
        ParseError::MultipleOrdinality { location } => Some(location),
        ParseError::ColumnSetof { location } => Some(location),
        ParseError::ColumnNotUnique { location } => Some(location),
        ParseError::NamespaceNotUnique { location } => Some(location),
        ParseError::MultipleDefaultNamespaces { location } => Some(location),
        ParseError::ArgumentTypeMismatch { location, .. } => Some(location),
        ParseError::ArgumentReturnsSet { location } => Some(location),
        ParseError::ConflictNeedsInference { location } => Some(location),
        ParseError::ConflictOnCatalog { location } => Some(location),
        ParseError::ConflictOrdering { location } => Some(location),
        ParseError::ConflictNulls { location } => Some(location),
        _ => None,
    }
}

/// Every error has a code exactly where it has a text.
pub proof fn law_errors_have_codes(e: ParseError, n: ErrorNames)
    ensures
        error_code(e) is Some <==> error_text(e, n) is Some,
        hint_text(e) is Some ==> error_text(e, n) is Some,
{
}

} // verus!
