//! What holds of the errors of clause analysis: their codes, and where they
//! point.
use vstd::prelude::*;
use crate::parse_error;
use crate::parse_nodes::{Construct, ParseError, ParseExprKind};

verus! {

/// Errors of one kind share a code: those about windows, about references to
/// columns, about syntax, about what is not supported, and so on.
pub proof fn law_codes_of_errors(e: ParseError)
    ensures
        e is NotAnOrderingOperator || e is SampleWrongRettype
            ==> parse_error::error_code(e) == Some("42809"@),
        e is AmbiguousColumn || e is UsingAmbiguous
            ==> parse_error::error_code(e) == Some("42702"@),
        e is NonIntegerConstant || e is DistinctNoColumns || e is MultipleColdeflists
            || e is RowsFromColdeflist || e is UnnestColdeflist || e is OrdinalityColdeflist
            || e is MultipleOrdinality || e is ColumnNotUnique || e is NamespaceNotUnique
            || e is MultipleDefaultNamespaces || e is ArgumentReturnsSet
            || e is ConflictNeedsInference ==> parse_error::error_code(e) == Some("42601"@),
        e is PositionNotInList || e is DistinctOrderByMismatch || e is DistinctOnOrderByMismatch
            || e is ContainsVariables || e is IndexOtherTable || e is StatsOtherTable
            ==> parse_error::error_code(e) == Some("42P10"@),
        e is AggregateInGroupBy ==> parse_error::error_code(e) == Some("42803"@),
        e is WindowInGroupBy || e is WindowRedefined || e is OverridePartition
            || e is OverrideOrder || e is CopyFramedWindow || e is RangeNeedsOneColumn
            || e is GroupsNeedsOrder ==> parse_error::error_code(e) == Some("42P20"@),
        e is UnexpectedExprKind || e is NonSelectSubquery
            ==> parse_error::error_code(e) == Some("XX000"@),
        e is CubeLimit ==> parse_error::error_code(e) == Some("54011"@),
        e is NoDistinctOrdering ==> parse_error::error_code(e) == Some("42883"@),
        e is WindowUndefined || e is SampleNoMethod
            ==> parse_error::error_code(e) == Some("42704"@),
        e is FrameNotSupported || e is FrameTypeNotSupported || e is FrameAmbiguous
            || e is SampleWrongRelkind || e is SampleNoRepeatable || e is SrfNotTopLevel
            || e is TargetNotModifiable || e is ConflictOnCatalog || e is ConflictOrdering
            || e is ConflictNulls ==> parse_error::error_code(e) == Some("0A000"@),
        e is NullRowCountWithTies ==> parse_error::error_code(e) == Some("2201W"@),
        e is UsingDuplicate ==> parse_error::error_code(e) == Some("42701"@),
        e is UsingMissing ==> parse_error::error_code(e) == Some("42703"@),
        e is SampleArgCount ==> parse_error::error_code(e) == Some("2202H"@),
        e is ColumnSetof ==> parse_error::error_code(e) == Some("42P16"@),
        e is ArgumentTypeMismatch ==> parse_error::error_code(e) == Some("42846"@),
{
}

/// An error points to where it was found; these have no place.
pub proof fn law_places_of_errors(
    e: ParseError,
    location: i32,
    typ: u32,
    kind: ParseExprKind,
    position: i32,
    is_agg: bool,
    hint: bool,
    coltype: u32,
    offtype: u32,
    construct: Construct,
    want: usize,
    got: usize,
    target: u32,
    input: u32,
)
    ensures
        parse_error::location_of(e) is None <==> e is Outside || e is NotAnOrderingOperator
            || e is UnexpectedExprKind || e is UnexpectedGroupItem || e is DistinctNoColumns
            || e is NullRowCountWithTies || e is UsingDuplicate || e is UsingAmbiguous
            || e is UsingMissing || e is NonSelectSubquery || e is TargetNotModifiable
            || e is IndexOtherTable || e is StatsOtherTable,
        parse_error::location_of(ParseError::NoSortOperator { typ, location }) == Some(location),
        parse_error::location_of(ParseError::AmbiguousColumn { kind, location }) == Some(location),
        parse_error::location_of(
            ParseError::NonIntegerConstant { kind, location },
        ) == Some(location),
        parse_error::location_of(
            ParseError::PositionNotInList { kind, position, location },
        ) == Some(location),
        parse_error::location_of(ParseError::AggregateInGroupBy { location }) == Some(location),
        parse_error::location_of(ParseError::WindowInGroupBy { location }) == Some(location),
        parse_error::location_of(ParseError::CubeLimit { location }) == Some(location),
        parse_error::location_of(
            ParseError::DistinctOrderByMismatch { is_agg, location },
        ) == Some(location),
        parse_error::location_of(
            ParseError::DistinctOnOrderByMismatch { location },
        ) == Some(location),
        parse_error::location_of(
            ParseError::NoDistinctOrdering { typ, location },
        ) == Some(location),
        parse_error::location_of(ParseError::WindowRedefined { location }) == Some(location),
        parse_error::location_of(ParseError::WindowUndefined { location }) == Some(location),
        parse_error::location_of(ParseError::OverridePartition { location }) == Some(location),
        parse_error::location_of(ParseError::OverrideOrder { location }) == Some(location),
        parse_error::location_of(ParseError::CopyFramedWindow { hint, location }) == Some(location),
        parse_error::location_of(ParseError::RangeNeedsOneColumn { location }) == Some(location),
        parse_error::location_of(ParseError::GroupsNeedsOrder { location }) == Some(location),
        parse_error::location_of(
            ParseError::FrameNotSupported { coltype, location },
        ) == Some(location),
        parse_error::location_of(
            ParseError::FrameTypeNotSupported { coltype, offtype, location },
        ) == Some(location),
        parse_error::location_of(
            ParseError::FrameAmbiguous { coltype, offtype, location },
        ) == Some(location),
        parse_error::location_of(
            ParseError::ContainsVariables { construct, location },
        ) == Some(location),
        parse_error::location_of(ParseError::SampleWrongRelkind { location }) == Some(location),
        parse_error::location_of(ParseError::SampleNoMethod { location }) == Some(location),
        parse_error::location_of(ParseError::SampleWrongRettype { location }) == Some(location),
        parse_error::location_of(
            ParseError::SampleArgCount { want, got, location },
        ) == Some(location),
        parse_error::location_of(ParseError::SampleNoRepeatable { location }) == Some(location),
        parse_error::location_of(ParseError::SrfNotTopLevel { location }) == Some(location),
        parse_error::location_of(ParseError::MultipleColdeflists { location }) == Some(location),
        parse_error::location_of(ParseError::RowsFromColdeflist { location }) == Some(location),
        parse_error::location_of(ParseError::UnnestColdeflist { location }) == Some(location),
        parse_error::location_of(ParseError::OrdinalityColdeflist { location }) == Some(location),
        parse_error::location_of(ParseError::MultipleOrdinality { location }) == Some(location),
        parse_error::location_of(ParseError::ColumnSetof { location }) == Some(location),
        parse_error::location_of(ParseError::ColumnNotUnique { location }) == Some(location),
        parse_error::location_of(ParseError::NamespaceNotUnique { location }) == Some(location),
        parse_error::location_of(
            ParseError::MultipleDefaultNamespaces { location },
        ) == Some(location),
        parse_error::location_of(
            ParseError::ArgumentTypeMismatch { target, input, location },
        ) == Some(location),
        parse_error::location_of(ParseError::ArgumentReturnsSet { location }) == Some(location),
        parse_error::location_of(ParseError::ConflictNeedsInference { location }) == Some(location),
        parse_error::location_of(ParseError::ConflictOnCatalog { location }) == Some(location),
        parse_error::location_of(ParseError::ConflictOrdering { location }) == Some(location),
        parse_error::location_of(ParseError::ConflictNulls { location }) == Some(location),
{
}

/// Which errors come with advice, and which with a detail.
pub proof fn law_advice(e: ParseError)
    ensures
        parse_error::hint_text(e) is Some <==> e is NotAnOrderingOperator || (
        e matches ParseError::CopyFramedWindow { hint, .. } && hint) || e is FrameTypeNotSupported
            || e is FrameAmbiguous || e is RowsFromColdeflist || e is UnnestColdeflist
            || e is OrdinalityColdeflist || e is ConflictNeedsInference,
        parse_error::detail_text(e) is Some <==> e is NoDistinctOrdering,
{
}

/// An argument count of one is said in the singular.
pub proof fn law_one_argument(want: usize)
    ensures
        want == 1 <==> parse_error::arguments(want).len() == 15,
        want != 1 <==> parse_error::arguments(want).len() == 16,
{
    reveal_strlit(" argument, not ");
    reveal_strlit(" arguments, not ");
}

} // verus!
