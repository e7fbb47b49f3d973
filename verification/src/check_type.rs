//! Checks of one raw value against one declared type.

use vstd::prelude::*;
use vstd::string::StringExecFns;
use crate::error::{
    limit_failure, maximum_error, minimum_error, type_error, type_failure, EView, E,
};
use crate::number::{
    decimal_text, integer_between, integer_text, is_float_literal, parse_i32, parse_i64,
    reads_as_float,
};
use crate::outside::{parses_as_rfc3339, parses_as_uuid, rfc3339_parses, uuid_parses};
use crate::request::{Attribute, AttributeView};
use crate::schema::{
    type_head, Head, IntegerFormat, IntegerType, IntegerTypeView, NumberFormat, NumberType,
    ObjectType, StringFormat, StringFormatView, StringType, Type,
};
use crate::text::{chars_of, concat, str_equal};
use crate::types::{lower_bound, upper_bound};

verus! {

/// The model of the result of a check.
pub open spec fn outcome(result: Result<(), E>) -> Result<(), EView> {
    match result {
        Ok(_) => Ok(()),
        Err(error) => Err(error@),
    }
}

/// The model of a value that was read, or of the error in its place.
pub open spec fn read_outcome(result: Result<i64, E>) -> Result<int, EView> {
    match result {
        Ok(value) => Ok(value as int),
        Err(error) => Err(error@),
    }
}

pub open spec fn is_boolean(text: Seq<char>) -> bool {
    text == "true"@ || text == "false"@
}

/// A boolean is exactly `true` or `false`.
pub open spec fn boolean_outcome(attribute: AttributeView) -> Result<(), EView> {
    if is_boolean(attribute.value) {
        Ok(())
    } else {
        Err(type_failure("boolean"@, attribute))
    }
}

/// A value passes where it parsed, and fails as not of the expected type
/// where it did not.
pub open spec fn parsed_outcome(
    parsed: bool,
    expected: Seq<char>,
    attribute: AttributeView,
) -> Result<(), EView> {
    if parsed {
        Ok(())
    } else {
        Err(type_failure(expected, attribute))
    }
}

/// A string without a format must look like nothing more specific: it fails
/// where it is a boolean, a UUID or a date and time.
pub open spec fn plain_string_outcome(
    attribute: AttributeView,
    is_uuid: bool,
    is_timestamp: bool,
) -> Result<(), EView> {
    if is_boolean(attribute.value) || is_uuid || is_timestamp {
        Err(type_failure("string without format"@, attribute))
    } else {
        Ok(())
    }
}

pub open spec fn is_base64_char(c: char) -> bool {
    'A' <= c <= 'Z' || 'a' <= c <= 'z' || '0' <= c <= '9' || c == '+' || c == '/'
}

/// Base64 with padding: groups of four characters of the alphabet, of which
/// the last may end in one `=` or in two.
pub open spec fn is_base64(text: Seq<char>) -> bool {
    let n = text.len() as int;
    &&& n % 4 == 0
    &&& forall|i: int| 0 <= i < n - 2 ==> is_base64_char(#[trigger] text[i])
    &&& n > 0 ==> {
        ||| is_base64_char(text[n - 2]) && is_base64_char(text[n - 1])
        ||| is_base64_char(text[n - 2]) && text[n - 1] == '='
        ||| text[n - 2] == '=' && text[n - 1] == '='
    }
}

/// How a failure names an integer type.
pub open spec fn integer_name(format: IntegerFormat) -> Seq<char> {
    match format {
        IntegerFormat::Int32 => "integer int32"@,
        IntegerFormat::Int64 => "integer int64"@,
        IntegerFormat::Unknown => "integer unknown format"@,
        IntegerFormat::Empty => "integer"@,
    }
}

/// How a failure names a number type.
pub open spec fn number_name(format: NumberFormat) -> Seq<char> {
    match format {
        NumberFormat::Float => "float"@,
        NumberFormat::Double => "double"@,
        NumberFormat::Unknown => "float unknown format"@,
        NumberFormat::Empty => "float"@,
    }
}

/// The value of an integer: `int32` is read within 32 bits, everything else
/// within 64.
pub open spec fn integer_read(format: IntegerFormat, attribute: AttributeView) -> Result<
    int,
    EView,
> {
    let parsed = if format == IntegerFormat::Int32 {
        integer_between(attribute.value, i32::MIN as int, i32::MAX as int)
    } else {
        integer_between(attribute.value, i64::MIN as int, i64::MAX as int)
    };
    match parsed {
        Some(value) => Ok(value),
        None => Err(type_failure(integer_name(format), attribute)),
    }
}

/// An integer must parse, and then lie within the bounds of its type; the
/// failure names the bound that it breaks and the value of that bound. What
/// the type enumerates is not held against the value.
pub open spec fn integer_outcome(integer_type: IntegerTypeView, attribute: AttributeView) -> Result<
    (),
    EView,
> {
    match integer_read(integer_type.format, attribute) {
        Err(error) => Err(error),
        Ok(value) => if value < lower_bound(integer_type) {
            Err(limit_failure("minimum"@, decimal_text(lower_bound(integer_type)), attribute))
        } else if value > upper_bound(integer_type) {
            Err(limit_failure("maximum"@, decimal_text(upper_bound(integer_type)), attribute))
        } else {
            Ok(())
        },
    }
}

/// A number must read as a floating-point number. Bounds are not held
/// against it.
pub open spec fn number_outcome(format: NumberFormat, attribute: AttributeView) -> Result<
    (),
    EView,
> {
    if is_float_literal(attribute.value) {
        Ok(())
    } else {
        Err(type_failure(number_name(format), attribute))
    }
}

/// The outcome for a string, by its format.
pub open spec fn string_outcome(
    format: StringFormatView,
    attribute: AttributeView,
    is_uuid: bool,
    is_timestamp: bool,
) -> Result<(), EView> {
    match format {
        StringFormatView::Date => parsed_outcome(is_timestamp, "Date"@, attribute),
        StringFormatView::DateTime => parsed_outcome(is_timestamp, "Datetime"@, attribute),
        StringFormatView::Byte => parsed_outcome(
            is_base64(attribute.value),
            "Base64 string"@,
            attribute,
        ),
        StringFormatView::Empty => plain_string_outcome(attribute, is_uuid, is_timestamp),
        StringFormatView::Other(token) => if token == "uuid"@ {
            parsed_outcome(is_uuid, "UUID"@, attribute)
        } else {
            Err(EView::TypeNotsupported("String format "@ + token))
        },
    }
}

/// The outcome of checking a value against a type. `is_uuid` and
/// `is_timestamp` say whether the value parses as a UUID and as a date and
/// time.
pub open spec fn type_outcome(
    head: Head,
    attribute: AttributeView,
    is_uuid: bool,
    is_timestamp: bool,
) -> Result<(), EView> {
    match head {
        Head::String(format) => string_outcome(format, attribute, is_uuid, is_timestamp),
        Head::Integer(integer_type) => integer_outcome(integer_type, attribute),
        Head::Number(format) => number_outcome(format, attribute),
        Head::Boolean => boolean_outcome(attribute),
        Head::Object(_) => Err(EView::TypeNotsupported("Object"@)),
        Head::Array(_) => Err(EView::TypeNotsupported("Array"@)),
        Head::OneOf => Err(EView::FunctionalityNotsupported("OneOf not supported"@)),
        Head::AnyOf => Err(EView::FunctionalityNotsupported("AnyOf not supported"@)),
        Head::AllOf => Err(EView::FunctionalityNotsupported("AllOf not supported"@)),
        Head::Not => Err(EView::FunctionalityNotsupported("Not not supported"@)),
        Head::Any { .. } => Err(EView::FunctionalityNotsupported("Any not supported"@)),
    }
}

/// Checks a value against a type: see [`type_outcome`].
pub fn check_type(the_type: &Type, request_param_data: &Attribute) -> (result: Result<(), E>)
    ensures
        outcome(result) == type_outcome(
            type_head(*the_type),
            request_param_data@,
            uuid_parses(request_param_data.value@),
            rfc3339_parses(request_param_data.value@),
        ),
{
    match the_type {
        Type::String(StringType { format }) => match format {
            StringFormat::Date => check_date(request_param_data),
            StringFormat::DateTime => check_datetime(request_param_data),
            StringFormat::Byte => check_base64(request_param_data),
            StringFormat::Other(token) => {
                if str_equal(token.as_str(), "uuid") {
                    check_uuid(request_param_data)
                } else {
                    Err(E::TypeNotsupported(concat("String format ", token.as_str())))
                }
            },
            StringFormat::Empty => check_plain_string(request_param_data),
        },
        Type::Integer(integer_type) => check_integer(request_param_data, integer_type),
        Type::Number(number_type) => check_number(request_param_data, number_type),
        Type::Boolean => check_boolean(request_param_data),
        Type::Object(object_type) => check_object(request_param_data, object_type),
        Type::Array(_) => Err(E::TypeNotsupported(String::from_str("Array"))),
    }
}

fn check_object(attribute: &Attribute, object_type: &ObjectType) -> (result: Result<(), E>)
    ensures
        outcome(result) == Err::<(), _>(EView::TypeNotsupported("Object"@)),
{
    Err(E::TypeNotsupported(String::from_str("Object")))
}

/// Reads the value of an integer: see [`integer_read`].
pub fn read_integer(attribute: &Attribute, integer_type: &IntegerType) -> (result: Result<i64, E>)
    ensures
        read_outcome(result) == integer_read(integer_type.format, attribute@),
{
    match integer_type.format {
        IntegerFormat::Int32 => match parse_i32(attribute.value.as_str()) {
            Some(number) => Ok(number as i64),
            None => Err(type_error("integer int32", attribute)),
        },
        IntegerFormat::Int64 => match parse_i64(attribute.value.as_str()) {
            Some(number) => Ok(number),
            None => Err(type_error("integer int64", attribute)),
        },
        IntegerFormat::Unknown => match parse_i64(attribute.value.as_str()) {
            Some(number) => Ok(number),
            None => Err(type_error("integer unknown format", attribute)),
        },
        IntegerFormat::Empty => match parse_i64(attribute.value.as_str()) {
            Some(number) => Ok(number),
            None => Err(type_error("integer", attribute)),
        },
    }
}

/// Reads a number, of which only that it reads is kept: see
/// [`number_outcome`].
pub fn read_float(attribute: &Attribute, number_type: &NumberType) -> (result: Result<(), E>)
    ensures
        outcome(result) == number_outcome(number_type.format, attribute@),
{
    if reads_as_float(attribute.value.as_str()) {
        Ok(())
    } else {
        match number_type.format {
            NumberFormat::Float => Err(type_error("float", attribute)),
            NumberFormat::Double => Err(type_error("double", attribute)),
            NumberFormat::Unknown => Err(type_error("float unknown format", attribute)),
            NumberFormat::Empty => Err(type_error("float", attribute)),
        }
    }
}

/// Checks an integer: see [`integer_outcome`].
pub fn check_integer(attribute: &Attribute, integer_type: &IntegerType) -> (result: Result<(), E>)
    ensures
        outcome(result) == integer_outcome(integer_type@, attribute@),
{
    let number = match read_integer(attribute, integer_type) {
        Ok(number) => number,
        Err(error) => { return Err(error); },
    };
    let (low, high) = integer_type.limits();
    if (number as i128) < low {
        Err(minimum_error(integer_text(low).as_str(), attribute))
    } else if (number as i128) > high {
        Err(maximum_error(integer_text(high).as_str(), attribute))
    } else {
        Ok(())
    }
}

fn check_number(attribute: &Attribute, number_type: &NumberType) -> (result: Result<(), E>)
    ensures
        outcome(result) == number_outcome(number_type.format, attribute@),
{
    read_float(attribute, number_type)
}

/// Checks a boolean: see [`boolean_outcome`].
pub fn check_boolean(attribute: &Attribute) -> (result: Result<(), E>)
    ensures
        outcome(result) == boolean_outcome(attribute@),
{
    if str_equal(attribute.value.as_str(), "true") || str_equal(attribute.value.as_str(), "false") {
        Ok(())
    } else {
        Err(type_error("boolean", attribute))
    }
}

/// The result for a value of which it is known whether it parsed: see
/// [`parsed_outcome`].
pub fn parsed_result(parsed: bool, expected: &str, attribute: &Attribute) -> (result: Result<(), E>)
    ensures
        outcome(result) == parsed_outcome(parsed, expected@, attribute@),
{
    if parsed {
        Ok(())
    } else {
        Err(type_error(expected, attribute))
    }
}

fn check_uuid(attribute: &Attribute) -> (result: Result<(), E>)
    ensures
        outcome(result) == parsed_outcome(uuid_parses(attribute.value@), "UUID"@, attribute@),
{
    parsed_result(parses_as_uuid(attribute.value.as_str()), "UUID", attribute)
}

fn check_date(attribute: &Attribute) -> (result: Result<(), E>)
    ensures
        outcome(result) == parsed_outcome(rfc3339_parses(attribute.value@), "Date"@, attribute@),
{
    parsed_result(parses_as_rfc3339(attribute.value.as_str()), "Date", attribute)
}

fn check_datetime(attribute: &Attribute) -> (result: Result<(), E>)
    ensures
        outcome(result) == parsed_outcome(
            rfc3339_parses(attribute.value@),
            "Datetime"@,
            attribute@,
        ),
{
    parsed_result(parses_as_rfc3339(attribute.value.as_str()), "Datetime", attribute)
}

fn base64_char(c: char) -> (r: bool)
    ensures
        r == is_base64_char(c),
{
    (c >= 'A' && c <= 'Z') || (c >= 'a' && c <= 'z') || (c >= '0' && c <= '9') || c == '+' || c
        == '/'
}

/// Whether a text is base64 with padding.
pub fn reads_as_base64(text: &str) -> (r: bool)
    ensures
        r == is_base64(text@),
{
    let chars = chars_of(text);
    let n = chars.len();
    if n % 4 != 0 {
        return false;
    }
    if n == 0 {
        return true;
    }
    let mut i: usize = 0;
    while i < n - 2
        invariant
            chars@ == text@,
            n == chars@.len(),
            n >= 4,
            i <= n - 2,
            forall|j: int| 0 <= j < i ==> is_base64_char(#[trigger] chars@[j]),
        decreases n - i,
    {
        if !base64_char(chars[i]) {
            assert(!is_base64_char(text@[i as int]));
            return false;
        }
        i += 1;
    }
    let c = chars[n - 2];
    let d = chars[n - 1];
    (base64_char(c) && base64_char(d)) || (base64_char(c) && d == '=') || (c == '=' && d == '=')
}

fn check_base64(attribute: &Attribute) -> (result: Result<(), E>)
    ensures
        outcome(result) == parsed_outcome(
            is_base64(attribute.value@),
            "Base64 string"@,
            attribute@,
        ),
{
    parsed_result(reads_as_base64(attribute.value.as_str()), "Base64 string", attribute)
}

/// Turns a check round: what passed fails as a string without format, and
/// what failed passes.
pub fn reverse_result(a: Result<(), E>, attribute: &Attribute) -> (result: Result<(), E>)
    ensures
        outcome(result) == match a {
            Ok(_) => Err::<(), _>(type_failure("string without format"@, attribute@)),
            Err(_) => Ok(()),
        },
{
    match a {
        Ok(_) => Err(type_error("string without format", attribute)),
        Err(_) => Ok(()),
    }
}

/// The result for a string without format of which it is known whether it
/// parses as a UUID and as a date and time: see [`plain_string_outcome`].
pub fn plain_string_result(attribute: &Attribute, is_uuid: bool, is_timestamp: bool) -> (result:
    Result<(), E>)
    ensures
        outcome(result) == plain_string_outcome(attribute@, is_uuid, is_timestamp),
{
    let boolean = reverse_result(check_boolean(attribute), attribute);
    let uuid = reverse_result(parsed_result(is_uuid, "UUID", attribute), attribute);
    let date = reverse_result(parsed_result(is_timestamp, "Date", attribute), attribute);
    let datetime = reverse_result(parsed_result(is_timestamp, "Datetime", attribute), attribute);
    match boolean {
        Err(error) => Err(error),
        Ok(_) => match uuid {
            Err(error) => Err(error),
            Ok(_) => match date {
                Err(error) => Err(error),
                Ok(_) => datetime,
            },
        },
    }
}

fn check_plain_string(attribute: &Attribute) -> (result: Result<(), E>)
    ensures
        outcome(result) == plain_string_outcome(
            attribute@,
            uuid_parses(attribute.value@),
            rfc3339_parses(attribute.value@),
        ),
{
    plain_string_result(
        attribute,
        parses_as_uuid(attribute.value.as_str()),
        parses_as_rfc3339(attribute.value.as_str()),
    )
}

} // verus!
