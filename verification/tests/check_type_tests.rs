use oas_middleware::check_type::{
    check_boolean, check_integer, check_type, parsed_result, plain_string_result, read_float,
    read_integer, reads_as_base64, reverse_result,
};
use oas_middleware::error::{maximum_error, minimum_error, type_error, unsupported, Category, E};
use oas_middleware::number::{integer_text, reads_as_float};
use oas_middleware::request::Attribute;
use oas_middleware::schema::{
    ArrayType, IntegerFormat, IntegerType, NumberFormat, NumberType, ObjectType, StringFormat,
    StringType, Type,
};

fn integer(
    format: IntegerFormat,
    minimum: Option<i64>,
    maximum: Option<i64>,
    exclusive_minimum: bool,
    exclusive_maximum: bool,
) -> IntegerType {
    IntegerType {
        format,
        minimum,
        maximum,
        exclusive_minimum,
        exclusive_maximum,
        enumeration: Vec::new(),
    }
}

fn string(format: StringFormat) -> Type {
    Type::String(StringType { format })
}

fn type_failure(expected: &str, name: &str, value: &str) -> E {
    E::TypeError {
        expected_type: expected.to_string(),
        param_name: name.to_string(),
        param_value: value.to_string(),
    }
}

#[test]
fn integer_at_exclusive_maximum_reports_limit_nine() {
    let the_type = Type::Integer(integer(IntegerFormat::Empty, Some(1), Some(10), false, true));
    let result = check_type(&the_type, &Attribute::new("n", "10"));
    assert_eq!(
        result,
        Err(E::ValueLimit {
            param_name: "n".to_string(),
            limit_name: "maximum".to_string(),
            limit_value: "9".to_string(),
            param_value: "10".to_string(),
        })
    );
}

#[test]
fn integer_below_exclusive_maximum_passes() {
    let the_type = Type::Integer(integer(IntegerFormat::Empty, Some(1), Some(10), false, true));
    assert_eq!(check_type(&the_type, &Attribute::new("n", "9")), Ok(()));
    assert_eq!(check_type(&the_type, &Attribute::new("n", "1")), Ok(()));
}

#[test]
fn integer_that_does_not_parse_is_a_type_error() {
    let the_type = Type::Integer(integer(IntegerFormat::Empty, Some(1), Some(10), false, true));
    assert_eq!(
        check_type(&the_type, &Attribute::new("n", "abc")),
        Err(type_failure("integer", "n", "abc"))
    );
}

#[test]
fn integer_below_minimum_reports_the_minimum() {
    let the_type = integer(IntegerFormat::Int64, Some(1), None, false, false);
    assert_eq!(
        check_integer(&Attribute::new("id", "0"), &the_type),
        Err(E::ValueLimit {
            param_name: "id".to_string(),
            limit_name: "minimum".to_string(),
            limit_value: "1".to_string(),
            param_value: "0".to_string(),
        })
    );
}

#[test]
fn exclusive_minimum_adds_one() {
    let the_type = integer(IntegerFormat::Empty, Some(5), None, true, false);
    assert_eq!(the_type.limits(), (6, i64::MAX as i128));
    assert_eq!(the_type.min_max(), (6, i64::MAX));
    assert_eq!(
        check_integer(&Attribute::new("n", "5"), &the_type),
        Err(minimum_error("6", &Attribute::new("n", "5")))
    );
    assert_eq!(check_integer(&Attribute::new("n", "6"), &the_type), Ok(()));
}

#[test]
fn bounds_default_to_the_64_bit_range() {
    let the_type = integer(IntegerFormat::Empty, None, None, true, true);
    assert_eq!(the_type.min_max(), (i64::MIN, i64::MAX));
    assert_eq!(check_integer(&Attribute::new("n", "-9223372036854775808"), &the_type), Ok(()));
    assert_eq!(check_integer(&Attribute::new("n", "9223372036854775807"), &the_type), Ok(()));
}

#[test]
fn exclusive_minimum_at_the_64_bit_maximum_admits_nothing() {
    let the_type = integer(IntegerFormat::Empty, Some(i64::MAX), None, true, false);
    assert_eq!(
        check_integer(&Attribute::new("n", "9223372036854775807"), &the_type),
        Err(minimum_error("9223372036854775808", &Attribute::new("n", "9223372036854775807")))
    );
}

#[test]
fn int32_is_read_within_32_bits() {
    let the_type = integer(IntegerFormat::Int32, None, None, false, false);
    assert_eq!(read_integer(&Attribute::new("n", "2147483647"), &the_type), Ok(2147483647));
    assert_eq!(read_integer(&Attribute::new("n", "-2147483648"), &the_type), Ok(-2147483648));
    assert_eq!(
        read_integer(&Attribute::new("n", "2147483648"), &the_type),
        Err(type_failure("integer int32", "n", "2147483648"))
    );
}

#[test]
fn other_integer_formats_are_read_within_64_bits() {
    let wide = Attribute::new("n", "2147483648");
    assert_eq!(
        read_integer(&wide, &integer(IntegerFormat::Int64, None, None, false, false)),
        Ok(2147483648)
    );
    assert_eq!(
        read_integer(&wide, &integer(IntegerFormat::Unknown, None, None, false, false)),
        Ok(2147483648)
    );
    let too_wide = Attribute::new("n", "9223372036854775808");
    assert_eq!(
        read_integer(&too_wide, &integer(IntegerFormat::Int64, None, None, false, false)),
        Err(type_failure("integer int64", "n", "9223372036854775808"))
    );
    assert_eq!(
        read_integer(&too_wide, &integer(IntegerFormat::Unknown, None, None, false, false)),
        Err(type_failure("integer unknown format", "n", "9223372036854775808"))
    );
}

#[test]
fn integer_texts_with_sign_and_without_digits() {
    let the_type = integer(IntegerFormat::Empty, None, None, false, false);
    assert_eq!(read_integer(&Attribute::new("n", "+7"), &the_type), Ok(7));
    assert_eq!(read_integer(&Attribute::new("n", "-0"), &the_type), Ok(0));
    assert_eq!(read_integer(&Attribute::new("n", "007"), &the_type), Ok(7));
    for text in ["", "+", "-", " 7", "7 ", "1_000", "1.0", "0x10"] {
        assert_eq!(
            read_integer(&Attribute::new("n", text), &the_type),
            Err(type_failure("integer", "n", text))
        );
    }
}

#[test]
fn enumeration_is_not_held_against_the_value() {
    let mut the_type = integer(IntegerFormat::Empty, None, None, false, false);
    the_type.enumeration = vec![1, 2, 3];
    assert_eq!(check_integer(&Attribute::new("n", "4"), &the_type), Ok(()));
}

#[test]
fn integers_are_written_in_base_ten() {
    assert_eq!(integer_text(0), "0");
    assert_eq!(integer_text(9), "9");
    assert_eq!(integer_text(10), "10");
    assert_eq!(integer_text(-1), "-1");
    assert_eq!(integer_text(1234567890), "1234567890");
    assert_eq!(integer_text(i64::MIN as i128 - 1), "-9223372036854775809");
    assert_eq!(integer_text(i128::MAX), i128::MAX.to_string());
    assert_eq!(integer_text(i128::MIN), i128::MIN.to_string());
}

#[test]
fn uuid_that_does_not_parse_is_a_type_error() {
    let the_type = string(StringFormat::Other("uuid".to_string()));
    assert_eq!(
        check_type(&the_type, &Attribute::new("id", "not-a-uuid")),
        Err(type_failure("UUID", "id", "not-a-uuid"))
    );
}

#[test]
fn uuid_in_standard_form_passes() {
    let the_type = string(StringFormat::Other("uuid".to_string()));
    assert_eq!(
        check_type(&the_type, &Attribute::new("id", "123e4567-e89b-12d3-a456-426614174000")),
        Ok(())
    );
}

#[test]
fn uuid_is_read_in_four_forms() {
    let the_type = string(StringFormat::Other("uuid".to_string()));
    for text in [
        "123e4567-e89b-12d3-a456-426614174000",
        "123E4567-E89B-12D3-A456-426614174000",
        "{123e4567-e89b-12d3-a456-426614174000}",
        "urn:uuid:123e4567-e89b-12d3-a456-426614174000",
        "URN:UUID:123e4567-e89b-12d3-a456-426614174000",
        "Urn:uuId:123e4567-e89b-12d3-a456-426614174000",
        "123e4567e89b12d3a456426614174000",
        "00000000-0000-0000-0000-000000000000",
    ] {
        assert_eq!(check_type(&the_type, &Attribute::new("id", text)), Ok(()), "{}", text);
    }
    for text in [
        "",
        "123e4567-e89b-12d3-a456-42661417400",
        "123e4567-e89b-12d3-a456-4266141740000",
        "123e4567-e89b-12d3-a456-42661417400g",
        "123e4567ae89b-12d3-a456-426614174000",
        "123e4567-e89b-12d3-a456_426614174000",
        "123e4567e89b12d3a45642661417400",
        "123e4567e89b12d3a45642661417400g",
        "{123e4567e89b12d3a456426614174000}",
        "(123e4567-e89b-12d3-a456-426614174000)",
        "{123e4567-e89b-12d3-a456-426614174000",
        "urn-uuid:123e4567-e89b-12d3-a456-426614174000",
        "urn:uuid:123e4567e89b12d3a456426614174000",
        "urn:uuid:{123e4567-e89b-12d3-a456-4266141740}",
        " 123e4567-e89b-12d3-a456-426614174000",
        "123e4567-e89b-12d3-a456-42661417400\u{e9}",
        "\u{e9}23e4567e89b12d3a45642661417400",
        "123e-4567e89b-12d3-a456-426614174000",
    ] {
        assert_eq!(
            check_type(&the_type, &Attribute::new("id", text)),
            Err(type_failure("UUID", "id", text)),
            "{}",
            text
        );
    }
}

#[test]
fn plain_string_that_looks_like_a_boolean_is_rejected() {
    let the_type = string(StringFormat::Empty);
    assert_eq!(
        check_type(&the_type, &Attribute::new("q", "true")),
        Err(type_failure("string without format", "q", "true"))
    );
}

#[test]
fn plain_string_of_free_text_passes() {
    let the_type = string(StringFormat::Empty);
    assert_eq!(check_type(&the_type, &Attribute::new("q", "hello world")), Ok(()));
}

#[test]
fn plain_string_that_looks_like_a_uuid_or_a_timestamp_is_rejected() {
    let the_type = string(StringFormat::Empty);
    for text in ["123e4567-e89b-12d3-a456-426614174000", "1996-12-19T16:39:57-08:00", "false"] {
        assert_eq!(
            check_type(&the_type, &Attribute::new("q", text)),
            Err(type_failure("string without format", "q", text))
        );
    }
}

#[test]
fn plain_string_result_fails_on_any_specific_shape() {
    let free = Attribute::new("q", "hello");
    assert_eq!(plain_string_result(&free, false, false), Ok(()));
    assert_eq!(
        plain_string_result(&free, true, false),
        Err(type_failure("string without format", "q", "hello"))
    );
    assert_eq!(
        plain_string_result(&free, false, true),
        Err(type_failure("string without format", "q", "hello"))
    );
    assert_eq!(
        plain_string_result(&Attribute::new("q", "true"), false, false),
        Err(type_failure("string without format", "q", "true"))
    );
}

#[test]
fn parsed_result_follows_the_flag() {
    let value = Attribute::new("d", "x");
    assert_eq!(parsed_result(true, "Date", &value), Ok(()));
    assert_eq!(parsed_result(false, "Date", &value), Err(type_failure("Date", "d", "x")));
}

#[test]
fn reverse_result_turns_a_check_round() {
    let value = Attribute::new("q", "x");
    assert_eq!(
        reverse_result(Ok(()), &value),
        Err(type_failure("string without format", "q", "x"))
    );
    assert_eq!(reverse_result(Err(unsupported("anything")), &value), Ok(()));
}

#[test]
fn date_and_date_time_need_an_rfc_3339_timestamp() {
    let stamp = Attribute::new("at", "1996-12-19T16:39:57-08:00");
    let zulu = Attribute::new("at", "2020-01-02T03:04:05Z");
    let bare = Attribute::new("at", "1996-12-19");
    assert_eq!(check_type(&string(StringFormat::Date), &stamp), Ok(()));
    assert_eq!(check_type(&string(StringFormat::DateTime), &stamp), Ok(()));
    assert_eq!(check_type(&string(StringFormat::DateTime), &zulu), Ok(()));
    assert_eq!(
        check_type(&string(StringFormat::Date), &bare),
        Err(type_failure("Date", "at", "1996-12-19"))
    );
    assert_eq!(
        check_type(&string(StringFormat::DateTime), &bare),
        Err(type_failure("Datetime", "at", "1996-12-19"))
    );
}

#[test]
fn byte_needs_padded_base64() {
    for text in ["", "QUJD", "QUI=", "QQ==", "ab+/", "QUJDQUI="] {
        assert!(reads_as_base64(text), "{}", text);
        assert_eq!(check_type(&string(StringFormat::Byte), &Attribute::new("b", text)), Ok(()));
    }
    for text in ["Q", "QU", "QUJ", "QUJD=", "Q===", "=QUJ", "QU=D", "QUJ*", "QUJD\n", "QQ=="
        .to_string()
        .repeat(2)
        .as_str()]
    {
        assert!(!reads_as_base64(text), "{}", text);
        assert_eq!(
            check_type(&string(StringFormat::Byte), &Attribute::new("b", text)),
            Err(type_failure("Base64 string", "b", text))
        );
    }
}

#[test]
fn other_string_formats_are_unsupported_and_named() {
    assert_eq!(
        check_type(&string(StringFormat::Other("password".to_string())), &Attribute::new("p", "x")),
        Err(E::TypeNotsupported("String format password".to_string()))
    );
}

#[test]
fn objects_and_arrays_are_unsupported() {
    let object = Type::Object(ObjectType { properties: Vec::new() });
    let array = Type::Array(ArrayType { items: None });
    assert_eq!(
        check_type(&object, &Attribute::new("o", "{}")),
        Err(E::TypeNotsupported("Object".to_string()))
    );
    assert_eq!(
        check_type(&array, &Attribute::new("a", "[]")),
        Err(E::TypeNotsupported("Array".to_string()))
    );
}

#[test]
fn boolean_is_exactly_true_or_false() {
    assert_eq!(check_type(&Type::Boolean, &Attribute::new("b", "true")), Ok(()));
    assert_eq!(check_boolean(&Attribute::new("b", "false")), Ok(()));
    for text in ["True", "1", "", "maybe", "true "] {
        assert_eq!(
            check_boolean(&Attribute::new("b", text)),
            Err(type_failure("boolean", "b", text))
        );
    }
}

#[test]
fn numbers_must_read_as_floating_point() {
    let double = NumberType { format: NumberFormat::Double };
    for text in [
        "1", "-1", "+1", "1.", ".5", "1.5", "1e5", "1E5", "1.5e-3", "+.5E+3", "inf", "-inf",
        "Infinity", "NaN", "nan", "0000.1",
    ] {
        assert!(reads_as_float(text), "{}", text);
        assert_eq!(text.parse::<f64>().is_ok(), true, "{}", text);
        assert_eq!(read_float(&Attribute::new("x", text), &double), Ok(()));
    }
    for text in [
        "", ".", "+", "-", "e5", "1e", "1e+", "1.5.2", " 1", "1 ", "1_0", "0x10", "infinit",
        "nane", "1f", "--1", "+-1", ".e5", "1e5.0",
    ] {
        assert!(!reads_as_float(text), "{}", text);
        assert_eq!(text.parse::<f64>().is_ok(), false, "{}", text);
        assert_eq!(
            read_float(&Attribute::new("x", text), &double),
            Err(type_failure("double", "x", text))
        );
    }
}

#[test]
fn number_bounds_are_not_held_against_the_value() {
    let float = Type::Number(NumberType { format: NumberFormat::Float });
    assert_eq!(check_type(&float, &Attribute::new("x", "1e400")), Ok(()));
    assert_eq!(
        check_type(&float, &Attribute::new("x", "abc")),
        Err(type_failure("float", "x", "abc"))
    );
    let unknown = Type::Number(NumberType { format: NumberFormat::Unknown });
    assert_eq!(
        check_type(&unknown, &Attribute::new("x", "abc")),
        Err(type_failure("float unknown format", "x", "abc"))
    );
}

#[test]
fn error_constructors_fill_every_field() {
    let value = Attribute::new("limit", "12");
    assert_eq!(type_error("integer", &value), type_failure("integer", "limit", "12"));
    assert_eq!(
        maximum_error("10", &value),
        E::ValueLimit {
            param_name: "limit".to_string(),
            limit_name: "maximum".to_string(),
            limit_value: "10".to_string(),
            param_value: "12".to_string(),
        }
    );
    assert_eq!(unsupported("x"), E::FunctionalityNotsupported("x".to_string()));
}

#[test]
fn errors_in_words() {
    let value = Attribute::new("limit", "12");
    assert_eq!(
        E::PathError("/x".to_string()).message(),
        "The path `/x` is not described in the OpenAPI file."
    );
    assert_eq!(
        E::MethodError("GET".to_string()).message(),
        "The method `GET` is not described in the OpenAPI file."
    );
    assert_eq!(
        E::ParamError("p".to_string()).message(),
        "The parameter `p` is not described in the OpenAPI file."
    );
    assert_eq!(
        type_error("integer", &value).message(),
        "The contract specifies `limit` as integer but got `12`."
    );
    assert_eq!(
        E::TypeNotsupported("Array".to_string()).message(),
        "Type Array not supported by the proxy. Fix me! "
    );
    assert_eq!(unsupported("No bodies").message(), "No bodies. Fix me! ");
    assert_eq!(
        maximum_error("10", &value).message(),
        "The contract specifies `limit` to have a maximum of 10 but got 12."
    );
    assert_eq!(
        minimum_error("20", &value).message(),
        "The contract specifies `limit` to have a minimum of 20 but got 12."
    );
}

#[test]
fn errors_fall_under_fixed_categories() {
    let value = Attribute::new("limit", "12");
    assert_eq!(E::PathError("/x".to_string()).category(), Category::PathNotDescribed);
    assert_eq!(E::MethodError("GET".to_string()).category(), Category::MethodNotDescribed);
    assert_eq!(E::ParamError("p".to_string()).category(), Category::ParameterNotDescribed);
    assert_eq!(type_error("integer", &value).category(), Category::ContractViolated);
    assert_eq!(maximum_error("10", &value).category(), Category::ContractViolated);
    assert_eq!(unsupported("x").category(), Category::ContractViolated);
    assert_eq!(Category::PathNotDescribed.text(), "path not described");
    assert_eq!(Category::MethodNotDescribed.text(), "method not described");
    assert_eq!(Category::ParameterNotDescribed.text(), "parameter not described");
    assert_eq!(Category::ContractViolated.text(), "contract violated");
}
