use num_bigint::BigInt;
use zinc::lexical::Location;
use zinc::semantic::element::types::BITLENGTH_BYTE;
use zinc::semantic::element::constant::integer::Error as IntegerConstantError;
use zinc::semantic::Error as SemanticError;
use zinc::semantic::IntegerConstant;
use zinc::semantic::RangeInclusive;
use zinc::semantic::Type;
use zinc::syntax::Identifier;

#[test]
fn err_element_value_not_equals_2nd_expected_boolean_test() {
    assert_eq!(Type::new_integer_unsigned(8).to_string(), "u8");
}

#[test]
fn error_match_branch_expression_invalid_type_test() {
    assert_eq!(Type::new_boolean().to_string(), "bool");
    assert_eq!(Type::new_integer_unsigned(BITLENGTH_BYTE).to_string(), "u8");
}

fn enumeration(name: &str, values: &[u64]) -> Type {
    let variants = values
        .iter()
        .enumerate()
        .map(|(number, value)| {
            (
                Identifier::new(Location::new(2 + number, 5), format!("V{}", number)),
                BigInt::from(*value),
            )
        })
        .collect();
    Type::new_enumeration(Identifier::new(Location::new(1, 6), String::from(name)), variants)
        .expect("the variants fit")
}

fn bitlength_of(values: &[u64]) -> usize {
    match enumeration("E", values) {
        Type::Enumeration { bitlength, .. } => bitlength,
        _ => panic!("an enumeration is expected"),
    }
}

#[test]
fn enumerations_take_the_bits_of_their_greatest_variant() {
    assert_eq!(bitlength_of(&[]), 0);
    assert_eq!(bitlength_of(&[0]), 8);
    assert_eq!(bitlength_of(&[0, 1, 255]), 8);
    assert_eq!(bitlength_of(&[256]), 16);
    assert_eq!(bitlength_of(&[256, 3]), 16);
    assert_eq!(bitlength_of(&[3, 65535, 7]), 16);
    assert_eq!(bitlength_of(&[65536]), 24);
    assert_eq!(bitlength_of(&[u64::MAX]), 64);
}

#[test]
fn integers_take_whole_bytes() {
    let bits = |text: &str| IntegerConstant::minimal_bitlength(&text.parse::<BigInt>().unwrap());
    assert_eq!(bits("0").unwrap(), 8);
    assert_eq!(bits("-5").unwrap(), 8);
    assert_eq!(bits("255").unwrap(), 8);
    assert_eq!(bits("256").unwrap(), 16);
    assert_eq!(bits("18446744073709551616").unwrap(), 72);
    let greatest: BigInt = (BigInt::from(1) << 248usize) - 1;
    assert_eq!(IntegerConstant::minimal_bitlength(&greatest).unwrap(), 248);
    let too_large: BigInt = BigInt::from(1) << 248usize;
    match IntegerConstant::minimal_bitlength(&too_large) {
        Err(IntegerConstantError::IntegerTooLarge(text, bitlength)) => {
            assert_eq!((text, bitlength), (too_large.to_string(), 248));
        }
        _ => panic!("the value is too large"),
    }
    assert_eq!(
        IntegerConstant::minimal_bitlength_bigints(&[BigInt::from(7), BigInt::from(70000)]).unwrap(),
        24
    );
    assert_eq!(IntegerConstant::minimal_bitlength_bigints(&[]).unwrap(), 0);
    let constant = IntegerConstant::new(BigInt::from(7), true, 16);
    assert_eq!(constant.type_of(), Type::new_integer_signed(16));
    assert_eq!(
        IntegerConstant::new(BigInt::from(7), false, 16).type_of(),
        Type::new_integer_unsigned(16)
    );
}

#[test]
fn enumeration_with_a_variant_too_large_is_reported() {
    let too_large: BigInt = BigInt::from(1) << 300usize;
    let result = Type::new_enumeration(
        Identifier::new(Location::new(3, 6), String::from("Huge")),
        vec![
            (Identifier::new(Location::new(4, 5), String::from("Small")), BigInt::from(1)),
            (Identifier::new(Location::new(5, 5), String::from("Large")), too_large.clone()),
        ],
    );
    match result {
        Err(SemanticError::InferenceConstant(
            location,
            IntegerConstantError::IntegerTooLarge(text, bitlength),
        )) => {
            assert_eq!((location, text, bitlength), (Location::new(3, 6), too_large.to_string(), 248));
        }
        _ => panic!("the variant is too large"),
    }
}

#[test]
fn ranges_have_the_type_of_their_bounds() {
    let range = RangeInclusive::new(BigInt::from(-3), BigInt::from(12), true, 8);
    assert_eq!((&range.start, &range.end), (&BigInt::from(-3), &BigInt::from(12)));
    assert_eq!(range.bounds_type(), Type::new_integer_signed(8));
    assert_eq!(range.to_string(), "range '-3 .. 12' of type 'i8'");
    let other = RangeInclusive::new(BigInt::from(0), BigInt::from(1), true, 8);
    assert!(range.has_the_same_type_as(&other));
    let unsigned = RangeInclusive::new(BigInt::from(0), BigInt::from(1), false, 8);
    assert!(!range.has_the_same_type_as(&unsigned));
    assert_eq!(unsigned.to_string(), "range '0 .. 1' of type 'u8'");
    let field = RangeInclusive::new(BigInt::from(0), BigInt::from(1), false, 254);
    assert_eq!(field.bounds_type(), Type::new_field());
    assert!(!field.has_the_same_type_as(&unsigned));
    let boolean = RangeInclusive::new(BigInt::from(0), BigInt::from(1), false, 1);
    assert_eq!(boolean.bounds_type(), Type::new_boolean());
}

fn structure() -> Type {
    Type::new_structure(
        String::from("Point"),
        vec![
            (String::from("x"), Type::new_field()),
            (String::from("flags"), Type::new_array(Type::new_boolean(), 3)),
        ],
    )
}

#[test]
fn types_are_written_as_in_the_source() {
    assert_eq!(Type::new_unit().to_string(), "()");
    assert_eq!(Type::new_boolean().to_string(), "bool");
    assert_eq!(Type::new_integer_unsigned(8).to_string(), "u8");
    assert_eq!(Type::new_integer_unsigned(248).to_string(), "u248");
    assert_eq!(Type::new_integer_signed(16).to_string(), "i16");
    assert_eq!(Type::new_integer(true, 24).to_string(), "i24");
    assert_eq!(Type::new_integer(false, 24).to_string(), "u24");
    assert_eq!(Type::new_field().to_string(), "field");
    assert_eq!(Type::new_string().to_string(), "&str");
    assert_eq!(Type::new_array(Type::new_integer_unsigned(8), 10).to_string(), "[u8; 10]");
    assert_eq!(Type::new_tuple(vec![]).to_string(), "()");
    assert_eq!(Type::new_tuple(vec![Type::new_field()]).to_string(), "(field)");
    assert_eq!(
        Type::new_tuple(vec![Type::new_field(), Type::new_boolean(), Type::new_unit()]).to_string(),
        "(field, bool, ())"
    );
    assert_eq!(structure().to_string(), "struct Point { x: field, flags: [bool; 3] }");
    assert_eq!(
        Type::new_structure(String::from("Empty"), vec![]).to_string(),
        "struct Empty {  }"
    );
    assert_eq!(enumeration("Color", &[0, 1, 2]).to_string(), "enum Color");
    assert_eq!(
        Type::new_function(
            String::from("sum"),
            vec![(String::from("a"), Type::new_field()), (String::from("b"), Type::new_field())],
            Type::new_tuple(vec![Type::new_field(), Type::new_boolean()]),
        )
        .to_string(),
        "fn sum(a: field, b: field) -> (field, bool)"
    );
}

#[test]
fn numeric_types_follow_their_bitlength() {
    assert_eq!(Type::new_numeric(false, 1), Type::new_boolean());
    assert_eq!(Type::new_numeric(false, 254), Type::new_field());
    assert_eq!(Type::new_numeric(false, 8), Type::new_integer_unsigned(8));
    assert_eq!(Type::new_numeric(true, 1), Type::new_integer_signed(1));
    assert_eq!(Type::new_numeric(true, 254), Type::new_integer_signed(254));
}

#[test]
fn types_take_the_cells_of_their_parts() {
    assert_eq!(Type::new_unit().size(), 0);
    assert_eq!(Type::new_boolean().size(), 1);
    assert_eq!(Type::new_integer_unsigned(64).size(), 1);
    assert_eq!(Type::new_integer_signed(64).size(), 1);
    assert_eq!(Type::new_field().size(), 1);
    assert_eq!(Type::new_string().size(), 0);
    assert_eq!(enumeration("Color", &[0, 1, 2]).size(), 1);
    assert_eq!(Type::new_array(Type::new_field(), 7).size(), 7);
    assert_eq!(Type::new_array(Type::new_array(Type::new_field(), 7), 3).size(), 21);
    assert_eq!(Type::new_array(Type::new_field(), 0).size(), 0);
    assert_eq!(Type::new_tuple(vec![]).size(), 0);
    assert_eq!(
        Type::new_tuple(vec![Type::new_field(), Type::new_array(Type::new_boolean(), 4), Type::new_unit()])
            .size(),
        5
    );
    assert_eq!(structure().size(), 4);
    assert_eq!(
        Type::new_function(String::from("f"), vec![(String::from("a"), Type::new_field())], Type::new_field())
            .size(),
        0
    );
}

#[test]
fn named_types_are_the_same_by_their_names() {
    assert!(Type::new_unit() == Type::new_unit());
    assert!(Type::new_unit() != Type::new_boolean());
    assert!(Type::new_integer_unsigned(8) == Type::new_integer_unsigned(8));
    assert!(Type::new_integer_unsigned(8) != Type::new_integer_unsigned(16));
    assert!(Type::new_integer_unsigned(8) != Type::new_integer_signed(8));
    assert!(Type::new_array(Type::new_field(), 2) == Type::new_array(Type::new_field(), 2));
    assert!(Type::new_array(Type::new_field(), 2) != Type::new_array(Type::new_field(), 3));
    assert!(Type::new_array(Type::new_field(), 2) != Type::new_array(Type::new_boolean(), 2));
    assert!(
        Type::new_tuple(vec![Type::new_field(), Type::new_boolean()])
            == Type::new_tuple(vec![Type::new_field(), Type::new_boolean()])
    );
    assert!(
        Type::new_tuple(vec![Type::new_field(), Type::new_boolean()])
            != Type::new_tuple(vec![Type::new_boolean(), Type::new_field()])
    );
    assert!(Type::new_tuple(vec![Type::new_field()]) != Type::new_tuple(vec![]));
    assert!(structure() == Type::new_structure(String::from("Point"), vec![]));
    assert!(structure() != Type::new_structure(String::from("Line"), vec![]));
    assert!(structure() != enumeration("Point", &[1]));
    assert!(enumeration("Color", &[1]) == enumeration("Color", &[1000]));
    assert!(enumeration("Color", &[1]) != enumeration("Colour", &[1]));
    assert!(
        Type::new_function(String::from("f"), vec![], Type::new_unit())
            == Type::new_function(String::from("f"), vec![], Type::new_field())
    );
    assert!(Type::new_string() == Type::new_string());
    assert!(Type::new_string().is_same_as(&Type::new_string()));
    assert!(!Type::new_string().is_same_as(&Type::new_field()));
}
