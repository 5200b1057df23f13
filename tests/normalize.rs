use nu_plugin_makeplot::input::{
    normalize_input, Axis, Element, FieldValue, Input, InputError, RecordField, Sample,
};

fn record(fields: &[(&str, FieldValue)]) -> Element {
    Element::Record(
        fields
            .iter()
            .map(|(name, value)| RecordField { name: name.to_string(), value: *value })
            .collect(),
    )
}

fn xy(x: i64, y: i64) -> Element {
    record(&[("x", FieldValue::Int(x)), ("y", FieldValue::Int(y))])
}

fn sample(x: i128, y: i128) -> Sample {
    Sample { x: x * 1_000_000, y: y * 1_000_000 }
}

#[test]
fn bare_numbers_take_their_position_as_x() {
    let input = Input::List([0, 1, 4, 9, 16].iter().map(|n| Element::Int(*n)).collect());
    let expected = vec![sample(0, 0), sample(1, 1), sample(2, 4), sample(3, 9), sample(4, 16)];
    assert_eq!(normalize_input(&input), Ok(expected));
}

#[test]
fn fractional_numbers_keep_their_millionths() {
    let input = Input::List(vec![Element::Float(1_500_000), Element::Int(-2), Element::Float(-250_000)]);
    let expected = vec![
        Sample { x: 0, y: 1_500_000 },
        Sample { x: 1_000_000, y: -2_000_000 },
        Sample { x: 2_000_000, y: -250_000 },
    ];
    assert_eq!(normalize_input(&input), Ok(expected));
}

#[test]
fn records_keep_their_fields_and_order() {
    let input = Input::List(vec![
        xy(5, 1),
        xy(0, 0),
        record(&[("y", FieldValue::Float(500_000)), ("x", FieldValue::Int(2))]),
    ]);
    let expected = vec![sample(5, 1), sample(0, 0), Sample { x: 2_000_000, y: 500_000 }];
    assert_eq!(normalize_input(&input), Ok(expected));
}

#[test]
fn extra_fields_are_ignored_and_the_first_of_a_name_wins() {
    let input = Input::List(vec![record(&[
        ("label", FieldValue::Other),
        ("x", FieldValue::Int(3)),
        ("y", FieldValue::Int(4)),
        ("x", FieldValue::Int(7)),
    ])]);
    assert_eq!(normalize_input(&input), Ok(vec![sample(3, 4)]));
}

#[test]
fn number_then_record_is_mixed() {
    let input = Input::List(vec![Element::Int(1), xy(0, 0)]);
    assert_eq!(normalize_input(&input), Err(InputError::MixedInputShapes));
}

#[test]
fn record_then_number_is_mixed() {
    let input = Input::List(vec![xy(0, 0), xy(1, 1), Element::Float(3)]);
    assert_eq!(normalize_input(&input), Err(InputError::MixedInputShapes));
}

#[test]
fn record_missing_x_names_its_index() {
    let input = Input::List(vec![xy(0, 0), record(&[("y", FieldValue::Int(1))])]);
    assert_eq!(normalize_input(&input), Err(InputError::MissingField(Axis::X, 1)));
}

#[test]
fn record_missing_y_names_its_index() {
    let input = Input::List(vec![xy(0, 0), xy(1, 1), record(&[("x", FieldValue::Int(2))])]);
    assert_eq!(normalize_input(&input), Err(InputError::MissingField(Axis::Y, 2)));
}

#[test]
fn non_numeric_field_is_wrong_type() {
    let input = Input::List(vec![record(&[("x", FieldValue::Int(0)), ("y", FieldValue::Other)])]);
    assert_eq!(normalize_input(&input), Err(InputError::WrongType(0)));
}

#[test]
fn other_element_is_unsupported() {
    let input = Input::List(vec![Element::Int(0), Element::Other]);
    assert_eq!(normalize_input(&input), Err(InputError::UnsupportedElementType(1)));
}

#[test]
fn non_list_input_is_unsupported() {
    assert_eq!(normalize_input(&Input::Other), Err(InputError::UnsupportedTopLevelShape));
}

#[test]
fn empty_list_is_rejected() {
    assert_eq!(normalize_input(&Input::List(vec![])), Err(InputError::EmptyInput));
}

#[test]
fn first_failure_wins() {
    let input = Input::List(vec![xy(0, 0), record(&[("x", FieldValue::Other)]), Element::Int(1)]);
    assert_eq!(normalize_input(&input), Err(InputError::WrongType(1)));
}

#[test]
fn extreme_integers_are_scaled_exactly() {
    let input = Input::List(vec![Element::Int(i64::MAX), Element::Int(i64::MIN)]);
    let expected = vec![
        Sample { x: 0, y: i64::MAX as i128 * 1_000_000 },
        Sample { x: 1_000_000, y: i64::MIN as i128 * 1_000_000 },
    ];
    assert_eq!(normalize_input(&input), Ok(expected));
}
