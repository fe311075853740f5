use rustlerpdf::config::{FieldType, FieldTypeNext, PdfWriterOperation};
use rustlerpdf::generate::{
    draw_text, generate_pdf_operations, operand_of, split_decimal, CALIBRATED_LENGTH,
    DECIMAL_POINT, FRACTION_SHIFT, PITCH,
};
use rustlerpdf::instruction::{Instruction, Operand};
use rustlerpdf::number::{Number, Real};

fn coordinate(value: f64) -> Number {
    Number::Real(Real::from_bits(value.to_bits()))
}

fn placement(value: &str, x: f64, y: f64) -> PdfWriterOperation {
    PdfWriterOperation {
        page_number: 0,
        font: ("F1".to_string(), 10),
        dimensions: (coordinate(x), coordinate(y)),
        value: Some(value.to_string()),
        field_type: FieldType::Money,
        field_type_next: None,
    }
}

/// The real that a shifted operand stands for.
fn resolved(operand: &Operand) -> f64 {
    match operand {
        Operand::Shifted { base: Number::Real(base), shift } => {
            f64::from_bits(base.bits) - ((-*shift) as f64)
        }
        Operand::Shifted { base: Number::Integer(base), shift } => {
            (*base as f64) - ((-*shift) as f64)
        }
        other => panic!("not a shifted operand: {:?}", other),
    }
}

fn instruction(operator: &str, operands: Vec<Operand>) -> Instruction {
    Instruction { operator: operator.to_string(), operands }
}

#[test]
fn split_at_first_point() {
    let (whole, fraction) = split_decimal(b"127.00");
    assert_eq!(whole, b"127".to_vec());
    assert_eq!(fraction, Some(b"00".to_vec()));
}

#[test]
fn split_without_point_has_no_fraction() {
    let (whole, fraction) = split_decimal(b"41");
    assert_eq!(whole, b"41".to_vec());
    assert_eq!(fraction, None);
}

#[test]
fn split_keeps_everything_after_first_point() {
    let (whole, fraction) = split_decimal(b"1.2.3");
    assert_eq!(whole, b"1".to_vec());
    assert_eq!(fraction, Some(b"2.3".to_vec()));
}

#[test]
fn split_of_trailing_point_has_empty_fraction() {
    let (whole, fraction) = split_decimal(b"12.");
    assert_eq!(whole, b"12".to_vec());
    assert_eq!(fraction, Some(Vec::new()));
}

#[test]
fn split_of_leading_point_has_empty_whole() {
    let (whole, fraction) = split_decimal(b".5");
    assert_eq!(whole, Vec::<u8>::new());
    assert_eq!(fraction, Some(b"5".to_vec()));
}

#[test]
fn split_of_empty_value() {
    let (whole, fraction) = split_decimal(b"");
    assert_eq!(whole, Vec::<u8>::new());
    assert_eq!(fraction, None);
}

#[test]
fn split_rejoins_to_the_value() {
    for value in [&b"127.00"[..], b"0.5", b"9.", b".", b"a.b.c", b"12345.678"] {
        let (whole, fraction) = split_decimal(value);
        assert!(!whole.contains(&DECIMAL_POINT));
        let mut joined = whole.clone();
        joined.push(DECIMAL_POINT);
        joined.extend_from_slice(&fraction.unwrap());
        assert_eq!(joined, value.to_vec());
    }
}

#[test]
fn layout_constants() {
    assert_eq!(DECIMAL_POINT, b'.');
    assert_eq!(CALIBRATED_LENGTH, 3);
    assert_eq!(PITCH, 5);
    assert_eq!(FRACTION_SHIFT, 30);
}

#[test]
fn operand_of_keeps_the_kind_of_number() {
    assert_eq!(operand_of(Number::Integer(7)), Operand::Integer(7));
    assert_eq!(operand_of(coordinate(1.5)), Operand::Real(Real::from_bits(1.5f64.to_bits())));
}

#[test]
fn draw_text_appends_one_text_object() {
    let mut drawn = vec![instruction("q", vec![])];
    draw_text(&mut drawn, &("F2".to_string(), 12), Number::Integer(100), coordinate(20.5), -10, b"abc".to_vec());
    assert_eq!(
        drawn,
        vec![
            instruction("q", vec![]),
            instruction("BT", vec![]),
            instruction("Tf", vec![Operand::Name(b"F2".to_vec()), Operand::Integer(12)]),
            instruction(
                "Td",
                vec![
                    Operand::Shifted { base: Number::Integer(100), shift: -10 },
                    Operand::Real(Real::from_bits(20.5f64.to_bits())),
                ],
            ),
            instruction("Tj", vec![Operand::Text(b"abc".to_vec())]),
            instruction("ET", vec![]),
        ]
    );
}

#[test]
fn decimal_value_is_drawn_in_two_parts() {
    let drawn = generate_pdf_operations(&placement("127.00", 462.82, 55.92));
    let x = coordinate(462.82);
    let y = Operand::Real(Real::from_bits(55.92f64.to_bits()));
    assert_eq!(
        drawn,
        vec![
            instruction("BT", vec![]),
            instruction("Tf", vec![Operand::Name(b"F1".to_vec()), Operand::Integer(10)]),
            instruction("Td", vec![Operand::Shifted { base: x, shift: 0 }, y.clone()]),
            instruction("Tj", vec![Operand::Text(b"127".to_vec())]),
            instruction("ET", vec![]),
            instruction("BT", vec![]),
            instruction("Tf", vec![Operand::Name(b"F1".to_vec()), Operand::Integer(10)]),
            instruction("Td", vec![Operand::Shifted { base: x, shift: 30 }, y]),
            instruction("Tj", vec![Operand::Text(b"00".to_vec())]),
            instruction("ET", vec![]),
        ]
    );
    assert_eq!(resolved(&drawn[2].operands[0]), 462.82);
    assert_eq!(resolved(&drawn[7].operands[0]), 462.82 + 30.0);
    assert!((resolved(&drawn[7].operands[0]) - 492.82).abs() < 1e-9);
}

#[test]
fn value_without_fraction_gets_two_zeros() {
    let drawn = generate_pdf_operations(&placement("41", 43.32, 347.81));
    assert_eq!(drawn.len(), 10);
    assert_eq!(drawn[3], instruction("Tj", vec![Operand::Text(b"41".to_vec())]));
    assert_eq!(drawn[8], instruction("Tj", vec![Operand::Text(b"00".to_vec())]));
    assert_eq!(drawn[2].operands[0], Operand::Shifted { base: coordinate(43.32), shift: 5 });
    assert_eq!(drawn[7].operands[0], Operand::Shifted { base: coordinate(43.32), shift: 30 });
    assert_eq!(resolved(&drawn[2].operands[0]), 43.32 - (2.0 - 3.0) * 5.0);
    assert!((resolved(&drawn[2].operands[0]) - 48.32).abs() < 1e-9);
    assert_eq!(resolved(&drawn[7].operands[0]), 43.32 + 30.0);
    assert!((resolved(&drawn[7].operands[0]) - 73.32).abs() < 1e-9);
    let y = Operand::Real(Real::from_bits(347.81f64.to_bits()));
    assert_eq!(drawn[2].operands[1], y);
    assert_eq!(drawn[7].operands[1], y);
}

#[test]
fn longer_whole_parts_start_further_left() {
    for (value, shift) in [("", 15), ("1", 10), ("12", 5), ("123", 0), ("1234", -5), ("1234567", -20)] {
        let drawn = generate_pdf_operations(&placement(value, 100.0, 200.0));
        assert_eq!(drawn[2].operands[0], Operand::Shifted { base: coordinate(100.0), shift });
        assert_eq!(drawn[7].operands[0], Operand::Shifted { base: coordinate(100.0), shift: 30 });
    }
}

#[test]
fn whole_length_counts_bytes() {
    let drawn = generate_pdf_operations(&placement("zł.5", 0.0, 0.0));
    assert_eq!(drawn[3].operands[0], Operand::Text("zł".as_bytes().to_vec()));
    assert_eq!(drawn[2].operands[0], Operand::Shifted { base: coordinate(0.0), shift: 0 });
    assert_eq!(drawn[8].operands[0], Operand::Text(b"5".to_vec()));
}

#[test]
fn trailing_point_draws_an_empty_fraction() {
    let drawn = generate_pdf_operations(&placement("12.", 10.0, 10.0));
    assert_eq!(drawn[3].operands[0], Operand::Text(b"12".to_vec()));
    assert_eq!(drawn[8].operands[0], Operand::Text(Vec::new()));
}

#[test]
fn integer_anchor_is_written_as_it_is() {
    let operation = PdfWriterOperation {
        page_number: 0,
        font: ("F3".to_string(), 8),
        dimensions: (Number::Integer(10), Number::Integer(20)),
        value: Some("5.25".to_string()),
        field_type: FieldType::Text,
        field_type_next: None,
    };
    let drawn = generate_pdf_operations(&operation);
    assert_eq!(
        drawn[2],
        instruction(
            "Td",
            vec![Operand::Shifted { base: Number::Integer(10), shift: 10 }, Operand::Integer(20)],
        )
    );
    assert_eq!(
        drawn[1],
        instruction("Tf", vec![Operand::Name(b"F3".to_vec()), Operand::Integer(8)])
    );
}

#[test]
fn generator_repeats_itself() {
    let operation = placement("127.00", 462.82, 55.92);
    assert_eq!(generate_pdf_operations(&operation), generate_pdf_operations(&operation));
    assert_eq!(generate_pdf_operations(&operation), generate_pdf_operations(&operation.clone()));
}

#[test]
fn kind_of_value_does_not_change_the_drawing() {
    let mut money = placement("12.5", 1.0, 2.0);
    money.field_type = FieldType::Money;
    let mut text = placement("12.5", 1.0, 2.0);
    text.field_type = FieldType::Text;
    let mut slotted = placement("12.5", 1.0, 2.0);
    slotted.field_type = FieldType::Slotted;
    slotted.field_type_next = Some(FieldTypeNext::Slotted("9".to_string()));
    slotted.page_number = 4;
    let drawn = generate_pdf_operations(&money);
    assert_eq!(drawn, generate_pdf_operations(&text));
    assert_eq!(drawn, generate_pdf_operations(&slotted));
}
