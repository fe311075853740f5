use rustlerpdf::config::{FieldType, OperationConfig, PdfWriterOperation};
use rustlerpdf::fonts::FontEncodings;
use rustlerpdf::generate::generate_pdf_operations;
use rustlerpdf::instruction::{Instruction, Operand};
use rustlerpdf::number::{Number, Real};
use rustlerpdf::scan::{operand_numbers, place, scan_content, ScanError, ScanState};
use rustlerpdf::text::collect_text;

fn coordinate(value: f64) -> Number {
    Number::Real(Real::from_bits(value.to_bits()))
}

fn number(value: f64) -> Operand {
    Operand::Real(Real::from_bits(value.to_bits()))
}

fn instruction(operator: &str, operands: Vec<Operand>) -> Instruction {
    Instruction { operator: operator.to_string(), operands }
}

fn rectangle(x: f64, y: f64) -> Instruction {
    instruction("re", vec![number(x), number(y), Operand::Integer(50), Operand::Integer(12)])
}

fn select_font(name: &str) -> Instruction {
    instruction("Tf", vec![Operand::Name(name.as_bytes().to_vec()), Operand::Integer(10)])
}

fn show(text: &str) -> Instruction {
    instruction("TJ", vec![Operand::Array(vec![Operand::Text(text.as_bytes().to_vec())])])
}

fn rule(predicate: &str, static_value: Option<&str>) -> OperationConfig {
    OperationConfig {
        page_number: 0,
        font: ("F1".to_string(), 10),
        predicate: predicate.to_string(),
        static_value: static_value.map(|v| v.to_string()),
        field_type: FieldType::Money,
    }
}

fn placed(value: &str, x: f64, y: f64) -> PdfWriterOperation {
    PdfWriterOperation {
        page_number: 0,
        font: ("F1".to_string(), 10),
        dimensions: (coordinate(x), coordinate(y)),
        value: Some(value.to_string()),
        field_type: FieldType::Money,
        field_type_next: None,
    }
}

fn scan(content: Vec<Instruction>, rules: Vec<OperationConfig>) -> Result<Vec<PdfWriterOperation>, ScanError> {
    scan_content(&content, &FontEncodings::new(), &rules)
}

#[test]
fn marker_after_rectangle_is_placed_and_drawn() {
    let content = vec![rectangle(462.82, 55.92), select_font("F1"), show("11")];
    let found = scan(content, vec![rule("11", Some("127.00"))]).unwrap();
    assert_eq!(found, vec![placed("127.00", 462.82, 55.92)]);
    let drawn = generate_pdf_operations(&found[0]);
    let operators: Vec<&str> = drawn.iter().map(|i| i.operator.as_str()).collect();
    assert_eq!(operators, vec!["BT", "Tf", "Td", "Tj", "ET", "BT", "Tf", "Td", "Tj", "ET"]);
    assert_eq!(drawn[3].operands, vec![Operand::Text(b"127".to_vec())]);
    assert_eq!(drawn[8].operands, vec![Operand::Text(b"00".to_vec())]);
    assert_eq!(
        drawn[2].operands,
        vec![Operand::Shifted { base: coordinate(462.82), shift: 0 }, number(55.92)]
    );
    assert_eq!(
        drawn[7].operands,
        vec![Operand::Shifted { base: coordinate(462.82), shift: 30 }, number(55.92)]
    );
}

#[test]
fn last_of_several_rectangles_is_the_anchor() {
    let content = vec![
        rectangle(1.0, 2.0),
        rectangle(3.0, 4.0),
        rectangle(5.0, 6.0),
        show("11"),
    ];
    let found = scan(content, vec![rule("11", Some("7"))]).unwrap();
    assert_eq!(found, vec![placed("7", 5.0, 6.0)]);
}

#[test]
fn rectangles_alone_leave_only_the_last_pending() {
    let mut state = ScanState::new();
    let mut placements = Vec::new();
    let rules = vec![rule("11", None)];
    for r in [rectangle(1.0, 2.0), rectangle(3.0, 4.0)] {
        state.step(&r, &FontEncodings::new(), &rules, &mut placements).unwrap();
    }
    assert!(placements.is_empty());
    assert_eq!(state.pending_rectangle, Some(vec![coordinate(3.0), coordinate(4.0), Number::Integer(50), Number::Integer(12)]));
    assert_eq!(state.pending_text, None);
    assert_eq!(state.current_encoding, None);
}

#[test]
fn text_that_differs_from_the_predicate_is_no_marker() {
    for text in ["11 ", " 11", "1", "111", "12", "a", "A"] {
        let content = vec![rectangle(1.0, 2.0), show(text)];
        let rules = vec![rule("11", Some("x")), rule("a ", Some("y"))];
        assert_eq!(scan(content, rules).unwrap(), vec![]);
    }
    let content = vec![rectangle(1.0, 2.0), show("Total")];
    assert_eq!(scan(content, vec![rule("total", Some("x"))]).unwrap(), vec![]);
}

#[test]
fn two_rules_with_one_predicate_both_fire() {
    let content = vec![rectangle(10.5, 20.5), show("11")];
    let mut second = rule("11", Some("second"));
    second.font = ("F2".to_string(), 8);
    second.page_number = 3;
    second.field_type = FieldType::Slotted;
    let rules = vec![rule("11", Some("first")), rule("12", Some("other")), second];
    let found = scan(content, rules).unwrap();
    let mut expected_second = placed("second", 10.5, 20.5);
    expected_second.font = ("F2".to_string(), 8);
    expected_second.page_number = 3;
    expected_second.field_type = FieldType::Slotted;
    assert_eq!(found, vec![placed("first", 10.5, 20.5), expected_second]);
}

#[test]
fn rectangle_is_used_for_every_marker_until_the_next() {
    let content = vec![
        rectangle(10.5, 20.5),
        show("11"),
        instruction("Tm", vec![]),
        show("12"),
        rectangle(30.5, 40.5),
        show("11"),
    ];
    let rules = vec![rule("11", Some("a")), rule("12", Some("b"))];
    let found = scan(content, rules).unwrap();
    assert_eq!(
        found,
        vec![placed("a", 10.5, 20.5), placed("b", 10.5, 20.5), placed("a", 30.5, 40.5)]
    );
}

#[test]
fn page_without_rectangle_yields_nothing() {
    let content = vec![select_font("F1"), show("11"), show("12"), instruction("ET", vec![])];
    let rules = vec![rule("11", Some("a")), rule("12", Some("b"))];
    assert_eq!(scan(content, rules).unwrap(), vec![]);
    assert_eq!(scan(vec![], vec![rule("11", None)]).unwrap(), vec![]);
}

#[test]
fn no_rules_yield_nothing() {
    let content = vec![rectangle(1.0, 2.0), show("11")];
    assert_eq!(scan(content, vec![]).unwrap(), vec![]);
}

#[test]
fn rule_without_value_places_the_placeholder() {
    let content = vec![rectangle(1.5, 2.5), show("23")];
    let found = scan(content, vec![rule("23", None)]).unwrap();
    assert_eq!(found, vec![placed("Placeholder", 1.5, 2.5)]);
}

#[test]
fn text_shown_before_the_first_rectangle_waits_for_it() {
    let content = vec![show("11"), instruction("Tc", vec![]), rectangle(7.5, 8.5), show("12")];
    let rules = vec![rule("11", Some("a")), rule("12", Some("b"))];
    let found = scan(content, rules).unwrap();
    assert_eq!(found, vec![placed("a", 7.5, 8.5), placed("b", 7.5, 8.5)]);
}

#[test]
fn text_is_held_against_the_rules_only_once() {
    let content = vec![rectangle(1.5, 2.5), show("zz"), rectangle(3.5, 4.5), instruction("EMC", vec![])];
    assert_eq!(scan(content, vec![rule("zz", Some("v"))]).unwrap(), vec![placed("v", 1.5, 2.5)]);
}

#[test]
fn empty_text_leaves_the_pending_text() {
    let mut state = ScanState::new();
    state.show_text("11".to_string());
    state.show_text(String::new());
    assert_eq!(state.pending_text, Some("11".to_string()));
    let content = vec![show("11"), instruction("TJ", vec![]), rectangle(1.5, 2.5)];
    assert_eq!(scan(content, vec![rule("11", Some("v"))]).unwrap(), vec![placed("v", 1.5, 2.5)]);
}

#[test]
fn only_the_array_form_of_show_text_is_read() {
    let content = vec![rectangle(1.5, 2.5), instruction("Tj", vec![Operand::Text(b"11".to_vec())])];
    assert_eq!(scan(content, vec![rule("11", Some("v"))]).unwrap(), vec![]);
}

#[test]
fn strings_and_nested_arrays_are_joined_in_order() {
    let operands = vec![
        Operand::Text(b"a".to_vec()),
        Operand::Integer(-120),
        Operand::Array(vec![
            Operand::Text(b"b".to_vec()),
            Operand::Array(vec![Operand::Text(b"c".to_vec()), Operand::Other]),
            Operand::Name(b"n".to_vec()),
            Operand::Text(b"d".to_vec()),
        ]),
        number(3.5),
        Operand::Text(b"e".to_vec()),
    ];
    let mut text = String::from(">");
    collect_text(&mut text, None, &operands);
    assert_eq!(text, ">abcde");
    let content = vec![rectangle(1.5, 2.5), instruction("TJ", operands)];
    assert_eq!(scan(content, vec![rule("abcde", Some("v"))]).unwrap(), vec![placed("v", 1.5, 2.5)]);
}

#[test]
fn text_is_decoded_under_the_standard_encoding_by_default() {
    let mut text = String::new();
    collect_text(&mut text, None, &vec![Operand::Text(vec![b'1', 0x27, 0x80, b'2'])]);
    assert_eq!(text, "1\u{2019}2");
}

#[test]
fn text_is_decoded_under_the_selected_encoding() {
    let mut text = String::new();
    collect_text(&mut text, Some("WinAnsiEncoding"), &vec![Operand::Text(vec![b'1', 0x27, 0x80, b'2'])]);
    assert_eq!(text, "1'\u{20ac}2");
    let mut other = String::new();
    collect_text(&mut other, Some("Identity-H"), &vec![Operand::Text(vec![b'1'])]);
    assert_eq!(other, "?Identity-H Unimplemented?");
    let mut lossy = String::new();
    collect_text(&mut lossy, Some("Custom"), &vec![Operand::Text(vec![b'a', 0xff])]);
    assert_eq!(lossy, "a\u{fffd}");
}

#[test]
fn selected_font_decides_the_encoding() {
    let mut encodings = FontEncodings::new();
    encodings.insert(b"F1".to_vec(), "WinAnsiEncoding".to_string());
    let euro = instruction("TJ", vec![Operand::Text(vec![0x80])]);
    let rules = vec![rule("\u{20ac}", Some("v"))];
    let with_font = vec![rectangle(1.5, 2.5), select_font("F1"), euro.clone()];
    assert_eq!(scan_content(&with_font, &encodings, &rules).unwrap(), vec![placed("v", 1.5, 2.5)]);
    let without_font = vec![rectangle(1.5, 2.5), euro.clone()];
    assert_eq!(scan_content(&without_font, &encodings, &rules).unwrap(), vec![]);
    let unknown_font = vec![rectangle(1.5, 2.5), select_font("F1"), select_font("F9"), euro];
    assert_eq!(scan_content(&unknown_font, &encodings, &rules).unwrap(), vec![]);
}

#[test]
fn font_selection_sets_and_clears_the_encoding() {
    let mut encodings = FontEncodings::new();
    encodings.insert(b"F1".to_vec(), "WinAnsiEncoding".to_string());
    let mut state = ScanState::new();
    assert_eq!(state.encoding(), None);
    state.apply(&select_font("F1"), &encodings).unwrap();
    assert_eq!(state.encoding(), Some("WinAnsiEncoding"));
    assert_eq!(state.current_encoding, Some("WinAnsiEncoding".to_string()));
    state.apply(&select_font("F2"), &encodings).unwrap();
    assert_eq!(state.encoding(), None);
}

#[test]
fn font_selection_without_operand_is_an_error() {
    let content = vec![rectangle(1.5, 2.5), instruction("Tf", vec![]), show("11")];
    assert_eq!(scan(content, vec![rule("11", None)]), Err(ScanError::MissingFontOperand));
}

#[test]
fn font_selection_without_name_is_an_error() {
    let content = vec![instruction("Tf", vec![Operand::Integer(10), Operand::Name(b"F1".to_vec())])];
    assert_eq!(scan(content, vec![]), Err(ScanError::FontOperandNotName));
    let mut state = ScanState::new();
    state.show_text("t".to_string());
    let failed = state.apply(&instruction("Tf", vec![Operand::Text(b"F1".to_vec())]), &FontEncodings::new());
    assert_eq!(failed, Err(ScanError::FontOperandNotName));
    assert_eq!(state.pending_text, Some("t".to_string()));
}

#[test]
fn match_on_a_short_rectangle_is_an_error() {
    let short = instruction("re", vec![number(1.5), Operand::Name(b"x".to_vec()), Operand::Other]);
    let content = vec![short.clone(), show("11")];
    assert_eq!(scan(content, vec![rule("11", None)]), Err(ScanError::MalformedRectangle));
    let empty = instruction("re", vec![]);
    assert_eq!(
        scan(vec![empty, show("11")], vec![rule("10", None), rule("11", None)]),
        Err(ScanError::MalformedRectangle)
    );
    let unmatched = vec![short, show("12"), rectangle(3.5, 4.5), show("11")];
    assert_eq!(scan(unmatched, vec![rule("11", Some("v"))]).unwrap(), vec![placed("v", 3.5, 4.5)]);
}

#[test]
fn failed_check_changes_nothing() {
    let mut state = ScanState::new();
    state.pending_rectangle = Some(vec![coordinate(1.5)]);
    state.pending_text = Some("11".to_string());
    let mut placements = vec![placed("kept", 0.5, 0.5)];
    let done = state.settle(&vec![rule("11", None)], &mut placements);
    assert_eq!(done, Err(ScanError::MalformedRectangle));
    assert_eq!(placements, vec![placed("kept", 0.5, 0.5)]);
    assert_eq!(state.pending_text, Some("11".to_string()));
    assert_eq!(state.pending_rectangle, Some(vec![coordinate(1.5)]));
}

#[test]
fn check_clears_the_text_and_keeps_the_rectangle() {
    let mut state = ScanState::new();
    state.pending_rectangle = Some(vec![coordinate(1.5), Number::Integer(2), coordinate(9.5)]);
    state.pending_text = Some("11".to_string());
    let mut placements = Vec::new();
    state.settle(&vec![rule("12", None), rule("11", Some("v"))], &mut placements).unwrap();
    let mut expected = placed("v", 1.5, 0.0);
    expected.dimensions = (coordinate(1.5), Number::Integer(2));
    assert_eq!(placements, vec![expected]);
    assert_eq!(state.pending_text, None);
    assert_eq!(state.pending_rectangle, Some(vec![coordinate(1.5), Number::Integer(2), coordinate(9.5)]));
    state.settle(&vec![rule("11", Some("v"))], &mut placements).unwrap();
    assert_eq!(placements.len(), 1);
}

#[test]
fn check_without_rectangle_keeps_the_text() {
    let mut state = ScanState::new();
    state.pending_text = Some("11".to_string());
    let mut placements = Vec::new();
    state.settle(&vec![rule("11", Some("v"))], &mut placements).unwrap();
    assert!(placements.is_empty());
    assert_eq!(state.pending_text, Some("11".to_string()));
}

#[test]
fn integers_and_reals_are_the_numbers_of_a_rectangle() {
    let operands = vec![
        Operand::Name(b"n".to_vec()),
        Operand::Integer(10),
        Operand::Text(b"t".to_vec()),
        number(20.25),
        Operand::Shifted { base: Number::Integer(1), shift: 2 },
        Operand::Array(vec![Operand::Integer(3)]),
        Operand::Other,
        Operand::Integer(-4),
    ];
    assert_eq!(
        operand_numbers(&operands),
        vec![Number::Integer(10), coordinate(20.25), Number::Integer(-4)]
    );
    let content = vec![instruction("re", operands), show("11")];
    let found = scan(content, vec![rule("11", Some("v"))]).unwrap();
    assert_eq!(found[0].dimensions, (Number::Integer(10), coordinate(20.25)));
}

#[test]
fn place_copies_the_rule() {
    let mut from = rule("11", Some("127.00"));
    from.page_number = 2;
    from.font = ("F7".to_string(), 14);
    from.field_type = FieldType::Text;
    let made = place(&from, Number::Integer(1), coordinate(2.5));
    assert_eq!(
        made,
        PdfWriterOperation {
            page_number: 2,
            font: ("F7".to_string(), 14),
            dimensions: (Number::Integer(1), coordinate(2.5)),
            value: Some("127.00".to_string()),
            field_type: FieldType::Text,
            field_type_next: None,
        }
    );
}

#[test]
fn other_instructions_change_nothing() {
    let mut state = ScanState::new();
    state.pending_rectangle = Some(vec![coordinate(1.5), coordinate(2.5)]);
    state.current_encoding = Some("WinAnsiEncoding".to_string());
    for operator in ["BDC", "Tm", "Tc", "EMC", "Tj", "RE", "tf", "q", ""] {
        let inert = instruction(operator, vec![Operand::Text(b"11".to_vec()), number(9.5)]);
        state.apply(&inert, &FontEncodings::new()).unwrap();
        assert_eq!(state.pending_rectangle, Some(vec![coordinate(1.5), coordinate(2.5)]));
        assert_eq!(state.pending_text, None);
        assert_eq!(state.current_encoding, Some("WinAnsiEncoding".to_string()));
    }
}
