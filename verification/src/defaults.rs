//! The configuration and the rules that are used where none are supplied.

use crate::config::{
    config_views, FieldType, FieldTypeNext, FieldTypeNextView, OperationConfig,
    OperationConfigView, PdfWriterConfiguration, PdfWriterConfigurationView, PdfWriterOperation,
    PdfWriterOperationView,
};
use crate::number::{Number, Real};
use vstd::prelude::*;
use vstd::string::*;

verus! {

/// The page that the modify flow scans and overlays.
pub const MODIFIED_PAGE: u32 = 0;

/// The bits of the real 462.82.
pub const X_FIRST: u64 = 0x407c_ed1e_b851_eb85;

/// The bits of the real 55.92.
pub const Y_FIRST: u64 = 0x404b_f5c2_8f5c_28f6;

/// The bits of the real 43.32.
pub const X_SECOND: u64 = 0x4045_a8f5_c28f_5c29;

/// The bits of the real 347.81.
pub const Y_SECOND: u64 = 0x4075_bcf5_c28f_5c29;

/// The default configuration: no input, one output path and two money
/// values in the font `F1` at size 10 on the first page.
pub open spec fn default_configuration() -> PdfWriterConfigurationView {
    PdfWriterConfigurationView {
        input_file_path: None,
        output_file_path: "PIT-8C-modified.pdf"@,
        operations: seq![
            PdfWriterOperationView {
                page_number: 0,
                font: ("F1"@, 10),
                dimensions: (
                    Number::Real(Real { bits: X_FIRST }),
                    Number::Real(Real { bits: Y_FIRST }),
                ),
                value: Some("120.99"@),
                field_type: FieldType::Money,
                field_type_next: Some(FieldTypeNextView::Money("180.99"@)),
            },
            PdfWriterOperationView {
                page_number: 0,
                font: ("F1"@, 10),
                dimensions: (
                    Number::Real(Real { bits: X_SECOND }),
                    Number::Real(Real { bits: Y_SECOND }),
                ),
                value: Some("41.0"@),
                field_type: FieldType::Money,
                field_type_next: None,
            },
        ],
    }
}

/// The money rule for the marker `predicate` in the font `F1` at size 10
/// on the first page.
pub open spec fn money_rule(
    predicate: Seq<char>,
    static_value: Option<Seq<char>>,
) -> OperationConfigView {
    OperationConfigView {
        page_number: 0,
        font: ("F1"@, 10),
        predicate,
        static_value,
        field_type: FieldType::Money,
    }
}

/// The default rules: the markers `11` and `12` with a fixed value each,
/// and the marker `23` without one.
pub open spec fn default_rules() -> Seq<OperationConfigView> {
    seq![
        money_rule("11"@, Some("127.00"@)),
        money_rule("12"@, Some("128.00"@)),
        money_rule("23"@, None),
    ]
}

/// The default configuration.
pub fn read_config() -> (config: PdfWriterConfiguration)
    ensures
        config@ == default_configuration(),
{
    let first = PdfWriterOperation {
        page_number: 0,
        font: ("F1".to_owned(), 10),
        dimensions: (Number::Real(Real { bits: X_FIRST }), Number::Real(Real { bits: Y_FIRST })),
        value: Some("120.99".to_owned()),
        field_type: FieldType::Money,
        field_type_next: Some(FieldTypeNext::Money("180.99".to_owned())),
    };
    let second = PdfWriterOperation {
        page_number: 0,
        font: ("F1".to_owned(), 10),
        dimensions: (Number::Real(Real { bits: X_SECOND }), Number::Real(Real { bits: Y_SECOND })),
        value: Some("41.0".to_owned()),
        field_type: FieldType::Money,
        field_type_next: None,
    };
    let mut operations: Vec<PdfWriterOperation> = Vec::new();
    operations.push(first);
    operations.push(second);
    let config = PdfWriterConfiguration {
        input_file_path: None,
        output_file_path: "PIT-8C-modified.pdf".to_owned(),
        operations,
    };
    assert(config@.operations =~= default_configuration().operations);
    assert(config@ =~= default_configuration());
    config
}

/// A money rule in the font `F1` at size 10 on the first page.
fn money(predicate: &str, static_value: Option<&str>) -> (rule: OperationConfig)
    ensures
        rule@ == money_rule(
            predicate@,
            match static_value {
                Some(value) => Some(value@),
                None => None,
            },
        ),
{
    OperationConfig {
        page_number: 0,
        font: ("F1".to_owned(), 10),
        predicate: predicate.to_owned(),
        static_value: match static_value {
            Some(value) => Some(value.to_owned()),
            None => None,
        },
        field_type: FieldType::Money,
    }
}

/// The default rules.
pub fn operation_configs() -> (rules: Vec<OperationConfig>)
    ensures
        config_views(rules@) == default_rules(),
{
    let mut rules: Vec<OperationConfig> = Vec::new();
    rules.push(money("11", Some("127.00")));
    rules.push(money("12", Some("128.00")));
    rules.push(money("23", None));
    assert(config_views(rules@) =~= default_rules());
    rules
}

} // verus!
