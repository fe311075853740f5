//! Rules, placements and the configuration that carries them.

use crate::number::Number;
use vstd::prelude::*;

verus! {

/// The kind of value that a field holds.
#[derive(Clone, Copy, Debug, PartialEq, Eq, Structural)]
pub enum FieldType {
    Money,
    Text,
    Slotted,
}

/// A value together with its kind.
#[derive(Debug, PartialEq, Eq)]
pub enum FieldTypeNext {
    Money(String),
    Text(String),
    Slotted(String),
}

/// A placement: a value to draw, and where and in which font to draw it.
#[derive(Debug, PartialEq)]
pub struct PdfWriterOperation {
    pub page_number: i32,
    /// The font's resource name and its size.
    pub font: (String, i32),
    /// The anchor: the corner from which the value is laid out.
    pub dimensions: (Number, Number),
    pub value: Option<String>,
    pub field_type: FieldType,
    pub field_type_next: Option<FieldTypeNext>,
}

/// A rule: where the text `predicate` follows a rectangle, a value is placed
/// at the rectangle's origin.
#[derive(Debug, PartialEq)]
pub struct OperationConfig {
    pub page_number: i32,
    /// The font's resource name and its size.
    pub font: (String, i32),
    /// The marker text, matched character for character.
    pub predicate: String,
    /// The value to place; a rule without one places `"Placeholder"`.
    pub static_value: Option<String>,
    pub field_type: FieldType,
}

/// What to overlay, from which document, and where to write the outcome.
#[derive(Debug, PartialEq)]
pub struct PdfWriterConfiguration {
    pub input_file_path: Option<String>,
    pub output_file_path: String,
    pub operations: Vec<PdfWriterOperation>,
}

/// What a [`FieldTypeNext`] is, with its string as characters.
#[verifier::ext_equal]
pub enum FieldTypeNextView {
    Money(Seq<char>),
    Text(Seq<char>),
    Slotted(Seq<char>),
}

/// What a [`PdfWriterOperation`] is, with its strings as characters.
#[verifier::ext_equal]
pub struct PdfWriterOperationView {
    pub page_number: i32,
    pub font: (Seq<char>, i32),
    pub dimensions: (Number, Number),
    pub value: Option<Seq<char>>,
    pub field_type: FieldType,
    pub field_type_next: Option<FieldTypeNextView>,
}

/// What an [`OperationConfig`] is, with its strings as characters.
#[verifier::ext_equal]
pub struct OperationConfigView {
    pub page_number: i32,
    pub font: (Seq<char>, i32),
    pub predicate: Seq<char>,
    pub static_value: Option<Seq<char>>,
    pub field_type: FieldType,
}

/// What a [`PdfWriterConfiguration`] is, with its strings as characters.
#[verifier::ext_equal]
pub struct PdfWriterConfigurationView {
    pub input_file_path: Option<Seq<char>>,
    pub output_file_path: Seq<char>,
    pub operations: Seq<PdfWriterOperationView>,
}

/// The characters of an optional string.
pub open spec fn optional_string_view(s: Option<String>) -> Option<Seq<char>> {
    match s {
        Some(s) => Some(s@),
        None => None,
    }
}

impl View for FieldTypeNext {
    type V = FieldTypeNextView;

    open spec fn view(&self) -> FieldTypeNextView {
        match self {
            FieldTypeNext::Money(s) => FieldTypeNextView::Money(s@),
            FieldTypeNext::Text(s) => FieldTypeNextView::Text(s@),
            FieldTypeNext::Slotted(s) => FieldTypeNextView::Slotted(s@),
        }
    }
}

impl View for PdfWriterOperation {
    type V = PdfWriterOperationView;

    open spec fn view(&self) -> PdfWriterOperationView {
        PdfWriterOperationView {
            page_number: self.page_number,
            font: (self.font.0@, self.font.1),
            dimensions: self.dimensions,
            value: optional_string_view(self.value),
            field_type: self.field_type,
            field_type_next: match self.field_type_next {
                Some(next) => Some(next@),
                None => None,
            },
        }
    }
}

impl View for OperationConfig {
    type V = OperationConfigView;

    open spec fn view(&self) -> OperationConfigView {
        OperationConfigView {
            page_number: self.page_number,
            font: (self.font.0@, self.font.1),
            predicate: self.predicate@,
            static_value: optional_string_view(self.static_value),
            field_type: self.field_type,
        }
    }
}

impl View for PdfWriterConfiguration {
    type V = PdfWriterConfigurationView;

    open spec fn view(&self) -> PdfWriterConfigurationView {
        PdfWriterConfigurationView {
            input_file_path: optional_string_view(self.input_file_path),
            output_file_path: self.output_file_path@,
            operations: operation_views(self.operations@),
        }
    }
}

/// The views of a sequence of placements, in order.
pub open spec fn operation_views(operations: Seq<PdfWriterOperation>) -> Seq<
    PdfWriterOperationView,
> {
    Seq::new(operations.len(), |i: int| operations[i]@)
}

/// The views of a sequence of rules, in order.
pub open spec fn config_views(configs: Seq<OperationConfig>) -> Seq<OperationConfigView> {
    Seq::new(configs.len(), |i: int| configs[i]@)
}

/// A copy of an optional string, with the same characters.
pub fn clone_optional_string(s: &Option<String>) -> (res: Option<String>)
    ensures
        optional_string_view(res) == optional_string_view(*s),
{
    match s {
        Some(s) => Some(s.clone()),
        None => None,
    }
}

impl Clone for FieldTypeNext {
    /// A copy with the same view.
    fn clone(&self) -> (res: Self)
        ensures
            res@ == self@,
    {
        match self {
            FieldTypeNext::Money(s) => FieldTypeNext::Money(s.clone()),
            FieldTypeNext::Text(s) => FieldTypeNext::Text(s.clone()),
            FieldTypeNext::Slotted(s) => FieldTypeNext::Slotted(s.clone()),
        }
    }
}

impl Clone for PdfWriterOperation {
    /// A copy with the same view.
    fn clone(&self) -> (res: Self)
        ensures
            res@ == self@,
    {
        PdfWriterOperation {
            page_number: self.page_number,
            font: (self.font.0.clone(), self.font.1),
            dimensions: self.dimensions,
            value: clone_optional_string(&self.value),
            field_type: self.field_type,
            field_type_next: match &self.field_type_next {
                Some(next) => Some(next.clone()),
                None => None,
            },
        }
    }
}

impl Clone for OperationConfig {
    /// A copy with the same view.
    fn clone(&self) -> (res: Self)
        ensures
            res@ == self@,
    {
        OperationConfig {
            page_number: self.page_number,
            font: (self.font.0.clone(), self.font.1),
            predicate: self.predicate.clone(),
            static_value: clone_optional_string(&self.static_value),
            field_type: self.field_type,
        }
    }
}

impl Clone for PdfWriterConfiguration {
    /// A copy with the same view.
    fn clone(&self) -> (res: Self)
        ensures
            res@ == self@,
    {
        let mut operations: Vec<PdfWriterOperation> = Vec::new();
        let mut i: usize = 0;
        while i < self.operations.len()
            invariant
                i <= self.operations.len(),
                operations@.len() == i,
                forall|j: int| 0 <= j < i ==> operations@[j]@ == self.operations@[j]@,
            decreases self.operations.len() - i,
        {
            operations.push(self.operations[i].clone());
            i += 1;
        }
        assert(operation_views(operations@) =~= operation_views(self.operations@));
        PdfWriterConfiguration {
            input_file_path: clone_optional_string(&self.input_file_path),
            output_file_path: self.output_file_path.clone(),
            operations,
        }
    }
}

} // verus!
