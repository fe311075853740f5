//! What the two flows compute: the overlays of a page that is modified, and
//! the content of a page that is created.

use crate::config::{
    config_views, operation_views, OperationConfig, PdfWriterOperation, PdfWriterOperationView,
};
use crate::fonts::FontEncodings;
use crate::generate::{generate_pdf_operations, overlay};
use crate::instruction::{instruction_views, Instruction, InstructionView};
use crate::scan::{initial_state, lemma_placements_have_values, scan, scan_content, ScanError};
use vstd::prelude::*;

verus! {

/// A placement that cannot be drawn because it has no value.
#[derive(Clone, Copy, Debug, PartialEq, Eq, Structural)]
pub struct MissingValue {
    /// The index of the first placement without a value.
    pub index: usize,
}

/// The overlays of a sequence of placements, one after another.
pub open spec fn overlays(placements: Seq<PdfWriterOperationView>) -> Seq<InstructionView>
    decreases placements.len(),
{
    if placements.len() == 0 {
        Seq::empty()
    } else {
        overlays(placements.drop_last()) + overlay(placements.last())
    }
}

/// The overlays of a page that is modified: the page is scanned, and each
/// placement of the scan is drawn on its own, so that the caller can add
/// the overlays to the page one placement at a time.
///
/// A page on which nothing matches has no overlays; that is no error.
pub fn page_overlays(
    content: &Vec<Instruction>,
    encodings: &FontEncodings,
    operation_configs: &Vec<OperationConfig>,
) -> (drawn: Result<Vec<Vec<Instruction>>, ScanError>)
    ensures
        match scan(content@, encodings@, config_views(operation_configs@)) {
            Ok(placed) => {
                &&& drawn is Ok
                &&& drawn->Ok_0@.len() == placed.len()
                &&& forall|k: int|
                    0 <= k < placed.len() ==> instruction_views((#[trigger] drawn->Ok_0@[k])@)
                        == overlay(placed[k])
            },
            Err(e) => drawn == Err::<Vec<Vec<Instruction>>, ScanError>(e),
        },
{
    let placements = match scan_content(content, encodings, operation_configs) {
        Ok(placements) => placements,
        Err(e) => {
            return Err(e);
        },
    };
    proof {
        lemma_placements_have_values(
            initial_state(),
            content@,
            encodings@,
            config_views(operation_configs@),
        );
    }
    let ghost placed = operation_views(placements@);
    let mut drawn: Vec<Vec<Instruction>> = Vec::new();
    let mut i: usize = 0;
    while i < placements.len()
        invariant
            i <= placements.len(),
            placed == operation_views(placements@),
            forall|k: int| 0 <= k < placed.len() ==> (#[trigger] placed[k]).value is Some,
            drawn@.len() == i,
            forall|k: int|
                0 <= k < i ==> instruction_views((#[trigger] drawn@[k])@) == overlay(placed[k]),
        decreases placements.len() - i,
    {
        assert(placed[i as int].value is Some);
        drawn.push(generate_pdf_operations(&placements[i]));
        i += 1;
    }
    Ok(drawn)
}

/// The content of a page that is created: the overlays of `operations`,
/// one after another.
///
/// Nothing is drawn where a placement has no value: the first such
/// placement is the error.
pub fn create_content(operations: &Vec<PdfWriterOperation>) -> (content: Result<
    Vec<Instruction>,
    MissingValue,
>)
    ensures
        match content {
            Ok(drawn) => {
                &&& forall|k: int| 0 <= k < operations.len() ==> operations@[k].value is Some
                &&& instruction_views(drawn@) == overlays(operation_views(operations@))
            },
            Err(missing) => {
                &&& missing.index < operations.len()
                &&& operations@[missing.index as int].value is None
                &&& forall|k: int| 0 <= k < missing.index ==> operations@[k].value is Some
            },
        },
{
    let ghost placed = operation_views(operations@);
    let mut content: Vec<Instruction> = Vec::new();
    let mut i: usize = 0;
    assert(instruction_views(content@) =~= overlays(placed.take(0)));
    while i < operations.len()
        invariant
            i <= operations.len(),
            placed == operation_views(operations@),
            forall|k: int| 0 <= k < i ==> operations@[k].value is Some,
            instruction_views(content@) == overlays(placed.take(i as int)),
        decreases operations.len() - i,
    {
        if operations[i].value.is_none() {
            return Err(MissingValue { index: i });
        }
        let mut drawn = generate_pdf_operations(&operations[i]);
        let ghost before = instruction_views(content@);
        let ghost added = instruction_views(drawn@);
        content.append(&mut drawn);
        proof {
            assert(instruction_views(content@) =~= before + added);
            assert(placed.take(i as int + 1).drop_last() =~= placed.take(i as int));
        }
        i += 1;
    }
    assert(placed.take(placed.len() as int) =~= placed);
    Ok(content)
}

} // verus!
