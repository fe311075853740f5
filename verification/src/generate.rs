//! The overlay generator: from a placement to the instructions that draw its
//! value.

use crate::config::{PdfWriterOperation, PdfWriterOperationView};
use crate::instruction::{instruction_views, Instruction, InstructionView, Operand, OperandView};
use crate::number::Number;
use vstd::prelude::*;
use vstd::slice::*;
use vstd::string::*;
use vstd::utf8::encode_utf8;

verus! {

/// The byte at which a value is split: the full stop.
pub const DECIMAL_POINT: u8 = 46;

/// The length in bytes for which an anchor is calibrated.
pub const CALIBRATED_LENGTH: i128 = 3;

/// The width that one byte of the whole part is given, in units.
pub const PITCH: i128 = 5;

/// The distance from the anchor to the fractional part, in units.
pub const FRACTION_SHIFT: i128 = 30;

/// Where the first decimal point of `bytes` stands, or the length of `bytes`
/// where it has none.
pub open spec fn point_index(bytes: Seq<u8>) -> int
    decreases bytes.len(),
{
    if bytes.len() == 0 {
        0
    } else if bytes[0] == DECIMAL_POINT {
        0
    } else {
        1 + point_index(bytes.drop_first())
    }
}

/// The whole part of a value: what stands before its first decimal point,
/// or all of it where it has none.
pub open spec fn whole_part(bytes: Seq<u8>) -> Seq<u8> {
    bytes.take(point_index(bytes))
}

/// The fractional part of a value: what stands after its first decimal
/// point, or `None` where it has none.
pub open spec fn fraction_part(bytes: Seq<u8>) -> Option<Seq<u8>> {
    if point_index(bytes) < bytes.len() {
        Some(bytes.skip(point_index(bytes) + 1))
    } else {
        None
    }
}

/// How far to the right of the anchor a whole part of `length` bytes
/// starts: one pitch to the left for each byte beyond the calibrated
/// length, one to the right for each byte short of it.
pub open spec fn whole_shift(length: nat) -> int {
    (CALIBRATED_LENGTH - length) * PITCH
}

/// The index of the first decimal point: no point stands before it, and one
/// stands at it unless it is the length.
pub proof fn lemma_point_index(bytes: Seq<u8>)
    ensures
        0 <= point_index(bytes) <= bytes.len(),
        forall|j: int| 0 <= j < point_index(bytes) ==> bytes[j] != DECIMAL_POINT,
        point_index(bytes) < bytes.len() ==> bytes[point_index(bytes)] == DECIMAL_POINT,
    decreases bytes.len(),
{
    if bytes.len() > 0 && bytes[0] != DECIMAL_POINT {
        let rest = bytes.drop_first();
        lemma_point_index(rest);
        assert forall|j: int| 0 <= j < point_index(bytes) implies bytes[j] != DECIMAL_POINT by {
            if j > 0 {
                assert(bytes[j] == rest[j - 1]);
            }
        }
        assert(point_index(bytes) < bytes.len() ==> bytes[point_index(bytes)] == rest[point_index(
            rest,
        )]);
    }
}

/// An index with no point before it, and with a point at it unless it is
/// the length, is the index of the first decimal point.
pub proof fn lemma_point_index_is(bytes: Seq<u8>, i: int)
    requires
        0 <= i <= bytes.len(),
        forall|j: int| 0 <= j < i ==> bytes[j] != DECIMAL_POINT,
        i < bytes.len() ==> bytes[i] == DECIMAL_POINT,
    ensures
        point_index(bytes) == i,
{
    lemma_point_index(bytes);
    let p = point_index(bytes);
    if p < i {
        assert(bytes[p] != DECIMAL_POINT);
    } else if i < p {
        assert(bytes[i] != DECIMAL_POINT);
    }
}

/// The split loses nothing: a value without a decimal point is its whole
/// part, and any other value is its whole part, a decimal point and its
/// fractional part, in this order. The whole part never holds a decimal
/// point.
pub proof fn lemma_split_rejoins(bytes: Seq<u8>)
    ensures
        !whole_part(bytes).contains(DECIMAL_POINT),
        match fraction_part(bytes) {
            Some(fraction) => bytes == whole_part(bytes) + seq![DECIMAL_POINT] + fraction,
            None => bytes == whole_part(bytes) && !bytes.contains(DECIMAL_POINT),
        },
{
    lemma_point_index(bytes);
    let p = point_index(bytes);
    let whole = whole_part(bytes);
    if whole.contains(DECIMAL_POINT) {
        let j = choose|j: int| 0 <= j < whole.len() && whole[j] == DECIMAL_POINT;
        assert(bytes[j] == DECIMAL_POINT);
    }
    if p < bytes.len() {
        assert(bytes =~= whole + seq![DECIMAL_POINT] + bytes.skip(p + 1));
    } else {
        assert(bytes =~= whole);
    }
}

/// The split is the only one of its kind: a value put together from a part
/// without a decimal point, a decimal point and a rest splits into that part
/// and that rest.
pub proof fn lemma_split_of_joined(whole: Seq<u8>, fraction: Seq<u8>)
    requires
        !whole.contains(DECIMAL_POINT),
    ensures
        whole_part(whole + seq![DECIMAL_POINT] + fraction) == whole,
        fraction_part(whole + seq![DECIMAL_POINT] + fraction) == Some(fraction),
{
    let bytes = whole + seq![DECIMAL_POINT] + fraction;
    assert forall|j: int| 0 <= j < whole.len() implies bytes[j] != DECIMAL_POINT by {
        assert(whole.contains(whole[j]));
    }
    lemma_point_index_is(bytes, whole.len() as int);
    assert(bytes.take(whole.len() as int) =~= whole);
    assert(bytes.skip(whole.len() as int + 1) =~= fraction);
}

/// A value without a decimal point is its own whole part and has no
/// fractional part.
pub proof fn lemma_split_without_point(bytes: Seq<u8>)
    requires
        !bytes.contains(DECIMAL_POINT),
    ensures
        whole_part(bytes) == bytes,
        fraction_part(bytes) is None,
{
    assert forall|j: int| 0 <= j < bytes.len() implies bytes[j] != DECIMAL_POINT by {
        assert(bytes.contains(bytes[j]));
    }
    lemma_point_index_is(bytes, bytes.len() as int);
    assert(bytes.take(bytes.len() as int) =~= bytes);
}

/// Splits a value at its first decimal point into its whole part and, where
/// it has a decimal point, its fractional part.
pub fn split_decimal(value: &[u8]) -> (parts: (Vec<u8>, Option<Vec<u8>>))
    ensures
        parts.0@ == whole_part(value@),
        match parts.1 {
            Some(fraction) => fraction_part(value@) == Some(fraction@),
            None => fraction_part(value@) is None,
        },
        !parts.0@.contains(DECIMAL_POINT),
        match parts.1 {
            Some(fraction) => value@ == parts.0@ + seq![DECIMAL_POINT] + fraction@,
            None => value@ == parts.0@,
        },
{
    proof {
        lemma_split_rejoins(value@);
    }
    let mut i: usize = 0;
    while i < value.len() && value[i] != DECIMAL_POINT
        invariant
            i <= value.len(),
            forall|j: int| 0 <= j < i ==> value@[j] != DECIMAL_POINT,
        decreases value.len() - i,
    {
        i += 1;
    }
    proof {
        lemma_point_index_is(value@, i as int);
    }
    let whole = slice_to_vec(slice_subrange(value, 0, i));
    if i < value.len() {
        let fraction = slice_to_vec(slice_subrange(value, i + 1, value.len()));
        (whole, Some(fraction))
    } else {
        (whole, None)
    }
}

/// The operand that stands for a number of a page.
pub open spec fn number_operand(number: Number) -> OperandView {
    match number {
        Number::Integer(i) => OperandView::Integer(i),
        Number::Real(r) => OperandView::Real(r),
    }
}

/// The five instructions that draw `text` in the font `font`, `shift` units
/// to the right of the anchor `(x, y)`.
pub open spec fn text_object(
    font: (Seq<char>, i32),
    x: Number,
    y: Number,
    shift: int,
    text: Seq<u8>,
) -> Seq<InstructionView> {
    seq![
        InstructionView { operator: "BT"@, operands: seq![] },
        InstructionView {
            operator: "Tf"@,
            operands: seq![
                OperandView::Name(encode_utf8(font.0)),
                OperandView::Integer(font.1 as i64),
            ],
        },
        InstructionView {
            operator: "Td"@,
            operands: seq![
                OperandView::Shifted { base: x, shift: shift as i128 },
                number_operand(y),
            ],
        },
        InstructionView { operator: "Tj"@, operands: seq![OperandView::Text(text)] },
        InstructionView { operator: "ET"@, operands: seq![] },
    ]
}

/// The instructions that draw a placement's value.
///
/// The value is split at its first decimal point. Its whole part is drawn
/// first, shifted by its length so that it ends where a whole part of the
/// calibrated length would end. Its fractional part, or `00` where the
/// value has no decimal point, is drawn next, at a fixed distance to the
/// right of the anchor. The kind of the value has no say in this.
pub open spec fn overlay(placement: PdfWriterOperationView) -> Seq<InstructionView>
    recommends
        placement.value is Some,
{
    let value = encode_utf8(placement.value->0);
    let whole = whole_part(value);
    let fraction = match fraction_part(value) {
        Some(fraction) => fraction,
        None => seq![48u8, 48u8],
    };
    text_object(
        placement.font,
        placement.dimensions.0,
        placement.dimensions.1,
        whole_shift(whole.len()),
        whole,
    ) + text_object(
        placement.font,
        placement.dimensions.0,
        placement.dimensions.1,
        FRACTION_SHIFT as int,
        fraction,
    )
}

/// The operand that stands for a number of a page.
pub fn operand_of(number: Number) -> (operand: Operand)
    ensures
        operand@ == number_operand(number),
{
    match number {
        Number::Integer(i) => Operand::Integer(i),
        Number::Real(r) => Operand::Real(r),
    }
}

/// Appends to `drawn` the five instructions that draw `text` in the font
/// `font`, `shift` units to the right of the anchor `(x, y)`.
pub fn draw_text(
    drawn: &mut Vec<Instruction>,
    font: &(String, i32),
    x: Number,
    y: Number,
    shift: i128,
    text: Vec<u8>,
)
    ensures
        instruction_views(final(drawn)@) == instruction_views(old(drawn)@) + text_object(
            (font.0@, font.1),
            x,
            y,
            shift as int,
            text@,
        ),
{
    let ghost before = instruction_views(drawn@);
    let ghost object = text_object((font.0@, font.1), x, y, shift as int, text@);
    let begin = Instruction { operator: "BT".to_owned(), operands: Vec::new() };
    let mut selection: Vec<Operand> = Vec::new();
    selection.push(Operand::Name(font.0.as_str().as_bytes_vec()));
    selection.push(Operand::Integer(font.1 as i64));
    let select = Instruction { operator: "Tf".to_owned(), operands: selection };
    let mut position: Vec<Operand> = Vec::new();
    position.push(Operand::Shifted { base: x, shift });
    position.push(operand_of(y));
    let move_to = Instruction { operator: "Td".to_owned(), operands: position };
    let mut shown: Vec<Operand> = Vec::new();
    shown.push(Operand::Text(text));
    let show = Instruction { operator: "Tj".to_owned(), operands: shown };
    let end = Instruction { operator: "ET".to_owned(), operands: Vec::new() };
    proof {
        assert(begin@ =~= object[0]);
        assert(select@ =~= object[1]);
        assert(move_to@ =~= object[2]);
        assert(show@ =~= object[3]);
        assert(end@ =~= object[4]);
    }
    drawn.push(begin);
    drawn.push(select);
    drawn.push(move_to);
    drawn.push(show);
    drawn.push(end);
    assert(instruction_views(drawn@) =~= before + object);
}

/// The instructions that draw the value of `operation`: ten of them, five
/// for the whole part and five for the fractional part.
///
/// A placement without a value cannot be drawn.
pub fn generate_pdf_operations(operation: &PdfWriterOperation) -> (drawn: Vec<Instruction>)
    requires
        operation.value is Some,
    ensures
        instruction_views(drawn@) == overlay(operation@),
{
    let value: &String = operation.value.as_ref().unwrap();
    let (whole, cents) = split_decimal(value.as_str().as_bytes());
    let fraction: Vec<u8> = match cents {
        Some(fraction) => fraction,
        None => {
            let mut zeros: Vec<u8> = Vec::new();
            zeros.push(48u8);
            zeros.push(48u8);
            assert(zeros@ =~= seq![48u8, 48u8]);
            zeros
        },
    };
    let shift: i128 = (CALIBRATED_LENGTH - whole.len() as i128) * PITCH;
    let mut drawn: Vec<Instruction> = Vec::new();
    assert(instruction_views(drawn@) =~= Seq::<InstructionView>::empty());
    draw_text(
        &mut drawn,
        &operation.font,
        operation.dimensions.0,
        operation.dimensions.1,
        shift,
        whole,
    );
    draw_text(
        &mut drawn,
        &operation.font,
        operation.dimensions.0,
        operation.dimensions.1,
        FRACTION_SHIFT,
        fraction,
    );
    assert(instruction_views(drawn@) =~= overlay(operation@));
    drawn
}

/// The generator has no memory: what it draws for a placement is decided
/// by the placement alone, so two runs on placements that are the same
/// draw the same instructions.
pub proof fn lemma_generator_repeats(
    first: PdfWriterOperation,
    second: PdfWriterOperation,
    drawn_first: Seq<Instruction>,
    drawn_second: Seq<Instruction>,
)
    requires
        first@ == second@,
        instruction_views(drawn_first) == overlay(first@),
        instruction_views(drawn_second) == overlay(second@),
    ensures
        instruction_views(drawn_first) == instruction_views(drawn_second),
        drawn_first.len() == 10,
        drawn_second.len() == 10,
{
    assert(overlay(first@).len() == 10);
}

} // verus!
