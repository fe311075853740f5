//! The text that a show-text instruction paints.

use crate::instruction::Operand;
use vstd::prelude::*;
use vstd::string::*;

verus! {

/// The characters that `lopdf` decodes from `bytes` under the encoding named
/// `encoding`, or under its standard encoding where `encoding` is `None`.
pub uninterp spec fn decoded_text(encoding: Option<Seq<char>>, bytes: Seq<u8>) -> Seq<char>;

/// The characters of an optional string.
pub open spec fn optional_chars(s: Option<&str>) -> Option<Seq<char>> {
    match s {
        Some(s) => Some(s@),
        None => None,
    }
}

/// Decodes a string operand with `lopdf::Document::decode_text`.
///
/// The call looks the encoding's name up in fixed tables and maps the bytes
/// through the table it finds, so its result depends on the two arguments
/// alone; the contract gives that result its name and claims nothing else.
#[verifier::external_body]
fn decode_text(encoding: Option<&str>, bytes: &[u8]) -> (text: String)
    ensures
        text@ == decoded_text(optional_chars(encoding), bytes@),
{
    lopdf::Document::decode_text(encoding, bytes)
}

/// The text that a sequence of operands paints: each string decoded under
/// `encoding`, each nested sequence flattened, all joined in order. Operands
/// of other kinds add nothing.
pub open spec fn collected_text(encoding: Option<Seq<char>>, operands: Seq<Operand>) -> Seq<char>
    decreases operands,
{
    if operands.len() == 0 {
        Seq::empty()
    } else {
        let last = operands.last();
        let front = operands.drop_last();
        proof {
            vstd::seq::axiom_seq_subrange_decreases(operands, 0, operands.len() - 1);
            vstd::seq::axiom_seq_index_decreases(operands, operands.len() - 1);
        }
        collected_text(encoding, front) + match last {
            Operand::Text(bytes) => decoded_text(encoding, bytes@),
            Operand::Array(items) => {
                proof {
                    assert(decreases_to!(last => last->Array_0));
                    vstd::std_specs::vec::axiom_vec_decreases_to_view(items);
                }
                collected_text(encoding, items@)
            },
            _ => Seq::empty(),
        }
    }
}

/// The text that one operand paints.
pub open spec fn operand_text(encoding: Option<Seq<char>>, operand: Operand) -> Seq<char> {
    match operand {
        Operand::Text(bytes) => decoded_text(encoding, bytes@),
        Operand::Array(items) => collected_text(encoding, items@),
        _ => Seq::empty(),
    }
}

/// Taking one operand more adds that operand's text.
pub proof fn lemma_collected_text_step(
    encoding: Option<Seq<char>>,
    operands: Seq<Operand>,
    i: int,
)
    requires
        0 <= i < operands.len(),
    ensures
        collected_text(encoding, operands.take(i + 1)) == collected_text(
            encoding,
            operands.take(i),
        ) + operand_text(encoding, operands[i]),
{
    let upto = operands.take(i + 1);
    assert(upto.drop_last() =~= operands.take(i));
    assert(upto.last() == operands[i]);
}

/// Appends to `text` what the operands of a show-text instruction paint.
///
/// Strings are decoded under `encoding` one by one and joined in the order
/// in which they stand; nested sequences are flattened to any depth.
pub fn collect_text(text: &mut String, encoding: Option<&str>, operands: &Vec<Operand>)
    ensures
        final(text)@ == old(text)@ + collected_text(optional_chars(encoding), operands@),
    decreases operands,
{
    let mut i: usize = 0;
    while i < operands.len()
        invariant
            i <= operands.len(),
            text@ == old(text)@ + collected_text(
                optional_chars(encoding),
                operands@.take(i as int),
            ),
        decreases operands.len() - i,
    {
        proof {
            lemma_collected_text_step(optional_chars(encoding), operands@, i as int);
            vstd::std_specs::vec::axiom_vec_index_decreases(*operands, i as int);
        }
        let ghost head = collected_text(optional_chars(encoding), operands@.take(i as int));
        let ghost part = operand_text(optional_chars(encoding), operands@[i as int]);
        assert((old(text)@ + head) + part =~= old(text)@ + (head + part));
        match &operands[i] {
            Operand::Text(bytes) => {
                let decoded = decode_text(encoding, bytes.as_slice());
                text.append(decoded.as_str());
            },
            Operand::Array(items) => {
                proof {
                    assert(decreases_to!(operands[i as int] => operands[i as int]->Array_0));
                }
                collect_text(text, encoding, items);
            },
            _ => {},
        }
        i += 1;
    }
    assert(operands@.take(operands@.len() as int) =~= operands@);
}

} // verus!
