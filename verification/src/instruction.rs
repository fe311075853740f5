//! Drawing instructions: an operator and its operands.

use crate::number::{Number, Real};
use vstd::prelude::*;

verus! {

/// One operand of a drawing instruction.
#[derive(Debug, PartialEq)]
pub enum Operand {
    /// An integer.
    Integer(i64),
    /// A real.
    Real(Real),
    /// The real that lies `shift` units to the right of `base`.
    ///
    /// Only the generator writes this operand. The sum is formed when the
    /// instruction is encoded for a document, so no page that was read from
    /// a document holds one, and the scanner does not take it for a number.
    Shifted { base: Number, shift: i128 },
    /// A name, such as that of a font resource.
    Name(Vec<u8>),
    /// A string of encoded text.
    Text(Vec<u8>),
    /// A nested sequence of operands.
    Array(Vec<Operand>),
    /// Any other object; the library reads nothing from it.
    Other,
}

/// One drawing instruction of a page.
#[derive(Debug, PartialEq)]
pub struct Instruction {
    pub operator: String,
    pub operands: Vec<Operand>,
}

/// What an [`Operand`] is, with its sequences as mathematical ones.
#[verifier::ext_equal]
pub enum OperandView {
    Integer(i64),
    Real(Real),
    Shifted { base: Number, shift: i128 },
    Name(Seq<u8>),
    Text(Seq<u8>),
    Array(Seq<OperandView>),
    Other,
}

/// What an [`Instruction`] is: the operator's characters and the operands.
#[verifier::ext_equal]
pub struct InstructionView {
    pub operator: Seq<char>,
    pub operands: Seq<OperandView>,
}

impl View for Operand {
    type V = OperandView;

    open spec fn view(&self) -> OperandView
        decreases self,
    {
        match self {
            Operand::Integer(i) => OperandView::Integer(*i),
            Operand::Real(r) => OperandView::Real(*r),
            Operand::Shifted { base, shift } => OperandView::Shifted { base: *base, shift: *shift },
            Operand::Name(bytes) => OperandView::Name(bytes@),
            Operand::Text(bytes) => OperandView::Text(bytes@),
            Operand::Array(items) => OperandView::Array(
                Seq::new(
                    items@.len(),
                    |i: int|
                        if 0 <= i < items@.len() {
                            items@[i].view()
                        } else {
                            OperandView::Other
                        },
                ),
            ),
            Operand::Other => OperandView::Other,
        }
    }
}

impl View for Instruction {
    type V = InstructionView;

    open spec fn view(&self) -> InstructionView {
        InstructionView { operator: self.operator@, operands: operand_views(self.operands@) }
    }
}

impl Clone for Operand {
    /// A copy with the same view, nested sequences included.
    fn clone(&self) -> (res: Self)
        ensures
            res@ == self@,
        decreases self,
    {
        match self {
            Operand::Integer(i) => Operand::Integer(*i),
            Operand::Real(r) => Operand::Real(*r),
            Operand::Shifted { base, shift } => Operand::Shifted { base: *base, shift: *shift },
            Operand::Name(bytes) => Operand::Name(bytes.clone()),
            Operand::Text(bytes) => Operand::Text(bytes.clone()),
            Operand::Array(items) => {
                let mut copies: Vec<Operand> = Vec::new();
                let mut i: usize = 0;
                while i < items.len()
                    invariant
                        i <= items.len(),
                        copies@.len() == i,
                        forall|j: int| 0 <= j < i ==> copies@[j]@ == items@[j]@,
                        *self == Operand::Array(*items),
                    decreases items.len() - i,
                {
                    proof {
                        vstd::std_specs::vec::axiom_vec_index_decreases(*items, i as int);
                        assert(decreases_to!(*self => self->Array_0));
                    }
                    copies.push(items[i].clone());
                    i += 1;
                }
                let res = Operand::Array(copies);
                assert(res@->Array_0 =~= self@->Array_0);
                res
            },
            Operand::Other => Operand::Other,
        }
    }
}

impl Clone for Instruction {
    /// A copy with the same view.
    fn clone(&self) -> (res: Self)
        ensures
            res@ == self@,
    {
        let mut operands: Vec<Operand> = Vec::new();
        let mut i: usize = 0;
        while i < self.operands.len()
            invariant
                i <= self.operands.len(),
                operands@.len() == i,
                forall|j: int| 0 <= j < i ==> operands@[j]@ == self.operands@[j]@,
            decreases self.operands.len() - i,
        {
            operands.push(self.operands[i].clone());
            i += 1;
        }
        assert(operand_views(operands@) =~= operand_views(self.operands@));
        Instruction { operator: self.operator.clone(), operands }
    }
}

/// The views of a sequence of operands, in order.
pub open spec fn operand_views(operands: Seq<Operand>) -> Seq<OperandView> {
    Seq::new(operands.len(), |i: int| operands[i]@)
}

/// The views of a sequence of instructions, in order.
pub open spec fn instruction_views(instructions: Seq<Instruction>) -> Seq<InstructionView> {
    Seq::new(instructions.len(), |i: int| instructions[i]@)
}

} // verus!
