//! The content scanner: one pass over a page's instructions that pairs the
//! most recent rectangle with the text drawn after it.

use crate::config::{
    config_views, operation_views, OperationConfig, OperationConfigView, PdfWriterOperation,
    PdfWriterOperationView,
};
use crate::fonts::{str_equal, FontEncodings};
use crate::instruction::{Instruction, Operand};
use crate::number::Number;
use crate::text::{collect_text, collected_text, optional_chars};
use vstd::prelude::*;
use vstd::string::*;

verus! {

/// Why a scan stopped.
#[derive(Clone, Copy, Debug, PartialEq, Eq, Structural)]
pub enum ScanError {
    /// A select-font instruction has no operand.
    MissingFontOperand,
    /// The first operand of a select-font instruction is not a name.
    FontOperandNotName,
    /// A rule matched, but the pending rectangle holds fewer than two numbers.
    MalformedRectangle,
}

/// What the scanner remembers between two instructions.
#[derive(Debug)]
pub struct ScanState {
    /// The encoding of the font selected last, if the table names one.
    pub current_encoding: Option<String>,
    /// The numbers of the rectangle drawn last.
    pub pending_rectangle: Option<Vec<Number>>,
    /// The text shown last, until it has been held against the rules.
    pub pending_text: Option<String>,
}

/// What a [`ScanState`] is, with its strings and sequences as mathematical
/// ones.
#[verifier::ext_equal]
pub struct ScanStateView {
    pub encoding: Option<Seq<char>>,
    pub rectangle: Option<Seq<Number>>,
    pub text: Option<Seq<char>>,
}

impl View for ScanState {
    type V = ScanStateView;

    open spec fn view(&self) -> ScanStateView {
        ScanStateView {
            encoding: match self.current_encoding {
                Some(e) => Some(e@),
                None => None,
            },
            rectangle: match self.pending_rectangle {
                Some(r) => Some(r@),
                None => None,
            },
            text: match self.pending_text {
                Some(t) => Some(t@),
                None => None,
            },
        }
    }
}

/// The state before the first instruction: nothing selected, nothing
/// pending.
pub open spec fn initial_state() -> ScanStateView {
    ScanStateView { encoding: None, rectangle: None, text: None }
}

/// The numbers among `operands`, in order. Operands of other kinds are left
/// out.
pub open spec fn numbers(operands: Seq<Operand>) -> Seq<Number>
    decreases operands.len(),
{
    if operands.len() == 0 {
        Seq::empty()
    } else {
        let front = numbers(operands.drop_last());
        match operands.last() {
            Operand::Integer(i) => front.push(Number::Integer(i)),
            Operand::Real(r) => front.push(Number::Real(r)),
            _ => front,
        }
    }
}

/// The state after `instruction` has had its effect, before the pending
/// rectangle and text are held against the rules.
///
/// A rectangle replaces the pending rectangle by its numbers. A font
/// selection looks its first operand up in `encodings`. A text-showing
/// instruction with a non-empty text replaces the pending text. Every other
/// instruction leaves the state as it is.
pub open spec fn apply(
    state: ScanStateView,
    instruction: Instruction,
    encodings: Map<Seq<u8>, Seq<char>>,
) -> Result<ScanStateView, ScanError> {
    if instruction.operator@ == "re"@ {
        Ok(ScanStateView { rectangle: Some(numbers(instruction.operands@)), ..state })
    } else if instruction.operator@ == "Tf"@ {
        if instruction.operands@.len() == 0 {
            Err(ScanError::MissingFontOperand)
        } else {
            match instruction.operands@[0] {
                Operand::Name(name) => Ok(
                    ScanStateView {
                        encoding: if encodings.contains_key(name@) {
                            Some(encodings[name@])
                        } else {
                            None
                        },
                        ..state
                    },
                ),
                _ => Err(ScanError::FontOperandNotName),
            }
        }
    } else if instruction.operator@ == "TJ"@ {
        let text = collected_text(state.encoding, instruction.operands@);
        if text.len() > 0 {
            Ok(ScanStateView { text: Some(text), ..state })
        } else {
            Ok(state)
        }
    } else {
        Ok(state)
    }
}

/// The placement that `rule` yields at the anchor `(x, y)`.
pub open spec fn placement(
    rule: OperationConfigView,
    x: Number,
    y: Number,
) -> PdfWriterOperationView {
    PdfWriterOperationView {
        page_number: rule.page_number,
        font: rule.font,
        dimensions: (x, y),
        value: Some(
            match rule.static_value {
                Some(value) => value,
                None => "Placeholder"@,
            },
        ),
        field_type: rule.field_type,
        field_type_next: None,
    }
}

/// The placements of the rules whose predicate is exactly `text`, one for
/// each such rule, in the rules' order, all at the anchor `(x, y)`.
pub open spec fn matched(
    rules: Seq<OperationConfigView>,
    text: Seq<char>,
    x: Number,
    y: Number,
) -> Seq<PdfWriterOperationView>
    decreases rules.len(),
{
    if rules.len() == 0 {
        Seq::empty()
    } else {
        let front = matched(rules.drop_last(), text, x, y);
        if rules.last().predicate == text {
            front.push(placement(rules.last(), x, y))
        } else {
            front
        }
    }
}

/// Whether some rule's predicate is exactly `text`.
pub open spec fn any_match(rules: Seq<OperationConfigView>, text: Seq<char>) -> bool {
    exists|i: int| 0 <= i < rules.len() && (#[trigger] rules[i]).predicate == text
}

/// The check that follows every instruction.
///
/// Where a rectangle and a text are both pending, every rule whose
/// predicate is the text yields a placement at the rectangle's first two
/// numbers, and the text is pending no longer; the rectangle stays. A rule
/// that matches while the rectangle has fewer than two numbers is an error.
pub open spec fn settle(state: ScanStateView, rules: Seq<OperationConfigView>) -> Result<
    (ScanStateView, Seq<PdfWriterOperationView>),
    ScanError,
> {
    match (state.rectangle, state.text) {
        (Some(rectangle), Some(text)) => {
            if rectangle.len() >= 2 {
                Ok(
                    (
                        ScanStateView { text: None, ..state },
                        matched(rules, text, rectangle[0], rectangle[1]),
                    ),
                )
            } else if any_match(rules, text) {
                Err(ScanError::MalformedRectangle)
            } else {
                Ok((ScanStateView { text: None, ..state }, Seq::empty()))
            }
        },
        _ => Ok((state, Seq::empty())),
    }
}

/// One step of the scan: the instruction's effect, then the check.
pub open spec fn step(
    state: ScanStateView,
    instruction: Instruction,
    encodings: Map<Seq<u8>, Seq<char>>,
    rules: Seq<OperationConfigView>,
) -> Result<(ScanStateView, Seq<PdfWriterOperationView>), ScanError> {
    match apply(state, instruction, encodings) {
        Ok(applied) => settle(applied, rules),
        Err(e) => Err(e),
    }
}

/// The scan of `instructions` from `state`: the state it ends in and the
/// placements it yields, or the error of the first instruction that fails.
pub open spec fn run(
    state: ScanStateView,
    instructions: Seq<Instruction>,
    encodings: Map<Seq<u8>, Seq<char>>,
    rules: Seq<OperationConfigView>,
) -> Result<(ScanStateView, Seq<PdfWriterOperationView>), ScanError>
    decreases instructions.len(),
{
    if instructions.len() == 0 {
        Ok((state, Seq::empty()))
    } else {
        match run(state, instructions.drop_last(), encodings, rules) {
            Ok((before, placed)) => match step(before, instructions.last(), encodings, rules) {
                Ok((after, more)) => Ok((after, placed + more)),
                Err(e) => Err(e),
            },
            Err(e) => Err(e),
        }
    }
}

/// The placements that a page yields: those of its scan from the initial
/// state.
pub open spec fn scan(
    instructions: Seq<Instruction>,
    encodings: Map<Seq<u8>, Seq<char>>,
    rules: Seq<OperationConfigView>,
) -> Result<Seq<PdfWriterOperationView>, ScanError> {
    match run(initial_state(), instructions, encodings, rules) {
        Ok((_, placed)) => Ok(placed),
        Err(e) => Err(e),
    }
}

/// Taking one rule more adds that rule's placement where its predicate is
/// the text.
proof fn lemma_matched_step(
    rules: Seq<OperationConfigView>,
    text: Seq<char>,
    x: Number,
    y: Number,
    i: int,
)
    requires
        0 <= i < rules.len(),
    ensures
        matched(rules.take(i + 1), text, x, y) == if rules[i].predicate == text {
            matched(rules.take(i), text, x, y).push(placement(rules[i], x, y))
        } else {
            matched(rules.take(i), text, x, y)
        },
{
    assert(rules.take(i + 1).drop_last() =~= rules.take(i));
}

/// Taking one operand more adds that operand where it is a number.
proof fn lemma_numbers_step(operands: Seq<Operand>, i: int)
    requires
        0 <= i < operands.len(),
    ensures
        numbers(operands.take(i + 1)) == match operands[i] {
            Operand::Integer(v) => numbers(operands.take(i)).push(Number::Integer(v)),
            Operand::Real(r) => numbers(operands.take(i)).push(Number::Real(r)),
            _ => numbers(operands.take(i)),
        },
{
    assert(operands.take(i + 1).drop_last() =~= operands.take(i));
}

/// The numbers among `operands`, in order.
pub fn operand_numbers(operands: &Vec<Operand>) -> (found: Vec<Number>)
    ensures
        found@ == numbers(operands@),
{
    let mut found: Vec<Number> = Vec::new();
    let mut i: usize = 0;
    while i < operands.len()
        invariant
            i <= operands.len(),
            found@ == numbers(operands@.take(i as int)),
        decreases operands.len() - i,
    {
        proof {
            lemma_numbers_step(operands@, i as int);
        }
        match &operands[i] {
            Operand::Integer(v) => found.push(Number::Integer(*v)),
            Operand::Real(r) => found.push(Number::Real(*r)),
            _ => {},
        }
        i += 1;
    }
    assert(operands@.take(operands@.len() as int) =~= operands@);
    found
}

/// The placement that `rule` yields at the anchor `(x, y)`.
pub fn place(rule: &OperationConfig, x: Number, y: Number) -> (placed: PdfWriterOperation)
    ensures
        placed@ == placement(rule@, x, y),
{
    let value = match &rule.static_value {
        Some(value) => value.clone(),
        None => "Placeholder".to_owned(),
    };
    PdfWriterOperation {
        page_number: rule.page_number,
        font: (rule.font.0.clone(), rule.font.1),
        dimensions: (x, y),
        value: Some(value),
        field_type: rule.field_type,
        field_type_next: None,
    }
}

impl ScanState {
    /// The state before the first instruction.
    pub fn new() -> (state: ScanState)
        ensures
            state@ == initial_state(),
    {
        ScanState { current_encoding: None, pending_rectangle: None, pending_text: None }
    }

    /// The encoding under which text is decoded at this point.
    pub fn encoding(&self) -> (encoding: Option<&str>)
        ensures
            optional_chars(encoding) == self@.encoding,
    {
        match &self.current_encoding {
            Some(e) => Some(e.as_str()),
            None => None,
        }
    }

    /// Takes the text that a show-text instruction decoded to: a non-empty
    /// text becomes the pending text, an empty one changes nothing.
    pub fn show_text(&mut self, text: String)
        ensures
            final(self)@ == if text@.len() > 0 {
                ScanStateView { text: Some(text@), ..old(self)@ }
            } else {
                old(self)@
            },
    {
        if !text.as_str().is_empty() {
            self.pending_text = Some(text);
        }
    }

    /// Lets `instruction` have its effect on the state.
    ///
    /// On an error the state is as it was.
    pub fn apply(
        &mut self,
        instruction: &Instruction,
        encodings: &FontEncodings,
    ) -> (done: Result<(), ScanError>)
        ensures
            match apply(old(self)@, *instruction, encodings@) {
                Ok(state) => done is Ok && final(self)@ == state,
                Err(e) => done == Err::<(), ScanError>(e) && final(self)@ == old(self)@,
            },
    {
        let operator = instruction.operator.as_str();
        if str_equal(operator, "re") {
            self.pending_rectangle = Some(operand_numbers(&instruction.operands));
            Ok(())
        } else if str_equal(operator, "Tf") {
            if instruction.operands.len() == 0 {
                return Err(ScanError::MissingFontOperand);
            }
            match &instruction.operands[0] {
                Operand::Name(name) => {
                    self.current_encoding = match encodings.get(name.as_slice()) {
                        Some(encoding) => Some(encoding.clone()),
                        None => None,
                    };
                    Ok(())
                },
                _ => Err(ScanError::FontOperandNotName),
            }
        } else if str_equal(operator, "TJ") {
            let mut text = String::new();
            collect_text(&mut text, self.encoding(), &instruction.operands);
            assert(text@ =~= collected_text(old(self)@.encoding, instruction.operands@));
            self.show_text(text);
            Ok(())
        } else {
            Ok(())
        }
    }

    /// Holds the pending rectangle and text against `rules` and appends the
    /// placements of the rules that match to `placements`.
    ///
    /// On an error the state and `placements` are as they were.
    pub fn settle(
        &mut self,
        rules: &Vec<OperationConfig>,
        placements: &mut Vec<PdfWriterOperation>,
    ) -> (done: Result<(), ScanError>)
        ensures
            match settle(old(self)@, config_views(rules@)) {
                Ok((state, placed)) => {
                    &&& done is Ok
                    &&& final(self)@ == state
                    &&& operation_views(final(placements)@) == operation_views(old(placements)@)
                        + placed
                },
                Err(e) => {
                    &&& done == Err::<(), ScanError>(e)
                    &&& final(self)@ == old(self)@
                    &&& final(placements)@ == old(placements)@
                },
            },
    {
        let ghost views = config_views(rules@);
        match (&self.pending_rectangle, &self.pending_text) {
            (Some(rectangle), Some(text)) => {
                let mut i: usize = 0;
                while i < rules.len()
                    invariant
                        i <= rules.len(),
                        views == config_views(rules@),
                        *self == *old(self),
                        old(self).pending_rectangle == Some(*rectangle),
                        old(self).pending_text == Some(*text),
                        rectangle.len() < 2 ==> placements@ == old(placements)@ && forall|j: int|
                            0 <= j < i ==> (#[trigger] views[j]).predicate != text@,
                        rectangle.len() >= 2 ==> operation_views(placements@) == operation_views(
                            old(placements)@,
                        ) + matched(views.take(i as int), text@, rectangle@[0], rectangle@[1]),
                    decreases rules.len() - i,
                {
                    if str_equal(text.as_str(), rules[i].predicate.as_str()) {
                        if rectangle.len() < 2 {
                            assert(views[i as int].predicate == text@);
                            assert(any_match(views, text@));
                            return Err(ScanError::MalformedRectangle);
                        }
                        proof {
                            lemma_matched_step(views, text@, rectangle@[0], rectangle@[1], i as int);
                        }
                        let ghost before = placements@;
                        let placed = place(&rules[i], rectangle[0], rectangle[1]);
                        placements.push(placed);
                        assert(operation_views(placements@) =~= operation_views(before).push(
                            placed@,
                        ));
                        assert(operation_views(placements@) =~= operation_views(old(placements)@)
                            + matched(
                            views.take(i as int + 1),
                            text@,
                            rectangle@[0],
                            rectangle@[1],
                        ));
                    } else {
                        proof {
                            if rectangle.len() >= 2 {
                                lemma_matched_step(
                                    views,
                                    text@,
                                    rectangle@[0],
                                    rectangle@[1],
                                    i as int,
                                );
                            }
                        }
                    }
                    i += 1;
                }
                proof {
                    assert(views.take(views.len() as int) =~= views);
                    if rectangle.len() < 2 {
                        assert(operation_views(placements@) =~= operation_views(old(placements)@)
                            + Seq::<PdfWriterOperationView>::empty());
                    }
                }
            },
            _ => {
                assert(operation_views(placements@) =~= operation_views(old(placements)@)
                    + Seq::<PdfWriterOperationView>::empty());
                return Ok(());
            },
        }
        self.pending_text = None;
        Ok(())
    }

    /// Takes one instruction: its effect on the state, then the check
    /// against `rules`.
    ///
    /// On an error `placements` is as it was.
    pub fn step(
        &mut self,
        instruction: &Instruction,
        encodings: &FontEncodings,
        rules: &Vec<OperationConfig>,
        placements: &mut Vec<PdfWriterOperation>,
    ) -> (done: Result<(), ScanError>)
        ensures
            match step(old(self)@, *instruction, encodings@, config_views(rules@)) {
                Ok((state, placed)) => {
                    &&& done is Ok
                    &&& final(self)@ == state
                    &&& operation_views(final(placements)@) == operation_views(old(placements)@)
                        + placed
                },
                Err(e) => done == Err::<(), ScanError>(e) && final(placements)@ == old(
                    placements,
                )@,
            },
    {
        match self.apply(instruction, encodings) {
            Ok(()) => self.settle(rules, placements),
            Err(e) => Err(e),
        }
    }
}

/// An error in the scan of the first instructions is the error of the scan
/// of all of them.
proof fn lemma_error_stays(
    state: ScanStateView,
    instructions: Seq<Instruction>,
    encodings: Map<Seq<u8>, Seq<char>>,
    rules: Seq<OperationConfigView>,
    k: int,
)
    requires
        0 <= k <= instructions.len(),
        run(state, instructions.take(k), encodings, rules) is Err,
    ensures
        run(state, instructions, encodings, rules) == run(
            state,
            instructions.take(k),
            encodings,
            rules,
        ),
    decreases instructions.len() - k,
{
    if k == instructions.len() {
        assert(instructions.take(k) =~= instructions);
    } else {
        assert(instructions.take(k + 1).drop_last() =~= instructions.take(k));
        lemma_error_stays(state, instructions, encodings, rules, k + 1);
    }
}

/// Scans a page: one pass over `content`, in order.
///
/// Yields the placements of the scan, in the order in which the markers are
/// met and, for one marker, in the order of the rules; or the error of the
/// first instruction that fails, which is a select-font instruction without
/// a name as its first operand, or a marker that matches a rule while the
/// pending rectangle has fewer than two numbers.
pub fn scan_content(
    content: &Vec<Instruction>,
    encodings: &FontEncodings,
    operation_configs: &Vec<OperationConfig>,
) -> (found: Result<Vec<PdfWriterOperation>, ScanError>)
    ensures
        match found {
            Ok(placements) => scan(content@, encodings@, config_views(operation_configs@)) == Ok::<
                Seq<PdfWriterOperationView>,
                ScanError,
            >(operation_views(placements@)),
            Err(e) => scan(content@, encodings@, config_views(operation_configs@)) == Err::<
                Seq<PdfWriterOperationView>,
                ScanError,
            >(e),
        },
{
    let ghost rules = config_views(operation_configs@);
    let mut state = ScanState::new();
    let mut placements: Vec<PdfWriterOperation> = Vec::new();
    let mut i: usize = 0;
    assert(operation_views(placements@) =~= Seq::<PdfWriterOperationView>::empty());
    while i < content.len()
        invariant
            i <= content.len(),
            rules == config_views(operation_configs@),
            run(initial_state(), content@.take(i as int), encodings@, rules) == Ok::<
                (ScanStateView, Seq<PdfWriterOperationView>),
                ScanError,
            >((state@, operation_views(placements@))),
        decreases content.len() - i,
    {
        proof {
            assert(content@.take(i as int + 1).drop_last() =~= content@.take(i as int));
        }
        match state.step(&content[i], encodings, operation_configs, &mut placements) {
            Ok(()) => {},
            Err(e) => {
                proof {
                    lemma_error_stays(initial_state(), content@, encodings@, rules, i as int + 1);
                }
                return Err(e);
            },
        }
        i += 1;
    }
    assert(content@.take(content@.len() as int) =~= content@);
    Ok(placements)
}

/// One rule alone yields its placement where its predicate is the text,
/// and nothing where it is not.
pub proof fn lemma_matched_single(rule: OperationConfigView, text: Seq<char>, x: Number, y: Number)
    ensures
        matched(seq![rule], text, x, y) == if rule.predicate == text {
            seq![placement(rule, x, y)]
        } else {
            Seq::<PdfWriterOperationView>::empty()
        },
{
    let rules = seq![rule];
    assert(rules.drop_last() =~= Seq::<OperationConfigView>::empty());
    assert(matched(rules.drop_last(), text, x, y) =~= Seq::<PdfWriterOperationView>::empty());
    assert(matched(rules, text, x, y) =~= if rule.predicate == text {
        seq![placement(rule, x, y)]
    } else {
        Seq::<PdfWriterOperationView>::empty()
    });
}

/// Rules are held against a text one by one: the placements of two lists of
/// rules set end to end are those of the first list, then those of the
/// second.
pub proof fn lemma_matched_concat(
    first: Seq<OperationConfigView>,
    second: Seq<OperationConfigView>,
    text: Seq<char>,
    x: Number,
    y: Number,
)
    ensures
        matched(first + second, text, x, y) == matched(first, text, x, y) + matched(
            second,
            text,
            x,
            y,
        ),
    decreases second.len(),
{
    if second.len() == 0 {
        assert(first + second =~= first);
        assert(matched(first, text, x, y) + matched(second, text, x, y) =~= matched(
            first,
            text,
            x,
            y,
        ));
    } else {
        assert((first + second).drop_last() =~= first + second.drop_last());
        lemma_matched_concat(first, second.drop_last(), text, x, y);
        assert(matched(first + second, text, x, y) =~= matched(first, text, x, y) + matched(
            second,
            text,
            x,
            y,
        ));
    }
}

/// A text that is no rule's predicate yields no placement: a marker must be
/// a predicate character for character.
pub proof fn lemma_no_match_no_placement(
    rules: Seq<OperationConfigView>,
    text: Seq<char>,
    x: Number,
    y: Number,
)
    requires
        forall|i: int| 0 <= i < rules.len() ==> (#[trigger] rules[i]).predicate != text,
    ensures
        matched(rules, text, x, y) == Seq::<PdfWriterOperationView>::empty(),
        !any_match(rules, text),
    decreases rules.len(),
{
    if rules.len() > 0 {
        lemma_no_match_no_placement(rules.drop_last(), text, x, y);
    }
}

/// Every placement that a text yields stems from a rule whose predicate is
/// that text, and is anchored at `(x, y)`.
pub proof fn lemma_matched_stems(
    rules: Seq<OperationConfigView>,
    text: Seq<char>,
    x: Number,
    y: Number,
    k: int,
)
    requires
        0 <= k < matched(rules, text, x, y).len(),
    ensures
        exists|i: int|
            0 <= i < rules.len() && (#[trigger] rules[i]).predicate == text && matched(
                rules,
                text,
                x,
                y,
            )[k] == placement(rules[i], x, y),
        matched(rules, text, x, y)[k].dimensions == (x, y),
        matched(rules, text, x, y)[k].value is Some,
    decreases rules.len(),
{
    let front = matched(rules.drop_last(), text, x, y);
    if k < front.len() {
        lemma_matched_stems(rules.drop_last(), text, x, y, k);
        let i = choose|i: int|
            0 <= i < rules.drop_last().len() && (#[trigger] rules.drop_last()[i]).predicate == text
                && front[k] == placement(rules.drop_last()[i], x, y);
        assert(rules[i] == rules.drop_last()[i]);
    } else {
        assert(rules[rules.len() - 1].predicate == text);
    }
}

/// A text that does not equal any predicate changes nothing but itself:
/// the check yields no placement and no error.
pub proof fn lemma_settle_without_match(state: ScanStateView, rules: Seq<OperationConfigView>)
    requires
        state.text is Some,
        forall|i: int| 0 <= i < rules.len() ==> (#[trigger] rules[i]).predicate != state.text->0,
    ensures
        settle(state, rules) == Ok::<(ScanStateView, Seq<PdfWriterOperationView>), ScanError>(
            (
                if state.rectangle is Some {
                    ScanStateView { text: None, ..state }
                } else {
                    state
                },
                Seq::empty(),
            ),
        ),
{
    if state.rectangle is Some {
        let rectangle = state.rectangle->0;
        if rectangle.len() >= 2 {
            lemma_no_match_no_placement(rules, state.text->0, rectangle[0], rectangle[1]);
        }
    }
}

/// Where exactly two rules have the text as their predicate, one
/// occurrence of the text yields exactly two placements: that of the
/// earlier rule, then that of the later one, both at the rectangle's first
/// two numbers.
pub proof fn lemma_fan_out(state: ScanStateView, rules: Seq<OperationConfigView>, i: int, j: int)
    requires
        state.rectangle is Some,
        state.rectangle->0.len() >= 2,
        state.text is Some,
        0 <= i < j < rules.len(),
        forall|k: int|
            0 <= k < rules.len() ==> ((#[trigger] rules[k]).predicate == state.text->0 <==> (k == i
                || k == j)),
    ensures
        settle(state, rules) == Ok::<(ScanStateView, Seq<PdfWriterOperationView>), ScanError>(
            (
                ScanStateView { text: None, ..state },
                seq![
                    placement(rules[i], state.rectangle->0[0], state.rectangle->0[1]),
                    placement(rules[j], state.rectangle->0[0], state.rectangle->0[1]),
                ],
            ),
        ),
{
    let text = state.text->0;
    let x = state.rectangle->0[0];
    let y = state.rectangle->0[1];
    let a = rules.subrange(0, i);
    let b = rules.subrange(i + 1, j);
    let c = rules.subrange(j + 1, rules.len() as int);
    assert(rules =~= a + seq![rules[i]] + b + seq![rules[j]] + c);
    assert forall|k: int| 0 <= k < a.len() implies (#[trigger] a[k]).predicate != text by {
        assert(a[k] == rules[k]);
    }
    assert forall|k: int| 0 <= k < b.len() implies (#[trigger] b[k]).predicate != text by {
        assert(b[k] == rules[i + 1 + k]);
    }
    assert forall|k: int| 0 <= k < c.len() implies (#[trigger] c[k]).predicate != text by {
        assert(c[k] == rules[j + 1 + k]);
    }
    lemma_no_match_no_placement(a, text, x, y);
    lemma_no_match_no_placement(b, text, x, y);
    lemma_no_match_no_placement(c, text, x, y);
    lemma_matched_single(rules[i], text, x, y);
    lemma_matched_single(rules[j], text, x, y);
    lemma_matched_concat(a, seq![rules[i]], text, x, y);
    lemma_matched_concat(a + seq![rules[i]], b, text, x, y);
    lemma_matched_concat(a + seq![rules[i]] + b, seq![rules[j]], text, x, y);
    lemma_matched_concat(a + seq![rules[i]] + b + seq![rules[j]], c, text, x, y);
    assert(matched(rules, text, x, y) =~= seq![
        placement(rules[i], x, y),
        placement(rules[j], x, y),
    ]);
}

/// Of rectangles that follow one another, the last one wins: after them the
/// pending rectangle holds the numbers of the last, whatever the earlier
/// ones were. With no text pending before them they yield no placement and
/// change nothing else.
pub proof fn lemma_last_rectangle_wins(
    state: ScanStateView,
    instructions: Seq<Instruction>,
    encodings: Map<Seq<u8>, Seq<char>>,
    rules: Seq<OperationConfigView>,
)
    requires
        instructions.len() > 0,
        forall|i: int|
            0 <= i < instructions.len() ==> (#[trigger] instructions[i]).operator@ == "re"@,
    ensures
        match run(state, instructions, encodings, rules) {
            Ok((after, _)) => after == (ScanStateView {
                rectangle: Some(numbers(instructions.last().operands@)),
                text: None,
                ..state
            }),
            Err(e) => e == ScanError::MalformedRectangle && state.text is Some,
        },
        state.text is None ==> run(state, instructions, encodings, rules) == Ok::<
            (ScanStateView, Seq<PdfWriterOperationView>),
            ScanError,
        >(
            (
                ScanStateView {
                    rectangle: Some(numbers(instructions.last().operands@)),
                    ..state
                },
                Seq::empty(),
            ),
        ),
    decreases instructions.len(),
{
    let front = instructions.drop_last();
    let last = instructions.last();
    assert(last == instructions[instructions.len() - 1]);
    if front.len() == 0 {
        assert(run(state, front, encodings, rules) == Ok::<
            (ScanStateView, Seq<PdfWriterOperationView>),
            ScanError,
        >((state, Seq::empty())));
    } else {
        assert forall|i: int| 0 <= i < front.len() implies (#[trigger] front[i]).operator@ == "re"@ by {
            assert(front[i] == instructions[i]);
        }
        lemma_last_rectangle_wins(state, front, encodings, rules);
    }
    if state.text is None {
        assert(run(state, front, encodings, rules) is Ok);
        let before = run(state, front, encodings, rules)->Ok_0;
        assert(before.1 + Seq::<PdfWriterOperationView>::empty() =~= Seq::<
            PdfWriterOperationView,
        >::empty());
    }
}

/// Without a rectangle there is no placement: a page on which no rectangle
/// is drawn yields none, whatever text it shows.
pub proof fn lemma_no_rectangle_no_placement(
    instructions: Seq<Instruction>,
    encodings: Map<Seq<u8>, Seq<char>>,
    rules: Seq<OperationConfigView>,
)
    requires
        forall|i: int|
            0 <= i < instructions.len() ==> (#[trigger] instructions[i]).operator@ != "re"@,
    ensures
        match run(initial_state(), instructions, encodings, rules) {
            Ok((after, placed)) => after.rectangle is None && placed.len() == 0,
            Err(e) => e != ScanError::MalformedRectangle,
        },
        match scan(instructions, encodings, rules) {
            Ok(placed) => placed.len() == 0,
            Err(e) => e != ScanError::MalformedRectangle,
        },
    decreases instructions.len(),
{
    if instructions.len() > 0 {
        let front = instructions.drop_last();
        assert forall|i: int| 0 <= i < front.len() implies (#[trigger] front[i]).operator@ != "re"@ by {
            assert(front[i] == instructions[i]);
        }
        lemma_no_rectangle_no_placement(front, encodings, rules);
        assert(instructions.last() == instructions[instructions.len() - 1]);
    }
}

/// A rectangle is used again until the next one is drawn: while no
/// rectangle follows, the pending rectangle stays as it is, and every
/// placement is anchored at its first two numbers, however many texts
/// match.
pub proof fn lemma_rectangle_reused(
    state: ScanStateView,
    instructions: Seq<Instruction>,
    encodings: Map<Seq<u8>, Seq<char>>,
    rules: Seq<OperationConfigView>,
)
    requires
        state.rectangle is Some,
        forall|i: int|
            0 <= i < instructions.len() ==> (#[trigger] instructions[i]).operator@ != "re"@,
    ensures
        match run(state, instructions, encodings, rules) {
            Ok((after, placed)) => {
                &&& after.rectangle == state.rectangle
                &&& forall|k: int|
                    0 <= k < placed.len() ==> (#[trigger] placed[k]).dimensions == (
                        state.rectangle->0[0],
                        state.rectangle->0[1],
                    )
            },
            Err(_) => true,
        },
    decreases instructions.len(),
{
    if instructions.len() > 0 {
        let front = instructions.drop_last();
        let last = instructions.last();
        assert forall|i: int| 0 <= i < front.len() implies (#[trigger] front[i]).operator@ != "re"@ by {
            assert(front[i] == instructions[i]);
        }
        lemma_rectangle_reused(state, front, encodings, rules);
        assert(last == instructions[instructions.len() - 1]);
        match run(state, front, encodings, rules) {
            Ok((before, placed)) => {
                match step(before, last, encodings, rules) {
                    Ok((after, more)) => {
                        let x = state.rectangle->0[0];
                        let y = state.rectangle->0[1];
                        assert forall|k: int| 0 <= k < (placed + more).len() implies (#[trigger] (
                        placed + more)[k]).dimensions == (x, y) by {
                            if k >= placed.len() {
                                let applied = apply(before, last, encodings)->Ok_0;
                                lemma_matched_stems(rules, applied.text->0, x, y, k - placed.len());
                            }
                        }
                    },
                    Err(_) => {},
                }
            },
            Err(_) => {},
        }
    }
}

/// Every placement of a scan carries a value.
pub proof fn lemma_placements_have_values(
    state: ScanStateView,
    instructions: Seq<Instruction>,
    encodings: Map<Seq<u8>, Seq<char>>,
    rules: Seq<OperationConfigView>,
)
    ensures
        match run(state, instructions, encodings, rules) {
            Ok((_, placed)) => forall|k: int|
                0 <= k < placed.len() ==> (#[trigger] placed[k]).value is Some,
            Err(_) => true,
        },
    decreases instructions.len(),
{
    if instructions.len() > 0 {
        let front = instructions.drop_last();
        let last = instructions.last();
        lemma_placements_have_values(state, front, encodings, rules);
        match run(state, front, encodings, rules) {
            Ok((before, placed)) => {
                match step(before, last, encodings, rules) {
                    Ok((after, more)) => {
                        assert forall|k: int| 0 <= k < (placed + more).len() implies (#[trigger] (
                        placed + more)[k]).value is Some by {
                            if k >= placed.len() {
                                let applied = apply(before, last, encodings)->Ok_0;
                                let rectangle = applied.rectangle->0;
                                lemma_matched_stems(
                                    rules,
                                    applied.text->0,
                                    rectangle[0],
                                    rectangle[1],
                                    k - placed.len(),
                                );
                            }
                        }
                    },
                    Err(_) => {},
                }
            },
            Err(_) => {},
        }
    }
}

} // verus!
