use vstd::prelude::*;

use crate::detectable_words::DetectableWord;

use super::instruction::OutputInstruction;

verus! {

/// Capacity of the main instruction queue of a sequence.
pub const MAX_INSTRUCTIONS: usize = 20;

/// Capacity of the final cleanup queue of a sequence.
pub const MAX_FINAL_CLEANUP_INSTRUCTIONS: usize = 6;

/// Something that carries out output instructions one at a time. It may
/// decline an instruction (a wait whose time has not come); the sequence then
/// keeps that instruction for a later attempt. What it answers may depend on
/// more than its state (a wait reads a clock), so its behaviour is a relation.
pub trait OutputInstructionHandler: View + Sized {
    /// Offered `instruction` in state `state`, the handler may answer
    /// `accepted` (whether it carried the instruction out) and be left in
    /// state `next`.
    spec fn handles(
        state: Self::V,
        instruction: OutputInstruction,
        accepted: bool,
        next: Self::V,
    ) -> bool;

    fn handle(&mut self, instruction: OutputInstruction) -> (accepted: bool)
        ensures
            Self::handles(old(self)@, instruction, accepted, final(self)@),
    ;
}

/// A handler in state `state`, offered `instructions` in order until it
/// declines one, can end in state `end` having carried out the first
/// `accepted` of them (and declined the next one, if there is one).
pub open spec fn runs<H: OutputInstructionHandler>(
    state: H::V,
    instructions: Seq<OutputInstruction>,
    end: H::V,
    accepted: nat,
) -> bool
    decreases instructions.len(),
{
    if instructions.len() == 0 {
        end == state && accepted == 0
    } else {
        exists|answer: bool, next: H::V|
            #[trigger] H::handles(state, instructions[0], answer, next) && if answer {
                accepted > 0 && runs::<H>(next, instructions.drop_first(), end, (accepted - 1) as nat)
            } else {
                end == next && accepted == 0
            }
    }
}

/// A run never carries out more instructions than it is offered.
pub proof fn lemma_runs_bounded<H: OutputInstructionHandler>(
    state: H::V,
    instructions: Seq<OutputInstruction>,
    end: H::V,
    accepted: nat,
)
    requires
        runs::<H>(state, instructions, end, accepted),
    ensures
        accepted <= instructions.len(),
    decreases instructions.len(),
{
    if instructions.len() > 0 {
        let (answer, next) = choose|answer: bool, next: H::V|
            #[trigger] H::handles(state, instructions[0], answer, next) && if answer {
                accepted > 0 && runs::<H>(next, instructions.drop_first(), end, (accepted - 1) as nat)
            } else {
                end == next && accepted == 0
            };
        if answer {
            lemma_runs_bounded::<H>(next, instructions.drop_first(), end, (accepted - 1) as nat);
        }
    }
}

/// A run over `first` that takes all of it, followed by a run over `second`,
/// is one run over both.
pub proof fn lemma_runs_append<H: OutputInstructionHandler>(
    state: H::V,
    first: Seq<OutputInstruction>,
    middle: H::V,
    second: Seq<OutputInstruction>,
    end: H::V,
    accepted: nat,
)
    requires
        runs::<H>(state, first, middle, first.len()),
        runs::<H>(middle, second, end, accepted),
    ensures
        runs::<H>(state, first + second, end, first.len() + accepted),
    decreases first.len(),
{
    if first.len() == 0 {
        assert(first + second =~= second);
    } else {
        let (answer, next) = choose|answer: bool, next: H::V|
            #[trigger] H::handles(state, first[0], answer, next) && if answer {
                first.len() > 0 && runs::<H>(next, first.drop_first(), middle, (first.len() - 1) as nat)
            } else {
                middle == next && first.len() == 0
            };
        lemma_runs_append::<H>(next, first.drop_first(), middle, second, end, accepted);
        assert((first + second).drop_first() =~= first.drop_first() + second);
        assert((first + second)[0] == first[0]);
        assert(H::handles(state, (first + second)[0], answer, next));
    }
}

/// A run that stops inside `first` is the same run over `first` followed by
/// anything.
pub proof fn lemma_runs_stop_early<H: OutputInstructionHandler>(
    state: H::V,
    first: Seq<OutputInstruction>,
    second: Seq<OutputInstruction>,
    end: H::V,
    accepted: nat,
)
    requires
        runs::<H>(state, first, end, accepted),
        accepted < first.len(),
    ensures
        runs::<H>(state, first + second, end, accepted),
    decreases first.len(),
{
    let (answer, next) = choose|answer: bool, next: H::V|
        #[trigger] H::handles(state, first[0], answer, next) && if answer {
            accepted > 0 && runs::<H>(next, first.drop_first(), end, (accepted - 1) as nat)
        } else {
            end == next && accepted == 0
        };
    assert((first + second)[0] == first[0]);
    assert(H::handles(state, (first + second)[0], answer, next));
    if answer {
        lemma_runs_stop_early::<H>(next, first.drop_first(), second, end, (accepted - 1) as nat);
        assert((first + second).drop_first() =~= first.drop_first() + second);
    }
}

/// The mathematical state of an [`OutputSequence`]: both queues in the order
/// the instructions were enqueued, and how many of each have been carried out.
pub struct OutputSequenceView {
    pub detected_word: DetectableWord,
    pub instructions: Seq<OutputInstruction>,
    pub instructions_processed: nat,
    pub final_cleanup_instructions: Seq<OutputInstruction>,
    pub final_cleanup_instructions_processed: nat,
}

impl OutputSequenceView {
    pub open spec fn wf(self) -> bool {
        &&& self.instructions_processed <= self.instructions.len() <= MAX_INSTRUCTIONS
        &&& self.final_cleanup_instructions_processed <= self.final_cleanup_instructions.len()
            <= MAX_FINAL_CLEANUP_INSTRUCTIONS
    }

    /// The main instructions not carried out yet.
    pub open spec fn pending_instructions(self) -> Seq<OutputInstruction> {
        self.instructions.skip(self.instructions_processed as int)
    }

    /// The final cleanup instructions not carried out yet.
    pub open spec fn pending_final_cleanup_instructions(self) -> Seq<OutputInstruction> {
        self.final_cleanup_instructions.skip(self.final_cleanup_instructions_processed as int)
    }
}

impl OutputSequenceView {
    /// Everything not carried out yet, in the order it is due: the pending
    /// main instructions, then the pending final cleanup instructions.
    pub open spec fn remaining_instructions(self) -> Seq<OutputInstruction> {
        self.pending_instructions() + self.pending_final_cleanup_instructions()
    }

    /// How many instructions have been carried out, of both queues.
    pub open spec fn carried_out(self) -> nat {
        self.instructions_processed + self.final_cleanup_instructions_processed
    }
}

/// What one call of `process` can do: the handler, starting in `state`, is
/// offered the main instructions in order until it declines one; only when
/// it has carried out all of them is it offered the final cleanup
/// instructions, again until it declines one. The queues stay as they are,
/// the counts of carried out instructions move on, the handler ends in `end`,
/// and `done` tells whether every instruction is now carried out.
pub open spec fn processes<H: OutputInstructionHandler>(
    before: OutputSequenceView,
    state: H::V,
    after: OutputSequenceView,
    end: H::V,
    done: bool,
) -> bool {
    let main = after.instructions_processed - before.instructions_processed;
    let cleanup = after.final_cleanup_instructions_processed
        - before.final_cleanup_instructions_processed;
    &&& after.detected_word == before.detected_word
    &&& after.instructions == before.instructions
    &&& after.final_cleanup_instructions == before.final_cleanup_instructions
    &&& main >= 0
    &&& cleanup >= 0
    &&& if main == before.pending_instructions().len() {
        exists|middle: H::V|
            #[trigger] runs::<H>(state, before.pending_instructions(), middle, main as nat) && runs::<H>(
                middle,
                before.pending_final_cleanup_instructions(),
                end,
                cleanup as nat,
            )
    } else {
        &&& runs::<H>(state, before.pending_instructions(), end, main as nat)
        &&& cleanup == 0
    }
    &&& done == (after.remaining_instructions().len() == 0)
}

/// One call of `process` is one run of the handler over the remaining
/// instructions, main then cleanup: it carries out the first ones in order,
/// those are gone from what remains, and an instruction it declines is the
/// first one a following call offers.
pub proof fn lemma_process_runs_over_remaining<H: OutputInstructionHandler>(
    before: OutputSequenceView,
    state: H::V,
    after: OutputSequenceView,
    end: H::V,
    done: bool,
)
    requires
        before.wf(),
        processes::<H>(before, state, after, end, done),
    ensures
        after.wf(),
        before.carried_out() <= after.carried_out(),
        after.carried_out() - before.carried_out() <= before.remaining_instructions().len(),
        runs::<H>(state, before.remaining_instructions(), end, (after.carried_out() - before.carried_out()) as nat),
        after.remaining_instructions() == before.remaining_instructions().skip(
            after.carried_out() - before.carried_out(),
        ),
        done == (after.carried_out() - before.carried_out() == before.remaining_instructions().len()),
{
    let pending = before.pending_instructions();
    let cleanup = before.pending_final_cleanup_instructions();
    let main = (after.instructions_processed - before.instructions_processed) as nat;
    let tail = (after.final_cleanup_instructions_processed - before.final_cleanup_instructions_processed) as nat;
    if main == pending.len() {
        let middle = choose|middle: H::V|
            #[trigger] runs::<H>(state, pending, middle, main) && runs::<H>(middle, cleanup, end, tail);
        lemma_runs_bounded::<H>(middle, cleanup, end, tail);
        lemma_runs_append::<H>(state, pending, middle, cleanup, end, tail);
        assert(after.pending_instructions() =~= Seq::empty());
        assert(after.pending_final_cleanup_instructions() =~= cleanup.skip(tail as int));
        assert(after.remaining_instructions() =~= (pending + cleanup).skip((main + tail) as int));
    } else {
        lemma_runs_bounded::<H>(state, pending, end, main);
        lemma_runs_stop_early::<H>(state, pending, cleanup, end, main);
        assert(after.pending_instructions() =~= pending.skip(main as int));
        assert(after.remaining_instructions() =~= (pending + cleanup).skip(main as int));
    }
}

/// After the first `calls` calls of a run of calls of `process`, what
/// remains is what remained at the start, less the instructions carried out.
proof fn lemma_process_calls_prefix<H: OutputInstructionHandler>(
    sequences: Seq<OutputSequenceView>,
    handlers_before: Seq<H::V>,
    handlers_after: Seq<H::V>,
    results: Seq<bool>,
    calls: int,
)
    requires
        sequences.len() == handlers_before.len() + 1,
        handlers_after.len() == handlers_before.len(),
        results.len() == handlers_before.len(),
        sequences[0].wf(),
        forall|j: int|
            0 <= j < handlers_before.len() ==> #[trigger] processes::<H>(
                sequences[j],
                handlers_before[j],
                sequences[j + 1],
                handlers_after[j],
                results[j],
            ),
        0 <= calls < sequences.len(),
    ensures
        sequences[calls].wf(),
        sequences[0].carried_out() <= sequences[calls].carried_out(),
        sequences[calls].carried_out() - sequences[0].carried_out()
            <= sequences[0].remaining_instructions().len(),
        sequences[calls].remaining_instructions() == sequences[0].remaining_instructions().skip(
            sequences[calls].carried_out() - sequences[0].carried_out(),
        ),
    decreases calls,
{
    let r0 = sequences[0].remaining_instructions();
    let c0 = sequences[0].carried_out();
    if calls == 0 {
        assert(r0.skip(0) =~= r0);
    } else {
        let k = calls - 1;
        lemma_process_calls_prefix::<H>(sequences, handlers_before, handlers_after, results, k);
        assert(processes::<H>(
            sequences[k],
            handlers_before[k],
            sequences[k + 1],
            handlers_after[k],
            results[k],
        ));
        lemma_process_runs_over_remaining::<H>(
            sequences[k],
            handlers_before[k],
            sequences[k + 1],
            handlers_after[k],
            results[k],
        );
        let a = sequences[k].carried_out() - c0;
        let b = sequences[k + 1].carried_out() - sequences[k].carried_out();
        assert(r0.skip(a).skip(b) =~= r0.skip(a + b));
    }
}

/// Over any number of calls of `process`, with nothing enqueued in between,
/// the handlers carry out the remaining instructions in order, each exactly
/// once: call `j` is a run over what remains after the instructions the
/// earlier calls carried out, and takes the next ones of them; what remains
/// after call `j` is what remained at the start less all of those.
pub proof fn lemma_process_calls_take_instructions_in_order<H: OutputInstructionHandler>(
    sequences: Seq<OutputSequenceView>,
    handlers_before: Seq<H::V>,
    handlers_after: Seq<H::V>,
    results: Seq<bool>,
)
    requires
        sequences.len() == handlers_before.len() + 1,
        handlers_after.len() == handlers_before.len(),
        results.len() == handlers_before.len(),
        sequences[0].wf(),
        forall|j: int|
            0 <= j < handlers_before.len() ==> #[trigger] processes::<H>(
                sequences[j],
                handlers_before[j],
                sequences[j + 1],
                handlers_after[j],
                results[j],
            ),
    ensures
        forall|j: int|
            0 <= j < sequences.len() ==> #[trigger] sequences[j].remaining_instructions()
                == sequences[0].remaining_instructions().skip(
                sequences[j].carried_out() - sequences[0].carried_out(),
            ),
        forall|j: int|
            0 <= j < sequences.len() ==> sequences[0].carried_out() <= #[trigger] sequences[j].carried_out(),
        forall|j: int|
            0 <= j < handlers_before.len() ==> #[trigger] runs::<H>(
                handlers_before[j],
                sequences[0].remaining_instructions().skip(
                    sequences[j].carried_out() - sequences[0].carried_out(),
                ),
                handlers_after[j],
                (sequences[j + 1].carried_out() - sequences[j].carried_out()) as nat,
            ),
        forall|j: int|
            0 <= j < handlers_before.len() ==> #[trigger] sequences[j].carried_out()
                <= sequences[j + 1].carried_out(),
{
    assert forall|j: int| 0 <= j < sequences.len() implies #[trigger] sequences[j].remaining_instructions()
        == sequences[0].remaining_instructions().skip(
        sequences[j].carried_out() - sequences[0].carried_out(),
    ) by {
        lemma_process_calls_prefix::<H>(sequences, handlers_before, handlers_after, results, j);
    }
    assert forall|j: int| 0 <= j < sequences.len() implies sequences[0].carried_out()
        <= #[trigger] sequences[j].carried_out() by {
        lemma_process_calls_prefix::<H>(sequences, handlers_before, handlers_after, results, j);
    }
    assert forall|j: int| 0 <= j < handlers_before.len() implies #[trigger] runs::<H>(
        handlers_before[j],
        sequences[0].remaining_instructions().skip(
            sequences[j].carried_out() - sequences[0].carried_out(),
        ),
        handlers_after[j],
        (sequences[j + 1].carried_out() - sequences[j].carried_out()) as nat,
    ) by {
        lemma_process_calls_prefix::<H>(sequences, handlers_before, handlers_after, results, j);
        assert(processes::<H>(
            sequences[j],
            handlers_before[j],
            sequences[j + 1],
            handlers_after[j],
            results[j],
        ));
        lemma_process_runs_over_remaining::<H>(
            sequences[j],
            handlers_before[j],
            sequences[j + 1],
            handlers_after[j],
            results[j],
        );
    }
    assert forall|j: int| 0 <= j < handlers_before.len() implies #[trigger] sequences[j].carried_out()
        <= sequences[j + 1].carried_out() by {
        assert(processes::<H>(
            sequences[j],
            handlers_before[j],
            sequences[j + 1],
            handlers_after[j],
            results[j],
        ));
        lemma_process_calls_prefix::<H>(sequences, handlers_before, handlers_after, results, j);
        lemma_process_runs_over_remaining::<H>(
            sequences[j],
            handlers_before[j],
            sequences[j + 1],
            handlers_after[j],
            results[j],
        );
    }
}

/// A handler that never declines takes every instruction it is offered.
pub proof fn lemma_never_declining_handler_takes_all<H: OutputInstructionHandler>(
    state: H::V,
    instructions: Seq<OutputInstruction>,
    end: H::V,
    accepted: nat,
)
    requires
        forall|st: H::V, instruction: OutputInstruction, answer: bool, next: H::V|
            #[trigger] H::handles(st, instruction, answer, next) ==> answer,
        runs::<H>(state, instructions, end, accepted),
    ensures
        accepted == instructions.len(),
    decreases instructions.len(),
{
    if instructions.len() > 0 {
        let (answer, next) = choose|answer: bool, next: H::V|
            #[trigger] H::handles(state, instructions[0], answer, next) && if answer {
                accepted > 0 && runs::<H>(next, instructions.drop_first(), end, (accepted - 1) as nat)
            } else {
                end == next && accepted == 0
            };
        lemma_never_declining_handler_takes_all::<H>(
            next,
            instructions.drop_first(),
            end,
            (accepted - 1) as nat,
        );
    }
}

/// A handler that never declines empties a sequence in one call, main and
/// cleanup instructions alike, and the call reports it.
pub proof fn lemma_never_declining_handler_drains_sequence<H: OutputInstructionHandler>(
    before: OutputSequenceView,
    state: H::V,
    after: OutputSequenceView,
    end: H::V,
    done: bool,
)
    requires
        before.wf(),
        processes::<H>(before, state, after, end, done),
        forall|st: H::V, instruction: OutputInstruction, answer: bool, next: H::V|
            #[trigger] H::handles(st, instruction, answer, next) ==> answer,
    ensures
        done,
        after.remaining_instructions().len() == 0,
{
    lemma_process_runs_over_remaining::<H>(before, state, after, end, done);
    lemma_never_declining_handler_takes_all::<H>(
        state,
        before.remaining_instructions(),
        end,
        (after.carried_out() - before.carried_out()) as nat,
    );
}

/// An ordered, timed queue of output instructions for one detection, with a
/// second queue of cleanup instructions that run once the main queue is done
/// and that a following sequence takes over if this one is cut short.
#[derive(Clone, Copy)]
pub struct OutputSequence {
    pub detected_word: DetectableWord,
    instructions: [Option<OutputInstruction>; MAX_INSTRUCTIONS],
    instructions_cursor: usize,
    instructions_count: usize,
    final_cleanup_instructions: [Option<OutputInstruction>; MAX_FINAL_CLEANUP_INSTRUCTIONS],
    final_cleanup_instructions_cursor: usize,
    final_cleanup_instructions_count: usize,
}

impl View for OutputSequence {
    type V = OutputSequenceView;

    closed spec fn view(&self) -> OutputSequenceView {
        OutputSequenceView {
            detected_word: self.detected_word,
            instructions: Seq::new(
                self.instructions_count as nat,
                |i: int| self.instructions[i]->Some_0,
            ),
            instructions_processed: self.instructions_cursor as nat,
            final_cleanup_instructions: Seq::new(
                self.final_cleanup_instructions_count as nat,
                |i: int| self.final_cleanup_instructions[i]->Some_0,
            ),
            final_cleanup_instructions_processed: self.final_cleanup_instructions_cursor as nat,
        }
    }
}

impl OutputSequence {
    /// The slots in use hold instructions and the cursors stay within them.
    pub closed spec fn wf(&self) -> bool {
        &&& self.instructions_cursor <= self.instructions_count <= MAX_INSTRUCTIONS
        &&& self.final_cleanup_instructions_cursor <= self.final_cleanup_instructions_count
            <= MAX_FINAL_CLEANUP_INSTRUCTIONS
        &&& forall|i: int|
            0 <= i < self.instructions_count ==> #[trigger] self.instructions[i] is Some
        &&& forall|i: int|
            0 <= i < self.final_cleanup_instructions_count
                ==> #[trigger] self.final_cleanup_instructions[i] is Some
    }

    /// The queues of a well-formed sequence stay within their capacities.
    pub proof fn lemma_wf_view(&self)
        requires
            self.wf(),
        ensures
            self@.wf(),
    {
    }

    /// The word whose detection started the sequence.
    pub fn detected_word(&self) -> (detected_word: DetectableWord)
        ensures
            detected_word == self@.detected_word,
    {
        self.detected_word
    }

    /// A sequence for `detected_word` that starts with the final cleanup
    /// instructions that `previous_output_sequence` has not carried out yet.
    pub fn new(detected_word: DetectableWord, previous_output_sequence: Option<Self>) -> (output_sequence: Self)
        requires
            previous_output_sequence matches Some(previous) ==> previous.wf(),
        ensures
            output_sequence.wf(),
            output_sequence@ == (OutputSequenceView {
                detected_word,
                instructions: match previous_output_sequence {
                    Some(previous) => previous@.pending_final_cleanup_instructions(),
                    None => Seq::empty(),
                },
                instructions_processed: 0,
                final_cleanup_instructions: Seq::empty(),
                final_cleanup_instructions_processed: 0,
            }),
    {
        let mut output_sequence = Self {
            detected_word,
            instructions: [None; MAX_INSTRUCTIONS],
            instructions_cursor: 0,
            instructions_count: 0,
            final_cleanup_instructions: [None; MAX_FINAL_CLEANUP_INSTRUCTIONS],
            final_cleanup_instructions_cursor: 0,
            final_cleanup_instructions_count: 0,
        };
        assert(output_sequence@.instructions =~= Seq::empty());
        assert(output_sequence@.final_cleanup_instructions =~= Seq::empty());
        if let Some(previous_output_sequence) = previous_output_sequence {
            let ghost pending = previous_output_sequence@.pending_final_cleanup_instructions();
            let start = previous_output_sequence.final_cleanup_instructions_cursor;
            let mut i = start;
            assert(pending.take(0) =~= Seq::empty());
            while i < previous_output_sequence.final_cleanup_instructions_count
                invariant
                    previous_output_sequence.wf(),
                    pending == previous_output_sequence@.pending_final_cleanup_instructions(),
                    start == previous_output_sequence.final_cleanup_instructions_cursor,
                    start <= i <= previous_output_sequence.final_cleanup_instructions_count,
                    output_sequence.wf(),
                    output_sequence@ == (OutputSequenceView {
                        detected_word,
                        instructions: pending.take(i - start),
                        instructions_processed: 0,
                        final_cleanup_instructions: Seq::empty(),
                        final_cleanup_instructions_processed: 0,
                    }),
                decreases previous_output_sequence.final_cleanup_instructions_count - i,
            {
                if let Some(final_cleanup_instruction) = previous_output_sequence.final_cleanup_instructions[i] {
                    assert(pending.take(i - start).push(final_cleanup_instruction) =~= pending.take(
                        i + 1 - start,
                    ));
                    output_sequence.enqueue_instruction(final_cleanup_instruction);
                    i += 1;
                }
            }
            assert(pending.take(i - start) =~= pending);
        }
        output_sequence
    }

    /// Append an instruction to the main queue.
    pub fn enqueue_instruction(&mut self, instruction: OutputInstruction)
        requires
            old(self).wf(),
            old(self)@.instructions.len() < MAX_INSTRUCTIONS,
        ensures
            final(self).wf(),
            final(self)@ == (OutputSequenceView {
                instructions: old(self)@.instructions.push(instruction),
                ..old(self)@
            }),
    {
        self.instructions[self.instructions_count] = Some(instruction);
        self.instructions_count += 1;
        assert(self@.instructions =~= old(self)@.instructions.push(instruction));
    }

    /// Append an instruction to the final cleanup queue.
    pub fn enqueue_final_cleanup_instruction(&mut self, final_cleanup_instruction: OutputInstruction)
        requires
            old(self).wf(),
            old(self)@.final_cleanup_instructions.len() < MAX_FINAL_CLEANUP_INSTRUCTIONS,
        ensures
            final(self).wf(),
            final(self)@ == (OutputSequenceView {
                final_cleanup_instructions: old(self)@.final_cleanup_instructions.push(
                    final_cleanup_instruction,
                ),
                ..old(self)@
            }),
    {
        self.final_cleanup_instructions[self.final_cleanup_instructions_count] = Some(
            final_cleanup_instruction,
        );
        self.final_cleanup_instructions_count += 1;
        assert(self@.final_cleanup_instructions =~= old(
            self,
        )@.final_cleanup_instructions.push(final_cleanup_instruction));
    }

    /// Hand the pending instructions to `instruction_handler` as `processes`
    /// describes; returns whether every instruction of the sequence has now
    /// been carried out.
    pub fn process<H: OutputInstructionHandler>(&mut self, instruction_handler: &mut H) -> (did_process_all_instructions: bool)
        requires
            old(self).wf(),
        ensures
            final(self).wf(),
            processes::<H>(
                old(self)@,
                old(instruction_handler)@,
                final(self)@,
                final(instruction_handler)@,
                did_process_all_instructions,
            ),
    {
        let ghost s0 = self@;
        let ghost h0 = instruction_handler@;
        let mut did_process_all_instructions = true;
        let mut i = self.instructions_cursor;
        proof {
            if i == self.instructions_count {
                assert(self@.pending_instructions() =~= Seq::empty());
                assert(runs::<H>(h0, self@.pending_instructions(), h0, 0));
            }
        }
        while i < self.instructions_count
            invariant_except_break
                did_process_all_instructions,
                i == self.instructions_count ==> runs::<H>(
                    h0,
                    s0.pending_instructions(),
                    instruction_handler@,
                    (i - s0.instructions_processed) as nat,
                ),
                forall|end: H::V, accepted: nat|
                    #[trigger] runs::<H>(instruction_handler@, self@.pending_instructions(), end, accepted)
                        ==> runs::<H>(
                        h0,
                        s0.pending_instructions(),
                        end,
                        (accepted + (i - s0.instructions_processed)) as nat,
                    ),
            invariant
                self.wf(),
                i == self.instructions_cursor,
                s0.instructions_processed <= i,
                self@ == (OutputSequenceView { instructions_processed: i as nat, ..s0 }),
            ensures
                did_process_all_instructions <==> i == self.instructions_count,
                runs::<H>(
                    h0,
                    s0.pending_instructions(),
                    instruction_handler@,
                    (i - s0.instructions_processed) as nat,
                ),
            decreases self.instructions_count - i,
        {
            if let Some(instruction) = self.instructions[i] {
                let ghost before = instruction_handler@;
                let ghost pending = self@.pending_instructions();
                assert(pending[0] == instruction);
                assert(pending.drop_first() =~= self@.instructions.skip(i + 1));
                did_process_all_instructions = instruction_handler.handle(instruction);
                if did_process_all_instructions {
                    self.instructions_cursor += 1;
                    i += 1;
                    assert forall|end: H::V, accepted: nat|
                        #[trigger] runs::<H>(instruction_handler@, self@.pending_instructions(), end, accepted)
                            implies runs::<H>(before, pending, end, accepted + 1) by {
                        assert(self@.pending_instructions() =~= pending.drop_first());
                        assert(H::handles(before, pending[0], true, instruction_handler@));
                    }
                    if i == self.instructions_count {
                        assert(self@.pending_instructions() =~= Seq::empty());
                        assert(runs::<H>(instruction_handler@, self@.pending_instructions(), instruction_handler@, 0));
                    }
                } else {
                    assert(H::handles(before, pending[0], false, instruction_handler@));
                    assert(runs::<H>(before, pending, instruction_handler@, 0));
                    break;
                }
            }
        }
        proof {
            if did_process_all_instructions {
                assert(self@.pending_instructions() =~= Seq::empty());
                assert(runs::<H>(instruction_handler@, self@.pending_instructions(), instruction_handler@, 0));
            }
        }
        let ghost mid = self@;
        let ghost h1 = instruction_handler@;
        if did_process_all_instructions {
            i = self.final_cleanup_instructions_cursor;
            proof {
                if i == self.final_cleanup_instructions_count {
                    assert(self@.pending_final_cleanup_instructions() =~= Seq::empty());
                    assert(runs::<H>(h1, self@.pending_final_cleanup_instructions(), h1, 0));
                }
            }
            while i < self.final_cleanup_instructions_count
                invariant_except_break
                    did_process_all_instructions,
                    i == self.final_cleanup_instructions_count ==> runs::<H>(
                        h1,
                        s0.pending_final_cleanup_instructions(),
                        instruction_handler@,
                        (i - s0.final_cleanup_instructions_processed) as nat,
                    ),
                    forall|end: H::V, accepted: nat|
                        #[trigger] runs::<H>(
                            instruction_handler@,
                            self@.pending_final_cleanup_instructions(),
                            end,
                            accepted,
                        ) ==> runs::<H>(
                            h1,
                            s0.pending_final_cleanup_instructions(),
                            end,
                            (accepted + (i - s0.final_cleanup_instructions_processed)) as nat,
                        ),
                invariant
                    self.wf(),
                    i == self.final_cleanup_instructions_cursor,
                    s0.final_cleanup_instructions_processed <= i,
                    self@ == (OutputSequenceView { final_cleanup_instructions_processed: i as nat, ..mid }),
                ensures
                    did_process_all_instructions <==> i == self.final_cleanup_instructions_count,
                    runs::<H>(
                        h1,
                        s0.pending_final_cleanup_instructions(),
                        instruction_handler@,
                        (i - s0.final_cleanup_instructions_processed) as nat,
                    ),
                decreases self.final_cleanup_instructions_count - i,
            {
                if let Some(final_cleanup_instruction) = self.final_cleanup_instructions[i] {
                    let ghost before = instruction_handler@;
                    let ghost pending = self@.pending_final_cleanup_instructions();
                    assert(pending[0] == final_cleanup_instruction);
                    assert(pending.drop_first() =~= self@.final_cleanup_instructions.skip(i + 1));
                    did_process_all_instructions = instruction_handler.handle(final_cleanup_instruction);
                    if did_process_all_instructions {
                        self.final_cleanup_instructions_cursor += 1;
                        i += 1;
                        assert forall|end: H::V, accepted: nat|
                            #[trigger] runs::<H>(
                                instruction_handler@,
                                self@.pending_final_cleanup_instructions(),
                                end,
                                accepted,
                            ) implies runs::<H>(before, pending, end, accepted + 1) by {
                            assert(self@.pending_final_cleanup_instructions() =~= pending.drop_first());
                            assert(H::handles(before, pending[0], true, instruction_handler@));
                        }
                        if i == self.final_cleanup_instructions_count {
                            assert(self@.pending_final_cleanup_instructions() =~= Seq::empty());
                            assert(runs::<H>(
                                instruction_handler@,
                                self@.pending_final_cleanup_instructions(),
                                instruction_handler@,
                                0,
                            ));
                        }
                    } else {
                        assert(H::handles(before, pending[0], false, instruction_handler@));
                        assert(runs::<H>(before, pending, instruction_handler@, 0));
                        break;
                    }
                }
            }
            proof {
                if did_process_all_instructions {
                    assert(self@.pending_final_cleanup_instructions() =~= Seq::empty());
                    assert(runs::<H>(
                        instruction_handler@,
                        self@.pending_final_cleanup_instructions(),
                        instruction_handler@,
                        0,
                    ));
                }
                assert(self@.remaining_instructions().len() == 0 <==> did_process_all_instructions);
            }
        } else {
            proof {
                assert(self@.pending_instructions().len() > 0);
            }
        }
        did_process_all_instructions
    }
}

} // verus!
