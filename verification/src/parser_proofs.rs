//! What the parser makes of an input, proved of every input: how many
//! agents come out, which agent belongs to which declaration, and what its
//! init script holds.

use crate::ast::{AgentView, InstrView};
use crate::lexer::lexed_line;
use crate::lexer_proofs::theorem_quoted_name_was_quoted;
use crate::parser::{
    completed, emitted, flushed, fresh_agent, init_name, next, optional, parsed, state_after,
    statement, with_instr, StateView, StatementView,
};
use crate::text::{free_of, has_whitespace, trimmed};
use vstd::prelude::*;

verus! {

/// Whether `line` declares an agent.
pub open spec fn declares_agent(line: Seq<char>) -> bool {
    statement(lexed_line(line)) is Agent
}

/// The name of the agent that `line` declares.
pub open spec fn declared_name(line: Seq<char>) -> Seq<char>
    recommends
        declares_agent(line),
{
    match statement(lexed_line(line)) {
        StatementView::Agent(name) => name,
        _ => Seq::empty(),
    }
}

/// Whether `line` is an instruction: `at`, a moment and an action.
pub open spec fn is_instruction(line: Seq<char>) -> bool {
    statement(lexed_line(line)) is At
}

/// The instruction that `line` is.
pub open spec fn instruction_of(line: Seq<char>) -> InstrView
    recommends
        is_instruction(line),
{
    match statement(lexed_line(line)) {
        StatementView::At(moment, action) => InstrView::At(moment, action),
        _ => InstrView::Confusion(lexed_line(line)),
    }
}

/// The instructions that `lines` are, line by line.
pub open spec fn instructions_of(lines: Seq<Seq<char>>) -> Seq<InstrView> {
    Seq::new(lines.len(), |j: int| instruction_of(lines[j]))
}

/// How many of `lines` declare an agent.
pub open spec fn declarations(lines: Seq<Seq<char>>) -> nat
    decreases lines.len(),
{
    if lines.len() == 0 {
        0
    } else if declares_agent(lines.last()) {
        declarations(lines.drop_last()) + 1
    } else {
        declarations(lines.drop_last())
    }
}

/// Reading an input is reading its first part and then, from the state
/// that this leaves, the rest.
pub proof fn lemma_reading_in_two_parts(
    state: StateView,
    first: Seq<Seq<char>>,
    second: Seq<Seq<char>>,
)
    ensures
        state_after(state, first + second) == state_after(state_after(state, first), second),
        completed(state, first + second) == completed(state, first) + completed(
            state_after(state, first),
            second,
        ),
    decreases second.len(),
{
    if second.len() > 0 {
        assert((first + second).drop_last() =~= first + second.drop_last());
        lemma_reading_in_two_parts(state, first, second.drop_last());
    }
}

/// Every declaration opens an agent, and an open agent is completed when
/// the next is declared: the agents completed so far and the one that is
/// open are as many as the declarations read, and the agent that was open
/// at the start.
pub proof fn lemma_agents_counted(state: StateView, lines: Seq<Seq<char>>)
    ensures
        completed(state, lines).len() + optional(flushed(state_after(state, lines))).len()
            == optional(flushed(state)).len() + declarations(lines),
    decreases lines.len(),
{
    if lines.len() > 0 {
        lemma_agents_counted(state, lines.drop_last());
    }
}

/// The parser hands out one agent for each agent declaration of the input,
/// whatever else the input holds.
pub proof fn theorem_one_agent_per_declaration(lines: Seq<Seq<char>>)
    ensures
        parsed(lines).len() == declarations(lines),
{
    lemma_agents_counted(StateView::LookingForAgent, lines);
}

/// Lines before the first agent declaration leave no trace: the agents of
/// an input are those of what follows such lines.
pub proof fn theorem_lines_before_first_agent_are_dropped(
    before: Seq<Seq<char>>,
    rest: Seq<Seq<char>>,
)
    requires
        forall|j: int| 0 <= j < before.len() ==> !declares_agent(#[trigger] before[j]),
    ensures
        parsed(before + rest) == parsed(rest),
{
    lemma_still_looking(before);
    lemma_reading_in_two_parts(StateView::LookingForAgent, before, rest);
}

/// Without an agent declaration the parser goes on looking for one, and
/// completes no agent.
pub proof fn lemma_still_looking(lines: Seq<Seq<char>>)
    requires
        forall|j: int| 0 <= j < lines.len() ==> !declares_agent(#[trigger] lines[j]),
    ensures
        state_after(StateView::LookingForAgent, lines) == StateView::LookingForAgent,
        completed(StateView::LookingForAgent, lines) == Seq::<AgentView>::empty(),
    decreases lines.len(),
{
    if lines.len() > 0 {
        lemma_still_looking(lines.drop_last());
    }
}

/// The instructions of the script that is open in `state`.
pub open spec fn open_instrs(state: StateView) -> Seq<InstrView> {
    match state {
        StateView::LookingForAgent => Seq::empty(),
        StateView::ReadingInitScript(_, instrs) => instrs,
        StateView::ReadingScript(_, _, instrs) => instrs,
    }
}

/// Inside an agent, a line that is neither a declaration nor an
/// instruction is kept as the last instruction of the open script: a
/// `Confusion` that holds the tokens of the line as the lexer gave them.
/// The line completes no agent and changes nothing else.
pub proof fn theorem_confusion_keeps_tokens(state: StateView, line: Seq<char>)
    requires
        flushed(state) is Some,
        statement(lexed_line(line)) is Other,
    ensures
        next(state, lexed_line(line)) == with_instr(state, InstrView::Confusion(lexed_line(line))),
        open_instrs(next(state, lexed_line(line))) == open_instrs(state).push(
            InstrView::Confusion(lexed_line(line)),
        ),
        emitted(state, lexed_line(line)) is None,
{
}

/// Instructions read inside an init script are added to it, in order, and
/// complete no agent.
pub proof fn lemma_reading_instructions(
    name: Seq<char>,
    instrs: Seq<InstrView>,
    lines: Seq<Seq<char>>,
)
    requires
        forall|j: int| 0 <= j < lines.len() ==> is_instruction(#[trigger] lines[j]),
    ensures
        state_after(StateView::ReadingInitScript(name, instrs), lines)
            == StateView::ReadingInitScript(name, instrs + instructions_of(lines)),
        completed(StateView::ReadingInitScript(name, instrs), lines) == Seq::<AgentView>::empty(),
    decreases lines.len(),
{
    if lines.len() > 0 {
        let before = lines.drop_last();
        lemma_reading_instructions(name, instrs, before);
        assert((instrs + instructions_of(before)).push(instruction_of(lines.last())) =~= instrs
            + instructions_of(lines));
    }
}

/// The agent of a declaration.
///
/// Cut an input at one of its agent declarations: what stands before it,
/// the declaration, the instructions that follow it, and the rest, which is
/// empty or starts with the next agent declaration. Then:
///
/// - as many agents come out as the input has agent declarations;
/// - the agent of this declaration is the one with as many agents before
///   it as there are declarations before this one;
/// - it has the declared name, and no script but its init script;
/// - its init script holds the instructions between this declaration and
///   the next (or the end of the input), as many as there are and in their
///   order.
pub proof fn theorem_agent_of_declaration(
    before: Seq<Seq<char>>,
    declaration: Seq<char>,
    instructions: Seq<Seq<char>>,
    after: Seq<Seq<char>>,
)
    requires
        declares_agent(declaration),
        forall|j: int| 0 <= j < instructions.len() ==> is_instruction(#[trigger] instructions[j]),
        after.len() == 0 || declares_agent(after[0]),
    ensures
        ({
            let lines = before + seq![declaration] + instructions + after;
            let agents = parsed(lines);
            let agent = agents[declarations(before) as int];
            &&& agents.len() == declarations(lines)
            &&& declarations(before) < agents.len()
            &&& agent == fresh_agent(declared_name(declaration), instructions_of(instructions))
            &&& agent.name == declared_name(declaration)
            &&& agent.init_script.name == init_name()
            &&& agent.init_script.instrs.len() == instructions.len()
            &&& forall|j: int|
                0 <= j < instructions.len() ==> agent.init_script.instrs[j] == instruction_of(
                    #[trigger] instructions[j],
                )
            &&& agent.scripts.len() == 0
        }),
{
    let start = StateView::LookingForAgent;
    let opening = before + seq![declaration];
    let head = opening + instructions;
    let lines = head + after;
    theorem_one_agent_per_declaration(lines);

    // The declaration opens the agent, with all earlier agents completed.
    assert(opening.drop_last() =~= before);
    lemma_agents_counted(start, opening);

    // The instructions fill its init script.
    lemma_reading_instructions(declared_name(declaration), Seq::empty(), instructions);
    lemma_reading_in_two_parts(start, opening, instructions);
    assert(completed(start, head) =~= completed(start, opening));

    // The next declaration, or the end of the input, completes it.
    lemma_reading_in_two_parts(start, head, after);
    if after.len() > 0 {
        let filled = state_after(start, head);
        let first = seq![after[0]];
        assert(first + after.drop_first() =~= after);
        lemma_reading_in_two_parts(filled, first, after.drop_first());
        assert(completed(filled, first.drop_last()).len() == 0);
    }
}

/// Where the first agent declaration at or behind `from` stands; the length
/// of the input where there is none.
pub open spec fn next_declaration(lines: Seq<Seq<char>>, from: int) -> int
    decreases lines.len() - from,
{
    if from < 0 || from >= lines.len() {
        lines.len() as int
    } else if declares_agent(lines[from]) {
        from
    } else {
        next_declaration(lines, from + 1)
    }
}

/// How many of the lines from `from` up to, not including, `to` are
/// instructions.
pub open spec fn instructions_between(lines: Seq<Seq<char>>, from: int, to: int) -> nat
    decreases to - from,
{
    if from >= to {
        0
    } else if is_instruction(lines[to - 1]) {
        instructions_between(lines, from, to - 1) + 1
    } else {
        instructions_between(lines, from, to - 1)
    }
}

/// The next declaration stands where a declaration stands, or at the end,
/// and no declaration stands before it.
pub proof fn lemma_next_declaration(lines: Seq<Seq<char>>, from: int)
    requires
        0 <= from <= lines.len(),
    ensures
        from <= next_declaration(lines, from) <= lines.len(),
        next_declaration(lines, from) < lines.len() ==> declares_agent(
            lines[next_declaration(lines, from)],
        ),
        forall|j: int|
            from <= j < next_declaration(lines, from) ==> !declares_agent(#[trigger] lines[j]),
    decreases lines.len() - from,
{
    if from < lines.len() && !declares_agent(lines[from]) {
        lemma_next_declaration(lines, from + 1);
    }
}

/// Where every line is an instruction, there are as many instructions as
/// lines.
pub proof fn lemma_instructions_between(lines: Seq<Seq<char>>, from: int, to: int)
    requires
        0 <= from <= to <= lines.len(),
        forall|j: int| from <= j < to ==> is_instruction(#[trigger] lines[j]),
    ensures
        instructions_between(lines, from, to) == to - from,
    decreases to - from,
{
    if from < to {
        lemma_instructions_between(lines, from, to - 1);
    }
}

/// Agents and instructions are counted.
///
/// In an input of agent declarations and instructions only, as many agents
/// come out as there are agent declarations, and the init script of each
/// holds as many instructions as there are instruction lines between its
/// declaration and the next (or the end of the input). The agent of the
/// declaration in line `i` is the one with as many agents before it as
/// there are declarations before line `i`.
pub proof fn theorem_agents_and_instructions_counted(lines: Seq<Seq<char>>, i: int)
    requires
        forall|j: int|
            0 <= j < lines.len() ==> declares_agent(#[trigger] lines[j]) || is_instruction(
                lines[j],
            ),
        0 <= i < lines.len(),
        declares_agent(lines[i]),
    ensures
        ({
            let agents = parsed(lines);
            let agent = agents[declarations(lines.take(i)) as int];
            &&& agents.len() == declarations(lines)
            &&& declarations(lines.take(i)) < agents.len()
            &&& agent.name == declared_name(lines[i])
            &&& agent.init_script.instrs.len() == instructions_between(
                lines,
                i + 1,
                next_declaration(lines, i + 1),
            )
            &&& agent.scripts.len() == 0
        }),
{
    let until = next_declaration(lines, i + 1);
    lemma_next_declaration(lines, i + 1);
    lemma_instructions_between(lines, i + 1, until);
    let before = lines.take(i);
    let instructions = lines.subrange(i + 1, until);
    let after = lines.skip(until);
    assert(before + seq![lines[i]] + instructions + after =~= lines);
    theorem_agent_of_declaration(before, lines[i], instructions, after);
}

/// Whether an agent is as a declaration could have made it: no whitespace
/// in its name, an init script called `init`, and no double quote in the
/// name of any of its scripts.
pub open spec fn well_formed(agent: AgentView) -> bool {
    &&& !has_whitespace(agent.name)
    &&& agent.init_script.name == init_name()
    &&& forall|j: int|
        0 <= j < agent.scripts.len() ==> free_of((#[trigger] agent.scripts[j]).name, '"')
}

/// Whether the agent that is open in `state` is well formed so far.
pub open spec fn state_well_formed(state: StateView) -> bool {
    match state {
        StateView::LookingForAgent => true,
        StateView::ReadingInitScript(name, _) => !has_whitespace(name),
        StateView::ReadingScript(agent, script, _) => well_formed(agent) && free_of(script, '"'),
    }
}

/// The agent that is open in a well-formed state is well formed when the
/// open script is closed.
pub proof fn lemma_flushed_is_well_formed(state: StateView)
    requires
        state_well_formed(state),
    ensures
        flushed(state) matches Some(agent) ==> well_formed(agent),
{
}

/// A line from the lexer keeps the open agent well formed: the lexer gives
/// no name with whitespace in it, and no quoted name with a double quote
/// in it.
pub proof fn lemma_line_keeps_well_formed(state: StateView, line: Seq<char>)
    requires
        state_well_formed(state),
    ensures
        state_well_formed(next(state, lexed_line(line))),
{
    lemma_flushed_is_well_formed(state);
    if statement(lexed_line(line)) is Script {
        theorem_quoted_name_was_quoted(trimmed(trimmed(line).skip(6)));
    }
}

/// Reading from the start keeps the open agent well formed and completes
/// well-formed agents only.
pub proof fn lemma_run_keeps_well_formed(lines: Seq<Seq<char>>)
    ensures
        state_well_formed(state_after(StateView::LookingForAgent, lines)),
        forall|k: int|
            0 <= k < completed(StateView::LookingForAgent, lines).len() ==> well_formed(
                #[trigger] completed(StateView::LookingForAgent, lines)[k],
            ),
    decreases lines.len(),
{
    if lines.len() > 0 {
        let start = StateView::LookingForAgent;
        let earlier = completed(start, lines.drop_last());
        let previous = state_after(start, lines.drop_last());
        lemma_run_keeps_well_formed(lines.drop_last());
        lemma_flushed_is_well_formed(previous);
        lemma_line_keeps_well_formed(previous, lines.last());
        assert forall|k: int| 0 <= k < completed(start, lines).len() implies well_formed(
            #[trigger] completed(start, lines)[k],
        ) by {
            if k < earlier.len() {
                assert(completed(start, lines)[k] == earlier[k]);
            }
        }
    }
}

/// Every agent that the parser hands out is well formed: its name holds no
/// whitespace, it has its init script, called `init`, and the names of its
/// other scripts hold no double quote.
pub proof fn theorem_agents_are_well_formed(lines: Seq<Seq<char>>, k: int)
    requires
        0 <= k < parsed(lines).len(),
    ensures
        well_formed(parsed(lines)[k]),
{
    let start = StateView::LookingForAgent;
    lemma_run_keeps_well_formed(lines);
    lemma_flushed_is_well_formed(state_after(start, lines));
    if k < completed(start, lines).len() {
        assert(parsed(lines)[k] == completed(start, lines)[k]);
    }
}

} // verus!
