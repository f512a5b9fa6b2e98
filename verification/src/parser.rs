//! The parser: a state machine that is fed the tokens of one line at a time
//! and hands out each agent when its declaration is over.
//!
//! No line stops it. A line that makes no sense inside a script is recorded
//! there as an [`Instr::Confusion`]; before the first agent it is dropped.

use crate::ast::{Agent, AgentView, Instr, InstrView, Moment, Script, ScriptView, SquintaxTree};
use crate::lexer::{lexed_line, tokenize_line, Token, TokenView};
use vstd::prelude::*;

verus! {

/// What the tokens of a line say, as far as the parser tells lines apart.
#[derive(Debug, PartialEq, Eq)]
pub enum Statement {
    /// `agent` and a name: a new agent begins.
    Agent(String),
    /// `at`, a moment and an action: an instruction.
    At(Moment, String),
    /// `script` and a quoted name: a new script of the current agent begins.
    Script(String),
    /// Anything else.
    Other,
}

/// What a [`Statement`] is, with sequences for its text.
pub enum StatementView {
    Agent(Seq<char>),
    At(Moment, Seq<char>),
    Script(Seq<char>),
    Other,
}

impl View for Statement {
    type V = StatementView;

    open spec fn view(&self) -> StatementView {
        match self {
            Statement::Agent(name) => StatementView::Agent(name@),
            Statement::At(moment, action) => StatementView::At(*moment, action@),
            Statement::Script(name) => StatementView::Script(name@),
            Statement::Other => StatementView::Other,
        }
    }
}

/// Where the parser stands between two lines.
#[derive(Debug, PartialEq, Eq)]
pub enum State {
    /// No agent has been declared yet.
    LookingForAgent,
    /// Inside the init script of the agent of this name, with the
    /// instructions read so far.
    ReadingInitScript(String, Vec<Instr>),
    /// Inside a named script: the agent with its init script and the
    /// scripts closed so far, the name of the open script, and the
    /// instructions read so far.
    ReadingScript(Agent, String, Vec<Instr>),
}

/// What a [`State`] is, with sequences for its text and lists.
pub enum StateView {
    LookingForAgent,
    ReadingInitScript(Seq<char>, Seq<InstrView>),
    ReadingScript(AgentView, Seq<char>, Seq<InstrView>),
}

impl View for State {
    type V = StateView;

    open spec fn view(&self) -> StateView {
        match self {
            State::LookingForAgent => StateView::LookingForAgent,
            State::ReadingInitScript(name, instrs) => StateView::ReadingInitScript(
                name@,
                instrs.deep_view(),
            ),
            State::ReadingScript(agent, script, instrs) => StateView::ReadingScript(
                agent@,
                script@,
                instrs.deep_view(),
            ),
        }
    }
}

/// The name of every agent's init script.
pub open spec fn init_name() -> Seq<char> {
    seq!['i', 'n', 'i', 't']
}

/// The statement that a line of these tokens makes: one of the three exact
/// shapes, or `Other`.
pub open spec fn statement(tokens: Seq<TokenView>) -> StatementView {
    if tokens.len() == 2 {
        match (tokens[0], tokens[1]) {
            (TokenView::Agent, TokenView::Name(name)) => StatementView::Agent(name),
            (TokenView::Script, TokenView::QuotedString(name)) => StatementView::Script(name),
            _ => StatementView::Other,
        }
    } else if tokens.len() == 3 {
        match (tokens[0], tokens[1], tokens[2]) {
            (
                TokenView::At,
                TokenView::Moment(hours, minutes, seconds, relative),
                TokenView::UnquotedString(action),
            ) => StatementView::At(Moment { hours, minutes, seconds, relative }, action),
            _ => StatementView::Other,
        }
    } else {
        StatementView::Other
    }
}

/// A new agent of this name, with these instructions as its init script
/// and no other script.
pub open spec fn fresh_agent(name: Seq<char>, instrs: Seq<InstrView>) -> AgentView {
    AgentView {
        name,
        init_script: ScriptView { name: init_name(), instrs },
        scripts: Seq::empty(),
    }
}

/// `agent` with one more script behind those it has.
pub open spec fn with_script(agent: AgentView, name: Seq<char>, instrs: Seq<InstrView>)
    -> AgentView {
    AgentView {
        name: agent.name,
        init_script: agent.init_script,
        scripts: agent.scripts.push(ScriptView { name, instrs }),
    }
}

/// The agent that is open in `state`, with the open script closed: what the
/// end of the input, or the next agent declaration, makes of it.
pub open spec fn flushed(state: StateView) -> Option<AgentView> {
    match state {
        StateView::LookingForAgent => None,
        StateView::ReadingInitScript(name, instrs) => Some(fresh_agent(name, instrs)),
        StateView::ReadingScript(agent, script, instrs) => Some(with_script(agent, script, instrs)),
    }
}

/// `state` with `instr` behind the instructions of the open script. Before
/// the first agent no script is open, and nothing changes.
pub open spec fn with_instr(state: StateView, instr: InstrView) -> StateView {
    match state {
        StateView::LookingForAgent => StateView::LookingForAgent,
        StateView::ReadingInitScript(name, instrs) => StateView::ReadingInitScript(
            name,
            instrs.push(instr),
        ),
        StateView::ReadingScript(agent, script, instrs) => StateView::ReadingScript(
            agent,
            script,
            instrs.push(instr),
        ),
    }
}

/// The state after a line of these tokens.
///
/// - An agent declaration opens the init script of a new agent.
/// - A script declaration closes the open script and opens the named one;
///   before the first agent it is dropped.
/// - An instruction goes to the end of the open script.
/// - Any other line goes there too, as a `Confusion` that holds its tokens.
pub open spec fn next(state: StateView, tokens: Seq<TokenView>) -> StateView {
    match statement(tokens) {
        StatementView::Agent(name) => StateView::ReadingInitScript(name, Seq::empty()),
        StatementView::Script(name) => match flushed(state) {
            Some(agent) => StateView::ReadingScript(agent, name, Seq::empty()),
            None => StateView::LookingForAgent,
        },
        StatementView::At(moment, action) => with_instr(state, InstrView::At(moment, action)),
        StatementView::Other => with_instr(state, InstrView::Confusion(tokens)),
    }
}

/// The agent that a line of these tokens completes: the open one, where the
/// line declares the next.
pub open spec fn emitted(state: StateView, tokens: Seq<TokenView>) -> Option<AgentView> {
    if statement(tokens) is Agent {
        flushed(state)
    } else {
        None
    }
}

/// The state in which the parser, started in `state`, is after `lines`:
/// each line is lexed and its tokens are fed to the state machine.
pub open spec fn state_after(state: StateView, lines: Seq<Seq<char>>) -> StateView
    decreases lines.len(),
{
    if lines.len() == 0 {
        state
    } else {
        next(state_after(state, lines.drop_last()), lexed_line(lines.last()))
    }
}

/// The agents that the parser, started in `state`, completes while it
/// reads `lines`, in the order in which they are completed.
pub open spec fn completed(state: StateView, lines: Seq<Seq<char>>) -> Seq<AgentView>
    decreases lines.len(),
{
    if lines.len() == 0 {
        Seq::empty()
    } else {
        completed(state, lines.drop_last()) + optional(
            emitted(state_after(state, lines.drop_last()), lexed_line(lines.last())),
        )
    }
}

/// The agents of a whole input: those completed while its lines are read,
/// and then the one that is still open at its end.
pub open spec fn parsed(lines: Seq<Seq<char>>) -> Seq<AgentView> {
    completed(StateView::LookingForAgent, lines) + optional(
        flushed(state_after(StateView::LookingForAgent, lines)),
    )
}

/// No agent or one, as a sequence.
pub open spec fn optional(agent: Option<AgentView>) -> Seq<AgentView> {
    match agent {
        Some(agent) => seq![agent],
        None => Seq::empty(),
    }
}

/// Tells which statement a line of these tokens makes.
pub fn classify(tokens: &Vec<Token>) -> (s: Statement)
    ensures
        s@ == statement(tokens.deep_view()),
{
    if tokens.len() == 2 {
        match (&tokens[0], &tokens[1]) {
            (Token::Agent, Token::Name(name)) => Statement::Agent(name.clone()),
            (Token::Script, Token::QuotedString(name)) => Statement::Script(name.clone()),
            _ => Statement::Other,
        }
    } else if tokens.len() == 3 {
        match (&tokens[0], &tokens[1], &tokens[2]) {
            (
                Token::At,
                Token::Moment(hours, minutes, seconds, relative),
                Token::UnquotedString(action),
            ) => Statement::At(
                Moment {
                    hours: *hours,
                    minutes: *minutes,
                    seconds: *seconds,
                    relative: *relative,
                },
                action.clone(),
            ),
            _ => Statement::Other,
        }
    } else {
        Statement::Other
    }
}

/// Appends `instr` to `instrs`.
fn record(instrs: &mut Vec<Instr>, instr: Instr)
    ensures
        final(instrs).deep_view() == old(instrs).deep_view().push(instr@),
{
    instrs.push(instr);
}

/// The instructions of a script that was just opened.
fn no_instrs() -> (instrs: Vec<Instr>)
    ensures
        instrs.deep_view() == Seq::<InstrView>::empty(),
{
    Vec::new()
}

/// An agent of this name with these instructions as its init script.
fn open_agent(name: String, instrs: Vec<Instr>) -> (agent: Agent)
    ensures
        agent@ == fresh_agent(name@, instrs.deep_view()),
{
    proof {
        reveal_strlit("init");
        assert("init"@ =~= init_name());
    }
    let agent = Agent {
        name,
        init_script: Script { name: "init".to_owned(), instrs },
        scripts: Vec::new(),
    };
    assert(agent.scripts.deep_view() =~= Seq::empty());
    agent
}

/// `agent` with the script of this name and these instructions added.
fn close_script(agent: Agent, name: String, instrs: Vec<Instr>) -> (closed: Agent)
    ensures
        closed@ == with_script(agent@, name@, instrs.deep_view()),
{
    let Agent { name: agent_name, init_script, scripts } = agent;
    let mut scripts = scripts;
    let script = Script { name, instrs };
    scripts.push(script);
    assert(scripts.deep_view() =~= agent.scripts.deep_view().push(script@));
    Agent { name: agent_name, init_script, scripts }
}

/// Ends the parse: hands out the agent that is still open, if there is one.
pub fn flush(state: State) -> (agent: Option<Agent>)
    ensures
        agent.deep_view() == flushed(state@),
{
    match state {
        State::LookingForAgent => None,
        State::ReadingInitScript(name, instrs) => Some(open_agent(name, instrs)),
        State::ReadingScript(agent, script, instrs) => Some(close_script(agent, script, instrs)),
    }
}

/// Puts `instr` at the end of the script that is open in `state`.
fn add_instr(state: State, instr: Instr) -> (with: State)
    ensures
        with@ == with_instr(state@, instr@),
{
    match state {
        State::LookingForAgent => State::LookingForAgent,
        State::ReadingInitScript(name, instrs) => {
            let mut instrs = instrs;
            record(&mut instrs, instr);
            State::ReadingInitScript(name, instrs)
        },
        State::ReadingScript(agent, script, instrs) => {
            let mut instrs = instrs;
            record(&mut instrs, instr);
            State::ReadingScript(agent, script, instrs)
        },
    }
}

/// Feeds the tokens of one line to the state machine: returns the state
/// after the line, and the agent that the line completes, if any.
pub fn next_state(state: State, tokens: Vec<Token>) -> (r: (State, Option<Agent>))
    ensures
        r.0@ == next(state@, tokens.deep_view()),
        r.1.deep_view() == emitted(state@, tokens.deep_view()),
{
    match classify(&tokens) {
        Statement::Agent(name) => (State::ReadingInitScript(name, no_instrs()), flush(state)),
        Statement::Script(name) => match flush(state) {
            Some(agent) => (State::ReadingScript(agent, name, no_instrs()), None),
            None => (State::LookingForAgent, None),
        },
        Statement::At(moment, action) => (add_instr(state, Instr::At(moment, action)), None),
        Statement::Other => (add_instr(state, Instr::Confusion(tokens)), None),
    }
}

/// Parses a whole input, given line by line.
///
/// The result holds every agent that the input declares, in order, the last
/// one included: the end of the input closes it.
pub fn parse(lines: &Vec<String>) -> (tree: SquintaxTree)
    ensures
        tree@ == parsed(lines.deep_view()),
{
    let mut state = State::LookingForAgent;
    let mut agents: Vec<Agent> = Vec::new();
    let mut i: usize = 0;
    let ghost all = lines.deep_view();
    while i < lines.len()
        invariant
            i <= lines.len(),
            all == lines.deep_view(),
            state@ == state_after(StateView::LookingForAgent, all.take(i as int)),
            agents.deep_view() == completed(StateView::LookingForAgent, all.take(i as int)),
        decreases lines.len() - i,
    {
        let tokens = tokenize_line(lines[i].as_str());
        let (following, agent) = next_state(state, tokens);
        assert(all.take(i + 1).drop_last() =~= all.take(i as int));
        state = following;
        if let Some(agent) = agent {
            agents.push(agent);
        }
        i = i + 1;
    }
    if let Some(agent) = flush(state) {
        agents.push(agent);
    }
    assert(all.take(i as int) =~= all);
    SquintaxTree { agents }
}

} // verus!
