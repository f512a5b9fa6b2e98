//! The syntax tree that parsing builds: agents, their scripts and the
//! instructions in them.

use crate::lexer::{Token, TokenView};
use vstd::prelude::*;

verus! {

/// A time of day, or a span of time from now where `relative` is set.
///
/// The fields are not held to clock ranges: 99 hours is a moment.
#[derive(Clone, Copy, Debug, PartialEq, Eq)]
pub struct Moment {
    pub hours: u8,
    pub minutes: u8,
    pub seconds: u8,
    pub relative: bool,
}

/// One line of a script.
#[derive(Debug, PartialEq, Eq)]
pub enum Instr {
    /// An action and the moment at which it is due.
    At(Moment, String),
    /// A line that made no sense where it stood, kept token by token.
    Confusion(Vec<Token>),
}

/// A named list of instructions.
#[derive(Debug, PartialEq, Eq)]
pub struct Script {
    pub name: String,
    pub instrs: Vec<Instr>,
}

/// A named agent: its init script, and the scripts declared after it.
#[derive(Debug, PartialEq, Eq)]
pub struct Agent {
    pub name: String,
    pub init_script: Script,
    pub scripts: Vec<Script>,
}

/// A parsed file: its agents, in the order of their declarations.
#[derive(Debug, PartialEq, Eq)]
pub struct SquintaxTree {
    pub agents: Vec<Agent>,
}

/// What an [`Instr`] is, with sequences for its text and tokens.
pub enum InstrView {
    At(Moment, Seq<char>),
    Confusion(Seq<TokenView>),
}

/// What a [`Script`] is, with sequences for its name and instructions.
pub struct ScriptView {
    pub name: Seq<char>,
    pub instrs: Seq<InstrView>,
}

/// What an [`Agent`] is, with sequences for its name and scripts.
pub struct AgentView {
    pub name: Seq<char>,
    pub init_script: ScriptView,
    pub scripts: Seq<ScriptView>,
}

impl View for Instr {
    type V = InstrView;

    open spec fn view(&self) -> InstrView {
        match self {
            Instr::At(moment, action) => InstrView::At(*moment, action@),
            Instr::Confusion(tokens) => InstrView::Confusion(tokens.deep_view()),
        }
    }
}

impl DeepView for Instr {
    type V = InstrView;

    open spec fn deep_view(&self) -> InstrView {
        self@
    }
}

impl View for Script {
    type V = ScriptView;

    open spec fn view(&self) -> ScriptView {
        ScriptView { name: self.name@, instrs: self.instrs.deep_view() }
    }
}

impl DeepView for Script {
    type V = ScriptView;

    open spec fn deep_view(&self) -> ScriptView {
        self@
    }
}

impl View for Agent {
    type V = AgentView;

    open spec fn view(&self) -> AgentView {
        AgentView {
            name: self.name@,
            init_script: self.init_script@,
            scripts: self.scripts.deep_view(),
        }
    }
}

impl DeepView for Agent {
    type V = AgentView;

    open spec fn deep_view(&self) -> AgentView {
        self@
    }
}

impl View for SquintaxTree {
    type V = Seq<AgentView>;

    open spec fn view(&self) -> Seq<AgentView> {
        self.agents.deep_view()
    }
}

impl DeepView for SquintaxTree {
    type V = Seq<AgentView>;

    open spec fn deep_view(&self) -> Seq<AgentView> {
        self@
    }
}

} // verus!
