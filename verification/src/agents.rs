//! Errors of the agent layer. Agents propose; the deterministic gate decides.

use vstd::prelude::*;
use crate::llm::{LlmError, LlmErrorView, llm_error_message};

verus! {

#[derive(Debug)]
pub enum AgentError {
    Llm(LlmError),
    PlanParse(String),
    /// A file-system or process failure, by its message.
    Io(String),
    UnsafePath(String),
    Git(String),
}

pub enum AgentErrorView {
    Llm(LlmErrorView),
    PlanParse(Seq<char>),
    Io(Seq<char>),
    UnsafePath(Seq<char>),
    Git(Seq<char>),
}

impl View for AgentError {
    type V = AgentErrorView;

    open spec fn view(&self) -> AgentErrorView {
        match *self {
            AgentError::Llm(e) => AgentErrorView::Llm(e@),
            AgentError::PlanParse(s) => AgentErrorView::PlanParse(s@),
            AgentError::Io(s) => AgentErrorView::Io(s@),
            AgentError::UnsafePath(s) => AgentErrorView::UnsafePath(s@),
            AgentError::Git(s) => AgentErrorView::Git(s@),
        }
    }
}

pub open spec fn agent_error_message(e: AgentErrorView) -> Seq<char> {
    match e {
        AgentErrorView::Llm(l) => llm_error_message(l),
        AgentErrorView::PlanParse(s) => "could not parse a valid fix plan from the model output: "@ + s,
        AgentErrorView::Io(s) => s,
        AgentErrorView::UnsafePath(s) => "unsafe path in plan edit: "@ + s,
        AgentErrorView::Git(s) => "git operation failed: "@ + s,
    }
}

impl AgentError {
    /// The human-readable message of the error.
    pub fn message(&self) -> (m: String)
        ensures
            m@ == agent_error_message(self@),
    {
        match self {
            AgentError::Llm(e) => e.message(),
            AgentError::PlanParse(s) => {
                let mut m = String::from_str("could not parse a valid fix plan from the model output: ");
                m.append(s.as_str());
                m
            },
            AgentError::Io(s) => s.clone(),
            AgentError::UnsafePath(s) => {
                let mut m = String::from_str("unsafe path in plan edit: ");
                m.append(s.as_str());
                m
            },
            AgentError::Git(s) => {
                let mut m = String::from_str("git operation failed: ");
                m.append(s.as_str());
                m
            },
        }
    }
}

} // verus!
