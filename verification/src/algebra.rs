//! Proof documents: the step-by-step derivations produced for a process,
//! which the LaTeX compiler renders.
use vstd::prelude::*;

verus! {

/// One step of a derivation, with optional sub-steps.
#[derive(Debug)]
pub struct ProofStep {
    /// Heading of the step.
    pub title: String,
    /// Prose description (plain text).
    pub description: String,
    /// LaTeX math of the step (written verbatim; may be empty).
    pub latex_math: String,
    /// Sub-steps.
    pub children: Vec<ProofStep>,
}

/// A complete derivation document.
#[derive(Debug)]
pub struct ProofDocument {
    /// Title of the document.
    pub title: String,
    /// Abstract (plain text).
    pub abstract_text: String,
    /// Label of the process derived.
    pub process: String,
    /// Top-level steps.
    pub steps: Vec<ProofStep>,
}

impl ProofStep {
    /// A step without sub-steps.
    pub fn leaf(title: &str, description: &str, latex_math: &str) -> (s: ProofStep)
        ensures
            s.title@ == title@,
            s.description@ == description@,
            s.latex_math@ == latex_math@,
            s.children@.len() == 0,
    {
        ProofStep {
            title: String::from_str(title),
            description: String::from_str(description),
            latex_math: String::from_str(latex_math),
            children: Vec::new(),
        }
    }

    /// A step with the given sub-steps.
    pub fn with_children(title: &str, description: &str, latex_math: &str, children: Vec<ProofStep>) -> (s: ProofStep)
        ensures
            s.title@ == title@,
            s.description@ == description@,
            s.latex_math@ == latex_math@,
            s.children == children,
    {
        ProofStep {
            title: String::from_str(title),
            description: String::from_str(description),
            latex_math: String::from_str(latex_math),
            children,
        }
    }
}

} // verus!
