use spire_kernel::algebra::{ProofDocument, ProofStep};
use spire_kernel::io::latex::{compile_proof_to_latex, compile_proof_to_latex_with_provenance, escape_latex};
use spire_kernel::io::provenance::{record_for_payload, ProvenanceRecord};

fn doc(title: &str, abstract_text: &str, process: &str, steps: Vec<ProofStep>) -> ProofDocument {
    ProofDocument { title: title.into(), abstract_text: abstract_text.into(), process: process.into(), steps }
}

#[test]
fn compile_minimal_document() {
    let d = doc("Minimal Test", "A minimal proof document.", "e+ e- -> gamma", vec![]);
    let tex = compile_proof_to_latex(&d);
    assert!(tex.contains(r"\documentclass[aps,prd,twocolumn,superscriptaddress]{revtex4-2}"));
    assert!(tex.contains(r"\begin{document}"));
    assert!(tex.contains(r"\end{document}"));
    assert!(tex.contains(r"\title{Minimal Test}"));
    assert!(tex.contains(r"\begin{abstract}"));
    assert!(tex.contains("A minimal proof document."));
}

#[test]
fn compile_with_single_step() {
    let d = doc(
        "Single Step",
        "One step.",
        "A -> B C",
        vec![ProofStep::leaf("Feynman Rules", "Apply Feynman rules.", r"\mathcal{M} = g \bar{u} \gamma^\mu u")],
    );
    let tex = compile_proof_to_latex(&d);
    assert!(tex.contains(r"\section{Feynman Rules}"));
    assert!(tex.contains(r"\begin{equation}"));
    assert!(tex.contains(r"\mathcal{M} = g \bar{u} \gamma^\mu u"));
    assert!(tex.contains(r"\end{equation}"));
}

#[test]
fn compile_with_nested_steps() {
    let child = ProofStep::leaf("Sub-step", "A sub-derivation.", r"\alpha");
    let parent = ProofStep::with_children("Main Section", "Parent description.", r"\beta", vec![child]);
    let tex = compile_proof_to_latex(&doc("Nested", "Nested test.", "X -> Y", vec![parent]));
    assert!(tex.contains(r"\section{Main Section}"));
    assert!(tex.contains(r"\subsection{Sub-step}"));
}

#[test]
fn compile_deep_nesting_clamps_to_subsubsection() {
    let leaf = ProofStep::leaf("Leaf", "Deep.", r"\delta");
    let l2 = ProofStep::with_children("L2", "Level 2.", r"\gamma", vec![leaf]);
    let l1 = ProofStep::with_children("L1", "Level 1.", r"\beta", vec![l2]);
    let l0 = ProofStep::with_children("L0", "Level 0.", r"\alpha", vec![l1]);
    let tex = compile_proof_to_latex(&doc("Deep", "Deep nesting.", "A -> B", vec![l0]));
    assert!(tex.contains(r"\section{L0}"));
    assert!(tex.contains(r"\subsection{L1}"));
    assert!(tex.contains(r"\subsubsection{L2}"));
    assert!(tex.contains(r"\subsubsection{Leaf}"));
}

#[test]
fn escape_latex_special_chars() {
    assert_eq!(escape_latex("a & b"), r"a \& b");
    assert_eq!(escape_latex("100%"), r"100\%");
    assert_eq!(escape_latex("$x$"), r"\$x\$");
    assert_eq!(escape_latex("a_b"), r"a\_b");
    assert_eq!(escape_latex("a#b"), r"a\#b");
    assert_eq!(escape_latex("{x}"), r"\{x\}");
}

#[test]
fn escape_latex_tilde_caret_backslash() {
    assert_eq!(escape_latex("~^\\"), r"\textasciitilde{}\textasciicircum{}\textbackslash{}");
    assert_eq!(escape_latex("plain text"), "plain text");
}

#[test]
fn empty_math_skips_equation_env() {
    let tex = compile_proof_to_latex(&doc("No Math", "No equations.", "A -> B", vec![ProofStep::leaf("Text Only", "Just text.", "")]));
    assert!(tex.contains(r"\section{Text Only}"));
    assert!(!tex.contains(r"\begin{equation}"));
}

#[test]
fn conclusion_contains_process() {
    let tex = compile_proof_to_latex(&doc("T", "A.", "e+ e- -> mu+ mu-", vec![]));
    assert!(tex.contains("e+ e- -> mu+ mu-"));
    assert!(tex.contains(r"\section{Conclusion}"));
}

#[test]
fn special_chars_in_title_escaped() {
    let tex = compile_proof_to_latex(&doc("sigma(e+e- -> mu+mu-)", "Test.", "test", vec![]));
    assert!(tex.contains(r"\title{sigma(e+e- -> mu+mu-)}"));
}

#[test]
fn empty_description_has_no_paragraph() {
    let tex = compile_proof_to_latex(&doc("T", "A.", "p", vec![ProofStep::leaf("S", "", "x")]));
    assert!(tex.contains("\\section{S}\n\n\\begin{equation}\nx\n\\end{equation}\n\n\\section{Conclusion}"));
}

#[test]
fn compile_with_provenance_includes_hash() {
    let record = record_for_payload("{\"seed\":42,\"version\":\"0.1.0\"}".to_string());
    let d = doc("Provenance Test", "With provenance.", "e+ e- -> gamma", vec![]);
    let tex = compile_proof_to_latex_with_provenance(&d, &record, None).unwrap();
    assert!(tex.contains("% SPIRE PROVENANCE HASH:"));
    assert!(tex.contains(&record.sha256));
    assert!(tex.contains("% BEGIN PROVENANCE PAYLOAD"));
    assert!(tex.contains("% END PROVENANCE PAYLOAD"));
    assert!(tex.contains(r"\documentclass"));
    assert!(tex.contains(r"\end{document}"));
    let bad = ProvenanceRecord { sha256: String::new(), payload: "{not json".into() };
    assert!(compile_proof_to_latex_with_provenance(&d, &bad, None).is_none());
}
