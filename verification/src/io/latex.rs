//! LaTeX compiler for proof documents (`revtex4-2`, APS journal style).
//!
//! Top-level steps become `\section`s, their children `\subsection`s and all
//! deeper steps `\subsubsection`s; each non-empty math string is set in an
//! `equation` environment, and plain text is escaped.
use vstd::prelude::*;

use crate::algebra::{ProofDocument, ProofStep};
use crate::io::provenance::{block_spec, format_provenance_block, pretty_json, ProvenanceRecord, SessionPdgProvenance};
use crate::text::{push_char, push_str, seq_contains_seq, str_is_empty, to_chars};

verus! {

/// The escaped form of one plain-text character.
pub open spec fn escape_char(c: char) -> Seq<char> {
    if c == '&' { "\\&"@ }
    else if c == '%' { "\\%"@ }
    else if c == '$' { "\\$"@ }
    else if c == '#' { "\\#"@ }
    else if c == '_' { "\\_"@ }
    else if c == '{' { "\\{"@ }
    else if c == '}' { "\\}"@ }
    else if c == '~' { "\\textasciitilde{}"@ }
    else if c == '^' { "\\textasciicircum{}"@ }
    else if c == '\\' { "\\textbackslash{}"@ }
    else { seq![c] }
}

/// A character with a special meaning in LaTeX text mode.
pub open spec fn is_special(c: char) -> bool {
    c == '&' || c == '%' || c == '$' || c == '#' || c == '_' || c == '{' || c == '}'
        || c == '~' || c == '^' || c == '\\'
}

/// Plain text escaped for LaTeX text mode, character by character.
pub open spec fn escape_spec(s: Seq<char>) -> Seq<char>
    decreases s.len(),
{
    if s.len() == 0 {
        Seq::empty()
    } else {
        escape_spec(s.drop_last()) + escape_char(s.last())
    }
}

/// Escape the characters that are special in LaTeX text mode
/// (`& % $ # _ { } ~ ^` and the backslash); all others are kept.
pub fn escape_latex(text: &str) -> (r: String)
    ensures
        r@ == escape_spec(text@),
{
    let cs = to_chars(text);
    let mut r = String::new();
    let mut i: usize = 0;
    while i < cs.len()
        invariant
            cs@ == text@,
            i <= cs@.len(),
            r@ == escape_spec(text@.take(i as int)),
        decreases cs@.len() - i,
    {
        assert(text@.take(i + 1).drop_last() =~= text@.take(i as int));
        let c = cs[i];
        proof {
            reveal_strlit("\\&");
            reveal_strlit("\\%");
            reveal_strlit("\\$");
            reveal_strlit("\\#");
            reveal_strlit("\\_");
            reveal_strlit("\\{");
            reveal_strlit("\\}");
        }
        if c == '&' {
            push_str(&mut r, "\\&");
        } else if c == '%' {
            push_str(&mut r, "\\%");
        } else if c == '$' {
            push_str(&mut r, "\\$");
        } else if c == '#' {
            push_str(&mut r, "\\#");
        } else if c == '_' {
            push_str(&mut r, "\\_");
        } else if c == '{' {
            push_str(&mut r, "\\{");
        } else if c == '}' {
            push_str(&mut r, "\\}");
        } else if c == '~' {
            push_str(&mut r, "\\textasciitilde{}");
        } else if c == '^' {
            push_str(&mut r, "\\textasciicircum{}");
        } else if c == '\\' {
            push_str(&mut r, "\\textbackslash{}");
        } else {
            push_char(&mut r, c);
        }
        i = i + 1;
    }
    assert(text@.take(cs@.len() as int) =~= text@);
    r
}

/// Text without special characters is left unchanged by escaping.
pub proof fn lemma_escape_plain_identity(s: Seq<char>)
    requires
        forall|i: int| 0 <= i < s.len() ==> !is_special(#[trigger] s[i]),
    ensures
        escape_spec(s) == s,
    decreases s.len(),
{
    if s.len() > 0 {
        lemma_escape_plain_identity(s.drop_last());
        assert(!is_special(s[s.len() - 1]));
        assert(escape_spec(s.drop_last()) + seq![s.last()] =~= s);
    }
}

/// Escaping distributes over concatenation.
pub proof fn lemma_escape_concat(a: Seq<char>, b: Seq<char>)
    ensures
        escape_spec(a + b) == escape_spec(a) + escape_spec(b),
    decreases b.len(),
{
    if b.len() == 0 {
        assert(a + b =~= a);
    } else {
        lemma_escape_concat(a, b.drop_last());
        assert((a + b).drop_last() =~= a + b.drop_last());
        assert((a + b).last() == b.last());
    }
}

/// Sectioning command for a nesting depth (0, 1, then 2 and deeper).
pub open spec fn heading_spec(depth: nat) -> Seq<char> {
    if depth == 0 { "\\section"@ } else if depth == 1 { "\\subsection"@ } else { "\\subsubsection"@ }
}

/// Depth of the children of a step at `depth` (deeper levels all render as
/// `\subsubsection`).
pub open spec fn child_depth(depth: nat) -> nat {
    if depth >= 2 { 2 } else { depth + 1 }
}

/// LaTeX of one step (without its children): heading, escaped description
/// paragraph when non-empty, equation when the math is non-empty.
pub open spec fn step_own_text(step: ProofStep, depth: nat) -> Seq<char> {
    heading_spec(depth) + "{"@ + escape_spec(step.title@) + "}\n\n"@
        + (if step.description@.len() > 0 { escape_spec(step.description@) + "\n\n"@ } else { Seq::empty() })
        + (if step.latex_math@.len() > 0 {
            "\\begin{equation}\n"@ + step.latex_math@ + "\n\\end{equation}\n\n"@
        } else {
            Seq::empty()
        })
}

/// LaTeX of a step and all its descendants, in document order.
pub open spec fn render_step_spec(step: ProofStep, depth: nat) -> Seq<char>
    decreases step, 0nat,
{
    step_own_text(step, depth) + render_steps_spec(step.children@, child_depth(depth))
}

/// LaTeX of a list of sibling steps.
pub open spec fn render_steps_spec(steps: Seq<ProofStep>, depth: nat) -> Seq<char>
    decreases steps, 1nat,
{
    if steps.len() == 0 {
        Seq::empty()
    } else {
        render_steps_spec(steps.drop_last(), depth) + render_step_spec(steps.last(), depth)
    }
}

fn push_step_own_text(out: &mut String, step: &ProofStep, depth: usize)
    requires
        depth <= 2,
    ensures
        final(out)@ == old(out)@ + step_own_text(*step, depth as nat),
{
    let ghost start = out@;
    if depth == 0 {
        push_str(out, "\\section");
    } else if depth == 1 {
        push_str(out, "\\subsection");
    } else {
        push_str(out, "\\subsubsection");
    }
    push_str(out, "{");
    let t = escape_latex(step.title.as_str());
    push_str(out, t.as_str());
    push_str(out, "}\n\n");
    let ghost mid = out@;
    if !str_is_empty(step.description.as_str()) {
        let d = escape_latex(step.description.as_str());
        push_str(out, d.as_str());
        push_str(out, "\n\n");
    }
    let ghost mid2 = out@;
    if !str_is_empty(step.latex_math.as_str()) {
        push_str(out, "\\begin{equation}\n");
        push_str(out, step.latex_math.as_str());
        push_str(out, "\n\\end{equation}\n\n");
    }
}

/// Render a step and its children into `out`.
pub fn render_step(out: &mut String, step: &ProofStep, depth: usize)
    requires
        depth <= 2,
    ensures
        final(out)@ == old(out)@ + render_step_spec(*step, depth as nat),
    decreases step,
{
    let ghost start = out@;
    push_step_own_text(out, step, depth);
    let next: usize = if depth >= 2 { 2 } else { depth + 1 };
    let ghost own = out@;
    let mut i: usize = 0;
    while i < step.children.len()
        invariant
            next <= 2,
            next as nat == child_depth(depth as nat),
            i <= step.children@.len(),
            out@ == own + render_steps_spec(step.children@.take(i as int), next as nat),
        decreases step.children@.len() - i,
    {
        assert(step.children@.take(i + 1).drop_last() =~= step.children@.take(i as int));
        assert(decreases_to!(*step => step.children@[i as int]));
        render_step(out, &step.children[i], next);
        i = i + 1;
    }
    assert(step.children@.take(step.children@.len() as int) =~= step.children@);
}

/// The fixed preamble: document class, packages and `\begin{document}`.
pub open spec fn preamble_spec() -> Seq<char> {
    "\\documentclass[aps,prd,twocolumn,superscriptaddress]{revtex4-2}\n\n\\usepackage{amsmath}\n\\usepackage{amssymb}\n\\usepackage{slashed}\n\\usepackage{feynmp-auto}\n\\usepackage{hyperref}\n\n\\begin{document}\n\n"@
}

/// The complete LaTeX source of a proof document.
pub open spec fn document_spec(doc: ProofDocument) -> Seq<char> {
    preamble_spec()
        + "\\title{"@ + escape_spec(doc.title@) + "}\n"@
        + "\\author{SPIRE}\n\\affiliation{Structured Particle Interaction and Reaction Engine}\n\\date{\\today}\n\n"@
        + "\\begin{abstract}\n"@ + escape_spec(doc.abstract_text@) + "\n\\end{abstract}\n\n\\maketitle\n\n"@
        + render_steps_spec(doc.steps@, 0)
        + "\\section{Conclusion}\n\nThis document presented a complete algebraic derivation for the process $"@
        + escape_spec(doc.process@)
        + "$, generated automatically by SPIRE.\n\n\\end{document}\n"@
}

/// Compile a proof document into a complete LaTeX source string: preamble,
/// title block, abstract, the section tree of the steps, and a conclusion
/// naming the process.
pub fn compile_proof_to_latex(doc: &ProofDocument) -> (tex: String)
    ensures
        tex@ == document_spec(*doc),
{
    let mut out = String::from_str("\\documentclass[aps,prd,twocolumn,superscriptaddress]{revtex4-2}\n\n\\usepackage{amsmath}\n\\usepackage{amssymb}\n\\usepackage{slashed}\n\\usepackage{feynmp-auto}\n\\usepackage{hyperref}\n\n\\begin{document}\n\n");
    push_str(&mut out, "\\title{");
    let t = escape_latex(doc.title.as_str());
    push_str(&mut out, t.as_str());
    push_str(&mut out, "}\n");
    push_str(&mut out, "\\author{SPIRE}\n\\affiliation{Structured Particle Interaction and Reaction Engine}\n\\date{\\today}\n\n");
    push_str(&mut out, "\\begin{abstract}\n");
    let a = escape_latex(doc.abstract_text.as_str());
    push_str(&mut out, a.as_str());
    push_str(&mut out, "\n\\end{abstract}\n\n\\maketitle\n\n");
    let ghost head = out@;
    let mut i: usize = 0;
    while i < doc.steps.len()
        invariant
            i <= doc.steps@.len(),
            out@ == head + render_steps_spec(doc.steps@.take(i as int), 0),
        decreases doc.steps@.len() - i,
    {
        assert(doc.steps@.take(i + 1).drop_last() =~= doc.steps@.take(i as int));
        render_step(&mut out, &doc.steps[i], 0);
        i = i + 1;
    }
    assert(doc.steps@.take(doc.steps@.len() as int) =~= doc.steps@);
    push_str(&mut out, "\\section{Conclusion}\n\nThis document presented a complete algebraic derivation for the process $");
    let p = escape_latex(doc.process.as_str());
    push_str(&mut out, p.as_str());
    push_str(&mut out, "$, generated automatically by SPIRE.\n\n\\end{document}\n");
    out
}

/// Compile a proof document with its provenance record embedded as a block
/// of `%` comments before the document; `None` when the record's payload is
/// not valid JSON.
pub fn compile_proof_to_latex_with_provenance(
    doc: &ProofDocument,
    provenance: &ProvenanceRecord,
    pdg: Option<&SessionPdgProvenance>,
) -> (tex: Option<String>)
    ensures
        match pretty_json(provenance.payload@) {
            Some(p) => tex matches Some(t) && t@ == block_spec(provenance.sha256@, "%"@, ""@,
                match pdg { Some(x) => Some(*x), None => None }, p) + seq!['\n'] + document_spec(*doc),
            None => tex is None,
        },
{
    match format_provenance_block(provenance, "%", "", pdg) {
        Some(block) => {
            let mut out = block;
            push_char(&mut out, '\n');
            let body = compile_proof_to_latex(doc);
            push_str(&mut out, body.as_str());
            Some(out)
        }
        None => None,
    }
}


// ---------------------------------------------------------------------------
// What escaping guarantees
// ---------------------------------------------------------------------------

/// A character that, bare in LaTeX text, would start a comment, an
/// alignment tab, math mode, a parameter or a subscript.
pub open spec fn needs_backslash(c: char) -> bool {
    c == '&' || c == '%' || c == '$' || c == '#' || c == '_'
}

/// Escaped text is inert in LaTeX: every `& % $ # _` in it stands right
/// after a backslash, and no `~` or `^` is left in it.
pub proof fn lemma_escaped_text_is_inert(s: Seq<char>)
    ensures
        forall|k: int| 0 <= k < escape_spec(s).len() && needs_backslash(#[trigger] escape_spec(s)[k])
            ==> k > 0 && escape_spec(s)[k - 1] == '\\',
        forall|k: int| 0 <= k < escape_spec(s).len() ==> #[trigger] escape_spec(s)[k] != '~' && escape_spec(s)[k] != '^',
    decreases s.len(),
{
    if s.len() > 0 {
        let p = escape_spec(s.drop_last());
        let c = s.last();
        let e = escape_char(c);
        lemma_escaped_text_is_inert(s.drop_last());
        reveal_strlit("\\&");
        reveal_strlit("\\%");
        reveal_strlit("\\$");
        reveal_strlit("\\#");
        reveal_strlit("\\_");
        reveal_strlit("\\{");
        reveal_strlit("\\}");
        reveal_strlit("\\textasciitilde{}");
        reveal_strlit("\\textasciicircum{}");
        reveal_strlit("\\textbackslash{}");
        assert(escape_spec(s) == p + e);
        assert forall|k: int| 0 <= k < e.len() implies
            (needs_backslash(#[trigger] e[k]) ==> k > 0 && e[k - 1] == '\\') && e[k] != '~' && e[k] != '^' by {
        }
        assert forall|k: int| 0 <= k < (p + e).len() && needs_backslash(#[trigger] (p + e)[k])
            implies k > 0 && (p + e)[k - 1] == '\\' by {
            if k < p.len() {
                assert((p + e)[k] == p[k]);
                assert((p + e)[k - 1] == p[k - 1]);
            } else {
                assert((p + e)[k] == e[k - p.len()]);
                if k - p.len() > 0 {
                    assert((p + e)[k - 1] == e[k - p.len() - 1]);
                }
            }
        }
        assert forall|k: int| 0 <= k < (p + e).len() implies #[trigger] (p + e)[k] != '~' && (p + e)[k] != '^' by {
            if k < p.len() {
                assert((p + e)[k] == p[k]);
            } else {
                assert((p + e)[k] == e[k - p.len()]);
            }
        }
    }
}

proof fn lemma_contains_middle(a: Seq<char>, b: Seq<char>, c: Seq<char>)
    ensures
        seq_contains_seq(a + b + c, b),
{
    assert((a + b + c).subrange(a.len() as int, (a.len() + b.len()) as int) =~= b);
}

/// Rendering a list of steps distributes over concatenation.
proof fn lemma_render_steps_concat(a: Seq<ProofStep>, b: Seq<ProofStep>, depth: nat)
    ensures
        render_steps_spec(a + b, depth) == render_steps_spec(a, depth) + render_steps_spec(b, depth),
    decreases b.len(),
{
    if b.len() == 0 {
        assert(a + b =~= a);
        assert(render_steps_spec(b, depth) =~= Seq::<char>::empty());
    } else {
        lemma_render_steps_concat(a, b.drop_last(), depth);
        assert((a + b).drop_last() =~= a + b.drop_last());
        assert((a + b).last() == b.last());
    }
}

proof fn lemma_document_step_text(doc: ProofDocument, k: int)
    requires
        0 <= k < doc.steps@.len(),
    ensures
        seq_contains_seq(document_spec(doc),
            "\\section{"@ + escape_spec(doc.steps@[k].title@) + "}\n\n"@
            + (if doc.steps@[k].description@.len() > 0 { escape_spec(doc.steps@[k].description@) + "\n\n"@ } else { Seq::empty() })),
{
    let d = document_spec(doc);
    let pre = preamble_spec();
    let t = escape_spec(doc.title@);
    let ab = escape_spec(doc.abstract_text@);
    let pr = escape_spec(doc.process@);
    let auth = "\\author{SPIRE}\n\\affiliation{Structured Particle Interaction and Reaction Engine}\n\\date{\\today}\n\n"@;
    let concl = "\\section{Conclusion}\n\nThis document presented a complete algebraic derivation for the process $"@;
    let steps = doc.steps@;
    let s = steps[k];
    let before = steps.take(k);
    let after = steps.skip(k + 1);
    assert(steps =~= before + seq![s] + after);
    lemma_render_steps_concat(before + seq![s], after, 0);
    lemma_render_steps_concat(before, seq![s], 0);
    assert(seq![s].drop_last() =~= Seq::<ProofStep>::empty());
    assert(seq![s].last() == s);
    assert(render_steps_spec(Seq::<ProofStep>::empty(), 0) =~= Seq::<char>::empty());
    assert(render_steps_spec(seq![s], 0) =~= render_step_spec(s, 0));
    reveal_strlit("\\section");
    reveal_strlit("{");
    reveal_strlit("\\section{");
    assert(heading_spec(0) + "{"@ =~= "\\section{"@);
    let own = "\\section{"@ + escape_spec(s.title@) + "}\n\n"@
        + (if s.description@.len() > 0 { escape_spec(s.description@) + "\n\n"@ } else { Seq::empty() });
    let math = if s.latex_math@.len() > 0 {
        "\\begin{equation}\n"@ + s.latex_math@ + "\n\\end{equation}\n\n"@
    } else {
        Seq::empty()
    };
    assert(step_own_text(s, 0) =~= own + math);
    let xs = pre + "\\title{"@ + t + "}\n"@ + auth + "\\begin{abstract}\n"@ + ab + "\n\\end{abstract}\n\n\\maketitle\n\n"@
        + render_steps_spec(before, 0);
    let ys = math + render_steps_spec(s.children@, child_depth(0)) + render_steps_spec(after, 0) + concl + pr
        + "$, generated automatically by SPIRE.\n\n\\end{document}\n"@;
    assert(d =~= xs + own + ys);
    lemma_contains_middle(xs, own, ys);
}

/// Every piece of plain text a user gives a document reaches the compiled
/// source only in escaped form (and so, by
/// [`lemma_escaped_text_is_inert`], inert): the title in `\title{..}`, the
/// abstract between `\begin{abstract}` and `\end{abstract}`, the process in
/// the conclusion's math, and each top-level step's title in its
/// `\section{..}` heading followed by its escaped description.
pub proof fn lemma_document_escapes_user_text(doc: ProofDocument)
    ensures
        seq_contains_seq(document_spec(doc), "\\title{"@ + escape_spec(doc.title@) + "}\n"@),
        seq_contains_seq(document_spec(doc), "\\begin{abstract}\n"@ + escape_spec(doc.abstract_text@) + "\n\\end{abstract}"@),
        seq_contains_seq(document_spec(doc), "$"@ + escape_spec(doc.process@) + "$"@),
        forall|k: int| 0 <= k < doc.steps@.len() ==> seq_contains_seq(document_spec(doc),
            "\\section{"@ + escape_spec((#[trigger] doc.steps@[k]).title@) + "}\n\n"@
            + (if doc.steps@[k].description@.len() > 0 { escape_spec(doc.steps@[k].description@) + "\n\n"@ } else { Seq::empty() })),
{
    let d = document_spec(doc);
    let pre = preamble_spec();
    let t = escape_spec(doc.title@);
    let ab = escape_spec(doc.abstract_text@);
    let pr = escape_spec(doc.process@);
    let st = render_steps_spec(doc.steps@, 0);
    let auth = "\\author{SPIRE}\n\\affiliation{Structured Particle Interaction and Reaction Engine}\n\\date{\\today}\n\n"@;
    let concl = "\\section{Conclusion}\n\nThis document presented a complete algebraic derivation for the process $"@;
    reveal_strlit("\\begin{abstract}\n");
    reveal_strlit("\n\\end{abstract}\n\n\\maketitle\n\n");
    reveal_strlit("\n\\end{abstract}");
    reveal_strlit("\\maketitle\n\n");
    reveal_strlit("$, generated automatically by SPIRE.\n\n\\end{document}\n");
    reveal_strlit("$");
    reveal_strlit(", generated automatically by SPIRE.\n\n\\end{document}\n");
    reveal_strlit("\\section{Conclusion}\n\nThis document presented a complete algebraic derivation for the process $");
    reveal_strlit("\\section{Conclusion}\n\nThis document presented a complete algebraic derivation for the process ");
    reveal_strlit("}\n");
    reveal_strlit("\n\n\\maketitle\n\n");
    let tail_ab = "\n\n\\maketitle\n\n"@;
    assert("\n\\end{abstract}\n\n\\maketitle\n\n"@ =~= "\n\\end{abstract}"@ + tail_ab);
    assert(d =~= pre + ("\\title{"@ + t + "}\n"@) + (auth + "\\begin{abstract}\n"@ + ab + "\n\\end{abstract}\n\n\\maketitle\n\n"@ + st + concl + pr
        + "$, generated automatically by SPIRE.\n\n\\end{document}\n"@));
    lemma_contains_middle(pre, "\\title{"@ + t + "}\n"@, auth + "\\begin{abstract}\n"@ + ab + "\n\\end{abstract}\n\n\\maketitle\n\n"@ + st + concl + pr
        + "$, generated automatically by SPIRE.\n\n\\end{document}\n"@);
    let x1 = pre + "\\title{"@ + t + "}\n"@ + auth;
    let y1 = tail_ab + st + concl + pr + "$, generated automatically by SPIRE.\n\n\\end{document}\n"@;
    assert(d =~= x1 + ("\\begin{abstract}\n"@ + ab + "\n\\end{abstract}"@) + y1);
    lemma_contains_middle(x1, "\\begin{abstract}\n"@ + ab + "\n\\end{abstract}"@, y1);
    let concl0 = "\\section{Conclusion}\n\nThis document presented a complete algebraic derivation for the process "@;
    let fin = ", generated automatically by SPIRE.\n\n\\end{document}\n"@;
    assert(concl =~= concl0 + "$"@);
    assert("$, generated automatically by SPIRE.\n\n\\end{document}\n"@ =~= "$"@ + fin);
    let x2 = pre + "\\title{"@ + t + "}\n"@ + auth + "\\begin{abstract}\n"@ + ab + "\n\\end{abstract}\n\n\\maketitle\n\n"@ + st + concl0;
    assert(d =~= x2 + ("$"@ + pr + "$"@) + fin);
    lemma_contains_middle(x2, "$"@ + pr + "$"@, fin);
    assert forall|k: int| 0 <= k < doc.steps@.len() implies seq_contains_seq(d,
        "\\section{"@ + escape_spec((#[trigger] doc.steps@[k]).title@) + "}\n\n"@
        + (if doc.steps@[k].description@.len() > 0 { escape_spec(doc.steps@[k].description@) + "\n\n"@ } else { Seq::empty() })) by {
        lemma_document_step_text(doc, k);
    }
}

} // verus!
