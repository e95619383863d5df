//! The filtergraph that lays timeline effects over the finished picture.
//!
//! Almost no filter can be ramped, so each effect splits the picture in
//! two: one branch is filtered, the other left alone, and the two are
//! blended with a weight that is a function of time. Effects apply in
//! order, each stage taking the picture the one before it left. The graph
//! has one input and one output, both unlabelled, so it can go straight to
//! `-vf`.
//!
//! The labels and the plumbing between stages are built here. The pieces
//! that go into a stage - the catalogue's chain, the weight and gate
//! expressions with their times - come from the caller.

use vstd::prelude::*;

use crate::scan::{decimal, push_decimal};
use crate::text::{push_text, string_from_chars};

verus! {

/// What one contributing effect puts into the graph.
pub struct EffectStage {
    /// The catalogue's filter chain for the effect.
    pub chain: String,
    /// How much of the filtered branch to show, as an expression in `T`.
    pub weight: String,
    /// When the blend runs at all, as an expression in `t`.
    pub gate: String,
}

/// A pad label in brackets: a letter for the pad's role and the stage's
/// index.
pub open spec fn pad(role: char, index: nat) -> Seq<char> {
    seq!['[', role] + decimal(index) + seq![']']
}

/// One stage without its output label: it takes the previous stage's
/// output (or, first, the graph's unlabelled input), splits it into a clean
/// and a source branch, filters the source, and blends the two under the
/// gate.
pub open spec fn stage_body(index: nat, stage: EffectStage) -> Seq<char> {
    (if index == 0 {
        Seq::empty()
    } else {
        pad('o', (index - 1) as nat)
    }) + "split"@ + pad('c', index) + pad('s', index) + ";"@ + pad('s', index) + stage.chain@ + pad(
        'f',
        index,
    ) + ";"@ + pad('c', index) + pad('f', index) + "blend=all_expr='"@ + stage.weight@
        + "':enable='"@ + stage.gate@ + "'"@
}

/// The first `count` stages, each with its output label and a `;` after it.
pub open spec fn labelled_stages(stages: Seq<EffectStage>, count: nat) -> Seq<char>
    decreases count,
{
    if count == 0 {
        Seq::empty()
    } else {
        let index = (count - 1) as nat;
        labelled_stages(stages, index) + stage_body(index, stages[index as int]) + pad('o', index)
            + ";"@
    }
}

/// The graph for these stages: every stage but the last labelled and
/// joined by `;`, the last left unlabelled as `-vf` wants it; `None` when
/// no effect contributes.
pub open spec fn graph_text(stages: Seq<EffectStage>) -> Option<Seq<char>> {
    if stages.len() == 0 {
        None
    } else {
        let last = (stages.len() - 1) as nat;
        Some(labelled_stages(stages, last) + stage_body(last, stages[last as int]))
    }
}

fn push_pad(out: &mut Vec<char>, role: char, index: u64)
    ensures
        final(out)@ == old(out)@ + pad(role, index as nat),
{
    out.push('[');
    out.push(role);
    push_decimal(out, index);
    out.push(']');
    assert(out@ =~= old(out)@ + pad(role, index as nat));
}

fn push_stage_body(out: &mut Vec<char>, index: u64, stage: &EffectStage)
    ensures
        final(out)@ == old(out)@ + stage_body(index as nat, *stage),
{
    let ghost start = out@;
    if index > 0 {
        push_pad(out, 'o', index - 1);
    }
    let ghost opened = out@;
    push_text(out, "split");
    push_pad(out, 'c', index);
    push_pad(out, 's', index);
    push_text(out, ";");
    push_pad(out, 's', index);
    push_text(out, stage.chain.as_str());
    push_pad(out, 'f', index);
    push_text(out, ";");
    push_pad(out, 'c', index);
    push_pad(out, 'f', index);
    push_text(out, "blend=all_expr='");
    push_text(out, stage.weight.as_str());
    push_text(out, "':enable='");
    push_text(out, stage.gate.as_str());
    push_text(out, "'");
    proof {
        assert(opened =~= start + (if index == 0 {
            Seq::<char>::empty()
        } else {
            pad('o', (index - 1) as nat)
        }));
        assert(out@ =~= old(out)@ + stage_body(index as nat, *stage));
    }
}

/// The `-vf` graph for the contributing effects, in order; see
/// `graph_text`.
pub fn effect_graph_of(stages: &Vec<EffectStage>) -> (graph: Option<String>)
    ensures
        match graph_text(stages@) {
            Some(text) => graph matches Some(graph) && graph@ == text,
            None => graph is None,
        },
{
    if stages.len() == 0 {
        return None;
    }
    let last = stages.len() - 1;
    let mut out: Vec<char> = Vec::new();
    let mut i: usize = 0;
    while i < last
        invariant
            last == stages@.len() - 1,
            i <= last,
            out@ == labelled_stages(stages@, i as nat),
        decreases last - i,
    {
        push_stage_body(&mut out, i as u64, &stages[i]);
        push_pad(&mut out, 'o', i as u64);
        push_text(&mut out, ";");
        i += 1;
    }
    push_stage_body(&mut out, last as u64, &stages[last]);
    Some(string_from_chars(&out))
}


proof fn lemma_labelled_starts(stages: Seq<EffectStage>, count: nat)
    requires
        count >= 1,
        count <= stages.len(),
    ensures
        labelled_stages(stages, count).len() >= 5,
        labelled_stages(stages, count).take(5) == "split"@,
    decreases count,
{
    reveal_strlit("split");
    let index = (count - 1) as nat;
    if count == 1 {
        assert(labelled_stages(stages, 0) =~= Seq::<char>::empty());
        assert(stage_body(0, stages[0]).take(5) =~= "split"@);
        assert(labelled_stages(stages, 1).take(5) =~= stage_body(0, stages[0]).take(5));
    } else {
        lemma_labelled_starts(stages, index);
        assert(labelled_stages(stages, count).take(5) =~= labelled_stages(stages, index).take(5));
    }
}

/// A graph runs from the unlabelled input to the unlabelled output `-vf`
/// wants: it begins by splitting the input and ends with the last blend's
/// gate, not with a pad label.
pub proof fn lemma_graph_is_unlabelled_at_both_ends(stages: Seq<EffectStage>)
    requires
        stages.len() > 0,
    ensures
        graph_text(stages) matches Some(text) && {
            &&& text.len() >= 5
            &&& text.take(5) == "split"@
            &&& text.last() == '\''
        },
{
    reveal_strlit("split");
    reveal_strlit("'");
    let last = (stages.len() - 1) as nat;
    let body = stage_body(last, stages[last as int]);
    let text = labelled_stages(stages, last) + body;
    assert(body.last() == '\'');
    assert(text.last() == body.last());
    if last == 0 {
        assert(labelled_stages(stages, 0) =~= Seq::<char>::empty());
        assert(text =~= body);
        assert(body.take(5) =~= "split"@);
    } else {
        lemma_labelled_starts(stages, last);
        assert(text.take(5) =~= labelled_stages(stages, last).take(5));
    }
}

} // verus!
