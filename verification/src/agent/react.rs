//! The decisions of the reasoning-and-acting loop: when to call the model again,
//! when to give up, what the final content is, how tool calls are batched, and how
//! the rounds of memory consolidation proceed. Calling the model, running the tools
//! and summarising memory happen around these decisions.

use vstd::prelude::*;

use crate::pattern::{replace_all_or_same, replaced_or_same};
use crate::text::{
    chars_of, decimal, decimal_chars, join_spec, join_strings, push_all, push_str, string_of, trim_spec, trim_str,
    views,
};

verus! {

/// The reply when the loop used up its iterations without a final answer.
pub open spec fn max_iterations_text(n: nat) -> Seq<char> {
    "I reached the maximum number of tool call iterations ("@ + decimal(n)
        + ") without completing the task. You can try breaking the task into smaller steps."@
}

/// The content that stands in for an empty final answer.
pub open spec fn empty_placeholder() -> Seq<char> {
    "(empty)"@
}

/// The final content of a run is never empty: an empty answer is replaced.
pub proof fn law_final_content_not_empty(content: Seq<char>)
    ensures
        (if content.len() == 0 {
            empty_placeholder()
        } else {
            content
        }).len() > 0,
{
    reveal_strlit("(empty)");
}

/// What the loop does at the top of an iteration.
pub enum ReActStep {
    /// Call the model.
    CallModel,
    /// Stop: the iterations are used up; the warning text is the final content.
    GiveUp(String),
}

/// What the loop does with the model's response.
pub enum ReActReply {
    /// The response asked for tools: run them and iterate again.
    RunTools,
    /// The response is the final answer, with this content.
    Finish(String),
}

/// The state of one run of the loop.
pub struct ReActState {
    /// Iterations started so far.
    pub iteration: usize,
    /// The most iterations allowed.
    pub max_iterations: usize,
    /// The names of the tools run so far, in order.
    pub tools_used: Vec<String>,
}

impl ReActState {
    /// The loop's invariant: it never starts more iterations than allowed.
    pub open spec fn wf(self) -> bool {
        self.iteration <= self.max_iterations
    }

    /// A fresh run allowing `max_iterations` iterations.
    pub fn new(max_iterations: usize) -> (s: Self)
        ensures
            s.wf(),
            s.iteration == 0,
            s.max_iterations == max_iterations,
            s.tools_used@.len() == 0,
    {
        ReActState { iteration: 0, max_iterations, tools_used: Vec::new() }
    }

    /// The top of an iteration: while iterations remain, one more starts and the
    /// model is called; otherwise the loop gives up with the warning that names
    /// the limit.
    pub fn next_step(&mut self) -> (r: ReActStep)
        requires
            old(self).wf(),
        ensures
            final(self).wf(),
            final(self).max_iterations == old(self).max_iterations,
            final(self).tools_used@ == old(self).tools_used@,
            old(self).iteration < old(self).max_iterations ==> r is CallModel && final(self).iteration
                == old(self).iteration + 1,
            old(self).iteration >= old(self).max_iterations ==> (r matches ReActStep::GiveUp(w) && w@
                == max_iterations_text(old(self).max_iterations as nat)) && final(self).iteration == old(
                self,
            ).iteration,
    {
        if self.iteration < self.max_iterations {
            self.iteration = self.iteration + 1;
            ReActStep::CallModel
        } else {
            ReActStep::GiveUp(max_iterations_reply(self.max_iterations))
        }
    }

    /// What to do with a response: tools were asked for, so run them; else finish
    /// with the content, or with `(empty)` when the content is empty.
    pub fn on_response(&self, content: &str, tool_call_count: usize) -> (r: ReActReply)
        ensures
            tool_call_count > 0 ==> r is RunTools,
            tool_call_count == 0 ==> (r matches ReActReply::Finish(c) && c@ == (if content@.len() == 0 {
                empty_placeholder()
            } else {
                content@
            })),
    {
        if tool_call_count > 0 {
            ReActReply::RunTools
        } else if content.is_empty() {
            ReActReply::Finish(String::from_str("(empty)"))
        } else {
            ReActReply::Finish(String::from_str(content))
        }
    }

    /// Records that a tool ran.
    pub fn record_tool(&mut self, name: String)
        ensures
            final(self).iteration == old(self).iteration,
            final(self).max_iterations == old(self).max_iterations,
            final(self).tools_used@ == old(self).tools_used@.push(name),
    {
        self.tools_used.push(name);
    }
}

/// The warning given when the loop used up `max_iterations` iterations.
pub fn max_iterations_reply(max_iterations: usize) -> (r: String)
    ensures
        r@ == max_iterations_text(max_iterations as nat),
{
    let mut v = chars_of("I reached the maximum number of tool call iterations (");
    let d = decimal_chars(max_iterations as u64);
    push_all(&mut v, d.as_slice());
    push_str(&mut v, ") without completing the task. You can try breaking the task into smaller steps.");
    string_of(v.as_slice())
}

/// The tool hint shown while tools run: the calls' previews joined with `, `.
pub fn format_tool_hint(previews: &[String]) -> (r: String)
    ensures
        r@ == join_spec(views(previews@), ", "@),
{
    join_strings(previews, ", ")
}

/// The batches concatenated, in order.
pub open spec fn flatten(batches: Seq<Seq<usize>>) -> Seq<usize>
    decreases batches.len(),
{
    if batches.len() == 0 {
        seq![]
    } else {
        flatten(batches.drop_last()) + batches.last()
    }
}

/// The indices `0..n`, in order.
pub open spec fn indices(n: int) -> Seq<usize> {
    Seq::new(n as nat, |k: int| k as usize)
}

/// Every call of the batch is read-only.
pub open spec fn all_read_only(read_only: Seq<bool>, batch: Seq<usize>) -> bool {
    forall|k: int| 0 <= k < batch.len() ==> read_only[#[trigger] batch[k] as int]
}

/// How tool calls are batched: the batches are not empty and, concatenated, are
/// the calls in order; a batch of more than one call holds read-only calls only; a
/// call that is not read-only is alone in its batch; and two consecutive batches
/// are never both read-only (consecutive read-only calls share one batch).
pub open spec fn batching_ok(read_only: Seq<bool>, batches: Seq<Seq<usize>>) -> bool {
    &&& flatten(batches) == indices(read_only.len() as int)
    &&& forall|b: int| 0 <= b < batches.len() ==> #[trigger] batches[b].len() > 0
    &&& forall|b: int|
        0 <= b < batches.len() && #[trigger] batches[b].len() > 1 ==> all_read_only(read_only, batches[b])
    &&& forall|b: int|
        0 <= b < batches.len() && !all_read_only(read_only, #[trigger] batches[b]) ==> batches[b].len() == 1
    &&& forall|b: int|
        0 <= b < batches.len() - 1 ==> !(all_read_only(read_only, #[trigger] batches[b]) && all_read_only(
            read_only,
            batches[b + 1],
        ))
}

/// The views of a list of batches.
pub open spec fn batch_views(v: Seq<Vec<usize>>) -> Seq<Seq<usize>> {
    Seq::new(v.len(), |i: int| v[i]@)
}

/// Splits tool calls into batches, given which calls are read-only: consecutive
/// read-only calls form one batch (run together); every other call is a batch of
/// its own (run alone). The batches are calls' positions.
pub fn partition_tool_batches(read_only: &[bool]) -> (batches: Vec<Vec<usize>>)
    ensures
        batching_ok(read_only@, batch_views(batches@)),
{
    let mut batches: Vec<Vec<usize>> = Vec::new();
    let mut current: Vec<usize> = Vec::new();
    let mut i: usize = 0;
    while i < read_only.len()
        invariant
            i <= read_only@.len(),
            flatten(batch_views(batches@)) + current@ == indices(i as int),
            all_read_only(read_only@, current@),
            batch_views(batches@).len() == 0 || !all_read_only(read_only@, batch_views(batches@).last()),
            forall|b: int| 0 <= b < batches@.len() ==> #[trigger] batches@[b]@.len() > 0,
            forall|b: int|
                0 <= b < batches@.len() && #[trigger] batches@[b]@.len() > 1 ==> all_read_only(
                    read_only@,
                    batches@[b]@,
                ),
            forall|b: int|
                0 <= b < batches@.len() && !all_read_only(read_only@, #[trigger] batches@[b]@)
                    ==> batches@[b]@.len() == 1,
            forall|b: int|
                0 <= b < batches@.len() - 1 ==> !(all_read_only(read_only@, #[trigger] batches@[b]@)
                    && all_read_only(read_only@, batches@[b + 1]@)),
        decreases read_only@.len() - i,
    {
        let ghost bv0 = batch_views(batches@);
        if read_only[i] {
            current.push(i);
            assert(indices(i + 1) =~= indices(i as int).push(i));
            assert(all_read_only(read_only@, current@));
        } else {
            if current.len() > 0 {
                let ghost cur = current@;
                let mut taken: Vec<usize> = Vec::new();
                std::mem::swap(&mut taken, &mut current);
                batches.push(taken);
                proof {
                    assert(batch_views(batches@) =~= bv0.push(cur));
                    assert(batch_views(batches@).drop_last() =~= bv0);
                    assert(flatten(batch_views(batches@)) == flatten(bv0) + cur);
                }
            }
            assert(current@.len() == 0);
            assert(flatten(batch_views(batches@)) =~= indices(i as int));
            let ghost bv1 = batch_views(batches@);
            let mut single: Vec<usize> = Vec::new();
            single.push(i);
            batches.push(single);
            proof {
                assert(batch_views(batches@) =~= bv1.push(seq![i]));
                assert(batch_views(batches@).drop_last() =~= bv1);
                assert(indices(i + 1) =~= indices(i as int).push(i));
                assert(flatten(batch_views(batches@)) == flatten(bv1) + seq![i]);
                assert(flatten(batch_views(batches@)) + current@ =~= indices(i + 1));
                assert(seq![i][0] == i);
                assert(!all_read_only(read_only@, seq![i]));
                assert(!all_read_only(read_only@, batches@[batches@.len() - 1]@));
            }
        }
        i = i + 1;
    }
    if current.len() > 0 {
        let ghost bv0 = batch_views(batches@);
        let ghost cur = current@;
        batches.push(current);
        proof {
            assert(batch_views(batches@) =~= bv0.push(cur));
            assert(batch_views(batches@).drop_last() =~= bv0);
        }
    } else {
        assert(current@ =~= Seq::<usize>::empty());
        assert(flatten(batch_views(batches@)) + current@ =~= flatten(batch_views(batches@)));
    }
    proof {
        let bv = batch_views(batches@);
        assert forall|b: int| 0 <= b < bv.len() implies #[trigger] bv[b].len() > 0 by {
            assert(bv[b] == batches@[b]@);
        }
        assert forall|b: int| 0 <= b < bv.len() && #[trigger] bv[b].len() > 1 implies all_read_only(
            read_only@,
            bv[b],
        ) by {
            assert(bv[b] == batches@[b]@);
        }
        assert forall|b: int| 0 <= b < bv.len() && !all_read_only(read_only@, #[trigger] bv[b]) implies bv[b].len()
            == 1 by {
            assert(bv[b] == batches@[b]@);
        }
        assert forall|b: int| 0 <= b < bv.len() - 1 implies !(all_read_only(read_only@, #[trigger] bv[b])
            && all_read_only(read_only@, bv[b + 1])) by {
            assert(bv[b] == batches@[b]@);
            assert(bv[b + 1] == batches@[b + 1]@);
        }
    }
    batches
}

/// The pattern of a thinking block, or of a stray closing tag.
pub open spec fn think_pattern() -> Seq<char> {
    "<think>[\\s\\S]*?</think>|</think>"@
}

/// The text with its thinking blocks removed.
pub open spec fn think_blocks_removed(text: Seq<char>) -> Seq<char> {
    replaced_or_same(think_pattern(), text, ""@)
}

/// The text without the thinking blocks that some models embed, trimmed.
pub fn strip_think(text: &str) -> (r: String)
    ensures
        r@ == trim_spec(think_blocks_removed(text@)),
{
    let removed = replace_all_or_same("<think>[\\s\\S]*?</think>|</think>", text, "");
    trim_str(removed.as_str())
}

} // verus!
