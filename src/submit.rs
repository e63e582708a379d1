//! The frame submitter's logic: a stable sort of draws by pipeline identity
//! and the replay of sorted draws into GPU operations that bind a pipeline
//! only when it changes.

use crate::command::RenderCommand;
use crate::resource::{BindGroupRef, BufferRef, PipelineRef};
use vstd::prelude::*;

verus! {

broadcast use vstd::seq_lib::group_seq_properties;

/// One call on a render pass.
#[derive(Clone, Copy, Debug, PartialEq, Eq, Structural)]
pub enum GpuOp {
    SetPipeline(PipelineRef),
    /// Binds the group at the slot given first.
    SetBindGroup(usize, BindGroupRef),
    SetVertexBuffer(BufferRef),
    SetIndexBuffer(BufferRef),
    /// An indexed draw of this many indices, one instance.
    DrawIndexed(u32),
}

pub open spec fn sorted_by_pipeline(s: Seq<RenderCommand>) -> bool {
    forall|i: int, j: int| 0 <= i < j < s.len() ==> s[i].pipeline.0 <= s[j].pipeline.0
}

/// The draws of `s` that use pipeline `p`, in their order in `s`.
pub open spec fn draws_of(s: Seq<RenderCommand>, p: u64) -> Seq<RenderCommand> {
    s.filter(uses_pipeline(p))
}

pub open spec fn uses_pipeline(p: u64) -> spec_fn(RenderCommand) -> bool {
    |c: RenderCommand| c.pipeline.0 == p
}

/// `out` holds the draws of `inp` grouped by ascending pipeline, each group
/// in the order that `inp` gave it.
pub open spec fn stable_sorted_by_pipeline(out: Seq<RenderCommand>, inp: Seq<RenderCommand>) -> bool {
    &&& out.len() == inp.len()
    &&& sorted_by_pipeline(out)
    &&& forall|p: u64| #[trigger] draws_of(out, p) == draws_of(inp, p)
}

proof fn lemma_insert_after_le(out: Seq<RenderCommand>, prefix: Seq<RenderCommand>, j: int, c: RenderCommand)
    requires
        sorted_by_pipeline(out),
        0 <= j <= out.len(),
        forall|t: int| 0 <= t < j ==> out[t].pipeline.0 <= c.pipeline.0,
        forall|t: int| j <= t < out.len() ==> out[t].pipeline.0 > c.pipeline.0,
        forall|p: u64| #[trigger] draws_of(out, p) == draws_of(prefix, p),
    ensures
        sorted_by_pipeline(out.insert(j, c)),
        forall|p: u64| #[trigger] draws_of(out.insert(j, c), p) == draws_of(prefix.push(c), p),
{
    let lo = out.subrange(0, j);
    let hi = out.subrange(j, out.len() as int);
    assert(out == lo + hi);
    assert(out.insert(j, c) == lo.push(c) + hi);
    assert forall|p: u64| #[trigger] draws_of(out.insert(j, c), p) == draws_of(prefix.push(c), p) by {
        let pred = uses_pipeline(p);
        assert(draws_of(out, p) == draws_of(prefix, p));
        Seq::filter_distributes_over_add(lo.push(c), hi, pred);
        Seq::filter_distributes_over_add(lo, hi, pred);
        lo.lemma_filter_push(c, pred);
        prefix.lemma_filter_push(c, pred);
        assert(out.filter(pred) == lo.filter(pred) + hi.filter(pred));
        assert(out.insert(j, c).filter(pred) == lo.push(c).filter(pred) + hi.filter(pred));
        if c.pipeline.0 == p {
            assert(hi.all(|x: RenderCommand| !pred(x)));
            hi.lemma_all_neg_filter_empty(pred);
            assert(hi.filter(pred) =~= Seq::<RenderCommand>::empty());
            assert(lo.filter(pred) + hi.filter(pred) =~= lo.filter(pred));
            assert(lo.filter(pred).push(c) + hi.filter(pred) =~= lo.filter(pred).push(c));
            assert(prefix.push(c).filter(pred) == prefix.filter(pred).push(c));
        } else {
            assert(prefix.push(c).filter(pred) == prefix.filter(pred));
        }
    }
}

/// Sorts draws by pipeline identity, keeping the drained order within each
/// pipeline.
pub fn sort_by_pipeline(cmds: Vec<RenderCommand>) -> (r: Vec<RenderCommand>)
    ensures
        stable_sorted_by_pipeline(r@, cmds@),
{
    let ghost orig = cmds@;
    let mut rest = cmds;
    let mut out: Vec<RenderCommand> = Vec::new();
    assert(orig.subrange(0, 0) =~= Seq::<RenderCommand>::empty());
    while rest.len() > 0
        invariant
            rest.len() <= orig.len(),
            rest@ == orig.subrange(orig.len() - rest.len(), orig.len() as int),
            out.len() == orig.len() - rest.len(),
            sorted_by_pipeline(out@),
            forall|p: u64| #[trigger] draws_of(out@, p) == draws_of(orig.subrange(0, orig.len() - rest.len()), p),
        decreases rest.len(),
    {
        let ghost done = orig.len() - rest.len();
        let c = rest.remove(0);
        let key = c.pipeline.0;
        let mut j: usize = 0;
        while j < out.len() && out[j].pipeline.0 <= key
            invariant
                j <= out.len(),
                forall|t: int| 0 <= t < j ==> out@[t].pipeline.0 <= key,
            decreases out.len() - j,
        {
            j = j + 1;
        }
        proof {
            assert(c == orig[done]);
            assert(orig.subrange(0, done + 1) == orig.subrange(0, done).push(c));
            lemma_insert_after_le(out@, orig.subrange(0, done), j as int, c);
        }
        out.insert(j, c);
    }
    assert(orig.subrange(0, orig.len() as int) == orig);
    out
}

/// One `SetBindGroup` per bind group, at slots 0, 1, 2, ...
pub open spec fn bind_group_ops(groups: Seq<BindGroupRef>) -> Seq<GpuOp> {
    Seq::new(groups.len(), |i: int| GpuOp::SetBindGroup(i as usize, groups[i]))
}

/// The calls for one draw: its pipeline when `bind_pipeline` holds, then
/// its bind groups, vertex buffer and index buffer, then the indexed draw.
pub open spec fn draw_ops(c: RenderCommand, bind_pipeline: bool) -> Seq<GpuOp> {
    (if bind_pipeline { seq![GpuOp::SetPipeline(c.pipeline)] } else { Seq::empty() })
        + bind_group_ops(c.bind_groups@)
        + seq![GpuOp::SetVertexBuffer(c.vertex_buffer), GpuOp::SetIndexBuffer(c.index_buffer), GpuOp::DrawIndexed(c.index_count)]
}

/// Whether the draw at `i` needs its pipeline bound: it is the first, or
/// the draw before it used another pipeline.
pub open spec fn needs_pipeline_bind(s: Seq<RenderCommand>, i: int) -> bool {
    i == 0 || s[i - 1].pipeline != s[i].pipeline
}

/// The calls that replaying `s` in order issues on one render pass.
pub open spec fn replay(s: Seq<RenderCommand>) -> Seq<GpuOp>
    decreases s.len(),
{
    if s.len() == 0 {
        Seq::empty()
    } else {
        replay(s.drop_last()) + draw_ops(s.last(), needs_pipeline_bind(s, s.len() - 1))
    }
}

/// Appends the calls for one draw.
pub fn push_draw(ops: &mut Vec<GpuOp>, c: &RenderCommand, bind_pipeline: bool)
    ensures
        final(ops)@ == old(ops)@ + draw_ops(*c, bind_pipeline),
{
    let ghost start = ops@;
    if bind_pipeline {
        ops.push(GpuOp::SetPipeline(c.pipeline));
    }
    let ghost with_pipeline = ops@;
    let groups = &*c.bind_groups;
    let mut k: usize = 0;
    while k < groups.len()
        invariant
            k <= groups.len(),
            groups@ == c.bind_groups@,
            ops@ == with_pipeline + bind_group_ops(groups@.subrange(0, k as int)),
        decreases groups.len() - k,
    {
        ops.push(GpuOp::SetBindGroup(k, groups[k]));
        k = k + 1;
        assert(bind_group_ops(groups@.subrange(0, k as int)) =~= bind_group_ops(groups@.subrange(0, k - 1)).push(
            GpuOp::SetBindGroup((k - 1) as usize, groups@[k - 1]),
        ));
    }
    assert(groups@.subrange(0, groups.len() as int) == groups@);
    ops.push(GpuOp::SetVertexBuffer(c.vertex_buffer));
    ops.push(GpuOp::SetIndexBuffer(c.index_buffer));
    ops.push(GpuOp::DrawIndexed(c.index_count));
    assert(ops@ =~= start + draw_ops(*c, bind_pipeline));
}

/// Replays draws in order, binding a pipeline only when it differs from
/// the one bound last.
pub fn record_draws(cmds: &Vec<RenderCommand>) -> (r: Vec<GpuOp>)
    ensures
        r@ == replay(cmds@),
{
    let mut ops: Vec<GpuOp> = Vec::new();
    let mut current: Option<PipelineRef> = None;
    let mut i: usize = 0;
    while i < cmds.len()
        invariant
            i <= cmds.len(),
            ops@ == replay(cmds@.subrange(0, i as int)),
            current == (if i == 0 { None } else { Some(cmds@[i - 1].pipeline) }),
        decreases cmds.len() - i,
    {
        let c = &cmds[i];
        let bind = match current {
            None => true,
            Some(p) => p.0 != c.pipeline.0,
        };
        push_draw(&mut ops, c, bind);
        current = Some(c.pipeline);
        proof {
            let s = cmds@.subrange(0, i + 1);
            assert(s.drop_last() == cmds@.subrange(0, i as int));
            assert(s.last() == cmds@[i as int]);
            assert(bind == needs_pipeline_bind(s, i as int));
        }
        i = i + 1;
    }
    assert(cmds@.subrange(0, cmds.len() as int) == cmds@);
    ops
}

/// How many `SetPipeline` calls `ops` holds.
pub open spec fn pipeline_bind_count(ops: Seq<GpuOp>) -> nat
    decreases ops.len(),
{
    if ops.len() == 0 {
        0
    } else {
        pipeline_bind_count(ops.drop_last()) + if ops.last() is SetPipeline {
            1nat
        } else {
            0nat
        }
    }
}

/// The distinct pipelines that the draws of `s` use.
pub open spec fn pipelines_in(s: Seq<RenderCommand>) -> Set<u64>
    decreases s.len(),
{
    if s.len() == 0 {
        Set::empty()
    } else {
        pipelines_in(s.drop_last()).insert(s.last().pipeline.0)
    }
}

proof fn lemma_bind_count_add(a: Seq<GpuOp>, b: Seq<GpuOp>)
    ensures
        pipeline_bind_count(a + b) == pipeline_bind_count(a) + pipeline_bind_count(b),
    decreases b.len(),
{
    if b.len() == 0 {
        assert(a + b == a);
    } else {
        lemma_bind_count_add(a, b.drop_last());
        assert((a + b).drop_last() == a + b.drop_last());
        assert((a + b).last() == b.last());
    }
}

proof fn lemma_bind_groups_bind_no_pipeline(groups: Seq<BindGroupRef>)
    ensures
        pipeline_bind_count(bind_group_ops(groups)) == 0,
    decreases groups.len(),
{
    if groups.len() > 0 {
        lemma_bind_groups_bind_no_pipeline(groups.drop_last());
        assert(bind_group_ops(groups).drop_last() == bind_group_ops(groups.drop_last()));
    }
}

proof fn lemma_draw_ops_bind_count(c: RenderCommand, bind_pipeline: bool)
    ensures
        pipeline_bind_count(draw_ops(c, bind_pipeline)) == if bind_pipeline { 1nat } else { 0nat },
{
    let head: Seq<GpuOp> = if bind_pipeline { seq![GpuOp::SetPipeline(c.pipeline)] } else { Seq::empty() };
    let tail = seq![GpuOp::SetVertexBuffer(c.vertex_buffer), GpuOp::SetIndexBuffer(c.index_buffer), GpuOp::DrawIndexed(c.index_count)];
    lemma_bind_count_add(head + bind_group_ops(c.bind_groups@), tail);
    lemma_bind_count_add(head, bind_group_ops(c.bind_groups@));
    lemma_bind_groups_bind_no_pipeline(c.bind_groups@);
    reveal_with_fuel(pipeline_bind_count, 4);
    if bind_pipeline {
        assert(head.drop_last() == Seq::<GpuOp>::empty());
    }
    assert(tail.drop_last().drop_last().drop_last() == Seq::<GpuOp>::empty());
}

proof fn lemma_pipelines_in_members(s: Seq<RenderCommand>)
    ensures
        pipelines_in(s).finite(),
        forall|p: u64| #[trigger] pipelines_in(s).contains(p) <==> exists|i: int| 0 <= i < s.len() && s[i].pipeline.0 == p,
    decreases s.len(),
{
    if s.len() > 0 {
        let t = s.drop_last();
        lemma_pipelines_in_members(t);
        assert forall|p: u64| #[trigger] pipelines_in(s).contains(p) <==> exists|i: int| 0 <= i < s.len() && s[i].pipeline.0 == p by {
            if pipelines_in(s).contains(p) && p != s.last().pipeline.0 {
                let i = choose|i: int| 0 <= i < t.len() && t[i].pipeline.0 == p;
                assert(s[i] == t[i]);
            }
            if exists|i: int| 0 <= i < s.len() && s[i].pipeline.0 == p {
                let i = choose|i: int| 0 <= i < s.len() && s[i].pipeline.0 == p;
                if i < s.len() - 1 {
                    assert(t[i] == s[i]);
                }
            }
        }
    }
}

/// Replaying draws sorted by pipeline binds each distinct pipeline exactly
/// once: as many pipeline binds as there are distinct pipelines.
pub proof fn lemma_sorted_replay_binds_each_pipeline_once(s: Seq<RenderCommand>)
    requires
        sorted_by_pipeline(s),
    ensures
        pipeline_bind_count(replay(s)) == pipelines_in(s).len(),
    decreases s.len(),
{
    if s.len() > 0 {
        let t = s.drop_last();
        let n = s.len() - 1;
        assert(sorted_by_pipeline(t));
        lemma_sorted_replay_binds_each_pipeline_once(t);
        lemma_bind_count_add(replay(t), draw_ops(s.last(), needs_pipeline_bind(s, n)));
        lemma_draw_ops_bind_count(s.last(), needs_pipeline_bind(s, n));
        lemma_pipelines_in_members(t);
        let k = s.last().pipeline.0;
        if needs_pipeline_bind(s, n) {
            if n > 0 {
                assert(s[n - 1].pipeline.0 != k);
                assert forall|i: int| 0 <= i < t.len() implies t[i].pipeline.0 < k by {
                    assert(t[i] == s[i]);
                    assert(s[i].pipeline.0 <= s[n - 1].pipeline.0);
                }
            }
            assert(!pipelines_in(t).contains(k));
        } else {
            assert(t[n - 1] == s[n - 1]);
            assert(pipelines_in(t).contains(k));
        }
    }
}

proof fn lemma_pipelines_in_len(s: Seq<RenderCommand>)
    ensures
        pipelines_in(s).len() <= s.len(),
    decreases s.len(),
{
    if s.len() > 0 {
        lemma_pipelines_in_len(s.drop_last());
        lemma_pipelines_in_members(s.drop_last());
    }
}

proof fn lemma_pipelines_in_by_draws(s: Seq<RenderCommand>, p: u64)
    ensures
        pipelines_in(s).contains(p) <==> draws_of(s, p).len() > 0,
{
    lemma_pipelines_in_members(s);
    let pred = uses_pipeline(p);
    if pipelines_in(s).contains(p) {
        let i = choose|i: int| 0 <= i < s.len() && s[i].pipeline.0 == p;
        s.lemma_filter_contains(pred, i);
    }
    if draws_of(s, p).len() > 0 {
        let c = s.filter(pred)[0];
        s.lemma_filter_pred(pred, 0);
        assert(s.filter(pred).contains(c));
        s.lemma_filter_contains_rev(pred, c);
        let i = choose|i: int| 0 <= i < s.len() && s[i] == c;
        assert(s[i].pipeline.0 == p);
    }
}

/// Sorting draws by pipeline and replaying them issues exactly one pipeline
/// bind per distinct pipeline among the draws, never more.
pub proof fn lemma_sort_then_replay_binds_each_pipeline_once(cmds: Seq<RenderCommand>, sorted: Seq<RenderCommand>)
    requires
        stable_sorted_by_pipeline(sorted, cmds),
    ensures
        pipeline_bind_count(replay(sorted)) == pipelines_in(cmds).len(),
        pipelines_in(cmds).len() <= cmds.len(),
{
    lemma_pipelines_in_len(cmds);
    lemma_sorted_replay_binds_each_pipeline_once(sorted);
    assert forall|p: u64| pipelines_in(sorted).contains(p) <==> pipelines_in(cmds).contains(p) by {
        lemma_pipelines_in_by_draws(sorted, p);
        lemma_pipelines_in_by_draws(cmds, p);
        assert(draws_of(sorted, p) == draws_of(cmds, p));
    }
    assert(pipelines_in(sorted) =~= pipelines_in(cmds));
}

} // verus!
