//! The render dispatcher: culls the objects of a call, splits them into the deferred and
//! the forward group, orders each for painting, compiles what they need, and drives the
//! geometry, lighting and forward passes.

use vstd::prelude::*;
use crate::camera::{ScissorBox, Viewport};
use crate::context::{compiles_for, draws_object, Context, Device, DrawCall, ProgramKey};
use crate::error::CoreError;
use crate::order::{cmp_render_order, key_less, key_tied, MaterialType, OrderKey};

verus! {

/// An object of a render call: the sources of the program that draws it with its material,
/// its place in the paint order, and whether its bounding box meets the camera's frustum.
#[derive(Clone, Debug)]
pub struct SceneObject {
    pub vertex_source: String,
    pub fragment_source: String,
    pub order: OrderKey,
    pub in_frustum: bool,
}

/// The cache key of the program that draws the object.
pub open spec fn object_key(o: SceneObject) -> ProgramKey {
    (o.vertex_source@, o.fragment_source@)
}

/// The object is drawn in the geometry pass of a deferred render.
pub open spec fn in_deferred_group(o: SceneObject) -> bool {
    o.in_frustum && o.order.material_type == MaterialType::Deferred
}

/// The object is drawn in the forward pass.
pub open spec fn in_forward_group(o: SceneObject) -> bool {
    o.in_frustum && o.order.material_type != MaterialType::Deferred
}

/// Object `i` is painted before object `j`: by the render order, and by their place in
/// the input where the render order ties them.
pub open spec fn paints_before(objs: Seq<SceneObject>, i: usize, j: usize) -> bool {
    key_less(objs[i as int].order, objs[j as int].order) || (key_tied(
        objs[i as int].order,
        objs[j as int].order,
    ) && i < j)
}

/// The indices are in paint order (and so hold no index twice).
pub open spec fn painted_in_order(objs: Seq<SceneObject>, s: Seq<usize>) -> bool {
    forall|p: int, q: int| 0 <= p < q < s.len() ==> paints_before(objs, #[trigger] s[p], #[trigger] s[q])
}

/// `s` lists, in paint order, exactly the objects of the deferred group (`deferred`) or
/// of the forward group (`!deferred`).
pub open spec fn paint_sequence(objs: Seq<SceneObject>, s: Seq<usize>, deferred: bool) -> bool {
    &&& painted_in_order(objs, s)
    &&& forall|k: int|
        0 <= k < s.len() ==> #[trigger] s[k] < objs.len() && (if deferred {
            in_deferred_group(objs[s[k] as int])
        } else {
            in_forward_group(objs[s[k] as int])
        })
    &&& forall|i: usize|
        i < objs.len() && (if deferred {
            in_deferred_group(objs[i as int])
        } else {
            in_forward_group(objs[i as int])
        }) ==> s.contains(i)
}

/// Which objects a render call draws in which pass, each group in paint order.
pub struct RenderPlan {
    pub deferred: Vec<usize>,
    pub forward: Vec<usize>,
}

proof fn lemma_paints_before_transitive(objs: Seq<SceneObject>, a: usize, b: usize, c: usize)
    requires
        paints_before(objs, a, b),
        paints_before(objs, b, c),
    ensures
        paints_before(objs, a, c),
{
}

/// Inserts object `i`, later in the input than every object of `seq`, at its place in
/// paint order.
fn insert_in_paint_order(objects: &Vec<SceneObject>, seq: &mut Vec<usize>, i: usize)
    requires
        i < objects@.len(),
        painted_in_order(objects@, old(seq)@),
        forall|k: int| 0 <= k < old(seq)@.len() ==> #[trigger] old(seq)@[k] < i,
    ensures
        painted_in_order(objects@, final(seq)@),
        final(seq)@.len() == old(seq)@.len() + 1,
        forall|x: usize| #[trigger] final(seq)@.contains(x) <==> (old(seq)@.contains(x) || x == i),
        forall|k: int| 0 <= k < final(seq)@.len() ==> #[trigger] final(seq)@[k] <= i,
{
    let ghost objs = objects@;
    let ghost s0 = seq@;
    let mut pos: usize = 0;
    let mut found = false;
    while !found && pos < seq.len()
        invariant
            seq@ == s0,
            i < objs.len(),
            objs == objects@,
            pos <= seq@.len(),
            forall|k: int| 0 <= k < s0.len() ==> #[trigger] s0[k] < i,
            forall|p: int| 0 <= p < pos ==> !key_less(objs[i as int].order, objs[#[trigger] s0[p] as int].order),
            found ==> pos < seq@.len() && key_less(objs[i as int].order, objs[s0[pos as int] as int].order),
        decreases seq@.len() - pos + (if found { 0int } else { 1int }),
    {
        let other = seq[pos];
        match cmp_render_order(&objects[i].order, &objects[other].order) {
            core::cmp::Ordering::Less => {
                found = true;
            },
            _ => {
                pos = pos + 1;
            },
        }
    }
    seq.insert(pos, i);
    let ghost s1 = seq@;
    assert forall|p: int, q: int| 0 <= p < q < s1.len() implies paints_before(objs, #[trigger] s1[p], #[trigger] s1[q]) by {
        if q < pos {
            assert(s1[p] == s0[p] && s1[q] == s0[q]);
        } else if q == pos {
            assert(s1[p] == s0[p]);
        } else if p == pos {
            assert(s1[q] == s0[q - 1]);
            if q - 1 > pos {
                assert(paints_before(objs, s0[pos as int], s0[q - 1]));
                lemma_paints_before_transitive(objs, i, s0[pos as int], s0[q - 1]);
            }
        } else if p < pos {
            assert(s1[p] == s0[p] && s1[q] == s0[q - 1]);
        } else {
            assert(s1[p] == s0[p - 1] && s1[q] == s0[q - 1]);
        }
    }
    assert forall|x: usize| #[trigger] s1.contains(x) <==> (s0.contains(x) || x == i) by {
        if s0.contains(x) {
            let k = choose|k: int| 0 <= k < s0.len() && s0[k] == x;
            if k < pos {
                assert(s1[k] == x);
            } else {
                assert(s1[k + 1] == x);
            }
        }
        if x == i {
            assert(s1[pos as int] == x);
        }
        if s1.contains(x) {
            let k = choose|k: int| 0 <= k < s1.len() && s1[k] == x;
            if k < pos {
                assert(s0[k] == x);
            } else if k > pos {
                assert(s0[k - 1] == x);
            }
        }
    }
    assert forall|k: int| 0 <= k < s1.len() implies #[trigger] s1[k] <= i by {
        if k < pos {
            assert(s1[k] == s0[k]);
        } else if k > pos {
            assert(s1[k] == s0[k - 1]);
        }
    }
}

/// Culls the objects outside the frustum, splits the rest into the deferred group and the
/// forward group, and puts each group in paint order.
pub fn plan_render(objects: &Vec<SceneObject>) -> (r: RenderPlan)
    ensures
        paint_sequence(objects@, r.deferred@, true),
        paint_sequence(objects@, r.forward@, false),
{
    let mut deferred: Vec<usize> = Vec::new();
    let mut forward: Vec<usize> = Vec::new();
    let mut i: usize = 0;
    while i < objects.len()
        invariant
            i <= objects@.len(),
            painted_in_order(objects@, deferred@),
            painted_in_order(objects@, forward@),
            forall|k: int| 0 <= k < deferred@.len() ==> #[trigger] deferred@[k] < i && in_deferred_group(objects@[deferred@[k] as int]),
            forall|k: int| 0 <= k < forward@.len() ==> #[trigger] forward@[k] < i && in_forward_group(objects@[forward@[k] as int]),
            forall|j: usize| j < i && in_deferred_group(objects@[j as int]) ==> #[trigger] deferred@.contains(j),
            forall|j: usize| j < i && in_forward_group(objects@[j as int]) ==> #[trigger] forward@.contains(j),
        decreases objects@.len() - i,
    {
        if objects[i].in_frustum {
            if objects[i].order.material_type == MaterialType::Deferred {
                let ghost before = deferred@;
                insert_in_paint_order(objects, &mut deferred, i);
                assert forall|k: int| 0 <= k < deferred@.len() implies #[trigger] deferred@[k] < i + 1 && in_deferred_group(objects@[deferred@[k] as int]) by {
                    assert(deferred@.contains(deferred@[k]));
                    if deferred@[k] != i {
                        let k0 = choose|k0: int| 0 <= k0 < before.len() && before[k0] == deferred@[k];
                    }
                }
            } else {
                let ghost before = forward@;
                insert_in_paint_order(objects, &mut forward, i);
                assert forall|k: int| 0 <= k < forward@.len() implies #[trigger] forward@[k] < i + 1 && in_forward_group(objects@[forward@[k] as int]) by {
                    assert(forward@.contains(forward@[k]));
                    if forward@[k] != i {
                        let k0 = choose|k0: int| 0 <= k0 < before.len() && before[k0] == forward@[k];
                    }
                }
            }
        }
        i = i + 1;
    }
    RenderPlan { deferred, forward }
}

/// The program keys of the objects at the given indices, in that order.
pub open spec fn keys_of(objs: Seq<SceneObject>, s: Seq<usize>) -> Seq<ProgramKey> {
    Seq::new(s.len(), |k: int| object_key(objs[s[k] as int]))
}

/// The draws of the objects at the given indices, in that order, each with its program.
pub open spec fn draw_calls(objs: Seq<SceneObject>, s: Seq<usize>, programs: Map<ProgramKey, u32>) -> Seq<DrawCall> {
    Seq::new(s.len(), |k: int| DrawCall::Draw(programs[object_key(objs[s[k] as int])], s[k]))
}

/// The commands of a render call whose deferred group is `d` and forward group `f`: where
/// `d` is not empty, a geometry pass into a buffer at the origin of the camera's viewport
/// size, the draws of `d`, and one lighting pass within the scissor box; then, always, a
/// forward pass within the scissor box and the draws of `f`.
pub open spec fn render_calls(
    objs: Seq<SceneObject>,
    d: Seq<usize>,
    f: Seq<usize>,
    programs: Map<ProgramKey, u32>,
    effects: Map<Seq<char>, u32>,
    lighting_source: Seq<char>,
    camera_viewport: Viewport,
    scissor_box: ScissorBox,
) -> Seq<DrawCall> {
    let geometry_viewport = Viewport {
        x: 0,
        y: 0,
        width: camera_viewport.width,
        height: camera_viewport.height,
    };
    let deferred_calls = if d.len() == 0 {
        Seq::empty()
    } else {
        seq![DrawCall::GeometryPass(geometry_viewport)] + draw_calls(objs, d, programs) + seq![
            DrawCall::LightingPass(effects[lighting_source], scissor_box)]
    };
    deferred_calls + seq![DrawCall::ForwardPass(scissor_box)] + draw_calls(objs, f, programs)
}

/// The objects among the first `n` that meet the frustum, in input order.
pub open spec fn in_frustum_prefix(objs: Seq<SceneObject>, n: nat) -> Seq<usize>
    decreases n,
{
    if n == 0 {
        Seq::empty()
    } else {
        let prev = in_frustum_prefix(objs, (n - 1) as nat);
        if objs[n - 1].in_frustum {
            prev.push((n - 1) as usize)
        } else {
            prev
        }
    }
}

/// The objects that meet the frustum, in input order.
pub open spec fn in_frustum_indices(objs: Seq<SceneObject>) -> Seq<usize> {
    in_frustum_prefix(objs, objs.len())
}

/// Asks the context for the program of each object of `order`, in turn. All of them are
/// compiled or found before the caller draws anything.
pub(crate) fn resolve_programs<D: Device>(context: &mut Context<D>, objects: &Vec<SceneObject>, order: &Vec<usize>) -> (r: Result<Vec<u32>, CoreError>)
    requires
        old(context).wf(),
        forall|k: int| 0 <= k < order@.len() ==> #[trigger] order@[k] < objects@.len(),
    ensures
        final(context).wf(),
        final(context).trace() == old(context).trace(),
        final(context).effects() == old(context).effects(),
        final(context).current_camera2d() == old(context).current_camera2d(),
        forall|key: ProgramKey| #[trigger] old(context).programs().contains_key(key) ==> final(context).programs().contains_key(key) && final(context).programs()[key] == old(context).programs()[key],
        match r {
            Ok(handles) => {
                &&& handles@.len() == order@.len()
                &&& forall|k: int| 0 <= k < order@.len() ==> final(context).programs().contains_key(object_key(objects@[#[trigger] order@[k] as int]))
                &&& forall|k: int| 0 <= k < order@.len() ==> #[trigger] handles@[k] == final(context).programs()[object_key(objects@[order@[k] as int])]
                &&& final(context).compiled() == old(context).compiled() + compiles_for(old(context).programs().dom(), keys_of(objects@, order@))
            },
            Err(e) => e is ProgramCreation,
        },
        final(context).effects_compiled() == old(context).effects_compiled(),
        r is Err ==> exists|n: int| 0 <= n < order@.len() && !old(context).programs().contains_key(object_key(objects@[#[trigger] order@[n] as int]))
            && final(context).compiled() == old(context).compiled() + compiles_for(old(context).programs().dom(), keys_of(objects@, order@).take(n + 1)),
{
    let ghost objs = objects@;
    let ghost keys = keys_of(objs, order@);
    let ghost dom0 = context.programs().dom();
    let ghost c0 = context.compiled();
    let ghost p0 = context.programs();
    let mut handles: Vec<u32> = Vec::new();
    let mut k: usize = 0;
    while k < order.len()
        invariant
            context.wf(),
            objs == objects@,
            keys == keys_of(objs, order@),
            forall|j: int| 0 <= j < order@.len() ==> #[trigger] order@[j] < objects@.len(),
            k <= order@.len(),
            handles@.len() == k,
            context.trace() == old(context).trace(),
            context.effects() == old(context).effects(),
            context.effects_compiled() == old(context).effects_compiled(),
            context.current_camera2d() == old(context).current_camera2d(),
            dom0 == old(context).programs().dom(),
            p0 == old(context).programs(),
            c0 == old(context).compiled(),
            forall|key: ProgramKey| #[trigger] p0.contains_key(key) ==> context.programs().contains_key(key) && context.programs()[key] == p0[key],
            forall|key: ProgramKey| #[trigger] context.programs().contains_key(key) <==> (dom0.contains(key) || keys.take(k as int).contains(key)),
            forall|j: int| 0 <= j < k ==> #[trigger] handles@[j] == context.programs()[keys[j]],
            context.compiled() == c0 + compiles_for(dom0, keys.take(k as int)),
        decreases order@.len() - k,
    {
        let object = &objects[order[k]];
        let ghost before = context.programs();
        let ghost compiled_before = context.compiled();
        let ghost key = keys[k as int];
        assert(key == object_key(objs[order@[k as int] as int]));
        match context.program(object.vertex_source.as_str(), object.fragment_source.as_str()) {
            Ok(program) => {
                let ghost old_handles = handles@;
                handles.push(program);
                proof {
                    let next = keys.take(k + 1);
                    assert(next.drop_last() =~= keys.take(k as int));
                    assert(next.last() == key);
                    assert forall|key2: ProgramKey| #[trigger] context.programs().contains_key(key2) <==> (dom0.contains(key2) || next.contains(key2)) by {
                        if next.contains(key2) && key2 != key {
                            let j = choose|j: int| 0 <= j < next.len() && next[j] == key2;
                            assert(keys.take(k as int)[j] == key2);
                        }
                        if keys.take(k as int).contains(key2) {
                            let j = choose|j: int| 0 <= j < k && keys.take(k as int)[j] == key2;
                            assert(next[j] == key2);
                        }
                        assert(next[k as int] == key);
                    }
                    assert(context.programs().contains_key(key) && context.programs()[key] == program);
                    assert forall|j: int| 0 <= j < k + 1 implies #[trigger] handles@[j] == context.programs()[keys[j]] by {
                        if j < k {
                            assert(old_handles[j] == before[keys[j]]);
                            assert(keys.take(k as int)[j] == keys[j]);
                            assert(keys.take(k as int).contains(keys[j]));
                            assert(before.contains_key(keys[j]));
                            assert(handles@[j] == old_handles[j]);
                            assert(context.programs()[keys[j]] == before[keys[j]]);
                        } else {
                            assert(handles@[j] == program);
                        }
                    }
                    assert(compiles_for(dom0, next) == if before.contains_key(key) { compiles_for(dom0, keys.take(k as int)) } else { compiles_for(dom0, keys.take(k as int)).push(key) });
                }
                k = k + 1;
            },
            Err(e) => {
                assert(!p0.contains_key(key));
                proof {
                    let next = keys.take(k + 1);
                    assert(next.drop_last() =~= keys.take(k as int));
                    assert(next.last() == key);
                    assert(!before.contains_key(key));
                    assert(!keys.take(k as int).contains(key));
                    assert(compiles_for(dom0, next) == compiles_for(dom0, keys.take(k as int)).push(key));
                    assert(context.compiled() =~= c0 + compiles_for(dom0, next));
                    assert(object_key(objects@[order@[k as int] as int]) == key);
                }
                return Err(e);
            },
        }
    }
    assert(keys.take(order@.len() as int) =~= keys);
    assert(context.compiled() == old(context).compiled() + compiles_for(old(context).programs().dom(), keys_of(objects@, order@)));
    assert(handles@.len() == order@.len());
    assert forall|k: int| 0 <= k < order@.len() implies context.programs().contains_key(object_key(objects@[#[trigger] order@[k] as int])) && handles@[k] == context.programs()[object_key(objects@[order@[k] as int])] by {
        assert(keys[k] == object_key(objects@[order@[k] as int]));
        assert(keys.take(order@.len() as int)[k] == keys[k]);
        assert(keys.take(order@.len() as int).contains(keys[k]));
    }
    Ok(handles)
}

/// Issues the draws of the objects `order[start..end]`, each with its program from
/// `handles`, which lines up with `order`.
fn draw_range<D: Device>(context: &mut Context<D>, objects: &Vec<SceneObject>, order: &Vec<usize>, handles: &Vec<u32>, start: usize, end: usize)
    requires
        old(context).wf(),
        start <= end <= order@.len(),
        handles@.len() == order@.len(),
        forall|k: int| 0 <= k < order@.len() ==> #[trigger] handles@[k] == old(context).programs()[object_key(objects@[order@[k] as int])],
    ensures
        final(context).wf(),
        final(context).trace() == old(context).trace() + draw_calls(objects@, order@.subrange(start as int, end as int), old(context).programs()),
        final(context).programs() == old(context).programs(),
        final(context).effects() == old(context).effects(),
        final(context).compiled() == old(context).compiled(),
        final(context).effects_compiled() == old(context).effects_compiled(),
        final(context).current_camera2d() == old(context).current_camera2d(),
{
    let ghost programs = context.programs();
    let mut k: usize = start;
    while k < end
        invariant
            context.wf(),
            start <= k <= end,
            end <= order@.len(),
            handles@.len() == order@.len(),
            forall|j: int| 0 <= j < order@.len() ==> #[trigger] handles@[j] == programs[object_key(objects@[order@[j] as int])],
            programs == old(context).programs(),
            context.programs() == programs,
            context.effects() == old(context).effects(),
            context.compiled() == old(context).compiled(),
            context.effects_compiled() == old(context).effects_compiled(),
            context.current_camera2d() == old(context).current_camera2d(),
            context.trace() == old(context).trace() + draw_calls(objects@, order@.subrange(start as int, k as int), programs),
        decreases end - k,
    {
        context.issue(DrawCall::Draw(handles[k], order[k]));
        assert(draw_calls(objects@, order@.subrange(start as int, k + 1), programs) =~= draw_calls(objects@, order@.subrange(start as int, k as int), programs).push(DrawCall::Draw(handles@[k as int], order@[k as int])));
        k = k + 1;
    }
}

/// What asking in turn for the programs of `keys` did to a context, `c0` before and `c1`
/// after, given whether every program was found or compiled (`ok`): cached programs are
/// kept; on success each key is cached and the device was asked to compile each new key
/// once; on failure it was asked for the new keys up to a first key that was not cached,
/// whose compilation failed.
pub open spec fn compile_outcome<D: Device>(c0: Context<D>, c1: Context<D>, keys: Seq<ProgramKey>, ok: bool) -> bool {
    &&& forall|key: ProgramKey| #[trigger] c0.programs().contains_key(key) ==> c1.programs().contains_key(key) && c1.programs()[key] == c0.programs()[key]
    &&& if ok {
        &&& c1.compiled() == c0.compiled() + compiles_for(c0.programs().dom(), keys)
        &&& forall|k: int| 0 <= k < keys.len() ==> c1.programs().contains_key(#[trigger] keys[k])
    } else {
        exists|n: int| 0 <= n < keys.len() && !c0.programs().contains_key(#[trigger] keys[n])
            && c1.compiled() == c0.compiled() + compiles_for(c0.programs().dom(), keys.take(n + 1))
    }
}

/// What a render call with deferred group `d` and forward group `f` did to a context, `c0`
/// before and `c1` after, given whether it succeeded (`ok`). The lighting effect is asked
/// for after every program, and only where `d` is not empty. On success the call issued
/// exactly `render_calls`; on failure it issued nothing, and either a program failed to
/// compile or, every program being there, the lighting effect did.
pub open spec fn render_outcome<D: Device>(
    c0: Context<D>,
    c1: Context<D>,
    objs: Seq<SceneObject>,
    d: Seq<usize>,
    f: Seq<usize>,
    lighting_source: Seq<char>,
    camera_viewport: Viewport,
    scissor_box: ScissorBox,
    ok: bool,
) -> bool {
    let keys = keys_of(objs, d + f);
    let new_effect = d.len() > 0 && !c0.effects().contains_key(lighting_source);
    let effects_after = if new_effect {
        c0.effects_compiled().push(lighting_source)
    } else {
        c0.effects_compiled()
    };
    &&& forall|s: Seq<char>| #[trigger] c0.effects().contains_key(s) ==> c1.effects().contains_key(s) && c1.effects()[s] == c0.effects()[s]
    &&& if ok {
        &&& compile_outcome(c0, c1, keys, true)
        &&& c1.effects_compiled() == effects_after
        &&& d.len() > 0 ==> c1.effects().contains_key(lighting_source)
        &&& c1.trace() == c0.trace() + render_calls(objs, d, f, c1.programs(), c1.effects(), lighting_source, camera_viewport, scissor_box)
    } else {
        &&& c1.trace() == c0.trace()
        &&& (compile_outcome(c0, c1, keys, false) && c1.effects_compiled() == c0.effects_compiled())
            || (new_effect && compile_outcome(c0, c1, keys, true) && c1.effects_compiled() == effects_after)
    }
}

/// What a render of geometries with one shared material did to a context, `c0` before and
/// `c1` after, given whether it succeeded (`ok`): on success it issued the pass command and
/// then the draws of the geometries that meet the frustum, in input order; on failure it
/// issued nothing. No effect is asked for.
pub open spec fn geometries_outcome<D: Device>(c0: Context<D>, c1: Context<D>, objs: Seq<SceneObject>, pass: DrawCall, ok: bool) -> bool {
    let keys = keys_of(objs, in_frustum_indices(objs));
    &&& c1.effects() == c0.effects()
    &&& c1.effects_compiled() == c0.effects_compiled()
    &&& compile_outcome(c0, c1, keys, ok)
    &&& if ok {
        c1.trace() == c0.trace() + seq![pass] + draw_calls(objs, in_frustum_indices(objs), c1.programs())
    } else {
        c1.trace() == c0.trace()
    }
}

/// A destination of draws, `width` by `height` pixels.
#[derive(Clone, Copy, Debug, PartialEq, Eq, Structural)]
pub struct RenderTarget {
    pub width: u32,
    pub height: u32,
}

impl RenderTarget {
    /// A render target of the given size.
    pub fn new(width: u32, height: u32) -> (r: RenderTarget)
        ensures
            r == (RenderTarget { width, height }),
    {
        RenderTarget { width, height }
    }

    /// The box that covers the whole target.
    pub fn scissor_box(&self) -> (r: ScissorBox)
        ensures
            r == (ScissorBox { x: 0, y: 0, width: self.width, height: self.height }),
    {
        ScissorBox { x: 0, y: 0, width: self.width, height: self.height }
    }

    /// Renders the objects seen through a camera with the given viewport into the part of
    /// this target within the scissor box, and hands the target back for chaining. Objects
    /// outside the frustum are not drawn.
    /// Deferred objects are drawn, in paint order, into a geometry buffer and lit by one
    /// lighting pass made with the image effect of `lighting_source`; the other objects
    /// are then drawn, in paint order, straight into the target. Every program and effect
    /// is compiled, or found in the cache, before the first draw: where one fails to
    /// compile, the call fails and issues no draw. The target is not cleared.
    pub fn render_partially<D: Device>(&self, context: &mut Context<D>, scissor_box: ScissorBox, camera_viewport: Viewport, objects: &Vec<SceneObject>, lighting_source: &str) -> (r: Result<&RenderTarget, CoreError>)
        requires
            old(context).wf(),
        ensures
            r matches Ok(t) ==> *t == *self,
            final(context).wf(),
            final(context).current_camera2d() == old(context).current_camera2d(),
            exists|d: Seq<usize>, f: Seq<usize>|
                #![trigger paint_sequence(objects@, d, true), paint_sequence(objects@, f, false)]
                paint_sequence(objects@, d, true) && paint_sequence(objects@, f, false)
                && render_outcome(*old(context), *final(context), objects@, d, f, lighting_source@, camera_viewport, scissor_box, r is Ok),
            r matches Err(e) ==> e is ProgramCreation,
            (forall|i: int| 0 <= i < objects@.len() && objects@[i].in_frustum ==> old(context).programs().contains_key(#[trigger] object_key(objects@[i])))
                && (old(context).effects().contains_key(lighting_source@) || forall|i: int| 0 <= i < objects@.len() ==> !in_deferred_group(#[trigger] objects@[i]))
                ==> r is Ok,
    {
        let ghost c0 = *context;
        let RenderPlan { deferred, mut forward } = plan_render(objects);
        let ghost d = deferred@;
        let ghost f = forward@;
        let nd = deferred.len();
        let mut order = deferred;
        order.append(&mut forward);
        assert(order@.subrange(0, nd as int) =~= d);
        assert(order@.subrange(nd as int, order@.len() as int) =~= f);
        assert(order@ == d + f);
        let ghost p0 = context.programs();
        let ghost t0 = context.trace();
        let handles = match resolve_programs(context, objects, &order) {
            Ok(handles) => handles,
            Err(e) => {
                proof {
                    let k = choose|k: int| 0 <= k < order@.len() && !p0.contains_key(object_key(objects@[#[trigger] order@[k] as int]))
                        && context.compiled() == c0.compiled() + compiles_for(c0.programs().dom(), keys_of(objects@, order@).take(k + 1));
                    if k < nd {
                        assert(order@[k] == d[k]);
                    } else {
                        assert(order@[k] == f[k - nd]);
                    }
                    let keys = keys_of(objects@, d + f);
                    assert(keys[k] == object_key(objects@[order@[k] as int]));
                    assert(compile_outcome(c0, *context, keys, false));
                    assert(render_outcome(c0, *context, objects@, d, f, lighting_source@, camera_viewport, scissor_box, false));
                }
                return Err(e);
            },
        };
        proof {
            let keys = keys_of(objects@, d + f);
            assert forall|k: int| 0 <= k < keys.len() implies context.programs().contains_key(#[trigger] keys[k]) by {
                assert(keys[k] == object_key(objects@[order@[k] as int]));
            }
            assert(compile_outcome(c0, *context, keys, true));
        }
        let ghost c1 = *context;
        let mut effect: u32 = 0;
        if nd > 0 {
            match context.effect(lighting_source) {
                Ok(e) => {
                    effect = e;
                },
                Err(e) => {
                    proof {
                        assert(d.contains(d[0]));
                        assert(compile_outcome(c0, *context, keys_of(objects@, d + f), true));
                        assert(render_outcome(c0, *context, objects@, d, f, lighting_source@, camera_viewport, scissor_box, false));
                    }
                    return Err(e);
                },
            }
        }
        let ghost programs = context.programs();
        let ghost effects = context.effects();
        if nd > 0 {
            let geometry_viewport = Viewport::new_at_origin(camera_viewport.width, camera_viewport.height);
            context.issue(DrawCall::GeometryPass(geometry_viewport));
            draw_range(context, objects, &order, &handles, 0, nd);
            context.issue(DrawCall::LightingPass(effect, scissor_box));
        }
        context.issue(DrawCall::ForwardPass(scissor_box));
        draw_range(context, objects, &order, &handles, nd, order.len());
        assert(context.trace() =~= t0 + render_calls(objects@, d, f, programs, effects, lighting_source@, camera_viewport, scissor_box));
        assert(compile_outcome(c0, *context, keys_of(objects@, d + f), true));
        assert(render_outcome(c0, *context, objects@, d, f, lighting_source@, camera_viewport, scissor_box, true));
        Ok(self)
    }

    /// Renders the objects into the whole target, as `render_partially` does within a box.
    pub fn render<D: Device>(&self, context: &mut Context<D>, camera_viewport: Viewport, objects: &Vec<SceneObject>, lighting_source: &str) -> (r: Result<&RenderTarget, CoreError>)
        requires
            old(context).wf(),
        ensures
            r matches Ok(t) ==> *t == *self,
            final(context).wf(),
            final(context).current_camera2d() == old(context).current_camera2d(),
            exists|d: Seq<usize>, f: Seq<usize>|
                #![trigger paint_sequence(objects@, d, true), paint_sequence(objects@, f, false)]
                paint_sequence(objects@, d, true) && paint_sequence(objects@, f, false)
                && render_outcome(*old(context), *final(context), objects@, d, f, lighting_source@, camera_viewport, ScissorBox { x: 0, y: 0, width: self.width, height: self.height }, r is Ok),
            r matches Err(e) ==> e is ProgramCreation,
            (forall|i: int| 0 <= i < objects@.len() && objects@[i].in_frustum ==> old(context).programs().contains_key(#[trigger] object_key(objects@[i])))
                && (old(context).effects().contains_key(lighting_source@) || forall|i: int| 0 <= i < objects@.len() ==> !in_deferred_group(#[trigger] objects@[i]))
                ==> r is Ok,
    {
        let scissor_box = self.scissor_box();
        self.render_partially(context, scissor_box, camera_viewport, objects, lighting_source)
    }

    /// Draws every geometry that meets the frustum, in input order, after the pass command.
    fn render_geometries<D: Device>(&self, context: &mut Context<D>, pass: DrawCall, geometries: &Vec<SceneObject>) -> (r: Result<&RenderTarget, CoreError>)
        requires
            old(context).wf(),
        ensures
            r matches Ok(t) ==> *t == *self,
            final(context).wf(),
            final(context).current_camera2d() == old(context).current_camera2d(),
            geometries_outcome(*old(context), *final(context), geometries@, pass, r is Ok),
            r matches Err(e) ==> e is ProgramCreation,
            (forall|i: int| 0 <= i < geometries@.len() && geometries@[i].in_frustum ==> old(context).programs().contains_key(#[trigger] object_key(geometries@[i]))) ==> r is Ok,
    {
        let ghost c0 = *context;
        let mut order: Vec<usize> = Vec::new();
        let mut i: usize = 0;
        while i < geometries.len()
            invariant
                i <= geometries@.len(),
                order@ == in_frustum_prefix(geometries@, i as nat),
                forall|k: int| 0 <= k < order@.len() ==> #[trigger] order@[k] < i && geometries@[order@[k] as int].in_frustum,
            decreases geometries@.len() - i,
        {
            if geometries[i].in_frustum {
                order.push(i);
            }
            i = i + 1;
        }
        let ghost t0 = context.trace();
        let handles = match resolve_programs(context, geometries, &order) {
            Ok(handles) => handles,
            Err(e) => {
                assert(compile_outcome(c0, *context, keys_of(geometries@, order@), false));
                return Err(e);
            },
        };
        proof {
            let keys = keys_of(geometries@, order@);
            assert forall|k: int| 0 <= k < keys.len() implies context.programs().contains_key(#[trigger] keys[k]) by {
                assert(keys[k] == object_key(geometries@[order@[k] as int]));
            }
            assert(compile_outcome(c0, *context, keys, true));
        }
        let ghost programs = context.programs();
        context.issue(pass);
        draw_range(context, geometries, &order, &handles, 0, order.len());
        assert(order@.subrange(0, order@.len() as int) =~= order@);
        assert(context.trace() =~= t0 + seq![pass] + draw_calls(geometries@, in_frustum_indices(geometries@), programs));
        Ok(self)
    }

    /// Renders the geometries, each with the program of its sources for one shared
    /// material, into the part of this target within the scissor box: every geometry that
    /// meets the frustum, in input order, in one forward pass, with no sorting and no
    /// deferred pass. Every program is compiled, or found in the cache, before the first
    /// draw: where one fails to compile, the call fails and issues no draw.
    pub fn render_partially_with_material<D: Device>(&self, context: &mut Context<D>, scissor_box: ScissorBox, geometries: &Vec<SceneObject>) -> (r: Result<&RenderTarget, CoreError>)
        requires
            old(context).wf(),
        ensures
            r matches Ok(t) ==> *t == *self,
            final(context).wf(),
            final(context).current_camera2d() == old(context).current_camera2d(),
            geometries_outcome(*old(context), *final(context), geometries@, DrawCall::ForwardPass(scissor_box), r is Ok),
            r matches Err(e) ==> e is ProgramCreation,
            (forall|i: int| 0 <= i < geometries@.len() && geometries@[i].in_frustum ==> old(context).programs().contains_key(#[trigger] object_key(geometries@[i]))) ==> r is Ok,
    {
        self.render_geometries(context, DrawCall::ForwardPass(scissor_box), geometries)
    }

    /// Renders the geometries with one shared material into the whole target, as
    /// `render_partially_with_material` does within a box.
    pub fn render_with_material<D: Device>(&self, context: &mut Context<D>, geometries: &Vec<SceneObject>) -> (r: Result<&RenderTarget, CoreError>)
        requires
            old(context).wf(),
        ensures
            r matches Ok(t) ==> *t == *self,
            final(context).wf(),
            final(context).current_camera2d() == old(context).current_camera2d(),
            geometries_outcome(*old(context), *final(context), geometries@, DrawCall::ForwardPass(ScissorBox { x: 0, y: 0, width: self.width, height: self.height }), r is Ok),
            r matches Err(e) ==> e is ProgramCreation,
            (forall|i: int| 0 <= i < geometries@.len() && geometries@[i].in_frustum ==> old(context).programs().contains_key(#[trigger] object_key(geometries@[i]))) ==> r is Ok,
    {
        let scissor_box = self.scissor_box();
        self.render_partially_with_material(context, scissor_box, geometries)
    }

    /// Renders the geometries, each with the program of its sources for one shared post
    /// material, into the part of this target within the scissor box, as
    /// `render_partially_with_material` does, in a post pass that hands the material the
    /// given color and depth textures of an earlier render, where there are any.
    pub fn render_partially_with_post_material<D: Device>(&self, context: &mut Context<D>, scissor_box: ScissorBox, geometries: &Vec<SceneObject>, color_texture: Option<u32>, depth_texture: Option<u32>) -> (r: Result<&RenderTarget, CoreError>)
        requires
            old(context).wf(),
        ensures
            r matches Ok(t) ==> *t == *self,
            final(context).wf(),
            final(context).current_camera2d() == old(context).current_camera2d(),
            geometries_outcome(*old(context), *final(context), geometries@, DrawCall::PostPass(scissor_box, color_texture, depth_texture), r is Ok),
            r matches Err(e) ==> e is ProgramCreation,
            (forall|i: int| 0 <= i < geometries@.len() && geometries@[i].in_frustum ==> old(context).programs().contains_key(#[trigger] object_key(geometries@[i]))) ==> r is Ok,
    {
        self.render_geometries(context, DrawCall::PostPass(scissor_box, color_texture, depth_texture), geometries)
    }

    /// Renders the geometries with one shared post material into the whole target, as
    /// `render_partially_with_post_material` does within a box.
    pub fn render_with_post_material<D: Device>(&self, context: &mut Context<D>, geometries: &Vec<SceneObject>, color_texture: Option<u32>, depth_texture: Option<u32>) -> (r: Result<&RenderTarget, CoreError>)
        requires
            old(context).wf(),
        ensures
            r matches Ok(t) ==> *t == *self,
            final(context).wf(),
            final(context).current_camera2d() == old(context).current_camera2d(),
            geometries_outcome(*old(context), *final(context), geometries@, DrawCall::PostPass(ScissorBox { x: 0, y: 0, width: self.width, height: self.height }, color_texture, depth_texture), r is Ok),
            r matches Err(e) ==> e is ProgramCreation,
            (forall|i: int| 0 <= i < geometries@.len() && geometries@[i].in_frustum ==> old(context).programs().contains_key(#[trigger] object_key(geometries@[i]))) ==> r is Ok,
    {
        let scissor_box = self.scissor_box();
        self.render_partially_with_post_material(context, scissor_box, geometries, color_texture, depth_texture)
    }
}

/// Culling is total: an object whose bounding box does not meet the frustum is drawn in
/// no pass of a render call.
pub proof fn lemma_culled_objects_are_not_drawn(
    objs: Seq<SceneObject>,
    d: Seq<usize>,
    f: Seq<usize>,
    programs: Map<ProgramKey, u32>,
    effects: Map<Seq<char>, u32>,
    lighting_source: Seq<char>,
    camera_viewport: Viewport,
    scissor_box: ScissorBox,
    i: usize,
)
    requires
        paint_sequence(objs, d, true),
        paint_sequence(objs, f, false),
        i < objs.len(),
        !objs[i as int].in_frustum,
    ensures
        forall|k: int|
            0 <= k < render_calls(objs, d, f, programs, effects, lighting_source, camera_viewport, scissor_box).len()
            ==> !draws_object(#[trigger] render_calls(objs, d, f, programs, effects, lighting_source, camera_viewport, scissor_box)[k], i),
{
    let calls = render_calls(objs, d, f, programs, effects, lighting_source, camera_viewport, scissor_box);
    let head: int = if d.len() == 0 { 0 } else { d.len() as int + 2 };
    assert forall|k: int| 0 <= k < calls.len() implies !draws_object(#[trigger] calls[k], i) by {
        if d.len() > 0 && 1 <= k < d.len() + 1 {
            assert(calls[k] == draw_calls(objs, d, programs)[k - 1]);
            assert(d[k - 1] < objs.len());
        } else if k > head {
            assert(calls[k] == draw_calls(objs, f, programs)[k - head - 1]);
            assert(f[k - head - 1] < objs.len());
        }
    }
}

/// Culling is total for a render with one shared material: a geometry whose bounding box
/// does not meet the frustum is not drawn.
pub proof fn lemma_culled_geometries_are_not_drawn(objs: Seq<SceneObject>, programs: Map<ProgramKey, u32>, i: usize)
    requires
        i < objs.len() <= usize::MAX,
        !objs[i as int].in_frustum,
    ensures
        forall|k: int|
            0 <= k < in_frustum_indices(objs).len()
            ==> !draws_object(#[trigger] draw_calls(objs, in_frustum_indices(objs), programs)[k], i),
{
    lemma_in_frustum_prefix(objs, objs.len());
}

proof fn lemma_in_frustum_prefix(objs: Seq<SceneObject>, n: nat)
    requires
        n <= objs.len() <= usize::MAX,
    ensures
        forall|k: int| 0 <= k < in_frustum_prefix(objs, n).len() ==> #[trigger] in_frustum_prefix(objs, n)[k] < n && objs[in_frustum_prefix(objs, n)[k] as int].in_frustum,
    decreases n,
{
    if n > 0 {
        let prev = in_frustum_prefix(objs, (n - 1) as nat);
        lemma_in_frustum_prefix(objs, (n - 1) as nat);
        let cur = in_frustum_prefix(objs, n);
        assert forall|k: int| 0 <= k < cur.len() implies #[trigger] cur[k] < n && objs[cur[k] as int].in_frustum by {
            if k < prev.len() {
                assert(cur[k] == prev[k]);
            }
        }
    }
}

/// Deferred and forward shading compose: for a scene of one deferred object and one opaque
/// object, both in the frustum, the deferred object is drawn only into the geometry buffer
/// and reaches the target through the lighting pass, while the opaque object is drawn
/// straight into the target in the forward pass.
pub proof fn lemma_deferred_and_forward_compose(
    objs: Seq<SceneObject>,
    d: Seq<usize>,
    f: Seq<usize>,
    programs: Map<ProgramKey, u32>,
    effects: Map<Seq<char>, u32>,
    lighting_source: Seq<char>,
    camera_viewport: Viewport,
    scissor_box: ScissorBox,
)
    requires
        objs.len() == 2,
        objs[0].in_frustum && objs[0].order.material_type == MaterialType::Deferred,
        objs[1].in_frustum && objs[1].order.material_type == MaterialType::Opaque,
        paint_sequence(objs, d, true),
        paint_sequence(objs, f, false),
    ensures
        d == seq![0usize],
        f == seq![1usize],
        render_calls(objs, d, f, programs, effects, lighting_source, camera_viewport, scissor_box) == seq![
            DrawCall::GeometryPass(Viewport { x: 0, y: 0, width: camera_viewport.width, height: camera_viewport.height }),
            DrawCall::Draw(programs[object_key(objs[0])], 0usize),
            DrawCall::LightingPass(effects[lighting_source], scissor_box),
            DrawCall::ForwardPass(scissor_box),
            DrawCall::Draw(programs[object_key(objs[1])], 1usize),
        ],
{
    assert(d.contains(0usize));
    assert(f.contains(1usize));
    if d.len() > 1 {
        assert(d[0] < objs.len() && d[1] < objs.len());
        assert(paints_before(objs, d[0], d[1]));
    }
    if f.len() > 1 {
        assert(f[0] < objs.len() && f[1] < objs.len());
        assert(paints_before(objs, f[0], f[1]));
    }
    assert(d[0] < objs.len());
    assert(f[0] < objs.len());
    assert(d =~= seq![0usize]);
    assert(f =~= seq![1usize]);
    assert(render_calls(objs, d, f, programs, effects, lighting_source, camera_viewport, scissor_box) =~= seq![
        DrawCall::GeometryPass(Viewport { x: 0, y: 0, width: camera_viewport.width, height: camera_viewport.height }),
        DrawCall::Draw(programs[object_key(objs[0])], 0usize),
        DrawCall::LightingPass(effects[lighting_source], scissor_box),
        DrawCall::ForwardPass(scissor_box),
        DrawCall::Draw(programs[object_key(objs[1])], 1usize),
    ]);
}

proof fn lemma_sorted_same_contents_equal(objs: Seq<SceneObject>, s1: Seq<usize>, s2: Seq<usize>)
    requires
        painted_in_order(objs, s1),
        painted_in_order(objs, s2),
        forall|x: usize| s1.contains(x) <==> s2.contains(x),
        forall|k: int| 0 <= k < s1.len() ==> #[trigger] s1[k] < objs.len(),
        forall|k: int| 0 <= k < s2.len() ==> #[trigger] s2[k] < objs.len(),
    ensures
        s1 == s2,
    decreases s1.len(),
{
    if s1.len() == 0 {
        if s2.len() > 0 {
            assert(s2.contains(s2[0]));
        }
        assert(s1 =~= s2);
    } else {
        assert(s1.contains(s1[0]));
        assert(s2.len() > 0);
        assert(s2.contains(s2[0]));
        if s1[0] != s2[0] {
            let j1 = choose|j: int| 0 <= j < s2.len() && s2[j] == s1[0];
            let j2 = choose|j: int| 0 <= j < s1.len() && s1[j] == s2[0];
            assert(paints_before(objs, s2[0], s2[j1]));
            assert(paints_before(objs, s1[0], s1[j2]));
            assert(false);
        }
        let t1 = s1.drop_first();
        let t2 = s2.drop_first();
        assert forall|x: usize| t1.contains(x) <==> t2.contains(x) by {
            if t1.contains(x) {
                let k = choose|k: int| 0 <= k < t1.len() && t1[k] == x;
                assert(s1[k + 1] == x);
                assert(paints_before(objs, s1[0], s1[k + 1]));
                assert(s1.contains(x));
                let j = choose|j: int| 0 <= j < s2.len() && s2[j] == x;
                assert(j != 0);
                assert(t2[j - 1] == x);
            }
            if t2.contains(x) {
                let k = choose|k: int| 0 <= k < t2.len() && t2[k] == x;
                assert(s2[k + 1] == x);
                assert(paints_before(objs, s2[0], s2[k + 1]));
                assert(s2.contains(x));
                let j = choose|j: int| 0 <= j < s1.len() && s1[j] == x;
                assert(j != 0);
                assert(t1[j - 1] == x);
            }
        }
        assert forall|p: int, q: int| 0 <= p < q < t1.len() implies paints_before(objs, #[trigger] t1[p], #[trigger] t1[q]) by {
            assert(t1[p] == s1[p + 1] && t1[q] == s1[q + 1]);
        }
        assert forall|p: int, q: int| 0 <= p < q < t2.len() implies paints_before(objs, #[trigger] t2[p], #[trigger] t2[q]) by {
            assert(t2[p] == s2[p + 1] && t2[q] == s2[q + 1]);
        }
        assert forall|k: int| 0 <= k < t1.len() implies #[trigger] t1[k] < objs.len() by {
            assert(t1[k] == s1[k + 1]);
        }
        assert forall|k: int| 0 <= k < t2.len() implies #[trigger] t2[k] < objs.len() by {
            assert(t2[k] == s2[k + 1]);
        }
        lemma_sorted_same_contents_equal(objs, t1, t2);
        assert(s1 =~= s2) by {
            assert forall|k: int| 0 <= k < s1.len() implies s1[k] == s2[k] by {
                if k > 0 {
                    assert(s1[k] == t1[k - 1] && s2[k] == t2[k - 1]);
                }
            }
        }
    }
}

/// A group has one paint sequence: the objects of a render call fix the order of its
/// draws, and so the exact commands of the call.
pub proof fn lemma_paint_sequence_unique(objs: Seq<SceneObject>, s1: Seq<usize>, s2: Seq<usize>, deferred: bool)
    requires
        paint_sequence(objs, s1, deferred),
        paint_sequence(objs, s2, deferred),
    ensures
        s1 == s2,
{
    assert forall|x: usize| s1.contains(x) <==> s2.contains(x) by {
        if s1.contains(x) {
            let k = choose|k: int| 0 <= k < s1.len() && s1[k] == x;
            assert(s1[k] < objs.len());
        }
        if s2.contains(x) {
            let k = choose|k: int| 0 <= k < s2.len() && s2[k] == x;
            assert(s2[k] < objs.len());
        }
    }
    lemma_sorted_same_contents_equal(objs, s1, s2);
}

/// A frame of one deferred and one opaque object, both in the frustum, that rendered: the
/// deferred object's program is used once, into the geometry buffer; the lighting effect is
/// used once, in the lighting pass into the target, and compiled at most once; the opaque
/// object's program is used once, straight into the target in the forward pass, after the
/// lighting; and each of the two programs was compiled at most once.
pub proof fn lemma_deferred_and_forward_frame<D: Device>(
    c0: Context<D>,
    c1: Context<D>,
    objs: Seq<SceneObject>,
    d: Seq<usize>,
    f: Seq<usize>,
    lighting_source: Seq<char>,
    camera_viewport: Viewport,
    scissor_box: ScissorBox,
)
    requires
        objs.len() == 2,
        objs[0].in_frustum && objs[0].order.material_type == MaterialType::Deferred,
        objs[1].in_frustum && objs[1].order.material_type == MaterialType::Opaque,
        paint_sequence(objs, d, true),
        paint_sequence(objs, f, false),
        render_outcome(c0, c1, objs, d, f, lighting_source, camera_viewport, scissor_box, true),
    ensures
        c1.trace() == c0.trace() + seq![
            DrawCall::GeometryPass(Viewport { x: 0, y: 0, width: camera_viewport.width, height: camera_viewport.height }),
            DrawCall::Draw(c1.programs()[object_key(objs[0])], 0usize),
            DrawCall::LightingPass(c1.effects()[lighting_source], scissor_box),
            DrawCall::ForwardPass(scissor_box),
            DrawCall::Draw(c1.programs()[object_key(objs[1])], 1usize),
        ],
        c1.effects_compiled() == if c0.effects().contains_key(lighting_source) {
            c0.effects_compiled()
        } else {
            c0.effects_compiled().push(lighting_source)
        },
        c1.compiled() == c0.compiled() + compiles_for(c0.programs().dom(), seq![object_key(objs[0]), object_key(objs[1])]),
{
    lemma_deferred_and_forward_compose(objs, d, f, c1.programs(), c1.effects(), lighting_source, camera_viewport, scissor_box);
    assert(keys_of(objs, d + f) =~= seq![object_key(objs[0]), object_key(objs[1])]);
}

} // verus!
