//! Picking: finding what a ray hits by drawing the candidate geometries into a 1x1 target
//! along the ray and reading its one pixel back.

use vstd::prelude::*;
use crate::context::{Context, Device, DrawCall, ProgramKey};
use crate::error::CoreError;
use crate::render::{compile_outcome, keys_of, object_key, resolve_programs, SceneObject};

verus! {

/// The depth that the pick target is cleared to, 1.0 on the device's scale: a sample
/// below it is a hit.
pub const NO_HIT_DEPTH: u32 = 0xFFFF_FFFF;

/// How many geometries one object pick can tell apart: index `MAX_PICKABLE` would be drawn
/// in the background color. The color passes through the device's normalization of
/// channels to `0.0..=1.0`; where the device rounds a channel, an index can come back
/// wrong, a known limit of picking by color.
pub const MAX_PICKABLE: usize = 0xFF_FFFF;

/// The background of the object pick target: opaque white.
pub open spec fn is_background(c: three_d_asset::Color) -> bool {
    c.r == 255 && c.g == 255 && c.b == 255 && c.a == 255
}

/// The flat color that geometry `i` is drawn in: its index in base 256 over the red,
/// green and blue channels, least significant first, and an opaque alpha.
pub open spec fn index_color(i: int) -> three_d_asset::Color {
    three_d_asset::Color {
        r: (i % 256) as u8,
        g: ((i / 256) % 256) as u8,
        b: ((i / 65536) % 256) as u8,
        a: 255,
    }
}

/// The geometry index that a read color stands for: none for the background, else the
/// number in its red, green and blue channels.
pub open spec fn color_index(c: three_d_asset::Color) -> Option<usize> {
    if is_background(c) {
        None
    } else {
        Some((c.r as int + 256 * c.g as int + 65536 * c.b as int) as usize)
    }
}

/// The draws of an object pick: geometry `k` with its program, in its index color.
pub open spec fn colored_draw_calls(objs: Seq<SceneObject>, programs: Map<ProgramKey, u32>) -> Seq<DrawCall> {
    Seq::new(objs.len(), |k: int| {
        let c = index_color(k);
        DrawCall::DrawColored(programs[object_key(objs[k])], k as usize, c.r, c.g, c.b, c.a)
    })
}

/// The draws of a location pick: each geometry with its program, in input order.
pub open spec fn pick_draw_calls(objs: Seq<SceneObject>, programs: Map<ProgramKey, u32>) -> Seq<DrawCall> {
    Seq::new(objs.len(), |k: int| DrawCall::Draw(programs[object_key(objs[k])], k as usize))
}

/// The hit that a depth sample read from the pick target stands for.
pub open spec fn depth_hit(sample: u32) -> Option<u32> {
    if sample < NO_HIT_DEPTH {
        Some(sample)
    } else {
        None
    }
}

/// The indices of `n` geometries in input order.
pub open spec fn input_order(n: nat) -> Seq<usize> {
    Seq::new(n, |k: int| k as usize)
}

fn all_indices(n: usize) -> (r: Vec<usize>)
    ensures
        r@.len() == n,
        forall|k: int| 0 <= k < n ==> #[trigger] r@[k] == k,
        r@ == input_order(n as nat),
{
    let mut r: Vec<usize> = Vec::new();
    let mut k: usize = 0;
    while k < n
        invariant
            k <= n,
            r@.len() == k,
            forall|j: int| 0 <= j < k ==> #[trigger] r@[j] == j,
        decreases n - k,
    {
        r.push(k);
        k = k + 1;
    }
    assert(r@ =~= input_order(n as nat));
    r
}

/// A picker that finds the point of the scene that a ray hits first, by the depth of the
/// candidate geometries along the ray.
pub struct LocationPicker {}

impl LocationPicker {
    /// A location picker.
    pub fn new() -> Self {
        LocationPicker {}
    }

    /// The hit that a depth sample stands for: a hit at that depth, on the scale where
    /// `NO_HIT_DEPTH` is the far end of the ray, where the sample is below it; none else.
    pub fn depth_hit(sample: u32) -> (r: Option<u32>)
        ensures
            r == depth_hit(sample),
    {
        if sample < NO_HIT_DEPTH {
            Some(sample)
        } else {
            None
        }
    }

    /// Draws every geometry, in input order, into the pick target along the device's
    /// current pick ray, cleared to `NO_HIT_DEPTH`, and reads back the depth of its pixel:
    /// `Some(depth)` where a geometry was hit, the point at `depth / NO_HIT_DEPTH` of the way
    /// along the ray, `None` where none was. Every program is compiled, or found in the
    /// cache, before the first draw; where one fails to compile, the call fails and issues
    /// no draw.
    pub fn ray_intersect<D: Device>(&self, context: &mut Context<D>, geometries: &Vec<SceneObject>) -> (r: Result<Option<u32>, CoreError>)
        requires
            old(context).wf(),
        ensures
            compile_outcome(*old(context), *final(context), keys_of(geometries@, input_order(geometries@.len())), r is Ok),
            final(context).effects_compiled() == old(context).effects_compiled(),
            r matches Ok(v) ==> exists|sample: u32| v == #[trigger] depth_hit(sample),
            final(context).wf(),
            final(context).effects() == old(context).effects(),
            final(context).current_camera2d() == old(context).current_camera2d(),
            r is Ok ==> final(context).trace() == old(context).trace() + seq![DrawCall::PickPass] + pick_draw_calls(geometries@, final(context).programs()),
            r matches Ok(Some(depth)) ==> depth < NO_HIT_DEPTH,
            r is Err ==> final(context).trace() == old(context).trace(),
            r matches Err(e) ==> e is ProgramCreation,
            (forall|i: int| 0 <= i < geometries@.len() ==> old(context).programs().contains_key(#[trigger] object_key(geometries@[i]))) ==> r is Ok,
    {
        let ghost c0 = *context;
        let order = all_indices(geometries.len());
        let ghost t0 = context.trace();
        let handles = match resolve_programs(context, geometries, &order) {
            Ok(handles) => handles,
            Err(e) => {
                return Err(e);
            },
        };
        proof {
            let keys = keys_of(geometries@, order@);
            assert forall|k: int| 0 <= k < keys.len() implies context.programs().contains_key(#[trigger] keys[k]) by {
                assert(keys[k] == object_key(geometries@[order@[k] as int]));
            }
        }
        let ghost c1 = *context;
        let ghost programs = context.programs();
        context.issue(DrawCall::PickPass);
        let mut k: usize = 0;
        while k < geometries.len()
            invariant
                context.wf(),
                k <= geometries@.len(),
                order@.len() == geometries@.len(),
                handles@.len() == geometries@.len(),
                forall|j: int| 0 <= j < geometries@.len() ==> #[trigger] order@[j] == j,
                forall|j: int| 0 <= j < order@.len() ==> #[trigger] handles@[j] == programs[object_key(geometries@[order@[j] as int])],
                context.programs() == programs,
                programs == c1.programs(),
                context.compiled() == c1.compiled(),
                context.effects_compiled() == c1.effects_compiled(),
                context.effects() == old(context).effects(),
                context.current_camera2d() == old(context).current_camera2d(),
                context.trace() == t0 + seq![DrawCall::PickPass] + pick_draw_calls(geometries@.take(k as int), programs),
            decreases geometries@.len() - k,
        {
            assert(handles@[k as int] == programs[object_key(geometries@[k as int])]);
            context.issue(DrawCall::Draw(handles[k], k));
            assert(pick_draw_calls(geometries@.take(k + 1), programs) =~= pick_draw_calls(geometries@.take(k as int), programs).push(DrawCall::Draw(handles@[k as int], k)));
            k = k + 1;
        }
        assert(geometries@.take(geometries@.len() as int) =~= geometries@);
        let sample = context.read_depth();
        assert(compile_outcome(c0, *context, keys_of(geometries@, order@), true));
        Ok(LocationPicker::depth_hit(sample))
    }
}

/// A picker that finds which of the candidate geometries a ray hits first, by drawing each
/// in a flat color that encodes its index.
pub struct ObjectPicker {}

impl ObjectPicker {
    /// An object picker.
    pub fn new() -> Self {
        ObjectPicker {}
    }

    /// The flat color that the geometry of the given index is drawn in.
    pub fn index_color(index: usize) -> (r: three_d_asset::Color)
        requires
            index < MAX_PICKABLE,
        ensures
            r == index_color(index as int),
    {
        three_d_asset::Color {
            r: (index % 256) as u8,
            g: ((index / 256) % 256) as u8,
            b: ((index / 65536) % 256) as u8,
            a: 255,
        }
    }

    /// The geometry index that a color read from the pick target stands for: `None` for the
    /// background, else the number in its red, green and blue channels.
    pub fn color_index(color: three_d_asset::Color) -> (r: Option<usize>)
        ensures
            r == color_index(color),
    {
        if color.r == 255 && color.g == 255 && color.b == 255 && color.a == 255 {
            None
        } else {
            Some(color.r as usize + 256 * color.g as usize + 65536 * color.b as usize)
        }
    }

    /// Draws every geometry, in input order and in the color of its index, into the pick
    /// target along the device's current pick ray, cleared to the background, and reads
    /// back the color of its pixel: the index of the geometry hit first, or `None` where
    /// the pixel kept the background. Every program is compiled, or found in the cache,
    /// before the first draw; where one fails to compile, the call fails and issues no draw.
    pub fn ray_intersect<D: Device>(&self, context: &mut Context<D>, geometries: &Vec<SceneObject>) -> (r: Result<Option<usize>, CoreError>)
        requires
            old(context).wf(),
            geometries@.len() <= MAX_PICKABLE,
        ensures
            compile_outcome(*old(context), *final(context), keys_of(geometries@, input_order(geometries@.len())), r is Ok),
            final(context).effects_compiled() == old(context).effects_compiled(),
            r matches Ok(v) ==> exists|c: three_d_asset::Color| v == #[trigger] color_index(c),
            final(context).wf(),
            final(context).effects() == old(context).effects(),
            final(context).current_camera2d() == old(context).current_camera2d(),
            r is Ok ==> final(context).trace() == old(context).trace() + seq![DrawCall::PickPass] + colored_draw_calls(geometries@, final(context).programs()),
            r is Err ==> final(context).trace() == old(context).trace(),
            r matches Err(e) ==> e is ProgramCreation,
            (forall|i: int| 0 <= i < geometries@.len() ==> old(context).programs().contains_key(#[trigger] object_key(geometries@[i]))) ==> r is Ok,
    {
        let ghost c0 = *context;
        let order = all_indices(geometries.len());
        let ghost t0 = context.trace();
        let handles = match resolve_programs(context, geometries, &order) {
            Ok(handles) => handles,
            Err(e) => {
                return Err(e);
            },
        };
        proof {
            let keys = keys_of(geometries@, order@);
            assert forall|k: int| 0 <= k < keys.len() implies context.programs().contains_key(#[trigger] keys[k]) by {
                assert(keys[k] == object_key(geometries@[order@[k] as int]));
            }
        }
        let ghost c1 = *context;
        let ghost programs = context.programs();
        context.issue(DrawCall::PickPass);
        let mut k: usize = 0;
        while k < geometries.len()
            invariant
                context.wf(),
                k <= geometries@.len() <= MAX_PICKABLE,
                order@.len() == geometries@.len(),
                handles@.len() == geometries@.len(),
                forall|j: int| 0 <= j < geometries@.len() ==> #[trigger] order@[j] == j,
                forall|j: int| 0 <= j < order@.len() ==> #[trigger] handles@[j] == programs[object_key(geometries@[order@[j] as int])],
                context.programs() == programs,
                programs == c1.programs(),
                context.compiled() == c1.compiled(),
                context.effects_compiled() == c1.effects_compiled(),
                context.effects() == old(context).effects(),
                context.current_camera2d() == old(context).current_camera2d(),
                context.trace() == t0 + seq![DrawCall::PickPass] + colored_draw_calls(geometries@.take(k as int), programs),
            decreases geometries@.len() - k,
        {
            assert(handles@[k as int] == programs[object_key(geometries@[k as int])]);
            let color = ObjectPicker::index_color(k);
            context.issue(DrawCall::DrawColored(handles[k], k, color.r, color.g, color.b, color.a));
            assert(colored_draw_calls(geometries@.take(k + 1), programs) =~= colored_draw_calls(geometries@.take(k as int), programs).push(DrawCall::DrawColored(handles@[k as int], k, color.r, color.g, color.b, color.a)));
            k = k + 1;
        }
        assert(geometries@.take(geometries@.len() as int) =~= geometries@);
        let color = context.read_color();
        assert(compile_outcome(c0, *context, keys_of(geometries@, order@), true));
        Ok(ObjectPicker::color_index(color))
    }
}

/// Picking by color recovers every index it can tell apart: the color of index `i` is
/// never the background, and reads back as `i`; the background reads back as no hit.
pub proof fn lemma_index_color_round_trip(i: usize)
    requires
        i < MAX_PICKABLE,
    ensures
        !is_background(index_color(i as int)),
        color_index(index_color(i as int)) == Some(i),
        color_index(three_d_asset::Color { r: 255, g: 255, b: 255, a: 255 }) == None::<usize>,
{
    let c = index_color(i as int);
    assert(c.r as int == i % 256);
    assert(c.g as int == (i / 256) % 256);
    assert(c.b as int == (i / 65536) % 256);
    assert(i as int == i % 256 + 256 * ((i / 256) % 256) + 65536 * ((i / 65536) % 256)) by (nonlinear_arith)
        requires
            0 <= i < 0xFF_FFFF,
    ;
}

} // verus!
