//! The device context: the graphics device, the memoized shader programs and image
//! effects compiled on it, and the shared 2D camera.

use vstd::prelude::*;
use crate::camera::{centered_camera, make_centered_camera, OrthoCamera, ScissorBox, Viewport};
use crate::error::CoreError;

verus! {

/// The graphics device that the library drives. Every method issues device commands in
/// call order; the library decides which and when.
pub trait Device {
    /// Compiles and links a program from the two sources; `Err` carries the device's log.
    fn compile_program(&mut self, vertex_source: &str, fragment_source: &str) -> Result<u32, String>;

    /// Compiles a full-screen image effect from its fragment source; `Err` carries the log.
    fn compile_effect(&mut self, fragment_source: &str) -> Result<u32, String>;

    /// Allocates a geometry buffer of the viewport's size (three color layers of four 8-bit
    /// channels and a depth buffer), clears it and makes it the target of the following draws,
    /// seen through the camera moved to that viewport.
    fn begin_geometry_pass(&mut self, viewport: Viewport);

    /// Lights the geometry buffer with the given effect into the destination, within the box.
    fn lighting_pass(&mut self, effect: u32, scissor: ScissorBox);

    /// Makes the destination, within the box, the target of the following draws.
    fn begin_forward_pass(&mut self, scissor: ScissorBox);

    /// Makes the destination, within the box, the target of the following draws of a post
    /// material, which reads the given color and depth textures where there are any.
    fn begin_post_pass(&mut self, scissor: ScissorBox, color_texture: Option<u32>, depth_texture: Option<u32>);

    /// Draws one object of the current call with the given program and its own material.
    fn draw(&mut self, program: u32, object: usize);

    /// Allocates a 1x1 color and depth target along the current pick ray, clears both to
    /// 1.0 and makes it the target of the following draws.
    fn begin_pick_pass(&mut self);

    /// Draws one geometry of the current call with a flat color.
    fn draw_colored(&mut self, program: u32, object: usize, color: three_d_asset::Color);

    /// Reads the color of the pick target's pixel.
    fn read_color(&mut self) -> three_d_asset::Color;

    /// Reads the depth written in the pick target's pixel, scaled so that `u32::MAX` is 1.0.
    fn read_depth(&mut self) -> u32;
}

/// A command that the context issued to its device.
#[derive(Clone, Copy, Debug, PartialEq, Eq, Structural)]
pub enum DrawCall {
    GeometryPass(Viewport),
    LightingPass(u32, ScissorBox),
    ForwardPass(ScissorBox),
    PostPass(ScissorBox, Option<u32>, Option<u32>),
    Draw(u32, usize),
    PickPass,
    DrawColored(u32, usize, u8, u8, u8, u8),
}

/// The command draws the object of the given index.
pub open spec fn draws_object(call: DrawCall, object: usize) -> bool {
    match call {
        DrawCall::Draw(_, o) => o == object,
        DrawCall::DrawColored(_, o, _, _, _, _) => o == object,
        _ => false,
    }
}

/// The cache key of a program: its vertex and its fragment source.
pub type ProgramKey = (Seq<char>, Seq<char>);

struct CachedProgram {
    vertex_source: String,
    fragment_source: String,
    program: u32,
}

struct CachedEffect {
    fragment_source: String,
    effect: u32,
}

/// Owns the graphics device and the caches of what was compiled on it. Cache entries are
/// made on the first use of a source and never evicted. Every call that may change a cache
/// takes the context by `&mut`, so a second change while one is under way cannot compile.
pub struct Context<D> {
    device: D,
    programs: Vec<CachedProgram>,
    effects: Vec<CachedEffect>,
    camera2d: Option<OrthoCamera>,
    program_map: Ghost<Map<ProgramKey, u32>>,
    effect_map: Ghost<Map<Seq<char>, u32>>,
    compiled: Ghost<Seq<ProgramKey>>,
    effects_compiled: Ghost<Seq<Seq<char>>>,
    trace: Ghost<Seq<DrawCall>>,
}

/// The 2D camera of a context for a viewport: centered on it, at z = 1 looking towards
/// z = 0 with the y axis up, so that (0, 0) is the viewport's bottom-left corner.
pub open spec fn context_camera2d(viewport: Viewport) -> OrthoCamera {
    centered_camera(viewport, 1, 1)
}

/// What asking a cache for the program of `key` does, given the outcome `r`: a cached
/// program is handed back with nothing compiled; otherwise one compilation is asked of the
/// device, and only a program that compiled is cached.
pub open spec fn program_step(
    programs: Map<ProgramKey, u32>,
    compiled: Seq<ProgramKey>,
    key: ProgramKey,
    r: Result<u32, CoreError>,
    programs2: Map<ProgramKey, u32>,
    compiled2: Seq<ProgramKey>,
) -> bool {
    if programs.contains_key(key) {
        &&& r == Ok::<u32, CoreError>(programs[key])
        &&& programs2 == programs
        &&& compiled2 == compiled
    } else {
        &&& compiled2 == compiled.push(key)
        &&& match r {
            Ok(h) => programs2 == programs.insert(key, h),
            Err(e) => programs2 == programs && e is ProgramCreation,
        }
    }
}

/// What asking a cache for the image effect of `source` does, given the outcome `r`: a
/// cached effect is handed back with nothing compiled; otherwise one compilation of the
/// source is asked of the device, and only an effect that compiled is cached.
pub open spec fn effect_step(
    effects: Map<Seq<char>, u32>,
    compiled: Seq<Seq<char>>,
    source: Seq<char>,
    r: Result<u32, CoreError>,
    effects2: Map<Seq<char>, u32>,
    compiled2: Seq<Seq<char>>,
) -> bool {
    if effects.contains_key(source) {
        r == Ok::<u32, CoreError>(effects[source]) && effects2 == effects && compiled2 == compiled
    } else {
        compiled2 == compiled.push(source) && match r {
            Ok(h) => effects2 == effects.insert(source, h),
            Err(e) => effects2 == effects && e is ProgramCreation,
        }
    }
}

/// The compilations made by asking in turn for the programs of `keys`, from a cache that
/// holds `cached`, where each compilation succeeds: every key that is neither cached nor
/// asked for earlier, once, in the order asked.
pub open spec fn compiles_for(cached: Set<ProgramKey>, keys: Seq<ProgramKey>) -> Seq<ProgramKey>
    decreases keys.len(),
{
    if keys.len() == 0 {
        Seq::empty()
    } else {
        let prev = compiles_for(cached, keys.drop_last());
        if cached.contains(keys.last()) || keys.drop_last().contains(keys.last()) {
            prev
        } else {
            prev.push(keys.last())
        }
    }
}

/// Programs are compiled once per source pair: asking for the programs of two draws whose
/// sources are the same, not yet cached, compiles once; asking for two whose sources differ
/// in any way, neither cached, compiles twice.
pub proof fn lemma_compiles_once_per_source(cached: Set<ProgramKey>, k1: ProgramKey, k2: ProgramKey)
    requires
        !cached.contains(k1),
        !cached.contains(k2),
    ensures
        k1 == k2 ==> compiles_for(cached, seq![k1, k2]) == seq![k1],
        k1 != k2 ==> compiles_for(cached, seq![k1, k2]) == seq![k1, k2],
{
    reveal_with_fuel(compiles_for, 3);
    let s = seq![k1, k2];
    assert(s.drop_last() =~= seq![k1]);
    assert(seq![k1].drop_last() =~= Seq::<ProgramKey>::empty());
    assert(compiles_for(cached, seq![k1]) =~= seq![k1]);
    if k1 == k2 {
        assert(seq![k1].contains(k2)) by {
            assert(seq![k1][0] == k2);
        }
    } else {
        assert(compiles_for(cached, s) =~= seq![k1, k2]);
    }
}

/// A program asked for twice in a row is compiled at most once, and the second ask hands
/// back the program of the first; two asks for differing sources, neither cached, compile
/// each once, in order.
pub proof fn lemma_program_cache_memoizes(
    programs0: Map<ProgramKey, u32>,
    compiled0: Seq<ProgramKey>,
    k1: ProgramKey,
    r1: Result<u32, CoreError>,
    programs1: Map<ProgramKey, u32>,
    compiled1: Seq<ProgramKey>,
    k2: ProgramKey,
    r2: Result<u32, CoreError>,
    programs2: Map<ProgramKey, u32>,
    compiled2: Seq<ProgramKey>,
)
    requires
        program_step(programs0, compiled0, k1, r1, programs1, compiled1),
        program_step(programs1, compiled1, k2, r2, programs2, compiled2),
        r1 is Ok,
    ensures
        k1 == k2 ==> r2 == r1 && programs2 == programs1 && compiled2 == (if programs0.contains_key(k1) {
            compiled0
        } else {
            compiled0.push(k1)
        }),
        k1 != k2 && !programs0.contains_key(k1) && !programs0.contains_key(k2) ==> compiled2
            == compiled0.push(k1).push(k2),
{
}

/// An image effect asked for twice in a row is compiled at most once, and the second ask
/// hands back the effect of the first; two asks for differing sources, neither cached,
/// compile each once, in order.
pub proof fn lemma_effect_cache_memoizes(
    effects0: Map<Seq<char>, u32>,
    compiled0: Seq<Seq<char>>,
    s1: Seq<char>,
    r1: Result<u32, CoreError>,
    effects1: Map<Seq<char>, u32>,
    compiled1: Seq<Seq<char>>,
    s2: Seq<char>,
    r2: Result<u32, CoreError>,
    effects2: Map<Seq<char>, u32>,
    compiled2: Seq<Seq<char>>,
)
    requires
        effect_step(effects0, compiled0, s1, r1, effects1, compiled1),
        effect_step(effects1, compiled1, s2, r2, effects2, compiled2),
        r1 is Ok,
    ensures
        s1 == s2 ==> r2 == r1 && effects2 == effects1 && compiled2 == (if effects0.contains_key(s1) {
            compiled0
        } else {
            compiled0.push(s1)
        }),
        s1 != s2 && !effects0.contains_key(s1) && !effects0.contains_key(s2) ==> compiled2
            == compiled0.push(s1).push(s2),
{
}

impl<D: Device> Context<D> {
    /// The compiled programs, by their sources.
    pub closed spec fn programs(&self) -> Map<ProgramKey, u32> {
        self.program_map@
    }

    /// The compiled image effects, by their fragment source.
    pub closed spec fn effects(&self) -> Map<Seq<char>, u32> {
        self.effect_map@
    }

    /// Every program compilation asked of the device, in order, failed ones included.
    pub closed spec fn compiled(&self) -> Seq<ProgramKey> {
        self.compiled@
    }

    /// Every effect compilation asked of the device, in order, failed ones included.
    pub closed spec fn effects_compiled(&self) -> Seq<Seq<char>> {
        self.effects_compiled@
    }

    /// Every draw command issued to the device, in order.
    pub closed spec fn trace(&self) -> Seq<DrawCall> {
        self.trace@
    }

    /// The 2D camera, once one was asked for.
    pub closed spec fn current_camera2d(&self) -> Option<OrthoCamera> {
        self.camera2d
    }

    pub closed spec fn wf(&self) -> bool {
        &&& forall|k: ProgramKey| #[trigger]
            self.program_map@.contains_key(k) <==> exists|i: int|
                0 <= i < self.programs@.len() && k == (
                self.programs@[i].vertex_source@,
                self.programs@[i].fragment_source@,
            )
        &&& forall|i: int|
            0 <= i < self.programs@.len() ==> self.program_map@[(
                #[trigger] self.programs@[i].vertex_source@,
                self.programs@[i].fragment_source@,
            )] == self.programs@[i].program
        &&& forall|k: Seq<char>| #[trigger]
            self.effect_map@.contains_key(k) <==> exists|i: int|
                0 <= i < self.effects@.len() && k == self.effects@[i].fragment_source@
        &&& forall|i: int|
            0 <= i < self.effects@.len() ==> self.effect_map@[
            #[trigger] self.effects@[i].fragment_source@] == self.effects@[i].effect
    }

    /// A context on the device, with empty caches and no 2D camera yet.
    pub fn new(device: D) -> (r: Self)
        ensures
            r.wf(),
            r.programs() == Map::<ProgramKey, u32>::empty(),
            r.effects() == Map::<Seq<char>, u32>::empty(),
            r.compiled() == Seq::<ProgramKey>::empty(),
            r.effects_compiled() == Seq::<Seq<char>>::empty(),
            r.trace() == Seq::<DrawCall>::empty(),
            r.current_camera2d() == None::<OrthoCamera>,
    {
        Context {
            device,
            programs: Vec::new(),
            effects: Vec::new(),
            camera2d: None,
            program_map: Ghost(Map::empty()),
            effect_map: Ghost(Map::empty()),
            compiled: Ghost(Seq::empty()),
            effects_compiled: Ghost(Seq::empty()),
            trace: Ghost(Seq::empty()),
        }
    }

    /// The program compiled from the two sources: the cached one, or on a first use one
    /// that the device compiles and links, which is then cached. Fails with
    /// `ProgramCreation` where the device cannot compile it; nothing is cached then.
    pub fn program(&mut self, vertex_source: &str, fragment_source: &str) -> (r: Result<
        u32,
        CoreError,
    >)
        requires
            old(self).wf(),
        ensures
            final(self).wf(),
            program_step(
                old(self).programs(),
                old(self).compiled(),
                (vertex_source@, fragment_source@),
                r,
                final(self).programs(),
                final(self).compiled(),
            ),
            final(self).effects() == old(self).effects(),
            final(self).effects_compiled() == old(self).effects_compiled(),
            final(self).trace() == old(self).trace(),
            final(self).current_camera2d() == old(self).current_camera2d(),
    {
        let vs = vertex_source.to_owned();
        let fs = fragment_source.to_owned();
        let ghost key = (vs@, fs@);
        let mut i: usize = 0;
        while i < self.programs.len()
            invariant
                self.wf(),
                0 <= i <= self.programs@.len(),
                vs@ == vertex_source@,
                fs@ == fragment_source@,
                key == (vs@, fs@),
                forall|j: int|
                    0 <= j < i ==> (self.programs@[j].vertex_source@,
                    self.programs@[j].fragment_source@) != key,
            decreases self.programs@.len() - i,
        {
            if self.programs[i].vertex_source == vs && self.programs[i].fragment_source == fs {
                return Ok(self.programs[i].program);
            }
            i = i + 1;
        }
        assert(!self.program_map@.contains_key(key));
        self.compiled = Ghost(self.compiled@.push(key));
        match self.device.compile_program(vertex_source, fragment_source) {
            Ok(program) => {
                let ghost old_programs = self.programs@;
                self.programs.push(CachedProgram { vertex_source: vs, fragment_source: fs, program });
                self.program_map = Ghost(self.program_map@.insert(key, program));
                assert forall|k: ProgramKey| #[trigger]
                    self.program_map@.contains_key(k) <==> exists|j: int|
                        0 <= j < self.programs@.len() && k == (
                        self.programs@[j].vertex_source@,
                        self.programs@[j].fragment_source@,
                    ) by {
                    if k == key {
                        assert(self.programs@[old_programs.len() as int].vertex_source@ == key.0);
                    } else if self.program_map@.contains_key(k) {
                        let j = choose|j: int|
                            0 <= j < old_programs.len() && k == (
                            old_programs[j].vertex_source@,
                            old_programs[j].fragment_source@,
                        );
                        assert(self.programs@[j] == old_programs[j]);
                    }
                }
                assert forall|j: int| 0 <= j < self.programs@.len() implies self.program_map@[(
                    #[trigger] self.programs@[j].vertex_source@,
                    self.programs@[j].fragment_source@,
                )] == self.programs@[j].program by {
                    if j < old_programs.len() {
                        assert(self.programs@[j] == old_programs[j]);
                    }
                }
                assert(self.effects == old(self).effects && self.effect_map == old(self).effect_map);
                Ok(program)
            },
            Err(log) => {
                assert(self.programs == old(self).programs && self.program_map
                    == old(self).program_map && self.effects == old(self).effects
                    && self.effect_map == old(self).effect_map);
                Err(CoreError::ProgramCreation(log))
            },
        }
    }

    /// The image effect compiled from the fragment source: the cached one, or on a first
    /// use one that the device compiles, which is then cached. Fails with
    /// `ProgramCreation` where the device cannot compile it; nothing is cached then.
    pub fn effect(&mut self, fragment_source: &str) -> (r: Result<u32, CoreError>)
        requires
            old(self).wf(),
        ensures
            final(self).wf(),
            effect_step(
                old(self).effects(),
                old(self).effects_compiled(),
                fragment_source@,
                r,
                final(self).effects(),
                final(self).effects_compiled(),
            ),
            final(self).programs() == old(self).programs(),
            final(self).compiled() == old(self).compiled(),
            final(self).trace() == old(self).trace(),
            final(self).current_camera2d() == old(self).current_camera2d(),
    {
        let fs = fragment_source.to_owned();
        let mut i: usize = 0;
        while i < self.effects.len()
            invariant
                self.wf(),
                0 <= i <= self.effects@.len(),
                fs@ == fragment_source@,
                forall|j: int| 0 <= j < i ==> self.effects@[j].fragment_source@ != fs@,
            decreases self.effects@.len() - i,
        {
            if self.effects[i].fragment_source == fs {
                return Ok(self.effects[i].effect);
            }
            i = i + 1;
        }
        assert(!self.effect_map@.contains_key(fs@));
        self.effects_compiled = Ghost(self.effects_compiled@.push(fs@));
        match self.device.compile_effect(fragment_source) {
            Ok(effect) => {
                let ghost old_effects = self.effects@;
                let ghost key = fs@;
                self.effects.push(CachedEffect { fragment_source: fs, effect });
                self.effect_map = Ghost(self.effect_map@.insert(key, effect));
                assert forall|k: Seq<char>| #[trigger]
                    self.effect_map@.contains_key(k) <==> exists|j: int|
                        0 <= j < self.effects@.len() && k == self.effects@[j].fragment_source@ by {
                    if k == key {
                        assert(self.effects@[old_effects.len() as int].fragment_source@ == key);
                    } else if self.effect_map@.contains_key(k) {
                        let j = choose|j: int|
                            0 <= j < old_effects.len() && k == old_effects[j].fragment_source@;
                        assert(self.effects@[j] == old_effects[j]);
                    }
                }
                assert forall|j: int| 0 <= j < self.effects@.len() implies self.effect_map@[
                    #[trigger] self.effects@[j].fragment_source@] == self.effects@[j].effect by {
                    if j < old_effects.len() {
                        assert(self.effects@[j] == old_effects[j]);
                    }
                }
                assert(self.programs == old(self).programs && self.program_map
                    == old(self).program_map);
                Ok(effect)
            },
            Err(log) => {
                assert(self.programs == old(self).programs && self.program_map
                    == old(self).program_map && self.effects == old(self).effects
                    && self.effect_map == old(self).effect_map);
                Err(CoreError::ProgramCreation(log))
            },
        }
    }

    /// The context's 2D camera, made on the first call and fitted to the viewport on every
    /// call: centered on it, at z = 1 looking towards z = 0 with the y axis up, so that
    /// (0, 0) is the viewport's bottom-left corner.
    pub fn camera2d(&mut self, viewport: Viewport) -> (r: OrthoCamera)
        requires
            old(self).wf(),
        ensures
            final(self).wf(),
            r == context_camera2d(viewport),
            final(self).current_camera2d() == Some(r),
            final(self).programs() == old(self).programs(),
            final(self).effects() == old(self).effects(),
            final(self).compiled() == old(self).compiled(),
            final(self).effects_compiled() == old(self).effects_compiled(),
            final(self).trace() == old(self).trace(),
    {
        if self.camera2d.is_none() {
            self.camera2d = Some(make_centered_camera(viewport, 1, 1));
        }
        let fitted = make_centered_camera(viewport, 1, 1);
        match &mut self.camera2d {
            Some(camera) => {
                camera.viewport = fitted.viewport;
                camera.height = fitted.height;
                camera.z_near = fitted.z_near;
                camera.z_far = fitted.z_far;
                camera.position = fitted.position;
                camera.target = fitted.target;
                camera.up = fitted.up;
            },
            None => {},
        }
        assert(self.programs == old(self).programs && self.program_map == old(self).program_map
            && self.effects == old(self).effects && self.effect_map == old(self).effect_map);
        fitted
    }

    /// Issues the command to the device and records it.
    pub(crate) fn issue(&mut self, call: DrawCall)
        requires
            old(self).wf(),
        ensures
            final(self).wf(),
            final(self).trace() == old(self).trace().push(call),
            final(self).programs() == old(self).programs(),
            final(self).effects() == old(self).effects(),
            final(self).compiled() == old(self).compiled(),
            final(self).effects_compiled() == old(self).effects_compiled(),
            final(self).current_camera2d() == old(self).current_camera2d(),
    {
        match call {
            DrawCall::GeometryPass(viewport) => self.device.begin_geometry_pass(viewport),
            DrawCall::LightingPass(effect, scissor) => self.device.lighting_pass(effect, scissor),
            DrawCall::ForwardPass(scissor) => self.device.begin_forward_pass(scissor),
            DrawCall::PostPass(scissor, color, depth) => self.device.begin_post_pass(scissor, color, depth),
            DrawCall::Draw(program, object) => self.device.draw(program, object),
            DrawCall::PickPass => self.device.begin_pick_pass(),
            DrawCall::DrawColored(program, object, r, g, b, a) => {
                self.device.draw_colored(program, object, three_d_asset::Color { r, g, b, a })
            },
        }
        self.trace = Ghost(self.trace@.push(call));
        assert(self.programs == old(self).programs && self.program_map == old(self).program_map
            && self.effects == old(self).effects && self.effect_map == old(self).effect_map);
    }

    /// Reads the color of the pick target's pixel from the device.
    pub(crate) fn read_color(&mut self) -> (r: three_d_asset::Color)
        requires
            old(self).wf(),
        ensures
            final(self).wf(),
            final(self).trace() == old(self).trace(),
            final(self).programs() == old(self).programs(),
            final(self).effects() == old(self).effects(),
            final(self).compiled() == old(self).compiled(),
            final(self).effects_compiled() == old(self).effects_compiled(),
            final(self).current_camera2d() == old(self).current_camera2d(),
    {
        let color = self.device.read_color();
        assert(self.programs == old(self).programs && self.program_map == old(self).program_map
            && self.effects == old(self).effects && self.effect_map == old(self).effect_map);
        color
    }

    /// Reads the depth of the pick target's pixel from the device.
    pub(crate) fn read_depth(&mut self) -> (r: u32)
        requires
            old(self).wf(),
        ensures
            final(self).wf(),
            final(self).trace() == old(self).trace(),
            final(self).programs() == old(self).programs(),
            final(self).effects() == old(self).effects(),
            final(self).compiled() == old(self).compiled(),
            final(self).effects_compiled() == old(self).effects_compiled(),
            final(self).current_camera2d() == old(self).current_camera2d(),
    {
        let depth = self.device.read_depth();
        assert(self.programs == old(self).programs && self.program_map == old(self).program_map
            && self.effects == old(self).effects && self.effect_map == old(self).effect_map);
        depth
    }

    /// The device.
    pub fn device(&self) -> &D {
        &self.device
    }

    /// Gives the device back.
    pub fn into_device(self) -> D {
        self.device
    }
}

} // verus!
