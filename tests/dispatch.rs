use three_d::{
    Context, CoreError, Device, Distance2, LocationPicker, MaterialType, ObjectPicker, OrderKey,
    RenderTarget, SceneObject, ScissorBox, Viewport, NO_HIT_DEPTH,
};
use three_d_asset::Color;

/// A device that records what it is asked to do, and renders picks from a table of hits.
struct Recorder {
    compiled: Vec<(String, String)>,
    compiled_effects: Vec<String>,
    calls: Vec<String>,
    failing_fragment: Option<String>,
    hits: Vec<(usize, u32)>,
    next_handle: u32,
    pixel: Color,
    depth: u32,
}

impl Recorder {
    fn new() -> Recorder {
        Recorder {
            compiled: Vec::new(),
            compiled_effects: Vec::new(),
            calls: Vec::new(),
            failing_fragment: None,
            hits: Vec::new(),
            next_handle: 1,
            pixel: Color::new(0, 0, 0, 0),
            depth: 0,
        }
    }

    fn hit_depth(&self, object: usize) -> Option<u32> {
        self.hits.iter().find(|h| h.0 == object).map(|h| h.1)
    }
}

impl Device for Recorder {
    fn compile_program(&mut self, vertex_source: &str, fragment_source: &str) -> Result<u32, String> {
        self.compiled.push((vertex_source.to_string(), fragment_source.to_string()));
        if self.failing_fragment.as_deref() == Some(fragment_source) {
            return Err("syntax error".to_string());
        }
        self.next_handle += 1;
        Ok(self.next_handle)
    }

    fn compile_effect(&mut self, fragment_source: &str) -> Result<u32, String> {
        self.compiled_effects.push(fragment_source.to_string());
        if self.failing_fragment.as_deref() == Some(fragment_source) {
            return Err("syntax error".to_string());
        }
        self.next_handle += 1;
        Ok(self.next_handle)
    }

    fn begin_geometry_pass(&mut self, viewport: Viewport) {
        self.calls.push(format!("geometry {}x{} at {},{}", viewport.width, viewport.height, viewport.x, viewport.y));
    }

    fn lighting_pass(&mut self, effect: u32, scissor: ScissorBox) {
        self.calls.push(format!("lighting {} in {}x{}", effect, scissor.width, scissor.height));
    }

    fn begin_forward_pass(&mut self, scissor: ScissorBox) {
        self.calls.push(format!("forward in {}x{}", scissor.width, scissor.height));
    }

    fn begin_post_pass(&mut self, scissor: ScissorBox, color_texture: Option<u32>, depth_texture: Option<u32>) {
        self.calls.push(format!("post in {}x{} reading {:?} {:?}", scissor.width, scissor.height, color_texture, depth_texture));
    }

    fn draw(&mut self, program: u32, object: usize) {
        self.calls.push(format!("draw {} with {}", object, program));
        if let Some(d) = self.hit_depth(object) {
            if d < self.depth {
                self.depth = d;
            }
        }
    }

    fn begin_pick_pass(&mut self) {
        self.calls.push("pick".to_string());
        self.pixel = Color::WHITE;
        self.depth = u32::MAX;
    }

    fn draw_colored(&mut self, program: u32, object: usize, color: Color) {
        self.calls.push(format!("draw {} with {} in {},{},{},{}", object, program, color.r, color.g, color.b, color.a));
        if let Some(d) = self.hit_depth(object) {
            if d < self.depth {
                self.depth = d;
                self.pixel = color;
            }
        }
    }

    fn read_color(&mut self) -> Color {
        self.pixel
    }

    fn read_depth(&mut self) -> u32 {
        self.depth
    }
}

fn object(vertex: &str, fragment: &str, material_type: MaterialType, distance: u64, in_frustum: bool) -> SceneObject {
    SceneObject {
        vertex_source: vertex.to_string(),
        fragment_source: fragment.to_string(),
        order: OrderKey { material_type, distance2: Distance2::Value(distance) },
        in_frustum,
    }
}

fn viewport() -> Viewport {
    Viewport { x: 10, y: 20, width: 64, height: 32 }
}

#[test]
fn same_sources_compile_once() {
    let mut context = Context::new(Recorder::new());
    let a = context.program("vs", "fs").unwrap();
    let b = context.program("vs", "fs").unwrap();
    assert_eq!(a, b);
    assert_eq!(context.device().compiled.len(), 1);
}

#[test]
fn differing_sources_compile_twice() {
    let mut context = Context::new(Recorder::new());
    let a = context.program("vs", "fs").unwrap();
    let b = context.program("vs", "fs2").unwrap();
    assert_ne!(a, b);
    // The pair is the key: a split that concatenates to the same text is another program.
    context.program("v", "sfs").unwrap();
    assert_eq!(context.device().compiled.len(), 3);
}

#[test]
fn failed_program_is_not_cached() {
    let mut recorder = Recorder::new();
    recorder.failing_fragment = Some("broken".to_string());
    let mut context = Context::new(recorder);
    assert_eq!(context.program("vs", "broken"), Err(CoreError::ProgramCreation("syntax error".to_string())));
    assert!(context.program("vs", "broken").is_err());
    assert_eq!(context.device().compiled.len(), 2);
}

#[test]
fn effects_are_cached_by_source() {
    let mut context = Context::new(Recorder::new());
    let a = context.effect("light").unwrap();
    let b = context.effect("light").unwrap();
    let c = context.effect("other").unwrap();
    assert_eq!(a, b);
    assert_ne!(a, c);
    assert_eq!(context.device().compiled_effects, vec!["light".to_string(), "other".to_string()]);
}

#[test]
fn render_objects_with_same_program_compile_once() {
    let mut context = Context::new(Recorder::new());
    let objects = vec![
        object("vs", "fs", MaterialType::Opaque, 1, true),
        object("vs", "fs", MaterialType::Opaque, 2, true),
    ];
    RenderTarget::new(64, 32).render(&mut context, viewport(), &objects, "light").unwrap();
    assert_eq!(context.device().compiled.len(), 1);
    let objects = vec![
        object("vs", "fs", MaterialType::Opaque, 1, true),
        object("vs", "fs ", MaterialType::Opaque, 2, true),
    ];
    RenderTarget::new(64, 32).render(&mut context, viewport(), &objects, "light").unwrap();
    assert_eq!(context.device().compiled.len(), 2);
}

#[test]
fn deferred_and_opaque_take_distinct_paths() {
    let mut context = Context::new(Recorder::new());
    let objects = vec![
        object("vs", "deferred", MaterialType::Deferred, 5, true),
        object("vs", "opaque", MaterialType::Opaque, 5, true),
    ];
    let scissor = ScissorBox { x: 0, y: 0, width: 16, height: 8 };
    RenderTarget::new(64, 32)
        .render_partially(&mut context, scissor, viewport(), &objects, "light")
        .unwrap();
    let deferred_program = context.program("vs", "deferred").unwrap();
    let opaque_program = context.program("vs", "opaque").unwrap();
    let light = context.effect("light").unwrap();
    assert_eq!(
        context.device().calls,
        vec![
            "geometry 64x32 at 0,0".to_string(),
            format!("draw 0 with {}", deferred_program),
            format!("lighting {} in 16x8", light),
            "forward in 16x8".to_string(),
            format!("draw 1 with {}", opaque_program),
        ]
    );
}

#[test]
fn culled_objects_are_never_drawn() {
    let mut context = Context::new(Recorder::new());
    let objects = vec![
        object("vs", "a", MaterialType::Deferred, 1, false),
        object("vs", "b", MaterialType::Opaque, 1, false),
        object("vs", "c", MaterialType::Transparent, 1, false),
        object("vs", "d", MaterialType::Opaque, 1, true),
    ];
    RenderTarget::new(64, 32).render(&mut context, viewport(), &objects, "light").unwrap();
    let calls = &context.device().calls;
    assert_eq!(calls.len(), 2);
    assert_eq!(calls[0], "forward in 64x32");
    assert!(calls[1].starts_with("draw 3 "));
    // Nothing compiled for what was culled.
    assert_eq!(context.device().compiled, vec![("vs".to_string(), "d".to_string())]);
}

#[test]
fn forward_objects_are_painted_in_render_order() {
    let mut context = Context::new(Recorder::new());
    let objects = vec![
        object("vs", "t", MaterialType::Transparent, 1, true),
        object("vs", "t", MaterialType::Transparent, 9, true),
        object("vs", "o", MaterialType::Opaque, 7, true),
        object("vs", "o", MaterialType::Opaque, 3, true),
        object("vs", "o", MaterialType::Opaque, 3, true),
    ];
    RenderTarget::new(64, 32).render(&mut context, viewport(), &objects, "light").unwrap();
    let drawn: Vec<String> = context.device().calls[1..]
        .iter()
        .map(|c| c.split(' ').nth(1).unwrap().to_string())
        .collect();
    assert_eq!(drawn, vec!["3", "4", "2", "1", "0"]);
}

#[test]
fn compile_failure_aborts_before_any_draw() {
    let mut recorder = Recorder::new();
    recorder.failing_fragment = Some("broken".to_string());
    let mut context = Context::new(recorder);
    let objects = vec![
        object("vs", "fine", MaterialType::Opaque, 1, true),
        object("vs", "broken", MaterialType::Opaque, 2, true),
    ];
    let target = RenderTarget::new(64, 32);
    let r = target.render(&mut context, viewport(), &objects, "light");
    assert!(matches!(r, Err(CoreError::ProgramCreation(_))));
    assert!(context.device().calls.is_empty());
}

#[test]
fn lighting_effect_failure_aborts_before_any_draw() {
    let mut recorder = Recorder::new();
    recorder.failing_fragment = Some("light".to_string());
    let mut context = Context::new(recorder);
    let objects = vec![object("vs", "d", MaterialType::Deferred, 1, true)];
    let target = RenderTarget::new(64, 32);
    let r = target.render(&mut context, viewport(), &objects, "light");
    assert!(r.is_err());
    assert!(context.device().calls.is_empty());
}

#[test]
fn no_lighting_pass_without_deferred_objects() {
    let mut context = Context::new(Recorder::new());
    let objects = vec![object("vs", "o", MaterialType::Opaque, 1, true)];
    RenderTarget::new(64, 32).render(&mut context, viewport(), &objects, "light").unwrap();
    assert!(context.device().compiled_effects.is_empty());
    assert_eq!(context.device().calls.len(), 2);
}

#[test]
fn render_with_material_keeps_input_order_and_culls() {
    let mut context = Context::new(Recorder::new());
    let objects = vec![
        object("vs", "m", MaterialType::Transparent, 1, true),
        object("vs", "m", MaterialType::Deferred, 9, false),
        object("vs", "m", MaterialType::Opaque, 0, true),
    ];
    RenderTarget::new(8, 4).render_with_material(&mut context, &objects).unwrap();
    let calls = &context.device().calls;
    assert_eq!(calls.len(), 3);
    assert_eq!(calls[0], "forward in 8x4");
    assert!(calls[1].starts_with("draw 0 "));
    assert!(calls[2].starts_with("draw 2 "));
}

#[test]
fn object_picker_round_trip() {
    for i in 0..16usize {
        let mut recorder = Recorder::new();
        recorder.hits.push((i, 100));
        let mut context = Context::new(recorder);
        let geometries: Vec<SceneObject> = (0..16).map(|_| object("vs", "flat", MaterialType::Opaque, 0, true)).collect();
        let picked = ObjectPicker::new().ray_intersect(&mut context, &geometries).unwrap();
        assert_eq!(picked, Some(i));
        assert_eq!(ObjectPicker::color_index(ObjectPicker::index_color(i)), Some(i));
    }
}

#[test]
fn object_picker_picks_nearest() {
    let mut recorder = Recorder::new();
    recorder.hits.push((1, 500));
    recorder.hits.push((2, 200));
    let mut context = Context::new(recorder);
    let geometries: Vec<SceneObject> = (0..3).map(|_| object("vs", "flat", MaterialType::Opaque, 0, true)).collect();
    assert_eq!(ObjectPicker::new().ray_intersect(&mut context, &geometries).unwrap(), Some(2));
}

#[test]
fn object_picker_without_geometry_misses() {
    let mut context = Context::new(Recorder::new());
    assert_eq!(ObjectPicker::new().ray_intersect(&mut context, &Vec::new()).unwrap(), None);
    assert_eq!(context.device().calls, vec!["pick".to_string()]);
}

#[test]
fn index_colors() {
    assert_eq!(ObjectPicker::index_color(0), Color::new(0, 0, 0, 255));
    assert_eq!(ObjectPicker::index_color(0x010203), Color::new(3, 2, 1, 255));
    assert_ne!(ObjectPicker::index_color(three_d::MAX_PICKABLE - 1), Color::WHITE);
    assert_eq!(ObjectPicker::color_index(Color::WHITE), None);
    assert_eq!(ObjectPicker::color_index(Color::new(255, 255, 255, 0)), Some(0xFF_FFFF));
}

#[test]
fn location_picker_hits_plane_below() {
    // A ray from z = 5 straight down with a reach of 10 meets the plane z = 0 halfway.
    let position_z = 5.0f64;
    let max_depth = 10.0f64;
    let half = (NO_HIT_DEPTH as f64 * 0.5) as u32;
    let mut recorder = Recorder::new();
    recorder.hits.push((0, half));
    let mut context = Context::new(recorder);
    let geometries = vec![object("vs", "depth", MaterialType::Opaque, 0, true)];
    let depth = LocationPicker::new().ray_intersect(&mut context, &geometries).unwrap().unwrap();
    let z = position_z - max_depth * (depth as f64 / NO_HIT_DEPTH as f64);
    assert!(z.abs() < 1e-6);
}

#[test]
fn location_picker_without_geometry_misses() {
    let mut context = Context::new(Recorder::new());
    assert_eq!(LocationPicker::new().ray_intersect(&mut context, &Vec::new()).unwrap(), None);
}

#[test]
fn depth_samples() {
    assert_eq!(LocationPicker::depth_hit(0), Some(0));
    assert_eq!(LocationPicker::depth_hit(NO_HIT_DEPTH - 1), Some(NO_HIT_DEPTH - 1));
    assert_eq!(LocationPicker::depth_hit(NO_HIT_DEPTH), None);
}

#[test]
fn context_camera2d_is_fitted_on_each_call() {
    let mut context = Context::new(Recorder::new());
    let a = context.camera2d(Viewport { x: 0, y: 0, width: 100, height: 50 });
    // Centered on the viewport, looking down the z axis with y up: (0, 0) is bottom-left.
    assert_eq!((a.position.x2, a.position.y2, a.position.z2), (100, 50, 2));
    assert_eq!((a.target.x2, a.target.y2, a.target.z2), (100, 50, 0));
    assert_eq!(a.up.y2, 2);
    let b = context.camera2d(Viewport { x: 5, y: 5, width: 20, height: 10 });
    assert_eq!(b.viewport, Viewport { x: 5, y: 5, width: 20, height: 10 });
    assert_eq!((b.position.x2, b.position.y2), (20, 10));
    assert_eq!(b.height, 10);
    assert_eq!((b.z_near, b.z_far), (0, 10));
}

#[test]
fn render_with_post_material_reads_inputs_and_culls() {
    let mut context = Context::new(Recorder::new());
    let objects = vec![
        object("vs", "post", MaterialType::Opaque, 1, false),
        object("vs", "post", MaterialType::Opaque, 2, true),
    ];
    let target = RenderTarget::new(8, 4);
    target.render_with_post_material(&mut context, &objects, Some(7), None).unwrap();
    target
        .render_partially_with_post_material(&mut context, ScissorBox { x: 1, y: 1, width: 2, height: 2 }, &objects, None, Some(9))
        .unwrap();
    let program = context.program("vs", "post").unwrap();
    assert_eq!(
        context.device().calls,
        vec![
            "post in 8x4 reading Some(7) None".to_string(),
            format!("draw 1 with {}", program),
            "post in 2x2 reading None Some(9)".to_string(),
            format!("draw 1 with {}", program),
        ]
    );
    assert_eq!(context.device().compiled.len(), 1);
}

#[test]
fn render_with_post_material_fails_without_drawing() {
    let mut recorder = Recorder::new();
    recorder.failing_fragment = Some("post".to_string());
    let mut context = Context::new(recorder);
    let objects = vec![object("vs", "post", MaterialType::Opaque, 1, true)];
    let target = RenderTarget::new(8, 4);
    assert!(target.render_with_post_material(&mut context, &objects, None, None).is_err());
    assert!(context.device().calls.is_empty());
    assert_eq!(context.device().compiled.len(), 1);
}

#[test]
fn first_render_compiles_each_program_then_effect() {
    let mut context = Context::new(Recorder::new());
    let objects = vec![
        object("vs", "deferred", MaterialType::Deferred, 1, true),
        object("vs", "opaque", MaterialType::Opaque, 1, true),
        object("vs", "deferred", MaterialType::Deferred, 2, true),
    ];
    let target = RenderTarget::new(8, 4);
    target.render(&mut context, viewport(), &objects, "light").unwrap();
    target.render(&mut context, viewport(), &objects, "light").unwrap();
    assert_eq!(
        context.device().compiled,
        vec![("vs".to_string(), "deferred".to_string()), ("vs".to_string(), "opaque".to_string())]
    );
    assert_eq!(context.device().compiled_effects, vec!["light".to_string()]);
}
