use std::cmp::Ordering;
use three_d::{cmp_render_order, plan_render, Distance2, MaterialType, OrderKey, SceneObject};

fn key(material_type: MaterialType, d: Option<u64>) -> OrderKey {
    OrderKey {
        material_type,
        distance2: match d {
            Some(v) => Distance2::Value(v),
            None => Distance2::NotANumber,
        },
    }
}

fn bits(d: f32) -> Option<u64> {
    Some(d.to_bits() as u64)
}

#[test]
fn opaque_objects_nearest_first() {
    let near = key(MaterialType::Opaque, bits(1.5));
    let far = key(MaterialType::Opaque, bits(20.0));
    assert_eq!(cmp_render_order(&near, &far), Ordering::Less);
    assert_eq!(cmp_render_order(&far, &near), Ordering::Greater);
    assert_eq!(cmp_render_order(&near, &near), Ordering::Equal);
    let deferred_far = key(MaterialType::Deferred, bits(30.0));
    assert_eq!(cmp_render_order(&near, &deferred_far), Ordering::Less);
}

#[test]
fn transparent_objects_farthest_first() {
    let near = key(MaterialType::Transparent, bits(1.5));
    let far = key(MaterialType::Transparent, bits(20.0));
    assert_eq!(cmp_render_order(&far, &near), Ordering::Less);
    assert_eq!(cmp_render_order(&near, &far), Ordering::Greater);
}

#[test]
fn transparent_always_after_the_rest() {
    let transparent_near = key(MaterialType::Transparent, bits(0.0));
    let opaque_far = key(MaterialType::Opaque, bits(1000.0));
    let deferred_nan = key(MaterialType::Deferred, None);
    assert_eq!(cmp_render_order(&transparent_near, &opaque_far), Ordering::Greater);
    assert_eq!(cmp_render_order(&opaque_far, &transparent_near), Ordering::Less);
    assert_eq!(cmp_render_order(&transparent_near, &deferred_nan), Ordering::Greater);
}

#[test]
fn not_a_number_distances_still_order() {
    // The fallback only keeps the order total: a distance that is a number comes first.
    let nan = key(MaterialType::Opaque, None);
    let number = key(MaterialType::Opaque, bits(3.0));
    assert_eq!(cmp_render_order(&number, &nan), Ordering::Less);
    assert_eq!(cmp_render_order(&nan, &number), Ordering::Greater);
    assert_eq!(cmp_render_order(&nan, &nan), Ordering::Equal);
    let tnan = key(MaterialType::Transparent, None);
    let tnumber = key(MaterialType::Transparent, bits(3.0));
    assert_eq!(cmp_render_order(&tnumber, &tnan), Ordering::Less);
    let mut keys = vec![nan, number, tnan, tnumber, nan];
    keys.sort_by(cmp_render_order);
    assert_eq!(keys, vec![number, nan, nan, tnumber, tnan]);
}

#[test]
fn plan_splits_culls_and_sorts() {
    let make = |material_type, d: u64, in_frustum| SceneObject {
        vertex_source: String::new(),
        fragment_source: String::new(),
        order: key(material_type, Some(d)),
        in_frustum,
    };
    let objects = vec![
        make(MaterialType::Deferred, 5, true),
        make(MaterialType::Opaque, 5, false),
        make(MaterialType::Deferred, 2, true),
        make(MaterialType::Transparent, 2, true),
        make(MaterialType::Opaque, 8, true),
        make(MaterialType::Deferred, 2, true),
    ];
    let plan = plan_render(&objects);
    assert_eq!(plan.deferred, vec![2, 5, 0]);
    assert_eq!(plan.forward, vec![4, 3]);
    let empty = plan_render(&Vec::new());
    assert!(empty.deferred.is_empty() && empty.forward.is_empty());
}
