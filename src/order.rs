//! Render order of scene objects: opaque before transparent, near to far for
//! opaque objects, far to near for transparent ones.

use vstd::prelude::*;

verus! {

/// How a material is shaded, which decides its pass and its place in the paint order.
#[derive(Clone, Copy, Debug, PartialEq, Eq, Structural)]
pub enum MaterialType {
    /// Drawn in the forward pass, before every transparent object.
    Opaque,
    /// Drawn in the forward pass, after every other object, far to near.
    Transparent,
    /// Drawn into the geometry buffer and lit in one full-screen pass.
    Deferred,
}

/// The squared distance from the camera to the center of an object's bounding box,
/// as an order-preserving key: `Value(a) < Value(b)` exactly when the first distance
/// is the smaller one. For a non-negative `f32` its bit pattern is such a key.
#[derive(Clone, Copy, Debug, PartialEq, Eq, Structural)]
pub enum Distance2 {
    /// A distance that is a number (possibly infinite).
    Value(u64),
    /// A distance that is not a number, from a degenerate transform or bounding box.
    NotANumber,
}

/// What the render order reads of an object.
#[derive(Clone, Copy, Debug, PartialEq, Eq, Structural)]
pub struct OrderKey {
    pub material_type: MaterialType,
    pub distance2: Distance2,
}

pub open spec fn is_transparent(k: OrderKey) -> bool {
    k.material_type == MaterialType::Transparent
}

pub open spec fn is_nan(k: OrderKey) -> bool {
    k.distance2 == Distance2::NotANumber
}

/// The distance as an integer that grows along the paint order: the distance itself for
/// objects painted near to far, its negation for transparent objects, painted far to near.
pub open spec fn signed_distance(k: OrderKey) -> int {
    match k.distance2 {
        Distance2::Value(d) => if is_transparent(k) { -(d as int) } else { d as int },
        Distance2::NotANumber => 0,
    }
}

/// Lexicographic comparison on (transparent, not-a-number, signed distance).
pub open spec fn key_less(a: OrderKey, b: OrderKey) -> bool {
    (!is_transparent(a) && is_transparent(b)) || (is_transparent(a) == is_transparent(b) && (
    (!is_nan(a) && is_nan(b)) || (is_nan(a) == is_nan(b) && signed_distance(a)
        < signed_distance(b))))
}

/// The two keys hold the same place in the paint order.
pub open spec fn key_tied(a: OrderKey, b: OrderKey) -> bool {
    is_transparent(a) == is_transparent(b) && is_nan(a) == is_nan(b) && signed_distance(a)
        == signed_distance(b)
}

/// The order in which two objects are painted.
pub open spec fn render_order(a: OrderKey, b: OrderKey) -> core::cmp::Ordering {
    if key_less(a, b) {
        core::cmp::Ordering::Less
    } else if key_tied(a, b) {
        core::cmp::Ordering::Equal
    } else {
        core::cmp::Ordering::Greater
    }
}

/// Compares two objects for painting: every non-transparent object comes before every
/// transparent one; non-transparent objects go nearest first, transparent ones farthest
/// first. Where a distance is not a number, the object with a number comes first; this
/// only keeps the order total and carries no visual meaning.
pub fn cmp_render_order(obj0: &OrderKey, obj1: &OrderKey) -> (r: core::cmp::Ordering)
    ensures
        r == render_order(*obj0, *obj1),
{
    let t0 = obj0.material_type == MaterialType::Transparent;
    let t1 = obj1.material_type == MaterialType::Transparent;
    if t0 && !t1 {
        core::cmp::Ordering::Greater
    } else if !t0 && t1 {
        core::cmp::Ordering::Less
    } else {
        match (obj0.distance2, obj1.distance2) {
            (Distance2::Value(a), Distance2::Value(b)) => {
                let (near, far) = if t0 { (b, a) } else { (a, b) };
                if near < far {
                    core::cmp::Ordering::Less
                } else if near == far {
                    core::cmp::Ordering::Equal
                } else {
                    core::cmp::Ordering::Greater
                }
            },
            (Distance2::Value(_), Distance2::NotANumber) => core::cmp::Ordering::Less,
            (Distance2::NotANumber, Distance2::Value(_)) => core::cmp::Ordering::Greater,
            (Distance2::NotANumber, Distance2::NotANumber) => core::cmp::Ordering::Equal,
        }
    }
}

/// The distance of a key that holds a number.
pub open spec fn distance_value(k: OrderKey) -> int {
    match k.distance2 {
        Distance2::Value(d) => d as int,
        Distance2::NotANumber => 0,
    }
}

/// For two objects whose distances are numbers: two non-transparent objects are painted
/// nearest first, two transparent objects farthest first, and of a mixed pair the
/// transparent one is painted last.
pub proof fn lemma_render_order_by_distance(a: OrderKey, b: OrderKey)
    requires
        !is_nan(a),
        !is_nan(b),
    ensures
        !is_transparent(a) && !is_transparent(b) ==> {
            &&& (render_order(a, b) == core::cmp::Ordering::Less <==> distance_value(a)
                < distance_value(b))
            &&& (render_order(a, b) == core::cmp::Ordering::Greater <==> distance_value(a)
                > distance_value(b))
        },
        is_transparent(a) && is_transparent(b) ==> {
            &&& (render_order(a, b) == core::cmp::Ordering::Less <==> distance_value(a)
                > distance_value(b))
            &&& (render_order(a, b) == core::cmp::Ordering::Greater <==> distance_value(a)
                < distance_value(b))
        },
        is_transparent(a) && !is_transparent(b) ==> render_order(a, b)
            == core::cmp::Ordering::Greater,
        !is_transparent(a) && is_transparent(b) ==> render_order(a, b)
            == core::cmp::Ordering::Less,
{
}

/// The render order is a total order on its keys for every input, distances that are not
/// a number included: it is antisymmetric, its ties are symmetric, and it is transitive.
pub proof fn lemma_render_order_total(a: OrderKey, b: OrderKey, c: OrderKey)
    ensures
        render_order(a, b) == core::cmp::Ordering::Less <==> render_order(b, a)
            == core::cmp::Ordering::Greater,
        render_order(a, b) == core::cmp::Ordering::Equal <==> render_order(b, a)
            == core::cmp::Ordering::Equal,
        render_order(a, a) == core::cmp::Ordering::Equal,
        render_order(a, b) == core::cmp::Ordering::Less && render_order(b, c)
            == core::cmp::Ordering::Less ==> render_order(a, c) == core::cmp::Ordering::Less,
        render_order(a, b) == core::cmp::Ordering::Equal && render_order(b, c)
            == core::cmp::Ordering::Equal ==> render_order(a, c) == core::cmp::Ordering::Equal,
{
}

} // verus!
