//! The entity render projection: the glyph placements of every visible
//! entity, shifted into camera space. Read-only; the caller draws them.
use vstd::prelude::*;
use crate::camera::{screen_pos, Camera};
use crate::components::Render;
use crate::geometry::Point;
use crate::world::{EntityData, World};

verus! {

/// Whether slot `i` is drawn: live, with a position and an appearance.
pub open spec fn is_renderable(w: Seq<EntityData>, i: int) -> bool {
    &&& 0 <= i < w.len()
    &&& w[i].alive
    &&& w[i].position is Some
    &&& w[i].render is Some
}

/// The glyph placements of the renderable slots below `n`, in slot order.
pub open spec fn entity_draw_list(w: Seq<EntityData>, cam: Camera, n: int) -> Seq<(Point, Render)>
    decreases n,
{
    if n <= 0 {
        Seq::empty()
    } else {
        entity_draw_list(w, cam, n - 1) + (if is_renderable(w, n - 1) {
            seq![(screen_pos(w[n - 1].position->0, cam), w[n - 1].render->0)]
        } else {
            Seq::empty()
        })
    }
}

/// Every renderable position stays within `i32` when shifted into camera
/// space.
pub open spec fn render_offsets_fit(w: Seq<EntityData>, cam: Camera) -> bool {
    forall|i: int|
        #[trigger] is_renderable(w, i) ==> {
            &&& i32::MIN <= w[i].position->0.x - cam.left_x <= i32::MAX
            &&& i32::MIN <= w[i].position->0.y - cam.top_y <= i32::MAX
        }
}

/// The draw list of every entity with a position and an appearance: its
/// camera-space placement paired with its appearance, in slot order.
pub fn entity_render(ecs: &World, camera: &Camera) -> (r: Vec<(Point, Render)>)
    requires
        render_offsets_fit(ecs@, *camera),
    ensures
        r@ == entity_draw_list(ecs@, *camera, ecs@.len() as int),
{
    let mut out: Vec<(Point, Render)> = Vec::new();
    let n = ecs.len();
    let mut i: usize = 0;
    while i < n
        invariant
            i <= n,
            n == ecs@.len(),
            render_offsets_fit(ecs@, *camera),
            out@ == entity_draw_list(ecs@, *camera, i as int),
        decreases n - i,
    {
        let e = &ecs.entities[i];
        if e.alive && e.render.is_some() {
            if let Some(p) = e.position {
                proof {
                    assert(is_renderable(ecs@, i as int));
                }
                let sp = Point { x: p.x - camera.left_x, y: p.y - camera.top_y };
                out.push((sp, e.render.unwrap()));
            }
        }
        proof {
            assert(out@ =~= entity_draw_list(ecs@, *camera, i + 1));
        }
        i += 1;
    }
    out
}

} // verus!
