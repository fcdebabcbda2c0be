use std::ops::Range;

use vstd::prelude::*;

use crate::component::ComponentDetails;
use crate::engine_types::EngineTypes;
use crate::ids::Id;
use crate::material::{any_index, enabled_in, indices_of_ranges, range_indices};
use crate::mesh::{draw_call_for, MeshDrawCall, MeshView};
use crate::pipeline::{is_sorted_listing, PipelineParameters};
use crate::scene::{
    draw_of, drawn_in_main_pass, pipeline_material_ids, PipelineDraw,
    enabled_ui_ids, is_screenspace_pipeline, screen_space_materials_in, screen_space_passes_in, uninitialized_indices, uninitialized_prefix, SceneView,
};

verus! {

proof fn lemma_uninitialized_prefix_exact<C: ComponentDetails>(items: Seq<C>, n: nat)
    requires
        n <= items.len(),
        items.len() <= usize::MAX,
    ensures
        forall|i: int| 0 <= i < n ==> (uninitialized_prefix(items, n).contains(i as usize) <==> !(#[trigger] items[i]).spec_initialized()),
        forall|k: int| 0 <= k < uninitialized_prefix(items, n).len() ==> #[trigger] uninitialized_prefix(items, n)[k] < n,
        forall|a: int, b: int| 0 <= a < b < uninitialized_prefix(items, n).len()
            ==> uninitialized_prefix(items, n)[a] < uninitialized_prefix(items, n)[b],
    decreases n,
{
    if n > 0 {
        let m = (n - 1) as nat;
        lemma_uninitialized_prefix_exact(items, m);
        let before = uninitialized_prefix(items, m);
        let now = uninitialized_prefix(items, n);
        assert forall|i: int| 0 <= i < n implies (now.contains(i as usize) <==> !(#[trigger] items[i]).spec_initialized()) by {
            if i < m {
                if now.contains(i as usize) {
                    let k = choose|k: int| 0 <= k < now.len() && now[k] == i as usize;
                    if k < before.len() {
                        assert(before[k] == now[k]);
                    }
                }
                if before.contains(i as usize) {
                    let k = choose|k: int| 0 <= k < before.len() && before[k] == i as usize;
                    assert(now[k] == before[k]);
                }
            } else {
                if now.contains(i as usize) {
                    let k = choose|k: int| 0 <= k < now.len() && now[k] == i as usize;
                    if k < before.len() {
                        assert(before[k] == now[k]);
                    }
                }
                if !items[i].spec_initialized() {
                    assert(now[now.len() - 1] == i as usize);
                }
            }
        }
    }
}

/// The components (or compute shaders) that still need initializing are exactly those whose
/// `is_initialized` is false, whether enabled or not: an index is listed exactly when the
/// item at it is not initialized, and the indices are valid and increasing.
pub proof fn lemma_items_to_initialize_are_the_uninitialized<C: ComponentDetails>(items: Seq<C>, r: Seq<usize>)
    requires
        r == uninitialized_indices(items),
        items.len() <= usize::MAX,
    ensures
        forall|i: int| 0 <= i < items.len() ==> (r.contains(i as usize) <==> !(#[trigger] items[i]).spec_initialized()),
        forall|k: int| 0 <= k < r.len() ==> #[trigger] r[k] < items.len(),
        forall|a: int, b: int| 0 <= a < b < r.len() ==> r[a] < r[b],
{
    lemma_uninitialized_prefix_exact(items, items.len());
}

/// The user-interface components reported as enabled are exactly the enabled components whose
/// id is registered as a user-interface component: every reported id is registered and
/// belongs to an enabled component, and every enabled, registered component is reported.
pub proof fn lemma_enabled_ui_components_are_registered<C: ComponentDetails>(
    components: Seq<C>,
    ui_components: Seq<Id>,
    r: Set<Id>,
)
    requires
        r == enabled_ui_ids(components, ui_components),
    ensures
        forall|id: Id| #[trigger] r.contains(id) ==> ui_components.contains(id),
        forall|id: Id| #[trigger] r.contains(id) ==> exists|i: int|
            0 <= i < components.len() && (#[trigger] components[i]).spec_id() == id && components[i].spec_enabled(),
        forall|i: int| 0 <= i < components.len() && (#[trigger] components[i]).spec_enabled()
            && ui_components.contains(components[i].spec_id()) ==> r.contains(components[i].spec_id()),
{
}

/// Each draw call of a mesh is for its enabled model at the same place: the call draws that
/// model; with index buffers it draws all of that model's indices, else the entry's range of
/// vertices (or all of that model's vertices); the vertex bytes are the range scaled by the
/// vertex size, or the whole buffer.
pub proof fn lemma_draw_calls_follow_their_models<V, E: EngineTypes>(
    m: MeshView<V, E>,
    vertex_size: u64,
    r: Seq<MeshDrawCall>,
)
    requires
        r.len() == m.enabled_models.len(),
        forall|i: int| 0 <= i < r.len() ==> #[trigger] r[i] == draw_call_for(m, m.enabled_models[i], vertex_size, m.index_buffers is Some),
    ensures
        forall|i: int| 0 <= i < r.len() ==> {
            let k = m.enabled_models[i].0;
            let range = m.enabled_models[i].1;
            &&& (#[trigger] r[i]).model == k
            &&& r[i].indexed == (m.index_buffers is Some)
            &&& m.index_buffers is Some ==> r[i].count == m.indices[k as int].len() as u32
            &&& m.index_buffers is None && range is None ==> r[i].count == m.vertices[k as int].len() as u32
            &&& m.index_buffers is None && range is Some ==> r[i].count == (range->0.end - range->0.start) as u32
            &&& range is None ==> r[i].vertex_bytes is None
            &&& range is Some ==> r[i].vertex_bytes == Some(Range {
                start: (range->0.start * vertex_size) as u64,
                end: (range->0.end * vertex_size) as u64,
            })
        },
{
}

proof fn lemma_flatten_index<A>(ss: Seq<Seq<A>>, i: int)
    requires
        0 <= i < ss.flatten().len(),
    ensures
        exists|j: int, k: int| 0 <= j < ss.len() && 0 <= k < ss[j].len() && ss.flatten()[i] == #[trigger] ss[j][k],
    decreases ss.len(),
{
    if ss.len() > 0 {
        let f = ss.first();
        let rest = ss.drop_first();
        assert(ss.flatten() == f + rest.flatten());
        if i < f.len() {
            assert(ss.flatten()[i] == ss[0][i]);
        } else {
            lemma_flatten_index(rest, i - f.len());
            let (j, k) = choose|j: int, k: int| 0 <= j < rest.len() && 0 <= k < rest[j].len() && rest.flatten()[i - f.len()] == #[trigger] rest[j][k];
            assert(ss[j + 1] == rest[j]);
            assert(ss.flatten()[i] == ss[j + 1][k]);
        }
    }
}

proof fn lemma_flatten_has<A>(ss: Seq<Seq<A>>, j: int, k: int)
    requires
        0 <= j < ss.len(),
        0 <= k < ss[j].len(),
    ensures
        ss.flatten().contains(ss[j][k]),
    decreases ss.len(),
{
    let f = ss.first();
    let rest = ss.drop_first();
    assert(ss.flatten() == f + rest.flatten());
    if j == 0 {
        assert(ss.flatten()[k] == ss[0][k]);
    } else {
        assert(rest[j - 1] == ss[j]);
        lemma_flatten_has(rest, j - 1, k);
        let x = choose|x: int| 0 <= x < rest.flatten().len() && rest.flatten()[x] == ss[j][k];
        assert(ss.flatten()[f.len() + x] == ss[j][k]);
    }
}

/// The screen-space passes pair only built screen-space pipelines with their own materials,
/// and each such pipeline with each of its materials is a pass.
pub proof fn lemma_screen_space_passes_are_screen_space<C: ComponentDetails, E: EngineTypes>(
    s: SceneView<C, E>,
    pipeline_ids: Seq<Id>,
    r: Seq<(Id, Id)>,
)
    requires
        pipeline_ids.to_set() == s.pipeline_to_corresponding_materials.dom(),
        r == screen_space_passes_in(s, pipeline_ids),
    ensures
        forall|i: int| 0 <= i < r.len() ==> {
            let p = (#[trigger] r[i]).0;
            &&& s.pipeline_manager@.pipelines.contains_key(p)
            &&& s.pipeline_manager@.pipelines[p].0.is_screenspace
            &&& s.pipeline_to_corresponding_materials.contains_key(p)
            &&& s.pipeline_to_corresponding_materials[p].contains(r[i].1)
        },
        forall|p: Id, m: Id|
            s.pipeline_manager@.pipelines.contains_key(p) && s.pipeline_manager@.pipelines[p].0.is_screenspace
                && s.pipeline_to_corresponding_materials.contains_key(p)
                && #[trigger] s.pipeline_to_corresponding_materials[p].contains(m) ==> r.contains((p, m)),
{
    let f = |p: Id| if is_screenspace_pipeline(s, p) {
        s.pipeline_to_corresponding_materials[p].map_values(|m: Id| (p, m))
    } else {
        Seq::<(Id, Id)>::empty()
    };
    let ss = pipeline_ids.map_values(f);
    assert(r == ss.flatten());
    assert forall|i: int| 0 <= i < r.len() implies {
        let p = (#[trigger] r[i]).0;
        &&& s.pipeline_manager@.pipelines.contains_key(p)
        &&& s.pipeline_manager@.pipelines[p].0.is_screenspace
        &&& s.pipeline_to_corresponding_materials.contains_key(p)
        &&& s.pipeline_to_corresponding_materials[p].contains(r[i].1)
    } by {
        lemma_flatten_index(ss, i);
        let (j, k) = choose|j: int, k: int| 0 <= j < ss.len() && 0 <= k < ss[j].len() && ss.flatten()[i] == #[trigger] ss[j][k];
        let p = pipeline_ids[j];
        assert(ss[j] == f(p));
        assert(is_screenspace_pipeline(s, p));
        assert(pipeline_ids.to_set().contains(p));
        let mats = s.pipeline_to_corresponding_materials[p];
        assert(r[i] == (p, mats[k]));
    }
    assert forall|p: Id, m: Id|
        s.pipeline_manager@.pipelines.contains_key(p) && s.pipeline_manager@.pipelines[p].0.is_screenspace
            && s.pipeline_to_corresponding_materials.contains_key(p)
            && #[trigger] s.pipeline_to_corresponding_materials[p].contains(m) implies r.contains((p, m)) by {
        assert(pipeline_ids.to_set().contains(p));
        let j = choose|j: int| 0 <= j < pipeline_ids.len() && pipeline_ids[j] == p;
        let mats = s.pipeline_to_corresponding_materials[p];
        let k = choose|k: int| 0 <= k < mats.len() && mats[k] == m;
        assert(ss[j] == f(p));
        assert(ss[j][k] == (p, m));
        lemma_flatten_has(ss, j, k);
    }
}

proof fn lemma_filter_keeps_priority_order<P>(
    l: Seq<(Id, &PipelineParameters, &P)>,
    pred: spec_fn((Id, &PipelineParameters, &P)) -> bool,
)
    requires
        forall|i: int, j: int| 0 <= i <= j < l.len() ==> l[i].1.render_priority <= l[j].1.render_priority,
    ensures
        forall|i: int, j: int| 0 <= i <= j < l.filter(pred).len()
            ==> l.filter(pred)[i].1.render_priority <= l.filter(pred)[j].1.render_priority,
    decreases l.len(),
{
    reveal(Seq::filter);
    if l.len() > 0 {
        let d = l.drop_last();
        lemma_filter_keeps_priority_order(d, pred);
        let fd = d.filter(pred);
        assert forall|i: int| 0 <= i < fd.len() implies fd[i].1.render_priority <= l.last().1.render_priority by {
            assert(fd.contains(fd[i]));
            d.lemma_filter_contains_rev(pred, fd[i]);
            let x = choose|x: int| 0 <= x < d.len() && d[x] == fd[i];
            assert(l[x] == d[x]);
        }
        if pred(l.last()) {
            let fl = l.filter(pred);
            assert(fl == fd.push(l.last()));
            assert forall|i: int, j: int| 0 <= i <= j < fl.len() implies fl[i].1.render_priority <= fl[j].1.render_priority by {
                if j == fl.len() - 1 {
                    if i < j {
                        assert(fl[i] == fd[i]);
                    }
                } else {
                    assert(fl[i] == fd[i]);
                    assert(fl[j] == fd[j]);
                }
            }
        }
    }
}

/// A frame's main pass draws built pipelines that are not screen-space, by non-decreasing
/// render priority, each of them once: the camera is bound exactly for pipelines that use it,
/// and immediates are set exactly for pipelines with a nonzero immediate size. Each pipeline
/// draws its own materials that are enabled, and all of them.
pub proof fn lemma_render_plan_draws_main_pipelines<C: ComponentDetails, E: EngineTypes>(
    s: SceneView<C, E>,
    r: Seq<PipelineDraw>,
)
    requires
        exists|listing: Seq<(Id, &PipelineParameters, &E::RenderPipeline)>|
            #![trigger is_sorted_listing(listing, s.pipeline_manager@.pipelines)]
            is_sorted_listing(listing, s.pipeline_manager@.pipelines) && {
                let drawn = listing.filter(drawn_in_main_pass::<E::RenderPipeline>());
                &&& r.len() == drawn.len()
                &&& forall|i: int| 0 <= i < r.len() ==> draw_of(s, #[trigger] r[i], drawn[i].0, *drawn[i].1)
            },
    ensures
        forall|i: int| 0 <= i < r.len() ==> {
            let p = (#[trigger] r[i]).pipeline_id;
            let parameters = s.pipeline_manager@.pipelines[p].0;
            &&& s.pipeline_manager@.pipelines.contains_key(p)
            &&& !parameters.is_screenspace
            &&& r[i].uses_camera == parameters.uses_camera
            &&& r[i].sets_immediates == (parameters.immediate_size != 0)
            &&& forall|m: Id| #[trigger] r[i].materials@.contains(m) ==> {
                &&& s.pipeline_to_corresponding_materials.contains_key(p)
                &&& s.pipeline_to_corresponding_materials[p].contains(m)
                &&& s.materials.contains_key(m)
                &&& s.materials[m]@.is_enabled
            }
            &&& forall|m: Id| s.pipeline_to_corresponding_materials.contains_key(p)
                && #[trigger] s.pipeline_to_corresponding_materials[p].contains(m)
                && s.materials.contains_key(m) && s.materials[m]@.is_enabled ==> r[i].materials@.contains(m)
        },
        forall|i: int, j: int| 0 <= i <= j < r.len()
            ==> s.pipeline_manager@.pipelines[r[i].pipeline_id].0.render_priority
                <= s.pipeline_manager@.pipelines[r[j].pipeline_id].0.render_priority,
        forall|i: int, j: int| 0 <= i < j < r.len() ==> r[i].pipeline_id != r[j].pipeline_id,
        forall|p: Id| #[trigger] s.pipeline_manager@.pipelines.contains_key(p) && !s.pipeline_manager@.pipelines[p].0.is_screenspace
            ==> exists|i: int| 0 <= i < r.len() && (#[trigger] r[i]).pipeline_id == p,
{
    let pipelines = s.pipeline_manager@.pipelines;
    let listing = choose|listing: Seq<(Id, &PipelineParameters, &E::RenderPipeline)>|
        #![trigger is_sorted_listing(listing, s.pipeline_manager@.pipelines)]
        is_sorted_listing(listing, s.pipeline_manager@.pipelines) && {
            let drawn = listing.filter(drawn_in_main_pass::<E::RenderPipeline>());
            &&& r.len() == drawn.len()
            &&& forall|i: int| 0 <= i < r.len() ==> draw_of(s, #[trigger] r[i], drawn[i].0, *drawn[i].1)
        };
    let pred = drawn_in_main_pass::<E::RenderPipeline>();
    let drawn = listing.filter(pred);
    lemma_filter_keeps_priority_order(listing, pred);
    // Each drawn entry is a listed one, so a built pipeline with its own parameters.
    assert forall|i: int| 0 <= i < drawn.len() implies {
        &&& pipelines.contains_key(#[trigger] drawn[i].0)
        &&& *drawn[i].1 == pipelines[drawn[i].0].0
        &&& !drawn[i].1.is_screenspace
        &&& exists|x: int| 0 <= x < listing.len() && listing[x] == drawn[i]
    } by {
        assert(drawn.contains(drawn[i]));
        listing.lemma_filter_contains_rev(pred, drawn[i]);
        listing.lemma_filter_pred(pred, i);
    }
    assert forall|i: int| 0 <= i < r.len() implies {
        let p = (#[trigger] r[i]).pipeline_id;
        let parameters = pipelines[p].0;
        &&& pipelines.contains_key(p)
        &&& !parameters.is_screenspace
        &&& r[i].uses_camera == parameters.uses_camera
        &&& r[i].sets_immediates == (parameters.immediate_size != 0)
        &&& forall|m: Id| #[trigger] r[i].materials@.contains(m) ==> {
            &&& s.pipeline_to_corresponding_materials.contains_key(p)
            &&& s.pipeline_to_corresponding_materials[p].contains(m)
            &&& s.materials.contains_key(m)
            &&& s.materials[m]@.is_enabled
        }
        &&& forall|m: Id| s.pipeline_to_corresponding_materials.contains_key(p)
            && #[trigger] s.pipeline_to_corresponding_materials[p].contains(m)
            && s.materials.contains_key(m) && s.materials[m]@.is_enabled ==> r[i].materials@.contains(m)
    } by {
        assert(draw_of(s, r[i], drawn[i].0, *drawn[i].1));
        assert(pipelines.contains_key(drawn[i].0));
        let p = r[i].pipeline_id;
        let mpred = |m: Id| s.materials.contains_key(m) && s.materials[m]@.is_enabled;
        let ids = pipeline_material_ids(s, p);
        assert(r[i].materials@ == ids.filter(mpred));
        assert forall|m: Id| #[trigger] r[i].materials@.contains(m) implies {
            &&& s.pipeline_to_corresponding_materials.contains_key(p)
            &&& s.pipeline_to_corresponding_materials[p].contains(m)
            &&& s.materials.contains_key(m)
            &&& s.materials[m]@.is_enabled
        } by {
            ids.lemma_filter_contains_rev(mpred, m);
            let x = choose|x: int| 0 <= x < r[i].materials@.len() && r[i].materials@[x] == m;
            ids.lemma_filter_pred(mpred, x);
            if !s.pipeline_to_corresponding_materials.contains_key(p) {
                assert(ids.len() == 0);
            }
        }
        assert forall|m: Id| s.pipeline_to_corresponding_materials.contains_key(p)
            && #[trigger] s.pipeline_to_corresponding_materials[p].contains(m)
            && s.materials.contains_key(m) && s.materials[m]@.is_enabled implies r[i].materials@.contains(m) by {
            let x = choose|x: int| 0 <= x < ids.len() && ids[x] == m;
            ids.lemma_filter_contains(mpred, x);
        }
    }
    assert forall|i: int, j: int| 0 <= i <= j < r.len() implies pipelines[r[i].pipeline_id].0.render_priority
        <= pipelines[r[j].pipeline_id].0.render_priority by {
        assert(draw_of(s, r[i], drawn[i].0, *drawn[i].1));
        assert(draw_of(s, r[j], drawn[j].0, *drawn[j].1));
        assert(pipelines.contains_key(drawn[i].0));
        assert(pipelines.contains_key(drawn[j].0));
    }
    assert forall|i: int, j: int| 0 <= i < j < r.len() implies r[i].pipeline_id != r[j].pipeline_id by {
        assert(draw_of(s, r[i], drawn[i].0, *drawn[i].1));
        assert(draw_of(s, r[j], drawn[j].0, *drawn[j].1));
        lemma_filter_keeps_distinct(listing, pred, i, j);
    }
    assert forall|p: Id| #[trigger] pipelines.contains_key(p) && !pipelines[p].0.is_screenspace
        implies exists|i: int| 0 <= i < r.len() && (#[trigger] r[i]).pipeline_id == p by {
        let x = choose|x: int| 0 <= x < listing.len() && #[trigger] listing[x].0 == p;
        assert(pred(listing[x]));
        listing.lemma_filter_contains(pred, x);
        let i = choose|i: int| 0 <= i < drawn.len() && drawn[i] == listing[x];
        assert(draw_of(s, r[i], drawn[i].0, *drawn[i].1));
        assert(r[i].pipeline_id == p);
    }
}

proof fn lemma_filter_keeps_distinct<P>(
    l: Seq<(Id, &PipelineParameters, &P)>,
    pred: spec_fn((Id, &PipelineParameters, &P)) -> bool,
    i: int,
    j: int,
)
    requires
        forall|a: int, b: int| 0 <= a < b < l.len() ==> l[a].0 != l[b].0,
        0 <= i < j < l.filter(pred).len(),
    ensures
        l.filter(pred)[i].0 != l.filter(pred)[j].0,
    decreases l.len(),
{
    reveal(Seq::filter);
    let d = l.drop_last();
    let fd = d.filter(pred);
    let fl = l.filter(pred);
    if pred(l.last()) {
        assert(fl == fd.push(l.last()));
        if j == fl.len() - 1 {
            assert(fl[i] == fd[i]);
            assert(fd.contains(fd[i]));
            d.lemma_filter_contains_rev(pred, fd[i]);
            let x = choose|x: int| 0 <= x < d.len() && d[x] == fd[i];
            assert(l[x] == d[x]);
            assert(l[l.len() - 1] == l.last());
        } else {
            assert(fl[i] == fd[i]);
            assert(fl[j] == fd[j]);
            lemma_filter_keeps_distinct(d, pred, i, j);
        }
    } else {
        assert(fl == fd);
        lemma_filter_keeps_distinct(d, pred, i, j);
    }
}

/// `m` is a material of a built screen-space pipeline of the scene `s`.
pub open spec fn material_of_screen_space_pipeline<C, E: EngineTypes>(s: SceneView<C, E>, m: Id) -> bool {
    exists|p: Id|
        s.pipeline_manager@.pipelines.contains_key(p) && s.pipeline_manager@.pipelines[p].0.is_screenspace
            && s.pipeline_to_corresponding_materials.contains_key(p)
            && #[trigger] s.pipeline_to_corresponding_materials[p].contains(m)
}

/// The screen-space materials are exactly the materials of the built screen-space pipelines.
pub proof fn lemma_screen_space_materials_are_screen_space<C: ComponentDetails, E: EngineTypes>(
    s: SceneView<C, E>,
    pipeline_ids: Seq<Id>,
    r: Seq<Id>,
)
    requires
        pipeline_ids.to_set() == s.pipeline_to_corresponding_materials.dom(),
        r == screen_space_materials_in(s, pipeline_ids),
    ensures
        forall|i: int| 0 <= i < r.len() ==> material_of_screen_space_pipeline(s, #[trigger] r[i]),
        forall|p: Id, m: Id|
            s.pipeline_manager@.pipelines.contains_key(p) && s.pipeline_manager@.pipelines[p].0.is_screenspace
                && s.pipeline_to_corresponding_materials.contains_key(p)
                && #[trigger] s.pipeline_to_corresponding_materials[p].contains(m) ==> r.contains(m),
{
    let f = |p: Id| if is_screenspace_pipeline(s, p) {
        s.pipeline_to_corresponding_materials[p]
    } else {
        Seq::<Id>::empty()
    };
    let ss = pipeline_ids.map_values(f);
    assert(r == ss.flatten());
    assert forall|i: int| 0 <= i < r.len() implies material_of_screen_space_pipeline(s, #[trigger] r[i]) by {
        lemma_flatten_index(ss, i);
        let (j, k) = choose|j: int, k: int| 0 <= j < ss.len() && 0 <= k < ss[j].len() && ss.flatten()[i] == #[trigger] ss[j][k];
        let p = pipeline_ids[j];
        assert(ss[j] == f(p));
        assert(pipeline_ids.to_set().contains(p));
        assert(is_screenspace_pipeline(s, p));
        assert(s.pipeline_to_corresponding_materials[p][k] == r[i]);
        assert(s.pipeline_to_corresponding_materials[p].contains(r[i]));
    }
    assert forall|p: Id, m: Id|
        s.pipeline_manager@.pipelines.contains_key(p) && s.pipeline_manager@.pipelines[p].0.is_screenspace
            && s.pipeline_to_corresponding_materials.contains_key(p)
            && #[trigger] s.pipeline_to_corresponding_materials[p].contains(m) implies r.contains(m) by {
        assert(pipeline_ids.to_set().contains(p));
        let j = choose|j: int| 0 <= j < pipeline_ids.len() && pipeline_ids[j] == p;
        let mats = s.pipeline_to_corresponding_materials[p];
        let k = choose|k: int| 0 <= k < mats.len() && mats[k] == m;
        assert(ss[j] == f(p));
        assert(ss[j][k] == m);
        lemma_flatten_has(ss, j, k);
    }
}

proof fn lemma_indices_of_ranges_members(ranges: Seq<Range<usize>>, n: nat, keep: spec_fn(usize) -> bool)
    requires
        n <= ranges.len(),
    ensures
        forall|x: usize| #[trigger] indices_of_ranges(ranges, n, keep).contains(x) <==> (keep(x)
            && exists|k: int| 0 <= k < n && (#[trigger] ranges[k]).start <= x < ranges[k].end),
    decreases n,
{
    if n > 0 {
        let m = (n - 1) as nat;
        lemma_indices_of_ranges_members(ranges, m, keep);
        let before = indices_of_ranges(ranges, m, keep);
        let span = range_indices(ranges[m as int]);
        let last = span.filter(keep);
        assert(indices_of_ranges(ranges, n, keep) == before + last);
        assert forall|x: usize| #[trigger] indices_of_ranges(ranges, n, keep).contains(x) <==> (keep(x)
            && exists|k: int| 0 <= k < n && (#[trigger] ranges[k]).start <= x < ranges[k].end) by {
            let all = before + last;
            if all.contains(x) {
                let y = choose|y: int| 0 <= y < all.len() && all[y] == x;
                if y < before.len() {
                    assert(before[y] == x);
                    assert(before.contains(x));
                    let k = choose|k: int| 0 <= k < m && (#[trigger] ranges[k]).start <= x < ranges[k].end;
                    assert(0 <= k < n && ranges[k].start <= x < ranges[k].end);
                } else {
                    assert(last[y - before.len()] == x);
                    assert(last.contains(x));
                    span.lemma_filter_contains_rev(keep, x);
                    span.lemma_filter_pred(keep, y - before.len());
                    let z = choose|z: int| 0 <= z < span.len() && span[z] == x;
                    assert(ranges[m as int].start <= x < ranges[m as int].end);
                }
            }
            if keep(x) && exists|k: int| 0 <= k < n && (#[trigger] ranges[k]).start <= x < ranges[k].end {
                let k = choose|k: int| 0 <= k < n && (#[trigger] ranges[k]).start <= x < ranges[k].end;
                if k < m {
                    assert(before.contains(x));
                    let y = choose|y: int| 0 <= y < before.len() && before[y] == x;
                    assert(all[y] == x);
                } else {
                    let z = x - ranges[m as int].start;
                    assert(span[z] == x);
                    span.lemma_filter_contains(keep, z);
                    let y = choose|y: int| 0 <= y < last.len() && last[y] == x;
                    assert(all[before.len() + y] == x);
                }
            }
        }
    }
}

/// The components a material renders are exactly the enabled components whose index lies in
/// one of the material's ranges.
pub proof fn lemma_components_to_render_are_enabled_in_ranges<C: ComponentDetails>(
    ranges: Seq<Range<usize>>,
    components: Seq<&C>,
    r: Seq<usize>,
)
    requires
        r == indices_of_ranges(ranges, ranges.len(), enabled_in(components)),
    ensures
        forall|x: usize| #[trigger] r.contains(x) <==> (components[x as int].spec_enabled()
            && exists|k: int| 0 <= k < ranges.len() && (#[trigger] ranges[k]).start <= x < ranges[k].end),
{
    lemma_indices_of_ranges_members(ranges, ranges.len(), enabled_in(components));
}

/// The components whose encoder work a material runs are exactly those whose index lies in
/// one of the material's ranges, enabled or not.
pub proof fn lemma_components_to_encode_are_in_ranges(ranges: Seq<Range<usize>>, r: Seq<usize>)
    requires
        r == indices_of_ranges(ranges, ranges.len(), any_index()),
    ensures
        forall|x: usize| #[trigger] r.contains(x) <==> exists|k: int| 0 <= k < ranges.len() && (#[trigger] ranges[k]).start <= x < ranges[k].end,
{
    lemma_indices_of_ranges_members(ranges, ranges.len(), any_index());
}

} // verus!
