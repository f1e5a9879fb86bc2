use vstd::prelude::*;
use crate::hit::{
    first_position, first_with_id, holds_id, lemma_first_position, limit_after, nearest,
    without_id,
};
use crate::hit::{HitableShape, Probe};
use crate::scalar::Scalar;

verus! {

/// A primitive that was just added is held under its identifier.  It is the
/// one that a search finds unless an older primitive has the same
/// identifier, and then the search keeps finding the older one.
pub proof fn lemma_added_shape_is_found(shapes: Seq<HitableShape>, shape: HitableShape)
    ensures
        holds_id(shapes.push(shape), shape.ident()),
        !holds_id(shapes, shape.ident()) ==> first_with_id(
            shapes.push(shape),
            shape.ident(),
            shapes.len() as int,
        ),
        forall|id: u32, index: int|
            first_with_id(shapes, id, index) ==> first_with_id(shapes.push(shape), id, index),
{
    let longer = shapes.push(shape);
    assert(longer[shapes.len() as int] == shape);
    if !holds_id(shapes, shape.ident()) {
        assert forall|j: int| 0 <= j < shapes.len() implies longer[j].ident()
            != shape.ident() by {
            assert(longer[j] == shapes[j]);
        }
    }
    assert forall|id: u32, index: int| first_with_id(shapes, id, index) implies first_with_id(
        longer,
        id,
        index,
    ) by {
        assert(longer[index] == shapes[index]);
        assert forall|j: int| 0 <= j < index implies longer[j].ident() != id by {
            assert(longer[j] == shapes[j]);
        }
    }
}

/// What a search finds after an addition: under the identifier of the new
/// primitive the older primitive that has it, and the new one where there
/// is none; under every other identifier what it found before.
pub proof fn lemma_find_after_add(shapes: Seq<HitableShape>, shape: HitableShape, id: u32)
    ensures
        first_position(shapes.push(shape), id) == if first_position(shapes, id) is Some {
            first_position(shapes, id)
        } else if shape.ident() == id {
            Some(shapes.len() as int)
        } else {
            None
        },
{
    let longer = shapes.push(shape);
    lemma_first_position(shapes, id);
    lemma_first_position(longer, id);
    lemma_added_shape_is_found(shapes, shape);
    assert(longer[shapes.len() as int] == shape);
    if first_position(shapes, id) is None {
        if shape.ident() != id {
            assert forall|i: int| 0 <= i < longer.len() implies longer[i].ident() != id by {
                if i < shapes.len() {
                    assert(longer[i] == shapes[i]);
                }
            }
        }
    }
}

/// A search for an identifier finds nothing once the identifier was
/// removed.
pub proof fn lemma_find_after_remove(shapes: Seq<HitableShape>, id: u32)
    ensures
        first_position(without_id(shapes, id), id) is None,
{
    lemma_removed_id_is_gone(shapes, id);
}

/// After a removal no primitive has the removed identifier.
pub proof fn lemma_removed_id_is_gone(shapes: Seq<HitableShape>, id: u32)
    ensures
        !holds_id(without_id(shapes, id), id),
{
    let keep = |shape: HitableShape| shape.ident() != id;
    let rest = shapes.filter(keep);
    assert forall|i: int| 0 <= i < rest.len() implies rest[i].ident() != id by {
        shapes.lemma_filter_pred(keep, i);
    }
}

/// A removal takes every primitive with the identifier, however many there
/// are: two that were added under it leave together.
pub proof fn lemma_removal_takes_all(
    shapes: Seq<HitableShape>,
    first: HitableShape,
    second: HitableShape,
)
    requires
        first.ident() == second.ident(),
    ensures
        without_id(shapes.push(first).push(second), first.ident()) == without_id(
            shapes,
            first.ident(),
        ),
{
    reveal(Seq::filter);
    let one = shapes.push(first);
    let two = one.push(second);
    let id = first.ident();
    assert(two.drop_last() =~= one);
    assert(one.drop_last() =~= shapes);
    assert(two.last() == second);
    assert(one.last() == first);
    assert(without_id(two, id) == without_id(one, id));
    assert(without_id(one, id) == without_id(shapes, id));
}

/// Removing an identifier that no primitive has changes nothing.
pub proof fn lemma_removal_of_absent_id(shapes: Seq<HitableShape>, id: u32)
    requires
        !holds_id(shapes, id),
    ensures
        without_id(shapes, id) == shapes,
    decreases shapes.len(),
{
    reveal(Seq::filter);
    if shapes.len() > 0 {
        let init = shapes.drop_last();
        assert forall|i: int| 0 <= i < init.len() implies init[i].ident() != id by {
            assert(init[i] == shapes[i]);
        }
        lemma_removal_of_absent_id(init, id);
        assert(shapes.last() == shapes[shapes.len() - 1]);
        assert(init.push(shapes.last()) =~= shapes);
    }
}

/// Removing an identifier twice is removing it once.
pub proof fn lemma_removal_is_idempotent(shapes: Seq<HitableShape>, id: u32)
    ensures
        without_id(without_id(shapes, id), id) == without_id(shapes, id),
{
    lemma_removed_id_is_gone(shapes, id);
    lemma_removal_of_absent_id(without_id(shapes, id), id);
}

/// A removal leaves the primitives with other identifiers alone: a search
/// for another identifier finds the same primitive before and after.
pub proof fn lemma_removal_spares_other_ids(
    shapes: Seq<HitableShape>,
    id: u32,
    other: u32,
    index: int,
)
    requires
        other != id,
        first_with_id(shapes, other, index),
    ensures
        exists|j: int|
            first_with_id(without_id(shapes, id), other, j) && without_id(shapes, id)[j]
                == shapes[index],
    decreases shapes.len(),
{
    reveal(Seq::filter);
    let keep = |shape: HitableShape| shape.ident() != id;
    let init = shapes.drop_last();
    let last = shapes.last();
    let rest_init = init.filter(keep);
    let rest = shapes.filter(keep);
    assert(rest == without_id(shapes, id));
    assert(rest_init == without_id(init, id));
    if index < shapes.len() - 1 {
        assert(init[index] == shapes[index]);
        assert forall|j: int| 0 <= j < index implies init[j].ident() != other by {
            assert(init[j] == shapes[j]);
        }
        lemma_removal_spares_other_ids(init, id, other, index);
        let j = choose|j: int|
            first_with_id(rest_init, other, j) && rest_init[j] == shapes[index];
        assert(rest[j] == rest_init[j]);
        assert forall|k: int| 0 <= k < j implies rest[k].ident() != other by {
            assert(rest[k] == rest_init[k]);
        }
        assert(first_with_id(rest, other, j) && rest[j] == shapes[index]);
    } else {
        let j = rest_init.len() as int;
        assert(rest =~= rest_init.push(last));
        assert forall|k: int| 0 <= k < j implies rest[k].ident() != other by {
            assert(rest[k] == rest_init[k]);
            assert(rest_init.contains(rest_init[k]));
            init.lemma_filter_contains_rev(keep, rest_init[k]);
            let m = choose|m: int| 0 <= m < init.len() && init[m] == rest_init[k];
            assert(shapes[m] == init[m]);
        }
        assert(first_with_id(rest, other, j) && rest[j] == shapes[index]);
    }
}

/// No distance that a probe reports is NaN.
pub open spec fn distances_are_numbers(probes: Seq<Probe>) -> bool {
    forall|i: int|
        0 <= i < probes.len() ==> match #[trigger] probes[i] {
            Probe::Sphere(p) => !p.near.t.nan() && !p.far.t.nan(),
            Probe::Triangle(p) => !p.crossing.t.nan(),
        }
}

/// The bound of a scan never rises: after any number of primitives it is a
/// number that is at most `t_max`.
pub proof fn lemma_scan_bound_never_rises(
    shapes: Seq<HitableShape>,
    probes: Seq<Probe>,
    t_min: Scalar,
    t_max: Scalar,
)
    requires
        probes.len() == shapes.len(),
        distances_are_numbers(probes),
        !t_max.nan(),
    ensures
        limit_after(nearest(shapes, probes, t_min, t_max), t_max).at_most(t_max),
    decreases shapes.len(),
{
    if shapes.len() > 0 {
        let init = shapes.drop_last();
        let init_probes = probes.drop_last();
        assert forall|i: int| 0 <= i < init_probes.len() implies match #[trigger] init_probes[i] {
            Probe::Sphere(p) => !p.near.t.nan() && !p.far.t.nan(),
            Probe::Triangle(p) => !p.crossing.t.nan(),
        } by {
            assert(init_probes[i] == probes[i]);
        }
        lemma_scan_bound_never_rises(init, init_probes, t_min, t_max);
        assert(probes.last() == probes[probes.len() - 1]);
    }
}

/// The nearest hit wins.  Where a primitive would be hit by the ray on its
/// own, the scan of the whole scene returns a hit, and that hit is no
/// farther than the primitive's.
pub proof fn lemma_nearest_hit_wins(
    shapes: Seq<HitableShape>,
    probes: Seq<Probe>,
    t_min: Scalar,
    t_max: Scalar,
    index: int,
)
    requires
        probes.len() == shapes.len(),
        distances_are_numbers(probes),
        !t_max.nan(),
        0 <= index < shapes.len(),
        shapes[index].struck(probes[index], t_min, t_max) is Some,
    ensures
        nearest(shapes, probes, t_min, t_max) is Some,
        nearest(shapes, probes, t_min, t_max).unwrap().t.at_most(
            shapes[index].struck(probes[index], t_min, t_max).unwrap().t,
        ),
    decreases shapes.len(),
{
    let init = shapes.drop_last();
    let init_probes = probes.drop_last();
    assert forall|i: int| 0 <= i < init_probes.len() implies match #[trigger] init_probes[i] {
        Probe::Sphere(p) => !p.near.t.nan() && !p.far.t.nan(),
        Probe::Triangle(p) => !p.crossing.t.nan(),
    } by {
        assert(init_probes[i] == probes[i]);
    }
    lemma_scan_bound_never_rises(init, init_probes, t_min, t_max);
    assert(probes.last() == probes[probes.len() - 1]);
    assert(shapes.last() == shapes[shapes.len() - 1]);
    if index < shapes.len() - 1 {
        assert(init[index] == shapes[index]);
        assert(init_probes[index] == probes[index]);
        lemma_nearest_hit_wins(init, init_probes, t_min, t_max, index);
    }
}

/// A hit of the scene is a hit of one of its primitives: that primitive
/// would be hit by the ray on its own, and the hit carries its material.
pub proof fn lemma_hit_belongs_to_a_shape(
    shapes: Seq<HitableShape>,
    probes: Seq<Probe>,
    t_min: Scalar,
    t_max: Scalar,
)
    requires
        probes.len() == shapes.len(),
        distances_are_numbers(probes),
        !t_max.nan(),
        nearest(shapes, probes, t_min, t_max) is Some,
    ensures
        exists|index: int|
            {
                &&& 0 <= index < shapes.len()
                &&& (#[trigger] shapes[index]).struck(probes[index], t_min, t_max) is Some
                &&& nearest(shapes, probes, t_min, t_max).unwrap().material
                    == shapes[index].surface()
            },
    decreases shapes.len(),
{
    let init = shapes.drop_last();
    let init_probes = probes.drop_last();
    let last = shapes.len() - 1;
    assert forall|i: int| 0 <= i < init_probes.len() implies match #[trigger] init_probes[i] {
        Probe::Sphere(p) => !p.near.t.nan() && !p.far.t.nan(),
        Probe::Triangle(p) => !p.crossing.t.nan(),
    } by {
        assert(init_probes[i] == probes[i]);
    }
    lemma_scan_bound_never_rises(init, init_probes, t_min, t_max);
    assert(probes.last() == probes[last]);
    assert(shapes.last() == shapes[last]);
    let before = nearest(init, init_probes, t_min, t_max);
    if shapes[last].struck(probes[last], t_min, limit_after(before, t_max)) is Some {
        assert(shapes[last].struck(probes[last], t_min, t_max) is Some);
    } else {
        lemma_hit_belongs_to_a_shape(init, init_probes, t_min, t_max);
        let index = choose|index: int|
            {
                &&& 0 <= index < init.len()
                &&& (#[trigger] init[index]).struck(init_probes[index], t_min, t_max) is Some
                &&& before.unwrap().material == init[index].surface()
            };
        assert(init[index] == shapes[index]);
        assert(init_probes[index] == probes[index]);
        assert(shapes[index].struck(probes[index], t_min, t_max) is Some);
    }
}

} // verus!
