use vstd::prelude::*;
use rand::rngs::SmallRng;
use rand::Rng;
use crate::scalar::Scalar;
use crate::vector::Vector3;

verus! {

/// The small fast generator of the `rand` crate.  Nothing is known of its
/// state.
#[verifier::external_type_specification]
#[verifier::external_body]
pub struct ExSmallRng(SmallRng);

/// Calls `Rng::gen_range(0, len)`, which panics unless `0 < len` and returns
/// a number that is at least 0 and below `len`.  Which one is not known.
#[verifier::external_body]
fn random_index(rng: &mut SmallRng, len: usize) -> (index: usize)
    requires
        0 < len,
    ensures
        index < len,
{
    rng.gen_range(0, len)
}

/// A light that shines from one point equally in all directions.
#[derive(Clone, Copy, Debug, PartialEq, Eq, Structural)]
pub struct PointLight {
    pub id: u32,
    pub intensity: Scalar,
    pub position: Vector3,
}

impl PointLight {
    pub fn new(id: u32, position: Vector3, intensity: Scalar) -> (light: PointLight)
        ensures
            light == (PointLight { id, intensity, position }),
    {
        PointLight { id, intensity, position }
    }

    pub fn id(&self) -> (id: u32)
        ensures
            id == self.id,
    {
        self.id
    }
}

/// `index` is where the first light with identifier `id` stands.
pub open spec fn first_light_with_id(lights: Seq<PointLight>, id: u32, index: int) -> bool {
    &&& 0 <= index < lights.len()
    &&& lights[index].id == id
    &&& forall|j: int| 0 <= j < index ==> lights[j].id != id
}

/// Some light has identifier `id`.
pub open spec fn holds_light(lights: Seq<PointLight>, id: u32) -> bool {
    exists|i: int| 0 <= i < lights.len() && lights[i].id == id
}

/// Where the first light with identifier `id` stands, if any has it.
pub open spec fn first_light_position(lights: Seq<PointLight>, id: u32) -> Option<int> {
    if holds_light(lights, id) {
        Some(choose|index: int| first_light_with_id(lights, id, index))
    } else {
        None
    }
}

/// `first_light_position` is the one place that `first_light_with_id` holds
/// of, and there is such a place exactly where some light has the
/// identifier.
pub proof fn lemma_first_light_position(lights: Seq<PointLight>, id: u32)
    ensures
        match first_light_position(lights, id) {
            Some(index) => first_light_with_id(lights, id, index),
            None => forall|i: int| 0 <= i < lights.len() ==> lights[i].id != id,
        },
        forall|index: int|
            first_light_with_id(lights, id, index) ==> first_light_position(lights, id) == Some(
                index,
            ),
{
    if holds_light(lights, id) {
        let some = choose|i: int| 0 <= i < lights.len() && lights[i].id == id;
        lemma_some_light_is_first(lights, id, some);
        let chosen = choose|index: int| first_light_with_id(lights, id, index);
        assert forall|index: int| first_light_with_id(lights, id, index) implies index
            == chosen by {
            if index < chosen {
            } else if chosen < index {
            }
        }
    }
}

/// Where some light has the identifier, one of them is the first.
proof fn lemma_some_light_is_first(lights: Seq<PointLight>, id: u32, at: int)
    requires
        0 <= at < lights.len(),
        lights[at].id == id,
    ensures
        exists|index: int| first_light_with_id(lights, id, index),
    decreases at,
{
    if forall|j: int| 0 <= j < at ==> lights[j].id != id {
        assert(first_light_with_id(lights, id, at));
    } else {
        let earlier = choose|j: int| 0 <= j < at && lights[j].id == id;
        lemma_some_light_is_first(lights, id, earlier);
    }
}

/// The lights whose identifier is not `id`, in their order.
pub open spec fn without_light(lights: Seq<PointLight>, id: u32) -> Seq<PointLight> {
    lights.filter(|light: PointLight| light.id != id)
}

/// The lights of a scene, in the order in which they were added.
pub struct LightList {
    list: Vec<PointLight>,
}

impl View for LightList {
    type V = Seq<PointLight>;

    closed spec fn view(&self) -> Seq<PointLight> {
        self.list@
    }
}

impl LightList {
    pub fn new() -> (lights: LightList)
        ensures
            lights@ == Seq::<PointLight>::empty(),
    {
        LightList { list: Vec::new() }
    }

    pub fn len(&self) -> (n: usize)
        ensures
            n == self@.len(),
    {
        self.list.len()
    }

    /// Appends a light.  Identifiers are the caller's: one may occur more
    /// than once.
    pub fn add(&mut self, light: PointLight)
        ensures
            final(self)@ == old(self)@.push(light),
    {
        self.list.push(light);
    }

    /// Where the first light with identifier `id` stands, if there is one.
    pub fn position(&self, id: u32) -> (r: Option<usize>)
        ensures
            match r {
                Some(index) => first_light_position(self@, id) == Some(index as int),
                None => first_light_position(self@, id) is None,
            },
    {
        let mut i: usize = 0;
        while i < self.list.len()
            invariant
                i <= self.list@.len(),
                forall|j: int| 0 <= j < i ==> self.list@[j].id != id,
            decreases self.list@.len() - i,
        {
            if self.list[i].id() == id {
                proof {
                    lemma_first_light_position(self@, id);
                }
                return Some(i);
            }
            i += 1;
        }
        proof {
            lemma_first_light_position(self@, id);
        }
        None
    }

    /// The first light, in the order of adding, whose identifier is `id`.
    /// What the caller writes through the reference replaces that light and
    /// nothing else.
    pub fn find(&mut self, id: u32) -> (r: Option<&mut PointLight>)
        ensures
            match r {
                Some(light) => {
                    &&& first_light_position(old(self)@, id) is Some
                    &&& *light == old(self)@[first_light_position(old(self)@, id).unwrap()]
                    &&& final(self)@ == old(self)@.update(
                        first_light_position(old(self)@, id).unwrap(),
                        *final(light),
                    )
                },
                None => first_light_position(old(self)@, id) is None && final(self)@ == old(
                    self,
                )@,
            },
    {
        let found = self.position(id);
        proof {
            lemma_first_light_position(self@, id);
        }
        match found {
            Some(index) => Some(&mut self.list[index]),
            None => None,
        }
    }

    /// Removes every light whose identifier is `id`; the others keep their
    /// order.
    pub fn remove(&mut self, id: u32)
        ensures
            final(self)@ == without_light(old(self)@, id),
    {
        let ghost keep = |light: PointLight| light.id != id;
        let mut kept: Vec<PointLight> = Vec::new();
        let mut i: usize = 0;
        proof {
            reveal(Seq::filter);
            assert(self.list@.take(0) =~= Seq::<PointLight>::empty());
        }
        while i < self.list.len()
            invariant
                i <= self.list@.len(),
                keep == |light: PointLight| light.id != id,
                kept@ == self.list@.take(i as int).filter(keep),
            decreases self.list@.len() - i,
        {
            let light = self.list[i];
            proof {
                reveal(Seq::filter);
                assert(self.list@.take(i + 1).drop_last() =~= self.list@.take(i as int));
                assert(self.list@.take(i + 1).last() == light);
            }
            if light.id() != id {
                kept.push(light);
            }
            i += 1;
        }
        proof {
            assert(self.list@.take(i as int) =~= self.list@);
        }
        self.list = kept;
    }

    /// The light at `index` in the order of adding.
    pub fn nth(&self, index: usize) -> (r: Option<&PointLight>)
        ensures
            r == if index < self@.len() {
                Some(&self@[index as int])
            } else {
                None
            },
    {
        if index < self.list.len() {
            Some(&self.list[index])
        } else {
            None
        }
    }

    /// One of the lights, each as likely as the others, or `None` where
    /// there is no light.
    pub fn pick(&self, rng: &mut SmallRng) -> (r: Option<&PointLight>)
        ensures
            match r {
                Some(light) => exists|i: int| 0 <= i < self@.len() && *light == self@[i],
                None => self@.len() == 0,
            },
    {
        if self.list.len() > 0 {
            let i = random_index(rng, self.list.len());
            self.nth(i)
        } else {
            None
        }
    }
}

/// A light that was just added is held under its identifier.  It is the one
/// that a search finds unless an older light has the same identifier, and
/// then the search keeps finding the older one.
pub proof fn lemma_added_light_is_found(lights: Seq<PointLight>, light: PointLight)
    ensures
        holds_light(lights.push(light), light.id),
        !holds_light(lights, light.id) ==> first_light_with_id(
            lights.push(light),
            light.id,
            lights.len() as int,
        ),
        forall|id: u32, index: int|
            first_light_with_id(lights, id, index) ==> first_light_with_id(
                lights.push(light),
                id,
                index,
            ),
{
    let longer = lights.push(light);
    assert(longer[lights.len() as int] == light);
    if !holds_light(lights, light.id) {
        assert forall|j: int| 0 <= j < lights.len() implies longer[j].id != light.id by {
            assert(longer[j] == lights[j]);
        }
    }
    assert forall|id: u32, index: int|
        first_light_with_id(lights, id, index) implies first_light_with_id(longer, id, index) by {
        assert(longer[index] == lights[index]);
        assert forall|j: int| 0 <= j < index implies longer[j].id != id by {
            assert(longer[j] == lights[j]);
        }
    }
}

/// What a search finds after an addition: under the identifier of the new
/// light the older light that has it, and the new one where there is none;
/// under every other identifier what it found before.
pub proof fn lemma_light_found_after_add(lights: Seq<PointLight>, light: PointLight, id: u32)
    ensures
        first_light_position(lights.push(light), id) == if first_light_position(lights, id)
            is Some {
            first_light_position(lights, id)
        } else if light.id == id {
            Some(lights.len() as int)
        } else {
            None
        },
{
    let longer = lights.push(light);
    lemma_first_light_position(lights, id);
    lemma_first_light_position(longer, id);
    lemma_added_light_is_found(lights, light);
    assert(longer[lights.len() as int] == light);
    if first_light_position(lights, id) is None {
        if light.id != id {
            assert forall|i: int| 0 <= i < longer.len() implies longer[i].id != id by {
                if i < lights.len() {
                    assert(longer[i] == lights[i]);
                }
            }
        }
    }
}

/// A search for an identifier finds nothing once the identifier was
/// removed.
pub proof fn lemma_light_gone_after_remove(lights: Seq<PointLight>, id: u32)
    ensures
        first_light_position(without_light(lights, id), id) is None,
{
    lemma_removed_light_is_gone(lights, id);
}

/// After a removal no light has the removed identifier.
pub proof fn lemma_removed_light_is_gone(lights: Seq<PointLight>, id: u32)
    ensures
        !holds_light(without_light(lights, id), id),
{
    let keep = |light: PointLight| light.id != id;
    let rest = lights.filter(keep);
    assert forall|i: int| 0 <= i < rest.len() implies rest[i].id != id by {
        lights.lemma_filter_pred(keep, i);
    }
}

/// A removal takes every light with the identifier: two that were added
/// under it leave together.
pub proof fn lemma_light_removal_takes_all(
    lights: Seq<PointLight>,
    first: PointLight,
    second: PointLight,
)
    requires
        first.id == second.id,
    ensures
        without_light(lights.push(first).push(second), first.id) == without_light(
            lights,
            first.id,
        ),
{
    reveal(Seq::filter);
    let id = first.id;
    let one = lights.push(first);
    let two = one.push(second);
    assert(two.drop_last() =~= one);
    assert(one.drop_last() =~= lights);
    assert(two.last() == second);
    assert(one.last() == first);
    assert(without_light(two, id) == without_light(one, id));
    assert(without_light(one, id) == without_light(lights, id));
}

} // verus!
