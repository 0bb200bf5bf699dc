//! Scenes: ordered groups of grey spheres, and the operations that compose
//! them.
//!
//! The engine never looks inside the geometry of a sphere. It carries a shape
//! of any type `G` beside the grey level, and leaves every question about
//! position and size to the functions that its callers hand in.

use vstd::prelude::*;

verus! {

/// One sphere of a scene: its geometry and its flat grey level.
#[derive(Clone, Debug)]
pub struct Sphere<G> {
    pub shape: G,
    pub intensity: u8,
}

/// An ordered collection of spheres.
#[derive(Clone, Debug)]
pub struct Group<G> {
    pub spheres: Vec<Sphere<G>>,
}

impl<G> View for Group<G> {
    type V = Seq<Sphere<G>>;

    open spec fn view(&self) -> Seq<Sphere<G>> {
        self.spheres@
    }
}

/// `after` is `before` with `change` applied to the shape of every member:
/// as many spheres, in the same order, each with the grey level it had and
/// with a shape that `change` gives for its old one.
pub open spec fn reshaped<G, F: Fn(&G) -> G>(
    before: Seq<Sphere<G>>,
    change: F,
    after: Seq<Sphere<G>>,
) -> bool {
    &&& after.len() == before.len()
    &&& forall|i: int|
        0 <= i < before.len() ==> {
            &&& (#[trigger] after[i]).intensity == before[i].intensity
            &&& call_ensures(change, (&before[i].shape,), after[i].shape)
        }
}

/// A change of shape goes through a union: where each of two groups is
/// reshaped, the union of the results is the union reshaped.
pub proof fn lemma_reshaped_union<G, F: Fn(&G) -> G>(
    first: Seq<Sphere<G>>,
    second: Seq<Sphere<G>>,
    change: F,
    first_after: Seq<Sphere<G>>,
    second_after: Seq<Sphere<G>>,
)
    requires
        reshaped(first, change, first_after),
        reshaped(second, change, second_after),
    ensures
        reshaped(first + second, change, first_after + second_after),
{
    let before = first + second;
    let after = first_after + second_after;
    assert forall|i: int| 0 <= i < before.len() implies {
        &&& (#[trigger] after[i]).intensity == before[i].intensity
        &&& call_ensures(change, (&before[i].shape,), after[i].shape)
    } by {
        if i < first.len() {
            assert(after[i] == first_after[i]);
            assert(before[i] == first[i]);
        } else {
            assert(after[i] == second_after[i - first.len()]);
            assert(before[i] == second[i - first.len()]);
        }
    }
}

impl<G> Group<G> {
    /// The group of the given spheres, in the given order.
    pub fn new(spheres: Vec<Sphere<G>>) -> (group: Self)
        ensures
            group@ == spheres@,
    {
        Group { spheres }
    }

    /// The number of spheres in the group.
    pub fn len(&self) -> (n: usize)
        ensures
            n == self@.len(),
    {
        self.spheres.len()
    }

    /// The members of `self` followed by the members of `other`, each side in
    /// its own order.
    pub fn union(self, other: Self) -> (both: Self)
        ensures
            both@ == self@ + other@,
    {
        let mut spheres = self.spheres;
        let mut rest = other.spheres;
        spheres.append(&mut rest);
        Group { spheres }
    }

    /// The group whose members are those of `self` with `change` applied to
    /// the shape of each, in order. Grey levels stay as they are.
    pub fn transform<F: Fn(&G) -> G>(&self, change: &F) -> (moved: Self)
        requires
            forall|i: int|
                0 <= i < self@.len() ==> call_requires(*change, (&(#[trigger] self@[i]).shape,)),
        ensures
            reshaped(self@, *change, moved@),
    {
        let mut spheres: Vec<Sphere<G>> = Vec::new();
        let mut i: usize = 0;
        while i < self.spheres.len()
            invariant
                i <= self@.len(),
                spheres@.len() == i,
                forall|j: int|
                    0 <= j < self@.len() ==> call_requires(
                        *change,
                        (&(#[trigger] self@[j]).shape,),
                    ),
                forall|j: int|
                    0 <= j < i ==> {
                        &&& (#[trigger] spheres@[j]).intensity == self@[j].intensity
                        &&& call_ensures(*change, (&self@[j].shape,), spheres@[j].shape)
                    },
            decreases self@.len() - i,
        {
            let member = &self.spheres[i];
            let shape = change(&member.shape);
            spheres.push(Sphere { shape, intensity: member.intensity });
            i += 1;
        }
        Group { spheres }
    }
}

} // verus!
