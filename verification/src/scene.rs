//! Scenes: an ordered list of coloured objects over a background, and the
//! resolution of a ray to the nearest object it meets.
//!
//! Geometry is left to the implementers of [`Shape`]. The scene asks each
//! object for the distance at which a ray meets it and decides, exactly, which
//! object is nearest. What is decided is stated over the list of answers, so it
//! holds for every shape.

use vstd::prelude::*;
use crate::color::Color;
use crate::distance::Distance;

verus! {

/// A surface that a ray can meet.
///
/// `intersect` answers with the smallest non-negative distance along the ray at
/// which the ray meets the surface, or with `None` if it never does. A distance
/// cannot be a NaN, so an implementer that computes one has no hit to report.
pub trait Shape {
    /// The rays that this shape can be asked about.
    type Ray;

    fn intersect(&self, r: &Self::Ray) -> Option<Distance>;
}

/// A shape with a flat colour.
pub struct Object<S> {
    pub shape: S,
    pub color: Color,
}

impl<S: Shape> Object<S> {
    /// Where the ray meets this object: what its shape answers for this ray.
    pub fn intersect(&self, r: &S::Ray) -> (res: Option<Distance>)
        ensures
            self.may_answer(r, res),
    {
        self.shape.intersect(r)
    }

    /// Whether `d` is an answer that this object's shape may give when it is
    /// asked about the ray `r`.
    pub open spec fn may_answer(&self, r: &S::Ray, d: Option<Distance>) -> bool {
        call_ensures(S::intersect, (&self.shape, r), d)
    }
}

/// The object that a ray meets, and how far along the ray.
pub struct Intersection<'a, S> {
    pub object: &'a Object<S>,
    pub distance: Distance,
}

impl<'a, S> Intersection<'a, S> {
    pub fn new(object: &'a Object<S>, distance: Distance) -> (res: Intersection<'a, S>)
        ensures
            res.object == object,
            res.distance == distance,
    {
        Intersection { object, distance }
    }
}

/// No object was met.
pub open spec fn no_hit(hits: Seq<Option<Distance>>) -> bool {
    forall|j: int| 0 <= j < hits.len() ==> hits[j] is None
}

/// Position `i` holds the nearest hit: no hit is shorter, and every hit before
/// it is strictly longer, so that of several equally near objects the one that
/// was added first is taken.
pub open spec fn is_nearest(hits: Seq<Option<Distance>>, i: int) -> bool {
    &&& 0 <= i < hits.len()
    &&& hits[i] is Some
    &&& forall|j: int|
        0 <= j < hits.len() && hits[j] is Some ==> {
            &&& hits[i].unwrap().value() <= (#[trigger] hits[j]).unwrap().value()
            &&& j < i ==> hits[i].unwrap().value() < hits[j].unwrap().value()
        }
}

/// At most one position holds the nearest hit.
pub proof fn lemma_nearest_is_unique(hits: Seq<Option<Distance>>, i: int, j: int)
    requires
        is_nearest(hits, i),
        is_nearest(hits, j),
    ensures
        i == j,
{
    if i < j {
        assert(hits[j].unwrap().value() < hits[i].unwrap().value());
    }
    if j < i {
        assert(hits[i].unwrap().value() < hits[j].unwrap().value());
    }
}

/// Every list of answers is decided: either no object was met, or some
/// position holds the nearest hit.
pub proof fn lemma_nearest_exists(hits: Seq<Option<Distance>>)
    ensures
        no_hit(hits) || exists|i: int| is_nearest(hits, i),
    decreases hits.len(),
{
    if hits.len() > 0 {
        let last = hits.len() - 1;
        let front = hits.drop_last();
        lemma_nearest_exists(front);
        assert(forall|j: int| 0 <= j < last ==> front[j] == hits[j]);
        if no_hit(front) {
            if hits[last] is Some {
                assert(is_nearest(hits, last));
            }
        } else {
            let i = choose|i: int| is_nearest(front, i);
            if hits[last] is Some && hits[last].unwrap().value() < hits[i].unwrap().value() {
                assert(is_nearest(hits, last));
            } else {
                assert(is_nearest(hits, i));
            }
        }
    }
}

/// Picks the position of the nearest hit among the answers of a scene's
/// objects, in the order of the objects.
/// An answer of `None` is an object that the ray does not meet; of several
/// equally near hits the first is picked.
pub fn nearest(hits: &Vec<Option<Distance>>) -> (res: Option<usize>)
    ensures
        match res {
            Some(i) => is_nearest(hits@, i as int),
            None => no_hit(hits@),
        },
{
    let mut best: Option<(usize, Distance)> = None;
    let mut k: usize = 0;
    while k < hits.len()
        invariant
            k <= hits.len(),
            match best {
                Some((i, d)) => i < k && hits@[i as int] == Some(d) && is_nearest(
                    hits@.take(k as int),
                    i as int,
                ),
                None => no_hit(hits@.take(k as int)),
            },
        decreases hits.len() - k,
    {
        let ghost seen = hits@.take(k as int);
        let ghost next = hits@.take(k + 1);
        assert(forall|j: int| 0 <= j < k ==> next[j] == seen[j]);
        match hits[k] {
            Some(d) => {
                let closer = match best {
                    Some((_, b)) => d.lt(&b),
                    None => true,
                };
                if closer {
                    best = Some((k, d));
                }
            },
            None => {},
        }
        k = k + 1;
    }
    assert(hits@.take(k as int) == hits@);
    match best {
        Some((i, _)) => Some(i),
        None => None,
    }
}

/// A background colour and the objects in front of it, in the order in which
/// they were added.
pub struct Scene<S> {
    pub background: Color,
    pub objects: Vec<Object<S>>,
}

impl<S: Shape> Scene<S> {
    /// Whether `hits` lists an answer of every object for the ray `r`, in the
    /// order of the objects.
    ///
    /// What a shape answers is its implementer's to say. A contract of the
    /// scene says which shapes were asked about which ray, and what follows
    /// from any answers that they may give.
    pub open spec fn may_answer(&self, r: &S::Ray, hits: Seq<Option<Distance>>) -> bool {
        &&& hits.len() == self.objects@.len()
        &&& forall|k: int|
            0 <= k < hits.len() ==> self.objects@[k].may_answer(r, #[trigger] hits[k])
    }

    /// Asks every object where the ray meets it, in the order of the objects,
    /// and lists what they answer.
    pub fn hits(&self, r: &S::Ray) -> (res: Vec<Option<Distance>>)
        ensures
            self.may_answer(r, res@),
    {
        let mut hits: Vec<Option<Distance>> = Vec::new();
        let mut k: usize = 0;
        while k < self.objects.len()
            invariant
                k <= self.objects@.len(),
                hits@.len() == k,
                forall|j: int| 0 <= j < k ==> self.objects@[j].may_answer(r, #[trigger] hits@[j]),
            decreases self.objects@.len() - k,
        {
            hits.push(self.objects[k].intersect(r));
            k = k + 1;
        }
        hits
    }

    /// The nearest object that the ray meets, if it meets any.
    ///
    /// Every object is asked about this ray, and the result is what the answers
    /// amount to: none if no object was met, else the object at the nearest
    /// position with its distance. So a scene without objects has no
    /// intersection, and an intersection is with an object of the scene.
    pub fn nearest_intersection(&self, r: &S::Ray) -> (res: Option<Intersection<'_, S>>)
        ensures
            exists|hits: Seq<Option<Distance>>|
                #[trigger] self.may_answer(r, hits) && self.is_resolution(hits, res),
            self.objects@.len() == 0 ==> res is None,
            res matches Some(hit) ==> exists|i: int|
                0 <= i < self.objects@.len() && *hit.object == #[trigger] self.objects@[i],
    {
        let hits = self.hits(r);
        self.resolve(&hits)
    }

    /// The colour that the ray shows: that of the nearest object it meets, or
    /// the background where it meets none.
    ///
    /// Every object is asked about this ray, and the result is what the answers
    /// amount to. So a scene without objects shows its background, and no
    /// colour comes from anywhere but the scene.
    pub fn cast(&self, r: &S::Ray) -> (res: Color)
        ensures
            self.may_show(r, res),
            self.objects@.len() == 0 ==> res == self.background,
            res == self.background || exists|i: int|
                0 <= i < self.objects@.len() && res == (#[trigger] self.objects@[i]).color,
    {
        let hits = self.hits(r);
        proof {
            lemma_nearest_exists(hits@);
        }
        self.shade(&hits)
    }

    /// Whether `c` is a colour that the scene may show along the ray `r`: what
    /// some list of answers of its objects for this ray amounts to.
    pub open spec fn may_show(&self, r: &S::Ray, c: Color) -> bool {
        exists|hits: Seq<Option<Distance>>|
            #[trigger] self.may_answer(r, hits) && self.is_shade(hits, c)
    }
}

impl<S> Scene<S> {
    /// Whether `res` is what a list of answers amounts to: none if no object
    /// was met, else the object at the nearest position with its distance.
    pub open spec fn is_resolution<'a>(
        &'a self,
        hits: Seq<Option<Distance>>,
        res: Option<Intersection<'a, S>>,
    ) -> bool {
        &&& res is None <==> no_hit(hits)
        &&& res matches Some(hit) ==> exists|i: int|
            is_nearest(hits, i) && *hit.object == #[trigger] self.objects@[i] && hits[i] == Some(
                hit.distance,
            )
    }

    /// The intersection that a list of answers amounts to: none if no object
    /// was met, else the object at the nearest position with its distance.
    pub fn resolve(&self, hits: &Vec<Option<Distance>>) -> (res: Option<Intersection<'_, S>>)
        requires
            hits@.len() == self.objects@.len(),
        ensures
            self.is_resolution(hits@, res),
    {
        match nearest(hits) {
            Some(i) => {
                match hits[i] {
                    Some(d) => Some(Intersection::new(&self.objects[i], d)),
                    None => None,
                }
            },
            None => None,
        }
    }

    /// Whether `c` is the colour that a list of answers amounts to: the
    /// background if no object was met, else the colour of the object at the
    /// nearest position.
    pub open spec fn is_shade(&self, hits: Seq<Option<Distance>>, c: Color) -> bool {
        &&& no_hit(hits) ==> c == self.background
        &&& forall|i: int| is_nearest(hits, i) ==> c == self.objects@[i].color
    }

    /// The colour that a list of answers amounts to: the background if no
    /// object was met, else the colour of the object at the nearest position.
    pub fn shade(&self, hits: &Vec<Option<Distance>>) -> (res: Color)
        requires
            hits@.len() == self.objects@.len(),
        ensures
            self.is_shade(hits@, res),
    {
        match self.resolve(hits) {
            Some(hit) => {
                proof {
                    let k = choose|k: int|
                        is_nearest(hits@, k) && *hit.object == #[trigger] self.objects@[k]
                            && hits@[k] == Some(hit.distance);
                    assert forall|i: int| is_nearest(hits@, i) implies i == k by {
                        lemma_nearest_is_unique(hits@, i, k);
                    }
                }
                hit.object.color
            },
            None => self.background,
        }
    }
}

/// The nearest distance does not depend on the order of the objects: two lists
/// that hold the same hits, in any order and any number of times, have the same
/// nearest distance.
pub proof fn lemma_nearest_ignores_order(
    a: Seq<Option<Distance>>,
    b: Seq<Option<Distance>>,
    i: int,
    j: int,
)
    requires
        is_nearest(a, i),
        is_nearest(b, j),
        forall|k: int| 0 <= k < a.len() && a[k] is Some ==> b.contains(#[trigger] a[k]),
        forall|k: int| 0 <= k < b.len() && b[k] is Some ==> a.contains(#[trigger] b[k]),
    ensures
        a[i].unwrap().value() == b[j].unwrap().value(),
{
    assert(b.contains(a[i]));
    let k = choose|k: int| 0 <= k < b.len() && b[k] == a[i];
    assert(b[j].unwrap().value() <= b[k].unwrap().value());
    assert(a.contains(b[j]));
    let l = choose|l: int| 0 <= l < a.len() && a[l] == b[j];
    assert(a[i].unwrap().value() <= a[l].unwrap().value());
}

} // verus!
