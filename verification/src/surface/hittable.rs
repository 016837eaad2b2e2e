//! The capability of being hit by a ray, and scenes made of such objects.
use vstd::prelude::*;
use core::ops::Range;
use crate::ray::Ray;
use crate::scalar::Scalar;
use crate::surface::hit::{Hit, within};

verus! {

/// Whether `answer` is the right reply to "what does a ray see first within
/// `t_range`", for an object whose intersections with that ray are
/// `crossings`: either the object has no intersection in the interval and the
/// answer is `None`, or the answer is one of its intersections in the
/// interval and none of them comes earlier.
pub open spec fn nearest(crossings: Set<Hit>, t_range: Range<Scalar>, answer: Option<Hit>) -> bool {
    match answer {
        Some(h) => {
            &&& crossings.contains(h)
            &&& within(h.t, t_range)
            &&& forall|g: Hit|
                #![trigger crossings.contains(g)]
                crossings.contains(g) && within(g.t, t_range) ==> !g.t.less(h.t)
        },
        None => forall|g: Hit|
            #![trigger crossings.contains(g)]
            crossings.contains(g) ==> !within(g.t, t_range),
    }
}

/// Anything a ray can hit.
///
/// An implementation that is verified says what its intersections are
/// (`crossings`), declares itself `lawful`, and is then held to the contract
/// of `hit`. One that is not verified leaves both at their defaults and
/// promises nothing: what is proved of a scene is proved of scenes whose
/// objects are all lawful.
pub trait Hittable {
    /// Whether this object answers as the contract of `hit` says.
    open spec fn lawful(&self) -> bool {
        false
    }

    /// Every intersection of `ray`, taken as a full line, with this object.
    /// It has a meaning for lawful objects only.
    open spec fn crossings(&self, ray: Ray) -> Set<Hit> {
        Set::empty()
    }

    /// The closest intersection of `ray` with this object whose parameter
    /// lies in `t_range`, or `None` if there is none.
    fn hit(&self, ray: &Ray, t_range: Range<Scalar>) -> (answer: Option<Hit>)
        ensures
            self.lawful() ==> nearest(self.crossings(*ray), t_range, answer),
    ;
}

/// A boxed object is hit as the object in the box is.
impl<T: Hittable + ?Sized> Hittable for Box<T> {
    open spec fn lawful(&self) -> bool {
        (**self).lawful()
    }

    open spec fn crossings(&self, ray: Ray) -> Set<Hit> {
        (**self).crossings(ray)
    }

    fn hit(&self, ray: &Ray, t_range: Range<Scalar>) -> (answer: Option<Hit>) {
        (**self).hit(ray, t_range)
    }
}

/// A scene of objects of any kinds, tested one after the other. (A `Vec` of
/// objects of one kind is a scene too.)
pub type HittableList = Vec<Box<dyn Hittable>>;

/// The intersections of `ray` with a scene: those of its objects, whatever
/// their order.
pub open spec fn scene_crossings<H: Hittable>(objects: Seq<H>, ray: Ray) -> Set<Hit> {
    Set::new(
        |h: Hit|
            exists|i: int|
                #![trigger objects[i].crossings(ray).contains(h)]
                0 <= i < objects.len() && objects[i].crossings(ray).contains(h),
    )
}

/// Whether every object of a scene is lawful.
pub open spec fn scene_lawful<H: Hittable>(objects: Seq<H>) -> bool {
    forall|i: int| 0 <= i < objects.len() ==> (#[trigger] objects[i]).lawful()
}

/// The upper end of the interval that is still worth searching once `best`
/// has been found: the parameter of `best`, or the end of the whole interval
/// while nothing has been found.
pub open spec fn closest_so_far(best: Option<Hit>, t_range: Range<Scalar>) -> Scalar {
    match best {
        Some(h) => h.t,
        None => t_range.end,
    }
}

/// The interval in which the next object is asked for a hit, once `best` has
/// been found: from the start of the whole interval up to `best`, excluded.
/// An object can then only report what is closer than `best`.
pub fn remaining(best: &Option<Hit>, t_range: &Range<Scalar>) -> (r: Range<Scalar>)
    ensures
        r.start == t_range.start,
        r.end == closest_so_far(*best, *t_range),
{
    match best {
        Some(h) => t_range.start..h.t,
        None => t_range.start..t_range.end,
    }
}

/// What a search holds after one more object has answered: that object's
/// hit if it reported one, for it was asked only for hits closer than `best`;
/// otherwise `best` as before.
pub fn closer(best: Option<Hit>, answer: Option<Hit>) -> (r: Option<Hit>)
    ensures
        r == (match answer {
            Some(h) => Some(h),
            None => best,
        }),
{
    match answer {
        Some(h) => Some(h),
        None => best,
    }
}

/// Whether the object at index `k` of `objects` is the first whose
/// intersections with `ray` reach as close as `h` within `t_range`: `h` is one
/// of its intersections, and every intersection of an earlier object in the
/// interval lies strictly behind `h`.
pub open spec fn first_to_reach<H: Hittable>(
    objects: Seq<H>,
    ray: Ray,
    t_range: Range<Scalar>,
    h: Hit,
    k: int,
) -> bool {
    &&& 0 <= k < objects.len()
    &&& objects[k].crossings(ray).contains(h)
    &&& forall|j: int, g: Hit|
        #![trigger objects[j].crossings(ray).contains(g)]
        0 <= j < k && objects[j].crossings(ray).contains(g) && within(g.t, t_range) ==> h.t.less(
            g.t,
        )
}

impl<H: Hittable> Hittable for Vec<H> {
    /// A scene is lawful when its objects are.
    open spec fn lawful(&self) -> bool {
        scene_lawful(self@)
    }

    /// The intersections of a scene are those of its objects.
    open spec fn crossings(&self, ray: Ray) -> Set<Hit> {
        scene_crossings(self@, ray)
    }

    /// Asks each object in turn, each only for what is closer than the best
    /// hit so far, and returns the last hit reported. Where several objects
    /// are hit at the same closest parameter, the first of them in the list
    /// supplies the hit.
    fn hit(&self, ray: &Ray, t_range: Range<Scalar>) -> (answer: Option<Hit>)
        ensures
            self.lawful() ==> (answer matches Some(h) ==> exists|k: int|
                first_to_reach(self@, *ray, t_range, h, k)),
            self.len() == 0 ==> answer is None,
    {
        let mut hit_anything: Option<Hit> = None;
        let ghost mut source: int = 0;
        let mut i: usize = 0;
        while i < self.len()
            invariant
                0 <= i <= self.len(),
                i == 0 ==> hit_anything is None,
                self.lawful() ==> (hit_anything matches Some(h) ==> within(h.t, t_range) && source
                    < i && first_to_reach(self@, *ray, t_range, h, source)),
                self.lawful() ==> forall|j: int, g: Hit|
                    #![trigger self[j].crossings(*ray).contains(g)]
                    0 <= j < i && self[j].crossings(*ray).contains(g) && within(g.t, t_range)
                        ==> !g.t.less(closest_so_far(hit_anything, t_range)) && !closest_so_far(
                        hit_anything,
                        t_range,
                    ).nan(),
            decreases self.len() - i,
        {
            let answer = self[i].hit(ray, remaining(&hit_anything, &t_range));
            proof {
                if answer is Some {
                    source = i as int;
                }
            }
            hit_anything = closer(hit_anything, answer);
            i += 1;
        }
        hit_anything
    }
}

/// An object is asked for nothing and answers nothing exactly when none of
/// its intersections lies in the interval. So an object without
/// intersections, an empty interval and an interval with a NaN for a bound
/// all give `None`.
pub proof fn lemma_none_iff_nothing_within(
    crossings: Set<Hit>,
    t_range: Range<Scalar>,
    answer: Option<Hit>,
)
    requires
        nearest(crossings, t_range, answer),
    ensures
        answer is None <==> forall|g: Hit|
            #![trigger crossings.contains(g)]
            crossings.contains(g) ==> !within(g.t, t_range),
        crossings =~= Set::<Hit>::empty() ==> answer is None,
        !t_range.start.less(t_range.end) ==> answer is None,
{
}

/// An empty scene has no intersections.
pub proof fn lemma_empty_scene_has_no_crossings<H: Hittable>(objects: Seq<H>, ray: Ray)
    requires
        objects.len() == 0,
    ensures
        scene_crossings(objects, ray) =~= Set::<Hit>::empty(),
{
}

/// Whether two answers agree on how far the ray travels: both are `None`,
/// or both are hits and their parameters are equal. (They may still be
/// different hits, where the ray meets two surfaces at one parameter.)
pub open spec fn same_reach(first: Option<Hit>, second: Option<Hit>) -> bool {
    match (first, second) {
        (Some(a), Some(b)) => a.t.same(b.t),
        (None, None) => true,
        _ => false,
    }
}

/// Two right answers to one question agree on how far the ray travels.
pub proof fn lemma_nearest_reach_is_unique(
    crossings: Set<Hit>,
    t_range: Range<Scalar>,
    first: Option<Hit>,
    second: Option<Hit>,
)
    requires
        nearest(crossings, t_range, first),
        nearest(crossings, t_range, second),
    ensures
        same_reach(first, second),
{
}

/// Whether two scenes hold the same objects: each object of either stands
/// somewhere in the other. A scene and any rearrangement of it do.
pub open spec fn same_objects<H: Hittable>(
    objects: Seq<H>,
    shuffled: Seq<H>,
) -> bool {
    &&& forall|i: int|
        0 <= i < objects.len() ==> exists|j: int|
            0 <= j < shuffled.len() && #[trigger] shuffled[j] == #[trigger] objects[i]
    &&& forall|j: int|
        0 <= j < shuffled.len() ==> exists|i: int|
            0 <= i < objects.len() && #[trigger] objects[i] == #[trigger] shuffled[j]
}

/// A scene has the same intersections in whatever order its objects stand.
pub proof fn lemma_crossings_ignore_order<H: Hittable>(
    objects: Seq<H>,
    shuffled: Seq<H>,
    ray: Ray,
)
    requires
        same_objects(objects, shuffled),
    ensures
        scene_crossings(objects, ray) =~= scene_crossings(shuffled, ray),
{
    assert forall|h: Hit| scene_crossings(objects, ray).contains(h) implies scene_crossings(
        shuffled,
        ray,
    ).contains(h) by {
        let i = choose|i: int|
            #![trigger objects[i].crossings(ray).contains(h)]
            0 <= i < objects.len() && objects[i].crossings(ray).contains(h);
        let j = choose|j: int| 0 <= j < shuffled.len() && shuffled[j] == objects[i];
        assert(shuffled[j].crossings(ray).contains(h));
    }
    assert forall|h: Hit| scene_crossings(shuffled, ray).contains(h) implies scene_crossings(
        objects,
        ray,
    ).contains(h) by {
        let j = choose|j: int|
            #![trigger shuffled[j].crossings(ray).contains(h)]
            0 <= j < shuffled.len() && shuffled[j].crossings(ray).contains(h);
        let i = choose|i: int| 0 <= i < objects.len() && objects[i] == shuffled[j];
        assert(objects[i].crossings(ray).contains(h));
    }
}

/// The order in which a scene is searched does not change how far the ray
/// travels: the right answers of two scenes that hold the same objects in
/// different orders are both `None`, or are hits with equal parameters.
pub proof fn lemma_order_is_immaterial<H: Hittable>(
    objects: Seq<H>,
    shuffled: Seq<H>,
    ray: Ray,
    t_range: Range<Scalar>,
    answer: Option<Hit>,
    shuffled_answer: Option<Hit>,
)
    requires
        same_objects(objects, shuffled),
        nearest(scene_crossings(objects, ray), t_range, answer),
        nearest(scene_crossings(shuffled, ray), t_range, shuffled_answer),
    ensures
        same_reach(answer, shuffled_answer),
{
    lemma_crossings_ignore_order(objects, shuffled, ray);
    lemma_nearest_reach_is_unique(
        scene_crossings(objects, ray),
        t_range,
        answer,
        shuffled_answer,
    );
}

} // verus!
