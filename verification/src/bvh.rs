//! Bounding volume hierarchies: how one is built from a list of objects, and
//! why a ray hits in it what it hits in the list.

use vstd::prelude::*;
use crate::aabb::{lemma_hit_of_containing_box, spec_surrounding_box, surrounding_box, AABB};
use crate::fixed::Fixed;
use crate::geometry::{
    bounding_box_of, spec_bounding_box, spec_nearer, spec_prefer, spec_ray_cast, spec_scan,
    Hittable, HittableList,
};
use crate::math::random_range_int;
use crate::ray::Ray;

verus! {

/// The number by which a hierarchy orders `obj` along `axis`: the lower end
/// of its box on that axis.
pub open spec fn spec_sort_key(obj: &Hittable, axis: i32) -> i64 {
    spec_bounding_box(obj).min.index(axis).raw
}

/// Whether the objects stand in the order of their keys along `axis`.
pub open spec fn is_sorted_on(objects: Seq<Hittable>, axis: i32) -> bool {
    forall|a: int, b: int|
        0 <= a <= b < objects.len() ==> spec_sort_key(&objects[a], axis) <= spec_sort_key(
            &objects[b],
            axis,
        )
}

/// Whether `tree` is the hierarchy over `items` in their order: a single item
/// is itself the tree; two or more stand under one node, the first `len -
/// len / 2` of them in the left subtree and the others in the right one, and
/// the box of the node is the box around the boxes of its two subtrees.
pub open spec fn is_hierarchy_over(tree: &Hittable, items: Seq<Hittable>) -> bool
    decreases tree,
{
    if items.len() == 1 {
        *tree == items[0]
    } else if items.len() >= 2 {
        match tree {
            Hittable::BHVNode(aabb, left, right) => {
                &&& *aabb == spec_surrounding_box(
                    &spec_bounding_box(&**left),
                    &spec_bounding_box(&**right),
                )
                &&& is_hierarchy_over(&**left, items.take(items.len() - items.len() / 2))
                &&& is_hierarchy_over(&**right, items.skip(items.len() - items.len() / 2))
            },
            _ => false,
        }
    } else {
        false
    }
}

/// Whether `tree` is the hierarchy over `objects` in some order.
pub open spec fn is_hierarchy_of(tree: &Hittable, objects: Seq<Hittable>) -> bool {
    exists|items: Seq<Hittable>| #[trigger]
        is_hierarchy_over(tree, items) && items.to_multiset() == objects.to_multiset()
}

/// Whether `ray` hits `obj` only where it hits the box of `obj`: within no
/// interval does it meet the object and miss the box.
pub open spec fn hits_within_box(obj: &Hittable, ray: &Ray) -> bool {
    forall|t_min: Fixed, t_max: Fixed|
        (#[trigger] spec_ray_cast(obj, ray, t_min, t_max)) is Some ==> spec_bounding_box(
            obj,
        ).spec_hit(ray, t_min, t_max)
}

/// The box of a hierarchy contains the box of each item under it.
pub proof fn lemma_hierarchy_box_contains(tree: &Hittable, items: Seq<Hittable>, i: int)
    requires
        is_hierarchy_over(tree, items),
        0 <= i < items.len(),
    ensures
        spec_bounding_box(tree).contains(&spec_bounding_box(&items[i])),
    decreases tree,
{
    if items.len() >= 2 {
        match tree {
            Hittable::BHVNode(aabb, left, right) => {
                let k = items.len() - items.len() / 2;
                if i < k {
                    lemma_hierarchy_box_contains(&**left, items.take(k), i);
                } else {
                    lemma_hierarchy_box_contains(&**right, items.skip(k), i - k);
                }
            },
            _ => {},
        }
    }
}

/// A scan of objects that the ray misses one by one finds nothing.
pub proof fn lemma_scan_of_misses(items: Seq<Hittable>, ray: &Ray, t_min: Fixed, t_max: Fixed)
    requires
        forall|i: int|
            0 <= i < items.len() ==> (#[trigger] spec_ray_cast(&items[i], ray, t_min, t_max))
                is None,
    ensures
        spec_scan(items, ray, t_min, t_max) is None,
    decreases items.len(),
{
    if items.len() > 0 {
        let front = items.drop_last();
        assert forall|i: int| 0 <= i < front.len() implies (#[trigger] spec_ray_cast(
            &front[i],
            ray,
            t_min,
            t_max,
        )) is None by {
            assert(front[i] == items[i]);
        }
        lemma_scan_of_misses(front, ray, t_min, t_max);
        assert(spec_ray_cast(&items[items.len() - 1], ray, t_min, t_max) is None);
    }
}

/// A scan of two lists on end is a scan of the first, and then a scan of the
/// second for what is nearer than what the first found.
pub proof fn lemma_scan_of_concatenation(
    first: Seq<Hittable>,
    second: Seq<Hittable>,
    ray: &Ray,
    t_min: Fixed,
    t_max: Fixed,
)
    ensures
        spec_scan(first + second, ray, t_min, t_max) == spec_prefer(
            spec_scan(second, ray, t_min, spec_nearer(spec_scan(first, ray, t_min, t_max), t_max)),
            spec_scan(first, ray, t_min, t_max),
        ),
    decreases second.len(),
{
    if second.len() == 0 {
        assert(first + second =~= first);
    } else {
        let shorter = second.drop_last();
        assert((first + second).drop_last() =~= first + shorter);
        assert((first + second).last() == second.last());
        lemma_scan_of_concatenation(first, shorter, ray, t_min, t_max);
    }
}

/// A ray hits in a hierarchy what a scan of its items finds, if it hits each
/// item only where it hits the box of the item.
pub proof fn lemma_hierarchy_agrees_with_scan(
    tree: &Hittable,
    items: Seq<Hittable>,
    ray: &Ray,
    t_min: Fixed,
    t_max: Fixed,
)
    requires
        is_hierarchy_over(tree, items),
        forall|i: int| 0 <= i < items.len() ==> hits_within_box(#[trigger] &items[i], ray),
    ensures
        spec_ray_cast(tree, ray, t_min, t_max) == spec_scan(items, ray, t_min, t_max),
    decreases tree,
{
    if items.len() == 1 {
        assert(items.drop_last().len() == 0);
        assert(spec_scan(items.drop_last(), ray, t_min, t_max) is None);
        assert(items.last() == items[0]);
    } else {
        match tree {
            Hittable::BHVNode(aabb, left, right) => {
                let k = items.len() - items.len() / 2;
                let upper = items.take(k);
                let lower = items.skip(k);
                assert(items =~= upper + lower);
                if !aabb.spec_hit(ray, t_min, t_max) {
                    assert forall|i: int| 0 <= i < items.len() implies (#[trigger] spec_ray_cast(
                        &items[i],
                        ray,
                        t_min,
                        t_max,
                    )) is None by {
                        lemma_hierarchy_box_contains(tree, items, i);
                        assert(hits_within_box(&items[i], ray));
                        if spec_ray_cast(&items[i], ray, t_min, t_max) is Some {
                            lemma_hit_of_containing_box(
                                *aabb,
                                spec_bounding_box(&items[i]),
                                *ray,
                                t_min,
                                t_max,
                            );
                        }
                    }
                    lemma_scan_of_misses(items, ray, t_min, t_max);
                } else {
                    assert forall|i: int| 0 <= i < upper.len() implies hits_within_box(
                        #[trigger] &upper[i],
                        ray,
                    ) by {
                        assert(upper[i] == items[i]);
                    }
                    assert forall|i: int| 0 <= i < lower.len() implies hits_within_box(
                        #[trigger] &lower[i],
                        ray,
                    ) by {
                        assert(lower[i] == items[i + k]);
                    }
                    lemma_hierarchy_agrees_with_scan(&**left, upper, ray, t_min, t_max);
                    let hit_left = spec_ray_cast(&**left, ray, t_min, t_max);
                    lemma_hierarchy_agrees_with_scan(
                        &**right,
                        lower,
                        ray,
                        t_min,
                        spec_nearer(hit_left, t_max),
                    );
                    lemma_scan_of_concatenation(upper, lower, ray, t_min, t_max);
                }
            },
            _ => {},
        }
    }
}

/// A ray hits in a hierarchy over a list what a scan finds in the list taken
/// in the order in which the hierarchy holds it, if it hits each object only
/// where it hits the box of the object.
pub proof fn lemma_hierarchy_finds_nearest(
    tree: &Hittable,
    objects: Seq<Hittable>,
    ray: &Ray,
    t_min: Fixed,
    t_max: Fixed,
)
    requires
        is_hierarchy_of(tree, objects),
        forall|i: int| 0 <= i < objects.len() ==> hits_within_box(#[trigger] &objects[i], ray),
    ensures
        exists|items: Seq<Hittable>|
            #![trigger is_hierarchy_over(tree, items)]
            is_hierarchy_over(tree, items) && items.to_multiset() == objects.to_multiset()
                && spec_ray_cast(tree, ray, t_min, t_max) == spec_scan(items, ray, t_min, t_max),
{
    broadcast use vstd::seq_lib::to_multiset_contains;

    let items = choose|items: Seq<Hittable>| #[trigger]
        is_hierarchy_over(tree, items) && items.to_multiset() == objects.to_multiset();
    assert forall|i: int| 0 <= i < items.len() implies hits_within_box(
        #[trigger] &items[i],
        ray,
    ) by {
        assert(items.contains(items[i]));
        assert(items.to_multiset().count(items[i]) > 0);
        assert(objects.contains(items[i]));
        let j = choose|j: int| 0 <= j < objects.len() && objects[j] == items[i];
        assert(hits_within_box(&objects[j], ray));
    }
    lemma_hierarchy_agrees_with_scan(tree, items, ray, t_min, t_max);
}

/// `sorted` with `item` put behind the last object whose key along `axis` is
/// not above its own, and before all the others.
pub open spec fn spec_put(sorted: Seq<Hittable>, item: Hittable, axis: i32) -> Seq<Hittable>
    decreases sorted.len(),
{
    if sorted.len() == 0 || spec_sort_key(&sorted.last(), axis) <= spec_sort_key(&item, axis) {
        sorted.push(item)
    } else {
        spec_put(sorted.drop_last(), item, axis).push(sorted.last())
    }
}

/// The objects in the order of their keys along `axis`, those with one key
/// in the order in which they were given: each object in turn is put among
/// those before it ([`spec_put`]).
pub open spec fn spec_sorted_on(objects: Seq<Hittable>, axis: i32) -> Seq<Hittable>
    decreases objects.len(),
{
    if objects.len() == 0 {
        objects
    } else {
        spec_put(spec_sorted_on(objects.drop_last(), axis), objects.last(), axis)
    }
}

/// Where an object is put: at the place `j`, if every object from there on
/// has a key above its own and the object before that place has not.
pub proof fn lemma_put_at(sorted: Seq<Hittable>, item: Hittable, axis: i32, j: int)
    requires
        0 <= j <= sorted.len(),
        forall|k: int|
            j <= k < sorted.len() ==> spec_sort_key(#[trigger] &sorted[k], axis) > spec_sort_key(
                &item,
                axis,
            ),
        j > 0 ==> spec_sort_key(&sorted[j - 1], axis) <= spec_sort_key(&item, axis),
    ensures
        spec_put(sorted, item, axis) == sorted.insert(j, item),
    decreases sorted.len(),
{
    if j == sorted.len() {
        assert(sorted.insert(j, item) =~= sorted.push(item));
    } else {
        let front = sorted.drop_last();
        assert(spec_sort_key(&sorted[sorted.len() - 1], axis) > spec_sort_key(&item, axis));
        assert forall|k: int| j <= k < front.len() implies spec_sort_key(
            #[trigger] &front[k],
            axis,
        ) > spec_sort_key(&item, axis) by {
            assert(front[k] == sorted[k]);
        }
        if j > 0 {
            assert(front[j - 1] == sorted[j - 1]);
        }
        lemma_put_at(front, item, axis, j);
        assert(front.insert(j, item).push(sorted.last()) =~= sorted.insert(j, item));
    }
}

/// Whether the numbers stand in rising order.
pub open spec fn is_rising(keys: Seq<i64>) -> bool {
    forall|a: int, b: int| 0 <= a <= b < keys.len() ==> keys[a] <= keys[b]
}

/// Whether `keys` holds the key along `axis` of each of `objects`, in order.
pub open spec fn are_keys_of(keys: Seq<i64>, objects: Seq<Hittable>, axis: i32) -> bool {
    &&& keys.len() == objects.len()
    &&& forall|k: int| 0 <= k < keys.len() ==> keys[k] == spec_sort_key(#[trigger] &objects[k], axis)
}

fn sort_keys(objects: &Vec<Hittable>, axis: i32) -> (keys: Vec<i64>)
    requires
        0 <= axis < 3,
    ensures
        are_keys_of(keys@, objects@, axis),
{
    let mut keys: Vec<i64> = Vec::new();
    let mut i: usize = 0;
    while i < objects.len()
        invariant
            0 <= axis < 3,
            0 <= i <= objects@.len(),
            are_keys_of(keys@, objects@.take(i as int), axis),
        decreases objects@.len() - i,
    {
        let key: i64 = bounding_box_of(&objects[i]).min.index(axis).raw;
        keys.push(key);
        i = i + 1;
        assert forall|k: int| 0 <= k < keys@.len() implies keys@[k] == spec_sort_key(
            #[trigger] &objects@.take(i as int)[k],
            axis,
        ) by {
            if k < i - 1 {
                assert(objects@.take(i as int)[k] == objects@.take(i as int - 1)[k]);
            }
        }
    }
    assert(objects@.take(i as int) =~= objects@);
    keys
}

/// Sorts the objects by the lower ends of their boxes along `axis`; objects
/// with one key keep their order.
pub fn sort_on_axis(objects: &mut Vec<Hittable>, axis: i32)
    requires
        0 <= axis < 3,
    ensures
        final(objects)@ == spec_sorted_on(old(objects)@, axis),
        final(objects)@.to_multiset() == old(objects)@.to_multiset(),
        final(objects)@.len() == old(objects)@.len(),
        is_sorted_on(final(objects)@, axis),
{
    broadcast use {
        vstd::seq_lib::to_multiset_remove,
        vstd::seq_lib::to_multiset_insert,
        vstd::seq_lib::to_multiset_contains,
    };

    let n = objects.len();
    let ghost given = objects@;
    proof {
        assert(given.take(0) =~= Seq::<Hittable>::empty());
        if n >= 1 {
            let first = given.take(1);
            assert(first.drop_last() =~= given.take(0));
            assert(spec_sorted_on(first.drop_last(), axis) =~= Seq::<Hittable>::empty());
            assert(spec_sorted_on(first, axis) =~= first);
        }
        if n <= 1 {
            assert(given.take(n as int) =~= given);
        }
    }
    if n <= 1 {
        return ;
    }
    let mut keys = sort_keys(objects, axis);
    let mut i: usize = 1;
    while i < n
        invariant
            0 <= axis < 3,
            1 <= i <= n,
            n == objects@.len(),
            given == old(objects)@,
            given.len() == n,
            are_keys_of(keys@, objects@, axis),
            objects@.to_multiset() == old(objects)@.to_multiset(),
            is_rising(keys@.take(i as int)),
            objects@.take(i as int) == spec_sorted_on(given.take(i as int), axis),
            objects@.skip(i as int) == given.skip(i as int),
        decreases n - i,
    {
        let ghost before = objects@;
        let ghost keys_before = keys@;
        let item = objects.remove(i);
        let key = keys.remove(i);
        let ghost without = objects@;
        let ghost keys_without = keys@;
        proof {
            vstd::seq_lib::to_multiset_remove(before, i as int);
        }
        let mut j: usize = i;
        while j > 0 && keys[j - 1] > key
            invariant
                0 <= j <= i < n,
                keys@ == keys_without,
                keys@.len() == n - 1,
                forall|k: int| j <= k < i ==> keys@[k] > key,
            decreases j,
        {
            j = j - 1;
        }
        objects.insert(j, item);
        keys.insert(j, key);
        proof {
            let sorted = before.take(i as int);
            let longer = given.take(i as int + 1);
            assert(before.skip(i as int)[0] == given.skip(i as int)[0]);
            assert(item == given[i as int]);
            assert(key == spec_sort_key(&item, axis)) by {
                assert(keys_before[i as int] == spec_sort_key(&before[i as int], axis));
            }
            assert forall|k: int| j <= k < sorted.len() implies spec_sort_key(
                #[trigger] &sorted[k],
                axis,
            ) > spec_sort_key(&item, axis) by {
                assert(sorted[k] == before[k]);
                assert(keys_before[k] == spec_sort_key(&before[k], axis));
                assert(keys_without[k] == keys_before[k]);
            }
            if j > 0 {
                assert(sorted[j - 1] == before[j - 1]);
                assert(keys_before[j - 1] == spec_sort_key(&before[j - 1], axis));
                assert(keys_without[j - 1] == keys_before[j - 1]);
            }
            lemma_put_at(sorted, item, axis, j as int);
            assert(longer.drop_last() =~= given.take(i as int));
            assert(longer.last() == item);
            assert(objects@.take(i as int + 1) =~= sorted.insert(j as int, item));
            let tail = objects@.skip(i as int + 1);
            assert(tail =~= given.skip(i as int + 1)) by {
                assert forall|k: int| 0 <= k < n - i - 1 implies #[trigger] tail[k] == given.skip(
                    i as int + 1,
                )[k] by {
                    assert(objects@[i + 1 + k] == before[i + 1 + k]);
                    assert(before.skip(i as int)[k + 1] == given.skip(i as int)[k + 1]);
                }
            }
        }
        assert(objects@.to_multiset() =~= before.to_multiset()) by {
            broadcast use vstd::multiset::group_multiset_axioms;

            vstd::seq_lib::to_multiset_insert(without, j as int, item);
            vstd::seq_lib::to_multiset_contains(before, item);
            assert(before[i as int] == item);
            assert(before.contains(item));
        }
        assert(are_keys_of(keys@, objects@, axis)) by {
            assert forall|k: int| 0 <= k < keys@.len() implies keys@[k] == spec_sort_key(
                #[trigger] &objects@[k],
                axis,
            ) by {
                if k < j {
                    assert(objects@[k] == before[k]);
                    assert(keys@[k] == keys_before[k]);
                } else if k == j {
                    assert(objects@[k] == before[i as int]);
                    assert(keys@[k] == keys_before[i as int]);
                } else if k <= i {
                    assert(objects@[k] == before[k - 1]);
                    assert(keys@[k] == keys_before[k - 1]);
                } else {
                    assert(objects@[k] == before[k]);
                    assert(keys@[k] == keys_before[k]);
                }
            }
        }
        assert(is_rising(keys@.take(i as int + 1))) by {
            let sorted = keys_before.take(i as int);
            let longer = keys@.take(i as int + 1);
            assert forall|a: int, b: int| 0 <= a <= b < longer.len() implies longer[a]
                <= longer[b] by {
                let low = if a < j {
                    sorted[a]
                } else if a == j {
                    key
                } else {
                    sorted[a - 1]
                };
                let high = if b < j {
                    sorted[b]
                } else if b == j {
                    key
                } else {
                    sorted[b - 1]
                };
                assert(longer[a] == low);
                assert(longer[b] == high);
                if a < j && b == j {
                    if j > 0 {
                        assert(sorted[a] <= sorted[j - 1]);
                    }
                } else if a < j && b > j {
                    assert(sorted[a] <= sorted[b - 1]);
                } else if a > j {
                    assert(sorted[a - 1] <= sorted[b - 1]);
                } else if a < j && b < j {
                    assert(sorted[a] <= sorted[b]);
                }
            }
        }
        i = i + 1;
    }
    assert(objects@.take(n as int) =~= objects@);
    assert(given.take(n as int) =~= given);
    assert(is_sorted_on(objects@, axis)) by {
        assert(keys@.take(i as int) =~= keys@);
        assert forall|a: int, b: int| 0 <= a <= b < objects@.len() implies spec_sort_key(
            &objects@[a],
            axis,
        ) <= spec_sort_key(&objects@[b], axis) by {
            assert(keys@[a] <= keys@[b]);
        }
    }
}

/// The node over two subtrees: its box is the box around their boxes.
pub open spec fn spec_node(left: Hittable, right: Hittable) -> Hittable {
    Hittable::BHVNode(
        spec_surrounding_box(&spec_bounding_box(&left), &spec_bounding_box(&right)),
        Box::new(left),
        Box::new(right),
    )
}

/// Whether `tree` is a hierarchy that may be built over `objects`. There is
/// an axis such that, with the objects sorted along it ([`spec_sorted_on`]),
///
/// - a single object is itself the tree;
/// - two objects stand under one node ([`spec_node`]), the first on the left;
/// - of three or more, the left subtree of the tree is a hierarchy that may
///   be built over the upper half of them, `len - len / 2` objects, its right
///   subtree one that may be built over the lower half, and its box is the
///   box around the boxes of the two.
pub open spec fn is_built(tree: &Hittable, objects: Seq<Hittable>) -> bool
    decreases tree,
{
    exists|axis: i32|
        #![trigger spec_sorted_on(objects, axis)]
        0 <= axis < 3 && {
            let sorted = spec_sorted_on(objects, axis);
            if sorted.len() == 1 {
                *tree == sorted[0]
            } else if sorted.len() == 2 {
                *tree == spec_node(sorted[0], sorted[1])
            } else if sorted.len() >= 3 {
                match tree {
                    Hittable::BHVNode(aabb, left, right) => {
                        &&& *aabb == spec_surrounding_box(
                            &spec_bounding_box(&**left),
                            &spec_bounding_box(&**right),
                        )
                        &&& is_built(&**left, sorted.skip(sorted.len() as int / 2))
                        &&& is_built(&**right, sorted.take(sorted.len() as int / 2))
                    },
                    _ => false,
                }
            } else {
                false
            }
        }
}

fn make_node(left: Hittable, right: Hittable) -> (r: Hittable)
    ensures
        r == spec_node(left, right),
{
    let bounds = surrounding_box(&bounding_box_of(&left), &bounding_box_of(&right));
    Hittable::BHVNode(bounds, Box::new(left), Box::new(right))
}

fn construct_bhv(objects: Vec<Hittable>, time0: Fixed, time1: Fixed) -> (r: Hittable)
    requires
        objects@.len() > 0,
    ensures
        is_built(&r, objects@),
        is_hierarchy_of(&r, objects@),
    decreases objects@.len(),
{
    broadcast use vstd::seq_lib::lemma_multiset_commutative;

    let mut objects = objects;
    let ghost given = objects@;
    let axis = random_range_int(0, 2);
    sort_on_axis(&mut objects, axis);
    let ghost sorted = objects@;
    assert(sorted == spec_sorted_on(given, axis));
    let object_span = objects.len();
    if object_span == 1 {
        let only = objects.remove(0);
        assert(is_hierarchy_over(&only, sorted));
        only
    } else if object_span == 2 {
        let right = objects.remove(1);
        let left = objects.remove(0);
        let node = make_node(left, right);
        proof {
            let items = seq![left, right];
            assert(items.take(1)[0] == left);
            assert(items.skip(1)[0] == right);
            assert(is_hierarchy_over(&left, items.take(1)));
            assert(is_hierarchy_over(&right, items.skip(1)));
            assert(is_hierarchy_over(&node, items));
            assert(sorted[0] == left);
            assert(sorted[1] == right);
            assert(items =~= sorted);
        }
        node
    } else {
        let mut vec_right = objects;
        let vec_left = vec_right.split_off(object_span / 2);
        let ghost upper = vec_left@;
        let ghost lower = vec_right@;
        assert(sorted =~= lower + upper);
        assert(upper =~= sorted.skip(sorted.len() as int / 2));
        assert(lower =~= sorted.take(sorted.len() as int / 2));
        let left = construct_bhv(vec_left, time0, time1);
        let right = construct_bhv(vec_right, time0, time1);
        let node = make_node(left, right);
        proof {
            let items_left = choose|items: Seq<Hittable>| #[trigger]
                is_hierarchy_over(&left, items) && items.to_multiset() == upper.to_multiset();
            let items_right = choose|items: Seq<Hittable>| #[trigger]
                is_hierarchy_over(&right, items) && items.to_multiset() == lower.to_multiset();
            let items = items_left + items_right;
            vstd::seq_lib::to_multiset_len(items_left);
            vstd::seq_lib::to_multiset_len(items_right);
            vstd::seq_lib::to_multiset_len(upper);
            vstd::seq_lib::to_multiset_len(lower);
            assert(items_left.len() == upper.len());
            assert(items_right.len() == lower.len());
            assert(items.take(items.len() - items.len() / 2) =~= items_left);
            assert(items.skip(items.len() - items.len() / 2) =~= items_right);
            assert(is_hierarchy_over(&node, items));
            assert(items.to_multiset() =~= given.to_multiset()) by {
                assert(items.to_multiset() =~= items_left.to_multiset().add(
                    items_right.to_multiset(),
                ));
                assert(sorted.to_multiset() =~= lower.to_multiset().add(upper.to_multiset()));
            }
        }
        node
    }
}

impl HittableList {
    /// The bounding volume hierarchy over the objects of a list that is not
    /// empty. At each level the objects are sorted along an axis picked at
    /// random and split in the middle ([`is_built`]), so the hierarchy holds
    /// the objects in some order, under nodes whose halves differ by one
    /// object at most, each with the box around the boxes of its halves
    /// ([`is_hierarchy_of`]). The two moments of the exposure do not enter
    /// into it.
    pub fn to_bhv(self, time0: Fixed, time1: Fixed) -> (r: Hittable)
        requires
            self.objects@.len() > 0,
        ensures
            is_built(&r, self.objects@),
            is_hierarchy_of(&r, self.objects@),
    {
        construct_bhv(self.objects, time0, time1)
    }
}

} // verus!
