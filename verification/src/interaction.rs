//! Generic interaction queries: what the player can act on from where they
//! stand. The nearest-target queries feed both the interact prompt and the
//! action dispatch; ties go to the earliest entry, and squared distances are
//! compared so no square root is needed.

use vstd::prelude::*;
use crate::geom::Vec3Fx;
use crate::shapes::SHAPE_LIMIT;
use crate::units::{lemma_mul_bound, POS_LIMIT};

verus! {

/// What interacting with a target does.
#[derive(Clone, PartialEq, Eq, Debug)]
pub enum InteractKind {
    EnterShip,
    EnterSubmersible,
    Pickup { item_id: String },
}

/// Relies on String::push_str: appends the slice's characters to the string.
#[verifier::external_body]
fn append_str(s: &mut String, t: &str)
    ensures
        final(s)@ == old(s)@ + t@,
{
    s.push_str(t)
}

impl InteractKind {
    /// The prompt phrase for this action; a pickup prompt names the item.
    pub fn prompt(&self) -> (r: String)
        ensures
            r@ == match self {
                InteractKind::EnterShip => "Press E to enter ship"@,
                InteractKind::EnterSubmersible => "Press E to enter submersible"@,
                InteractKind::Pickup { item_id } => "Press E to pick up "@ + item_id@,
            },
    {
        match self {
            InteractKind::EnterShip => "Press E to enter ship".to_owned(),
            InteractKind::EnterSubmersible => "Press E to enter submersible".to_owned(),
            InteractKind::Pickup { item_id } => {
                let mut prompt = "Press E to pick up ".to_owned();
                append_str(&mut prompt, item_id.as_str());
                prompt
            },
        }
    }
}

/// Marks a world entry as interactable within a range.
#[derive(Clone, PartialEq, Eq, Debug)]
pub struct Interactable {
    pub kind: InteractKind,
    pub range: i64,
}

impl Interactable {
    /// Well-formed: a nonnegative bounded range.
    pub open spec fn wf(self) -> bool {
        0 <= self.range <= SHAPE_LIMIT
    }
}

/// Squared distance between two points.
pub open spec fn dist_sq(a: Vec3Fx, b: Vec3Fx) -> int {
    let dx = a.x - b.x;
    let dy = a.y - b.y;
    let dz = a.z - b.z;
    dx * dx + dy * dy + dz * dz
}

/// Whether the target at index `i` is within its own interact range of `pos`.
pub open spec fn target_in_range(pos: Vec3Fx, items: Seq<(Vec3Fx, Interactable)>, i: int) -> bool {
    dist_sq(pos, items[i].0) <= items[i].1.range * items[i].1.range
}

/// Computes the squared distance between two bounded points.
fn dist_sq_at(a: Vec3Fx, b: Vec3Fx) -> (d: i64)
    requires
        a.bounded(POS_LIMIT as int),
        b.bounded(POS_LIMIT as int),
    ensures
        d == dist_sq(a, b),
        d >= 0,
{
    let dx = a.x - b.x;
    let dy = a.y - b.y;
    let dz = a.z - b.z;
    proof {
        lemma_mul_bound(dx as int, dx as int, 20000000, 20000000);
        lemma_mul_bound(dy as int, dy as int, 20000000, 20000000);
        lemma_mul_bound(dz as int, dz as int, 20000000, 20000000);
        assert((dx as int) * (dx as int) >= 0 && (dy as int) * (dy as int) >= 0 && (dz as int) * (
        dz as int) >= 0) by (nonlinear_arith);
    }
    dx * dx + dy * dy + dz * dz
}

/// Finds the target nearest to `pos` among those within their interact
/// range; ties go to the earliest entry. Returns its index.
pub fn nearest_interactable_in_range(pos: Vec3Fx, items: &Vec<(Vec3Fx, Interactable)>) -> (r:
    Option<usize>)
    requires
        pos.bounded(POS_LIMIT as int),
        forall|i: int|
            0 <= i < items@.len() ==> (#[trigger] items@[i]).0.bounded(POS_LIMIT as int)
                && items@[i].1.wf(),
    ensures
        match r {
            Some(i) => {
                &&& i < items@.len()
                &&& target_in_range(pos, items@, i as int)
                &&& forall|j: int|
                    0 <= j < items@.len() && #[trigger] target_in_range(pos, items@, j)
                        ==> dist_sq(pos, items@[i as int].0) <= dist_sq(pos, items@[j].0)
                &&& forall|j: int|
                    0 <= j < i && #[trigger] target_in_range(pos, items@, j) ==> dist_sq(
                        pos,
                        items@[i as int].0,
                    ) < dist_sq(pos, items@[j].0)
            },
            None => forall|j: int|
                0 <= j < items@.len() ==> !#[trigger] target_in_range(pos, items@, j),
        },
{
    let n = items.len();
    let mut best: Option<usize> = None;
    let mut best_d: i64 = 0;
    let mut k: usize = 0;
    while k < n
        invariant
            n == items@.len(),
            0 <= k <= n,
            pos.bounded(POS_LIMIT as int),
            forall|i: int|
                0 <= i < items@.len() ==> (#[trigger] items@[i]).0.bounded(POS_LIMIT as int)
                    && items@[i].1.wf(),
            match best {
                Some(i) => {
                    &&& i < k
                    &&& best_d == dist_sq(pos, items@[i as int].0)
                    &&& target_in_range(pos, items@, i as int)
                    &&& forall|j: int|
                        0 <= j < k && #[trigger] target_in_range(pos, items@, j) ==> best_d
                            <= dist_sq(pos, items@[j].0)
                    &&& forall|j: int|
                        0 <= j < i && #[trigger] target_in_range(pos, items@, j) ==> best_d
                            < dist_sq(pos, items@[j].0)
                },
                None => forall|j: int| 0 <= j < k ==> !#[trigger] target_in_range(pos, items@, j),
            },
        decreases n - k,
    {
        let entry_pos = items[k].0;
        let range = items[k].1.range;
        let d = dist_sq_at(pos, entry_pos);
        proof {
            lemma_mul_bound(range as int, range as int, 1000000, 1000000);
        }
        if d <= range * range {
            match best {
                None => {
                    best = Some(k);
                    best_d = d;
                },
                Some(_) => {
                    if d < best_d {
                        best = Some(k);
                        best_d = d;
                    }
                },
            }
        }
        k = k + 1;
    }
    best
}

/// Whether the target at index `i` lies beyond the interact range but within
/// the hint range (the "move closer" band).
pub open spec fn target_in_hint_band(
    pos: Vec3Fx,
    items: Seq<(Vec3Fx, Interactable)>,
    i: int,
    interact_range: int,
    hint_range: int,
) -> bool {
    interact_range * interact_range < dist_sq(pos, items[i].0) < hint_range * hint_range
}

/// Finds the squared distance of the nearest target beyond `interact_range`
/// but within `hint_range` of `pos`, for the "move closer" prompt.
pub fn nearest_interactable_out_of_range(
    pos: Vec3Fx,
    interact_range: i64,
    hint_range: i64,
    items: &Vec<(Vec3Fx, Interactable)>,
) -> (r: Option<i64>)
    requires
        pos.bounded(POS_LIMIT as int),
        0 <= interact_range <= SHAPE_LIMIT,
        0 <= hint_range <= SHAPE_LIMIT,
        forall|i: int|
            0 <= i < items@.len() ==> (#[trigger] items@[i]).0.bounded(POS_LIMIT as int)
                && items@[i].1.wf(),
    ensures
        match r {
            Some(d) => {
                &&& exists|j: int|
                    0 <= j < items@.len() && #[trigger] target_in_hint_band(
                        pos,
                        items@,
                        j,
                        interact_range as int,
                        hint_range as int,
                    ) && d == dist_sq(pos, items@[j].0)
                &&& forall|j: int|
                    0 <= j < items@.len() && #[trigger] target_in_hint_band(
                        pos,
                        items@,
                        j,
                        interact_range as int,
                        hint_range as int,
                    ) ==> d <= dist_sq(pos, items@[j].0)
            },
            None => forall|j: int|
                0 <= j < items@.len() ==> !#[trigger] target_in_hint_band(
                    pos,
                    items@,
                    j,
                    interact_range as int,
                    hint_range as int,
                ),
        },
{
    proof {
        lemma_mul_bound(interact_range as int, interact_range as int, 1000000, 1000000);
        lemma_mul_bound(hint_range as int, hint_range as int, 1000000, 1000000);
    }
    let range_sq = interact_range * interact_range;
    let hint_sq = hint_range * hint_range;
    let n = items.len();
    let mut best: Option<i64> = None;
    let mut k: usize = 0;
    while k < n
        invariant
            n == items@.len(),
            0 <= k <= n,
            pos.bounded(POS_LIMIT as int),
            range_sq == interact_range * interact_range,
            hint_sq == hint_range * hint_range,
            forall|i: int|
                0 <= i < items@.len() ==> (#[trigger] items@[i]).0.bounded(POS_LIMIT as int)
                    && items@[i].1.wf(),
            match best {
                Some(d) => {
                    &&& exists|j: int|
                        0 <= j < k && #[trigger] target_in_hint_band(
                            pos,
                            items@,
                            j,
                            interact_range as int,
                            hint_range as int,
                        ) && d == dist_sq(pos, items@[j].0)
                    &&& forall|j: int|
                        0 <= j < k && #[trigger] target_in_hint_band(
                            pos,
                            items@,
                            j,
                            interact_range as int,
                            hint_range as int,
                        ) ==> d <= dist_sq(pos, items@[j].0)
                },
                None => forall|j: int|
                    0 <= j < k ==> !#[trigger] target_in_hint_band(
                        pos,
                        items@,
                        j,
                        interact_range as int,
                        hint_range as int,
                    ),
            },
        decreases n - k,
    {
        let d = dist_sq_at(pos, items[k].0);
        if d > range_sq && d < hint_sq {
            proof {
                assert(target_in_hint_band(
                    pos,
                    items@,
                    k as int,
                    interact_range as int,
                    hint_range as int,
                ));
            }
            match best {
                None => {
                    best = Some(d);
                },
                Some(b) => {
                    if d < b {
                        best = Some(d);
                    }
                },
            }
        }
        k = k + 1;
    }
    best
}

} // verus!
