//! The culler pass: every entity whose world position lies strictly
//! farther than the fixed despawn distance from the origin is destroyed,
//! whatever its kind; and the deferred application of a destruction list at
//! the end of a pass.

use vstd::prelude::*;
use crate::entity::Entity;
use crate::math::Vec3;

verus! {

/// Distance from the origin beyond which entities are destroyed, in
/// fixed-point steps.
pub const DESPAWN_DISTANCE: i32 = 100_000;

/// The squared despawn distance.
pub const DESPAWN_DISTANCE_SQ: u64 = 100_000 * 100_000;

/// Whether an entity positioned at `p` survives the culler: destruction is
/// strict, so an entity exactly on the boundary survives.
pub open spec fn within_despawn_distance(p: Vec3) -> bool {
    p.mag2() <= (DESPAWN_DISTANCE as int) * (DESPAWN_DISTANCE as int)
}

/// The population after the culler pass, in order.
pub open spec fn spec_culled(s: Seq<Entity>) -> Seq<Entity> {
    s.filter(|e: Entity| within_despawn_distance(e.translation))
}

/// The population after removing every entity whose identifier is listed,
/// in order.
pub open spec fn spec_despawned(s: Seq<Entity>, doomed: Seq<u64>) -> Seq<Entity> {
    s.filter(|e: Entity| !doomed.contains(e.id))
}

/// Whether the culler lets the entity live this tick.
pub fn survives_culling(e: &Entity) -> (kept: bool)
    ensures
        kept == within_despawn_distance(e.translation),
{
    let d2: u64 = e.translation.magnitude2();
    d2 <= DESPAWN_DISTANCE_SQ
}

/// Culler pass: destroy every entity strictly farther than the despawn
/// distance from the origin; the others survive in their original order.
pub fn despawn_far_away_entities(entities: Vec<Entity>) -> (kept: Vec<Entity>)
    ensures
        kept@ == spec_culled(entities@),
{
    let ghost orig = entities@;
    let ghost pred = |e: Entity| within_despawn_distance(e.translation);
    let mut rest = entities;
    let mut kept: Vec<Entity> = Vec::new();
    proof {
        assert(orig.take(0) =~= Seq::<Entity>::empty());
        assert(Seq::<Entity>::empty().filter(pred) =~= Seq::<Entity>::empty()) by {
            reveal(vstd::seq::Seq::filter);
        }
        assert(rest@ =~= orig.skip(0));
    }
    while rest.len() > 0
        invariant
            rest@ == orig.skip(orig.len() - rest@.len()),
            kept@ == orig.take(orig.len() - rest@.len()).filter(pred),
            rest@.len() <= orig.len(),
            pred == (|e: Entity| within_despawn_distance(e.translation)),
        decreases rest@.len(),
    {
        let ghost k = orig.len() - rest@.len();
        let e = rest.remove(0);
        proof {
            assert(e == orig[k]);
            assert(rest@ =~= orig.skip(k + 1));
            assert(orig.take(k + 1) =~= orig.take(k).push(orig[k]));
            orig.take(k).lemma_filter_push(orig[k], pred);
        }
        let keep = survives_culling(&e);
        if keep {
            kept.push(e);
        }
    }
    proof {
        assert(orig.take(orig.len() as int) =~= orig);
    }
    kept
}

fn contains_id(ids: &Vec<u64>, id: u64) -> (found: bool)
    ensures
        found == ids@.contains(id),
{
    let mut i: usize = 0;
    while i < ids.len()
        invariant
            i <= ids@.len(),
            forall|j: int| 0 <= j < i ==> ids@[j] != id,
        decreases ids@.len() - i,
    {
        if ids[i] == id {
            proof {
                assert(ids@[i as int] == id);
            }
            return true;
        }
        i = i + 1;
    }
    false
}

/// Apply a pass's deferred destruction list: remove every entity whose
/// identifier is listed, keeping the rest in order.
pub fn despawn_entities(entities: Vec<Entity>, doomed: &Vec<u64>) -> (kept: Vec<Entity>)
    ensures
        kept@ == spec_despawned(entities@, doomed@),
{
    let ghost orig = entities@;
    let ghost pred = |e: Entity| !doomed@.contains(e.id);
    let mut rest = entities;
    let mut kept: Vec<Entity> = Vec::new();
    proof {
        assert(orig.take(0) =~= Seq::<Entity>::empty());
        assert(Seq::<Entity>::empty().filter(pred) =~= Seq::<Entity>::empty()) by {
            reveal(vstd::seq::Seq::filter);
        }
        assert(rest@ =~= orig.skip(0));
    }
    while rest.len() > 0
        invariant
            rest@ == orig.skip(orig.len() - rest@.len()),
            kept@ == orig.take(orig.len() - rest@.len()).filter(pred),
            rest@.len() <= orig.len(),
            pred == (|e: Entity| !doomed@.contains(e.id)),
        decreases rest@.len(),
    {
        let ghost k = orig.len() - rest@.len();
        let e = rest.remove(0);
        proof {
            assert(e == orig[k]);
            assert(rest@ =~= orig.skip(k + 1));
            assert(orig.take(k + 1) =~= orig.take(k).push(orig[k]));
            orig.take(k).lemma_filter_push(orig[k], pred);
        }
        let keep = !contains_id(doomed, e.id);
        if keep {
            kept.push(e);
        }
    }
    proof {
        assert(orig.take(orig.len() as int) =~= orig);
    }
    kept
}

} // verus!
