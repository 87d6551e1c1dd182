use vstd::prelude::*;
use crate::geometry::{ClientRect, Point, packed_coords, pack_coords};
use crate::handle::SurfaceHandle;

verus! {

/// The key-state word sent with every synthesized move message.
pub const FORWARDED_KEY_STATE: usize = 1;

/// A surface's client rectangle together with the event's point translated
/// into that surface's client space.
#[derive(Clone, Copy, Debug, PartialEq, Eq, Structural)]
pub struct SurfaceGeometry {
    pub rect: ClientRect,
    pub point: Point,
}

/// What was learnt of one subscribed surface for one event: its geometry,
/// or `None` where the surface could not be queried (a destroyed window).
#[derive(Clone, Copy, Debug, PartialEq, Eq, Structural)]
pub struct SurfaceProbe {
    pub surface: SurfaceHandle,
    pub geometry: Option<SurfaceGeometry>,
}

/// A synthesized client-local move message for one surface.
#[derive(Clone, Copy, Debug, PartialEq, Eq, Structural)]
pub struct Delivery {
    pub surface: SurfaceHandle,
    pub key_state: usize,
    pub coords: u32,
}

/// The message a probe yields: one where the translated point lies inside
/// the client rectangle, none where it lies outside or the query failed.
pub open spec fn delivery_for(p: SurfaceProbe) -> Option<Delivery> {
    match p.geometry {
        Some(g) => if g.rect.spec_contains(g.point) {
            Some(
                Delivery {
                    surface: p.surface,
                    key_state: FORWARDED_KEY_STATE,
                    coords: packed_coords(g.point.x, g.point.y),
                },
            )
        } else {
            None
        },
        None => None,
    }
}

/// The messages for a sequence of probes, in probe order.
pub open spec fn deliveries(probes: Seq<SurfaceProbe>) -> Seq<Delivery>
    decreases probes.len(),
{
    if probes.len() == 0 {
        Seq::empty()
    } else {
        let init = deliveries(probes.drop_last());
        match delivery_for(probes.last()) {
            Some(d) => init.push(d),
            None => init,
        }
    }
}

/// Computes the messages to synthesize for one pointer move, given what was
/// learnt of each subscribed surface.
pub fn plan_deliveries(probes: &Vec<SurfaceProbe>) -> (r: Vec<Delivery>)
    ensures
        r@ == deliveries(probes@),
{
    let mut out: Vec<Delivery> = Vec::new();
    let mut i: usize = 0;
    while i < probes.len()
        invariant
            i <= probes@.len(),
            out@ == deliveries(probes@.subrange(0, i as int)),
        decreases probes@.len() - i,
    {
        let p = probes[i];
        assert(probes@.subrange(0, i + 1).drop_last() =~= probes@.subrange(0, i as int));
        match p.geometry {
            Some(g) => {
                if g.rect.contains(g.point) {
                    let coords = pack_coords(g.point.x, g.point.y);
                    out.push(Delivery { surface: p.surface, key_state: FORWARDED_KEY_STATE, coords });
                }
            },
            None => {},
        }
        i = i + 1;
    }
    assert(probes@.subrange(0, probes@.len() as int) =~= probes@);
    out
}

/// The messages for a concatenation are those of each part, in order.
pub proof fn lemma_deliveries_append(a: Seq<SurfaceProbe>, b: Seq<SurfaceProbe>)
    ensures
        deliveries(a + b) == deliveries(a) + deliveries(b),
    decreases b.len(),
{
    if b.len() == 0 {
        assert(a + b =~= a);
        assert(deliveries(b) =~= Seq::<Delivery>::empty());
        assert(deliveries(a) + deliveries(b) =~= deliveries(a));
    } else {
        lemma_deliveries_append(a, b.drop_last());
        assert((a + b).drop_last() =~= a + b.drop_last());
        assert((a + b).last() == b.last());
        match delivery_for(b.last()) {
            Some(d) => {
                assert(deliveries(a) + deliveries(b.drop_last()).push(d)
                    =~= (deliveries(a) + deliveries(b.drop_last())).push(d));
            },
            None => {},
        }
    }
}

/// A surface whose query failed is skipped: it receives nothing, and the
/// messages for every other surface of the same event are unchanged.
pub proof fn lemma_failed_probe_skipped(
    before: Seq<SurfaceProbe>,
    failed: SurfaceProbe,
    after: Seq<SurfaceProbe>,
)
    requires
        failed.geometry is None,
    ensures
        deliveries(before + seq![failed] + after) == deliveries(before + after),
{
    lemma_deliveries_append(before + seq![failed], after);
    lemma_deliveries_append(before, seq![failed]);
    lemma_deliveries_append(before, after);
    assert(seq![failed].drop_last() =~= Seq::<SurfaceProbe>::empty());
    assert(seq![failed].last() == failed);
    assert(deliveries(Seq::<SurfaceProbe>::empty()) =~= Seq::<Delivery>::empty());
    assert(deliveries(seq![failed]) =~= Seq::<Delivery>::empty());
    assert(deliveries(before) + deliveries(seq![failed]) =~= deliveries(before));
}

/// Every surface whose translated point lies inside its client rectangle
/// receives its message, whatever the other surfaces' rectangles are, so
/// overlapping surfaces all receive one.
pub proof fn lemma_every_hit_delivered(probes: Seq<SurfaceProbe>, i: int)
    requires
        0 <= i < probes.len(),
        delivery_for(probes[i]) is Some,
    ensures
        deliveries(probes).contains(delivery_for(probes[i]).unwrap()),
    decreases probes.len(),
{
    let init = probes.drop_last();
    if i == probes.len() - 1 {
        let d = delivery_for(probes[i]).unwrap();
        assert(deliveries(probes) == deliveries(init).push(d));
        assert(deliveries(probes)[deliveries(init).len() as int] == d);
    } else {
        lemma_every_hit_delivered(init, i);
        assert(init[i] == probes[i]);
        let d = delivery_for(probes[i]).unwrap();
        let k = choose|k: int| 0 <= k < deliveries(init).len() && deliveries(init)[k] == d;
        match delivery_for(probes.last()) {
            Some(e) => {
                assert(deliveries(probes)[k] == d);
            },
            None => {},
        }
    }
}

/// Every message goes to a surface that was probed.
pub proof fn lemma_delivery_targets_probed(probes: Seq<SurfaceProbe>, k: int)
    requires
        0 <= k < deliveries(probes).len(),
    ensures
        exists|j: int| 0 <= j < probes.len() && probes[j].surface == deliveries(probes)[k].surface,
    decreases probes.len(),
{
    let init = probes.drop_last();
    if k < deliveries(init).len() {
        lemma_delivery_targets_probed(init, k);
        let j = choose|j: int| 0 <= j < init.len() && init[j].surface == deliveries(init)[k].surface;
        match delivery_for(probes.last()) {
            Some(e) => {},
            None => {},
        }
        assert(probes[j] == init[j]);
    } else {
        assert(probes[probes.len() - 1].surface == deliveries(probes)[k].surface);
    }
}

/// The surfaces of a sequence of probes.
pub open spec fn probed_surfaces(probes: Seq<SurfaceProbe>) -> Seq<SurfaceHandle> {
    probes.map_values(|p: SurfaceProbe| p.surface)
}

/// The surfaces of a sequence of messages.
pub open spec fn delivered_surfaces(ds: Seq<Delivery>) -> Seq<SurfaceHandle> {
    ds.map_values(|d: Delivery| d.surface)
}

/// Where each surface is probed once, each surface receives at most one
/// message per pointer move.
pub proof fn lemma_one_delivery_per_surface(probes: Seq<SurfaceProbe>)
    requires
        probed_surfaces(probes).no_duplicates(),
    ensures
        delivered_surfaces(deliveries(probes)).no_duplicates(),
    decreases probes.len(),
{
    if probes.len() > 0 {
        let init = probes.drop_last();
        assert(probed_surfaces(init) =~= probed_surfaces(probes).drop_last());
        assert forall|a: int, b: int|
            0 <= a < b < probed_surfaces(init).len() implies probed_surfaces(init)[a]
                != probed_surfaces(init)[b] by {
            assert(probed_surfaces(init)[a] == probed_surfaces(probes)[a]);
            assert(probed_surfaces(init)[b] == probed_surfaces(probes)[b]);
        }
        lemma_one_delivery_per_surface(init);
        match delivery_for(probes.last()) {
            Some(d) => {
                let di = deliveries(init);
                let n = di.len();
                assert(delivered_surfaces(di.push(d)) =~= delivered_surfaces(di).push(d.surface));
                assert forall|a: int, b: int|
                    0 <= a < b < n + 1 implies delivered_surfaces(di.push(d))[a]
                        != delivered_surfaces(di.push(d))[b] by {
                    if b == n {
                        lemma_delivery_targets_probed(init, a);
                        let j = choose|j: int| 0 <= j < init.len() && init[j].surface == di[a].surface;
                        assert(probed_surfaces(probes)[j] == init[j].surface);
                        assert(probed_surfaces(probes)[probes.len() - 1] == d.surface);
                    } else {
                        assert(delivered_surfaces(di)[a] != delivered_surfaces(di)[b]);
                    }
                }
            },
            None => {},
        }
    }
}

} // verus!
