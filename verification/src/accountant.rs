//! The storage accountant: reconciles freshly computed per-device totals
//! into the two exported counter series on every cycle.

use vstd::prelude::*;
use crate::aggregate::{agg_lwts, agg_points, aggregate_files, clip_u64};
use crate::devices::StorageDevice;
use crate::lines::classify_spec;
use crate::metrics::{
    get_series, label_key, new_series, register_series, series_label_names, series_name,
    series_registered, series_values, set_series, CounterSeries,
};

verus! {

/// One device's part of a filesystem snapshot: the device identity and, per
/// record file listed under `rec/<user>/<device>/`, the file's lines, or
/// `None` where the file could not be opened or read.
pub struct DeviceSnapshot {
    pub device: StorageDevice,
    pub rec_files: Vec<Option<Vec<String>>>,
}

/// The child-series key a device's labels land on.
pub open spec fn device_key(d: StorageDevice) -> Seq<u8> {
    label_key(d.user_name@, d.device_name@)
}

/// The points map after one cycle over `snap`: each device's series is set
/// to its freshly computed total, later snapshot entries winning; series
/// whose key the snapshot does not touch keep their old value.
pub open spec fn publish_points(
    m: Map<Seq<u8>, u64>,
    snap: Seq<DeviceSnapshot>,
) -> Map<Seq<u8>, u64>
    decreases snap.len(),
{
    if snap.len() == 0 {
        m
    } else {
        publish_points(m, snap.drop_last()).insert(
            device_key(snap.last().device),
            clip_u64(agg_points(snap.last().rec_files@)),
        )
    }
}

/// The LWTs map after one cycle over `snap`; as `publish_points`.
pub open spec fn publish_lwts(
    m: Map<Seq<u8>, u64>,
    snap: Seq<DeviceSnapshot>,
) -> Map<Seq<u8>, u64>
    decreases snap.len(),
{
    if snap.len() == 0 {
        m
    } else {
        publish_lwts(m, snap.drop_last()).insert(
            device_key(snap.last().device),
            clip_u64(agg_lwts(snap.last().rec_files@)),
        )
    }
}

/// The series keys a snapshot touches.
pub open spec fn snap_keys(snap: Seq<DeviceSnapshot>) -> Set<Seq<u8>> {
    Set::new(|k: Seq<u8>| exists|i: int| 0 <= i < snap.len() && device_key(snap[i].device) == k)
}

/// A cycle leaves a series whose key it does not touch exactly as it was.
pub proof fn lemma_publish_frame(m: Map<Seq<u8>, u64>, snap: Seq<DeviceSnapshot>, k: Seq<u8>)
    requires
        !snap_keys(snap).contains(k),
    ensures
        publish_points(m, snap).dom().contains(k) == m.dom().contains(k),
        m.dom().contains(k) ==> publish_points(m, snap)[k] == m[k],
        publish_lwts(m, snap).dom().contains(k) == m.dom().contains(k),
        m.dom().contains(k) ==> publish_lwts(m, snap)[k] == m[k],
    decreases snap.len(),
{
    if snap.len() > 0 {
        assert(!snap_keys(snap.drop_last()).contains(k)) by {
            if snap_keys(snap.drop_last()).contains(k) {
                let i = choose|i: int|
                    0 <= i < snap.drop_last().len() && device_key(snap.drop_last()[i].device) == k;
                assert(device_key(snap[i].device) == k);
                assert(snap_keys(snap).contains(k));
            }
        }
        assert(device_key(snap.last().device) != k) by {
            assert(device_key(snap[snap.len() - 1].device) == device_key(snap.last().device));
        }
        lemma_publish_frame(m, snap.drop_last(), k);
    }
}

/// The value a cycle publishes under a key it touches does not depend on
/// what the series held before the cycle.
pub proof fn lemma_publish_overwrites(
    m1: Map<Seq<u8>, u64>,
    m2: Map<Seq<u8>, u64>,
    snap: Seq<DeviceSnapshot>,
    k: Seq<u8>,
)
    requires
        snap_keys(snap).contains(k),
    ensures
        publish_points(m1, snap).dom().contains(k),
        publish_points(m2, snap).dom().contains(k),
        publish_points(m1, snap)[k] == publish_points(m2, snap)[k],
        publish_lwts(m1, snap).dom().contains(k),
        publish_lwts(m2, snap).dom().contains(k),
        publish_lwts(m1, snap)[k] == publish_lwts(m2, snap)[k],
    decreases snap.len(),
{
    let i = choose|i: int| 0 <= i < snap.len() && device_key(snap[i].device) == k;
    if device_key(snap.last().device) != k {
        assert(i < snap.len() - 1);
        assert(device_key(snap.drop_last()[i].device) == k);
        assert(snap_keys(snap.drop_last()).contains(k));
        lemma_publish_overwrites(m1, m2, snap.drop_last(), k);
    }
}

/// Idempotence: a second cycle over an unchanged snapshot publishes exactly
/// the values the first one did.
pub proof fn lemma_update_idempotent(m: Map<Seq<u8>, u64>, snap: Seq<DeviceSnapshot>)
    ensures
        publish_points(publish_points(m, snap), snap) == publish_points(m, snap),
        publish_lwts(publish_lwts(m, snap), snap) == publish_lwts(m, snap),
{
    let p1 = publish_points(m, snap);
    let p2 = publish_points(p1, snap);
    assert forall|k: Seq<u8>| #[trigger] p2.dom().contains(k) implies p1.dom().contains(k) && p2[k]
        == p1[k] by {
        if snap_keys(snap).contains(k) {
            lemma_publish_overwrites(p1, m, snap, k);
        } else {
            lemma_publish_frame(p1, snap, k);
        }
    }
    assert forall|k: Seq<u8>| #[trigger] p1.dom().contains(k) implies p2.dom().contains(k) by {
        if snap_keys(snap).contains(k) {
            lemma_publish_overwrites(p1, m, snap, k);
        } else {
            lemma_publish_frame(p1, snap, k);
        }
    }
    assert(p2 =~= p1);
    let l1 = publish_lwts(m, snap);
    let l2 = publish_lwts(l1, snap);
    assert forall|k: Seq<u8>| #[trigger] l2.dom().contains(k) implies l1.dom().contains(k) && l2[k]
        == l1[k] by {
        if snap_keys(snap).contains(k) {
            lemma_publish_overwrites(l1, m, snap, k);
        } else {
            lemma_publish_frame(l1, snap, k);
        }
    }
    assert forall|k: Seq<u8>| #[trigger] l1.dom().contains(k) implies l2.dom().contains(k) by {
        if snap_keys(snap).contains(k) {
            lemma_publish_overwrites(l1, m, snap, k);
        } else {
            lemma_publish_frame(l1, snap, k);
        }
    }
    assert(l2 =~= l1);
}

/// Overwrite semantics: after a cycle, the series of a device whose key's
/// last snapshot entry is at `i` holds exactly the totals computed from
/// that entry's record files — whatever the series held before, so a total
/// that shrank between cycles is published as the smaller value.
pub proof fn lemma_publish_value(m: Map<Seq<u8>, u64>, snap: Seq<DeviceSnapshot>, i: int)
    requires
        0 <= i < snap.len(),
        forall|j: int| i < j < snap.len() ==> device_key(snap[j].device) != device_key(
            snap[i].device,
        ),
    ensures
        publish_points(m, snap).dom().contains(device_key(snap[i].device)),
        publish_points(m, snap)[device_key(snap[i].device)] == clip_u64(
            agg_points(snap[i].rec_files@),
        ),
        publish_lwts(m, snap).dom().contains(device_key(snap[i].device)),
        publish_lwts(m, snap)[device_key(snap[i].device)] == clip_u64(
            agg_lwts(snap[i].rec_files@),
        ),
    decreases snap.len(),
{
    if i == snap.len() - 1 {
        assert(snap.last() == snap[i]);
    } else {
        assert(device_key(snap.last().device) != device_key(snap[i].device));
        assert(snap.drop_last()[i] == snap[i]);
        lemma_publish_value(m, snap.drop_last(), i);
    }
}

/// Monotonicity under append: when the only change between two cycles is
/// that point lines were appended to one readable record file of one device
/// (and the new point total still fits the series), that device's published
/// points total rises by exactly the number of appended lines, and its
/// published LWT total stays the same — whatever either series held before.
pub proof fn lemma_append_raises_published(
    m1: Map<Seq<u8>, u64>,
    m2: Map<Seq<u8>, u64>,
    snap1: Seq<DeviceSnapshot>,
    snap2: Seq<DeviceSnapshot>,
    di: int,
    j: int,
    after: Vec<String>,
    appended: Seq<String>,
)
    requires
        0 <= di < snap1.len(),
        snap2.len() == snap1.len(),
        forall|i: int| 0 <= i < snap1.len() && i != di ==> snap2[i] == snap1[i],
        snap2[di].device == snap1[di].device,
        forall|jj: int| di < jj < snap1.len() ==> device_key(snap1[jj].device) != device_key(
            snap1[di].device,
        ),
        0 <= j < snap1[di].rec_files@.len(),
        snap1[di].rec_files@[j] is Some,
        after@ == snap1[di].rec_files@[j]->0@ + appended,
        snap2[di].rec_files@ == snap1[di].rec_files@.update(j, Some(after)),
        forall|i: int| 0 <= i < appended.len() ==> classify_spec(appended[i]@) is Point,
        agg_points(snap1[di].rec_files@) + appended.len() <= u64::MAX,
    ensures
        publish_points(m2, snap2)[device_key(snap1[di].device)] == publish_points(m1, snap1)[
            device_key(snap1[di].device)
        ] + appended.len(),
        publish_lwts(m2, snap2)[device_key(snap1[di].device)] == publish_lwts(m1, snap1)[
            device_key(snap1[di].device)
        ],
{
    crate::aggregate::lemma_monotonic_append(snap1[di].rec_files@, j, after, appended);
    crate::aggregate::lemma_agg_nonneg(snap1[di].rec_files@);
    lemma_publish_value(m1, snap1, di);
    assert forall|jj: int| di < jj < snap2.len() implies device_key(snap2[jj].device)
        != device_key(snap2[di].device) by {
        assert(snap2[jj] == snap1[jj]);
    }
    lemma_publish_value(m2, snap2, di);
    assert(device_key(snap2[di].device) == device_key(snap1[di].device));
}

/// Publishes per-device totals into the two exported counter series.
pub struct StorageAccountant {
    pub m_points_total: CounterSeries,
    pub m_lwts_total: CounterSeries,
}

impl StorageAccountant {
    /// The exported points series, keyed by concatenated label bytes.
    pub open spec fn points_series(&self) -> Map<Seq<u8>, u64> {
        series_values(self.m_points_total)
    }

    /// The exported LWTs series, keyed by concatenated label bytes.
    pub open spec fn lwts_series(&self) -> Map<Seq<u8>, u64> {
        series_values(self.m_lwts_total)
    }

    /// Both series families carry their exported identity: their metric
    /// names, the label names `user` and `device`, and acceptance by the
    /// process-wide registry a pull exporter serves.
    pub open spec fn well_formed(&self) -> bool {
        &&& series_name(self.m_points_total) == "owntracks_recorder_points_total"@
        &&& series_name(self.m_lwts_total) == "owntracks_recorder_lwts_total"@
        &&& series_label_names(self.m_points_total) == seq!["user"@, "device"@]
        &&& series_label_names(self.m_lwts_total) == seq!["user"@, "device"@]
        &&& series_registered(self.m_points_total)
        &&& series_registered(self.m_lwts_total)
    }

    /// Creates and registers the two counter series families,
    /// `owntracks_recorder_points_total` and `owntracks_recorder_lwts_total`,
    /// each labeled by `user` and `device`. `None` when the metrics library
    /// rejects a creation or the process-wide registry refuses a
    /// registration (a name collision with an already registered
    /// collector); on success both families are registered and both series
    /// maps start empty.
    pub fn new() -> (r: Option<StorageAccountant>)
        ensures
            r matches Some(a) ==> a.points_series() == Map::<Seq<u8>, u64>::empty()
                && a.lwts_series() == Map::<Seq<u8>, u64>::empty() && a.well_formed(),
    {
        let points = match new_series(
            "owntracks_recorder_points_total",
            "Total number of points recorded so far",
        ) {
            Some(s) => s,
            None => {
                return None;
            },
        };
        if !register_series(&points) {
            return None;
        }
        let lwts = match new_series(
            "owntracks_recorder_lwts_total",
            "Total number of LWTs recorded so far",
        ) {
            Some(s) => s,
            None => {
                return None;
            },
        };
        if !register_series(&lwts) {
            return None;
        }
        Some(StorageAccountant { m_points_total: points, m_lwts_total: lwts })
    }

    /// One reconciliation cycle: for every device of the snapshot, in
    /// order, overwrite its two series with the totals computed from the
    /// snapshot's record files. Series whose key the snapshot does not
    /// touch are left as they were, and the families keep their identity.
    pub fn update(&mut self, snapshot: &Vec<DeviceSnapshot>)
        ensures
            final(self).points_series() == publish_points(old(self).points_series(), snapshot@),
            final(self).lwts_series() == publish_lwts(old(self).lwts_series(), snapshot@),
            old(self).well_formed() ==> final(self).well_formed(),
    {
        let mut i: usize = 0;
        proof {
            assert(snapshot@.take(0) =~= Seq::<DeviceSnapshot>::empty());
        }
        while i < snapshot.len()
            invariant
                i <= snapshot.len(),
                self.points_series() == publish_points(
                    old(self).points_series(),
                    snapshot@.take(i as int),
                ),
                self.lwts_series() == publish_lwts(
                    old(self).lwts_series(),
                    snapshot@.take(i as int),
                ),
                old(self).well_formed() ==> self.well_formed(),
            decreases snapshot.len() - i,
        {
            let total = aggregate_files(&snapshot[i].rec_files);
            set_series(
                &mut self.m_points_total,
                snapshot[i].device.user_name.as_str(),
                snapshot[i].device.device_name.as_str(),
                total.points_count_total,
            );
            set_series(
                &mut self.m_lwts_total,
                snapshot[i].device.user_name.as_str(),
                snapshot[i].device.device_name.as_str(),
                total.lwts_count_total,
            );
            proof {
                assert(snapshot@.take(i + 1).drop_last() =~= snapshot@.take(i as int));
                assert(snapshot@.take(i + 1).last() == snapshot@[i as int]);
            }
            i = i + 1;
        }
        proof {
            assert(snapshot@.take(snapshot@.len() as int) =~= snapshot@);
        }
    }

    /// The current published points total under this device's series key:
    /// zero where the key has no series yet (asking creates it at zero).
    pub fn points_total(&mut self, user: &str, device: &str) -> (r: u64)
        ensures
            r == (if old(self).points_series().dom().contains(label_key(user@, device@)) {
                old(self).points_series()[label_key(user@, device@)]
            } else {
                0u64
            }),
            final(self).points_series() == old(self).points_series().insert(
                label_key(user@, device@),
                r,
            ),
            final(self).lwts_series() == old(self).lwts_series(),
            old(self).well_formed() ==> final(self).well_formed(),
    {
        get_series(&mut self.m_points_total, user, device)
    }

    /// The current published LWTs total under this device's series key; as
    /// `points_total`.
    pub fn lwts_total(&mut self, user: &str, device: &str) -> (r: u64)
        ensures
            r == (if old(self).lwts_series().dom().contains(label_key(user@, device@)) {
                old(self).lwts_series()[label_key(user@, device@)]
            } else {
                0u64
            }),
            final(self).lwts_series() == old(self).lwts_series().insert(
                label_key(user@, device@),
                r,
            ),
            final(self).points_series() == old(self).points_series(),
            old(self).well_formed() ==> final(self).well_formed(),
    {
        get_series(&mut self.m_lwts_total, user, device)
    }
}

} // verus!
