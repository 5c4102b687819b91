//! The progress-event model: transient snapshots of bytes transferred
//! versus total, with a status string. A successful run's events are
//! described in full here, and their byte counts are proved to never
//! decrease and to end at exactly the manifest's declared total.

use vstd::prelude::*;
use crate::manifest::{
    AssetModel, ManifestModel, spec_size_sum, lemma_size_sum_nonneg, lemma_size_sum_take_mono,
    lemma_size_sum_take_le,
};
use crate::text::spec_dec;

verus! {

/// Mathematical model of one progress event.
pub ghost struct EventModel {
    pub bytes_done: u64,
    pub bytes_total: u64,
    pub percentage: u64,
    pub status_message: Seq<char>,
}

/// A point-in-time snapshot of bytes transferred versus total, with a
/// human-readable status string.
#[derive(Debug)]
pub struct ProgressEvent {
    pub bytes_done: u64,
    pub bytes_total: u64,
    pub percentage: u64,
    pub status_message: String,
}

impl View for ProgressEvent {
    type V = EventModel;

    open spec fn view(&self) -> EventModel {
        EventModel {
            bytes_done: self.bytes_done,
            bytes_total: self.bytes_total,
            percentage: self.percentage,
            status_message: self.status_message@,
        }
    }
}

/// Whole percentage of `done` out of `total` (zero when total is zero).
pub open spec fn spec_percent(done: u64, total: u64) -> u64 {
    if total == 0 {
        0u64
    } else {
        ((done as int * 100) / (total as int)) as u64
    }
}

/// The event announcing the manifest fetch.
pub open spec fn spec_initial_event() -> EventModel {
    EventModel {
        bytes_done: 0,
        bytes_total: 0,
        percentage: 0,
        status_message: "Fetching asset manifest..."@,
    }
}

/// The event announcing the asset count and total size.
pub open spec fn spec_announce_event(m: ManifestModel) -> EventModel {
    EventModel {
        bytes_done: 0,
        bytes_total: spec_size_sum(m.assets) as u64,
        percentage: 0,
        status_message: "Downloading "@ + spec_dec(m.assets.len()) + " assets..."@,
    }
}

/// The event emitted before asset `i` is transferred.
pub open spec fn spec_asset_event(m: ManifestModel, i: int) -> EventModel {
    EventModel {
        bytes_done: spec_size_sum(m.assets.take(i)) as u64,
        bytes_total: spec_size_sum(m.assets) as u64,
        percentage: spec_percent(
            spec_size_sum(m.assets.take(i)) as u64,
            spec_size_sum(m.assets) as u64,
        ),
        status_message: "Downloading "@ + m.assets[i].path + " ("@ + spec_dec((i + 1) as nat)
            + "/"@ + spec_dec(m.assets.len()) + ")..."@,
    }
}

/// The final event of a successful run.
pub open spec fn spec_done_event(m: ManifestModel) -> EventModel {
    EventModel {
        bytes_done: spec_size_sum(m.assets) as u64,
        bytes_total: spec_size_sum(m.assets) as u64,
        percentage: 100,
        status_message: "Download complete!"@,
    }
}

/// Every progress event of one successful run, in emission order.
pub open spec fn spec_run_events(m: ManifestModel) -> Seq<EventModel> {
    seq![spec_initial_event(), spec_announce_event(m)] + Seq::new(
        m.assets.len(),
        |i: int| spec_asset_event(m, i),
    ) + seq![spec_done_event(m)]
}

/// For a manifest whose declared sizes sum to a representable total, the
/// `bytes_done` counts of a successful run's events never decrease, and
/// the final event carries exactly that total with percentage 100.
pub proof fn lemma_progress_events_monotone(m: ManifestModel)
    requires
        spec_size_sum(m.assets) <= u64::MAX,
    ensures
        forall|i: int, j: int|
            0 <= i <= j < spec_run_events(m).len() ==> spec_run_events(m)[i].bytes_done
                <= spec_run_events(m)[j].bytes_done,
        spec_run_events(m).last().bytes_done == spec_size_sum(m.assets),
        spec_run_events(m).last().percentage == 100,
        forall|k: int| 0 <= k < spec_run_events(m).len() ==> spec_run_events(m)[k].percentage
            <= 100,
{
    let ev = spec_run_events(m);
    let a = m.assets;
    let len = a.len() as int;
    lemma_size_sum_nonneg(a);
    assert(a.take(0) =~= Seq::<AssetModel>::empty());
    assert(ev.len() == len + 3);
    assert forall|k: int| 0 <= k <= len implies 0 <= #[trigger] spec_size_sum(a.take(k))
        <= spec_size_sum(a) by {
        lemma_size_sum_take_mono(a, 0, k);
        lemma_size_sum_take_le(a, k);
    }
    assert(ev.last() == spec_done_event(m));
    assert forall|k: int| 0 <= k < ev.len() implies ev[k].percentage <= 100 by {
        if 2 <= k < len + 2 {
            assert(ev[k] == spec_asset_event(m, k - 2));
            let done = spec_size_sum(a.take(k - 2));
            let total = spec_size_sum(a);
            if total != 0 {
                assert((done * 100) / total <= 100) by (nonlinear_arith)
                    requires
                        0 < total,
                        0 <= done <= total,
                ;
            }
        }
    }
    assert forall|i: int, j: int| 0 <= i <= j < ev.len() implies ev[i].bytes_done
        <= ev[j].bytes_done by {
        if 2 <= j < len + 2 {
            assert(ev[j] == spec_asset_event(m, j - 2));
            if 2 <= i {
                assert(ev[i] == spec_asset_event(m, i - 2));
                lemma_size_sum_take_mono(a, i - 2, j - 2);
            }
        }
        if j == len + 2 {
            assert(ev[j] == spec_done_event(m));
            if 2 <= i < len + 2 {
                assert(ev[i] == spec_asset_event(m, i - 2));
                lemma_size_sum_take_le(a, i - 2);
            }
        }
    }
}

} // verus!
