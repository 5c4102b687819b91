//! The synchronizer: one run over a fetched manifest, driven step by
//! step by a caller that performs the actual network and filesystem
//! work. The run validates each asset's path before its fetch is ever
//! ordered, verifies downloaded bytes against the declared checksum, and
//! accounts progress by declared sizes. The first failure ends the run.

use vstd::prelude::*;
use crate::digest::{
    hex_digest_matches, hex_of, sha256, sha256_of, spec_digest_matches, spec_hex_of,
    spec_strip_tag, strip_tag,
};
use crate::json::{parse_manifest, spec_parse_manifest};
use crate::manifest::{
    AssetManifest, AssetModel, lemma_size_sum_take_le, lemma_size_sum_take_succ,
    lemma_size_sum_take_mono, spec_size_sum,
};
use crate::path_check::{spec_path_ok, validate_path};
use crate::progress::{
    ProgressEvent, spec_asset_event, spec_announce_event, spec_done_event, spec_initial_event,
};
use crate::text::{spec_dec, u64_to_string};

verus! {

/// Why a synchronization run stopped. The first failure aborts the whole
/// run; the caller receives exactly one of these.
#[derive(Debug)]
pub enum SyncError {
    /// Transport failure or non-success status while fetching the manifest.
    ManifestFetchFailed { url: String, cause: String },
    /// The manifest body is not valid per the wire format.
    ManifestParseFailed { url: String, cause: String },
    /// Directory or file creation or other I/O failure.
    Filesystem { path: String, cause: String },
    /// A declared asset path would resolve outside the destination root.
    InvalidPath { path: String },
    /// Transport failure or non-success status while downloading an asset.
    TransferFailed { url: String, cause: String },
    /// The computed digest does not match the declared one.
    ChecksumMismatch { path: String, expected: String, actual: String },
}

/// True when an HTTP status code counts as success.
pub open spec fn spec_status_success(status: u16) -> bool {
    200 <= status < 300
}

/// Whether this asset's declared checksum accepts the downloaded bytes.
pub open spec fn spec_accepts(a: AssetModel, data: Seq<u8>) -> bool {
    match a.checksum {
        Some(c) => spec_digest_matches(sha256_of(data), c),
        None => true,
    }
}

/// The destination tree that one successful run directs, as a map from
/// each asset's path to the bytes written there: assets are written in
/// manifest order, and a later asset replaces an earlier one at the same
/// path. `bodies[i]` is what the transfer of asset `i` returned.
pub open spec fn spec_final_contents(assets: Seq<AssetModel>, bodies: Seq<Seq<u8>>) -> Map<
    Seq<char>,
    Seq<u8>,
>
    decreases assets.len(),
{
    if assets.len() == 0 {
        Map::empty()
    } else {
        spec_final_contents(assets.drop_last(), bodies).insert(
            assets.last().path,
            bodies[assets.len() - 1],
        )
    }
}

/// Repeating a run is idempotent on the library's side: every decision —
/// which fetches are ordered, which bodies are accepted, what events are
/// emitted, and what the destination tree is to hold — is a function of
/// the manifest and the downloaded bodies alone, so an unchanged
/// manifest with unchanged bodies directs identical final contents both
/// times. The filesystem half is the driver's: each ordered write must
/// replace the file (open with truncation).
pub proof fn lemma_rerun_directs_same_contents(
    m1: crate::manifest::ManifestModel,
    bodies1: Seq<Seq<u8>>,
    m2: crate::manifest::ManifestModel,
    bodies2: Seq<Seq<u8>>,
)
    requires
        m1 == m2,
        bodies1 == bodies2,
    ensures
        spec_final_contents(m1.assets, bodies1) == spec_final_contents(m2.assets, bodies2),
        crate::progress::spec_run_events(m1) == crate::progress::spec_run_events(m2),
{
}

/// What a run leaves at a path is the body of the last asset naming it:
/// a later write replaces an earlier one, nothing accumulates.
pub proof fn lemma_last_write_wins(assets: Seq<AssetModel>, bodies: Seq<Seq<u8>>, i: int)
    requires
        0 <= i < assets.len(),
        forall|j: int| i < j < assets.len() ==> assets[j].path != assets[i].path,
    ensures
        spec_final_contents(assets, bodies).contains_key(assets[i].path),
        spec_final_contents(assets, bodies)[assets[i].path] == bodies[i],
    decreases assets.len(),
{
    if i < assets.len() - 1 {
        lemma_last_write_wins(assets.drop_last(), bodies, i);
    }
}

/// The next thing a run needs from its driver.
pub enum SyncStep {
    /// Download this asset's bytes to the validated relative path, then
    /// hand the bytes back to the run.
    Fetch { index: usize, url: String, path: String, event: ProgressEvent },
    /// Nothing left; the run is complete.
    Done { event: ProgressEvent },
}

/// One synchronization run over a fetched manifest.
pub struct SyncRun {
    pub manifest: AssetManifest,
    pub total: u64,
    pub downloaded: u64,
    pub next_index: usize,
}

impl SyncRun {
    /// Well-formedness: the total is the sum of all declared sizes, it
    /// fits in 64 bits, and the bytes accounted so far are the sum over
    /// the completed prefix of assets.
    pub open spec fn wf(self) -> bool {
        &&& self.next_index <= self.manifest@.assets.len()
        &&& spec_size_sum(self.manifest@.assets) <= u64::MAX
        &&& self.total == spec_size_sum(self.manifest@.assets)
        &&& self.downloaded == spec_size_sum(self.manifest@.assets.take(self.next_index as int))
    }

    /// Builds a run for this manifest; refused exactly when the declared
    /// sizes do not sum to a 64-bit total.
    pub fn try_new(manifest: AssetManifest) -> (r: Option<SyncRun>)
        ensures
            r is Some <==> spec_size_sum(manifest@.assets) <= u64::MAX,
            r matches Some(run) ==> run.wf() && run.manifest == manifest && run.next_index == 0
                && run.downloaded == 0 && run.total == spec_size_sum(manifest@.assets),
    {
        let mut total: u64 = 0;
        let mut i: usize = 0;
        let n = manifest.assets.len();
        proof {
            assert(manifest@.assets.take(0) =~= Seq::<AssetModel>::empty());
        }
        while i < n
            invariant
                n == manifest@.assets.len(),
                0 <= i <= n,
                total == spec_size_sum(manifest@.assets.take(i as int)),
            decreases n - i,
        {
            let sz = manifest.assets[i].size;
            proof {
                lemma_size_sum_take_succ(manifest@.assets, i as int);
            }
            total = match total.checked_add(sz) {
                Some(t) => t,
                None => {
                    proof {
                        lemma_size_sum_take_le(manifest@.assets, i + 1);
                    }
                    return None;
                },
            };
            i += 1;
        }
        proof {
            assert(manifest@.assets.take(n as int) =~= manifest@.assets);
        }
        Some(SyncRun { manifest, total, downloaded: 0, next_index: 0 })
    }

    /// The first event of every run.
    pub fn initial_event() -> (e: ProgressEvent)
        ensures
            e@ == spec_initial_event(),
    {
        ProgressEvent {
            bytes_done: 0,
            bytes_total: 0,
            percentage: 0,
            status_message: String::from_str("Fetching asset manifest..."),
        }
    }

    /// The event announcing asset count and total size.
    pub fn announce_event(&self) -> (e: ProgressEvent)
        requires
            self.wf(),
        ensures
            e@ == spec_announce_event(self.manifest@),
    {
        let count = self.manifest.assets.len();
        let mut msg = String::from_str("Downloading ");
        let num = u64_to_string(count as u64);
        msg.append(num.as_str());
        msg.append(" assets...");
        ProgressEvent {
            bytes_done: 0,
            bytes_total: self.total,
            percentage: 0,
            status_message: msg,
        }
    }

    fn asset_event(&self) -> (e: ProgressEvent)
        requires
            self.wf(),
            self.next_index < self.manifest@.assets.len(),
        ensures
            e@ == spec_asset_event(self.manifest@, self.next_index as int),
    {
        let count = self.manifest.assets.len();
        let pct: u64 = if self.total == 0 {
            0
        } else {
            proof {
                lemma_size_sum_take_le(self.manifest@.assets, self.next_index as int);
                lemma_size_sum_take_mono(self.manifest@.assets, 0, self.next_index as int);
                assert(self.manifest@.assets.take(0) =~= Seq::<AssetModel>::empty());
                assert((self.downloaded as int * 100) / (self.total as int) <= 100)
                    by (nonlinear_arith)
                    requires
                        0 < self.total,
                        0 <= self.downloaded <= self.total,
                ;
            }
            (((self.downloaded as u128) * 100) / (self.total as u128)) as u64
        };
        let mut msg = String::from_str("Downloading ");
        msg.append(self.manifest.assets[self.next_index].path.as_str());
        msg.append(" (");
        let num = u64_to_string((self.next_index as u64) + 1);
        msg.append(num.as_str());
        msg.append("/");
        let den = u64_to_string(count as u64);
        msg.append(den.as_str());
        msg.append(")...");
        ProgressEvent {
            bytes_done: self.downloaded,
            bytes_total: self.total,
            percentage: pct,
            status_message: msg,
        }
    }

    fn done_event(&self) -> (e: ProgressEvent)
        requires
            self.wf(),
            self.next_index == self.manifest@.assets.len(),
        ensures
            e@ == spec_done_event(self.manifest@),
    {
        proof {
            assert(self.manifest@.assets.take(self.next_index as int) =~= self.manifest@.assets);
        }
        ProgressEvent {
            bytes_done: self.total,
            bytes_total: self.total,
            percentage: 100,
            status_message: String::from_str("Download complete!"),
        }
    }

    /// What to do next: the final event when every asset is done; else,
    /// for the next asset in manifest order, either its fetch order with
    /// the per-asset event, or the path-escape refusal. No fetch is ever
    /// ordered for an asset whose path escapes the destination root.
    pub fn next_step(&self) -> (r: Result<SyncStep, SyncError>)
        requires
            self.wf(),
        ensures
            self.next_index == self.manifest@.assets.len() ==> (r matches Ok(
                SyncStep::Done { event },
            ) && event@ == spec_done_event(self.manifest@)),
            self.next_index < self.manifest@.assets.len() && spec_path_ok(
                self.manifest@.assets[self.next_index as int].path,
            ) ==> (r matches Ok(SyncStep::Fetch { index, url, path, event }) && index
                == self.next_index && url@ == self.manifest@.assets[self.next_index as int].url
                && path@ == self.manifest@.assets[self.next_index as int].path && event@
                == spec_asset_event(self.manifest@, self.next_index as int)),
            self.next_index < self.manifest@.assets.len() && !spec_path_ok(
                self.manifest@.assets[self.next_index as int].path,
            ) ==> (r matches Err(e) && e matches SyncError::InvalidPath { path } && path@
                == self.manifest@.assets[self.next_index as int].path),
    {
        let n = self.manifest.assets.len();
        if self.next_index >= n {
            return Ok(SyncStep::Done { event: self.done_event() });
        }
        if !validate_path(self.manifest.assets[self.next_index].path.as_str()) {
            return Err(
                SyncError::InvalidPath { path: self.manifest.assets[self.next_index].path.clone() },
            );
        }
        let ev = self.asset_event();
        Ok(
            SyncStep::Fetch {
                index: self.next_index,
                url: self.manifest.assets[self.next_index].url.clone(),
                path: self.manifest.assets[self.next_index].path.clone(),
                event: ev,
            },
        )
    }

    /// Accounts one downloaded asset: verifies the declared checksum (if
    /// any) against the bytes, then advances the run. On a mismatch the
    /// run is unchanged and the error names the asset's path, the cleaned
    /// expected digest, and the computed one.
    pub fn complete_asset(&mut self, data: &Vec<u8>) -> (r: Result<(), SyncError>)
        requires
            old(self).wf(),
            old(self).next_index < old(self).manifest@.assets.len(),
        ensures
            final(self).wf(),
            r is Ok <==> spec_accepts(
                old(self).manifest@.assets[old(self).next_index as int],
                data@,
            ),
            r is Ok ==> final(self).manifest == old(self).manifest && final(self).total == old(
                self,
            ).total && final(self).next_index == old(self).next_index + 1 && final(self).downloaded
                == old(self).downloaded + old(self).manifest@.assets[old(
                self,
            ).next_index as int].size,
            r matches Err(e) ==> *final(self) == *old(self) && (e
                matches SyncError::ChecksumMismatch { path, expected, actual } && path@ == old(
                self,
            ).manifest@.assets[old(self).next_index as int].path && (old(
                self,
            ).manifest@.assets[old(self).next_index as int].checksum matches Some(c) && expected@
                == spec_strip_tag(c) && actual@ == spec_hex_of(sha256_of(data@)))),
    {
        let i = self.next_index;
        if self.manifest.assets[i].checksum.is_some() {
            let digest = sha256(data.as_slice());
            let ok = match &self.manifest.assets[i].checksum {
                Some(c) => hex_digest_matches(&digest, c.as_str()),
                None => false,
            };
            if !ok {
                let expected = match &self.manifest.assets[i].checksum {
                    Some(c) => strip_tag(c.as_str()).to_owned(),
                    None => String::new(),
                };
                let actual = hex_of(&digest);
                let path = self.manifest.assets[i].path.clone();
                return Err(SyncError::ChecksumMismatch { path, expected, actual });
            }
        }
        proof {
            lemma_size_sum_take_succ(self.manifest@.assets, i as int);
            lemma_size_sum_take_le(self.manifest@.assets, i + 1);
        }
        let count = self.manifest.assets.len();
        proof {
            assert(i < count);
        }
        self.downloaded = self.downloaded + self.manifest.assets[i].size;
        self.next_index = i + 1;
        Ok(())
    }
}

/// Decides the outcome of the manifest transport: a non-success status
/// refuses the fetch, a body that does not parse refuses the manifest,
/// and otherwise the parsed manifest is returned.
pub fn handle_manifest_response(url: &str, status: u16, body: &str) -> (r: Result<
    AssetManifest,
    SyncError,
>)
    ensures
        r is Ok <==> spec_status_success(status) && spec_parse_manifest(body@) is Some,
        r matches Ok(m) ==> Some(m@) == spec_parse_manifest(body@),
        !spec_status_success(status) ==> (r matches Err(e) && e
            matches SyncError::ManifestFetchFailed { url: u, cause } && u@ == url@ && cause@
            == "HTTP "@ + spec_dec(status as nat)),
        spec_status_success(status) && spec_parse_manifest(body@) is None ==> (r matches Err(e)
            && e matches SyncError::ManifestParseFailed { url: u, cause } && u@ == url@ && cause@
            == "invalid manifest document"@),
{
    if !(200 <= status && status < 300) {
        let mut cause = String::from_str("HTTP ");
        let num = u64_to_string(status as u64);
        cause.append(num.as_str());
        return Err(SyncError::ManifestFetchFailed { url: url.to_owned(), cause });
    }
    match parse_manifest(body) {
        Some(m) => Ok(m),
        None => Err(
            SyncError::ManifestParseFailed {
                url: url.to_owned(),
                cause: String::from_str("invalid manifest document"),
            },
        ),
    }
}

/// Decides the outcome of one asset transfer from its HTTP status.
pub fn check_transfer_status(url: &str, status: u16) -> (r: Result<(), SyncError>)
    ensures
        r is Ok <==> spec_status_success(status),
        r matches Err(e) ==> (e matches SyncError::TransferFailed { url: u, cause } && u@ == url@
            && cause@ == "HTTP "@ + spec_dec(status as nat)),
{
    if 200 <= status && status < 300 {
        Ok(())
    } else {
        let mut cause = String::from_str("HTTP ");
        let num = u64_to_string(status as u64);
        cause.append(num.as_str());
        Err(SyncError::TransferFailed { url: url.to_owned(), cause })
    }
}

} // verus!
