//! The manifest data model: a versioned, ordered list of assets, each with
//! a source URL, a destination-relative path, a declared size, and an
//! optional checksum string.

use vstd::prelude::*;

verus! {

/// Mathematical model of one asset entry.
pub ghost struct AssetModel {
    pub url: Seq<char>,
    pub path: Seq<char>,
    pub size: u64,
    pub checksum: Option<Seq<char>>,
}

/// Mathematical model of a manifest.
pub ghost struct ManifestModel {
    pub version: Seq<char>,
    pub assets: Seq<AssetModel>,
}

/// One file to be downloaded and verified.
#[derive(Debug)]
pub struct AssetInfo {
    pub url: String,
    pub path: String,
    pub size: u64,
    pub checksum: Option<String>,
}

/// A versioned, ordered description of assets to synchronize.
#[derive(Debug)]
pub struct AssetManifest {
    pub version: String,
    pub assets: Vec<AssetInfo>,
}

impl View for AssetInfo {
    type V = AssetModel;

    open spec fn view(&self) -> AssetModel {
        AssetModel {
            url: self.url@,
            path: self.path@,
            size: self.size,
            checksum: match self.checksum {
                Some(c) => Some(c@),
                None => None,
            },
        }
    }
}

/// The models of the entries of an asset vector, in order.
pub open spec fn assets_view(v: Seq<AssetInfo>) -> Seq<AssetModel> {
    Seq::new(v.len(), |i: int| v[i]@)
}

impl View for AssetManifest {
    type V = ManifestModel;

    open spec fn view(&self) -> ManifestModel {
        ManifestModel { version: self.version@, assets: assets_view(self.assets@) }
    }
}

/// Sum of the declared sizes of `assets`, as an unbounded integer.
pub open spec fn spec_size_sum(assets: Seq<AssetModel>) -> int
    decreases assets.len(),
{
    if assets.len() == 0 {
        0
    } else {
        spec_size_sum(assets.drop_last()) + assets.last().size
    }
}

pub proof fn lemma_size_sum_nonneg(assets: Seq<AssetModel>)
    ensures
        0 <= spec_size_sum(assets),
    decreases assets.len(),
{
    if assets.len() > 0 {
        lemma_size_sum_nonneg(assets.drop_last());
    }
}

/// Taking one more asset adds that asset's size to the prefix sum.
pub proof fn lemma_size_sum_take_succ(assets: Seq<AssetModel>, i: int)
    requires
        0 <= i < assets.len(),
    ensures
        spec_size_sum(assets.take(i + 1)) == spec_size_sum(assets.take(i)) + assets[i].size,
{
    assert(assets.take(i + 1).drop_last() =~= assets.take(i));
    assert(assets.take(i + 1).last() == assets[i]);
}

/// Prefix sums of the declared sizes never decrease.
pub proof fn lemma_size_sum_take_mono(assets: Seq<AssetModel>, i: int, j: int)
    requires
        0 <= i <= j <= assets.len(),
    ensures
        spec_size_sum(assets.take(i)) <= spec_size_sum(assets.take(j)),
    decreases j - i,
{
    if i < j {
        lemma_size_sum_take_succ(assets, i);
        lemma_size_sum_take_mono(assets, i + 1, j);
    }
}

/// A prefix sum never exceeds the sum over all assets.
pub proof fn lemma_size_sum_take_le(assets: Seq<AssetModel>, i: int)
    requires
        0 <= i <= assets.len(),
    ensures
        spec_size_sum(assets.take(i)) <= spec_size_sum(assets),
{
    lemma_size_sum_take_mono(assets, i, assets.len() as int);
    assert(assets.take(assets.len() as int) =~= assets);
}

} // verus!
