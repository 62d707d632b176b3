//! The photo lists of the asset and inspection forms: which stored photos a
//! save keeps, which it deletes, and which new files it uploads.
use vstd::prelude::*;

verus! {

broadcast use vstd::seq_lib::group_seq_properties;

/// A photo in an edit form: one already stored (possibly marked for
/// removal), or a picked file not uploaded yet. The file itself stays with
/// the page; the list keeps its place.
#[derive(Clone, Debug)]
pub enum BusinessImage {
    Existing { img_id: u64, url: String, removed: bool },
    Pending { name: String },
}

/// A stored photo to delete from storage after a save.
#[derive(Clone, Debug)]
pub struct StoredImage {
    pub img_id: u64,
    pub public_url: String,
}

/// What a save does with the photo list.
#[derive(Clone, Debug)]
pub struct ImageChanges {
    /// Ids of stored photos that stay, in list order.
    pub kept_ids: Vec<u64>,
    /// Stored photos marked for removal, in list order.
    pub removed: Vec<StoredImage>,
    /// Places in the list of the files to upload, in list order.
    pub pending: Vec<usize>,
}

/// Ids of the stored photos not marked for removal.
pub open spec fn kept_ids(s: Seq<BusinessImage>) -> Seq<u64>
    decreases s.len(),
{
    if s.len() == 0 {
        Seq::empty()
    } else {
        kept_ids(s.drop_last()) + match s.last() {
            BusinessImage::Existing { img_id, removed, .. } => if !removed {
                seq![img_id]
            } else {
                Seq::empty()
            },
            BusinessImage::Pending { .. } => Seq::empty(),
        }
    }
}

/// Id and address of the stored photos marked for removal.
pub open spec fn removed_images(s: Seq<BusinessImage>) -> Seq<(u64, Seq<char>)>
    decreases s.len(),
{
    if s.len() == 0 {
        Seq::empty()
    } else {
        removed_images(s.drop_last()) + match s.last() {
            BusinessImage::Existing { img_id, url, removed } => if removed {
                seq![(img_id, url@)]
            } else {
                Seq::empty()
            },
            BusinessImage::Pending { .. } => Seq::empty(),
        }
    }
}

/// Places of the files still to upload.
pub open spec fn pending_places(s: Seq<BusinessImage>) -> Seq<int>
    decreases s.len(),
{
    if s.len() == 0 {
        Seq::empty()
    } else {
        pending_places(s.drop_last()) + match s.last() {
            BusinessImage::Pending { .. } => seq![s.len() - 1],
            BusinessImage::Existing { .. } => Seq::empty(),
        }
    }
}

/// The removals of a save agree with `removed_images`.
pub open spec fn removed_agree(r: Seq<StoredImage>, s: Seq<(u64, Seq<char>)>) -> bool {
    r.len() == s.len() && forall|i: int|
        0 <= i < r.len() ==> (#[trigger] r[i]).img_id == s[i].0 && r[i].public_url@ == s[i].1
}

/// The upload places of a save agree with `pending_places`.
pub open spec fn places_agree(r: Seq<usize>, s: Seq<int>) -> bool {
    r.len() == s.len() && forall|i: int| 0 <= i < r.len() ==> (#[trigger] r[i]) as int == s[i]
}

/// Splits the photo list of a form into what the save keeps, deletes and
/// uploads.
pub fn image_changes(images: &[BusinessImage]) -> (r: ImageChanges)
    ensures
        r.kept_ids@ == kept_ids(images@),
        removed_agree(r.removed@, removed_images(images@)),
        places_agree(r.pending@, pending_places(images@)),
{
    let mut kept: Vec<u64> = Vec::new();
    let mut removed: Vec<StoredImage> = Vec::new();
    let mut pending: Vec<usize> = Vec::new();
    let mut i: usize = 0;
    while i < images.len()
        invariant
            0 <= i <= images@.len(),
            kept@ == kept_ids(images@.take(i as int)),
            removed_agree(removed@, removed_images(images@.take(i as int))),
            places_agree(pending@, pending_places(images@.take(i as int))),
        decreases images@.len() - i,
    {
        let ghost before = images@.take(i as int);
        let ghost after = images@.take(i + 1);
        assert(after.drop_last() =~= before);
        assert(after.last() == images@[i as int]);
        assert(after.len() - 1 == i);
        match &images[i] {
            BusinessImage::Existing { img_id, url, removed: gone } => {
                if *gone {
                    removed.push(StoredImage { img_id: *img_id, public_url: url.clone() });
                } else {
                    kept.push(*img_id);
                }
            },
            BusinessImage::Pending { .. } => {
                pending.push(i);
            },
        }
        i = i + 1;
    }
    assert(images@.take(images@.len() as int) =~= images@);
    ImageChanges { kept_ids: kept, removed, pending }
}

/// A save accounts for every photo of the list exactly once: it is kept,
/// deleted or uploaded.
pub proof fn lemma_changes_cover_list(s: Seq<BusinessImage>)
    ensures
        kept_ids(s).len() + removed_images(s).len() + pending_places(s).len() == s.len(),
    decreases s.len(),
{
    if s.len() > 0 {
        lemma_changes_cover_list(s.drop_last());
    }
}

} // verus!
