//! Rules of the catalog that are decided before it is touched: whether a
//! directory may become a watched root, and the fixed order of the cascade
//! that deletes a file or a root.

use vstd::prelude::*;
use crate::error::Error;

verus! {

/// One step of a cascading delete.
#[derive(PartialEq, Eq, Structural, Clone, Copy, Debug)]
pub enum CascadeStep {
    /// The file's tag rows.
    FileTags,
    /// The file's failed-encoding row.
    FailedEncodings,
    /// The file's feature vector row.
    FeatureVectors,
    /// The thumbnail image on disk.
    ThumbnailFiles,
    /// The thumbnail row.
    ThumbnailRows,
    /// The file row itself.
    Files,
    /// The watched root row.
    WatchedRoots,
}

/// The order in which a file's dependents and the file are deleted.
pub open spec fn file_cascade() -> Seq<CascadeStep> {
    seq![
        CascadeStep::FileTags,
        CascadeStep::FailedEncodings,
        CascadeStep::FeatureVectors,
        CascadeStep::ThumbnailFiles,
        CascadeStep::ThumbnailRows,
        CascadeStep::Files,
    ]
}

/// The steps that delete files, in their fixed order. Each step is tried
/// even when an earlier one failed.
pub fn file_cascade_steps() -> (r: Vec<CascadeStep>)
    ensures
        r@ == file_cascade(),
{
    let mut r: Vec<CascadeStep> = Vec::new();
    r.push(CascadeStep::FileTags);
    r.push(CascadeStep::FailedEncodings);
    r.push(CascadeStep::FeatureVectors);
    r.push(CascadeStep::ThumbnailFiles);
    r.push(CascadeStep::ThumbnailRows);
    r.push(CascadeStep::Files);
    assert(r@ =~= file_cascade());
    r
}

/// The steps that delete a watched root: the file cascade over the root's
/// files, then the root.
pub fn root_cascade_steps() -> (r: Vec<CascadeStep>)
    ensures
        r@ == file_cascade().push(CascadeStep::WatchedRoots),
{
    let mut r = file_cascade_steps();
    r.push(CascadeStep::WatchedRoots);
    r
}

/// Whether a directory may be registered as a watched root: it must be a
/// directory, and not already registered.
pub fn check_new_root(is_dir: bool, already_watched: bool) -> (r: Result<(), Error>)
    ensures
        !is_dir ==> r == Err::<(), Error>(Error::NotADirectory),
        is_dir && already_watched ==> r == Err::<(), Error>(Error::DirectoryAlreadyExistsInDb),
        r is Ok <==> is_dir && !already_watched,
{
    if !is_dir {
        Err(Error::NotADirectory)
    } else if already_watched {
        Err(Error::DirectoryAlreadyExistsInDb)
    } else {
        Ok(())
    }
}

} // verus!
