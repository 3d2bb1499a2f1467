//! Decisions of thumbnail upkeep: the size of a thumbnail, the operations
//! that undo an EXIF orientation, and whether a stored thumbnail can be
//! reused.

use vstd::prelude::*;

verus! {

/// The longer side of a thumbnail, in pixels.
pub const MAX_THUMBNAIL_DIMENSION: u32 = 600;

/// The thumbnail size of a `width` x `height` image: the longer side becomes
/// `MAX_THUMBNAIL_DIMENSION` and the other keeps the aspect ratio, rounded
/// down.
pub open spec fn thumbnail_size_spec(width: u32, height: u32) -> (u32, u32) {
    if width > height {
        (MAX_THUMBNAIL_DIMENSION, (MAX_THUMBNAIL_DIMENSION as int * height as int / width as int) as u32)
    } else {
        ((MAX_THUMBNAIL_DIMENSION as int * width as int / height as int) as u32, MAX_THUMBNAIL_DIMENSION)
    }
}

/// The size of the thumbnail of a `width` x `height` image.
pub fn thumbnail_size(width: u32, height: u32) -> (r: (u32, u32))
    requires
        width > 0 || height > 0,
    ensures
        r == thumbnail_size_spec(width, height),
        r.0 <= MAX_THUMBNAIL_DIMENSION && r.1 <= MAX_THUMBNAIL_DIMENSION,
{
    let m = MAX_THUMBNAIL_DIMENSION as u64;
    if width > height {
        let h = m * (height as u64) / (width as u64);
        assert(h <= m) by (nonlinear_arith)
            requires
                h as int == m as int * height as int / width as int,
                height < width,
                m == 600,
        ;
        (MAX_THUMBNAIL_DIMENSION, h as u32)
    } else {
        let w = m * (width as u64) / (height as u64);
        assert(w <= m) by (nonlinear_arith)
            requires
                w as int == m as int * width as int / height as int,
                width <= height,
                height > 0,
                m == 600,
        ;
        (w as u32, MAX_THUMBNAIL_DIMENSION)
    }
}

/// An in-place image operation.
#[derive(PartialEq, Eq, Structural, Clone, Copy, Debug)]
pub enum ImageOp {
    FlipHorizontal,
    FlipVertical,
    Rotate90,
    Rotate180,
    Rotate270,
}

/// The operations, in order, that turn an image stored with EXIF
/// orientation `o` upright; `None` for a value outside 1 to 8.
pub open spec fn orientation_fix(o: u32) -> Option<Seq<ImageOp>> {
    if o == 1 {
        Some(Seq::empty())
    } else if o == 2 {
        Some(seq![ImageOp::FlipHorizontal])
    } else if o == 3 {
        Some(seq![ImageOp::Rotate180])
    } else if o == 4 {
        Some(seq![ImageOp::FlipVertical])
    } else if o == 5 {
        Some(seq![ImageOp::Rotate90, ImageOp::FlipHorizontal])
    } else if o == 6 {
        Some(seq![ImageOp::Rotate90])
    } else if o == 7 {
        Some(seq![ImageOp::Rotate270, ImageOp::FlipHorizontal])
    } else if o == 8 {
        Some(seq![ImageOp::Rotate270])
    } else {
        None
    }
}

/// The operations that undo EXIF orientation `o`; `None` when the value is
/// not supported (the image is then left as it is).
pub fn orientation_ops(o: u32) -> (r: Option<Vec<ImageOp>>)
    ensures
        r is None <==> orientation_fix(o) is None,
        r matches Some(ops) ==> orientation_fix(o) == Some(ops@),
{
    let mut ops: Vec<ImageOp> = Vec::new();
    if o == 1 {
    } else if o == 2 {
        ops.push(ImageOp::FlipHorizontal);
    } else if o == 3 {
        ops.push(ImageOp::Rotate180);
    } else if o == 4 {
        ops.push(ImageOp::FlipVertical);
    } else if o == 5 {
        ops.push(ImageOp::Rotate90);
        ops.push(ImageOp::FlipHorizontal);
    } else if o == 6 {
        ops.push(ImageOp::Rotate90);
    } else if o == 7 {
        ops.push(ImageOp::Rotate270);
        ops.push(ImageOp::FlipHorizontal);
    } else if o == 8 {
        ops.push(ImageOp::Rotate270);
    } else {
        return None;
    }
    assert(orientation_fix(o) == Some(ops@)) by {
        assert(ops@ =~= orientation_fix(o)->Some_0);
    }
    Some(ops)
}

/// What to do to serve a file's thumbnail.
#[derive(PartialEq, Eq, Structural, Clone, Copy, Debug)]
pub enum ThumbnailAction {
    /// The stored thumbnail is on disk: serve it.
    UseStored,
    /// The row exists but its image is gone: delete the row, then generate.
    DeleteRowAndGenerate,
    /// No thumbnail is stored: generate one.
    Generate,
}

/// Decides how to serve a thumbnail from whether the catalog has a row for
/// it and whether that row's image is on disk.
pub fn thumbnail_action(row_exists: bool, on_disk: bool) -> (r: ThumbnailAction)
    ensures
        r == (if !row_exists {
            ThumbnailAction::Generate
        } else if on_disk {
            ThumbnailAction::UseStored
        } else {
            ThumbnailAction::DeleteRowAndGenerate
        }),
{
    if !row_exists {
        ThumbnailAction::Generate
    } else if on_disk {
        ThumbnailAction::UseStored
    } else {
        ThumbnailAction::DeleteRowAndGenerate
    }
}

} // verus!
