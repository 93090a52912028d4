//! What is known of one image file.

use vstd::prelude::*;
use crate::fs::{FileMeta, ReadError};
use crate::path::{FilePath, PathView};

verus! {

/// One image of the open folder.
#[derive(Debug)]
pub struct ImageItem {
    pub path: FilePath,
    pub width: u32,
    pub height: u32,
    pub file_size: u64,
    /// Nanoseconds since the Unix epoch.
    pub modified: i128,
    pub is_favorite: bool,
    /// JPEG bytes.
    pub thumbnail: Option<Vec<u8>>,
}

/// The mathematical counterpart of [`ImageItem`].
#[verifier::ext_equal]
pub struct ItemView {
    pub path: PathView,
    pub width: u32,
    pub height: u32,
    pub file_size: u64,
    pub modified: i128,
    pub is_favorite: bool,
    pub thumbnail: Option<Seq<u8>>,
}

impl View for ImageItem {
    type V = ItemView;

    open spec fn view(&self) -> ItemView {
        ItemView {
            path: self.path@,
            width: self.width,
            height: self.height,
            file_size: self.file_size,
            modified: self.modified,
            is_favorite: self.is_favorite,
            thumbnail: match self.thumbnail {
                Some(bytes) => Some(bytes@),
                None => None,
            },
        }
    }
}

/// A new item for a file: its size in pixels is not known yet, and it is no favorite.
pub open spec fn fresh_item(path: PathView, meta: FileMeta) -> ItemView {
    ItemView {
        path,
        width: 0,
        height: 0,
        file_size: meta.len,
        modified: meta.modified,
        is_favorite: false,
        thumbnail: None,
    }
}

impl ImageItem {
    /// Makes an item for a file from its metadata; fails where the metadata could
    /// not be read.
    pub fn from_path(path: FilePath, meta: Option<FileMeta>) -> (r: Result<Self, ReadError>)
        ensures
            r is Err <==> meta is None,
            r matches Ok(item) ==> item@ == fresh_item(path@, meta->0),
    {
        match meta {
            None => Err(ReadError::Unreadable),
            Some(m) => Ok(
                ImageItem {
                    width: 0,
                    height: 0,
                    file_size: m.len,
                    modified: m.modified,
                    is_favorite: false,
                    thumbnail: None,
                    path,
                },
            ),
        }
    }

    /// The file's name; empty where the path ends in none.
    pub fn filename(&self) -> (r: String)
        ensures
            r@ == match crate::path::name_of(self.path@.parts()) {
                Some(n) => n,
                None => Seq::<char>::empty(),
            },
    {
        match self.path.file_name() {
            Some(n) => n.to_owned(),
            None => {
                let r: String = String::new();
                assert(r@ =~= Seq::<char>::empty());
                r
            },
        }
    }

    /// The file's name without its extension; empty where the path ends in no name.
    pub fn stem(&self) -> (r: String)
        ensures
            r@ == match crate::path::stem_of(self.path@.parts()) {
                Some(n) => n,
                None => Seq::<char>::empty(),
            },
    {
        match self.path.file_stem() {
            Some(n) => n,
            None => {
                let r: String = String::new();
                assert(r@ =~= Seq::<char>::empty());
                r
            },
        }
    }
}

} // verus!
