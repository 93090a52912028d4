//! Supported formats and folder listings.

use vstd::prelude::*;
use crate::path::{FilePath, PartView, PathView};
use crate::sort::{sort_stably, Ranked};
use crate::text::equals_ignoring_case;

verus! {

/// The image formats that the viewer opens.
pub struct SupportedFormats;

/// What reading a folder or a file's metadata can end in.
#[derive(Debug, Clone, Copy, PartialEq, Eq, Structural)]
pub enum ReadError {
    /// The folder or file could not be read.
    Unreadable,
}

/// Size and modification time of a file.
#[derive(Debug, Clone, Copy, PartialEq, Eq, Structural)]
pub struct FileMeta {
    /// Length in bytes.
    pub len: u64,
    /// Nanoseconds since the Unix epoch.
    pub modified: i128,
}

/// One entry of a folder.
#[derive(Debug)]
pub struct DirEntry {
    pub path: FilePath,
    pub is_file: bool,
    pub is_dir: bool,
    /// The system marks the entry as hidden.
    pub hidden: bool,
    /// None where the metadata could not be read.
    pub meta: Option<FileMeta>,
}

/// The mathematical counterpart of [`DirEntry`].
#[verifier::ext_equal]
pub struct EntryView {
    pub path: PathView,
    pub is_file: bool,
    pub is_dir: bool,
    pub hidden: bool,
    pub meta: Option<FileMeta>,
}

impl View for DirEntry {
    type V = EntryView;

    open spec fn view(&self) -> EntryView {
        EntryView {
            path: self.path@,
            is_file: self.is_file,
            is_dir: self.is_dir,
            hidden: self.hidden,
            meta: self.meta,
        }
    }
}

impl Ranked for DirEntry {
    open spec fn key(v: EntryView) -> Seq<PartView> {
        v.path.parts()
    }

    fn key_at_most(&self, other: &Self) -> (r: bool) {
        self.path.at_most(&other.path)
    }
}

/// What a look at a folder found.
#[derive(Debug)]
pub enum Listing {
    /// There is no folder at that path.
    NotADirectory,
    /// The folder could not be read to its end.
    Unreadable,
    /// The entries, in the order the system gave them.
    Entries(Vec<DirEntry>),
}

/// The mathematical counterpart of [`Listing`].
pub enum ListingView {
    NotADirectory,
    Unreadable,
    Entries(Seq<EntryView>),
}

impl View for Listing {
    type V = ListingView;

    open spec fn view(&self) -> ListingView {
        match self {
            Listing::NotADirectory => ListingView::NotADirectory,
            Listing::Unreadable => ListingView::Unreadable,
            Listing::Entries(v) => ListingView::Entries(crate::sort::views(v@)),
        }
    }
}

impl SupportedFormats {
    /// The extensions of the supported formats, in lower case.
    pub const EXTENSIONS: [&'static str; 12] = [
        "jpg",
        "jpeg",
        "png",
        "bmp",
        "gif",
        "tiff",
        "tif",
        "webp",
        "heic",
        "heif",
        "avif",
        "ico",
    ];

    /// The path has one of the supported extensions, in any case.
    pub open spec fn supports(path: Seq<PartView>) -> bool {
        match crate::path::extension_of(path) {
            Some(e) => exists|i: int|
                0 <= i < 12 && crate::text::same_ignoring_case(
                    e,
                    #[trigger] Self::EXTENSIONS@[i]@,
                ),
            None => false,
        }
    }

    /// Whether the path has one of the supported extensions, in any case.
    pub fn is_supported(path: &FilePath) -> (r: bool)
        ensures
            r == Self::supports(path@.parts()),
    {
        match path.extension() {
            None => false,
            Some(e) => {
                let known: [&'static str; 12] = Self::EXTENSIONS;
                let mut i: usize = 0;
                while i < 12
                    invariant
                        known == Self::EXTENSIONS,
                        crate::path::extension_of(path@.parts()) == Some(e@),
                        i <= 12,
                        forall|j: int|
                            0 <= j < i ==> !crate::text::same_ignoring_case(
                                e@,
                                #[trigger] Self::EXTENSIONS@[j]@,
                            ),
                    decreases 12 - i,
                {
                    assert(known@[i as int] == Self::EXTENSIONS@[i as int]);
                    if equals_ignoring_case(e.as_str(), known[i]) {
                        return true;
                    }
                    i += 1;
                }
                false
            },
        }
    }

    /// Keeps the paths with a supported extension, in order.
    pub fn filter_files(paths: Vec<FilePath>) -> (r: Vec<FilePath>)
        ensures
            crate::sort::views(r@) == crate::sort::views(paths@).filter(
                |p: PathView| Self::supports(p.parts()),
            ),
    {
        let ghost all = crate::sort::views(paths@);
        let ghost f = |p: PathView| Self::supports(p.parts());
        let mut out: Vec<FilePath> = Vec::new();
        assert(crate::sort::views(out@) =~= all.take(0).filter(f)) by {
            reveal(Seq::filter);
        }
        for p in it: paths
            invariant
                all == crate::sort::views(it.seq()),
                f == (|p: PathView| Self::supports(p.parts())),
                crate::sort::views(out@) == all.take(it.index()).filter(f),
        {
            let ghost i = it.index();
            let ghost before = out@;
            let ghost pv = p@;
            assert(all[i] == pv);
            assert(all.take(i + 1).drop_last() =~= all.take(i));
            reveal(Seq::filter);
            if Self::is_supported(&p) {
                out.push(p);
                assert(crate::sort::views(out@) =~= crate::sort::views(before).push(pv));
            }
        }
        assert(all.take(all.len() as int) =~= all);
        out
    }
}

/// An entry that is an image file.
pub open spec fn is_image(e: EntryView) -> bool {
    e.is_file && SupportedFormats::supports(e.path.parts())
}

/// The image files of a folder in ascending order of their paths.
pub open spec fn images_of(entries: Seq<EntryView>) -> Seq<EntryView> {
    crate::sort::stable_sort::<DirEntry>(entries.filter(|e: EntryView| is_image(e)))
}

/// A folder's images are exactly its image files, each as often as it is listed,
/// in ascending order of their paths.
pub proof fn images_law(entries: Seq<EntryView>)
    ensures
        images_of(entries).to_multiset() =~= entries.filter(
            |e: EntryView| is_image(e),
        ).to_multiset(),
        crate::sort::ascending::<DirEntry>(images_of(entries)),
        forall|i: int| 0 <= i < images_of(entries).len() ==> is_image(#[trigger] images_of(entries)[i]),
        forall|i: int|
            0 <= i < images_of(entries).len() ==> entries.contains(#[trigger] images_of(entries)[i]),
{
    broadcast use vstd::seq_lib::group_to_multiset_ensures;

    let kept = entries.filter(|e: EntryView| is_image(e));
    crate::sort::stable_sort_law::<DirEntry>(kept);
    crate::seqs::filter_keeps_members(entries, |e: EntryView| is_image(e));
    assert forall|i: int| 0 <= i < images_of(entries).len() implies is_image(
        #[trigger] images_of(entries)[i],
    ) && entries.contains(images_of(entries)[i]) by {
        let x = images_of(entries)[i];
        assert(images_of(entries).to_multiset().contains(x));
        assert(kept.to_multiset().contains(x));
        assert(kept.contains(x));
    }
}

/// The image files that a listing gives.
pub open spec fn listed_images(listing: ListingView) -> Seq<EntryView> {
    match listing {
        ListingView::Entries(s) => images_of(s),
        _ => Seq::empty(),
    }
}

/// A listing shows at least one image file.
pub open spec fn has_images(listing: ListingView) -> bool {
    listed_images(listing).len() > 0
}

/// Whether a listing shows at least one image file. A folder that cannot be read
/// shows none.
pub fn folder_has_images(listing: &Listing) -> (r: bool)
    ensures
        r == has_images(listing@),
{
    match listing {
        Listing::NotADirectory => false,
        Listing::Unreadable => false,
        Listing::Entries(entries) => {
            let ghost all = crate::sort::views(entries@);
            let ghost f = |e: EntryView| is_image(e);
            proof {
                crate::sort::stable_sort_law::<DirEntry>(all.filter(f));
                crate::seqs::filter_keeps_members(all, f);
            }
            let mut i: usize = 0;
            while i < entries.len()
                invariant
                    all == crate::sort::views(entries@),
                    listing@ == ListingView::Entries(all),
                    f == (|e: EntryView| is_image(e)),
                    images_of(all).len() == all.filter(f).len(),
                    forall|x: EntryView| all.filter(f).contains(x) <==> all.contains(x) && f(x),
                    i <= entries.len(),
                    forall|j: int| 0 <= j < i ==> !is_image(#[trigger] all[j]),
                decreases entries.len() - i,
            {
                assert(all[i as int] == entries@[i as int]@);
                if entries[i].is_file && SupportedFormats::is_supported(&entries[i].path) {
                    assert(all.contains(all[i as int]));
                    assert(all.filter(f).contains(all[i as int]));
                    return true;
                }
                i += 1;
            }
            proof {
                if all.filter(f).len() > 0 {
                    let x = all.filter(f)[0];
                    assert(all.filter(f).contains(x));
                    assert(all.contains(x) && is_image(x));
                }
            }
            false
        },
    }
}

/// The image files of a folder, with their metadata, in ascending order of their
/// paths. No folder at the path is an empty folder.
pub fn image_entries(listing: Listing) -> (r: Result<Vec<DirEntry>, ReadError>)
    ensures
        r is Err <==> listing@ is Unreadable,
        r matches Ok(v) ==> crate::sort::views(v@) == listed_images(listing@),
{
    match listing {
        Listing::NotADirectory => {
            let out: Vec<DirEntry> = Vec::new();
            assert(crate::sort::views(out@) =~= Seq::<EntryView>::empty());
            Ok(out)
        },
        Listing::Unreadable => Err(ReadError::Unreadable),
        Listing::Entries(entries) => {
            let ghost all = crate::sort::views(entries@);
            let ghost f = |e: EntryView| is_image(e);
            let mut out: Vec<DirEntry> = Vec::new();
            assert(crate::sort::views(out@) =~= all.take(0).filter(f)) by {
                reveal(Seq::filter);
            }
            for e in it: entries
                invariant
                    all == crate::sort::views(it.seq()),
                    f == (|e: EntryView| is_image(e)),
                    crate::sort::views(out@) == all.take(it.index()).filter(f),
            {
                let ghost i = it.index();
                let ghost before = out@;
                let ghost ev = e@;
                assert(all[i] == ev);
                assert(all.take(i + 1).drop_last() =~= all.take(i));
                reveal(Seq::filter);
                if e.is_file && SupportedFormats::is_supported(&e.path) {
                    out.push(e);
                    assert(crate::sort::views(out@) =~= crate::sort::views(before).push(ev));
                }
            }
            assert(all.take(all.len() as int) =~= all);
            Ok(sort_stably(out))
        },
    }
}

/// The paths of a sequence of entries.
pub open spec fn paths_of(entries: Seq<EntryView>) -> Seq<PathView> {
    entries.map_values(|e: EntryView| e.path)
}

/// The paths of a folder's image files in ascending order. No folder at the path
/// gives no paths.
pub fn enumerate_images(listing: Listing) -> (r: Result<Vec<FilePath>, ReadError>)
    ensures
        r is Err <==> listing@ is Unreadable,
        r matches Ok(v) ==> crate::sort::views(v@) == paths_of(listed_images(listing@)),
{
    let ghost want = paths_of(listed_images(listing@));
    match image_entries(listing) {
        Err(e) => Err(e),
        Ok(entries) => {
            let ghost all = crate::sort::views(entries@);
            let mut out: Vec<FilePath> = Vec::new();
            for e in it: entries
                invariant
                    all == crate::sort::views(it.seq()),
                    want == paths_of(all),
                    crate::sort::views(out@) == want.take(it.index()),
            {
                let ghost i = it.index();
                let ghost before = out@;
                let ghost pv = e.path@;
                assert(all[i] == e@);
                assert(want[i] == pv);
                out.push(e.path);
                assert(crate::sort::views(out@) =~= crate::sort::views(before).push(pv));
                assert(want.take(i + 1) =~= want.take(i).push(pv));
            }
            assert(want.take(want.len() as int) =~= want);
            Ok(out)
        },
    }
}

/// The supported formats, by their extensions in any case. A name without an extension
/// is of none.
pub proof fn supported_formats(path: Seq<PartView>)
    ensures
        crate::path::extension_of(path) is None ==> !SupportedFormats::supports(path),
        crate::path::extension_of(path) matches Some(e) ==> (SupportedFormats::supports(path) <==> {
            ||| crate::text::same_ignoring_case(e, "jpg"@)
            ||| crate::text::same_ignoring_case(e, "jpeg"@)
            ||| crate::text::same_ignoring_case(e, "png"@)
            ||| crate::text::same_ignoring_case(e, "bmp"@)
            ||| crate::text::same_ignoring_case(e, "gif"@)
            ||| crate::text::same_ignoring_case(e, "tiff"@)
            ||| crate::text::same_ignoring_case(e, "tif"@)
            ||| crate::text::same_ignoring_case(e, "webp"@)
            ||| crate::text::same_ignoring_case(e, "heic"@)
            ||| crate::text::same_ignoring_case(e, "heif"@)
            ||| crate::text::same_ignoring_case(e, "avif"@)
            ||| crate::text::same_ignoring_case(e, "ico"@)
        }),
{
    let x = SupportedFormats::EXTENSIONS@;
    assert(x[0]@ == "jpg"@ && x[1]@ == "jpeg"@ && x[2]@ == "png"@ && x[3]@ == "bmp"@);
    assert(x[4]@ == "gif"@ && x[5]@ == "tiff"@ && x[6]@ == "tif"@ && x[7]@ == "webp"@);
    assert(x[8]@ == "heic"@ && x[9]@ == "heif"@ && x[10]@ == "avif"@ && x[11]@ == "ico"@);
}

/// An image is a file of a supported format; a folder is none, whatever its name.
pub proof fn images_are_files(e: EntryView)
    ensures
        is_image(e) ==> e.is_file,
        e.is_file && SupportedFormats::supports(e.path.parts()) ==> is_image(e),
        !SupportedFormats::supports(e.path.parts()) ==> !is_image(e),
{
}

} // verus!
