//! One cleaning pass over a comic archive: decode its images, decide whether
//! and how to rewrite it, and produce the rewritten entries.
use vstd::prelude::*;
use crate::naming::entry_name;
use crate::naming::entry_name_for;
use crate::naming::is_webp_entry_name;
use crate::naming::lemma_entry_names_well_formed_and_unique;
use crate::pixels::PixelBuffer;
use crate::pixels::PageView;
use crate::pixels::views;
use crate::pixels::rgba_len;
use crate::pixels::decoded_rgba;
use crate::pixels::decode_rgba;
use crate::pixels::webp_lossless;
use crate::pixels::webp_encode;
use crate::pixels::image_error_message;
use crate::pixels::thumbnail;
use crate::pixels::thumbnail_of;
use crate::pixels::WEBP_MAX_SIDE;
use crate::strip::max_width;
use crate::strip::total_height;
use crate::strip::stitched;
use crate::strip::band_count;
use crate::strip::band_height;
use crate::strip::band_pixels;
use crate::strip::combine_images;
use crate::strip::slice_bands;
use crate::strip::lemma_band_height_bounds;
use crate::strip::lemma_total_height_prefix;
use crate::paths::FileInfoError;
use crate::paths::path_file_name;
use crate::paths::path_parent;
use crate::paths::path_join;
use crate::paths::before_last_dot;
use crate::paths::extract_file_info;
use crate::paths::join_path;

verus! {

/// Width of the size threshold of the reference configuration.
pub const IMAGE_WIDTH: u32 = 1024;

/// Height of the size threshold of the reference configuration.
pub const IMAGE_HEIGHT: u32 = 1024;

/// How the pages of an archive are meant to be read.
#[derive(Clone, Copy, Debug, PartialEq, Eq, Structural)]
pub enum LayoutKind {
    /// Discrete pages, each a bounded rectangle.
    Paged,
    /// One continuous vertical strip, cut only for storage.
    Strip,
}

/// A size threshold: the oversize trigger, the paged bounding box and the
/// strip band height.
#[derive(Clone, Copy, Debug, PartialEq, Eq, Structural)]
pub struct ImageInfo {
    pub width: u32,
    pub height: u32,
}

/// One named entry of an archive.
pub struct ArchiveEntry {
    pub name: String,
    pub data: Vec<u8>,
}

/// Why a pass could not produce its rewritten entries.
#[derive(Debug)]
pub enum CleanError {
    /// The stitched canvas is too large to hold in memory.
    TooLarge,
    /// The encoder refused an image; the message is the encoder's.
    Encode(String),
}

/// Why one page of a paged archive was not written.
#[derive(Debug)]
pub enum PageError {
    /// The page does not exceed the size threshold.
    Skipped,
    /// The encoder refused the page; the message is the encoder's.
    Encode(String),
}

/// What a pass decided to do with the archive.
pub enum CleanPlan {
    /// Leave the archive as it is.
    Unchanged,
    /// Replace the archive's entries with these bands.
    Strip(Vec<ArchiveEntry>),
    /// Replace the archive's entries with these pages, each shrunk and
    /// encoded on its own by `ArchiveCleaner::process_image`.
    Paged(Vec<PixelBuffer>),
}

/// One cleaning pass over the archive at `archive_path`.
pub struct ArchiveCleaner {
    pub archive_type: LayoutKind,
    pub min_image_size: ImageInfo,
    pub archive_path: String,
}

/// The layout that one image of `width` x `height` suggests.
pub open spec fn layout_of(width: u32, height: u32) -> LayoutKind {
    if height >= 3 * width {
        LayoutKind::Strip
    } else {
        LayoutKind::Paged
    }
}

/// The oversize criterion, under the image's own layout.
pub open spec fn meets_criteria(width: u32, height: u32, limit: ImageInfo) -> bool {
    match layout_of(width, height) {
        LayoutKind::Strip => height > limit.height,
        LayoutKind::Paged => width > limit.width && height > limit.height,
    }
}

/// The oversize criterion for one page.
pub open spec fn page_triggers(p: PageView, limit: ImageInfo) -> bool {
    meets_criteria(p.0, p.1, limit)
}

/// How many leading pages the classifier looks at.
pub open spec fn sample_len(pages: Seq<PageView>, max: nat) -> int {
    if max < pages.len() {
        max as int
    } else {
        pages.len() as int
    }
}

/// Some sampled page meets the oversize criterion.
pub open spec fn rewrite_needed(pages: Seq<PageView>, max: nat, limit: ImageInfo) -> bool {
    exists|i: int| 0 <= i < sample_len(pages, max) && page_triggers(#[trigger] pages[i], limit)
}

/// Page `i` is the first sampled page that meets the criterion.
pub open spec fn is_first_trigger(pages: Seq<PageView>, max: nat, limit: ImageInfo, i: int) -> bool {
    &&& 0 <= i < sample_len(pages, max)
    &&& page_triggers(pages[i], limit)
    &&& forall|j: int| 0 <= j < i ==> !page_triggers(#[trigger] pages[j], limit)
}

/// The index of the deciding page, where `rewrite_needed` holds.
pub open spec fn first_trigger(pages: Seq<PageView>, max: nat, limit: ImageInfo) -> int {
    choose|i: int| is_first_trigger(pages, max, limit, i)
}

/// The archive's layout: that of the deciding page.
pub open spec fn archive_layout(pages: Seq<PageView>, max: nat, limit: ImageInfo) -> LayoutKind {
    let p = pages[first_trigger(pages, max, limit)];
    layout_of(p.0, p.1)
}

/// The last characters of `s` are `suffix`.
pub open spec fn ends_with(s: Seq<char>, suffix: Seq<char>) -> bool {
    s.len() >= suffix.len() && s.subrange(s.len() - suffix.len(), s.len() as int) == suffix
}

/// An entry name with one of the image suffixes.
pub open spec fn is_image_name(name: Seq<char>) -> bool {
    ends_with(name, ".webp"@) || ends_with(name, ".jpg"@) || ends_with(name, ".jpeg"@)
        || ends_with(name, ".png"@)
}

/// The images of `entries`, in order: the entries with an image name whose
/// bytes decode, each decoded.
pub open spec fn decoded_pages(entries: Seq<ArchiveEntry>) -> Seq<PageView>
    decreases entries.len(),
{
    if entries.len() == 0 {
        Seq::empty()
    } else {
        let prev = decoded_pages(entries.drop_last());
        let e = entries.last();
        if is_image_name(e.name@) {
            match decoded_rgba(e.data@) {
                Some(p) => prev.push(p),
                None => prev,
            }
        } else {
            prev
        }
    }
}

/// The encoder accepts an image of this size.
pub open spec fn webp_encodable(width: u32, height: u32) -> bool {
    1 <= width <= WEBP_MAX_SIDE && 1 <= height <= WEBP_MAX_SIDE
}

/// The stitched canvas of `pages` fits in memory.
pub open spec fn strip_fits(pages: Seq<PageView>) -> bool {
    total_height(pages) <= u32::MAX && rgba_len(max_width(pages), total_height(pages)) <= usize::MAX
}

/// The stitched canvas of `pages`.
pub open spec fn strip_canvas(pages: Seq<PageView>) -> PageView {
    let w = max_width(pages) as u32;
    (w, total_height(pages) as u32, stitched(pages, w))
}

/// Band `i` of the stitched canvas of `pages`.
pub open spec fn strip_band(pages: Seq<PageView>, band: nat, i: nat) -> PageView {
    let c = strip_canvas(pages);
    (c.0, band_height(c.1 as nat, band, i) as u32, band_pixels(c, band, i))
}

/// Number of bands that the stitched canvas of `pages` is cut into.
pub open spec fn strip_band_count(pages: Seq<PageView>, band: nat) -> nat {
    band_count(strip_canvas(pages).1 as nat, band)
}

/// Every band of the stitched canvas can be encoded.
pub open spec fn strip_encodable(pages: Seq<PageView>, band: nat) -> bool {
    forall|i: nat|
        i < strip_band_count(pages, band) ==> webp_encodable(
            #[trigger] strip_band(pages, band, i).0,
            strip_band(pages, band, i).1,
        )
}

/// `entries` are the encoded bands of the stitched canvas, named
/// `1.webp`, `2.webp`, ... from the top.
pub open spec fn strip_entries(pages: Seq<PageView>, band: nat, entries: Seq<ArchiveEntry>) -> bool {
    &&& entries.len() == strip_band_count(pages, band)
    &&& forall|i: int|
        0 <= i < entries.len() ==> {
            let b = strip_band(pages, band, i as nat);
            &&& (#[trigger] entries[i]).name@ == entry_name((i + 1) as nat)
            &&& entries[i].data@ == webp_lossless(b.2, b.0, b.1)
        }
}

/// What the strip transform of `pages` with bands of `band` rows returns.
pub open spec fn strip_outcome(
    pages: Seq<PageView>,
    band: nat,
    r: Result<Vec<ArchiveEntry>, CleanError>,
) -> bool {
    match r {
        Ok(es) => strip_fits(pages) && strip_encodable(pages, band) && strip_entries(pages, band, es@),
        Err(CleanError::TooLarge) => !strip_fits(pages),
        Err(CleanError::Encode(_)) => strip_fits(pages) && !strip_encodable(pages, band),
    }
}

/// What a whole pass over `pages` returns.
pub open spec fn plan_outcome(
    pages: Seq<PageView>,
    max: nat,
    limit: ImageInfo,
    r: Result<CleanPlan, CleanError>,
) -> bool {
    if !rewrite_needed(pages, max, limit) {
        r matches Ok(CleanPlan::Unchanged)
    } else if archive_layout(pages, max, limit) == LayoutKind::Paged {
        (r matches Ok(CleanPlan::Paged(ps)) && views(ps@) == pages)
    } else {
        match r {
            Ok(CleanPlan::Strip(es)) => strip_outcome(pages, limit.height as nat, Ok(es)),
            Err(e) => strip_outcome(pages, limit.height as nat, Err(e)),
            _ => false,
        }
    }
}

proof fn lemma_first_trigger_unique(pages: Seq<PageView>, max: nat, limit: ImageInfo, i: int)
    requires
        is_first_trigger(pages, max, limit, i),
    ensures
        first_trigger(pages, max, limit) == i,
        rewrite_needed(pages, max, limit),
{
    let k = first_trigger(pages, max, limit);
    assert(is_first_trigger(pages, max, limit, k));
    if k < i {
        assert(!page_triggers(pages[k], limit));
    } else if k > i {
        assert(!page_triggers(pages[i], limit));
    }
}

/// `s` ends with `suffix`.
fn str_ends_with(s: &str, suffix: &str) -> (r: bool)
    ensures
        r == ends_with(s@, suffix@),
{
    let n = s.unicode_len();
    let m = suffix.unicode_len();
    if m > n {
        return false;
    }
    let mut i: usize = 0;
    while i < m
        invariant
            n == s@.len(),
            m == suffix@.len(),
            m <= n,
            i <= m,
            forall|j: int| 0 <= j < i ==> s@[n - m + j] == suffix@[j],
        decreases m - i,
    {
        if s.get_char(n - m + i) != suffix.get_char(i) {
            assert(s@.subrange(n - m, n as int)[i as int] != suffix@[i as int]);
            return false;
        }
        i = i + 1;
    }
    assert(s@.subrange(n - m, n as int) =~= suffix@);
    true
}

/// Bands cut from a stitched canvas never meet the oversize criterion of the
/// threshold they were cut with: a second pass over the rewritten archive
/// leaves it as it is.
pub proof fn lemma_strip_output_is_stable(
    pages: Seq<PageView>,
    limit: ImageInfo,
    bands: Seq<PageView>,
    max: nat,
)
    requires
        limit.height > 0,
        bands.len() == strip_band_count(pages, limit.height as nat),
        forall|i: int|
            0 <= i < bands.len() ==> (#[trigger] bands[i]).0 == strip_band(
                pages,
                limit.height as nat,
                i as nat,
            ).0 && bands[i].1 == strip_band(pages, limit.height as nat, i as nat).1,
    ensures
        !rewrite_needed(bands, max, limit),
{
    assert forall|i: int| 0 <= i < sample_len(bands, max) implies !page_triggers(
        #[trigger] bands[i],
        limit,
    ) by {
        lemma_band_height_bounds(strip_canvas(pages).1 as nat, limit.height as nat, i as nat);
    }
}

/// The entries of a strip rewrite are named `<digits>.webp`, and no two share
/// a name.
pub proof fn lemma_strip_entry_names(pages: Seq<PageView>, band: nat, entries: Seq<ArchiveEntry>)
    requires
        strip_entries(pages, band, entries),
    ensures
        forall|i: int| 0 <= i < entries.len() ==> is_webp_entry_name(#[trigger] entries[i].name@),
        forall|i: int, j: int|
            0 <= i < entries.len() && 0 <= j < entries.len() && i != j ==> #[trigger] entries[i].name@
                != #[trigger] entries[j].name@,
{
    assert forall|i: int| 0 <= i < entries.len() implies is_webp_entry_name(
        #[trigger] entries[i].name@,
    ) by {
        lemma_entry_names_well_formed_and_unique((i + 1) as nat, 0);
    }
    assert forall|i: int, j: int|
        0 <= i < entries.len() && 0 <= j < entries.len() && i != j implies #[trigger] entries[i].name@
            != #[trigger] entries[j].name@ by {
        lemma_entry_names_well_formed_and_unique((i + 1) as nat, (j + 1) as nat);
    }
}

/// Width and height of the stitched canvas of `images`, where it fits.
fn strip_size(images: &Vec<PixelBuffer>) -> (r: Option<(u32, u32)>)
    ensures
        r is Some <==> strip_fits(views(images@)),
        r matches Some(wh) ==> wh.0 == max_width(views(images@)) && wh.1 == total_height(
            views(images@),
        ),
{
    let ghost vs = views(images@);
    let mut width: u32 = 0;
    let mut height: u64 = 0;
    let mut k: usize = 0;
    while k < images.len()
        invariant
            vs == views(images@),
            k <= images@.len(),
            width == max_width(vs.subrange(0, k as int)),
            height == total_height(vs.subrange(0, k as int)),
            height <= u32::MAX,
        decreases images@.len() - k,
    {
        assert(vs.subrange(0, k + 1).drop_last() =~= vs.subrange(0, k as int));
        assert(vs[k as int] == images@[k as int]@);
        if images[k].width > width {
            width = images[k].width;
        }
        height = height + images[k].height as u64;
        if height > u32::MAX as u64 {
            proof {
                lemma_total_height_prefix(vs, k + 1);
            }
            return None;
        }
        k = k + 1;
    }
    assert(vs.subrange(0, k as int) =~= vs);
    match (width as u64).checked_mul(height) {
        None => {
            assert(4 * width * height > usize::MAX) by (nonlinear_arith)
                requires
                    width * height > u64::MAX,
            ;
            None
        },
        Some(area) => match area.checked_mul(4) {
            None => {
                assert(4 * width * height > usize::MAX) by (nonlinear_arith)
                    requires
                        area == width * height,
                        area * 4 > u64::MAX,
                ;
                None
            },
            Some(bytes) => {
                assert(bytes == rgba_len(width as nat, height as nat)) by (nonlinear_arith)
                    requires
                        area == width * height,
                        bytes == area * 4,
                ;
                if bytes <= usize::MAX as u64 {
                    Some((width, height as u32))
                } else {
                    None
                }
            },
        },
    }
}

impl ArchiveCleaner {
    /// The threshold is a proper box.
    pub open spec fn wf(&self) -> bool {
        self.min_image_size.width > 0 && self.min_image_size.height > 0
    }

    /// A cleaner for the archive at `archive_path`, with the reference
    /// threshold of 1024 x 1024.
    pub fn new(archive_path: &str) -> (r: Self)
        ensures
            r.wf(),
            r.archive_type == LayoutKind::Paged,
            r.min_image_size == (ImageInfo { width: IMAGE_WIDTH, height: IMAGE_HEIGHT }),
            r.archive_path@ == archive_path@,
    {
        ArchiveCleaner {
            archive_type: LayoutKind::Paged,
            min_image_size: ImageInfo { width: IMAGE_WIDTH, height: IMAGE_HEIGHT },
            archive_path: String::from_str(archive_path),
        }
    }

    /// The oversize criterion for one image under this cleaner's threshold.
    pub fn image_meets_criteria(&self, w: u32, h: u32) -> (r: bool)
        ensures
            r == meets_criteria(w, h, self.min_image_size),
    {
        let strip = h as u64 >= 3 * w as u64;
        (strip && h > self.min_image_size.height) || (!strip && w > self.min_image_size.width
            && h > self.min_image_size.height)
    }

    /// The entry name carries an image suffix.
    pub fn is_image(&self, file_name: &str) -> (r: bool)
        ensures
            r == is_image_name(file_name@),
    {
        str_ends_with(file_name, ".webp") || str_ends_with(file_name, ".jpg") || str_ends_with(
            file_name,
            ".jpeg",
        ) || str_ends_with(file_name, ".png")
    }

    /// Decodes the image entries of an archive, in order; entries that do
    /// not decode are left out.
    pub fn read_images_from_archive(&self, entries: &Vec<ArchiveEntry>) -> (r: Vec<PixelBuffer>)
        ensures
            views(r@) == decoded_pages(entries@),
            forall|i: int| 0 <= i < r@.len() ==> (#[trigger] r@[i]).wf(),
    {
        let mut images: Vec<PixelBuffer> = Vec::new();
        let mut k: usize = 0;
        while k < entries.len()
            invariant
                k <= entries@.len(),
                views(images@) == decoded_pages(entries@.subrange(0, k as int)),
                forall|i: int| 0 <= i < images@.len() ==> (#[trigger] images@[i]).wf(),
            decreases entries@.len() - k,
        {
            let ghost before = images@;
            assert(entries@.subrange(0, k + 1).drop_last() =~= entries@.subrange(0, k as int));
            let entry = &entries[k];
            if self.is_image(entry.name.as_str()) {
                match decode_rgba(&entry.data) {
                    Some(img) => {
                        images.push(img);
                        assert(views(images@) =~= views(before).push(images@.last()@));
                    },
                    None => {},
                }
            }
            k = k + 1;
        }
        assert(entries@.subrange(0, k as int) =~= entries@);
        images
    }

    /// Samples the first `max_images_to_check` images and decides whether the
    /// archive is rewritten; the layout of the deciding image becomes the
    /// archive's.
    pub fn should_write_archive(&mut self, images: &Vec<PixelBuffer>, max_images_to_check: usize) -> (r: bool)
        ensures
            r == rewrite_needed(views(images@), max_images_to_check as nat, old(self).min_image_size),
            final(self).min_image_size == old(self).min_image_size,
            final(self).archive_path == old(self).archive_path,
            r ==> final(self).archive_type == archive_layout(
                views(images@),
                max_images_to_check as nat,
                old(self).min_image_size,
            ),
            !r && sample_len(views(images@), max_images_to_check as nat) == 0
                ==> final(self).archive_type == old(self).archive_type,
            !r && sample_len(views(images@), max_images_to_check as nat) > 0 ==> {
                let p = views(images@)[sample_len(views(images@), max_images_to_check as nat) - 1];
                final(self).archive_type == layout_of(p.0, p.1)
            },
    {
        let ghost vs = views(images@);
        let ghost max = max_images_to_check as nat;
        let ghost limit = self.min_image_size;
        let n: usize = if max_images_to_check < images.len() {
            max_images_to_check
        } else {
            images.len()
        };
        let mut i: usize = 0;
        while i < n
            invariant
                vs == views(images@),
                max == max_images_to_check as nat,
                n == sample_len(vs, max),
                n <= images@.len(),
                i <= n,
                self.min_image_size == limit,
                limit == old(self).min_image_size,
                self.archive_path == old(self).archive_path,
                forall|j: int| 0 <= j < i ==> !page_triggers(#[trigger] vs[j], limit),
                i == 0 ==> self.archive_type == old(self).archive_type,
                i > 0 ==> self.archive_type == layout_of(vs[i - 1].0, vs[i - 1].1),
            decreases n - i,
        {
            let w = images[i].width;
            let h = images[i].height;
            assert(vs[i as int] == images@[i as int]@);
            self.archive_type = if h as u64 >= 3 * w as u64 {
                LayoutKind::Strip
            } else {
                LayoutKind::Paged
            };
            if self.image_meets_criteria(w, h) {
                proof {
                    assert(is_first_trigger(vs, max, limit, i as int));
                    lemma_first_trigger_unique(vs, max, limit, i as int);
                }
                return true;
            }
            i = i + 1;
        }
        false
    }

    /// Where the rewritten archive is written before a rename puts it in
    /// place of the archive: `<name>.temp.cbz` in the same directory.
    pub fn temp_archive_path(&self) -> (r: Result<String, FileInfoError>)
        ensures
            path_file_name(self.archive_path@) is None ==> r == Err::<String, _>(
                FileInfoError::NoFileName,
            ),
            path_file_name(self.archive_path@) is Some && path_parent(self.archive_path@) is None
                ==> r == Err::<String, _>(FileInfoError::NoParent),
            path_file_name(self.archive_path@) is Some && path_parent(self.archive_path@) is Some
                ==> (r matches Ok(p) && p@ == path_join(
                path_parent(self.archive_path@)->0,
                before_last_dot(path_file_name(self.archive_path@)->0) + ".temp.cbz"@,
            )),
    {
        match extract_file_info(self.archive_path.as_str()) {
            Ok((name, dir)) => {
                let mut file = name;
                file.append(".temp.cbz");
                Ok(join_path(dir.as_str(), file.as_str()))
            },
            Err(e) => Err(e),
        }
    }

    /// Encodes an image as lossless WebP; the error is the encoder's message.
    pub fn encode_webp(&self, image: &PixelBuffer) -> (r: Result<Vec<u8>, String>)
        requires
            image.wf(),
        ensures
            r is Ok <==> webp_encodable(image.width, image.height),
            r matches Ok(v) ==> v@ == webp_lossless(image.pixels@, image.width, image.height),
    {
        match webp_encode(image) {
            Ok(data) => Ok(data),
            Err(e) => Err(image_error_message(&e)),
        }
    }

    /// Shrinks one page of a paged archive into the threshold box and encodes
    /// it as entry `<index + 1>.webp`; a page that does not exceed the
    /// threshold is skipped.
    pub fn process_image(&self, index: usize, image: &PixelBuffer) -> (r: Result<ArchiveEntry, PageError>)
        requires
            self.wf(),
            image.wf(),
            index < usize::MAX,
        ensures
            r matches Err(PageError::Skipped) <==> !page_triggers(image@, self.min_image_size),
            page_triggers(image@, self.min_image_size) ==> {
                let t = thumbnail_of(
                    image.pixels@,
                    image.width,
                    image.height,
                    self.min_image_size.width,
                    self.min_image_size.height,
                );
                &&& 1 <= t.0 <= self.min_image_size.width
                &&& 1 <= t.1 <= self.min_image_size.height
                &&& image.width > 0 ==> -(image.width + image.height) < t.0 * image.height - t.1
                    * image.width < image.width + image.height
                &&& (r is Ok <==> webp_encodable(t.0, t.1))
                &&& (r matches Ok(e) ==> e.name@ == entry_name(index as nat + 1) && e.data@
                    == webp_lossless(t.2, t.0, t.1))
            },
    {
        if !self.image_meets_criteria(image.width, image.height) {
            return Err(PageError::Skipped);
        }
        let resized = thumbnail(image, self.min_image_size.width, self.min_image_size.height);
        match self.encode_webp(&resized) {
            Ok(data) => {
                let name = entry_name_for(index as u64 + 1);
                Ok(ArchiveEntry { name, data })
            },
            Err(e) => Err(PageError::Encode(e)),
        }
    }

    /// The strip transform: stitches all images, cuts the canvas into bands
    /// of the threshold height and encodes them as `1.webp`, `2.webp`, ...
    pub fn process_manhwa_images(&self, images: &Vec<PixelBuffer>) -> (r: Result<Vec<ArchiveEntry>, CleanError>)
        requires
            self.wf(),
            forall|i: int| 0 <= i < images@.len() ==> (#[trigger] images@[i]).wf(),
        ensures
            strip_outcome(views(images@), self.min_image_size.height as nat, r),
    {
        let ghost vs = views(images@);
        let band = self.min_image_size.height;
        if strip_size(images).is_none() {
            return Err(CleanError::TooLarge);
        }
        let canvas = combine_images(images);
        assert(canvas@ == strip_canvas(vs));
        let bands = slice_bands(&canvas, band);
        let mut entries: Vec<ArchiveEntry> = Vec::new();
        let mut i: usize = 0;
        while i < bands.len()
            invariant
                vs == views(images@),
                self.wf(),
                band == self.min_image_size.height,
                strip_fits(vs),
                canvas@ == strip_canvas(vs),
                bands@.len() == strip_band_count(vs, band as nat),
                forall|j: int|
                    0 <= j < bands@.len() ==> {
                        &&& (#[trigger] bands@[j]).wf()
                        &&& bands@[j].width == canvas.width
                        &&& bands@[j].height == band_height(canvas.height as nat, band as nat, j as nat)
                        &&& bands@[j].pixels@ == band_pixels(canvas@, band as nat, j as nat)
                    },
                i <= bands@.len(),
                entries@.len() == i,
                forall|j: nat| j < i ==> webp_encodable(
                    #[trigger] strip_band(vs, band as nat, j).0,
                    strip_band(vs, band as nat, j).1,
                ),
                forall|j: int|
                    0 <= j < i ==> {
                        let b = strip_band(vs, band as nat, j as nat);
                        &&& (#[trigger] entries@[j]).name@ == entry_name((j + 1) as nat)
                        &&& entries@[j].data@ == webp_lossless(b.2, b.0, b.1)
                    },
            decreases bands@.len() - i,
        {
            assert(bands@[i as int]@ == strip_band(vs, band as nat, i as nat));
            match self.encode_webp(&bands[i]) {
                Ok(data) => {
                    let name = entry_name_for(i as u64 + 1);
                    entries.push(ArchiveEntry { name, data });
                },
                Err(e) => {
                    assert(!webp_encodable(
                        strip_band(vs, band as nat, i as nat).0,
                        strip_band(vs, band as nat, i as nat).1,
                    ));
                    return Err(CleanError::Encode(e));
                },
            }
            i = i + 1;
        }
        Ok(entries)
    }

    /// Rewrites the images under the archive's layout: the strip transform
    /// now, or the pages for the paged transform.
    pub fn write_archive(&self, images: Vec<PixelBuffer>) -> (r: Result<CleanPlan, CleanError>)
        requires
            self.wf(),
            forall|i: int| 0 <= i < images@.len() ==> (#[trigger] images@[i]).wf(),
        ensures
            self.archive_type == LayoutKind::Paged ==> (r matches Ok(CleanPlan::Paged(ps)) && views(
                ps@,
            ) == views(images@)),
            self.archive_type == LayoutKind::Strip ==> match r {
                Ok(CleanPlan::Strip(es)) => strip_outcome(
                    views(images@),
                    self.min_image_size.height as nat,
                    Ok(es),
                ),
                Err(e) => strip_outcome(views(images@), self.min_image_size.height as nat, Err(e)),
                _ => false,
            },
    {
        match self.archive_type {
            LayoutKind::Strip => match self.process_manhwa_images(&images) {
                Ok(entries) => Ok(CleanPlan::Strip(entries)),
                Err(e) => Err(e),
            },
            LayoutKind::Paged => Ok(CleanPlan::Paged(images)),
        }
    }

    /// One cleaning pass over the entries of an archive: decode the images,
    /// sample at most `max_images_to_check` of them, and decide what becomes
    /// of the archive.
    pub fn clean_archive_file(&mut self, entries: &Vec<ArchiveEntry>, max_images_to_check: usize) -> (r: Result<CleanPlan, CleanError>)
        requires
            old(self).wf(),
        ensures
            final(self).min_image_size == old(self).min_image_size,
            final(self).archive_path == old(self).archive_path,
            r matches Ok(CleanPlan::Unchanged) <==> !rewrite_needed(
                decoded_pages(entries@),
                max_images_to_check as nat,
                old(self).min_image_size,
            ),
            plan_outcome(
                decoded_pages(entries@),
                max_images_to_check as nat,
                old(self).min_image_size,
                r,
            ),
    {
        let images = self.read_images_from_archive(entries);
        if self.should_write_archive(&images, max_images_to_check) {
            self.write_archive(images)
        } else {
            Ok(CleanPlan::Unchanged)
        }
    }
}

} // verus!
