use reader_rust::archive_cleaner::{
    ArchiveCleaner, ArchiveEntry, CleanError, CleanPlan, ImageInfo, LayoutKind, PageError,
};
use reader_rust::pixels::PixelBuffer;
use reader_rust::strip::{combine_images, crop_image, slice_bands};

fn blank(width: u32, height: u32) -> PixelBuffer {
    PixelBuffer {
        width,
        height,
        pixels: vec![0u8; 4 * width as usize * height as usize],
    }
}

fn patterned(width: u32, height: u32) -> PixelBuffer {
    let n = 4 * width as usize * height as usize;
    PixelBuffer {
        width,
        height,
        pixels: (0..n).map(|i| (i % 251) as u8).collect(),
    }
}

fn webp_entry(cleaner: &ArchiveCleaner, name: &str, width: u32, height: u32) -> ArchiveEntry {
    let data = cleaner.encode_webp(&blank(width, height)).unwrap();
    ArchiveEntry { name: name.to_string(), data }
}

fn is_webp_entry_name(name: &str) -> bool {
    match name.strip_suffix(".webp") {
        Some(digits) => !digits.is_empty() && digits.chars().all(|c| c.is_ascii_digit()),
        None => false,
    }
}

#[test]
fn new_uses_reference_threshold() {
    let c = ArchiveCleaner::new("/tmp/book.cbz");
    assert_eq!(c.min_image_size, ImageInfo { width: 1024, height: 1024 });
    assert_eq!(c.archive_type, LayoutKind::Paged);
    assert_eq!(c.archive_path, "/tmp/book.cbz");
}

#[test]
fn criteria_paged_needs_both_sides_over() {
    let c = ArchiveCleaner::new("a.cbz");
    assert!(!c.image_meets_criteria(800, 1100));
    assert!(!c.image_meets_criteria(1100, 1024));
    assert!(c.image_meets_criteria(1100, 1100));
    assert!(!c.image_meets_criteria(1024, 1025));
}

#[test]
fn criteria_strip_needs_height_over() {
    let c = ArchiveCleaner::new("a.cbz");
    assert!(c.image_meets_criteria(700, 2200));
    assert!(c.image_meets_criteria(400, 1200));
    assert!(!c.image_meets_criteria(300, 900));
    assert!(!c.image_meets_criteria(341, 1024));
}

#[test]
fn criteria_large_width_does_not_overflow() {
    let c = ArchiveCleaner::new("a.cbz");
    assert!(c.image_meets_criteria(u32::MAX, u32::MAX));
    assert!(c.image_meets_criteria(0, 2000));
}

#[test]
fn is_image_by_suffix() {
    let c = ArchiveCleaner::new("a.cbz");
    assert!(c.is_image("p/001.webp"));
    assert!(c.is_image("002.jpg"));
    assert!(c.is_image("003.jpeg"));
    assert!(c.is_image("004.png"));
    assert!(!c.is_image("ComicInfo.xml"));
    assert!(!c.is_image("png"));
    assert!(!c.is_image("005.PNG"));
    assert!(!c.is_image(""));
}

#[test]
fn read_images_skips_non_images_and_undecodable() {
    let c = ArchiveCleaner::new("a.cbz");
    let entries = vec![
        webp_entry(&c, "1.webp", 3, 5),
        ArchiveEntry { name: "notes.txt".to_string(), data: vec![1, 2, 3] },
        ArchiveEntry { name: "2.png".to_string(), data: vec![9, 9, 9, 9] },
        webp_entry(&c, "3.jpg", 7, 2),
    ];
    let images = c.read_images_from_archive(&entries);
    assert_eq!(images.len(), 2);
    assert_eq!((images[0].width, images[0].height), (3, 5));
    assert_eq!((images[1].width, images[1].height), (7, 2));
    assert_eq!(images[0].pixels.len(), 4 * 3 * 5);
}

#[test]
fn should_write_takes_first_trigger_layout() {
    let mut c = ArchiveCleaner::new("a.cbz");
    let images = vec![blank(10, 10), blank(10, 1100), blank(1100, 1100)];
    assert!(c.should_write_archive(&images, 5));
    assert_eq!(c.archive_type, LayoutKind::Strip);
}

#[test]
fn should_write_respects_sample_bound() {
    let mut c = ArchiveCleaner::new("a.cbz");
    let images = vec![blank(10, 10), blank(10, 10), blank(1100, 1100)];
    assert!(!c.should_write_archive(&images, 2));
    assert!(c.should_write_archive(&images, 3));
    assert_eq!(c.archive_type, LayoutKind::Paged);
    let mut d = ArchiveCleaner::new("a.cbz");
    assert!(!d.should_write_archive(&images, 0));
    assert!(!d.should_write_archive(&Vec::new(), 5));
}

#[test]
fn scenario_paged_pages_narrower_than_threshold() {
    // 800 x 1100 is paged (1100 < 2400) but its width is within the threshold,
    // so no sampled page meets the paged criterion.
    let mut c = ArchiveCleaner::new("a.cbz");
    let entries = vec![
        webp_entry(&c, "001.jpg", 800, 1000),
        webp_entry(&c, "002.jpg", 800, 1100),
        webp_entry(&c, "003.jpg", 800, 1050),
    ];
    let images = c.read_images_from_archive(&entries);
    assert_eq!(images.len(), 3);
    assert!(!c.image_meets_criteria(800, 1100));
    let plan = c.clean_archive_file(&entries, 5).unwrap();
    assert!(matches!(plan, CleanPlan::Unchanged));
}

#[test]
fn scenario_strip_two_pages_five_bands() {
    let mut c = ArchiveCleaner::new("a.cbz");
    let entries = vec![
        webp_entry(&c, "01.png", 700, 2200),
        webp_entry(&c, "02.png", 700, 2300),
    ];
    let plan = c.clean_archive_file(&entries, 5).unwrap();
    assert_eq!(c.archive_type, LayoutKind::Strip);
    let out = match plan {
        CleanPlan::Strip(out) => out,
        _ => panic!("expected the strip transform"),
    };
    let names: Vec<&str> = out.iter().map(|e| e.name.as_str()).collect();
    assert_eq!(names, vec!["1.webp", "2.webp", "3.webp", "4.webp", "5.webp"]);
    let bands = c.read_images_from_archive(&out);
    let dims: Vec<(u32, u32)> = bands.iter().map(|b| (b.width, b.height)).collect();
    assert_eq!(dims, vec![(700, 1024), (700, 1024), (700, 1024), (700, 1024), (700, 404)]);
}

#[test]
fn scenario_small_pages_unchanged() {
    let mut c = ArchiveCleaner::new("a.cbz");
    let entries: Vec<ArchiveEntry> =
        (1..=5).map(|i| webp_entry(&c, &format!("{i}.jpg"), 600, 800)).collect();
    let plan = c.clean_archive_file(&entries, 5).unwrap();
    assert!(matches!(plan, CleanPlan::Unchanged));
}

#[test]
fn untriggered_archive_plans_no_change() {
    let mut c = ArchiveCleaner::new("a.cbz");
    // The oversized page lies beyond the sampled prefix.
    let mut entries: Vec<ArchiveEntry> =
        (1..=5).map(|i| webp_entry(&c, &format!("{i}.png"), 4, 4)).collect();
    entries.push(webp_entry(&c, "6.png", 1100, 1100));
    let plan = c.clean_archive_file(&entries, 5).unwrap();
    assert!(matches!(plan, CleanPlan::Unchanged));
}

#[test]
fn paged_plan_keeps_every_page() {
    let mut c = ArchiveCleaner::new("a.cbz");
    let entries = vec![
        webp_entry(&c, "1.png", 1100, 1300),
        webp_entry(&c, "2.png", 20, 30),
    ];
    match c.clean_archive_file(&entries, 5).unwrap() {
        CleanPlan::Paged(pages) => {
            assert_eq!(pages.len(), 2);
            assert_eq!((pages[0].width, pages[0].height), (1100, 1300));
            assert_eq!((pages[1].width, pages[1].height), (20, 30));
        }
        _ => panic!("expected the paged transform"),
    }
    assert_eq!(c.archive_type, LayoutKind::Paged);
}

#[test]
fn rewritten_names_are_numbered_webp_and_unique() {
    let c = ArchiveCleaner::new("a.cbz");
    let images = vec![blank(10, 1500), blank(10, 1500)];
    let out = c.process_manhwa_images(&images).unwrap();
    assert_eq!(out.len(), 3);
    let mut names: Vec<String> = out.iter().map(|e| e.name.clone()).collect();
    assert!(names.iter().all(|n| is_webp_entry_name(n)));
    names.sort();
    names.dedup();
    assert_eq!(names.len(), 3);
    let page = c.process_image(11, &blank(1100, 1100)).unwrap();
    assert_eq!(page.name, "12.webp");
    assert!(is_webp_entry_name(&page.name));
}

#[test]
fn strip_output_is_not_rewritten_again() {
    let mut c = ArchiveCleaner::new("a.cbz");
    let entries = vec![webp_entry(&c, "1.png", 300, 2500), webp_entry(&c, "2.png", 300, 900)];
    let out = match c.clean_archive_file(&entries, 5).unwrap() {
        CleanPlan::Strip(out) => out,
        _ => panic!("expected the strip transform"),
    };
    assert_eq!(out.len(), 4);
    let mut again = ArchiveCleaner::new("a.cbz");
    let plan = again.clean_archive_file(&out, 5).unwrap();
    assert!(matches!(plan, CleanPlan::Unchanged));
}

#[test]
fn bands_rebuild_the_canvas() {
    let canvas = patterned(3, 10);
    let bands = slice_bands(&canvas, 4);
    let heights: Vec<u32> = bands.iter().map(|b| b.height).collect();
    assert_eq!(heights, vec![4, 4, 2]);
    assert_eq!(heights.iter().sum::<u32>(), canvas.height);
    let joined: Vec<u8> = bands.iter().flat_map(|b| b.pixels.iter().copied()).collect();
    assert_eq!(joined, canvas.pixels);
}

#[test]
fn slice_bands_exact_multiple_and_empty() {
    let canvas = patterned(2, 8);
    assert_eq!(slice_bands(&canvas, 4).len(), 2);
    assert_eq!(slice_bands(&canvas, 8).len(), 1);
    assert_eq!(slice_bands(&canvas, 100).len(), 1);
    assert!(slice_bands(&blank(5, 0), 4).is_empty());
}

#[test]
fn crop_image_takes_full_rows() {
    let canvas = patterned(2, 3);
    let mid = crop_image(&canvas, 1, 2);
    assert_eq!((mid.width, mid.height), (2, 1));
    assert_eq!(mid.pixels, canvas.pixels[8..16].to_vec());
}

#[test]
fn combine_stacks_and_widens() {
    let images = vec![patterned(4, 2), patterned(2, 3)];
    let canvas = combine_images(&images);
    assert_eq!((canvas.width, canvas.height), (4, 5));
    assert_eq!(canvas.pixels.len(), 4 * 4 * 5);
    // The widest image is copied unchanged to the top of the canvas.
    assert_eq!(canvas.pixels[..32].to_vec(), images[0].pixels);
}

#[test]
fn paged_page_fits_threshold_and_keeps_aspect() {
    let c = ArchiveCleaner::new("a.cbz");
    let page = blank(2000, 1500);
    let entry = c.process_image(0, &page).unwrap();
    assert_eq!(entry.name, "1.webp");
    let shrunk = c.read_images_from_archive(&vec![entry]);
    assert_eq!((shrunk[0].width, shrunk[0].height), (1024, 768));
    let w = shrunk[0].width as i64;
    let h = shrunk[0].height as i64;
    assert!((w * 1500 - h * 2000).abs() < 2000 + 1500);
}

#[test]
fn paged_page_tall_is_bounded_by_height() {
    let c = ArchiveCleaner::new("a.cbz");
    let entry = c.process_image(2, &blank(1500, 3000)).unwrap();
    assert_eq!(entry.name, "3.webp");
    let shrunk = c.read_images_from_archive(&vec![entry]);
    assert_eq!((shrunk[0].width, shrunk[0].height), (512, 1024));
}

#[test]
fn paged_page_within_threshold_is_skipped() {
    let c = ArchiveCleaner::new("a.cbz");
    assert!(matches!(c.process_image(0, &blank(800, 1000)), Err(PageError::Skipped)));
}

#[test]
fn encode_rejects_empty_image() {
    let c = ArchiveCleaner::new("a.cbz");
    assert!(c.encode_webp(&blank(0, 0)).is_err());
    let data = c.encode_webp(&blank(2, 2)).unwrap();
    assert_eq!(&data[..4], b"RIFF");
}

#[test]
fn strip_of_zero_width_fails_to_encode() {
    let c = ArchiveCleaner::new("a.cbz");
    let images = vec![blank(0, 2000)];
    assert!(matches!(c.process_manhwa_images(&images), Err(CleanError::Encode(_))));
}

#[test]
fn strip_too_tall_is_refused() {
    let c = ArchiveCleaner::new("a.cbz");
    let images = vec![blank(0, 3_000_000_000), blank(0, 3_000_000_000)];
    assert!(matches!(c.process_manhwa_images(&images), Err(CleanError::TooLarge)));
}

#[test]
fn write_archive_follows_layout() {
    let mut c = ArchiveCleaner::new("a.cbz");
    c.archive_type = LayoutKind::Paged;
    assert!(matches!(c.write_archive(vec![blank(2, 2)]), Ok(CleanPlan::Paged(_))));
    c.archive_type = LayoutKind::Strip;
    match c.write_archive(vec![blank(2, 2)]) {
        Ok(CleanPlan::Strip(out)) => assert_eq!(out.len(), 1),
        _ => panic!("expected strip entries"),
    }
}

#[test]
fn temp_path_sits_beside_archive() {
    let c = ArchiveCleaner::new("/data/comics/book.one.cbz");
    assert_eq!(c.temp_archive_path().unwrap(), "/data/comics/book.one.temp.cbz");
    assert!(ArchiveCleaner::new("/").temp_archive_path().is_err());
}

#[test]
fn empty_archive_is_unchanged() {
    let mut c = ArchiveCleaner::new("a.cbz");
    assert!(matches!(c.clean_archive_file(&Vec::new(), 5), Ok(CleanPlan::Unchanged)));
    let only_text = vec![ArchiveEntry { name: "info.txt".to_string(), data: vec![0; 8] }];
    assert!(matches!(c.clean_archive_file(&only_text, 5), Ok(CleanPlan::Unchanged)));
}

#[test]
fn threshold_sized_pages_are_not_oversized() {
    let c = ArchiveCleaner::new("a.cbz");
    assert!(!c.image_meets_criteria(1024, 1024));
    assert!(!c.image_meets_criteria(1025, 1024));
    assert!(c.image_meets_criteria(1025, 1025));
    assert!(matches!(c.process_image(0, &blank(1024, 1024)), Err(PageError::Skipped)));
}

#[test]
fn strip_single_short_band() {
    let c = ArchiveCleaner::new("a.cbz");
    let out = c.process_manhwa_images(&vec![blank(5, 40), blank(3, 20)]).unwrap();
    assert_eq!(out.len(), 1);
    assert_eq!(out[0].name, "1.webp");
    let band = c.read_images_from_archive(&out);
    assert_eq!((band[0].width, band[0].height), (5, 60));
}
