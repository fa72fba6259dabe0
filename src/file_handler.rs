//! Dispatch of a file to the handling that its extension calls for.
use vstd::prelude::*;
use crate::paths::path_file_name;
use crate::paths::path_parent;
use crate::paths::path_extension;
use crate::paths::path_join;
use crate::paths::before_last_dot;
use crate::paths::extension_of;
use crate::paths::join_path;
use crate::paths::extract_file_info;
pub use crate::paths::FileInfoError;

verus! {

/// The handling that a file's extension selects.
#[derive(Clone, Copy, Debug, PartialEq, Eq, Structural)]
pub enum FileKind {
    /// A zip container of page images: cleaned in place.
    Zip,
    /// A rar container: converted to zip, then cleaned.
    Rar,
    /// A tar container: converted to zip, then cleaned.
    Tar,
    /// A single still image: shrunk and stored as WebP.
    Image,
    /// An animated image: shrunk where oversized.
    Gif,
    /// A subtitle file: left as it is.
    Subtitle,
    /// A video: re-encoded by an external transcoder.
    Video,
}

/// The handling for a file with extension `ext`, `None` where the format is
/// not supported.
pub open spec fn kind_of_extension(ext: Option<Seq<char>>) -> Option<FileKind> {
    match ext {
        None => None,
        Some(e) => if e == "zip"@ {
            Some(FileKind::Zip)
        } else if e == "rar"@ {
            Some(FileKind::Rar)
        } else if e == "tar"@ || e == "gz"@ {
            Some(FileKind::Tar)
        } else if e == "jpg"@ || e == "jpeg"@ || e == "png"@ || e == "bmp"@ {
            Some(FileKind::Image)
        } else if e == "gif"@ {
            Some(FileKind::Gif)
        } else if e == "srt"@ || e == "ass"@ {
            Some(FileKind::Subtitle)
        } else if e == "mp4"@ || e == "mkv"@ {
            Some(FileKind::Video)
        } else {
            None
        },
    }
}

/// The extensions offered when picking a file.
pub open spec fn supported_extensions() -> Seq<Seq<char>> {
    seq![
        "zip"@, "rar"@, "tar"@, "gz"@, "jpg"@, "jpeg"@, "png"@, "bmp"@, "gif"@, "webp"@,
        "mp4"@, "mkv"@, "srt"@, "ass"@,
    ]
}

/// The message for a file whose format is not supported.
pub open spec fn unsupported_message(path: Seq<char>) -> Seq<char> {
    "Unsupported file format: "@ + path
}

/// `s` holds exactly the text `lit`.
fn text_is(s: &String, lit: &str) -> (r: bool)
    ensures
        r == (s@ == lit@),
{
    *s == String::from_str(lit)
}

/// A file to clean, with its directory and its name without extension.
pub struct FileHandler {
    pub dir_path: String,
    pub file_path: String,
    pub file_name: String,
}

impl FileHandler {
    /// A handler for the file at `archive_path`, which names a file in a
    /// directory.
    pub fn new(archive_path: &str) -> (r: Self)
        requires
            path_file_name(archive_path@) is Some,
            path_parent(archive_path@) is Some,
        ensures
            r.file_path@ == archive_path@,
            r.file_name@ == before_last_dot(path_file_name(archive_path@)->0),
            r.dir_path@ == path_parent(archive_path@)->0,
    {
        match extract_file_info(archive_path) {
            Ok((file_name, dir_path)) => FileHandler {
                dir_path,
                file_path: String::from_str(archive_path),
                file_name,
            },
            Err(_) => {
                assert(false);
                FileHandler {
                    dir_path: String::new(),
                    file_path: String::new(),
                    file_name: String::new(),
                }
            },
        }
    }

    /// A handler for the file at `archive_path`, or `None` where the path
    /// names no file in a directory.
    pub fn try_new(archive_path: &str) -> (r: Option<Self>)
        ensures
            r is Some <==> (path_file_name(archive_path@) is Some && path_parent(archive_path@) is Some),
            r matches Some(h) ==> h.file_path@ == archive_path@ && h.file_name@ == before_last_dot(
                path_file_name(archive_path@)->0,
            ) && h.dir_path@ == path_parent(archive_path@)->0,
    {
        match extract_file_info(archive_path) {
            Ok(_) => Some(Self::new(archive_path)),
            Err(_) => None,
        }
    }

    /// The handling that the file's extension calls for, or the message for
    /// an unsupported format.
    pub fn clean(&self) -> (r: Result<FileKind, String>)
        ensures
            kind_of_extension(path_extension(self.file_path@)) matches Some(k) ==> r == Ok::<
                FileKind,
                String,
            >(k),
            kind_of_extension(path_extension(self.file_path@)) is None ==> (r matches Err(msg)
                && msg@ == unsupported_message(self.file_path@)),
    {
        let kind = match extension_of(self.file_path.as_str()) {
            None => None,
            Some(e) => if text_is(&e, "zip") {
                Some(FileKind::Zip)
            } else if text_is(&e, "rar") {
                Some(FileKind::Rar)
            } else if text_is(&e, "tar") || text_is(&e, "gz") {
                Some(FileKind::Tar)
            } else if text_is(&e, "jpg") || text_is(&e, "jpeg") || text_is(&e, "png") || text_is(
                &e,
                "bmp",
            ) {
                Some(FileKind::Image)
            } else if text_is(&e, "gif") {
                Some(FileKind::Gif)
            } else if text_is(&e, "srt") || text_is(&e, "ass") {
                Some(FileKind::Subtitle)
            } else if text_is(&e, "mp4") || text_is(&e, "mkv") {
                Some(FileKind::Video)
            } else {
                None
            },
        };
        match kind {
            Some(k) => Ok(k),
            None => {
                let mut msg = String::from_str("Unsupported file format: ");
                msg.append(self.file_path.as_str());
                Err(msg)
            },
        }
    }

    /// Subtitle files need no work.
    pub fn handle_subtitle_file(&self) -> (r: Result<(), String>)
        ensures
            r is Ok,
    {
        Ok(())
    }

    /// Where a rar or tar container is converted to: `<name>.zip` beside it.
    pub fn converted_zip_path(&self) -> (r: String)
        ensures
            r@ == path_join(self.dir_path@, self.file_name@ + ".zip"@),
    {
        let mut name = self.file_name.clone();
        name.append(".zip");
        join_path(self.dir_path.as_str(), name.as_str())
    }

    /// The extensions of the files that can be handled.
    pub fn get_supported_extensions() -> (r: Vec<&'static str>)
        ensures
            r@.len() == supported_extensions().len(),
            forall|i: int| 0 <= i < r@.len() ==> (#[trigger] r@[i])@ == supported_extensions()[i],
    {
        let r = vec![
            "zip", "rar", "tar", "gz", "jpg", "jpeg", "png", "bmp", "gif", "webp", "mp4", "mkv",
            "srt", "ass",
        ];
        assert(r@.map_values(|s: &str| s@) =~= supported_extensions());
        r
    }
}

} // verus!
