//! The prebuilt Cronet libraries: which archive belongs to a platform, where it is,
//! and how it is unpacked and linked.

use vstd::prelude::*;
use vstd::string::*;

use crate::text::{append_text, same_text};

verus! {

/// How an archive is unpacked.
#[derive(Clone, Copy, Debug, PartialEq, Eq, Structural)]
pub enum Unpacker {
    /// With `unzip`.
    Unzip,
    /// With `tar`.
    Tar,
}

/// An archive of Cronet.
pub struct CronetArchive {
    /// The name of the archive's file.
    pub filename: String,
    /// The directory that the archive unpacks to.
    pub folder: String,
    /// Where the archive is downloaded from.
    pub url: String,
    /// How the archive is unpacked.
    pub unpacker: Unpacker,
    /// Whether the directory is to be on the run-time search path of a program that is
    /// linked against the library.
    pub needs_rpath: bool,
}

/// The contents of a [`CronetArchive`].
pub struct CronetArchiveView {
    pub filename: Seq<char>,
    pub folder: Seq<char>,
    pub url: Seq<char>,
    pub unpacker: Unpacker,
    pub needs_rpath: bool,
}

impl View for CronetArchive {
    type V = CronetArchiveView;

    open spec fn view(&self) -> CronetArchiveView {
        CronetArchiveView {
            filename: self.filename@,
            folder: self.folder@,
            url: self.url@,
            unpacker: self.unpacker,
            needs_rpath: self.needs_rpath,
        }
    }
}

/// The name that the archives have for an operating system.
pub open spec fn os_tag(os: Seq<char>) -> Option<Seq<char>> {
    if os == "linux"@ {
        Some("linux"@)
    } else if os == "macos"@ {
        Some("mac"@)
    } else if os == "windows"@ {
        Some("win"@)
    } else {
        None
    }
}

/// The name that the archives have for a processor architecture.
pub open spec fn arch_tag(arch: Seq<char>) -> Option<Seq<char>> {
    if arch == "x86_64"@ {
        Some("x64"@)
    } else if arch == "aarch64"@ {
        Some("arm64"@)
    } else if arch == "x86"@ {
        Some("x86"@)
    } else if arch == "arm"@ {
        Some("arm"@)
    } else {
        None
    }
}

/// The directory that the archive of a platform unpacks to.
pub open spec fn folder_for(os: Seq<char>, arch: Seq<char>) -> Seq<char> {
    "cronet-v119.0.6045.66-"@ + os + "-"@ + arch
}

/// The archive for an operating system and a processor architecture, where there is one.
pub open spec fn archive_for(os: Seq<char>, arch: Seq<char>) -> Option<CronetArchiveView> {
    match (os_tag(os), arch_tag(arch)) {
        (Some(o), Some(a)) => {
            let folder = folder_for(o, a);
            let windows = os == "windows"@;
            let filename = folder + if windows {
                ".zip"@
            } else {
                ".tar.xz"@
            };
            Some(
                CronetArchiveView {
                    filename,
                    folder,
                    url: "https://github.com/sleeyax/cronet-binaries/releases/download/v119.0.6045.66/"@
                        + filename,
                    unpacker: if windows {
                        Unpacker::Unzip
                    } else {
                        Unpacker::Tar
                    },
                    needs_rpath: !windows,
                },
            )
        },
        _ => None,
    }
}

fn os_name(os: &str) -> (r: Option<&'static str>)
    ensures
        r is Some <==> os_tag(os@) is Some,
        r matches Some(tag) ==> os_tag(os@) == Some(tag@),
{
    if same_text(os, "linux") {
        Some("linux")
    } else if same_text(os, "macos") {
        Some("mac")
    } else if same_text(os, "windows") {
        Some("win")
    } else {
        None
    }
}

fn arch_name(arch: &str) -> (r: Option<&'static str>)
    ensures
        r is Some <==> arch_tag(arch@) is Some,
        r matches Some(tag) ==> arch_tag(arch@) == Some(tag@),
{
    if same_text(arch, "x86_64") {
        Some("x64")
    } else if same_text(arch, "aarch64") {
        Some("arm64")
    } else if same_text(arch, "x86") {
        Some("x86")
    } else if same_text(arch, "arm") {
        Some("arm")
    } else {
        None
    }
}

/// Picks the archive for an operating system and a processor architecture, or none
/// where there is no archive for the two.
pub fn cronet_archive(os: &str, arch: &str) -> (r: Option<CronetArchive>)
    ensures
        r is Some <==> archive_for(os@, arch@) is Some,
        r matches Some(archive) ==> archive_for(os@, arch@) == Some(archive@),
{
    let o = match os_name(os) {
        Some(o) => o,
        None => return None,
    };
    let a = match arch_name(arch) {
        Some(a) => a,
        None => return None,
    };
    let windows = same_text(os, "windows");
    let start = append_text("cronet-v119.0.6045.66-", o);
    let start = append_text(start.as_str(), "-");
    let folder = append_text(start.as_str(), a);
    let extension = if windows {
        ".zip"
    } else {
        ".tar.xz"
    };
    let filename = append_text(folder.as_str(), extension);
    let url = append_text(
        "https://github.com/sleeyax/cronet-binaries/releases/download/v119.0.6045.66/",
        filename.as_str(),
    );
    Some(
        CronetArchive {
            filename,
            folder,
            url,
            unpacker: if windows {
                Unpacker::Unzip
            } else {
                Unpacker::Tar
            },
            needs_rpath: !windows,
        },
    )
}

/// The archives have this name for an operating system.
pub open spec fn is_os(os: Seq<char>, tag: Seq<char>) -> bool {
    ||| os == "linux"@ && tag == "linux"@
    ||| os == "macos"@ && tag == "mac"@
    ||| os == "windows"@ && tag == "win"@
}

/// The archives have this name for a processor architecture.
pub open spec fn is_arch(arch: Seq<char>, tag: Seq<char>) -> bool {
    ||| arch == "x86_64"@ && tag == "x64"@
    ||| arch == "aarch64"@ && tag == "arm64"@
    ||| arch == "x86"@ && tag == "x86"@
    ||| arch == "arm"@ && tag == "arm"@
}

proof fn lemma_platforms()
    ensures
        "linux"@ != "macos"@,
        "linux"@ != "windows"@,
        "macos"@ != "windows"@,
        "x86_64"@ != "aarch64"@,
        "x86_64"@ != "x86"@,
        "x86_64"@ != "arm"@,
        "aarch64"@ != "x86"@,
        "aarch64"@ != "arm"@,
        "x86"@ != "arm"@,
{
    reveal_strlit("linux");
    reveal_strlit("macos");
    reveal_strlit("windows");
    reveal_strlit("x86_64");
    reveal_strlit("aarch64");
    reveal_strlit("x86");
    reveal_strlit("arm");
    assert("linux"@[0] != "macos"@[0]);
    assert("linux"@.len() != "windows"@.len());
    assert("macos"@.len() != "windows"@.len());
    assert("x86_64"@.len() != "aarch64"@.len());
    assert("x86_64"@.len() != "x86"@.len());
    assert("aarch64"@.len() != "x86"@.len());
    assert("x86"@[0] != "arm"@[0]);
}

/// There is an archive for each of three operating systems with each of four architectures,
/// and for no others. Its directory is named by the version, the system and the
/// architecture, its file is the directory's name with `.zip` for Windows and `.tar.xz` for
/// the others, and it is downloaded from the release of that version under the file's name.
/// It is unpacked, and found at run time, by what the system takes.
pub proof fn law_archive(os: Seq<char>, arch: Seq<char>, o: Seq<char>, a: Seq<char>)
    ensures
        is_os(os, o) && is_arch(arch, a) ==> (archive_for(os, arch) matches Some(archive) && {
            &&& archive.folder == "cronet-v119.0.6045.66-"@ + o + "-"@ + a
            &&& os == "windows"@ ==> archive.filename == archive.folder + ".zip"@
            &&& os != "windows"@ ==> archive.filename == archive.folder + ".tar.xz"@
            &&& archive.url
                == "https://github.com/sleeyax/cronet-binaries/releases/download/v119.0.6045.66/"@
                + archive.filename
            &&& archive.unpacker == Unpacker::Unzip <==> os == "windows"@
            &&& archive.needs_rpath <==> os == "linux"@ || os == "macos"@
        }),
        archive_for(os, arch) is Some ==> (os == "linux"@ || os == "macos"@ || os == "windows"@)
            && (arch == "x86_64"@ || arch == "aarch64"@ || arch == "x86"@ || arch == "arm"@),
{
    lemma_platforms();
}

} // verus!
