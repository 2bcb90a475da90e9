//! How a package's file gets into place: the formats of the download, the
//! file operations of an install, and the one backup that a revert restores.

use vstd::prelude::*;
use vstd::string::*;

use crate::download::Download;
use crate::path::{file_name, file_name_of, join, joined};
use crate::text::{ends_with, is_suffix, same_text};

verus! {

broadcast use vstd::string::group_string_axioms;

/// How the downloaded file is packaged.
#[derive(Clone, Copy, Debug, PartialEq, Eq, Structural)]
pub enum Archived {
    /// The file is the executable itself.
    Plain,
    /// A tar container, of which one member is the executable.
    Tar,
}

/// The decoder through which the download is written.
#[derive(Clone, Copy, Debug, PartialEq, Eq, Structural)]
pub enum Compression {
    /// The bytes are written as they come.
    Plain,
    Gzip,
    Bzip2,
    Xz,
}

/// The archive kind that `name` names.
pub open spec fn archive_named(name: Seq<char>) -> Option<Archived> {
    if name == "tar"@ {
        Some(Archived::Tar)
    } else if name == "none"@ {
        Some(Archived::Plain)
    } else {
        None
    }
}

/// The compression that `name` names; each name has a variant of its own.
pub open spec fn compression_named(name: Seq<char>) -> Option<Compression> {
    if name == "gzip"@ {
        Some(Compression::Gzip)
    } else if name == "bzip2"@ {
        Some(Compression::Bzip2)
    } else if name == "xz"@ {
        Some(Compression::Xz)
    } else if name == "none"@ {
        Some(Compression::Plain)
    } else {
        None
    }
}

impl Archived {
    /// The names that `from_name` accepts.
    pub fn variants() -> (r: [&'static str; 2])
        ensures
            r@.len() == 2,
            r@[0]@ == "tar"@,
            r@[1]@ == "none"@,
    {
        ["tar", "none"]
    }

    /// The archive kind named `s`, or the complaint about `s`.
    pub fn from_name(s: &str) -> (r: Result<Archived, String>)
        ensures
            match archive_named(s@) {
                Some(a) => r == Ok::<Archived, String>(a),
                None => r matches Err(e) && e@ == "Invalid archive: "@ + s@,
            },
    {
        if same_text(s, "tar") {
            Ok(Archived::Tar)
        } else if same_text(s, "none") {
            Ok(Archived::Plain)
        } else {
            Err(String::from_str("Invalid archive: ").concat(s))
        }
    }
}

impl std::str::FromStr for Archived {
    type Err = String;

    /// The archive kind named `s`, or the complaint about `s`.
    fn from_str(s: &str) -> (r: Result<Self, Self::Err>)
        ensures
            match archive_named(s@) {
                Some(a) => r == Ok::<Archived, String>(a),
                None => r matches Err(e) && e@ == "Invalid archive: "@ + s@,
            },
    {
        Archived::from_name(s)
    }
}

impl Compression {
    /// The names that `from_name` accepts.
    pub fn variants() -> (r: [&'static str; 4])
        ensures
            r@.len() == 4,
            r@[0]@ == "gzip"@,
            r@[1]@ == "bzip2"@,
            r@[2]@ == "xz"@,
            r@[3]@ == "none"@,
    {
        ["gzip", "bzip2", "xz", "none"]
    }

    /// The compression named `s`, or the complaint about `s`.
    pub fn from_name(s: &str) -> (r: Result<Compression, String>)
        ensures
            match compression_named(s@) {
                Some(c) => r == Ok::<Compression, String>(c),
                None => r matches Err(e) && e@ == "Invalid compression: "@ + s@,
            },
    {
        if same_text(s, "gzip") {
            Ok(Compression::Gzip)
        } else if same_text(s, "bzip2") {
            Ok(Compression::Bzip2)
        } else if same_text(s, "xz") {
            Ok(Compression::Xz)
        } else if same_text(s, "none") {
            Ok(Compression::Plain)
        } else {
            Err(String::from_str("Invalid compression: ").concat(s))
        }
    }
}

impl std::str::FromStr for Compression {
    type Err = String;

    /// The compression named `s`, or the complaint about `s`.
    fn from_str(s: &str) -> (r: Result<Self, Self::Err>)
        ensures
            match compression_named(s@) {
                Some(c) => r == Ok::<Compression, String>(c),
                None => r matches Err(e) && e@ == "Invalid compression: "@ + s@,
            },
    {
        Compression::from_name(s)
    }
}

/// Whether the suffix of `url` is one of a tar container, compressed or not.
pub open spec fn names_tar(url: Seq<char>) -> bool {
    ||| is_suffix(".tar"@, url)
    ||| is_suffix(".tar.gz"@, url)
    ||| is_suffix(".tgz"@, url)
    ||| is_suffix(".tar.bz"@, url)
    ||| is_suffix(".tar.bz2"@, url)
    ||| is_suffix(".tbz"@, url)
    ||| is_suffix(".tar.xz"@, url)
    ||| is_suffix(".txz"@, url)
}

/// The archive kind of a download: the one given, else the one that the
/// suffix of `url` names.
pub open spec fn guessed_archive(given: Option<Archived>, url: Seq<char>) -> Archived {
    match given {
        Some(a) => a,
        None => if names_tar(url) {
            Archived::Tar
        } else {
            Archived::Plain
        },
    }
}

/// The compression of a download: the one given, else the one that the
/// suffix of `url` names.
pub open spec fn guessed_compression(given: Option<Compression>, url: Seq<char>) -> Compression {
    match given {
        Some(c) => c,
        None => if is_suffix(".gz"@, url) || is_suffix(".tgz"@, url) {
            Compression::Gzip
        } else if is_suffix(".bz"@, url) || is_suffix(".bz2"@, url) || is_suffix(".tbz"@, url) {
            Compression::Bzip2
        } else if is_suffix(".xz"@, url) || is_suffix(".txz"@, url) {
            Compression::Xz
        } else {
            Compression::Plain
        },
    }
}

/// A suffix of a suffix of `s` is a suffix of `s`.
proof fn lemma_suffix_of_suffix(a: Seq<char>, b: Seq<char>, s: Seq<char>)
    requires
        is_suffix(a, b),
        is_suffix(b, s),
    ensures
        is_suffix(a, s),
{
    let inner = b.subrange(b.len() - a.len(), b.len() as int);
    let outer = s.subrange(s.len() - a.len(), s.len() as int);
    let mid = s.subrange(s.len() - b.len(), s.len() as int);
    assert forall|i: int| 0 <= i < a.len() implies outer[i] == a[i] by {
        assert(outer[i] == mid[b.len() - a.len() + i]);
        assert(inner[i] == b[b.len() - a.len() + i]);
    }
    assert(outer =~= a);
}

/// A string ends with the last two characters of each of its suffixes.
proof fn lemma_tail(a: Seq<char>, s: Seq<char>)
    requires
        is_suffix(a, s),
        a.len() >= 2,
    ensures
        s.len() >= 2,
        s[s.len() - 1] == a[a.len() - 1],
        s[s.len() - 2] == a[a.len() - 2],
{
    let tail = s.subrange(s.len() - a.len(), s.len() as int);
    assert(tail[a.len() - 1] == s[s.len() - 1]);
    assert(tail[a.len() - 2] == s[s.len() - 2]);
}

/// The most specific suffix decides both formats: where nothing is
/// given, the suffix of a compressed tar container names the container
/// and its compression, the suffix of a bare container names no
/// compression, and a suffix that is not known names neither.
pub proof fn lemma_suffix_decides(url: Seq<char>)
    ensures
        is_suffix(".tar.gz"@, url) || is_suffix(".tgz"@, url) ==> guessed_archive(None, url)
            == Archived::Tar && guessed_compression(None, url) == Compression::Gzip,
        is_suffix(".tar.bz"@, url) || is_suffix(".tar.bz2"@, url) || is_suffix(".tbz"@, url)
            ==> guessed_archive(None, url) == Archived::Tar && guessed_compression(None, url)
            == Compression::Bzip2,
        is_suffix(".tar.xz"@, url) || is_suffix(".txz"@, url) ==> guessed_archive(None, url)
            == Archived::Tar && guessed_compression(None, url) == Compression::Xz,
        is_suffix(".tar"@, url) ==> guessed_archive(None, url) == Archived::Tar
            && guessed_compression(None, url) == Compression::Plain,
        !names_tar(url) ==> guessed_archive(None, url) == Archived::Plain,
        !names_tar(url) && !is_suffix(".gz"@, url) && !is_suffix(".bz"@, url) && !is_suffix(
            ".bz2"@,
            url,
        ) && !is_suffix(".xz"@, url) ==> guessed_compression(None, url) == Compression::Plain,
{
    reveal_strlit(".tar");
    reveal_strlit(".tar.gz");
    reveal_strlit(".tgz");
    reveal_strlit(".tar.bz");
    reveal_strlit(".tar.bz2");
    reveal_strlit(".tbz");
    reveal_strlit(".tar.xz");
    reveal_strlit(".txz");
    reveal_strlit(".gz");
    reveal_strlit(".bz");
    reveal_strlit(".bz2");
    reveal_strlit(".xz");
    if is_suffix(".tar"@, url) {
        lemma_tail(".tar"@, url);
    }
    if is_suffix(".tar.gz"@, url) {
        lemma_tail(".tar.gz"@, url);
        assert(".tar.gz"@.subrange(4, 7) =~= ".gz"@);
        lemma_suffix_of_suffix(".gz"@, ".tar.gz"@, url);
    }
    if is_suffix(".tgz"@, url) {
        lemma_tail(".tgz"@, url);
    }
    if is_suffix(".tar.bz"@, url) {
        lemma_tail(".tar.bz"@, url);
        assert(".tar.bz"@.subrange(4, 7) =~= ".bz"@);
        lemma_suffix_of_suffix(".bz"@, ".tar.bz"@, url);
    }
    if is_suffix(".tar.bz2"@, url) {
        lemma_tail(".tar.bz2"@, url);
        assert(".tar.bz2"@.subrange(4, 8) =~= ".bz2"@);
        lemma_suffix_of_suffix(".bz2"@, ".tar.bz2"@, url);
    }
    if is_suffix(".tbz"@, url) {
        lemma_tail(".tbz"@, url);
    }
    if is_suffix(".tar.xz"@, url) {
        lemma_tail(".tar.xz"@, url);
        assert(".tar.xz"@.subrange(4, 7) =~= ".xz"@);
        lemma_suffix_of_suffix(".xz"@, ".tar.xz"@, url);
    }
    if is_suffix(".txz"@, url) {
        lemma_tail(".txz"@, url);
    }
    if is_suffix(".gz"@, url) {
        lemma_tail(".gz"@, url);
    }
    if is_suffix(".bz"@, url) {
        lemma_tail(".bz"@, url);
    }
    if is_suffix(".bz2"@, url) {
        lemma_tail(".bz2"@, url);
    }
    if is_suffix(".xz"@, url) {
        lemma_tail(".xz"@, url);
    }
}

/// Where a package's file comes from and where it goes.
#[derive(Debug, PartialEq, Eq)]
pub struct Installer {
    /// The address of the download.
    pub url: String,
    /// The destination of the executable.
    pub path: String,
    /// The compression, where the user named it.
    pub compression: Option<Compression>,
    /// The archive kind, where the user named it.
    pub archive: Option<Archived>,
    /// Where the file that the last install displaced is kept.
    pub backup: Option<String>,
}

/// What an `Installer` stands for in contracts.
pub struct InstallerView {
    pub url: Seq<char>,
    pub path: Seq<char>,
    pub compression: Option<Compression>,
    pub archive: Option<Archived>,
    pub backup: Option<Seq<char>>,
}

impl View for Installer {
    type V = InstallerView;

    open spec fn view(&self) -> InstallerView {
        InstallerView {
            url: self.url@,
            path: self.path@,
            compression: self.compression,
            archive: self.archive,
            backup: match self.backup {
                Some(b) => Some(b@),
                None => None,
            },
        }
    }
}

impl Clone for Installer {
    fn clone(&self) -> (r: Self)
        ensures
            r == *self,
    {
        Installer {
            url: self.url.clone(),
            path: self.path.clone(),
            compression: self.compression,
            archive: self.archive,
            backup: match &self.backup {
                Some(b) => Some(b.clone()),
                None => None,
            },
        }
    }
}

impl Installer {
    /// The archive kind of the download.
    pub fn guess_archive(&self) -> (r: Archived)
        ensures
            r == guessed_archive(self.archive, self.url@),
    {
        if let Some(a) = self.archive {
            return a;
        }
        let url = self.url.as_str();
        if ends_with(url, ".tar") || ends_with(url, ".tar.gz") || ends_with(url, ".tgz")
            || ends_with(url, ".tar.bz") || ends_with(url, ".tar.bz2") || ends_with(url, ".tbz")
            || ends_with(url, ".tar.xz") || ends_with(url, ".txz") {
            Archived::Tar
        } else {
            Archived::Plain
        }
    }

    /// The compression of the download.
    pub fn guess_compression(&self) -> (r: Compression)
        ensures
            r == guessed_compression(self.compression, self.url@),
    {
        if let Some(c) = self.compression {
            return c;
        }
        let url = self.url.as_str();
        if ends_with(url, ".gz") || ends_with(url, ".tgz") {
            Compression::Gzip
        } else if ends_with(url, ".bz") || ends_with(url, ".bz2") || ends_with(url, ".tbz") {
            Compression::Bzip2
        } else if ends_with(url, ".xz") || ends_with(url, ".txz") {
            Compression::Xz
        } else {
            Compression::Plain
        }
    }
}

/// The permission bits of an installed executable: everything for the
/// owner, read and execute for the group, nothing for others.
pub const EXE_MODE: u32 = 0o750;

/// One operation on files that an install, a revert or a removal asks for.
#[derive(Clone, Debug, PartialEq, Eq)]
pub enum FileOp {
    /// Download `url` through the decoder of `compression` into the file `to`.
    Fetch { url: String, compression: Compression, to: String },
    /// Copy `from` over `to`, remove `from`, and give `to` the mode `EXE_MODE`.
    Move { from: String, to: String },
    /// Write the member `index` of the tar container `from` to `to`, with the mode `EXE_MODE`.
    Extract { from: String, index: usize, to: String },
    /// Delete the file `path`.
    Remove { path: String },
}

/// What a `FileOp` stands for in contracts.
pub enum FileOpView {
    Fetch { url: Seq<char>, compression: Compression, to: Seq<char> },
    Move { from: Seq<char>, to: Seq<char> },
    Extract { from: Seq<char>, index: usize, to: Seq<char> },
    Remove { path: Seq<char> },
}

impl View for FileOp {
    type V = FileOpView;

    open spec fn view(&self) -> FileOpView {
        match *self {
            FileOp::Fetch { url, compression, to } => FileOpView::Fetch {
                url: url@,
                compression: compression,
                to: to@,
            },
            FileOp::Move { from, to } => FileOpView::Move { from: from@, to: to@ },
            FileOp::Extract { from, index, to } => FileOpView::Extract {
                from: from@,
                index: index,
                to: to@,
            },
            FileOp::Remove { path } => FileOpView::Remove { path: path@ },
        }
    }
}

impl FileOpView {
    /// The files after the operation, where `files` maps each path to the
    /// bytes of the file there and `payload` is what a fetch downloads or
    /// an extraction reads from the container.
    pub open spec fn effect(self, files: Map<Seq<char>, Seq<u8>>, payload: Seq<u8>) -> Map<
        Seq<char>,
        Seq<u8>,
    > {
        match self {
            FileOpView::Fetch { to, .. } => files.insert(to, payload),
            FileOpView::Move { from, to } => files.insert(to, files[from]).remove(from),
            FileOpView::Extract { to, .. } => files.insert(to, payload),
            FileOpView::Remove { path } => files.remove(path),
        }
    }
}

/// Why an install cannot be planned.
#[derive(Clone, Copy, Debug, PartialEq, Eq, Structural)]
pub enum InstallError {
    /// The destination path has no final component to name a file by.
    NoFileName,
}

/// Why nothing can be taken out of a container.
#[derive(Clone, Copy, Debug, PartialEq, Eq, Structural)]
pub enum ArchiveError {
    /// The container has no member, so there is nothing to choose.
    Empty,
    /// The chosen index is not that of a member.
    NoSuchEntry,
}

/// A member of a tar container, as its header describes it.
#[derive(Clone, Debug, PartialEq, Eq)]
pub struct TarEntry {
    pub path: String,
    pub size: u64,
}

/// What became of the parts of an install when the payload is in place.
#[derive(Clone, Debug, PartialEq, Eq)]
pub struct Placement {
    /// The move that takes the file at the destination out of the way, where there is one.
    pub displace: Option<FileOp>,
    /// How the payload is packaged.
    pub archive: Archived,
    /// The temporary file that holds the payload.
    pub from: String,
    /// The destination of the executable.
    pub to: String,
}

/// The view of an optional string.
pub open spec fn text_of(s: Option<String>) -> Option<Seq<char>> {
    match s {
        Some(t) => Some(t@),
        None => None,
    }
}

/// The view of an optional file operation.
pub open spec fn op_of(op: Option<FileOp>) -> Option<FileOpView> {
    match op {
        Some(o) => Some(o@),
        None => None,
    }
}

impl Archived {
    /// The members of a container as the user is shown them: index, size
    /// in bytes and path, in the container's order.
    pub fn list_tar(entries: &Vec<TarEntry>) -> (r: Result<Vec<(usize, u64, String)>, ArchiveError>)
        ensures
            entries@.len() == 0 ==> r == Err::<Vec<(usize, u64, String)>, ArchiveError>(
                ArchiveError::Empty,
            ),
            entries@.len() > 0 ==> (r matches Ok(lines) && lines@.len() == entries@.len() && forall|
                i: int,
            |
                0 <= i < lines@.len() ==> (#[trigger] lines@[i]).0 == i && lines@[i].1
                    == entries@[i].size && lines@[i].2@ == entries@[i].path@),
    {
        if entries.len() == 0 {
            return Err(ArchiveError::Empty);
        }
        let mut lines: Vec<(usize, u64, String)> = Vec::new();
        let mut i: usize = 0;
        while i < entries.len()
            invariant
                i <= entries.len(),
                lines@.len() == i,
                forall|k: int|
                    0 <= k < i ==> (#[trigger] lines@[k]).0 == k && lines@[k].1 == entries@[k].size
                        && lines@[k].2@ == entries@[k].path@,
            decreases entries.len() - i,
        {
            lines.push((i, entries[i].size, entries[i].path.clone()));
            i += 1;
        }
        Ok(lines)
    }

    /// The extraction of the member `pick` of the container `src` to `dest`.
    pub fn install_tar(&self, src: &str, dest: &str, entries: &Vec<TarEntry>, pick: usize) -> (r:
        Result<FileOp, ArchiveError>)
        ensures
            entries@.len() == 0 ==> r == Err::<FileOp, ArchiveError>(ArchiveError::Empty),
            0 < entries@.len() <= pick ==> r == Err::<FileOp, ArchiveError>(
                ArchiveError::NoSuchEntry,
            ),
            pick < entries@.len() ==> (r matches Ok(op) && op@ == (FileOpView::Extract {
                from: src@,
                index: pick,
                to: dest@,
            })),
    {
        if entries.len() == 0 {
            Err(ArchiveError::Empty)
        } else if pick >= entries.len() {
            Err(ArchiveError::NoSuchEntry)
        } else {
            Ok(FileOp::Extract { from: String::from_str(src), index: pick, to: String::from_str(dest) })
        }
    }

    /// The operation that puts the payload `src` in place at `dest`: a
    /// move for a plain file, and for a container the extraction of the
    /// member `pick` of `entries`.
    pub fn install(&self, src: &str, dest: &str, entries: &Vec<TarEntry>, pick: usize) -> (r:
        Result<FileOp, ArchiveError>)
        ensures
            *self == Archived::Plain ==> (r matches Ok(op) && op@ == (FileOpView::Move {
                from: src@,
                to: dest@,
            })),
            *self == Archived::Tar && entries@.len() == 0 ==> r == Err::<FileOp, ArchiveError>(
                ArchiveError::Empty,
            ),
            *self == Archived::Tar && 0 < entries@.len() <= pick ==> r == Err::<
                FileOp,
                ArchiveError,
            >(ArchiveError::NoSuchEntry),
            *self == Archived::Tar && pick < entries@.len() ==> (r matches Ok(op) && op@ == (
            FileOpView::Extract { from: src@, index: pick, to: dest@ })),
    {
        match self {
            Archived::Plain => Ok(
                FileOp::Move { from: String::from_str(src), to: String::from_str(dest) },
            ),
            Archived::Tar => self.install_tar(src, dest, entries, pick),
        }
    }
}

impl InstallerView {
    /// Where in `data_dir` the file at the destination is kept when it is
    /// displaced: under its own name.
    pub open spec fn backup_place(self, data_dir: Seq<char>) -> Option<Seq<char>> {
        match file_name_of(self.path) {
            Some(name) => Some(joined(data_dir, name)),
            None => None,
        }
    }

    /// The move that an install makes before it puts the payload in
    /// place: none where the destination is free.
    pub open spec fn displacement(self, occupied: bool, data_dir: Seq<char>) -> Option<FileOpView> {
        match self.backup_place(data_dir) {
            Some(place) => if occupied {
                Some(FileOpView::Move { from: self.path, to: place })
            } else {
                None
            },
            None => None,
        }
    }

    /// The installer after an install: where a file was displaced, its
    /// new place is the backup, whatever the backup was before.
    pub open spec fn after_install(self, occupied: bool, data_dir: Seq<char>) -> InstallerView {
        match self.backup_place(data_dir) {
            Some(place) => if occupied {
                InstallerView { backup: Some(place), ..self }
            } else {
                self
            },
            None => self,
        }
    }

    /// The move that a revert makes: none where there is no backup.
    pub open spec fn restoration(self) -> Option<FileOpView> {
        match self.backup {
            Some(b) => Some(FileOpView::Move { from: b, to: self.path }),
            None => None,
        }
    }

    /// The installer after a revert: the backup is spent.
    pub open spec fn after_revert(self) -> InstallerView {
        InstallerView { backup: None, ..self }
    }

    /// The removals that take the package off the disk: the backup where
    /// there is one, then the executable.
    pub open spec fn removals(self) -> Seq<FileOpView> {
        match self.backup {
            Some(b) => seq![FileOpView::Remove { path: b }, FileOpView::Remove { path: self.path }],
            None => seq![FileOpView::Remove { path: self.path }],
        }
    }
}

/// The views of a list of file operations.
pub open spec fn ops_of(ops: Seq<FileOp>) -> Seq<FileOpView> {
    ops.map_values(|op: FileOp| op@)
}

/// A revert right after an install over an existing file brings that
/// file back: the destination holds the bytes it held before the install,
/// and the installer has no backup left. `files` is the disk before the
/// install and `placed` the disk after it, on which the displaced file
/// lies untouched at its backup place. This needs the backup place to
/// differ from the destination.
pub proof fn lemma_revert_restores(
    before: InstallerView,
    data_dir: Seq<char>,
    files: Map<Seq<char>, Seq<u8>>,
    placed: Map<Seq<char>, Seq<u8>>,
    payload: Seq<u8>,
)
    requires
        files.dom().contains(before.path),
        before.backup_place(data_dir) is Some,
        before.backup_place(data_dir)->0 != before.path,
        ({
            let moved = before.displacement(true, data_dir)->0.effect(files, payload);
            let place = before.backup_place(data_dir)->0;
            placed.dom().contains(place) && placed[place] == moved[place]
        }),
    ensures
        before.after_install(true, data_dir).restoration() is Some,
        ({
            let after = before.after_install(true, data_dir);
            let restored = after.restoration()->0.effect(placed, payload);
            &&& restored.dom().contains(before.path)
            &&& restored[before.path] == files[before.path]
            &&& !restored.dom().contains(before.backup_place(data_dir)->0)
        }),
        before.after_install(true, data_dir).after_revert().backup is None,
{
}

/// A revert without a backup does nothing: it asks for no move and
/// leaves the installer as it is. So a second revert is idle.
pub proof fn lemma_revert_twice(installer: InstallerView)
    ensures
        installer.after_revert().restoration() is None,
        installer.after_revert().after_revert() == installer.after_revert(),
        installer.backup is None ==> installer.restoration() is None && installer.after_revert()
            == installer,
{
}

/// The last backup wins: an install over an existing file records the
/// new backup place, whatever the installer remembered before.
pub proof fn lemma_last_backup_wins(
    installer: InstallerView,
    earlier: Option<Seq<char>>,
    data_dir: Seq<char>,
)
    requires
        installer.backup_place(data_dir) is Some,
    ensures
        (InstallerView { backup: earlier, ..installer }).after_install(true, data_dir).backup
            == installer.backup_place(data_dir),
{
}

/// The install of a plain file copies: after the fetch into the
/// temporary file and its move to the destination, the destination holds
/// the payload byte for byte, and the temporary file is gone.
pub proof fn lemma_plain_install_copies(
    files: Map<Seq<char>, Seq<u8>>,
    url: Seq<char>,
    compression: Compression,
    tmp: Seq<char>,
    dest: Seq<char>,
    payload: Seq<u8>,
)
    requires
        tmp != dest,
    ensures
        ({
            let fetched = (FileOpView::Fetch { url, compression, to: tmp }).effect(files, payload);
            let placed = (FileOpView::Move { from: tmp, to: dest }).effect(fetched, payload);
            &&& placed.dom().contains(dest)
            &&& placed[dest] == payload
            &&& !placed.dom().contains(tmp)
        }),
{
}

impl Installer {
    /// The scratch directory below `temp_dir` and the temporary file in
    /// it, which carries the name of the destination.
    pub fn tmp_file(&self, temp_dir: &str) -> (r: Result<(String, String), InstallError>)
        ensures
            match file_name_of(self.path@) {
                None => r == Err::<(String, String), InstallError>(InstallError::NoFileName),
                Some(name) => r matches Ok(t) && t.0@ == joined(temp_dir@, "blindspot"@) && t.1@
                    == joined(t.0@, name),
            },
    {
        match file_name(self.path.as_str()) {
            None => Err(InstallError::NoFileName),
            Some(name) => {
                let dir = join(temp_dir, "blindspot");
                let file = join(dir.as_str(), name.as_str());
                Ok((dir, file))
            },
        }
    }

    /// What is to be fetched for an install: the address, the formats, and
    /// the temporary file below `temp_dir` that receives the payload.
    pub fn download(&self, temp_dir: &str) -> (r: Result<Download, InstallError>)
        ensures
            match file_name_of(self.path@) {
                None => r == Err::<Download, InstallError>(InstallError::NoFileName),
                Some(name) => r matches Ok(d) && d.url@ == self.url@ && d.compression
                    == guessed_compression(self.compression, self.url@) && d.archive
                    == guessed_archive(self.archive, self.url@) && d.dir@ == joined(
                    temp_dir@,
                    "blindspot"@,
                ) && d.to@ == joined(d.dir@, name),
            },
    {
        match self.tmp_file(temp_dir) {
            Err(e) => Err(e),
            Ok(tmp) => Ok(self.download_into(tmp.0, tmp.1)),
        }
    }

    /// What is to be fetched for an install, into the temporary file `to`
    /// of the scratch directory `dir`.
    pub fn download_into(&self, dir: String, to: String) -> (r: Download)
        ensures
            r.url@ == self.url@,
            r.compression == guessed_compression(self.compression, self.url@),
            r.archive == guessed_archive(self.archive, self.url@),
            r.dir@ == dir@,
            r.to@ == to@,
    {
        Download {
            url: self.url.clone(),
            compression: self.guess_compression(),
            archive: self.guess_archive(),
            dir,
            to,
        }
    }

    /// The second half of an install, when the payload lies in `tmp`.
    /// Where a file occupies the destination, it is to be moved into
    /// `data_dir` under its own name, and the installer remembers that
    /// place as its backup, in place of any earlier one. The installer is
    /// as it is to be kept when the operations have succeeded; where one
    /// fails, the installer of before the call stands.
    pub fn install(&mut self, tmp: &str, occupied: bool, data_dir: &str) -> (r: Result<
        Placement,
        InstallError,
    >)
        ensures
            final(self)@ == old(self)@.after_install(occupied, data_dir@),
            occupied && file_name_of(old(self).path@) is None ==> r == Err::<
                Placement,
                InstallError,
            >(InstallError::NoFileName),
            !occupied || file_name_of(old(self).path@) is Some ==> (r matches Ok(p) && p.archive
                == guessed_archive(old(self).archive, old(self).url@) && p.from@ == tmp@ && p.to@
                == old(self).path@ && op_of(p.displace) == old(self)@.displacement(
                occupied,
                data_dir@,
            )),
    {
        if !occupied {
            return Ok(self.install_with(tmp, None));
        }
        match file_name(self.path.as_str()) {
            None => Err(InstallError::NoFileName),
            Some(name) => Ok(self.install_with(tmp, Some(join(data_dir, name.as_str())))),
        }
    }

    /// The second half of an install, when the payload lies in `tmp` and
    /// the file that occupies the destination, if one does, is to be kept
    /// at `place`.
    pub fn install_with(&mut self, tmp: &str, place: Option<String>) -> (r: Placement)
        ensures
            final(self)@ == (InstallerView {
                backup: match place {
                    Some(p) => Some(p@),
                    None => old(self)@.backup,
                },
                ..old(self)@
            }),
            r.archive == guessed_archive(old(self).archive, old(self).url@),
            r.from@ == tmp@,
            r.to@ == old(self).path@,
            op_of(r.displace) == (match place {
                Some(p) => Some(FileOpView::Move { from: old(self).path@, to: p@ }),
                None => None,
            }),
    {
        let archive = self.guess_archive();
        let mut displace: Option<FileOp> = None;
        if let Some(target) = place {
            displace = Some(FileOp::Move { from: self.path.clone(), to: target.clone() });
            self.backup = Some(target);
        }
        Placement { displace, archive, from: String::from_str(tmp), to: self.path.clone() }
    }

    /// The move that puts the backup back over the destination, and none
    /// where there is no backup. The installer is as it is to be kept
    /// when the move has succeeded: its backup is spent.
    pub fn revert(&mut self) -> (r: Option<FileOp>)
        ensures
            final(self)@ == old(self)@.after_revert(),
            op_of(r) == old(self)@.restoration(),
    {
        let backup = self.backup.take();
        match backup {
            None => None,
            Some(from) => Some(FileOp::Move { from, to: self.path.clone() }),
        }
    }

    /// The removals that take the package off the disk: the backup where
    /// there is one, then the executable.
    pub fn uninstall(&self) -> (r: Vec<FileOp>)
        ensures
            ops_of(r@) == self@.removals(),
    {
        let mut ops: Vec<FileOp> = Vec::new();
        if let Some(b) = &self.backup {
            ops.push(FileOp::Remove { path: b.clone() });
        }
        ops.push(FileOp::Remove { path: self.path.clone() });
        ops
    }
}

} // verus!
