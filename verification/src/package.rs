//! A managed package: its name, its installer, the release installed and
//! the repository it was resolved from, with the decisions of an install
//! and of an update.

use vstd::prelude::*;
use vstd::string::*;

use crate::installer::{text_of, Installer, InstallerView};
use crate::text::chars_of;

verus! {

broadcast use vstd::string::group_string_axioms;

/// A point in time: seconds since the Unix epoch, and the nanoseconds into that second.
#[derive(Clone, Copy, Debug, PartialEq, Eq, Structural)]
pub struct Timestamp {
    pub secs: i64,
    pub nanos: u32,
}

/// What marks the version of an installed package.
#[derive(Debug, PartialEq, Eq)]
pub enum Release {
    /// The tag of the release, for a package of a repository.
    Version(String),
    /// When the file was fetched, for a package of a plain address.
    Dated(Timestamp),
}

/// What a `Release` stands for in contracts.
pub enum ReleaseView {
    Version(Seq<char>),
    Dated(Timestamp),
}

impl View for Release {
    type V = ReleaseView;

    open spec fn view(&self) -> ReleaseView {
        match *self {
            Release::Version(tag) => ReleaseView::Version(tag@),
            Release::Dated(at) => ReleaseView::Dated(at),
        }
    }
}

impl Clone for Release {
    fn clone(&self) -> (r: Self)
        ensures
            r == *self,
    {
        match self {
            Release::Version(tag) => Release::Version(tag.clone()),
            Release::Dated(at) => Release::Dated(*at),
        }
    }
}

/// A file that a release offers.
#[derive(Clone, Debug, PartialEq, Eq)]
pub struct Asset {
    /// The file's name, as the release document shows it.
    pub name: String,
    /// The file's size in bytes; none where the document gives no number.
    pub size: Option<u64>,
    /// The address of the download; none where the document gives no text.
    pub browser_download_url: Option<String>,
}

/// What an `Asset` stands for in contracts.
pub struct AssetView {
    pub name: Seq<char>,
    pub size: Option<u64>,
    pub browser_download_url: Option<Seq<char>>,
}

impl View for Asset {
    type V = AssetView;

    open spec fn view(&self) -> AssetView {
        AssetView {
            name: self.name@,
            size: self.size,
            browser_download_url: text_of(self.browser_download_url),
        }
    }
}

/// The latest release of a repository, as far as the release document shows it.
#[derive(Clone, Debug, PartialEq, Eq)]
pub struct LatestRelease {
    /// The tag; none where the document gives no text.
    pub tag_name: Option<String>,
    /// The files offered, in the document's order; none where it gives no list.
    pub assets: Option<Vec<Asset>>,
}

/// What a `LatestRelease` stands for in contracts.
pub struct LatestReleaseView {
    pub tag_name: Option<Seq<char>>,
    pub assets: Option<Seq<AssetView>>,
}

impl View for LatestRelease {
    type V = LatestReleaseView;

    open spec fn view(&self) -> LatestReleaseView {
        LatestReleaseView {
            tag_name: text_of(self.tag_name),
            assets: match self.assets {
                Some(list) => Some(list@.map_values(|a: Asset| a@)),
                None => None,
            },
        }
    }
}

/// Why a package cannot be installed or updated.
#[derive(Clone, Copy, Debug, PartialEq, Eq, Structural)]
pub enum PackageError {
    /// The repository answered with this status, not with 200.
    Status(u16),
    /// There is no release document to resolve the repository with.
    Unresolved,
    /// The release document names no tag.
    NoTag,
    /// The release document lists no file.
    NoAssets,
    /// A file of the release has no size.
    NoSize,
    /// The file chosen is not one of the release.
    NoSuchAsset,
    /// The file chosen has no address to download it from.
    NoDownloadUrl,
    /// The package came from a repository, but no tag is recorded for it.
    Corrupted,
}

impl LatestReleaseView {
    /// Why the files of the release cannot be offered for choice, if
    /// anything stands against it.
    pub open spec fn listing_error(self) -> Option<PackageError> {
        match self.assets {
            None => Some(PackageError::NoAssets),
            Some(list) => if list.len() == 0 {
                Some(PackageError::NoAssets)
            } else if self.tag_name is None {
                Some(PackageError::NoTag)
            } else if exists|i: int| 0 <= i < list.len() && (#[trigger] list[i]).size is None {
                Some(PackageError::NoSize)
            } else {
                None
            },
        }
    }

    /// The address of the file `pick` of the release.
    pub open spec fn download_url(self, pick: usize) -> Result<Seq<char>, PackageError> {
        match self.listing_error() {
            Some(e) => Err(e),
            None => if pick >= self.assets->0.len() {
                Err(PackageError::NoSuchAsset)
            } else {
                match self.assets->0[pick as int].browser_download_url {
                    Some(url) => Ok(url),
                    None => Err(PackageError::NoDownloadUrl),
                }
            },
        }
    }
}

/// How often `c` occurs in `s`.
pub open spec fn count_of(s: Seq<char>, c: char) -> nat
    decreases s.len(),
{
    if s.len() == 0 {
        0
    } else {
        count_of(s.drop_last(), c) + if s.last() == c {
            1nat
        } else {
            0nat
        }
    }
}

/// Whether `url` has the shape `owner/repo` of a repository: exactly one slash.
pub open spec fn is_repository(url: Seq<char>) -> bool {
    count_of(url, '/') == 1
}

/// Whether `url` names a repository rather than an address.
pub fn names_repository(url: &str) -> (r: bool)
    ensures
        r == is_repository(url@),
{
    let text = chars_of(url);
    let mut slashes: usize = 0;
    let mut i: usize = 0;
    while i < text.len()
        invariant
            i <= text.len(),
            slashes <= i,
            slashes == count_of(text@.take(i as int), '/'),
        decreases text.len() - i,
    {
        assert(text@.take(i + 1).drop_last() =~= text@.take(i as int));
        if text[i] == '/' {
            slashes += 1;
        }
        i += 1;
    }
    assert(text@.take(i as int) =~= text@);
    slashes == 1
}

/// The address that answers with the latest release of `repo`.
pub open spec fn release_url(repo: Seq<char>) -> Seq<char> {
    "https://api.github.com/repos/"@ + repo + "/releases/latest"@
}

/// One managed executable.
#[derive(Debug)]
pub struct Package {
    /// The name the user chose; the registry knows the package by it.
    pub name: String,
    /// Where the file comes from and goes.
    pub installer: Installer,
    /// What is installed.
    pub release: Option<Release>,
    /// When the package was last updated.
    pub last_update: Option<Timestamp>,
    /// The repository `owner/repo` that the package was resolved from.
    pub github: Option<String>,
}

/// What a `Package` stands for in contracts.
pub struct PackageView {
    pub name: Seq<char>,
    pub installer: InstallerView,
    pub release: Option<ReleaseView>,
    pub last_update: Option<Timestamp>,
    pub github: Option<Seq<char>>,
}

impl View for Package {
    type V = PackageView;

    open spec fn view(&self) -> PackageView {
        PackageView {
            name: self.name@,
            installer: self.installer@,
            release: match self.release {
                Some(r) => Some(r@),
                None => None,
            },
            last_update: self.last_update,
            github: text_of(self.github),
        }
    }
}

impl Clone for Package {
    fn clone(&self) -> (r: Self)
        ensures
            r == *self,
    {
        Package {
            name: self.name.clone(),
            installer: self.installer.clone(),
            release: match &self.release {
                Some(r) => Some(r.clone()),
                None => None,
            },
            last_update: self.last_update,
            github: match &self.github {
                Some(g) => Some(g.clone()),
                None => None,
            },
        }
    }
}

impl PartialEq for Package {
    /// Two packages are the same where their names are.
    fn eq(&self, other: &Self) -> (r: bool) {
        self.name == other.name
    }
}

impl vstd::std_specs::cmp::PartialEqSpecImpl for Package {
    open spec fn obeys_eq_spec() -> bool {
        true
    }

    open spec fn eq_spec(&self, other: &Self) -> bool {
        self.name@ == other.name@
    }
}

impl PackageView {
    /// The package after its install was resolved at the time `now`. A
    /// plain address needs no release: the package is dated. A repository
    /// is resolved with its latest release and the file `pick` of it: the
    /// package remembers the repository, fetches from the file's address
    /// and carries the release's tag.
    pub open spec fn installed(
        self,
        release: Option<LatestReleaseView>,
        pick: usize,
        now: Timestamp,
    ) -> Result<PackageView, PackageError> {
        if !is_repository(self.installer.url) {
            Ok(PackageView { release: Some(ReleaseView::Dated(now)), ..self })
        } else {
            match release {
                None => Err(PackageError::Unresolved),
                Some(latest) => match latest.download_url(pick) {
                    Err(e) => Err(e),
                    Ok(url) => Ok(
                        PackageView {
                            github: Some(self.installer.url),
                            installer: InstallerView { url: url, ..self.installer },
                            release: Some(ReleaseView::Version(latest.tag_name->0)),
                            ..self
                        },
                    ),
                },
            }
        }
    }

    /// The repository whose latest release an update of the package is
    /// decided with: the one it came from, else the one its address names.
    pub open spec fn origin(self) -> Option<Seq<char>> {
        match self.github {
            Some(repo) => Some(repo),
            None => if is_repository(self.installer.url) {
                Some(self.installer.url)
            } else {
                None
            },
        }
    }

    /// Whether the package came from a repository and carries the tag of
    /// the release `latest`.
    pub open spec fn is_latest(self, latest: LatestReleaseView) -> bool {
        self.github is Some && latest.tag_name is Some && self.release == Some(
            ReleaseView::Version(latest.tag_name->0),
        )
    }

    /// The outcome of an update at the time `now`: the package as it is
    /// to be after it, and whether anything is to be fetched for that.
    /// A package without a repository is installed anew from its address.
    /// A package of a repository is compared with the latest release: it
    /// stays as it is where the tags agree, and else moves to the file
    /// `pick` of the latest release.
    pub open spec fn updated(
        self,
        release: Option<LatestReleaseView>,
        pick: usize,
        now: Timestamp,
    ) -> Result<(PackageView, bool), PackageError> {
        match self.github {
            None => match self.installed(release, pick, now) {
                Err(e) => Err(e),
                Ok(next) => Ok((PackageView { last_update: Some(now), ..next }, true)),
            },
            Some(_) => match self.release {
                Some(ReleaseView::Version(current)) => match release {
                    None => Err(PackageError::Unresolved),
                    Some(latest) => match latest.tag_name {
                        None => Err(PackageError::NoTag),
                        Some(tag) => if tag == current {
                            Ok((self, false))
                        } else {
                            match latest.download_url(pick) {
                                Err(e) => Err(e),
                                Ok(url) => Ok(
                                    (
                                        PackageView {
                                            installer: InstallerView { url: url, ..self.installer },
                                            release: Some(ReleaseView::Version(tag)),
                                            last_update: Some(now),
                                            ..self
                                        },
                                        true,
                                    ),
                                ),
                            }
                        },
                    },
                },
                _ => Err(PackageError::Corrupted),
            },
        }
    }
}

/// A package of a repository whose recorded tag is the tag of the latest
/// release is left alone by an update: nothing is fetched, and the
/// package, the time of its last update included, stays as it is.
pub proof fn lemma_latest_is_left_alone(
    package: PackageView,
    latest: LatestReleaseView,
    pick: usize,
    now: Timestamp,
)
    requires
        package.is_latest(latest),
    ensures
        package.updated(Some(latest), pick, now) == Ok::<(PackageView, bool), PackageError>(
            (package, false),
        ),
        package.updated(Some(latest), pick, now)->Ok_0.0.last_update == package.last_update,
{
}

/// Neither an install nor an update renames a package or moves its
/// destination, and neither touches its backup.
pub proof fn lemma_identity_is_kept(
    package: PackageView,
    release: Option<LatestReleaseView>,
    pick: usize,
    now: Timestamp,
)
    ensures
        package.installed(release, pick, now) matches Ok(next) ==> next.name == package.name
            && next.installer.path == package.installer.path && next.installer.backup
            == package.installer.backup,
        package.updated(release, pick, now) matches Ok(next) ==> next.0.name == package.name
            && next.0.installer.path == package.installer.path && next.0.installer.backup
            == package.installer.backup,
{
}

/// The outcome of an update.
#[derive(Debug)]
pub struct Update {
    /// The package as it is to be when the update has succeeded.
    pub package: Package,
    /// Whether the install pipeline is to run for it.
    pub fetch: bool,
}

impl Package {
    /// The repository that an install would resolve this package from, if
    /// its address names one.
    pub fn source(&self) -> (r: Option<String>)
        ensures
            text_of(r) == (if is_repository(self.installer.url@) {
                Some(self.installer.url@)
            } else {
                None
            }),
    {
        if names_repository(self.installer.url.as_str()) {
            Some(self.installer.url.clone())
        } else {
            None
        }
    }

    /// The repository whose latest release an update of this package is
    /// decided with, if there is one.
    pub fn origin(&self) -> (r: Option<String>)
        ensures
            text_of(r) == self@.origin(),
    {
        match &self.github {
            Some(repo) => Some(repo.clone()),
            None => self.source(),
        }
    }

    /// Whether this package came from a repository and carries the tag
    /// of `latest`, so that an update has nothing to do.
    pub fn is_latest(&self, latest: &LatestRelease) -> (r: bool)
        ensures
            r == self@.is_latest(latest@),
    {
        if self.github.is_none() {
            return false;
        }
        match (&self.release, &latest.tag_name) {
            (Some(Release::Version(current)), Some(tag)) => *current == *tag,
            _ => false,
        }
    }

    /// The address to ask for the latest release of `repo`.
    pub fn github_release_url(&self, repo: &str) -> (r: String)
        ensures
            r@ == release_url(repo@),
    {
        String::from_str("https://api.github.com/repos/").concat(repo).concat("/releases/latest")
    }

    /// What the answer of the repository is taken for: only an answer of
    /// status 200 with a release document resolves it.
    pub fn github_get_latest_release(&self, status: u16, document: Option<LatestRelease>) -> (r:
        Result<LatestRelease, PackageError>)
        ensures
            status != 200 ==> r == Err::<LatestRelease, PackageError>(PackageError::Status(status)),
            status == 200 ==> r == (match document {
                Some(d) => Ok::<LatestRelease, PackageError>(d),
                None => Err(PackageError::Unresolved),
            }),
    {
        if status != 200 {
            Err(PackageError::Status(status))
        } else {
            match document {
                Some(d) => Ok(d),
                None => Err(PackageError::Unresolved),
            }
        }
    }

    /// The tag of `release`.
    pub fn github_tag_name(&self, release: &LatestRelease) -> (r: Result<String, PackageError>)
        ensures
            match release@.tag_name {
                Some(tag) => r matches Ok(t) && t@ == tag,
                None => r == Err::<String, PackageError>(PackageError::NoTag),
            },
    {
        match &release.tag_name {
            Some(tag) => Ok(tag.clone()),
            None => Err(PackageError::NoTag),
        }
    }

    /// The files of `release` as the user is shown them: index, size in
    /// bytes and name, in the release's order.
    pub fn github_assets(&self, release: &LatestRelease) -> (r: Result<
        Vec<(usize, u64, String)>,
        PackageError,
    >)
        ensures
            match release@.listing_error() {
                Some(e) => r == Err::<Vec<(usize, u64, String)>, PackageError>(e),
                None => r matches Ok(lines) && lines@.len() == release@.assets->0.len() && forall|
                    i: int,
                |
                    0 <= i < lines@.len() ==> (#[trigger] lines@[i]).0 == i && Some(lines@[i].1)
                        == release@.assets->0[i].size && lines@[i].2@ == release@.assets->0[i].name,
            },
    {
        let list = match &release.assets {
            None => {
                return Err(PackageError::NoAssets);
            },
            Some(list) => list,
        };
        if list.len() == 0 {
            return Err(PackageError::NoAssets);
        }
        if release.tag_name.is_none() {
            return Err(PackageError::NoTag);
        }
        let ghost assets = release@.assets->0;
        let mut lines: Vec<(usize, u64, String)> = Vec::new();
        let mut i: usize = 0;
        while i < list.len()
            invariant
                i <= list.len(),
                list.len() > 0,
                release@.tag_name is Some,
                release@.assets == Some(assets),
                assets == list@.map_values(|a: Asset| a@),
                lines@.len() == i,
                forall|k: int| 0 <= k < i ==> (#[trigger] assets[k]).size is Some,
                forall|k: int|
                    0 <= k < i ==> (#[trigger] lines@[k]).0 == k && Some(lines@[k].1)
                        == assets[k].size && lines@[k].2@ == assets[k].name,
            decreases list.len() - i,
        {
            assert(assets[i as int] == list@[i as int]@);
            match list[i].size {
                None => {
                    assert(assets[i as int].size is None);
                    return Err(PackageError::NoSize);
                },
                Some(size) => {
                    lines.push((i, size, list[i].name.clone()));
                },
            }
            i += 1;
        }
        Ok(lines)
    }

    /// Whether the user is to choose among the files of `release`: only
    /// where there are several.
    pub fn github_must_choose(&self, release: &LatestRelease) -> (r: bool)
        ensures
            r == (release@.assets matches Some(list) && list.len() > 1),
    {
        match &release.assets {
            Some(list) => list.len() > 1,
            None => false,
        }
    }

    /// The address of the file `pick` of `release`.
    pub fn github_dl_url(&self, release: &LatestRelease, pick: usize) -> (r: Result<
        String,
        PackageError,
    >)
        ensures
            match release@.download_url(pick) {
                Ok(url) => r matches Ok(u) && u@ == url,
                Err(e) => r == Err::<String, PackageError>(e),
            },
    {
        match self.github_assets(release) {
            Err(e) => Err(e),
            Ok(_) => {
                let list = match &release.assets {
                    None => {
                        return Err(PackageError::NoAssets);
                    },
                    Some(list) => list,
                };
                if pick >= list.len() {
                    return Err(PackageError::NoSuchAsset);
                }
                assert(release@.assets->0[pick as int] == list@[pick as int]@);
                match &list[pick].browser_download_url {
                    Some(url) => Ok(url.clone()),
                    None => Err(PackageError::NoDownloadUrl),
                }
            },
        }
    }

    /// Resolves the install of this package at the time `now`, with the
    /// latest release of its repository and the file `pick` of it where
    /// its address names a repository. On an error the package is as it was.
    pub fn install(&mut self, release: Option<&LatestRelease>, pick: usize, now: Timestamp) -> (r:
        Result<(), PackageError>)
        ensures
            match old(self)@.installed(
                match release {
                    Some(l) => Some(l@),
                    None => None,
                },
                pick,
                now,
            ) {
                Ok(next) => r is Ok && final(self)@ == next,
                Err(e) => r == Err::<(), PackageError>(e) && final(self)@ == old(self)@,
            },
    {
        if !names_repository(self.installer.url.as_str()) {
            self.release = Some(Release::Dated(now));
            return Ok(());
        }
        let latest = match release {
            None => {
                return Err(PackageError::Unresolved);
            },
            Some(latest) => latest,
        };
        let url = match self.github_dl_url(latest, pick) {
            Err(e) => {
                return Err(e);
            },
            Ok(url) => url,
        };
        let tag = match self.github_tag_name(latest) {
            Err(e) => {
                return Err(e);
            },
            Ok(tag) => tag,
        };
        self.github = Some(self.installer.url.clone());
        self.installer.url = url;
        self.release = Some(Release::Version(tag));
        Ok(())
    }

    /// Decides the update of this package at the time `now`, with the
    /// latest release of its repository, where it has one, and the file
    /// `pick` of that release.
    pub fn update(&self, release: Option<&LatestRelease>, pick: usize, now: Timestamp) -> (r:
        Result<Update, PackageError>)
        ensures
            match self@.updated(
                match release {
                    Some(l) => Some(l@),
                    None => None,
                },
                pick,
                now,
            ) {
                Ok(next) => r matches Ok(u) && u.package@ == next.0 && u.fetch == next.1,
                Err(e) => r matches Err(x) && x == e,
            },
    {
        let mut pkg = self.clone();
        if pkg.github.is_none() {
            match pkg.install(release, pick, now) {
                Err(e) => {
                    return Err(e);
                },
                Ok(_) => {},
            }
            pkg.last_update = Some(now);
            return Ok(Update { package: pkg, fetch: true });
        }
        let installed = match &pkg.release {
            Some(Release::Version(current)) => current.clone(),
            _ => {
                return Err(PackageError::Corrupted);
            },
        };
        let latest = match release {
            None => {
                return Err(PackageError::Unresolved);
            },
            Some(latest) => latest,
        };
        let tag = match pkg.github_tag_name(latest) {
            Err(e) => {
                return Err(e);
            },
            Ok(tag) => tag,
        };
        if tag == installed {
            return Ok(Update { package: pkg, fetch: false });
        }
        let url = match pkg.github_dl_url(latest, pick) {
            Err(e) => {
                return Err(e);
            },
            Ok(url) => url,
        };
        pkg.installer.url = url;
        pkg.release = Some(Release::Version(tag));
        pkg.last_update = Some(now);
        Ok(Update { package: pkg, fetch: true })
    }
}

} // verus!
