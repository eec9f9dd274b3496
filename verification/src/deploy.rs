//! Fetching an ffmpeg build and putting the proxy library in the place of the real one.
use vstd::prelude::*;

use crate::text::{contains, ends_with, holds_at, texts};

verus! {

/// A file of a release.
#[derive(Debug)]
pub struct Asset {
    pub name: String,
    pub browser_download_url: String,
}

/// Whether a file of a release is the build that is wanted: a zip file of the shared 64-bit
/// build under the LGPL.
pub open spec fn is_wanted(name: Seq<char>) -> bool {
    &&& exists|at: int| #[trigger] holds_at(name, "win64-lgpl-shared"@, at)
    &&& holds_at(name, ".zip"@, name.len() - ".zip"@.len())
}

/// Finds the first file of a release that is the build wanted.
pub fn select_asset(assets: &Vec<Asset>) -> (found: Option<usize>)
    ensures
        match found {
            Some(i) => {
                &&& i < assets@.len()
                &&& is_wanted(assets@[i as int].name@)
                &&& forall|j: int| 0 <= j < i ==> !#[trigger] is_wanted(assets@[j].name@)
            },
            None => forall|j: int|
                0 <= j < assets@.len() ==> !#[trigger] is_wanted(assets@[j].name@),
        },
{
    let mut i: usize = 0;
    while i < assets.len()
        invariant
            i <= assets@.len(),
            forall|j: int| 0 <= j < i ==> !#[trigger] is_wanted(assets@[j].name@),
        decreases assets.len() - i,
    {
        let name = assets[i].name.as_str();
        if contains(name, "win64-lgpl-shared") && ends_with(name, ".zip") {
            return Some(i);
        }
        i += 1;
    }
    None
}

/// What to do next about a build.
#[derive(Debug, Clone, Copy, PartialEq, Eq, Structural)]
pub enum FetchStep {
    /// Nothing: there is one.
    Skip,
    /// Find and download it.
    Download,
    /// Nothing more: it could not be downloaded.
    GiveUp,
    /// Remove the directory that it goes to.
    RemoveExisting,
    /// Extract it.
    Extract,
}

/// What to do next: `dest_exists` says whether the directory is there now, and `downloaded` whether
/// the download has succeeded, once it was tried. A build that is there is kept, unless `force`
/// says otherwise.
pub open spec fn fetch_step(dest_exists: bool, force: bool, downloaded: Option<bool>) -> FetchStep {
    match downloaded {
        None => if dest_exists && !force {
            FetchStep::Skip
        } else {
            FetchStep::Download
        },
        Some(false) => FetchStep::GiveUp,
        Some(true) => if dest_exists {
            FetchStep::RemoveExisting
        } else {
            FetchStep::Extract
        },
    }
}

/// Tells what to do next about a build.
pub fn fetch(dest_exists: bool, force: bool, downloaded: Option<bool>) -> (step: FetchStep)
    ensures
        step == fetch_step(dest_exists, force, downloaded),
{
    match downloaded {
        None => {
            if dest_exists && !force {
                FetchStep::Skip
            } else {
                FetchStep::Download
            }
        },
        Some(success) => {
            if !success {
                FetchStep::GiveUp
            } else if dest_exists {
                FetchStep::RemoveExisting
            } else {
                FetchStep::Extract
            }
        },
    }
}

/// An existing build is removed only once another has been downloaded: whatever fails before that
/// leaves it alone. And nothing is extracted over it.
pub proof fn law_removed_only_after_download(
    dest_exists: bool,
    force: bool,
    downloaded: Option<bool>,
)
    ensures
        fetch_step(dest_exists, force, downloaded) is RemoveExisting ==> downloaded == Some(true),
        fetch_step(dest_exists, force, downloaded) is Extract ==> downloaded == Some(true)
            && !dest_exists,
{
}

/// What to do with an entry of the archive.
#[derive(Debug)]
pub enum ExtractStep {
    /// Nothing: it is the top directory itself.
    Skip,
    /// Make this directory, and those above it.
    MakeDir(Vec<String>),
    /// Write this file, after making the directories above it.
    WriteFile(Vec<String>),
}

/// Tells what to do with an entry, whose path is given by its components. The archive holds a
/// single directory at its top, which is left out.
pub fn extract_step(components: &Vec<String>, is_dir: bool) -> (step: ExtractStep)
    ensures
        match step {
            ExtractStep::Skip => components@.len() <= 1,
            ExtractStep::MakeDir(path) => components@.len() > 1 && is_dir && texts(path@) == texts(
                components@.skip(1),
            ),
            ExtractStep::WriteFile(path) => components@.len() > 1 && !is_dir && texts(path@)
                == texts(components@.skip(1)),
        },
{
    if components.len() <= 1 {
        return ExtractStep::Skip;
    }
    let mut path: Vec<String> = Vec::new();
    let mut i: usize = 1;
    while i < components.len()
        invariant
            1 <= i <= components@.len(),
            path@.len() == i - 1,
            forall|j: int| 0 <= j < i - 1 ==> (#[trigger] path@[j])@ == components@[j + 1]@,
        decreases components.len() - i,
    {
        path.push(components[i].clone());
        i += 1;
    }
    assert(texts(path@) =~= texts(components@.skip(1)));
    if is_dir {
        ExtractStep::MakeDir(path)
    } else {
        ExtractStep::WriteFile(path)
    }
}

/// Why an installation is refused.
#[derive(Debug, Clone, Copy, PartialEq, Eq, Structural)]
pub enum Refusal {
    /// There is no real library, under either name.
    NotFetched,
    /// There is no proxy library.
    NoProxy,
}

/// The steps of an installation.
#[derive(Debug, Clone, Copy)]
pub struct InstallPlan {
    /// First give the real library its other name.
    pub rename: bool,
    /// Then copy the proxy library to the place of the real one, or refuse.
    pub copy: Result<(), Refusal>,
}

/// The plan for the files that are there: the real library in its place, the real library under
/// its other name, and the proxy library.
pub open spec fn plan(in_place: bool, renamed: bool, proxy: bool) -> InstallPlan {
    if !in_place && !renamed {
        InstallPlan { rename: false, copy: Err(Refusal::NotFetched) }
    } else {
        InstallPlan {
            rename: in_place && !renamed,
            copy: if proxy {
                Ok(())
            } else {
                Err(Refusal::NoProxy)
            },
        }
    }
}

/// Plans an installation.
pub fn install(real_exists: bool, renamed_exists: bool, proxy_exists: bool) -> (steps: InstallPlan)
    ensures
        steps == plan(real_exists, renamed_exists, proxy_exists),
{
    if !real_exists && !renamed_exists {
        return InstallPlan { rename: false, copy: Err(Refusal::NotFetched) };
    }
    InstallPlan {
        rename: real_exists && !renamed_exists,
        copy: if proxy_exists {
            Ok(())
        } else {
            Err(Refusal::NoProxy)
        },
    }
}

/// What the three files hold, where they are there.
pub ghost struct Files {
    pub real_place: Option<Seq<u8>>,
    pub renamed: Option<Seq<u8>>,
    pub proxy: Option<Seq<u8>>,
}

impl Files {
    /// The plan for these files.
    pub open spec fn plan(self) -> InstallPlan {
        plan(self.real_place is Some, self.renamed is Some, self.proxy is Some)
    }

    /// The files after an installation.
    pub open spec fn installed(self) -> Files {
        let after_rename = if self.plan().rename {
            Files { real_place: None, renamed: self.real_place, ..self }
        } else {
            self
        };
        if self.plan().copy is Ok {
            Files { real_place: after_rename.proxy, ..after_rename }
        } else {
            after_rename
        }
    }

    /// The real library: under its other name, or in its place where it has not been renamed.
    pub open spec fn genuine(self) -> Option<Seq<u8>> {
        if self.renamed is Some {
            self.renamed
        } else {
            self.real_place
        }
    }
}

/// The real library is never lost: whatever an installation does, it is there afterwards, under
/// its other name once the proxy has its place.
pub proof fn law_real_library_is_kept(files: Files)
    ensures
        files.genuine() is Some ==> files.installed().genuine() == files.genuine(),
        files.plan().copy is Ok ==> files.installed().renamed == files.genuine()
            && files.installed().real_place == files.proxy,
{
}

/// Installing a second time changes nothing but the proxy, which is copied again.
pub proof fn law_install_is_idempotent(files: Files)
    ensures
        files.installed().installed() == files.installed(),
        files.plan().copy == files.installed().plan().copy,
{
}

/// The build is found in every release that has it, and it is the first of its kind: a file whose
/// name holds the kind of the build and ends as zip files do.
pub proof fn law_first_wanted_build(
    assets: &Vec<Asset>,
    found: Option<usize>,
    j: int,
    before: Seq<char>,
    behind: Seq<char>,
)
    requires
        call_ensures(select_asset, (assets,), found),
        0 <= j < assets@.len(),
    ensures
        assets@[j].name@ == before + "win64-lgpl-shared"@ + behind + ".zip"@ ==> found is Some
            && found->0 <= j,
        found is Some && found->0 == j ==> {
            let name = assets@[j].name@;
            &&& name.len() >= 4 && name.skip(name.len() - 4) == ".zip"@
            &&& exists|at: int|
                0 <= at <= name.len() - 17 && #[trigger] name.subrange(at, at + 17)
                    == "win64-lgpl-shared"@
        },
        found is Some ==> found->0 < assets@.len(),
{
    let name = assets@[j].name@;
    let (kind, zip) = ("win64-lgpl-shared"@, ".zip"@);
    reveal_strlit("win64-lgpl-shared");
    reveal_strlit(".zip");
    if name == before + kind + behind + zip {
        assert(name.subrange(before.len() as int, before.len() as int + 17) =~= kind);
        assert(holds_at(name, kind, before.len() as int));
        assert(name.subrange(name.len() - zip.len(), name.len() as int) =~= zip);
        assert(is_wanted(name));
    }
    if found is Some && found->0 == j {
        assert(is_wanted(name));
        assert(name.skip(name.len() - 4) =~= name.subrange(name.len() - 4, name.len() as int));
        let at = choose|at: int| #[trigger] holds_at(name, kind, at);
        assert(name.subrange(at, at + 17) == kind);
    }
}

/// A build that is there is kept unless another is forced. Otherwise it is downloaded; what could
/// not be is given up, and what could be is extracted once the directory is clear.
pub proof fn law_steps_of_fetching(
    dest_exists: bool,
    force: bool,
    downloaded: Option<bool>,
    step: FetchStep,
)
    requires
        call_ensures(fetch, (dest_exists, force, downloaded), step),
    ensures
        step == FetchStep::Skip <==> downloaded is None && dest_exists && !force,
        step == FetchStep::Download <==> downloaded is None && (force || !dest_exists),
        step == FetchStep::GiveUp <==> downloaded == Some(false),
        step == FetchStep::RemoveExisting <==> downloaded == Some(true) && dest_exists,
        step == FetchStep::Extract <==> downloaded == Some(true) && !dest_exists,
{
}

/// Every entry below the top directory is extracted, to its own path without that directory;
/// directories are made and files are written.
pub proof fn law_entries_lose_the_top_directory(
    components: &Vec<String>,
    is_dir: bool,
    step: ExtractStep,
)
    requires
        call_ensures(extract_step, (components, is_dir), step),
    ensures
        step is Skip <==> components@.len() <= 1,
        step is MakeDir <==> components@.len() > 1 && is_dir,
        step is WriteFile <==> components@.len() > 1 && !is_dir,
        step matches ExtractStep::MakeDir(path) ==> path@.len() == components@.len() - 1 && forall|
            i: int,
        |
            0 <= i < path@.len() ==> (#[trigger] path@[i])@ == components@[i + 1]@,
        step matches ExtractStep::WriteFile(path) ==> path@.len() == components@.len() - 1
            && forall|i: int| 0 <= i < path@.len() ==> (#[trigger] path@[i])@ == components@[i + 1]@,
{
    let wanted = texts(components@.skip(1));
    if components@.len() > 1 {
        let path = match step {
            ExtractStep::MakeDir(path) => path,
            ExtractStep::WriteFile(path) => path,
            ExtractStep::Skip => arbitrary(),
        };
        assert(texts(path@).len() == path@.len());
        assert forall|i: int| 0 <= i < path@.len() implies (#[trigger] path@[i])@ == components@[i
            + 1]@ by {
            assert(texts(path@)[i] == wanted[i]);
        }
    }
}

/// An installation needs the real library, under either name, and the proxy. The real library is
/// renamed exactly where it is in its place and was not renamed before.
pub proof fn law_steps_of_installing(
    real_exists: bool,
    renamed_exists: bool,
    proxy_exists: bool,
    steps: InstallPlan,
)
    requires
        call_ensures(install, (real_exists, renamed_exists, proxy_exists), steps),
    ensures
        steps.rename <==> real_exists && !renamed_exists,
        steps.copy is Ok <==> (real_exists || renamed_exists) && proxy_exists,
        steps.copy == Err::<(), Refusal>(Refusal::NotFetched) <==> !real_exists && !renamed_exists,
        steps.copy == Err::<(), Refusal>(Refusal::NoProxy) <==> (real_exists || renamed_exists)
            && !proxy_exists,
{
}

} // verus!
