use vstd::prelude::*;
use vstd::string::StringExecFns;
use crate::memory_fs::MockFileSystem;
use crate::paths::FsPath;
use crate::paths::text_of;

verus! {

/// The package-manager mode that selects where a project's build cache
/// lives under the project root.
#[derive(Clone, Copy, Debug, PartialEq, Eq, Structural)]
pub enum PmMode {
    /// Mode flag `1`: the Plug'n'Play layout, `.pnp/.cache/webpack`.
    Pnp,
    /// Mode flag `3`: the yarn layout, `.yarn/.cache/webpack`.
    Yarn,
    /// Any other flag, or none: the `node_modules/.cache/webpack` layout.
    Standard,
}

/// The name of the package manifest that marks a project root.
pub open spec fn manifest_name() -> Seq<char> {
    "package.json"@
}

/// The file name of the resource lockfile inside the cache directory.
pub open spec fn lockfile_name() -> Seq<char> {
    "lockfile.json"@
}

/// The mode a flag value selects: `1` is the Plug'n'Play layout, `3` the
/// yarn layout, and anything else — a different value or an unset flag —
/// the default layout.
pub open spec fn spec_mode_of_flag(flag: Option<Seq<char>>) -> PmMode {
    match flag {
        Some(s) => if s == "1"@ {
            PmMode::Pnp
        } else if s == "3"@ {
            PmMode::Yarn
        } else {
            PmMode::Standard
        },
        None => PmMode::Standard,
    }
}

/// The view of an optional flag value.
pub open spec fn flag_view(flag: Option<&String>) -> Option<Seq<char>> {
    match flag {
        Some(s) => Some(s@),
        None => None,
    }
}

/// Parse the package-manager mode variable. Absent and unrecognized values
/// both select the default layout.
pub fn mode_of_flag(flag: Option<&String>) -> (m: PmMode)
    ensures
        m == spec_mode_of_flag(flag_view(flag)),
{
    match flag {
        None => PmMode::Standard,
        Some(s) => {
            let one = String::from_str("1");
            let three = String::from_str("3");
            if *s == one {
                PmMode::Pnp
            } else if *s == three {
                PmMode::Yarn
            } else {
                PmMode::Standard
            }
        },
    }
}

/// Whether the directory `dir` has the package manifest as an immediate
/// child in the file table `files`.
pub open spec fn manifest_at(files: Map<Seq<char>, Seq<u8>>, dir: Seq<Seq<char>>) -> bool {
    files.contains_key(text_of(dir.push(manifest_name())))
}

/// The project root the upward walk finds from `dir`: the first of `dir` and
/// its ancestors, current first, that holds the package manifest; nothing
/// when no ancestor up to and including the filesystem root holds one.
pub open spec fn root_search(files: Map<Seq<char>, Seq<u8>>, dir: Seq<Seq<char>>) -> Option<
    Seq<Seq<char>>,
>
    decreases dir.len(),
{
    if manifest_at(files, dir) {
        Some(dir)
    } else if dir.len() == 0 {
        None
    } else {
        root_search(files, dir.drop_last())
    }
}

/// The cache subdirectory segments a mode selects under the project root.
pub open spec fn cache_segments(mode: PmMode) -> Seq<Seq<char>> {
    match mode {
        PmMode::Pnp => seq![".pnp"@, ".cache"@, "webpack"@],
        PmMode::Yarn => seq![".yarn"@, ".cache"@, "webpack"@],
        PmMode::Standard => seq!["node_modules"@, ".cache"@, "webpack"@],
    }
}

/// The cache subdirectory segments under the starting directory when no
/// project root exists.
pub open spec fn fallback_segments() -> Seq<Seq<char>> {
    seq![".cache"@, "webpack"@]
}

/// The cache directory derived from a starting directory and a mode, given
/// the file table that decides where the package manifest lies.
pub open spec fn spec_cache_dir(
    files: Map<Seq<char>, Seq<u8>>,
    start: Seq<Seq<char>>,
    mode: PmMode,
) -> Seq<Seq<char>> {
    match root_search(files, start) {
        Some(root) => root + cache_segments(mode),
        None => start + fallback_segments(),
    }
}

/// Where build caches and the resource lockfile live: derived, never stored,
/// and recomputed identically from the same starting directory, mode, and
/// manifest placement.
pub struct CacheLocation {
    pub cache_dir: FsPath,
    pub lockfile: FsPath,
}

/// Walk upward from `start` through its ancestors, current first, and return
/// the first directory that holds the package manifest in `fs`; nothing when
/// no ancestor up to and including the filesystem root holds one.
pub fn find_project_root(fs: &MockFileSystem, start: &FsPath) -> (r: Option<FsPath>)
    ensures
        match r {
            Some(root) => root_search(fs@.files, start@) == Some(root@),
            None => root_search(fs@.files, start@) is None,
        },
{
    let mut dir = start.duplicate();
    loop
        invariant
            root_search(fs@.files, start@) == root_search(fs@.files, dir@),
        decreases dir@.len(),
    {
        let probe = dir.child_text("package.json");
        if fs.contains_file(probe.as_str()) {
            proof {
                assert(manifest_at(fs@.files, dir@));
            }
            return Some(dir);
        }
        proof {
            assert(!manifest_at(fs@.files, dir@));
        }
        match dir.parent() {
            Some(p) => {
                dir = p;
            },
            None => {
                return None;
            },
        }
    }
}

/// The cache location a given project root, or its absence, pins down: the
/// mode's subdirectory under the root, or `.cache/webpack` under the
/// starting directory when there is no root, with the lockfile always
/// directly inside the cache directory.
pub fn cache_location_for_root(root: Option<FsPath>, start: &FsPath, mode: PmMode) -> (r:
    CacheLocation)
    ensures
        r.cache_dir@ == match root {
            Some(rt) => rt@ + cache_segments(mode),
            None => start@ + fallback_segments(),
        },
        r.lockfile@ == r.cache_dir@.push(lockfile_name()),
{
    let base = match root {
        Some(rt) => rt,
        None => {
            let b = start.duplicate();
            let b = b.child(String::from_str(".cache"));
            let b = b.child(String::from_str("webpack"));
            proof {
                assert(b@ =~= start@ + fallback_segments());
            }
            let lockfile = b.child(String::from_str("lockfile.json"));
            return CacheLocation { cache_dir: b, lockfile };
        },
    };
    let ghost rt_view = base@;
    let dir = match mode {
        PmMode::Pnp => base.child(String::from_str(".pnp")),
        PmMode::Yarn => base.child(String::from_str(".yarn")),
        PmMode::Standard => base.child(String::from_str("node_modules")),
    };
    let dir = dir.child(String::from_str(".cache"));
    let dir = dir.child(String::from_str("webpack"));
    proof {
        assert(dir@ =~= rt_view + cache_segments(mode));
    }
    let lockfile = dir.child(String::from_str("lockfile.json"));
    CacheLocation { cache_dir: dir, lockfile }
}

/// Resolve where build caches and the resource lockfile live, walking upward
/// from `start` in the store `fs`: the mode's subdirectory under the nearest
/// ancestor holding a package manifest, or `.cache/webpack` under `start`
/// when no ancestor holds one; the lockfile is always directly inside the
/// cache directory. The resolution reads nothing but its three arguments, so
/// the same inputs derive the same location every time.
pub fn resolve_cache_location(fs: &MockFileSystem, start: &FsPath, mode: PmMode) -> (r:
    CacheLocation)
    ensures
        r.cache_dir@ == spec_cache_dir(fs@.files, start@, mode),
        r.lockfile@ == spec_cache_dir(fs@.files, start@, mode).push(lockfile_name()),
{
    let root = find_project_root(fs, start);
    cache_location_for_root(root, start, mode)
}

} // verus!
