//! The project and global manifests, and the lock snapshot.
use vstd::prelude::*;

use crate::error::MacdevError;
use crate::name_map::NameMap;
use crate::text::{concat, join_with};

verus! {

/// Where the project manifest lives, relative to the project directory.
pub const MANIFEST_FILE: &'static str = ".macdev/manifest.toml";

/// Where the lock lives, relative to the project directory.
pub const LOCK_FILE: &'static str = ".macdev/manifest.lock";

/// Where the global manifest lives, relative to the home directory.
pub const GLOBAL_MANIFEST_IN_HOME: &'static str = ".config/macdev/manifest.toml";

/// The version of this tool, recorded in every lock.
pub const TOOL_VERSION: &'static str = "0.1.0";

/// The membership sections of a manifest, as maps from names.
#[verifier::ext_equal]
pub struct ManifestModel {
    pub packages: Map<Seq<char>, Seq<char>>,
    pub impure: Map<Seq<char>, bool>,
    pub casks: Map<Seq<char>, bool>,
    pub gc: Map<Seq<char>, Seq<char>>,
    pub taps: Map<Seq<char>, bool>,
}

impl ManifestModel {
    pub open spec fn empty() -> ManifestModel {
        ManifestModel {
            packages: Map::empty(),
            impure: Map::empty(),
            casks: Map::empty(),
            gc: Map::empty(),
            taps: Map::empty(),
        }
    }

    /// Records a pure package with its version (`*` for any).
    pub open spec fn with_package(self, name: Seq<char>, version: Seq<char>) -> ManifestModel {
        ManifestModel { packages: self.packages.insert(name, version), ..self }
    }

    /// Records an impure package.
    pub open spec fn with_impure(self, name: Seq<char>) -> ManifestModel {
        ManifestModel { impure: self.impure.insert(name, true), ..self }
    }

    /// Records a tap.
    pub open spec fn with_tap(self, name: Seq<char>) -> ManifestModel {
        ManifestModel { taps: self.taps.insert(name, true), ..self }
    }

    /// Drops a name from the pure, impure and cask sections.
    pub open spec fn without_package(self, name: Seq<char>) -> ManifestModel {
        ManifestModel {
            packages: self.packages.remove(name),
            impure: self.impure.remove(name),
            casks: self.casks.remove(name),
            ..self
        }
    }

    /// What a project manifest keeps on disk: its packages alone.
    pub open spec fn local_part(self) -> ManifestModel {
        ManifestModel { packages: self.packages, ..ManifestModel::empty() }
    }
}

/// A manifest: the project one uses `packages` only; the global one uses every section.
#[derive(Debug)]
pub struct Manifest {
    pub packages: NameMap<String>,
    pub impure: NameMap<bool>,
    pub casks: NameMap<bool>,
    pub gc: NameMap<String>,
    pub taps: NameMap<bool>,
}

impl View for Manifest {
    type V = ManifestModel;

    open spec fn view(&self) -> ManifestModel {
        ManifestModel {
            packages: self.packages@,
            impure: self.impure@,
            casks: self.casks@,
            gc: self.gc@,
            taps: self.taps@,
        }
    }
}

impl Default for Manifest {
    fn default() -> (r: Manifest)
        ensures
            r@ == ManifestModel::empty(),
    {
        Manifest {
            packages: NameMap::new(),
            impure: NameMap::new(),
            casks: NameMap::new(),
            gc: NameMap::new(),
            taps: NameMap::new(),
        }
    }
}

impl Manifest {
    /// Whether a project manifest exists in the current directory.
    pub fn exists_on_disk() -> bool {
        path_exists(MANIFEST_FILE)
    }

    /// The path of the global manifest, for display.
    pub fn global_manifest_display_path() -> (r: Result<String, MacdevError>)
        ensures
            match r {
                Ok(p) => exists|home: Seq<char>| p@ == path_join(home, GLOBAL_MANIFEST_IN_HOME@),
                Err(e) => e == MacdevError::HomeNotFound,
            },
    {
        match home_dir() {
            Some(home) => Ok(global_manifest_path_in(home.as_str())),
            None => Err(MacdevError::HomeNotFound),
        }
    }

    /// The same manifest with every section but `packages` emptied: what a project
    /// manifest holds on disk.
    pub fn local_only(&self) -> (r: Manifest)
        ensures
            r@ == self@.local_part(),
    {
        Manifest {
            packages: self.packages.copied(),
            impure: NameMap::new(),
            casks: NameMap::new(),
            gc: NameMap::new(),
            taps: NameMap::new(),
        }
    }

    /// Records a pure package.
    pub fn add_package(&mut self, name: String, version: String)
        ensures
            final(self)@ == old(self)@.with_package(name@, version@),
    {
        self.packages.insert(name, version);
    }

    /// Records an impure package.
    pub fn add_impure(&mut self, name: String)
        ensures
            final(self)@ == old(self)@.with_impure(name@),
    {
        self.impure.insert(name, true);
    }

    /// Records a cask.
    pub fn add_cask(&mut self, name: String)
        ensures
            final(self)@ == (ManifestModel { casks: old(self)@.casks.insert(name@, true), ..old(self)@ }),
    {
        self.casks.insert(name, true);
    }

    /// Drops a cask.
    pub fn remove_cask(&mut self, name: &str)
        ensures
            final(self)@ == (ManifestModel { casks: old(self)@.casks.remove(name@), ..old(self)@ }),
    {
        self.casks.remove(name);
    }

    /// Records a tap.
    pub fn add_tap(&mut self, name: String)
        ensures
            final(self)@ == old(self)@.with_tap(name@),
    {
        self.taps.insert(name, true);
    }

    /// Drops a tap.
    pub fn remove_tap(&mut self, name: &str)
        ensures
            final(self)@ == (ManifestModel { taps: old(self)@.taps.remove(name@), ..old(self)@ }),
    {
        self.taps.remove(name);
    }

    /// Drops a name from the pure, impure and cask sections.
    pub fn remove_package(&mut self, name: &str)
        ensures
            final(self)@ == old(self)@.without_package(name@),
    {
        self.packages.remove(name);
        self.impure.remove(name);
        self.casks.remove(name);
    }
}

/// Recording a package and then removing it leaves its name in neither the pure nor
/// the impure section.
pub proof fn lemma_add_then_remove_package(m: ManifestModel, name: Seq<char>, version: Seq<char>)
    ensures
        !m.with_package(name, version).without_package(name).packages.contains_key(name),
        !m.with_package(name, version).without_package(name).impure.contains_key(name),
{
}

/// The exact version and formula that a package was found installed at.
#[derive(Debug)]
pub struct LockedPackage {
    pub version: String,
    pub formula: String,
}

impl View for LockedPackage {
    type V = (Seq<char>, Seq<char>);

    open spec fn view(&self) -> (Seq<char>, Seq<char>) {
        (self.version@, self.formula@)
    }
}

/// When a lock was made, and by which version of this tool.
#[derive(Debug)]
pub struct LockMetadata {
    pub generated: String,
    pub macdev_version: String,
}

/// A reproducible snapshot of the project's packages and their dependencies.
#[derive(Debug)]
pub struct Lock {
    pub metadata: LockMetadata,
    pub packages: NameMap<LockedPackage>,
    pub dependencies: NameMap<LockedPackage>,
    pub impure: NameMap<LockedPackage>,
}

/// A lock as maps of (version, formula) pairs.
#[verifier::ext_equal]
pub struct LockModel {
    pub generated: Seq<char>,
    pub tool_version: Seq<char>,
    pub packages: Map<Seq<char>, (Seq<char>, Seq<char>)>,
    pub dependencies: Map<Seq<char>, (Seq<char>, Seq<char>)>,
    pub impure: Map<Seq<char>, (Seq<char>, Seq<char>)>,
}

impl View for Lock {
    type V = LockModel;

    open spec fn view(&self) -> LockModel {
        LockModel {
            generated: self.metadata.generated@,
            tool_version: self.metadata.macdev_version@,
            packages: self.packages@,
            dependencies: self.dependencies@,
            impure: self.impure@,
        }
    }
}

/// The key of the dependency `dep` of `package` in a lock: `package:dep`.
pub open spec fn dependency_key(package: Seq<char>, dep: Seq<char>) -> Seq<char> {
    package + seq![':'] + dep
}

impl LockModel {
    pub open spec fn empty_at(generated: Seq<char>) -> LockModel {
        LockModel {
            generated,
            tool_version: TOOL_VERSION@,
            packages: Map::empty(),
            dependencies: Map::empty(),
            impure: Map::empty(),
        }
    }

    pub open spec fn with_package(self, name: Seq<char>, version: Seq<char>, formula: Seq<char>) -> LockModel {
        LockModel { packages: self.packages.insert(name, (version, formula)), ..self }
    }

    pub open spec fn with_dependency(
        self,
        package: Seq<char>,
        dep: Seq<char>,
        version: Seq<char>,
        formula: Seq<char>,
    ) -> LockModel {
        LockModel {
            dependencies: self.dependencies.insert(dependency_key(package, dep), (version, formula)),
            ..self
        }
    }
}

impl Default for Lock {
    fn default() -> (r: Lock)
        ensures
            r@.packages.is_empty() && r@.dependencies.is_empty() && r@.impure.is_empty(),
            r@.tool_version == TOOL_VERSION@,
            r@.generated.len() > 0,
    {
        Lock::new()
    }
}

impl Lock {
    /// An empty lock stamped with `generated`.
    pub fn with_timestamp(generated: String) -> (r: Lock)
        ensures
            r@ == LockModel::empty_at(generated@),
    {
        Lock {
            metadata: LockMetadata { generated, macdev_version: TOOL_VERSION.to_owned() },
            packages: NameMap::new(),
            dependencies: NameMap::new(),
            impure: NameMap::new(),
        }
    }

    /// An empty lock stamped with the current time.
    pub fn new() -> (r: Lock)
        ensures
            r@ == LockModel::empty_at(r@.generated),
            r@.generated.len() > 0,
    {
        Lock::with_timestamp(now_rfc3339())
    }

    /// Whether a lock exists in the current directory.
    pub fn exists_on_disk() -> bool {
        path_exists(LOCK_FILE)
    }

    /// Pins a package.
    pub fn add_package(&mut self, name: String, version: String, formula: String)
        ensures
            final(self)@ == old(self)@.with_package(name@, version@, formula@),
    {
        self.packages.insert(name, LockedPackage { version, formula });
    }

    /// Pins a dependency of a package, under the key `package:dep`.
    pub fn add_dependency(&mut self, package: String, dep: String, version: String, formula: String)
        ensures
            final(self)@ == old(self)@.with_dependency(package@, dep@, version@, formula@),
    {
        proof {
            reveal_strlit(":");
            assert(":"@ =~= seq![':']);
        }
        let key = join_with(package.as_str(), ":", dep.as_str());
        self.dependencies.insert(key, LockedPackage { version, formula });
    }
}

/// A dependency as the package manager described it: its name, with its version and
/// formula when they could be found.
pub open spec fn dep_view(d: (String, Option<LockedPackage>)) -> (Seq<char>, Option<(Seq<char>, Seq<char>)>) {
    (d.0@, match d.1 { Some(p) => Some(p@), None => None })
}

/// `l` with the found dependencies of `package` pinned, in order; a dependency that could
/// not be described is left out.
pub open spec fn with_found_deps(
    l: LockModel,
    package: Seq<char>,
    deps: Seq<(Seq<char>, Option<(Seq<char>, Seq<char>)>)>,
) -> LockModel
    decreases deps.len(),
{
    if deps.len() == 0 {
        l
    } else {
        let prev = with_found_deps(l, package, deps.drop_last());
        match deps.last().1 {
            Some(info) => prev.with_dependency(package, deps.last().0, info.0, info.1),
            None => prev,
        }
    }
}

/// Pins a project package and those of its dependencies that could be described.
pub fn lock_package(lock: &mut Lock, name: String, info: LockedPackage, deps: &Vec<(String, Option<LockedPackage>)>)
    ensures
        final(lock)@ == with_found_deps(
            old(lock)@.with_package(name@, info.version@, info.formula@),
            name@,
            deps@.map_values(|d: (String, Option<LockedPackage>)| dep_view(d)),
        ),
{
    let ghost start = old(lock)@.with_package(name@, info.version@, info.formula@);
    let ghost ds = deps@.map_values(|d: (String, Option<LockedPackage>)| dep_view(d));
    let name_text = name.clone();
    lock.add_package(name, info.version, info.formula);
    let mut i: usize = 0;
    while i < deps.len()
        invariant
            name_text@ == name@,
            ds == deps@.map_values(|d: (String, Option<LockedPackage>)| dep_view(d)),
            i <= deps@.len(),
            lock@ == with_found_deps(start, name@, ds.subrange(0, i as int)),
        decreases deps@.len() - i,
    {
        proof {
            assert(ds.subrange(0, i + 1).drop_last() =~= ds.subrange(0, i as int));
            assert(ds.subrange(0, i + 1).last() == dep_view(deps@[i as int]));
        }
        match &deps[i].1 {
            Some(found) => {
                lock.add_dependency(
                    name_text.clone(),
                    deps[i].0.clone(),
                    found.version.clone(),
                    found.formula.clone(),
                );
            },
            None => {},
        }
        i = i + 1;
    }
    assert(ds.subrange(0, i as int) =~= ds);
}

/// `base` joined with `rel` as a path is: `rel` itself when it is absolute or `base`
/// is empty, else the two with one `/` between them.
pub open spec fn path_join(base: Seq<char>, rel: Seq<char>) -> Seq<char> {
    if base.len() == 0 || (rel.len() > 0 && rel[0] == '/') {
        rel
    } else if base.last() == '/' {
        base + rel
    } else {
        base + seq!['/'] + rel
    }
}

/// Joins two paths.
pub fn join_path(base: &str, rel: &str) -> (r: String)
    ensures
        r@ == path_join(base@, rel@),
{
    let n = base.unicode_len();
    if n == 0 || (rel.unicode_len() > 0 && rel.get_char(0) == '/') {
        rel.to_owned()
    } else if base.get_char(n - 1) == '/' {
        concat(base, rel)
    } else {
        proof {
            reveal_strlit("/");
            assert("/"@ =~= seq!['/']);
        }
        join_with(base, "/", rel)
    }
}

/// The global manifest's path under the home directory `home`.
pub fn global_manifest_path_in(home: &str) -> (r: String)
    ensures
        r@ == path_join(home@, GLOBAL_MANIFEST_IN_HOME@),
{
    join_path(home, GLOBAL_MANIFEST_IN_HOME)
}

/// Relies on std::path::Path::exists: whether something is at `path` at the time of the
/// call; nothing is promised of the answer.
#[verifier::external_body]
fn path_exists(path: &str) -> bool {
    std::path::Path::new(path).exists()
}

/// Relies on dirs::home_dir: the user's home directory, if one can be found; the path is
/// handed back as text, and a path that is not valid text counts as not found.
#[verifier::external_body]
fn home_dir() -> Option<String> {
    match dirs::home_dir() {
        Some(p) => p.into_os_string().into_string().ok(),
        None => None,
    }
}

/// Relies on chrono's `From<SystemTime> for DateTime<Utc>` and `DateTime::to_rfc3339`:
/// the system clock's current time in RFC 3339 form, which always writes the date and the
/// time of day. The conversion also accepts a clock set before 1970.
#[verifier::external_body]
fn now_rfc3339() -> (r: String)
    ensures
        r@.len() > 0,
{
    chrono::DateTime::<chrono::Utc>::from(std::time::SystemTime::now()).to_rfc3339()
}

} // verus!
