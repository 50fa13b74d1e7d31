//! The reconciliation rules: what each operation changes in the manifests and which
//! packages it hands to the package manager.
use vstd::prelude::*;

use crate::error::MacdevError;
use crate::manifest::{Lock, LockModel, Manifest, ManifestModel};
use crate::text::{views, contains, has_infix, has_prefix, starts_with, find_char, first_index, join_with, last_index, lemma_last_index_bounds, rfind_char, substring};

verus! {

// ---- package identifiers ----

/// The version of a raw identifier: what follows its rightmost `@`, if it has one.
pub open spec fn spec_version(s: Seq<char>) -> Option<Seq<char>> {
    if last_index(s, '@') < 0 {
        None
    } else {
        Some(s.subrange(last_index(s, '@') + 1, s.len() as int))
    }
}

/// The name of a raw identifier: what precedes its rightmost `@` (all of it when it has none).
pub open spec fn spec_name(s: Seq<char>) -> Seq<char> {
    if last_index(s, '@') < 0 {
        s
    } else {
        s.subrange(0, last_index(s, '@'))
    }
}

/// The base name of a raw identifier: what precedes its first `@`.
pub open spec fn base_name(s: Seq<char>) -> Seq<char> {
    if first_index(s, '@') < 0 {
        s
    } else {
        s.subrange(0, first_index(s, '@'))
    }
}

/// Whether an identifier names a version.
pub open spec fn has_version(s: Seq<char>) -> bool {
    first_index(s, '@') >= 0
}

/// The version that a manifest records: the given one, or `*` for any.
pub open spec fn version_or_any(v: Option<Seq<char>>) -> Seq<char> {
    match v {
        Some(v) => v,
        None => seq!['*'],
    }
}

/// The identifier that a manifest entry stands for: the bare name for version `*`,
/// else `name@version`.
pub open spec fn formula_of(name: Seq<char>, version: Seq<char>) -> Seq<char> {
    if version == seq!['*'] {
        name
    } else {
        name + seq!['@'] + version
    }
}

/// Splitting an identifier at its rightmost `@` and joining the two parts with `@`
/// again gives back the identifier.
pub proof fn lemma_split_rejoin(s: Seq<char>)
    ensures
        match spec_version(s) {
            Some(v) => spec_name(s) + seq!['@'] + v == s,
            None => spec_name(s) == s,
        },
{
    lemma_last_index_bounds(s, '@');
    if last_index(s, '@') >= 0 {
        let i = last_index(s, '@');
        assert(s.subrange(0, i) + seq!['@'] + s.subrange(i + 1, s.len() as int) =~= s);
    }
}

/// Splits a raw identifier at its rightmost `@` into the identifier to install and the
/// version it asks for.
pub fn parse_package_spec(spec: &str) -> (r: (String, Option<String>))
    ensures
        r.0@ == spec@,
        match r.1 {
            Some(v) => spec_version(spec@) == Some(v@),
            None => spec_version(spec@) is None,
        },
{
    proof {
        lemma_last_index_bounds(spec@, '@');
        lemma_split_rejoin(spec@);
    }
    match rfind_char(spec, '@') {
        Some(pos) => {
            let n = spec.unicode_len();
            let name = substring(spec, 0, pos);
            let version = substring(spec, pos + 1, n);
            proof {
                reveal_strlit("@");
                assert("@"@ =~= seq!['@']);
            }
            let joined = join_with(name.as_str(), "@", version.as_str());
            (joined, Some(version))
        },
        None => (spec.to_owned(), None),
    }
}

/// The base name of an identifier: what precedes its first `@`.
pub fn base_name_of(s: &str) -> (r: String)
    ensures
        r@ == base_name(s@),
{
    match find_char(s, '@') {
        Some(i) => substring(s, 0, i),
        None => s.to_owned(),
    }
}

/// Whether `s` is exactly `*`.
fn is_any_version(s: &str) -> (r: bool)
    ensures
        r == (s@ == seq!['*']),
{
    if s.unicode_len() == 1 {
        let c = s.get_char(0);
        if c == '*' {
            assert(s@ =~= seq!['*']);
        }
        c == '*'
    } else {
        false
    }
}

/// The identifier that a manifest entry stands for.
pub fn formula_spec(name: &str, version: &str) -> (r: String)
    ensures
        r@ == formula_of(name@, version@),
{
    if is_any_version(version) {
        name.to_owned()
    } else {
        proof {
            reveal_strlit("@");
            assert("@"@ =~= seq!['@']);
        }
        join_with(name, "@", version)
    }
}

/// How the listing shows a global pure package: a key that names a version as it is,
/// else `name@version`.
pub open spec fn global_label(name: Seq<char>, version: Seq<char>) -> Seq<char> {
    if has_version(name) {
        name
    } else {
        name + seq!['@'] + version
    }
}

/// The label of a global pure package in the listing.
pub fn global_entry_label(name: &str, version: &str) -> (r: String)
    ensures
        r@ == global_label(name@, version@),
{
    if find_char(name, '@').is_some() {
        name.to_owned()
    } else {
        proof {
            reveal_strlit("@");
            assert("@"@ =~= seq!['@']);
        }
        join_with(name, "@", version)
    }
}

// ---- add ----

/// What `add` installs and records for one identifier.
pub struct AddPlan {
    /// The identifier handed to the package manager.
    pub package: String,
    /// The base name under which the package is recorded.
    pub name: String,
    /// The version recorded for a pure package (`*` for any).
    pub version: String,
    /// Whether the package is linked system-wide.
    pub impure: bool,
}

/// The checks that `add` makes before it touches anything: the package manager must be
/// present, and a pure package needs a project manifest.
pub fn add_precheck(brew_installed: bool, impure: bool, manifest_exists: bool) -> (r: Result<(), MacdevError>)
    ensures
        !brew_installed ==> r == Err::<(), MacdevError>(MacdevError::BrewMissing),
        brew_installed && !impure && !manifest_exists ==> r == Err::<(), MacdevError>(MacdevError::NoManifest),
        brew_installed && (impure || manifest_exists) ==> r is Ok,
{
    if !brew_installed {
        Err(MacdevError::BrewMissing)
    } else if !impure && !manifest_exists {
        Err(MacdevError::NoManifest)
    } else {
        Ok(())
    }
}

/// Works out what `add` installs and under which name and version it records it.
pub fn plan_add(package_spec: &str, impure: bool) -> (r: AddPlan)
    ensures
        r.package@ == package_spec@,
        r.name@ == base_name(package_spec@),
        r.version@ == version_or_any(spec_version(package_spec@)),
        r.impure == impure,
{
    let (package, version) = parse_package_spec(package_spec);
    let name = base_name_of(package.as_str());
    let version = match version {
        Some(v) => v,
        None => {
            proof {
                reveal_strlit("*");
                assert("*"@ =~= seq!['*']);
            }
            "*".to_owned()
        },
    };
    AddPlan { package, name, version, impure }
}

/// The global manifest after adding `name`: it leaves `gc` and the other active section,
/// then is recorded as impure, or as pure with `version`.
pub open spec fn after_add(m: ManifestModel, name: Seq<char>, version: Seq<char>, impure: bool) -> ManifestModel {
    if impure {
        ManifestModel {
            packages: m.packages.remove(name),
            gc: m.gc.remove(name),
            ..m
        }.with_impure(name)
    } else {
        ManifestModel {
            impure: m.impure.remove(name),
            gc: m.gc.remove(name),
            ..m
        }.with_package(name, version)
    }
}

/// Records an added package in the global manifest; tells whether it came back from `gc`.
pub fn record_add(global: &mut Manifest, plan: &AddPlan) -> (was_in_gc: bool)
    ensures
        final(global)@ == after_add(old(global)@, plan.name@, plan.version@, plan.impure),
        was_in_gc == old(global)@.gc.contains_key(plan.name@),
{
    let was_in_gc = global.gc.remove(plan.name.as_str()).is_some();
    if plan.impure {
        global.packages.remove(plan.name.as_str());
        global.add_impure(plan.name.clone());
    } else {
        global.impure.remove(plan.name.as_str());
        global.add_package(plan.name.clone(), plan.version.clone());
    }
    proof {
        assert(final(global)@ =~= after_add(old(global)@, plan.name@, plan.version@, plan.impure));
    }
    was_in_gc
}

/// `add` moves a name into one active section: it keeps every name in at most one section.
pub proof fn lemma_add_keeps_sections_exclusive(m: ManifestModel, name: Seq<char>, version: Seq<char>, impure: bool)
    requires
        sections_exclusive(m),
    ensures
        sections_exclusive(after_add(m, name, version, impure)),
{
    let r = after_add(m, name, version, impure);
    assert forall|k: Seq<char>| #[trigger] in_one_section(r, k) by {
        assert(in_one_section(m, k));
    }
}

/// Adding a pure package that waits in `gc` takes it out of `gc` and records it among the
/// pure packages alone.
pub proof fn lemma_add_restores_from_gc(m: ManifestModel, name: Seq<char>, version: Seq<char>)
    requires
        m.gc.contains_key(name),
    ensures
        !after_add(m, name, version, false).gc.contains_key(name),
        after_add(m, name, version, false).packages.contains_key(name),
        after_add(m, name, version, false).packages[name] == version,
        !after_add(m, name, version, false).impure.contains_key(name),
{
}

/// Whether a manifest tracks `k` in its pure, impure or `gc` section.
pub open spec fn tracks(m: ManifestModel, k: Seq<char>) -> bool {
    m.packages.contains_key(k) || m.impure.contains_key(k) || m.gc.contains_key(k)
}

/// Whether a dependency stays linked: it, or its base name, is tracked.
pub open spec fn keeps_linked(m: ManifestModel, dep: Seq<char>) -> bool {
    tracks(m, dep) || tracks(m, base_name(dep))
}

/// The dependencies that are tracked nowhere and so must be unlinked, in their order.
pub fn deps_to_unlink(global: &Manifest, deps: &Vec<String>) -> (r: Vec<String>)
    ensures
        views(r@) == views(deps@).filter(|d: Seq<char>| !keeps_linked(global@, d)),
{
    let ghost pred = |d: Seq<char>| !keeps_linked(global@, d);
    let mut r: Vec<String> = Vec::new();
    let mut i: usize = 0;
    while i < deps.len()
        invariant
            pred == (|d: Seq<char>| !keeps_linked(global@, d)),
            i <= deps@.len(),
            views(r@) == views(deps@).subrange(0, i as int).filter(pred),
        decreases deps@.len() - i,
    {
        let dep = &deps[i];
        let base = base_name_of(dep.as_str());
        let keep = global.packages.contains_key(dep.as_str()) || global.packages.contains_key(base.as_str())
            || global.impure.contains_key(dep.as_str()) || global.impure.contains_key(base.as_str())
            || global.gc.contains_key(dep.as_str()) || global.gc.contains_key(base.as_str());
        let ghost prev = r@;
        proof {
            reveal(Seq::filter);
            let s = views(deps@).subrange(0, i + 1);
            assert(s.drop_last() =~= views(deps@).subrange(0, i as int));
            assert(s.last() == dep@);
            assert(keep == keeps_linked(global@, dep@));
            assert(pred(dep@) == !keep);
        }
        if !keep {
            r.push(dep.clone());
            assert(views(r@) =~= views(prev).push(dep@));
            assert(views(deps@).subrange(0, i + 1).filter(pred) == views(deps@).subrange(0, i as int).filter(pred).push(dep@));
        } else {
            assert(views(deps@).subrange(0, i + 1).filter(pred) == views(deps@).subrange(0, i as int).filter(pred));
        }
        i = i + 1;
    }
    assert(views(deps@).subrange(0, i as int) =~= views(deps@));
    r
}

// ---- remove and gc ----

/// Whether any section that `remove` looks at holds `p`, by exact name or base name.
pub open spec fn removal_tracked(m: ManifestModel, p: Seq<char>) -> bool {
    m.packages.contains_key(p) || m.impure.contains_key(p) || m.packages.contains_key(base_name(p))
        || m.impure.contains_key(base_name(p))
}

/// Whether `remove` takes `p` from the impure section. An exact impure entry wins; a
/// versioned request otherwise goes to the pure section whenever it holds the name or its
/// base name; an unversioned one goes there whenever it holds the exact name.
pub open spec fn removal_is_impure(m: ManifestModel, p: Seq<char>) -> bool {
    let b = base_name(p);
    if has_version(p) {
        m.impure.contains_key(p) || (!m.packages.contains_key(p) && !m.packages.contains_key(b)
            && m.impure.contains_key(b))
    } else {
        m.impure.contains_key(p) || (!m.packages.contains_key(p) && m.impure.contains_key(b))
    }
}

/// The key that `remove(p)` takes out of its section: the request itself when that
/// section holds it, else its base name. The entry keeps this key in `gc`.
pub open spec fn removal_key(m: ManifestModel, p: Seq<char>) -> Seq<char> {
    if removal_is_impure(m, p) {
        if m.impure.contains_key(p) { p } else { base_name(p) }
    } else if m.packages.contains_key(p) {
        p
    } else {
        base_name(p)
    }
}

/// The global manifest after `remove(p)` of a tracked `p`: the entry moves into `gc` under
/// the key it had, with its version (`*` for an impure entry).
pub open spec fn after_remove(m: ManifestModel, p: Seq<char>) -> ManifestModel {
    let k = removal_key(m, p);
    if removal_is_impure(m, p) {
        ManifestModel { impure: m.impure.remove(k), gc: m.gc.insert(k, seq!['*']), ..m }
    } else if m.packages.contains_key(k) {
        ManifestModel { packages: m.packages.remove(k), gc: m.gc.insert(k, m.packages[k]), ..m }
    } else {
        m
    }
}

/// Moves `package` from the pure or impure section into `gc`. On success tells whether it
/// was taken from the impure section; fails, changing nothing, when nothing tracks it.
pub fn remove_from_global(global: &mut Manifest, package: &str) -> (r: Result<bool, MacdevError>)
    ensures
        removal_tracked(old(global)@, package@) ==> r == Ok::<bool, MacdevError>(
            removal_is_impure(old(global)@, package@),
        ) && final(global)@ == after_remove(old(global)@, package@),
        !removal_tracked(old(global)@, package@) ==> final(global)@ == old(global)@ && match r {
            Err(MacdevError::NotTracked(n)) => n@ == package@,
            _ => false,
        },
{
    let base = base_name_of(package);
    let versioned = find_char(package, '@').is_some();
    let exact_pure = global.packages.contains_key(package);
    let exact_impure = global.impure.contains_key(package);
    let base_pure = global.packages.contains_key(base.as_str());
    let base_impure = global.impure.contains_key(base.as_str());
    let is_impure = if versioned {
        exact_impure || (!exact_pure && !base_pure && base_impure)
    } else {
        exact_impure || (!exact_pure && base_impure)
    };
    if !exact_pure && !exact_impure && !base_pure && !base_impure {
        return Err(MacdevError::NotTracked(package.to_owned()));
    }
    if is_impure {
        let key = if exact_impure { package.to_owned() } else { base };
        global.impure.remove(key.as_str());
        proof {
            reveal_strlit("*");
            assert("*"@ =~= seq!['*']);
        }
        global.gc.insert(key, "*".to_owned());
        proof {
            assert(final(global)@ =~= after_remove(old(global)@, package@));
        }
        Ok(true)
    } else {
        let key = if exact_pure { package.to_owned() } else { base };
        match global.packages.remove(key.as_str()) {
            Some(ver) => {
                global.gc.insert(key, ver);
            },
            None => {},
        }
        proof {
            assert(final(global)@ =~= after_remove(old(global)@, package@));
        }
        Ok(false)
    }
}

/// The key under which a pure removal also leaves the project manifest: the exact name
/// when the project holds it, else the base name when the project holds that; none for
/// an impure removal.
pub fn local_key_to_remove(local: &Manifest, package: &str, impure: bool) -> (r: Option<String>)
    ensures
        impure ==> r is None,
        !impure ==> match r {
            Some(k) => local@.packages.contains_key(k@) && k@ == (if local@.packages.contains_key(
                package@,
            ) {
                package@
            } else {
                base_name(package@)
            }),
            None => !local@.packages.contains_key(package@) && !local@.packages.contains_key(
                base_name(package@),
            ),
        },
{
    if impure {
        return None;
    }
    if local.packages.contains_key(package) {
        Some(package.to_owned())
    } else {
        let base = base_name_of(package);
        if local.packages.contains_key(base.as_str()) {
            Some(base)
        } else {
            None
        }
    }
}

/// The global manifest after `gc` uninstalled the names in `done`: they leave `gc`; the
/// names whose uninstall failed stay for the next run.
pub open spec fn after_gc(m: ManifestModel, done: Set<Seq<char>>) -> ManifestModel {
    ManifestModel { gc: m.gc.remove_keys(done), ..m }
}

/// Takes the names that were uninstalled out of `gc`.
pub fn forget_collected(global: &mut Manifest, uninstalled: &Vec<String>)
    ensures
        final(global)@ == after_gc(old(global)@, views(uninstalled@).to_set()),
{
    let mut i: usize = 0;
    assert(old(global)@.gc.remove_keys(views(uninstalled@).subrange(0, 0).to_set()) =~= old(global)@.gc);
    assert(global@ =~= after_gc(old(global)@, views(uninstalled@).subrange(0, 0).to_set()));
    while i < uninstalled.len()
        invariant
            i <= uninstalled@.len(),
            global@ == after_gc(old(global)@, views(uninstalled@).subrange(0, i as int).to_set()),
        decreases uninstalled@.len() - i,
    {
        global.gc.remove(uninstalled[i].as_str());
        proof {
            let s0 = views(uninstalled@).subrange(0, i as int);
            assert(views(uninstalled@).subrange(0, i + 1) =~= s0.push(uninstalled@[i as int]@));
            s0.lemma_push_to_set_commute(uninstalled@[i as int]@);
            assert(global@ =~= after_gc(old(global)@, views(uninstalled@).subrange(0, i + 1).to_set()));
        }
        i = i + 1;
    }
    assert(views(uninstalled@).subrange(0, i as int) =~= views(uninstalled@));
}

/// The identifier that `gc` uninstalls for the entry `key` with `version`: the key
/// itself when it names a version or the version is `*`, else `key@version`.
pub open spec fn gc_formula(key: Seq<char>, version: Seq<char>) -> Seq<char> {
    if has_version(key) {
        key
    } else {
        formula_of(key, version)
    }
}

/// Every entry of `gc`, in key order, with the identifier to uninstall for it.
pub fn gc_targets(global: &Manifest) -> (r: Vec<(String, String)>)
    ensures
        r@.len() == global.gc.key_list().len(),
        forall|i: int| 0 <= i < r@.len() ==> (#[trigger] r@[i]).0@ == global.gc.key_list()[i]
            && global@.gc.contains_key(r@[i].0@)
            && r@[i].1@ == gc_formula(r@[i].0@, global@.gc[r@[i].0@]),
{
    let n = global.gc.len();
    let mut r: Vec<(String, String)> = Vec::new();
    let mut i: usize = 0;
    while i < n
        invariant
            n == global.gc.key_list().len(),
            i <= n,
            r@.len() == i,
            forall|j: int| 0 <= j < i ==> (#[trigger] r@[j]).0@ == global.gc.key_list()[j]
                && global@.gc.contains_key(r@[j].0@)
                && r@[j].1@ == gc_formula(r@[j].0@, global@.gc[r@[j].0@]),
        decreases n - i,
    {
        let (key, version) = global.gc.entry_at(i);
        let formula = if find_char(key.as_str(), '@').is_some() {
            key.clone()
        } else {
            formula_spec(key.as_str(), version.as_str())
        };
        r.push((key.clone(), formula));
        i = i + 1;
    }
    r
}

/// A name is in at most one of the pure, impure and `gc` sections.
pub open spec fn in_one_section(m: ManifestModel, k: Seq<char>) -> bool {
    &&& !(m.packages.contains_key(k) && m.impure.contains_key(k))
    &&& !(m.packages.contains_key(k) && m.gc.contains_key(k))
    &&& !(m.impure.contains_key(k) && m.gc.contains_key(k))
}

/// Every name is in at most one of the pure, impure and `gc` sections.
pub open spec fn sections_exclusive(m: ManifestModel) -> bool {
    forall|k: Seq<char>| #[trigger] in_one_section(m, k)
}

/// `remove` moves an entry: it keeps every name in at most one section.
pub proof fn lemma_remove_keeps_sections_exclusive(m: ManifestModel, p: Seq<char>)
    requires
        sections_exclusive(m),
    ensures
        sections_exclusive(after_remove(m, p)),
{
    let r = after_remove(m, p);
    assert forall|k: Seq<char>| #[trigger] in_one_section(r, k) by {
        assert(in_one_section(m, k));
        assert(in_one_section(m, removal_key(m, p)));
    }
}

/// `gc` only takes names out: it keeps every name in at most one section.
pub proof fn lemma_gc_keeps_sections_exclusive(m: ManifestModel, done: Set<Seq<char>>)
    requires
        sections_exclusive(m),
    ensures
        sections_exclusive(after_gc(m, done)),
{
    assert forall|k: Seq<char>| #[trigger] in_one_section(after_gc(m, done), k) by {
        assert(in_one_section(m, k));
    }
}

/// Removing a name that is recorded in one active section under that very name puts it
/// into `gc` and out of both active sections; once `gc` has uninstalled it, no section
/// holds it.
pub proof fn lemma_remove_then_gc(m: ManifestModel, name: Seq<char>, done: Set<Seq<char>>)
    requires
        m.packages.contains_key(name) || m.impure.contains_key(name),
        in_one_section(m, name),
        done.contains(name),
    ensures
        removal_tracked(m, name),
        after_remove(m, name).gc.contains_key(name),
        !after_remove(m, name).packages.contains_key(name),
        !after_remove(m, name).impure.contains_key(name),
        !after_gc(after_remove(m, name), done).gc.contains_key(name),
        !after_gc(after_remove(m, name), done).packages.contains_key(name),
        !after_gc(after_remove(m, name), done).impure.contains_key(name),
{
    assert(removal_key(m, name) == name);
}

// ---- project packages ----

/// The identifiers of the project packages `keys`, in order.
pub open spec fn formulas(keys: Seq<Seq<char>>, pkgs: Map<Seq<char>, Seq<char>>) -> Seq<Seq<char>> {
    keys.map_values(|k: Seq<char>| formula_of(k, pkgs[k]))
}

/// The project packages among `keys` that the global manifest lacks, in order.
pub open spec fn absent_from(keys: Seq<Seq<char>>, global: Map<Seq<char>, Seq<char>>) -> Seq<Seq<char>> {
    keys.filter(|k: Seq<char>| !global.contains_key(k))
}

/// The identifier of every project package, in key order: what the profile links and
/// what an upgrade of everything hands to the package manager.
pub fn profile_specs(local: &Manifest) -> (r: Vec<String>)
    ensures
        views(r@) == formulas(local.packages.key_list(), local@.packages),
{
    let n = local.packages.len();
    let mut r: Vec<String> = Vec::new();
    let mut i: usize = 0;
    while i < n
        invariant
            n == local.packages.key_list().len(),
            i <= n,
            r@.len() == i,
            forall|j: int| 0 <= j < i ==> (#[trigger] r@[j])@ == formula_of(
                local.packages.key_list()[j],
                local@.packages[local.packages.key_list()[j]],
            ),
        decreases n - i,
    {
        let (name, version) = local.packages.entry_at(i);
        r.push(formula_spec(name.as_str(), version.as_str()));
        i = i + 1;
    }
    assert(views(r@) =~= formulas(local.packages.key_list(), local@.packages));
    r
}

/// The project packages that the global manifest does not list, in key order.
pub fn missing_packages(local: &Manifest, global: &Manifest) -> (r: Vec<String>)
    ensures
        views(r@) == absent_from(local.packages.key_list(), global@.packages),
{
    let ghost keys = local.packages.key_list();
    let ghost pred = |k: Seq<char>| !global@.packages.contains_key(k);
    let n = local.packages.len();
    let mut r: Vec<String> = Vec::new();
    let mut i: usize = 0;
    while i < n
        invariant
            keys == local.packages.key_list(),
            pred == (|k: Seq<char>| !global@.packages.contains_key(k)),
            n == keys.len(),
            i <= n,
            views(r@) == keys.subrange(0, i as int).filter(pred),
        decreases n - i,
    {
        let (name, _) = local.packages.entry_at(i);
        let ghost prev = r@;
        proof {
            reveal(Seq::filter);
            assert(keys.subrange(0, i + 1).drop_last() =~= keys.subrange(0, i as int));
        }
        if !global.packages.contains_key(name.as_str()) {
            r.push(name.clone());
            assert(views(r@) =~= views(prev).push(name@));
        }
        i = i + 1;
    }
    assert(keys.subrange(0, n as int) =~= keys);
    r
}

/// The identifiers of the project packages that `sync` must add again: those that the
/// global manifest does not list as installed, in key order.
pub fn packages_to_sync(local: &Manifest, global: &Manifest) -> (r: Vec<String>)
    ensures
        views(r@) == formulas(absent_from(local.packages.key_list(), global@.packages), local@.packages),
{
    let missing = missing_packages(local, global);
    let _ = local.packages.len();
    let ghost keys = absent_from(local.packages.key_list(), global@.packages);
    proof {
        assert forall|j: int| 0 <= j < keys.len() implies local@.packages.contains_key(#[trigger] keys[j]) by {
            let ks = local.packages.key_list();
            let pred = |k: Seq<char>| !global@.packages.contains_key(k);
            assert(keys.contains(keys[j]));
            ks.lemma_filter_contains_rev(pred, keys[j]);
        }
    }
    let mut r: Vec<String> = Vec::new();
    let mut i: usize = 0;
    while i < missing.len()
        invariant
            views(missing@) == keys,
            forall|j: int| 0 <= j < keys.len() ==> local@.packages.contains_key(#[trigger] keys[j]),
            i <= missing@.len(),
            r@.len() == i,
            forall|j: int| 0 <= j < i ==> (#[trigger] r@[j])@ == formula_of(keys[j], local@.packages[keys[j]]),
        decreases missing@.len() - i,
    {
        assert(keys[i as int] == missing@[i as int]@);
        let version = local.packages.get(missing[i].as_str()).unwrap();
        r.push(formula_spec(missing[i].as_str(), version.as_str()));
        i = i + 1;
    }
    assert(views(r@) =~= formulas(keys, local@.packages));
    r
}

/// When the global manifest lists every project package, `sync` adds none again.
pub proof fn lemma_synced_adds_nothing(keys: Seq<Seq<char>>, local: Map<Seq<char>, Seq<char>>, global: Map<Seq<char>, Seq<char>>)
    requires
        forall|j: int| 0 <= j < keys.len() ==> global.contains_key(#[trigger] keys[j]),
    ensures
        formulas(absent_from(keys, global), local).len() == 0,
    decreases keys.len(),
{
    reveal(Seq::filter);
    if keys.len() > 0 {
        lemma_synced_adds_nothing(keys.drop_last(), local, global);
    }
}

// ---- install ----

/// What `install` hands to the package manager for a project package: the formula that
/// the lock pinned, else the manifest's identifier.
pub open spec fn install_formula(name: Seq<char>, version: Seq<char>, lock: Option<LockModel>) -> Seq<char> {
    match lock {
        Some(l) => if l.packages.contains_key(name) {
            l.packages[name].1
        } else {
            formula_of(name, version)
        },
        None => formula_of(name, version),
    }
}

/// The identifier that `install` uses for one project package.
pub fn install_spec(name: &str, version: &str, lock: Option<&Lock>) -> (r: String)
    ensures
        r@ == install_formula(name@, version@, match lock { Some(l) => Some(l@), None => None }),
{
    match lock {
        Some(l) => match l.packages.get(name) {
            Some(pinned) => pinned.formula.clone(),
            None => formula_spec(name, version),
        },
        None => formula_spec(name, version),
    }
}

/// The global manifest after `install`: every project package is listed as installed
/// with the project's version, and leaves the impure section and `gc`.
pub open spec fn after_install(m: ManifestModel, local: Map<Seq<char>, Seq<char>>) -> ManifestModel {
    ManifestModel {
        packages: m.packages.union_prefer_right(local),
        impure: m.impure.remove_keys(local.dom()),
        gc: m.gc.remove_keys(local.dom()),
        ..m
    }
}

/// Lists every project package in the global manifest as installed.
pub fn record_installed(global: &mut Manifest, local: &Manifest)
    ensures
        final(global)@ == after_install(old(global)@, local@.packages),
{
    let ghost keys = local.packages.key_list();
    let n = local.packages.len();
    let mut i: usize = 0;
    proof {
        let none = local@.packages.restrict(keys.subrange(0, 0).to_set());
        assert(none.dom() =~= Set::<Seq<char>>::empty());
        assert(old(global)@.packages.union_prefer_right(none) =~= old(global)@.packages);
        assert(old(global)@.impure.remove_keys(none.dom()) =~= old(global)@.impure);
        assert(old(global)@.gc.remove_keys(none.dom()) =~= old(global)@.gc);
        assert(global@ =~= after_install(old(global)@, none));
    }
    while i < n
        invariant
            keys == local.packages.key_list(),
            n == keys.len(),
            forall|k: Seq<char>| local@.packages.contains_key(k) <==> keys.contains(k),
            i <= n,
            global@ == after_install(
                old(global)@,
                local@.packages.restrict(keys.subrange(0, i as int).to_set()),
            ),
        decreases n - i,
    {
        let (name, version) = local.packages.entry_at(i);
        global.impure.remove(name.as_str());
        global.gc.remove(name.as_str());
        global.add_package(name.clone(), version.clone());
        proof {
            let s0 = keys.subrange(0, i as int);
            assert(keys.subrange(0, i + 1) =~= s0.push(name@));
            s0.lemma_push_to_set_commute(name@);
            let before = local@.packages.restrict(s0.to_set());
            let after = local@.packages.restrict(keys.subrange(0, i + 1).to_set());
            assert(after.dom() =~= before.dom().insert(name@));
            assert(global@.packages =~= old(global)@.packages.union_prefer_right(after));
            assert(global@.impure =~= old(global)@.impure.remove_keys(after.dom()));
            assert(global@.gc =~= old(global)@.gc.remove_keys(after.dom()));
            assert(global@ =~= after_install(old(global)@, after));
        }
        i = i + 1;
    }
    proof {
        assert(keys.subrange(0, n as int) =~= keys);
        assert(local@.packages.restrict(keys.to_set()) =~= local@.packages);
    }
}

/// `install` moves the project packages into the pure section: it keeps every name in at
/// most one section.
pub proof fn lemma_install_keeps_sections_exclusive(m: ManifestModel, local: Map<Seq<char>, Seq<char>>)
    requires
        sections_exclusive(m),
    ensures
        sections_exclusive(after_install(m, local)),
{
    let r = after_install(m, local);
    assert forall|k: Seq<char>| #[trigger] in_one_section(r, k) by {
        assert(in_one_section(m, k));
    }
}

// ---- upgrade ----

/// What an upgrade of one package must do after the package manager upgraded it.
#[derive(Debug, PartialEq, Eq)]
pub struct UpgradeTarget {
    /// The package is a project package: the profile is rebuilt.
    pub pure: bool,
    /// It is a Python: the user is told to recreate the virtual environment.
    pub python: bool,
}

/// Whether an identifier is a Python: its base name is `python`, or it starts with `python@`.
pub open spec fn is_python(base: Seq<char>, spec: Seq<char>) -> bool {
    base == "python"@ || has_prefix(spec, "python@"@)
}

/// Checks that `package` is managed (a project package or a global impure one, by base
/// name) before it is upgraded.
pub fn plan_upgrade(local: Option<&Manifest>, global: &Manifest, package: &str) -> (r: Result<UpgradeTarget, MacdevError>)
    ensures
        ({
            let b = base_name(package@);
            let pure = match local { Some(l) => l@.packages.contains_key(b), None => false };
            let impure = global@.impure.contains_key(b);
            match r {
                Ok(t) => (pure || impure) && t.pure == pure && t.python == (pure && is_python(b, package@)),
                Err(e) => !pure && !impure && match e {
                    MacdevError::NotManaged(n) => n@ == package@,
                    _ => false,
                },
            }
        }),
{
    let base = base_name_of(package);
    let pure = match local {
        Some(l) => l.packages.contains_key(base.as_str()),
        None => false,
    };
    let impure = global.impure.contains_key(base.as_str());
    if !pure && !impure {
        return Err(MacdevError::NotManaged(package.to_owned()));
    }
    let python = pure && python_like(base.as_str(), package);
    Ok(UpgradeTarget { pure, python })
}

/// Whether an identifier is a Python.
pub fn python_like(base: &str, spec: &str) -> (r: bool)
    ensures
        r == is_python(base@, spec@),
{
    let py = "python".to_owned();
    let b = base.to_owned();
    b == py || starts_with(spec, "python@")
}

/// Whether an upgrade changed anything: the package manager succeeded and did not say
/// the package was already installed.
pub fn upgrade_changed(succeeded: bool, stderr: &str) -> (r: bool)
    ensures
        r == (succeeded && !has_infix(stderr@, "already installed"@)),
{
    succeeded && !contains(stderr, "already installed")
}

// ---- check ----

/// What `check` finds.
#[derive(Debug)]
pub enum CheckOutcome {
    /// Every project package is installed and the profile has entries.
    Ready,
    /// There is no project manifest.
    NoManifest,
    /// These project packages are not installed.
    Missing(Vec<String>),
    /// The profile's `bin` directory is missing or empty.
    EmptyProfile,
}

/// Decides whether the project environment is set up. `profile_populated` tells whether
/// the profile's `bin` directory exists and has an entry.
pub fn check_outcome(local: Option<&Manifest>, global: &Manifest, profile_populated: bool) -> (r: CheckOutcome)
    ensures
        match local {
            None => r is NoManifest,
            Some(l) => {
                let missing = absent_from(l.packages.key_list(), global@.packages);
                match r {
                    CheckOutcome::Missing(v) => missing.len() > 0 && views(v@) == missing,
                    CheckOutcome::EmptyProfile => missing.len() == 0 && !profile_populated,
                    CheckOutcome::Ready => missing.len() == 0 && profile_populated,
                    CheckOutcome::NoManifest => false,
                }
            },
        },
{
    match local {
        None => CheckOutcome::NoManifest,
        Some(l) => {
            let missing = missing_packages(l, global);
            if missing.len() > 0 {
                CheckOutcome::Missing(missing)
            } else if !profile_populated {
                CheckOutcome::EmptyProfile
            } else {
                CheckOutcome::Ready
            }
        },
    }
}

// ---- taps ----

/// The global manifest after `tap(name)`: the tap is tracked, once.
pub open spec fn after_tap(m: ManifestModel, name: Seq<char>) -> ManifestModel {
    if m.taps.contains_key(name) {
        m
    } else {
        m.with_tap(name)
    }
}

/// How many times `tap(name)` asks the package manager to register the tap, given whether
/// the package manager already has it: never for a tracked tap.
pub open spec fn tap_registrations(m: ManifestModel, name: Seq<char>, already_tapped: bool) -> nat {
    if m.taps.contains_key(name) || already_tapped {
        0
    } else {
        1
    }
}

/// What `tap` does with the package manager.
#[derive(Debug, PartialEq, Eq)]
pub enum TapAction {
    /// The tap is tracked already: nothing to do.
    AlreadyTracked,
    /// The package manager has the tap: it is only recorded.
    RecordOnly,
    /// The package manager registers the tap, then it is recorded.
    Register,
}

/// Decides what `tap(name)` does. `already_tapped` is the package manager's answer; it
/// matters only for a tap that is not tracked.
pub fn decide_tap(global: &Manifest, name: &str, already_tapped: bool) -> (r: TapAction)
    ensures
        (r == TapAction::AlreadyTracked) == global@.taps.contains_key(name@),
        (r == TapAction::Register) == (tap_registrations(global@, name@, already_tapped) == 1),
{
    if global.taps.contains_key(name) {
        TapAction::AlreadyTracked
    } else if already_tapped {
        TapAction::RecordOnly
    } else {
        TapAction::Register
    }
}

/// Tracks a tap in the global manifest, leaving a tracked one as it is.
pub fn record_tap(global: &mut Manifest, name: &str)
    ensures
        final(global)@ == after_tap(old(global)@, name@),
{
    if !global.taps.contains_key(name) {
        global.add_tap(name.to_owned());
    }
}

/// Tapping the same name twice tracks it once and registers it with the package manager
/// at most once.
pub proof fn lemma_tap_twice(m: ManifestModel, name: Seq<char>, tapped_first: bool, tapped_second: bool)
    ensures
        after_tap(after_tap(m, name), name) == after_tap(m, name),
        after_tap(m, name).taps.contains_key(name),
        after_tap(m, name).taps.dom() == m.taps.dom().insert(name),
        tap_registrations(m, name, tapped_first) + tap_registrations(after_tap(m, name), name, tapped_second) <= 1,
{
    if !m.taps.contains_key(name) {
        assert(m.with_tap(name).taps.dom() =~= m.taps.dom().insert(name));
    } else {
        assert(m.taps.dom() =~= m.taps.dom().insert(name));
    }
}

/// Checks that `untap(name)` has a tracked tap to remove.
pub fn check_untap(global: &Manifest, name: &str) -> (r: Result<(), MacdevError>)
    ensures
        global@.taps.contains_key(name@) <==> r is Ok,
        match r {
            Err(MacdevError::TapNotTracked(n)) => n@ == name@,
            Err(_) => false,
            Ok(_) => true,
        },
{
    if global.taps.contains_key(name) {
        Ok(())
    } else {
        Err(MacdevError::TapNotTracked(name.to_owned()))
    }
}

} // verus!
