//! The project manifest: which dependencies to check, and how to install
//! what was chosen.

use crate::dependencies::{inserted, PackageDependencies};
use crate::flags::Flags;
use crate::fs_utils::{find_closest_file, first_existing, Candidate};
use crate::package_info::PackageInfo;
use crate::package_manager::{
    install_command, is_manager_name, manager_name, manager_named, PackageManager, BUN_LOCK,
    NPM_LOCK, PNPM_LOCK, YARN_LOCK,
};
use crate::utils::order::str_eq;
use crate::versions::version_target::VersionTarget;
use vstd::prelude::*;
use vstd::string::{StrSliceExecFns, StringExecFns};

verus! {

/// The file name of the manifest.
pub const PACKAGE_JSON_FILENAME: &'static str = "package.json";

/// What a run reads of the manifest.
#[derive(Debug)]
pub struct PackageJson {
    pub dependencies: Option<PackageDependencies>,
    pub dev_dependencies: Option<PackageDependencies>,
    pub optional_dependencies: Option<PackageDependencies>,
    /// The manager the project asks for, as `name@version`.
    pub package_manager: Option<String>,
}

/// One globally installed package.
#[derive(Debug, Clone, PartialEq, Eq)]
pub struct GlobalDependency {
    pub version: String,
}

/// The globally installed packages, as the manager lists them: names with
/// what is installed under them.
#[derive(Debug, Clone, PartialEq, Eq)]
pub struct GlobalDependencies {
    pub dependencies: Vec<(String, GlobalDependency)>,
}

/// A manifest, where it was found, and the options of the run.
#[derive(Debug)]
pub struct PackageJsonManager {
    /// The path of the manifest, once located.
    pub file_path: Option<String>,
    pub json: PackageJson,
    pub flags: Flags,
}

/// Why a run cannot start.
#[derive(Debug, Clone, Copy, PartialEq, Eq, Structural)]
pub enum SetupError {
    /// No manifest was located.
    ManifestNotFound,
    /// The manifest declares no dependency of the classes asked for.
    NoDependencies,
}

/// The invocation that installs the chosen updates.
#[derive(Debug, Clone, PartialEq, Eq)]
pub struct InstallCommand {
    /// The package manager's program.
    pub program: &'static str,
    /// Its arguments, in order.
    pub args: Vec<String>,
}

/// The texts of a list of strings.
pub open spec fn texts(list: Seq<String>) -> Seq<Seq<char>> {
    list.map_values(|s: String| s@)
}

/// The dependencies of one class, none where the manifest has no such class.
pub open spec fn class_map(class: Option<PackageDependencies>) -> Map<Seq<char>, Seq<char>> {
    match class {
        Some(deps) => deps@,
        None => Map::empty(),
    }
}

/// The dependencies to check: with `production`, the production and the
/// optional ones; else with `development`, the development ones; else all
/// three classes. Where classes declare the same name the later class
/// decides, in the order production, development, optional.
pub open spec fn local_deps(json: PackageJson, flags: Flags) -> Map<Seq<char>, Seq<char>> {
    if flags.production {
        class_map(json.dependencies).union_prefer_right(class_map(json.optional_dependencies))
    } else if flags.development {
        class_map(json.dev_dependencies)
    } else {
        class_map(json.dependencies).union_prefer_right(
            class_map(json.dev_dependencies),
        ).union_prefer_right(class_map(json.optional_dependencies))
    }
}

/// The position of the first `@` of `s` at or after `from`, or the length
/// of `s` if there is none.
pub open spec fn at_sign(s: Seq<char>, from: int) -> int
    decreases s.len() - from,
{
    if from >= s.len() {
        s.len() as int
    } else if s[from] == '@' {
        from
    } else {
        at_sign(s, from + 1)
    }
}

/// The name in a `name@version` text: what stands before the first `@`.
pub open spec fn name_part(s: Seq<char>) -> Seq<char> {
    s.take(at_sign(s, 0))
}

/// Whether the manager that the manifest asks for, if any, is one of the
/// four that can be run.
pub open spec fn manager_field_known(json: PackageJson) -> bool {
    json.package_manager matches Some(field) ==> is_manager_name(name_part(field@))
}

/// Whether a file of the given name is among those present.
pub open spec fn is_present(present: Seq<String>, name: Seq<char>) -> bool {
    texts(present).contains(name)
}

/// The manager whose lock file is present, the first in the order npm,
/// yarn, pnpm, bun.
pub open spec fn lock_file_manager(present: Seq<String>) -> Option<PackageManager> {
    if is_present(present, "package-lock.json"@) {
        Some(PackageManager::Npm)
    } else if is_present(present, "yarn.lock"@) {
        Some(PackageManager::Yarn)
    } else if is_present(present, "pnpm-lock.yaml"@) {
        Some(PackageManager::Pnpm)
    } else if is_present(present, "bun.lockb"@) {
        Some(PackageManager::Bun)
    } else {
        None
    }
}

/// The manager that installs for this manifest: npm for a global run; else
/// the one the manifest asks for; else the one whose lock file lies beside
/// the located manifest; else npm.
pub open spec fn detected(manager: PackageJsonManager, present: Seq<String>) -> PackageManager {
    if manager.flags.global {
        PackageManager::Npm
    } else {
        match manager.json.package_manager {
            Some(field) => manager_named(name_part(field@))->0,
            None => if manager.file_path is Some && lock_file_manager(present) is Some {
                lock_file_manager(present)->0
            } else {
                PackageManager::Npm
            },
        }
    }
}

/// The arguments that name the updates: `name@version` for each, in order.
pub open spec fn install_args(updates: Seq<PackageInfo>) -> Seq<Seq<char>> {
    updates.map_values(|u: PackageInfo| u.pkg_name@ + "@"@ + u.latest_version@)
}

/// All arguments of the install invocation: the subcommand, the updates,
/// and `-g` for a global run.
pub open spec fn invocation_args(
    manager: PackageManager,
    updates: Seq<PackageInfo>,
    global: bool,
) -> Seq<Seq<char>> {
    seq![install_command(manager)] + install_args(updates) + (if global {
        seq!["-g"@]
    } else {
        Seq::empty()
    })
}

impl Default for PackageJson {
    /// A manifest that declares nothing.
    fn default() -> (r: PackageJson)
        ensures
            r.dependencies is None,
            r.dev_dependencies is None,
            r.optional_dependencies is None,
            r.package_manager is None,
    {
        PackageJson {
            dependencies: None,
            dev_dependencies: None,
            optional_dependencies: None,
            package_manager: None,
        }
    }
}

impl Default for PackageJsonManager {
    /// No manifest located, nothing declared, default options.
    fn default() -> (r: PackageJsonManager)
        ensures
            r.file_path is None,
            r.json.dependencies is None,
            r.json.dev_dependencies is None,
            r.json.optional_dependencies is None,
            r.json.package_manager is None,
            !r.flags.development,
            !r.flags.production,
            !r.flags.global,
            r.flags.target == VersionTarget::Latest,
    {
        PackageJsonManager { file_path: None, json: PackageJson::default(), flags: Flags::default() }
    }
}

impl SetupError {
    /// What to tell the user.
    pub fn message(&self) -> (r: &'static str)
        ensures
            r@ == (match *self {
                SetupError::ManifestNotFound => "Couldn't find an available package.json file."@,
                SetupError::NoDependencies => "No dependencies found."@,
            }),
    {
        match self {
            SetupError::ManifestNotFound => "Couldn't find an available package.json file.",
            SetupError::NoDependencies => "No dependencies found.",
        }
    }
}

/// The name in a `name@version` text.
pub fn name_before_at(s: &str) -> (r: &str)
    ensures
        r@ == name_part(s@),
{
    let n: usize = s.unicode_len();
    let mut i: usize = 0;
    while i < n
        invariant
            i <= n,
            n == s@.len(),
            at_sign(s@, 0) == at_sign(s@, i as int),
        decreases n - i,
    {
        if s.get_char(i) == '@' {
            return s.substring_char(0, i);
        }
        i = i + 1;
    }
    s.substring_char(0, i)
}

/// Whether a file called `name` is among those present.
pub fn contains_name(present: &Vec<String>, name: &str) -> (r: bool)
    ensures
        r == is_present(present@, name@),
{
    let mut i: usize = 0;
    while i < present.len()
        invariant
            i <= present@.len(),
            forall|j: int| 0 <= j < i ==> texts(present@)[j] != name@,
        decreases present@.len() - i,
    {
        if str_eq(present[i].as_str(), name) {
            assert(texts(present@)[i as int] == name@);
            return true;
        }
        i = i + 1;
    }
    false
}

/// The dependencies among the globally installed packages: each name with
/// its installed version. Where a name is listed more than once the last
/// listing stays.
pub open spec fn global_entries(listing: Seq<(String, GlobalDependency)>) -> Seq<(String, String)> {
    listing.map_values(|e: (String, GlobalDependency)| (e.0, e.1.version))
}

impl PackageJsonManager {
    /// A manager for a run with the given options, with no manifest yet.
    pub fn new(flags: Flags) -> (r: PackageJsonManager)
        ensures
            r.flags == flags,
            r.file_path is None,
            r.json.dependencies is None,
            r.json.dev_dependencies is None,
            r.json.optional_dependencies is None,
            r.json.package_manager is None,
    {
        PackageJsonManager { file_path: None, json: PackageJson::default(), flags }
    }

    /// Records where the manifest lies: at the closest candidate that
    /// exists. Refused, with nothing changed, where none exists.
    pub fn locate_closest_from(&mut self, candidates: &Vec<Candidate>) -> (r: Result<
        String,
        SetupError,
    >)
        ensures
            final(self).json == old(self).json,
            final(self).flags == old(self).flags,
            match r {
                Ok(path) => {
                    &&& first_existing(candidates@, 0) < candidates@.len()
                    &&& path@ == candidates@[first_existing(candidates@, 0)].path@
                    &&& final(self).file_path matches Some(stored) && stored@ == path@
                },
                Err(e) => {
                    &&& first_existing(candidates@, 0) == candidates@.len()
                    &&& e == SetupError::ManifestNotFound
                    &&& final(self).file_path == old(self).file_path
                },
            },
    {
        match find_closest_file(candidates) {
            Some(path) => {
                self.file_path = Some(path.clone());
                Ok(path)
            },
            None => Err(SetupError::ManifestNotFound),
        }
    }

    /// Takes in the contents of the located manifest. Refused, with nothing
    /// changed, where no manifest has been located.
    pub fn read(&mut self, json: PackageJson) -> (r: Result<(), SetupError>)
        ensures
            final(self).file_path == old(self).file_path,
            final(self).flags == old(self).flags,
            match r {
                Ok(_) => old(self).file_path is Some && final(self).json == json,
                Err(e) => old(self).file_path is None && e == SetupError::ManifestNotFound
                    && final(self).json == old(self).json,
            },
    {
        if self.file_path.is_some() {
            self.json = json;
            Ok(())
        } else {
            Err(SetupError::ManifestNotFound)
        }
    }

    /// The dependencies that the run is to check.
    pub fn get_local_deps(&self) -> (r: PackageDependencies)
        ensures
            r@ == local_deps(self.json, self.flags),
    {
        let mut deps = PackageDependencies::new();
        if self.flags.production {
            if let Some(class) = &self.json.dependencies {
                deps.extend(class);
            }
            if let Some(class) = &self.json.optional_dependencies {
                deps.extend(class);
            }
        } else if self.flags.development {
            if let Some(class) = &self.json.dev_dependencies {
                deps.extend(class);
            }
        } else {
            if let Some(class) = &self.json.dependencies {
                deps.extend(class);
            }
            if let Some(class) = &self.json.dev_dependencies {
                deps.extend(class);
            }
            if let Some(class) = &self.json.optional_dependencies {
                deps.extend(class);
            }
        }
        assert(deps@ =~= local_deps(self.json, self.flags));
        deps
    }

    /// The dependencies that the run is to check, or `NoDependencies` where
    /// there is none.
    pub fn collect_deps(&self) -> (r: Result<PackageDependencies, SetupError>)
        ensures
            match r {
                Ok(deps) => deps@ == local_deps(self.json, self.flags) && deps@ != Map::<
                    Seq<char>,
                    Seq<char>,
                >::empty(),
                Err(e) => e == SetupError::NoDependencies && local_deps(self.json, self.flags)
                    == Map::<Seq<char>, Seq<char>>::empty(),
            },
    {
        let deps = self.get_local_deps();
        if deps.is_empty() {
            Err(SetupError::NoDependencies)
        } else {
            Ok(deps)
        }
    }

    /// The dependencies among the globally installed packages.
    pub fn get_global_deps(listing: &GlobalDependencies) -> (r: PackageDependencies)
        ensures
            r@ == inserted(
                global_entries(listing.dependencies@),
                listing.dependencies@.len() as int,
            ),
    {
        let mut entries: Vec<(String, String)> = Vec::new();
        let mut i: usize = 0;
        while i < listing.dependencies.len()
            invariant
                i <= listing.dependencies@.len(),
                entries@ == global_entries(listing.dependencies@).take(i as int),
            decreases listing.dependencies@.len() - i,
        {
            let name = listing.dependencies[i].0.clone();
            let version = listing.dependencies[i].1.version.clone();
            entries.push((name, version));
            assert(entries@ =~= global_entries(listing.dependencies@).take(i + 1));
            i = i + 1;
        }
        assert(entries@ =~= global_entries(listing.dependencies@));
        PackageDependencies::from_entries(&entries)
    }

    /// Whether the manager that the manifest asks for, if any, is one that
    /// can be run.
    pub fn has_known_manager(&self) -> (r: bool)
        ensures
            r == manager_field_known(self.json),
    {
        match &self.json.package_manager {
            Some(field) => PackageManager::from_name(name_before_at(field.as_str())).is_some(),
            None => true,
        }
    }

    /// The manager that the manifest asks for, if it asks for one.
    pub fn get_package_manager_from_json(&self) -> (r: Option<PackageManager>)
        requires
            manager_field_known(self.json),
        ensures
            match self.json.package_manager {
                Some(field) => r == manager_named(name_part(field@)) && r is Some,
                None => r is None,
            },
    {
        match &self.json.package_manager {
            Some(field) => Some(PackageManager::from(name_before_at(field.as_str()))),
            None => None,
        }
    }

    /// The manager whose lock file is among the files `present` beside the
    /// located manifest.
    pub fn detect_lock_file(&self, present: &Vec<String>) -> (r: Option<PackageManager>)
        ensures
            r == (if self.file_path is Some {
                lock_file_manager(present@)
            } else {
                None
            }),
    {
        if self.file_path.is_none() {
            return None;
        }
        if contains_name(present, NPM_LOCK) {
            Some(PackageManager::Npm)
        } else if contains_name(present, YARN_LOCK) {
            Some(PackageManager::Yarn)
        } else if contains_name(present, PNPM_LOCK) {
            Some(PackageManager::Pnpm)
        } else if contains_name(present, BUN_LOCK) {
            Some(PackageManager::Bun)
        } else {
            None
        }
    }

    /// The manager that installs for this manifest, given the lock files
    /// `present` beside it.
    pub fn detect_package_manager(&self, present: &Vec<String>) -> (r: PackageManager)
        requires
            manager_field_known(self.json),
        ensures
            r == detected(*self, present@),
    {
        if self.flags.global {
            return PackageManager::Npm;
        }
        if let Some(manager) = self.get_package_manager_from_json() {
            return manager;
        }
        if let Some(manager) = self.detect_lock_file(present) {
            return manager;
        }
        PackageManager::Npm
    }

    /// The arguments that name the updates: `name@version` for each, in order.
    pub fn construct_install_args(updates: &[PackageInfo]) -> (r: Vec<String>)
        ensures
            texts(r@) == install_args(updates@),
    {
        let mut args: Vec<String> = Vec::new();
        let mut i: usize = 0;
        while i < updates.len()
            invariant
                i <= updates@.len(),
                args@.len() == i,
                texts(args@) == install_args(updates@).take(i as int),
            decreases updates@.len() - i,
        {
            let ghost before = args@;
            args.push(updates[i].install_arg());
            assert forall|j: int| 0 <= j < i implies texts(args@)[j] == install_args(updates@)[j] by {
                assert(texts(args@)[j] == texts(before)[j]);
                assert(install_args(updates@).take(i as int)[j] == install_args(updates@)[j]);
            }
            assert(texts(args@) =~= install_args(updates@).take(i + 1));
            i = i + 1;
        }
        assert(texts(args@) =~= install_args(updates@));
        args
    }

    /// The invocation that installs the chosen updates, given the lock
    /// files `present` beside the manifest.
    pub fn install_deps(&self, updates: &[PackageInfo], present: &Vec<String>) -> (r:
        InstallCommand)
        requires
            manager_field_known(self.json),
        ensures
            r.program@ == manager_name(detected(*self, present@)),
            texts(r.args@) == invocation_args(
                detected(*self, present@),
                updates@,
                self.flags.global,
            ),
    {
        let package_manager = self.detect_package_manager(present);
        let install_args = PackageJsonManager::construct_install_args(updates);
        let command = package_manager.determine_install_command();
        let mut args: Vec<String> = Vec::new();
        args.push(String::from_str(command));
        assert(texts(args@) =~= seq![install_command(package_manager)]);
        let mut i: usize = 0;
        while i < install_args.len()
            invariant
                i <= install_args@.len(),
                args@.len() == i + 1,
                texts(args@) == seq![install_command(package_manager)] + texts(
                    install_args@,
                ).take(i as int),
            decreases install_args@.len() - i,
        {
            let ghost before = args@;
            let ghost head = seq![install_command(package_manager)];
            args.push(install_args[i].clone());
            assert forall|j: int| 0 <= j <= i implies texts(args@)[j] == (head + texts(
                install_args@,
            ))[j] by {
                assert(texts(args@)[j] == texts(before)[j]);
                assert(texts(before)[j] == (head + texts(install_args@).take(i as int))[j]);
            }
            assert(texts(args@) =~= head + texts(install_args@).take(i + 1));
            i = i + 1;
        }
        assert(texts(install_args@).take(install_args@.len() as int) =~= texts(install_args@));
        if self.flags.global {
            args.push(String::from_str("-g"));
        }
        assert(texts(args@) =~= invocation_args(package_manager, updates@, self.flags.global));
        InstallCommand { program: package_manager.to_str(), args }
    }
}

} // verus!
