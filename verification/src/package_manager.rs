//! The package managers that can install an update.

use crate::utils::order::str_eq;
use vstd::prelude::*;

verus! {

/// A package manager.
#[derive(Debug, Clone, Copy, PartialEq, Eq, Structural)]
pub enum PackageManager {
    Npm,
    Yarn,
    Pnpm,
    Bun,
}

/// The lock file of npm.
pub const NPM_LOCK: &'static str = "package-lock.json";

/// The lock file of yarn.
pub const YARN_LOCK: &'static str = "yarn.lock";

/// The lock file of pnpm.
pub const PNPM_LOCK: &'static str = "pnpm-lock.yaml";

/// The lock file of bun.
pub const BUN_LOCK: &'static str = "bun.lockb";

/// The name of a manager's program.
pub open spec fn manager_name(manager: PackageManager) -> Seq<char> {
    match manager {
        PackageManager::Npm => "npm"@,
        PackageManager::Yarn => "yarn"@,
        PackageManager::Pnpm => "pnpm"@,
        PackageManager::Bun => "bun"@,
    }
}

/// The name of the lock file that a manager keeps beside the manifest.
pub open spec fn lock_file_name(manager: PackageManager) -> Seq<char> {
    match manager {
        PackageManager::Npm => "package-lock.json"@,
        PackageManager::Yarn => "yarn.lock"@,
        PackageManager::Pnpm => "pnpm-lock.yaml"@,
        PackageManager::Bun => "bun.lockb"@,
    }
}

/// The subcommand by which a manager installs named packages.
pub open spec fn install_command(manager: PackageManager) -> Seq<char> {
    match manager {
        PackageManager::Npm => "install"@,
        _ => "add"@,
    }
}

/// The manager whose program is called `name`, if there is one.
pub open spec fn manager_named(name: Seq<char>) -> Option<PackageManager> {
    if name == "npm"@ {
        Some(PackageManager::Npm)
    } else if name == "yarn"@ {
        Some(PackageManager::Yarn)
    } else if name == "pnpm"@ {
        Some(PackageManager::Pnpm)
    } else if name == "bun"@ {
        Some(PackageManager::Bun)
    } else {
        None
    }
}

/// The manager that keeps the lock file called `name`, if there is one.
pub open spec fn lock_file_owner(name: Seq<char>) -> Option<PackageManager> {
    if name == "package-lock.json"@ {
        Some(PackageManager::Npm)
    } else if name == "yarn.lock"@ {
        Some(PackageManager::Yarn)
    } else if name == "pnpm-lock.yaml"@ {
        Some(PackageManager::Pnpm)
    } else if name == "bun.lockb"@ {
        Some(PackageManager::Bun)
    } else {
        None
    }
}

/// Whether a text is the name of some manager's program.
pub open spec fn is_manager_name(s: Seq<char>) -> bool {
    manager_named(s) is Some
}

/// Whether a text is the name of some manager's lock file.
pub open spec fn is_lock_file_name(s: Seq<char>) -> bool {
    lock_file_owner(s) is Some
}

/// A manager is found again under its program name and under the name of
/// its lock file.
pub proof fn lemma_manager_found_by_name(manager: PackageManager)
    ensures
        manager_named(manager_name(manager)) == Some(manager),
        lock_file_owner(lock_file_name(manager)) == Some(manager),
{
    lemma_manager_names_distinct(manager, PackageManager::Npm);
    lemma_manager_names_distinct(manager, PackageManager::Yarn);
    lemma_manager_names_distinct(manager, PackageManager::Pnpm);
    lemma_manager_names_distinct(manager, PackageManager::Bun);
}

/// No two managers share a program name or a lock file name.
pub proof fn lemma_manager_names_distinct(a: PackageManager, b: PackageManager)
    ensures
        manager_name(a) == manager_name(b) ==> a == b,
        lock_file_name(a) == lock_file_name(b) ==> a == b,
{
    reveal_strlit("npm");
    reveal_strlit("yarn");
    reveal_strlit("pnpm");
    reveal_strlit("bun");
    reveal_strlit("package-lock.json");
    reveal_strlit("yarn.lock");
    reveal_strlit("pnpm-lock.yaml");
    reveal_strlit("bun.lockb");
    if manager_name(a) == manager_name(b) {
        assert(manager_name(a).len() == manager_name(b).len());
        assert(manager_name(a)[0] == manager_name(b)[0]);
    }
    if lock_file_name(a) == lock_file_name(b) {
        assert(lock_file_name(a).len() == lock_file_name(b).len());
        assert(lock_file_name(a)[0] == lock_file_name(b)[0]);
    }
}

impl PackageManager {
    /// The manager whose program is called `name`, if there is one.
    pub fn from_name(name: &str) -> (r: Option<PackageManager>)
        ensures
            r == manager_named(name@),
    {
        if str_eq(name, "npm") {
            Some(PackageManager::Npm)
        } else if str_eq(name, "yarn") {
            Some(PackageManager::Yarn)
        } else if str_eq(name, "pnpm") {
            Some(PackageManager::Pnpm)
        } else if str_eq(name, "bun") {
            Some(PackageManager::Bun)
        } else {
            None
        }
    }

    /// The manager that keeps the lock file called `lock_file`, if there is one.
    pub fn from_lock_file_name(lock_file: &str) -> (r: Option<PackageManager>)
        ensures
            r == lock_file_owner(lock_file@),
    {
        if str_eq(lock_file, NPM_LOCK) {
            Some(PackageManager::Npm)
        } else if str_eq(lock_file, YARN_LOCK) {
            Some(PackageManager::Yarn)
        } else if str_eq(lock_file, PNPM_LOCK) {
            Some(PackageManager::Pnpm)
        } else if str_eq(lock_file, BUN_LOCK) {
            Some(PackageManager::Bun)
        } else {
            None
        }
    }

    /// The manager whose program is called `s`, which must be one of the
    /// four program names.
    pub fn from(s: &str) -> (r: PackageManager)
        requires
            is_manager_name(s@),
        ensures
            manager_named(s@) == Some(r),
    {
        match PackageManager::from_name(s) {
            Some(manager) => manager,
            None => PackageManager::Npm,
        }
    }

    /// The manager that keeps the lock file called `lock_file`, which must
    /// be one of the four lock file names.
    pub fn from_lock_file(lock_file: &str) -> (r: PackageManager)
        requires
            is_lock_file_name(lock_file@),
        ensures
            lock_file_owner(lock_file@) == Some(r),
    {
        match PackageManager::from_lock_file_name(lock_file) {
            Some(manager) => manager,
            None => PackageManager::Npm,
        }
    }

    /// The name of the manager's program.
    pub fn to_str(&self) -> (r: &'static str)
        ensures
            r@ == manager_name(*self),
    {
        match self {
            PackageManager::Npm => "npm",
            PackageManager::Yarn => "yarn",
            PackageManager::Pnpm => "pnpm",
            PackageManager::Bun => "bun",
        }
    }

    /// The name of the manager's lock file.
    pub fn lock_file(&self) -> (r: &'static str)
        ensures
            r@ == lock_file_name(*self),
    {
        match self {
            PackageManager::Npm => NPM_LOCK,
            PackageManager::Yarn => YARN_LOCK,
            PackageManager::Pnpm => PNPM_LOCK,
            PackageManager::Bun => BUN_LOCK,
        }
    }

    /// The subcommand by which the manager installs named packages.
    pub fn determine_install_command(&self) -> (r: &'static str)
        ensures
            r@ == install_command(*self),
    {
        match self {
            PackageManager::Npm => "install",
            _ => "add",
        }
    }
}

} // verus!
