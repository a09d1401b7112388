//! Project discovery: kind (single, monorepo), scripts, etc.

use vstd::prelude::*;
use crate::config::portless_json::PackageJsonShape;
use crate::discovery::framework::Framework;
use crate::discovery::monorepo::MonorepoKind;
use crate::discovery::package_manager::PackageManager;
use crate::text_map::TextMap;

verus! {

/// What kind of project is this?
#[derive(Debug, Clone, Copy, PartialEq, Eq, Structural)]
pub enum ProjectKind {
    /// A single-package project.
    Single,
    /// A monorepo / workspace.
    Monorepo(MonorepoKind),
}

/// A discovered project.
#[derive(Debug)]
pub struct Project {
    /// The project root.
    pub root: String,
    /// What kind of project this is.
    pub kind: ProjectKind,
    /// Detected package manager.
    pub package_manager: Option<PackageManager>,
    /// Detected framework (if any).
    pub framework: Option<Framework>,
    /// Available scripts.
    pub scripts: TextMap<String>,
    /// Package name (from package.json).
    pub package_name: Option<String>,
}

impl Project {
    /// The project at `root` from what discovery found there: the package
    /// manager, the monorepo kind (a single project when there is none),
    /// the framework, and the parsed `package.json` (whose scripts and name
    /// it takes; none when there is no such file or it does not parse).
    pub fn from_parts(
        root: String,
        package_manager: Option<PackageManager>,
        monorepo: Option<MonorepoKind>,
        framework: Option<Framework>,
        package: Option<PackageJsonShape>,
    ) -> (p: Self)
        ensures
            p.root == root,
            p.kind == match monorepo {
                Some(k) => ProjectKind::Monorepo(k),
                None => ProjectKind::Single,
            },
            p.package_manager == package_manager,
            p.framework == framework,
            match package {
                Some(pkg) => p.scripts == pkg.scripts && p.package_name == pkg.name,
                None => p.scripts.map().len() == 0 && p.package_name is None,
            },
    {
        let kind = match monorepo {
            Some(k) => ProjectKind::Monorepo(k),
            None => ProjectKind::Single,
        };
        match package {
            Some(pkg) => Project {
                root,
                kind,
                package_manager,
                framework,
                scripts: pkg.scripts,
                package_name: pkg.name,
            },
            None => {
                let scripts = TextMap::new();
                assert(scripts.map() =~= Map::<Seq<char>, String>::empty());
                Project { root, kind, package_manager, framework, scripts, package_name: None }
            },
        }
    }

    /// Is this a single-package project?
    pub fn is_single(&self) -> (r: bool)
        ensures
            r == (self.kind == ProjectKind::Single),
    {
        match self.kind {
            ProjectKind::Single => true,
            _ => false,
        }
    }

    /// Is this a monorepo?
    pub fn is_monorepo(&self) -> (r: bool)
        ensures
            r == (self.kind is Monorepo),
    {
        match self.kind {
            ProjectKind::Monorepo(_) => true,
            _ => false,
        }
    }

    /// Returns the default script name to run.
    ///
    /// Currently always `"dev"`, matching the convention used by Next.js,
    /// Vite, Astro, SvelteKit, Remix, Nuxt, and all major Node.js frameworks.
    /// Use [`Self::has_script`] to check whether the script actually exists
    /// before spawning.
    pub fn default_script(&self) -> (r: &str)
        ensures
            r@ == "dev"@,
    {
        "dev"
    }

    /// Returns `true` if the given script name exists in `package.json`.
    pub fn has_script(&self, name: &str) -> (r: bool)
        ensures
            r == self.scripts.map().contains_key(name@),
    {
        self.scripts.contains_key(name)
    }
}

} // verus!
