//! Framework and language ecosystem detection.
//!
//! Portless supports any language or runtime. This module decides, from the
//! names present in a project directory and the dependencies declared in its
//! `package.json`, which framework or ecosystem the project uses, and knows
//! which port and host flags each framework's dev server needs.

use vstd::prelude::*;
use crate::discovery::json::{json_keys_at, json_object_keys};
use crate::routing::match_::strings_view;
use crate::text::{chars_of, ends_with, str_eq, vec_ends_with};

verus! {

/// A detected framework or language ecosystem.
#[derive(Debug, Clone, Copy, PartialEq, Eq, Structural)]
pub enum Framework {
    /// Next.js — the React full-stack framework.
    Next,
    /// Vite — lightning-fast frontend build tool.
    Vite,
    /// VitePlus (`vp`) — extended Vite wrapper.
    VitePlus,
    /// Astro — content-focused static/SSR site builder.
    Astro,
    /// Nuxt — Vue full-stack framework.
    Nuxt,
    /// SvelteKit — Svelte full-stack framework.
    SvelteKit,
    /// Remix — full-stack web framework.
    Remix,
    /// React Router — data-driven routing with SSR.
    ReactRouter,
    /// SolidJS / SolidStart.
    Solid,
    /// Angular — Google's TypeScript platform.
    Angular,
    /// Express — minimal Node.js HTTP server.
    Express,
    /// Hono — fast, lightweight web framework.
    Hono,
    /// Expo — React Native development platform.
    Expo,
    /// React Native CLI.
    ReactNative,
    /// Rsbuild — Rspack-powered build tool.
    Rsbuild,
    /// Deno — secure TypeScript/JavaScript runtime.
    Deno,
    /// Rust / Cargo project.
    Cargo,
    /// Go module project.
    Go,
    /// Python project (any build system).
    Python,
    /// Ruby / Bundler project.
    Ruby,
    /// PHP / Composer project.
    Php,
    /// Java or Kotlin — Maven or Gradle.
    Jvm,
    /// Elixir / Mix project.
    Elixir,
    /// Dart / Flutter.
    Flutter,
    /// C# / .NET.
    DotNet,
    /// Zig.
    Zig,
    /// A project detected by `package.json` whose framework is not
    /// specifically recognised.
    Unknown,
}

/// Some name in `names` is `n`.
pub open spec fn has_name(names: Seq<String>, n: Seq<char>) -> bool {
    exists|i: int| 0 <= i < names.len() && names[i]@ == n
}

/// Some name in `names` ends with `.csproj`, `.sln` or `.fsproj`.
pub open spec fn has_dotnet_name(names: Seq<String>) -> bool {
    exists|i: int|
        0 <= i < names.len() && (ends_with(names[i]@, ".csproj"@) || ends_with(
            names[i]@,
            ".sln"@,
        ) || ends_with(names[i]@, ".fsproj"@))
}

/// Detection from configuration and marker files, in priority order.
pub open spec fn detect_by_files(names: Seq<String>) -> Option<Framework> {
    if has_name(names, "next.config.js"@) || has_name(names, "next.config.mjs"@) || has_name(
        names,
        "next.config.ts"@,
    ) {
        Some(Framework::Next)
    } else if has_name(names, "vite.config.ts"@) || has_name(names, "vite.config.js"@) || has_name(
        names,
        "vite.config.mjs"@,
    ) {
        Some(Framework::Vite)
    } else if has_name(names, "astro.config.mjs"@) || has_name(names, "astro.config.js"@)
        || has_name(names, "astro.config.ts"@) {
        Some(Framework::Astro)
    } else if has_name(names, "nuxt.config.ts"@) || has_name(names, "nuxt.config.js"@) {
        Some(Framework::Nuxt)
    } else if has_name(names, "svelte.config.js"@) {
        Some(Framework::SvelteKit)
    } else if has_name(names, "remix.config.js"@) {
        Some(Framework::Remix)
    } else if has_name(names, "react-router.config.ts"@) || has_name(
        names,
        "react-router.config.js"@,
    ) {
        Some(Framework::ReactRouter)
    } else if has_name(names, "angular.json"@) {
        Some(Framework::Angular)
    } else if has_name(names, "deno.json"@) || has_name(names, "deno.jsonc"@) || has_name(
        names,
        "deno.lock"@,
    ) {
        Some(Framework::Deno)
    } else if has_name(names, "Cargo.toml"@) {
        Some(Framework::Cargo)
    } else if has_name(names, "go.mod"@) {
        Some(Framework::Go)
    } else if has_name(names, "pyproject.toml"@) || has_name(names, "setup.py"@) || has_name(
        names,
        "setup.cfg"@,
    ) || has_name(names, "requirements.txt"@) || has_name(names, "Pipfile"@) || has_name(
        names,
        "uv.lock"@,
    ) || has_name(names, "poetry.lock"@) {
        Some(Framework::Python)
    } else if has_name(names, "Gemfile"@) {
        Some(Framework::Ruby)
    } else if has_name(names, "composer.json"@) {
        Some(Framework::Php)
    } else if has_name(names, "pom.xml"@) || has_name(names, "build.gradle"@) || has_name(
        names,
        "build.gradle.kts"@,
    ) || has_name(names, "gradlew"@) {
        Some(Framework::Jvm)
    } else if has_name(names, "mix.exs"@) {
        Some(Framework::Elixir)
    } else if has_name(names, "pubspec.yaml"@) {
        Some(Framework::Flutter)
    } else if has_dotnet_name(names) {
        Some(Framework::DotNet)
    } else if has_name(names, "build.zig"@) {
        Some(Framework::Zig)
    } else {
        None
    }
}

/// Detection from `package.json` dependencies, in priority order.
pub open spec fn detect_by_deps(deps: Seq<Seq<char>>) -> Framework {
    if deps.contains( "next"@) {
        Framework::Next
    } else if deps.contains( "vite-plus"@) {
        Framework::VitePlus
    } else if deps.contains( "vite"@) {
        Framework::Vite
    } else if deps.contains( "astro"@) {
        Framework::Astro
    } else if deps.contains( "nuxt"@) {
        Framework::Nuxt
    } else if deps.contains( "@sveltejs/kit"@) {
        Framework::SvelteKit
    } else if deps.contains( "@remix-run/react"@) {
        Framework::Remix
    } else if deps.contains( "@react-router/dev"@) {
        Framework::ReactRouter
    } else if deps.contains( "solid-js"@) {
        Framework::Solid
    } else if deps.contains( "@angular/core"@) {
        Framework::Angular
    } else if deps.contains( "express"@) {
        Framework::Express
    } else if deps.contains( "hono"@) {
        Framework::Hono
    } else if deps.contains( "expo"@) {
        Framework::Expo
    } else if deps.contains( "react-native"@) {
        Framework::ReactNative
    } else if deps.contains( "@rsbuild/core"@) {
        Framework::Rsbuild
    } else {
        Framework::Unknown
    }
}

/// An Expo app is Expo: when the dependencies hold `expo` and none of
/// the frameworks that take precedence (`next`, `vite-plus`, `vite`,
/// `astro`, `nuxt`, `@sveltejs/kit`, `@remix-run/react`,
/// `@react-router/dev`, `solid-js`, `@angular/core`, `express`, `hono`),
/// the framework is Expo, whether or not `react-native` is there too.
pub proof fn lemma_expo_app(deps: Seq<Seq<char>>)
    requires
        deps.contains("expo"@),
        !deps.contains("next"@),
        !deps.contains("vite-plus"@),
        !deps.contains("vite"@),
        !deps.contains("astro"@),
        !deps.contains("nuxt"@),
        !deps.contains("@sveltejs/kit"@),
        !deps.contains("@remix-run/react"@),
        !deps.contains("@react-router/dev"@),
        !deps.contains("solid-js"@),
        !deps.contains("@angular/core"@),
        !deps.contains("express"@),
        !deps.contains("hono"@),
    ensures
        detect_by_deps(deps) == Framework::Expo,
{
}

/// A React Native app without Expo is React Native, under the same
/// precedence.
pub proof fn lemma_react_native_app(deps: Seq<Seq<char>>)
    requires
        deps.contains("react-native"@),
        !deps.contains("expo"@),
        !deps.contains("next"@),
        !deps.contains("vite-plus"@),
        !deps.contains("vite"@),
        !deps.contains("astro"@),
        !deps.contains("nuxt"@),
        !deps.contains("@sveltejs/kit"@),
        !deps.contains("@remix-run/react"@),
        !deps.contains("@react-router/dev"@),
        !deps.contains("solid-js"@),
        !deps.contains("@angular/core"@),
        !deps.contains("express"@),
        !deps.contains("hono"@),
    ensures
        detect_by_deps(deps) == Framework::ReactNative,
{
}

/// A `next` dependency always means Next.js.
pub proof fn lemma_next_app(deps: Seq<Seq<char>>)
    requires
        deps.contains("next"@),
    ensures
        detect_by_deps(deps) == Framework::Next,
{
}

/// The full detection: marker files first, then `package.json`
/// dependencies when a `package.json` could be read as JSON; a
/// `package.json` that could not be read still marks a JavaScript project
/// of no known framework.
pub open spec fn detect_spec(names: Seq<String>, deps: Option<Seq<Seq<char>>>) -> Option<Framework> {
    match detect_by_files(names) {
        Some(f) => Some(f),
        None => match deps {
            Some(d) => Some(detect_by_deps(d)),
            None => if has_name(names, "package.json"@) {
                Some(Framework::Unknown)
            } else {
                None
            },
        },
    }
}

/// The frameworks whose dev server reads the `PORT` environment variable.
pub open spec fn respects_port_env_spec(f: Framework) -> bool {
    match f {
        Framework::Next | Framework::Nuxt | Framework::SvelteKit | Framework::Remix
        | Framework::ReactRouter | Framework::Solid | Framework::Express | Framework::Hono
        | Framework::Unknown | Framework::Go | Framework::Python | Framework::Ruby
        | Framework::Php | Framework::Jvm | Framework::Elixir | Framework::Cargo
        | Framework::Deno | Framework::Flutter | Framework::DotNet | Framework::Zig => true,
        _ => false,
    }
}

/// The frameworks that need an explicit `--port` flag.
pub open spec fn needs_port_flag(f: Framework) -> bool {
    match f {
        Framework::Vite | Framework::VitePlus | Framework::ReactRouter | Framework::Rsbuild
        | Framework::Astro | Framework::Angular | Framework::Expo | Framework::ReactNative => true,
        _ => false,
    }
}

/// The frameworks that need an explicit `--host` flag.
pub open spec fn needs_host_flag(f: Framework) -> bool {
    match f {
        Framework::Vite | Framework::VitePlus | Framework::Astro | Framework::ReactRouter
        | Framework::Rsbuild | Framework::ReactNative | Framework::Angular | Framework::Expo => true,
        _ => false,
    }
}

/// The frameworks whose dev server supports `--strictPort`.
pub open spec fn strict_port_spec(f: Framework) -> bool {
    match f {
        Framework::Vite | Framework::VitePlus | Framework::ReactRouter => true,
        _ => false,
    }
}

/// The framework a command basename stands for.
pub open spec fn from_basename_spec(n: Seq<char>) -> Option<Framework> {
    if n == "next"@ {
        Some(Framework::Next)
    } else if n == "vite"@ {
        Some(Framework::Vite)
    } else if n == "vp"@ {
        Some(Framework::VitePlus)
    } else if n == "astro"@ {
        Some(Framework::Astro)
    } else if n == "nuxt"@ {
        Some(Framework::Nuxt)
    } else if n == "svelte-kit"@ || n == "sveltekit"@ {
        Some(Framework::SvelteKit)
    } else if n == "remix"@ {
        Some(Framework::Remix)
    } else if n == "react-router"@ {
        Some(Framework::ReactRouter)
    } else if n == "solid"@ || n == "solid-start"@ || n == "solidstart"@ {
        Some(Framework::Solid)
    } else if n == "ng"@ {
        Some(Framework::Angular)
    } else if n == "express"@ {
        Some(Framework::Express)
    } else if n == "hono"@ {
        Some(Framework::Hono)
    } else if n == "expo"@ {
        Some(Framework::Expo)
    } else if n == "react-native"@ {
        Some(Framework::ReactNative)
    } else if n == "rsbuild"@ {
        Some(Framework::Rsbuild)
    } else {
        None
    }
}

/// The JavaScript / TypeScript ecosystems.
pub open spec fn is_js_spec(f: Framework) -> bool {
    match f {
        Framework::Next | Framework::Vite | Framework::VitePlus | Framework::Astro
        | Framework::Nuxt | Framework::SvelteKit | Framework::Remix | Framework::ReactRouter
        | Framework::Solid | Framework::Angular | Framework::Express | Framework::Hono
        | Framework::Expo | Framework::ReactNative | Framework::Rsbuild | Framework::Deno
        | Framework::Unknown => true,
        _ => false,
    }
}

/// Whether `names` holds `n`.
pub fn has(names: &Vec<String>, n: &str) -> (r: bool)
    ensures
        r == has_name(names@, n@),
{
    let mut i: usize = 0;
    while i < names.len()
        invariant
            i <= names.len(),
            forall|j: int| 0 <= j < i ==> names@[j]@ != n@,
        decreases names.len() - i,
    {
        if str_eq(names[i].as_str(), n) {
            return true;
        }
        i += 1;
    }
    false
}

/// Whether some name ends in `.csproj`, `.sln` or `.fsproj`.
fn has_dotnet(names: &Vec<String>) -> (r: bool)
    ensures
        r == has_dotnet_name(names@),
{
    let a = chars_of(".csproj");
    let b = chars_of(".sln");
    let c = chars_of(".fsproj");
    let mut i: usize = 0;
    while i < names.len()
        invariant
            i <= names.len(),
            a@ == ".csproj"@,
            b@ == ".sln"@,
            c@ == ".fsproj"@,
            forall|j: int|
                0 <= j < i ==> !(ends_with(#[trigger] names@[j]@, ".csproj"@) || ends_with(
                    names@[j]@,
                    ".sln"@,
                ) || ends_with(names@[j]@, ".fsproj"@)),
        decreases names.len() - i,
    {
        let v = chars_of(names[i].as_str());
        if vec_ends_with(&v, &a) || vec_ends_with(&v, &b) || vec_ends_with(&v, &c) {
            return true;
        }
        i += 1;
    }
    false
}

/// The keys of an optional object, none when there is no object.
pub open spec fn keys_or_empty(o: Option<Seq<Seq<char>>>) -> Seq<Seq<char>> {
    match o {
        Some(k) => k,
        None => Seq::empty(),
    }
}

/// The dependency names of a `package.json`: the keys of `dependencies`
/// and then of `devDependencies`; none when the bytes are not JSON.
pub open spec fn package_deps(bytes: Seq<u8>) -> Option<Seq<Seq<char>>> {
    match (json_object_keys(bytes, "dependencies"@), json_object_keys(bytes, "devDependencies"@)) {
        (Some(a), Some(b)) => Some(keys_or_empty(a) + keys_or_empty(b)),
        _ => None,
    }
}

/// A name is among `names` exactly when its text is among their texts.
proof fn lemma_has_name_view(names: Seq<String>)
    ensures
        forall|n: Seq<char>| #[trigger] has_name(names, n) == strings_view(names).contains(n),
{
    assert forall|n: Seq<char>| #[trigger] has_name(names, n) == strings_view(names).contains(n) by {
        if has_name(names, n) {
            let i = choose|i: int| 0 <= i < names.len() && names[i]@ == n;
            assert(strings_view(names)[i] == n);
        }
        if strings_view(names).contains(n) {
            let i = choose|i: int| 0 <= i < strings_view(names).len() && strings_view(names)[i] == n;
            assert(names[i]@ == n);
        }
    }
}

/// The keys of an optional object as a vector.
fn keys_vec(o: Option<Vec<String>>) -> (r: Vec<String>)
    ensures
        strings_view(r@) == keys_or_empty(
            match o {
                Some(v) => Some(strings_view(v@)),
                None => None,
            },
        ),
{
    match o {
        Some(v) => v,
        None => {
            let v: Vec<String> = Vec::new();
            assert(strings_view(v@) =~= Seq::<Seq<char>>::empty());
            v
        },
    }
}

/// The dependency names read from the bytes of a `package.json`.
fn package_deps_of(bytes: &[u8]) -> (r: Option<Vec<String>>)
    ensures
        match r {
            Some(v) => package_deps(bytes@) == Some(strings_view(v@)),
            None => package_deps(bytes@) is None,
        },
{
    let a = json_keys_at(bytes, "dependencies");
    let b = json_keys_at(bytes, "devDependencies");
    match (a, b) {
        (Some(x), Some(y)) => {
            let mut out = keys_vec(x);
            let mut more = keys_vec(y);
            let ghost o = out@;
            let ghost m = more@;
            out.append(&mut more);
            assert(strings_view(out@) =~= strings_view(o) + strings_view(m));
            Some(out)
        },
        _ => None,
    }
}

impl Framework {
    /// Decide the framework or ecosystem of a project directory from the
    /// names of its entries and, when its `package.json` could be read as
    /// JSON, the keys of its `dependencies` and `devDependencies`.
    ///
    /// Returns `None` only when no recognisable project files are present.
    /// Returns [`Framework::Unknown`] when a `package.json` is present but no
    /// known framework dependency was found.
    pub fn detect_in(names: &Vec<String>, deps: Option<&Vec<String>>) -> (r: Option<Self>)
        ensures
            r == detect_spec(
                names@,
                match deps {
                    Some(d) => Some(strings_view(d@)),
                    None => None,
                },
            ),
    {
        let by_files = Self::detect_by_files(names);
        if by_files.is_some() {
            return by_files;
        }
        match deps {
            Some(d) => Some(Self::detect_by_deps(d)),
            None => if has(names, "package.json") {
                Some(Framework::Unknown)
            } else {
                None
            },
        }
    }

    /// Decide the framework of a project directory from the names of its
    /// entries and the bytes of its `package.json`, when it could be read.
    pub fn detect_from(names: &Vec<String>, package_json: Option<&[u8]>) -> (r: Option<Self>)
        ensures
            r == detect_spec(
                names@,
                match package_json {
                    Some(b) => package_deps(b@),
                    None => None,
                },
            ),
    {
        match package_json {
            Some(b) => {
                let deps = package_deps_of(b);
                Self::detect_in(names, deps.as_ref())
            },
            None => Self::detect_in(names, None),
        }
    }

    /// Detection from marker files alone.
    fn detect_by_files(n: &Vec<String>) -> (r: Option<Self>)
        ensures
            r == detect_by_files(n@),
    {
        if has(n, "next.config.js") || has(n, "next.config.mjs") || has(n, "next.config.ts") {
            Some(Framework::Next)
        } else if has(n, "vite.config.ts") || has(n, "vite.config.js") || has(n, "vite.config.mjs") {
            Some(Framework::Vite)
        } else if has(n, "astro.config.mjs") || has(n, "astro.config.js") || has(
            n,
            "astro.config.ts",
        ) {
            Some(Framework::Astro)
        } else if has(n, "nuxt.config.ts") || has(n, "nuxt.config.js") {
            Some(Framework::Nuxt)
        } else if has(n, "svelte.config.js") {
            Some(Framework::SvelteKit)
        } else if has(n, "remix.config.js") {
            Some(Framework::Remix)
        } else if has(n, "react-router.config.ts") || has(n, "react-router.config.js") {
            Some(Framework::ReactRouter)
        } else if has(n, "angular.json") {
            Some(Framework::Angular)
        } else if has(n, "deno.json") || has(n, "deno.jsonc") || has(n, "deno.lock") {
            Some(Framework::Deno)
        } else if has(n, "Cargo.toml") {
            Some(Framework::Cargo)
        } else if has(n, "go.mod") {
            Some(Framework::Go)
        } else if has(n, "pyproject.toml") || has(n, "setup.py") || has(n, "setup.cfg") || has(
            n,
            "requirements.txt",
        ) || has(n, "Pipfile") || has(n, "uv.lock") || has(n, "poetry.lock") {
            Some(Framework::Python)
        } else if has(n, "Gemfile") {
            Some(Framework::Ruby)
        } else if has(n, "composer.json") {
            Some(Framework::Php)
        } else if has(n, "pom.xml") || has(n, "build.gradle") || has(n, "build.gradle.kts") || has(
            n,
            "gradlew",
        ) {
            Some(Framework::Jvm)
        } else if has(n, "mix.exs") {
            Some(Framework::Elixir)
        } else if has(n, "pubspec.yaml") {
            Some(Framework::Flutter)
        } else if has_dotnet(n) {
            Some(Framework::DotNet)
        } else if has(n, "build.zig") {
            Some(Framework::Zig)
        } else {
            None
        }
    }

    /// Detection from `package.json` dependency names.
    fn detect_by_deps(d: &Vec<String>) -> (r: Self)
        ensures
            r == detect_by_deps(strings_view(d@)),
    {
        proof {
            lemma_has_name_view(d@);
        }
        if has(d, "next") {
            Framework::Next
        } else if has(d, "vite-plus") {
            Framework::VitePlus
        } else if has(d, "vite") {
            Framework::Vite
        } else if has(d, "astro") {
            Framework::Astro
        } else if has(d, "nuxt") {
            Framework::Nuxt
        } else if has(d, "@sveltejs/kit") {
            Framework::SvelteKit
        } else if has(d, "@remix-run/react") {
            Framework::Remix
        } else if has(d, "@react-router/dev") {
            Framework::ReactRouter
        } else if has(d, "solid-js") {
            Framework::Solid
        } else if has(d, "@angular/core") {
            Framework::Angular
        } else if has(d, "express") {
            Framework::Express
        } else if has(d, "hono") {
            Framework::Hono
        } else if has(d, "expo") {
            Framework::Expo
        } else if has(d, "react-native") {
            Framework::ReactNative
        } else if has(d, "@rsbuild/core") {
            Framework::Rsbuild
        } else {
            Framework::Unknown
        }
    }

    /// Returns `true` when this ecosystem's dev server automatically reads
    /// the `PORT` environment variable and binds to it.
    pub fn respects_port_env(self) -> (r: bool)
        ensures
            r == respects_port_env_spec(self),
    {
        match self {
            Framework::Next | Framework::Nuxt | Framework::SvelteKit | Framework::Remix
            | Framework::ReactRouter | Framework::Solid | Framework::Express | Framework::Hono
            | Framework::Unknown | Framework::Go | Framework::Python | Framework::Ruby
            | Framework::Php | Framework::Jvm | Framework::Elixir | Framework::Cargo
            | Framework::Deno | Framework::Flutter | Framework::DotNet | Framework::Zig => true,
            _ => false,
        }
    }

    /// Extra CLI flags to inject so the dev server binds to the right port:
    /// `["--port"]` for frameworks that ignore `PORT`, none otherwise.
    pub fn port_flags(self) -> (r: Vec<&'static str>)
        ensures
            needs_port_flag(self) ==> r@.len() == 1 && r@[0]@ == "--port"@,
            !needs_port_flag(self) ==> r@.len() == 0,
    {
        let mut r: Vec<&'static str> = Vec::new();
        match self {
            Framework::Vite | Framework::VitePlus | Framework::ReactRouter | Framework::Rsbuild
            | Framework::Astro | Framework::Angular | Framework::Expo | Framework::ReactNative => {
                r.push("--port");
            },
            _ => {},
        }
        r
    }

    /// Extra CLI flags to inject for the host-binding address: `["--host"]`
    /// for frameworks that bind only `localhost` by default.
    pub fn host_flags(self) -> (r: Vec<&'static str>)
        ensures
            needs_host_flag(self) ==> r@.len() == 1 && r@[0]@ == "--host"@,
            !needs_host_flag(self) ==> r@.len() == 0,
    {
        let mut r: Vec<&'static str> = Vec::new();
        match self {
            Framework::Vite | Framework::VitePlus | Framework::Astro | Framework::ReactRouter
            | Framework::Rsbuild | Framework::ReactNative | Framework::Angular
            | Framework::Expo => {
                r.push("--host");
            },
            _ => {},
        }
        r
    }

    /// Whether this framework's dev server supports `--strictPort`.
    pub fn strict_port(self) -> (r: bool)
        ensures
            r == strict_port_spec(self),
    {
        match self {
            Framework::Vite | Framework::VitePlus | Framework::ReactRouter => true,
            _ => false,
        }
    }

    /// Returns the variant matching a given CLI command basename, if any.
    pub fn from_basename(name: &str) -> (r: Option<Self>)
        ensures
            r == from_basename_spec(name@),
    {
        if str_eq(name, "next") {
            Some(Framework::Next)
        } else if str_eq(name, "vite") {
            Some(Framework::Vite)
        } else if str_eq(name, "vp") {
            Some(Framework::VitePlus)
        } else if str_eq(name, "astro") {
            Some(Framework::Astro)
        } else if str_eq(name, "nuxt") {
            Some(Framework::Nuxt)
        } else if str_eq(name, "svelte-kit") || str_eq(name, "sveltekit") {
            Some(Framework::SvelteKit)
        } else if str_eq(name, "remix") {
            Some(Framework::Remix)
        } else if str_eq(name, "react-router") {
            Some(Framework::ReactRouter)
        } else if str_eq(name, "solid") || str_eq(name, "solid-start") || str_eq(
            name,
            "solidstart",
        ) {
            Some(Framework::Solid)
        } else if str_eq(name, "ng") {
            Some(Framework::Angular)
        } else if str_eq(name, "express") {
            Some(Framework::Express)
        } else if str_eq(name, "hono") {
            Some(Framework::Hono)
        } else if str_eq(name, "expo") {
            Some(Framework::Expo)
        } else if str_eq(name, "react-native") {
            Some(Framework::ReactNative)
        } else if str_eq(name, "rsbuild") {
            Some(Framework::Rsbuild)
        } else {
            None
        }
    }

    /// Human-readable display name for use in CLI output and the dashboard.
    pub fn name(self) -> (r: &'static str)
        ensures
            r@ == name_spec(self),
    {
        match self {
            Framework::Next => "Next.js",
            Framework::Vite => "Vite",
            Framework::VitePlus => "VitePlus",
            Framework::Astro => "Astro",
            Framework::Nuxt => "Nuxt",
            Framework::SvelteKit => "SvelteKit",
            Framework::Remix => "Remix",
            Framework::ReactRouter => "React Router",
            Framework::Solid => "Solid",
            Framework::Angular => "Angular",
            Framework::Express => "Express",
            Framework::Hono => "Hono",
            Framework::Expo => "Expo",
            Framework::ReactNative => "React Native",
            Framework::Rsbuild => "Rsbuild",
            Framework::Deno => "Deno",
            Framework::Cargo => "Rust/Cargo",
            Framework::Go => "Go",
            Framework::Python => "Python",
            Framework::Ruby => "Ruby",
            Framework::Php => "PHP",
            Framework::Jvm => "Java/Kotlin",
            Framework::Elixir => "Elixir",
            Framework::Flutter => "Dart/Flutter",
            Framework::DotNet => ".NET",
            Framework::Zig => "Zig",
            Framework::Unknown => "Node.js",
        }
    }

    /// Whether this ecosystem is JavaScript/TypeScript based.
    pub fn is_js(self) -> (r: bool)
        ensures
            r == is_js_spec(self),
    {
        match self {
            Framework::Next | Framework::Vite | Framework::VitePlus | Framework::Astro
            | Framework::Nuxt | Framework::SvelteKit | Framework::Remix | Framework::ReactRouter
            | Framework::Solid | Framework::Angular | Framework::Express | Framework::Hono
            | Framework::Expo | Framework::ReactNative | Framework::Rsbuild | Framework::Deno
            | Framework::Unknown => true,
            _ => false,
        }
    }
}

/// The display name of each framework.
pub open spec fn name_spec(f: Framework) -> Seq<char> {
    match f {
        Framework::Next => "Next.js"@,
        Framework::Vite => "Vite"@,
        Framework::VitePlus => "VitePlus"@,
        Framework::Astro => "Astro"@,
        Framework::Nuxt => "Nuxt"@,
        Framework::SvelteKit => "SvelteKit"@,
        Framework::Remix => "Remix"@,
        Framework::ReactRouter => "React Router"@,
        Framework::Solid => "Solid"@,
        Framework::Angular => "Angular"@,
        Framework::Express => "Express"@,
        Framework::Hono => "Hono"@,
        Framework::Expo => "Expo"@,
        Framework::ReactNative => "React Native"@,
        Framework::Rsbuild => "Rsbuild"@,
        Framework::Deno => "Deno"@,
        Framework::Cargo => "Rust/Cargo"@,
        Framework::Go => "Go"@,
        Framework::Python => "Python"@,
        Framework::Ruby => "Ruby"@,
        Framework::Php => "PHP"@,
        Framework::Jvm => "Java/Kotlin"@,
        Framework::Elixir => "Elixir"@,
        Framework::Flutter => "Dart/Flutter"@,
        Framework::DotNet => ".NET"@,
        Framework::Zig => "Zig"@,
        Framework::Unknown => "Node.js"@,
    }
}

} // verus!
