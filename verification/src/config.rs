//! Cleaner configuration: where its files live, the whitelist of protected patterns,
//! the catalogue of known caches, and the project directories to search.
use vstd::prelude::*;

use crate::path::{join, join_exec};
use crate::text::{
    concat, lemma_lines_cons, lemma_trimmed_ends, lines, lines_seq, strip_cr, push_char, push_str, str_eq, starts_with, trim, trim_seq,
    trim_end_matches, trim_end_matches_seq, trim_start_matches, trim_start_matches_seq,
};

verus! {

/// A cache that the whitelist manager offers out of the box.
pub struct WhitelistCacheItem {
    pub display_name: &'static str,
    pub pattern: &'static str,
    pub category: &'static str,
}

impl View for WhitelistCacheItem {
    type V = (Seq<char>, Seq<char>, Seq<char>);

    open spec fn view(&self) -> (Seq<char>, Seq<char>, Seq<char>) {
        (self.display_name@, self.pattern@, self.category@)
    }
}

/// A cache offered by the whitelist manager, known in advance or found on this machine.
pub struct DynamicCacheItem {
    pub display_name: String,
    pub pattern: String,
    pub category: String,
}

impl View for DynamicCacheItem {
    type V = (Seq<char>, Seq<char>, Seq<char>);

    open spec fn view(&self) -> (Seq<char>, Seq<char>, Seq<char>) {
        (self.display_name@, self.pattern@, self.category@)
    }
}

/// The known caches, as (display name, pattern, category).
pub open spec fn cache_item_table() -> Seq<(Seq<char>, Seq<char>, Seq<char>)> {
    seq![
        ("Gradle daemon processes cache"@, "~/.gradle/daemon/*"@, "ide_cache"@),
        ("R renv global cache (virtual environments)"@, "~/Library/Caches/org.R-project.R/R/renv/*"@, "package_manager"@),
        ("tealdeer tldr pages cache"@, "~/Library/Caches/tealdeer/tldr-pages"@, "package_manager"@),
        ("Playwright browser binaries"@, "~/Library/Caches/ms-playwright*"@, "ai_ml_cache"@),
        ("Ollama local AI models"@, "~/.ollama/models/*"@, "ai_ml_cache"@),
        ("Surge proxy cache"@, "~/Library/Caches/com.nssurge.surge-mac/*"@, "network_tools"@),
        ("Surge configuration and data"@, "~/Library/Application Support/com.nssurge.surge-mac/*"@, "network_tools"@),
        ("Finder metadata, .DS_Store"@, "FINDER_METADATA"@, "system_cache"@),
        ("Apple Mail cache"@, "~/Library/Caches/com.apple.mail/*"@, "system_cache"@),
        ("Gradle build cache (Android Studio, Gradle projects)"@, "~/.gradle/caches/build-cache-*/*"@, "ide_cache"@),
        ("Gradle worker cache"@, "~/.gradle/workers/*"@, "ide_cache"@),
        ("Xcode DerivedData (build outputs, indexes)"@, "~/Library/Developer/Xcode/DerivedData/*"@, "ide_cache"@),
        ("Xcode internal cache files"@, "~/Library/Caches/com.apple.dt.Xcode/*"@, "ide_cache"@),
        ("Xcode iOS device support symbols"@, "~/Library/Developer/Xcode/iOS DeviceSupport/*/Symbols/System/Library/Caches/*"@, "ide_cache"@),
        ("Maven local repository (Java dependencies)"@, "~/.m2/repository/*"@, "ide_cache"@),
        ("JetBrains IDEs data (IntelliJ, PyCharm, WebStorm, GoLand)"@, "~/Library/Application Support/JetBrains/*"@, "ide_cache"@),
        ("JetBrains IDEs cache"@, "~/Library/Caches/JetBrains/*"@, "ide_cache"@),
        ("Android Studio cache and indexes"@, "~/Library/Caches/Google/AndroidStudio*/*"@, "ide_cache"@),
        ("Android build cache"@, "~/.android/build-cache/*"@, "ide_cache"@),
        ("VS Code runtime cache"@, "~/Library/Application Support/Code/Cache/*"@, "ide_cache"@),
        ("VS Code extension and update cache"@, "~/Library/Application Support/Code/CachedData/*"@, "ide_cache"@),
        ("VS Code system cache (Cursor, VSCodium)"@, "~/Library/Caches/com.microsoft.VSCode/*"@, "ide_cache"@),
        ("Cursor editor cache"@, "~/Library/Caches/com.todesktop.230313mzl4w4u92/*"@, "ide_cache"@),
        ("LM Studio app cache"@, "~/Library/Caches/com.lmstudio.lmstudio/*"@, "ai_ml_cache"@),
        ("Codex Desktop update staging"@, "~/Library/Caches/com.openai.codex/org.sparkle-project.Sparkle/Installation"@, "ai_ml_cache"@),
        ("Chrome on-device AI models"@, "~/Library/Application Support/Google/Chrome/OptGuideOnDevice*/*"@, "ai_ml_cache"@),
        ("Chrome optimization guide models"@, "~/Library/Application Support/Google/Chrome/optimization_guide_model_store/*"@, "ai_ml_cache"@),
        ("Bazel build cache"@, "~/.cache/bazel/*"@, "compiler_cache"@),
        ("Go build cache"@, "~/Library/Caches/go-build/*"@, "compiler_cache"@),
        ("Go module cache"@, "~/go/pkg/mod/*"@, "compiler_cache"@),
        ("Rust Cargo registry cache"@, "~/.cargo/registry/cache/*"@, "compiler_cache"@),
        ("Rust Cargo extracted sources"@, "~/.cargo/registry/src/*"@, "compiler_cache"@),
        ("Rust documentation cache"@, "~/.rustup/toolchains/*/share/doc/*"@, "compiler_cache"@),
        ("Rustup toolchain downloads"@, "~/.rustup/downloads/*"@, "compiler_cache"@),
        ("ccache compiler cache"@, "~/.ccache/*"@, "compiler_cache"@),
        ("sccache distributed compiler cache"@, "~/.cache/sccache/*"@, "compiler_cache"@),
        ("SBT Scala build cache"@, "~/.sbt/*"@, "compiler_cache"@),
        ("Ivy dependency cache"@, "~/.ivy2/cache/*"@, "compiler_cache"@),
        ("Turbo monorepo build cache"@, "~/.turbo/*"@, "compiler_cache"@),
        ("Next.js build cache"@, "~/.next/*"@, "compiler_cache"@),
        ("Vite build cache"@, "~/.vite/*"@, "compiler_cache"@),
        ("Parcel bundler cache"@, "~/.parcel-cache/*"@, "compiler_cache"@),
        ("pre-commit hooks cache"@, "~/.cache/pre-commit/*"@, "compiler_cache"@),
        ("Ruff Python linter cache"@, "~/.cache/ruff/*"@, "compiler_cache"@),
        ("MyPy type checker cache"@, "~/.cache/mypy/*"@, "compiler_cache"@),
        ("Pytest test cache"@, "~/.pytest_cache/*"@, "compiler_cache"@),
        ("PyInstaller binary cache"@, "~/Library/Caches/pyinstaller/*"@, "compiler_cache"@),
        ("Flutter SDK cache"@, "~/.cache/flutter/*"@, "compiler_cache"@),
        ("Swift Package Manager cache"@, "~/.cache/swift-package-manager/*"@, "compiler_cache"@),
        ("Zig compiler cache"@, "~/.cache/zig/*"@, "compiler_cache"@),
        ("Deno cache"@, "~/Library/Caches/deno/*"@, "compiler_cache"@),
        ("CocoaPods cache (iOS dependencies)"@, "~/Library/Caches/CocoaPods/*"@, "package_manager"@),
        ("npm package cache"@, "~/.npm/_cacache/*"@, "package_manager"@),
        ("pip Python package cache"@, "~/.cache/pip/*"@, "package_manager"@),
        ("uv Python package cache"@, "~/.cache/uv/*"@, "package_manager"@),
        ("Homebrew downloaded packages"@, "~/Library/Caches/Homebrew/*"@, "package_manager"@),
        ("Yarn package manager cache"@, "~/.cache/yarn/*"@, "package_manager"@),
        ("pnpm package store"@, "~/Library/pnpm/store/*"@, "package_manager"@),
        ("Composer PHP dependencies cache (legacy)"@, "~/.composer/cache/*"@, "package_manager"@),
        ("Composer PHP dependencies cache"@, "~/Library/Caches/composer/*"@, "package_manager"@),
        ("RubyGems cache"@, "~/.gem/cache/*"@, "package_manager"@),
        ("Conda package metadata/tarball cache"@, "~/.conda/pkgs"@, "package_manager"@),
        ("Anaconda package metadata/tarball cache"@, "~/anaconda3/pkgs"@, "package_manager"@),
        ("PyTorch model cache"@, "~/.cache/torch/*"@, "ai_ml_cache"@),
        ("TensorFlow model and dataset cache"@, "~/.cache/tensorflow/*"@, "ai_ml_cache"@),
        ("HuggingFace models and datasets"@, "~/.cache/huggingface/*"@, "ai_ml_cache"@),
        ("Selenium WebDriver binaries"@, "~/.cache/selenium/*"@, "ai_ml_cache"@),
        ("Weights & Biases ML experiments cache"@, "~/.cache/wandb/*"@, "ai_ml_cache"@),
        ("Safari web browser cache"@, "~/Library/Caches/com.apple.Safari/*"@, "browser_cache"@),
        ("Chrome browser cache"@, "~/Library/Caches/Google/Chrome/*"@, "browser_cache"@),
        ("Firefox browser cache"@, "~/Library/Caches/Firefox/*"@, "browser_cache"@),
        ("Brave browser cache"@, "~/Library/Caches/BraveSoftware/Brave-Browser/*"@, "browser_cache"@),
        ("Docker BuildX cache"@, "~/.docker/buildx/cache/*"@, "container_cache"@),
        ("Podman container cache"@, "~/.local/share/containers/cache/*"@, "container_cache"@),
        ("Tart OCI/IPSW cache"@, "~/.tart/cache"@, "container_cache"@),
        ("Font cache"@, "~/Library/Caches/com.apple.FontRegistry/*"@, "system_cache"@),
        ("Spotlight metadata cache"@, "~/Library/Caches/com.apple.spotlight/*"@, "system_cache"@),
        ("CloudKit cache"@, "~/Library/Caches/CloudKit/*"@, "system_cache"@),
        ("Trash"@, "~/.Trash"@, "system_cache"@),
    ]
}

/// The known caches.
pub fn all_cache_items() -> (out: Vec<WhitelistCacheItem>)
    ensures
        out@.map_values(|i: WhitelistCacheItem| i@) == cache_item_table(),
{
    let out = vec![
        WhitelistCacheItem { display_name: "Gradle daemon processes cache", pattern: "~/.gradle/daemon/*", category: "ide_cache" },
        WhitelistCacheItem { display_name: "R renv global cache (virtual environments)", pattern: "~/Library/Caches/org.R-project.R/R/renv/*", category: "package_manager" },
        WhitelistCacheItem { display_name: "tealdeer tldr pages cache", pattern: "~/Library/Caches/tealdeer/tldr-pages", category: "package_manager" },
        WhitelistCacheItem { display_name: "Playwright browser binaries", pattern: "~/Library/Caches/ms-playwright*", category: "ai_ml_cache" },
        WhitelistCacheItem { display_name: "Ollama local AI models", pattern: "~/.ollama/models/*", category: "ai_ml_cache" },
        WhitelistCacheItem { display_name: "Surge proxy cache", pattern: "~/Library/Caches/com.nssurge.surge-mac/*", category: "network_tools" },
        WhitelistCacheItem { display_name: "Surge configuration and data", pattern: "~/Library/Application Support/com.nssurge.surge-mac/*", category: "network_tools" },
        WhitelistCacheItem { display_name: "Finder metadata, .DS_Store", pattern: "FINDER_METADATA", category: "system_cache" },
        WhitelistCacheItem { display_name: "Apple Mail cache", pattern: "~/Library/Caches/com.apple.mail/*", category: "system_cache" },
        WhitelistCacheItem { display_name: "Gradle build cache (Android Studio, Gradle projects)", pattern: "~/.gradle/caches/build-cache-*/*", category: "ide_cache" },
        WhitelistCacheItem { display_name: "Gradle worker cache", pattern: "~/.gradle/workers/*", category: "ide_cache" },
        WhitelistCacheItem { display_name: "Xcode DerivedData (build outputs, indexes)", pattern: "~/Library/Developer/Xcode/DerivedData/*", category: "ide_cache" },
        WhitelistCacheItem { display_name: "Xcode internal cache files", pattern: "~/Library/Caches/com.apple.dt.Xcode/*", category: "ide_cache" },
        WhitelistCacheItem { display_name: "Xcode iOS device support symbols", pattern: "~/Library/Developer/Xcode/iOS DeviceSupport/*/Symbols/System/Library/Caches/*", category: "ide_cache" },
        WhitelistCacheItem { display_name: "Maven local repository (Java dependencies)", pattern: "~/.m2/repository/*", category: "ide_cache" },
        WhitelistCacheItem { display_name: "JetBrains IDEs data (IntelliJ, PyCharm, WebStorm, GoLand)", pattern: "~/Library/Application Support/JetBrains/*", category: "ide_cache" },
        WhitelistCacheItem { display_name: "JetBrains IDEs cache", pattern: "~/Library/Caches/JetBrains/*", category: "ide_cache" },
        WhitelistCacheItem { display_name: "Android Studio cache and indexes", pattern: "~/Library/Caches/Google/AndroidStudio*/*", category: "ide_cache" },
        WhitelistCacheItem { display_name: "Android build cache", pattern: "~/.android/build-cache/*", category: "ide_cache" },
        WhitelistCacheItem { display_name: "VS Code runtime cache", pattern: "~/Library/Application Support/Code/Cache/*", category: "ide_cache" },
        WhitelistCacheItem { display_name: "VS Code extension and update cache", pattern: "~/Library/Application Support/Code/CachedData/*", category: "ide_cache" },
        WhitelistCacheItem { display_name: "VS Code system cache (Cursor, VSCodium)", pattern: "~/Library/Caches/com.microsoft.VSCode/*", category: "ide_cache" },
        WhitelistCacheItem { display_name: "Cursor editor cache", pattern: "~/Library/Caches/com.todesktop.230313mzl4w4u92/*", category: "ide_cache" },
        WhitelistCacheItem { display_name: "LM Studio app cache", pattern: "~/Library/Caches/com.lmstudio.lmstudio/*", category: "ai_ml_cache" },
        WhitelistCacheItem { display_name: "Codex Desktop update staging", pattern: "~/Library/Caches/com.openai.codex/org.sparkle-project.Sparkle/Installation", category: "ai_ml_cache" },
        WhitelistCacheItem { display_name: "Chrome on-device AI models", pattern: "~/Library/Application Support/Google/Chrome/OptGuideOnDevice*/*", category: "ai_ml_cache" },
        WhitelistCacheItem { display_name: "Chrome optimization guide models", pattern: "~/Library/Application Support/Google/Chrome/optimization_guide_model_store/*", category: "ai_ml_cache" },
        WhitelistCacheItem { display_name: "Bazel build cache", pattern: "~/.cache/bazel/*", category: "compiler_cache" },
        WhitelistCacheItem { display_name: "Go build cache", pattern: "~/Library/Caches/go-build/*", category: "compiler_cache" },
        WhitelistCacheItem { display_name: "Go module cache", pattern: "~/go/pkg/mod/*", category: "compiler_cache" },
        WhitelistCacheItem { display_name: "Rust Cargo registry cache", pattern: "~/.cargo/registry/cache/*", category: "compiler_cache" },
        WhitelistCacheItem { display_name: "Rust Cargo extracted sources", pattern: "~/.cargo/registry/src/*", category: "compiler_cache" },
        WhitelistCacheItem { display_name: "Rust documentation cache", pattern: "~/.rustup/toolchains/*/share/doc/*", category: "compiler_cache" },
        WhitelistCacheItem { display_name: "Rustup toolchain downloads", pattern: "~/.rustup/downloads/*", category: "compiler_cache" },
        WhitelistCacheItem { display_name: "ccache compiler cache", pattern: "~/.ccache/*", category: "compiler_cache" },
        WhitelistCacheItem { display_name: "sccache distributed compiler cache", pattern: "~/.cache/sccache/*", category: "compiler_cache" },
        WhitelistCacheItem { display_name: "SBT Scala build cache", pattern: "~/.sbt/*", category: "compiler_cache" },
        WhitelistCacheItem { display_name: "Ivy dependency cache", pattern: "~/.ivy2/cache/*", category: "compiler_cache" },
        WhitelistCacheItem { display_name: "Turbo monorepo build cache", pattern: "~/.turbo/*", category: "compiler_cache" },
        WhitelistCacheItem { display_name: "Next.js build cache", pattern: "~/.next/*", category: "compiler_cache" },
        WhitelistCacheItem { display_name: "Vite build cache", pattern: "~/.vite/*", category: "compiler_cache" },
        WhitelistCacheItem { display_name: "Parcel bundler cache", pattern: "~/.parcel-cache/*", category: "compiler_cache" },
        WhitelistCacheItem { display_name: "pre-commit hooks cache", pattern: "~/.cache/pre-commit/*", category: "compiler_cache" },
        WhitelistCacheItem { display_name: "Ruff Python linter cache", pattern: "~/.cache/ruff/*", category: "compiler_cache" },
        WhitelistCacheItem { display_name: "MyPy type checker cache", pattern: "~/.cache/mypy/*", category: "compiler_cache" },
        WhitelistCacheItem { display_name: "Pytest test cache", pattern: "~/.pytest_cache/*", category: "compiler_cache" },
        WhitelistCacheItem { display_name: "PyInstaller binary cache", pattern: "~/Library/Caches/pyinstaller/*", category: "compiler_cache" },
        WhitelistCacheItem { display_name: "Flutter SDK cache", pattern: "~/.cache/flutter/*", category: "compiler_cache" },
        WhitelistCacheItem { display_name: "Swift Package Manager cache", pattern: "~/.cache/swift-package-manager/*", category: "compiler_cache" },
        WhitelistCacheItem { display_name: "Zig compiler cache", pattern: "~/.cache/zig/*", category: "compiler_cache" },
        WhitelistCacheItem { display_name: "Deno cache", pattern: "~/Library/Caches/deno/*", category: "compiler_cache" },
        WhitelistCacheItem { display_name: "CocoaPods cache (iOS dependencies)", pattern: "~/Library/Caches/CocoaPods/*", category: "package_manager" },
        WhitelistCacheItem { display_name: "npm package cache", pattern: "~/.npm/_cacache/*", category: "package_manager" },
        WhitelistCacheItem { display_name: "pip Python package cache", pattern: "~/.cache/pip/*", category: "package_manager" },
        WhitelistCacheItem { display_name: "uv Python package cache", pattern: "~/.cache/uv/*", category: "package_manager" },
        WhitelistCacheItem { display_name: "Homebrew downloaded packages", pattern: "~/Library/Caches/Homebrew/*", category: "package_manager" },
        WhitelistCacheItem { display_name: "Yarn package manager cache", pattern: "~/.cache/yarn/*", category: "package_manager" },
        WhitelistCacheItem { display_name: "pnpm package store", pattern: "~/Library/pnpm/store/*", category: "package_manager" },
        WhitelistCacheItem { display_name: "Composer PHP dependencies cache (legacy)", pattern: "~/.composer/cache/*", category: "package_manager" },
        WhitelistCacheItem { display_name: "Composer PHP dependencies cache", pattern: "~/Library/Caches/composer/*", category: "package_manager" },
        WhitelistCacheItem { display_name: "RubyGems cache", pattern: "~/.gem/cache/*", category: "package_manager" },
        WhitelistCacheItem { display_name: "Conda package metadata/tarball cache", pattern: "~/.conda/pkgs", category: "package_manager" },
        WhitelistCacheItem { display_name: "Anaconda package metadata/tarball cache", pattern: "~/anaconda3/pkgs", category: "package_manager" },
        WhitelistCacheItem { display_name: "PyTorch model cache", pattern: "~/.cache/torch/*", category: "ai_ml_cache" },
        WhitelistCacheItem { display_name: "TensorFlow model and dataset cache", pattern: "~/.cache/tensorflow/*", category: "ai_ml_cache" },
        WhitelistCacheItem { display_name: "HuggingFace models and datasets", pattern: "~/.cache/huggingface/*", category: "ai_ml_cache" },
        WhitelistCacheItem { display_name: "Selenium WebDriver binaries", pattern: "~/.cache/selenium/*", category: "ai_ml_cache" },
        WhitelistCacheItem { display_name: "Weights & Biases ML experiments cache", pattern: "~/.cache/wandb/*", category: "ai_ml_cache" },
        WhitelistCacheItem { display_name: "Safari web browser cache", pattern: "~/Library/Caches/com.apple.Safari/*", category: "browser_cache" },
        WhitelistCacheItem { display_name: "Chrome browser cache", pattern: "~/Library/Caches/Google/Chrome/*", category: "browser_cache" },
        WhitelistCacheItem { display_name: "Firefox browser cache", pattern: "~/Library/Caches/Firefox/*", category: "browser_cache" },
        WhitelistCacheItem { display_name: "Brave browser cache", pattern: "~/Library/Caches/BraveSoftware/Brave-Browser/*", category: "browser_cache" },
        WhitelistCacheItem { display_name: "Docker BuildX cache", pattern: "~/.docker/buildx/cache/*", category: "container_cache" },
        WhitelistCacheItem { display_name: "Podman container cache", pattern: "~/.local/share/containers/cache/*", category: "container_cache" },
        WhitelistCacheItem { display_name: "Tart OCI/IPSW cache", pattern: "~/.tart/cache", category: "container_cache" },
        WhitelistCacheItem { display_name: "Font cache", pattern: "~/Library/Caches/com.apple.FontRegistry/*", category: "system_cache" },
        WhitelistCacheItem { display_name: "Spotlight metadata cache", pattern: "~/Library/Caches/com.apple.spotlight/*", category: "system_cache" },
        WhitelistCacheItem { display_name: "CloudKit cache", pattern: "~/Library/Caches/CloudKit/*", category: "system_cache" },
        WhitelistCacheItem { display_name: "Trash", pattern: "~/.Trash", category: "system_cache" },
    ];
    assert(out@.map_values(|i: WhitelistCacheItem| i@) =~= cache_item_table());
    out
}

/// The patterns protected when no whitelist has been saved.
pub open spec fn default_whitelist_spec() -> Seq<Seq<char>> {
    seq![
        "~/Library/Caches/ms-playwright*"@,
        "~/.cache/huggingface*"@,
        "~/.m2/repository/*"@,
        "~/.gradle/caches/*"@,
        "~/.gradle/daemon/*"@,
        "~/.ollama/models/*"@,
        "~/Library/Caches/com.nssurge.surge-mac/*"@,
        "~/Library/Application Support/com.nssurge.surge-mac/*"@,
        "~/Library/Caches/org.R-project.R/R/renv/*"@,
        "~/Library/Caches/pypoetry/virtualenvs*"@,
        "~/Library/Caches/JetBrains*"@,
        "~/Library/Caches/com.jetbrains.toolbox*"@,
        "~/Library/Caches/tealdeer/tldr-pages"@,
        "~/Library/Application Support/JetBrains*"@,
        "~/Library/Caches/com.apple.finder"@,
        "~/Library/Mobile Documents*"@,
        "~/Library/Caches/com.apple.FontRegistry*"@,
        "~/Library/Caches/com.apple.spotlight*"@,
        "~/Library/Caches/CloudKit*"@,
        "FINDER_METADATA"@,
    ]
}

/// Where the cleaner keeps its configuration and logs.
pub struct CleanerConfig {
    pub config_dir: String,
    pub log_dir: String,
    pub whitelist_file: String,
    pub purge_paths_file: String,
}

/// The configuration directory under a home directory.
pub open spec fn config_dir_of(home: Seq<char>) -> Seq<char> {
    join(join(home, ".config"@), "pantau"@)
}

/// The log directory under a home directory.
pub open spec fn log_dir_of(home: Seq<char>) -> Seq<char> {
    join(join(join(home, "Library"@), "Logs"@), "pantau"@)
}

/// A line of the whitelist file that counts: not empty, and not a `#` comment.
pub open spec fn is_pattern_line(l: Seq<char>) -> bool {
    l.len() > 0 && l[0] != '#'
}

/// The trimmed lines of `content` that are patterns.
pub open spec fn pattern_lines(content: Seq<char>) -> Seq<Seq<char>> {
    lines_seq(content).map_values(|l: Seq<char>| trim_seq(l)).filter(|l: Seq<char>| is_pattern_line(l))
}

/// The whitelist read from a file with `content` (`None`: no file, or unreadable): its
/// pattern lines, or the default whitelist when there are none.
pub open spec fn whitelist_from(content: Option<Seq<char>>) -> Seq<Seq<char>> {
    match content {
        Some(c) => if pattern_lines(c).len() > 0 {
            pattern_lines(c)
        } else {
            default_whitelist_spec()
        },
        None => default_whitelist_spec(),
    }
}

/// The comment lines at the top of a saved whitelist, the last one empty.
pub open spec fn whitelist_header_lines() -> Seq<Seq<char>> {
    seq![
        "# Pantau Whitelist - Protected paths won't be deleted"@,
        "# Default protections: Playwright browsers, HuggingFace models, Maven repo, Ollama models, Surge Mac, R renv, Finder metadata"@,
        "# Add one pattern per line to keep items safe."@,
        ""@,
    ]
}

/// Lines written one after another, each followed by a newline.
pub open spec fn joined_lines(ls: Seq<Seq<char>>) -> Seq<char>
    decreases ls.len(),
{
    if ls.len() == 0 {
        Seq::empty()
    } else {
        joined_lines(ls.drop_last()) + ls.last() + seq!['\n']
    }
}

/// What a saved whitelist file holds: the header, then one pattern per line.
pub open spec fn whitelist_file_content(patterns: Seq<Seq<char>>) -> Seq<char> {
    joined_lines(whitelist_header_lines() + patterns)
}

impl CleanerConfig {
    /// The locations under `home`: `~/.config/pantau` with its `whitelist` and
    /// `purge_paths` files, and `~/Library/Logs/pantau`.
    pub fn for_home(home: &str) -> (c: CleanerConfig)
        ensures
            c.config_dir@ == config_dir_of(home@),
            c.log_dir@ == log_dir_of(home@),
            c.whitelist_file@ == join(config_dir_of(home@), "whitelist"@),
            c.purge_paths_file@ == join(config_dir_of(home@), "purge_paths"@),
    {
        let dot_config = join_exec(home, ".config");
        let config_dir = join_exec(dot_config.as_str(), "pantau");
        let library = join_exec(home, "Library");
        let logs = join_exec(library.as_str(), "Logs");
        let log_dir = join_exec(logs.as_str(), "pantau");
        let whitelist_file = join_exec(config_dir.as_str(), "whitelist");
        let purge_paths_file = join_exec(config_dir.as_str(), "purge_paths");
        CleanerConfig { config_dir, log_dir, whitelist_file, purge_paths_file }
    }

    /// The locations under the user's home directory (or under `/` when none is known).
    pub fn new() -> (c: CleanerConfig)
        ensures
            exists|home: Seq<char>|
                c.config_dir@ == config_dir_of(home) && c.log_dir@ == log_dir_of(home)
                    && c.whitelist_file@ == join(config_dir_of(home), "whitelist"@)
                    && c.purge_paths_file@ == join(config_dir_of(home), "purge_paths"@),
    {
        let home = crate::home::home_or_root();
        Self::for_home(home.as_str())
    }

    /// The patterns protected when no whitelist has been saved.
    pub fn default_whitelist() -> (out: Vec<String>)
        ensures
            out@.map_values(|s: String| s@) == default_whitelist_spec(),
    {
        let out = vec![
            "~/Library/Caches/ms-playwright*".to_string(),
            "~/.cache/huggingface*".to_string(),
            "~/.m2/repository/*".to_string(),
            "~/.gradle/caches/*".to_string(),
            "~/.gradle/daemon/*".to_string(),
            "~/.ollama/models/*".to_string(),
            "~/Library/Caches/com.nssurge.surge-mac/*".to_string(),
            "~/Library/Application Support/com.nssurge.surge-mac/*".to_string(),
            "~/Library/Caches/org.R-project.R/R/renv/*".to_string(),
            "~/Library/Caches/pypoetry/virtualenvs*".to_string(),
            "~/Library/Caches/JetBrains*".to_string(),
            "~/Library/Caches/com.jetbrains.toolbox*".to_string(),
            "~/Library/Caches/tealdeer/tldr-pages".to_string(),
            "~/Library/Application Support/JetBrains*".to_string(),
            "~/Library/Caches/com.apple.finder".to_string(),
            "~/Library/Mobile Documents*".to_string(),
            "~/Library/Caches/com.apple.FontRegistry*".to_string(),
            "~/Library/Caches/com.apple.spotlight*".to_string(),
            "~/Library/Caches/CloudKit*".to_string(),
            "FINDER_METADATA".to_string(),
        ];
        assert(out@.map_values(|s: String| s@) =~= default_whitelist_spec());
        out
    }

    /// The whitelist a file holds (`None`: there is no file, or it cannot be read): its
    /// trimmed lines that are neither empty nor comments, or the default whitelist when
    /// there are none.
    pub fn parse_whitelist(content: Option<&str>) -> (out: Vec<String>)
        ensures
            out@.map_values(|s: String| s@) == whitelist_from(
                match content {
                    Some(c) => Some(c@),
                    None => None,
                },
            ),
    {
        match content {
            None => Self::default_whitelist(),
            Some(c) => {
                let ls = lines(c);
                let mut out: Vec<String> = Vec::new();
                let ghost all = lines_seq(c@);
                let mut i: usize = 0;
                while i < ls.len()
                    invariant
                        i <= ls.len(),
                        ls@.map_values(|l: String| l@) == all,
                        all == lines_seq(c@),
                        out@.map_values(|s: String| s@) == all.take(i as int).map_values(
                            |l: Seq<char>| trim_seq(l),
                        ).filter(|l: Seq<char>| is_pattern_line(l)),
                    decreases ls.len() - i,
                {
                    let t = trim(ls[i].as_str());
                    let ghost before = out@.map_values(|s: String| s@);
                    proof {
                        assert(all.take(i + 1) =~= all.take(i as int).push(all[i as int]));
                        assert(all.take(i + 1).map_values(|l: Seq<char>| trim_seq(l))
                            =~= all.take(i as int).map_values(|l: Seq<char>| trim_seq(l)).push(
                            trim_seq(all[i as int]),
                        ));
                        all.take(i as int).map_values(|l: Seq<char>| trim_seq(l)).lemma_filter_push(
                            trim_seq(all[i as int]),
                            |l: Seq<char>| is_pattern_line(l),
                        );
                    }
                    let keep = !str_eq(t.as_str(), "") && !starts_with(t.as_str(), "#");
                    proof {
                        reveal_strlit("#");
                        reveal_strlit("");
                        if t@.len() > 0 {
                            assert(t@.subrange(0, 1) =~= seq![t@[0]]);
                        }
                        assert(""@ =~= Seq::<char>::empty());
                        assert("#"@ =~= seq!['#']);
                        if t@.len() == 0 {
                            assert(t@ =~= ""@);
                        } else {
                            assert(t@ != ""@);
                            let one = t@.subrange(0, 1);
                            assert(one =~= seq![t@[0]]);
                            if t@[0] == '#' {
                                assert(one =~= "#"@);
                            } else {
                                assert(one[0] != "#"@[0]);
                            }
                        }
                        assert(keep == is_pattern_line(t@));
                    }
                    if keep {
                        out.push(t);
                        assert(out@.map_values(|s: String| s@) =~= before.push(t@));
                    }
                    i = i + 1;
                }
                assert(all.take(ls.len() as int) =~= all);
                if out.len() == 0 {
                    Self::default_whitelist()
                } else {
                    out
                }
            },
        }
    }

    /// The text of a whitelist file holding `patterns`: three comment lines and an empty
    /// line, then each pattern on a line of its own.
    pub fn whitelist_content(patterns: &Vec<String>) -> (out: String)
        ensures
            out@ == whitelist_file_content(patterns@.map_values(|s: String| s@)),
    {
        let header = vec![
            "# Pantau Whitelist - Protected paths won't be deleted",
            "# Default protections: Playwright browsers, HuggingFace models, Maven repo, Ollama models, Surge Mac, R renv, Finder metadata",
            "# Add one pattern per line to keep items safe.",
            "",
        ];
        let ghost hv = header@.map_values(|s: &str| s@);
        assert(hv =~= whitelist_header_lines());
        let ghost pv = patterns@.map_values(|s: String| s@);
        let ghost all = whitelist_header_lines() + pv;
        let mut out = String::new();
        let mut i: usize = 0;
        while i < header.len()
            invariant
                i <= header.len(),
                header.len() == 4,
                header@.map_values(|s: &str| s@) == whitelist_header_lines(),
                out@ == joined_lines(whitelist_header_lines().take(i as int)),
            decreases header.len() - i,
        {
            proof {
                let h = whitelist_header_lines();
                assert(h.take(i + 1).drop_last() =~= h.take(i as int));
                assert(h.take(i + 1).last() == header@[i as int]@);
            }
            push_str(&mut out, header[i]);
            push_char(&mut out, '\n');
            i = i + 1;
        }
        assert(whitelist_header_lines().take(4) =~= whitelist_header_lines());
        assert(all.take(4) =~= whitelist_header_lines());
        let mut j: usize = 0;
        while j < patterns.len()
            invariant
                j <= patterns.len(),
                pv == patterns@.map_values(|s: String| s@),
                all == whitelist_header_lines() + pv,
                out@ == joined_lines(all.take(4 + j)),
            decreases patterns.len() - j,
        {
            proof {
                assert(all.take(4 + j + 1).drop_last() =~= all.take(4 + j));
                assert(all.take(4 + j + 1).last() == patterns@[j as int]@);
            }
            push_str(&mut out, patterns[j].as_str());
            push_char(&mut out, '\n');
            j = j + 1;
        }
        assert(all.take(4 + patterns.len()) =~= all);
        out
    }
}

/// A project-search path from one line of the purge-paths file: a line starting with
/// `~` is taken under the home directory (its leading `"~/"` removed), any other as is.
pub open spec fn purge_line_path(home: Seq<char>, l: Seq<char>) -> Seq<char> {
    if l.len() > 0 && l[0] == '~' {
        join(home, trim_start_matches_seq(l, "~/"@))
    } else {
        l
    }
}

/// The paths that a purge-paths file with `content` names, before those that do not
/// exist are dropped.
pub open spec fn purge_candidates(home: Seq<char>, content: Seq<char>) -> Seq<Seq<char>> {
    pattern_lines(content).map_values(|l: Seq<char>| purge_line_path(home, l))
}

/// The directories searched for projects when the purge-paths file names none that exist.
pub open spec fn default_purge_dirs_spec(home: Seq<char>) -> Seq<Seq<char>> {
    seq![
        join(home, "Projects"@),
        join(home, "GitHub"@),
        join(home, "dev"@),
        join(home, "Development"@),
        join(home, "Workspace"@),
        join(home, "Documents"@),
        join(home, "Personal Projects"@),
        join(home, "Daily"@),
    ]
}

/// An application bundle found in an applications folder, with its bundle identifier
/// when it has one, and whether its cache folder (see `app_cache_folder`) exists.
pub struct FoundApp {
    pub file_name: String,
    pub bundle_id: Option<String>,
    pub cache_exists: bool,
}

/// The view of an optional string.
pub open spec fn opt_view(o: Option<String>) -> Option<Seq<char>> {
    match o {
        Some(s) => Some(s@),
        None => None,
    }
}

impl View for FoundApp {
    type V = (Seq<char>, Option<Seq<char>>, bool);

    open spec fn view(&self) -> (Seq<char>, Option<Seq<char>>, bool) {
        (self.file_name@, opt_view(self.bundle_id), self.cache_exists)
    }
}

/// An application's name: its bundle's file name without the `.app` suffix.
pub open spec fn app_name(file_name: Seq<char>) -> Seq<char> {
    trim_end_matches_seq(file_name, ".app"@)
}

/// The folder under `~/Library/Caches` where an application keeps its cache: named by
/// its bundle identifier, or else by its name.
pub open spec fn app_cache_folder_spec(file_name: Seq<char>, bundle_id: Option<Seq<char>>) -> Seq<char> {
    match bundle_id {
        Some(b) => b,
        None => app_name(file_name),
    }
}

/// A catalogue entry and whether it may join the catalogue.
pub type Candidate = ((Seq<char>, Seq<char>, Seq<char>), bool);

/// The entry offered for an installed application; it may join when its cache exists.
pub open spec fn app_candidate(a: (Seq<char>, Option<Seq<char>>, bool)) -> Candidate {
    let name = app_name(a.0);
    let folder = app_cache_folder_spec(a.0, a.1);
    let display = match a.1 {
        Some(b) => name + " cache ("@ + b + ")"@,
        None => name + " cache"@,
    };
    ((display, "~/Library/Caches/"@ + folder + "/*"@, "installed_app"@), a.2)
}

/// A name that does not start with a dot.
pub open spec fn not_hidden(name: Seq<char>) -> bool {
    !(name.len() > 0 && name[0] == '.')
}

/// The entry offered for a folder of `~/Library/Caches`.
pub open spec fn user_cache_candidate(name: Seq<char>) -> Candidate {
    ((name + " cache"@, "~/Library/Caches/"@ + name + "/*"@, "user_cache"@), not_hidden(name))
}

/// The entry offered for a folder of `~/.cache`.
pub open spec fn tool_cache_candidate(name: Seq<char>) -> Candidate {
    ((name + " dev/tool cache"@, "~/.cache/"@ + name + "/*"@, "dev_cache"@), not_hidden(name))
}

/// The entries of `cands` that may join and whose pattern was not seen before, in order.
pub open spec fn new_entries(cands: Seq<Candidate>, seen: Seq<Seq<char>>) -> Seq<
    (Seq<char>, Seq<char>, Seq<char>),
>
    decreases cands.len(),
{
    if cands.len() == 0 {
        Seq::empty()
    } else {
        let c = cands[0];
        if c.1 && !seen.contains(c.0.1) {
            seq![c.0] + new_entries(cands.drop_first(), seen.push(c.0.1))
        } else {
            new_entries(cands.drop_first(), seen)
        }
    }
}

/// All candidates found on the machine, in the order they are offered.
pub open spec fn found_candidates(
    apps: Seq<(Seq<char>, Option<Seq<char>>, bool)>,
    user_caches: Seq<Seq<char>>,
    tool_caches: Seq<Seq<char>>,
) -> Seq<Candidate> {
    apps.map_values(|a: (Seq<char>, Option<Seq<char>>, bool)| app_candidate(a)) + user_caches.map_values(
        |n: Seq<char>| user_cache_candidate(n),
    ) + tool_caches.map_values(|n: Seq<char>| tool_cache_candidate(n))
}

/// The whitelist manager's catalogue: the known caches, then the caches found on this
/// machine whose pattern is new.
pub open spec fn discoverable_items(
    apps: Seq<(Seq<char>, Option<Seq<char>>, bool)>,
    user_caches: Seq<Seq<char>>,
    tool_caches: Seq<Seq<char>>,
) -> Seq<(Seq<char>, Seq<char>, Seq<char>)> {
    cache_item_table() + new_entries(
        found_candidates(apps, user_caches, tool_caches),
        cache_item_table().map_values(|t: (Seq<char>, Seq<char>, Seq<char>)| t.1),
    )
}

/// Whether `p` is one of `seen`.
fn seen_contains(seen: &Vec<String>, p: &str) -> (r: bool)
    ensures
        r == seen@.map_values(|s: String| s@).contains(p@),
{
    let mut i: usize = 0;
    while i < seen.len()
        invariant
            i <= seen.len(),
            forall|k: int| 0 <= k < i ==> seen@[k]@ != p@,
        decreases seen.len() - i,
    {
        if str_eq(seen[i].as_str(), p) {
            assert(seen@.map_values(|s: String| s@)[i as int] == p@);
            return true;
        }
        i = i + 1;
    }
    proof {
        let sv = seen@.map_values(|s: String| s@);
        if sv.contains(p@) {
            let k = choose|k: int| 0 <= k < sv.len() && #[trigger] sv[k] == p@;
            assert(seen@[k]@ == p@);
        }
    }
    false
}

/// The views of a sequence of candidates.
pub open spec fn candidate_views(s: Seq<(DynamicCacheItem, bool)>) -> Seq<Candidate> {
    s.map_values(|c: (DynamicCacheItem, bool)| (c.0@, c.1))
}

impl CleanerConfig {
    /// The paths a purge-paths file with `content` names: its trimmed lines that are
    /// neither empty nor comments, those starting with `~` taken under `home`.
    pub fn purge_path_candidates(home: &str, content: &str) -> (out: Vec<String>)
        ensures
            out@.map_values(|s: String| s@) == purge_candidates(home@, content@),
    {
        let ls = lines(content);
        let mut out: Vec<String> = Vec::new();
        let ghost all = lines_seq(content@);
        let ghost kept = all.map_values(|l: Seq<char>| trim_seq(l)).filter(|l: Seq<char>| is_pattern_line(l));
        let mut i: usize = 0;
        while i < ls.len()
            invariant
                i <= ls.len(),
                ls@.map_values(|l: String| l@) == all,
                all == lines_seq(content@),
                out@.map_values(|s: String| s@) == all.take(i as int).map_values(
                    |l: Seq<char>| trim_seq(l),
                ).filter(|l: Seq<char>| is_pattern_line(l)).map_values(
                    |l: Seq<char>| purge_line_path(home@, l),
                ),
            decreases ls.len() - i,
        {
            let t = trim(ls[i].as_str());
            let ghost before = out@.map_values(|s: String| s@);
            let ghost pre = all.take(i as int).map_values(|l: Seq<char>| trim_seq(l));
            proof {
                assert(all.take(i + 1) =~= all.take(i as int).push(all[i as int]));
                assert(all.take(i + 1).map_values(|l: Seq<char>| trim_seq(l)) =~= pre.push(
                    trim_seq(all[i as int]),
                ));
                pre.lemma_filter_push(trim_seq(all[i as int]), |l: Seq<char>| is_pattern_line(l));
            }
            let keep = !str_eq(t.as_str(), "") && !starts_with(t.as_str(), "#");
            proof {
                reveal_strlit("#");
                reveal_strlit("");
                if t@.len() == 0 {
                    assert(t@ =~= ""@);
                } else {
                    assert(t@ != ""@);
                    let one = t@.subrange(0, 1);
                    assert(one =~= seq![t@[0]]);
                    if t@[0] == '#' {
                        assert(one =~= "#"@);
                    } else {
                        assert(one[0] != "#"@[0]);
                    }
                }
                assert(keep == is_pattern_line(t@));
            }
            if keep {
                let tilde = starts_with(t.as_str(), "~");
                proof {
                    reveal_strlit("~");
                    let one = t@.subrange(0, 1);
                    assert(one =~= seq![t@[0]]);
                    if t@[0] == '~' {
                        assert(one =~= "~"@);
                    } else {
                        assert(one[0] != "~"@[0]);
                    }
                    assert(tilde == (t@[0] == '~'));
                }
                let path = if tilde {
                    let rest = trim_start_matches(t.as_str(), "~/");
                    join_exec(home, rest.as_str())
                } else {
                    t
                };
                out.push(path);
                assert(out@.map_values(|s: String| s@) =~= before.push(purge_line_path(home@, t@)));
            }
            i = i + 1;
        }
        assert(all.take(ls.len() as int) =~= all);
        out
    }

    /// The directories searched for projects by default: `Projects`, `GitHub`, `dev`,
    /// `Development`, `Workspace`, `Documents`, `Personal Projects` and `Daily` under
    /// `home`.
    pub fn default_purge_dirs(home: &str) -> (out: Vec<String>)
        ensures
            out@.map_values(|s: String| s@) == default_purge_dirs_spec(home@),
    {
        let out = vec![
            join_exec(home, "Projects"),
            join_exec(home, "GitHub"),
            join_exec(home, "dev"),
            join_exec(home, "Development"),
            join_exec(home, "Workspace"),
            join_exec(home, "Documents"),
            join_exec(home, "Personal Projects"),
            join_exec(home, "Daily"),
        ];
        assert(out@.map_values(|s: String| s@) =~= default_purge_dirs_spec(home@));
        out
    }
}

/// The folder under `~/Library/Caches` where an application keeps its cache.
pub fn app_cache_folder(file_name: &str, bundle_id: Option<&str>) -> (out: String)
    ensures
        out@ == app_cache_folder_spec(
            file_name@,
            match bundle_id {
                Some(b) => Some(b@),
                None => None,
            },
        ),
{
    match bundle_id {
        Some(b) => b.to_string(),
        None => trim_end_matches(file_name, ".app"),
    }
}

fn make_item(display_name: String, pattern: String, category: &str) -> (out: DynamicCacheItem)
    ensures
        out@ == (display_name@, pattern@, category@),
{
    DynamicCacheItem { display_name, pattern, category: category.to_string() }
}

fn not_hidden_exec(name: &str) -> (r: bool)
    ensures
        r == not_hidden(name@),
{
    let dot = starts_with(name, ".");
    proof {
        reveal_strlit(".");
        if name@.len() > 0 {
            let one = name@.subrange(0, 1);
            assert(one =~= seq![name@[0]]);
            if name@[0] == '.' {
                assert(one =~= "."@);
            } else {
                assert(one[0] != "."@[0]);
            }
        }
    }
    !dot
}

/// The whitelist manager's catalogue: the known caches, then, in this order, the caches
/// of installed applications whose cache folder exists, the folders of
/// `~/Library/Caches`, and those of `~/.cache` (names starting with a dot left out),
/// each only when its pattern is not already in the catalogue.
pub fn get_discoverable_cache_items(
    apps: &Vec<FoundApp>,
    user_caches: &Vec<String>,
    tool_caches: &Vec<String>,
) -> (out: Vec<DynamicCacheItem>)
    ensures
        out@.map_values(|i: DynamicCacheItem| i@) == discoverable_items(
            apps@.map_values(|a: FoundApp| a@),
            user_caches@.map_values(|s: String| s@),
            tool_caches@.map_values(|s: String| s@),
        ),
{
    let table = all_cache_items();
    let mut out: Vec<DynamicCacheItem> = Vec::new();
    let mut seen: Vec<String> = Vec::new();
    let mut i: usize = 0;
    while i < table.len()
        invariant
            i <= table.len(),
            table@.map_values(|t: WhitelistCacheItem| t@) == cache_item_table(),
            out@.map_values(|d: DynamicCacheItem| d@) == cache_item_table().take(i as int),
            seen@.map_values(|s: String| s@) == cache_item_table().take(i as int).map_values(
                |t: (Seq<char>, Seq<char>, Seq<char>)| t.1,
            ),
        decreases table.len() - i,
    {
        let t = &table[i];
        let ghost before_out = out@.map_values(|d: DynamicCacheItem| d@);
        let ghost before_seen = seen@.map_values(|s: String| s@);
        assert(cache_item_table()[i as int] == t@);
        seen.push(t.pattern.to_string());
        out.push(make_item(t.display_name.to_string(), t.pattern.to_string(), t.category));
        proof {
            let tbl = cache_item_table();
            assert(tbl.take(i + 1) =~= tbl.take(i as int).push(tbl[i as int]));
            assert(out@.map_values(|d: DynamicCacheItem| d@) =~= before_out.push(t@));
            assert(seen@.map_values(|s: String| s@) =~= before_seen.push(t@.1));
            assert(tbl.take(i + 1).map_values(|t: (Seq<char>, Seq<char>, Seq<char>)| t.1) =~= tbl.take(
                i as int,
            ).map_values(|t: (Seq<char>, Seq<char>, Seq<char>)| t.1).push(tbl[i as int].1));
        }
        i = i + 1;
    }
    proof {
        assert(cache_item_table().take(table.len() as int) =~= cache_item_table());
    }
    let mut cands: Vec<(DynamicCacheItem, bool)> = Vec::new();
    let mut a: usize = 0;
    while a < apps.len()
        invariant
            a <= apps.len(),
            candidate_views(cands@) == apps@.map_values(|x: FoundApp| x@).take(a as int).map_values(
                |x: (Seq<char>, Option<Seq<char>>, bool)| app_candidate(x),
            ),
        decreases apps.len() - a,
    {
        let app = &apps[a];
        let name = trim_end_matches(app.file_name.as_str(), ".app");
        let ghost before = candidate_views(cands@);
        let item = match &app.bundle_id {
            Some(b) => {
                let d1 = concat(name.as_str(), " cache (");
                let d2 = concat(d1.as_str(), b.as_str());
                let display = concat(d2.as_str(), ")");
                let p1 = concat("~/Library/Caches/", b.as_str());
                let pattern = concat(p1.as_str(), "/*");
                make_item(display, pattern, "installed_app")
            },
            None => {
                let display = concat(name.as_str(), " cache");
                let p1 = concat("~/Library/Caches/", name.as_str());
                let pattern = concat(p1.as_str(), "/*");
                make_item(display, pattern, "installed_app")
            },
        };
        cands.push((item, app.cache_exists));
        proof {
            let av = apps@.map_values(|x: FoundApp| x@);
            assert(av[a as int] == app@);
            assert(av.take(a + 1) =~= av.take(a as int).push(av[a as int]));
            assert(candidate_views(cands@) =~= before.push(app_candidate(app@)));
            assert(av.take(a + 1).map_values(|x: (Seq<char>, Option<Seq<char>>, bool)| app_candidate(x))
                =~= av.take(a as int).map_values(
                |x: (Seq<char>, Option<Seq<char>>, bool)| app_candidate(x),
            ).push(app_candidate(av[a as int])));
        }
        a = a + 1;
    }
    let ghost app_part = candidate_views(cands@);
    proof {
        assert(apps@.map_values(|x: FoundApp| x@).take(apps.len() as int) =~= apps@.map_values(
            |x: FoundApp| x@,
        ));
    }
    let mut u: usize = 0;
    while u < user_caches.len()
        invariant
            u <= user_caches.len(),
            candidate_views(cands@) == app_part + user_caches@.map_values(|s: String| s@).take(
                u as int,
            ).map_values(|n: Seq<char>| user_cache_candidate(n)),
        decreases user_caches.len() - u,
    {
        let n = user_caches[u].as_str();
        let ghost before = candidate_views(cands@);
        let display = concat(n, " cache");
        let p1 = concat("~/Library/Caches/", n);
        let pattern = concat(p1.as_str(), "/*");
        let ok = not_hidden_exec(n);
        cands.push((make_item(display, pattern, "user_cache"), ok));
        proof {
            let uv = user_caches@.map_values(|s: String| s@);
            assert(uv[u as int] == n@);
            assert(uv.take(u + 1).map_values(|n: Seq<char>| user_cache_candidate(n)) =~= uv.take(
                u as int,
            ).map_values(|n: Seq<char>| user_cache_candidate(n)).push(user_cache_candidate(uv[u as int])));
            assert(candidate_views(cands@) =~= before.push(user_cache_candidate(n@)));
        }
        u = u + 1;
    }
    let ghost user_part = candidate_views(cands@);
    proof {
        assert(user_caches@.map_values(|s: String| s@).take(user_caches.len() as int)
            =~= user_caches@.map_values(|s: String| s@));
    }
    let mut k: usize = 0;
    while k < tool_caches.len()
        invariant
            k <= tool_caches.len(),
            candidate_views(cands@) == user_part + tool_caches@.map_values(|s: String| s@).take(
                k as int,
            ).map_values(|n: Seq<char>| tool_cache_candidate(n)),
        decreases tool_caches.len() - k,
    {
        let n = tool_caches[k].as_str();
        let ghost before = candidate_views(cands@);
        let display = concat(n, " dev/tool cache");
        let p1 = concat("~/.cache/", n);
        let pattern = concat(p1.as_str(), "/*");
        let ok = not_hidden_exec(n);
        cands.push((make_item(display, pattern, "dev_cache"), ok));
        proof {
            let tv = tool_caches@.map_values(|s: String| s@);
            assert(tv[k as int] == n@);
            assert(tv.take(k + 1).map_values(|n: Seq<char>| tool_cache_candidate(n)) =~= tv.take(
                k as int,
            ).map_values(|n: Seq<char>| tool_cache_candidate(n)).push(tool_cache_candidate(tv[k as int])));
            assert(candidate_views(cands@) =~= before.push(tool_cache_candidate(n@)));
        }
        k = k + 1;
    }
    proof {
        assert(tool_caches@.map_values(|s: String| s@).take(tool_caches.len() as int)
            =~= tool_caches@.map_values(|s: String| s@));
        assert(candidate_views(cands@) =~= found_candidates(
            apps@.map_values(|a: FoundApp| a@),
            user_caches@.map_values(|s: String| s@),
            tool_caches@.map_values(|s: String| s@),
        ));
    }
    let ghost all_cands = candidate_views(cands@);
    let ghost seen0 = seen@.map_values(|s: String| s@);
    let ghost out0 = out@.map_values(|d: DynamicCacheItem| d@);
    assert(all_cands.skip(0) =~= all_cands);
    let mut c: usize = 0;
    while c < cands.len()
        invariant
            c <= cands.len(),
            all_cands == candidate_views(cands@),
            out@.map_values(|d: DynamicCacheItem| d@) + new_entries(
                all_cands.skip(c as int),
                seen@.map_values(|s: String| s@),
            ) == out0 + new_entries(all_cands, seen0),
        decreases cands.len() - c,
    {
        let ghost before_out = out@.map_values(|d: DynamicCacheItem| d@);
        let ghost before_seen = seen@.map_values(|s: String| s@);
        let cand = &cands[c];
        proof {
            assert(all_cands.skip(c as int)[0] == (cand.0@, cand.1));
            assert(all_cands.skip(c as int).drop_first() =~= all_cands.skip(c + 1));
        }
        if cand.1 && !seen_contains(&seen, cand.0.pattern.as_str()) {
            out.push(
                DynamicCacheItem {
                    display_name: cand.0.display_name.clone(),
                    pattern: cand.0.pattern.clone(),
                    category: cand.0.category.clone(),
                },
            );
            seen.push(cand.0.pattern.clone());
            proof {
                assert(out@.map_values(|d: DynamicCacheItem| d@) =~= before_out.push(cand.0@));
                assert(seen@.map_values(|s: String| s@) =~= before_seen.push(cand.0@.1));
                assert(before_out + (seq![cand.0@] + new_entries(all_cands.skip(c + 1), before_seen.push(cand.0@.1)))
                    =~= before_out.push(cand.0@) + new_entries(all_cands.skip(c + 1), before_seen.push(cand.0@.1)));
            }
        }
        c = c + 1;
    }
    proof {
        assert(all_cands.skip(cands.len() as int) =~= Seq::<Candidate>::empty());
        assert(out@.map_values(|d: DynamicCacheItem| d@) + Seq::<(Seq<char>, Seq<char>, Seq<char>)>::empty()
            =~= out@.map_values(|d: DynamicCacheItem| d@));
    }
    out
}

proof fn lemma_joined_front(ls: Seq<Seq<char>>)
    requires
        ls.len() > 0,
    ensures
        joined_lines(ls) == ls[0] + seq!['\n'] + joined_lines(ls.drop_first()),
    decreases ls.len(),
{
    if ls.len() == 1 {
        assert(ls.drop_last() =~= Seq::<Seq<char>>::empty());
        assert(ls.drop_first() =~= Seq::<Seq<char>>::empty());
        assert(joined_lines(ls.drop_last()) =~= Seq::<char>::empty());
        assert(joined_lines(ls) =~= ls[0] + seq!['\n'] + joined_lines(ls.drop_first()));
    } else {
        lemma_joined_front(ls.drop_last());
        assert(ls.drop_first().drop_last() =~= ls.drop_last().drop_first());
        assert(ls.drop_first().last() == ls.last());
        assert(ls.drop_last()[0] == ls[0]);
        assert(joined_lines(ls) =~= ls[0] + seq!['\n'] + joined_lines(ls.drop_first()));
    }
}

proof fn lemma_lines_of_joined(ls: Seq<Seq<char>>)
    requires
        forall|i: int, j: int| 0 <= i < ls.len() && 0 <= j < ls[i].len() ==> ls[i][j] != '\n',
    ensures
        lines_seq(joined_lines(ls)) == ls.map_values(|l: Seq<char>| strip_cr(l)),
    decreases ls.len(),
{
    if ls.len() == 0 {
        assert(joined_lines(ls) =~= Seq::<char>::empty());
        assert(ls.map_values(|l: Seq<char>| strip_cr(l)) =~= Seq::<Seq<char>>::empty());
    } else {
        lemma_joined_front(ls);
        assert forall|j: int| 0 <= j < ls[0].len() implies ls[0][j] != '\n' by {
            assert(ls[0][j] != '\n');
        }
        lemma_lines_cons(ls[0], joined_lines(ls.drop_first()));
        assert forall|i: int, j: int|
            0 <= i < ls.drop_first().len() && 0 <= j < ls.drop_first()[i].len() implies ls.drop_first()[i][j]
            != '\n' by {
            assert(ls.drop_first()[i] == ls[i + 1]);
        }
        lemma_lines_of_joined(ls.drop_first());
        assert(ls.map_values(|l: Seq<char>| strip_cr(l)) =~= seq![strip_cr(ls[0])] + ls.drop_first().map_values(
            |l: Seq<char>| strip_cr(l),
        ));
    }
}

proof fn lemma_filter_keeps_all(s: Seq<Seq<char>>)
    requires
        forall|i: int| 0 <= i < s.len() ==> is_pattern_line(#[trigger] s[i]),
    ensures
        s.filter(|l: Seq<char>| is_pattern_line(l)) == s,
    decreases s.len(),
{
    if s.len() > 0 {
        lemma_filter_keeps_all(s.drop_last());
        s.drop_last().lemma_filter_push(s.last(), |l: Seq<char>| is_pattern_line(l));
        assert(s.drop_last().push(s.last()) =~= s);
    } else {
        assert(s.filter(|l: Seq<char>| is_pattern_line(l)) =~= s);
    }
}

proof fn lemma_filter_drops_all(s: Seq<Seq<char>>)
    requires
        forall|i: int| 0 <= i < s.len() ==> !is_pattern_line(#[trigger] s[i]),
    ensures
        s.filter(|l: Seq<char>| is_pattern_line(l)) == Seq::<Seq<char>>::empty(),
    decreases s.len(),
{
    if s.len() > 0 {
        lemma_filter_drops_all(s.drop_last());
        s.drop_last().lemma_filter_push(s.last(), |l: Seq<char>| is_pattern_line(l));
        assert(s.drop_last().push(s.last()) =~= s);
    } else {
        assert(s.filter(|l: Seq<char>| is_pattern_line(l)) =~= Seq::<Seq<char>>::empty());
    }
}

/// Saving a whitelist and loading it again gives the same patterns, for patterns that
/// loading keeps as they are: trimmed, on one line, neither empty nor comments.
pub proof fn lemma_whitelist_roundtrip(patterns: Seq<Seq<char>>)
    requires
        patterns.len() > 0,
        forall|i: int|
            0 <= i < patterns.len() ==> trim_seq(#[trigger] patterns[i]) == patterns[i]
                && is_pattern_line(patterns[i]),
        forall|i: int, j: int| 0 <= i < patterns.len() && 0 <= j < patterns[i].len() ==> patterns[i][j] != '\n',
    ensures
        whitelist_from(Some(whitelist_file_content(patterns))) == patterns,
{
    let h = whitelist_header_lines();
    let all = h + patterns;
    reveal_strlit("# Pantau Whitelist - Protected paths won't be deleted");
    reveal_strlit("# Default protections: Playwright browsers, HuggingFace models, Maven repo, Ollama models, Surge Mac, R renv, Finder metadata");
    reveal_strlit("# Add one pattern per line to keep items safe.");
    reveal_strlit("");
    assert forall|i: int, j: int| 0 <= i < all.len() && 0 <= j < all[i].len() implies all[i][j] != '\n' by {
        if i >= 4 {
            assert(all[i] == patterns[i - 4]);
        }
    }
    lemma_lines_of_joined(all);
    assert forall|i: int| 0 <= i < all.len() implies strip_cr(#[trigger] all[i]) == all[i] by {
        if i >= 4 {
            assert(all[i] == patterns[i - 4]);
            lemma_trimmed_ends(patterns[i - 4]);
        }
    }
    assert(all.map_values(|l: Seq<char>| strip_cr(l)) =~= all);
    let htr = h.map_values(|l: Seq<char>| trim_seq(l));
    assert forall|i: int| 0 <= i < htr.len() implies !is_pattern_line(#[trigger] htr[i]) by {
        assert(trim_seq(h[i]) == h[i]);
    }
    assert(all.map_values(|l: Seq<char>| trim_seq(l)) =~= htr + patterns);
    Seq::filter_distributes_over_add(htr, patterns, |l: Seq<char>| is_pattern_line(l));
    lemma_filter_drops_all(htr);
    lemma_filter_keeps_all(patterns);
    assert(pattern_lines(whitelist_file_content(patterns)) =~= patterns);
}

} // verus!
