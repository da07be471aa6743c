//! Resolver configuration: the ordered alias table, extension list, manifest
//! field names, index-file names, condition names, module-directory names and
//! the symlink flag.

use vstd::prelude::*;

verus! {

/// One alias rule: a pattern and either a replacement string or the block
/// marker (`None`), which terminates resolution with "intentionally
/// unresolved".
#[derive(Clone, Debug)]
pub struct AliasRule {
    pub pattern: String,
    pub target: Option<String>,
}

/// Immutable resolver configuration.
#[derive(Clone, Debug)]
pub struct ResolverOptions {
    /// Ordered alias rules; the first matching rule wins.
    pub alias: Vec<AliasRule>,
    /// Extensions probed in order when a path does not name a file directly.
    pub extensions: Vec<String>,
    /// Manifest entry-point field names, walked in order (platform override
    /// before the plain entry point).
    pub main_fields: Vec<String>,
    /// Index-file base names probed inside a directory.
    pub main_files: Vec<String>,
    /// Condition names for conditional exports, in priority order.
    pub condition_names: Vec<String>,
    /// Module-directory names for the upward walk.
    pub modules: Vec<String>,
    /// Whether a resolved file is mapped to its symlink target.
    pub symlinks: bool,
    /// Names resolved verbatim without touching the filesystem.
    pub built_ins: Vec<String>,
}

/// The default configuration: no aliases, `.js`/`.json`/`.node` extensions,
/// `browser` then `main` entry fields, `index` files, no conditions,
/// `node_modules` walk, symlinks kept as they are, no built-ins.
pub open spec fn is_default_options(o: ResolverOptions) -> bool {
    &&& o.alias@.len() == 0
    &&& o.extensions.deep_view() == seq![".js"@, ".json"@, ".node"@]
    &&& o.main_fields.deep_view() == seq!["browser"@, "main"@]
    &&& o.main_files.deep_view() == seq!["index"@]
    &&& o.condition_names@.len() == 0
    &&& o.modules.deep_view() == seq!["node_modules"@]
    &&& o.symlinks == false
    &&& o.built_ins@.len() == 0
}

impl Default for ResolverOptions {
    fn default() -> (r: ResolverOptions)
        ensures
            is_default_options(r),
    {
        let mut extensions: Vec<String> = Vec::new();
        extensions.push(String::from_str(".js"));
        extensions.push(String::from_str(".json"));
        extensions.push(String::from_str(".node"));
        let mut main_fields: Vec<String> = Vec::new();
        main_fields.push(String::from_str("browser"));
        main_fields.push(String::from_str("main"));
        let mut main_files: Vec<String> = Vec::new();
        main_files.push(String::from_str("index"));
        let mut modules: Vec<String> = Vec::new();
        modules.push(String::from_str("node_modules"));
        proof {
            assert(extensions.deep_view() =~= seq![".js"@, ".json"@, ".node"@]);
            assert(main_fields.deep_view() =~= seq!["browser"@, "main"@]);
            assert(main_files.deep_view() =~= seq!["index"@]);
            assert(modules.deep_view() =~= seq!["node_modules"@]);
        }
        ResolverOptions {
            alias: Vec::new(),
            extensions,
            main_fields,
            main_files,
            condition_names: Vec::new(),
            modules,
            symlinks: false,
            built_ins: Vec::new(),
        }
    }
}

} // verus!
