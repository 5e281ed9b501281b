//! Configuration sets: one independently configured and compiled view of the workspace each.

use vstd::prelude::*;
use crate::diagnostics::{Diagnostic, Severity};
use crate::json::{JsonValue, collect_strings, json_array_member, json_get, string_items};
use crate::jump_definition::FileTree;
use crate::slice_config::{
    ServerConfig,
    SliceConfig,
    SliceOptions,
    compute_slice_options,
    is_default_config,
    search_paths,
    texts,
};

verus! {

/// The result of the latest successful compilation of a set: the compiler's own state, which
/// the library carries without reading, and the files it compiled.
pub struct CompilationData<T> {
    pub state: Option<T>,
    pub files: Vec<FileTree>,
}

impl<T> Default for CompilationData<T> {
    fn default() -> (r: Self)
        ensures
            r.state is None,
            r.files@.len() == 0,
    {
        CompilationData { state: None, files: Vec::new() }
    }
}

/// What a run of the compiler came back with.
pub enum CompilationOutcome<T> {
    /// The compiler ran: its state, the files it compiled and its diagnostics, already filtered
    /// and remapped by the configuration.
    Compiled { state: T, files: Vec<FileTree>, diagnostics: Vec<Diagnostic> },
    /// The compiler could not run at all.
    Failed { message: String },
}

/// One compilation set: its configuration, its latest compilation and that compilation's
/// diagnostics.
pub struct ConfigurationSet<T> {
    pub slice_config: SliceConfig,
    pub compilation_data: CompilationData<T>,
    pub diagnostics: Vec<Diagnostic>,
}

/// A set that was not compiled yet.
pub open spec fn is_uncompiled<T>(set: ConfigurationSet<T>) -> bool {
    set.compilation_data.state is None && set.compilation_data.files@.len() == 0
        && set.diagnostics@.len() == 0
}

/// The `paths` member of a set's settings: its strings, or none when it is not an array.
pub open spec fn paths_setting(v: JsonValue) -> Seq<Seq<char>> {
    match json_array_member(v, "paths"@) {
        Some(items) => string_items(items),
        None => Seq::empty(),
    }
}

/// The `addWellKnownTypes` member of a set's settings, true when it is not a boolean.
pub open spec fn include_setting(v: JsonValue) -> bool {
    match json_get(v, "addWellKnownTypes"@) {
        Some(JsonValue::Bool(b)) => b,
        _ => true,
    }
}

/// `set` is a fresh set configured by the settings `v`.
pub open spec fn configured_by<T>(set: ConfigurationSet<T>, v: JsonValue) -> bool {
    &&& texts(set.slice_config.slice_search_paths@) == paths_setting(v)
    &&& set.slice_config.include_built_in_slice_files == include_setting(v)
    &&& is_uncompiled(set)
}

/// `after` is `before` once `outcome` is applied, and `r` what that reports. A compilation
/// replaces the state and the files together; a failure keeps them and reports one diagnostic
/// without a span.
pub open spec fn compiled_from<T>(
    before: ConfigurationSet<T>,
    after: ConfigurationSet<T>,
    outcome: CompilationOutcome<T>,
    r: Seq<Diagnostic>,
) -> bool {
    &&& after.slice_config == before.slice_config
    &&& after.diagnostics@ == r
    &&& match outcome {
        CompilationOutcome::Compiled { state, files, diagnostics } => {
            &&& after.compilation_data.state == Some(state)
            &&& after.compilation_data.files == files
            &&& r == diagnostics@
        },
        CompilationOutcome::Failed { message } => {
            &&& after.compilation_data == before.compilation_data
            &&& r.len() == 1
            &&& r[0].span is None
            &&& r[0].severity == Severity::Error
            &&& r[0].message == message
        },
    }
}

/// The index of the first file of `files` at `path`.
pub open spec fn file_index(files: Seq<FileTree>, path: Seq<char>) -> Option<int>
    decreases files.len(),
{
    if files.len() == 0 {
        None
    } else if files[0].path@ == path {
        Some(0)
    } else {
        match file_index(files.drop_first(), path) {
            Some(k) => Some(k + 1),
            None => None,
        }
    }
}

/// The strings of the `paths` member of a set's settings.
fn parse_paths(value: &JsonValue) -> (r: Vec<String>)
    ensures
        texts(r@) == paths_setting(*value),
{
    match value.get("paths") {
        Some(member) => match member.as_array() {
            Some(items) => collect_strings(items),
            None => Vec::new(),
        },
        None => Vec::new(),
    }
}

/// Whether a set's settings include the built-in files; they do unless told otherwise.
fn parse_include_built_in(value: &JsonValue) -> (r: bool)
    ensures
        r == include_setting(*value),
{
    match value.get("addWellKnownTypes") {
        Some(member) => match member.as_bool() {
            Some(b) => b,
            None => true,
        },
        None => true,
    }
}

/// A copy of a list of diagnostics.
fn copy_diagnostics(v: &Vec<Diagnostic>) -> (r: Vec<Diagnostic>)
    ensures
        r@ == v@,
{
    let mut out: Vec<Diagnostic> = Vec::new();
    let mut i: usize = 0;
    while i < v.len()
        invariant
            i <= v.len(),
            out@ == v@.take(i as int),
        decreases v.len() - i,
    {
        out.push(v[i].duplicate());
        proof {
            assert(out@ =~= v@.take(i + 1));
        }
        i += 1;
    }
    proof {
        assert(v@.take(i as int) =~= v@);
    }
    out
}

impl<T> ConfigurationSet<T> {
    /// A set with the default configuration, not compiled yet.
    pub fn new() -> (r: Self)
        ensures
            is_default_config(r.slice_config),
            is_uncompiled(r),
    {
        Self::with_config(SliceConfig::default())
    }

    /// A set with the given configuration, not compiled yet.
    pub fn with_config(slice_config: SliceConfig) -> (r: Self)
        ensures
            r.slice_config == slice_config,
            is_uncompiled(r),
    {
        ConfigurationSet {
            slice_config,
            compilation_data: CompilationData::default(),
            diagnostics: Vec::new(),
        }
    }

    /// One fresh set for each entry of a JSON array of set settings, in order.
    pub fn parse_configuration_sets(config_array: &Vec<JsonValue>) -> (r: Vec<Self>)
        ensures
            r@.len() == config_array@.len(),
            forall|i: int| 0 <= i < r@.len() ==> configured_by(#[trigger] r@[i], config_array@[i]),
    {
        let mut out: Vec<Self> = Vec::new();
        let mut i: usize = 0;
        while i < config_array.len()
            invariant
                i <= config_array.len(),
                out@.len() == i,
                forall|j: int| 0 <= j < i ==> configured_by(#[trigger] out@[j], config_array@[j]),
            decreases config_array.len() - i,
        {
            out.push(Self::from_json(&config_array[i]));
            i += 1;
        }
        out
    }

    /// A fresh set configured by its JSON settings.
    fn from_json(value: &JsonValue) -> (r: Self)
        ensures
            configured_by(r, *value),
    {
        let slice_config = SliceConfig {
            slice_search_paths: parse_paths(value),
            include_built_in_slice_files: parse_include_built_in(value),
        };
        Self::with_config(slice_config)
    }

    /// The options to compile this set with.
    pub fn slice_options(&self, server_config: &ServerConfig) -> (r: SliceOptions)
        ensures
            texts(r.references@) == search_paths(*server_config, self.slice_config),
    {
        compute_slice_options(server_config, &self.slice_config)
    }

    /// Takes in what a run of the compiler returned, and returns the diagnostics to publish.
    pub fn apply_compilation(&mut self, outcome: CompilationOutcome<T>) -> (r: Vec<Diagnostic>)
        ensures
            compiled_from(*old(self), *final(self), outcome, r@),
    {
        match outcome {
            CompilationOutcome::Compiled { state, files, diagnostics } => {
                self.compilation_data = CompilationData { state: Some(state), files };
                let r = copy_diagnostics(&diagnostics);
                self.diagnostics = diagnostics;
                r
            },
            CompilationOutcome::Failed { message } => {
                let failure = Diagnostic { span: None, severity: Severity::Error, message };
                let mut r: Vec<Diagnostic> = Vec::new();
                r.push(failure);
                self.diagnostics = copy_diagnostics(&r);
                r
            },
        }
    }

    /// The paths of the files of the latest compilation, in order.
    pub fn file_paths(&self) -> (r: Vec<String>)
        ensures
            texts(r@) == self.compilation_data.files@.map_values(|f: FileTree| f.path@),
    {
        let files = &self.compilation_data.files;
        let mut out: Vec<String> = Vec::new();
        let mut i: usize = 0;
        while i < files.len()
            invariant
                i <= files.len(),
                files == self.compilation_data.files,
                texts(out@) == files@.take(i as int).map_values(|f: FileTree| f.path@),
            decreases files.len() - i,
        {
            let ghost before = out@;
            out.push(files[i].path.clone());
            proof {
                assert(texts(out@) =~= texts(before).push(files@[i as int].path@));
                assert(files@.take(i + 1).map_values(|f: FileTree| f.path@) =~= files@.take(
                    i as int,
                ).map_values(|f: FileTree| f.path@).push(files@[i as int].path@));
            }
            i += 1;
        }
        proof {
            assert(files@.take(i as int) =~= files@);
        }
        out
    }

    /// The index of the first compiled file at `path`.
    pub fn find_file(&self, path: &str) -> (r: Option<usize>)
        ensures
            match r {
                Some(k) => file_index(self.compilation_data.files@, path@) == Some(k as int),
                None => file_index(self.compilation_data.files@, path@) is None,
            },
            r matches Some(k) ==> k < self.compilation_data.files@.len(),
    {
        let files = &self.compilation_data.files;
        let mut i: usize = 0;
        proof {
            assert(files@.skip(0) =~= files@);
        }
        while i < files.len()
            invariant
                i <= files.len(),
                files == self.compilation_data.files,
                forall|j: int| 0 <= j < i ==> (#[trigger] files@[j]).path@ != path@,
            decreases files.len() - i,
        {
            if crate::json::same_text(files[i].path.as_str(), path) {
                proof {
                    lemma_file_index_at(files@, path@, i as int);
                }
                return Some(i);
            }
            i += 1;
        }
        proof {
            lemma_file_index_at(files@, path@, i as int);
        }
        None
    }
}

/// When the first `i` files are elsewhere, the first file at `path` is at `i` or later.
proof fn lemma_file_index_at(files: Seq<FileTree>, path: Seq<char>, i: int)
    requires
        0 <= i <= files.len(),
        forall|j: int| 0 <= j < i ==> (#[trigger] files[j]).path@ != path,
    ensures
        i == files.len() ==> file_index(files, path) is None,
        i < files.len() && files[i].path@ == path ==> file_index(files, path) == Some(i),
    decreases i,
{
    if i > 0 {
        lemma_file_index_at(files.drop_first(), path, i - 1);
    }
}

} // verus!
