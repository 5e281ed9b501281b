//! The session: the server-wide configuration and the configuration sets, with the protocol that
//! replaces the sets and the choice of the sets that a changed file affects.

use vstd::prelude::*;
use crate::configuration_set::{
    CompilationOutcome,
    ConfigurationSet,
    compiled_from,
    configured_by,
    file_index,
    is_uncompiled,
};
use crate::diagnostics::{
    Diagnostic,
    PublishPlan,
    dedup_spec,
    has_entry,
    names_file,
    publishes,
    some_in_file,
};
use crate::json::{JsonValue, json_array_member, json_get, same_text};
use crate::location::FileSpan;
use crate::jump_definition::{Position, file_match, get_definition_span, location_of};
use crate::slice_config::{ServerConfig, is_default_config, search_paths, texts};

verus! {

/// What `std::path::Path::starts_with` answers for two paths' texts.
pub uninterp spec fn path_starts_with(path: Seq<char>, base: Seq<char>) -> bool;

/// Relies on `std::path::Path::starts_with`: whether `base` is a leading run of whole components
/// of `path` depends on the two texts alone.
#[verifier::external_body]
fn starts_with_path(path: &str, base: &str) -> (r: bool)
    ensures
        r == path_starts_with(path@, base@),
{
    std::path::Path::new(path).starts_with(base)
}

/// Why a session cannot start.
#[derive(Clone, Copy, Debug, PartialEq, Eq, Structural)]
pub enum InitializeError {
    /// The initialization options name no built-in files' path.
    MissingBuiltInSlicePath,
    /// The client sent no usable workspace root.
    MissingWorkspaceRoot,
}

pub struct Session<T> {
    /// The configuration sets, never empty.
    pub configuration_sets: Vec<ConfigurationSet<T>>,
    /// Configuration that affects the entire server.
    pub server_config: ServerConfig,
}

/// A file is in scope of a set when one of its search paths is the file or one of its ancestors.
pub open spec fn in_scope(paths: Seq<Seq<char>>, file: Seq<char>) -> bool {
    exists|i: int|
        0 <= i < paths.len() && (paths[i] == file || path_starts_with(file, #[trigger] paths[i]))
}

/// The indices, in order, of the first `n` sets that have `file` in scope.
pub open spec fn affected_indices<T>(
    sets: Seq<ConfigurationSet<T>>,
    server: ServerConfig,
    file: Seq<char>,
    n: int,
) -> Seq<usize>
    decreases n,
{
    if n <= 0 {
        Seq::empty()
    } else {
        let p = affected_indices(sets, server, file, n - 1);
        if in_scope(search_paths(server, sets[n - 1].slice_config), file) {
            p.push((n - 1) as usize)
        } else {
            p
        }
    }
}

/// The sets after a replacement with `sets`: those, or one default set when there are none.
pub open spec fn replaced_by<T>(after: Seq<ConfigurationSet<T>>, sets: Seq<ConfigurationSet<T>>) -> bool {
    if sets.len() == 0 {
        &&& after.len() == 1
        &&& is_default_config(after[0].slice_config)
        &&& is_uncompiled(after[0])
    } else {
        after == sets
    }
}

/// The sets after a replacement from a JSON array of set settings, or from none.
pub open spec fn configured_from<T>(after: Seq<ConfigurationSet<T>>, items: Option<Seq<JsonValue>>) -> bool {
    let items = match items {
        Some(items) => items,
        None => Seq::empty(),
    };
    if items.len() == 0 {
        &&& after.len() == 1
        &&& is_default_config(after[0].slice_config)
        &&& is_uncompiled(after[0])
    } else {
        &&& after.len() == items.len()
        &&& forall|i: int| 0 <= i < after.len() ==> configured_by(#[trigger] after[i], items[i])
    }
}

/// The set configurations of a configuration change: `slice.configurations`.
pub open spec fn configurations_setting(settings: JsonValue) -> Option<Seq<JsonValue>> {
    match json_get(settings, "slice"@) {
        Some(slice) => json_array_member(slice, "configurations"@),
        None => None,
    }
}

/// The built-in files' path in the initialization options.
pub open spec fn built_in_setting(options: Option<JsonValue>) -> Option<Seq<char>> {
    match options {
        Some(v) => match json_get(v, "builtInSlicePath"@) {
            Some(JsonValue::String(s)) => Some(s@),
            _ => None,
        },
        None => None,
    }
}

/// The set configurations in the initialization options: `configuration`.
pub open spec fn initial_configurations(options: Option<JsonValue>) -> Option<Seq<JsonValue>> {
    match options {
        Some(v) => json_array_member(v, "configuration"@),
        None => None,
    }
}

/// The index of the first set that compiled a file at `path`.
pub open spec fn tracking_set<T>(sets: Seq<ConfigurationSet<T>>, path: Seq<char>) -> Option<int>
    decreases sets.len(),
{
    if sets.len() == 0 {
        None
    } else if file_index(sets[0].compilation_data.files@, path) is Some {
        Some(0)
    } else {
        match tracking_set(sets.drop_first(), path) {
            Some(k) => Some(k + 1),
            None => None,
        }
    }
}

/// The definition named at `position` in the file at `path`, looked up in the first set that
/// compiled it.
pub open spec fn definition_at<T>(sets: Seq<ConfigurationSet<T>>, path: Seq<char>, position: Position) -> Option<FileSpan> {
    match tracking_set(sets, path) {
        Some(s) => {
            let files = sets[s].compilation_data.files@;
            match file_index(files, path) {
                Some(k) => file_match(files[k].declarations@, location_of(position)),
                None => None,
            }
        },
        None => None,
    }
}

/// When the first `i` sets did not compile `path`, the first that did is at `i` or later.
proof fn lemma_tracking_set_at<T>(sets: Seq<ConfigurationSet<T>>, path: Seq<char>, i: int)
    requires
        0 <= i <= sets.len(),
        forall|j: int| 0 <= j < i ==> file_index(#[trigger] sets[j].compilation_data.files@, path) is None,
    ensures
        i == sets.len() ==> tracking_set(sets, path) is None,
        i < sets.len() && file_index(sets[i].compilation_data.files@, path) is Some ==> tracking_set(sets, path) == Some(i),
    decreases i,
{
    if i > 0 {
        lemma_tracking_set_at(sets.drop_first(), path, i - 1);
    }
}

/// The set that `tracking_set` picks did compile a file at `path`.
proof fn lemma_tracking_set_found<T>(sets: Seq<ConfigurationSet<T>>, path: Seq<char>)
    ensures
        tracking_set(sets, path) matches Some(s) ==> 0 <= s < sets.len() && file_index(
            sets[s].compilation_data.files@,
            path,
        ) is Some,
    decreases sets.len(),
{
    if sets.len() > 0 {
        lemma_tracking_set_found(sets.drop_first(), path);
    }
}

/// Whether `file` is one of `paths` or lies under one of them.
fn covers(paths: &Vec<String>, file: &str) -> (r: bool)
    ensures
        r == in_scope(texts(paths@), file@),
{
    let ghost t = texts(paths@);
    let mut i: usize = 0;
    while i < paths.len()
        invariant
            i <= paths.len(),
            t == texts(paths@),
            forall|j: int| 0 <= j < i ==> !(t[j] == file@ || path_starts_with(file@, #[trigger] t[j])),
        decreases paths.len() - i,
    {
        let base = paths[i].as_str();
        if same_text(base, file) || starts_with_path(file, base) {
            assert(t[i as int] == paths@[i as int]@);
            return true;
        }
        i += 1;
    }
    false
}

/// A sequence of sets none of which has `file` in scope selects none of them.
proof fn lemma_no_affected<T>(sets: Seq<ConfigurationSet<T>>, server: ServerConfig, file: Seq<char>, n: int)
    requires
        0 <= n <= sets.len(),
        forall|i: int|
            0 <= i < sets.len() ==> !in_scope(search_paths(server, #[trigger] sets[i].slice_config), file),
    ensures
        affected_indices(sets, server, file, n) == Seq::<usize>::empty(),
    decreases n,
{
    if n > 0 {
        lemma_no_affected(sets, server, file, n - 1);
    }
}

/// A change of a file that no set has in scope recompiles no set, and what is then published
/// for the files of no set and no diagnostic holds no file and no message.
pub proof fn lemma_untouched_file<T>(
    sets: Seq<ConfigurationSet<T>>,
    server: ServerConfig,
    file: Seq<char>,
    plan: PublishPlan,
)
    requires
        forall|i: int|
            0 <= i < sets.len() ==> !in_scope(search_paths(server, #[trigger] sets[i].slice_config), file),
        publishes(plan, Seq::empty(), dedup_spec(Seq::empty())),
    ensures
        affected_indices(sets, server, file, sets.len() as int) == Seq::<usize>::empty(),
        plan.files@.len() == 0,
        plan.spanless@.len() == 0,
{
    lemma_no_affected(sets, server, file, sets.len() as int);
    assert(dedup_spec(Seq::<Diagnostic>::empty()) == Seq::<Diagnostic>::empty());
    if plan.files@.len() > 0 {
        let p = plan.files@[0].path@;
        assert(has_entry(plan.files@, p));
        assert(!some_in_file(Seq::<Diagnostic>::empty(), p));
        assert(!names_file(Seq::<String>::empty(), p));
    }
}

impl<T> Session<T> {
    /// The session's invariant: it holds at least one set.
    pub open spec fn wf(&self) -> bool {
        self.configuration_sets@.len() > 0
    }

    /// A session with the default server configuration and one default set.
    pub fn new() -> (r: Self)
        ensures
            r.wf(),
            r.configuration_sets@.len() == 1,
            is_default_config(r.configuration_sets@[0].slice_config),
            is_uncompiled(r.configuration_sets@[0]),
    {
        let mut configuration_sets: Vec<ConfigurationSet<T>> = Vec::new();
        configuration_sets.push(ConfigurationSet::new());
        Session { configuration_sets, server_config: ServerConfig::default() }
    }

    /// Replaces all the sets with `configurations`, or with one default set when it is empty.
    pub fn update_configurations(&mut self, configurations: Vec<ConfigurationSet<T>>)
        ensures
            final(self).wf(),
            replaced_by(final(self).configuration_sets@, configurations@),
            final(self).server_config == old(self).server_config,
    {
        let mut configurations = configurations;
        if configurations.len() == 0 {
            configurations.push(ConfigurationSet::new());
        }
        self.configuration_sets = configurations;
    }

    /// Replaces the sets after a configuration change, from `slice.configurations` of the
    /// settings; there is no merge with the previous sets.
    pub fn update_configurations_from_params(&mut self, settings: &JsonValue)
        ensures
            final(self).wf(),
            configured_from(final(self).configuration_sets@, configurations_setting(*settings)),
            final(self).server_config == old(self).server_config,
    {
        let configurations = match settings.get("slice") {
            Some(slice) => match slice.get("configurations") {
                Some(member) => match member.as_array() {
                    Some(items) => ConfigurationSet::parse_configuration_sets(items),
                    None => Vec::new(),
                },
                None => Vec::new(),
            },
            None => Vec::new(),
        };
        self.update_configurations(configurations);
    }

    /// Sets up the session from the initialization options and the workspace root. The
    /// built-in files' path and the workspace root are required: without either the session
    /// stays as it was and the error says which was missing, the built-in files' path first.
    pub fn update_from_initialize_params(
        &mut self,
        initialization_options: &Option<JsonValue>,
        workspace_root_path: Option<String>,
    ) -> (r: Result<(), InitializeError>)
        ensures
            built_in_setting(*initialization_options) is None ==> r == Err::<(), InitializeError>(
                InitializeError::MissingBuiltInSlicePath,
            ),
            built_in_setting(*initialization_options) is Some && workspace_root_path is None ==> r
                == Err::<(), InitializeError>(InitializeError::MissingWorkspaceRoot),
            r is Err ==> *final(self) == *old(self),
            r is Ok <==> (built_in_setting(*initialization_options) is Some
                && workspace_root_path is Some),
            r is Ok ==> {
                &&& final(self).wf()
                &&& Some(final(self).server_config.built_in_slice_path@) == built_in_setting(
                    *initialization_options,
                )
                &&& final(self).server_config.workspace_root_path == workspace_root_path->0
                &&& configured_from(
                    final(self).configuration_sets@,
                    initial_configurations(*initialization_options),
                )
            },
    {
        let options = match initialization_options {
            Some(options) => options,
            None => {
                return Err(InitializeError::MissingBuiltInSlicePath);
            },
        };
        let built_in_slice_path = match options.get("builtInSlicePath") {
            Some(member) => match member.as_str() {
                Some(s) => s.clone(),
                None => {
                    return Err(InitializeError::MissingBuiltInSlicePath);
                },
            },
            None => {
                return Err(InitializeError::MissingBuiltInSlicePath);
            },
        };
        let workspace_root_path = match workspace_root_path {
            Some(p) => p,
            None => {
                return Err(InitializeError::MissingWorkspaceRoot);
            },
        };
        self.server_config = ServerConfig { workspace_root_path, built_in_slice_path };
        let configurations = match options.get("configuration") {
            Some(member) => match member.as_array() {
                Some(items) => ConfigurationSet::parse_configuration_sets(items),
                None => Vec::new(),
            },
            None => Vec::new(),
        };
        self.update_configurations(configurations);
        Ok(())
    }

    /// The indices of the sets that have `file_path` in scope, in order: those to recompile
    /// when that file changes.
    pub fn affected_sets(&self, file_path: &str) -> (r: Vec<usize>)
        ensures
            r@ == affected_indices(
                self.configuration_sets@,
                self.server_config,
                file_path@,
                self.configuration_sets@.len() as int,
            ),
    {
        let sets = &self.configuration_sets;
        let mut out: Vec<usize> = Vec::new();
        let mut i: usize = 0;
        while i < sets.len()
            invariant
                i <= sets.len(),
                sets == self.configuration_sets,
                out@ == affected_indices(sets@, self.server_config, file_path@, i as int),
            decreases sets.len() - i,
        {
            let options = sets[i].slice_options(&self.server_config);
            if covers(&options.references, file_path) {
                out.push(i);
            }
            i += 1;
        }
        out
    }

    /// Applies a run of the compiler to the set at `index`; the other sets stay as they are.
    pub fn apply_compilation(&mut self, index: usize, outcome: CompilationOutcome<T>) -> (r: Vec<
        Diagnostic,
    >)
        requires
            old(self).wf(),
            index < old(self).configuration_sets@.len(),
        ensures
            final(self).wf(),
            final(self).server_config == old(self).server_config,
            final(self).configuration_sets@.len() == old(self).configuration_sets@.len(),
            forall|j: int|
                0 <= j < old(self).configuration_sets@.len() && j != index
                    ==> final(self).configuration_sets@[j] == #[trigger] old(self).configuration_sets@[j],
            compiled_from(
                old(self).configuration_sets@[index as int],
                final(self).configuration_sets@[index as int],
                outcome,
                r@,
            ),
    {
        self.configuration_sets[index].apply_compilation(outcome)
    }

    /// The index of the first set that compiled a file at `path`.
    pub fn find_tracking_set(&self, path: &str) -> (r: Option<usize>)
        ensures
            match r {
                Some(s) => tracking_set(self.configuration_sets@, path@) == Some(s as int),
                None => tracking_set(self.configuration_sets@, path@) is None,
            },
            r matches Some(s) ==> s < self.configuration_sets@.len(),
    {
        let sets = &self.configuration_sets;
        let mut i: usize = 0;
        while i < sets.len()
            invariant
                i <= sets.len(),
                sets == self.configuration_sets,
                forall|j: int|
                    0 <= j < i ==> file_index(#[trigger] sets@[j].compilation_data.files@, path@) is None,
            decreases sets.len() - i,
        {
            if sets[i].find_file(path).is_some() {
                proof {
                    lemma_tracking_set_at(sets@, path@, i as int);
                }
                return Some(i);
            }
            i += 1;
        }
        proof {
            lemma_tracking_set_at(sets@, path@, i as int);
        }
        None
    }

    /// The span of the definition named at `position` in the file at `path`, from the first set
    /// that compiled that file; nothing when no set did or nothing is named there.
    pub fn goto_definition(&self, path: &str, position: Position) -> (r: Option<FileSpan>)
        ensures
            r == definition_at(self.configuration_sets@, path@, position),
    {
        proof {
            lemma_tracking_set_found(self.configuration_sets@, path@);
        }
        match self.find_tracking_set(path) {
            Some(s) => {
                let set = &self.configuration_sets[s];
                match set.find_file(path) {
                    Some(k) => get_definition_span(&set.compilation_data.files[k], position),
                    None => None,
                }
            },
            None => None,
        }
    }
}

} // verus!
