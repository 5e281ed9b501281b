//! Server-wide and per-set configuration, and the search paths handed to the compiler.

use vstd::prelude::*;

verus! {

/// What `std::path::Path::is_absolute` answers for a path's text.
pub uninterp spec fn path_is_absolute(p: Seq<char>) -> bool;

/// The text of `std::path::Path::join` of `p` onto `root`.
pub uninterp spec fn path_joined(root: Seq<char>, p: Seq<char>) -> Seq<char>;

/// Relies on `std::path::Path::is_absolute`: the answer depends on the path's text alone.
#[verifier::external_body]
fn is_absolute_path(p: &str) -> (r: bool)
    ensures
        r == path_is_absolute(p@),
{
    std::path::Path::new(p).is_absolute()
}

/// Relies on `std::path::Path::join`, read back as text through `Path::display`: the result
/// depends on the two paths alone.
#[verifier::external_body]
fn join_path(root: &str, p: &str) -> (r: String)
    ensures
        r@ == path_joined(root@, p@),
{
    std::path::Path::new(root).join(p).display().to_string()
}

/// Configuration that affects the entire server.
#[derive(Debug)]
pub struct ServerConfig {
    /// The root path of the workspace, against which relative paths are resolved.
    pub workspace_root_path: String,
    /// The path of the built-in Slice files that ship with the server.
    pub built_in_slice_path: String,
}

impl Default for ServerConfig {
    fn default() -> (r: Self)
        ensures
            r.workspace_root_path@ == Seq::<char>::empty(),
            r.built_in_slice_path@ == Seq::<char>::empty(),
    {
        ServerConfig { workspace_root_path: String::new(), built_in_slice_path: String::new() }
    }
}

/// The configuration of one compilation set.
#[derive(Debug)]
pub struct SliceConfig {
    /// Paths handed to the compiler as reference files or directories, absolute or relative to
    /// the workspace root.
    pub slice_search_paths: Vec<String>,
    /// Whether the built-in Slice files are added to the search paths.
    pub include_built_in_slice_files: bool,
}

impl Default for SliceConfig {
    fn default() -> (r: Self)
        ensures
            is_default_config(r),
    {
        SliceConfig { slice_search_paths: Vec::new(), include_built_in_slice_files: true }
    }
}

/// The configuration of a set that the user did not configure.
pub open spec fn is_default_config(c: SliceConfig) -> bool {
    c.slice_search_paths@.len() == 0 && c.include_built_in_slice_files
}

/// The options handed to the compiler: its search paths, in the order it consults them.
#[derive(Debug)]
pub struct SliceOptions {
    pub references: Vec<String>,
}

/// A configured path as the compiler sees it: absolute paths unchanged, others joined to the
/// workspace root.
pub open spec fn resolved_reference(root: Seq<char>, p: Seq<char>) -> Seq<char> {
    if path_is_absolute(p) {
        p
    } else {
        path_joined(root, p)
    }
}

/// The configured paths resolved one by one, in their order.
pub open spec fn resolved_references(server: ServerConfig, slice: SliceConfig) -> Seq<Seq<char>> {
    slice.slice_search_paths@.map_values(
        |s: String| resolved_reference(server.workspace_root_path@, s@),
    )
}

/// The search paths of a set: its resolved paths, or the workspace root when it has none, then
/// the built-in files' path when they are included.
pub open spec fn search_paths(server: ServerConfig, slice: SliceConfig) -> Seq<Seq<char>> {
    let refs = resolved_references(server, slice);
    let base = if refs.len() == 0 {
        seq![server.workspace_root_path@]
    } else {
        refs
    };
    if slice.include_built_in_slice_files {
        base.push(server.built_in_slice_path@)
    } else {
        base
    }
}

/// The texts of a list of strings.
pub open spec fn texts(v: Seq<String>) -> Seq<Seq<char>> {
    v.map_values(|s: String| s@)
}

/// The options for compiling one set: its search paths, resolved against the workspace root.
pub fn compute_slice_options(server_config: &ServerConfig, slice_config: &SliceConfig) -> (r:
    SliceOptions)
    ensures
        texts(r.references@) == search_paths(*server_config, *slice_config),
{
    let mut references: Vec<String> = Vec::new();
    let paths = &slice_config.slice_search_paths;
    let ghost root = server_config.workspace_root_path@;
    let mut i: usize = 0;
    while i < paths.len()
        invariant
            i <= paths.len(),
            root == server_config.workspace_root_path@,
            paths == slice_config.slice_search_paths,
            texts(references@) == resolved_references(*server_config, *slice_config).take(
                i as int,
            ),
        decreases paths.len() - i,
    {
        let path = paths[i].as_str();
        let absolute = if is_absolute_path(path) {
            paths[i].clone()
        } else {
            join_path(server_config.workspace_root_path.as_str(), path)
        };
        assert(absolute@ == resolved_reference(root, paths@[i as int]@));
        let ghost before = references@;
        references.push(absolute);
        proof {
            assert(texts(references@) =~= texts(before).push(absolute@));
            assert(texts(references@) =~= resolved_references(
                *server_config,
                *slice_config,
            ).take(i + 1));
        }
        i += 1;
    }
    proof {
        assert(resolved_references(*server_config, *slice_config).take(i as int)
            =~= resolved_references(*server_config, *slice_config));
    }
    if references.len() == 0 {
        references.push(server_config.workspace_root_path.clone());
        proof {
            assert(texts(references@) =~= seq![root]);
        }
    }
    if slice_config.include_built_in_slice_files {
        let ghost before = references@;
        references.push(server_config.built_in_slice_path.clone());
        proof {
            assert(texts(references@) =~= texts(before).push(server_config.built_in_slice_path@));
        }
    }
    SliceOptions { references }
}

/// How search paths are resolved: a set without configured paths searches the workspace root;
/// absolute paths pass through unchanged and relative ones are joined to the workspace root, in
/// their configured order; the built-in files' path comes last, and only when included.
pub proof fn lemma_search_paths_shape(server: ServerConfig, slice: SliceConfig)
    ensures
        ({
            let n = slice.slice_search_paths@.len();
            let out = search_paths(server, slice);
            let root = server.workspace_root_path@;
            &&& n == 0 && slice.include_built_in_slice_files ==> out == seq![
                root,
                server.built_in_slice_path@,
            ]
            &&& n == 0 && !slice.include_built_in_slice_files ==> out == seq![root]
            &&& n > 0 ==> out.len() == n + (if slice.include_built_in_slice_files {
                1int
            } else {
                0int
            })
            &&& n > 0 ==> forall|i: int|
                0 <= i < n ==> {
                    let p = #[trigger] slice.slice_search_paths@[i]@;
                    &&& path_is_absolute(p) ==> out[i] == p
                    &&& !path_is_absolute(p) ==> out[i] == path_joined(root, p)
                }
            &&& slice.include_built_in_slice_files ==> out.last() == server.built_in_slice_path@
        }),
{
    let n = slice.slice_search_paths@.len();
    let out = search_paths(server, slice);
    if n == 0 && slice.include_built_in_slice_files {
        assert(out =~= seq![server.workspace_root_path@, server.built_in_slice_path@]);
    }
}

} // verus!
