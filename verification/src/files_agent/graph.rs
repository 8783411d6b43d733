//! Nodes of the file dependency graph.
use vstd::prelude::*;
use crate::text::{append_chars, append_str, chars_of, file_name, file_name_exec, lines, lines_exec, path_extension, path_extension_exec, starts_with, starts_with_str, string_from, string_of, trim, trim_end_char, trim_end_char_exec, trim_exec, trim_start_pat, trim_start_pat_str, views};
use std::collections::HashMap;

verus! {

/// Classification of the relationship edge between two files in the project.
#[derive(Debug, Clone, Copy, PartialEq, Eq, Structural)]
pub enum EdgeKind {
    /// Module import / dependency.
    Import,
    /// Type or trait inheritance/implementation.
    TypeReference,
    /// Parent/child directory hierarchy.
    ParentDirectory,
    /// Semantic or contextual similarity linkage.
    SemanticLink,
    /// Associated test file.
    TestFor,
}

/// Represents a single file or directory node in the knowledge graph.
#[derive(Debug, Clone)]
pub struct GraphNode {
    pub id: String,
    pub path: String,
    pub label: String,
    pub is_directory: bool,
    pub file_extension: Option<String>,
    pub metadata: HashMap<String, String>,
}

/// The label of a node: its file name, or `/` when the path has none.
pub open spec fn node_label(p: Seq<char>) -> Seq<char> {
    match file_name(p) {
        Some(n) => n,
        None => "/"@,
    }
}

impl GraphNode {
    /// A node for the file or directory at `path`, without metadata.
    pub fn new(path: &str, is_directory: bool) -> (r: Self)
        ensures
            r.id@ == path@,
            r.path@ == path@,
            r.label@ == node_label(path@),
            r.is_directory == is_directory,
            match (r.file_extension, path_extension(path@)) {
                (Some(e), Some(x)) => e@ == x,
                (None, None) => true,
                _ => false,
            },
            r.metadata@.len() == 0,
    {
        let p = chars_of(path);
        let label = match file_name_exec(&p) {
            Some(n) => string_of(&n),
            None => string_from("/"),
        };
        let ext = match path_extension_exec(&p) {
            Some(e) => Some(string_of(&e)),
            None => None,
        };
        GraphNode {
            id: string_from(path),
            path: string_from(path),
            label,
            is_directory,
            file_extension: ext,
            metadata: HashMap::new(),
        }
    }
}

/// The dependency edges that one line of Rust source declares: `mod x;` (or
/// `pub mod x;`) imports the sibling module, `use crate::p;` refers to `p`.
pub open spec fn line_edge(parent: Seq<char>, line: Seq<char>) -> Option<(Seq<char>, EdgeKind)> {
    let t = trim(line);
    if starts_with(t, "mod "@) || starts_with(t, "pub mod "@) {
        let m = trim(trim_end_char(trim_start_pat(trim_start_pat(t, "pub "@), "mod "@), ';'));
        Some((parent + "/"@ + m, EdgeKind::Import))
    } else if starts_with(t, "use crate::"@) {
        let u = trim(trim_end_char(trim_start_pat(t, "use crate::"@), ';'));
        Some(("crate::"@ + u, EdgeKind::TypeReference))
    } else {
        None
    }
}

/// The targets and kinds of the edges of the lines, in order.
pub open spec fn source_edges(parent: Seq<char>, ls: Seq<Seq<char>>) -> Seq<(Seq<char>, EdgeKind)>
    decreases ls.len(),
{
    if ls.len() == 0 {
        seq![]
    } else {
        let prev = source_edges(parent, ls.drop_last());
        match line_edge(parent, ls.last()) {
            Some(e) => prev.push(e),
            None => prev,
        }
    }
}

/// The edges (target and kind) that Rust source `content` declares, for a file
/// whose parent directory is shown as `parent`.
pub fn rust_dependency_edges(parent: &str, content: &str) -> (r: Vec<(String, EdgeKind)>)
    ensures
        r@.map_values(|e: (String, EdgeKind)| (e.0@, e.1)) == source_edges(parent@, lines(content@)),
{
    let c = chars_of(content);
    let ls = lines_exec(&c);
    let ghost lv = views(ls@);
    let mut out: Vec<(String, EdgeKind)> = Vec::new();
    let mut i: usize = 0;
    while i < ls.len()
        invariant
            i <= ls.len(),
            lv == views(ls@),
            lv == lines(content@),
            out@.map_values(|e: (String, EdgeKind)| (e.0@, e.1)) == source_edges(parent@, lv.take(i as int)),
        decreases ls.len() - i,
    {
        assert(lv.take(i + 1).drop_last() =~= lv.take(i as int));
        assert(lv.take(i + 1).last() == ls@[i as int]@);
        let ghost before = out@;
        let t = trim_exec(&ls[i]);
        if starts_with_str(&t, "mod ") || starts_with_str(&t, "pub mod ") {
            let a = trim_start_pat_str(&t, "pub ");
            let b = trim_start_pat_str(&a, "mod ");
            let cc = trim_end_char_exec(&b, ';');
            let m = trim_exec(&cc);
            let mut target = string_from(parent);
            append_str(&mut target, "/");
            append_chars(&mut target, &m);
            out.push((target, EdgeKind::Import));
            assert(out@.map_values(|e: (String, EdgeKind)| (e.0@, e.1)) =~= before.map_values(
                |e: (String, EdgeKind)| (e.0@, e.1),
            ).push((parent@ + "/"@ + m@, EdgeKind::Import)));
        } else if starts_with_str(&t, "use crate::") {
            let a = trim_start_pat_str(&t, "use crate::");
            let cc = trim_end_char_exec(&a, ';');
            let u = trim_exec(&cc);
            let mut target = string_from("crate::");
            append_chars(&mut target, &u);
            out.push((target, EdgeKind::TypeReference));
            assert(out@.map_values(|e: (String, EdgeKind)| (e.0@, e.1)) =~= before.map_values(
                |e: (String, EdgeKind)| (e.0@, e.1),
            ).push(("crate::"@ + u@, EdgeKind::TypeReference)));
        }
        i += 1;
    }
    assert(lv.take(ls.len() as int) =~= lv);
    out
}

/// What `Path::parent` of a path shows (empty when there is no parent).
pub uninterp spec fn parent_display(p: Seq<char>) -> Seq<char>;

/// Calls `Path::parent` and shows the result with `Path::display`, the empty
/// path standing in where there is no parent. The result is named
/// `parent_display`.
#[verifier::external_body]
pub(crate) fn parent_of(path: &str) -> (r: String)
    ensures
        r@ == parent_display(path@),
{
    std::path::Path::new(path).parent().unwrap_or(std::path::Path::new("")).display().to_string()
}

/// The edges (target and kind) that the Rust source `content` of the file at
/// `file_path` declares; module targets sit beside the file.
pub fn extract_rust_dependencies(file_path: &str, content: &str) -> (r: Vec<(String, EdgeKind)>)
    ensures
        r@.map_values(|e: (String, EdgeKind)| (e.0@, e.1)) == source_edges(
            parent_display(file_path@),
            lines(content@),
        ),
{
    let parent = parent_of(file_path);
    rust_dependency_edges(parent.as_str(), content)
}

} // verus!
