//! Paths as menu items.
use std::path::PathBuf;
use vstd::prelude::*;
use crate::menu::Item;
use crate::surface::{joined, Row};

verus! {

/// `std::path::PathBuf`: a path of the file system. Verus does not look inside.
#[verifier::external_type_specification]
#[verifier::external_body]
pub struct ExPathBuf(PathBuf);

/// What is left of `path` once the leading `base` is taken away; `None` where `path` does
/// not begin with `base`.
pub uninterp spec fn without_prefix(path: PathBuf, base: PathBuf) -> Option<PathBuf>;

/// The text of `path`, with a replacement character for whatever is not Unicode.
pub uninterp spec fn path_text(path: PathBuf) -> Seq<char>;

/// `std::path::Path::strip_prefix`: the path without the leading `base`, and `None` where
/// the path does not begin with `base`. The contract only gives the result a name,
/// [`without_prefix`].
#[verifier::external_body]
fn strip_prefix(path: &PathBuf, base: &PathBuf) -> (rest: Option<PathBuf>)
    ensures
        rest == without_prefix(*path, *base),
{
    path.strip_prefix(base).ok().map(PathBuf::from)
}

/// `std::path::Path::to_string_lossy`: the path as text. The contract only gives the text
/// a name, [`path_text`].
#[verifier::external_body]
fn to_string_lossy(path: &PathBuf) -> (text: String)
    ensures
        text@ == path_text(*path),
{
    path.to_string_lossy().into_owned()
}

/// The text under which `path` is shown where paths are shown relative to `root`: the path
/// without the leading `root`, and the whole path where it does not lie under `root`.
pub open spec fn label(path: PathBuf, root: PathBuf) -> Seq<char> {
    match without_prefix(path, root) {
        Some(rest) => path_text(rest),
        None => path_text(path),
    }
}

/// The text under which `path` is shown relative to `root`.
pub fn relative_label(path: &PathBuf, root: &PathBuf) -> (text: String)
    ensures
        text@ == label(*path, *root),
{
    match strip_prefix(path, root) {
        Some(rest) => to_string_lossy(&rest),
        None => to_string_lossy(path),
    }
}

/// A path is shown as one cell: the path relative to the root that comes as `Data`.
impl Item for PathBuf {
    type Data = PathBuf;

    open spec fn row(&self, root_path: &PathBuf) -> Seq<Seq<char>> {
        seq![label(*self, *root_path)]
    }

    fn format(&self, root_path: &PathBuf) -> (row: Row) {
        Row::single(relative_label(self, root_path))
    }

    open spec fn sort_key(&self, root_path: &PathBuf) -> Seq<char> {
        label(*self, *root_path)
    }

    fn sort_text(&self, root_path: &PathBuf) -> (text: String) {
        relative_label(self, root_path)
    }

    open spec fn filter_key(&self, root_path: &PathBuf) -> Seq<char> {
        label(*self, *root_path)
    }

    fn filter_text(&self, root_path: &PathBuf) -> (text: String) {
        relative_label(self, root_path)
    }
}

/// The text of a path's row is its label.
pub proof fn lemma_path_row_text(path: PathBuf, root: PathBuf)
    ensures
        joined(path.row(&root)) == label(path, root),
{
    let cells = path.row(&root);
    assert(cells.drop_last() =~= Seq::empty());
    assert(joined(cells.drop_last()) =~= Seq::empty());
    assert(joined(cells) =~= label(path, root));
}

} // verus!
