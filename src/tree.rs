//! The snapshot of a directory tree that validation reads.

use vstd::prelude::*;

verus! {

/// One directory: its name, the names of the regular files directly inside
/// it, and its subdirectories, each in enumeration order.
///
/// A directory that could not be listed is represented with no files and no
/// subdirectories. Validation reads a snapshot down to level 7, counting the
/// root as level 1: the files of the results folder inside a seat folder are
/// the deepest content it looks at, so a snapshot must reach that far.
pub struct DirNode {
    pub name: String,
    pub files: Vec<String>,
    pub dirs: Vec<DirNode>,
}

/// What the root path turned out to be.
pub enum RootEntry {
    /// The root is a directory with this content. The node's name is the root
    /// path as the caller wrote it.
    Directory(DirNode),
    /// The root does not exist or is not a directory; the payload is the path.
    Invalid(String),
}

/// The decision taken on a root path before any validation.
#[derive(Clone, Copy, Debug, PartialEq, Eq, Structural)]
pub enum RootCheck {
    NotFound,
    NotADirectory,
    Ready,
}

/// Whether some regular file directly inside `node` has exactly the name `name`.
pub open spec fn has_file_named(node: DirNode, name: Seq<char>) -> bool {
    exists|i: int| 0 <= i < node.files@.len() && (#[trigger] node.files@[i])@ == name
}

/// The index of the first subdirectory of `node` with the name `name`, if any.
pub open spec fn first_dir_named(dirs: Seq<DirNode>, name: Seq<char>) -> Option<int>
    decreases dirs.len(),
{
    if dirs.len() == 0 {
        None
    } else if dirs[0].name@ == name {
        Some(0)
    } else {
        match first_dir_named(dirs.drop_first(), name) {
            Some(i) => Some(i + 1),
            None => None,
        }
    }
}

pub proof fn lemma_first_dir_named(dirs: Seq<DirNode>, name: Seq<char>)
    ensures
        match first_dir_named(dirs, name) {
            Some(i) => 0 <= i < dirs.len() && dirs[i].name@ == name && forall|j: int|
                0 <= j < i ==> dirs[j].name@ != name,
            None => forall|j: int| 0 <= j < dirs.len() ==> dirs[j].name@ != name,
        },
    decreases dirs.len(),
{
    if dirs.len() > 0 {
        lemma_first_dir_named(dirs.drop_first(), name);
        let rest = dirs.drop_first();
        assert forall|j: int| 1 <= j < dirs.len() implies dirs[j] == rest[j - 1] by {}
    }
}

} // verus!
