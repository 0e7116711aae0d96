use vstd::prelude::*;
use vstd::string::StringExecFns;

verus! {

/// One filesystem object seen by a shallow listing: its base name and
/// whether it is a directory.
pub struct DirectoryEntry {
    pub name: String,
    pub is_directory: bool,
}

/// The display line for one entry of a shallow listing: the base name, with
/// a path-separator marker appended exactly when the entry is a directory.
pub open spec fn listing_line(entry: DirectoryEntry) -> Seq<char> {
    if entry.is_directory {
        entry.name@ + "/"@
    } else {
        entry.name@
    }
}

/// The display lines of a whole listing: one per entry, in order.
pub open spec fn listing_lines(entries: Seq<DirectoryEntry>) -> Seq<Seq<char>> {
    Seq::new(entries.len(), |i: int| listing_line(entries[i]))
}

/// Renders the direct children of a directory: exactly one line per child,
/// each line the child's base name, marker-suffixed iff that child is a
/// directory.  The entries come in whatever order the directory enumeration
/// yielded them, and that order is kept.
pub fn list_lines(entries: &Vec<DirectoryEntry>) -> (lines: Vec<String>)
    ensures
        lines.deep_view() == listing_lines(entries@),
        lines@.len() == entries@.len(),
        forall|i: int| 0 <= i < entries@.len() ==> lines@[i]@ == listing_line(entries@[i]),
{
    let mut lines: Vec<String> = Vec::new();
    let mut i: usize = 0;
    while i < entries.len()
        invariant
            i <= entries@.len(),
            lines@.len() == i,
            forall|k: int| 0 <= k < i ==> lines@[k]@ == listing_line(entries@[k]),
        decreases entries@.len() - i,
    {
        let entry = &entries[i];
        let mut line = entry.name.clone();
        if entry.is_directory {
            line.append("/");
        }
        lines.push(line);
        i = i + 1;
    }
    proof {
        assert(lines.deep_view() =~= listing_lines(entries@));
    }
    lines
}

} // verus!
