use vstd::prelude::*;
use vstd::string::StringExecFns;

use crate::buffer::ResultBuffer;
use crate::lister::DirectoryEntry;
use crate::lister::list_lines;
use crate::lister::listing_lines;
use crate::search::WalkEntry;
use crate::search::matched_paths;
use crate::search::search_paths;

verus! {

/// The two user-triggered actions, each dispatched as one independent
/// worker.
pub enum Action {
    /// Open-folder: a shallow listing of the chosen directory.
    Listing,
    /// Search: a recursive walk from the fixed root.
    Search,
}

/// One user request, captured by value into a worker at dispatch time.
pub struct Query {
    pub root_path: String,
    pub pattern: Option<String>,
}

/// The traversal a worker is to run: where it starts and whether it
/// descends.
pub struct TraversalPlan {
    pub root: String,
    pub recursive: bool,
}

/// Which traversal each action asks for.  A listing starts at the directory
/// the query names and stays shallow; a search always starts at the
/// filesystem root and descends without a depth limit, whatever directory
/// is currently browsed.
pub fn plan_traversal(action: &Action, query: &Query) -> (plan: TraversalPlan)
    ensures
        plan.recursive == (action is Search),
        action is Listing ==> plan.root@ == query.root_path@,
        action is Search ==> plan.root@ == "/"@,
{
    match action {
        Action::Listing => TraversalPlan { root: query.root_path.clone(), recursive: false },
        Action::Search => TraversalPlan { root: String::from_str("/"), recursive: true },
    }
}

/// The pattern a search worker matches with: the query's pattern, or the
/// empty pattern — which matches everything — where the query has none.
pub fn effective_pattern(query: &Query) -> (pattern: String)
    ensures
        match query.pattern {
            Some(chosen) => pattern@ == chosen@,
            None => pattern@ == Seq::<char>::empty(),
        },
{
    match &query.pattern {
        Some(chosen) => chosen.clone(),
        None => String::new(),
    }
}

/// The lines a listing worker publishes: one per entry read, or nothing at
/// all where the directory could not be opened — that failure is swallowed,
/// never surfaced.
pub open spec fn listing_result(read: Option<Vec<DirectoryEntry>>) -> Seq<Seq<char>> {
    match read {
        Some(entries) => listing_lines(entries@),
        None => Seq::empty(),
    }
}

/// A listing worker's whole effect once its directory read has completed
/// (`read` is `None` where the directory could not be opened): render the
/// entries and publish the full result, exactly once, never incrementally.
pub fn listing_task(read: Option<Vec<DirectoryEntry>>, results: &mut ResultBuffer)
    ensures
        final(results)@ == listing_result(read),
        read is None ==> final(results)@ == Seq::<Seq<char>>::empty(),
{
    let lines = match read {
        Some(entries) => list_lines(&entries),
        None => Vec::new(),
    };
    proof {
        assert(read is None ==> lines.deep_view() =~= Seq::<Seq<char>>::empty());
    }
    results.publish(lines);
}

/// A search worker's whole effect once its walk has completed: keep the
/// matching paths and publish the full result, exactly once, never
/// incrementally.
pub fn search_task(entries: Vec<WalkEntry>, pattern: &str, results: &mut ResultBuffer)
    ensures
        final(results)@ == matched_paths(entries@, pattern@),
{
    let paths = search_paths(&entries, pattern);
    results.publish(paths);
}

} // verus!
