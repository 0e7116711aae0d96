use vstd::prelude::*;
use vstd::string::StrSliceExecFns;

verus! {

/// One filesystem object seen during a recursive walk: its base name, which
/// the pattern is held against, and its full path, which a match reports.
pub struct WalkEntry {
    pub base_name: String,
    pub full_path: String,
}

/// `pattern` stands in `text` as a literal substring starting at `at`.
pub open spec fn pattern_at(text: Seq<char>, pattern: Seq<char>, at: int) -> bool {
    0 <= at && at + pattern.len() <= text.len() && text.subrange(at, at + pattern.len())
        == pattern
}

/// `text` contains `pattern` as a literal substring: case-sensitive, no
/// globbing, no regular-expression semantics.
pub open spec fn contains_pattern(text: Seq<char>, pattern: Seq<char>) -> bool {
    exists|at: int| pattern_at(text, pattern, at)
}

/// The full paths of the matching entries: an entry matches when its base
/// name contains the pattern, and each match contributes its full path, in
/// the order the walk visited the entries.
pub open spec fn matched_paths(entries: Seq<WalkEntry>, pattern: Seq<char>) -> Seq<Seq<char>>
    decreases entries.len(),
{
    if entries.len() == 0 {
        Seq::empty()
    } else {
        let prefix = matched_paths(entries.drop_last(), pattern);
        if contains_pattern(entries.last().base_name@, pattern) {
            prefix.push(entries.last().full_path@)
        } else {
            prefix
        }
    }
}

/// `path` is the full path of some visited entry whose base name contains
/// the pattern.
pub open spec fn is_match_path(entries: Seq<WalkEntry>, pattern: Seq<char>, path: Seq<char>) -> bool {
    exists|i: int|
        #![trigger entries[i]]
        0 <= i < entries.len() && entries[i].full_path@ == path && contains_pattern(
            entries[i].base_name@,
            pattern,
        )
}

/// Whether `pattern` stands at position `at` of `text`, character for
/// character.
fn pattern_stands_at(text: &str, pattern: &str, at: usize) -> (found: bool)
    requires
        at + pattern@.len() <= text@.len(),
    ensures
        found == pattern_at(text@, pattern@, at as int),
{
    let m: usize = pattern.unicode_len();
    let n: usize = text.unicode_len();
    let mut j: usize = 0;
    while j < m
        invariant
            j <= m,
            m == pattern@.len(),
            n == text@.len(),
            at + m <= n,
            forall|k: int| 0 <= k < j ==> text@[at + k] == pattern@[k],
        decreases m - j,
    {
        if text.get_char(at + j) != pattern.get_char(j) {
            proof {
                let sub = text@.subrange(at as int, at + m);
                assert(sub[j as int] == text@[at + j]);
                assert(sub != pattern@);
            }
            return false;
        }
        j = j + 1;
    }
    proof {
        assert(text@.subrange(at as int, at + m) =~= pattern@);
    }
    true
}

/// Whether `text` contains the search text as a literal substring.  An empty
/// pattern matches every text.
pub fn name_contains(text: &str, pattern: &str) -> (found: bool)
    ensures
        found == contains_pattern(text@, pattern@),
{
    let n: usize = text.unicode_len();
    let m: usize = pattern.unicode_len();
    if m == 0 {
        proof {
            assert(text@.subrange(0, 0) =~= pattern@);
            assert(pattern_at(text@, pattern@, 0));
        }
        return true;
    }
    if m > n {
        proof {
            assert(forall|at: int| !pattern_at(text@, pattern@, at));
        }
        return false;
    }
    let mut i: usize = 0;
    while i <= n - m
        invariant
            0 < m <= n,
            n == text@.len(),
            m == pattern@.len(),
            i <= n - m + 1,
            forall|k: int| 0 <= k < i ==> !pattern_at(text@, pattern@, k),
        decreases n - m + 1 - i,
    {
        if pattern_stands_at(text, pattern, i) {
            proof {
                assert(pattern_at(text@, pattern@, i as int));
            }
            return true;
        }
        i = i + 1;
    }
    proof {
        assert(forall|at: int| !pattern_at(text@, pattern@, at));
    }
    false
}

/// Keeps the full path of every entry whose base name contains the search
/// text, in the order the walk yielded the entries.  Entries the walk could
/// not read never reach this function: the walk skips them and goes on.
pub fn search_paths(entries: &Vec<WalkEntry>, pattern: &str) -> (paths: Vec<String>)
    ensures
        paths.deep_view() == matched_paths(entries@, pattern@),
{
    let mut paths: Vec<String> = Vec::new();
    let mut i: usize = 0;
    while i < entries.len()
        invariant
            i <= entries@.len(),
            paths.deep_view() == matched_paths(entries@.take(i as int), pattern@),
        decreases entries@.len() - i,
    {
        let entry = &entries[i];
        if name_contains(entry.base_name.as_str(), pattern) {
            paths.push(entry.full_path.clone());
        }
        proof {
            let taken = entries@.take(i + 1);
            assert(taken.drop_last() =~= entries@.take(i as int));
            assert(taken.last() == entries@[i as int]);
            assert(paths.deep_view() =~= matched_paths(taken, pattern@));
        }
        i = i + 1;
    }
    proof {
        assert(entries@.take(entries@.len() as int) =~= entries@);
    }
    paths
}

/// Soundness: every path the search returns is the full path of some visited
/// entry whose base name contains the pattern.
pub proof fn lemma_search_sound(entries: Seq<WalkEntry>, pattern: Seq<char>)
    ensures
        forall|j: int|
            0 <= j < matched_paths(entries, pattern).len() ==> is_match_path(
                entries,
                pattern,
                #[trigger] matched_paths(entries, pattern)[j],
            ),
    decreases entries.len(),
{
    if entries.len() > 0 {
        let rest = entries.drop_last();
        lemma_search_sound(rest, pattern);
        let result = matched_paths(entries, pattern);
        let prefix = matched_paths(rest, pattern);
        assert forall|j: int| 0 <= j < result.len() implies is_match_path(
            entries,
            pattern,
            result[j],
        ) by {
            if j < prefix.len() {
                assert(is_match_path(rest, pattern, prefix[j]));
                let i = choose|i: int|
                    #![trigger rest[i]]
                    0 <= i < rest.len() && rest[i].full_path@ == prefix[j] && contains_pattern(
                        rest[i].base_name@,
                        pattern,
                    );
                assert(entries[i] == rest[i]);
                assert(result[j] == prefix[j]);
            } else {
                assert(result[j] == entries.last().full_path@);
                assert(entries[entries.len() - 1] == entries.last());
            }
        }
    }
}

/// Completeness: every visited entry whose base name contains the pattern
/// has its full path in the search result.
pub proof fn lemma_search_complete(entries: Seq<WalkEntry>, pattern: Seq<char>)
    ensures
        forall|i: int|
            0 <= i < entries.len() && contains_pattern(
                (#[trigger] entries[i]).base_name@,
                pattern,
            ) ==> matched_paths(entries, pattern).contains(entries[i].full_path@),
    decreases entries.len(),
{
    if entries.len() > 0 {
        let rest = entries.drop_last();
        lemma_search_complete(rest, pattern);
        let result = matched_paths(entries, pattern);
        let prefix = matched_paths(rest, pattern);
        assert forall|i: int|
            0 <= i < entries.len() && contains_pattern(
                entries[i].base_name@,
                pattern,
            ) implies result.contains(entries[i].full_path@) by {
            if i < entries.len() - 1 {
                assert(rest[i] == entries[i]);
                assert(prefix.contains(rest[i].full_path@));
                let j = choose|j: int| 0 <= j < prefix.len() && prefix[j] == rest[i].full_path@;
                assert(result[j] == prefix[j]);
            } else {
                assert(entries[i] == entries.last());
                assert(result[result.len() - 1] == entries.last().full_path@);
            }
        }
    }
}

/// No duplicates: when the walk hands over pairwise-distinct full paths, the
/// search result repeats none of them — together with completeness, each
/// matching entry appears exactly once.
pub proof fn lemma_search_no_duplicates(entries: Seq<WalkEntry>, pattern: Seq<char>)
    requires
        forall|i1: int, i2: int|
            #![trigger entries[i1], entries[i2]]
            0 <= i1 < i2 < entries.len() ==> entries[i1].full_path@ != entries[i2].full_path@,
    ensures
        forall|j1: int, j2: int|
            #![trigger matched_paths(entries, pattern)[j1], matched_paths(entries, pattern)[j2]]
            0 <= j1 < j2 < matched_paths(entries, pattern).len() ==> matched_paths(
                entries,
                pattern,
            )[j1] != matched_paths(entries, pattern)[j2],
    decreases entries.len(),
{
    if entries.len() > 0 {
        let rest = entries.drop_last();
        lemma_search_no_duplicates(rest, pattern);
        lemma_search_sound(rest, pattern);
        let result = matched_paths(entries, pattern);
        let prefix = matched_paths(rest, pattern);
        assert forall|j1: int, j2: int|
            0 <= j1 < j2 < result.len() implies result[j1] != result[j2] by {
            if j2 < prefix.len() {
                assert(result[j1] == prefix[j1]);
                assert(result[j2] == prefix[j2]);
            } else {
                assert(result[j2] == entries.last().full_path@);
                assert(result[j1] == prefix[j1]);
                assert(is_match_path(rest, pattern, prefix[j1]));
                let i = choose|i: int|
                    #![trigger rest[i]]
                    0 <= i < rest.len() && rest[i].full_path@ == prefix[j1] && contains_pattern(
                        rest[i].base_name@,
                        pattern,
                    );
                assert(entries[i] == rest[i]);
                assert(entries[i].full_path@ != entries[entries.len() - 1].full_path@);
            }
        }
    }
}

/// An empty pattern stands at the start of every text.
pub proof fn lemma_empty_pattern_matches(text: Seq<char>)
    ensures
        contains_pattern(text, Seq::<char>::empty()),
{
    assert(text.subrange(0, 0) =~= Seq::<char>::empty());
    assert(pattern_at(text, Seq::<char>::empty(), 0));
}

/// An empty pattern matches every entry: the search returns every visited
/// path, in visitation order.
pub proof fn lemma_empty_pattern_returns_all(entries: Seq<WalkEntry>)
    ensures
        matched_paths(entries, Seq::<char>::empty()) == entries.map_values(
            |entry: WalkEntry| entry.full_path@,
        ),
    decreases entries.len(),
{
    let paths = |entry: WalkEntry| entry.full_path@;
    if entries.len() == 0 {
        assert(entries.map_values(paths) =~= Seq::<Seq<char>>::empty());
    } else {
        let rest = entries.drop_last();
        lemma_empty_pattern_returns_all(rest);
        lemma_empty_pattern_matches(entries.last().base_name@);
        assert(matched_paths(entries, Seq::<char>::empty()) == matched_paths(
            rest,
            Seq::<char>::empty(),
        ).push(entries.last().full_path@));
        assert(entries.map_values(paths) =~= rest.map_values(paths).push(
            entries.last().full_path@,
        ));
    }
}

} // verus!
