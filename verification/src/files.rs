//! Choosing the data file: the regular file with the recognised extension
//! that was modified last.

use vstd::prelude::*;
use vstd::string::StrSliceExecFns;

verus! {

/// One entry of the data directory, as its metadata describe it.
pub struct FileEntry {
    /// The file name, without the directory.
    pub name: String,
    /// Whether the entry is a regular file.
    pub is_file: bool,
    /// When the entry was modified last, in nanoseconds since the epoch.
    pub modified: i128,
}

/// The extension of a data file.
pub open spec fn extension() -> Seq<char> {
    seq!['.', 'c', 's', 'v']
}

/// `name` ends with the extension of a data file.
pub open spec fn is_data_name(name: Seq<char>) -> bool {
    name.len() >= 4 && name.subrange(name.len() - 4, name.len() as int) == extension()
}

/// The entry may be chosen: a regular file with the recognised extension.
pub open spec fn eligible(entry: FileEntry) -> bool {
    entry.is_file && is_data_name(entry.name@)
}

/// Entry `at` is the newest eligible one: none is newer, and none that
/// follows it is as new.
pub open spec fn is_newest(entries: Seq<FileEntry>, at: int) -> bool {
    &&& 0 <= at < entries.len()
    &&& eligible(entries[at])
    &&& forall|j: int|
        0 <= j < entries.len() && eligible(#[trigger] entries[j]) ==> entries[j].modified
            <= entries[at].modified
    &&& forall|j: int|
        at < j < entries.len() && eligible(#[trigger] entries[j]) ==> entries[j].modified
            < entries[at].modified
}

/// No entry may be chosen.
pub open spec fn none_eligible(entries: Seq<FileEntry>) -> bool {
    forall|j: int| 0 <= j < entries.len() ==> !eligible(#[trigger] entries[j])
}

/// The position of the newest eligible entry, if any entry is eligible.
pub open spec fn newest_of(entries: Seq<FileEntry>) -> Option<int> {
    if exists|at: int| is_newest(entries, at) {
        Some(choose|at: int| is_newest(entries, at))
    } else {
        None
    }
}

/// Among the first `upto` entries, if one is eligible, one is the newest.
proof fn lemma_some_entry_is_newest(entries: Seq<FileEntry>, upto: nat)
    requires
        upto <= entries.len(),
    ensures
        (exists|j: int| 0 <= j < upto && eligible(#[trigger] entries[j])) ==> exists|at: int|
            is_newest(entries.take(upto as int), at),
    decreases upto,
{
    if upto > 0 {
        lemma_some_entry_is_newest(entries, (upto - 1) as nat);
        let seen = entries.take(upto - 1);
        let next = entries.take(upto as int);
        let last = upto - 1;
        assert(forall|j: int| 0 <= j < last ==> #[trigger] next[j] == seen[j]);
        assert(next[last] == entries[last]);
        if exists|j: int| 0 <= j < last && eligible(#[trigger] entries[j]) {
            let at = choose|at: int| is_newest(seen, at);
            if eligible(entries[last]) && entries[at].modified <= entries[last].modified {
                assert(is_newest(next, last));
            } else {
                assert(is_newest(next, at));
            }
        } else if eligible(entries[last]) {
            assert(is_newest(next, last));
        }
    }
}

/// The newest eligible entry exists exactly when some entry is eligible,
/// and no other entry is the newest.
pub proof fn lemma_newest(entries: Seq<FileEntry>)
    ensures
        match newest_of(entries) {
            Some(at) => is_newest(entries, at) && forall|other: int|
                is_newest(entries, other) ==> other == at,
            None => none_eligible(entries),
        },
{
    if !none_eligible(entries) {
        lemma_some_entry_is_newest(entries, entries.len());
        assert(entries.take(entries.len() as int) =~= entries);
    }
}

/// Tells whether `name` ends with the extension of a data file.
pub fn data_name(name: &str) -> (b: bool)
    ensures
        b == is_data_name(name@),
{
    let n: usize = name.unicode_len();
    if n < 4 {
        return false;
    }
    let b: bool = name.get_char(n - 4) == '.' && name.get_char(n - 3) == 'c' && name.get_char(
        n - 2,
    ) == 's' && name.get_char(n - 1) == 'v';
    proof {
        let tail = name@.subrange(n - 4, n as int);
        assert(tail[0] == name@[n - 4]);
        assert(tail[1] == name@[n - 3]);
        assert(tail[2] == name@[n - 2]);
        assert(tail[3] == name@[n - 1]);
        if b {
            assert(tail =~= extension());
        }
    }
    b
}

/// Tells whether the entry may be chosen.
pub fn is_eligible(entry: &FileEntry) -> (b: bool)
    ensures
        b == eligible(*entry),
{
    entry.is_file && data_name(entry.name.as_str())
}

/// Chooses the data file among the entries of the directory: the position
/// of the eligible entry that was modified last, the later one where two
/// are equally new; `None` where no entry is eligible.
pub fn get_newest_csv_file(entries: &Vec<FileEntry>) -> (newest: Option<usize>)
    ensures
        match newest {
            Some(at) => is_newest(entries@, at as int) && newest_of(entries@) == Some(at as int),
            None => none_eligible(entries@) && newest_of(entries@) is None,
        },
{
    proof {
        lemma_newest(entries@);
    }
    let mut newest: Option<usize> = None;
    let mut i: usize = 0;
    while i < entries.len()
        invariant
            i <= entries.len(),
            match newest {
                Some(at) => at < i && is_newest(entries@.take(i as int), at as int),
                None => forall|j: int| 0 <= j < i ==> !eligible(#[trigger] entries[j]),
            },
        decreases entries.len() - i,
    {
        let ghost seen = entries@.take(i as int);
        let ghost next = entries@.take(i + 1);
        assert(forall|j: int| 0 <= j < i ==> #[trigger] next[j] == seen[j]);
        assert(next[i as int] == entries[i as int]);
        if is_eligible(&entries[i]) {
            let take = match newest {
                Some(at) => entries[at].modified <= entries[i].modified,
                None => true,
            };
            if take {
                newest = Some(i);
            }
        }
        assert(match newest {
            Some(at) => is_newest(next, at as int),
            None => true,
        });
        i = i + 1;
    }
    assert(entries@.take(i as int) =~= entries@);
    newest
}

} // verus!
