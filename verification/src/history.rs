//! The list of past uploads, newest first and bounded in length.

use vstd::prelude::*;

use crate::text::str_eq;
use crate::upload::SourceFile;

verus! {

/// `std::sync::Mutex`, as a type that Verus carries through unopened.
#[verifier::external_type_specification]
#[verifier::external_body]
#[verifier::reject_recursive_types(T)]
pub struct ExMutex<T: ?Sized>(std::sync::Mutex<T>);

/// `Mutex::new` of the standard library: a new, unlocked mutex around the
/// value.
pub assume_specification<T>[ std::sync::Mutex::<T>::new ](value: T) -> std::sync::Mutex<T>;

/// The lock that serialises every read-modify-write of the stored
/// history, so that two uploads that end together both leave their entry.
pub struct HistoryMutex(pub std::sync::Mutex<()>);

impl HistoryMutex {
    /// A new, unlocked lock.
    pub fn new() -> HistoryMutex {
        HistoryMutex(std::sync::Mutex::new(()))
    }
}

/// The most entries that the history keeps.
pub const MAX_HISTORY: usize = 200;

/// One upload that succeeded.
#[derive(Debug, PartialEq, Eq)]
pub struct HistoryEntry {
    /// The base name of the uploaded file.
    pub file: String,
    pub url: String,
    /// Local time of the upload, `YYYY-MM-DD HH:MM:SS`.
    pub datetime: String,
    /// The mode tag that the upload was asked with.
    pub mode: String,
}

/// The name under which a file is recorded where its path has no last
/// component.
pub open spec fn unnamed() -> Seq<char> {
    "unknown"@
}

/// Makes the record of an upload that succeeded.
pub fn history_record(file: &SourceFile, url: &str, datetime: &str, mode: &str) -> (entry:
    HistoryEntry)
    ensures
        entry.file@ == match file.file_name {
            Some(name) => name@,
            None => unnamed(),
        },
        entry.url@ == url@,
        entry.datetime@ == datetime@,
        entry.mode@ == mode@,
{
    let name = match &file.file_name {
        Some(name) => name.as_str(),
        None => "unknown",
    };
    HistoryEntry {
        file: name.to_owned(),
        url: url.to_owned(),
        datetime: datetime.to_owned(),
        mode: mode.to_owned(),
    }
}

/// One stored entry of the history: what is stored, which is the store's
/// own matter, and the URL by which the entry is found again. An entry
/// that names no URL has the empty one.
#[derive(Debug, PartialEq, Eq)]
pub struct HistoryItem<T> {
    pub url: String,
    pub record: T,
}

/// The history after `entry` was added: the entry first, then the earlier
/// ones in their order, cut after `MAX_HISTORY` entries.
pub open spec fn with_entry<T>(history: Seq<HistoryItem<T>>, entry: HistoryItem<T>) -> Seq<
    HistoryItem<T>,
> {
    let all = seq![entry] + history;
    if all.len() > MAX_HISTORY {
        all.take(MAX_HISTORY as int)
    } else {
        all
    }
}

/// The history never grows beyond its bound, and the newest entry is
/// always kept, in front.
pub proof fn lemma_history_bounded<T>(history: Seq<HistoryItem<T>>, entry: HistoryItem<T>)
    ensures
        with_entry(history, entry).len() <= MAX_HISTORY,
        with_entry(history, entry).len() == if history.len() < MAX_HISTORY {
            history.len() + 1
        } else {
            MAX_HISTORY as nat
        },
        with_entry(history, entry)[0] == entry,
        forall|i: int|
            1 <= i < with_entry(history, entry).len() ==> with_entry(history, entry)[i]
                == history[i - 1],
{
}

/// Puts `entry` in front and drops the oldest entries beyond the bound.
pub fn add_history<T>(history: &mut Vec<HistoryItem<T>>, entry: HistoryItem<T>)
    ensures
        final(history)@ == with_entry(old(history)@, entry),
{
    history.insert(0, entry);
    history.truncate(MAX_HISTORY);
}

/// The history without the entries of a URL.
pub open spec fn without_url<T>(history: Seq<HistoryItem<T>>, url: Seq<char>) -> Seq<
    HistoryItem<T>,
> {
    history.filter(|e: HistoryItem<T>| e.url@ != url)
}

/// Empties the history.
pub fn clear_history<T>(history: &mut Vec<HistoryItem<T>>)
    ensures
        final(history)@ == Seq::<HistoryItem<T>>::empty(),
{
    history.clear();
}

/// Removes every entry whose URL is `url`; the others keep their order.
pub fn delete_history_entry<T>(history: &mut Vec<HistoryItem<T>>, url: &str)
    ensures
        final(history)@ == without_url(old(history)@, url@),
{
    let ghost all = history@;
    let ghost keep = |e: HistoryItem<T>| e.url@ != url@;
    let ghost mut seen: int = 0;
    let mut i: usize = 0;
    proof {
        reveal(Seq::filter);
    }
    while i < history.len()
        invariant
            i <= history@.len(),
            0 <= seen <= all.len(),
            history@.len() - i == all.len() - seen,
            history@.take(i as int) == all.take(seen).filter(keep),
            history@.skip(i as int) == all.skip(seen),
            keep == |e: HistoryItem<T>| e.url@ != url@,
        decreases history@.len() - i,
    {
        proof {
            reveal(Seq::filter);
            assert(all[seen] == all.skip(seen)[0]);
            assert(all.take(seen + 1).drop_last() =~= all.take(seen));
            assert(all.skip(seen).skip(1) =~= all.skip(seen + 1));
        }
        if str_eq(history[i].url.as_str(), url) {
            let _ = history.remove(i);
        } else {
            i = i + 1;
        }
        proof {
            seen = seen + 1;
        }
    }
    proof {
        assert(all.take(seen) =~= all);
    }
}

} // verus!
