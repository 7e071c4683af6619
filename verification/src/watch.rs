//! Watching the file that is shown, to reload it when it changes.

use crate::paths::{
    entry_of, file_name_bytes, is_entry_name, law_entry_keeps_its_name, path_buf_bytes, path_bytes,
    path_file_name,
};
use crate::text::{utf8_lossy, utf8_lossy_text};
use std::path::{Path, PathBuf};
use vstd::prelude::*;
use vstd::string::*;

verus! {

/// The name under which a file is watched and shown: the last component of
/// its path.
pub fn watched_name(path: &Path) -> (name: Result<Vec<u8>, String>)
    ensures
        match file_name_bytes(path_bytes(path)) {
            Some(bytes) => name matches Ok(n) && n@ == bytes,
            None => name matches Err(m) && m@ == "Path does not have a last component??"@,
        },
{
    match path_file_name(path) {
        Some(name) => Ok(name),
        None => Err("Path does not have a last component??".to_owned()),
    }
}

/// The title of the screen: the name of the file.
pub fn title(name: &Vec<u8>) -> (text: String)
    ensures
        text@ == utf8_lossy_text(name@),
{
    utf8_lossy(name)
}

/// What happened to a file.
#[derive(Debug, Clone, Copy, PartialEq, Eq, Structural)]
pub enum ChangeKind {
    /// Something unknown
    Any,
    /// It was opened, read or closed
    Access,
    /// It came into being
    Create,
    /// It changed, or its name did
    Modify,
    /// It went away
    Remove,
    /// Something else
    Other,
}

/// A change in the directory of the file.
pub struct Change {
    /// What happened
    pub kind: ChangeKind,
    /// The files that it happened to
    pub paths: Vec<PathBuf>,
}

/// What went wrong with the file. What the watcher complains of is an `N`.
pub enum WatchError<N> {
    /// It cannot be watched
    Notify(N),
    /// It cannot be shown
    Converting(String),
}

/// Whether one of these paths ends in `name`.
pub open spec fn one_is_named(paths: Seq<PathBuf>, name: Seq<u8>) -> bool {
    exists|i: int|
        0 <= i < paths.len() && file_name_bytes(path_buf_bytes(&#[trigger] paths[i])) == Some(name)
}

/// Whether two rows of bytes are the same.
fn same_bytes(a: &Vec<u8>, b: &Vec<u8>) -> (equal: bool)
    ensures
        equal == (a@ == b@),
{
    if a.len() != b.len() {
        return false;
    }
    let mut i: usize = 0;
    while i < a.len()
        invariant
            i <= a.len(),
            a.len() == b.len(),
            forall|j: int| 0 <= j < i ==> a@[j] == b@[j],
        decreases a.len() - i,
    {
        if a[i] != b[i] {
            return false;
        }
        i = i + 1;
    }
    assert(a@ == b@);
    true
}

/// Whether one of these paths ends in `name`.
fn is_one_named(paths: &Vec<PathBuf>, name: &Vec<u8>) -> (found: bool)
    ensures
        found == one_is_named(paths@, name@),
{
    let mut i: usize = 0;
    while i < paths.len()
        invariant
            i <= paths.len(),
            forall|j: int|
                0 <= j < i ==> file_name_bytes(path_buf_bytes(&#[trigger] paths@[j])) != Some(name@),
        decreases paths.len() - i,
    {
        if let Some(last) = path_file_name(paths[i].as_path()) {
            if same_bytes(&last, name) {
                assert(file_name_bytes(path_buf_bytes(&paths@[i as int])) == Some(name@));
                return true;
            }
        }
        i = i + 1;
    }
    false
}

/// What is known of the file, given that it was `before` what the watcher now
/// tells. A complaint of the watcher and a deletion are errors; that the file
/// was only looked at, or that something happened to its neighbors, means
/// nothing; every other change clears the way.
pub open spec fn is_known_after<N>(
    known: Result<(), WatchError<N>>,
    before: Result<(), WatchError<N>>,
    event: Result<Change, N>,
    name: Seq<u8>,
) -> bool {
    match event {
        Err(e) => known == Err::<(), WatchError<N>>(WatchError::Notify(e)),
        Ok(change) => if !concerns(change, name) {
            known == before
        } else if change.kind == ChangeKind::Remove {
            known matches Err(WatchError::Converting(m)) && m@ == "File was deleted"@
        } else {
            known is Ok
        },
    }
}

/// Whether a change means anything to the file.
pub open spec fn concerns(change: Change, name: Seq<u8>) -> bool {
    one_is_named(change.paths@, name) && change.kind != ChangeKind::Access
}

/// What is to be done once a file has stayed as it is for a while.
pub enum Settled<N> {
    /// Reload it
    Reload,
    /// Tell the user what is wrong with it
    Report(WatchError<N>),
}

/// What a watcher remembers: how things stand with the file.
pub struct Watch<N> {
    /// The name of the file
    pub name: Vec<u8>,
    /// What is wrong with it, if anything is
    pub last: Result<(), WatchError<N>>,
}

impl<N> Watch<N> {
    /// A watch over a file with which all is well.
    pub fn new(name: Vec<u8>) -> (watch: Self)
        ensures
            watch.name == name,
            watch.last is Ok,
    {
        Watch { name, last: Ok(()) }
    }

    /// Takes in what the watcher tells. Returns whether it means anything, so
    /// that the wait for the file to settle begins anew.
    pub fn take(&mut self, event: Result<Change, N>) -> (matters: bool)
        ensures
            final(self).name == old(self).name,
            is_known_after(final(self).last, old(self).last, event, old(self).name@),
            matters == match event {
                Err(_) => true,
                Ok(change) => concerns(change, old(self).name@),
            },
    {
        match event {
            Err(e) => {
                self.last = Err(WatchError::Notify(e));
                true
            },
            Ok(change) => {
                if !is_one_named(&change.paths, &self.name) {
                    return false;
                }
                match change.kind {
                    ChangeKind::Access => return false,
                    ChangeKind::Remove => {
                        self.last = Err(WatchError::Converting("File was deleted".to_owned()));
                    },
                    ChangeKind::Other | ChangeKind::Any | ChangeKind::Create
                    | ChangeKind::Modify => {
                        self.last = Ok(());
                    },
                }
                true
            },
        }
    }

    /// The file has stayed as it is for a while: what is to be done. The
    /// watch forgets what was wrong with it.
    pub fn settle(&mut self) -> (outcome: Settled<N>)
        ensures
            final(self).name == old(self).name,
            final(self).last is Ok,
            outcome == match old(self).last {
                Ok(_) => Settled::<N>::Reload,
                Err(e) => Settled::<N>::Report(e),
            },
    {
        let mut last = Ok(());
        std::mem::swap(&mut last, &mut self.last);
        match last {
            Ok(()) => Settled::Reload,
            Err(e) => Settled::Report(e),
        }
    }
}

/// Only the last event that means anything decides: whatever was known
/// before it makes no difference.
pub proof fn law_last_event_decides<N>(
    known: Result<(), WatchError<N>>,
    other: Result<(), WatchError<N>>,
    before: Result<(), WatchError<N>>,
    other_before: Result<(), WatchError<N>>,
    event: Result<Change, N>,
    name: Seq<u8>,
)
    requires
        event matches Ok(change) ==> concerns(change, name),
        is_known_after(known, before, event, name),
        is_known_after(other, other_before, event, name),
    ensures
        known is Ok == other is Ok,
        known matches Err(WatchError::Notify(e)) ==> other == Err::<(), WatchError<N>>(
            WatchError::Notify(e),
        ),
        known matches Err(WatchError::Converting(m)) ==> (other matches Err(
            WatchError::Converting(n),
        ) && n@ == m@),
{
}

/// A file that is deleted and at once written anew is reloaded, as if nothing
/// had gone wrong.
pub proof fn law_rewritten_file_is_reloaded<N>(
    before: Result<(), WatchError<N>>,
    deleted: Result<(), WatchError<N>>,
    known: Result<(), WatchError<N>>,
    removal: Change,
    creation: Change,
    name: Seq<u8>,
)
    requires
        removal.kind == ChangeKind::Remove,
        creation.kind == ChangeKind::Create,
        concerns(removal, name),
        concerns(creation, name),
        is_known_after(deleted, before, Ok::<Change, N>(removal), name),
        is_known_after(known, deleted, Ok::<Change, N>(creation), name),
    ensures
        deleted is Err,
        known is Ok,
{
}

/// Any path of a change can be the one that counts: the first, the last, or
/// the only one. That a file is only looked at never counts, and neither does
/// a change to other files alone.
pub proof fn law_any_path_of_a_change_counts(change: Change, name: Seq<u8>, i: int)
    requires
        0 <= i < change.paths@.len(),
    ensures
        change.kind != ChangeKind::Access && file_name_bytes(path_buf_bytes(&change.paths@[i]))
            == Some(name) ==> concerns(change, name),
        change.kind == ChangeKind::Access ==> !concerns(change, name),
        (forall|j: int|
            0 <= j < change.paths@.len() ==> file_name_bytes(
                path_buf_bytes(&#[trigger] change.paths@[j]),
            ) != Some(name)) ==> !concerns(change, name),
{
}

/// A change of one file counts exactly where that file has the watched name,
/// and a change of none never does.
pub proof fn law_change_of_one_file(change: Change, name: Seq<u8>)
    requires
        change.kind != ChangeKind::Access,
    ensures
        change.paths@.len() == 1 ==> (concerns(change, name) <==> file_name_bytes(
            path_buf_bytes(&change.paths@[0]),
        ) == Some(name)),
        change.paths@.len() == 0 ==> !concerns(change, name),
{
    if change.paths@.len() == 1 && file_name_bytes(path_buf_bytes(&change.paths@[0])) == Some(
        name,
    ) {
        law_any_path_of_a_change_counts(change, name, 0);
    }
}

/// In which order a change names its files makes no difference, nor which
/// others it names besides.
pub proof fn law_order_of_paths_does_not_matter(a: Change, b: Change, name: Seq<u8>)
    requires
        (a.kind == ChangeKind::Access) == (b.kind == ChangeKind::Access),
        forall|i: int|
            0 <= i < a.paths@.len() ==> b.paths@.contains(#[trigger] a.paths@[i]),
    ensures
        concerns(a, name) ==> concerns(b, name),
{
    if concerns(a, name) {
        let i = choose|i: int|
            0 <= i < a.paths@.len() && file_name_bytes(path_buf_bytes(&#[trigger] a.paths@[i]))
                == Some(name);
        let j = choose|j: int| 0 <= j < b.paths@.len() && b.paths@[j] == a.paths@[i];
        law_any_path_of_a_change_counts(b, name, j);
    }
}

/// The PDF as an entry of its directory, wherever that is: its change counts,
/// and the change of an entry of another name does not.
pub proof fn law_pdf_is_known_by_its_name(
    change: Change,
    dir: Seq<u8>,
    entry: Seq<u8>,
    name: Seq<u8>,
)
    requires
        change.kind != ChangeKind::Access,
        change.paths@.len() == 1,
        path_buf_bytes(&change.paths@[0]) == entry_of(dir, entry),
        is_entry_name(entry),
    ensures
        concerns(change, name) <==> entry == name,
{
    law_entry_keeps_its_name(dir, entry);
    law_change_of_one_file(change, name);
}

/// What an event that counts leaves behind: a deletion is an error that says
/// so, a complaint of the watcher is that complaint, and every other change
/// means that all is well, whatever was known before.
pub proof fn law_what_a_change_means<N>(
    known: Result<(), WatchError<N>>,
    before: Result<(), WatchError<N>>,
    change: Change,
    name: Seq<u8>,
    i: int,
)
    requires
        is_known_after(known, before, Ok::<Change, N>(change), name),
        0 <= i < change.paths@.len(),
        file_name_bytes(path_buf_bytes(&change.paths@[i])) == Some(name),
    ensures
        change.kind == ChangeKind::Remove <==> (change.kind != ChangeKind::Access && known is Err),
        change.kind == ChangeKind::Remove ==> (known matches Err(WatchError::Converting(m)) && m@
            == "File was deleted"@),
        change.kind == ChangeKind::Any || change.kind == ChangeKind::Create || change.kind
            == ChangeKind::Modify || change.kind == ChangeKind::Other ==> known is Ok,
        change.kind == ChangeKind::Access ==> known == before,
{
    law_any_path_of_a_change_counts(change, name, i);
}

/// What happens to other files leaves everything as it was, and what the
/// watcher complains of is kept as it is.
pub proof fn law_neighbors_leave_no_trace<N>(
    known: Result<(), WatchError<N>>,
    before: Result<(), WatchError<N>>,
    event: Result<Change, N>,
    name: Seq<u8>,
)
    requires
        is_known_after(known, before, event, name),
    ensures
        event matches Err(e) ==> (known matches Err(WatchError::Notify(kept)) && kept == e),
        event matches Ok(change) ==> (forall|j: int|
            0 <= j < change.paths@.len() ==> file_name_bytes(
                path_buf_bytes(&#[trigger] change.paths@[j]),
            ) != Some(name)) ==> known == before,
{
}

/// The name that is watched is the last component of the path, as it is, and
/// what the title says; a path without one is refused.
pub proof fn law_watched_name_is_the_file_name(
    path: &Path,
    name: Result<Vec<u8>, String>,
    dir: Seq<u8>,
    entry: Seq<u8>,
)
    requires
        call_ensures(watched_name, (path,), name),
    ensures
        name is Ok <==> file_name_bytes(path_bytes(path)) is Some,
        path_bytes(path) == entry_of(dir, entry) && is_entry_name(entry) ==> name is Ok
            && name->Ok_0@ == entry,
        name is Err ==> name->Err_0@ == "Path does not have a last component??"@,
{
    if is_entry_name(entry) {
        law_entry_keeps_its_name(dir, entry);
    }
}

/// A file that has settled is reloaded where all is well with it; else the user
/// is told the very thing that is wrong, once, and it is forgotten.
pub proof fn law_settled_file_is_reloaded_or_reported<N>(
    watch: &mut Watch<N>,
    outcome: Settled<N>,
)
    requires
        call_ensures(Watch::<N>::settle, (watch,), outcome),
    ensures
        outcome is Reload <==> old(watch).last is Ok,
        outcome is Report ==> old(watch).last is Err && outcome->Report_0
            == old(watch).last->Err_0,
        final(watch).last is Ok,
        final(watch).name == old(watch).name,
{
}

/// A change in which the watched file takes part, as the first of the files or
/// as any other, starts the wait for it to settle, unless the file was only
/// looked at. It is then gone if it was removed, and well otherwise.
pub proof fn law_change_of_the_file_is_noticed<N>(
    watch: &mut Watch<N>,
    change: Change,
    matters: bool,
    i: int,
)
    requires
        call_ensures(Watch::<N>::take, (watch, Ok::<Change, N>(change)), matters),
        0 <= i < change.paths@.len(),
        file_name_bytes(path_buf_bytes(&change.paths@[i])) == Some(old(watch).name@),
    ensures
        matters <==> change.kind != ChangeKind::Access,
        change.kind == ChangeKind::Remove ==> final(watch).last is Err,
        matters && change.kind != ChangeKind::Remove ==> final(watch).last is Ok,
        !matters ==> final(watch).last == old(watch).last,
        final(watch).name == old(watch).name,
{
    law_any_path_of_a_change_counts(change, old(watch).name@, i);
}

/// Changes of other files are not noticed; a complaint of the watcher always
/// is, and is kept.
pub proof fn law_other_events_are_told_apart<N>(
    watch: &mut Watch<N>,
    event: Result<Change, N>,
    matters: bool,
)
    requires
        call_ensures(Watch::<N>::take, (watch, event), matters),
    ensures
        event matches Err(e) ==> matters && (final(watch).last matches Err(WatchError::Notify(kept))
            && kept == e),
        event matches Ok(change) ==> (forall|j: int|
            0 <= j < change.paths@.len() ==> file_name_bytes(
                path_buf_bytes(&#[trigger] change.paths@[j]),
            ) != Some(old(watch).name@)) ==> !matters && final(watch).last == old(watch).last,
        final(watch).name == old(watch).name,
{
}

/// A watch begins with the name it is given and with all well, and the title
/// is the text of that name.
pub proof fn law_watch_begins_well<N>(name: Vec<u8>, watch: Watch<N>, text: String)
    requires
        call_ensures(Watch::<N>::new, (name,), watch),
        call_ensures(title, (&name,), text),
    ensures
        watch.name@ == name@,
        watch.last is Ok,
        text@ == utf8_lossy_text(name@),
{
}

} // verus!
