//! Keeping the table of tailed files: adding, finding, moving and dropping
//! entries.

use crate::models::positions::{Position, PositionView, PositionsFile, PositionsFileView};
use crate::utils::{file_exists, get_datetime_str, is_datetime};
use vstd::prelude::*;

verus! {

/// The index of the first of `entries` for which `wanted` holds, or the
/// number of entries when it holds for none.
pub open spec fn first_index(
    entries: Seq<PositionView>,
    wanted: spec_fn(PositionView) -> bool,
) -> int
    decreases entries.len(),
{
    if entries.len() == 0 || wanted(entries[0]) {
        0
    } else {
        1 + first_index(entries.skip(1), wanted)
    }
}

/// `first_index` is the least index at which `wanted` holds.
pub proof fn lemma_first_index(entries: Seq<PositionView>, wanted: spec_fn(PositionView) -> bool)
    ensures
        0 <= first_index(entries, wanted) <= entries.len(),
        first_index(entries, wanted) < entries.len() ==> wanted(
            entries[first_index(entries, wanted)],
        ),
        forall|i: int| 0 <= i < first_index(entries, wanted) ==> !wanted(entries[i]),
    decreases entries.len(),
{
    if entries.len() > 0 && !wanted(entries[0]) {
        let rest = entries.skip(1);
        lemma_first_index(rest, wanted);
        assert forall|i: int| 0 <= i < first_index(entries, wanted) implies !wanted(
            entries[i],
        ) by {
            if i > 0 {
                assert(entries[i] == rest[i - 1]);
            }
        }
    }
}

/// An index at which `wanted` holds, with none before it at which it does,
/// is `first_index`; so is the number of entries when it holds nowhere.
pub proof fn lemma_first_index_is(
    entries: Seq<PositionView>,
    wanted: spec_fn(PositionView) -> bool,
    at: int,
)
    requires
        0 <= at <= entries.len(),
        at < entries.len() ==> wanted(entries[at]),
        forall|i: int| 0 <= i < at ==> !wanted(entries[i]),
    ensures
        first_index(entries, wanted) == at,
{
    lemma_first_index(entries, wanted);
    let found = first_index(entries, wanted);
    if found < at {
        assert(!wanted(entries[found]));
    }
}

/// The entries with file identity `id`.
pub open spec fn has_identity(id: u64) -> spec_fn(PositionView) -> bool {
    |p: PositionView| p.file_id == id
}

/// The entries last seen under `path`.
pub open spec fn has_path(path: Seq<char>) -> spec_fn(PositionView) -> bool {
    |p: PositionView| p.file_path == path
}

/// Some entry has file identity `id`.
pub open spec fn has_entry(entries: Seq<PositionView>, id: u64) -> bool {
    first_index(entries, has_identity(id)) < entries.len()
}

/// The first entry with file identity `id`.
pub open spec fn lookup(entries: Seq<PositionView>, id: u64) -> Option<PositionView> {
    if has_entry(entries, id) {
        Some(entries[first_index(entries, has_identity(id))])
    } else {
        None
    }
}

/// No two entries have the same file identity.
pub open spec fn unique_identities(entries: Seq<PositionView>) -> bool {
    forall|i: int, j: int|
        0 <= i < j < entries.len() ==> (#[trigger] entries[i]).file_id != (
        #[trigger] entries[j]).file_id
}

/// `entries` after `position` was added: it goes to the end, unless its file
/// identity is tracked already.
pub open spec fn added(entries: Seq<PositionView>, position: PositionView) -> Seq<PositionView> {
    if has_entry(entries, position.file_id) {
        entries
    } else {
        entries.push(position)
    }
}

/// `entries` after the cursor of the first entry with file identity `id` was
/// set to `bytes_read`.
pub open spec fn with_bytes_read(entries: Seq<PositionView>, id: u64, bytes_read: u64) -> Seq<
    PositionView,
> {
    let at = first_index(entries, has_identity(id));
    if at < entries.len() {
        entries.update(at, PositionView { bytes_read, ..entries[at] })
    } else {
        entries
    }
}

/// `entries` after the first entry with file identity `id` was moved to
/// `path`.
pub open spec fn renamed(entries: Seq<PositionView>, id: u64, path: Seq<char>) -> Seq<
    PositionView,
> {
    let at = first_index(entries, has_identity(id));
    if at < entries.len() {
        entries.update(at, PositionView { file_path: path, ..entries[at] })
    } else {
        entries
    }
}

/// `entries` without the first for which `wanted` holds.
pub open spec fn without_first(
    entries: Seq<PositionView>,
    wanted: spec_fn(PositionView) -> bool,
) -> Seq<PositionView> {
    let at = first_index(entries, wanted);
    if at < entries.len() {
        entries.remove(at)
    } else {
        entries
    }
}

/// `entries` without those that `keep` marks with `false`. An entry that
/// `keep` has no mark for stays.
pub open spec fn retained(entries: Seq<PositionView>, keep: Seq<bool>) -> Seq<PositionView>
    decreases entries.len(),
{
    if entries.len() == 0 {
        entries
    } else {
        let rest = retained(entries.drop_last(), keep);
        let last = entries.len() - 1;
        if last < keep.len() && !keep[last] {
            rest
        } else {
            rest.push(entries.last())
        }
    }
}

/// What a directory listing stands for in contracts: the path and the file
/// identity of each file, in the order of the listing.
pub open spec fn listing(files: Seq<(String, u64)>) -> Seq<(Seq<char>, u64)> {
    files.map_values(|file: (String, u64)| (file.0@, file.1))
}

/// `entries` after each file of `files`, in turn, was looked up by its
/// identity and its entry moved to the path it has now.
pub open spec fn renamed_all(entries: Seq<PositionView>, files: Seq<(Seq<char>, u64)>) -> Seq<
    PositionView,
>
    decreases files.len(),
{
    if files.len() == 0 {
        entries
    } else {
        renamed(renamed_all(entries, files.drop_last()), files.last().1, files.last().0)
    }
}

/// Whatever is retained was there before, and what had no two entries with
/// the same file identity still has none.
pub proof fn lemma_retained(entries: Seq<PositionView>, keep: Seq<bool>)
    ensures
        retained(entries, keep).len() <= entries.len(),
        forall|k: int|
            0 <= k < retained(entries, keep).len() ==> entries.contains(
                #[trigger] retained(entries, keep)[k],
            ),
        unique_identities(entries) ==> unique_identities(retained(entries, keep)),
    decreases entries.len(),
{
    if entries.len() > 0 {
        let shorter = entries.drop_last();
        let rest = retained(shorter, keep);
        lemma_retained(shorter, keep);
        assert forall|k: int| 0 <= k < retained(entries, keep).len() implies entries.contains(
            #[trigger] retained(entries, keep)[k],
        ) by {
            if k < rest.len() {
                assert(shorter.contains(rest[k]));
                let j = choose|j: int| 0 <= j < shorter.len() && shorter[j] == rest[k];
                assert(entries[j] == rest[k]);
            } else {
                assert(entries[entries.len() - 1] == entries.last());
            }
        }
        if unique_identities(entries) {
            assert forall|i: int, j: int| 0 <= i < j < shorter.len() implies (
            #[trigger] shorter[i]).file_id != (#[trigger] shorter[j]).file_id by {
                assert(entries[i].file_id != entries[j].file_id);
            }
            let all = retained(entries, keep);
            assert forall|i: int, j: int| 0 <= i < j < all.len() implies (#[trigger] all[i]).file_id
                != (#[trigger] all[j]).file_id by {
                if j < rest.len() {
                    assert(rest[i].file_id != rest[j].file_id);
                } else {
                    assert(shorter.contains(rest[i]));
                    let from = choose|from: int|
                        0 <= from < shorter.len() && shorter[from] == rest[i];
                    assert(entries[from].file_id != entries[entries.len() - 1].file_id);
                }
            }
        }
    }
}

/// Moving entries to other paths leaves their number, their file identities
/// and their cursors as they were.
pub proof fn lemma_renamed_all(entries: Seq<PositionView>, files: Seq<(Seq<char>, u64)>)
    ensures
        renamed_all(entries, files).len() == entries.len(),
        forall|i: int|
            0 <= i < entries.len() ==> (#[trigger] renamed_all(entries, files)[i]).file_id
                == entries[i].file_id && renamed_all(entries, files)[i].bytes_read
                == entries[i].bytes_read,
        unique_identities(entries) ==> unique_identities(renamed_all(entries, files)),
    decreases files.len(),
{
    if files.len() > 0 {
        let before = renamed_all(entries, files.drop_last());
        lemma_renamed_all(entries, files.drop_last());
        lemma_first_index(before, has_identity(files.last().1));
        let after = renamed_all(entries, files);
        if unique_identities(entries) {
            assert forall|i: int, j: int| 0 <= i < j < after.len() implies (
            #[trigger] after[i]).file_id != (#[trigger] after[j]).file_id by {
                assert(entries[i].file_id != entries[j].file_id);
            }
        }
    }
}

/// Moving a file to another path keeps every cursor: the table has as many
/// entries as before, each with the file identity and the cursor it had, and
/// the entry found for `id` is the one found before, at its new path.
/// What is found for another identity has not changed.
pub proof fn lemma_rename_keeps_cursors(entries: Seq<PositionView>, id: u64, path: Seq<char>)
    ensures
        renamed(entries, id, path).len() == entries.len(),
        forall|i: int|
            0 <= i < entries.len() ==> (#[trigger] renamed(entries, id, path)[i]).file_id
                == entries[i].file_id && renamed(entries, id, path)[i].bytes_read
                == entries[i].bytes_read,
        lookup(renamed(entries, id, path), id) == match lookup(entries, id) {
            Some(found) => Some(PositionView { file_path: path, ..found }),
            None => None,
        },
        forall|other: u64|
            other != id ==> #[trigger] lookup(renamed(entries, id, path), other) == lookup(
                entries,
                other,
            ),
{
    let after = renamed(entries, id, path);
    lemma_first_index(entries, has_identity(id));
    assert forall|other: u64|
        first_index(after, has_identity(other)) == #[trigger] first_index(
            entries,
            has_identity(other),
        ) by {
        lemma_first_index(entries, has_identity(id));
        lemma_first_index(entries, has_identity(other));
        lemma_first_index_is(
            after,
            has_identity(other),
            first_index(entries, has_identity(other)),
        );
    }
    assert forall|other: u64| other != id implies #[trigger] lookup(after, other) == lookup(
        entries,
        other,
    ) by {
        lemma_first_index(entries, has_identity(id));
        lemma_first_index(entries, has_identity(other));
        assert(first_index(after, has_identity(other)) == first_index(
            entries,
            has_identity(other),
        ));
    }
    assert(first_index(after, has_identity(id)) == first_index(entries, has_identity(id)));
}

/// Setting the cursor of one file leaves the others alone: the entry found
/// for `id` is the one found before with its cursor at `bytes_read`, and
/// what is found for another identity has not changed.
pub proof fn lemma_update_sets_one_cursor(entries: Seq<PositionView>, id: u64, bytes_read: u64)
    ensures
        with_bytes_read(entries, id, bytes_read).len() == entries.len(),
        lookup(with_bytes_read(entries, id, bytes_read), id) == match lookup(entries, id) {
            Some(found) => Some(PositionView { bytes_read, ..found }),
            None => None,
        },
        forall|other: u64|
            other != id ==> #[trigger] lookup(with_bytes_read(entries, id, bytes_read), other)
                == lookup(entries, other),
{
    let after = with_bytes_read(entries, id, bytes_read);
    lemma_first_index(entries, has_identity(id));
    assert forall|other: u64|
        first_index(after, has_identity(other)) == #[trigger] first_index(
            entries,
            has_identity(other),
        ) by {
        lemma_first_index(entries, has_identity(id));
        lemma_first_index(entries, has_identity(other));
        lemma_first_index_is(
            after,
            has_identity(other),
            first_index(entries, has_identity(other)),
        );
    }
    assert forall|other: u64| other != id implies #[trigger] lookup(after, other) == lookup(
        entries,
        other,
    ) by {
        lemma_first_index(entries, has_identity(id));
        lemma_first_index(entries, has_identity(other));
        assert(first_index(after, has_identity(other)) == first_index(
            entries,
            has_identity(other),
        ));
    }
    assert(first_index(after, has_identity(id)) == first_index(entries, has_identity(id)));
}

/// Adding never overwrites: what is found for the file identity of
/// `position` after adding it is what was found before, where anything was,
/// and `position` itself where nothing was. Adding a second position with
/// that identity changes nothing any more.
pub proof fn lemma_add_is_idempotent(
    entries: Seq<PositionView>,
    position: PositionView,
    again: PositionView,
)
    requires
        again.file_id == position.file_id,
    ensures
        lookup(added(entries, position), position.file_id) == match lookup(
            entries,
            position.file_id,
        ) {
            Some(found) => Some(found),
            None => Some(position),
        },
        added(added(entries, position), again) == added(entries, position),
{
    let wanted = has_identity(position.file_id);
    lemma_first_index(entries, wanted);
    if !has_entry(entries, position.file_id) {
        lemma_first_index_is(entries.push(position), wanted, entries.len() as int);
    }
}

/// Once the entry of a removed file is gone, a file that is created under the
/// same path starts with its cursor at 0, whatever the cursor of the removed
/// file was, unless the table still has an entry for the new file's
/// identity: then that entry stays as it is.
pub proof fn lemma_recreated_file_starts_at_zero(
    entries: Seq<PositionView>,
    path: Seq<char>,
    id: u64,
)
    ensures
        ({
            let rest = without_first(entries, has_path(path));
            let created = PositionView { file_path: path, file_id: id, bytes_read: 0 };
            lookup(added(rest, created), id) == match lookup(rest, id) {
                Some(found) => Some(found),
                None => Some(created),
            }
        }),
{
    let rest = without_first(entries, has_path(path));
    let created = PositionView { file_path: path, file_id: id, bytes_read: 0 };
    lemma_add_is_idempotent(rest, created, created);
}

/// In a table without two entries of the same file identity, the identity of
/// a removed entry is free again: a file that is created later and is given
/// that identity is not taken for the one that was removed.
pub proof fn lemma_removed_identity_is_free(
    entries: Seq<PositionView>,
    wanted: spec_fn(PositionView) -> bool,
)
    requires
        unique_identities(entries),
        first_index(entries, wanted) < entries.len(),
    ensures
        !has_entry(
            without_first(entries, wanted),
            entries[first_index(entries, wanted)].file_id,
        ),
        unique_identities(without_first(entries, wanted)),
{
    lemma_first_index(entries, wanted);
    let at = first_index(entries, wanted);
    let rest = without_first(entries, wanted);
    let id = entries[at].file_id;
    assert forall|i: int| 0 <= i < rest.len() implies !has_identity(id)(rest[i]) by {
        if i < at {
            assert(entries[i].file_id != entries[at].file_id);
        } else {
            assert(rest[i] == entries[i + 1]);
            assert(entries[at].file_id != entries[i + 1].file_id);
        }
    }
    lemma_first_index_is(rest, has_identity(id), rest.len() as int);
    assert forall|i: int, j: int| 0 <= i < j < rest.len() implies (#[trigger] rest[i]).file_id != (
    #[trigger] rest[j]).file_id by {
        let from_i = if i < at { i } else { i + 1 };
        let from_j = if j < at { j } else { j + 1 };
        assert(entries[from_i].file_id != entries[from_j].file_id);
    }
}

impl PositionsFile {
    /// No two entries of the table have the same file identity.
    pub open spec fn well_formed(&self) -> bool {
        unique_identities(self@.position)
    }

    /// An empty table that is persisted at `path`, made now.
    pub fn new(path: &str) -> (r: Self)
        ensures
            r@.path == path@,
            r@.position.len() == 0,
            r@.modified_datetime == r@.created_datetime,
            r.well_formed(),
    {
        let created = get_datetime_str();
        PositionsFile {
            path: path.to_string(),
            created_datetime: created.clone(),
            modified_datetime: created,
            position: Vec::new(),
        }
    }

    /// The index of the first entry with file identity `id`.
    fn index_of(&self, id: u64) -> (r: Option<usize>)
        ensures
            match r {
                Some(at) => at < self@.position.len() && at == first_index(
                    self@.position,
                    has_identity(id),
                ),
                None => !has_entry(self@.position, id),
            },
    {
        let mut i: usize = 0;
        while i < self.position.len()
            invariant
                i <= self.position@.len(),
                forall|j: int| 0 <= j < i ==> !has_identity(id)(#[trigger] self@.position[j]),
            decreases self.position@.len() - i,
        {
            if self.position[i].file_id == id {
                proof {
                    lemma_first_index_is(self@.position, has_identity(id), i as int);
                }
                return Some(i);
            }
            i += 1;
        }
        proof {
            lemma_first_index_is(self@.position, has_identity(id), i as int);
        }
        None
    }

    /// Adds `position` to the table, unless the table has an entry for its
    /// file identity already: then nothing changes, and the cursor that is
    /// there stays.
    pub fn add_position(&mut self, position: &Position)
        ensures
            final(self)@.position == added(old(self)@.position, position@),
            final(self)@.path == old(self)@.path,
            final(self)@.created_datetime == old(self)@.created_datetime,
            has_entry(old(self)@.position, position.file_id) ==> final(self)@ == old(self)@,
            old(self).well_formed() ==> final(self).well_formed(),
    {
        match self.index_of(position.file_id) {
            Some(_) => {},
            None => {
                self.position.push(position.clone());
                self.update();
                proof {
                    let before = old(self)@.position;
                    assert(final(self)@.position =~= before.push(position@));
                    if unique_identities(before) {
                        lemma_first_index(before, has_identity(position.file_id));
                    }
                }
            },
        }
    }

    /// The first entry that `predicate` accepts.
    ///
    /// Where `predicate` decides as some `wanted` does on what the entries
    /// stand for, that is the first entry for which `wanted` holds.
    pub fn find<F: Fn(&Position) -> bool>(&self, predicate: F) -> (r: Option<&Position>)
        requires
            forall|i: int|
                0 <= i < self.position@.len() ==> call_requires(predicate, (&self.position@[i],)),
        ensures
            match r {
                Some(found) => exists|at: int|
                    {
                        &&& 0 <= at < self.position@.len()
                        &&& *found == self.position@[at]
                        &&& call_ensures(predicate, (&self.position@[at],), true)
                        &&& forall|j: int|
                            0 <= j < at ==> call_ensures(predicate, (&self.position@[j],), false)
                    },
                None => forall|j: int|
                    0 <= j < self.position@.len() ==> call_ensures(
                        predicate,
                        (&self.position@[j],),
                        false,
                    ),
            },
            forall|wanted: spec_fn(PositionView) -> bool|
                (forall|p: Position, said: bool|
                    call_ensures(predicate, (&p,), said) ==> said == wanted(p@)) ==> {
                    let at = #[trigger] first_index(self@.position, wanted);
                    match r {
                        Some(found) => at < self@.position.len() && found@ == self@.position[at],
                        None => at == self@.position.len(),
                    }
                },
    {
        let mut i: usize = 0;
        while i < self.position.len()
            invariant
                i <= self.position@.len(),
                forall|k: int|
                    0 <= k < self.position@.len() ==> call_requires(
                        predicate,
                        (&self.position@[k],),
                    ),
                forall|j: int| 0 <= j < i ==> call_ensures(predicate, (&self.position@[j],), false),
            decreases self.position@.len() - i,
        {
            if predicate(&self.position[i]) {
                proof {
                    assert forall|wanted: spec_fn(PositionView) -> bool|
                        (forall|p: Position, said: bool|
                            call_ensures(predicate, (&p,), said) ==> said == wanted(
                                p@,
                            )) implies #[trigger] first_index(self@.position, wanted) == i by {
                        lemma_first_index_is(self@.position, wanted, i as int);
                    }
                }
                return Some(&self.position[i]);
            }
            i += 1;
        }
        proof {
            assert forall|wanted: spec_fn(PositionView) -> bool|
                (forall|p: Position, said: bool|
                    call_ensures(predicate, (&p,), said) ==> said == wanted(
                        p@,
                    )) implies #[trigger] first_index(self@.position, wanted)
                == self@.position.len() by {
                lemma_first_index_is(self@.position, wanted, i as int);
            }
        }
        None
    }

    /// Removes the first entry that `predicate` accepts; where it accepts
    /// none, nothing changes.
    ///
    /// Where `predicate` decides as some `wanted` does on what the entries
    /// stand for, the first entry for which `wanted` holds is the one that
    /// leaves.
    pub fn remove_position<F: Fn(&Position) -> bool>(&mut self, predicate: F)
        requires
            forall|i: int|
                0 <= i < old(self).position@.len() ==> call_requires(
                    predicate,
                    (&old(self).position@[i],),
                ),
        ensures
            ({
                ||| exists|at: int|
                    {
                        &&& 0 <= at < old(self).position@.len()
                        &&& call_ensures(predicate, (&old(self).position@[at],), true)
                        &&& forall|j: int|
                            0 <= j < at ==> call_ensures(
                                predicate,
                                (&old(self).position@[j],),
                                false,
                            )
                        &&& final(self).position@ == old(self).position@.remove(at)
                    }
                ||| {
                    &&& forall|j: int|
                        0 <= j < old(self).position@.len() ==> call_ensures(
                            predicate,
                            (&old(self).position@[j],),
                            false,
                        )
                    &&& final(self)@ == old(self)@
                }
            }),
            forall|wanted: spec_fn(PositionView) -> bool|
                (forall|p: Position, said: bool|
                    call_ensures(predicate, (&p,), said) ==> said == wanted(p@))
                    ==> final(self)@.position == #[trigger] without_first(
                    old(self)@.position,
                    wanted,
                ),
            final(self)@.path == old(self)@.path,
            final(self)@.created_datetime == old(self)@.created_datetime,
            old(self).well_formed() ==> final(self).well_formed(),
    {
        let mut i: usize = 0;
        while i < self.position.len()
            invariant
                *self == *old(self),
                i <= self.position@.len(),
                forall|k: int|
                    0 <= k < self.position@.len() ==> call_requires(
                        predicate,
                        (&self.position@[k],),
                    ),
                forall|j: int| 0 <= j < i ==> call_ensures(predicate, (&self.position@[j],), false),
            decreases self.position@.len() - i,
        {
            if predicate(&self.position[i]) {
                self.position.remove(i);
                self.update();
                proof {
                    let before = old(self)@.position;
                    assert(final(self).position@ == old(self).position@.remove(i as int));
                    assert(final(self)@.position =~= before.remove(i as int));
                    assert forall|wanted: spec_fn(PositionView) -> bool|
                        (forall|p: Position, said: bool|
                            call_ensures(predicate, (&p,), said) ==> said == wanted(
                                p@,
                            )) implies final(self)@.position == #[trigger] without_first(
                        before,
                        wanted,
                    ) by {
                        lemma_first_index_is(before, wanted, i as int);
                    }
                }
                return ;
            }
            i += 1;
        }
        proof {
            let before = old(self)@.position;
            assert forall|wanted: spec_fn(PositionView) -> bool|
                (forall|p: Position, said: bool|
                    call_ensures(predicate, (&p,), said) ==> said == wanted(
                        p@,
                    )) implies final(self)@.position == #[trigger] without_first(
                before,
                wanted,
            ) by {
                lemma_first_index_is(before, wanted, i as int);
            }
        }
    }

    /// Sets the cursor of the entry with file identity `id`; without such an
    /// entry nothing changes.
    pub fn update_bytes_read(&mut self, id: u64, new_byte_pos: u64)
        ensures
            final(self)@.position == with_bytes_read(old(self)@.position, id, new_byte_pos),
            final(self)@.path == old(self)@.path,
            final(self)@.created_datetime == old(self)@.created_datetime,
            !has_entry(old(self)@.position, id) ==> final(self)@ == old(self)@,
            old(self).well_formed() ==> final(self).well_formed(),
    {
        match self.index_of(id) {
            Some(at) => {
                self.position[at].bytes_read = new_byte_pos;
                self.update();
                proof {
                    let before = old(self)@.position;
                    assert(final(self)@.position =~= before.update(
                        at as int,
                        PositionView { bytes_read: new_byte_pos, ..before[at as int] },
                    ));
                }
            },
            None => {},
        }
    }

    /// Moves the entry with file identity `id` to `new_path`, keeping its
    /// cursor; without such an entry nothing changes.
    pub fn rename_position(&mut self, id: u64, new_path: &str)
        ensures
            final(self)@.position == renamed(old(self)@.position, id, new_path@),
            final(self)@.path == old(self)@.path,
            final(self)@.created_datetime == old(self)@.created_datetime,
            !has_entry(old(self)@.position, id) ==> final(self)@ == old(self)@,
            old(self).well_formed() ==> final(self).well_formed(),
    {
        match self.index_of(id) {
            Some(at) => {
                self.position[at].file_path = new_path.to_string();
                self.update();
                proof {
                    let before = old(self)@.position;
                    assert(final(self)@.position =~= before.update(
                        at as int,
                        PositionView { file_path: new_path@, ..before[at as int] },
                    ));
                }
            },
            None => {},
        }
    }

    /// Sets the place at which the table is persisted.
    pub fn set_path(&mut self, path: &str)
        ensures
            final(self)@ == (PositionsFileView { path: path@, ..old(self)@ }),
    {
        self.path = path.to_string();
    }

    /// Drops the entries that `keep` marks with `false`: `keep[i]` speaks
    /// of entry `i`. An entry that `keep` has no mark for stays.
    pub fn retain_marked(&mut self, keep: &Vec<bool>)
        ensures
            final(self)@ == (PositionsFileView {
                position: retained(old(self)@.position, keep@),
                ..old(self)@
            }),
            old(self).well_formed() ==> final(self).well_formed(),
    {
        let mut kept: Vec<Position> = Vec::new();
        let mut i: usize = 0;
        while i < self.position.len()
            invariant
                *self == *old(self),
                i <= self.position@.len(),
                kept@.map_values(|p: Position| p@) == retained(
                    self@.position.take(i as int),
                    keep@,
                ),
            decreases self.position@.len() - i,
        {
            proof {
                assert(self@.position.take(i + 1).drop_last() =~= self@.position.take(i as int));
            }
            if i >= keep.len() || keep[i] {
                let entry = self.position[i].clone();
                proof {
                    assert(kept@.push(entry).map_values(|p: Position| p@) =~= kept@.map_values(
                        |p: Position| p@,
                    ).push(entry@));
                }
                kept.push(entry);
            }
            i += 1;
        }
        proof {
            assert(self@.position.take(i as int) =~= self@.position);
            lemma_retained(old(self)@.position, keep@);
        }
        self.position = kept;
    }

    /// Drops the entries whose file is no longer found under its path.
    fn cleanup(&mut self)
        ensures
            exists|keep: Seq<bool>|
                final(self)@ == (PositionsFileView {
                    position: #[trigger] retained(old(self)@.position, keep),
                    ..old(self)@
                }),
            old(self).well_formed() ==> final(self).well_formed(),
    {
        let mut keep: Vec<bool> = Vec::new();
        let mut i: usize = 0;
        while i < self.position.len()
            invariant
                i <= self.position@.len(),
            decreases self.position@.len() - i,
        {
            keep.push(file_exists(self.position[i].file_path.as_str()));
            i += 1;
        }
        self.retain_marked(&keep);
    }

    /// Moves the entry of each file of `dir_files`, a listing of paths with
    /// the file identity found under each, to the path the file has now.
    fn filename_update(&mut self, dir_files: &Vec<(String, u64)>)
        ensures
            final(self)@.position == renamed_all(old(self)@.position, listing(dir_files@)),
            final(self)@.path == old(self)@.path,
            final(self)@.created_datetime == old(self)@.created_datetime,
            old(self).well_formed() ==> final(self).well_formed(),
    {
        let mut i: usize = 0;
        while i < dir_files.len()
            invariant
                i <= dir_files@.len(),
                self@.position == renamed_all(
                    old(self)@.position,
                    listing(dir_files@).take(i as int),
                ),
                self@.path == old(self)@.path,
                self@.created_datetime == old(self)@.created_datetime,
                old(self).well_formed() ==> self.well_formed(),
            decreases dir_files@.len() - i,
        {
            proof {
                assert(listing(dir_files@).take(i + 1).drop_last() =~= listing(dir_files@).take(
                    i as int,
                ));
            }
            self.rename_position(dir_files[i].1, dir_files[i].0.as_str());
            i += 1;
        }
        proof {
            assert(listing(dir_files@).take(i as int) =~= listing(dir_files@));
        }
    }

    /// Brings the table in line with the disk: `dir_files` lists the files
    /// of the watched directory, each path with the file identity found
    /// under it. An entry whose file is listed under another path is moved
    /// to that path; then the entries whose file is no longer found under
    /// its path are dropped.
    pub fn init(&mut self, dir_files: &Vec<(String, u64)>)
        ensures
            exists|keep: Seq<bool>|
                final(self)@.position == #[trigger] retained(
                    renamed_all(old(self)@.position, listing(dir_files@)),
                    keep,
                ),
            final(self)@.path == old(self)@.path,
            final(self)@.created_datetime == old(self)@.created_datetime,
            old(self).well_formed() ==> final(self).well_formed(),
    {
        self.filename_update(dir_files);
        self.cleanup();
    }

    /// Notes that the table has changed now: only the time of its last change moves.
    fn update(&mut self)
        ensures
            final(self).position == old(self).position,
            final(self).path == old(self).path,
            final(self).created_datetime == old(self).created_datetime,
            is_datetime(final(self)@.modified_datetime),
    {
        self.modified_datetime = get_datetime_str();
    }
}

} // verus!
