use vstd::prelude::*;
use crate::entry::{Entry, EntryView};
use crate::error::StoreErrorKind;
use crate::storeid::{StoreId, StoreIdView, is_absolute};

verus! {

/// A store of entries held in memory, each found by its local path.
///
/// The store hands out copies of its entries, not handles to them: a change
/// to an entry that was handed out reaches the store only through `update`.
/// The files that a store on disk reads and removes can fail; here that is
/// stated by faults: reading an entry whose local path is marked unreadable
/// fails with the kind given for it, and so does deleting an entry marked
/// undeletable. Nothing else fails.
pub struct Store {
    path: String,
    entries: Vec<Entry>,
    read_faults: Vec<Fault>,
    delete_faults: Vec<Fault>,
}

/// A local path for which an operation of the store fails, and how.
pub struct Fault {
    pub id: String,
    pub kind: StoreErrorKind,
}

impl View for Fault {
    type V = (Seq<char>, StoreErrorKind);

    open spec fn view(&self) -> (Seq<char>, StoreErrorKind) {
        (self.id@, self.kind)
    }
}

/// What a store stands for: its path, its entries, and the local paths for
/// which reading or deleting fails.
pub struct StoreView {
    pub path: Seq<char>,
    pub entries: Seq<EntryView>,
    pub read_faults: Seq<(Seq<char>, StoreErrorKind)>,
    pub delete_faults: Seq<(Seq<char>, StoreErrorKind)>,
}

impl StoreView {
    /// The same store with the entries `entries`.
    pub open spec fn with_entries(self, entries: Seq<EntryView>) -> StoreView {
        StoreView { entries, ..self }
    }
}

/// How the first fault for the local path `id` fails, if one is listed.
pub open spec fn fault_of(faults: Seq<(Seq<char>, StoreErrorKind)>, id: Seq<char>) -> Option<StoreErrorKind>
    decreases faults.len(),
{
    if faults.len() == 0 {
        None
    } else if faults[0].0 == id {
        Some(faults[0].1)
    } else {
        fault_of(faults.drop_first(), id)
    }
}

/// What reading the entry with the local path `id` answers: the error of
/// its read fault, else the entry if there is one.
pub open spec fn spec_get(store: StoreView, id: Seq<char>) -> Result<Option<EntryView>, StoreErrorKind> {
    match fault_of(store.read_faults, id) {
        Some(e) => Err(e),
        None => Ok(lookup(store.entries, id)),
    }
}

/// The view of what reading an entry answers.
pub open spec fn get_view(r: Result<Option<Entry>, StoreErrorKind>) -> Result<Option<EntryView>, StoreErrorKind> {
    match r {
        Err(e) => Err(e),
        Ok(None) => Ok(None),
        Ok(Some(e)) => Ok(Some(e@)),
    }
}

/// How the first fault for `id` in `faults` fails, if one is listed.
fn find_fault(faults: &Vec<Fault>, id: &String) -> (r: Option<StoreErrorKind>)
    ensures
        r == fault_of(faults@.map_values(|f: Fault| f@), id@),
{
    let ghost fv = faults@.map_values(|f: Fault| f@);
    let n = faults.len();
    assert(fv.skip(0) =~= fv);
    for i in 0..n
        invariant
            n == faults.len(),
            fv == faults@.map_values(|f: Fault| f@),
            fault_of(fv, id@) == fault_of(fv.skip(i as int), id@),
    {
        proof {
            assert(fv.skip(i as int).drop_first() =~= fv.skip(i + 1));
        }
        if faults[i].id.eq(id) {
            return Some(faults[i].kind);
        }
    }
    proof {
        assert(fv.skip(n as int) =~= Seq::<(Seq<char>, StoreErrorKind)>::empty());
    }
    None
}

/// Some entry of `entries` has the local path `id`.
pub open spec fn has_entry(entries: Seq<EntryView>, id: Seq<char>) -> bool {
    exists|i: int| 0 <= i < entries.len() && (#[trigger] entries[i]).location.id == id
}

/// Where the first entry with the local path `id` stands in `entries`.
pub open spec fn index_of_entry(entries: Seq<EntryView>, id: Seq<char>) -> int {
    choose|i: int|
        0 <= i < entries.len() && (#[trigger] entries[i]).location.id == id
            && forall|j: int| 0 <= j < i ==> (#[trigger] entries[j]).location.id != id
}

/// Where the entry at `w` has the local path `id`, a first entry has it.
proof fn lemma_first_index_exists(entries: Seq<EntryView>, id: Seq<char>, w: int)
    requires
        0 <= w < entries.len(),
        entries[w].location.id == id,
    ensures
        exists|k: int|
            0 <= k < entries.len() && (#[trigger] entries[k]).location.id == id
                && forall|j: int| 0 <= j < k ==> (#[trigger] entries[j]).location.id != id,
    decreases w,
{
    if exists|j: int| 0 <= j < w && (#[trigger] entries[j]).location.id == id {
        let j = choose|j: int| 0 <= j < w && (#[trigger] entries[j]).location.id == id;
        lemma_first_index_exists(entries, id, j);
    } else {
        assert(0 <= w < entries.len() && entries[w].location.id == id
            && forall|j: int| 0 <= j < w ==> (#[trigger] entries[j]).location.id != id);
    }
}

/// Where some entry has the local path `id`, a first one has it.
pub proof fn lemma_index_of_entry(entries: Seq<EntryView>, id: Seq<char>)
    requires
        has_entry(entries, id),
    ensures
        0 <= index_of_entry(entries, id) < entries.len(),
        entries[index_of_entry(entries, id)].location.id == id,
        forall|j: int| 0 <= j < index_of_entry(entries, id) ==> (#[trigger] entries[j]).location.id != id,
{
    let w = choose|i: int| 0 <= i < entries.len() && (#[trigger] entries[i]).location.id == id;
    lemma_first_index_exists(entries, id, w);
}

/// The entry with the local path `id`, if there is one.
pub open spec fn lookup(entries: Seq<EntryView>, id: Seq<char>) -> Option<EntryView> {
    if has_entry(entries, id) {
        Some(entries[index_of_entry(entries, id)])
    } else {
        None
    }
}

/// No two entries have the same local path.
pub open spec fn distinct_ids(entries: Seq<EntryView>) -> bool {
    forall|i: int, j: int|
        0 <= i < entries.len() && 0 <= j < entries.len() && i != j
            ==> (#[trigger] entries[i]).location.id != (#[trigger] entries[j]).location.id
}

impl View for Store {
    type V = StoreView;

    closed spec fn view(&self) -> StoreView {
        StoreView {
            path: self.path@,
            entries: self.entries@.map_values(|e: Entry| e@),
            read_faults: self.read_faults@.map_values(|f: Fault| f@),
            delete_faults: self.delete_faults@.map_values(|f: Fault| f@),
        }
    }
}

impl Store {
    /// No two entries of the store have the same local path: true of every
    /// store that the methods below made.
    pub open spec fn wf(&self) -> bool {
        distinct_ids(self@.entries)
    }

    /// An empty store at `path`, where nothing fails.
    pub fn new(path: String) -> (r: Store)
        ensures
            r@.path == path@,
            r@.entries == Seq::<EntryView>::empty(),
            r@.read_faults == Seq::<(Seq<char>, StoreErrorKind)>::empty(),
            r@.delete_faults == Seq::<(Seq<char>, StoreErrorKind)>::empty(),
            r.wf(),
    {
        let r = Store { path, entries: Vec::new(), read_faults: Vec::new(), delete_faults: Vec::new() };
        assert(r@.entries =~= Seq::<EntryView>::empty());
        assert(r@.read_faults =~= Seq::<(Seq<char>, StoreErrorKind)>::empty());
        assert(r@.delete_faults =~= Seq::<(Seq<char>, StoreErrorKind)>::empty());
        r
    }

    /// From now on, reading the entry with the local path `id` fails with
    /// `kind`, as reading its file would.
    pub fn mark_unreadable(&mut self, id: String, kind: StoreErrorKind)
        ensures
            final(self)@ == (StoreView {
                read_faults: old(self)@.read_faults.push((id@, kind)),
                ..old(self)@
            }),
            old(self).wf() ==> final(self).wf(),
    {
        let ghost before = self@.read_faults;
        self.read_faults.push(Fault { id, kind });
        proof {
            assert(self@.read_faults =~= before.push((id@, kind)));
        }
    }

    /// From now on, deleting the entry with the local path `id` fails with
    /// `kind`, as removing its file would.
    pub fn mark_undeletable(&mut self, id: String, kind: StoreErrorKind)
        ensures
            final(self)@ == (StoreView {
                delete_faults: old(self)@.delete_faults.push((id@, kind)),
                ..old(self)@
            }),
            old(self).wf() ==> final(self).wf(),
    {
        let ghost before = self@.delete_faults;
        self.delete_faults.push(Fault { id, kind });
        proof {
            assert(self@.delete_faults =~= before.push((id@, kind)));
        }
    }

    /// The path of the store.
    pub fn path(&self) -> (r: &String)
        ensures
            r@ == self@.path,
    {
        &self.path
    }

    /// How many entries the store holds.
    pub fn len(&self) -> (r: usize)
        ensures
            r == self@.entries.len(),
    {
        self.entries.len()
    }

    /// Where the entry with local path `id` stands, if there is one.
    fn position(&self, id: &String) -> (r: Option<usize>)
ensures
            r matches Some(i) ==> i < self@.entries.len() && self@.entries[i as int].location.id == id@
                && i == index_of_entry(self@.entries, id@),
            r is None <==> !has_entry(self@.entries, id@),
    {
        let n = self.entries.len();
        for i in 0..n
            invariant
                n == self.entries.len(),
                forall|j: int| 0 <= j < i ==> (#[trigger] self@.entries[j]).location.id != id@,
        {
            let same = self.entries[i].location.local().eq(id);
            if same {
                proof {
                    let k = index_of_entry(self@.entries, id@);
                    assert(self@.entries[i as int].location.id == id@);
                    assert(has_entry(self@.entries, id@));
                    if k < i {
                        assert(self@.entries[k].location.id != id@);
                    }
                    if k > i {
                        assert(self@.entries[i as int].location.id != id@);
                    }
                    assert(k == i);
                }
                return Some(i);
            }
        }
        None
    }

    /// A copy of the entry with the local path of `id`, if there is one;
    /// an error where reading it is marked to fail.
    #[verifier::rlimit(60)]
    pub fn get(&self, id: &StoreId) -> (r: Result<Option<Entry>, StoreErrorKind>)
        ensures
            get_view(r) == spec_get(self@, id@.id),
            r matches Ok(Some(e)) ==> e@.location.id == id@.id,
    {
        if let Some(e) = find_fault(&self.read_faults, id.local()) {
            return Err(e);
        }
        match self.position(id.local()) {
            Some(i) => {
                let e = self.entries[i].duplicate();
                proof {
                    assert(has_entry(self@.entries, id@.id));
                    assert(lookup(self@.entries, id@.id) == Some(self@.entries[i as int]));
                }
                Ok(Some(e))
            },
            None => Ok(None),
        }
    }

    /// Makes a new entry with the local path `id`, bound to this store. An
    /// absolute path, or one that an entry has already, is refused.
    pub fn create(&mut self, id: String) -> (r: Result<Entry, StoreErrorKind>)
        ensures
            old(self).wf() ==> final(self).wf(),
            is_absolute(id@) ==> r == Err::<Entry, StoreErrorKind>(StoreErrorKind::StoreIdLocalPartAbsolute)
                && final(self)@ == old(self)@,
            !is_absolute(id@) && has_entry(old(self)@.entries, id@) ==> r == Err::<Entry, StoreErrorKind>(
                StoreErrorKind::EntryAlreadyExists,
            ) && final(self)@ == old(self)@,
            !is_absolute(id@) && !has_entry(old(self)@.entries, id@) ==> (r matches Ok(e)
                && e@ == new_entry_view(old(self)@.path, id@)
                && final(self)@ == old(self)@.with_entries(old(self)@.entries.push(e@))),
    {
        if crate::storeid::is_absolute_path(id.as_str()) {
            return Err(StoreErrorKind::StoreIdLocalPartAbsolute);
        }
        if self.position(&id).is_some() {
            return Err(StoreErrorKind::EntryAlreadyExists);
        }
        let location = match StoreId::new(Some(self.path.clone()), id) {
            Ok(l) => l,
            Err(e) => {
                return Err(e);
            },
        };
        let entry = Entry::new(location);
        let copy = entry.duplicate();
        let ghost before = self@.entries;
        self.entries.push(copy);
        proof {
            assert(self@.entries =~= before.push(entry@));
        }
        Ok(entry)
    }

    /// The entry with the local path `id`; made new where there is none. An
    /// entry there whose reading is marked to fail gives that error.
    pub fn retrieve(&mut self, id: String) -> (r: Result<Entry, StoreErrorKind>)
        ensures
            old(self).wf() ==> final(self).wf(),
            is_absolute(id@) ==> r == Err::<Entry, StoreErrorKind>(StoreErrorKind::StoreIdLocalPartAbsolute)
                && final(self)@ == old(self)@,
            !is_absolute(id@) && has_entry(old(self)@.entries, id@) ==> final(self)@ == old(self)@ && match fault_of(
                old(self)@.read_faults,
                id@,
            ) {
                Some(e) => r == Err::<Entry, StoreErrorKind>(e),
                None => r matches Ok(e) && lookup(old(self)@.entries, id@) == Some(e@),
            },
            !is_absolute(id@) && !has_entry(old(self)@.entries, id@) ==> (r matches Ok(e)
                && e@ == new_entry_view(old(self)@.path, id@)
                && final(self)@ == old(self)@.with_entries(old(self)@.entries.push(e@))),
    {
        if crate::storeid::is_absolute_path(id.as_str()) {
            return Err(StoreErrorKind::StoreIdLocalPartAbsolute);
        }
        match self.position(&id) {
            Some(i) => match find_fault(&self.read_faults, &id) {
                Some(e) => Err(e),
                None => Ok(self.entries[i].duplicate()),
            },
            None => self.create(id),
        }
    }

    /// Writes `entry` back over the stored entry with the same local path.
    pub fn update(&mut self, entry: &Entry) -> (r: Result<(), StoreErrorKind>)
        ensures
            old(self).wf() ==> final(self).wf(),
            has_entry(old(self)@.entries, entry@.location.id) ==> r is Ok && final(self)@ == old(self)@.with_entries(
                old(self)@.entries.update(index_of_entry(old(self)@.entries, entry@.location.id), entry@),
            ),
            !has_entry(old(self)@.entries, entry@.location.id) ==> r == Err::<(), StoreErrorKind>(
                StoreErrorKind::EntryNotFound,
            ) && final(self)@ == old(self)@,
    {
        match self.position(entry.location.local()) {
            Some(i) => {
                let ghost before = self@.entries;
                self.entries.set(i, entry.duplicate());
                proof {
                    assert(self@.entries =~= before.update(i as int, entry@));
                    if distinct_ids(before) {
                    assert forall|a: int, b: int|
                        0 <= a < self@.entries.len() && 0 <= b < self@.entries.len() && a != b
                        implies (#[trigger] self@.entries[a]).location.id != (#[trigger] self@.entries[b]).location.id by {
                        assert(before[a].location.id == self@.entries[a].location.id);
                        assert(before[b].location.id == self@.entries[b].location.id);
                    }
                    }
                }
                Ok(())
            },
            None => Err(StoreErrorKind::EntryNotFound),
        }
    }

    /// Removes the entry with the local path of `id`. Where deleting it is
    /// marked to fail, that error comes and nothing changes.
    pub fn delete(&mut self, id: &StoreId) -> (r: Result<(), StoreErrorKind>)
        ensures
            old(self).wf() ==> final(self).wf(),
            fault_of(old(self)@.delete_faults, id@.id) matches Some(e) ==> r == Err::<(), StoreErrorKind>(e)
                && final(self)@ == old(self)@,
            fault_of(old(self)@.delete_faults, id@.id) is None && has_entry(old(self)@.entries, id@.id) ==> r is Ok
                && final(self)@ == old(self)@.with_entries(
                old(self)@.entries.remove(index_of_entry(old(self)@.entries, id@.id)),
            ),
            fault_of(old(self)@.delete_faults, id@.id) is None && !has_entry(old(self)@.entries, id@.id) ==> r
                == Err::<(), StoreErrorKind>(StoreErrorKind::EntryNotFound) && final(self)@ == old(self)@,
    {
        if let Some(e) = find_fault(&self.delete_faults, id.local()) {
            return Err(e);
        }
        match self.position(id.local()) {
            Some(i) => {
                let ghost before = self@.entries;
                let ghost raw = self.entries@;
                self.entries.remove(i);
                proof {
                    lemma_map_remove(raw, i as int);
                    if distinct_ids(before) {
                        lemma_remove_distinct(before, i as int);
                    }
                }
                Ok(())
            },
            None => Err(StoreErrorKind::EntryNotFound),
        }
    }
}

/// Removing from a sequence of entries, then taking views, is taking
/// views, then removing.
proof fn lemma_map_remove(v: Seq<Entry>, i: int)
    requires
        0 <= i < v.len(),
    ensures
        v.remove(i).map_values(|e: Entry| e@) == v.map_values(|e: Entry| e@).remove(i),
{
    let a = v.remove(i).map_values(|e: Entry| e@);
    let b = v.map_values(|e: Entry| e@).remove(i);
    assert forall|k: int| 0 <= k < a.len() implies a[k] == b[k] by {
        if k < i {
            assert(a[k] == v[k]@);
        } else {
            assert(a[k] == v[k + 1]@);
        }
    }
    assert(a =~= b);
}

/// Removing an entry keeps the local paths distinct.
pub proof fn lemma_remove_distinct(s: Seq<EntryView>, i: int)
    requires
        distinct_ids(s),
        0 <= i < s.len(),
    ensures
        distinct_ids(s.remove(i)),
{
    let t = s.remove(i);
    assert forall|a: int, b: int| 0 <= a < t.len() && 0 <= b < t.len() && a != b
        implies (#[trigger] t[a]).location.id != (#[trigger] t[b]).location.id by {
        let a0 = if a < i { a } else { a + 1 };
        let b0 = if b < i { b } else { b + 1 };
        assert(s[a0] == t[a]);
        assert(s[b0] == t[b]);
    }
}

/// The view of a new entry with local path `id` in the store at `path`.
pub open spec fn new_entry_view(path: Seq<char>, id: Seq<char>) -> EntryView {
    EntryView {
        location: StoreIdView { base: Some(path), id },
        header: crate::header::EntryHeader::new_view(),
    }
}

} // verus!
