//! The journal record manager: dated `Entry` records, one per owner per
//! calendar date, created once, edited and deleted only by their authority.
//!
//! A `Journal` stands for the slice of account storage that holds entries:
//! the storage collaborator guarantees at most one record per derived key,
//! and that guarantee is the journal's invariant here.

use vstd::prelude::*;

use crate::errors::JournalError;
use crate::identity::Identity;
use crate::identity::IDENTITY_LEN;
use crate::seeds::entry_seed;
use crate::seeds::entry_seed_spec;

verus! {

/// Longest mood text, in characters.
pub const MAX_MOOD_LENGTH: usize = 25;

/// Longest weather text, in characters.
pub const MAX_WEATHER_LENGTH: usize = 25;

/// Longest message text, in characters.
pub const MAX_MESSAGE_LENGTH: usize = 280;

/// A journal entry. `authority`, `year`, `month` and `day` are immutable
/// after creation; the three texts may be overwritten by the authority.
#[derive(Debug, PartialEq, Eq)]
pub struct Entry {
    pub authority: Identity,
    pub mood: String,
    pub year: u16,
    pub month: u8,
    pub day: u8,
    pub weather: String,
    pub message: String,
}

impl Entry {
    /// Field bounds of a stored entry. The day range is deliberately loose:
    /// no day-of-month or leap-year cross-check is made.
    pub open spec fn wf(&self) -> bool {
        &&& self.authority@.len() == IDENTITY_LEN
        &&& 1 <= self.month <= 12
        &&& 1 <= self.day <= 31
        &&& self.mood@.len() <= MAX_MOOD_LENGTH
        &&& self.weather@.len() <= MAX_WEATHER_LENGTH
        &&& self.message@.len() <= MAX_MESSAGE_LENGTH
    }

    /// The key material this entry's storage address is derived from.
    pub open spec fn key(&self) -> Seq<u8> {
        entry_seed_spec(self.year, self.month, self.day, self.authority@)
    }

    /// Derives this entry's key material.
    pub fn key_bytes(&self) -> (r: Vec<u8>)
        ensures
            r@ == self.key(),
    {
        entry_seed(self.year, self.month, self.day, &self.authority)
    }
}

/// True when `e` sits at the slot named by `(year, month, day, owner)`.
pub open spec fn entry_at(e: Entry, year: u16, month: u8, day: u8, owner: Seq<u8>) -> bool {
    &&& e.year == year
    &&& e.month == month
    &&& e.day == day
    &&& e.authority@ == owner
}

/// True when two entries share their identifying fields.
pub open spec fn same_slot(a: Entry, b: Entry) -> bool {
    &&& a.year == b.year
    &&& a.month == b.month
    &&& a.day == b.day
    &&& a.authority@ == b.authority@
}

/// `e` with its three mutable texts replaced and everything else kept.
pub open spec fn with_new_texts(e: Entry, mood: String, weather: String, message: String) -> Entry {
    Entry { authority: e.authority, mood, year: e.year, month: e.month, day: e.day, weather, message }
}

/// The journal's slice of record storage.
pub struct Journal {
    entries: Vec<Entry>,
}

impl View for Journal {
    type V = Seq<Entry>;

    closed spec fn view(&self) -> Seq<Entry> {
        self.entries@
    }
}

impl Journal {
    /// Every entry is well formed and no two entries share a slot: the
    /// collaborator's at-most-one-record-per-key guarantee.
    pub open spec fn wf(&self) -> bool {
        &&& (forall|i: int| 0 <= i < self@.len() ==> (#[trigger] self@[i]).wf())
        &&& (forall|i: int, j: int|
            #![trigger self@[i], self@[j]]
            0 <= i < j < self@.len() ==> !same_slot(self@[i], self@[j]))
    }

    /// True when some entry sits at the slot named by
    /// `(year, month, day, owner)`.
    pub open spec fn has_entry(&self, year: u16, month: u8, day: u8, owner: Seq<u8>) -> bool {
        exists|i: int| 0 <= i < self@.len() && entry_at(#[trigger] self@[i], year, month, day, owner)
    }

    /// Which way a create with these key fields must go: month checked first,
    /// then day, then the slot's uniqueness.
    pub open spec fn create_entry_result(&self, year: u16, month: u8, day: u8, owner: Seq<u8>) -> Result<(), JournalError> {
        if month == 0 || month > 12 {
            Err(JournalError::InvalidMonth)
        } else if day == 0 || day > 31 {
            Err(JournalError::InvalidDay)
        } else if self.has_entry(year, month, day, owner) {
            Err(JournalError::DefaultError)
        } else {
            Ok(())
        }
    }

    /// Which way an edit or delete aimed at `owner`'s record must go: the
    /// record must exist, and the caller must be its stored authority.
    pub open spec fn mutate_entry_result(&self, caller: Seq<u8>, owner: Seq<u8>, year: u16, month: u8, day: u8) -> Result<(), JournalError> {
        if !self.has_entry(year, month, day, owner) {
            Err(JournalError::DefaultError)
        } else if caller != owner {
            Err(JournalError::Unauthorized)
        } else {
            Ok(())
        }
    }

    /// An empty journal.
    pub fn new() -> (r: Journal)
        ensures
            r.wf(),
            r@ == Seq::<Entry>::empty(),
    {
        Journal { entries: Vec::new() }
    }

    /// How many entries are stored.
    pub fn entry_count(&self) -> (r: usize)
        ensures
            r == self@.len(),
    {
        self.entries.len()
    }

    /// The index of the entry at `(year, month, day, owner)`, if any.
    fn find_index(&self, year: u16, month: u8, day: u8, owner: &Identity) -> (r: Option<usize>)
        ensures
            r matches Some(i) ==> i < self@.len() && entry_at(self@[i as int], year, month, day, owner@),
            r is None ==> !self.has_entry(year, month, day, owner@),
    {
        let n = self.entries.len();
        let mut i: usize = 0;
        while i < n
            invariant
                i <= n,
                n == self@.len(),
                forall|k: int| 0 <= k < i ==> !entry_at(#[trigger] self@[k], year, month, day, owner@),
            decreases n - i,
        {
            let e = &self.entries[i];
            if e.year == year && e.month == month && e.day == day && e.authority.same_as(owner) {
                return Some(i);
            }
            i += 1;
        }
        None
    }

    /// The entry at `(year, month, day, owner)`, if any.
    pub fn get_entry(&self, owner: &Identity, year: u16, month: u8, day: u8) -> (r: Option<&Entry>)
        ensures
            r matches Some(e) ==> entry_at(*e, year, month, day, owner@)
                && exists|i: int| 0 <= i < self@.len() && #[trigger] self@[i] == *e,
            r is None ==> !self.has_entry(year, month, day, owner@),
    {
        match self.find_index(year, month, day, owner) {
            Some(i) => Some(&self.entries[i]),
            None => None,
        }
    }

    /// Creates `owner`'s entry for the given date. Fails with `InvalidMonth`
    /// or `InvalidDay` on an out-of-range field, and with the generic error
    /// when the slot is already taken; on success the new record, with
    /// `authority = owner`, is appended and nothing else changes.
    pub fn create_entry(&mut self, owner: Identity, mood: String, year: u16, month: u8, day: u8, weather: String, message: String) -> (r: Result<(), JournalError>)
        requires
            old(self).wf(),
            owner.wf(),
            mood@.len() <= MAX_MOOD_LENGTH,
            weather@.len() <= MAX_WEATHER_LENGTH,
            message@.len() <= MAX_MESSAGE_LENGTH,
        ensures
            final(self).wf(),
            r == old(self).create_entry_result(year, month, day, owner@),
            r is Err ==> final(self)@ == old(self)@,
            r is Ok ==> final(self)@ == old(self)@.push(
                (Entry { authority: owner, mood, year, month, day, weather, message })),
            r is Ok ==> final(self).has_entry(year, month, day, owner@),
    {
        if month == 0 || month > 12 {
            return Err(JournalError::InvalidMonth);
        }
        if day == 0 || day > 31 {
            return Err(JournalError::InvalidDay);
        }
        if self.find_index(year, month, day, &owner).is_some() {
            return Err(JournalError::DefaultError);
        }
        let entry = Entry { authority: owner, mood, year, month, day, weather, message };
        self.entries.push(entry);
        proof {
            let s = self@;
            let prev = old(self)@;
            assert forall|i: int| 0 <= i < s.len() implies (#[trigger] s[i]).wf() by {
                if i < prev.len() {
                    assert(s[i] == prev[i]);
                }
            }
            assert forall|i: int, j: int|
                #![trigger s[i], s[j]]
                0 <= i < j < s.len() implies !same_slot(s[i], s[j]) by {
                if j < prev.len() {
                    assert(s[i] == prev[i] && s[j] == prev[j]);
                } else {
                    assert(s[i] == prev[i]);
                    assert(!entry_at(prev[i], year, month, day, owner@));
                }
            }
            assert(entry_at(s[prev.len() as int], year, month, day, owner@));
        }
        Ok(())
    }

    /// Overwrites the mood, weather and message of `owner`'s record for the
    /// given date. Fails with the generic error when no such record exists,
    /// and with `Unauthorized` unless the caller is the stored authority; the
    /// record's authority and date never change, and no other record does.
    pub fn edit_entry(&mut self, caller: &Identity, owner: &Identity, year: u16, month: u8, day: u8, mood: String, weather: String, message: String) -> (r: Result<(), JournalError>)
        requires
            old(self).wf(),
            caller.wf(),
            mood@.len() <= MAX_MOOD_LENGTH,
            weather@.len() <= MAX_WEATHER_LENGTH,
            message@.len() <= MAX_MESSAGE_LENGTH,
        ensures
            final(self).wf(),
            r == old(self).mutate_entry_result(caller@, owner@, year, month, day),
            r is Err ==> final(self)@ == old(self)@,
            r is Ok ==> exists|i: int|
                0 <= i < old(self)@.len()
                && entry_at(#[trigger] old(self)@[i], year, month, day, owner@)
                && final(self)@ == old(self)@.update(i, with_new_texts(old(self)@[i], mood, weather, message)),
    {
        let idx = match self.find_index(year, month, day, owner) {
            None => {
                return Err(JournalError::DefaultError);
            },
            Some(i) => i,
        };
        if !caller.same_as(&self.entries[idx].authority) {
            return Err(JournalError::Unauthorized);
        }
        let prev_entry = self.entries.remove(idx);
        let new_entry = Entry {
            authority: prev_entry.authority,
            mood,
            year: prev_entry.year,
            month: prev_entry.month,
            day: prev_entry.day,
            weather,
            message,
        };
        self.entries.insert(idx, new_entry);
        proof {
            let s = self@;
            let prev = old(self)@;
            let i = idx as int;
            assert(s =~= prev.update(i, with_new_texts(prev[i], mood, weather, message)));
            assert forall|p: int| 0 <= p < s.len() implies (#[trigger] s[p]).wf() by {
                if p != i {
                    assert(s[p] == prev[p]);
                }
            }
            assert forall|p: int, q: int|
                #![trigger s[p], s[q]]
                0 <= p < q < s.len() implies !same_slot(s[p], s[q]) by {
                assert(!same_slot(prev[p], prev[q]));
                assert(same_slot(s[p], prev[p]) && same_slot(s[q], prev[q]));
            }
        }
        Ok(())
    }

    /// Removes `owner`'s record for the given date. Fails with the generic
    /// error when no such record exists, and with `Unauthorized` unless the
    /// caller is the stored authority; on success that record alone is gone.
    pub fn delete_entry(&mut self, caller: &Identity, owner: &Identity, year: u16, month: u8, day: u8) -> (r: Result<(), JournalError>)
        requires
            old(self).wf(),
            caller.wf(),
        ensures
            final(self).wf(),
            r == old(self).mutate_entry_result(caller@, owner@, year, month, day),
            r is Err ==> final(self)@ == old(self)@,
            r is Ok ==> exists|i: int|
                0 <= i < old(self)@.len()
                && entry_at(#[trigger] old(self)@[i], year, month, day, owner@)
                && final(self)@ == old(self)@.remove(i),
            r is Ok ==> !final(self).has_entry(year, month, day, owner@),
    {
        let idx = match self.find_index(year, month, day, owner) {
            None => {
                return Err(JournalError::DefaultError);
            },
            Some(i) => i,
        };
        if !caller.same_as(&self.entries[idx].authority) {
            return Err(JournalError::Unauthorized);
        }
        self.entries.remove(idx);
        proof {
            let s = self@;
            let prev = old(self)@;
            let i = idx as int;
            assert forall|p: int| 0 <= p < s.len() implies (#[trigger] s[p]).wf() by {
                if p < i {
                    assert(s[p] == prev[p]);
                } else {
                    assert(s[p] == prev[p + 1]);
                }
            }
            assert forall|p: int, q: int|
                #![trigger s[p], s[q]]
                0 <= p < q < s.len() implies !same_slot(s[p], s[q]) by {
                let p0 = if p < i { p } else { p + 1 };
                let q0 = if q < i { q } else { q + 1 };
                assert(s[p] == prev[p0] && s[q] == prev[q0]);
                assert(!same_slot(prev[p0], prev[q0]));
            }
            assert forall|p: int| 0 <= p < s.len() implies !entry_at(#[trigger] s[p], year, month, day, owner@) by {
                let p0 = if p < i { p } else { p + 1 };
                assert(s[p] == prev[p0]);
                if entry_at(prev[p0], year, month, day, owner@) {
                    if p0 < i {
                        assert(!same_slot(prev[p0], prev[i]));
                    } else {
                        assert(!same_slot(prev[i], prev[p0]));
                    }
                }
            }
        }
        Ok(())
    }
}

/// Validates the key fields and builds the record a successful create
/// persists: month then day are range-checked, and the new entry's authority
/// is the owner who signed the creation.
pub fn create_entry_handler(owner: Identity, mood: String, year: u16, month: u8, day: u8, weather: String, message: String) -> (r: Result<Entry, JournalError>)
    requires
        owner.wf(),
        mood@.len() <= MAX_MOOD_LENGTH,
        weather@.len() <= MAX_WEATHER_LENGTH,
        message@.len() <= MAX_MESSAGE_LENGTH,
    ensures
        month == 0 || month > 12 ==> r == Err::<Entry, JournalError>(JournalError::InvalidMonth),
        1 <= month <= 12 && (day == 0 || day > 31) ==> r == Err::<Entry, JournalError>(JournalError::InvalidDay),
        1 <= month <= 12 && 1 <= day <= 31 ==> r == Ok::<Entry, JournalError>(
            (Entry { authority: owner, mood, year, month, day, weather, message })),
{
    if month == 0 || month > 12 {
        return Err(JournalError::InvalidMonth);
    }
    if day == 0 || day > 31 {
        return Err(JournalError::InvalidDay);
    }
    Ok(Entry { authority: owner, mood, year, month, day, weather, message })
}

/// Overwrites a record's three mutable texts, only for its stored authority;
/// the caller's identity is checked against the record before any write.
pub fn edit_entry_handler(entry: &mut Entry, caller: &Identity, mood: String, weather: String, message: String) -> (r: Result<(), JournalError>)
    requires
        old(entry).wf(),
        mood@.len() <= MAX_MOOD_LENGTH,
        weather@.len() <= MAX_WEATHER_LENGTH,
        message@.len() <= MAX_MESSAGE_LENGTH,
    ensures
        final(entry).wf(),
        caller@ != old(entry).authority@ ==> r == Err::<(), JournalError>(JournalError::Unauthorized)
            && *final(entry) == *old(entry),
        caller@ == old(entry).authority@ ==> r == Ok::<(), JournalError>(())
            && *final(entry) == with_new_texts(*old(entry), mood, weather, message),
{
    if !caller.same_as(&entry.authority) {
        return Err(JournalError::Unauthorized);
    }
    entry.mood = mood;
    entry.weather = weather;
    entry.message = message;
    Ok(())
}

/// Decides whether a caller may delete a record: only its stored authority.
pub fn delete_entry_handler(entry: &Entry, caller: &Identity) -> (r: Result<(), JournalError>)
    ensures
        caller@ != entry.authority@ ==> r == Err::<(), JournalError>(JournalError::Unauthorized),
        caller@ == entry.authority@ ==> r == Ok::<(), JournalError>(()),
{
    if caller.same_as(&entry.authority) {
        Ok(())
    } else {
        Err(JournalError::Unauthorized)
    }
}

/// Law: the derived key material pins down exactly the identifying fields —
/// two well-formed entries share a key precisely when they share a slot, so
/// rejecting duplicate keys is rejecting duplicate `(year, month, day, owner)`.
pub proof fn lemma_entry_key_injective(a: Entry, b: Entry)
    requires
        a.wf(),
        b.wf(),
    ensures
        (a.key() == b.key()) <==> same_slot(a, b),
{
    if a.key() == b.key() {
        assert(a.key()[0] == b.key()[0]);
        assert(a.key()[1] == b.key()[1]);
        assert(a.key()[2] == b.key()[2]);
        assert(a.key()[3] == b.key()[3]);
        assert(a.year == a.year % 256 + 256 * (a.year / 256));
        assert(b.year == b.year % 256 + 256 * (b.year / 256));
        assert(a.year == b.year && a.month == b.month && a.day == b.day);
        assert forall|k: int| 0 <= k < a.authority@.len() implies a.authority@[k] == b.authority@[k] by {
            assert(a.key()[4 + k] == b.key()[4 + k]);
        }
        assert(a.authority@ =~= b.authority@);
    }
    if same_slot(a, b) {
        assert(a.key() == b.key());
    }
}

/// Law: entries are unique per `(year, month, day, owner)`. Once a create for
/// that key has succeeded and appended its entry, an identical create on the
/// resulting journal fails.
pub proof fn lemma_second_create_fails(before: Journal, after: Journal, e: Entry, year: u16, month: u8, day: u8, owner: Seq<u8>)
    requires
        before.create_entry_result(year, month, day, owner) is Ok,
        entry_at(e, year, month, day, owner),
        after@ == before@.push(e),
    ensures
        after.create_entry_result(year, month, day, owner)
            == Err::<(), JournalError>(JournalError::DefaultError),
{
    assert(after@[before@.len() as int] == e);
    assert(after.has_entry(year, month, day, owner));
}

} // verus!
