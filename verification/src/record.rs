//! Credential records and the ordered collection that owns them.

use crate::text::{chars_of, lowercase, occurs, occurs_in, to_lowercase};
use vstd::prelude::*;

verus! {

/// One credential: what it is for, who signs in, and the secret.
///
/// No field is validated: empty texts and duplicates of other records are
/// accepted.
#[derive(Debug, PartialEq, Eq)]
pub struct Record {
    pub name: String,
    pub username: String,
    pub password: String,
}

/// A record as the contracts speak of it.
pub struct RecordView {
    pub name: Seq<char>,
    pub username: Seq<char>,
    pub password: Seq<char>,
}

impl View for Record {
    type V = RecordView;

    open spec fn view(&self) -> RecordView {
        RecordView { name: self.name@, username: self.username@, password: self.password@ }
    }
}

/// One line of a listing: a record's position, counted from one, with its
/// name and username. The password is not part of it.
#[derive(Clone, Copy, Debug, PartialEq, Eq)]
pub struct ListedEntry<'a> {
    pub index: usize,
    pub name: &'a str,
    pub username: &'a str,
}

/// A listing line as the contracts speak of it.
pub struct ListedEntryView {
    pub index: nat,
    pub name: Seq<char>,
    pub username: Seq<char>,
}

impl<'a> View for ListedEntry<'a> {
    type V = ListedEntryView;

    open spec fn view(&self) -> ListedEntryView {
        ListedEntryView { index: self.index as nat, name: self.name@, username: self.username@ }
    }
}

/// The records of a store in insertion order.
#[derive(Debug, PartialEq, Eq)]
pub struct RecordStore {
    pub entries: Vec<Record>,
}

impl View for RecordStore {
    type V = Seq<RecordView>;

    open spec fn view(&self) -> Seq<RecordView> {
        self.entries@.map_values(|record: Record| record@)
    }
}

/// Whether the lowercased query `needle` occurs in the lowercased name or
/// username of `record`.
pub open spec fn holds_lowered(record: RecordView, needle: Seq<char>) -> bool {
    occurs_in(needle, lowercase(record.name)) || occurs_in(needle, lowercase(record.username))
}

/// Whether `query` occurs, ignoring case, in the name or the username of
/// `record`.
pub open spec fn matches_query(record: RecordView, query: Seq<char>) -> bool {
    holds_lowered(record, lowercase(query))
}

/// The records among `records` that match `query`, in their order.
pub open spec fn matching(records: Seq<RecordView>, query: Seq<char>) -> Seq<RecordView> {
    records.filter(|record: RecordView| matches_query(record, query))
}

/// The listing of `records`: one line for each, numbered from one.
pub open spec fn listing(records: Seq<RecordView>) -> Seq<ListedEntryView> {
    Seq::new(
        records.len(),
        |i: int|
            ListedEntryView {
                index: (i + 1) as nat,
                name: records[i].name,
                username: records[i].username,
            },
    )
}

/// The views of borrowed records.
pub open spec fn views_of(found: Seq<&Record>) -> Seq<RecordView> {
    found.map_values(|record: &Record| record@)
}

/// The views of listing lines.
pub open spec fn lines_of(listed: Seq<ListedEntry>) -> Seq<ListedEntryView> {
    listed.map_values(|line: ListedEntry| line@)
}

/// A record added to a store is listed last, under the number of records the
/// store then has, with its name and username; the lines before it stay as
/// they were.
pub proof fn lemma_listing_after_add(records: Seq<RecordView>, record: RecordView)
    ensures
        listing(records.push(record)) == listing(records).push(
            ListedEntryView {
                index: records.len() + 1,
                name: record.name,
                username: record.username,
            },
        ),
{
    assert(listing(records.push(record)) =~= listing(records).push(
        ListedEntryView {
            index: records.len() + 1,
            name: record.name,
            username: record.username,
        },
    ));
}

impl Record {
    /// Makes a record of three texts, as they are.
    pub fn new(name: String, username: String, password: String) -> (record: Record)
        ensures
            record.name == name,
            record.username == username,
            record.password == password,
    {
        Record { name, username, password }
    }

    /// Tells whether the lowercased query `needle` occurs in the lowercased
    /// name or username.
    pub fn holds_lowered(&self, needle: &[char]) -> (found: bool)
        ensures
            found == holds_lowered(self@, needle@),
    {
        let name = chars_of(to_lowercase(self.name.as_str()).as_str());
        if occurs(name.as_slice(), needle) {
            return true;
        }
        let username = chars_of(to_lowercase(self.username.as_str()).as_str());
        occurs(username.as_slice(), needle)
    }
}

impl RecordStore {
    /// Makes a store without records.
    pub fn new() -> (store: RecordStore)
        ensures
            store@ == Seq::<RecordView>::empty(),
    {
        RecordStore { entries: Vec::new() }
    }

    /// The store that a load results in: the decoded one where there is one,
    /// the empty one where the file was missing, did not open under the key
    /// or did not decode.
    pub fn or_empty(decoded: Option<RecordStore>) -> (store: RecordStore)
        ensures
            match decoded {
                Some(found) => store == found,
                None => store@ == Seq::<RecordView>::empty(),
            },
    {
        match decoded {
            Some(found) => found,
            None => RecordStore::new(),
        }
    }

    /// The number of records.
    pub fn len(&self) -> (n: usize)
        ensures
            n == self@.len(),
    {
        self.entries.len()
    }

    /// Tells whether the store has no record.
    pub fn is_empty(&self) -> (empty: bool)
        ensures
            empty == (self@.len() == 0),
    {
        self.entries.len() == 0
    }

    /// Appends `record` behind the records that are there. No field is
    /// validated and no duplicate is merged.
    pub fn add(&mut self, record: Record)
        ensures
            final(self)@ == old(self)@.push(record@),
    {
        self.entries.push(record);
    }

    /// Lists the records in insertion order, each with its position counted
    /// from one, its name and its username, and without its password.
    pub fn list(&self) -> (listed: Vec<ListedEntry<'_>>)
        ensures
            lines_of(listed@) == listing(self@),
    {
        let mut listed: Vec<ListedEntry<'_>> = Vec::new();
        let n: usize = self.entries.len();
        let mut i: usize = 0;
        while i < n
            invariant
                n == self.entries@.len(),
                i <= n,
                listed@.len() == i,
                forall|k: int|
                    0 <= k < i ==> (#[trigger] listed@[k])@ == (ListedEntryView {
                        index: (k + 1) as nat,
                        name: self.entries@[k].name@,
                        username: self.entries@[k].username@,
                    }),
            decreases n - i,
        {
            let record = &self.entries[i];
            listed.push(
                ListedEntry {
                    index: i + 1,
                    name: record.name.as_str(),
                    username: record.username.as_str(),
                },
            );
            i = i + 1;
        }
        assert(lines_of(listed@) =~= listing(self@));
        listed
    }

    /// Finds the records whose name or username holds `query`, ignoring
    /// case, and gives them whole, in insertion order. No match is an empty
    /// result.
    pub fn search(&self, query: &str) -> (found: Vec<&Record>)
        ensures
            views_of(found@) == matching(self@, query@),
    {
        let needle = chars_of(to_lowercase(query).as_str());
        let mut found: Vec<&Record> = Vec::new();
        let n: usize = self.entries.len();
        let mut i: usize = 0;
        let ghost pred = |record: RecordView| matches_query(record, query@);
        proof {
            self@.take(0).lemma_filter_len(pred);
            assert(views_of(found@) =~= self@.take(0).filter(pred));
        }
        while i < n
            invariant
                n == self.entries@.len(),
                i <= n,
                needle@ == lowercase(query@),
                pred == |record: RecordView| matches_query(record, query@),
                views_of(found@) == self@.take(i as int).filter(pred),
            decreases n - i,
        {
            let record = &self.entries[i];
            let ghost views_before = views_of(found@);
            proof {
                let before = self@.take(i as int);
                assert(self@.take(i + 1) =~= before.push(record@));
                before.lemma_filter_push(record@, pred);
            }
            if record.holds_lowered(needle.as_slice()) {
                found.push(record);
                assert(views_of(found@) =~= views_before.push(record@));
            }
            i = i + 1;
        }
        assert(self@.take(n as int) =~= self@);
        found
    }
}

impl Clone for Record {
    fn clone(&self) -> (copy: Record)
        ensures
            copy == *self,
    {
        Record {
            name: self.name.clone(),
            username: self.username.clone(),
            password: self.password.clone(),
        }
    }
}

impl Clone for RecordStore {
    fn clone(&self) -> (copy: RecordStore)
        ensures
            copy@ == self@,
    {
        let mut entries: Vec<Record> = Vec::new();
        let n: usize = self.entries.len();
        let mut i: usize = 0;
        while i < n
            invariant
                n == self.entries@.len(),
                i <= n,
                entries@ == self.entries@.take(i as int),
            decreases n - i,
        {
            entries.push(self.entries[i].clone());
            assert(self.entries@.take(i + 1) =~= self.entries@.take(i as int).push(
                self.entries@[i as int],
            ));
            i = i + 1;
        }
        assert(self.entries@.take(n as int) =~= self.entries@);
        RecordStore { entries }
    }
}

impl Default for RecordStore {
    fn default() -> (store: RecordStore)
        ensures
            store@ == Seq::<RecordView>::empty(),
    {
        RecordStore::new()
    }
}

} // verus!
