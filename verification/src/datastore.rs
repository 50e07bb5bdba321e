//! The files that the client keeps between loads, to tell a repository
//! that goes back in time from one that moves on.

use crate::text::{bytes_copy, str_equal};
use vstd::prelude::*;
use vstd::string::*;

verus! {

/// The name under which the latest clock reading is kept.
pub const LATEST_KNOWN_TIME_FILE: &'static str = "latest_known_time.json";

/// The name under which the timestamp metadata is kept.
pub const TIMESTAMP_FILE: &'static str = "timestamp.json";

/// The name under which the snapshot metadata is kept.
pub const SNAPSHOT_FILE: &'static str = "snapshot.json";

/// The name under which the top-level targets metadata is kept.
pub const TARGETS_FILE: &'static str = "targets.json";

/// The four fixed names are four different names.
pub proof fn lemma_file_names_differ()
    ensures
        LATEST_KNOWN_TIME_FILE@ != TIMESTAMP_FILE@,
        LATEST_KNOWN_TIME_FILE@ != SNAPSHOT_FILE@,
        LATEST_KNOWN_TIME_FILE@ != TARGETS_FILE@,
        TIMESTAMP_FILE@ != SNAPSHOT_FILE@,
        TIMESTAMP_FILE@ != TARGETS_FILE@,
        SNAPSHOT_FILE@ != TARGETS_FILE@,
{
    reveal_strlit("latest_known_time.json");
    reveal_strlit("timestamp.json");
    reveal_strlit("snapshot.json");
    reveal_strlit("targets.json");
    assert(LATEST_KNOWN_TIME_FILE@.len() == 22);
    assert(TIMESTAMP_FILE@.len() == 14);
    assert(SNAPSHOT_FILE@.len() == 13);
}

/// One file of a datastore.
#[derive(Debug)]
pub struct StoredFile {
    /// The file's name. No directories: a datastore is flat.
    pub name: String,
    /// What the file holds.
    pub bytes: Vec<u8>,
}

/// What a list of files holds under a name: the content of the last file
/// of that name.
pub open spec fn lookup(files: Seq<StoredFile>, name: Seq<char>) -> Option<Seq<u8>>
    decreases files.len(),
{
    if files.len() == 0 {
        None
    } else if files.last().name@ == name {
        Some(files.last().bytes@)
    } else {
        lookup(files.drop_last(), name)
    }
}

/// Whether a name occurs in a list of names.
pub open spec fn listed(names: Seq<String>, name: Seq<char>) -> bool {
    exists|i: int| 0 <= i < names.len() && #[trigger] names[i]@ == name
}

/// The files of a list, by name.
pub open spec fn files_by_name(files: Seq<StoredFile>) -> Map<Seq<char>, Seq<u8>> {
    Map::new(
        |name: Seq<char>| lookup(files, name) is Some,
        |name: Seq<char>| lookup(files, name).unwrap(),
    )
}

proof fn lemma_lookup_push(files: Seq<StoredFile>, file: StoredFile, name: Seq<char>)
    ensures
        lookup(files.push(file), name) == if file.name@ == name {
            Some(file.bytes@)
        } else {
            lookup(files, name)
        },
{
    assert(files.push(file).drop_last() =~= files);
}

proof fn lemma_listed_push(names: Seq<String>, added: String, name: Seq<char>)
    ensures
        listed(names.push(added), name) <==> listed(names, name) || added@ == name,
{
    let longer = names.push(added);
    if listed(longer, name) {
        let i = choose|i: int| 0 <= i < longer.len() && #[trigger] longer[i]@ == name;
        if i < names.len() {
            assert(names[i]@ == name);
        }
    }
    if listed(names, name) {
        let i = choose|i: int| 0 <= i < names.len() && #[trigger] names[i]@ == name;
        assert(longer[i]@ == name);
    }
    if added@ == name {
        assert(longer[names.len() as int]@ == name);
    }
}

/// A flat set of files, each written and replaced as a whole.
///
/// The store lives in memory. Whoever owns it decides where it comes from
/// before a load and where it is kept afterwards.
#[derive(Debug)]
pub struct Datastore {
    files: Vec<StoredFile>,
}

impl View for Datastore {
    type V = Map<Seq<char>, Seq<u8>>;

    closed spec fn view(&self) -> Map<Seq<char>, Seq<u8>> {
        files_by_name(self.files@)
    }
}

impl Datastore {
    /// A store without files.
    pub fn new() -> (store: Datastore)
        ensures
            store@ == Map::<Seq<char>, Seq<u8>>::empty(),
    {
        let store = Datastore { files: Vec::new() };
        store
    }

    /// The content of the file `name`, if there is such a file.
    pub fn get(&self, name: &str) -> (r: Option<Vec<u8>>)
        ensures
            match r {
                Some(bytes) => self@.contains_key(name@) && self@[name@] == bytes@,
                None => !self@.contains_key(name@),
            },
    {
        let mut i: usize = self.files.len();
        assert(self.files@.take(i as int) =~= self.files@);
        while i > 0
            invariant
                i <= self.files.len(),
                lookup(self.files@, name@) == lookup(self.files@.take(i as int), name@),
            decreases i,
        {
            i = i - 1;
            assert(self.files@.take(i + 1).drop_last() =~= self.files@.take(i as int));
            if str_equal(self.files[i].name.as_str(), name) {
                return Some(bytes_copy(self.files[i].bytes.as_slice()));
            }
        }
        None
    }

    /// Whether there is a file `name`.
    pub fn contains(&self, name: &str) -> (r: bool)
        ensures
            r == self@.contains_key(name@),
    {
        self.get(name).is_some()
    }

    /// Writes the file `name`, in place of any file of that name.
    pub fn create(&mut self, name: &str, bytes: Vec<u8>)
        ensures
            final(self)@ == old(self)@.insert(name@, bytes@),
    {
        self.remove(name);
        let ghost removed = self.files@;
        let file = StoredFile { name: String::from_str(name), bytes };
        self.files.push(file);
        proof {
            assert forall|other: Seq<char>|
                lookup(self.files@, other) == if other == name@ {
                    Some(bytes@)
                } else {
                    lookup(removed, other)
                } by {
                lemma_lookup_push(removed, file, other);
            }
            assert(files_by_name(self.files@) =~= files_by_name(removed).insert(name@, bytes@));
        }
    }

    /// Deletes the file `name`. Where there is no such file, nothing
    /// happens.
    pub fn remove(&mut self, name: &str)
        ensures
            final(self)@ == old(self)@.remove(name@),
    {
        let mut kept: Vec<StoredFile> = Vec::new();
        let mut i: usize = 0;
        while i < self.files.len()
            invariant
                i <= self.files.len(),
                forall|other: Seq<char>| #[trigger]
                    lookup(kept@, other) == if other == name@ {
                        None
                    } else {
                        lookup(self.files@.take(i as int), other)
                    },
            decreases self.files.len() - i,
        {
            let ghost kept_before = kept@;
            let ghost seen = self.files@.take(i as int);
            let ghost next = self.files@.take(i + 1);
            assert(next =~= seen.push(self.files@[i as int]));
            if !str_equal(self.files[i].name.as_str(), name) {
                let file = StoredFile {
                    name: self.files[i].name.clone(),
                    bytes: bytes_copy(self.files[i].bytes.as_slice()),
                };
                kept.push(file);
                proof {
                    assert forall|other: Seq<char>| #[trigger]
                        lookup(kept@, other) == if other == name@ {
                            None
                        } else {
                            lookup(next, other)
                        } by {
                        lemma_lookup_push(kept_before, file, other);
                        lemma_lookup_push(seen, self.files@[i as int], other);
                    }
                }
            } else {
                proof {
                    assert forall|other: Seq<char>| #[trigger]
                        lookup(kept@, other) == if other == name@ {
                            None
                        } else {
                            lookup(next, other)
                        } by {
                        lemma_lookup_push(seen, self.files@[i as int], other);
                    }
                }
            }
            i = i + 1;
        }
        assert(self.files@.take(i as int) =~= self.files@);
        self.files = kept;
    }

    /// The names of all files, each once.
    pub fn names(&self) -> (names: Vec<String>)
        ensures
            forall|name: Seq<char>| self@.contains_key(name) <==> #[trigger] listed(names@, name),
            forall|i: int, j: int|
                0 <= i < j < names@.len() ==> names@[i]@ != names@[j]@,
    {
        let mut names: Vec<String> = Vec::new();
        let mut i: usize = 0;
        while i < self.files.len()
            invariant
                i <= self.files.len(),
                forall|name: Seq<char>|
                    lookup(self.files@.take(i as int), name) is Some <==> #[trigger] listed(
                        names@,
                        name,
                    ),
                forall|k: int, j: int|
                    0 <= k < j < names@.len() ==> names@[k]@ != names@[j]@,
            decreases self.files.len() - i,
        {
            let ghost names_before = names@;
            let ghost seen = self.files@.take(i as int);
            let ghost next = self.files@.take(i + 1);
            let ghost current = self.files@[i as int];
            assert(next =~= seen.push(current));
            let mut known = false;
            let mut k: usize = 0;
            while k < names.len()
                invariant
                    k <= names.len(),
                    i < self.files.len(),
                    current == self.files@[i as int],
                    known <==> listed(names@.take(k as int), current.name@),
                decreases names.len() - k,
            {
                let ghost prefix = names@.take(k as int);
                assert(names@.take(k + 1) =~= prefix.push(names@[k as int]));
                proof {
                    lemma_listed_push(prefix, names@[k as int], current.name@);
                }
                if names[k] == self.files[i].name {
                    known = true;
                }
                k = k + 1;
            }
            assert(names@.take(k as int) =~= names@);
            if !known {
                let added = self.files[i].name.clone();
                names.push(added);
                proof {
                    assert forall|name: Seq<char>|
                        lookup(next, name) is Some <==> #[trigger] listed(names@, name) by {
                        lemma_lookup_push(seen, current, name);
                        lemma_listed_push(names_before, added, name);
                    }
                    assert forall|a: int, b: int| 0 <= a < b < names@.len() implies names@[a]@
                        != names@[b]@ by {
                        if b == names_before.len() {
                            assert(names_before[a]@ != current.name@);
                        }
                    }
                }
            } else {
                proof {
                    assert forall|name: Seq<char>|
                        lookup(next, name) is Some <==> #[trigger] listed(names@, name) by {
                        lemma_lookup_push(seen, current, name);
                    }
                }
            }
            i = i + 1;
        }
        assert(self.files@.take(i as int) =~= self.files@);
        names
    }
}

} // verus!
