use vstd::prelude::*;
use vstd::string::StringExecFns;
use crate::error::SynkError;
use crate::model::{
    entries_map, keys_distinct, keys_of, lemma_entries_map_absent, lemma_entries_map_dom,
    lemma_entries_map_index, lemma_entries_map_len, lemma_entries_map_push,
    lemma_entries_map_update,
};
use crate::snapshot::{decode_entries, encode_entries, json_error_text, json_text, parsed_snapshot};

verus! {

/// Where the snapshot of a node with the given data directory lives.
pub open spec fn snapshot_path_of(data_dir: Seq<char>) -> Seq<char> {
    data_dir + "/storage.json"@
}

/// Where the snapshot of a node with the given data directory lives.
pub fn snapshot_path(data_dir: &str) -> (r: String)
    ensures
        r@ == snapshot_path_of(data_dir@),
{
    String::from_str(data_dir).concat("/storage.json")
}

/// The store that a snapshot text loads as: an absent or empty file gives an
/// empty store, any other text what serde_json reads from it.
pub open spec fn loaded_map(snapshot: Option<String>) -> Option<Map<Seq<char>, Seq<char>>> {
    match snapshot {
        None => Some(Map::empty()),
        Some(t) => if t@.len() == 0 {
            Some(Map::empty())
        } else {
            parsed_snapshot(t@)
        },
    }
}

/// The key-value store of one node: each key at most once, last write wins.
pub struct Storage {
    entries: Vec<(String, String)>,
    file_path: String,
}

impl View for Storage {
    type V = Map<Seq<char>, Seq<char>>;

    closed spec fn view(&self) -> Map<Seq<char>, Seq<char>> {
        entries_map(self.entries@)
    }
}

impl Storage {
    /// The store's internal invariant: no key is held twice.
    #[verifier::type_invariant]
    spec fn wf(&self) -> bool {
        keys_distinct(self.entries@)
    }

    /// The path of the snapshot file, as a sequence of characters.
    pub closed spec fn spec_file_path(&self) -> Seq<char> {
        self.file_path@
    }

    /// Opens the store of a node whose data directory is `data_dir`, from the
    /// text of its snapshot file (`None` where there is no such file).
    /// A snapshot that is not a JSON object of strings is refused.
    pub fn new(data_dir: &str, snapshot: Option<String>) -> (r: Result<Storage, SynkError>)
        ensures
            r is Ok <==> loaded_map(snapshot) is Some,
            r matches Ok(s) ==> s@ == loaded_map(snapshot).unwrap()
                && s.spec_file_path() == snapshot_path_of(data_dir@),
            r matches Err(e) ==> e is Serialization,
    {
        let file_path = snapshot_path(data_dir);
        let mut storage = Storage { entries: Vec::new(), file_path };
        assert(storage.entries@.len() == 0);
        assert(storage@ =~= Map::empty());
        assert(keys_of(storage.entries@) =~= Seq::empty());
        match snapshot {
            None => Ok(storage),
            Some(text) => {
                if text.as_str().is_empty() {
                    Ok(storage)
                } else {
                    match decode_entries(text.as_str()) {
                        Ok(entries) => {
                            storage.entries = entries;
                            Ok(storage)
                        },
                        Err(e) => Err(SynkError::Serialization(json_error_text(&e))),
                    }
                }
            },
        }
    }

    /// The path of the snapshot file.
    pub fn file_path(&self) -> (r: &String)
        ensures
            r@ == self.spec_file_path(),
    {
        &self.file_path
    }

    /// Finds the position of `key` among the entries.
    fn position(&self, key: &String) -> (r: Option<usize>)
        ensures
            r matches Some(i) ==> i < self.entries@.len() && self.entries@[i as int].0@ == key@,
            r is None ==> forall|i: int|
                0 <= i < self.entries@.len() ==> self.entries@[i].0@ != key@,
    {
        proof {
            use_type_invariant(self);
        }
        let mut i: usize = 0;
        while i < self.entries.len()
            invariant
                i <= self.entries@.len(),
                forall|j: int| 0 <= j < i ==> self.entries@[j].0@ != key@,
            decreases self.entries@.len() - i,
        {
            if self.entries[i].0 == *key {
                return Some(i);
            }
            i = i + 1;
        }
        None
    }

    /// The value stored under `key`, as a copy.
    pub fn get(&self, key: &str) -> (r: Option<String>)
        ensures
            r is Some <==> self@.contains_key(key@),
            r matches Some(v) ==> v@ == self@[key@],
    {
        proof {
            use_type_invariant(self);
        }
        let k = key.to_owned();
        match self.position(&k) {
            Some(i) => {
                proof {
                    lemma_entries_map_index(self.entries@, i as int);
                }
                Some(self.entries[i].1.clone())
            },
            None => {
                proof {
                    lemma_entries_map_absent(self.entries@, key@);
                }
                None
            },
        }
    }

    /// Stores `value` under `key`, replacing any earlier value, and returns the
    /// snapshot text of the whole store that must then be written to disk.
    /// The change stays in memory even where the snapshot cannot be made.
    pub fn set(&mut self, key: String, value: String) -> (r: Result<String, SynkError>)
        ensures
            final(self)@ == old(self)@.insert(key@, value@),
            final(self).spec_file_path() == old(self).spec_file_path(),
            r is Ok,
            r matches Ok(t) ==> t@ == json_text(final(self)@) && t@.len() > 0 && parsed_snapshot(
                t@,
            ) == Some(final(self)@),
    {
        proof {
            use_type_invariant(&*self);
        }
        let pos = self.position(&key);
        let mut entries: Vec<(String, String)> = Vec::new();
        proof {
            assert(keys_of(entries@) =~= Seq::empty());
        }
        std::mem::swap(&mut entries, &mut self.entries);
        match pos {
            Some(i) => {
                proof {
                    lemma_entries_map_update(entries@, i as int, (key, value));
                }
                entries.set(i, (key, value));
            },
            None => {
                proof {
                    lemma_entries_map_push(entries@, (key, value));
                }
                entries.push((key, value));
            },
        }
        self.entries = entries;
        self.snapshot()
    }

    /// The snapshot text of the whole store.
    pub fn snapshot(&self) -> (r: Result<String, SynkError>)
        ensures
            r is Ok,
            r matches Ok(t) ==> t@ == json_text(self@) && t@.len() > 0 && parsed_snapshot(t@) == Some(
                self@,
            ),
    {
        proof {
            use_type_invariant(self);
        }
        match encode_entries(&self.entries) {
            Ok(t) => Ok(t),
            Err(e) => Err(SynkError::Serialization(json_error_text(&e))),
        }
    }

    /// Every key held, each once, in no particular order.
    pub fn keys(&self) -> (r: Vec<String>)
        ensures
            r@.map_values(|k: String| k@).no_duplicates(),
            r@.map_values(|k: String| k@).to_set() == self@.dom(),
            r@.len() == self@.len(),
    {
        proof {
            use_type_invariant(self);
        }
        let mut r: Vec<String> = Vec::new();
        let mut i: usize = 0;
        while i < self.entries.len()
            invariant
                i <= self.entries@.len(),
                r@.len() == i,
                forall|j: int| 0 <= j < i ==> r@[j]@ == self.entries@[j].0@,
            decreases self.entries@.len() - i,
        {
            r.push(self.entries[i].0.clone());
            i = i + 1;
        }
        proof {
            assert(r@.map_values(|k: String| k@) =~= keys_of(self.entries@));
            lemma_entries_map_dom(self.entries@);
            lemma_entries_map_len(self.entries@);
        }
        r
    }

    /// The number of keys held.
    pub fn len(&self) -> (r: usize)
        ensures
            r == self@.len(),
    {
        proof {
            use_type_invariant(self);
        }
        proof {
            lemma_entries_map_len(self.entries@);
        }
        self.entries.len()
    }
}

} // verus!
