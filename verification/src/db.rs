use vstd::prelude::*;
use vstd::string::*;
use crate::json::JsonValue;
use crate::http_api_wrapper::obj_lookup;
use crate::sdk::str_eq;

verus! {

/// Entries with this key taken out, order kept.
spec fn without_key(entries: Seq<(String, JsonValue)>, key: Seq<char>) -> Seq<
    (String, JsonValue),
>
    decreases entries.len(),
{
    if entries.len() == 0 {
        Seq::empty()
    } else if entries[0].0@ == key {
        without_key(entries.drop_first(), key)
    } else {
        seq![entries[0]] + without_key(entries.drop_first(), key)
    }
}

/// Looking a key up after appending an entry: the old binding wins, a
/// fresh key finds the new entry.
proof fn lemma_obj_lookup_push(
    entries: Seq<(String, JsonValue)>,
    e: (String, JsonValue),
    key: Seq<char>,
)
    ensures
        obj_lookup(entries.push(e), key) == if obj_lookup(entries, key) is Some {
            obj_lookup(entries, key)
        } else if e.0@ == key {
            Some(e.1)
        } else {
            None::<JsonValue>
        },
    decreases entries.len(),
{
    if entries.len() > 0 {
        assert(entries.push(e)[0] == entries[0]);
        assert(entries.push(e).drop_first() =~= entries.drop_first().push(e));
        lemma_obj_lookup_push(entries.drop_first(), e, key);
        if entries[0].0@ == key {
            assert(obj_lookup(entries, key) == Some(entries[0].1));
            assert(obj_lookup(entries.push(e), key) == Some(entries[0].1));
        } else {
            assert(obj_lookup(entries, key) == obj_lookup(entries.drop_first(), key));
            assert(obj_lookup(entries.push(e), key) == obj_lookup(
                entries.drop_first().push(e),
                key,
            ));
        }
    } else {
        assert(entries.push(e) =~= seq![e]);
        assert(entries.push(e).drop_first() =~= Seq::<(String, JsonValue)>::empty());
        assert(obj_lookup(entries, key) is None);
        if e.0@ == key {
            assert(obj_lookup(entries.push(e), key) == Some(e.1));
        } else {
            assert(obj_lookup(entries.push(e), key) == obj_lookup(
                entries.push(e).drop_first(),
                key,
            ));
        }
    }
}

/// Replacing the first entry of a key in place: that key now holds the
/// new value and every other key is untouched.
proof fn lemma_obj_lookup_update(
    entries: Seq<(String, JsonValue)>,
    i: int,
    e: (String, JsonValue),
    key: Seq<char>,
)
    requires
        0 <= i < entries.len(),
        entries[i].0@ == e.0@,
        forall|j: int| 0 <= j < i ==> entries[j].0@ != e.0@,
    ensures
        obj_lookup(entries.update(i, e), e.0@) == Some(e.1),
        key != e.0@ ==> obj_lookup(entries.update(i, e), key) == obj_lookup(entries, key),
    decreases i,
{
    let updated = entries.update(i, e);
    if i == 0 {
        assert(updated[0] == e);
        assert(updated.drop_first() =~= entries.drop_first());
    } else {
        assert(updated[0] == entries[0]);
        assert(entries[0].0@ != e.0@);
        assert(updated.drop_first() =~= entries.drop_first().update(i - 1, e));
        lemma_obj_lookup_update(entries.drop_first(), i - 1, e, key);
    }
}

/// Looking a key up in a filtered list: the filtered key is gone and
/// every other key is untouched.
proof fn lemma_without_key_lookup(entries: Seq<(String, JsonValue)>, key: Seq<char>, k2: Seq<char>)
    ensures
        obj_lookup(without_key(entries, key), key) is None,
        k2 != key ==> obj_lookup(without_key(entries, key), k2) == obj_lookup(entries, k2),
    decreases entries.len(),
{
    if entries.len() > 0 {
        lemma_without_key_lookup(entries.drop_first(), key, k2);
        if entries[0].0@ != key {
            let rest = without_key(entries.drop_first(), key);
            assert((seq![entries[0]] + rest)[0] == entries[0]);
            assert((seq![entries[0]] + rest).drop_first() =~= rest);
        }
    }
}

/// Filtering one more entry from the front.
proof fn lemma_without_key_snoc(
    entries: Seq<(String, JsonValue)>,
    e: (String, JsonValue),
    key: Seq<char>,
)
    ensures
        without_key(entries.push(e), key) == if e.0@ == key {
            without_key(entries, key)
        } else {
            without_key(entries, key).push(e)
        },
    decreases entries.len(),
{
    if entries.len() == 0 {
        assert(entries.push(e) =~= seq![e]);
        assert(seq![e].drop_first() =~= Seq::<(String, JsonValue)>::empty());
        assert(without_key(entries, key) =~= Seq::<(String, JsonValue)>::empty());
        assert(without_key(seq![e].drop_first(), key) =~= Seq::<(String, JsonValue)>::empty());
        if e.0@ != key {
            assert(without_key(seq![e], key) == seq![e] + without_key(
                seq![e].drop_first(),
                key,
            ));
            assert(without_key(seq![e], key) =~= seq![e]);
            assert(without_key(entries, key).push(e) =~= seq![e]);
        }
    } else {
        assert(entries.push(e)[0] == entries[0]);
        assert(entries.push(e).drop_first() =~= entries.drop_first().push(e));
        lemma_without_key_snoc(entries.drop_first(), e, key);
        if entries[0].0@ == key {
            assert(without_key(entries.push(e), key) == without_key(
                entries.drop_first().push(e),
                key,
            ));
            assert(without_key(entries, key) == without_key(entries.drop_first(), key));
        } else {
            assert(without_key(entries.push(e), key) == seq![entries[0]] + without_key(
                entries.drop_first().push(e),
                key,
            ));
            assert(without_key(entries, key) == seq![entries[0]] + without_key(
                entries.drop_first(),
                key,
            ));
            if e.0@ != key {
                assert(seq![entries[0]] + without_key(entries.drop_first(), key).push(e) =~= (
                seq![entries[0]] + without_key(entries.drop_first(), key)).push(e));
            }
        }
    }
}

/// The flat key-value document store: an unordered field map with
/// list-append.  Fields hold wire values; the store keeps no further
/// invariant of its own.
#[derive(Debug)]
pub struct MoobiusDatabase {
    data: Vec<(String, JsonValue)>,
}

impl MoobiusDatabase {
    /// The stored entries, in storage order.
    pub closed spec fn entries(&self) -> Seq<(String, JsonValue)> {
        self.data@
    }

    /// The store as a map from field name to value.
    pub open spec fn fields(&self) -> Map<Seq<char>, JsonValue> {
        Map::new(
            |k: Seq<char>| obj_lookup(self.entries(), k) is Some,
            |k: Seq<char>| obj_lookup(self.entries(), k)->Some_0,
        )
    }

    /// An empty store.
    pub fn new() -> (r: Self)
        ensures
            r.fields() == Map::<Seq<char>, JsonValue>::empty(),
            r.entries() == Seq::<(String, JsonValue)>::empty(),
    {
        let r = MoobiusDatabase { data: Vec::new() };
        proof {
            assert(r.fields() =~= Map::<Seq<char>, JsonValue>::empty());
        }
        r
    }

    /// The first entry of a key, if the key has one.
    fn find(&self, key: &str) -> (r: Option<usize>)
        ensures
            match r {
                Some(i) => i < self.entries().len() && self.entries()[i as int].0@ == key@ && (
                forall|j: int| 0 <= j < i ==> self.entries()[j].0@ != key@),
                None => obj_lookup(self.entries(), key@) is None,
            },
    {
        let n = self.data.len();
        let mut i: usize = 0;
        proof {
            assert(self.data@.skip(0) =~= self.data@);
        }
        while i < n
            invariant
                n == self.data@.len(),
                i <= n,
                forall|j: int| 0 <= j < i ==> self.entries()[j].0@ != key@,
                obj_lookup(self.data@, key@) == obj_lookup(self.data@.skip(i as int), key@),
            decreases n - i,
        {
            proof {
                assert(self.data@.skip(i as int)[0] == self.data@[i as int]);
            }
            if str_eq(self.data[i].0.as_str(), key) {
                return Some(i);
            }
            proof {
                assert(self.data@.skip(i as int).drop_first() =~= self.data@.skip(i + 1));
            }
            i = i + 1;
        }
        proof {
            assert(self.data@.skip(n as int) =~= Seq::<(String, JsonValue)>::empty());
        }
        None
    }

    /// Stores a value under a key, replacing what the key held before.
    pub fn add_field(&mut self, key: &str, value: JsonValue)
        ensures
            final(self).fields() == old(self).fields().insert(key@, value),
    {
        let ghost orig = self.data@;
        match self.find(key) {
            Some(i) => {
                let entry = self.data.remove(i);
                let ghost e = (entry.0, value);
                self.data.insert(i, (entry.0, value));
                proof {
                    assert(self.data@ =~= orig.update(i as int, e));
                    lemma_obj_lookup_update(orig, i as int, e, key@);
                    assert forall|k2: Seq<char>| k2 != key@ implies #[trigger] obj_lookup(
                        self.data@,
                        k2,
                    ) == obj_lookup(orig, k2) by {
                        lemma_obj_lookup_update(orig, i as int, e, k2);
                    }
                    assert(self.fields() =~= old(self).fields().insert(key@, value));
                }
            },
            None => {
                let entry = (key.to_owned(), value);
                let ghost e = entry;
                self.data.push(entry);
                proof {
                    assert(self.data@ =~= orig.push(e));
                    assert forall|k2: Seq<char>| true implies #[trigger] obj_lookup(self.data@, k2)
                        == if obj_lookup(orig, k2) is Some {
                        obj_lookup(orig, k2)
                    } else if k2 == key@ {
                        Some(value)
                    } else {
                        None::<JsonValue>
                    } by {
                        lemma_obj_lookup_push(orig, e, k2);
                    }
                    assert(self.fields() =~= old(self).fields().insert(key@, value));
                }
            },
        }
    }

    /// The value a key holds, if any.
    pub fn get_field(&self, key: &str) -> (r: Option<&JsonValue>)
        ensures
            match r {
                Some(v) => self.fields().contains_key(key@) && self.fields()[key@] == *v,
                None => !self.fields().contains_key(key@),
            },
    {
        match self.find(key) {
            Some(i) => {
                proof {
                    lookup_at_first_index(self.entries(), i as int, key@);
                }
                Some(&self.data[i].1)
            },
            None => None,
        }
    }

    /// Whether a key holds anything.
    pub fn has_field(&self, key: &str) -> (r: bool)
        ensures
            r == self.fields().contains_key(key@),
    {
        self.get_field(key).is_some()
    }

    /// Every stored entry, in storage order.
    pub fn all_fields(&self) -> (r: &Vec<(String, JsonValue)>)
        ensures
            r@ == self.entries(),
    {
        &self.data
    }

    /// Drops a key and whatever it held.
    pub fn remove_field(&mut self, key: &str)
        ensures
            final(self).fields() == old(self).fields().remove(key@),
    {
        let ghost orig = self.data@;
        let mut kept: Vec<(String, JsonValue)> = Vec::new();
        while self.data.len() > 0
            invariant
                without_key(orig, key@) == without_key(self.data@, key@) + kept@,
            decreases self.data@.len(),
        {
            let ghost before = self.data@;
            let entry = match self.data.pop() {
                Some(entry) => entry,
                None => {
                    proof {
                        assert(false);
                    }
                    unreached()
                },
            };
            proof {
                assert(before =~= self.data@.push(entry));
                lemma_without_key_snoc(self.data@, entry, key@);
            }
            if !str_eq(entry.0.as_str(), key) {
                let ghost kept_before = kept@;
                kept.insert(0, entry);
                proof {
                    assert(kept@ =~= seq![entry] + kept_before);
                    assert(without_key(self.data@, key@).push(entry) + kept_before
                        =~= without_key(self.data@, key@) + kept@);
                }
            }
        }
        proof {
            assert(without_key(self.data@, key@) =~= Seq::<(String, JsonValue)>::empty());
            assert(kept@ =~= without_key(orig, key@));
        }
        self.data = kept;
        proof {
            assert forall|k2: Seq<char>| true implies #[trigger] obj_lookup(self.data@, k2) == (
            if k2 == key@ {
                None::<JsonValue>
            } else {
                obj_lookup(orig, k2)
            }) by {
                lemma_without_key_lookup(orig, key@, k2);
            }
            assert(self.fields() =~= old(self).fields().remove(key@));
        }
    }

    /// Appends an item to the list a key holds.  A key that holds no
    /// list, or nothing, leaves the store as it was: list fields are
    /// created by `add_field`, not here.
    pub fn add_to_list(&mut self, key: &str, item: JsonValue)
        ensures
            obj_lookup(old(self).entries(), key@) matches Some(v0) ==> {
                &&& (v0 matches JsonValue::Arr(old_items) ==> {
                    &&& final(self).fields().contains_key(key@)
                    &&& final(self).fields()[key@] matches JsonValue::Arr(new_items)
                        && new_items@ == old_items@.push(item)
                    &&& final(self).fields().remove(key@) == old(self).fields().remove(key@)
                })
                &&& (!(v0 matches JsonValue::Arr(x)) ==> final(self).fields() == old(
                    self,
                ).fields())
            },
            obj_lookup(old(self).entries(), key@) is None ==> final(self).fields() == old(
                self,
            ).fields(),
    {
        let ghost orig = self.data@;
        match self.find(key) {
            Some(i) => {
                proof {
                    lookup_at_first_index(orig, i as int, key@);
                }
                let entry = self.data.remove(i);
                match entry.1 {
                    JsonValue::Arr(mut items) => {
                        items.push(item);
                        let ghost e = (entry.0, JsonValue::Arr(items));
                        self.data.insert(i, (entry.0, JsonValue::Arr(items)));
                        proof {
                            assert(self.data@ =~= orig.update(i as int, e));
                            lemma_obj_lookup_update(orig, i as int, e, key@);
                            assert forall|k2: Seq<char>| k2 != key@ implies #[trigger] obj_lookup(
                                self.data@,
                                k2,
                            ) == obj_lookup(orig, k2) by {
                                lemma_obj_lookup_update(orig, i as int, e, k2);
                            }
                            assert(self.fields().remove(key@) =~= old(self).fields().remove(
                                key@,
                            ));
                        }
                    },
                    other => {
                        let ghost e = (entry.0, other);
                        self.data.insert(i, (entry.0, other));
                        proof {
                            assert(e == orig[i as int]);
                            assert(self.data@ =~= orig);
                            assert(self.fields() =~= old(self).fields());
                        }
                    },
                }
            },
            None => {},
        }
    }
}

/// At the first index of a key, the lookup yields that entry's value.
proof fn lookup_at_first_index(entries: Seq<(String, JsonValue)>, i: int, key: Seq<char>)
    requires
        0 <= i < entries.len(),
        entries[i].0@ == key,
        forall|j: int| 0 <= j < i ==> entries[j].0@ != key,
    ensures
        obj_lookup(entries, key) == Some(entries[i].1),
    decreases i,
{
    if i == 0 {
    } else {
        assert(entries[0].0@ != key);
        lookup_at_first_index(entries.drop_first(), i - 1, key);
        assert(entries.drop_first()[i - 1] == entries[i]);
    }
}

} // verus!
