use vstd::prelude::*;

verus! {

/// The map that a list of key/value pairs describes when the pairs are
/// stored in order, a later pair replacing an earlier one with the same key.
pub open spec fn map_of_pairs(pairs: Seq<(Seq<char>, Seq<char>)>) -> Map<Seq<char>, Seq<char>>
    decreases pairs.len(),
{
    if pairs.len() == 0 {
        Map::empty()
    } else {
        map_of_pairs(pairs.drop_last()).insert(pairs.last().0, pairs.last().1)
    }
}

/// The keys of `pairs` are pairwise distinct.
pub open spec fn keys_distinct(pairs: Seq<(Seq<char>, Seq<char>)>) -> bool {
    forall|i: int, j: int| 0 <= i < pairs.len() && 0 <= j < pairs.len() && i != j
        ==> #[trigger] pairs[i].0 != #[trigger] pairs[j].0
}

/// The pairs as plain character sequences.
pub open spec fn pairs_view(v: Seq<(String, String)>) -> Seq<(Seq<char>, Seq<char>)> {
    v.map_values(|p: (String, String)| (p.0@, p.1@))
}

/// The key/value store that keeps an application's state between runs.
///
/// It maps string keys to string values and remembers whether anything
/// changed since it was loaded or last written out (it is then dirty).
pub struct KVStorage {
    entries: Vec<(String, String)>,
    dirty: bool,
}

impl View for KVStorage {
    type V = Map<Seq<char>, Seq<char>>;

    closed spec fn view(&self) -> Map<Seq<char>, Seq<char>> {
        map_of_pairs(pairs_view(self.entries@))
    }
}

proof fn lemma_map_of_distinct_pairs(pairs: Seq<(Seq<char>, Seq<char>)>)
    requires
        keys_distinct(pairs),
    ensures
        forall|i: int| 0 <= i < pairs.len() ==> #[trigger] map_of_pairs(pairs).contains_key(pairs[i].0)
            && map_of_pairs(pairs)[pairs[i].0] == pairs[i].1,
        forall|k: Seq<char>| #[trigger] map_of_pairs(pairs).contains_key(k) ==> exists|i: int|
            0 <= i < pairs.len() && pairs[i].0 == k,
    decreases pairs.len(),
{
    if pairs.len() > 0 {
        let init = pairs.drop_last();
        assert(keys_distinct(init));
        lemma_map_of_distinct_pairs(init);
        let last = pairs.last();
        assert(map_of_pairs(pairs) == map_of_pairs(init).insert(last.0, last.1));
        assert forall|i: int| 0 <= i < pairs.len() implies #[trigger] map_of_pairs(pairs).contains_key(pairs[i].0)
            && map_of_pairs(pairs)[pairs[i].0] == pairs[i].1 by {
            if i < pairs.len() - 1 {
                assert(pairs[i] == init[i]);
                assert(map_of_pairs(init).contains_key(init[i].0));
                assert(pairs[i].0 != pairs[pairs.len() - 1].0);
            }
        }
        assert forall|k: Seq<char>| #[trigger] map_of_pairs(pairs).contains_key(k) implies exists|i: int|
            0 <= i < pairs.len() && pairs[i].0 == k by {
            if k != pairs.last().0 {
                assert(map_of_pairs(init).contains_key(k));
                let i = choose|i: int| 0 <= i < init.len() && init[i].0 == k;
                assert(pairs[i] == init[i]);
            } else {
                assert(pairs[pairs.len() - 1].0 == k);
            }
        }
    }
}

/// Replacing the value of a pair keeps the keys distinct and updates the
/// map at that key.
proof fn lemma_update_pair(pairs: Seq<(Seq<char>, Seq<char>)>, i: int, k: Seq<char>, v: Seq<char>)
    requires
        keys_distinct(pairs),
        0 <= i < pairs.len(),
        pairs[i].0 == k,
    ensures
        keys_distinct(pairs.update(i, (k, v))),
        map_of_pairs(pairs.update(i, (k, v))) == map_of_pairs(pairs).insert(k, v),
    decreases pairs.len(),
{
    let upd = pairs.update(i, (k, v));
    assert forall|j: int| 0 <= j < upd.len() implies #[trigger] upd[j].0 == pairs[j].0 by {}
    assert forall|a: int, b: int| 0 <= a < upd.len() && 0 <= b < upd.len() && a != b
        implies #[trigger] upd[a].0 != #[trigger] upd[b].0 by {
        assert(upd[a].0 == pairs[a].0);
        assert(upd[b].0 == pairs[b].0);
    }
    let init = pairs.drop_last();
    let last = pairs.last();
    if i == pairs.len() - 1 {
        assert(upd.drop_last() =~= init);
        assert(map_of_pairs(init).insert(k, last.1).insert(k, v) =~= map_of_pairs(init).insert(k, v));
    } else {
        assert(keys_distinct(init));
        assert(upd.drop_last() =~= init.update(i, (k, v)));
        lemma_update_pair(init, i, k, v);
        assert(pairs[i].0 != pairs[pairs.len() - 1].0);
        assert(upd.last() == last);
        assert(map_of_pairs(init).insert(k, v).insert(last.0, last.1)
            =~= map_of_pairs(init).insert(last.0, last.1).insert(k, v));
    }
}

/// Appending a pair with a new key keeps the keys distinct and adds the key
/// to the map.
proof fn lemma_push_pair(pairs: Seq<(Seq<char>, Seq<char>)>, k: Seq<char>, v: Seq<char>)
    requires
        keys_distinct(pairs),
        forall|j: int| 0 <= j < pairs.len() ==> #[trigger] pairs[j].0 != k,
    ensures
        keys_distinct(pairs.push((k, v))),
        map_of_pairs(pairs.push((k, v))) == map_of_pairs(pairs).insert(k, v),
{
    let p = pairs.push((k, v));
    assert(p.drop_last() =~= pairs);
    assert forall|a: int, b: int| 0 <= a < p.len() && 0 <= b < p.len() && a != b
        implies #[trigger] p[a].0 != #[trigger] p[b].0 by {
        if a < pairs.len() {
            assert(p[a] == pairs[a]);
        }
        if b < pairs.len() {
            assert(p[b] == pairs[b]);
        }
    }
}

impl KVStorage {
    /// The store's entries are valid: no key occurs twice.
    pub closed spec fn well_formed(&self) -> bool {
        keys_distinct(pairs_view(self.entries@))
    }

    /// Whether something changed since the store was loaded or last written
    /// out.
    pub closed spec fn spec_dirty(&self) -> bool {
        self.dirty
    }

    /// Index of the entry for `key`, if there is one.
    fn find(&self, key: &String) -> (r: Option<usize>)
        requires
            self.well_formed(),
        ensures
            match r {
                Some(i) => i < self.entries@.len() && self.entries@[i as int].0@ == key@,
                None => forall|i: int| 0 <= i < self.entries@.len() ==> self.entries@[i].0@ != key@,
            },
    {
        let mut i: usize = 0;
        while i < self.entries.len()
            invariant
                i <= self.entries@.len(),
                forall|j: int| 0 <= j < i ==> self.entries@[j].0@ != key@,
            decreases self.entries@.len() - i,
        {
            if self.entries[i].0.eq(key) {
                return Some(i);
            }
            i = i + 1;
        }
        None
    }

    proof fn lemma_view_facts(&self)
        requires
            self.well_formed(),
        ensures
            forall|i: int| 0 <= i < self.entries@.len() ==> #[trigger] self@.contains_key(self.entries@[i].0@)
                && self@[self.entries@[i].0@] == self.entries@[i].1@,
            forall|k: Seq<char>| #[trigger] self@.contains_key(k) ==> exists|i: int|
                0 <= i < self.entries@.len() && self.entries@[i].0@ == k,
    {
        let pv = pairs_view(self.entries@);
        lemma_map_of_distinct_pairs(pv);
        assert forall|i: int| 0 <= i < self.entries@.len() implies #[trigger] self@.contains_key(self.entries@[i].0@)
            && self@[self.entries@[i].0@] == self.entries@[i].1@ by {
            assert(pv[i] == (self.entries@[i].0@, self.entries@[i].1@));
            assert(map_of_pairs(pv).contains_key(pv[i].0));
        }
        assert forall|k: Seq<char>| #[trigger] self@.contains_key(k) implies exists|i: int|
            0 <= i < self.entries@.len() && self.entries@[i].0@ == k by {
            let i = choose|i: int| 0 <= i < pv.len() && pv[i].0 == k;
            assert(pv[i] == (self.entries@[i].0@, self.entries@[i].1@));
        }
    }

    /// An empty store that has nothing to write out.
    fn empty() -> (r: KVStorage)
        ensures
            r.well_formed(),
            r@ == Map::<Seq<char>, Seq<char>>::empty(),
            !r.spec_dirty(),
    {
        KVStorage { entries: Vec::new(), dirty: false }
    }

    /// Stores `value` under `key`, replacing what was there; leaves the
    /// dirty flag as it is.
    fn put(&mut self, key: String, value: String)
        requires
            old(self).well_formed(),
        ensures
            final(self).well_formed(),
            final(self)@ == old(self)@.insert(key@, value@),
            final(self).dirty == old(self).dirty,
    {
        let ghost old_pv = pairs_view(self.entries@);
        let ghost k = key@;
        let ghost v = value@;
        match self.find(&key) {
            Some(i) => {
                self.entries.set(i, (key, value));
                proof {
                    assert(pairs_view(self.entries@) =~= old_pv.update(i as int, (k, v)));
                    lemma_update_pair(old_pv, i as int, k, v);
                }
            },
            None => {
                self.entries.push((key, value));
                proof {
                    assert(pairs_view(self.entries@) =~= old_pv.push((k, v)));
                    lemma_push_pair(old_pv, k, v);
                }
            },
        }
    }

    /// A store holding the state that was loaded, with nothing to write out;
    /// where a key occurs more than once the later value is kept.
    pub fn new(loaded: Vec<(String, String)>) -> (r: KVStorage)
        ensures
            r.well_formed(),
            r@ == map_of_pairs(pairs_view(loaded@)),
            !r.spec_dirty(),
    {
        let mut store = KVStorage::empty();
        let mut i: usize = 0;
        while i < loaded.len()
            invariant
                0 <= i <= loaded@.len(),
                store.well_formed(),
                store@ == map_of_pairs(pairs_view(loaded@.take(i as int))),
                !store.spec_dirty(),
            decreases loaded@.len() - i,
        {
            let key = loaded[i].0.clone();
            let value = loaded[i].1.clone();
            store.put(key, value);
            assert(pairs_view(loaded@.take(i + 1)).drop_last() =~= pairs_view(loaded@.take(i as int)));
            i = i + 1;
        }
        assert(loaded@.take(i as int) =~= loaded@);
        store
    }

    /// The value stored under `key`, if any.
    pub fn get_string(&self, key: &str) -> (r: Option<String>)
        requires
            self.well_formed(),
        ensures
            r is Some <==> self@.contains_key(key@),
            r matches Some(v) ==> v@ == self@[key@],
    {
        proof { self.lemma_view_facts(); }
        let k = key.to_owned();
        match self.find(&k) {
            Some(i) => {
                assert(self@.contains_key(self.entries@[i as int].0@));
                Some(self.entries[i].1.clone())
            },
            None => None,
        }
    }

    /// Stores `value` under `key`, replacing what was there, and marks the
    /// store dirty.
    pub fn set_string(&mut self, key: &str, value: String)
        requires
            old(self).well_formed(),
        ensures
            final(self).well_formed(),
            final(self)@ == old(self)@.insert(key@, value@),
            final(self).spec_dirty(),
    {
        self.put(key.to_owned(), value);
        self.dirty = true;
    }

    /// Whether something changed since the store was loaded or last written
    /// out, so that a flush has something to write.
    pub fn is_dirty(&self) -> (r: bool)
        ensures
            r == self.spec_dirty(),
    {
        self.dirty
    }

    /// Writes the contents out through `write` when something changed since
    /// they were loaded or last written out, and does nothing otherwise.
    /// `write` receives the contents encoded as a RON map and reports whether
    /// writing succeeded; only then is the store clean again.
    pub fn flush<F: FnOnce(&Vec<u8>) -> bool>(&mut self, write: F)
        requires
            old(self).well_formed(),
            old(self).spec_dirty() ==> forall|b: &Vec<u8>| call_requires(write, (b,)),
        ensures
            final(self).well_formed(),
            final(self)@ == old(self)@,
            !old(self).spec_dirty() ==> !final(self).spec_dirty(),
            old(self).spec_dirty() ==> exists|b: &Vec<u8>, ok: bool|
                #[trigger] call_ensures(write, (b,), ok)
                && ron_string_map(b@) == Some(old(self)@)
                && final(self).spec_dirty() == !ok,
    {
        if !self.dirty {
            return ;
        }
        match encode_ron_string_map(&self.entries) {
            Some(bytes) => {
                let ok = write(&bytes);
                if ok {
                    self.dirty = false;
                }
            },
            None => {},
        }
    }
}

/// What `ron::de::from_bytes` makes of `bytes` when it reads them as a map
/// from strings to strings: `None` where they are not such a map.
pub uninterp spec fn ron_string_map(bytes: Seq<u8>) -> Option<Map<Seq<char>, Seq<char>>>;

/// Reads `bytes` as a RON map from strings to strings.
///
/// Calls `ron::de::from_bytes::<HashMap<String, String>>` and hands out the
/// map's pairs. Claims that the pairs describe the map that the name
/// `ron_string_map` gives for these bytes, and that there are pairs exactly
/// when the parse succeeds.
#[verifier::external_body]
fn parse_ron_string_map(bytes: &[u8]) -> (r: Option<Vec<(String, String)>>)
    ensures
        r is Some <==> ron_string_map(bytes@) is Some,
        r matches Some(v) ==> map_of_pairs(pairs_view(v@)) == ron_string_map(bytes@)->0,
{
    ron::de::from_bytes::<std::collections::HashMap<String, String>>(bytes).ok().map(|m| m.into_iter().collect())
}

/// Encodes pairs with distinct keys as a RON map.
///
/// Calls `ron::ser::to_string_pretty` with the default pretty configuration on
/// a `HashMap` that holds the pairs. Claims two things of it. It succeeds: with
/// the default configuration its only failures are writer errors, which a
/// `String` never reports, and a recursion limit that a map of strings does
/// not reach. And what it writes reads back as the same map: RON's README
/// guarantees round trips through RON for types, such as this map, whose
/// deserialisation does not rely on `deserialize_any`. The bytes themselves
/// depend on the order in which the `HashMap` is walked, so nothing more is
/// stated of them.
#[verifier::external_body]
fn encode_ron_string_map(pairs: &Vec<(String, String)>) -> (r: Option<Vec<u8>>)
    requires
        keys_distinct(pairs_view(pairs@)),
    ensures
        r is Some,
        r matches Some(b) ==> ron_string_map(b@) == Some(map_of_pairs(pairs_view(pairs@))),
{
    let map: std::collections::HashMap<&String, &String> = pairs.iter().map(|p| (&p.0, &p.1)).collect();
    ron::ser::to_string_pretty(&map, ron::ser::PrettyConfig::default()).ok().map(String::into_bytes)
}

/// The store that loading saved state yields: empty where nothing was saved,
/// the saved map where the saved bytes read as one, and no store where they
/// do not.
pub open spec fn spec_load_store(saved: Option<Seq<u8>>) -> Option<Map<Seq<char>, Seq<char>>> {
    match saved {
        None => Some(Map::empty()),
        Some(b) => ron_string_map(b),
    }
}

/// Builds the store from the saved state, if any was saved: the bytes of the
/// saved file, read as a RON map from strings to strings. The store is clean;
/// where the saved bytes are not such a map there is no store.
pub fn load_store(saved: Option<&[u8]>) -> (r: Option<KVStorage>)
    ensures
        saved is None ==> (r matches Some(s) && s@ == Map::<Seq<char>, Seq<char>>::empty() && !s.spec_dirty()),
        saved matches Some(b) ==> ((r is Some <==> ron_string_map(b@) is Some) && (r matches Some(s) ==> s@
            == ron_string_map(b@)->0 && !s.spec_dirty())),
        r is Some <==> spec_load_store(match saved { Some(b) => Some(b@), None => None }) is Some,
        r matches Some(s) ==> s.well_formed() && !s.spec_dirty()
            && Some(s@) == spec_load_store(match saved { Some(b) => Some(b@), None => None }),
{
    match saved {
        None => Some(KVStorage::empty()),
        Some(bytes) => match parse_ron_string_map(bytes) {
            Some(pairs) => Some(KVStorage::new(pairs)),
            None => None,
        },
    }
}

} // verus!
