//! Keyed collections. A concurrent hash map finds the place of a key; the entries themselves
//! stand in a dense list, which is walked in a known order: a hash map promises none.
use std::hash::Hash;
use vstd::prelude::*;

verus! {

/// `dashmap::DashMap`, the hash map that finds the places.
#[verifier::external_type_specification]
#[verifier::external_body]
#[verifier::reject_recursive_types(K)]
#[verifier::reject_recursive_types(V)]
#[verifier::reject_recursive_types(S)]
pub struct ExDashMap<K, V, S>(dashmap::DashMap<K, V, S>);

/// What a hash map from numbers to places holds.
pub uninterp spec fn id_entries(index: dashmap::DashMap<u128, u64>) -> Map<u128, u64>;

/// What a hash map from texts to places holds.
pub uninterp spec fn text_entries(index: dashmap::DashMap<String, u64>) -> Map<Seq<char>, u64>;

/// `DashMap::new` with numbers as keys: an empty map.
#[verifier::external_body]
fn id_index() -> (r: dashmap::DashMap<u128, u64>)
    ensures
        id_entries(r).dom() == Set::<u128>::empty(),
{
    dashmap::DashMap::new()
}

/// `DashMap::get` with numbers as keys: the place of the key, where it is in the map.
#[verifier::external_body]
fn id_find(index: &dashmap::DashMap<u128, u64>, key: u128) -> (r: Option<u64>)
    ensures
        r == id_entries(*index).get(key),
{
    index.get(&key).map(|place| *place.value())
}

/// `DashMap::insert` with numbers as keys: the key now has this place, and every other key keeps
/// its own.
#[verifier::external_body]
fn id_put(index: &mut dashmap::DashMap<u128, u64>, key: u128, place: u64)
    ensures
        id_entries(*final(index)) == id_entries(*old(index)).insert(key, place),
{
    index.insert(key, place);
}

/// `DashMap::remove` with numbers as keys: the key leaves the map, and its place is handed back
/// where it was there.
#[verifier::external_body]
fn id_take(index: &mut dashmap::DashMap<u128, u64>, key: u128) -> (r: Option<u64>)
    ensures
        r == id_entries(*old(index)).get(key),
        id_entries(*final(index)) == id_entries(*old(index)).remove(key),
{
    index.remove(&key).map(|entry| entry.1)
}

/// `DashMap::new` with texts as keys: an empty map.
#[verifier::external_body]
fn text_index() -> (r: dashmap::DashMap<String, u64>)
    ensures
        text_entries(r).dom() == Set::<Seq<char>>::empty(),
{
    dashmap::DashMap::new()
}

/// `DashMap::get` with texts as keys: the place of the key, where it is in the map.
#[verifier::external_body]
fn text_find(index: &dashmap::DashMap<String, u64>, key: &str) -> (r: Option<u64>)
    ensures
        r == text_entries(*index).get(key@),
{
    index.get(key).map(|place| *place.value())
}

/// `DashMap::insert` with texts as keys: the key now has this place, and every other key keeps
/// its own.
#[verifier::external_body]
fn text_put(index: &mut dashmap::DashMap<String, u64>, key: String, place: u64)
    ensures
        text_entries(*final(index)) == text_entries(*old(index)).insert(key@, place),
{
    index.insert(key, place);
}

/// `DashMap::remove` with texts as keys: the key leaves the map, and its place is handed back
/// where it was there.
#[verifier::external_body]
fn text_take(index: &mut dashmap::DashMap<String, u64>, key: &str) -> (r: Option<u64>)
    ensures
        r == text_entries(*old(index)).get(key@),
        text_entries(*final(index)) == text_entries(*old(index)).remove(key@),
{
    index.remove(key).map(|entry| entry.1)
}

/// What can key a collection: a number or a text.
pub trait MapKey: Sized + Eq + Hash {
    /// What two keys that count as one have in common.
    type Spec;

    spec fn key(&self) -> Self::Spec;

    spec fn entries(index: dashmap::DashMap<Self, u64>) -> Map<Self::Spec, u64>;

    fn index() -> (r: dashmap::DashMap<Self, u64>)
        ensures
            Self::entries(r) == Map::<Self::Spec, u64>::empty(),
    ;

    fn find(index: &dashmap::DashMap<Self, u64>, key: &Self) -> (r: Option<u64>)
        ensures
            r == Self::entries(*index).get(key.key()),
    ;

    fn put(index: &mut dashmap::DashMap<Self, u64>, key: Self, place: u64)
        ensures
            Self::entries(*final(index)) == Self::entries(*old(index)).insert(key.key(), place),
    ;

    fn take(index: &mut dashmap::DashMap<Self, u64>, key: &Self) -> (r: Option<u64>)
        ensures
            r == Self::entries(*old(index)).get(key.key()),
            Self::entries(*final(index)) == Self::entries(*old(index)).remove(key.key()),
    ;

    fn copy(&self) -> (r: Self)
        ensures
            r.key() == self.key(),
    ;
}

impl MapKey for u128 {
    type Spec = u128;

    open spec fn key(&self) -> u128 {
        *self
    }

    open spec fn entries(index: dashmap::DashMap<u128, u64>) -> Map<u128, u64> {
        id_entries(index)
    }

    fn index() -> (r: dashmap::DashMap<u128, u64>) {
        let r = id_index();
        assert(id_entries(r) =~= Map::<u128, u64>::empty());
        r
    }

    fn find(index: &dashmap::DashMap<u128, u64>, key: &u128) -> (r: Option<u64>) {
        id_find(index, *key)
    }

    fn put(index: &mut dashmap::DashMap<u128, u64>, key: u128, place: u64) {
        id_put(index, key, place);
    }

    fn take(index: &mut dashmap::DashMap<u128, u64>, key: &u128) -> (r: Option<u64>) {
        id_take(index, *key)
    }

    fn copy(&self) -> (r: u128) {
        *self
    }
}

impl MapKey for String {
    type Spec = Seq<char>;

    open spec fn key(&self) -> Seq<char> {
        self@
    }

    open spec fn entries(index: dashmap::DashMap<String, u64>) -> Map<Seq<char>, u64> {
        text_entries(index)
    }

    fn index() -> (r: dashmap::DashMap<String, u64>) {
        let r = text_index();
        assert(text_entries(r) =~= Map::<Seq<char>, u64>::empty());
        r
    }

    fn find(index: &dashmap::DashMap<String, u64>, key: &String) -> (r: Option<u64>) {
        text_find(index, key.as_str())
    }

    fn put(index: &mut dashmap::DashMap<String, u64>, key: String, place: u64) {
        text_put(index, key, place);
    }

    fn take(index: &mut dashmap::DashMap<String, u64>, key: &String) -> (r: Option<u64>) {
        text_take(index, key.as_str())
    }

    fn copy(&self) -> (r: String) {
        self.clone()
    }
}

/// A collection of values, each under its own key.
#[verifier::reject_recursive_types(K)]
#[verifier::reject_recursive_types(T)]
pub struct Registry<K: MapKey, T> {
    index: dashmap::DashMap<K, u64>,
    items: Vec<(K, T)>,
}

impl<K: MapKey, T> Registry<K, T> {
    /// Each entry stands at the place that the index gives for its key, and the index knows no
    /// other key.
    pub closed spec fn wf(&self) -> bool {
        let m = K::entries(self.index);
        &&& forall|i: int|
            0 <= i < self.items@.len() ==> m.contains_key((#[trigger] self.items@[i]).0.key())
                && m[self.items@[i].0.key()] == i
        &&& forall|k: K::Spec| #[trigger]
            m.contains_key(k) ==> m[k] < self.items@.len() && self.items@[m[k] as int].0.key() == k
    }

    /// The value under each key.
    pub closed spec fn view(&self) -> Map<K::Spec, T> {
        let m = K::entries(self.index);
        Map::new(|k: K::Spec| m.contains_key(k), |k: K::Spec| self.items@[m[k] as int].1)
    }

    /// An empty collection.
    pub fn new() -> (r: Self)
        ensures
            r.wf(),
            r@ == Map::<K::Spec, T>::empty(),
    {
        let r = Registry { index: K::index(), items: Vec::new() };
        assert(r@ =~= Map::<K::Spec, T>::empty());
        r
    }

    /// The value under a key.
    pub fn get(&self, key: &K) -> (r: Option<&T>)
        requires
            self.wf(),
        ensures
            r is Some <==> self@.contains_key(key.key()),
            r matches Some(v) ==> *v == self@[key.key()],
    {
        let count: usize = self.items.len();
        match K::find(&self.index, key) {
            Some(place) => {
                assert(K::entries(self.index).contains_key(key.key()));
                assert(place < count);
                Some(&self.items[place as usize].1)
            },
            None => None,
        }
    }

    /// Whether a key has a value.
    pub fn contains_key(&self, key: &K) -> (r: bool)
        requires
            self.wf(),
        ensures
            r == self@.contains_key(key.key()),
    {
        match K::find(&self.index, key) {
            Some(_) => true,
            None => false,
        }
    }

    /// Puts a value under a key; hands back what was there.
    pub fn insert(&mut self, key: K, value: T) -> (r: Option<T>)
        requires
            old(self).wf(),
        ensures
            final(self).wf(),
            final(self)@ == old(self)@.insert(key.key(), value),
            r is Some <==> old(self)@.contains_key(key.key()),
            r matches Some(v) ==> v == old(self)@[key.key()],
    {
        let ghost before = self@;
        let ghost m = K::entries(self.index);
        let ghost items = self.items@;
        let count: usize = self.items.len();
        match K::find(&self.index, &key) {
            Some(place) => {
                assert(m.contains_key(key.key()));
                assert(place < count);
                self.items.push((key, value));
                let previous = self.items.swap_remove(place as usize);
                assert(self.items@ =~= items.update(place as int, (key, value)));
                assert forall|i: int| 0 <= i < self.items@.len() implies m.contains_key(
                    (#[trigger] self.items@[i]).0.key(),
                ) && m[self.items@[i].0.key()] == i by {
                    if i != place {
                        assert(self.items@[i] == items[i]);
                    }
                }
                assert(self@ =~= before.insert(key.key(), value));
                Some(previous.1)
            },
            None => {
                let place: usize = self.items.len();
                let id = key.copy();
                self.items.push((key, value));
                K::put(&mut self.index, id, place as u64);
                let ghost n = K::entries(self.index);
                assert forall|k: K::Spec| #[trigger] n.contains_key(k) implies n[k]
                    < self.items@.len() && self.items@[n[k] as int].0.key() == k by {
                    if k != key.key() {
                        assert(m.contains_key(k));
                    }
                }
                assert forall|k: K::Spec| before.contains_key(k) implies #[trigger] self@[k]
                    == before[k] by {
                    assert(m.contains_key(k));
                    assert(k != key.key());
                }
                assert(self@ =~= before.insert(key.key(), value));
                None
            },
        }
    }

    /// Takes the value under a key out.
    pub fn remove(&mut self, key: &K) -> (r: Option<T>)
        requires
            old(self).wf(),
        ensures
            final(self).wf(),
            final(self)@ == old(self)@.remove(key.key()),
            r is Some <==> old(self)@.contains_key(key.key()),
            r matches Some(v) ==> v == old(self)@[key.key()],
    {
        let ghost before = self@;
        let ghost m = K::entries(self.index);
        let ghost items = self.items@;
        let count: usize = self.items.len();
        match K::take(&mut self.index, key) {
            Some(place) => {
                assert(m.contains_key(key.key()));
                assert(place < count);
                let entry = self.items.swap_remove(place as usize);
                if (place as usize) < self.items.len() {
                    let moved = self.items[place as usize].0.copy();
                    K::put(&mut self.index, moved, place);
                }
                let ghost n = K::entries(self.index);
                let ghost last = items.len() - 1;
                assert(m.contains_key(items[last].0.key()));
                assert forall|k: K::Spec| #[trigger] n.contains_key(k) implies n[k]
                    < self.items@.len() && self.items@[n[k] as int].0.key() == k by {
                    assert(m.contains_key(k));
                }
                assert forall|i: int| 0 <= i < self.items@.len() implies n.contains_key(
                    (#[trigger] self.items@[i]).0.key(),
                ) && n[self.items@[i].0.key()] == i by {
                    if i == place {
                        assert(self.items@[i] == items[last]);
                    } else {
                        assert(self.items@[i] == items[i]);
                        assert(m[items[i].0.key()] == i);
                    }
                }
                assert(self@ =~= before.remove(key.key())) by {
                    assert forall|k: K::Spec| before.remove(key.key()).contains_key(
                        k,
                    ) implies #[trigger] self@[k] == before[k] by {
                        assert(m.contains_key(k));
                        assert(items[m[k] as int].0.key() == k);
                    }
                    assert(forall|k: K::Spec|
                        self@.contains_key(k) <==> before.remove(key.key()).contains_key(k));
                }
                Some(entry.1)
            },
            None => {
                assert(K::entries(self.index) =~= m);
                assert(self@ =~= before.remove(key.key()));
                None
            },
        }
    }

    /// How many values there are.
    pub fn len(&self) -> (r: usize)
        requires
            self.wf(),
        ensures
            self@.dom().finite(),
            r == self@.dom().len(),
    {
        proof {
            let keys = self.items@.map_values(|e: (K, T)| e.0.key());
            assert(keys.no_duplicates()) by {
                assert forall|i: int, j: int|
                    0 <= i < keys.len() && 0 <= j < keys.len() && i != j implies keys[i]
                    != keys[j] by {
                    assert(keys[i] == self.items@[i].0.key());
                    assert(keys[j] == self.items@[j].0.key());
                }
            }
            keys.unique_seq_to_set();
            assert(keys.to_set() =~= self@.dom()) by {
                assert forall|k: K::Spec| self@.dom().contains(k) implies keys.to_set().contains(
                    k,
                ) by {
                    let m = K::entries(self.index);
                    assert(m.contains_key(k));
                    assert(keys[m[k] as int] == k);
                }
                assert forall|k: K::Spec| keys.to_set().contains(k) implies self@.dom().contains(
                    k,
                ) by {
                    let i = choose|i: int| 0 <= i < keys.len() && keys[i] == k;
                    assert(self.items@[i].0.key() == k);
                }
            }
        }
        self.items.len()
    }

    /// The keys, in the order in which the entries stand.
    pub closed spec fn key_list(&self) -> Seq<K::Spec> {
        self.items@.map_values(|e: (K, T)| e.0.key())
    }

    /// Every key stands in the list of keys once.
    pub proof fn lemma_key_list(&self)
        requires
            self.wf(),
        ensures
            self.key_list().no_duplicates(),
            forall|k: K::Spec| self@.contains_key(k) <==> self.key_list().contains(k),
    {
        let keys = self.key_list();
        assert forall|i: int, j: int|
            0 <= i < keys.len() && 0 <= j < keys.len() && i != j implies keys[i] != keys[j] by {
            assert(keys[i] == self.items@[i].0.key());
            assert(keys[j] == self.items@[j].0.key());
        }
        assert forall|k: K::Spec| self@.contains_key(k) <==> keys.contains(k) by {
            let m = K::entries(self.index);
            if m.contains_key(k) {
                assert(keys[m[k] as int] == k);
            }
            if keys.contains(k) {
                let i = keys.index_of(k);
                assert(self.items@[i].0.key() == k);
            }
        }
    }

    /// The key and value at a place of the list.
    pub fn at(&self, i: usize) -> (r: Option<(&K, &T)>)
        requires
            self.wf(),
        ensures
            r is Some <==> i < self.key_list().len(),
            r matches Some((k, v)) ==> k.key() == self.key_list()[i as int]
                && self@.contains_key(k.key()) && *v == self@[k.key()],
    {
        if i < self.items.len() {
            assert(self.items@[i as int].0.key() == self.key_list()[i as int]);
            Some((&self.items[i].0, &self.items[i].1))
        } else {
            None
        }
    }

    /// The keys, in the order in which the entries stand.
    pub fn keys(&self) -> (r: Vec<K>)
        requires
            self.wf(),
        ensures
            key_views(r@) == self.key_list(),
    {
        let mut out: Vec<K> = Vec::new();
        let mut i: usize = 0;
        while i < self.items.len()
            invariant
                i <= self.items@.len(),
                key_views(out@) == self.key_list().take(i as int),
            decreases self.items@.len() - i,
        {
            let ghost done = key_views(out@);
            let k = self.items[i].0.copy();
            out.push(k);
            assert(key_views(out@) =~= done.push(k.key()));
            assert(self.key_list().take(i + 1) =~= self.key_list().take(i as int).push(k.key()));
            i += 1;
        }
        assert(self.key_list().take(i as int) =~= self.key_list());
        out
    }

    /// Keeps the values that meet a condition. Hands back the keys of those that left.
    pub fn retain<F: Fn(&T) -> bool>(&mut self, keep: F, Ghost(kept): Ghost<spec_fn(T) -> bool>) -> (r:
        Vec<K>)
        requires
            old(self).wf(),
            forall|v: &T| #[trigger] keep.requires((v,)),
            forall|v: &T, b: bool| #[trigger] keep.ensures((v,), b) ==> b == kept(*v),
        ensures
            final(self).wf(),
            final(self)@ == retained(old(self)@, kept),
            key_views(r@).no_duplicates(),
            forall|k: K::Spec| #[trigger]
                key_views(r@).contains(k) <==> old(self)@.contains_key(k) && !kept(
                    old(self)@[k],
                ),
    {
        let ghost all = self@;
        let ghost list = self.key_list();
        proof {
            self.lemma_key_list();
        }
        let keys = self.keys();
        let mut gone: Vec<K> = Vec::new();
        let mut i: usize = 0;
        assert(key_views(gone@) =~= Seq::<K::Spec>::empty());
        while i < keys.len()
            invariant
                i <= keys@.len(),
                self.wf(),
                key_views(keys@) == list,
                list.no_duplicates(),
                forall|k: K::Spec| all.contains_key(k) <==> list.contains(k),
                forall|v: &T| #[trigger] keep.requires((v,)),
                forall|v: &T, b: bool| #[trigger] keep.ensures((v,), b) ==> b == kept(*v),
                forall|k: K::Spec| #[trigger]
                    self@.contains_key(k) ==> all.contains_key(k) && self@[k] == all[k],
                forall|j: int|
                    i <= j < list.len() ==> self@.contains_key(#[trigger] list[j]),
                forall|j: int|
                    0 <= j < i ==> (self@.contains_key(#[trigger] list[j]) <==> kept(
                        all[list[j]],
                    )),
                key_views(gone@).no_duplicates(),
                forall|k: K::Spec| #[trigger]
                    key_views(gone@).contains(k) <==> all.contains_key(k) && !self@.contains_key(k),
            decreases keys@.len() - i,
        {
            let ghost k = list[i as int];
            let ghost prior = self@;
            let ghost left = key_views(gone@);
            assert(keys@[i as int].key() == k);
            assert(self@.contains_key(list[i as int]));
            let stays: bool = match self.get(&keys[i]) {
                Some(v) => keep(v),
                None => true,
            };
            if !stays {
                let id = keys[i].copy();
                self.remove(&id);
                assert(!left.contains(k));
                gone.push(id);
                assert(key_views(gone@) =~= left.push(k));
                assert forall|x: K::Spec|
                    left.push(k).contains(x) <==> all.contains_key(x) && !self@.contains_key(
                        x,
                    ) by {
                    if left.contains(x) {
                        let j = left.index_of(x);
                        assert(left.push(k)[j] == x);
                    }
                    if x == k {
                        assert(left.push(k)[left.len() as int] == k);
                        assert(list.contains(k));
                    }
                    if left.push(k).contains(x) {
                        let j = left.push(k).index_of(x);
                        if j < left.len() {
                            assert(left[j] == x);
                        }
                    }
                }
            }
            i += 1;
        }
        assert forall|k: K::Spec| self@.contains_key(k) <==> retained(all, kept).contains_key(
            k,
        ) by {
            if all.contains_key(k) {
                assert(list.contains(k));
                let j = list.index_of(k);
                assert(list[j] == k);
            }
        }
        assert(self@ =~= retained(all, kept));
        assert forall|k: K::Spec| #[trigger]
            key_views(gone@).contains(k) <==> all.contains_key(k) && !kept(all[k]) by {
            assert(self@.contains_key(k) <==> retained(all, kept).contains_key(k));
        }
        gone
    }
}

/// The keys that a list shows.
pub open spec fn key_views<K: MapKey>(list: Seq<K>) -> Seq<K::Spec> {
    list.map_values(|k: K| k.key())
}

/// The entries whose values meet a condition.
pub open spec fn retained<S, T>(m: Map<S, T>, kept: spec_fn(T) -> bool) -> Map<S, T> {
    m.restrict(Set::new(|k: S| m.contains_key(k) && kept(m[k])))
}

/// The values that meet a condition stay, under their keys, and no others.
pub proof fn law_retained_values_meet_the_condition<S, T>(
    m: Map<S, T>,
    kept: spec_fn(T) -> bool,
    k: S,
)
    ensures
        retained(m, kept).contains_key(k) <==> m.contains_key(k) && kept(m[k]),
        retained(m, kept).contains_key(k) ==> retained(m, kept)[k] == m[k],
{
}

} // verus!
