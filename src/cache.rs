use crate::data::{Data, DataView};
use vstd::prelude::*;

verus! {

/// What a cache holds for one key: the number of live views handed out, and the buffer.
pub ghost struct EntryView {
    pub count: nat,
    pub data: DataView,
}

/// Every buffer in `m` lies after its header and carries an identity below
/// `fresh`, and no two keys share an identity.
pub open spec fn entries_ok(m: Map<Seq<char>, EntryView>, fresh: u64) -> bool {
    &&& forall|k: Seq<char>| #[trigger]
        m.contains_key(k) ==> m[k].data.header_len <= m[k].data.bytes.len() && m[k].data.id is Some
            && m[k].data.id->Some_0 < fresh
    &&& forall|k1: Seq<char>, k2: Seq<char>|
        #![trigger m.contains_key(k1), m.contains_key(k2)]
        m.contains_key(k1) && m.contains_key(k2) && k1 != k2 ==> m[k1].data.id != m[k2].data.id
}

/// `post` is `pre` after one view with identity `id` was given back: the entry
/// with that identity, if any, counts one view less, and leaves the map where at
/// most one view was counted. Every other entry stays as it was. Identities
/// are numbered by each cache on its own: a view given back to a cache other
/// than the one it came from is matched by that number alone.
pub open spec fn released(
    pre: Map<Seq<char>, EntryView>,
    post: Map<Seq<char>, EntryView>,
    id: Option<u64>,
) -> bool {
    if id is Some && exists|k: Seq<char>| #[trigger] pre.contains_key(k) && pre[k].data.id == id {
        let k = choose|k: Seq<char>| #[trigger] pre.contains_key(k) && pre[k].data.id == id;
        if pre[k].count <= 1 {
            post == pre.remove(k)
        } else {
            post == pre.insert(k, EntryView { count: (pre[k].count - 1) as nat, data: pre[k].data })
        }
    } else {
        post == pre
    }
}

struct Entry<D> {
    key: String,
    count: usize,
    data: Data<D>,
}

impl<D> Entry<D> {
    spec fn view_entry(&self) -> EntryView {
        EntryView { count: self.count as nat, data: self.data@ }
    }
}

/// A store of decoded buffers by source key, each with the number of live views
/// that were handed out of it.
pub struct Cache<D> {
    entries: Vec<Entry<D>>,
    next_id: u64,
    model: Ghost<Map<Seq<char>, EntryView>>,
}

impl<D> View for Cache<D> {
    type V = Map<Seq<char>, EntryView>;

    closed spec fn view(&self) -> Map<Seq<char>, EntryView> {
        self.model@
    }
}

impl<D> Cache<D> {
    /// The identity that the next inserted buffer receives.
    pub closed spec fn fresh_id(&self) -> u64 {
        self.next_id
    }

    /// The stored entries hold distinct keys and are exactly what the map says.
    pub closed spec fn entries_match(&self) -> bool {
        &&& forall|i: int, j: int|
            0 <= i < self.entries.len() && 0 <= j < self.entries.len() && i != j
                ==> #[trigger] self.entries@[i].key@ != #[trigger] self.entries@[j].key@
        &&& forall|i: int|
            0 <= i < self.entries.len() ==> self.model@.contains_key(#[trigger] self.entries@[i].key@)
                && self.model@[self.entries@[i].key@] == self.entries@[i].view_entry()
        &&& forall|k: Seq<char>| #[trigger]
            self.model@.contains_key(k) ==> exists|i: int|
                0 <= i < self.entries.len() && #[trigger] self.entries@[i].key@ == k
    }

    /// The entries and the map agree, and the map is well formed.
    pub open spec fn wf(&self) -> bool {
        self.entries_match() && entries_ok(self@, self.fresh_id())
    }

    /// An empty cache.
    pub fn new() -> (r: Self)
        ensures
            r.wf(),
            r@ == Map::<Seq<char>, EntryView>::empty(),
            r.fresh_id() == 1,
    {
        Cache { entries: Vec::new(), next_id: 1, model: Ghost(Map::empty()) }
    }

    /// Whether another buffer can still receive an identity of its own.
    pub fn has_fresh_id(&self) -> (r: bool)
        ensures
            r == (self.fresh_id() < u64::MAX),
    {
        self.next_id < u64::MAX
    }

    fn find_key(&self, key: &String) -> (r: Option<usize>)
        requires
            self.wf(),
        ensures
            r matches Some(i) ==> i < self.entries.len() && self.entries@[i as int].key@ == key@,
            r is None ==> !self@.contains_key(key@),
    {
        let mut i: usize = 0;
        while i < self.entries.len()
            invariant
                self.wf(),
                i <= self.entries.len(),
                forall|j: int| 0 <= j < i ==> self.entries@[j].key@ != key@,
            decreases self.entries.len() - i,
        {
            if self.entries[i].key == *key {
                return Some(i);
            }
            i += 1;
        }
        None
    }

    fn find_id(&self, id: u64) -> (r: Option<usize>)
        requires
            self.wf(),
        ensures
            r matches Some(i) ==> i < self.entries.len() && self.entries@[i as int].data@.id
                == Some(id),
            r is None ==> forall|k: Seq<char>| #[trigger]
                self@.contains_key(k) ==> self@[k].data.id != Some(id),
    {
        let mut i: usize = 0;
        while i < self.entries.len()
            invariant
                self.wf(),
                i <= self.entries.len(),
                forall|j: int| 0 <= j < i ==> self.entries@[j].data@.id != Some(id),
            decreases self.entries.len() - i,
        {
            if self.entries[i].data.id_is(id) {
                return Some(i);
            }
            i += 1;
        }
        None
    }

    /// Stores `data` under `key` with no live view, replacing what was there.
    /// The buffer receives a new identity.
    pub fn insert(&mut self, key: String, data: Data<D>)
        requires
            old(self).wf(),
            data.wf(),
            old(self).fresh_id() < u64::MAX,
        ensures
            final(self).wf(),
            final(self).fresh_id() == old(self).fresh_id() + 1,
            final(self)@ == old(self)@.insert(
                key@,
                EntryView { count: 0, data: DataView { id: Some(old(self).fresh_id()), ..data@ } },
            ),
    {
        let id = self.next_id;
        let found = self.find_key(&key);
        let ghost k = key@;
        let e = Entry { key, count: 0, data: data.with_id(id) };
        let ghost ev = e.view_entry();
        let ghost pre = self.entries@;
        match found {
            Some(i) => {
                self.entries.set(i, e);
            },
            None => {
                self.entries.push(e);
            },
        }
        self.next_id = id + 1;
        self.model = Ghost(self.model@.insert(k, ev));
        proof {
            let m = self.model@;
            assert forall|k2: Seq<char>| #[trigger] m.contains_key(k2) implies exists|i: int|
                0 <= i < self.entries.len() && #[trigger] self.entries@[i].key@ == k2 by {
                if k2 == k {
                    match found {
                        Some(i) => assert(self.entries@[i as int].key@ == k2),
                        None => assert(self.entries@[pre.len() as int].key@ == k2),
                    }
                } else {
                    let i = choose|i: int| 0 <= i < pre.len() && #[trigger] pre[i].key@ == k2;
                    assert(self.entries@[i].key@ == k2);
                }
            }
        }
    }

    /// Whether an entry is stored under `key`.
    pub fn contains(&self, key: &str) -> (r: bool)
        requires
            self.wf(),
        ensures
            r == self@.contains_key(key@),
    {
        let k = key.to_owned();
        self.find_key(&k).is_some()
    }

    /// The number of live views of the entry under `key`, 0 where there is none.
    pub fn ref_count(&self, key: &str) -> (r: usize)
        requires
            self.wf(),
        ensures
            r == (if self@.contains_key(key@) { self@[key@].count } else { 0 }),
    {
        let k = key.to_owned();
        match self.find_key(&k) {
            Some(i) => self.entries[i].count,
            None => 0,
        }
    }

    /// A view of the buffer under `key`, counted as one more live view.
    pub fn get(&mut self, key: &str) -> (r: Data<D>)
        requires
            old(self).wf(),
            old(self)@.contains_key(key@),
            old(self)@[key@].count < usize::MAX,
        ensures
            final(self).wf(),
            final(self).fresh_id() == old(self).fresh_id(),
            r@ == old(self)@[key@].data,
            final(self)@ == old(self)@.insert(
                key@,
                EntryView { count: old(self)@[key@].count + 1, data: old(self)@[key@].data },
            ),
    {
        let k = key.to_owned();
        let i = self.find_key(&k).unwrap();
        let r = self.entries[i].data.share();
        let e = Entry {
            key: self.entries[i].key.clone(),
            count: self.entries[i].count + 1,
            data: self.entries[i].data.share(),
        };
        let ghost ev = e.view_entry();
        let ghost pre = self.entries@;
        self.entries.set(i, e);
        self.model = Ghost(self.model@.insert(k@, ev));
        proof {
            let m = self.model@;
            assert forall|k2: Seq<char>| #[trigger] m.contains_key(k2) implies exists|j: int|
                0 <= j < self.entries.len() && #[trigger] self.entries@[j].key@ == k2 by {
                let j = choose|j: int| 0 <= j < pre.len() && #[trigger] pre[j].key@ == k2;
                assert(self.entries@[j].key@ == k2);
            }
        }
        r
    }

    /// Gives back one view: the entry whose buffer is the view's buffer counts one
    /// view less, and is dropped when none is left. Nothing happens where no entry
    /// holds that buffer any more. Identities are given by each cache, so a view
    /// goes back to the cache it came from.
    pub fn remove(&mut self, data: Data<D>)
        requires
            old(self).wf(),
        ensures
            final(self).wf(),
            final(self).fresh_id() == old(self).fresh_id(),
            released(old(self)@, final(self)@, data@.id),
    {
        let id = match data.id() {
            Some(x) => x,
            None => {
                return ;
            },
        };
        let i = match self.find_id(id) {
            Some(i) => i,
            None => {
                return ;
            },
        };
        let ghost pre = self.entries@;
        let ghost m0 = self.model@;
        let ghost k = pre[i as int].key@;
        assert(m0.contains_key(k));
        assert(m0[k].data.id == Some(id));
        if self.entries[i].count <= 1 {
            self.entries.remove(i);
            self.model = Ghost(m0.remove(k));
            proof {
                let m = self.model@;
                assert forall|k2: Seq<char>| #[trigger] m.contains_key(k2) implies exists|j: int|
                    0 <= j < self.entries.len() && #[trigger] self.entries@[j].key@ == k2 by {
                    let j = choose|j: int| 0 <= j < pre.len() && #[trigger] pre[j].key@ == k2;
                    if j < i {
                        assert(self.entries@[j].key@ == k2);
                    } else {
                        assert(j != i);
                        assert(self.entries@[j - 1].key@ == k2);
                    }
                }
            }
        } else {
            let e = Entry {
                key: self.entries[i].key.clone(),
                count: self.entries[i].count - 1,
                data: self.entries[i].data.share(),
            };
            let ghost ev = e.view_entry();
            self.entries.set(i, e);
            self.model = Ghost(m0.insert(k, ev));
            proof {
                let m = self.model@;
                assert forall|k2: Seq<char>| #[trigger] m.contains_key(k2) implies exists|j: int|
                    0 <= j < self.entries.len() && #[trigger] self.entries@[j].key@ == k2 by {
                    let j = choose|j: int| 0 <= j < pre.len() && #[trigger] pre[j].key@ == k2;
                    assert(self.entries@[j].key@ == k2);
                }
            }
        }
    }
}

/// A buffer stored under a key and then fetched once counts one live view, and
/// giving that view back drops the key from the cache.
pub proof fn law_fetch_then_release<D>(
    c0: Cache<D>,
    c1: Cache<D>,
    c2: Cache<D>,
    c3: Cache<D>,
    k: Seq<char>,
    d: DataView,
    v: DataView,
)
    requires
        c0.wf(),
        c1@ == c0@.insert(k, EntryView { count: 0, data: DataView { id: Some(c0.fresh_id()), ..d } }),
        c2@ == c1@.insert(k, EntryView { count: c1@[k].count + 1, data: c1@[k].data }),
        v == c1@[k].data,
        released(c2@, c3@, v.id),
    ensures
        c2@[k].count == 1,
        !c3@.contains_key(k),
{
    let m = c2@;
    assert(m.contains_key(k) && m[k].data.id == v.id);
    let k2 = choose|k2: Seq<char>| #[trigger] m.contains_key(k2) && m[k2].data.id == v.id;
    if k2 != k {
        assert(c0@.contains_key(k2));
    }
}

/// Giving back a view whose entry was already dropped changes nothing: the first
/// release drops the entry, the second leaves every other entry as it was.
pub proof fn law_release_after_eviction<D>(
    c0: Cache<D>,
    c1: Cache<D>,
    c2: Cache<D>,
    k: Seq<char>,
    v: DataView,
)
    requires
        c0.wf(),
        c0@.contains_key(k),
        c0@[k].data.id == v.id,
        c0@[k].count <= 1,
        released(c0@, c1@, v.id),
        released(c1@, c2@, v.id),
    ensures
        c1@ == c0@.remove(k),
        !c1@.contains_key(k),
        c2@ == c1@,
{
    let m = c0@;
    let k2 = choose|k2: Seq<char>| #[trigger] m.contains_key(k2) && m[k2].data.id == v.id;
    assert(m.contains_key(k2) && m[k2].data.id == v.id);
    assert(k2 == k);
    assert forall|k3: Seq<char>| #[trigger] c1@.contains_key(k3) implies c1@[k3].data.id != v.id by {
        assert(m.contains_key(k3) && k3 != k);
    }
}

} // verus!
