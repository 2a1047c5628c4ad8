//! The wallet registry: gives each address a numeric id, once.
use vstd::prelude::*;

verus! {

/// A table from addresses to wallet ids, held in hashbrown's `HashMap`.
#[verifier::external_body]
pub struct AddressTable {
    map: hashbrown::HashMap<String, u64>,
}

/// The entries of an address table.
pub uninterp spec fn table_entries(t: AddressTable) -> Map<Seq<char>, u64>;

impl AddressTable {
    /// Relies on hashbrown's `HashMap::new`: a map with no entries.
    #[verifier::external_body]
    fn new() -> (t: AddressTable)
        ensures
            table_entries(t).dom() == Set::<Seq<char>>::empty(),
    {
        AddressTable { map: hashbrown::HashMap::new() }
    }

    /// Relies on hashbrown's `HashMap::get`: the value stored under the key,
    /// if there is one.
    #[verifier::external_body]
    fn get(&self, key: &str) -> (r: Option<u64>)
        ensures
            r == (if table_entries(*self).contains_key(key@) {
                Some(table_entries(*self)[key@])
            } else {
                None::<u64>
            }),
    {
        self.map.get(key).copied()
    }

    /// Relies on hashbrown's `HashMap::insert`: the key now maps to the
    /// value, and every other entry stays.
    #[verifier::external_body]
    fn insert(&mut self, key: String, value: u64)
        ensures
            table_entries(*final(self)) == table_entries(*old(self)).insert(key@, value),
    {
        self.map.insert(key, value);
    }
}

/// A table of ids is a bijection between its addresses and the ids
/// `0 .. n`, where `n` is the number of addresses.
pub open spec fn dense_bijection(m: Map<Seq<char>, u64>) -> bool {
    &&& m.dom().finite()
    &&& forall|a: Seq<char>| #[trigger] m.contains_key(a) ==> m[a] < m.len()
    &&& forall|a: Seq<char>, b: Seq<char>|
        #[trigger] m.contains_key(a) && #[trigger] m.contains_key(b) && a != b ==> m[a] != m[b]
}

/// The table after a request for `a`: unchanged when `a` is known, else
/// `a` gets the next id.
pub open spec fn register(m: Map<Seq<char>, u64>, a: Seq<char>) -> Map<Seq<char>, u64> {
    if m.contains_key(a) {
        m
    } else {
        m.insert(a, m.len() as u64)
    }
}

/// Registering one address keeps a table a dense bijection.
pub proof fn lemma_register_keeps_bijection(m: Map<Seq<char>, u64>, a: Seq<char>)
    requires
        dense_bijection(m),
        m.len() < u64::MAX,
    ensures
        dense_bijection(register(m, a)),
        register(m, a).contains_key(a),
        forall|b: Seq<char>| #[trigger]
            m.contains_key(b) ==> register(m, a).contains_key(b) && register(m, a)[b] == m[b],
        register(m, a).len() == if m.contains_key(a) {
            m.len()
        } else {
            m.len() + 1
        },
{
    if !m.contains_key(a) {
        let r = register(m, a);
        assert(r.dom() == m.dom().insert(a));
        assert(r.len() == m.len() + 1);
        assert forall|x: Seq<char>, y: Seq<char>|
            #[trigger] r.contains_key(x) && #[trigger] r.contains_key(y) && x != y implies r[x]
            != r[y] by {
            if x != a && y != a {
                assert(m.contains_key(x) && m.contains_key(y));
            } else if x == a {
                assert(m.contains_key(y));
                assert(m[y] < m.len());
            } else {
                assert(m.contains_key(x));
                assert(m[x] < m.len());
            }
        }
        assert forall|x: Seq<char>| #[trigger] r.contains_key(x) implies r[x] < r.len() by {
            if x != a {
                assert(m.contains_key(x));
            }
        }
    }
}

/// The table after the requests in `addrs`, served in that order, starting
/// from an empty registry.
pub open spec fn register_all(addrs: Seq<Seq<char>>) -> Map<Seq<char>, u64>
    decreases addrs.len(),
{
    if addrs.len() == 0 {
        Map::empty()
    } else {
        register(register_all(addrs.drop_last()), addrs.last())
    }
}

/// The id handed to the request at position `i` of `addrs`.
pub open spec fn id_given(addrs: Seq<Seq<char>>, i: int) -> u64 {
    register_all(addrs.take(i + 1))[addrs[i]]
}

proof fn lemma_register_all_valid(addrs: Seq<Seq<char>>)
    requires
        addrs.len() < u64::MAX,
    ensures
        dense_bijection(register_all(addrs)),
        register_all(addrs).len() <= addrs.len(),
        register_all(addrs).dom() =~= addrs.to_set(),
    decreases addrs.len(),
{
    if addrs.len() == 0 {
        assert(register_all(addrs) =~= Map::<Seq<char>, u64>::empty());
        assert(addrs.to_set() =~= Set::<Seq<char>>::empty());
    } else {
        let p = addrs.drop_last();
        lemma_register_all_valid(p);
        lemma_register_keeps_bijection(register_all(p), addrs.last());
        assert forall|x: Seq<char>| addrs.to_set().contains(x) <==> p.to_set().insert(
            addrs.last(),
        ).contains(x) by {
            if addrs.contains(x) {
                let k = choose|k: int| 0 <= k < addrs.len() && addrs[k] == x;
                if k < addrs.len() - 1 {
                    assert(p[k] == x);
                }
            }
            if p.contains(x) {
                let k = choose|k: int| 0 <= k < p.len() && p[k] == x;
                assert(addrs[k] == x);
            }
            if x == addrs.last() {
                assert(addrs[addrs.len() - 1] == x);
            }
        }
    }
}

proof fn lemma_register_all_extends(addrs: Seq<Seq<char>>, i: int)
    requires
        addrs.len() < u64::MAX,
        0 <= i <= addrs.len(),
    ensures
        forall|a: Seq<char>| #[trigger]
            register_all(addrs.take(i)).contains_key(a) ==> register_all(addrs).contains_key(a)
                && register_all(addrs)[a] == register_all(addrs.take(i))[a],
    decreases addrs.len(),
{
    if i == addrs.len() {
        assert(addrs.take(i) =~= addrs);
    } else {
        let p = addrs.drop_last();
        assert(addrs.take(i) =~= p.take(i));
        lemma_register_all_extends(p, i);
        lemma_register_all_valid(p);
        lemma_register_keeps_bijection(register_all(p), addrs.last());
    }
}

/// However the registry's lock serializes concurrent requests, for every
/// order `addrs` in which they are served: the table is a bijection between
/// the addresses requested and the ids `0 .. n`; each request for an
/// address gets the id of the first request for it; requests for different
/// addresses get different ids.
pub proof fn lemma_dedup_bijection(addrs: Seq<Seq<char>>)
    requires
        addrs.len() < u64::MAX,
    ensures
        dense_bijection(register_all(addrs)),
        register_all(addrs).dom() == addrs.to_set(),
        forall|i: int, j: int|
            0 <= j < i < addrs.len() && addrs[i] == addrs[j] ==> #[trigger] id_given(addrs, i)
                == #[trigger] id_given(addrs, j),
        forall|i: int, j: int|
            0 <= i < addrs.len() && 0 <= j < addrs.len() && addrs[i] != addrs[j] ==> #[trigger] id_given(
                addrs,
                i,
            ) != #[trigger] id_given(addrs, j),
{
    lemma_register_all_valid(addrs);
    let m = register_all(addrs);
    assert forall|i: int| 0 <= i < addrs.len() implies m.contains_key(addrs[i]) && #[trigger] id_given(
        addrs,
        i,
    ) == m[addrs[i]] by {
        let q = addrs.take(i + 1);
        assert(q.drop_last() =~= addrs.take(i));
        assert(q.last() == addrs[i]);
        lemma_register_all_valid(addrs.take(i));
        lemma_register_keeps_bijection(register_all(addrs.take(i)), addrs[i]);
        lemma_register_all_extends(addrs, i + 1);
    }
}

/// The registry. While well-formed, its table is a dense bijection: ids are
/// handed out once each, in order, and `wallet_count` of them so far.
pub struct WalletRegistry {
    table: AddressTable,
    count: u64,
}

impl WalletRegistry {
    /// The address-to-id entries.
    pub closed spec fn entries(&self) -> Map<Seq<char>, u64> {
        table_entries(self.table)
    }

    /// Well-formed: the table is a dense bijection and the counter is its
    /// number of entries.
    pub closed spec fn wf(&self) -> bool {
        &&& dense_bijection(table_entries(self.table))
        &&& self.count == table_entries(self.table).len()
    }

    /// The entries of a well-formed registry are a dense bijection.
    pub proof fn lemma_wf_dense(&self)
        requires
            self.wf(),
        ensures
            dense_bijection(self.entries()),
    {
    }

    /// An empty registry.
    pub fn new() -> (r: WalletRegistry)
        ensures
            r.entries() == Map::<Seq<char>, u64>::empty(),
            r.wf(),
    {
        let r = WalletRegistry { table: AddressTable::new(), count: 0 };
        proof {
            assert(table_entries(r.table) =~= Map::<Seq<char>, u64>::empty());
        }
        r
    }

    /// The number of addresses the registry holds.
    pub fn wallet_count(&self) -> (n: u64)
        requires
            self.wf(),
        ensures
            n == self.entries().len(),
    {
        self.count
    }

    /// The id of an address already registered: the read path, which
    /// changes nothing.
    pub fn lookup(&self, address: &str) -> (r: Option<u64>)
        ensures
            r == (if self.entries().contains_key(address@) {
                Some(self.entries()[address@])
            } else {
                None::<u64>
            }),
    {
        self.table.get(address)
    }

    /// The id of an address: the one it already has, or else the next id,
    /// which it keeps from then on. The presence check comes before an id
    /// is drawn, so ids stay dense.
    pub fn get_or_create(&mut self, address: String) -> (id: u64)
        requires
            old(self).wf(),
            old(self).entries().len() < u64::MAX,
        ensures
            final(self).wf(),
            final(self).entries() == register(old(self).entries(), address@),
            id == register(old(self).entries(), address@)[address@],
    {
        proof {
            lemma_register_keeps_bijection(self.entries(), address@);
        }
        match self.table.get(address.as_str()) {
            Some(id) => id,
            None => {
                let id = self.count;
                self.table.insert(address, id);
                self.count = self.count + 1;
                id
            },
        }
    }
}

} // verus!
