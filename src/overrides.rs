use vstd::prelude::*;

verus! {

/// One environment variable that a command tracks: a `Some` value sets it, and
/// `None` unsets it, whatever the inherited environment holds.
#[derive(Clone, Debug)]
pub struct EnvEntry {
    pub key: Vec<u8>,
    pub value: Option<Vec<u8>>,
}

/// The bytes of an optional byte string.
pub open spec fn opt_bytes(v: Option<Vec<u8>>) -> Option<Seq<u8>> {
    match v {
        Some(b) => Some(b@),
        None => None,
    }
}

impl View for EnvEntry {
    type V = (Seq<u8>, Option<Seq<u8>>);

    open spec fn view(&self) -> (Seq<u8>, Option<Seq<u8>>) {
        (self.key@, opt_bytes(self.value))
    }
}

/// The entries of `v` as plain values.
pub open spec fn entries_view(v: Seq<EnvEntry>) -> Seq<(Seq<u8>, Option<Seq<u8>>)> {
    v.map_values(|e: EnvEntry| e@)
}

/// No key occurs twice.
pub open spec fn unique_keys<V>(s: Seq<(Seq<u8>, V)>) -> bool {
    forall|i: int, j: int| 0 <= i < s.len() && 0 <= j < s.len() && i != j ==> s[i].0 != s[j].0
}

/// The mapping that a list of entries describes; a later entry wins over an
/// earlier one with the same key.
pub open spec fn to_map<V>(s: Seq<(Seq<u8>, V)>) -> Map<Seq<u8>, V>
    decreases s.len(),
{
    if s.len() == 0 {
        Map::empty()
    } else {
        to_map(s.drop_last()).insert(s.last().0, s.last().1)
    }
}

/// A key is mapped exactly when some entry holds it.
pub proof fn lemma_to_map_keys<V>(s: Seq<(Seq<u8>, V)>, k: Seq<u8>)
    ensures
        to_map(s).contains_key(k) <==> exists|i: int| 0 <= i < s.len() && s[i].0 == k,
    decreases s.len(),
{
    if s.len() > 0 {
        let t = s.drop_last();
        lemma_to_map_keys(t, k);
        if to_map(s).contains_key(k) && k != s.last().0 {
            let i = choose|i: int| 0 <= i < t.len() && t[i].0 == k;
            assert(s[i].0 == k);
        }
        if exists|i: int| 0 <= i < s.len() && s[i].0 == k {
            let i = choose|i: int| 0 <= i < s.len() && s[i].0 == k;
            if i < t.len() {
                assert(t[i].0 == k);
            }
        }
    }
}

/// With unique keys, each entry's key maps to that entry's value.
pub proof fn lemma_to_map_value<V>(s: Seq<(Seq<u8>, V)>, i: int)
    requires
        unique_keys(s),
        0 <= i < s.len(),
    ensures
        to_map(s).contains_key(s[i].0),
        to_map(s)[s[i].0] == s[i].1,
    decreases s.len(),
{
    let t = s.drop_last();
    if i < s.len() - 1 {
        assert(unique_keys(t));
        assert(t[i] == s[i]);
        lemma_to_map_value(t, i);
        assert(s[i].0 != s.last().0);
    }
}

/// With unique keys, the mapping has as many keys as there are entries.
pub proof fn lemma_to_map_len<V>(s: Seq<(Seq<u8>, V)>)
    requires
        unique_keys(s),
    ensures
        to_map(s).dom().finite(),
        to_map(s).len() == s.len(),
    decreases s.len(),
{
    if s.len() > 0 {
        let t = s.drop_last();
        assert(unique_keys(t));
        lemma_to_map_len(t);
        lemma_to_map_keys(t, s.last().0);
        if to_map(t).contains_key(s.last().0) {
            let i = choose|i: int| 0 <= i < t.len() && t[i].0 == s.last().0;
            assert(s[i].0 == s[s.len() - 1].0);
        }
    }
}

/// Two lists of entries with unique keys describe the same mapping when they
/// hold the same keys and agree on each key's value.
pub proof fn lemma_to_map_ext<V>(s: Seq<(Seq<u8>, V)>, m: Map<Seq<u8>, V>)
    requires
        unique_keys(s),
        forall|k: Seq<u8>| m.contains_key(k) <==> exists|i: int| 0 <= i < s.len() && s[i].0 == k,
        forall|i: int| 0 <= i < s.len() ==> m[s[i].0] == s[i].1,
    ensures
        to_map(s) == m,
{
    assert forall|k: Seq<u8>| to_map(s).contains_key(k) <==> m.contains_key(k) by {
        lemma_to_map_keys(s, k);
    }
    assert forall|k: Seq<u8>| to_map(s).contains_key(k) implies to_map(s)[k] == m[k] by {
        lemma_to_map_keys(s, k);
        let i = choose|i: int| 0 <= i < s.len() && s[i].0 == k;
        lemma_to_map_value(s, i);
    }
    assert(to_map(s) =~= m);
}

/// Replacing the entry at `i` by one with the same key updates that key.
pub proof fn lemma_to_map_update<V>(s: Seq<(Seq<u8>, V)>, i: int, v: V)
    requires
        unique_keys(s),
        0 <= i < s.len(),
    ensures
        unique_keys(s.update(i, (s[i].0, v))),
        to_map(s.update(i, (s[i].0, v))) == to_map(s).insert(s[i].0, v),
{
    let u = s.update(i, (s[i].0, v));
    let m = to_map(s).insert(s[i].0, v);
    assert(unique_keys(u));
    assert forall|k: Seq<u8>| m.contains_key(k) <==> exists|j: int| 0 <= j < u.len() && u[j].0 == k by {
        lemma_to_map_keys(s, k);
        if exists|j: int| 0 <= j < s.len() && s[j].0 == k {
            let j = choose|j: int| 0 <= j < s.len() && s[j].0 == k;
            assert(u[j].0 == k);
        }
        if exists|j: int| 0 <= j < u.len() && u[j].0 == k {
            let j = choose|j: int| 0 <= j < u.len() && u[j].0 == k;
            assert(s[j].0 == k);
        }
    }
    assert forall|j: int| 0 <= j < u.len() implies m[u[j].0] == u[j].1 by {
        if j != i {
            lemma_to_map_value(s, j);
        }
    }
    lemma_to_map_ext(u, m);
}

/// Appending an entry with a new key adds that key.
pub proof fn lemma_to_map_push<V>(s: Seq<(Seq<u8>, V)>, k: Seq<u8>, v: V)
    requires
        unique_keys(s),
        !to_map(s).contains_key(k),
    ensures
        unique_keys(s.push((k, v))),
        to_map(s.push((k, v))) == to_map(s).insert(k, v),
{
    let u = s.push((k, v));
    lemma_to_map_keys(s, k);
    assert forall|i: int, j: int| 0 <= i < u.len() && 0 <= j < u.len() && i != j implies u[i].0
        != u[j].0 by {
        if i < s.len() && j < s.len() {
            assert(u[i] == s[i] && u[j] == s[j]);
        } else if i < s.len() {
            assert(u[i] == s[i]);
        } else {
            assert(u[j] == s[j]);
        }
    }
    assert(u.drop_last() == s);
}

/// Removing the entry at `i` removes its key.
pub proof fn lemma_to_map_remove<V>(s: Seq<(Seq<u8>, V)>, i: int)
    requires
        unique_keys(s),
        0 <= i < s.len(),
    ensures
        unique_keys(s.remove(i)),
        to_map(s.remove(i)) == to_map(s).remove(s[i].0),
{
    let u = s.remove(i);
    let m = to_map(s).remove(s[i].0);
    assert forall|a: int, b: int| 0 <= a < u.len() && 0 <= b < u.len() && a != b implies u[a].0
        != u[b].0 by {
        let a2 = if a < i { a } else { a + 1 };
        let b2 = if b < i { b } else { b + 1 };
        assert(u[a] == s[a2] && u[b] == s[b2]);
    }
    assert forall|k: Seq<u8>| m.contains_key(k) <==> exists|j: int| 0 <= j < u.len() && u[j].0 == k by {
        lemma_to_map_keys(s, k);
        if m.contains_key(k) {
            let j = choose|j: int| 0 <= j < s.len() && s[j].0 == k;
            assert(j != i);
            let j2 = if j < i { j } else { j - 1 };
            assert(u[j2].0 == k);
        }
        if exists|j: int| 0 <= j < u.len() && u[j].0 == k {
            let j = choose|j: int| 0 <= j < u.len() && u[j].0 == k;
            let j2 = if j < i { j } else { j + 1 };
            assert(s[j2].0 == k);
        }
    }
    assert forall|j: int| 0 <= j < u.len() implies m[u[j].0] == u[j].1 by {
        let j2 = if j < i { j } else { j + 1 };
        assert(u[j] == s[j2]);
        lemma_to_map_value(s, j2);
    }
    lemma_to_map_ext(u, m);
}

/// Whether two byte strings are equal.
pub fn bytes_eq(a: &[u8], b: &[u8]) -> (r: bool)
    ensures
        r == (a@ == b@),
{
    if a.len() != b.len() {
        return false;
    }
    let mut i: usize = 0;
    while i < a.len()
        invariant
            a@.len() == b@.len(),
            i <= a@.len(),
            forall|j: int| 0 <= j < i ==> a@[j] == b@[j],
        decreases a@.len() - i,
    {
        if a[i] != b[i] {
            return false;
        }
        i = i + 1;
    }
    assert(a@ =~= b@);
    true
}

/// A copy of a byte string.
pub fn copy_bytes(s: &[u8]) -> (r: Vec<u8>)
    ensures
        r@ == s@,
{
    let mut r: Vec<u8> = Vec::with_capacity(s.len());
    let mut i: usize = 0;
    while i < s.len()
        invariant
            i <= s@.len(),
            r@ == s@.take(i as int),
        decreases s@.len() - i,
    {
        r.push(s[i]);
        i = i + 1;
        assert(r@ =~= s@.take(i as int));
    }
    assert(s@.take(i as int) =~= s@);
    r
}

/// A copy of an optional byte string.
pub fn copy_opt_bytes(v: &Option<Vec<u8>>) -> (r: Option<Vec<u8>>)
    ensures
        opt_bytes(r) == opt_bytes(*v),
{
    match v {
        Some(b) => Some(copy_bytes(b.as_slice())),
        None => None,
    }
}

/// A copy of a list of entries.
pub fn copy_entries(v: &Vec<EnvEntry>) -> (r: Vec<EnvEntry>)
    ensures
        entries_view(r@) == entries_view(v@),
{
    let mut r: Vec<EnvEntry> = Vec::with_capacity(v.len());
    let mut i: usize = 0;
    while i < v.len()
        invariant
            i <= v@.len(),
            r@.len() == i,
            forall|k: int| 0 <= k < i ==> r@[k]@ == v@[k]@,
        decreases v@.len() - i,
    {
        let e = EnvEntry { key: copy_bytes(v[i].key.as_slice()), value: copy_opt_bytes(&v[i].value) };
        r.push(e);
        i = i + 1;
    }
    assert(entries_view(r@) =~= entries_view(v@));
    r
}

/// A copy of a list of byte strings.
pub fn copy_byte_lists(v: &[Vec<u8>]) -> (r: Vec<Vec<u8>>)
    ensures
        r@.map_values(|a: Vec<u8>| a@) == v@.map_values(|a: Vec<u8>| a@),
{
    let mut r: Vec<Vec<u8>> = Vec::with_capacity(v.len());
    let mut i: usize = 0;
    while i < v.len()
        invariant
            i <= v@.len(),
            r@.len() == i,
            forall|k: int| 0 <= k < i ==> r@[k]@ == v@[k]@,
        decreases v@.len() - i,
    {
        r.push(copy_bytes(v[i].as_slice()));
        i = i + 1;
    }
    assert(r@.map_values(|a: Vec<u8>| a@) =~= v@.map_values(|a: Vec<u8>| a@));
    r
}

} // verus!
