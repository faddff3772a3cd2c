//! Dictionaries: what the shell extension tells of a window or a monitor.

use vstd::prelude::*;
use vstd::string::*;

use crate::text::{chars_of, same};

verus! {

// ---------------------------------------------------------------------------
// Values
// ---------------------------------------------------------------------------

/// What a value is.
#[derive(Debug)]
pub enum Scalar {
    Str(String),
    U64(u64),
    U32(u32),
    U16(u16),
    U8(u8),
    I64(i64),
    I32(i32),
    I16(i16),
    Bool(bool),
    /// A floating-point number, as text.
    Double(String),
    Signature(String),
    ObjectPath(String),
    /// An array, a dictionary, a structure or the like.
    Other,
}

/// A value of a dictionary.
#[derive(Debug)]
pub struct Value {
    pub scalar: Scalar,
    /// The value as it is shown to a programmer.
    pub debug: String,
}

// ---------------------------------------------------------------------------
// The order of keys
// ---------------------------------------------------------------------------

/// Whether a text comes before another in the order of dictionaries: by the
/// first character that differs, a text before its continuations.
pub open spec fn precedes(a: Seq<char>, b: Seq<char>) -> bool
    decreases a.len(),
{
    if b.len() == 0 {
        false
    } else if a.len() == 0 {
        true
    } else if a[0] != b[0] {
        a[0] < b[0]
    } else {
        precedes(a.skip(1), b.skip(1))
    }
}

/// Law: no text comes before itself.
pub proof fn precedes_is_irreflexive(a: Seq<char>)
    ensures
        !precedes(a, a),
    decreases a.len(),
{
    if a.len() > 0 {
        precedes_is_irreflexive(a.skip(1));
    }
}

/// Law: the order of texts is transitive.
pub proof fn precedes_is_transitive(a: Seq<char>, b: Seq<char>, c: Seq<char>)
    requires
        precedes(a, b),
        precedes(b, c),
    ensures
        precedes(a, c),
    decreases a.len(),
{
    if a.len() > 0 && a[0] == b[0] && b[0] == c[0] {
        precedes_is_transitive(a.skip(1), b.skip(1), c.skip(1));
    }
}

/// Law: of two different texts one comes before the other.
pub proof fn precedes_is_total(a: Seq<char>, b: Seq<char>)
    requires
        a != b,
    ensures
        precedes(a, b) || precedes(b, a),
    decreases a.len(),
{
    if a.len() > 0 && b.len() > 0 && a[0] == b[0] {
        if a.skip(1) == b.skip(1) {
            assert(a.len() == a.skip(1).len() + 1);
            assert(b.len() == b.skip(1).len() + 1);
            assert forall|i: int| 0 <= i < a.len() implies a[i] == b[i] by {
                if i > 0 {
                    assert(a[i] == a.skip(1)[i - 1]);
                    assert(b[i] == b.skip(1)[i - 1]);
                }
            }
            assert(a =~= b);
        }
        precedes_is_total(a.skip(1), b.skip(1));
    } else if a.len() == 0 && b.len() == 0 {
        assert(a =~= b);
    }
}

/// Tests whether a text comes before another.
pub fn comes_before(a: &str, b: &str) -> (r: bool)
    ensures
        r == precedes(a@, b@),
{
    let x: Vec<char> = chars_of(a);
    let y: Vec<char> = chars_of(b);
    let mut i: usize = 0;
    assert(a@.skip(0) =~= a@);
    assert(b@.skip(0) =~= b@);
    while i < x.len() && i < y.len()
        invariant
            x@ == a@,
            y@ == b@,
            i <= x.len(),
            i <= y.len(),
            precedes(a@, b@) == precedes(a@.skip(i as int), b@.skip(i as int)),
        decreases x.len() - i,
    {
        assert(a@.skip(i as int)[0] == x@[i as int]);
        assert(b@.skip(i as int)[0] == y@[i as int]);
        if x[i] != y[i] {
            return x[i] < y[i];
        }
        assert(a@.skip(i as int).skip(1) =~= a@.skip(i + 1));
        assert(b@.skip(i as int).skip(1) =~= b@.skip(i + 1));
        i = i + 1;
    }
    i < y.len()
}

// ---------------------------------------------------------------------------
// Dictionaries
// ---------------------------------------------------------------------------

/// A dictionary: values by key.  No key occurs twice.
#[derive(Debug)]
pub struct WindowDict {
    /// The entries, in the order of their keys.
    entries: Vec<(String, Value)>,
}

/// The value of a key in a list of entries.
spec fn lookup(entries: Seq<(String, Value)>, key: Seq<char>) -> Option<Value>
    decreases entries.len(),
{
    if entries.len() == 0 {
        None
    } else if entries.last().0@ == key {
        Some(entries.last().1)
    } else {
        lookup(entries.drop_last(), key)
    }
}

/// Whether texts stand in strictly ascending order.
pub open spec fn ascending(keys: Seq<Seq<char>>) -> bool {
    forall|i: int, j: int| 0 <= i < j < keys.len() ==> precedes(#[trigger] keys[i], #[trigger] keys[j])
}

/// Law: there is only one way to list the same keys in ascending order.
pub proof fn ascending_lists_are_equal(a: Seq<Seq<char>>, b: Seq<Seq<char>>)
    requires
        ascending(a),
        ascending(b),
        forall|k: Seq<char>| #[trigger] a.contains(k) <==> b.contains(k),
    ensures
        a == b,
    decreases a.len(),
{
    if a.len() == 0 || b.len() == 0 {
        if a.len() > 0 {
            assert(a.contains(a[0]));
        }
        if b.len() > 0 {
            assert(b.contains(b[0]));
            assert(a.contains(b[0]));
        }
        assert(a =~= b);
    } else {
        let x = a.last();
        let y = b.last();
        assert(a.contains(x));
        assert(b.contains(y));
        assert(b.contains(x));
        assert(a.contains(y));
        let j = choose|j: int| 0 <= j < b.len() && b[j] == x;
        let i = choose|i: int| 0 <= i < a.len() && a[i] == y;
        precedes_is_irreflexive(x);
        if j < b.len() - 1 {
            assert(precedes(b[j], b[b.len() - 1]));
            if i < a.len() - 1 {
                assert(precedes(a[i], a[a.len() - 1]));
                precedes_is_transitive(x, y, x);
            }
        }
        assert(x == y);
        let c = a.drop_last();
        let d = b.drop_last();
        assert forall|k: Seq<char>| #[trigger] c.contains(k) <==> d.contains(k) by {
            if c.contains(k) {
                let m = choose|m: int| 0 <= m < c.len() && c[m] == k;
                assert(a[m] == k);
                assert(precedes(a[m], a[a.len() - 1]));
                assert(a.contains(k));
                let n = choose|n: int| 0 <= n < b.len() && b[n] == k;
                assert(n < b.len() - 1);
                assert(d[n] == k);
            }
            if d.contains(k) {
                let m = choose|m: int| 0 <= m < d.len() && d[m] == k;
                assert(b[m] == k);
                assert(precedes(b[m], b[b.len() - 1]));
                assert(b.contains(k));
                assert(a.contains(k));
                let n = choose|n: int| 0 <= n < a.len() && a[n] == k;
                assert(n < a.len() - 1);
                assert(c[n] == k);
            }
        }
        ascending_lists_are_equal(c, d);
        assert(a =~= c.push(x));
        assert(b =~= d.push(y));
    }
}

/// Whether a list holds the keys of a dictionary in ascending order.
pub open spec fn lists_keys(keys: Seq<Seq<char>>, m: Map<Seq<char>, Value>) -> bool {
    &&& ascending(keys)
    &&& forall|k: Seq<char>| #[trigger] keys.contains(k) <==> m.contains_key(k)
}

/// The keys of a dictionary in ascending order.
pub open spec fn sorted_keys(m: Map<Seq<char>, Value>) -> Seq<Seq<char>> {
    choose|keys: Seq<Seq<char>>| lists_keys(keys, m)
}

/// Law: the keys of a dictionary in ascending order are any list of its keys that
/// is in ascending order.
pub proof fn sorted_keys_are_unique(keys: Seq<Seq<char>>, m: Map<Seq<char>, Value>)
    requires
        lists_keys(keys, m),
    ensures
        sorted_keys(m) == keys,
{
    let sorted = sorted_keys(m);
    assert(lists_keys(sorted, m));
    assert forall|k: Seq<char>| #[trigger] sorted.contains(k) <==> keys.contains(k) by {
        assert(sorted.contains(k) <==> m.contains_key(k));
        assert(keys.contains(k) <==> m.contains_key(k));
    }
    ascending_lists_are_equal(sorted, keys);
}

spec fn keys_of(entries: Seq<(String, Value)>) -> Seq<Seq<char>> {
    entries.map_values(|e: (String, Value)| e.0@)
}

impl View for WindowDict {
    type V = Map<Seq<char>, Value>;

    closed spec fn view(&self) -> Map<Seq<char>, Value> {
        Map::new(
            |k: Seq<char>| lookup(self.entries@, k) is Some,
            |k: Seq<char>| lookup(self.entries@, k)->0,
        )
    }
}

proof fn lookup_finds(entries: Seq<(String, Value)>, i: int)
    requires
        0 <= i < entries.len(),
        ascending(keys_of(entries)),
    ensures
        lookup(entries, entries[i].0@) == Some(entries[i].1),
    decreases entries.len(),
{
    if i < entries.len() - 1 {
        let keys = keys_of(entries);
        assert(precedes(keys[i], keys[entries.len() - 1]));
        precedes_is_irreflexive(keys[i]);
        let rest = entries.drop_last();
        assert forall|a: int, b: int| 0 <= a < b < rest.len() implies precedes(
            #[trigger] keys_of(rest)[a],
            #[trigger] keys_of(rest)[b],
        ) by {
            assert(keys_of(rest)[a] == keys[a]);
            assert(keys_of(rest)[b] == keys[b]);
        }
        lookup_finds(rest, i);
    }
}

proof fn lookup_misses(entries: Seq<(String, Value)>, key: Seq<char>)
    requires
        forall|i: int| 0 <= i < entries.len() ==> (#[trigger] entries[i]).0@ != key,
    ensures
        lookup(entries, key) is None,
    decreases entries.len(),
{
    if entries.len() > 0 {
        lookup_misses(entries.drop_last(), key);
    }
}

/// The value of a key is that of the entry with the key, if there is one.
proof fn lookup_is_membership(entries: Seq<(String, Value)>, key: Seq<char>)
    requires
        ascending(keys_of(entries)),
    ensures
        lookup(entries, key) is Some <==> exists|i: int|
            0 <= i < entries.len() && (#[trigger] entries[i]).0@ == key,
        forall|i: int|
            0 <= i < entries.len() && (#[trigger] entries[i]).0@ == key ==> lookup(entries, key)
                == Some(entries[i].1),
{
    if exists|i: int| 0 <= i < entries.len() && (#[trigger] entries[i]).0@ == key {
        assert forall|i: int| 0 <= i < entries.len() && (#[trigger] entries[i]).0@
            == key implies lookup(entries, key) == Some(entries[i].1) by {
            lookup_finds(entries, i);
        }
    } else {
        lookup_misses(entries, key);
    }
}

impl WindowDict {
    #[verifier::type_invariant]
    spec fn well_formed(self) -> bool {
        ascending(keys_of(self.entries@))
    }

    proof fn entries_are_sorted(&self)
        requires
            self.well_formed(),
        ensures
            sorted_keys(self@) == keys_of(self.entries@),
            lists_keys(sorted_keys(self@), self@),
    {
        let keys = keys_of(self.entries@);
        assert forall|k: Seq<char>| #[trigger] keys.contains(k) <==> self@.contains_key(k) by {
            lookup_is_membership(self.entries@, k);
            if keys.contains(k) {
                let i = choose|i: int| 0 <= i < keys.len() && keys[i] == k;
                assert(self.entries@[i].0@ == k);
            }
            if self@.contains_key(k) {
                let i = choose|i: int|
                    0 <= i < self.entries@.len() && (#[trigger] self.entries@[i]).0@ == k;
                assert(keys[i] == k);
            }
        }
        sorted_keys_are_unique(keys, self@);
    }

    /// A dictionary without entries.
    pub fn new() -> (r: WindowDict)
        ensures
            r@ == Map::<Seq<char>, Value>::empty(),
    {
        let r = WindowDict { entries: Vec::new() };
        assert(r@ =~= Map::<Seq<char>, Value>::empty());
        r
    }

    /// Finds the value of a key.
    pub fn get(&self, key: &str) -> (r: Option<&Value>)
        ensures
            match r {
                Some(v) => self@.contains_key(key@) && *v == self@[key@],
                None => !self@.contains_key(key@),
            },
    {
        proof {
            use_type_invariant(self);
            lookup_is_membership(self.entries@, key@);
        }
        for i in 0..self.entries.len()
            invariant
                forall|j: int| 0 <= j < i ==> (#[trigger] self.entries@[j]).0@ != key@,
                ascending(keys_of(self.entries@)),
        {
            if same(self.entries[i].0.as_str(), key) {
                proof {
                    lookup_finds(self.entries@, i as int);
                }
                return Some(&self.entries[i].1);
            }
        }
        proof {
            lookup_misses(self.entries@, key@);
        }
        None
    }

    /// The number of entries.  There is one for each key that has a value.
    pub fn len(&self) -> (n: usize)
        ensures
            n == sorted_keys(self@).len(),
            lists_keys(sorted_keys(self@), self@),
    {
        proof {
            use_type_invariant(self);
            self.entries_are_sorted();
        }
        self.entries.len()
    }

    /// The entry at a place, in the order of the keys.
    pub fn entry(&self, i: usize) -> (r: (&str, &Value))
        requires
            i < sorted_keys(self@).len(),
        ensures
            r.0@ == sorted_keys(self@)[i as int],
            self@.contains_key(r.0@),
            *r.1 == self@[r.0@],
    {
        proof {
            use_type_invariant(self);
            self.entries_are_sorted();
            lookup_finds(self.entries@, i as int);
        }
        (self.entries[i].0.as_str(), &self.entries[i].1)
    }

    /// Gives a key a value, in place of the one that it had.
    pub fn insert(&mut self, key: String, value: Value)
        ensures
            final(self)@ == old(self)@.insert(key@, value),
    {
        proof {
            use_type_invariant(&*self);
        }
        let ghost before = self.entries@;
        let mut entries: Vec<(String, Value)> = Vec::new();
        std::mem::swap(&mut entries, &mut self.entries);
        let mut at: usize = 0;
        while at < entries.len() && comes_before(entries[at].0.as_str(), key.as_str())
            invariant
                at <= entries.len(),
                forall|j: int| 0 <= j < at ==> precedes((#[trigger] entries@[j]).0@, key@),
            ensures
                at <= entries.len(),
                forall|j: int| 0 <= j < at ==> precedes((#[trigger] entries@[j]).0@, key@),
                at < entries.len() ==> !precedes(entries@[at as int].0@, key@),
            decreases entries.len() - at,
        {
            at = at + 1;
        }
        let ghost keys = keys_of(before);
        if at < entries.len() && same(entries[at].0.as_str(), key.as_str()) {
            entries.set(at, (key, value));
            assert(keys_of(entries@) =~= keys);
        } else {
            proof {
                assert forall|j: int| at <= j < before.len() implies precedes(
                    key@,
                    (#[trigger] before[j]).0@,
                ) by {
                    assert(keys[at as int] != key@);
                    precedes_is_total(keys[at as int], key@);
                    if j > at {
                        assert(precedes(keys[at as int], keys[j]));
                        precedes_is_transitive(key@, keys[at as int], keys[j]);
                    }
                }
            }
            entries.insert(at, (key, value));
            assert forall|i: int, j: int| 0 <= i < j < entries@.len() implies precedes(
                #[trigger] keys_of(entries@)[i],
                #[trigger] keys_of(entries@)[j],
            ) by {
                let a = if i < at {
                    i
                } else {
                    i - 1
                };
                let b = if j < at {
                    j
                } else {
                    j - 1
                };
                if i != at {
                    assert(entries@[i] == before[a]);
                    assert(keys[a] == before[a].0@);
                }
                if j != at {
                    assert(entries@[j] == before[b]);
                    assert(keys[b] == before[b].0@);
                }
            }
        }
        self.entries = entries;
        assert forall|k: Seq<char>|
            lookup(self.entries@, k) == (if k == key@ {
                Some(value)
            } else {
                lookup(before, k)
            }) by {
            lookup_is_membership(self.entries@, k);
            lookup_is_membership(before, k);
            assert(self.entries@[at as int] == (key, value));
            if k != key@ {
                if exists|i: int| 0 <= i < before.len() && (#[trigger] before[i]).0@ == k {
                    let i = choose|i: int| 0 <= i < before.len() && (#[trigger] before[i]).0@ == k;
                    if self.entries@.len() == before.len() || i < at {
                        assert(self.entries@[i] == before[i]);
                    } else {
                        assert(self.entries@[i + 1] == before[i]);
                    }
                } else if exists|i: int|
                    0 <= i < self.entries@.len() && (#[trigger] self.entries@[i]).0@ == k {
                    let i = choose|i: int|
                        0 <= i < self.entries@.len() && (#[trigger] self.entries@[i]).0@ == k;
                    if self.entries@.len() == before.len() || i < at {
                        assert(self.entries@[i] == before[i]);
                    } else {
                        assert(self.entries@[i] == before[i - 1]);
                    }
                }
            }
        }
        assert(self@ =~= old(self)@.insert(key@, value));
    }
}

/// Law: a text comes before another just where the two agree up to some place, and
/// there the one ends and the other goes on, or the one has the character with the
/// lower code.
pub proof fn the_first_difference_decides(a: Seq<char>, b: Seq<char>)
    ensures
        precedes(a, b) <==> exists|k: int|
            0 <= k <= a.len() && k < b.len() && #[trigger] a.take(k) == b.take(k) && (k == a.len()
                || (a[k] as int) < (b[k] as int)),
    decreases a.len(),
{
    if a.len() > 0 && b.len() > 0 && a[0] == b[0] {
        let (c, d) = (a.skip(1), b.skip(1));
        the_first_difference_decides(c, d);
        if precedes(a, b) {
            let k = choose|k: int|
                0 <= k <= c.len() && k < d.len() && #[trigger] c.take(k) == d.take(k) && (k
                    == c.len() || (c[k] as int) < (d[k] as int));
            let (e, f) = (a.take(k + 1), b.take(k + 1));
            assert forall|i: int| 0 <= i < k + 1 implies e[i] == f[i] by {
                if i > 0 {
                    assert(c.take(k)[i - 1] == d.take(k)[i - 1]);
                }
            }
            assert(e =~= f);
        }
        if exists|k: int|
            0 <= k <= a.len() && k < b.len() && #[trigger] a.take(k) == b.take(k) && (k == a.len()
                || (a[k] as int) < (b[k] as int)) {
            let k = choose|k: int|
                0 <= k <= a.len() && k < b.len() && #[trigger] a.take(k) == b.take(k) && (k
                    == a.len() || (a[k] as int) < (b[k] as int));
            assert(k > 0);
            let (e, f) = (c.take(k - 1), d.take(k - 1));
            assert forall|i: int| 0 <= i < k - 1 implies e[i] == f[i] by {
                assert(a.take(k)[i + 1] == b.take(k)[i + 1]);
            }
            assert(e =~= f);
        }
    } else {
        assert(a.take(0) =~= b.take(0));
        if a.len() > 0 && b.len() > 0 {
            assert forall|k: int| 0 < k <= a.len() && k < b.len() implies #[trigger] a.take(k)
                != b.take(k) by {
                assert(a.take(k)[0] != b.take(k)[0]);
            }
        }
    }
}

} // verus!
