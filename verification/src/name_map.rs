//! A map from names to values, in name order.

use vstd::prelude::*;
use crate::text;

verus! {

/// What names an entry of a map.
pub trait Name {
    /// The characters of the name.
    spec fn spelling(&self) -> Seq<char>;

    /// The name as text.
    fn as_name(&self) -> (r: &str)
        ensures
            r@ == self.spelling(),
    ;
}

impl Name for &'static str {
    open spec fn spelling(&self) -> Seq<char> {
        self@
    }

    fn as_name(&self) -> (r: &str) {
        self
    }
}

impl Name for String {
    open spec fn spelling(&self) -> Seq<char> {
        self@
    }

    fn as_name(&self) -> (r: &str) {
        self.as_str()
    }
}

/// Values by name, in the order of the names.
#[derive(Debug, Clone)]
pub struct NameMap<K, T> {
    entries: Vec<(K, T)>,
}

/// Whether the names ascend, so that none occurs twice.
spec fn ordered<K: Name, T>(entries: Seq<(K, T)>) -> bool {
    forall|i: int, j: int|
        0 <= i < j < entries.len() ==> text::precedes(
            (#[trigger] entries[i]).0.spelling(),
            (#[trigger] entries[j]).0.spelling(),
        )
}

/// Whether entry `i` has the name `name`.
spec fn named<K: Name, T>(entries: Seq<(K, T)>, i: int, name: Seq<char>) -> bool {
    0 <= i < entries.len() && entries[i].0.spelling() == name
}

spec fn as_map<K: Name, T>(entries: Seq<(K, T)>) -> Map<Seq<char>, T> {
    Map::new(
        |name: Seq<char>| exists|i: int| named(entries, i, name),
        |name: Seq<char>| entries[choose|i: int| named(entries, i, name)].1,
    )
}

proof fn lemma_named_unique<K: Name, T>(entries: Seq<(K, T)>, i: int, j: int)
    requires
        ordered(entries),
        named(entries, i, entries[j].0.spelling()),
        0 <= j < entries.len(),
    ensures
        i == j,
{
    text::lemma_precedes_irreflexive(entries[j].0.spelling());
    if i < j {
        assert(text::precedes(entries[i].0.spelling(), entries[j].0.spelling()));
    } else if j < i {
        assert(text::precedes(entries[j].0.spelling(), entries[i].0.spelling()));
    }
}

proof fn lemma_entry<K: Name, T>(entries: Seq<(K, T)>, i: int)
    requires
        ordered(entries),
        0 <= i < entries.len(),
    ensures
        as_map(entries).contains_key(entries[i].0.spelling()),
        as_map(entries)[entries[i].0.spelling()] == entries[i].1,
{
    let name = entries[i].0.spelling();
    assert(named(entries, i, name));
    let k = choose|k: int| named(entries, k, name);
    lemma_named_unique(entries, k, i);
}

impl<K: Name, T> View for NameMap<K, T> {
    type V = Map<Seq<char>, T>;

    closed spec fn view(&self) -> Map<Seq<char>, T> {
        as_map(self.entries@)
    }
}

impl<K: Name, T> NameMap<K, T> {
    /// Whether the names ascend.
    pub closed spec fn wf(&self) -> bool {
        ordered(self.entries@)
    }

    /// The names, in order.
    pub closed spec fn listing(&self) -> Seq<Seq<char>> {
        self.entries@.map_values(|e: (K, T)| e.0.spelling())
    }

    /// An empty map.
    #[must_use]
    pub fn new() -> (r: Self)
        ensures
            r.wf(),
            r@ == Map::<Seq<char>, T>::empty(),
            r.listing().len() == 0,
    {
        let r = NameMap { entries: Vec::new() };
        assert(r@ =~= Map::<Seq<char>, T>::empty());
        r
    }

    /// Position of the first name that does not come before `name`.
    fn position(&self, name: &str) -> (r: usize)
        requires
            self.wf(),
        ensures
            r <= self.entries@.len(),
            forall|i: int|
                0 <= i < r ==> text::precedes((#[trigger] self.entries@[i]).0.spelling(), name@),
            r < self.entries@.len() ==> !text::precedes(self.entries@[r as int].0.spelling(), name@),
    {
        let mut i: usize = 0;
        while i < self.entries.len() && text::before(self.entries[i].0.as_name(), name)
            invariant
                i <= self.entries@.len(),
                forall|k: int|
                    0 <= k < i ==> text::precedes((#[trigger] self.entries@[k]).0.spelling(), name@),
            decreases self.entries@.len() - i,
        {
            i = i + 1;
        }
        i
    }

    /// Set the value of `name`.
    pub fn insert(&mut self, name: K, value: T)
        requires
            old(self).wf(),
        ensures
            final(self).wf(),
            final(self)@ == old(self)@.insert(name.spelling(), value),
    {
        let at: usize = self.position(name.as_name());
        let ghost before = self.entries@;
        let ghost key = name;
        let ghost given = value;
        if at < self.entries.len() && text::same(self.entries[at].0.as_name(), name.as_name()) {
            self.entries[at] = (name, value);
            proof {
                let after = self.entries@;
                assert(after =~= before.update(at as int, (key, given)));
                assert forall|i: int, j: int| 0 <= i < j < after.len() implies text::precedes(
                    (#[trigger] after[i]).0.spelling(),
                    (#[trigger] after[j]).0.spelling(),
                ) by {
                    assert(text::precedes(before[i].0.spelling(), before[j].0.spelling()));
                }
                assert forall|e: (K, T)|
                    before.contains(e) && e.0.spelling() != key.spelling() implies after.contains(e) by {
                    let i = choose|i: int| 0 <= i < before.len() && before[i] == e;
                    assert(after[i] == e);
                }
                assert forall|e: (K, T)|
                    after.contains(e) && e.0.spelling() != key.spelling() implies before.contains(e) by {
                    let i = choose|i: int| 0 <= i < after.len() && after[i] == e;
                    assert(before[i] == e);
                }
                assert(after[at as int] == (key, given));
                lemma_inserted(before, after, key, given);
            }
        } else {
            proof {
                if at < before.len() {
                    text::lemma_precedes_total(before[at as int].0.spelling(), key.spelling());
                    assert forall|j: int| at <= j < before.len() implies text::precedes(
                        key.spelling(),
                        (#[trigger] before[j]).0.spelling(),
                    ) by {
                        if at < j {
                            text::lemma_precedes_transitive(
                                key.spelling(),
                                before[at as int].0.spelling(),
                                before[j].0.spelling(),
                            );
                        }
                    }
                }
            }
            self.entries.insert(at, (name, value));
            proof {
                let after = self.entries@;
                assert forall|i: int, j: int| 0 <= i < j < after.len() implies text::precedes(
                    (#[trigger] after[i]).0.spelling(),
                    (#[trigger] after[j]).0.spelling(),
                ) by {
                    let a = if i < at {
                        i
                    } else {
                        i - 1
                    };
                    let b = if j < at {
                        j
                    } else {
                        j - 1
                    };
                    if i == at {
                        assert(after[j] == before[b]);
                    } else if j == at {
                        assert(after[i] == before[a]);
                    } else {
                        assert(after[i] == before[a] && after[j] == before[b]);
                        assert(text::precedes(before[a].0.spelling(), before[b].0.spelling()));
                    }
                }
                assert forall|e: (K, T)|
                    before.contains(e) && e.0.spelling() != key.spelling() implies after.contains(e) by {
                    let i = choose|i: int| 0 <= i < before.len() && before[i] == e;
                    if i < at {
                        assert(after[i] == e);
                    } else {
                        assert(after[i + 1] == e);
                    }
                }
                assert forall|e: (K, T)|
                    after.contains(e) && e.0.spelling() != key.spelling() implies before.contains(e) by {
                    let i = choose|i: int| 0 <= i < after.len() && after[i] == e;
                    if i < at {
                        assert(before[i] == e);
                    } else {
                        assert(before[i - 1] == e);
                    }
                }
                assert(after[at as int] == (key, given));
                lemma_inserted(before, after, key, given);
            }
        }
    }

    /// The value of `name`, if there is one.
    #[must_use]
    pub fn get(&self, name: &str) -> (r: Option<&T>)
        requires
            self.wf(),
        ensures
            match r {
                Some(v) => self@.contains_key(name@) && self@[name@] == *v,
                None => !self@.contains_key(name@),
            },
    {
        let mut i: usize = 0;
        while i < self.entries.len()
            invariant
                self.wf(),
                i <= self.entries@.len(),
                forall|k: int| 0 <= k < i ==> (#[trigger] self.entries@[k]).0.spelling() != name@,
            decreases self.entries@.len() - i,
        {
            if text::same(self.entries[i].0.as_name(), name) {
                proof {
                    lemma_entry(self.entries@, i as int);
                }
                return Some(&self.entries[i].1);
            }
            i = i + 1;
        }
        proof {
            assert forall|k: int| !named(self.entries@, k, name@) by {}
        }
        None
    }

    /// The name at position `i` in name order.
    #[must_use]
    pub fn name_at(&self, i: usize) -> (r: &str)
        requires
            i < self.listing().len(),
        ensures
            r@ == self.listing()[i as int],
    {
        self.entries[i].0.as_name()
    }

    /// Number of names.
    #[must_use]
    pub fn len(&self) -> (r: usize)
        ensures
            r == self.listing().len(),
    {
        self.entries.len()
    }

    /// The value at position `i` in name order.
    #[must_use]
    pub fn at(&self, i: usize) -> (r: &T)
        requires
            self.wf(),
            i < self.listing().len(),
        ensures
            self@.contains_key(self.listing()[i as int]),
            *r == self@[self.listing()[i as int]],
    {
        proof {
            lemma_entry(self.entries@, i as int);
        }
        &self.entries[i].1
    }

    /// The names of the map are listed once each, in ascending order.
    pub proof fn law_listing(&self)
        requires
            self.wf(),
        ensures
            forall|i: int, j: int|
                0 <= i < j < self.listing().len() ==> text::precedes(
                    #[trigger] self.listing()[i],
                    #[trigger] self.listing()[j],
                ),
            forall|name: Seq<char>| #[trigger]
                self@.contains_key(name) <==> self.listing().contains(name),
    {
        let list = self.listing();
        assert forall|i: int, j: int| 0 <= i < j < list.len() implies text::precedes(
            #[trigger] list[i],
            #[trigger] list[j],
        ) by {
            assert(text::precedes(self.entries@[i].0.spelling(), self.entries@[j].0.spelling()));
        }
        assert forall|name: Seq<char>| #[trigger]
            self@.contains_key(name) <==> list.contains(name) by {
            if self@.contains_key(name) {
                let i = choose|i: int| named(self.entries@, i, name);
                assert(list[i] == name);
            }
            if list.contains(name) {
                let i = choose|i: int| 0 <= i < list.len() && list[i] == name;
                assert(named(self.entries@, i, name));
            }
        }
    }
}

impl<T> NameMap<&'static str, T> {
    /// The names, in order.
    #[must_use]
    pub fn names(&self) -> (r: Vec<&'static str>)
        ensures
            r@.map_values(|s: &'static str| s@) == self.listing(),
    {
        let mut out: Vec<&'static str> = Vec::new();
        let mut i: usize = 0;
        while i < self.entries.len()
            invariant
                i <= self.entries@.len(),
                out@.len() == i,
                forall|k: int| 0 <= k < i ==> out@[k]@ == self.entries@[k].0.spelling(),
            decreases self.entries@.len() - i,
        {
            out.push(self.entries[i].0);
            i = i + 1;
        }
        proof {
            assert(out@.map_values(|s: &'static str| s@) =~= self.listing());
        }
        out
    }
}

/// Entries that are ordered, keep every other name and hold `value` under
/// `name` are the entries with `name` set to `value`.
proof fn lemma_inserted<K: Name, T>(
    before: Seq<(K, T)>,
    after: Seq<(K, T)>,
    name: K,
    value: T,
)
    requires
        ordered(before),
        ordered(after),
        forall|e: (K, T)| before.contains(e) && e.0.spelling() != name.spelling() ==> after.contains(e),
        forall|e: (K, T)| after.contains(e) && e.0.spelling() != name.spelling() ==> before.contains(e),
        after.contains((name, value)),
    ensures
        as_map(after) == as_map(before).insert(name.spelling(), value),
{
    let a = as_map(after);
    let b = as_map(before).insert(name.spelling(), value);
    let at = choose|k: int| 0 <= k < after.len() && after[k] == (name, value);
    assert(named(after, at, name.spelling()));
    lemma_entry(after, at);
    assert forall|n: Seq<char>| a.contains_key(n) <==> b.contains_key(n) by {
        if a.contains_key(n) && n != name.spelling() {
            let k = choose|k: int| named(after, k, n);
            assert(after.contains(after[k]));
            let i = choose|i: int| 0 <= i < before.len() && before[i] == after[k];
            assert(named(before, i, n));
        }
        if b.contains_key(n) && n != name.spelling() {
            let i = choose|i: int| named(before, i, n);
            assert(before.contains(before[i]));
            let k = choose|k: int| 0 <= k < after.len() && after[k] == before[i];
            assert(named(after, k, n));
        }
    }
    assert forall|n: Seq<char>| #[trigger] a.contains_key(n) implies a[n] == b[n] by {
        if n != name.spelling() {
            let k = choose|k: int| named(after, k, n);
            lemma_entry(after, k);
            assert(after.contains(after[k]));
            let i = choose|i: int| 0 <= i < before.len() && before[i] == after[k];
            lemma_entry(before, i);
        }
    }
    assert(a =~= b);
}

/// What was set under a name is what the name gives from then on, and every other name
/// gives what it gave before.
pub proof fn law_insert_then_get<K: Name, T>(
    m: &mut NameMap<K, T>,
    name: K,
    value: T,
    key: &str,
    earlier: Option<&T>,
    later: Option<&T>,
)
    requires
        call_ensures(NameMap::<K, T>::insert, (m, name, value), ()),
        call_ensures(NameMap::<K, T>::get, (&*old(m), key), earlier),
    ensures
        call_ensures(NameMap::<K, T>::get, (&*final(m), key), later) ==> (if key@
            == name.spelling() {
            later matches Some(v) && *v == value
        } else {
            &&& later is Some <==> earlier is Some
            &&& later matches Some(v) ==> *v == *earlier->0
        }),
{
}

} // verus!
