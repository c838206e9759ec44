//! A JSON value model: the values that tool arguments, schemas and outputs
//! carry. Objects keep their entries sorted by key, without repeats, so that
//! two objects with the same entries are the same value and iterate in the
//! same (key) order.

use vstd::prelude::*;

verus! {

/// A JSON number: an integer, or a floating-point number held as its IEEE-754
/// bit pattern.
#[derive(Debug, Clone, Copy, PartialEq, Eq, Structural)]
pub enum JsonNumber {
    /// An integer (within `i64::MIN ..= u64::MAX` for values read from text).
    Int(i128),
    /// A finite floating-point number, as the bits of an `f64`.
    Float(u64),
}

/// A JSON value.
#[derive(Debug)]
pub enum JsonValue {
    Null,
    Bool(bool),
    Number(JsonNumber),
    String(String),
    Array(Vec<JsonValue>),
    Object(JsonMap),
}

/// A JSON object: entries sorted by key, each key once.
#[derive(Debug)]
pub struct JsonMap {
    entries: Vec<(String, JsonValue)>,
}

/// The mathematical value of a [`JsonValue`].
#[verifier::ext_equal]
pub enum JsonSpec {
    Null,
    Bool(bool),
    Number(JsonNumber),
    Str(Seq<char>),
    Array(Seq<JsonSpec>),
    Object(Seq<(Seq<char>, JsonSpec)>),
}

/// Strict lexicographic order on keys, by code point (the order of `String`).
pub open spec fn key_lt(a: Seq<char>, b: Seq<char>) -> bool
    decreases a.len(),
{
    if a.len() == 0 {
        b.len() > 0
    } else if b.len() == 0 {
        false
    } else if a[0] != b[0] {
        a[0] < b[0]
    } else {
        key_lt(a.drop_first(), b.drop_first())
    }
}

/// The keys of `s` are strictly increasing.
pub open spec fn keys_sorted(s: Seq<(Seq<char>, JsonSpec)>) -> bool {
    forall|i: int, j: int| 0 <= i < j < s.len() ==> key_lt(#[trigger] s[i].0, #[trigger] s[j].0)
}

/// Whether key `k` occurs in the entries `s`.
pub open spec fn has_key(s: Seq<(Seq<char>, JsonSpec)>, k: Seq<char>) -> bool {
    exists|i: int| 0 <= i < s.len() && #[trigger] s[i].0 == k
}

/// The value stored under `k` in the entries `s`, if any (the first binding).
pub open spec fn lookup(s: Seq<(Seq<char>, JsonSpec)>, k: Seq<char>) -> Option<JsonSpec>
    decreases s.len(),
{
    if s.len() == 0 {
        None
    } else if s[0].0 == k {
        Some(s[0].1)
    } else {
        lookup(s.drop_first(), k)
    }
}

/// The entries `s` with `k` bound to `v`: the binding replaced if `k` was
/// there, added in key order otherwise.
pub open spec fn entries_insert(s: Seq<(Seq<char>, JsonSpec)>, k: Seq<char>, v: JsonSpec) -> Seq<(Seq<char>, JsonSpec)> {
    let p = first_not_below(s, k);
    if p < s.len() && s[p].0 == k {
        s.update(p, (k, v))
    } else {
        s.insert(p, (k, v))
    }
}

/// The first index whose key is not below `k` (or the length).
pub open spec fn first_not_below(s: Seq<(Seq<char>, JsonSpec)>, k: Seq<char>) -> int
    decreases s.len(),
{
    if s.len() == 0 {
        0
    } else if key_lt(s[0].0, k) {
        1 + first_not_below(s.drop_first(), k)
    } else {
        0
    }
}

impl JsonSpec {
    pub open spec fn is_object(self) -> bool {
        self is Object
    }

    /// The value under `k` if this is an object that has it.
    pub open spec fn get(self, k: Seq<char>) -> Option<JsonSpec> {
        match self {
            JsonSpec::Object(s) => lookup(s, k),
            _ => None,
        }
    }

    /// The text if this is a string.
    pub open spec fn as_str(self) -> Option<Seq<char>> {
        match self {
            JsonSpec::Str(s) => Some(s),
            _ => None,
        }
    }
}

pub broadcast proof fn lemma_key_lt_irreflexive(a: Seq<char>)
    ensures
        !#[trigger] key_lt(a, a),
    decreases a.len(),
{
    if a.len() > 0 {
        lemma_key_lt_irreflexive(a.drop_first());
    }
}

pub proof fn lemma_key_lt_transitive(a: Seq<char>, b: Seq<char>, c: Seq<char>)
    requires
        key_lt(a, b),
        key_lt(b, c),
    ensures
        key_lt(a, c),
    decreases a.len(),
{
    if a.len() > 0 && b.len() > 0 && c.len() > 0 && a[0] == b[0] && b[0] == c[0] {
        lemma_key_lt_transitive(a.drop_first(), b.drop_first(), c.drop_first());
    }
}

pub proof fn lemma_key_lt_total(a: Seq<char>, b: Seq<char>)
    ensures
        a == b || key_lt(a, b) || key_lt(b, a),
    decreases a.len(),
{
    if a.len() > 0 && b.len() > 0 && a[0] == b[0] {
        lemma_key_lt_total(a.drop_first(), b.drop_first());
        if a.drop_first() == b.drop_first() {
            assert(a =~= seq![a[0]] + a.drop_first());
            assert(b =~= seq![b[0]] + b.drop_first());
        }
    } else if a.len() > 0 && b.len() > 0 {
    } else if a.len() == 0 && b.len() == 0 {
        assert(a =~= b);
    }
}

pub proof fn lemma_key_lt_asymmetric(a: Seq<char>, b: Seq<char>)
    requires
        key_lt(a, b),
    ensures
        !key_lt(b, a),
{
    if key_lt(b, a) {
        lemma_key_lt_transitive(a, b, a);
        lemma_key_lt_irreflexive(a);
    }
}

/// In sorted entries a key occurs at most once, so the lookup is the value at
/// the (unique) index holding it.
pub proof fn lemma_lookup_at(s: Seq<(Seq<char>, JsonSpec)>, i: int)
    requires
        keys_sorted(s),
        0 <= i < s.len(),
    ensures
        lookup(s, s[i].0) == Some(s[i].1),
    decreases i,
{
    if i > 0 {
        assert(key_lt(s[0].0, s[i].0));
        lemma_key_lt_irreflexive(s[i].0);
        let t = s.drop_first();
        assert forall|a: int, b: int| 0 <= a < b < t.len() implies key_lt(#[trigger] t[a].0, #[trigger] t[b].0) by {
            assert(t[a] == s[a + 1] && t[b] == s[b + 1]);
        }
        assert(t[i - 1] == s[i]);
        lemma_lookup_at(t, i - 1);
    }
}

/// A key bound nowhere has no lookup.
pub proof fn lemma_lookup_none(s: Seq<(Seq<char>, JsonSpec)>, k: Seq<char>)
    requires
        !has_key(s, k),
    ensures
        lookup(s, k) is None,
    decreases s.len(),
{
    if s.len() > 0 {
        assert(s[0].0 != k);
        let t = s.drop_first();
        assert forall|j: int| 0 <= j < t.len() implies #[trigger] t[j].0 != k by {
            assert(t[j] == s[j + 1]);
        }
        lemma_lookup_none(t, k);
    }
}

/// A lookup that succeeds finds a binding of the key.
pub proof fn lemma_lookup_some(s: Seq<(Seq<char>, JsonSpec)>, k: Seq<char>)
    requires
        lookup(s, k) is Some,
    ensures
        has_key(s, k),
    decreases s.len(),
{
    if s[0].0 != k {
        let t = s.drop_first();
        lemma_lookup_some(t, k);
        let j = choose|j: int| 0 <= j < t.len() && #[trigger] t[j].0 == k;
        assert(s[j + 1].0 == k);
    } else {
        assert(s[0].0 == k);
    }
}

proof fn lemma_first_not_below(s: Seq<(Seq<char>, JsonSpec)>, k: Seq<char>)
    requires
        keys_sorted(s),
    ensures
        0 <= first_not_below(s, k) <= s.len(),
        forall|i: int| 0 <= i < first_not_below(s, k) ==> key_lt(#[trigger] s[i].0, k),
        forall|i: int| first_not_below(s, k) <= i < s.len() ==> !key_lt(#[trigger] s[i].0, k),
    decreases s.len(),
{
    if s.len() > 0 {
        let t = s.drop_first();
        assert forall|i: int, j: int| 0 <= i < j < t.len() implies key_lt(#[trigger] t[i].0, #[trigger] t[j].0) by {
            assert(t[i] == s[i + 1] && t[j] == s[j + 1]);
        }
        lemma_first_not_below(t, k);
        if key_lt(s[0].0, k) {
            assert forall|i: int| 0 <= i < first_not_below(s, k) implies key_lt(#[trigger] s[i].0, k) by {
                if i > 0 {
                    assert(s[i] == t[i - 1]);
                }
            }
            assert forall|i: int| first_not_below(s, k) <= i < s.len() implies !key_lt(#[trigger] s[i].0, k) by {
                assert(s[i] == t[i - 1]);
            }
        } else {
            assert forall|i: int| 0 <= i < s.len() implies !key_lt(#[trigger] s[i].0, k) by {
                if i > 0 && key_lt(s[i].0, k) {
                    assert(key_lt(s[0].0, s[i].0));
                    lemma_key_lt_transitive(s[0].0, s[i].0, k);
                }
            }
        }
    }
}

/// Inserting into sorted entries keeps them sorted and binds `k` to `v`,
/// leaving every other key's binding as it was.
pub proof fn lemma_entries_insert(s: Seq<(Seq<char>, JsonSpec)>, k: Seq<char>, v: JsonSpec)
    requires
        keys_sorted(s),
    ensures
        keys_sorted(entries_insert(s, k, v)),
        lookup(entries_insert(s, k, v), k) == Some(v),
        forall|k2: Seq<char>| k2 != k ==> lookup(#[trigger] entries_insert(s, k, v), k2) == lookup(s, k2),
{
    let p = first_not_below(s, k);
    lemma_first_not_below(s, k);
    let r = entries_insert(s, k, v);
    if p < s.len() && s[p].0 == k {
        assert(r == s.update(p, (k, v)));
        assert forall|i: int, j: int| 0 <= i < j < r.len() implies key_lt(#[trigger] r[i].0, #[trigger] r[j].0) by {
            assert(r[i].0 == s[i].0 && r[j].0 == s[j].0);
        }
        lemma_lookup_at(r, p);
        assert forall|k2: Seq<char>| k2 != k implies lookup(#[trigger] entries_insert(s, k, v), k2) == lookup(s, k2) by {
            if has_key(s, k2) {
                let i = choose|i: int| 0 <= i < s.len() && #[trigger] s[i].0 == k2;
                lemma_lookup_at(s, i);
                assert(r[i].0 == k2);
                lemma_lookup_at(r, i);
            } else {
                if has_key(r, k2) {
                    let i = choose|i: int| 0 <= i < r.len() && #[trigger] r[i].0 == k2;
                    assert(s[i].0 == k2);
                }
                lemma_lookup_none(s, k2);
                lemma_lookup_none(r, k2);
            }
        }
    } else {
        assert(r == s.insert(p, (k, v)));
        assert forall|i: int, j: int| 0 <= i < j < r.len() implies key_lt(#[trigger] r[i].0, #[trigger] r[j].0) by {
            if j < p {
                assert(r[i] == s[i] && r[j] == s[j]);
            } else if j == p {
                assert(r[i] == s[i]);
            } else if i == p {
                assert(r[j] == s[j - 1]);
                assert(!key_lt(s[j - 1].0, k));
                lemma_key_lt_total(s[j - 1].0, k);
                if j - 1 > p {
                    assert(key_lt(s[p].0, s[j - 1].0));
                    assert(!key_lt(s[p].0, k));
                    lemma_key_lt_total(s[p].0, k);
                    lemma_key_lt_transitive(k, s[p].0, s[j - 1].0);
                }
            } else if i < p {
                assert(r[i] == s[i] && r[j] == s[j - 1]);
                if j - 1 == i {
                    assert(false);
                }
            } else {
                assert(r[i] == s[i - 1] && r[j] == s[j - 1]);
            }
        }
        lemma_lookup_at(r, p);
        assert forall|k2: Seq<char>| k2 != k implies lookup(#[trigger] entries_insert(s, k, v), k2) == lookup(s, k2) by {
            if has_key(s, k2) {
                let i = choose|i: int| 0 <= i < s.len() && #[trigger] s[i].0 == k2;
                lemma_lookup_at(s, i);
                let ri = if i < p { i } else { i + 1 };
                assert(r[ri] == s[i]);
                lemma_lookup_at(r, ri);
            } else {
                if has_key(r, k2) {
                    let i = choose|i: int| 0 <= i < r.len() && #[trigger] r[i].0 == k2;
                    if i < p {
                        assert(r[i] == s[i]);
                    } else if i > p {
                        assert(r[i] == s[i - 1]);
                    }
                }
                lemma_lookup_none(s, k2);
                lemma_lookup_none(r, k2);
            }
        }
    }
}

impl View for JsonValue {
    type V = JsonSpec;

    /// The mathematical value.
    open spec fn view(&self) -> JsonSpec
        decreases self,
    {
        match self {
            JsonValue::Null => JsonSpec::Null,
            JsonValue::Bool(b) => JsonSpec::Bool(*b),
            JsonValue::Number(n) => JsonSpec::Number(*n),
            JsonValue::String(s) => JsonSpec::Str(s@),
            JsonValue::Array(v) => JsonSpec::Array(views_of(v@)),
            JsonValue::Object(m) => JsonSpec::Object(m.entry_specs()),
        }
    }
}

/// The mathematical values of a sequence of values.
pub open spec fn views_of(v: Seq<JsonValue>) -> Seq<JsonSpec>
    decreases v,
{
    Seq::new(v.len(), |i: int| if 0 <= i < v.len() { v[i].view() } else { JsonSpec::Null })
}

/// The values' views, element by element.
pub broadcast proof fn lemma_views_of(v: Seq<JsonValue>)
    ensures
        #[trigger] views_of(v).len() == v.len(),
        forall|i: int| 0 <= i < v.len() ==> #[trigger] views_of(v)[i] == v[i]@,
{
}

impl JsonMap {
    #[verifier::type_invariant]
    spec fn inv(self) -> bool {
        keys_sorted(self.entry_specs())
    }

    /// The entries as mathematical values.
    pub closed spec fn entry_specs(self) -> Seq<(Seq<char>, JsonSpec)>
        decreases self,
    {
        Seq::new(
            self.entries.len() as nat,
            |i: int|
                if 0 <= i < self.entries.len() {
                    (self.entries@[i].0@, self.entries@[i].1.view())
                } else {
                    (Seq::empty(), JsonSpec::Null)
                },
        )
    }
}

/// The mathematical values of a sequence of entries.
pub open spec fn specs_of(v: Seq<(String, JsonValue)>) -> Seq<(Seq<char>, JsonSpec)> {
    Seq::new(v.len(), |i: int| (v[i].0@, v[i].1@))
}

impl View for JsonMap {
    type V = Seq<(Seq<char>, JsonSpec)>;

    open spec fn view(&self) -> Seq<(Seq<char>, JsonSpec)> {
        self.entry_specs()
    }
}

/// Compare two keys: -1 when `a` sorts before `b`, 0 when equal, 1 after.
pub fn key_compare(a: &str, b: &str) -> (r: i8)
    ensures
        r == -1 <==> key_lt(a@, b@),
        r == 0 <==> a@ == b@,
        r == 1 <==> key_lt(b@, a@),
        -1 <= r <= 1,
{
    let ac = crate::text::chars_of(a);
    let bc = crate::text::chars_of(b);
    let mut i: usize = 0;
    assert(a@.skip(0) =~= a@);
    assert(b@.skip(0) =~= b@);
    while i < ac.len() && i < bc.len()
        invariant
            ac@ == a@,
            bc@ == b@,
            i <= ac.len(),
            i <= bc.len(),
            ac@.take(i as int) == bc@.take(i as int),
            key_lt(a@, b@) == key_lt(a@.skip(i as int), b@.skip(i as int)),
            key_lt(b@, a@) == key_lt(b@.skip(i as int), a@.skip(i as int)),
        decreases ac.len() - i,
    {
        let x = ac[i];
        let y = bc[i];
        if x != y {
            proof {
                assert(a@.skip(i as int)[0] == x);
                assert(b@.skip(i as int)[0] == y);
                lemma_key_lt_asymmetric_if(a@.skip(i as int), b@.skip(i as int));
            }
            if x < y {
                return -1;
            } else {
                return 1;
            }
        }
        proof {
            assert(a@.skip(i as int).drop_first() =~= a@.skip(i + 1));
            assert(b@.skip(i as int).drop_first() =~= b@.skip(i + 1));
            assert(ac@.take(i + 1) =~= ac@.take(i as int).push(x));
            assert(bc@.take(i + 1) =~= bc@.take(i as int).push(y));
        }
        i = i + 1;
    }
    if ac.len() == bc.len() {
        proof {
            assert(a@ =~= ac@.take(i as int));
            assert(b@ =~= bc@.take(i as int));
            lemma_key_lt_irreflexive(a@);
        }
        0
    } else if i == ac.len() {
        proof {
            assert(a@.skip(i as int).len() == 0);
            assert(b@.skip(i as int).len() > 0);
            if a@ == b@ {
                assert(false);
            }
        }
        -1
    } else {
        proof {
            assert(b@.skip(i as int).len() == 0);
            assert(a@.skip(i as int).len() > 0);
            if a@ == b@ {
                assert(false);
            }
        }
        1
    }
}

proof fn lemma_key_lt_asymmetric_if(a: Seq<char>, b: Seq<char>)
    ensures
        key_lt(a, b) ==> !key_lt(b, a),
        a == b ==> !key_lt(a, b),
{
    if key_lt(a, b) {
        lemma_key_lt_asymmetric(a, b);
    }
    lemma_key_lt_irreflexive(a);
}

impl JsonMap {
    /// An empty object.
    pub fn new() -> (r: Self)
        ensures
            r@ == Seq::<(Seq<char>, JsonSpec)>::empty(),
    {
        let m = JsonMap { entries: Vec::new() };
        assert(m.entry_specs() =~= Seq::<(Seq<char>, JsonSpec)>::empty());
        m
    }

    /// Number of entries.
    pub fn len(&self) -> (r: usize)
        ensures
            r == self@.len(),
    {
        self.entries.len()
    }

    /// The key of the `i`-th entry (in key order).
    pub fn key_at(&self, i: usize) -> (r: &String)
        requires
            i < self@.len(),
        ensures
            r@ == self@[i as int].0,
    {
        &self.entries[i].0
    }

    /// The value of the `i`-th entry (in key order).
    pub fn value_at(&self, i: usize) -> (r: &JsonValue)
        requires
            i < self@.len(),
        ensures
            r@ == self@[i as int].1,
    {
        &self.entries[i].1
    }

    /// The value under `key`, if any.
    pub fn get(&self, key: &str) -> (r: Option<&JsonValue>)
        ensures
            match r {
                Some(v) => lookup(self@, key@) == Some(v@),
                None => lookup(self@, key@) is None,
            },
            r is Some <==> has_key(self@, key@),
    {
        proof {
            use_type_invariant(self);
            assert(keys_sorted(self@));
        }
        let n = self.entries.len();
        let mut i: usize = 0;
        while i < n
            invariant
                n == self.entries.len(),
                n == self@.len(),
                i <= n,
                forall|j: int| 0 <= j < i ==> self@[j].0 != key@,
                keys_sorted(self@),
            decreases n - i,
        {
            if key_compare(self.entries[i].0.as_str(), key) == 0 {
                proof {
                    assert(self@[i as int] == (self.entries@[i as int].0@, self.entries@[i as int].1@));
                    lemma_lookup_at(self@, i as int);
                    assert(self@[i as int].0 == key@);
                }
                return Some(&self.entries[i].1);
            }
            i = i + 1;
        }
        proof {
            if has_key(self@, key@) {
                let j = choose|j: int| 0 <= j < self@.len() && #[trigger] self@[j].0 == key@;
                assert(false);
            }
            lemma_lookup_none(self@, key@);
        }
        None
    }

    /// Whether `key` is bound.
    pub fn contains_key(&self, key: &str) -> (r: bool)
        ensures
            r == has_key(self@, key@),
    {
        match self.get(key) {
            Some(_) => true,
            None => false,
        }
    }

    /// Bind `key` to `value` (replacing an earlier binding).
    pub fn insert(&mut self, key: String, value: JsonValue)
        ensures
            final(self)@ == entries_insert(old(self)@, key@, value@),
    {
        proof {
            use_type_invariant(&*self);
            lemma_first_not_below(self@, key@);
        }
        let mut entries = Vec::new();
        std::mem::swap(&mut entries, &mut self.entries);
        let ghost s = specs_of(entries@);
        assert(s =~= old(self)@);
        let n = entries.len();
        let mut p: usize = 0;
        let mut done = false;
        while !done && p < n
            invariant
                n == entries.len(),
                s.len() == n,
                forall|j: int| 0 <= j < n ==> #[trigger] s[j] == (entries@[j].0@, entries@[j].1@),
                keys_sorted(s),
                p <= n,
                forall|j: int| 0 <= j < p ==> key_lt(#[trigger] s[j].0, key@),
                done ==> p < n && !key_lt(s[p as int].0, key@),
            decreases n - p + (if done { 0int } else { 1int }),
        {
            let c = key_compare(entries[p].0.as_str(), key.as_str());
            if c == -1 {
                p = p + 1;
            } else {
                done = true;
            }
        }
        let found = p < n && key_compare(entries[p].0.as_str(), key.as_str()) == 0;
        proof {
            assert forall|j: int| p <= j < s.len() implies !key_lt(#[trigger] s[j].0, key@) by {
                lemma_first_not_below(s, key@);
            }
            lemma_first_not_below_is(s, key@, p as int);
            lemma_entries_insert(s, key@, value@);
        }
        let ghost vv = value@;
        let ghost kk = key@;
        if found {
            entries.set(p, (key, value));
        } else {
            entries.insert(p, (key, value));
        }
        let ghost r = specs_of(entries@);
        assert(r =~= entries_insert(s, kk, vv));
        assert(keys_sorted(r));
        assert(JsonMap { entries: entries }.entry_specs() =~= r);
        self.entries = entries;
        assert(self@ =~= r);
    }
}

proof fn lemma_first_not_below_is(s: Seq<(Seq<char>, JsonSpec)>, k: Seq<char>, p: int)
    requires
        keys_sorted(s),
        0 <= p <= s.len(),
        forall|j: int| 0 <= j < p ==> key_lt(#[trigger] s[j].0, k),
        forall|j: int| p <= j < s.len() ==> !key_lt(#[trigger] s[j].0, k),
    ensures
        first_not_below(s, k) == p,
{
    lemma_first_not_below(s, k);
    let q = first_not_below(s, k);
    if q < p {
        assert(key_lt(s[q].0, k));
    } else if p < q {
        assert(!key_lt(s[p].0, k));
    }
}

} // verus!

verus! {

/// The entries obtained by binding each pair in turn (a later pair wins).
pub open spec fn pairs_to_entries(p: Seq<(Seq<char>, JsonSpec)>) -> Seq<(Seq<char>, JsonSpec)>
    decreases p.len(),
{
    if p.len() == 0 {
        Seq::empty()
    } else {
        entries_insert(pairs_to_entries(p.drop_last()), p.last().0, p.last().1)
    }
}

pub proof fn lemma_pairs_to_entries_sorted(p: Seq<(Seq<char>, JsonSpec)>)
    ensures
        keys_sorted(pairs_to_entries(p)),
    decreases p.len(),
{
    if p.len() > 0 {
        lemma_pairs_to_entries_sorted(p.drop_last());
        lemma_entries_insert(pairs_to_entries(p.drop_last()), p.last().0, p.last().1);
    }
}

impl JsonMap {
    /// A copy with the same entries.
    pub fn deep_clone(&self) -> (r: JsonMap)
        ensures
            r@ == self@,
        decreases self,
    {
        proof {
            use_type_invariant(self);
        }
        let n = self.entries.len();
        let mut out: Vec<(String, JsonValue)> = Vec::new();
        let mut i: usize = 0;
        while i < n
            invariant
                n == self.entries.len(),
                i <= n,
                out.len() == i,
                forall|j: int| 0 <= j < i ==> (#[trigger] out@[j]).0@ == self.entries@[j].0@ && out@[j].1@ == self.entries@[j].1@,
            decreases n - i,
        {
            let k = self.entries[i].0.clone();
            proof {
                assert(decreases_to!(self => self.entries@[i as int].1));
            }
            let v = self.entries[i].1.deep_clone();
            out.push((k, v));
            i = i + 1;
        }
        assert(specs_of(out@) =~= self@);
        assert(JsonMap { entries: out }.entry_specs() =~= specs_of(out@));
        JsonMap { entries: out }
    }
}

impl JsonValue {
    /// `null`.
    pub fn null() -> (r: JsonValue)
        ensures
            r@ == JsonSpec::Null,
    {
        JsonValue::Null
    }

    /// A boolean.
    pub fn from_bool(b: bool) -> (r: JsonValue)
        ensures
            r@ == JsonSpec::Bool(b),
    {
        JsonValue::Bool(b)
    }

    /// A signed integer.
    pub fn from_i64(n: i64) -> (r: JsonValue)
        ensures
            r@ == JsonSpec::Number(JsonNumber::Int(n as i128)),
    {
        JsonValue::Number(JsonNumber::Int(n as i128))
    }

    /// An unsigned integer.
    pub fn from_u64(n: u64) -> (r: JsonValue)
        ensures
            r@ == JsonSpec::Number(JsonNumber::Int(n as i128)),
    {
        JsonValue::Number(JsonNumber::Int(n as i128))
    }

    /// A floating-point number given by the bits of an `f64`.
    pub fn from_f64_bits(bits: u64) -> (r: JsonValue)
        ensures
            r@ == JsonSpec::Number(JsonNumber::Float(bits)),
    {
        JsonValue::Number(JsonNumber::Float(bits))
    }

    /// A string.
    pub fn from_str(s: &str) -> (r: JsonValue)
        ensures
            r@ == JsonSpec::Str(s@),
    {
        JsonValue::String(s.to_string())
    }

    /// A string, taking ownership.
    pub fn from_string(s: String) -> (r: JsonValue)
        ensures
            r@ == JsonSpec::Str(s@),
    {
        JsonValue::String(s)
    }

    /// An array of the given values.
    pub fn array(items: Vec<JsonValue>) -> (r: JsonValue)
        ensures
            r@ == JsonSpec::Array(views_of(items@)),
    {
        let ghost it = items@;
        let r = JsonValue::Array(items);
        assert(r == JsonValue::Array(items));
        r
    }

    /// An object binding each pair in turn (a later pair with the same key
    /// replaces an earlier one).
    pub fn object(pairs: Vec<(String, JsonValue)>) -> (r: JsonValue)
        ensures
            r@ == JsonSpec::Object(pairs_to_entries(specs_of(pairs@))),
    {
        let ghost p = specs_of(pairs@);
        let mut m = JsonMap::new();
        let mut rest = pairs;
        let ghost n = p.len();
        assert(specs_of(rest@) =~= p.subrange(0, n as int));
        assert(m@ =~= pairs_to_entries(p.subrange(0, 0)));
        while rest.len() > 0
            invariant
                rest.len() <= n,
                specs_of(rest@) =~= p.subrange(n - rest.len(), n as int),
                m@ == pairs_to_entries(p.subrange(0, n - rest.len())),
                p.len() == n,
            decreases rest.len(),
        {
            let ghost t = n - rest.len();
            let ghost before = rest@;
            assert(specs_of(before)[0] == p[t]);
            let (k, v) = rest.remove(0);
            proof {
                assert(before[0] == (k, v));
                assert(rest@ =~= before.subrange(1, before.len() as int));
                assert forall|q: int| 0 <= q < rest@.len() implies #[trigger] specs_of(rest@)[q] == p.subrange(t + 1, n as int)[q] by {
                    assert(specs_of(before)[q + 1] == p.subrange(t, n as int)[q + 1]);
                }
                assert(specs_of(rest@) =~= p.subrange(t + 1, n as int));
                assert((k@, v@) == p[t]);
                assert(p.subrange(0, t + 1).drop_last() =~= p.subrange(0, t));
            }
            m.insert(k, v);
        }
        assert(p.subrange(0, n as int) =~= p);
        JsonValue::Object(m)
    }

    /// A copy of this value.
    pub fn deep_clone(&self) -> (r: JsonValue)
        ensures
            r@ == self@,
        decreases self,
    {
        match self {
            JsonValue::Null => JsonValue::Null,
            JsonValue::Bool(b) => JsonValue::Bool(*b),
            JsonValue::Number(n) => JsonValue::Number(*n),
            JsonValue::String(s) => JsonValue::String(s.clone()),
            JsonValue::Array(v) => {
                let out = clone_values(v);
                let r = JsonValue::Array(out);
                assert(r == JsonValue::Array(out));
                r
            },
            JsonValue::Object(m) => JsonValue::Object(m.deep_clone()),
        }
    }

    /// The text, if this is a string.
    pub fn as_str(&self) -> (r: Option<&str>)
        ensures
            match r {
                Some(s) => self@ == JsonSpec::Str(s@),
                None => !(self@ is Str),
            },
    {
        match self {
            JsonValue::String(s) => Some(s.as_str()),
            _ => None,
        }
    }

    /// The entries, if this is an object.
    pub fn as_object(&self) -> (r: Option<&JsonMap>)
        ensures
            match r {
                Some(m) => self@ == JsonSpec::Object(m@) && keys_sorted(m@),
                None => !(self@ is Object),
            },
    {
        match self {
            JsonValue::Object(m) => {
                proof {
                    use_type_invariant(m);
                }
                Some(m)
            },
            _ => None,
        }
    }

    /// The elements, if this is an array.
    pub fn as_array(&self) -> (r: Option<&Vec<JsonValue>>)
        ensures
            match r {
                Some(v) => self@ == JsonSpec::Array(views_of(v@)),
                None => !(self@ is Array),
            },
    {
        match self {
            JsonValue::Array(v) => Some(v),
            _ => None,
        }
    }

    /// The value, if this is an integer that fits `i64`.
    pub fn as_i64(&self) -> (r: Option<i64>)
        ensures
            match r {
                Some(n) => self@ == JsonSpec::Number(JsonNumber::Int(n as i128)),
                None => !(self@ matches JsonSpec::Number(JsonNumber::Int(n)) && i64::MIN <= n <= i64::MAX),
            },
    {
        match self {
            JsonValue::Number(JsonNumber::Int(n)) => {
                if i64::MIN as i128 <= *n && *n <= i64::MAX as i128 {
                    Some(*n as i64)
                } else {
                    None
                }
            },
            _ => None,
        }
    }

    /// The value, if this is an integer that fits `u64`.
    pub fn as_u64(&self) -> (r: Option<u64>)
        ensures
            match r {
                Some(n) => self@ == JsonSpec::Number(JsonNumber::Int(n as i128)),
                None => !(self@ matches JsonSpec::Number(JsonNumber::Int(n)) && 0 <= n <= u64::MAX),
            },
    {
        match self {
            JsonValue::Number(JsonNumber::Int(n)) => {
                if 0 <= *n && *n <= u64::MAX as i128 {
                    Some(*n as u64)
                } else {
                    None
                }
            },
            _ => None,
        }
    }

    /// The value, if this is a boolean.
    pub fn as_bool(&self) -> (r: Option<bool>)
        ensures
            match r {
                Some(b) => self@ == JsonSpec::Bool(b),
                None => !(self@ is Bool),
            },
    {
        match self {
            JsonValue::Bool(b) => Some(*b),
            _ => None,
        }
    }

    pub fn is_null(&self) -> (r: bool)
        ensures
            r == (self@ is Null),
    {
        match self {
            JsonValue::Null => true,
            _ => false,
        }
    }

    pub fn is_boolean(&self) -> (r: bool)
        ensures
            r == (self@ is Bool),
    {
        match self {
            JsonValue::Bool(_) => true,
            _ => false,
        }
    }

    pub fn is_number(&self) -> (r: bool)
        ensures
            r == (self@ is Number),
    {
        match self {
            JsonValue::Number(_) => true,
            _ => false,
        }
    }

    pub fn is_string(&self) -> (r: bool)
        ensures
            r == (self@ is Str),
    {
        match self {
            JsonValue::String(_) => true,
            _ => false,
        }
    }

    pub fn is_array(&self) -> (r: bool)
        ensures
            r == (self@ is Array),
    {
        match self {
            JsonValue::Array(_) => true,
            _ => false,
        }
    }

    pub fn is_object(&self) -> (r: bool)
        ensures
            r == (self@ is Object),
    {
        match self {
            JsonValue::Object(_) => true,
            _ => false,
        }
    }

    /// The value under `key`, if this is an object that binds it.
    pub fn get(&self, key: &str) -> (r: Option<&JsonValue>)
        ensures
            match r {
                Some(v) => self@.get(key@) == Some(v@),
                None => self@.get(key@) is None,
            },
    {
        match self {
            JsonValue::Object(m) => m.get(key),
            _ => None,
        }
    }

    /// Whether two values are equal.
    pub fn equals(&self, other: &JsonValue) -> (r: bool)
        ensures
            r == (self@ == other@),
        decreases self,
    {
        proof {
            lemma_view_variant(self);
            lemma_view_variant(other);
        }
        match self {
            JsonValue::Null => match other {
                JsonValue::Null => true,
                _ => false,
            },
            JsonValue::Bool(a) => match other {
                JsonValue::Bool(b) => {
                    let r = *a == *b;
                    r
                },
                _ => false,
            },
            JsonValue::Number(a) => match other {
                JsonValue::Number(b) => {
                    let r = *a == *b;
                    r
                },
                _ => false,
            },
            JsonValue::String(a) => match other {
                JsonValue::String(b) => {
                    let r = a.eq(b);
                    r
                },
                _ => false,
            },
            JsonValue::Array(a) => match other {
                JsonValue::Array(b) => {
                    let r = values_equal(a, b);
                    r
                },
                _ => false,
            },
            JsonValue::Object(a) => match other {
                JsonValue::Object(b) => {
                    let r = a.equals(b);
                    r
                },
                _ => false,
            },
        }
    }
}

/// Whether the `f64` with these bits is NaN.
pub open spec fn float_is_nan(x: u64) -> bool {
    x % 0x8000_0000_0000_0000 > 0x7FF0_0000_0000_0000
}

/// Whether the `f64` with these bits is a zero (of either sign).
pub open spec fn float_is_zero(x: u64) -> bool {
    x % 0x8000_0000_0000_0000 == 0
}

/// Whether two `f64`s, by their bits, are equal as numbers: the same bits
/// or both zeros, and neither NaN.
pub open spec fn floats_equal(x: u64, y: u64) -> bool {
    !float_is_nan(x) && !float_is_nan(y) && (x == y || (float_is_zero(x) && float_is_zero(y)))
}

/// Whether two JSON numbers are equal as serde_json compares them: integers
/// by value, floating-point numbers numerically, never one of each.
pub open spec fn numbers_equal(a: JsonNumber, b: JsonNumber) -> bool {
    match a {
        JsonNumber::Float(x) => match b {
            JsonNumber::Float(y) => floats_equal(x, y),
            JsonNumber::Int(_) => false,
        },
        JsonNumber::Int(n) => b == JsonNumber::Int(n),
    }
}

/// Whether two JSON values are equal as serde_json compares them: like `==`
/// on the model, except that numbers compare by [`numbers_equal`].
pub open spec fn json_same(a: JsonSpec, b: JsonSpec) -> bool
    decreases a,
{
    match a {
        JsonSpec::Number(x) => match b {
            JsonSpec::Number(y) => numbers_equal(x, y),
            _ => false,
        },
        JsonSpec::Array(s) => match b {
            JsonSpec::Array(t) => s.len() == t.len() && forall|i: int| #![trigger s[i]]
                0 <= i < s.len() ==> json_same(s[i], t[i]),
            _ => false,
        },
        JsonSpec::Object(s) => match b {
            JsonSpec::Object(t) => s.len() == t.len() && forall|i: int| #![trigger s[i]]
                0 <= i < s.len() ==> s[i].0 == t[i].0 && json_same(s[i].1, t[i].1),
            _ => false,
        },
        _ => a == b,
    }
}

impl JsonValue {
    /// Whether two values are equal as serde_json compares them (numbers
    /// numerically).
    pub fn same_as(&self, other: &JsonValue) -> (r: bool)
        ensures
            r == json_same(self@, other@),
        decreases self,
    {
        proof {
            lemma_view_variant(self);
            lemma_view_variant(other);
        }
        match self {
            JsonValue::Number(a) => match other {
                JsonValue::Number(b) => match a {
                    JsonNumber::Float(x) => match b {
                        JsonNumber::Float(y) => {
                            let xv: u64 = *x;
                            let yv: u64 = *y;
                            let xm: u64 = xv % 0x8000_0000_0000_0000u64;
                            let ym: u64 = yv % 0x8000_0000_0000_0000u64;
                            let r = xm <= 0x7FF0_0000_0000_0000u64 && ym <= 0x7FF0_0000_0000_0000u64
                                && (xv == yv || (xm == 0 && ym == 0));
                            proof {
                                assert(self@ == JsonSpec::Number(JsonNumber::Float(xv)));
                                assert(other@ == JsonSpec::Number(JsonNumber::Float(yv)));
                                assert(r == floats_equal(xv, yv));
                                assert(r == json_same(self@, other@));
                            }
                            r
                        },
                        JsonNumber::Int(_) => {
                            assert(!json_same(self@, other@));
                            false
                        },
                    },
                    JsonNumber::Int(n) => match b {
                        JsonNumber::Int(m) => {
                            let r = *n == *m;
                            assert(r == json_same(self@, other@));
                            r
                        },
                        JsonNumber::Float(_) => {
                            assert(!json_same(self@, other@));
                            false
                        },
                    },
                },
                _ => {
                    assert(!json_same(self@, other@));
                    false
                },
            },
            JsonValue::Array(a) => match other {
                JsonValue::Array(b) => {
                    let r = values_same(a, b);
                    proof {
                        let s = views_of(a@);
                        let t = views_of(b@);
                        assert(self@ == JsonSpec::Array(s));
                        assert(other@ == JsonSpec::Array(t));
                        assert(json_same(JsonSpec::Array(s), JsonSpec::Array(t)) == (s.len() == t.len()
                            && forall|i: int| #![trigger s[i]] 0 <= i < s.len() ==> json_same(s[i], t[i])));
                    }
                    r
                },
                _ => false,
            },
            JsonValue::Object(a) => match other {
                JsonValue::Object(b) => {
                    let r = a.same_as(b);
                    assert(r == json_same(self@, other@));
                    r
                },
                _ => false,
            },
            _ => {
                let r = self.equals(other);
                assert(r == json_same(self@, other@));
                r
            },
        }
    }
}

/// Whether two sequences of values are equal element by element, as
/// serde_json compares them.
fn values_same(a: &Vec<JsonValue>, b: &Vec<JsonValue>) -> (r: bool)
    ensures
        r == (views_of(a@).len() == views_of(b@).len() && forall|i: int| #![trigger views_of(a@)[i]]
            0 <= i < views_of(a@).len() ==> json_same(views_of(a@)[i], views_of(b@)[i])),
    decreases a,
{
    proof {
        lemma_views_of(a@);
        lemma_views_of(b@);
    }
    if a.len() != b.len() {
        return false;
    }
    let n = a.len();
    let mut i: usize = 0;
    while i < n
        invariant
            n == a.len(),
            n == b.len(),
            i <= n,
            forall|j: int| 0 <= j < i ==> #[trigger] json_same(a@[j]@, b@[j]@),
        decreases n - i,
    {
        proof {
            assert(decreases_to!(a => a@[i as int]));
        }
        if !a[i].same_as(&b[i]) {
            proof {
                lemma_views_of(a@);
                lemma_views_of(b@);
                assert(!json_same(views_of(a@)[i as int], views_of(b@)[i as int]));
            }
            return false;
        }
        i = i + 1;
    }
    proof {
        lemma_views_of(a@);
        lemma_views_of(b@);
        assert forall|j: int| #![trigger views_of(a@)[j]] 0 <= j < views_of(a@).len() implies json_same(views_of(a@)[j], views_of(b@)[j]) by {
            assert(json_same(a@[j]@, b@[j]@));
        }
    }
    true
}

impl JsonMap {
    /// Whether two objects have the same keys in order, with values equal
    /// as serde_json compares them.
    pub fn same_as(&self, other: &JsonMap) -> (r: bool)
        ensures
            r == (self@.len() == other@.len() && forall|i: int| #![trigger self@[i]]
                0 <= i < self@.len() ==> self@[i].0 == other@[i].0 && json_same(self@[i].1, other@[i].1)),
        decreases self,
    {
        let n = self.entries.len();
        if n != other.entries.len() {
            assert(self@.len() != other@.len());
            return false;
        }
        let mut i: usize = 0;
        while i < n
            invariant
                n == self.entries.len(),
                n == other.entries.len(),
                i <= n,
                forall|j: int| #![trigger self@[j]] 0 <= j < i ==> self@[j].0 == other@[j].0 && json_same(self@[j].1, other@[j].1),
            decreases n - i,
        {
            if self.entries[i].0 != other.entries[i].0 {
                assert(self@[i as int].0 != other@[i as int].0);
                return false;
            }
            proof {
                assert(decreases_to!(self => self.entries@[i as int].1));
            }
            if !self.entries[i].1.same_as(&other.entries[i].1) {
                assert(!json_same(self@[i as int].1, other@[i as int].1));
                return false;
            }
            i = i + 1;
        }
        true
    }
}

/// The view of a value, variant by variant.
pub proof fn lemma_view_variant(j: &JsonValue)
    ensures
        match j {
            JsonValue::Null => j@ == JsonSpec::Null,
            JsonValue::Bool(b) => j@ == JsonSpec::Bool(*b),
            JsonValue::Number(n) => j@ == JsonSpec::Number(*n),
            JsonValue::String(s) => j@ == JsonSpec::Str(s@),
            JsonValue::Array(v) => j@ == JsonSpec::Array(views_of(v@)),
            JsonValue::Object(m) => j@ == JsonSpec::Object(m@),
        },
{
}

/// Copies of the values, in order.
fn clone_values(v: &Vec<JsonValue>) -> (r: Vec<JsonValue>)
    ensures
        views_of(r@) == views_of(v@),
    decreases v,
{
    let n = v.len();
    let mut out: Vec<JsonValue> = Vec::new();
    let mut i: usize = 0;
    while i < n
        invariant
            n == v.len(),
            i <= n,
            out.len() == i,
            forall|j: int| 0 <= j < i ==> #[trigger] out@[j]@ == v@[j]@,
        decreases n - i,
    {
        proof {
            assert(decreases_to!(v => v@[i as int]));
        }
        let c = v[i].deep_clone();
        out.push(c);
        i = i + 1;
    }
    proof {
        lemma_views_of(out@);
        lemma_views_of(v@);
    }
    assert(views_of(out@) =~= views_of(v@));
    out
}

/// Whether two sequences of values are equal element by element.
fn values_equal(a: &Vec<JsonValue>, b: &Vec<JsonValue>) -> (r: bool)
    ensures
        r == (views_of(a@) == views_of(b@)),
    decreases a,
{
    proof {
        lemma_views_of(a@);
        lemma_views_of(b@);
    }
    if a.len() != b.len() {
        assert(views_of(a@).len() != views_of(b@).len());
        return false;
    }
    let n = a.len();
    let mut i: usize = 0;
    while i < n
        invariant
            n == a.len(),
            n == b.len(),
            i <= n,
            forall|j: int| 0 <= j < i ==> #[trigger] a@[j]@ == b@[j]@,
        decreases n - i,
    {
        proof {
            assert(decreases_to!(a => a@[i as int]));
        }
        if !a[i].equals(&b[i]) {
            proof {
                lemma_views_of(a@);
                lemma_views_of(b@);
            }
            assert(views_of(a@)[i as int] != views_of(b@)[i as int]);
            return false;
        }
        i = i + 1;
    }
    proof {
        lemma_views_of(a@);
        lemma_views_of(b@);
    }
    assert(views_of(a@) =~= views_of(b@));
    true
}

impl JsonMap {
    /// Whether two objects have the same entries.
    pub fn equals(&self, other: &JsonMap) -> (r: bool)
        ensures
            r == (self@ == other@),
        decreases self,
    {
        let n = self.entries.len();
        if n != other.entries.len() {
            assert(self@.len() != other@.len());
            return false;
        }
        let mut i: usize = 0;
        while i < n
            invariant
                n == self.entries.len(),
                n == other.entries.len(),
                i <= n,
                forall|j: int| 0 <= j < i ==> #[trigger] self@[j] == other@[j],
            decreases n - i,
        {
            if self.entries[i].0 != other.entries[i].0 {
                assert(self@[i as int].0 != other@[i as int].0);
                return false;
            }
            proof {
                assert(decreases_to!(self => self.entries@[i as int].1));
            }
            if !self.entries[i].1.equals(&other.entries[i].1) {
                assert(self@[i as int].1 != other@[i as int].1);
                return false;
            }
            i = i + 1;
        }
        assert(self@ =~= other@);
        true
    }
}

} // verus!

verus! {

/// What `serde_json::from_str::<serde_json::Value>` gives for a text, in
/// this library's model: `None` when the text is not one JSON value.
/// Integers are those serde_json holds as `u64` or `i64`, other numbers
/// the bits of the `f64` it holds; objects are its maps, whose entries come
/// in key order, one per key.
pub uninterp spec fn json_parse(text: Seq<char>) -> Option<JsonSpec>;

/// Whether serde_json accepts a text as one JSON value.
pub open spec fn json_text_parses(text: Seq<char>) -> bool {
    json_parse(text) is Some
}

/// Whether `j` nests arrays and objects at most `depth` levels deep, every
/// integer in it lies in `i64::MIN ..= u64::MAX` and every object's keys are
/// sorted: the shape of a value read from a parsed tree.
pub open spec fn read_shape(j: JsonSpec, depth: nat) -> bool
    decreases j,
{
    match j {
        JsonSpec::Number(JsonNumber::Int(n)) => i64::MIN <= n <= u64::MAX,
        JsonSpec::Array(s) => depth > 0 && forall|i: int|
            0 <= i < s.len() ==> read_shape(#[trigger] s[i], (depth - 1) as nat),
        JsonSpec::Object(s) => depth > 0 && keys_sorted(s) && forall|i: int|
            0 <= i < s.len() ==> read_shape(#[trigger] s[i].1, (depth - 1) as nat),
        _ => true,
    }
}

/// A `serde_json::Value` with the value it stands for in this library's
/// model. Only the trusted readers below build or read one.
pub struct JsonTree {
    tree: serde_json::Value,
    model: Ghost<JsonSpec>,
}

impl JsonTree {
    /// The value the tree stands for.
    pub closed spec fn model(self) -> JsonSpec {
        self.model@
    }
}

/// `serde_json::from_str::<serde_json::Value>`. The tree stands for
/// `json_parse(text)`. serde_json's parser refuses more than 127 nested
/// arrays or objects (its recursion limit of 128), holds integers as `u64`
/// or `i64`, and keeps object entries in a `BTreeMap`, so in key order.
#[verifier::external_body]
fn parse_json_tree(text: &str) -> (r: Option<JsonTree>)
    ensures
        match json_parse(text@) {
            Some(j) => r matches Some(t) && t.model() == j,
            None => r is None,
        },
        r matches Some(t) ==> read_shape(t.model(), MAX_JSON_DEPTH as nat),
{
    match serde_json::from_str::<serde_json::Value>(text) {
        Ok(v) => Some(JsonTree { tree: v, model: Ghost(json_parse(text@)->0) }),
        Err(_) => None,
    }
}

/// The variant of a `serde_json::Value`, with a boolean's or a string's
/// payload.
pub enum TreeKind {
    Null,
    Bool(bool),
    Number,
    Str(String),
    Array,
    Object,
}

/// Which variant a `serde_json::Value` is.
#[verifier::external_body]
fn tree_kind(t: &JsonTree) -> (r: TreeKind)
    ensures
        match t.model() {
            JsonSpec::Null => r is Null,
            JsonSpec::Bool(b) => r == TreeKind::Bool(b),
            JsonSpec::Number(_) => r is Number,
            JsonSpec::Str(s) => r matches TreeKind::Str(x) && x@ == s,
            JsonSpec::Array(_) => r is Array,
            JsonSpec::Object(_) => r is Object,
        },
{
    match &t.tree {
        serde_json::Value::Null => TreeKind::Null,
        serde_json::Value::Bool(b) => TreeKind::Bool(*b),
        serde_json::Value::Number(_) => TreeKind::Number,
        serde_json::Value::String(s) => TreeKind::Str(s.clone()),
        serde_json::Value::Array(_) => TreeKind::Array,
        serde_json::Value::Object(_) => TreeKind::Object,
    }
}

/// The number of items of an array or entries of an object.
#[verifier::external_body]
fn tree_len(t: &JsonTree) -> (r: usize)
    ensures
        t.model() matches JsonSpec::Array(s) ==> r == s.len(),
        t.model() matches JsonSpec::Object(s) ==> r == s.len(),
{
    match &t.tree {
        serde_json::Value::Array(a) => a.len(),
        serde_json::Value::Object(o) => o.len(),
        _ => 0,
    }
}

/// A copy of `t[i]`, the `i`-th item of an array.
#[verifier::external_body]
fn tree_item(t: &JsonTree, i: usize) -> (r: JsonTree)
    requires
        t.model() matches JsonSpec::Array(s) && i < s.len(),
    ensures
        r.model() == t.model()->Array_0[i as int],
{
    JsonTree { tree: t.tree[i].clone(), model: Ghost(t.model()->Array_0[i as int]) }
}

/// A copy of the `i`-th entry of an object, in its map's (key) order.
#[verifier::external_body]
fn tree_entry(t: &JsonTree, i: usize) -> (r: (String, JsonTree))
    requires
        t.model() matches JsonSpec::Object(s) && i < s.len(),
    ensures
        r.0@ == t.model()->Object_0[i as int].0,
        r.1.model() == t.model()->Object_0[i as int].1,
{
    let (k, v) = t.tree.as_object().unwrap().iter().nth(i).unwrap();
    (k.clone(), JsonTree { tree: v.clone(), model: Ghost(t.model()->Object_0[i as int].1) })
}

/// `Value::as_u64`: the integer when it is a non-negative one.
#[verifier::external_body]
fn tree_as_u64(t: &JsonTree) -> (r: Option<u64>)
    ensures
        r == (match t.model() {
            JsonSpec::Number(JsonNumber::Int(n)) => if 0 <= n <= u64::MAX { Some(n as u64) } else { None },
            _ => None,
        }),
{
    t.tree.as_u64()
}

/// `Value::as_i64`: the integer when it fits in an `i64`.
#[verifier::external_body]
fn tree_as_i64(t: &JsonTree) -> (r: Option<i64>)
    ensures
        r == (match t.model() {
            JsonSpec::Number(JsonNumber::Int(n)) => if i64::MIN <= n <= i64::MAX { Some(n as i64) } else { None },
            _ => None,
        }),
{
    t.tree.as_i64()
}

/// `Value::as_f64`, as the bits of the floating-point value.
#[verifier::external_body]
fn tree_float_bits(t: &JsonTree) -> (r: Option<u64>)
    ensures
        t.model() matches JsonSpec::Number(JsonNumber::Float(b)) ==> r == Some(b),
{
    match t.tree.as_f64() {
        Some(x) => Some(x.to_bits()),
        None => None,
    }
}

/// The nesting depth of the values read (serde_json's recursion limit).
pub const MAX_JSON_DEPTH: u32 = 128;

/// Inserting a key above every key present appends its entry.
proof fn lemma_insert_above(s: Seq<(Seq<char>, JsonSpec)>, k: Seq<char>, v: JsonSpec)
    requires
        forall|i: int| 0 <= i < s.len() ==> key_lt(#[trigger] s[i].0, k),
    ensures
        entries_insert(s, k, v) == s.push((k, v)),
    decreases s.len(),
{
    if s.len() > 0 {
        assert forall|i: int| 0 <= i < s.drop_first().len() implies key_lt(#[trigger] s.drop_first()[i].0, k) by {
            assert(s.drop_first()[i] == s[i + 1]);
        }
        lemma_insert_above(s.drop_first(), k, v);
        lemma_first_not_below_len(s.drop_first(), k);
        assert(key_lt(s[0].0, k));
    }
    lemma_first_not_below_len(s, k);
    assert(s.insert(s.len() as int, (k, v)) =~= s.push((k, v)));
}

/// With every key below `k`, the insertion point is the end.
proof fn lemma_first_not_below_len(s: Seq<(Seq<char>, JsonSpec)>, k: Seq<char>)
    requires
        forall|i: int| 0 <= i < s.len() ==> key_lt(#[trigger] s[i].0, k),
    ensures
        first_not_below(s, k) == s.len(),
    decreases s.len(),
{
    if s.len() > 0 {
        assert(key_lt(s[0].0, k));
        assert forall|i: int| 0 <= i < s.drop_first().len() implies key_lt(#[trigger] s.drop_first()[i].0, k) by {
            assert(s.drop_first()[i] == s[i + 1]);
        }
        lemma_first_not_below_len(s.drop_first(), k);
    }
}

/// A parsed tree in the library's model, node for node: integers that fit
/// in a `u64` or an `i64` as integers, other numbers as floating-point bits,
/// objects entry by entry in key order. The result is the value the tree
/// stands for.
fn tree_value(t: &JsonTree, depth: u32) -> (r: JsonValue)
    requires
        read_shape(t.model(), depth as nat),
    ensures
        r@ == t.model(),
        read_shape(r@, depth as nat),
    decreases depth,
{
    match tree_kind(t) {
        TreeKind::Null => JsonValue::Null,
        TreeKind::Bool(b) => JsonValue::Bool(b),
        TreeKind::Str(s) => JsonValue::String(s),
        TreeKind::Number => match tree_as_u64(t) {
            Some(u) => JsonValue::Number(JsonNumber::Int(u as i128)),
            None => match tree_as_i64(t) {
                Some(i) => JsonValue::Number(JsonNumber::Int(i as i128)),
                None => match tree_float_bits(t) {
                    Some(bits) => JsonValue::Number(JsonNumber::Float(bits)),
                    None => JsonValue::Null,
                },
            },
        },
        TreeKind::Array => {
            let ghost items_model = t.model()->Array_0;
            if depth == 0 {
                return JsonValue::Null;
            }
            let n = tree_len(t);
            let mut items: Vec<JsonValue> = Vec::new();
            let mut i: usize = 0;
            while i < n
                invariant
                    t.model() == JsonSpec::Array(items_model),
                    n == items_model.len(),
                    read_shape(t.model(), depth as nat),
                    i <= n,
                    depth > 0,
                    items.len() == i,
                    forall|k: int| 0 <= k < i ==> #[trigger] items@[k]@ == items_model[k],
                decreases n - i,
            {
                let c = tree_item(t, i);
                assert(read_shape(items_model[i as int], (depth - 1) as nat));
                items.push(tree_value(&c, depth - 1));
                i = i + 1;
            }
            let r = JsonValue::Array(items);
            proof {
                lemma_views_of(items@);
                assert(views_of(items@) =~= items_model);
            }
            r
        },
        TreeKind::Object => {
            let ghost es = t.model()->Object_0;
            if depth == 0 {
                return JsonValue::Null;
            }
            let n = tree_len(t);
            let mut m = JsonMap::new();
            let mut i: usize = 0;
            proof {
                assert(m@ =~= es.take(0));
            }
            while i < n
                invariant
                    t.model() == JsonSpec::Object(es),
                    n == es.len(),
                    read_shape(t.model(), depth as nat),
                    keys_sorted(es),
                    i <= n,
                    depth > 0,
                    m@ == es.take(i as int),
                decreases n - i,
            {
                let (k, c) = tree_entry(t, i);
                assert(read_shape(es[i as int].1, (depth - 1) as nat));
                let v = tree_value(&c, depth - 1);
                proof {
                    assert forall|j: int| 0 <= j < m@.len() implies key_lt(#[trigger] m@[j].0, k@) by {
                        assert(m@[j] == es[j]);
                    }
                    lemma_insert_above(m@, k@, v@);
                }
                m.insert(k, v);
                proof {
                    assert(es.take(i as int).push(es[i as int]) =~= es.take(i + 1));
                }
                i = i + 1;
            }
            let r = JsonValue::Object(m);
            proof {
                assert(es.take(n as int) =~= es);
            }
            r
        },
    }
}

/// Parses a JSON text with serde_json into the library's model: the value
/// `json_parse` gives, or `None` when the text is not one JSON value.
pub fn parse_json_text(text: &str) -> (r: Option<JsonValue>)
    ensures
        match json_parse(text@) {
            Some(j) => r matches Some(v) && v@ == j,
            None => r is None,
        },
        r is Some <==> json_text_parses(text@),
{
    match parse_json_tree(text) {
        Some(t) => Some(tree_value(&t, MAX_JSON_DEPTH)),
        None => None,
    }
}

} // verus!

verus! {

/// The value of the last pair binding `k`, if any.
pub open spec fn last_binding(p: Seq<(Seq<char>, JsonSpec)>, k: Seq<char>) -> Option<JsonSpec>
    decreases p.len(),
{
    if p.len() == 0 {
        None
    } else if p.last().0 == k {
        Some(p.last().1)
    } else {
        last_binding(p.drop_last(), k)
    }
}

/// Looking a key up in the entries built from pairs finds the value of the
/// last pair with that key.
pub proof fn lemma_pairs_lookup(p: Seq<(Seq<char>, JsonSpec)>, k: Seq<char>)
    ensures
        lookup(pairs_to_entries(p), k) == last_binding(p, k),
    decreases p.len(),
{
    if p.len() > 0 {
        lemma_pairs_lookup(p.drop_last(), k);
        lemma_pairs_to_entries_sorted(p.drop_last());
        lemma_entries_insert(pairs_to_entries(p.drop_last()), p.last().0, p.last().1);
    }
}

/// A key some pair binds has a last binding.
pub proof fn lemma_last_binding_some(p: Seq<(Seq<char>, JsonSpec)>, k: Seq<char>, i: int)
    requires
        0 <= i < p.len(),
        p[i].0 == k,
    ensures
        last_binding(p, k) is Some,
    decreases p.len(),
{
    if p.last().0 != k {
        assert(i < p.len() - 1);
        assert(p.drop_last()[i] == p[i]);
        lemma_last_binding_some(p.drop_last(), k, i);
    }
}

} // verus!
