//! Tables that keep their rows in the order of their keys.
use vstd::prelude::*;

verus! {

/// What a row is found by: a value with a strict order.
pub trait Key: Sized {
    /// The key as a mathematical value.
    type Model;

    spec fn model(&self) -> Self::Model;

    /// The order of the keys.
    spec fn below(a: Self::Model, b: Self::Model) -> bool;

    /// The order is strict and total.
    proof fn lemma_order(a: Self::Model, b: Self::Model, c: Self::Model)
        ensures
            !Self::below(a, a),
            Self::below(a, b) && Self::below(b, c) ==> Self::below(a, c),
            a == b || Self::below(a, b) || Self::below(b, a),
    ;

    fn is_below(&self, other: &Self) -> (r: bool)
        ensures
            r == Self::below(self.model(), other.model()),
    ;
}

impl Key for u64 {
    type Model = u64;

    open spec fn model(&self) -> u64 {
        *self
    }

    open spec fn below(a: u64, b: u64) -> bool {
        a < b
    }

    proof fn lemma_order(a: u64, b: u64, c: u64) {
    }

    fn is_below(&self, other: &u64) -> (r: bool) {
        *self < *other
    }
}

impl Key for (u64, u64) {
    type Model = (u64, u64);

    open spec fn model(&self) -> (u64, u64) {
        *self
    }

    open spec fn below(a: (u64, u64), b: (u64, u64)) -> bool {
        a.0 < b.0 || (a.0 == b.0 && a.1 < b.1)
    }

    proof fn lemma_order(a: (u64, u64), b: (u64, u64), c: (u64, u64)) {
    }

    fn is_below(&self, other: &(u64, u64)) -> (r: bool) {
        self.0 < other.0 || (self.0 == other.0 && self.1 < other.1)
    }
}

/// The order of texts: that of the first character in which they differ; a
/// text comes before its continuations.
pub open spec fn text_below(a: Seq<char>, b: Seq<char>) -> bool
    decreases a.len(),
{
    if b.len() == 0 {
        false
    } else if a.len() == 0 {
        true
    } else if a[0] != b[0] {
        a[0] < b[0]
    } else {
        text_below(a.drop_first(), b.drop_first())
    }
}

/// The order of texts is strict and total.
pub proof fn lemma_text_order(a: Seq<char>, b: Seq<char>, c: Seq<char>)
    ensures
        !text_below(a, a),
        text_below(a, b) && text_below(b, c) ==> text_below(a, c),
        a == b || text_below(a, b) || text_below(b, a),
    decreases a.len() + b.len() + c.len(),
{
    if a.len() > 0 {
        lemma_text_order(
            a.drop_first(),
            if b.len() > 0 {
                b.drop_first()
            } else {
                b
            },
            if c.len() > 0 {
                c.drop_first()
            } else {
                c
            },
        );
        if b.len() > 0 && a[0] == b[0] && a.drop_first() == b.drop_first() {
            assert(a =~= seq![a[0]] + a.drop_first());
            assert(b =~= seq![b[0]] + b.drop_first());
        }
    } else if b.len() == 0 {
        assert(a =~= b);
    }
}

/// Whether a text comes before another.
pub fn text_is_below(a: &str, b: &str) -> (r: bool)
    ensures
        r == text_below(a@, b@),
{
    let left: Vec<char> = crate::text::chars_of(a);
    let right: Vec<char> = crate::text::chars_of(b);
    let mut i: usize = 0;
    assert(left@.skip(0) =~= left@);
    assert(right@.skip(0) =~= right@);
    while i < left.len() && i < right.len() && left[i] == right[i]
        invariant
            i <= left@.len(),
            i <= right@.len(),
            left@ == a@,
            right@ == b@,
            text_below(a@, b@) == text_below(left@.skip(i as int), right@.skip(i as int)),
        decreases left@.len() - i,
    {
        assert(left@.skip(i as int).drop_first() =~= left@.skip(i + 1));
        assert(right@.skip(i as int).drop_first() =~= right@.skip(i + 1));
        i = i + 1;
    }
    if i == right.len() {
        false
    } else if i == left.len() {
        true
    } else {
        left[i] < right[i]
    }
}

impl Key for String {
    type Model = Seq<char>;

    open spec fn model(&self) -> Seq<char> {
        self@
    }

    open spec fn below(a: Seq<char>, b: Seq<char>) -> bool {
        text_below(a, b)
    }

    proof fn lemma_order(a: Seq<char>, b: Seq<char>, c: Seq<char>) {
        lemma_text_order(a, b, c);
    }

    fn is_below(&self, other: &String) -> (r: bool) {
        text_is_below(self.as_str(), other.as_str())
    }
}

impl Key for (String, u64) {
    type Model = (Seq<char>, u64);

    open spec fn model(&self) -> (Seq<char>, u64) {
        (self.0@, self.1)
    }

    open spec fn below(a: (Seq<char>, u64), b: (Seq<char>, u64)) -> bool {
        text_below(a.0, b.0) || (a.0 == b.0 && a.1 < b.1)
    }

    proof fn lemma_order(a: (Seq<char>, u64), b: (Seq<char>, u64), c: (Seq<char>, u64)) {
        lemma_text_order(a.0, b.0, c.0);
        lemma_text_order(b.0, a.0, c.0);
    }

    fn is_below(&self, other: &(String, u64)) -> (r: bool) {
        if text_is_below(self.0.as_str(), other.0.as_str()) {
            return true;
        }
        let same: bool = !text_is_below(other.0.as_str(), self.0.as_str());
        proof {
            lemma_text_order(self.0@, other.0@, self.0@);
            lemma_text_order(other.0@, self.0@, other.0@);
        }
        same && self.1 < other.1
    }
}

/// Rows in the order of their keys, no key twice.
pub open spec fn ordered<K: Key, V>(rows: Seq<(K, V)>) -> bool {
    forall|i: int, j: int|
        0 <= i < j < rows.len() ==> K::below(
            (#[trigger] rows[i]).0.model(),
            (#[trigger] rows[j]).0.model(),
        )
}

/// Some row has the key.
pub open spec fn has_row<K: Key, V>(rows: Seq<(K, V)>, k: K::Model) -> bool {
    exists|i: int| 0 <= i < rows.len() && (#[trigger] rows[i]).0.model() == k
}

/// What the rows say of each key.
pub open spec fn mapping<K: Key, V>(rows: Seq<(K, V)>) -> Map<K::Model, V> {
    Map::new(
        |k: K::Model| has_row(rows, k),
        |k: K::Model|
            rows[choose|i: int| 0 <= i < rows.len() && (#[trigger] rows[i]).0.model() == k].1,
    )
}

/// The mapping says of each row's key what the row says.
pub proof fn lemma_mapping<K: Key, V>(rows: Seq<(K, V)>)
    requires
        ordered(rows),
    ensures
        forall|i: int|
            0 <= i < rows.len() ==> mapping(rows).contains_key((#[trigger] rows[i]).0.model())
                && mapping(rows)[rows[i].0.model()] == rows[i].1,
        forall|k: K::Model| #[trigger] mapping(rows).contains_key(k) ==> has_row(rows, k),
{
    assert forall|i: int| 0 <= i < rows.len() implies mapping(rows).contains_key(
        (#[trigger] rows[i]).0.model(),
    ) && mapping(rows)[rows[i].0.model()] == rows[i].1 by {
        let k = rows[i].0.model();
        let j = choose|j: int| 0 <= j < rows.len() && (#[trigger] rows[j]).0.model() == k;
        assert(has_row(rows, k));
        K::lemma_order(k, k, k);
        if i < j {
            assert(K::below(rows[i].0.model(), rows[j].0.model()));
        } else if j < i {
            assert(K::below(rows[j].0.model(), rows[i].0.model()));
        }
    }
}

/// There are as many keys as rows.
pub proof fn lemma_mapping_len<K: Key, V>(rows: Seq<(K, V)>)
    requires
        ordered(rows),
    ensures
        mapping(rows).dom().finite(),
        mapping(rows).len() == rows.len(),
    decreases rows.len(),
{
    if rows.len() == 0 {
        assert(mapping(rows).dom() =~= Set::<K::Model>::empty());
    } else {
        let front = rows.drop_last();
        let last = rows.last();
        let k = last.0.model();
        assert forall|i: int, j: int| 0 <= i < j < front.len() implies K::below(
            (#[trigger] front[i]).0.model(),
            (#[trigger] front[j]).0.model(),
        ) by {
            assert(front[i] == rows[i]);
            assert(front[j] == rows[j]);
        }
        lemma_mapping_len(front);
        K::lemma_order(k, k, k);
        assert(!has_row(front, k)) by {
            if has_row(front, k) {
                let j = choose|j: int| 0 <= j < front.len() && (#[trigger] front[j]).0.model() == k;
                assert(K::below(rows[j].0.model(), rows[rows.len() - 1].0.model()));
            }
        }
        assert forall|q: K::Model| has_row(rows, q) <==> (q == k || has_row(front, q)) by {
            if has_row(front, q) {
                let j = choose|j: int| 0 <= j < front.len() && (#[trigger] front[j]).0.model() == q;
                assert(rows[j].0.model() == q);
            }
            if has_row(rows, q) && q != k {
                let j = choose|j: int| 0 <= j < rows.len() && (#[trigger] rows[j]).0.model() == q;
                assert(front[j].0.model() == q);
            }
            assert(rows[rows.len() - 1].0.model() == k);
        }
        assert(mapping(rows).dom() =~= mapping(front).dom().insert(k));
    }
}

/// A table: each key has one value at most.
#[derive(Debug, PartialEq, Eq)]
pub struct Table<K: Key, V> {
    rows: Vec<(K, V)>,
}

impl<K: Key, V> View for Table<K, V> {
    type V = Map<K::Model, V>;

    closed spec fn view(&self) -> Map<K::Model, V> {
        mapping(self.rows@)
    }
}

impl<K: Key, V> Table<K, V> {
    #[verifier::type_invariant]
    closed spec fn inv(self) -> bool {
        ordered(self.rows@)
    }

    /// The rows, in the order of their keys.
    pub closed spec fn sequence(&self) -> Seq<(K, V)> {
        self.rows@
    }

    /// An empty table.
    pub fn new() -> (t: Table<K, V>)
        ensures
            t@ == Map::<K::Model, V>::empty(),
            t.sequence() == Seq::<(K, V)>::empty(),
    {
        let t: Table<K, V> = Table { rows: Vec::new() };
        assert(t@ =~= Map::<K::Model, V>::empty());
        t
    }

    /// How many rows there are.
    pub fn len(&self) -> (n: usize)
        ensures
            n == self.sequence().len(),
            n == self@.len(),
            self@.dom().finite(),
            ordered(self.sequence()),
            self@ == mapping(self.sequence()),
    {
        proof {
            use_type_invariant(self);
            lemma_mapping_len(self.rows@);
        }
        self.rows.len()
    }

    /// The row at a place in the order.
    pub fn row(&self, i: usize) -> (r: &(K, V))
        requires
            i < self.sequence().len(),
        ensures
            *r == self.sequence()[i as int],
            self@.contains_key(r.0.model()),
            self@[r.0.model()] == r.1,
    {
        proof {
            use_type_invariant(self);
            lemma_mapping(self.rows@);
        }
        &self.rows[i]
    }

    /// The place of a key, or the place where it would stand.
    fn place(&self, key: &K) -> (r: (usize, bool))
        ensures
            r.0 <= self.rows@.len(),
            r.1 ==> r.0 < self.rows@.len() && self.rows@[r.0 as int].0.model() == key.model(),
            !r.1 ==> !has_row(self.rows@, key.model()),
            forall|j: int|
                0 <= j < r.0 ==> K::below((#[trigger] self.rows@[j]).0.model(), key.model()),
            forall|j: int|
                r.0 <= j < self.rows@.len() && !(r.1 && j == r.0) ==> K::below(
                    key.model(),
                    (#[trigger] self.rows@[j]).0.model(),
                ),
    {
        proof {
            use_type_invariant(self);
        }
        let ghost k = key.model();
        let mut i: usize = 0;
        while i < self.rows.len() && self.rows[i].0.is_below(key)
            invariant
                i <= self.rows@.len(),
                k == key.model(),
                ordered(self.rows@),
                forall|j: int| 0 <= j < i ==> K::below((#[trigger] self.rows@[j]).0.model(), k),
            decreases self.rows@.len() - i,
        {
            i = i + 1;
        }
        if i == self.rows.len() {
            proof {
                K::lemma_order(k, k, k);
            }
            return (i, false);
        }
        let ghost at = self.rows@[i as int].0.model();
        let found: bool = !key.is_below(&self.rows[i].0);
        proof {
            K::lemma_order(k, at, k);
            K::lemma_order(k, k, k);
            assert forall|j: int| i < j < self.rows@.len() implies K::below(
                k,
                (#[trigger] self.rows@[j]).0.model(),
            ) by {
                K::lemma_order(k, at, self.rows@[j].0.model());
                assert(K::below(self.rows@[i as int].0.model(), self.rows@[j].0.model()));
            }
        }
        (i, found)
    }

    /// The value of a key.
    pub fn get(&self, key: &K) -> (r: Option<&V>)
        ensures
            match r {
                Some(v) => self@.contains_key(key.model()) && self@[key.model()] == *v,
                None => !self@.contains_key(key.model()),
            },
    {
        proof {
            use_type_invariant(self);
            lemma_mapping(self.rows@);
        }
        let (i, found) = self.place(key);
        if found {
            Some(&self.rows[i].1)
        } else {
            None
        }
    }

    /// Gives a key a value, in place of any that it had.
    pub fn insert(&mut self, key: K, value: V)
        ensures
            final(self)@ == old(self)@.insert(key.model(), value),
    {
        proof {
            use_type_invariant(&*self);
            lemma_mapping(self.rows@);
        }
        let ghost before = self.rows@;
        let ghost k = key.model();
        let (i, found) = self.place(&key);
        let mut rows: Vec<(K, V)> = Vec::new();
        std::mem::swap(&mut rows, &mut self.rows);
        if found {
            rows.remove(i);
        }
        let ghost without = rows@;
        rows.insert(i, (key, value));
        proof {
            K::lemma_order(k, k, k);
            let after = rows@;
            assert forall|a: int, b: int| 0 <= a < b < after.len() implies K::below(
                (#[trigger] after[a]).0.model(),
                (#[trigger] after[b]).0.model(),
            ) by {
                let shift = if found {
                    0int
                } else {
                    1int
                };
                if a < i {
                    assert(after[a] == before[a]);
                }
                if b > i {
                    assert(after[b] == before[b - shift]);
                }
                if a > i {
                    assert(after[a] == before[a - shift]);
                }
                if b < i {
                    assert(after[b] == before[b]);
                }
                if a < i && b > i {
                    K::lemma_order(before[a].0.model(), k, before[b - shift].0.model());
                }
            }
            lemma_mapping(after);
            assert(after[i as int].0.model() == k);
            assert forall|q: K::Model| has_row(after, q) <==> (q == k || has_row(before, q)) by {
                let shift = if found {
                    0int
                } else {
                    1int
                };
                if has_row(before, q) && q != k {
                    let j = choose|j: int|
                        0 <= j < before.len() && (#[trigger] before[j]).0.model() == q;
                    if j < i {
                        assert(after[j] == before[j]);
                    } else {
                        assert(after[j + shift] == before[j]);
                    }
                }
                if has_row(after, q) && q != k {
                    let j = choose|j: int|
                        0 <= j < after.len() && (#[trigger] after[j]).0.model() == q;
                    if j < i {
                        assert(after[j] == before[j]);
                    } else {
                        assert(after[j] == before[j - shift]);
                    }
                }
                if q == k {
                    assert(after[i as int].0.model() == q);
                }
            }
            assert forall|q: K::Model| q != k && has_row(before, q) implies mapping(after)[q]
                == mapping(before)[q] by {
                let shift = if found {
                    0int
                } else {
                    1int
                };
                let j = choose|j: int|
                    0 <= j < before.len() && (#[trigger] before[j]).0.model() == q;
                if j < i {
                    assert(after[j] == before[j]);
                } else {
                    assert(after[j + shift] == before[j]);
                }
            }
            assert(mapping(after) =~= mapping(before).insert(k, value));
        }
        *self = Table { rows };
    }

    /// Takes the row at a place in the order out of the table.
    pub fn remove_at(&mut self, i: usize)
        requires
            i < old(self).sequence().len(),
        ensures
            final(self).sequence() == old(self).sequence().remove(i as int),
            final(self)@ == old(self)@.remove(old(self).sequence()[i as int].0.model()),
    {
        proof {
            use_type_invariant(&*self);
            lemma_mapping(self.rows@);
        }
        let ghost before = self.rows@;
        let ghost k = before[i as int].0.model();
        let mut rows: Vec<(K, V)> = Vec::new();
        std::mem::swap(&mut rows, &mut self.rows);
        rows.remove(i);
        proof {
            K::lemma_order(k, k, k);
            let after = rows@;
            assert forall|a: int, b: int| 0 <= a < b < after.len() implies K::below(
                (#[trigger] after[a]).0.model(),
                (#[trigger] after[b]).0.model(),
            ) by {
                let x = if a < i {
                    a
                } else {
                    a + 1
                };
                let y = if b < i {
                    b
                } else {
                    b + 1
                };
                assert(after[a] == before[x]);
                assert(after[b] == before[y]);
            }
            lemma_mapping(after);
            assert forall|q: K::Model| has_row(after, q) <==> (q != k && has_row(before, q)) by {
                if has_row(before, q) && q != k {
                    let j = choose|j: int|
                        0 <= j < before.len() && (#[trigger] before[j]).0.model() == q;
                    if j < i {
                        assert(after[j] == before[j]);
                    } else {
                        assert(after[j - 1] == before[j]);
                    }
                }
                if has_row(after, q) {
                    let j = choose|j: int|
                        0 <= j < after.len() && (#[trigger] after[j]).0.model() == q;
                    if j < i {
                        assert(after[j] == before[j]);
                        assert(K::below(before[j].0.model(), before[i as int].0.model()));
                    } else {
                        assert(after[j] == before[j + 1]);
                        assert(K::below(before[i as int].0.model(), before[j + 1].0.model()));
                    }
                }
            }
            assert forall|q: K::Model| q != k && has_row(before, q) implies mapping(after)[q]
                == mapping(before)[q] by {
                let j = choose|j: int|
                    0 <= j < before.len() && (#[trigger] before[j]).0.model() == q;
                if j < i {
                    assert(after[j] == before[j]);
                } else {
                    assert(after[j - 1] == before[j]);
                }
            }
            assert(mapping(after) =~= mapping(before).remove(k));
        }
        *self = Table { rows };
    }

    /// Puts another value into the row at a place in the order, and gives the
    /// one that was there.
    pub fn update_at(&mut self, i: usize, value: V) -> (before: V)
        requires
            i < old(self).sequence().len(),
        ensures
            before == old(self).sequence()[i as int].1,
            final(self).sequence() == old(self).sequence().update(
                i as int,
                (old(self).sequence()[i as int].0, value),
            ),
            final(self)@ == old(self)@.insert(old(self).sequence()[i as int].0.model(), value),
    {
        proof {
            use_type_invariant(&*self);
            lemma_mapping(self.rows@);
        }
        let ghost start = self.rows@;
        let mut rows: Vec<(K, V)> = Vec::new();
        std::mem::swap(&mut rows, &mut self.rows);
        let (key, previous) = rows.remove(i);
        let ghost k = key.model();
        rows.insert(i, (key, value));
        proof {
            let after = rows@;
            assert(after =~= start.update(i as int, (start[i as int].0, value)));
            assert forall|a: int, b: int| 0 <= a < b < after.len() implies K::below(
                (#[trigger] after[a]).0.model(),
                (#[trigger] after[b]).0.model(),
            ) by {
                assert(after[a].0 == start[a].0);
                assert(after[b].0 == start[b].0);
            }
            lemma_mapping(after);
            assert forall|q: K::Model| has_row(after, q) <==> has_row(start, q) by {
                if has_row(start, q) {
                    let j = choose|j: int|
                        0 <= j < start.len() && (#[trigger] start[j]).0.model() == q;
                    assert(after[j].0 == start[j].0);
                }
                if has_row(after, q) {
                    let j = choose|j: int|
                        0 <= j < after.len() && (#[trigger] after[j]).0.model() == q;
                    assert(after[j].0 == start[j].0);
                }
            }
            assert(start[i as int].0.model() == k);
            assert forall|q: K::Model| q != k && has_row(start, q) implies mapping(after)[q]
                == mapping(start)[q] by {
                let j = choose|j: int|
                    0 <= j < start.len() && (#[trigger] start[j]).0.model() == q;
                assert(after[j] == start[j]);
            }
            assert(after[i as int].0.model() == k);
            assert(mapping(after) =~= mapping(start).insert(k, value));
        }
        *self = Table { rows };
        previous
    }

    /// The place of a key.
    pub fn find(&self, key: &K) -> (r: Option<usize>)
        ensures
            match r {
                Some(i) => {
                    &&& i < self.sequence().len()
                    &&& self.sequence()[i as int].0.model() == key.model()
                    &&& self@.contains_key(key.model())
                    &&& self@[key.model()] == self.sequence()[i as int].1
                },
                None => !self@.contains_key(key.model()),
            },
    {
        proof {
            use_type_invariant(self);
            lemma_mapping(self.rows@);
        }
        let (i, found) = self.place(key);
        if found {
            Some(i)
        } else {
            None
        }
    }

    /// Takes the row of a key out of the table, where there is one.
    pub fn remove(&mut self, key: &K)
        ensures
            final(self)@ == old(self)@.remove(key.model()),
    {
        let (i, found) = self.place(key);
        if found {
            self.remove_at(i);
        } else {
            proof {
                use_type_invariant(&*self);
                lemma_mapping(self.rows@);
            }
            assert(self@ =~= self@.remove(key.model()));
        }
    }

    /// Takes every row out of the table.
    pub fn clear(&mut self)
        ensures
            final(self)@ == Map::<K::Model, V>::empty(),
    {
        *self = Table::new();
    }
}

} // verus!
