//! Names of categories and sub-categories: how they are normalised and how
//! they are ordered.

use vstd::prelude::*;
use vstd::utf8::encode_utf8;
use vstd::utf8::encode_utf8_decode_utf8;
use vstd::utf8::decode_utf8;

verus! {

/// The lower-case form of a text as the standard library computes it.
pub uninterp spec fn lowercase(text: Seq<char>) -> Seq<char>;

/// Trusted: `str::to_lowercase` is a function of the text alone; its result
/// is what this library calls `lowercase` of the text. Nothing more is
/// claimed of it.
pub assume_specification[ str::to_lowercase ](s: &str) -> (res: String)
    ensures
        res@ == lowercase(s@),
;

/// Where two names stand relative to each other.
#[derive(Clone, Copy, Debug, PartialEq, Eq)]
pub enum NameOrder {
    Before,
    Same,
    After,
}

/// `a` comes strictly before `b` when the byte strings are compared
/// lexicographically: they agree on the first `k` bytes, and then either
/// `a` ends and `b` goes on, or `a` has the smaller byte.
pub open spec fn bytes_before_at(a: Seq<u8>, b: Seq<u8>, k: int) -> bool {
    &&& 0 <= k <= a.len()
    &&& k < b.len()
    &&& forall|i: int| 0 <= i < k ==> a[i] == b[i]
    &&& (k < a.len() ==> a[k] < b[k])
}

/// `a` comes strictly before `b`, byte by byte.
pub open spec fn bytes_before(a: Seq<u8>, b: Seq<u8>) -> bool {
    exists|k: int| bytes_before_at(a, b, k)
}

/// The order of names: that of their UTF-8 encodings, byte by byte.
pub open spec fn name_before(a: Seq<char>, b: Seq<char>) -> bool {
    bytes_before(encode_utf8(a), encode_utf8(b))
}

/// A sequence of names in strictly ascending order.
pub open spec fn names_ascending(names: Seq<Seq<char>>) -> bool {
    forall|i: int, j: int| 0 <= i < j < names.len() ==> name_before(names[i], names[j])
}

/// No name comes before itself.
pub proof fn lemma_name_before_irreflexive(a: Seq<char>)
    ensures
        !name_before(a, a),
{
}

/// The order of names is transitive.
pub proof fn lemma_name_before_transitive(a: Seq<char>, b: Seq<char>, c: Seq<char>)
    requires
        name_before(a, b),
        name_before(b, c),
    ensures
        name_before(a, c),
{
    let x = encode_utf8(a);
    let y = encode_utf8(b);
    let z = encode_utf8(c);
    let k1 = choose|k: int| bytes_before_at(x, y, k);
    let k2 = choose|k: int| bytes_before_at(y, z, k);
    let k = if k1 <= k2 { k1 } else { k2 };
    assert(bytes_before_at(x, z, k));
}

/// Of two names at most one comes before the other.
pub proof fn lemma_name_before_asymmetric(a: Seq<char>, b: Seq<char>)
    requires
        name_before(a, b),
    ensures
        !name_before(b, a),
{
    if name_before(b, a) {
        lemma_name_before_transitive(a, b, a);
    }
}

/// Names with the same encoding are the same name.
pub proof fn lemma_same_encoding(a: Seq<char>, b: Seq<char>)
    requires
        encode_utf8(a) == encode_utf8(b),
    ensures
        a == b,
{
    encode_utf8_decode_utf8(a);
    encode_utf8_decode_utf8(b);
    assert(decode_utf8(encode_utf8(a)) == a);
    assert(decode_utf8(encode_utf8(b)) == b);
}

/// Compares two names in the order of names.
pub fn compare_names(a: &str, b: &str) -> (r: NameOrder)
    ensures
        r == NameOrder::Before <==> name_before(a@, b@),
        r == NameOrder::Same <==> a@ == b@,
        r == NameOrder::After <==> name_before(b@, a@),
{
    let x = a.as_bytes();
    let y = b.as_bytes();
    let mut i: usize = 0;
    while i < x.len() && i < y.len()
        invariant
            i <= x.len(),
            i <= y.len(),
            x@ == encode_utf8(a@),
            y@ == encode_utf8(b@),
            forall|j: int| 0 <= j < i ==> x@[j] == y@[j],
        decreases x.len() - i,
    {
        if x[i] < y[i] {
            proof {
                assert(bytes_before_at(x@, y@, i as int));
                lemma_name_before_asymmetric(a@, b@);
                lemma_name_before_irreflexive(a@);
            }
            return NameOrder::Before;
        }
        if x[i] > y[i] {
            proof {
                assert(bytes_before_at(y@, x@, i as int));
                lemma_name_before_asymmetric(b@, a@);
                lemma_name_before_irreflexive(a@);
            }
            return NameOrder::After;
        }
        i = i + 1;
    }
    if i < y.len() {
        proof {
            assert(bytes_before_at(x@, y@, i as int));
            lemma_name_before_asymmetric(a@, b@);
            lemma_name_before_irreflexive(a@);
        }
        NameOrder::Before
    } else if i < x.len() {
        proof {
            assert(bytes_before_at(y@, x@, i as int));
            lemma_name_before_asymmetric(b@, a@);
            lemma_name_before_irreflexive(a@);
        }
        NameOrder::After
    } else {
        proof {
            assert(x@ =~= y@);
            lemma_same_encoding(a@, b@);
            lemma_name_before_irreflexive(a@);
        }
        NameOrder::Same
    }
}

/// The normalised form of a name: its lower-case form.
pub fn normalize(name: &str) -> (r: String)
    ensures
        r@ == lowercase(name@),
{
    name.to_lowercase()
}


/// `p` is the place of `key` among ascending `names`: every name before it
/// comes before `key`, and `key` comes before every name from it on.
pub open spec fn is_slot(names: Seq<Seq<char>>, key: Seq<char>, p: int) -> bool {
    &&& 0 <= p <= names.len()
    &&& forall|i: int| 0 <= i < p ==> name_before(#[trigger] names[i], key)
    &&& forall|i: int| p <= i < names.len() ==> name_before(key, #[trigger] names[i])
}

/// The place at which `key` is put among ascending `names` that do not hold
/// it.
pub open spec fn slot_of(names: Seq<Seq<char>>, key: Seq<char>) -> int {
    choose|p: int| is_slot(names, key, p)
}

/// A name has at most one place.
pub proof fn lemma_slot_unique(names: Seq<Seq<char>>, key: Seq<char>, p: int, q: int)
    requires
        is_slot(names, key, p),
        is_slot(names, key, q),
    ensures
        p == q,
{
    if p < q {
        assert(name_before(names[p], key));
        lemma_name_before_asymmetric(names[p], key);
    }
    if q < p {
        assert(name_before(names[q], key));
        lemma_name_before_asymmetric(names[q], key);
    }
}

/// A name that has a place is not among the names, its place is `slot_of`,
/// and with the name put there the names are still ascending.
pub proof fn lemma_slot(names: Seq<Seq<char>>, key: Seq<char>, p: int)
    requires
        names_ascending(names),
        is_slot(names, key, p),
    ensures
        !names.contains(key),
        slot_of(names, key) == p,
        names_ascending(names.insert(p, key)),
{
    lemma_slot_unique(names, key, p, slot_of(names, key));
    if names.contains(key) {
        let i = choose|i: int| 0 <= i < names.len() && names[i] == key;
        lemma_name_before_irreflexive(key);
        assert(name_before(names[i], key) || name_before(key, names[i]));
    }
    let after = names.insert(p, key);
    assert forall|i: int, j: int| 0 <= i < j < after.len() implies name_before(
        after[i],
        after[j],
    ) by {
        if i < p && j > p {
            assert(after[i] == names[i]);
            assert(after[j] == names[j - 1]);
        } else if i == p {
            assert(after[j] == names[j - 1]);
        } else if j == p {
            assert(after[i] == names[i]);
        } else if j < p {
            assert(after[i] == names[i] && after[j] == names[j]);
        } else {
            assert(after[i] == names[i - 1] && after[j] == names[j - 1]);
        }
    }
}

/// Among ascending names every name that is not there has a place.
pub proof fn lemma_slot_exists(names: Seq<Seq<char>>, key: Seq<char>)
    requires
        names_ascending(names),
        !names.contains(key),
    ensures
        is_slot(names, key, slot_of(names, key)),
    decreases names.len(),
{
    if names.len() == 0 {
        assert(is_slot(names, key, 0));
    } else {
        let front = names.drop_last();
        assert forall|i: int, j: int| 0 <= i < j < front.len() implies name_before(
            front[i],
            front[j],
        ) by {
            assert(front[i] == names[i] && front[j] == names[j]);
        }
        if front.contains(key) {
            let i = choose|i: int| 0 <= i < front.len() && front[i] == key;
            assert(names[i] == key);
        }
        lemma_slot_exists(front, key);
        let p = slot_of(front, key);
        let last = names.last();
        assert(names[names.len() - 1] == last);
        lemma_total(last, key);
        if name_before(last, key) {
            assert forall|i: int| 0 <= i < names.len() implies name_before(
                #[trigger] names[i],
                key,
            ) by {
                if i < names.len() - 1 {
                    lemma_name_before_transitive(names[i], last, key);
                }
            }
            assert(is_slot(names, key, names.len() as int));
        } else {
            assert forall|i: int| 0 <= i < p implies name_before(
                #[trigger] names[i],
                key,
            ) by {
                assert(names[i] == front[i]);
            }
            assert forall|i: int| p <= i < names.len() implies name_before(
                key,
                #[trigger] names[i],
            ) by {
                if i < names.len() - 1 {
                    assert(names[i] == front[i]);
                }
            }
            assert(is_slot(names, key, p));
        }
    }
}

/// In ascending names every name stands at one index only.
pub proof fn lemma_ascending_index(names: Seq<Seq<char>>, i: int)
    requires
        names_ascending(names),
        0 <= i < names.len(),
    ensures
        names.contains(names[i]),
        names.index_of(names[i]) == i,
{
    let j = names.index_of(names[i]);
    lemma_name_before_irreflexive(names[i]);
    if j < i {
        assert(name_before(names[j], names[i]));
    }
    if i < j {
        assert(name_before(names[i], names[j]));
    }
}

/// Something that is kept in the order of its name.
pub trait Named {
    spec fn spec_name(&self) -> Seq<char>;

    fn name_str(&self) -> (r: &str)
        ensures
            r@ == self.spec_name(),
    ;
}

/// The names of a list of named things.
pub open spec fn names_of<T: Named>(items: Seq<T>) -> Seq<Seq<char>> {
    Seq::new(items.len(), |i: int| items[i].spec_name())
}

/// Where a name stands in a list, or where it would be put.
#[derive(Clone, Copy, Debug, PartialEq, Eq)]
pub enum Slot {
    Found(usize),
    Vacant(usize),
}

/// Looks a name up in a list that is kept in ascending order of names.
pub fn locate<T: Named>(items: &Vec<T>, key: &str) -> (r: Slot)
    requires
        names_ascending(names_of(items@)),
    ensures
        match r {
            Slot::Found(i) => i < items.len() && names_of(items@)[i as int] == key@
                && names_of(items@).index_of(key@) == i,
            Slot::Vacant(p) => is_slot(names_of(items@), key@, p as int),
        },
        r is Found <==> names_of(items@).contains(key@),
{
    let ghost names = names_of(items@);
    let mut i: usize = 0;
    while i < items.len()
        invariant
            i <= items.len(),
            names == names_of(items@),
            names_ascending(names),
            forall|j: int| 0 <= j < i ==> name_before(#[trigger] names[j], key@),
        decreases items.len() - i,
    {
        match compare_names(items[i].name_str(), key) {
            NameOrder::Before => {},
            NameOrder::Same => {
                proof {
                    lemma_ascending_index(names, i as int);
                }
                return Slot::Found(i);
            },
            NameOrder::After => {
                proof {
                    assert forall|j: int| i <= j < names.len() implies name_before(
                        key@,
                        #[trigger] names[j],
                    ) by {
                        if j > i {
                            lemma_name_before_transitive(key@, names[i as int], names[j]);
                        }
                    }
                    lemma_slot(names, key@, i as int);
                }
                return Slot::Vacant(i);
            },
        }
        i = i + 1;
    }
    proof {
        lemma_slot(names, key@, i as int);
    }
    Slot::Vacant(i)
}


/// Of two different names one comes before the other.
pub proof fn lemma_total(a: Seq<char>, b: Seq<char>)
    ensures
        a == b || name_before(a, b) || name_before(b, a),
{
    let x = encode_utf8(a);
    let y = encode_utf8(b);
    if x == y {
        lemma_same_encoding(a, b);
    } else {
        lemma_first_difference(x, y, 0);
    }
}

/// Two byte strings that agree up to `k` and differ somewhere are ordered.
proof fn lemma_first_difference(x: Seq<u8>, y: Seq<u8>, k: int)
    requires
        0 <= k <= x.len(),
        k <= y.len(),
        forall|i: int| 0 <= i < k ==> x[i] == y[i],
        x != y,
    ensures
        bytes_before(x, y) || bytes_before(y, x),
    decreases x.len() - k,
{
    if k == x.len() {
        if k == y.len() {
            assert(x =~= y);
        } else {
            assert(bytes_before_at(x, y, k));
        }
    } else if k == y.len() {
        assert(bytes_before_at(y, x, k));
    } else if x[k] < y[k] {
        assert(bytes_before_at(x, y, k));
    } else if y[k] < x[k] {
        assert(bytes_before_at(y, x, k));
    } else {
        lemma_first_difference(x, y, k + 1);
    }
}


/// Whether the names of a list stand in strictly ascending order.
pub fn is_ascending<T: Named>(items: &Vec<T>) -> (r: bool)
    ensures
        r == names_ascending(names_of(items@)),
{
    let ghost names = names_of(items@);
    let mut i: usize = 1;
    while i < items.len()
        invariant
            1 <= i,
            names == names_of(items@),
            forall|j: int, k: int| 0 <= j < k < i && k < names.len() ==> name_before(
                names[j],
                names[k],
            ),
        decreases items.len() - i,
    {
        match compare_names(items[i - 1].name_str(), items[i].name_str()) {
            NameOrder::Before => {
                proof {
                    assert forall|j: int, k: int| 0 <= j < k < i + 1 && k < names.len() implies name_before(
                        names[j],
                        names[k],
                    ) by {
                        if k == i && j < i - 1 {
                            lemma_name_before_transitive(names[j], names[i - 1], names[i as int]);
                        }
                    }
                }
            },
            _ => {
                proof {
                    lemma_name_before_irreflexive(names[i as int]);
                    if name_before(names[i as int], names[i - 1]) {
                        lemma_name_before_asymmetric(names[i as int], names[i - 1]);
                    }
                    assert(!name_before(names[i - 1], names[i as int]));
                }
                return false;
            },
        }
        i = i + 1;
    }
    true
}

} // verus!
