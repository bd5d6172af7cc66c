//! Plain-value identities shared by the oracle and the price-floor agreement:
//! addresses, symbols and the SEP-40 asset, plus list lookups by identity.

use vstd::prelude::*;

verus! {

/// An account or contract address, held as its strkey text (`G...` for
/// accounts, `C...` for contracts). Two addresses are the same party exactly
/// when their strkeys are equal.
#[derive(Debug, PartialEq, Eq)]
pub struct Address {
    pub strkey: String,
}

/// A short name such as `COCOA`, identifying a non-Stellar asset.
#[derive(Debug, PartialEq, Eq)]
pub struct Symbol {
    pub name: String,
}

/// The asset a price refers to, per SEP-40: a Stellar asset (identified by
/// its asset contract address) or any other asset (identified by a symbol).
/// Agricultural commodities are `Asset::Other`, for example
/// `Asset::Other(Symbol::new("COCOA"))`.
#[derive(Debug, PartialEq, Eq)]
pub enum Asset {
    Stellar(Address),
    Other(Symbol),
}

/// The mathematical identity of an [`Asset`]: its variant and its text.
pub enum AssetId {
    Stellar(Seq<char>),
    Other(Seq<char>),
}

impl View for Address {
    type V = Seq<char>;

    open spec fn view(&self) -> Seq<char> {
        self.strkey@
    }
}

impl View for Symbol {
    type V = Seq<char>;

    open spec fn view(&self) -> Seq<char> {
        self.name@
    }
}

impl View for Asset {
    type V = AssetId;

    open spec fn view(&self) -> AssetId {
        match self {
            Asset::Stellar(a) => AssetId::Stellar(a@),
            Asset::Other(s) => AssetId::Other(s@),
        }
    }
}

/// Values that can be compared by identity, i.e. by their view.
pub trait SameAs: View + Sized {
    fn same_as(&self, other: &Self) -> (r: bool)
        ensures
            r == (self@ == other@),
    ;
}

impl Address {
    /// An address with the given strkey.
    pub fn new(strkey: &str) -> (r: Address)
        ensures
            r@ == strkey@,
    {
        Address { strkey: strkey.to_owned() }
    }
}

impl Symbol {
    /// A symbol with the given name.
    pub fn new(name: &str) -> (r: Symbol)
        ensures
            r@ == name@,
    {
        Symbol { name: name.to_owned() }
    }
}

impl SameAs for Address {
    fn same_as(&self, other: &Self) -> (r: bool) {
        self.strkey == other.strkey
    }
}

impl SameAs for Symbol {
    fn same_as(&self, other: &Self) -> (r: bool) {
        self.name == other.name
    }
}

impl SameAs for Asset {
    fn same_as(&self, other: &Self) -> (r: bool) {
        match (self, other) {
            (Asset::Stellar(a), Asset::Stellar(b)) => a.same_as(b),
            (Asset::Other(a), Asset::Other(b)) => a.same_as(b),
            _ => false,
        }
    }
}

impl Clone for Address {
    fn clone(&self) -> (r: Self)
        ensures
            r@ == self@,
    {
        Address { strkey: self.strkey.clone() }
    }
}

impl Clone for Symbol {
    fn clone(&self) -> (r: Self)
        ensures
            r@ == self@,
    {
        Symbol { name: self.name.clone() }
    }
}

impl Clone for Asset {
    fn clone(&self) -> (r: Self)
        ensures
            r@ == self@,
    {
        match self {
            Asset::Stellar(a) => Asset::Stellar(a.clone()),
            Asset::Other(s) => Asset::Other(s.clone()),
        }
    }
}

/// `s` holds an element whose identity is `v`.
pub open spec fn contains_id<T: View>(s: Seq<T>, v: T::V) -> bool {
    exists|i: int| 0 <= i < s.len() && #[trigger] s[i]@ == v
}

/// `i` is the first position of `s` whose element has identity `v`.
pub open spec fn is_first_id<T: View>(s: Seq<T>, v: T::V, i: int) -> bool {
    &&& 0 <= i < s.len()
    &&& s[i]@ == v
    &&& forall|j: int| 0 <= j < i ==> #[trigger] s[j]@ != v
}

/// The first position of `s` whose element has identity `v`, or -1.
pub open spec fn first_id<T: View>(s: Seq<T>, v: T::V) -> int {
    if exists|i: int| is_first_id(s, v, i) {
        choose|i: int| is_first_id(s, v, i)
    } else {
        -1
    }
}

/// No two elements of `s` share an identity.
pub open spec fn distinct_ids<T: View>(s: Seq<T>) -> bool {
    forall|i: int, j: int| 0 <= i < j < s.len() ==> #[trigger] s[i]@ != #[trigger] s[j]@
}

/// The identities of the elements of `s`, in order.
pub open spec fn ids<T: View>(s: Seq<T>) -> Seq<T::V> {
    s.map_values(|x: T| x@)
}

/// The first position of an identity is unique, exists exactly when the
/// identity occurs, and is what `first_id` gives.
pub proof fn lemma_first_id<T: View>(s: Seq<T>, v: T::V)
    ensures
        contains_id(s, v) <==> first_id(s, v) >= 0,
        contains_id(s, v) ==> is_first_id(s, v, first_id(s, v)),
        forall|i: int| #[trigger] is_first_id(s, v, i) ==> i == first_id(s, v),
{
    if contains_id(s, v) {
        let k = choose|k: int| 0 <= k < s.len() && #[trigger] s[k]@ == v;
        lemma_first_exists(s, v, k);
    }
    assert forall|i: int| #[trigger] is_first_id(s, v, i) implies i == first_id(s, v) by {
        let f = first_id(s, v);
        assert(is_first_id(s, v, f));
        if i < f {
            assert(s[i]@ != v);
        } else if f < i {
            assert(s[f]@ != v);
        }
    }
}

proof fn lemma_first_exists<T: View>(s: Seq<T>, v: T::V, k: int)
    requires
        0 <= k < s.len(),
        s[k]@ == v,
    ensures
        exists|i: int| is_first_id(s, v, i),
    decreases k,
{
    if exists|j: int| 0 <= j < k && #[trigger] s[j]@ == v {
        let j = choose|j: int| 0 <= j < k && #[trigger] s[j]@ == v;
        lemma_first_exists(s, v, j);
    } else {
        assert(is_first_id(s, v, k));
    }
}

/// Appending an element leaves the first position of every identity that
/// already occurs unchanged, and gives a new identity the last position.
pub proof fn lemma_first_id_push<T: View>(s: Seq<T>, x: T, v: T::V)
    ensures
        first_id(s.push(x), v) == if contains_id(s, v) {
            first_id(s, v)
        } else if x@ == v {
            s.len() as int
        } else {
            -1
        },
{
    let t = s.push(x);
    lemma_first_id(s, v);
    lemma_first_id(t, v);
    if contains_id(s, v) {
        let f = first_id(s, v);
        assert(is_first_id(t, v, f)) by {
            assert forall|j: int| 0 <= j < f implies #[trigger] t[j]@ != v by {
                assert(t[j] == s[j]);
            }
        }
    } else if x@ == v {
        assert(is_first_id(t, v, s.len() as int)) by {
            assert forall|j: int| 0 <= j < s.len() implies #[trigger] t[j]@ != v by {
                assert(t[j] == s[j]);
            }
        }
    } else {
        assert(!contains_id(t, v)) by {
            assert forall|j: int| 0 <= j < t.len() implies #[trigger] t[j]@ != v by {
                if j < s.len() {
                    assert(t[j] == s[j]);
                }
            }
        }
    }
}

/// `s` with `x` appended, unless an element with its identity is present.
pub open spec fn with_added<T: View>(s: Seq<T>, x: T) -> Seq<T> {
    if contains_id(s, x@) {
        s
    } else {
        s.push(x)
    }
}

/// `s` without the first element whose identity is `v`, if there is one.
pub open spec fn with_removed<T: View>(s: Seq<T>, v: T::V) -> Seq<T> {
    let i = first_id(s, v);
    if i >= 0 {
        s.remove(i)
    } else {
        s
    }
}

/// Adding an element keeps a list free of duplicate identities.
pub proof fn lemma_with_added_distinct<T: View>(s: Seq<T>, x: T)
    requires
        distinct_ids(s),
    ensures
        distinct_ids(with_added(s, x)),
        contains_id(with_added(s, x), x@),
{
    if !contains_id(s, x@) {
        let t = s.push(x);
        assert forall|i: int, j: int| 0 <= i < j < t.len() implies #[trigger] t[i]@ != #[trigger] t[j]@ by {
            if j == s.len() {
                assert(t[i] == s[i]);
            } else {
                assert(s[i]@ != s[j]@);
            }
        }
        assert(t[s.len() as int]@ == x@);
    } else {
    }
}

/// Removing an element keeps a list free of duplicate identities, and in a
/// duplicate-free list the removed identity no longer occurs.
pub proof fn lemma_with_removed_distinct<T: View>(s: Seq<T>, v: T::V)
    requires
        distinct_ids(s),
    ensures
        distinct_ids(with_removed(s, v)),
        !contains_id(with_removed(s, v), v),
{
    lemma_first_id(s, v);
    let k = first_id(s, v);
    if k >= 0 {
        let t = s.remove(k);
        assert forall|i: int, j: int| 0 <= i < j < t.len() implies #[trigger] t[i]@ != #[trigger] t[j]@ by {
            let i2 = if i < k { i } else { i + 1 };
            let j2 = if j < k { j } else { j + 1 };
            assert(t[i] == s[i2]);
            assert(t[j] == s[j2]);
            assert(s[i2]@ != s[j2]@);
        }
        assert forall|i: int| 0 <= i < t.len() implies #[trigger] t[i]@ != v by {
            let i2 = if i < k { i } else { i + 1 };
            assert(t[i] == s[i2]);
            assert(s[i2]@ != s[k]@);
        }
    }
}

/// Finds the first element of `list` with the identity of `x`.
pub fn position_of<T: SameAs>(list: &Vec<T>, x: &T) -> (r: Option<usize>)
    ensures
        match r {
            Some(i) => is_first_id(list@, x@, i as int) && i as int == first_id(list@, x@),
            None => !contains_id(list@, x@) && first_id(list@, x@) == -1,
        },
{
    let mut i: usize = 0;
    while i < list.len()
        invariant
            i <= list.len(),
            forall|j: int| 0 <= j < i ==> #[trigger] list@[j]@ != x@,
        decreases list.len() - i,
    {
        if list[i].same_as(x) {
            proof {
                lemma_first_id(list@, x@);
            }
            return Some(i);
        }
        i += 1;
    }
    proof {
        lemma_first_id(list@, x@);
    }
    None
}

/// Whether `list` holds an element with the identity of `x`.
pub fn contains<T: SameAs>(list: &Vec<T>, x: &T) -> (r: bool)
    ensures
        r == contains_id(list@, x@),
{
    position_of(list, x).is_some()
}

/// A copy of a list of assets, element by element.
pub fn copy_assets(list: &Vec<Asset>) -> (r: Vec<Asset>)
    ensures
        ids(r@) == ids(list@),
{
    let mut out: Vec<Asset> = Vec::new();
    for i in 0..list.len()
        invariant
            out@.len() == i,
            forall|j: int| 0 <= j < i ==> #[trigger] out@[j]@ == list@[j]@,
    {
        out.push(list[i].clone());
    }
    assert(ids(out@) =~= ids(list@));
    out
}

/// Whether no two elements of `list` share an identity.
pub fn all_distinct<T: SameAs>(list: &Vec<T>) -> (r: bool)
    ensures
        r == distinct_ids(list@),
{
    let mut j: usize = 0;
    while j < list.len()
        invariant
            j <= list.len(),
            forall|a: int, b: int| 0 <= a < b < j ==> #[trigger] list@[a]@ != #[trigger] list@[b]@,
        decreases list.len() - j,
    {
        let mut i: usize = 0;
        while i < j
            invariant
                i <= j < list.len(),
                forall|a: int| 0 <= a < i ==> #[trigger] list@[a]@ != list@[j as int]@,
            decreases j - i,
        {
            if list[i].same_as(&list[j]) {
                return false;
            }
            i += 1;
        }
        j += 1;
    }
    true
}

} // verus!
