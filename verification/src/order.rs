//! Sorting texts and what is named by them.
use crate::text::{chars_of, same_text};
use vstd::prelude::*;

verus! {

/// `a` comes before `b` in the dictionary, characters in the order of their
/// codes.
pub open spec fn precedes(a: Seq<char>, b: Seq<char>) -> bool
    decreases a.len(),
{
    if b.len() == 0 {
        false
    } else if a.len() == 0 {
        true
    } else if a[0] != b[0] {
        a[0] < b[0]
    } else {
        precedes(a.skip(1), b.skip(1))
    }
}

proof fn lemma_precedes_transitive(a: Seq<char>, b: Seq<char>, c: Seq<char>)
    requires
        precedes(a, b),
        precedes(b, c),
    ensures
        precedes(a, c),
    decreases a.len(),
{
    if a.len() > 0 && a[0] == b[0] && b[0] == c[0] {
        lemma_precedes_transitive(a.skip(1), b.skip(1), c.skip(1));
    }
}

proof fn lemma_precedes_irreflexive(a: Seq<char>)
    ensures
        !precedes(a, a),
    decreases a.len(),
{
    if a.len() > 0 {
        lemma_precedes_irreflexive(a.skip(1));
    }
}

/// Of two different texts, one comes before the other.
pub proof fn dictionary_order_is_total(a: Seq<char>, b: Seq<char>)
    ensures
        a == b || precedes(a, b) || precedes(b, a),
    decreases a.len(),
{
    if a.len() == 0 || b.len() == 0 {
        if a.len() == 0 && b.len() == 0 {
            assert(a =~= b);
        }
    } else if a[0] == b[0] {
        dictionary_order_is_total(a.skip(1), b.skip(1));
        if a.skip(1) == b.skip(1) {
            assert(a =~= seq![a[0]] + a.skip(1));
            assert(b =~= seq![b[0]] + b.skip(1));
        }
    }
}

/// Whether `a` comes before `b` in the dictionary.
pub fn text_precedes(a: &str, b: &str) -> (before: bool)
    ensures
        before == precedes(a@, b@),
{
    let left = chars_of(a);
    let right = chars_of(b);
    let mut i: usize = 0;
    assert(left@.skip(0) =~= a@);
    assert(right@.skip(0) =~= b@);
    while i < left.len() && i < right.len()
        invariant
            i <= left.len(),
            i <= right.len(),
            precedes(left@.skip(i as int), right@.skip(i as int)) == precedes(a@, b@),
        decreases left.len() - i,
    {
        let ghost l = left@.skip(i as int);
        let ghost r = right@.skip(i as int);
        assert(l[0] == left@[i as int]);
        assert(r[0] == right@[i as int]);
        if left[i] != right[i] {
            return left[i] < right[i];
        }
        assert(l.skip(1) =~= left@.skip(i + 1));
        assert(r.skip(1) =~= right@.skip(i + 1));
        i = i + 1;
    }
    i < right.len()
}

/// What can be sorted, by a rank that its contents give.
pub trait Ranked: Sized {
    type Rank;

    spec fn rank(self) -> Self::Rank;

    spec fn below(a: Self::Rank, b: Self::Rank) -> bool;

    proof fn lemma_transitive(a: Self::Rank, b: Self::Rank, c: Self::Rank)
        requires
            Self::below(a, b),
            Self::below(b, c),
        ensures
            Self::below(a, c),
    ;

    proof fn lemma_irreflexive(a: Self::Rank)
        ensures
            !Self::below(a, a),
    ;

    proof fn lemma_total(a: Self::Rank, b: Self::Rank)
        ensures
            a == b || Self::below(a, b) || Self::below(b, a),
    ;

    fn is_below(&self, other: &Self) -> (below: bool)
        ensures
            below == Self::below(self.rank(), other.rank()),
    ;
}

impl Ranked for String {
    type Rank = Seq<char>;

    open spec fn rank(self) -> Seq<char> {
        self@
    }

    open spec fn below(a: Seq<char>, b: Seq<char>) -> bool {
        precedes(a, b)
    }

    proof fn lemma_transitive(a: Seq<char>, b: Seq<char>, c: Seq<char>) {
        lemma_precedes_transitive(a, b, c);
    }

    proof fn lemma_total(a: Seq<char>, b: Seq<char>) {
        dictionary_order_is_total(a, b);
    }

    proof fn lemma_irreflexive(a: Seq<char>) {
        lemma_precedes_irreflexive(a);
    }

    fn is_below(&self, other: &Self) -> (below: bool) {
        text_precedes(self.as_str(), other.as_str())
    }
}

impl Ranked for (String, String) {
    type Rank = (Seq<char>, Seq<char>);

    open spec fn rank(self) -> (Seq<char>, Seq<char>) {
        (self.0@, self.1@)
    }

    open spec fn below(a: (Seq<char>, Seq<char>), b: (Seq<char>, Seq<char>)) -> bool {
        precedes(a.0, b.0) || (a.0 == b.0 && precedes(a.1, b.1))
    }

    proof fn lemma_transitive(
        a: (Seq<char>, Seq<char>),
        b: (Seq<char>, Seq<char>),
        c: (Seq<char>, Seq<char>),
    ) {
        if precedes(a.0, b.0) && precedes(b.0, c.0) {
            lemma_precedes_transitive(a.0, b.0, c.0);
        }
        if precedes(a.1, b.1) && precedes(b.1, c.1) {
            lemma_precedes_transitive(a.1, b.1, c.1);
        }
    }

    proof fn lemma_total(a: (Seq<char>, Seq<char>), b: (Seq<char>, Seq<char>)) {
        dictionary_order_is_total(a.0, b.0);
        dictionary_order_is_total(a.1, b.1);
    }

    proof fn lemma_irreflexive(a: (Seq<char>, Seq<char>)) {
        lemma_precedes_irreflexive(a.0);
        lemma_precedes_irreflexive(a.1);
    }

    fn is_below(&self, other: &Self) -> (below: bool) {
        if text_precedes(self.0.as_str(), other.0.as_str()) {
            return true;
        }
        same_text(self.0.as_str(), other.0.as_str()) && text_precedes(
            self.1.as_str(),
            other.1.as_str(),
        )
    }
}

impl Ranked for (String, usize) {
    type Rank = (Seq<char>, int);

    open spec fn rank(self) -> (Seq<char>, int) {
        (self.0@, self.1 as int)
    }

    open spec fn below(a: (Seq<char>, int), b: (Seq<char>, int)) -> bool {
        precedes(a.0, b.0) || (a.0 == b.0 && a.1 < b.1)
    }

    proof fn lemma_transitive(a: (Seq<char>, int), b: (Seq<char>, int), c: (Seq<char>, int)) {
        if precedes(a.0, b.0) && precedes(b.0, c.0) {
            lemma_precedes_transitive(a.0, b.0, c.0);
        }
    }

    proof fn lemma_total(a: (Seq<char>, int), b: (Seq<char>, int)) {
        dictionary_order_is_total(a.0, b.0);
    }

    proof fn lemma_irreflexive(a: (Seq<char>, int)) {
        lemma_precedes_irreflexive(a.0);
    }

    fn is_below(&self, other: &Self) -> (below: bool) {
        if text_precedes(self.0.as_str(), other.0.as_str()) {
            return true;
        }
        same_text(self.0.as_str(), other.0.as_str()) && self.1 < other.1
    }
}

/// The ranks of a list.
pub open spec fn ranks<T: Ranked>(items: Seq<T>) -> Seq<T::Rank> {
    items.map_values(|item: T| item.rank())
}

/// No item comes before one that stands in front of it.
pub open spec fn in_order<T: Ranked>(ranks: Seq<T::Rank>) -> bool {
    forall|i: int, j: int|
        0 <= i < j < ranks.len() ==> !T::below(#[trigger] ranks[j], #[trigger] ranks[i])
}

/// Puts an item into a sorted list, behind all that do not come after it.
pub fn insert_sorted<T: Ranked>(items: &mut Vec<T>, item: T) -> (place: usize)
    requires
        in_order::<T>(ranks(old(items)@)),
    ensures
        in_order::<T>(ranks(final(items)@)),
        place <= old(items)@.len(),
        final(items)@ == old(items)@.insert(place as int, item),
        ranks(final(items)@).to_multiset() == ranks(old(items)@).to_multiset().insert(item.rank()),
{
    let ghost before = ranks(items@);
    let ghost rank = item.rank();
    let mut at: usize = 0;
    let mut end: usize = items.len();
    while at < end
        invariant
            at <= end <= items.len(),
            before == ranks(items@),
            rank == item.rank(),
            in_order::<T>(before),
            forall|k: int| 0 <= k < at ==> !T::below(rank, #[trigger] before[k]),
            forall|k: int| end <= k < before.len() ==> T::below(rank, #[trigger] before[k]),
        decreases end - at,
    {
        let middle: usize = at + (end - at) / 2;
        let ghost pivot = before[middle as int];
        assert(pivot == items@[middle as int].rank());
        if item.is_below(&items[middle]) {
            assert forall|k: int| middle <= k < before.len() implies T::below(
                rank,
                #[trigger] before[k],
            ) by {
                T::lemma_total(pivot, before[k]);
                if T::below(pivot, before[k]) {
                    T::lemma_transitive(rank, pivot, before[k]);
                }
            }
            end = middle;
        } else {
            assert forall|k: int| 0 <= k <= middle implies !T::below(
                rank,
                #[trigger] before[k],
            ) by {
                T::lemma_total(before[k], pivot);
                if T::below(rank, before[k]) && T::below(before[k], pivot) {
                    T::lemma_transitive(rank, before[k], pivot);
                }
            }
            at = middle + 1;
        }
    }
    items.insert(at, item);
    let ghost after = ranks(items@);
    proof {
        assert(after =~= before.insert(at as int, rank));
        vstd::seq_lib::to_multiset_insert(before, at as int, rank);
        assert forall|i: int, j: int| 0 <= i < j < after.len() implies !T::below(
            #[trigger] after[j],
            #[trigger] after[i],
        ) by {
            if j == at {
                assert(after[i] == before[i]);
            } else if i == at {
                assert(after[j] == before[j - 1]);
                if T::below(before[j - 1], rank) {
                    T::lemma_transitive(rank, before[j - 1], rank);
                    T::lemma_irreflexive(rank);
                }
            }
        }
    }
    at
}

proof fn lemma_empty_multiset<A>(items: Seq<A>)
    requires
        items.len() == 0,
    ensures
        items.to_multiset() == vstd::multiset::Multiset::<A>::empty(),
{
    broadcast use vstd::multiset::group_multiset_axioms;

    items.to_multiset_ensures();
    assert(items.to_multiset() =~= vstd::multiset::Multiset::<A>::empty());
}

/// Sorts a list.
pub fn sort<T: Ranked>(items: Vec<T>) -> (sorted: Vec<T>)
    ensures
        in_order::<T>(ranks(sorted@)),
        ranks(sorted@).to_multiset() == ranks(items@).to_multiset(),
{
    let ghost all = ranks(items@);
    let mut rest = items;
    let mut sorted: Vec<T> = Vec::new();
    proof {
        broadcast use vstd::multiset::group_multiset_axioms;

        lemma_empty_multiset(ranks(sorted@));
        assert(ranks(rest@).to_multiset().add(ranks(sorted@).to_multiset())
            =~= all.to_multiset());
    }
    loop
        invariant
            all == ranks(items@),
            in_order::<T>(ranks(sorted@)),
            ranks(rest@).to_multiset().add(ranks(sorted@).to_multiset()) == all.to_multiset(),
        decreases rest@.len(),
    {
        let ghost left = ranks(rest@);
        let ghost done = ranks(sorted@);
        match rest.pop() {
            None => {
                proof {
                    broadcast use vstd::multiset::group_multiset_axioms;

                    lemma_empty_multiset(left);
                    assert(left.to_multiset().add(done.to_multiset()) =~= done.to_multiset());
                }
                return sorted;
            },
            Some(item) => {
                let ghost rank = item.rank();
                insert_sorted(&mut sorted, item);
                proof {
                    broadcast use vstd::multiset::group_multiset_axioms;

                    assert(left =~= ranks(rest@).push(rank));
                    vstd::seq_lib::to_multiset_build(ranks(rest@), rank);
                    assert(ranks(rest@).to_multiset().add(ranks(sorted@).to_multiset())
                        =~= left.to_multiset().add(done.to_multiset()));
                }
            },
        }
    }
}

/// Of two texts, the one comes first that has the smaller character where they
/// first differ, or that ends where the other goes on.
pub proof fn the_first_difference_decides(
    common: Seq<char>,
    a: Seq<char>,
    b: Seq<char>,
)
    requires
        b.len() > 0,
        a.len() > 0 ==> a[0] != b[0],
    ensures
        precedes(common + a, common + b) <==> a.len() == 0 || a[0] < b[0],
        precedes(common + b, common + a) <==> a.len() > 0 && b[0] < a[0],
    decreases common.len(),
{
    if common.len() > 0 {
        the_first_difference_decides(common.skip(1), a, b);
        assert((common + a).skip(1) =~= common.skip(1) + a);
        assert((common + b).skip(1) =~= common.skip(1) + b);
        assert((common + a)[0] == common[0] && (common + b)[0] == common[0]);
    } else {
        assert(common + a =~= a);
        assert(common + b =~= b);
    }
}

/// In a sorted list of texts, or of pairs of texts, each stands before those that
/// come after it.
pub proof fn sorted_lists_are_in_order(
    texts: Vec<String>,
    sorted: Vec<String>,
    pairs: Vec<(String, String)>,
    sorted_pairs: Vec<(String, String)>,
    i: int,
    j: int,
)
    requires
        call_ensures(sort::<String>, (texts,), sorted),
        call_ensures(sort::<(String, String)>, (pairs,), sorted_pairs),
    ensures
        sorted@.len() == texts@.len(),
        sorted_pairs@.len() == pairs@.len(),
        0 <= i < j < sorted@.len() ==> !precedes(sorted@[j]@, sorted@[i]@),
        0 <= i < j < sorted_pairs@.len() ==> !precedes(
            sorted_pairs@[j].0@,
            sorted_pairs@[i].0@,
        ) && (sorted_pairs@[i].0@ == sorted_pairs@[j].0@ ==> !precedes(
            sorted_pairs@[j].1@,
            sorted_pairs@[i].1@,
        )),
{
    ranks(sorted@).to_multiset_ensures();
    ranks(texts@).to_multiset_ensures();
    ranks(sorted_pairs@).to_multiset_ensures();
    ranks(pairs@).to_multiset_ensures();
    if 0 <= i < j < sorted@.len() {
        assert(ranks(sorted@)[i] == sorted@[i]@);
        assert(ranks(sorted@)[j] == sorted@[j]@);
    }
    if 0 <= i < j < sorted_pairs@.len() {
        let all = ranks(sorted_pairs@);
        assert(all[i] == (sorted_pairs@[i].0@, sorted_pairs@[i].1@));
        assert(all[j] == (sorted_pairs@[j].0@, sorted_pairs@[j].1@));
        assert(!<(String, String) as Ranked>::below(all[j], all[i]));
    }
}

} // verus!
