//! Listing items by a column, best matches first among equals.
use vstd::prelude::*;

use crate::text;
use crate::text::comes_before;

verus! {

/// What an item is ordered by: a text, a number, or nothing that compares.
#[derive(Debug)]
pub enum SortKey {
    Text(Vec<char>),
    Number(i128),
    Unordered,
}

pub enum KeyView {
    Text(Seq<char>),
    Number(int),
    Unordered,
}

impl View for SortKey {
    type V = KeyView;

    open spec fn view(&self) -> KeyView {
        match self {
            SortKey::Text(t) => KeyView::Text(t@),
            SortKey::Number(n) => KeyView::Number(*n as int),
            SortKey::Unordered => KeyView::Unordered,
        }
    }
}

pub open spec fn key_views(keys: Seq<SortKey>) -> Seq<KeyView> {
    keys.map_values(|k: SortKey| k@)
}

/// Whether the first key is the smaller one. Keys that do not compare are not
/// smaller than anything.
pub open spec fn key_less(a: KeyView, b: KeyView) -> bool {
    match (a, b) {
        (KeyView::Text(x), KeyView::Text(y)) => text::text_before(x, y),
        (KeyView::Number(x), KeyView::Number(y)) => x < y,
        _ => false,
    }
}

impl SortKey {
    pub fn less(&self, other: &SortKey) -> (r: bool)
        ensures
            r == key_less(self@, other@),
    {
        match (self, other) {
            (SortKey::Text(x), SortKey::Text(y)) => comes_before(x, y),
            (SortKey::Number(x), SortKey::Number(y)) => *x < *y,
            _ => false,
        }
    }
}

/// Whether item `i` is listed before item `j`: by the key, then by the better
/// score, then by the earlier place.
pub open spec fn listed_before(
    keys: Seq<KeyView>,
    scores: Seq<Option<i64>>,
    descending: bool,
    i: int,
    j: int,
) -> bool {
    let less = key_less(keys[i], keys[j]);
    let greater = key_less(keys[j], keys[i]);
    let first = if descending {
        greater
    } else {
        less
    };
    first || (!less && !greater && (scores[i]->0 > scores[j]->0 || (scores[i]->0 == scores[j]->0
        && i < j)))
}

/// Whether an item is listed at all: those with a score are.
pub open spec fn is_listed(scores: Seq<Option<i64>>, i: int) -> bool {
    0 <= i < scores.len() && scores[i] is Some
}

/// Whether the keys of the listed items put them in an order: all are texts,
/// all are numbers, or none is smaller than another.
pub open spec fn orderly(keys: Seq<KeyView>, scores: Seq<Option<i64>>) -> bool {
    ||| forall|i: int| #[trigger] is_listed(scores, i) ==> keys[i] is Text
    ||| forall|i: int| #[trigger] is_listed(scores, i) ==> keys[i] is Number
    ||| forall|i: int, j: int|
        #![trigger is_listed(scores, i), is_listed(scores, j)]
        is_listed(scores, i) && is_listed(scores, j) ==> !key_less(keys[i], keys[j])
}

/// Whether the listing holds every listed item once, and in order where the
/// keys put them in an order.
pub open spec fn is_listing(
    order: Seq<usize>,
    keys: Seq<KeyView>,
    scores: Seq<Option<i64>>,
    descending: bool,
) -> bool {
    &&& order.no_duplicates()
    &&& forall|i: usize| #[trigger] order.contains(i) <==> is_listed(scores, i as int)
    &&& orderly(keys, scores) ==> forall|a: int, b: int|
        0 <= a < b < order.len() ==> listed_before(
            keys,
            scores,
            descending,
            #[trigger] order[a] as int,
            #[trigger] order[b] as int,
        )
}

proof fn lemma_key_order(keys: Seq<KeyView>, scores: Seq<Option<i64>>, i: int, j: int, k: int)
    requires
        orderly(keys, scores),
        is_listed(scores, i),
        is_listed(scores, j),
        is_listed(scores, k),
    ensures
        !(key_less(keys[i], keys[j]) && key_less(keys[j], keys[i])),
        key_less(keys[i], keys[j]) && key_less(keys[j], keys[k]) ==> key_less(keys[i], keys[k]),
        !key_less(keys[j], keys[i]) && !key_less(keys[k], keys[j]) ==> !key_less(keys[k], keys[i]),
{
    if keys[i] is Text && keys[j] is Text && keys[k] is Text {
        let x = keys[i]->Text_0;
        let y = keys[j]->Text_0;
        let z = keys[k]->Text_0;
        text::lemma_text_before_total(x, y);
        text::lemma_text_before_total(y, z);
        text::lemma_text_before_total(x, z);
        if text::text_before(x, y) && text::text_before(y, z) {
            text::lemma_text_before_transitive(x, y, z);
        }
        if text::text_before(z, x) {
            if text::text_before(x, y) {
                text::lemma_text_before_transitive(z, x, y);
            }
            if text::text_before(y, z) {
                text::lemma_text_before_transitive(y, z, x);
            }
        }
    }
}

proof fn lemma_listed_before(
    keys: Seq<KeyView>,
    scores: Seq<Option<i64>>,
    descending: bool,
    i: int,
    j: int,
    k: int,
)
    requires
        orderly(keys, scores),
        is_listed(scores, i),
        is_listed(scores, j),
        is_listed(scores, k),
    ensures
        listed_before(keys, scores, descending, i, j) && listed_before(
            keys,
            scores,
            descending,
            j,
            k,
        ) ==> listed_before(keys, scores, descending, i, k),
        i != j ==> (listed_before(keys, scores, descending, i, j) <==> !listed_before(
            keys,
            scores,
            descending,
            j,
            i,
        )),
        !listed_before(keys, scores, descending, i, i),
{
    lemma_key_order(keys, scores, i, j, k);
    lemma_key_order(keys, scores, k, j, i);
    lemma_key_order(keys, scores, i, k, j);
    lemma_key_order(keys, scores, j, i, k);
    lemma_key_order(keys, scores, j, k, i);
    lemma_key_order(keys, scores, k, i, j);
    lemma_key_order(keys, scores, i, i, i);
}

fn goes_before(
    keys: &Vec<SortKey>,
    scores: &Vec<Option<i64>>,
    descending: bool,
    i: usize,
    j: usize,
) -> (r: bool)
    requires
        keys@.len() == scores@.len(),
        is_listed(scores@, i as int),
        is_listed(scores@, j as int),
    ensures
        r == listed_before(key_views(keys@), scores@, descending, i as int, j as int),
{
    let less = keys[i].less(&keys[j]);
    let greater = keys[j].less(&keys[i]);
    if (descending && greater) || (!descending && less) {
        return true;
    }
    if less || greater {
        return false;
    }
    match (scores[i], scores[j]) {
        (Some(a), Some(b)) => a > b || (a == b && i < j),
        _ => false,
    }
}

proof fn lemma_insert_contains(s: Seq<usize>, p: int, x: usize)
    requires
        0 <= p <= s.len(),
    ensures
        forall|v: usize| #[trigger] s.insert(p, x).contains(v) <==> s.contains(v) || v == x,
        s.no_duplicates() && !s.contains(x) ==> s.insert(p, x).no_duplicates(),
{
    let t = s.insert(p, x);
    assert forall|v: usize| #[trigger] t.contains(v) <==> s.contains(v) || v == x by {
        if t.contains(v) {
            let k = choose|k: int| 0 <= k < t.len() && t[k] == v;
            if k < p {
                assert(s[k] == v);
            } else if k > p {
                assert(s[k - 1] == v);
            }
        }
        if s.contains(v) {
            let k = choose|k: int| 0 <= k < s.len() && s[k] == v;
            if k < p {
                assert(t[k] == v);
            } else {
                assert(t[k + 1] == v);
            }
        }
        if v == x {
            assert(t[p] == v);
        }
    }
    if s.no_duplicates() && !s.contains(x) {
        assert forall|a: int, b: int|
            0 <= a < t.len() && 0 <= b < t.len() && a != b implies t[a] != t[b] by {
            let sa = if a < p {
                a
            } else {
                a - 1
            };
            let sb = if b < p {
                b
            } else {
                b - 1
            };
            if a != p && b != p {
                assert(t[a] == s[sa] && t[b] == s[sb]);
            } else if a != p {
                assert(t[a] == s[sa] && s.contains(s[sa]));
            } else {
                assert(t[b] == s[sb] && s.contains(s[sb]));
            }
        }
    }
}

/// The places of the listed items, in their order.
pub fn listing(keys: &Vec<SortKey>, scores: &Vec<Option<i64>>, descending: bool) -> (r: Vec<usize>)
    requires
        keys@.len() == scores@.len(),
    ensures
        is_listing(r@, key_views(keys@), scores@, descending),
{
    let ghost kv = key_views(keys@);
    let ghost sv = scores@;
    let mut out: Vec<usize> = Vec::new();
    let mut i: usize = 0;
    while i < scores.len()
        invariant
            i <= scores@.len(),
            keys@.len() == scores@.len(),
            kv == key_views(keys@),
            sv == scores@,
            out@.no_duplicates(),
            forall|x: usize| #[trigger] out@.contains(x) <==> is_listed(sv, x as int) && x < i,
            orderly(kv, sv) ==> forall|a: int, b: int|
                0 <= a < b < out@.len() ==> listed_before(
                    kv,
                    sv,
                    descending,
                    #[trigger] out@[a] as int,
                    #[trigger] out@[b] as int,
                ),
        decreases scores@.len() - i,
    {
        if scores[i].is_some() {
            let n: usize = out.len();
            let mut p: usize = n;
            proof {
                assert forall|a: int| 0 <= a < n implies is_listed(
                    sv,
                    (#[trigger] out@[a]) as int,
                ) && out@[a] != i by {
                    assert(out@.contains(out@[a]));
                }
            }
            while p > 0 && goes_before(keys, scores, descending, i, out[p - 1])
                invariant
                    p <= n,
                    n == out@.len(),
                    keys@.len() == scores@.len(),
                    kv == key_views(keys@),
                    sv == scores@,
                    is_listed(sv, i as int),
                    forall|a: int|
                        0 <= a < n ==> is_listed(sv, (#[trigger] out@[a]) as int) && out@[a] != i,
                    forall|a: int|
                        p <= a < n ==> listed_before(
                            kv,
                            sv,
                            descending,
                            i as int,
                            (#[trigger] out@[a]) as int,
                        ),
                decreases p,
            {
                p -= 1;
            }
            let ghost before = out@;
            proof {
                assert(p > 0 ==> !listed_before(kv, sv, descending, i as int, before[p - 1] as int));
                lemma_insert_contains(before, p as int, i);
            }
            out.insert(p, i);
            proof {
                assert(out@ == before.insert(p as int, i));
                if orderly(kv, sv) {
                    assert forall|a: int| 0 <= a < p implies listed_before(
                        kv,
                        sv,
                        descending,
                        (#[trigger] before[a]) as int,
                        i as int,
                    ) by {
                        let l = before[p - 1] as int;
                        lemma_listed_before(kv, sv, descending, l, i as int, i as int);
                        if a < p - 1 {
                            lemma_listed_before(kv, sv, descending, before[a] as int, l, i as int);
                        }
                    }
                    assert forall|a: int, b: int| 0 <= a < b < out@.len() implies listed_before(
                        kv,
                        sv,
                        descending,
                        #[trigger] out@[a] as int,
                        #[trigger] out@[b] as int,
                    ) by {
                        let ba = if a < p {
                            a
                        } else {
                            a - 1
                        };
                        let bb = if b < p {
                            b
                        } else {
                            b - 1
                        };
                        if a != p {
                            assert(out@[a] == before[ba]);
                        }
                        if b != p {
                            assert(out@[b] == before[bb]);
                        }
                    }
                }
            }
        }
        i += 1;
    }
    proof {
        assert forall|x: usize| #[trigger] out@.contains(x) <==> is_listed(sv, x as int) by {}
    }
    out
}

/// Where the keys put the items in an order, there is only one listing.
pub proof fn law_listing_is_unique(
    a: Seq<usize>,
    b: Seq<usize>,
    keys: Seq<KeyView>,
    scores: Seq<Option<i64>>,
    descending: bool,
)
    requires
        orderly(keys, scores),
        is_listing(a, keys, scores, descending),
        is_listing(b, keys, scores, descending),
    ensures
        a == b,
{
    lemma_same_members_same_len(a, b);
    lemma_listings_agree(a, b, keys, scores, descending, a.len());
    assert(a =~= b);
}

/// Every listing holds as many items as are listed.
pub proof fn law_listings_are_equally_long(
    a: Seq<usize>,
    b: Seq<usize>,
    keys: Seq<KeyView>,
    scores: Seq<Option<i64>>,
    descending: bool,
)
    requires
        is_listing(a, keys, scores, descending),
        is_listing(b, keys, scores, descending),
    ensures
        a.len() == b.len(),
{
    lemma_same_members_same_len(a, b);
}

proof fn lemma_same_members_same_len(a: Seq<usize>, b: Seq<usize>)
    requires
        a.no_duplicates(),
        b.no_duplicates(),
        forall|i: usize| a.contains(i) == b.contains(i),
    ensures
        a.len() == b.len(),
{
    a.unique_seq_to_set();
    b.unique_seq_to_set();
    assert(a.to_set() =~= b.to_set());
}

proof fn lemma_listings_agree(
    a: Seq<usize>,
    b: Seq<usize>,
    keys: Seq<KeyView>,
    scores: Seq<Option<i64>>,
    descending: bool,
    n: nat,
)
    requires
        orderly(keys, scores),
        is_listing(a, keys, scores, descending),
        is_listing(b, keys, scores, descending),
        a.len() == b.len(),
        n <= a.len(),
    ensures
        forall|p: int| 0 <= p < n ==> a[p] == b[p],
    decreases n,
{
    if n > 0 {
        lemma_listings_agree(a, b, keys, scores, descending, (n - 1) as nat);
        let p = n - 1;
        if a[p] != b[p] {
            assert(a.contains(a[p]) && b.contains(b[p]));
            assert(b.contains(a[p]) && a.contains(b[p]));
            let q = choose|q: int| 0 <= q < b.len() && b[q] == a[p];
            let r = choose|r: int| 0 <= r < a.len() && a[r] == b[p];
            assert(q > p) by {
                if q < p {
                    assert(a[q] == b[q]);
                }
            }
            assert(r > p) by {
                if r < p {
                    assert(a[r] == b[r]);
                }
            }
            assert(listed_before(keys, scores, descending, b[p] as int, b[q] as int));
            assert(listed_before(keys, scores, descending, a[p] as int, a[r] as int));
            lemma_listed_before(
                keys,
                scores,
                descending,
                a[p] as int,
                b[p] as int,
                a[p] as int,
            );
        }
    }
}

/// A listing holds the items with a score, each once. Those with numbers stand
/// by their numbers, those with texts by their texts, upwards or downwards as
/// asked for; of those that are equal in that the better score comes first, and
/// of those with the same score the one with the earlier place.
pub proof fn law_listings_are_sorted(
    order: Seq<usize>,
    keys: Seq<KeyView>,
    scores: Seq<Option<i64>>,
    descending: bool,
    a: int,
    b: int,
)
    requires
        is_listing(order, keys, scores, descending),
        0 <= a < b < order.len(),
        (forall|i: int| 0 <= i < scores.len() && scores[i] is Some ==> (#[trigger] keys[i])
            is Number) || (forall|i: int|
            0 <= i < scores.len() && scores[i] is Some ==> (#[trigger] keys[i]) is Text),
    ensures
        ({
            let i = order[a] as int;
            let j = order[b] as int;
            let same = keys[i] == keys[j];
            &&& i != j
            &&& i < scores.len() && scores[i] is Some
            &&& j < scores.len() && scores[j] is Some
            &&& keys[i] matches KeyView::Number(x) ==> (keys[j] matches KeyView::Number(y) && if
            descending {
                x >= y
            } else {
                x <= y
            })
            &&& keys[i] matches KeyView::Text(x) ==> (keys[j] matches KeyView::Text(y) && if
            descending {
                !text::text_before(x, y)
            } else {
                !text::text_before(y, x)
            })
            &&& same ==> scores[i]->0 >= scores[j]->0
            &&& same && scores[i]->0 == scores[j]->0 ==> i < j
        }),
{
    let i = order[a] as int;
    let j = order[b] as int;
    assert(order.contains(order[a]) && order.contains(order[b]));
    assert(is_listed(scores, i) && is_listed(scores, j));
    assert(orderly(keys, scores)) by {
        if forall|i: int| 0 <= i < scores.len() && scores[i] is Some ==> (#[trigger] keys[i])
            is Number {
            assert forall|i: int| #[trigger] is_listed(scores, i) implies keys[i] is Number by {}
        } else {
            assert forall|i: int| #[trigger] is_listed(scores, i) implies keys[i] is Text by {}
        }
    }
    assert(listed_before(keys, scores, descending, i, j));
    if let (KeyView::Text(x), KeyView::Text(y)) = (keys[i], keys[j]) {
        text::lemma_text_before_total(x, y);
    }
}

/// Every item with a score is listed, and no other.
pub proof fn law_everything_with_a_score_is_listed(
    order: Seq<usize>,
    keys: Seq<KeyView>,
    scores: Seq<Option<i64>>,
    descending: bool,
    i: usize,
)
    requires
        is_listing(order, keys, scores, descending),
    ensures
        order.contains(i) <==> i < scores.len() && scores[i as int] is Some,
        order.no_duplicates(),
{
}

/// Items whose keys do not compare stand by their scores alone.
pub proof fn law_without_an_order_scores_decide(
    order: Seq<usize>,
    keys: Seq<KeyView>,
    scores: Seq<Option<i64>>,
    descending: bool,
    a: int,
    b: int,
)
    requires
        is_listing(order, keys, scores, descending),
        0 <= a < b < order.len(),
        forall|i: int|
            0 <= i < scores.len() && scores[i] is Some ==> (#[trigger] keys[i]) is Unordered,
    ensures
        scores[order[a] as int]->0 >= scores[order[b] as int]->0,
        scores[order[a] as int]->0 == scores[order[b] as int]->0 ==> order[a] < order[b],
{
    assert(order.contains(order[a]) && order.contains(order[b]));
    assert(orderly(keys, scores)) by {
        assert forall|i: int, j: int|
            #![trigger is_listed(scores, i), is_listed(scores, j)]
            is_listed(scores, i) && is_listed(scores, j) implies !key_less(keys[i], keys[j]) by {}
    }
    assert(is_listed(scores, order[a] as int) && is_listed(scores, order[b] as int));
    assert(listed_before(keys, scores, descending, order[a] as int, order[b] as int));
}

} // verus!
