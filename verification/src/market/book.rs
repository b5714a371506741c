//! Merging updates into one side of an order book.
//!
//! A side is read as a map from price to amount. Levels are applied in order:
//! a level with a zero amount removes its price, any other level sets the
//! amount at its price. The merged side lists the best prices first (lowest
//! for asks, highest for bids), each once, cut to a depth limit.
use vstd::prelude::*;
use crate::market::liq::{Depth, DepthView, Liq};

verus! {

/// Price `p` ranks before price `q` on the side: lower for asks, higher for bids.
pub open spec fn better(p: i128, q: i128, is_asks: bool) -> bool {
    if is_asks {
        p < q
    } else {
        p > q
    }
}

/// The side after one level is applied to it.
pub open spec fn apply_level(book: Map<i128, i128>, l: Liq) -> Map<i128, i128> {
    if l.amount == 0 {
        book.remove(l.price)
    } else {
        book.insert(l.price, l.amount)
    }
}

/// The side obtained by applying `levels` in order to an empty side.
pub open spec fn book_of(levels: Seq<Liq>) -> Map<i128, i128>
    decreases levels.len(),
{
    if levels.len() == 0 {
        Map::empty()
    } else {
        apply_level(book_of(levels.drop_last()), levels.last())
    }
}

/// Prices strictly in side order: each price once, best first.
pub open spec fn side_sorted(s: Seq<Liq>, is_asks: bool) -> bool {
    forall|i: int, j: int| 0 <= i < j < s.len() ==> better(#[trigger] s[i].price, #[trigger] s[j].price, is_asks)
}

/// No level holds a zero amount.
pub open spec fn amounts_nonzero(s: Seq<Liq>) -> bool {
    forall|i: int| 0 <= i < s.len() ==> (#[trigger] s[i]).amount != 0
}

/// Every level of `s` is a level of `book`, with the book's amount.
pub open spec fn levels_in_book(s: Seq<Liq>, book: Map<i128, i128>) -> bool {
    forall|i: int| 0 <= i < s.len() ==> book.contains_key(#[trigger] s[i].price) && book[s[i].price] == s[i].amount
}

/// Some level of `s` has price `p`.
pub open spec fn has_price(s: Seq<Liq>, p: i128) -> bool {
    exists|i: int| 0 <= i < s.len() && (#[trigger] s[i]).price == p
}

/// `s` lists all of `book`, best price first.
pub open spec fn lists_book(s: Seq<Liq>, book: Map<i128, i128>, is_asks: bool) -> bool {
    &&& side_sorted(s, is_asks)
    &&& amounts_nonzero(s)
    &&& levels_in_book(s, book)
    &&& forall|p: i128| #[trigger] book.contains_key(p) ==> has_price(s, p)
}

/// `r` lists the best `limit` levels of `book`, best price first: every
/// level of the book that `r` leaves out ranks after all `limit` levels of `r`.
pub open spec fn top_of_book(r: Seq<Liq>, book: Map<i128, i128>, is_asks: bool, limit: nat) -> bool {
    &&& side_sorted(r, is_asks)
    &&& r.len() <= limit
    &&& levels_in_book(r, book)
    &&& forall|p: i128|
        #[trigger] book.contains_key(p) && !has_price(r, p) ==> r.len() == limit && forall|i: int|
            0 <= i < r.len() ==> better(#[trigger] r[i].price, p, is_asks)
}

/// A side is normal when it is sorted, holds no zero amount and fits the limit.
pub open spec fn normal_side(s: Seq<Liq>, is_asks: bool, limit: nat) -> bool {
    side_sorted(s, is_asks) && amounts_nonzero(s) && s.len() <= limit
}

/// The merged side: the best `limit` levels of `liqs` updated by `diffs`.
pub open spec fn merged_side(liqs: Seq<Liq>, diffs: Seq<Liq>, is_asks: bool, limit: nat, r: Seq<Liq>) -> bool {
    top_of_book(r, book_of(liqs + diffs), is_asks, limit) && amounts_nonzero(r)
}

proof fn lemma_book_of_push(s: Seq<Liq>, l: Liq)
    ensures
        book_of(s.push(l)) == apply_level(book_of(s), l),
{
    assert(s.push(l).drop_last() =~= s);
}

/// Whether price `p` ranks before price `q` on the side.
pub fn ranks_before(p: i128, q: i128, is_asks: bool) -> (res: bool)
    ensures
        res == better(p, q, is_asks),
{
    if is_asks {
        p < q
    } else {
        p > q
    }
}

/// Applies one level to a side listed best first.
fn apply_one(v: &mut Vec<Liq>, l: Liq, is_asks: bool, Ghost(book): Ghost<Map<i128, i128>>)
    requires
        lists_book(old(v)@, book, is_asks),
    ensures
        lists_book(final(v)@, apply_level(book, l), is_asks),
{
    let ghost old_v = v@;
    let n = v.len();
    let mut i: usize = 0;
    while i < n && ranks_before(v[i].price, l.price, is_asks)
        invariant
            n == v@.len(),
            v@ == old_v,
            i <= n,
            forall|j: int| 0 <= j < i ==> better(#[trigger] v@[j].price, l.price, is_asks),
        decreases n - i,
    {
        i = i + 1;
    }
    let ghost nb = apply_level(book, l);
    if i < n && v[i].price == l.price {
        if l.amount == 0 {
            v.remove(i);
            proof {
                assert forall|k: int| 0 <= k < v@.len() implies nb.contains_key(#[trigger] v@[k].price)
                    && nb[v@[k].price] == v@[k].amount by {
                    if k < i {
                        assert(v@[k] == old_v[k]);
                        assert(better(old_v[k].price, old_v[i as int].price, is_asks));
                    } else {
                        assert(v@[k] == old_v[k + 1]);
                        assert(better(old_v[i as int].price, old_v[k + 1].price, is_asks));
                    }
                }
                assert forall|p: i128| #[trigger] nb.contains_key(p) implies has_price(v@, p) by {
                    assert(book.contains_key(p));
                    let j = choose|j: int| 0 <= j < old_v.len() && (#[trigger] old_v[j]).price == p;
                    if j < i {
                        assert(v@[j] == old_v[j]);
                    } else {
                        assert(j != i);
                        assert(v@[j - 1] == old_v[j]);
                    }
                }
                assert forall|a: int, b: int| 0 <= a < b < v@.len() implies better(
                    #[trigger] v@[a].price,
                    #[trigger] v@[b].price,
                    is_asks,
                ) by {
                    let a0 = if a < i { a } else { a + 1 };
                    let b0 = if b < i { b } else { b + 1 };
                    assert(v@[a] == old_v[a0]);
                    assert(v@[b] == old_v[b0]);
                    assert(better(old_v[a0].price, old_v[b0].price, is_asks));
                }
                assert forall|k: int| 0 <= k < v@.len() implies (#[trigger] v@[k]).amount != 0 by {
                    if k < i {
                        assert(v@[k] == old_v[k]);
                    } else {
                        assert(v@[k] == old_v[k + 1]);
                    }
                }
            }
        } else {
            v.set(i, l);
            proof {
                assert forall|k: int| 0 <= k < v@.len() implies nb.contains_key(#[trigger] v@[k].price)
                    && nb[v@[k].price] == v@[k].amount by {
                    if k != i {
                        assert(v@[k] == old_v[k]);
                        if k < i {
                            assert(better(old_v[k].price, old_v[i as int].price, is_asks));
                        } else {
                            assert(better(old_v[i as int].price, old_v[k].price, is_asks));
                        }
                    }
                }
                assert forall|p: i128| #[trigger] nb.contains_key(p) implies has_price(v@, p) by {
                    if p == l.price {
                        assert(v@[i as int].price == p);
                    } else {
                        assert(book.contains_key(p));
                        let j = choose|j: int| 0 <= j < old_v.len() && (#[trigger] old_v[j]).price == p;
                        assert(v@[j] == old_v[j]);
                    }
                }
                assert forall|a: int, b: int| 0 <= a < b < v@.len() implies better(
                    #[trigger] v@[a].price,
                    #[trigger] v@[b].price,
                    is_asks,
                ) by {
                    assert(v@[a].price == old_v[a].price);
                    assert(v@[b].price == old_v[b].price);
                    assert(better(old_v[a].price, old_v[b].price, is_asks));
                }
            }
        }
    } else {
        proof {
            assert forall|j: int| 0 <= j < old_v.len() implies (#[trigger] old_v[j]).price != l.price by {
                if j >= i {
                    assert(better(l.price, old_v[i as int].price, is_asks));
                    if j > i {
                        assert(better(old_v[i as int].price, old_v[j].price, is_asks));
                    }
                }
            }
            assert(!book.contains_key(l.price));
        }
        if l.amount != 0 {
            v.insert(i, l);
            proof {
                assert forall|k: int| 0 <= k < v@.len() implies nb.contains_key(#[trigger] v@[k].price)
                    && nb[v@[k].price] == v@[k].amount by {
                    if k < i {
                        assert(v@[k] == old_v[k]);
                    } else if k > i {
                        assert(v@[k] == old_v[k - 1]);
                    }
                }
                assert forall|p: i128| #[trigger] nb.contains_key(p) implies has_price(v@, p) by {
                    if p == l.price {
                        assert(v@[i as int].price == p);
                    } else {
                        assert(book.contains_key(p));
                        let j = choose|j: int| 0 <= j < old_v.len() && (#[trigger] old_v[j]).price == p;
                        if j < i {
                            assert(v@[j] == old_v[j]);
                        } else {
                            assert(v@[j + 1] == old_v[j]);
                        }
                    }
                }
                assert forall|a: int, b: int| 0 <= a < b < v@.len() implies better(
                    #[trigger] v@[a].price,
                    #[trigger] v@[b].price,
                    is_asks,
                ) by {
                    if a < i && b < i {
                        assert(v@[a] == old_v[a]);
                        assert(v@[b] == old_v[b]);
                        assert(better(old_v[a].price, old_v[b].price, is_asks));
                    } else if a < i && b == i {
                        assert(v@[a] == old_v[a]);
                    } else if a < i {
                        assert(v@[a] == old_v[a]);
                        assert(v@[b] == old_v[b - 1]);
                        assert(better(old_v[a].price, old_v[b - 1].price, is_asks));
                    } else if a == i {
                        assert(v@[b] == old_v[b - 1]);
                        assert(better(l.price, old_v[i as int].price, is_asks));
                        if b - 1 > i {
                            assert(better(old_v[i as int].price, old_v[b - 1].price, is_asks));
                        }
                    } else {
                        assert(v@[a] == old_v[a - 1]);
                        assert(v@[b] == old_v[b - 1]);
                        assert(better(old_v[a - 1].price, old_v[b - 1].price, is_asks));
                    }
                }
                assert forall|k: int| 0 <= k < v@.len() implies (#[trigger] v@[k]).amount != 0 by {
                    if k < i {
                        assert(v@[k] == old_v[k]);
                    } else if k > i {
                        assert(v@[k] == old_v[k - 1]);
                    }
                }
            }
        } else {
            proof {
                assert(nb =~= book);
            }
        }
    }
}

/// Applies `levels` in order to a side listed best first.
fn apply_all(v: &mut Vec<Liq>, levels: &Vec<Liq>, is_asks: bool, Ghost(prefix): Ghost<Seq<Liq>>)
    requires
        lists_book(old(v)@, book_of(prefix), is_asks),
    ensures
        lists_book(final(v)@, book_of(prefix + levels@), is_asks),
{
    let mut k: usize = 0;
    while k < levels.len()
        invariant
            k <= levels@.len(),
            lists_book(v@, book_of(prefix + levels@.subrange(0, k as int)), is_asks),
        decreases levels.len() - k,
    {
        let ghost done = prefix + levels@.subrange(0, k as int);
        apply_one(v, levels[k], is_asks, Ghost(book_of(done)));
        proof {
            lemma_book_of_push(done, levels@[k as int]);
            assert(done.push(levels@[k as int]) =~= prefix + levels@.subrange(0, k + 1));
        }
        k = k + 1;
    }
    proof {
        assert(levels@.subrange(0, levels@.len() as int) =~= levels@);
    }
}

/// Merges `diffs` into the side `liqs` and keeps the best `limit` levels,
/// best price first (ascending prices for asks, descending for bids).
pub fn merge_side_liqs(liqs: &Vec<Liq>, diffs: &Vec<Liq>, is_asks: bool, limit: usize) -> (res: Vec<Liq>)
    ensures
        merged_side(liqs@, diffs@, is_asks, limit as nat, res@),
{
    let mut v: Vec<Liq> = Vec::new();
    proof {
        assert(book_of(Seq::<Liq>::empty()) =~= Map::<i128, i128>::empty());
    }
    apply_all(&mut v, liqs, is_asks, Ghost(Seq::empty()));
    proof {
        assert(Seq::<Liq>::empty() + liqs@ =~= liqs@);
    }
    apply_all(&mut v, diffs, is_asks, Ghost(liqs@));
    let ghost full = v@;
    let ghost book = book_of(liqs@ + diffs@);
    if v.len() > limit {
        v.truncate(limit);
    }
    proof {
        assert(v@ =~= full.subrange(0, v@.len() as int));
        assert forall|p: i128| #[trigger] book.contains_key(p) && !has_price(v@, p) implies v@.len()
            == limit && forall|i: int| 0 <= i < v@.len() ==> better(#[trigger] v@[i].price, p, is_asks) by {
            let j = choose|j: int| 0 <= j < full.len() && (#[trigger] full[j]).price == p;
            if j < v@.len() {
                assert(v@[j] == full[j]);
            }
            assert forall|i: int| 0 <= i < v@.len() implies better(#[trigger] v@[i].price, p, is_asks) by {
                assert(v@[i] == full[i]);
            }
        }
        assert forall|i: int, j: int| 0 <= i < j < v@.len() implies better(
            #[trigger] v@[i].price,
            #[trigger] v@[j].price,
            is_asks,
        ) by {
            assert(v@[i] == full[i]);
            assert(v@[j] == full[j]);
        }
        assert forall|i: int| 0 <= i < v@.len() implies book.contains_key(#[trigger] v@[i].price)
            && book[v@[i].price] == v@[i].amount && v@[i].amount != 0 by {
            assert(v@[i] == full[i]);
        }
    }
    v
}

/// A normal side lists exactly the side that its own levels build.
pub proof fn lemma_normal_side_lists_itself(s: Seq<Liq>, is_asks: bool)
    requires
        side_sorted(s, is_asks),
        amounts_nonzero(s),
    ensures
        lists_book(s, book_of(s), is_asks),
    decreases s.len(),
{
    if s.len() > 0 {
        let t = s.drop_last();
        let l = s.last();
        assert forall|i: int, j: int| 0 <= i < j < t.len() implies better(
            #[trigger] t[i].price,
            #[trigger] t[j].price,
            is_asks,
        ) by {
            assert(t[i] == s[i] && t[j] == s[j]);
        }
        assert forall|i: int| 0 <= i < t.len() implies (#[trigger] t[i]).amount != 0 by {
            assert(t[i] == s[i]);
        }
        lemma_normal_side_lists_itself(t, is_asks);
        let b = book_of(t);
        assert(book_of(s) == b.insert(l.price, l.amount));
        assert forall|i: int| 0 <= i < s.len() implies book_of(s).contains_key(#[trigger] s[i].price)
            && book_of(s)[s[i].price] == s[i].amount by {
            if i < s.len() - 1 {
                assert(t[i] == s[i]);
                assert(better(s[i].price, s[s.len() - 1].price, is_asks));
            }
        }
        assert forall|p: i128| #[trigger] book_of(s).contains_key(p) implies has_price(s, p) by {
            if p == l.price {
                assert(s[s.len() - 1].price == p);
            } else {
                assert(b.contains_key(p));
                let j = choose|j: int| 0 <= j < t.len() && (#[trigger] t[j]).price == p;
                assert(s[j] == t[j]);
            }
        }
    } else {
        assert(book_of(s) =~= Map::<i128, i128>::empty());
    }
}

proof fn lemma_top_prefix(r1: Seq<Liq>, r2: Seq<Liq>, book: Map<i128, i128>, is_asks: bool, limit: nat, k: int)
    requires
        top_of_book(r1, book, is_asks, limit),
        top_of_book(r2, book, is_asks, limit),
        0 <= k <= r1.len(),
        k <= r2.len(),
    ensures
        forall|j: int| 0 <= j < k ==> r1[j] == r2[j],
    decreases k,
{
    if k > 0 {
        lemma_top_prefix(r1, r2, book, is_asks, limit, k - 1);
        let m = k - 1;
        let p1 = r1[m].price;
        let p2 = r2[m].price;
        if p1 != p2 {
            if better(p1, p2, is_asks) {
                assert(book.contains_key(p1));
                if has_price(r2, p1) {
                    let t = choose|t: int| 0 <= t < r2.len() && (#[trigger] r2[t]).price == p1;
                    if t < m {
                        assert(r1[t] == r2[t]);
                        assert(better(r1[t].price, r1[m].price, is_asks));
                    } else if t > m {
                        assert(better(r2[m].price, r2[t].price, is_asks));
                    }
                } else {
                    assert(better(r2[m].price, p1, is_asks));
                }
            } else {
                assert(better(p2, p1, is_asks));
                assert(book.contains_key(p2));
                if has_price(r1, p2) {
                    let t = choose|t: int| 0 <= t < r1.len() && (#[trigger] r1[t]).price == p2;
                    if t < m {
                        assert(r1[t] == r2[t]);
                        assert(better(r2[t].price, r2[m].price, is_asks));
                    } else if t > m {
                        assert(better(r1[m].price, r1[t].price, is_asks));
                    }
                } else {
                    assert(better(r1[m].price, p2, is_asks));
                }
            }
        }
        assert(r1[m].amount == book[p1]);
        assert(r2[m].amount == book[p2]);
    }
}

/// Two listings of the best `limit` levels of one side are the same listing.
pub proof fn lemma_top_of_book_unique(r1: Seq<Liq>, r2: Seq<Liq>, book: Map<i128, i128>, is_asks: bool, limit: nat)
    requires
        top_of_book(r1, book, is_asks, limit),
        top_of_book(r2, book, is_asks, limit),
    ensures
        r1 == r2,
{
    if r1.len() < r2.len() {
        lemma_top_prefix(r1, r2, book, is_asks, limit, r1.len() as int);
        let q = r2[r1.len() as int].price;
        if has_price(r1, q) {
            let t = choose|t: int| 0 <= t < r1.len() && (#[trigger] r1[t]).price == q;
            assert(r1[t] == r2[t]);
            assert(better(r2[t].price, r2[r1.len() as int].price, is_asks));
        }
    } else if r2.len() < r1.len() {
        lemma_top_prefix(r1, r2, book, is_asks, limit, r2.len() as int);
        let q = r1[r2.len() as int].price;
        if has_price(r2, q) {
            let t = choose|t: int| 0 <= t < r2.len() && (#[trigger] r2[t]).price == q;
            assert(r1[t] == r2[t]);
            assert(better(r1[t].price, r1[r2.len() as int].price, is_asks));
        }
    } else {
        lemma_top_prefix(r1, r2, book, is_asks, limit, r1.len() as int);
        assert(r1 =~= r2);
    }
}

/// Merging nothing into a normal side gives that side back unchanged.
pub proof fn law_merge_keeps_normal_side(s: Seq<Liq>, is_asks: bool, limit: nat, r: Seq<Liq>)
    requires
        normal_side(s, is_asks, limit),
        merged_side(s, Seq::empty(), is_asks, limit, r),
    ensures
        r == s,
{
    assert(s + Seq::<Liq>::empty() =~= s);
    lemma_normal_side_lists_itself(s, is_asks);
    let book = book_of(s);
    assert forall|p: i128| #[trigger] book.contains_key(p) && !has_price(s, p) implies s.len() == limit
        && forall|i: int| 0 <= i < s.len() ==> better(#[trigger] s[i].price, p, is_asks) by {}
    assert(top_of_book(s, book, is_asks, limit));
    lemma_top_of_book_unique(r, s, book, is_asks, limit);
}

/// A merged side is normal: sorted best first, no zero amount, within the limit.
pub proof fn law_merged_side_is_normal(liqs: Seq<Liq>, diffs: Seq<Liq>, is_asks: bool, limit: nat, r: Seq<Liq>)
    requires
        merged_side(liqs, diffs, is_asks, limit, r),
    ensures
        normal_side(r, is_asks, limit),
{
}

/// Merging again with no new updates changes nothing.
pub proof fn law_merge_idempotent(
    liqs: Seq<Liq>,
    diffs: Seq<Liq>,
    is_asks: bool,
    limit: nat,
    r: Seq<Liq>,
    r2: Seq<Liq>,
)
    requires
        merged_side(liqs, diffs, is_asks, limit, r),
        merged_side(r, Seq::empty(), is_asks, limit, r2),
    ensures
        r2 == r,
{
    law_merge_keeps_normal_side(r, is_asks, limit, r2);
}

/// The last update of a price decides it: a zero amount takes the price out
/// of the merged side; a positive amount puts it in with that amount whenever
/// the merged side is shorter than the limit.
pub proof fn law_last_update_wins(liqs: Seq<Liq>, diffs: Seq<Liq>, l: Liq, is_asks: bool, limit: nat, r: Seq<Liq>)
    requires
        merged_side(liqs, diffs.push(l), is_asks, limit, r),
    ensures
        l.amount == 0 ==> !has_price(r, l.price),
        l.amount != 0 && r.len() < limit ==> exists|i: int| 0 <= i < r.len() && #[trigger] r[i] == l,
{
    assert(liqs + diffs.push(l) =~= (liqs + diffs).push(l));
    lemma_book_of_push(liqs + diffs, l);
    let book = book_of(liqs + diffs.push(l));
    if l.amount == 0 {
        if has_price(r, l.price) {
            let i = choose|i: int| 0 <= i < r.len() && (#[trigger] r[i]).price == l.price;
            assert(book.contains_key(r[i].price));
        }
    } else if r.len() < limit {
        assert(book.contains_key(l.price));
        let i = choose|i: int| 0 <= i < r.len() && (#[trigger] r[i]).price == l.price;
        assert(r[i] == l);
    }
}

/// How many levels of each side an order book keeps.
pub const DEPTH_LIMIT: usize = 50;

/// The asks of all `diffs`, in order.
pub open spec fn diffs_asks(diffs: Seq<Depth>) -> Seq<Liq>
    decreases diffs.len(),
{
    if diffs.len() == 0 {
        Seq::empty()
    } else {
        diffs_asks(diffs.drop_last()) + diffs.last().asks@
    }
}

/// The bids of all `diffs`, in order.
pub open spec fn diffs_bids(diffs: Seq<Depth>) -> Seq<Liq>
    decreases diffs.len(),
{
    if diffs.len() == 0 {
        Seq::empty()
    } else {
        diffs_bids(diffs.drop_last()) + diffs.last().bids@
    }
}

/// `r` is the order book `snapshot` with `diffs` merged into it, each side
/// cut to [`DEPTH_LIMIT`] levels.
pub open spec fn merged_depth(snapshot: DepthView, diffs: Seq<Depth>, r: DepthView) -> bool {
    &&& merged_side(snapshot.asks, diffs_asks(diffs), true, DEPTH_LIMIT as nat, r.asks)
    &&& merged_side(snapshot.bids, diffs_bids(diffs), false, DEPTH_LIMIT as nat, r.bids)
}

/// An order book is normal when both sides are.
pub open spec fn normal_depth(d: DepthView) -> bool {
    normal_side(d.asks, true, DEPTH_LIMIT as nat) && normal_side(d.bids, false, DEPTH_LIMIT as nat)
}

/// The asks and the bids of all `diffs`, each in order.
pub fn collect_diff_sides(diffs: &Vec<Depth>) -> (res: (Vec<Liq>, Vec<Liq>))
    ensures
        res.0@ == diffs_asks(diffs@),
        res.1@ == diffs_bids(diffs@),
{
    let mut asks: Vec<Liq> = Vec::new();
    let mut bids: Vec<Liq> = Vec::new();
    let mut i: usize = 0;
    while i < diffs.len()
        invariant
            i <= diffs@.len(),
            asks@ == diffs_asks(diffs@.subrange(0, i as int)),
            bids@ == diffs_bids(diffs@.subrange(0, i as int)),
        decreases diffs.len() - i,
    {
        let d = &diffs[i];
        let mut k: usize = 0;
        let ghost asks0 = asks@;
        while k < d.asks.len()
            invariant
                k <= d.asks@.len(),
                asks@ == asks0 + d.asks@.subrange(0, k as int),
            decreases d.asks.len() - k,
        {
            asks.push(d.asks[k]);
            k = k + 1;
        }
        let mut m: usize = 0;
        let ghost bids0 = bids@;
        while m < d.bids.len()
            invariant
                m <= d.bids@.len(),
                bids@ == bids0 + d.bids@.subrange(0, m as int),
            decreases d.bids.len() - m,
        {
            bids.push(d.bids[m]);
            m = m + 1;
        }
        proof {
            assert(diffs@.subrange(0, i + 1).drop_last() =~= diffs@.subrange(0, i as int));
            assert(d.asks@.subrange(0, d.asks@.len() as int) =~= d.asks@);
            assert(d.bids@.subrange(0, d.bids@.len() as int) =~= d.bids@);
        }
        i = i + 1;
    }
    proof {
        assert(diffs@.subrange(0, diffs@.len() as int) =~= diffs@);
    }
    (asks, bids)
}

/// The order book `snapshot` with `diffs` merged into it, each side cut to
/// [`DEPTH_LIMIT`] levels.
pub fn merge_depth_diffs(snapshot: &Depth, diffs: &Vec<Depth>) -> (res: Depth)
    ensures
        merged_depth(snapshot@, diffs@, res@),
{
    let (diff_asks, diff_bids) = collect_diff_sides(diffs);
    let asks = merge_side_liqs(&snapshot.asks, &diff_asks, true, DEPTH_LIMIT);
    let bids = merge_side_liqs(&snapshot.bids, &diff_bids, false, DEPTH_LIMIT);
    Depth { asks, bids }
}

/// A normal order book read back with nothing to merge is the book itself.
pub proof fn law_normal_depth_reads_back(d: DepthView, r: DepthView)
    requires
        normal_depth(d),
        merged_depth(d, Seq::empty(), r),
    ensures
        r == d,
{
    assert(diffs_asks(Seq::<Depth>::empty()) =~= Seq::<Liq>::empty());
    assert(diffs_bids(Seq::<Depth>::empty()) =~= Seq::<Liq>::empty());
    law_merge_keeps_normal_side(d.asks, true, DEPTH_LIMIT as nat, r.asks);
    law_merge_keeps_normal_side(d.bids, false, DEPTH_LIMIT as nat, r.bids);
    assert(r =~= d);
}

/// Merging an order book again with nothing new changes nothing.
pub proof fn law_merged_depth_idempotent(snapshot: DepthView, diffs: Seq<Depth>, r: DepthView, r2: DepthView)
    requires
        merged_depth(snapshot, diffs, r),
        merged_depth(r, Seq::empty(), r2),
    ensures
        r2 == r,
{
    law_merged_depth_is_normal(snapshot, diffs, r);
    law_normal_depth_reads_back(r, r2);
}

/// A merged order book is normal.
pub proof fn law_merged_depth_is_normal(snapshot: DepthView, diffs: Seq<Depth>, r: DepthView)
    requires
        merged_depth(snapshot, diffs, r),
    ensures
        normal_depth(r),
{
}

/// Levels after the first `k` that are for other prices leave the entry of
/// price `p` as the first `k` levels made it.
proof fn lemma_book_keeps_price(s: Seq<Liq>, k: int, p: i128)
    requires
        0 <= k <= s.len(),
        forall|j: int| k <= j < s.len() ==> (#[trigger] s[j]).price != p,
    ensures
        book_of(s).contains_key(p) == book_of(s.subrange(0, k)).contains_key(p),
        book_of(s).contains_key(p) ==> book_of(s)[p] == book_of(s.subrange(0, k))[p],
    decreases s.len(),
{
    if s.len() == k {
        assert(s.subrange(0, k) =~= s);
    } else {
        let init = s.drop_last();
        assert forall|j: int| k <= j < init.len() implies (#[trigger] init[j]).price != p by {
            assert(init[j] == s[j]);
        }
        lemma_book_keeps_price(init, k, p);
        assert(init.subrange(0, k) =~= s.subrange(0, k));
        assert(s.last() == s[s.len() - 1]);
    }
}

/// The latest level of a price decides it: a zero amount leaves the price
/// out of the side, any other amount sets it.
pub proof fn law_latest_level_decides(s: Seq<Liq>, i: int)
    requires
        0 <= i < s.len(),
        forall|j: int| i < j < s.len() ==> (#[trigger] s[j]).price != s[i].price,
    ensures
        s[i].amount == 0 ==> !book_of(s).contains_key(s[i].price),
        s[i].amount != 0 ==> book_of(s).contains_key(s[i].price) && book_of(s)[s[i].price] == s[i].amount,
{
    lemma_book_keeps_price(s, i + 1, s[i].price);
    let pre = s.subrange(0, i + 1);
    assert(pre.drop_last() =~= s.subrange(0, i));
    assert(pre.last() == s[i]);
}

/// In a merged side, the latest update of a price among levels merged
/// after all others decides it: with a zero amount the price is gone, with
/// any other amount the level is listed whenever the side has room.
proof fn lemma_latest_in_side(liqs: Seq<Liq>, older: Seq<Liq>, newer: Seq<Liq>, i: int, is_asks: bool, r: Seq<Liq>)
    requires
        merged_side(liqs, older + newer, is_asks, DEPTH_LIMIT as nat, r),
        0 <= i < newer.len(),
        forall|j: int| i < j < newer.len() ==> (#[trigger] newer[j]).price != newer[i].price,
    ensures
        newer[i].amount == 0 ==> !has_price(r, newer[i].price),
        newer[i].amount != 0 && r.len() < DEPTH_LIMIT ==> exists|k: int| 0 <= k < r.len() && #[trigger] r[k] == newer[i],
{
    let all = liqs + (older + newer);
    let base = liqs.len() + older.len();
    let idx = base + i;
    let l = newer[i];
    assert(all[idx] == l);
    assert forall|j: int| idx < j < all.len() implies (#[trigger] all[j]).price != all[idx].price by {
        assert(all[j] == newer[j - base]);
    }
    law_latest_level_decides(all, idx);
    let book = book_of(all);
    if l.amount == 0 {
        if has_price(r, l.price) {
            let k = choose|k: int| 0 <= k < r.len() && (#[trigger] r[k]).price == l.price;
            assert(book.contains_key(r[k].price));
        }
    } else if r.len() < DEPTH_LIMIT {
        assert(book.contains_key(l.price));
        if !has_price(r, l.price) {
            assert(r.len() == DEPTH_LIMIT);
        }
        let k = choose|k: int| 0 <= k < r.len() && (#[trigger] r[k]).price == l.price;
        assert(book[r[k].price] == r[k].amount);
        assert(r[k] == l);
    }
}

/// Diffs are taken in arrival order: the levels of a newer diff come after
/// the levels of every older one, and no diff gives no levels.
pub proof fn law_diffs_in_arrival_order(ds: Seq<Depth>, d: Depth)
    ensures
        diffs_asks(Seq::<Depth>::empty()) == Seq::<Liq>::empty(),
        diffs_bids(Seq::<Depth>::empty()) == Seq::<Liq>::empty(),
        diffs_asks(ds.push(d)) == diffs_asks(ds) + d@.asks,
        diffs_bids(ds.push(d)) == diffs_bids(ds) + d@.bids,
{
    assert(ds.push(d).drop_last() =~= ds);
    assert(ds.push(d).last() == d);
}

/// The newest diff overrides the snapshot and every older diff: in the
/// merged order book, the latest level of a price in the newest diff decides
/// that price on its side. A zero amount takes the price out; any other
/// amount lists the level whenever the side has room.
pub proof fn law_newest_diff_decides(snapshot: DepthView, ds: Seq<Depth>, d: Depth, i: int, j: int, r: DepthView)
    requires
        merged_depth(snapshot, ds.push(d), r),
    ensures
        0 <= i < d@.asks.len() && (forall|k: int| i < k < d@.asks.len() ==> (#[trigger] d@.asks[k]).price
            != d@.asks[i].price) ==> {
            &&& d@.asks[i].amount == 0 ==> !has_price(r.asks, d@.asks[i].price)
            &&& d@.asks[i].amount != 0 && r.asks.len() < DEPTH_LIMIT ==> exists|k: int|
                0 <= k < r.asks.len() && #[trigger] r.asks[k] == d@.asks[i]
        },
        0 <= j < d@.bids.len() && (forall|k: int| j < k < d@.bids.len() ==> (#[trigger] d@.bids[k]).price
            != d@.bids[j].price) ==> {
            &&& d@.bids[j].amount == 0 ==> !has_price(r.bids, d@.bids[j].price)
            &&& d@.bids[j].amount != 0 && r.bids.len() < DEPTH_LIMIT ==> exists|k: int|
                0 <= k < r.bids.len() && #[trigger] r.bids[k] == d@.bids[j]
        },
{
    law_diffs_in_arrival_order(ds, d);
    if 0 <= i < d@.asks.len() && (forall|k: int| i < k < d@.asks.len() ==> (#[trigger] d@.asks[k]).price
        != d@.asks[i].price) {
        lemma_latest_in_side(snapshot.asks, diffs_asks(ds), d@.asks, i, true, r.asks);
    }
    if 0 <= j < d@.bids.len() && (forall|k: int| j < k < d@.bids.len() ==> (#[trigger] d@.bids[k]).price
        != d@.bids[j].price) {
        lemma_latest_in_side(snapshot.bids, diffs_bids(ds), d@.bids, j, false, r.bids);
    }
}

} // verus!
