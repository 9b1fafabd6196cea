//! Pages over an ordered key space: what one request returns, given the keys
//! that are stored, the order they are walked in, the cursor and the limit.

use vstd::prelude::*;

verus! {

/// The largest page a request can ask for.
pub const MAX_LIMIT: u32 = 30;

/// The page size of a request that names none.
pub const DEFAULT_LIMIT: u32 = 10;

/// The page size a request gets: what it asked for, or the default, brought
/// into `1..=MAX_LIMIT`.
pub open spec fn effective_limit(limit: Option<u32>) -> nat {
    let asked = match limit {
        Some(n) => n,
        None => DEFAULT_LIMIT,
    };
    if asked < 1 {
        1
    } else if asked > MAX_LIMIT {
        MAX_LIMIT as nat
    } else {
        asked as nat
    }
}

pub fn page_limit(limit: Option<u32>) -> (size: usize)
    ensures
        size == effective_limit(limit),
        1 <= size <= MAX_LIMIT,
{
    let asked = match limit {
        Some(n) => n,
        None => DEFAULT_LIMIT,
    };
    if asked < 1 {
        1
    } else if asked > MAX_LIMIT {
        MAX_LIMIT as usize
    } else {
        asked as usize
    }
}

/// Ids from low to high.
pub open spec fn ascending_ids() -> spec_fn(u64, u64) -> bool {
    |a: u64, b: u64| a < b
}

/// Ids from high to low.
pub open spec fn descending_ids() -> spec_fn(u64, u64) -> bool {
    |a: u64, b: u64| a > b
}

/// `a` comes before `b` in the order of the store's keys: character by
/// character, the lower code point first, and a proper prefix before what
/// continues it.
pub open spec fn text_before(a: Seq<char>, b: Seq<char>) -> bool
    decreases a.len(),
{
    if b.len() == 0 {
        false
    } else if a.len() == 0 {
        true
    } else if a[0] != b[0] {
        (a[0] as int) < (b[0] as int)
    } else {
        text_before(a.drop_first(), b.drop_first())
    }
}

/// Addresses in the order of the store's keys.
pub open spec fn ascending_text() -> spec_fn(Seq<char>, Seq<char>) -> bool {
    |a: Seq<char>, b: Seq<char>| text_before(a, b)
}

/// `key` lies strictly past the cursor. Without a cursor every key does.
pub open spec fn past<K>(before: spec_fn(K, K) -> bool, cursor: Option<K>, key: K) -> bool {
    match cursor {
        Some(c) => before(c, key),
        None => true,
    }
}

/// `key` is the first stored key past the cursor.
pub open spec fn is_next<K>(keys: Set<K>, before: spec_fn(K, K) -> bool, cursor: Option<K>, key: K) -> bool {
    &&& keys.contains(key)
    &&& past(before, cursor, key)
    &&& forall|other: K| #[trigger]
        keys.contains(other) && past(before, cursor, other) && other != key ==> before(key, other)
}

/// The first stored key past the cursor, if there is one.
pub open spec fn next_key<K>(keys: Set<K>, before: spec_fn(K, K) -> bool, cursor: Option<K>) -> Option<K> {
    if exists|key: K| is_next(keys, before, cursor, key) {
        Some(choose|key: K| is_next(keys, before, cursor, key))
    } else {
        None
    }
}

/// The keys of one page: starting strictly past the cursor, the stored keys in
/// order, until `limit` of them are taken or none is left.
pub open spec fn page_keys<K>(keys: Set<K>, before: spec_fn(K, K) -> bool, cursor: Option<K>, limit: nat) -> Seq<K>
    decreases limit,
{
    if limit == 0 {
        Seq::empty()
    } else {
        match next_key(keys, before, cursor) {
            Some(key) => seq![key] + page_keys(keys, before, Some(key), (limit - 1) as nat),
            None => Seq::empty(),
        }
    }
}

/// One page of entries: the keys of the page, each with what is stored under it.
pub open spec fn page<K, V>(entries: Map<K, V>, before: spec_fn(K, K) -> bool, cursor: Option<K>, limit: nat) -> Seq<(K, V)> {
    page_keys(entries.dom(), before, cursor, limit).map_values(|key: K| (key, entries[key]))
}

/// No two keys come before each other.
pub open spec fn asymmetric<K>(before: spec_fn(K, K) -> bool) -> bool {
    forall|a: K, b: K| !(#[trigger] before(a, b) && #[trigger] before(b, a))
}

/// What comes before a key comes before all that the key comes before.
pub open spec fn transitive<K>(before: spec_fn(K, K) -> bool) -> bool {
    forall|a: K, b: K, c: K| #[trigger] before(a, b) && #[trigger] before(b, c) ==> before(a, c)
}

/// Of two different keys one comes before the other.
pub open spec fn connected<K>(before: spec_fn(K, K) -> bool) -> bool {
    forall|a: K, b: K| a != b ==> #[trigger] before(a, b) || before(b, a)
}

/// The order puts any keys in one line.
pub open spec fn strict_total<K>(before: spec_fn(K, K) -> bool) -> bool {
    asymmetric(before) && transitive(before) && connected(before)
}

/// The keys of `s` follow each other in the order `before`.
pub open spec fn in_order<K>(s: Seq<K>, before: spec_fn(K, K) -> bool) -> bool {
    forall|i: int, j: int| 0 <= i < j < s.len() ==> before(#[trigger] s[i], #[trigger] s[j])
}

/// The stored keys past the cursor.
pub open spec fn keys_past<K>(keys: Set<K>, before: spec_fn(K, K) -> bool, cursor: Option<K>) -> Set<K> {
    keys.filter(|key: K| past(before, cursor, key))
}

/// Ids are in one line, from the bottom as from the top.
pub proof fn lemma_id_orders()
    ensures
        strict_total(ascending_ids()),
        strict_total(descending_ids()),
{
}

pub proof fn lemma_text_asymmetric(a: Seq<char>, b: Seq<char>)
    ensures
        !(text_before(a, b) && text_before(b, a)),
    decreases a.len(),
{
    if a.len() > 0 && b.len() > 0 && a[0] == b[0] {
        lemma_text_asymmetric(a.drop_first(), b.drop_first());
    }
}

pub proof fn lemma_text_transitive(a: Seq<char>, b: Seq<char>, c: Seq<char>)
    ensures
        text_before(a, b) && text_before(b, c) ==> text_before(a, c),
    decreases a.len(),
{
    if a.len() > 0 && b.len() > 0 && c.len() > 0 && a[0] == b[0] && b[0] == c[0] {
        lemma_text_transitive(a.drop_first(), b.drop_first(), c.drop_first());
    }
}

pub proof fn lemma_text_connected(a: Seq<char>, b: Seq<char>)
    ensures
        a != b ==> text_before(a, b) || text_before(b, a),
    decreases a.len(),
{
    if a.len() > 0 && b.len() > 0 {
        if a[0] == b[0] {
            lemma_text_connected(a.drop_first(), b.drop_first());
            if a.drop_first() =~= b.drop_first() {
                assert(a =~= seq![a[0]] + a.drop_first());
                assert(b =~= seq![b[0]] + b.drop_first());
                assert(a == b);
            } else {
                assert(text_before(a.drop_first(), b.drop_first()) || text_before(
                    b.drop_first(),
                    a.drop_first(),
                ));
            }
        } else {
            assert((a[0] as int) != (b[0] as int));
        }
    } else if a.len() == 0 && b.len() == 0 {
        assert(a =~= b);
    } else if a.len() == 0 {
        assert(text_before(a, b));
    } else {
        assert(text_before(b, a));
    }
}

/// Texts are in one line.
pub proof fn lemma_text_order()
    ensures
        strict_total(ascending_text()),
{
    let before = ascending_text();
    assert forall|a: Seq<char>, b: Seq<char>| !(#[trigger] before(a, b) && #[trigger] before(b, a)) by {
        lemma_text_asymmetric(a, b);
    }
    assert forall|a: Seq<char>, b: Seq<char>, c: Seq<char>| #[trigger]
        before(a, b) && #[trigger] before(b, c) implies before(a, c) by {
        lemma_text_transitive(a, b, c);
    }
    assert forall|a: Seq<char>, b: Seq<char>| a != b implies #[trigger] before(a, b) || before(b, a) by {
        lemma_text_connected(a, b);
    }
}

/// A finite set of keys that is not empty has a key that comes before all its
/// other keys.
pub proof fn lemma_least_key<K>(s: Set<K>, before: spec_fn(K, K) -> bool) -> (least: K)
    requires
        s.finite(),
        s.len() > 0,
        strict_total(before),
    ensures
        s.contains(least),
        forall|other: K| #[trigger] s.contains(other) && other != least ==> before(least, other),
    decreases s.len(),
{
    let x = s.choose();
    assert(s.contains(x));
    let rest = s.remove(x);
    if rest.len() == 0 {
        assert forall|other: K| #[trigger] s.contains(other) && other != x implies before(x, other) by {
            assert(rest.contains(other));
        }
        x
    } else {
        let m = lemma_least_key(rest, before);
        if before(x, m) {
            assert forall|other: K| #[trigger] s.contains(other) && other != x implies before(x, other) by {
                assert(rest.contains(other));
                if other != m {
                    assert(before(m, other));
                }
            }
            x
        } else {
            assert(rest.contains(m));
            assert(before(m, x));
            assert forall|other: K| #[trigger] s.contains(other) && other != m implies before(m, other) by {
                if other != x {
                    assert(rest.contains(other));
                }
            }
            m
        }
    }
}

/// Among finitely many keys in one line there is a first one past the cursor
/// as soon as there is any.
pub proof fn lemma_first_key<K>(keys: Set<K>, before: spec_fn(K, K) -> bool, cursor: Option<K>, witness: K)
    requires
        keys.finite(),
        strict_total(before),
        keys_past(keys, before, cursor).contains(witness),
    ensures
        next_key(keys, before, cursor) is Some,
        is_next(keys, before, cursor, next_key(keys, before, cursor)->0),
{
    let left = keys_past(keys, before, cursor);
    vstd::set_lib::lemma_set_subset_finite(keys, left);
    assert(left.len() > 0) by {
        if left.len() == 0 {
            assert(left =~= Set::empty());
        }
    }
    let least = lemma_least_key(left, before);
    assert forall|other: K| #[trigger]
        keys.contains(other) && past(before, cursor, other) && other != least implies before(
        least,
        other,
    ) by {
        assert(left.contains(other));
    }
    assert(is_next(keys, before, cursor, least));
}

/// Every key of a page is a stored key.
pub proof fn lemma_page_keys_stored<K>(keys: Set<K>, before: spec_fn(K, K) -> bool, cursor: Option<K>, limit: nat)
    ensures
        forall|i: int|
            0 <= i < page_keys(keys, before, cursor, limit).len() ==> keys.contains(
                #[trigger] page_keys(keys, before, cursor, limit)[i],
            ),
    decreases limit,
{
    if limit > 0 {
        if let Some(key) = next_key(keys, before, cursor) {
            lemma_page_keys_stored(keys, before, Some(key), (limit - 1) as nat);
            assert(is_next(keys, before, cursor, key));
            let rest = page_keys(keys, before, Some(key), (limit - 1) as nat);
            let p = page_keys(keys, before, cursor, limit);
            assert(p == seq![key] + rest);
            assert forall|i: int| 0 <= i < p.len() implies keys.contains(#[trigger] p[i]) by {
                if i > 0 {
                    assert(p[i] == rest[i - 1]);
                }
            }
        }
    }
}

/// A page holds at most `limit` keys, all of them stored and past the cursor,
/// in order.
pub proof fn lemma_page_keys_sound<K>(keys: Set<K>, before: spec_fn(K, K) -> bool, cursor: Option<K>, limit: nat)
    requires
        transitive(before),
    ensures
        page_keys(keys, before, cursor, limit).len() <= limit,
        forall|i: int|
            0 <= i < page_keys(keys, before, cursor, limit).len() ==> keys_past(keys, before, cursor).contains(
                #[trigger] page_keys(keys, before, cursor, limit)[i],
            ),
        in_order(page_keys(keys, before, cursor, limit), before),
    decreases limit,
{
    let p = page_keys(keys, before, cursor, limit);
    if limit > 0 {
        match next_key(keys, before, cursor) {
            Some(key) => {
                let rest = page_keys(keys, before, Some(key), (limit - 1) as nat);
                lemma_page_keys_sound(keys, before, Some(key), (limit - 1) as nat);
                assert(p == seq![key] + rest);
                assert(is_next(keys, before, cursor, key));
                assert forall|i: int| 0 <= i < p.len() implies keys_past(keys, before, cursor).contains(
                    #[trigger] p[i],
                ) by {
                    if i > 0 {
                        assert(p[i] == rest[i - 1]);
                        assert(keys_past(keys, before, Some(key)).contains(rest[i - 1]));
                        assert(before(key, p[i]));
                    }
                }
                assert forall|i: int, j: int| 0 <= i < j < p.len() implies before(
                    #[trigger] p[i],
                    #[trigger] p[j],
                ) by {
                    assert(p[j] == rest[j - 1]);
                    assert(keys_past(keys, before, Some(key)).contains(rest[j - 1]));
                    if i > 0 {
                        assert(p[i] == rest[i - 1]);
                    }
                }
            },
            None => {},
        }
    }
}

/// A sequence in order that holds exactly the stored keys past the cursor is
/// the page from that cursor, for every limit that does not cut it short.
pub proof fn lemma_ordered_is_page<K>(s: Seq<K>, keys: Set<K>, before: spec_fn(K, K) -> bool, cursor: Option<K>, limit: nat)
    requires
        asymmetric(before),
        transitive(before),
        in_order(s, before),
        forall|key: K| s.contains(key) <==> keys_past(keys, before, cursor).contains(key),
        limit >= s.len(),
    ensures
        page_keys(keys, before, cursor, limit) == s,
    decreases s.len(),
{
    let p = page_keys(keys, before, cursor, limit);
    if s.len() == 0 {
        if limit > 0 {
            if let Some(key) = next_key(keys, before, cursor) {
                assert(is_next(keys, before, cursor, key));
                assert(keys_past(keys, before, cursor).contains(key));
                assert(s.contains(key));
            }
        }
        assert(p =~= s);
    } else {
        let head = s[0];
        assert(s.contains(head));
        assert(keys_past(keys, before, cursor).contains(head));
        assert forall|other: K|
            #[trigger] keys.contains(other) && past(before, cursor, other) && other != head implies before(
            head,
            other,
        ) by {
            assert(keys_past(keys, before, cursor).contains(other));
            assert(s.contains(other));
            let i = choose|i: int| 0 <= i < s.len() && s[i] == other;
            assert(before(s[0], s[i]));
        }
        assert(is_next(keys, before, cursor, head));
        let key = next_key(keys, before, cursor).unwrap();
        assert(is_next(keys, before, cursor, key));
        if key != head {
            assert(before(key, head));
            assert(before(head, key));
        }
        let tail = s.drop_first();
        assert forall|k: K| tail.contains(k) <==> keys_past(keys, before, Some(head)).contains(k) by {
            if tail.contains(k) {
                let i = choose|i: int| 0 <= i < tail.len() && tail[i] == k;
                assert(s[i + 1] == k);
                assert(s.contains(k));
                assert(before(s[0], s[i + 1]));
                assert(keys_past(keys, before, cursor).contains(k));
            }
            if keys_past(keys, before, Some(head)).contains(k) {
                assert(before(head, k));
                if let Some(c) = cursor {
                    assert(before(c, head));
                    assert(before(c, k));
                }
                assert(keys_past(keys, before, cursor).contains(k));
                assert(s.contains(k));
                let i = choose|i: int| 0 <= i < s.len() && s[i] == k;
                if i == 0 {
                    assert(before(head, head));
                }
                assert(tail[i - 1] == k);
            }
        }
        assert forall|i: int, j: int| 0 <= i < j < tail.len() implies before(
            #[trigger] tail[i],
            #[trigger] tail[j],
        ) by {
            assert(before(s[i + 1], s[j + 1]));
        }
        lemma_ordered_is_page(tail, keys, before, Some(head), (limit - 1) as nat);
        assert(p == seq![head] + tail);
        assert(p =~= s);
    }
}

/// Two pages over the same keys, one walked in an order and one in its
/// opposite, that hold the same keys are each the other reversed.
pub proof fn lemma_opposite_pages<K>(
    keys: Set<K>,
    before: spec_fn(K, K) -> bool,
    after: spec_fn(K, K) -> bool,
    forward_cursor: Option<K>,
    forward_limit: nat,
    backward_cursor: Option<K>,
    backward_limit: nat,
)
    requires
        asymmetric(before),
        transitive(before),
        forall|a: K, b: K| #[trigger] after(a, b) == before(b, a),
        page_keys(keys, before, forward_cursor, forward_limit).to_set() == page_keys(
            keys,
            after,
            backward_cursor,
            backward_limit,
        ).to_set(),
    ensures
        page_keys(keys, after, backward_cursor, backward_limit) == page_keys(
            keys,
            before,
            forward_cursor,
            forward_limit,
        ).reverse(),
{
    let forward = page_keys(keys, before, forward_cursor, forward_limit);
    let backward = page_keys(keys, after, backward_cursor, backward_limit);
    let turned = backward.reverse();
    assert(transitive(after)) by {
        assert forall|a: K, b: K, c: K| #[trigger] after(a, b) && #[trigger] after(b, c) implies after(
            a,
            c,
        ) by {
            assert(before(c, b) && before(b, a));
        }
    }
    lemma_page_keys_sound(keys, before, forward_cursor, forward_limit);
    lemma_page_keys_sound(keys, after, backward_cursor, backward_limit);
    assert forall|i: int, j: int| 0 <= i < j < turned.len() implies before(
        #[trigger] turned[i],
        #[trigger] turned[j],
    ) by {
        let n = backward.len();
        assert(after(backward[n - 1 - j], backward[n - 1 - i]));
    }
    let all = forward.to_set();
    let limit = if forward.len() >= turned.len() {
        forward.len()
    } else {
        turned.len()
    };
    assert forall|key: K| forward.contains(key) <==> keys_past(all, before, None).contains(key) by {}
    assert forall|key: K| turned.contains(key) <==> keys_past(all, before, None).contains(key) by {
        if turned.contains(key) {
            let i = choose|i: int| 0 <= i < turned.len() && turned[i] == key;
            assert(backward[backward.len() - 1 - i] == key);
            assert(backward.to_set().contains(key));
        }
        if all.contains(key) {
            assert(backward.to_set().contains(key));
            let i = choose|i: int| 0 <= i < backward.len() && backward[i] == key;
            assert(turned[backward.len() - 1 - i] == key);
        }
    }
    lemma_ordered_is_page(forward, all, before, None, limit);
    lemma_ordered_is_page(turned, all, before, None, limit);
    assert(backward =~= turned.reverse());
}

/// The keys past a key of the page are the keys past the cursor without it.
proof fn lemma_keys_past_next<K>(keys: Set<K>, before: spec_fn(K, K) -> bool, cursor: Option<K>, key: K)
    requires
        transitive(before),
        asymmetric(before),
        is_next(keys, before, cursor, key),
    ensures
        keys_past(keys, before, Some(key)) == keys_past(keys, before, cursor).remove(key),
{
    let left = keys_past(keys, before, cursor);
    let left_rest = keys_past(keys, before, Some(key));
    assert forall|k: K| left_rest.contains(k) <==> left.remove(key).contains(k) by {
        if left_rest.contains(k) {
            assert(before(key, k));
            if k == key {
                assert(before(key, key) && before(key, key));
            }
            if let Some(c) = cursor {
                assert(before(c, key) && before(key, k));
            }
        }
        if left.remove(key).contains(k) {
            assert(keys.contains(k) && past(before, cursor, k) && k != key);
            assert(before(key, k));
        }
    }
    assert(left_rest =~= left.remove(key));
}

/// A page holds as many keys as the limit allows and the store has past the
/// cursor: the smaller of the two numbers.
pub proof fn lemma_page_length<K>(keys: Set<K>, before: spec_fn(K, K) -> bool, cursor: Option<K>, limit: nat)
    requires
        keys.finite(),
        strict_total(before),
    ensures
        page_keys(keys, before, cursor, limit).len() == if keys_past(keys, before, cursor).len() <= limit {
            keys_past(keys, before, cursor).len()
        } else {
            limit
        },
    decreases limit,
{
    let p = page_keys(keys, before, cursor, limit);
    let left = keys_past(keys, before, cursor);
    vstd::set_lib::lemma_set_subset_finite(keys, left);
    if limit > 0 {
        if left.len() == 0 {
            lemma_page_keys_sound(keys, before, cursor, limit);
            assert(left =~= Set::empty());
            if p.len() > 0 {
                assert(left.contains(p[0]));
            }
        } else {
            let witness = left.choose();
            lemma_first_key(keys, before, cursor, witness);
            let key = next_key(keys, before, cursor)->0;
            lemma_keys_past_next(keys, before, cursor, key);
            assert(left.contains(key));
            lemma_page_length(keys, before, Some(key), (limit - 1) as nat);
            assert(p == seq![key] + page_keys(keys, before, Some(key), (limit - 1) as nat));
        }
    }
}

/// A page whose limit is at least the number of stored keys past the cursor
/// holds each of them, once.
pub proof fn lemma_page_complete<K>(keys: Set<K>, before: spec_fn(K, K) -> bool, cursor: Option<K>, limit: nat)
    requires
        keys.finite(),
        strict_total(before),
        limit >= keys_past(keys, before, cursor).len(),
    ensures
        page_keys(keys, before, cursor, limit).len() == keys_past(keys, before, cursor).len(),
        page_keys(keys, before, cursor, limit).to_set() == keys_past(keys, before, cursor),
        page_keys(keys, before, cursor, limit).no_duplicates(),
    decreases limit,
{
    let p = page_keys(keys, before, cursor, limit);
    let left = keys_past(keys, before, cursor);
    vstd::set_lib::lemma_set_subset_finite(keys, left);
    lemma_page_keys_sound(keys, before, cursor, limit);
    assert(p.no_duplicates()) by {
        assert forall|i: int, j: int| 0 <= i < p.len() && 0 <= j < p.len() && i != j implies p[i] != p[j] by {
            if i < j {
                assert(before(p[i], p[j]));
            } else {
                assert(before(p[j], p[i]));
            }
            if p[i] == p[j] {
                assert(before(p[i], p[j]) && before(p[j], p[i]));
            }
        }
    }
    if left.len() == 0 {
        assert(left =~= Set::empty());
        assert(p.len() == 0) by {
            if p.len() > 0 {
                assert(left.contains(p[0]));
            }
        }
        assert(p.to_set() =~= left);
    } else {
        let witness = left.choose();
        assert(left.contains(witness));
        lemma_first_key(keys, before, cursor, witness);
        let key = next_key(keys, before, cursor)->0;
        let rest = page_keys(keys, before, Some(key), (limit - 1) as nat);
        let left_rest = keys_past(keys, before, Some(key));
        lemma_keys_past_next(keys, before, cursor, key);
        assert(left.contains(key));
        lemma_page_complete(keys, before, Some(key), (limit - 1) as nat);
        assert(p == seq![key] + rest);
        assert(p.to_set() =~= left) by {
            assert forall|k: K| p.to_set().contains(k) <==> left.contains(k) by {
                if p.to_set().contains(k) {
                    let i = choose|i: int| 0 <= i < p.len() && p[i] == k;
                    assert(left.contains(p[i]));
                }
                if left.contains(k) {
                    if k == key {
                        assert(p[0] == k);
                    } else {
                        assert(left_rest.contains(k));
                        assert(rest.to_set().contains(k));
                        let i = choose|i: int| 0 <= i < rest.len() && rest[i] == k;
                        assert(p[i + 1] == k);
                    }
                }
            }
        }
    }
}

/// A page leaves no gap: a stored key past the cursor that the page does not
/// hold lies past every key of the page, and the page is full.
pub proof fn lemma_page_no_gap<K>(keys: Set<K>, before: spec_fn(K, K) -> bool, cursor: Option<K>, limit: nat, left_out: K)
    requires
        keys.finite(),
        strict_total(before),
        keys_past(keys, before, cursor).contains(left_out),
        !page_keys(keys, before, cursor, limit).contains(left_out),
    ensures
        page_keys(keys, before, cursor, limit).len() == limit,
        forall|i: int|
            0 <= i < page_keys(keys, before, cursor, limit).len() ==> before(
                #[trigger] page_keys(keys, before, cursor, limit)[i],
                left_out,
            ),
    decreases limit,
{
    let p = page_keys(keys, before, cursor, limit);
    if limit > 0 {
        lemma_first_key(keys, before, cursor, left_out);
        let key = next_key(keys, before, cursor)->0;
        let rest = page_keys(keys, before, Some(key), (limit - 1) as nat);
        assert(p == seq![key] + rest);
        assert(p[0] == key);
        assert(left_out != key);
        assert(before(key, left_out));
        assert(keys_past(keys, before, Some(key)).contains(left_out));
        if rest.contains(left_out) {
            let i = choose|i: int| 0 <= i < rest.len() && rest[i] == left_out;
            assert(p[i + 1] == left_out);
        }
        lemma_page_no_gap(keys, before, Some(key), (limit - 1) as nat, left_out);
        assert forall|i: int| 0 <= i < p.len() implies before(#[trigger] p[i], left_out) by {
            if i > 0 {
                assert(p[i] == rest[i - 1]);
            }
        }
    }
}

/// The stored keys that come before `bound`.
pub open spec fn keys_short_of<K>(keys: Set<K>, before: spec_fn(K, K) -> bool, bound: K) -> Set<K> {
    keys.filter(|key: K| before(key, bound))
}

/// A page cut at a bound is the page of the store cut at that bound: the page
/// of the keys short of the bound is the start of the page of all keys, and
/// what follows it in that page is not short of the bound.
pub proof fn lemma_page_of_cut<K>(keys: Set<K>, before: spec_fn(K, K) -> bool, cursor: Option<K>, limit: nat, bound: K)
    requires
        keys.finite(),
        strict_total(before),
    ensures
        page_keys(keys_short_of(keys, before, bound), before, cursor, limit).len() <= page_keys(
            keys,
            before,
            cursor,
            limit,
        ).len(),
        forall|i: int|
            0 <= i < page_keys(keys_short_of(keys, before, bound), before, cursor, limit).len() ==> page_keys(
                keys,
                before,
                cursor,
                limit,
            )[i] == #[trigger] page_keys(keys_short_of(keys, before, bound), before, cursor, limit)[i],
        forall|i: int|
            page_keys(keys_short_of(keys, before, bound), before, cursor, limit).len() <= i < page_keys(
                keys,
                before,
                cursor,
                limit,
            ).len() ==> !before(#[trigger] page_keys(keys, before, cursor, limit)[i], bound),
    decreases limit,
{
    let cut = keys_short_of(keys, before, bound);
    let whole = page_keys(keys, before, cursor, limit);
    let part = page_keys(cut, before, cursor, limit);
    vstd::set_lib::lemma_set_subset_finite(keys, cut);
    if limit > 0 {
        match next_key(keys, before, cursor) {
            Some(key) => {
                assert(is_next(keys, before, cursor, key));
                let whole_rest = page_keys(keys, before, Some(key), (limit - 1) as nat);
                assert(whole == seq![key] + whole_rest);
                if before(key, bound) {
                    assert(cut.contains(key));
                    assert(is_next(cut, before, cursor, key));
                    let other = next_key(cut, before, cursor)->0;
                    assert(is_next(cut, before, cursor, other));
                    if other != key {
                        assert(before(key, other));
                        assert(before(other, key));
                    }
                    let part_rest = page_keys(cut, before, Some(key), (limit - 1) as nat);
                    assert(part == seq![key] + part_rest);
                    lemma_page_of_cut(keys, before, Some(key), (limit - 1) as nat, bound);
                    assert forall|i: int| 0 <= i < part.len() implies whole[i] == #[trigger] part[i] by {
                        if i > 0 {
                            assert(part[i] == part_rest[i - 1]);
                            assert(whole[i] == whole_rest[i - 1]);
                        }
                    }
                    assert forall|i: int| part.len() <= i < whole.len() implies !before(
                        #[trigger] whole[i],
                        bound,
                    ) by {
                        assert(whole[i] == whole_rest[i - 1]);
                    }
                } else {
                    if let Some(other) = next_key(cut, before, cursor) {
                        assert(is_next(cut, before, cursor, other));
                        assert(keys.contains(other) && before(other, bound));
                        if other != key {
                            assert(before(key, other));
                            assert(before(key, other) && before(other, bound));
                        }
                    }
                    assert(part =~= Seq::<K>::empty());
                    lemma_page_keys_sound(keys, before, Some(key), (limit - 1) as nat);
                    assert forall|i: int| 0 <= i < whole.len() implies !before(#[trigger] whole[i], bound) by {
                        if i > 0 {
                            assert(whole[i] == whole_rest[i - 1]);
                            assert(keys_past(keys, before, Some(key)).contains(whole_rest[i - 1]));
                            assert(before(key, whole[i]));
                            if before(whole[i], bound) {
                                assert(before(key, whole[i]) && before(whole[i], bound));
                            }
                        }
                    }
                }
            },
            None => {
                if let Some(other) = next_key(cut, before, cursor) {
                    assert(is_next(cut, before, cursor, other));
                    assert(keys_past(keys, before, cursor).contains(other));
                    lemma_first_key(keys, before, cursor, other);
                }
                assert(part =~= Seq::<K>::empty());
            },
        }
    }
}

/// Between two cursors the two directions meet the same ids: the page from
/// low to high after `low`, over the ids below `high`, is the page from high
/// to low before `high`, over the ids above `low`, reversed, as soon as the
/// limit covers the ids between the cursors.
pub proof fn lemma_pages_between(keys: Set<u64>, low: u64, high: u64, limit: nat)
    requires
        keys.finite(),
        limit >= keys.filter(|id: u64| low < id < high).len(),
    ensures
        page_keys(keys_short_of(keys, descending_ids(), low), descending_ids(), Some(high), limit) == page_keys(
            keys_short_of(keys, ascending_ids(), high),
            ascending_ids(),
            Some(low),
            limit,
        ).reverse(),
{
    let between = keys.filter(|id: u64| low < id < high);
    let below = keys_short_of(keys, ascending_ids(), high);
    let above = keys_short_of(keys, descending_ids(), low);
    lemma_id_orders();
    vstd::set_lib::lemma_set_subset_finite(keys, below);
    vstd::set_lib::lemma_set_subset_finite(keys, above);
    assert(keys_past(below, ascending_ids(), Some(low)) =~= between);
    assert(keys_past(above, descending_ids(), Some(high)) =~= between);
    let forward = page_keys(below, ascending_ids(), Some(low), limit);
    let turned = forward.reverse();
    lemma_page_complete(below, ascending_ids(), Some(low), limit);
    lemma_page_keys_sound(below, ascending_ids(), Some(low), limit);
    assert forall|i: int, j: int| 0 <= i < j < turned.len() implies descending_ids()(
        #[trigger] turned[i],
        #[trigger] turned[j],
    ) by {
        let n = forward.len();
        assert(ascending_ids()(forward[n - 1 - j], forward[n - 1 - i]));
    }
    assert forall|key: u64| turned.contains(key) <==> between.contains(key) by {
        if turned.contains(key) {
            let i = choose|i: int| 0 <= i < turned.len() && turned[i] == key;
            assert(forward[forward.len() - 1 - i] == key);
            assert(forward.to_set().contains(key));
        }
        if between.contains(key) {
            assert(forward.to_set().contains(key));
            let i = choose|i: int| 0 <= i < forward.len() && forward[i] == key;
            assert(turned[forward.len() - 1 - i] == key);
        }
    }
    lemma_ordered_is_page(turned, above, descending_ids(), Some(high), limit);
}

/// The keys met when walking at most `steps` pages of one key each, every page
/// starting after the key the page before it returned.
pub open spec fn walk_keys<K>(keys: Set<K>, before: spec_fn(K, K) -> bool, cursor: Option<K>, steps: nat) -> Seq<K>
    decreases steps,
{
    if steps == 0 {
        Seq::empty()
    } else {
        let single = page_keys(keys, before, cursor, 1);
        if single.len() == 0 {
            single
        } else {
            single + walk_keys(keys, before, Some(single.last()), (steps - 1) as nat)
        }
    }
}

/// Walking `steps` pages of one key each meets the same keys, in the same
/// order, as one page of `steps` keys.
pub proof fn lemma_walk_is_page<K>(keys: Set<K>, before: spec_fn(K, K) -> bool, cursor: Option<K>, steps: nat)
    ensures
        walk_keys(keys, before, cursor, steps) == page_keys(keys, before, cursor, steps),
    decreases steps,
{
    if steps > 0 {
        let single = page_keys(keys, before, cursor, 1);
        match next_key(keys, before, cursor) {
            Some(key) => {
                assert(page_keys(keys, before, Some(key), 0) =~= Seq::<K>::empty());
                assert(single =~= seq![key]);
                lemma_walk_is_page(keys, before, Some(key), (steps - 1) as nat);
            },
            None => {
                assert(single =~= Seq::<K>::empty());
            },
        }
    }
}

/// The entries met when walking at most `steps` pages of one entry each, every
/// page starting after the key the page before it returned.
pub open spec fn walk<K, V>(entries: Map<K, V>, before: spec_fn(K, K) -> bool, cursor: Option<K>, steps: nat) -> Seq<(K, V)>
    decreases steps,
{
    if steps == 0 {
        Seq::empty()
    } else {
        let single = page(entries, before, cursor, 1);
        if single.len() == 0 {
            single
        } else {
            single + walk(entries, before, Some(single.last().0), (steps - 1) as nat)
        }
    }
}

/// Pages of one entry each, put one after the other, are the page of as many
/// entries, in any order of any keys.
pub proof fn lemma_pages_chain<K, V>(entries: Map<K, V>, before: spec_fn(K, K) -> bool, cursor: Option<K>, steps: nat)
    ensures
        walk(entries, before, cursor, steps) == page(entries, before, cursor, steps),
    decreases steps,
{
    let keys = entries.dom();
    if steps > 0 {
        match next_key(keys, before, cursor) {
            Some(key) => {
                assert(page_keys(keys, before, Some(key), 0) =~= Seq::<K>::empty());
                assert(page_keys(keys, before, cursor, 1) =~= seq![key]);
                let single = page(entries, before, cursor, 1);
                assert(single =~= seq![(key, entries[key])]);
                assert(single.last().0 == key);
                lemma_pages_chain(entries, before, Some(key), (steps - 1) as nat);
                let rest_keys = page_keys(keys, before, Some(key), (steps - 1) as nat);
                assert(page_keys(keys, before, cursor, steps) == seq![key] + rest_keys);
                assert(page(entries, before, cursor, steps) =~= single + page(
                    entries,
                    before,
                    Some(key),
                    (steps - 1) as nat,
                ));
            },
            None => {
                assert(page_keys(keys, before, cursor, 1) =~= Seq::<K>::empty());
                assert(page(entries, before, cursor, 1) =~= Seq::<(K, V)>::empty());
                assert(page(entries, before, cursor, steps) =~= Seq::<(K, V)>::empty());
            },
        }
    } else {
        assert(page(entries, before, cursor, steps) =~= Seq::<(K, V)>::empty());
    }
}

/// A page with no cursor and a limit of at least the number of entries holds
/// every entry, once, in order.
pub proof fn lemma_whole_store_paged<K, V>(entries: Map<K, V>, before: spec_fn(K, K) -> bool, limit: nat)
    requires
        entries.dom().finite(),
        strict_total(before),
        limit >= entries.dom().len(),
    ensures
        page(entries, before, None, limit).len() == entries.dom().len(),
        forall|i: int, j: int|
            0 <= i < j < page(entries, before, None, limit).len() ==> before(
                #[trigger] page(entries, before, None, limit)[i].0,
                #[trigger] page(entries, before, None, limit)[j].0,
            ),
        forall|key: K| #[trigger]
            entries.dom().contains(key) ==> page(entries, before, None, limit).contains((key, entries[key])),
        forall|i: int|
            0 <= i < page(entries, before, None, limit).len() ==> entries.dom().contains(
                #[trigger] page(entries, before, None, limit)[i].0,
            ),
{
    let keys = entries.dom();
    let ids = page_keys(keys, before, None, limit);
    let listed = page(entries, before, None, limit);
    assert(keys_past(keys, before, None) =~= keys);
    lemma_page_complete(keys, before, None, limit);
    lemma_page_keys_sound(keys, before, None, limit);
    assert forall|i: int, j: int| 0 <= i < j < listed.len() implies before(
        #[trigger] listed[i].0,
        #[trigger] listed[j].0,
    ) by {
        assert(before(ids[i], ids[j]));
    }
    assert forall|key: K| #[trigger] entries.dom().contains(key) implies listed.contains(
        (key, entries[key]),
    ) by {
        assert(ids.to_set().contains(key));
        let i = choose|i: int| 0 <= i < ids.len() && ids[i] == key;
        assert(listed[i] == (key, entries[key]));
    }
    assert forall|i: int| 0 <= i < listed.len() implies entries.dom().contains(#[trigger] listed[i].0) by {
        assert(keys_past(keys, before, None).contains(ids[i]));
    }
}

} // verus!
