use crate::datatypes::{Client, Transaction, TransactionType};
use crate::processor::{process_spec, TransactionError};
use crate::ring_buffer::{after_pushes, find_by_id, find_from, keep_last};
use vstd::prelude::*;

verus! {

broadcast use vstd::std_specs::hash::group_hash_axioms;

/// Every account of the ledger has a total equal to its available plus held
/// funds.
pub open spec fn all_balanced(clients: Map<u16, Client>) -> bool {
    forall|k: u16| #[trigger] clients.contains_key(k) ==> clients[k].balanced()
}

/// Processing a transaction, applied or rejected, keeps every account's
/// total equal to its available plus held funds.
pub proof fn lemma_totals_stay_balanced(
    tx: Transaction,
    clients: Map<u16, Client>,
    buffer: Seq<Transaction>,
    cap: nat,
    held: Map<u32, Transaction>,
)
    requires
        all_balanced(clients),
    ensures
        all_balanced(process_spec(tx, clients, buffer, cap, held).1),
{
}

/// A rejected transaction leaves the ledger, the lookback buffer and the
/// registry of disputed transactions as they were.
pub proof fn lemma_rejection_changes_nothing(
    tx: Transaction,
    clients: Map<u16, Client>,
    buffer: Seq<Transaction>,
    cap: nat,
    held: Map<u32, Transaction>,
)
    requires
        process_spec(tx, clients, buffer, cap, held).0 is Err,
    ensures
        process_spec(tx, clients, buffer, cap, held).1 == clients,
        process_spec(tx, clients, buffer, cap, held).2 == buffer,
        process_spec(tx, clients, buffer, cap, held).3 == held,
{
}

/// Trimming to the last `cap` items before or after a push gives the same
/// result.
proof fn lemma_keep_last_push<T>(u: Seq<T>, x: T, cap: nat)
    ensures
        keep_last(keep_last(u, cap).push(x), cap) == keep_last(u.push(x), cap),
{
    assert(keep_last(keep_last(u, cap).push(x), cap) =~= keep_last(u.push(x), cap));
}

/// Pushing items one at a time into a buffer of capacity `cap` leaves the
/// last `cap` items of the old contents followed by the pushed ones.
pub proof fn lemma_after_pushes<T>(s: Seq<T>, items: Seq<T>, cap: nat)
    requires
        s.len() <= cap,
    ensures
        after_pushes(s, items, cap) == keep_last(s + items, cap),
    decreases items.len(),
{
    if items.len() == 0 {
        assert(s + items =~= s);
    } else {
        let rest = items.drop_last();
        lemma_after_pushes(s, rest, cap);
        lemma_keep_last_push(s + rest, items.last(), cap);
        assert((s + rest).push(items.last()) =~= s + items);
    }
}

/// A lookup finds the first entry with the id, from any earlier position.
proof fn lemma_find_first(s: Seq<Transaction>, i: int, k: int)
    requires
        0 <= k <= i < s.len(),
        forall|j: int| k <= j < i ==> s[j].id != s[i].id,
    ensures
        find_from(s, s[i].id, k) == Some(s[i]),
    decreases i - k,
{
    if k < i {
        lemma_find_first(s, i, k + 1);
    }
}

/// A lookup of an id that no entry from position `k` on holds finds nothing.
proof fn lemma_find_none(s: Seq<Transaction>, id: u32, k: int)
    requires
        0 <= k,
        forall|j: int| k <= j < s.len() ==> s[j].id != id,
    ensures
        find_from(s, id, k) is None,
    decreases s.len() - k,
{
    if k < s.len() {
        lemma_find_none(s, id, k + 1);
    }
}

/// Looking up an id that no entry of the buffer holds finds nothing.
pub proof fn lemma_lookup_absent(s: Seq<Transaction>, id: u32)
    requires
        forall|j: int| 0 <= j < s.len() ==> s[j].id != id,
    ensures
        find_by_id(s, id) is None,
{
    lemma_find_none(s, id, 0);
}

/// Looking up the id of an entry that no other entry shares returns that
/// entry.
pub proof fn lemma_lookup_unique(s: Seq<Transaction>, i: int)
    requires
        0 <= i < s.len(),
        forall|j: int| 0 <= j < s.len() && j != i ==> s[j].id != s[i].id,
    ensures
        find_by_id(s, s[i].id) == Some(s[i]),
{
    lemma_find_first(s, i, 0);
}

/// Once `t` is pushed into a buffer of capacity `cap`, looking up its id
/// returns `t` until it is evicted, that is while fewer than `cap` items have
/// been pushed after it, provided no other item held or pushed shares its id.
pub proof fn lemma_lookup_until_evicted(
    s: Seq<Transaction>,
    t: Transaction,
    later: Seq<Transaction>,
    cap: nat,
)
    requires
        s.len() <= cap,
        later.len() < cap,
        forall|j: int| 0 <= j < s.len() ==> s[j].id != t.id,
        forall|j: int| 0 <= j < later.len() ==> later[j].id != t.id,
    ensures
        find_by_id(after_pushes(s, seq![t] + later, cap), t.id) == Some(t),
{
    let all = s + (seq![t] + later);
    lemma_after_pushes(s, seq![t] + later, cap);
    let kept = keep_last(all, cap);
    let start: int = all.len() - kept.len();
    let i: int = s.len() - start;
    assert(kept =~= all.subrange(start, all.len() as int));
    assert(kept[i] == t);
    assert forall|j: int| 0 <= j < kept.len() && j != i implies kept[j].id != t.id by {
        let p = start + j;
        if p < s.len() {
            assert(kept[j] == s[p]);
        } else {
            assert(kept[j] == later[p - s.len() - 1]);
        }
    }
    lemma_lookup_unique(kept, i);
}

/// Pushing `cap + k` items into an empty buffer of capacity `cap` leaves
/// exactly the last `cap` of them. When their ids are distinct, each of the
/// last `cap` is found by its id and none of the first `k` is.
pub proof fn lemma_eviction_order(items: Seq<Transaction>, cap: nat, k: nat)
    requires
        items.len() == cap + k,
    ensures
        after_pushes(Seq::empty(), items, cap) == items.subrange(k as int, items.len() as int),
        (forall|i: int, j: int|
            0 <= i < j < items.len() ==> items[i].id != items[j].id) ==> {
            &&& forall|i: int|
                k <= i < items.len() ==> find_by_id(
                    #[trigger] after_pushes(Seq::empty(), items, cap),
                    items[i].id,
                ) == Some(items[i])
            &&& forall|i: int|
                0 <= i < k ==> find_by_id(
                    #[trigger] after_pushes(Seq::empty(), items, cap),
                    items[i].id,
                ) is None
        },
{
    let kept = items.subrange(k as int, items.len() as int);
    lemma_after_pushes(Seq::empty(), items, cap);
    assert(Seq::<Transaction>::empty() + items =~= items);
    assert(keep_last(items, cap) =~= kept);
    if forall|i: int, j: int| 0 <= i < j < items.len() ==> items[i].id != items[j].id {
        assert forall|i: int| k <= i < items.len() implies find_by_id(kept, items[i].id) == Some(
            items[i],
        ) by {
            assert(kept[i - k] == items[i]);
            assert forall|j: int| 0 <= j < kept.len() && j != i - k implies (#[trigger] kept[j]).id
                != kept[i - k].id by {
                assert(kept[j] == items[j + k]);
            }
            lemma_lookup_unique(kept, i - k);
        }
        assert forall|i: int| 0 <= i < k implies find_by_id(kept, items[i].id) is None by {
            assert forall|j: int| 0 <= j < kept.len() implies kept[j].id != items[i].id by {
                assert(kept[j] == items[j + k]);
            }
            lemma_lookup_absent(kept, items[i].id);
        }
    }
}

/// A dispute of an id that the lookback buffer does not hold (never pushed,
/// or evicted) fails with `UnknownTransaction` and changes nothing.
pub proof fn lemma_dispute_of_unknown_id(
    tx: Transaction,
    clients: Map<u16, Client>,
    buffer: Seq<Transaction>,
    cap: nat,
    held: Map<u32, Transaction>,
)
    requires
        tx.tx_type == TransactionType::Dispute,
        forall|j: int| 0 <= j < buffer.len() ==> buffer[j].id != tx.id,
    ensures
        process_spec(tx, clients, buffer, cap, held) == (
            Err::<(), TransactionError>(TransactionError::UnknownTransaction),
            clients,
            buffer,
            held,
        ),
{
    lemma_lookup_absent(buffer, tx.id);
}

} // verus!
