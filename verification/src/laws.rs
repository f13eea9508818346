//! The store's batch laws: re-importing a batch updates in place with the
//! batch's values winning and row ids unchanged; a batch of only new
//! identifiers grows the store by exactly its size; imports applied in either
//! order leave a well-formed store over the same identifier set.

use vstd::prelude::*;
use crate::models::{NodeRecordV, node_record_wf};
use crate::store::{
    NodeStoreV, has_key, key_index, new_row, spec_apply_batch, spec_upsert, store_wf, updated_row,
    lemma_apply_batch_wf, lemma_upsert_wf,
};

verus! {

/// True when some record of the batch carries the given identifier.
pub open spec fn batch_has_key(recs: Seq<NodeRecordV>, k: Seq<char>) -> bool {
    exists|i: int| 0 <= i < recs.len() && recs[i].public_key == k
}

/// The index of the last record of the batch carrying the given identifier,
/// or a negative value if none does.
pub open spec fn last_occurrence(recs: Seq<NodeRecordV>, k: Seq<char>) -> int
    decreases recs.len(),
{
    if recs.len() == 0 {
        -1
    } else {
        let rest = last_occurrence(recs.drop_first(), k);
        if rest >= 0 {
            rest + 1
        } else if recs[0].public_key == k {
            0
        } else {
            -1
        }
    }
}

/// The last occurrence exists exactly when the batch carries the identifier,
/// and it indexes a record carrying it.
pub proof fn lemma_last_occurrence(recs: Seq<NodeRecordV>, k: Seq<char>)
    ensures
        last_occurrence(recs, k) >= 0 <==> batch_has_key(recs, k),
        last_occurrence(recs, k) >= 0 ==> last_occurrence(recs, k) < recs.len() && recs[
            last_occurrence(recs, k)
        ].public_key == k,
    decreases recs.len(),
{
    if recs.len() == 0 {
    } else {
        lemma_last_occurrence(recs.drop_first(), k);
        let rest = last_occurrence(recs.drop_first(), k);
        if rest >= 0 {
            assert(recs.drop_first()[rest] == recs[rest + 1]);
            assert(batch_has_key(recs, k)) by {
                assert(recs[rest + 1].public_key == k);
            }
        } else if recs[0].public_key == k {
            assert(batch_has_key(recs, k));
        } else {
            if batch_has_key(recs, k) {
                let w = choose|i: int| 0 <= i < recs.len() && recs[i].public_key == k;
                assert(w != 0);
                assert(recs.drop_first()[w - 1] == recs[w]);
                assert(batch_has_key(recs.drop_first(), k));
            }
        }
    }
}

/// One upsert leaves exactly the old identifiers plus the record's.
pub proof fn lemma_upsert_keys(s: NodeStoreV, r: NodeRecordV, now: Seq<char>)
    requires
        store_wf(s),
    ensures
        forall|k: Seq<char>|
            has_key(spec_upsert(s, r, now).rows, k) <==> (has_key(s.rows, k) || k
                == r.public_key),
{
    let s2 = spec_upsert(s, r, now);
    if has_key(s.rows, r.public_key) {
        let i = key_index(s.rows, r.public_key);
        assert(0 <= i < s.rows.len() && s.rows[i].public_key == r.public_key);
        assert(s2.rows.len() == s.rows.len());
        assert forall|k: Seq<char>|
            has_key(s2.rows, k) <==> (has_key(s.rows, k) || k == r.public_key) by {
            assert(forall|j: int|
                0 <= j < s.rows.len() ==> (#[trigger] s2.rows[j]).public_key
                    == s.rows[j].public_key);
            if has_key(s2.rows, k) {
                let w = choose|w: int| 0 <= w < s2.rows.len() && s2.rows[w].public_key == k;
                assert(s.rows[w].public_key == k);
            }
            if has_key(s.rows, k) {
                let w = choose|w: int| 0 <= w < s.rows.len() && s.rows[w].public_key == k;
                assert(s2.rows[w].public_key == k);
            }
            if k == r.public_key {
                assert(s2.rows[i].public_key == k);
            }
        }
    } else {
        assert forall|k: Seq<char>|
            has_key(s2.rows, k) <==> (has_key(s.rows, k) || k == r.public_key) by {
            assert(s2.rows[s.rows.len() as int].public_key == r.public_key);
            if has_key(s2.rows, k) {
                let w = choose|w: int| 0 <= w < s2.rows.len() && s2.rows[w].public_key == k;
                if w < s.rows.len() {
                    assert(s.rows[w].public_key == k);
                }
            }
            if has_key(s.rows, k) {
                let w = choose|w: int| 0 <= w < s.rows.len() && s.rows[w].public_key == k;
                assert(s2.rows[w].public_key == k);
            }
        }
    }
}

/// A batch leaves exactly the old identifiers plus the batch's.
pub proof fn lemma_apply_batch_keys(s: NodeStoreV, recs: Seq<NodeRecordV>, now: Seq<char>)
    requires
        store_wf(s),
        forall|i: int| 0 <= i < recs.len() ==> node_record_wf(#[trigger] recs[i]),
    ensures
        forall|k: Seq<char>|
            #[trigger] has_key(spec_apply_batch(s, recs, now).rows, k) <==> (has_key(s.rows, k)
                || batch_has_key(recs, k)),
    decreases recs.len(),
{
    if recs.len() == 0 {
        assert(spec_apply_batch(s, recs, now) == s);
        assert(forall|k: Seq<char>| !batch_has_key(recs, k));
    } else {
        lemma_upsert_keys(s, recs[0], now);
        lemma_upsert_wf(s, recs[0], now);
        let s1 = spec_upsert(s, recs[0], now);
        assert forall|i: int|
            0 <= i < recs.drop_first().len() implies node_record_wf(
            #[trigger] recs.drop_first()[i],
        ) by {
            assert(recs.drop_first()[i] == recs[i + 1]);
        }
        lemma_apply_batch_keys(s1, recs.drop_first(), now);
        assert(spec_apply_batch(s, recs, now) == spec_apply_batch(s1, recs.drop_first(), now));
        assert forall|k: Seq<char>|
            batch_has_key(recs, k) <==> (recs[0].public_key == k || batch_has_key(
                recs.drop_first(),
                k,
            )) by {
            if batch_has_key(recs, k) {
                let w = choose|i: int| 0 <= i < recs.len() && recs[i].public_key == k;
                if w > 0 {
                    assert(recs.drop_first()[w - 1] == recs[w]);
                    assert(batch_has_key(recs.drop_first(), k));
                }
            }
            if batch_has_key(recs.drop_first(), k) {
                let w = choose|i: int|
                    0 <= i < recs.drop_first().len() && recs.drop_first()[i].public_key == k;
                assert(recs.drop_first()[w] == recs[w + 1]);
                assert(batch_has_key(recs, k));
            }
            if recs[0].public_key == k {
                assert(batch_has_key(recs, k));
            }
        }
        assert forall|k: Seq<char>|
            has_key(spec_apply_batch(s, recs, now).rows, k) <==> (has_key(s.rows, k)
                || batch_has_key(recs, k)) by {
            assert(has_key(spec_apply_batch(s1, recs.drop_first(), now).rows, k) <==> (has_key(
                s1.rows,
                k,
            ) || batch_has_key(recs.drop_first(), k)));
            assert(has_key(s1.rows, k) <==> (has_key(s.rows, k) || k == recs[0].public_key));
        }
    }
}

/// When every identifier of the batch is already stored, the batch only
/// updates: the row count, the next id, and every row's identifier, id and
/// first-seen are untouched; a row whose identifier the batch carries ends
/// with the values of the batch's last record for it, and any other row is
/// untouched.
pub proof fn lemma_apply_batch_updates_only(t: NodeStoreV, recs: Seq<NodeRecordV>, now: Seq<char>)
    requires
        store_wf(t),
        forall|i: int| 0 <= i < recs.len() ==> node_record_wf(#[trigger] recs[i]),
        forall|i: int| 0 <= i < recs.len() ==> has_key(t.rows, (#[trigger] recs[i]).public_key),
    ensures
        spec_apply_batch(t, recs, now).next_id == t.next_id,
        spec_apply_batch(t, recs, now).rows.len() == t.rows.len(),
        forall|i: int|
            0 <= i < t.rows.len() ==> {
                let l = last_occurrence(recs, t.rows[i].public_key);
                &&& (l >= 0 ==> #[trigger] spec_apply_batch(t, recs, now).rows[i] == updated_row(
                    t.rows[i],
                    recs[l],
                    now,
                ))
                &&& (l < 0 ==> spec_apply_batch(t, recs, now).rows[i] == t.rows[i])
            },
    decreases recs.len(),
{
    let s2 = spec_apply_batch(t, recs, now);
    if recs.len() == 0 {
    } else {
        let r0 = recs[0];
        assert(has_key(t.rows, r0.public_key));
        let i0 = key_index(t.rows, r0.public_key);
        assert(0 <= i0 < t.rows.len() && t.rows[i0].public_key == r0.public_key);
        let t1 = spec_upsert(t, r0, now);
        assert(t1.rows == t.rows.update(i0, updated_row(t.rows[i0], r0, now)));
        lemma_upsert_wf(t, r0, now);
        lemma_upsert_keys(t, r0, now);
        assert forall|i: int|
            0 <= i < recs.drop_first().len() implies has_key(
            t1.rows,
            (#[trigger] recs.drop_first()[i]).public_key,
        ) by {
            assert(recs.drop_first()[i] == recs[i + 1]);
            assert(has_key(t.rows, recs[i + 1].public_key));
        }
        lemma_apply_batch_updates_only(t1, recs.drop_first(), now);
        assert forall|i: int|
            0 <= i < t.rows.len() implies {
            let l = last_occurrence(recs, t.rows[i].public_key);
            &&& (l >= 0 ==> #[trigger] s2.rows[i] == updated_row(t.rows[i], recs[l], now))
            &&& (l < 0 ==> s2.rows[i] == t.rows[i])
        } by {
            let k = t.rows[i].public_key;
            assert(t1.rows[i].public_key == k);
            assert(t1.rows[i].id == t.rows[i].id);
            assert(t1.rows[i].first_seen == t.rows[i].first_seen);
            let rest = last_occurrence(recs.drop_first(), k);
            lemma_last_occurrence(recs.drop_first(), k);
            if rest >= 0 {
                assert(recs.drop_first()[rest] == recs[rest + 1]);
                assert(s2.rows[i] == updated_row(t1.rows[i], recs[rest + 1], now));
                if i == i0 {
                    assert(t1.rows[i] == updated_row(t.rows[i], r0, now));
                    assert(updated_row(updated_row(t.rows[i], r0, now), recs[rest + 1], now)
                        == updated_row(t.rows[i], recs[rest + 1], now));
                } else {
                    assert(t1.rows[i] == t.rows[i]);
                }
            } else {
                assert(s2.rows[i] == t1.rows[i]);
                if i == i0 {
                    assert(last_occurrence(recs, k) == 0);
                    assert(t1.rows[i] == updated_row(t.rows[i], recs[0], now));
                } else {
                    assert(t1.rows[i] == t.rows[i]);
                    if k == r0.public_key {
                        assert(t.rows[i].public_key == t.rows[i0].public_key);
                        assert(i == i0);
                    }
                    assert(last_occurrence(recs, k) < 0);
                }
            }
        }
    }
}

/// Whatever a batch does elsewhere, a row already stored keeps its position,
/// identifier, id and first-seen; if the batch carries its identifier, the
/// row ends with the values of the batch's last record for it, and otherwise
/// it is untouched.
pub proof fn lemma_apply_batch_existing_rows(t: NodeStoreV, recs: Seq<NodeRecordV>, now: Seq<char>)
    requires
        store_wf(t),
        forall|i: int| 0 <= i < recs.len() ==> node_record_wf(#[trigger] recs[i]),
    ensures
        spec_apply_batch(t, recs, now).rows.len() >= t.rows.len(),
        forall|i: int|
            0 <= i < t.rows.len() ==> {
                let l = last_occurrence(recs, t.rows[i].public_key);
                &&& (l >= 0 ==> #[trigger] spec_apply_batch(t, recs, now).rows[i] == updated_row(
                    t.rows[i],
                    recs[l],
                    now,
                ))
                &&& (l < 0 ==> spec_apply_batch(t, recs, now).rows[i] == t.rows[i])
            },
    decreases recs.len(),
{
    let s2 = spec_apply_batch(t, recs, now);
    if recs.len() == 0 {
    } else {
        let r0 = recs[0];
        let t1 = spec_upsert(t, r0, now);
        lemma_upsert_wf(t, r0, now);
        assert forall|i: int|
            0 <= i < recs.drop_first().len() implies node_record_wf(
            #[trigger] recs.drop_first()[i],
        ) by {
            assert(recs.drop_first()[i] == recs[i + 1]);
        }
        lemma_apply_batch_existing_rows(t1, recs.drop_first(), now);
        assert(t1.rows.len() >= t.rows.len());
        assert forall|i: int|
            0 <= i < t.rows.len() implies {
            let l = last_occurrence(recs, t.rows[i].public_key);
            &&& (l >= 0 ==> #[trigger] s2.rows[i] == updated_row(t.rows[i], recs[l], now))
            &&& (l < 0 ==> s2.rows[i] == t.rows[i])
        } by {
            let k = t.rows[i].public_key;
            if has_key(t.rows, r0.public_key) {
                let i0 = key_index(t.rows, r0.public_key);
                assert(0 <= i0 < t.rows.len() && t.rows[i0].public_key == r0.public_key);
                assert(t1.rows[i].public_key == k);
                let rest = last_occurrence(recs.drop_first(), k);
                lemma_last_occurrence(recs.drop_first(), k);
                if rest >= 0 {
                    assert(recs.drop_first()[rest] == recs[rest + 1]);
                    assert(s2.rows[i] == updated_row(t1.rows[i], recs[rest + 1], now));
                    if i == i0 {
                        assert(t1.rows[i] == updated_row(t.rows[i], r0, now));
                        assert(updated_row(updated_row(t.rows[i], r0, now), recs[rest + 1], now)
                            == updated_row(t.rows[i], recs[rest + 1], now));
                    } else {
                        assert(t1.rows[i] == t.rows[i]);
                    }
                } else {
                    assert(s2.rows[i] == t1.rows[i]);
                    if i == i0 {
                        assert(last_occurrence(recs, k) == 0);
                        assert(t1.rows[i] == updated_row(t.rows[i], recs[0], now));
                    } else {
                        assert(t1.rows[i] == t.rows[i]);
                        if k == r0.public_key {
                            assert(t.rows[i].public_key == t.rows[i0].public_key);
                            assert(i == i0);
                        }
                        assert(last_occurrence(recs, k) < 0);
                    }
                }
            } else {
                assert(t1.rows == t.rows.push(new_row(t.next_id, r0, now)));
                assert(t1.rows[i] == t.rows[i]);
                assert(k != r0.public_key) by {
                    if k == r0.public_key {
                        assert(has_key(t.rows, r0.public_key));
                    }
                }
                let rest = last_occurrence(recs.drop_first(), k);
                lemma_last_occurrence(recs.drop_first(), k);
                if rest >= 0 {
                    assert(recs.drop_first()[rest] == recs[rest + 1]);
                    assert(s2.rows[i] == updated_row(t1.rows[i], recs[rest + 1], now));
                    assert(last_occurrence(recs, k) == rest + 1);
                } else {
                    assert(s2.rows[i] == t1.rows[i]);
                    assert(last_occurrence(recs, k) < 0);
                }
            }
        }
    }
}

/// Importing the same batch twice: the second import finds every identifier
/// already stored, so it leaves exactly one row per identifier, keeps every
/// row id, and overwrites each stored row that the batch touches with the
/// batch's values for it (the batch's last record for that identifier
/// winning), stamped with the second import's timestamp.
pub proof fn lemma_reimport_second_wins(
    s: NodeStoreV,
    recs: Seq<NodeRecordV>,
    now1: Seq<char>,
    now2: Seq<char>,
)
    requires
        store_wf(s),
        forall|i: int| 0 <= i < recs.len() ==> node_record_wf(#[trigger] recs[i]),
    ensures
        ({
            let s1 = spec_apply_batch(s, recs, now1);
            let s2 = spec_apply_batch(s1, recs, now2);
            &&& store_wf(s1)
            &&& store_wf(s2)
            &&& s2.rows.len() == s1.rows.len()
            &&& s2.next_id == s1.next_id
            &&& forall|i: int|
                0 <= i < s1.rows.len() ==> {
                    let l = last_occurrence(recs, s1.rows[i].public_key);
                    &&& (#[trigger] s2.rows[i]).id == s1.rows[i].id
                    &&& s2.rows[i].public_key == s1.rows[i].public_key
                    &&& (l >= 0 ==> s2.rows[i] == updated_row(s1.rows[i], recs[l], now2))
                    &&& (l < 0 ==> s2.rows[i] == s1.rows[i])
                }
        }),
{
    let s1 = spec_apply_batch(s, recs, now1);
    lemma_apply_batch_wf(s, recs, now1);
    lemma_apply_batch_keys(s, recs, now1);
    assert forall|i: int|
        0 <= i < recs.len() implies has_key(s1.rows, (#[trigger] recs[i]).public_key) by {
        assert(batch_has_key(recs, recs[i].public_key));
    }
    lemma_apply_batch_updates_only(s1, recs, now2);
    lemma_apply_batch_wf(s1, recs, now2);
}

/// Importing a batch of only new, distinct identifiers grows the stored row
/// count by exactly the batch size.
pub proof fn lemma_additive_import(s: NodeStoreV, recs: Seq<NodeRecordV>, now: Seq<char>)
    requires
        store_wf(s),
        forall|i: int| 0 <= i < recs.len() ==> node_record_wf(#[trigger] recs[i]),
        forall|i: int| 0 <= i < recs.len() ==> !has_key(s.rows, (#[trigger] recs[i]).public_key),
        forall|i: int, j: int|
            0 <= i < j < recs.len() ==> recs[i].public_key != recs[j].public_key,
    ensures
        spec_apply_batch(s, recs, now).rows.len() == s.rows.len() + recs.len(),
        store_wf(spec_apply_batch(s, recs, now)),
    decreases recs.len(),
{
    lemma_apply_batch_wf(s, recs, now);
    if recs.len() == 0 {
    } else {
        let r0 = recs[0];
        assert(!has_key(s.rows, r0.public_key));
        let t1 = spec_upsert(s, r0, now);
        assert(t1.rows.len() == s.rows.len() + 1);
        lemma_upsert_wf(s, r0, now);
        lemma_upsert_keys(s, r0, now);
        assert forall|i: int|
            0 <= i < recs.drop_first().len() implies !has_key(
            t1.rows,
            (#[trigger] recs.drop_first()[i]).public_key,
        ) by {
            assert(recs.drop_first()[i] == recs[i + 1]);
            assert(!has_key(s.rows, recs[i + 1].public_key));
            assert(recs[i + 1].public_key != r0.public_key);
        }
        assert forall|i: int, j: int|
            0 <= i < j < recs.drop_first().len() implies (#[trigger] recs.drop_first()[i]).public_key
            != (#[trigger] recs.drop_first()[j]).public_key by {
            assert(recs.drop_first()[i] == recs[i + 1]);
            assert(recs.drop_first()[j] == recs[j + 1]);
        }
        lemma_additive_import(t1, recs.drop_first(), now);
    }
}

/// Two imports of (possibly overlapping) batches, applied in either order,
/// both end in a well-formed store — one row per identifier — over the same
/// identifier set: the old identifiers plus those of both batches. And the
/// batch applied last wins: every row standing after the first import whose
/// identifier the second batch carries ends with the second batch's values
/// for it.
pub proof fn lemma_concurrent_convergence(
    s: NodeStoreV,
    b1: Seq<NodeRecordV>,
    b2: Seq<NodeRecordV>,
    now1: Seq<char>,
    now2: Seq<char>,
)
    requires
        store_wf(s),
        forall|i: int| 0 <= i < b1.len() ==> node_record_wf(#[trigger] b1[i]),
        forall|i: int| 0 <= i < b2.len() ==> node_record_wf(#[trigger] b2[i]),
    ensures
        ({
            let t12 = spec_apply_batch(spec_apply_batch(s, b1, now1), b2, now2);
            let t21 = spec_apply_batch(spec_apply_batch(s, b2, now2), b1, now1);
            &&& store_wf(t12)
            &&& store_wf(t21)
            &&& forall|k: Seq<char>|
                #[trigger] has_key(t12.rows, k) <==> (has_key(s.rows, k) || batch_has_key(b1, k)
                    || batch_has_key(b2, k))
            &&& forall|k: Seq<char>|
                #[trigger] has_key(t21.rows, k) <==> (has_key(s.rows, k) || batch_has_key(b1, k)
                    || batch_has_key(b2, k))
            &&& forall|i: int|
                0 <= i < spec_apply_batch(s, b1, now1).rows.len() ==> {
                    let row = #[trigger] spec_apply_batch(s, b1, now1).rows[i];
                    let l = last_occurrence(b2, row.public_key);
                    l >= 0 ==> t12.rows[i] == updated_row(row, b2[l], now2)
                }
            &&& forall|i: int|
                0 <= i < spec_apply_batch(s, b2, now2).rows.len() ==> {
                    let row = #[trigger] spec_apply_batch(s, b2, now2).rows[i];
                    let l = last_occurrence(b1, row.public_key);
                    l >= 0 ==> t21.rows[i] == updated_row(row, b1[l], now1)
                }
        }),
{
    let s1 = spec_apply_batch(s, b1, now1);
    lemma_apply_batch_wf(s, b1, now1);
    lemma_apply_batch_keys(s, b1, now1);
    lemma_apply_batch_wf(s1, b2, now2);
    lemma_apply_batch_keys(s1, b2, now2);
    lemma_apply_batch_existing_rows(s1, b2, now2);
    let s2 = spec_apply_batch(s, b2, now2);
    lemma_apply_batch_wf(s, b2, now2);
    lemma_apply_batch_keys(s, b2, now2);
    lemma_apply_batch_wf(s2, b1, now1);
    lemma_apply_batch_keys(s2, b1, now1);
    lemma_apply_batch_existing_rows(s2, b1, now1);
}

} // verus!
