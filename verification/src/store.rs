//! The node store: an identifier-keyed table of rows with an atomic batch
//! upsert and an ordered read. The store is the model of the persisted
//! table; its contracts pin exactly what a batch import does to it.

use vstd::prelude::*;
use vstd::multiset::Multiset;
use crate::models::{
    DbNodeForApiResponse, DbRowV, ImportError, NodeRecord, NodeRecordV, StoredNode, StoredNodeV,
    node_record_wf,
};

verus! {

/// Mathematical view of the whole store: the rows in underlying row order,
/// and the next surrogate row id to assign.
#[verifier::ext_equal]
pub ghost struct NodeStoreV {
    pub rows: Seq<StoredNodeV>,
    pub next_id: int,
}

/// True when some row holds the given identifier.
pub open spec fn has_key(rows: Seq<StoredNodeV>, key: Seq<char>) -> bool {
    exists|i: int| 0 <= i < rows.len() && rows[i].public_key == key
}

/// The index of the row holding the given identifier (unique when the store
/// is well formed).
pub open spec fn key_index(rows: Seq<StoredNodeV>, key: Seq<char>) -> int {
    choose|i: int| 0 <= i < rows.len() && rows[i].public_key == key
}

/// Every identifier appears in at most one row.
pub open spec fn keys_unique(rows: Seq<StoredNodeV>) -> bool {
    forall|i: int, j: int|
        0 <= i < j < rows.len() ==> rows[i].public_key != rows[j].public_key
}

/// Well-formedness of a store: identifiers unique, row ids strictly
/// increasing in row order and below the next id to assign, counted fields
/// non-negative.
pub open spec fn store_wf(s: NodeStoreV) -> bool {
    &&& keys_unique(s.rows)
    &&& (forall|i: int, j: int| 0 <= i < j < s.rows.len() ==> s.rows[i].id < s.rows[j].id)
    &&& (forall|i: int| 0 <= i < s.rows.len() ==> s.rows[i].id < s.next_id)
    &&& (forall|i: int|
        0 <= i < s.rows.len() ==> s.rows[i].capacity >= 0 && s.rows[i].channels >= 0)
}

/// The row that an update leaves behind: identifier, row id and first-seen
/// are untouched; every other field, and the import timestamp, come from the
/// incoming record.
pub open spec fn updated_row(old_row: StoredNodeV, r: NodeRecordV, now: Seq<char>) -> StoredNodeV {
    StoredNodeV {
        id: old_row.id,
        public_key: old_row.public_key,
        alias: r.alias,
        channels: r.channels,
        capacity: r.capacity,
        first_seen: old_row.first_seen,
        updated_at: r.updated_at,
        city: r.city,
        country: r.country,
        imported_at: now,
    }
}

/// The row that an insert creates.
pub open spec fn new_row(id: int, r: NodeRecordV, now: Seq<char>) -> StoredNodeV {
    StoredNodeV {
        id: id,
        public_key: r.public_key,
        alias: r.alias,
        channels: r.channels,
        capacity: r.capacity,
        first_seen: r.first_seen,
        updated_at: r.updated_at,
        city: r.city,
        country: r.country,
        imported_at: now,
    }
}

/// One upsert, matched by identifier: update in place if present, else
/// append a new row with the next id.
pub open spec fn spec_upsert(s: NodeStoreV, r: NodeRecordV, now: Seq<char>) -> NodeStoreV {
    if has_key(s.rows, r.public_key) {
        let i = key_index(s.rows, r.public_key);
        NodeStoreV { rows: s.rows.update(i, updated_row(s.rows[i], r, now)), next_id: s.next_id }
    } else {
        NodeStoreV {
            rows: s.rows.push(new_row(s.next_id, r, now)),
            next_id: s.next_id + 1,
        }
    }
}

/// A whole batch applied in order, first record first.
pub open spec fn spec_apply_batch(
    s: NodeStoreV,
    recs: Seq<NodeRecordV>,
    now: Seq<char>,
) -> NodeStoreV
    decreases recs.len(),
{
    if recs.len() == 0 {
        s
    } else {
        spec_apply_batch(spec_upsert(s, recs[0], now), recs.drop_first(), now)
    }
}

/// The views of a batch of records.
pub open spec fn batch_view(recs: Seq<NodeRecord>) -> Seq<NodeRecordV> {
    recs.map_values(|r: NodeRecord| r@)
}

/// Applying a batch extended by one record is applying the batch, then
/// upserting that record.
pub proof fn lemma_apply_batch_snoc(
    s: NodeStoreV,
    recs: Seq<NodeRecordV>,
    r: NodeRecordV,
    now: Seq<char>,
)
    ensures
        spec_apply_batch(s, recs.push(r), now) == spec_upsert(spec_apply_batch(s, recs, now), r, now),
    decreases recs.len(),
{
    if recs.len() == 0 {
        assert(recs.push(r)[0] == r);
        assert(recs.push(r).drop_first() =~= Seq::<NodeRecordV>::empty());
        assert(spec_apply_batch(s, recs.push(r), now) == spec_apply_batch(
            spec_upsert(s, r, now),
            Seq::<NodeRecordV>::empty(),
            now,
        ));
        assert(spec_apply_batch(spec_upsert(s, r, now), Seq::<NodeRecordV>::empty(), now)
            == spec_upsert(s, r, now));
        assert(spec_apply_batch(s, recs, now) == s);
    } else {
        assert(recs.push(r)[0] == recs[0]);
        assert(recs.push(r).drop_first() =~= recs.drop_first().push(r));
        assert(spec_apply_batch(s, recs.push(r), now) == spec_apply_batch(
            spec_upsert(s, recs[0], now),
            recs.drop_first().push(r),
            now,
        ));
        lemma_apply_batch_snoc(spec_upsert(s, recs[0], now), recs.drop_first(), r, now);
        assert(spec_apply_batch(s, recs, now) == spec_apply_batch(
            spec_upsert(s, recs[0], now),
            recs.drop_first(),
            now,
        ));
    }
}

/// One upsert of a well-formed record preserves store well-formedness.
pub proof fn lemma_upsert_wf(s: NodeStoreV, r: NodeRecordV, now: Seq<char>)
    requires
        store_wf(s),
        node_record_wf(r),
    ensures
        store_wf(spec_upsert(s, r, now)),
        spec_upsert(s, r, now).next_id <= s.next_id + 1,
        spec_upsert(s, r, now).next_id >= s.next_id,
        spec_upsert(s, r, now).rows.len() >= s.rows.len(),
{
    let s2 = spec_upsert(s, r, now);
    if has_key(s.rows, r.public_key) {
        let i = key_index(s.rows, r.public_key);
        assert(0 <= i < s.rows.len() && s.rows[i].public_key == r.public_key);
        assert forall|a: int, b: int|
            0 <= a < b < s2.rows.len() implies s2.rows[a].public_key != s2.rows[b].public_key by {
            assert(s.rows[a].public_key != s.rows[b].public_key);
        }
    } else {
    }
}

/// A batch of well-formed records preserves store well-formedness, and
/// advances the next id by at most the batch size.
pub proof fn lemma_apply_batch_wf(s: NodeStoreV, recs: Seq<NodeRecordV>, now: Seq<char>)
    requires
        store_wf(s),
        forall|i: int| 0 <= i < recs.len() ==> node_record_wf(#[trigger] recs[i]),
    ensures
        store_wf(spec_apply_batch(s, recs, now)),
        spec_apply_batch(s, recs, now).next_id <= s.next_id + recs.len(),
        spec_apply_batch(s, recs, now).next_id >= s.next_id,
        spec_apply_batch(s, recs, now).rows.len() >= s.rows.len(),
    decreases recs.len(),
{
    if recs.len() == 0 {
    } else {
        lemma_upsert_wf(s, recs[0], now);
        lemma_apply_batch_wf(spec_upsert(s, recs[0], now), recs.drop_first(), now);
    }
}

/// The store itself. The fields are private: every mutation goes through the
/// batch upsert, which maintains the invariant.
pub struct NodeStore {
    rows: Vec<StoredNode>,
    next_id: i64,
}

impl View for NodeStore {
    type V = NodeStoreV;

    closed spec fn view(&self) -> NodeStoreV {
        NodeStoreV {
            rows: self.rows@.map_values(|n: StoredNode| n@),
            next_id: self.next_id as int,
        }
    }
}

impl NodeStore {
    /// The store's invariant, stated over its view.
    pub open spec fn wf(&self) -> bool {
        store_wf(self@)
    }

    /// An empty store, with row ids starting at one.
    pub fn new() -> (s: NodeStore)
        ensures
            s.wf(),
            s@.rows.len() == 0,
            s@.next_id == 1,
    {
        let s = NodeStore { rows: Vec::new(), next_id: 1 };
        proof {
            assert(s@.rows =~= Seq::<StoredNodeV>::empty());
        }
        s
    }

    /// The stored rows, in underlying row order.
    pub fn all_rows(&self) -> (r: &Vec<StoredNode>)
        ensures
            r@.map_values(|n: StoredNode| n@) == self@.rows,
    {
        &self.rows
    }

    /// The next surrogate row id that an insert would assign.
    pub fn next_row_id(&self) -> (r: i64)
        ensures
            r as int == self@.next_id,
    {
        self.next_id
    }

    /// How many rows are stored.
    pub fn row_count(&self) -> (n: usize)
        ensures
            n == self@.rows.len(),
    {
        self.rows.len()
    }

    /// Finds the row holding the given identifier, if any.
    fn find_index(&self, key: &String) -> (r: Option<usize>)
        ensures
            match r {
                Some(i) => 0 <= i < self@.rows.len() && self@.rows[i as int].public_key == key@,
                None => !has_key(self@.rows, key@),
            },
    {
        let n = self.rows.len();
        let mut i: usize = 0;
        while i < n
            invariant
                0 <= i <= n,
                n == self@.rows.len(),
                forall|j: int| 0 <= j < i ==> self@.rows[j].public_key != key@,
            decreases n - i,
        {
            if self.rows[i].public_key == *key {
                return Some(i);
            }
            i += 1;
        }
        None
    }

    /// One upsert: the exec counterpart of `spec_upsert`.
    fn upsert_record(&mut self, rec: &NodeRecord, now: &String)
        requires
            old(self).wf(),
            node_record_wf(rec@),
            old(self)@.next_id < i64::MAX,
        ensures
            final(self)@ == spec_upsert(old(self)@, rec@, now@),
            final(self).wf(),
    {
        proof {
            lemma_upsert_wf(self@, rec@, now@);
        }
        match self.find_index(&rec.public_key) {
            Some(i) => {
                let row = StoredNode {
                    id: self.rows[i].id,
                    public_key: rec.public_key.clone(),
                    alias: rec.alias.clone(),
                    channels: rec.channels,
                    capacity: rec.capacity,
                    first_seen: self.rows[i].first_seen,
                    updated_at: rec.updated_at,
                    city: clone_opt_string(&rec.city),
                    country: clone_opt_string(&rec.country),
                    imported_at: now.clone(),
                };
                self.rows[i] = row;
                proof {
                    let ghost old_rows = old(self)@.rows;
                    let ghost k = key_index(old_rows, rec@.public_key);
                    assert(0 <= k < old_rows.len() && old_rows[k].public_key == rec@.public_key);
                    assert(k == i as int) by {
                        if k != i as int {
                            assert(old_rows[k].public_key == old_rows[i as int].public_key);
                        }
                    }
                    assert(self@.rows =~= old_rows.update(
                        k,
                        updated_row(old_rows[k], rec@, now@),
                    ));
                    assert(self@ =~= spec_upsert(old(self)@, rec@, now@));
                }
            },
            None => {
                let row = StoredNode {
                    id: self.next_id,
                    public_key: rec.public_key.clone(),
                    alias: rec.alias.clone(),
                    channels: rec.channels,
                    capacity: rec.capacity,
                    first_seen: rec.first_seen,
                    updated_at: rec.updated_at,
                    city: clone_opt_string(&rec.city),
                    country: clone_opt_string(&rec.country),
                    imported_at: now.clone(),
                };
                self.rows.push(row);
                self.next_id = self.next_id + 1;
                proof {
                    assert(self@.rows =~= old(self)@.rows.push(
                        new_row(old(self)@.next_id, rec@, now@),
                    ));
                    assert(self@ =~= spec_upsert(old(self)@, rec@, now@));
                }
            },
        }
    }

    /// Upserts a whole batch as one atomic transaction. `failure` models the
    /// storage engine failing at the given write: when it strikes inside the
    /// batch, the transaction rolls back and the store is left exactly as it
    /// was; otherwise every record is written and the count returned is the
    /// batch size.
    pub fn upsert_batch(
        &mut self,
        recs: &Vec<NodeRecord>,
        now: &String,
        failure: Option<usize>,
    ) -> (r: Result<usize, ImportError>)
        requires
            old(self).wf(),
            forall|i: int| 0 <= i < recs@.len() ==> node_record_wf(#[trigger] recs@[i]@),
            old(self)@.next_id + recs@.len() <= i64::MAX,
        ensures
            final(self).wf(),
            match failure {
                Some(k) if k < recs@.len() => r == Err::<usize, ImportError>(ImportError::Storage)
                    && final(self)@ == old(self)@,
                _ => r == Ok::<usize, ImportError>(recs@.len() as usize) && final(self)@
                    == spec_apply_batch(old(self)@, batch_view(recs@), now@),
            },
    {
        let n = recs.len();
        if let Some(k) = failure {
            if k < n {
                return Err(ImportError::Storage);
            }
        }
        let ghost views = batch_view(recs@);
        assert(views.len() == recs@.len());
        let mut i: usize = 0;
        proof {
            assert(views.take(0) =~= Seq::<NodeRecordV>::empty());
        }
        while i < n
            invariant
                0 <= i <= n,
                n == recs@.len(),
                views == batch_view(recs@),
                self.wf(),
                self@ == spec_apply_batch(old(self)@, views.take(i as int), now@),
                self@.next_id <= old(self)@.next_id + i,
                old(self)@.next_id + n <= i64::MAX,
                store_wf(old(self)@),
                forall|j: int| 0 <= j < recs@.len() ==> node_record_wf(#[trigger] recs@[j]@),
            decreases n - i,
        {
            proof {
                assert(node_record_wf(recs@[i as int]@));
                assert(views[i as int] == recs@[i as int]@);
            }
            self.upsert_record(&recs[i], now);
            proof {
                lemma_apply_batch_snoc(old(self)@, views.take(i as int), views[i as int], now@);
                assert(views.take(i as int + 1) =~= views.take(i as int).push(views[i as int]));
                lemma_apply_batch_wf(old(self)@, views.take(i as int + 1), now@);
            }
            i += 1;
        }
        proof {
            assert(views.take(n as int) =~= views);
        }
        Ok(n)
    }
}

/// The projection of a stored row that the read path serves.
pub open spec fn project_row(n: StoredNodeV) -> DbRowV {
    DbRowV {
        public_key: n.public_key,
        alias: Some(n.alias),
        capacity: n.capacity,
        first_seen: n.first_seen,
    }
}

/// The projections of all rows of a store.
pub open spec fn projections(rows: Seq<StoredNodeV>) -> Seq<DbRowV> {
    rows.map_values(|x: StoredNodeV| project_row(x))
}

/// The views of a sequence of queried rows.
pub open spec fn row_views(rows: Seq<DbNodeForApiResponse>) -> Seq<DbRowV> {
    rows.map_values(|x: DbNodeForApiResponse| x@)
}

/// Sorted by capacity, largest first.
pub open spec fn sorted_cap_desc(rows: Seq<DbRowV>) -> bool {
    forall|i: int, j: int| 0 <= i < j < rows.len() ==> rows[i].capacity >= rows[j].capacity
}

impl NodeStore {
    /// Reads every stored row, projected for the read path and ordered by
    /// capacity descending. Ties keep no specified order: the result is
    /// pinned up to permutation of equal-capacity rows.
    pub fn query_all_ordered_by_capacity_descending(&self) -> (r: Vec<DbNodeForApiResponse>)
        requires
            self.wf(),
        ensures
            sorted_cap_desc(row_views(r@)),
            row_views(r@).to_multiset() == projections(self@.rows).to_multiset(),
            r@.len() == self@.rows.len(),
            forall|i: int| 0 <= i < r@.len() ==> (#[trigger] r@[i])@.capacity >= 0,
    {
        broadcast use vstd::seq_lib::group_to_multiset_ensures;

        let ghost proj = projections(self@.rows);
        let n = self.rows.len();
        let mut out: Vec<DbNodeForApiResponse> = Vec::new();
        let mut i: usize = 0;
        proof {
            assert(proj.take(0) =~= Seq::<DbRowV>::empty());
            assert(row_views(out@) =~= Seq::<DbRowV>::empty());
            assert(Seq::<DbRowV>::empty().to_multiset() =~= Multiset::<DbRowV>::empty());
        }
        while i < n
            invariant
                0 <= i <= n,
                n == self@.rows.len(),
                self.wf(),
                proj == projections(self@.rows),
                row_views(out@).len() == i,
                sorted_cap_desc(row_views(out@)),
                row_views(out@).to_multiset() == proj.take(i as int).to_multiset(),
                forall|k: int| 0 <= k < out@.len() ==> (#[trigger] out@[k])@.capacity >= 0,
            decreases n - i,
        {
            let row = &self.rows[i];
            let item = DbNodeForApiResponse {
                public_key: row.public_key.clone(),
                alias: Some(row.alias.clone()),
                capacity: row.capacity,
                first_seen: row.first_seen,
            };
            proof {
                assert(item@ == proj[i as int]);
            }
            let mut j: usize = 0;
            while j < out.len() && out[j].capacity >= item.capacity
                invariant
                    0 <= j <= out@.len(),
                    forall|k: int|
                        0 <= k < j ==> (#[trigger] out@[k])@.capacity >= item@.capacity,
                decreases out@.len() - j,
            {
                j += 1;
            }
            let ghost pre = row_views(out@);
            let ghost itemv = item@;
            let ghost jj = j as int;
            out.insert(j, item);
            proof {
                assert(row_views(out@) =~= pre.insert(jj, itemv));
                pre.insert_ensures(jj, itemv);
                assert forall|a: int, b: int|
                    0 <= a < b < row_views(out@).len() implies row_views(out@)[a].capacity
                    >= row_views(out@)[b].capacity by {
                    let v = row_views(out@);
                    if b < jj {
                        assert(v[a] == pre[a] && v[b] == pre[b]);
                    } else if a > jj {
                        assert(v[a] == pre[a - 1] && v[b] == pre[b - 1]);
                    } else if a < jj && b == jj {
                        assert(v[a] == pre[a] && v[b] == itemv);
                    } else if a == jj {
                        assert(v[a] == itemv && v[b] == pre[b - 1]);
                        assert(jj < pre.len() ==> pre[jj].capacity < itemv.capacity);
                    } else {
                        assert(a < jj && b > jj);
                        assert(v[a] == pre[a] && v[b] == pre[b - 1]);
                        if jj < pre.len() {
                            assert(pre[jj].capacity < itemv.capacity);
                            assert(pre[a].capacity >= itemv.capacity);
                            assert(b - 1 >= jj);
                            assert(pre[b - 1].capacity <= pre[jj].capacity);
                        }
                    }
                }
                vstd::seq_lib::to_multiset_insert::<DbRowV>(pre, jj, itemv);
                assert(pre.insert(jj, itemv).to_multiset() == pre.to_multiset().insert(itemv));
                assert(proj.take(i as int + 1) =~= proj.take(i as int).push(proj[i as int]));
                vstd::seq_lib::to_multiset_build::<DbRowV>(proj.take(i as int), proj[i as int]);
                assert(proj.take(i as int).push(proj[i as int]).to_multiset() == proj.take(
                    i as int,
                ).to_multiset().insert(proj[i as int]));
                assert(row_views(out@).to_multiset() == proj.take(i as int + 1).to_multiset());
            }
            i += 1;
        }
        proof {
            assert(proj.take(n as int) =~= proj);
        }
        out
    }
}

/// Clones an optional string, preserving its view.
fn clone_opt_string(o: &Option<String>) -> (r: Option<String>)
    ensures
        r == o,
{
    match o {
        Some(s) => Some(s.clone()),
        None => None,
    }
}

} // verus!
