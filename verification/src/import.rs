//! The import orchestrator: given the outcome of one fetch from the external
//! source, it decides between the error taxonomy and a batch upsert, and pins
//! down exactly what the store holds afterwards. The fetch itself, being
//! network I/O, is performed by the caller, who hands the outcome in as an
//! event.

use vstd::prelude::*;
use crate::models::{
    ExternalNode, ImportError, NodeRecord, NodeRecordV, external_node_wf, node_record_wf,
    record_converted,
};
use crate::store::{NodeStore, batch_view, spec_apply_batch};

verus! {

/// True exactly when an HTTP status code lies in the success range.
pub open spec fn spec_status_is_success(code: u16) -> bool {
    200 <= code && code < 300
}

/// Decides whether a response status code counts as success.
pub fn status_is_success(code: u16) -> (r: bool)
    ensures
        r == spec_status_is_success(code),
{
    200 <= code && code < 300
}

/// The outcome of one fetch from the external source, as the caller saw it:
/// the source was unreachable, or it answered with a status code, the raw
/// body, and the records if the body decoded as an array of them.
pub enum FetchEvent {
    Transport,
    Response { status: u16, body: String, records: Option<Vec<ExternalNode>> },
}

/// True when every record of the batch is well formed.
pub open spec fn spec_batch_wf(nodes: Seq<ExternalNode>) -> bool {
    forall|i: int| 0 <= i < nodes.len() ==> external_node_wf((#[trigger] nodes[i])@)
}

/// Checks that every record of a decoded batch is well formed; a batch that
/// is not does not match the expected record shape.
pub fn validate_batch(nodes: &Vec<ExternalNode>) -> (r: bool)
    ensures
        r == spec_batch_wf(nodes@),
{
    let n = nodes.len();
    let mut i: usize = 0;
    while i < n
        invariant
            0 <= i <= n,
            n == nodes@.len(),
            forall|j: int| 0 <= j < i ==> external_node_wf((#[trigger] nodes@[j])@),
        decreases n - i,
    {
        if nodes[i].channels < 0 || nodes[i].capacity < 0 {
            return false;
        }
        i += 1;
    }
    true
}

/// How a converted batch relates to the decoded batch, record by record.
pub open spec fn batch_converted(nodes: Seq<ExternalNode>, recs: Seq<NodeRecordV>) -> bool {
    &&& recs.len() == nodes.len()
    &&& (forall|i: int| 0 <= i < nodes.len() ==> record_converted(nodes[i]@, #[trigger] recs[i]))
}

/// Converts a whole decoded batch into storable records.
pub fn convert_batch(nodes: Vec<ExternalNode>) -> (r: Vec<NodeRecord>)
    ensures
        batch_converted(nodes@, batch_view(r@)),
{
    let ghost orig = nodes@;
    let mut nodes = nodes;
    let mut out: Vec<NodeRecord> = Vec::new();
    proof {
        assert(orig.skip(0) =~= orig);
    }
    while nodes.len() > 0
        invariant
            out@.len() + nodes@.len() == orig.len(),
            nodes@ == orig.skip(out@.len() as int),
            forall|k: int|
                0 <= k < out@.len() ==> record_converted(orig[k]@, (#[trigger] out@[k])@),
        decreases nodes@.len(),
    {
        let ghost k = out@.len() as int;
        proof {
            assert(nodes@[0] == orig[k]);
        }
        let n = nodes.remove(0);
        out.push(crate::models::to_node_record(n));
        proof {
            assert(nodes@ =~= orig.skip(k + 1));
        }
    }
    proof {
        assert(batch_view(out@).len() == out@.len());
        assert(forall|i: int|
            0 <= i < out@.len() ==> batch_view(out@)[i] == (#[trigger] out@[i])@);
    }
    out
}

/// One import, driven by the fetch outcome. A transport failure, a status
/// outside the success range, or a body that did not decode (or decoded to
/// ill-formed records) each yield their error and leave the store untouched.
/// A good batch is upserted atomically: if the storage failure event strikes
/// inside the batch, the store is left exactly as it was and the storage
/// error is returned; otherwise the store becomes the old state with the
/// batch applied, and the count of fetched records is returned.
pub fn import_from_event(
    store: &mut NodeStore,
    event: FetchEvent,
    now: &String,
    failure: Option<usize>,
) -> (r: Result<usize, ImportError>)
    requires
        old(store).wf(),
        event matches FetchEvent::Response { records: Some(ns), .. } ==> old(store)@.next_id
            + ns@.len() <= i64::MAX,
    ensures
        final(store).wf(),
        match event {
            FetchEvent::Transport => r == Err::<usize, ImportError>(ImportError::Transport)
                && final(store)@ == old(store)@,
            FetchEvent::Response { status, body, records } => {
                if !spec_status_is_success(status) {
                    &&& r == Err::<usize, ImportError>(
                        ImportError::HttpStatus { status, body },
                    )
                    &&& final(store)@ == old(store)@
                } else {
                    match records {
                        None => r == Err::<usize, ImportError>(ImportError::Decode)
                            && final(store)@ == old(store)@,
                        Some(ns) => {
                            if !spec_batch_wf(ns@) {
                                r == Err::<usize, ImportError>(ImportError::Decode)
                                    && final(store)@ == old(store)@
                            } else {
                                match failure {
                                    Some(k) if k < ns@.len() => r == Err::<usize, ImportError>(
                                        ImportError::Storage,
                                    ) && final(store)@ == old(store)@,
                                    _ => r == Ok::<usize, ImportError>(ns@.len() as usize)
                                        && exists|recs: Seq<NodeRecordV>|
                                        {
                                            &&& #[trigger] batch_converted(ns@, recs)
                                            &&& final(store)@ == spec_apply_batch(
                                                old(store)@,
                                                recs,
                                                now@,
                                            )
                                        },
                                }
                            }
                        },
                    }
                }
            },
        },
{
    match event {
        FetchEvent::Transport => Err(ImportError::Transport),
        FetchEvent::Response { status, body, records } => {
            if !status_is_success(status) {
                Err(ImportError::HttpStatus { status, body })
            } else {
                match records {
                    None => Err(ImportError::Decode),
                    Some(nodes) => {
                        if !validate_batch(&nodes) {
                            Err(ImportError::Decode)
                        } else {
                            let count = nodes.len();
                            let ghost ns_view = nodes@;
                            let recs = convert_batch(nodes);
                            proof {
                                let recsv = batch_view(recs@);
                                assert(recsv.len() == ns_view.len());
                                assert forall|i: int|
                                    0 <= i < recs@.len() implies node_record_wf(
                                    (#[trigger] recs@[i])@,
                                ) by {
                                    assert(recsv[i] == recs@[i]@);
                                    assert(record_converted(ns_view[i]@, recsv[i]));
                                    assert(external_node_wf(ns_view[i]@));
                                }
                            }
                            match store.upsert_batch(&recs, now, failure) {
                                Ok(_) => {
                                    proof {
                                        let recsv = batch_view(recs@);
                                        assert(batch_converted(ns_view, recsv));
                                    }
                                    Ok(count)
                                },
                                Err(e) => Err(e),
                            }
                        }
                    },
                }
            }
        },
    }
}

/// The scheduler's two phases: it runs an import, waits out the configured
/// interval, and repeats, indefinitely.
pub enum SchedulerPhase {
    Importing,
    Waiting,
}

/// One transition of the scheduler. The outcome of the import that just ran
/// is taken and deliberately ignored: a failed import never stops the
/// recurring schedule, so the cycle continues either way.
pub fn scheduler_next_phase(
    phase: SchedulerPhase,
    last_import: &Result<usize, ImportError>,
) -> (r: SchedulerPhase)
    ensures
        phase is Importing ==> r is Waiting,
        phase is Waiting ==> r is Importing,
{
    match phase {
        SchedulerPhase::Importing => SchedulerPhase::Waiting,
        SchedulerPhase::Waiting => SchedulerPhase::Importing,
    }
}

} // verus!
