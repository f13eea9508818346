//! Data model: records as the external source delivers them, records as the
//! store keeps them, and the rows and responses the read path serves.

use vstd::prelude::*;
use std::collections::HashMap;

verus! {

/// A node record as received from the external source (untrusted input).
pub struct ExternalNode {
    pub public_key: String,
    pub alias: String,
    pub channels: i32,
    pub capacity: i64,
    pub first_seen: i64,
    pub updated_at: i64,
    pub city: Option<HashMap<String, String>>,
    pub country: Option<HashMap<String, String>>,
}

/// Mathematical view of an `ExternalNode`. The locale maps are abstracted to
/// their presence: what the store keeps of them is a serialized string, and
/// the serialization is delegated to an outside crate.
pub ghost struct ExternalNodeV {
    pub public_key: Seq<char>,
    pub alias: Seq<char>,
    pub channels: int,
    pub capacity: int,
    pub first_seen: int,
    pub updated_at: int,
    pub has_city: bool,
    pub has_country: bool,
}

impl View for ExternalNode {
    type V = ExternalNodeV;

    open spec fn view(&self) -> ExternalNodeV {
        ExternalNodeV {
            public_key: self.public_key@,
            alias: self.alias@,
            channels: self.channels as int,
            capacity: self.capacity as int,
            first_seen: self.first_seen as int,
            updated_at: self.updated_at as int,
            has_city: self.city is Some,
            has_country: self.country is Some,
        }
    }
}

/// A record ready to be written to the store: the locale maps have been
/// serialized (or degraded to absent), every other field is a plain value.
pub struct NodeRecord {
    pub public_key: String,
    pub alias: String,
    pub channels: i32,
    pub capacity: i64,
    pub first_seen: i64,
    pub updated_at: i64,
    pub city: Option<String>,
    pub country: Option<String>,
}

/// Mathematical view of a `NodeRecord`.
pub ghost struct NodeRecordV {
    pub public_key: Seq<char>,
    pub alias: Seq<char>,
    pub channels: int,
    pub capacity: int,
    pub first_seen: int,
    pub updated_at: int,
    pub city: Option<Seq<char>>,
    pub country: Option<Seq<char>>,
}

impl View for NodeRecord {
    type V = NodeRecordV;

    open spec fn view(&self) -> NodeRecordV {
        NodeRecordV {
            public_key: self.public_key@,
            alias: self.alias@,
            channels: self.channels as int,
            capacity: self.capacity as int,
            first_seen: self.first_seen as int,
            updated_at: self.updated_at as int,
            city: match self.city {
                Some(c) => Some(c@),
                None => None,
            },
            country: match self.country {
                Some(c) => Some(c@),
                None => None,
            },
        }
    }
}

/// A record of the external source is well formed when its counted fields are
/// non-negative, as the upstream source contract promises.
pub open spec fn external_node_wf(n: ExternalNodeV) -> bool {
    n.channels >= 0 && n.capacity >= 0
}

/// Same well-formedness, on a converted record.
pub open spec fn node_record_wf(r: NodeRecordV) -> bool {
    r.channels >= 0 && r.capacity >= 0
}

/// How a converted record relates to the external record it came from:
/// every plain field is carried over unchanged, and a locale map absent in
/// the input stays absent (a present one may degrade to absent if its
/// serialization fails).
pub open spec fn record_converted(n: ExternalNodeV, r: NodeRecordV) -> bool {
    &&& r.public_key == n.public_key
    &&& r.alias == n.alias
    &&& r.channels == n.channels
    &&& r.capacity == n.capacity
    &&& r.first_seen == n.first_seen
    &&& r.updated_at == n.updated_at
    &&& (!n.has_city ==> r.city is None)
    &&& (!n.has_country ==> r.country is None)
}

/// Relies on serde_json::to_string: serializes a string-keyed map to a JSON
/// object. The iteration order of a hash map differs between processes, so
/// nothing is claimed of the resulting text.
#[verifier::external_body]
fn serialize_locale_map(m: &HashMap<String, String>) -> (r: Option<String>) {
    serde_json::to_string(m).ok()
}

/// Converts one external record into its storable form: plain fields carried
/// over, locale maps serialized, with graceful degradation to absent when
/// serialization fails.
pub fn to_node_record(n: ExternalNode) -> (r: NodeRecord)
    ensures
        record_converted(n@, r@),
{
    let city = match n.city {
        Some(c) => serialize_locale_map(&c),
        None => None,
    };
    let country = match n.country {
        Some(c) => serialize_locale_map(&c),
        None => None,
    };
    NodeRecord {
        public_key: n.public_key,
        alias: n.alias,
        channels: n.channels,
        capacity: n.capacity,
        first_seen: n.first_seen,
        updated_at: n.updated_at,
        city,
        country,
    }
}

/// A stored row: one per identifier, with a surrogate row id assigned once
/// and a server-assigned import timestamp.
pub struct StoredNode {
    pub id: i64,
    pub public_key: String,
    pub alias: String,
    pub channels: i32,
    pub capacity: i64,
    pub first_seen: i64,
    pub updated_at: i64,
    pub city: Option<String>,
    pub country: Option<String>,
    pub imported_at: String,
}

/// Mathematical view of a stored row.
pub ghost struct StoredNodeV {
    pub id: int,
    pub public_key: Seq<char>,
    pub alias: Seq<char>,
    pub channels: int,
    pub capacity: int,
    pub first_seen: int,
    pub updated_at: int,
    pub city: Option<Seq<char>>,
    pub country: Option<Seq<char>>,
    pub imported_at: Seq<char>,
}

impl View for StoredNode {
    type V = StoredNodeV;

    open spec fn view(&self) -> StoredNodeV {
        StoredNodeV {
            id: self.id as int,
            public_key: self.public_key@,
            alias: self.alias@,
            channels: self.channels as int,
            capacity: self.capacity as int,
            first_seen: self.first_seen as int,
            updated_at: self.updated_at as int,
            city: match self.city {
                Some(c) => Some(c@),
                None => None,
            },
            country: match self.country {
                Some(c) => Some(c@),
                None => None,
            },
            imported_at: self.imported_at@,
        }
    }
}

/// The projection of a stored row that the read path queries.
pub struct DbNodeForApiResponse {
    pub public_key: String,
    pub alias: Option<String>,
    pub capacity: i64,
    pub first_seen: i64,
}

/// Mathematical view of a queried row.
pub ghost struct DbRowV {
    pub public_key: Seq<char>,
    pub alias: Option<Seq<char>>,
    pub capacity: int,
    pub first_seen: int,
}

impl View for DbNodeForApiResponse {
    type V = DbRowV;

    open spec fn view(&self) -> DbRowV {
        DbRowV {
            public_key: self.public_key@,
            alias: match self.alias {
                Some(a) => Some(a@),
                None => None,
            },
            capacity: self.capacity as int,
            first_seen: self.first_seen as int,
        }
    }
}

/// The client-facing shape of a node: capacity as a fixed-point decimal
/// string, first-seen as an RFC 3339 timestamp string.
pub struct NodeResponse {
    pub public_key: String,
    pub alias: String,
    pub capacity: String,
    pub first_seen: String,
}

/// The errors of the import path: the source was unreachable, the source
/// answered outside the success range, the payload did not decode to the
/// expected record shape, or the store failed.
#[derive(Debug)]
pub enum ImportError {
    Transport,
    HttpStatus { status: u16, body: String },
    Decode,
    Storage,
}

} // verus!
