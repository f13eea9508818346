//! The read path: stored rows rendered into the client-facing shape.
//! Capacity becomes a fixed-point decimal string with eight fractional
//! digits; the first-seen timestamp becomes an RFC 3339 string.

use vstd::prelude::*;
use vstd::string::StringExecFns;
use chrono::TimeZone;
use crate::models::{DbNodeForApiResponse, DbRowV, NodeResponse};
use crate::store::{NodeStore, row_views, sorted_cap_desc, projections};

verus! {

/// One smallest-denomination unit is a hundred-millionth of the displayed
/// unit.
pub const CAPACITY_SCALE: u64 = 100000000;

/// The decimal digit character for a value below ten.
pub open spec fn digit_char(d: int) -> char {
    if d == 0 {
        '0'
    } else if d == 1 {
        '1'
    } else if d == 2 {
        '2'
    } else if d == 3 {
        '3'
    } else if d == 4 {
        '4'
    } else if d == 5 {
        '5'
    } else if d == 6 {
        '6'
    } else if d == 7 {
        '7'
    } else if d == 8 {
        '8'
    } else {
        '9'
    }
}

/// The decimal digits of a non-negative integer, most significant first.
pub open spec fn dec_digits(n: int) -> Seq<char>
    decreases n,
{
    if n < 10 {
        seq![digit_char(n)]
    } else {
        dec_digits(n / 10).push(digit_char(n % 10))
    }
}

/// The last `width` decimal digits of a non-negative integer, zero-padded.
pub open spec fn fixed_digits(n: int, width: nat) -> Seq<char>
    decreases width,
{
    if width == 0 {
        Seq::empty()
    } else {
        fixed_digits(n / 10, (width - 1) as nat).push(digit_char(n % 10))
    }
}

/// A non-negative capacity rendered as a fixed-point decimal: the whole part
/// in decimal, a point, then exactly eight fractional digits.
pub open spec fn capacity_string(cap: int) -> Seq<char> {
    dec_digits(cap / (CAPACITY_SCALE as int)) + seq!['.'] + fixed_digits(
        cap % (CAPACITY_SCALE as int),
        8,
    )
}

/// Appends the digit character of a value below ten.
fn push_digit(s: &mut String, d: u64)
    requires
        d < 10,
    ensures
        final(s)@ == old(s)@ + seq![digit_char(d as int)],
{
    if d == 0 {
        proof { reveal_strlit("0"); }
        s.append("0");
    } else if d == 1 {
        proof { reveal_strlit("1"); }
        s.append("1");
    } else if d == 2 {
        proof { reveal_strlit("2"); }
        s.append("2");
    } else if d == 3 {
        proof { reveal_strlit("3"); }
        s.append("3");
    } else if d == 4 {
        proof { reveal_strlit("4"); }
        s.append("4");
    } else if d == 5 {
        proof { reveal_strlit("5"); }
        s.append("5");
    } else if d == 6 {
        proof { reveal_strlit("6"); }
        s.append("6");
    } else if d == 7 {
        proof { reveal_strlit("7"); }
        s.append("7");
    } else if d == 8 {
        proof { reveal_strlit("8"); }
        s.append("8");
    } else {
        proof { reveal_strlit("9"); }
        s.append("9");
    }
    proof {
        assert(final(s)@ =~= old(s)@ + seq![digit_char(d as int)]);
    }
}

/// Appends the decimal digits of a non-negative integer.
fn push_dec(s: &mut String, n: u64)
    ensures
        final(s)@ == old(s)@ + dec_digits(n as int),
    decreases n,
{
    if n < 10 {
        push_digit(s, n);
    } else {
        push_dec(s, n / 10);
        push_digit(s, n % 10);
        proof {
            assert(final(s)@ =~= old(s)@ + dec_digits(n as int));
        }
    }
}

/// Appends the last `width` decimal digits of a non-negative integer,
/// zero-padded.
fn push_fixed(s: &mut String, n: u64, width: usize)
    ensures
        final(s)@ == old(s)@ + fixed_digits(n as int, width as nat),
    decreases width,
{
    if width == 0 {
        proof {
            assert(final(s)@ =~= old(s)@ + fixed_digits(n as int, 0));
        }
    } else {
        push_fixed(s, n / 10, width - 1);
        push_digit(s, n % 10);
        proof {
            assert(final(s)@ =~= old(s)@ + fixed_digits(n as int, width as nat));
        }
    }
}

/// Renders a non-negative capacity as a fixed-point decimal string with
/// exactly eight digits after the point.
pub fn format_capacity(cap: i64) -> (r: String)
    requires
        cap >= 0,
    ensures
        r@ == capacity_string(cap as int),
{
    let whole = (cap as u64) / CAPACITY_SCALE;
    let frac = (cap as u64) % CAPACITY_SCALE;
    let mut s = String::new();
    push_dec(&mut s, whole);
    proof { reveal_strlit("."); }
    s.append(".");
    push_fixed(&mut s, frac, 8);
    proof {
        assert(s@ =~= capacity_string(cap as int));
    }
    s
}

/// What the outside crate returns for a timestamp rendered as UTC RFC 3339:
/// a string for every in-range number of seconds since the epoch, nothing
/// for an out-of-range one. The result depends on the seconds alone.
pub uninterp spec fn rfc3339_utc(secs: int) -> Option<Seq<char>>;

/// Relies on chrono: `Utc.timestamp_opt(secs, 0)` returns a single date-time
/// exactly when the seconds are in chrono's representable range, and
/// `DateTime::to_rfc3339` renders it; both depend on the seconds alone.
#[verifier::external_body]
fn timestamp_to_rfc3339(secs: i64) -> (r: Option<String>)
    ensures
        r matches Some(s) ==> rfc3339_utc(secs as int) == Some(s@),
        (r is Some) == (rfc3339_utc(secs as int) is Some),
{
    chrono::Utc.timestamp_opt(secs, 0).single().map(|t| t.to_rfc3339())
}

/// Relies on chrono::Utc::now and `DateTime::to_rfc3339`. The result depends
/// on the clock, so nothing is claimed of it.
#[verifier::external_body]
fn now_rfc3339() -> (r: String) {
    chrono::Utc::now().to_rfc3339()
}

/// Renders a first-seen timestamp as RFC 3339; an out-of-range value is
/// replaced by the current time at render.
pub fn render_first_seen(secs: i64) -> (r: String)
    ensures
        rfc3339_utc(secs as int) matches Some(s) ==> r@ == s,
{
    match timestamp_to_rfc3339(secs) {
        Some(s) => s,
        None => now_rfc3339(),
    }
}

/// How a served node relates to the queried row it renders: identifier kept,
/// absent alias defaulted to empty, capacity as the fixed-point decimal, and
/// first-seen as RFC 3339 whenever the stored value is in range.
pub open spec fn response_matches(row: DbRowV, resp: NodeResponse) -> bool {
    &&& resp.public_key@ == row.public_key
    &&& resp.alias@ == (match row.alias {
        Some(a) => a,
        None => Seq::<char>::empty(),
    })
    &&& resp.capacity@ == capacity_string(row.capacity)
    &&& (rfc3339_utc(row.first_seen) matches Some(s) ==> resp.first_seen@ == s)
}

/// Renders one queried row.
pub fn node_to_response(row: &DbNodeForApiResponse) -> (r: NodeResponse)
    requires
        row@.capacity >= 0,
    ensures
        response_matches(row@, r),
{
    let alias = match &row.alias {
        Some(a) => a.clone(),
        None => String::new(),
    };
    NodeResponse {
        public_key: row.public_key.clone(),
        alias,
        capacity: format_capacity(row.capacity),
        first_seen: render_first_seen(row.first_seen),
    }
}

/// Every row rendered, in order.
pub open spec fn responses_match(rows: Seq<DbRowV>, resps: Seq<NodeResponse>) -> bool {
    &&& resps.len() == rows.len()
    &&& (forall|i: int| 0 <= i < rows.len() ==> response_matches(rows[i], #[trigger] resps[i]))
}

/// The whole read path: every stored row, ordered by capacity descending,
/// rendered into the client-facing shape.
pub fn get_all_nodes_for_api(store: &NodeStore) -> (r: Vec<NodeResponse>)
    requires
        store.wf(),
    ensures
        exists|rows: Seq<DbRowV>|
            {
                &&& sorted_cap_desc(rows)
                &&& rows.to_multiset() == projections(store@.rows).to_multiset()
                &&& responses_match(rows, r@)
            },
{
    let sorted = store.query_all_ordered_by_capacity_descending();
    let ghost rows = row_views(sorted@);
    let n = sorted.len();
    let mut out: Vec<NodeResponse> = Vec::new();
    let mut i: usize = 0;
    while i < n
        invariant
            0 <= i <= n,
            n == sorted@.len(),
            rows == row_views(sorted@),
            forall|k: int| 0 <= k < n ==> (#[trigger] sorted@[k])@.capacity >= 0,
            out@.len() == i,
            forall|k: int| 0 <= k < i ==> response_matches(rows[k], #[trigger] out@[k]),
        decreases n - i,
    {
        let resp = node_to_response(&sorted[i]);
        out.push(resp);
        i += 1;
    }
    proof {
        assert(sorted_cap_desc(rows));
        assert(rows.to_multiset() == projections(store@.rows).to_multiset());
        assert(responses_match(rows, out@));
    }
    out
}

/// The health reply: status and body are fixed, whatever the state of the
/// store or the source.
pub fn health_response() -> (r: (u16, String))
    ensures
        r.0 == 200,
        r.1@ == seq!['O', 'K'],
{
    proof { reveal_strlit("OK"); }
    (200, "OK".to_owned())
}

} // verus!
