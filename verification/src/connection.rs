//! The per-connection request loop.
//!
//! For each chunk a connection reads, the handler decodes it, hands the text
//! to the log consumer, increments the shared counter, and answers with the
//! formatted response line. A zero-length read means the peer closed: the
//! loop stops without a further response. `process_request` is one such
//! round; `run_connection` is the whole loop over a sequence of reads, and
//! its contract pins every response a connection produces.
//!
//! The caller does the socket reads and writes and the best-effort send to
//! the log queue; a failed log delivery drops the message and never touches
//! the response path, which depends only on the bytes read and the counter.
use crate::counter::State;
use crate::response::format_response;
use crate::response::response_of;
use crate::text::decode_input;
use crate::text::lossy_of;
use crate::text::trim_of;
use vstd::prelude::*;

verus! {

/// One line of client input, as handed to the log consumer.
pub struct LogMessage {
    pub text: String,
}

/// The count embedded in a connection's `i`-th response (counting from
/// zero), when the shared counter held `c0` before the connection's first
/// increment of this run.
pub open spec fn count_at(c0: int, i: int) -> int {
    c0 + i + 1
}

/// One request round: decode the chunk, increment the counter, format the
/// response. Returns the log message to forward (best effort) and the exact
/// response line to write back.
pub fn process_request(bytes: &[u8], state: &mut State) -> (r: (LogMessage, String))
    requires
        0 <= old(state).count() < i32::MAX,
    ensures
        final(state).count() == old(state).count() + 1,
        r.0.text@ == trim_of(lossy_of(bytes@)),
        r.1@ == response_of(trim_of(lossy_of(bytes@)), count_at(old(state).count(), 0) as nat),
{
    let text = decode_input(bytes);
    let log = LogMessage { text: text.clone() };
    let current = state.increment();
    let response = format_response(text.as_str(), current);
    (log, response)
}

/// How many chunks a connection serves: the reads before the first
/// zero-length one, which signals that the peer closed.
pub open spec fn chunks_before_close(reads: Seq<Seq<u8>>) -> nat
    decreases reads.len(),
{
    if reads.len() == 0 {
        0
    } else if reads[0].len() == 0 {
        0
    } else {
        (1 + chunks_before_close(reads.drop_first())) as nat
    }
}

proof fn lemma_chunks_of_prefix(reads: Seq<Seq<u8>>, i: int)
    requires
        0 <= i <= reads.len(),
        forall|k: int| 0 <= k < i ==> reads[k].len() != 0,
        i == reads.len() || reads[i].len() == 0,
    ensures
        chunks_before_close(reads) == i,
    decreases i,
{
    if i > 0 {
        assert(forall|k: int|
            0 <= k < reads.drop_first().len() ==> reads.drop_first()[k] == reads[k + 1]);
        lemma_chunks_of_prefix(reads.drop_first(), i - 1);
    }
}

/// The whole loop a connection runs, over the chunks its reads return, in
/// order. Serves every chunk before the first zero-length read and none
/// after it; the `i`-th response echoes the `i`-th chunk, decoded, under
/// count `c0 + i + 1`.
pub fn run_connection(reads: &Vec<Vec<u8>>, state: &mut State) -> (r: Vec<String>)
    requires
        0 <= old(state).count(),
        old(state).count() + reads@.len() <= i32::MAX,
    ensures
        final(state).count() == old(state).count() + chunks_before_close(reads.deep_view()),
        r.deep_view().len() == chunks_before_close(reads.deep_view()),
        forall|i: int|
            0 <= i < r.deep_view().len() ==> r.deep_view()[i] == response_of(
                trim_of(lossy_of(reads.deep_view()[i])),
                count_at(old(state).count(), i) as nat,
            ),
{
    let mut out: Vec<String> = Vec::new();
    let mut i: usize = 0;
    let mut closed = false;
    while i < reads.len() && !closed
        invariant
            0 <= i <= reads@.len(),
            0 <= old(state).count(),
            old(state).count() + reads@.len() <= i32::MAX,
            state.count() == old(state).count() + i,
            forall|k: int| 0 <= k < i ==> reads.deep_view()[k].len() != 0,
            closed ==> i < reads@.len() && reads.deep_view()[i as int].len() == 0,
            out.deep_view().len() == i,
            forall|k: int|
                0 <= k < i ==> out.deep_view()[k] == response_of(
                    trim_of(lossy_of(reads.deep_view()[k])),
                    count_at(old(state).count(), k) as nat,
                ),
        decreases reads@.len() - i + (if closed {
            0int
        } else {
            1int
        }),
    {
        let chunk = &reads[i];
        if chunk.len() == 0 {
            closed = true;
        } else {
            proof {
                assert(reads.deep_view()[i as int] =~= chunk@);
            }
            let ghost prev = out.deep_view();
            let (_log, response) = process_request(chunk.as_slice(), state);
            out.push(response);
            proof {
                assert(out.deep_view() =~= prev.push(response@));
            }
            i = i + 1;
        }
    }
    proof {
        lemma_chunks_of_prefix(reads.deep_view(), i as int);
    }
    out
}

/// Monotonic per-connection view: within one connection's run, the count in
/// a later response is strictly greater than the count in any earlier one.
pub proof fn lemma_counts_strictly_increase(c0: int, i: int, j: int)
    requires
        0 <= i < j,
    ensures
        count_at(c0, i) < count_at(c0, j),
{
}

/// Atomic increments: no two rounds of a run observe the same pre-increment
/// counter value, and no two responses carry the same count.
pub proof fn lemma_counts_distinct(c0: int, i: int, j: int)
    requires
        0 <= i,
        0 <= j,
        i != j,
    ensures
        count_at(c0, i) != count_at(c0, j),
        count_at(c0, i) - 1 != count_at(c0, j) - 1,
{
}

/// A connection whose reads are all nonempty serves every one of them: its
/// run increments the counter once per chunk, no more and no less.
pub proof fn lemma_all_chunks_served(reads: Seq<Seq<u8>>)
    requires
        forall|k: int| 0 <= k < reads.len() ==> reads[k].len() != 0,
    ensures
        chunks_before_close(reads) == reads.len(),
{
    lemma_chunks_of_prefix(reads, reads.len() as int);
}

/// The chunks served over several connections, one count per connection.
pub open spec fn total_chunks(per_connection: Seq<nat>) -> nat
    decreases per_connection.len(),
{
    if per_connection.len() == 0 {
        0
    } else {
        (per_connection[0] + total_chunks(per_connection.drop_first())) as nat
    }
}

/// The final counter over a whole service run: starting from zero, after
/// `n` connections have each served `m` chunks, the counter holds exactly
/// `n * m` — every increment is counted once, none is lost.
pub proof fn lemma_counter_totals(per_connection: Seq<nat>, m: nat)
    requires
        forall|k: int| 0 <= k < per_connection.len() ==> per_connection[k] == m,
    ensures
        total_chunks(per_connection) == per_connection.len() * m,
    decreases per_connection.len(),
{
    if per_connection.len() > 0 {
        let rest = per_connection.drop_first();
        assert(forall|k: int| 0 <= k < rest.len() ==> rest[k] == per_connection[k + 1]);
        lemma_counter_totals(rest, m);
        assert(m + (per_connection.len() - 1) * m == per_connection.len() * m)
            by (nonlinear_arith);
    }
}

} // verus!
