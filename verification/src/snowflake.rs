//! Time-ordered 64-bit identifiers: a millisecond timestamp since a fixed
//! epoch, a worker id (5 bits), a server id (5 bits) and a per-millisecond
//! sequence counter (12 bits), most significant first.
//!
//! A single generator issues strictly increasing ids: the clock may not
//! move its timestamp backwards, and a millisecond window yields at most
//! 4096 ids before the generator waits for the next one. `try_generate`
//! is one deterministic step against a given clock reading; `generate`
//! retries it against the wall clock until it succeeds.

use crate::clock::now_ms;
use vstd::arithmetic::mul::lemma_mul_inequality;
use vstd::prelude::*;

verus! {

/// Milliseconds since the Unix epoch at which id timestamps start.
pub const SNOWFLAKE_EPOCH_MS: u64 = 1725513600000;

/// One more than the largest sequence number of a millisecond window.
pub const SEQUENCE_WINDOW: u64 = 4096;

/// The largest timestamp (in ms since the epoch) that fits its bit-field.
pub const MAX_ID_TIMESTAMP_MS: u64 = 0x40000000000;

/// How many fresh clock readings `generate` tries before giving up; a
/// clock regression or an exhausted millisecond window resolves within a
/// few milliseconds of rereading the clock, so in practice far fewer are
/// needed.
pub const GENERATE_RETRY_LIMIT: u64 = 16777216;

/// The four bit-fields, packed by place value: timestamp in the top 42
/// bits, then worker (5), server (5) and sequence (12).
pub open spec fn pack_id(ts: u64, worker: u8, server: u8, seq: u64) -> u64
    recommends
        ts < MAX_ID_TIMESTAMP_MS,
        worker < 32,
        server < 32,
        seq < SEQUENCE_WINDOW,
{
    (ts * 4194304 + (worker as u64) * 131072 + (server as u64) * 4096 + seq) as u64
}

/// The absolute timestamp (ms since the Unix epoch) an id encodes.
pub open spec fn id_timestamp_ms(id: u64) -> u64 {
    (id / 4194304 + SNOWFLAKE_EPOCH_MS) as u64
}

pub open spec fn id_worker(id: u64) -> u8 {
    ((id / 131072) % 32) as u8
}

pub open spec fn id_server(id: u64) -> u8 {
    ((id / 4096) % 32) as u8
}

pub open spec fn id_sequence(id: u64) -> u16 {
    (id % 4096) as u16
}

/// Packing stays below 2^64.
proof fn lemma_pack_in_range(ts: u64, worker: u8, server: u8, seq: u64)
    requires
        ts < MAX_ID_TIMESTAMP_MS,
        worker < 32,
        server < 32,
        seq < SEQUENCE_WINDOW,
    ensures
        ts * 4194304 + (worker as u64) * 131072 + (server as u64) * 4096 + seq <= u64::MAX,
        pack_id(ts, worker, server, seq) == ts * 4194304 + (worker as u64) * 131072 + (
        server as u64) * 4096 + seq,
{
    lemma_mul_inequality(ts as int, 0x3ffffffffff, 4194304);
}

/// Unpacking recovers every field of a packed id.
pub proof fn lemma_parse_pack(ts: u64, worker: u8, server: u8, seq: u64)
    requires
        ts < MAX_ID_TIMESTAMP_MS,
        worker < 32,
        server < 32,
        seq < SEQUENCE_WINDOW,
    ensures
        id_timestamp_ms(pack_id(ts, worker, server, seq)) == ts + SNOWFLAKE_EPOCH_MS,
        id_worker(pack_id(ts, worker, server, seq)) == worker,
        id_server(pack_id(ts, worker, server, seq)) == server,
        id_sequence(pack_id(ts, worker, server, seq)) == seq as u16,
{
    lemma_pack_in_range(ts, worker, server, seq);
    let x = pack_id(ts, worker, server, seq);
    let w = worker as u64;
    let s = server as u64;
    assert(x / 4194304 == ts && (x / 131072) % 32 == w && (x / 4096) % 32 == s && x % 4096 == seq)
        by (bit_vector)
        requires
            x == ts * 4194304 + w * 131072 + s * 4096 + seq,
            ts < 0x40000000000u64,
            w < 32u64,
            s < 32u64,
            seq < 4096u64,
    ;
}

/// Ids order exactly as their (timestamp, sequence) pairs do, for a fixed
/// worker and server.
pub proof fn lemma_pack_monotonic(ts1: u64, seq1: u64, ts2: u64, seq2: u64, worker: u8, server: u8)
    requires
        ts1 < MAX_ID_TIMESTAMP_MS,
        ts2 < MAX_ID_TIMESTAMP_MS,
        worker < 32,
        server < 32,
        seq1 < SEQUENCE_WINDOW,
        seq2 < SEQUENCE_WINDOW,
        ts1 < ts2 || (ts1 == ts2 && seq1 < seq2),
    ensures
        pack_id(ts1, worker, server, seq1) < pack_id(ts2, worker, server, seq2),
{
    lemma_pack_in_range(ts1, worker, server, seq1);
    lemma_pack_in_range(ts2, worker, server, seq2);
    if ts1 < ts2 {
        lemma_mul_inequality(ts1 as int + 1, ts2 as int, 4194304);
    }
}

/// One id-generating unit. Each concurrently active generator must get
/// its own distinct `worker_id`; the `server_id` names the deployment
/// instance. Callers that share a generator serialize on `&mut` access.
#[derive(Debug)]
pub struct SnowflakeGenerator {
    last_timestamp: u64,
    counter: u64,
    server_id: u8,
    worker_id: u8,
}

impl SnowflakeGenerator {
    pub closed spec fn wf(&self) -> bool {
        &&& self.last_timestamp < MAX_ID_TIMESTAMP_MS
        &&& self.counter <= SEQUENCE_WINDOW
        &&& self.server_id < 32
        &&& self.worker_id < 32
    }

    pub closed spec fn spec_server_id(&self) -> u8 {
        self.server_id
    }

    pub closed spec fn spec_worker_id(&self) -> u8 {
        self.worker_id
    }

    pub closed spec fn spec_last_timestamp(&self) -> u64 {
        self.last_timestamp
    }

    pub closed spec fn spec_counter(&self) -> u64 {
        self.counter
    }

    pub fn new(server_id: u8, worker_id: u8) -> (r: SnowflakeGenerator)
        requires
            server_id < 32,
            worker_id < 32,
        ensures
            r.wf(),
            r.spec_server_id() == server_id,
            r.spec_worker_id() == worker_id,
            r.spec_last_timestamp() == 0,
            r.spec_counter() == 0,
    {
        SnowflakeGenerator { last_timestamp: 0, counter: 0, server_id, worker_id }
    }

    /// One generation step against the clock reading `now_ms_abs`
    /// (milliseconds since the Unix epoch). Refuses a clock before the
    /// epoch or beyond the timestamp field, a clock behind the last issued
    /// timestamp, and an exhausted millisecond window; otherwise issues
    /// the next id and advances the state.
    pub fn try_generate(&mut self, now_ms_abs: u64) -> (r: Option<u64>)
        requires
            old(self).wf(),
        ensures
            final(self).wf(),
            final(self).spec_server_id() == old(self).spec_server_id(),
            final(self).spec_worker_id() == old(self).spec_worker_id(),
            r is None ==> *final(self) == *old(self),
            r is None <==> (now_ms_abs < SNOWFLAKE_EPOCH_MS
                || now_ms_abs - SNOWFLAKE_EPOCH_MS >= MAX_ID_TIMESTAMP_MS
                || now_ms_abs - SNOWFLAKE_EPOCH_MS < old(self).spec_last_timestamp()
                || (now_ms_abs - SNOWFLAKE_EPOCH_MS == old(self).spec_last_timestamp()
                    && old(self).spec_counter() >= SEQUENCE_WINDOW)),
            r is Some ==> ({
                let ts = (now_ms_abs - SNOWFLAKE_EPOCH_MS) as u64;
                &&& final(self).spec_last_timestamp() == ts
                &&& ts >= old(self).spec_last_timestamp()
                &&& final(self).spec_counter() == (if ts == old(self).spec_last_timestamp() {
                    (old(self).spec_counter() + 1) as u64
                } else {
                    1u64
                })
                &&& final(self).spec_counter() >= 1
                &&& r->0 == pack_id(
                    ts,
                    old(self).spec_worker_id(),
                    old(self).spec_server_id(),
                    (final(self).spec_counter() - 1) as u64,
                )
            }),
    {
        if now_ms_abs < SNOWFLAKE_EPOCH_MS {
            return None;
        }
        let ts = now_ms_abs - SNOWFLAKE_EPOCH_MS;
        if ts >= MAX_ID_TIMESTAMP_MS {
            return None;
        }
        if ts < self.last_timestamp {
            return None;
        }
        let seq: u64 = if ts == self.last_timestamp {
            if self.counter >= SEQUENCE_WINDOW {
                return None;
            }
            self.counter
        } else {
            0
        };
        proof {
            lemma_pack_in_range(ts, self.worker_id, self.server_id, seq);
        }
        let id = ts * 4194304 + (self.worker_id as u64) * 131072 + (self.server_id as u64) * 4096
            + seq;
        self.last_timestamp = ts;
        self.counter = seq + 1;
        Some(id)
    }

    /// Issues the next id, rereading the wall clock for as long as the
    /// clock lags behind the epoch, runs backwards, or the current
    /// millisecond window is exhausted, up to `GENERATE_RETRY_LIMIT`
    /// readings. On success the state strictly advances, so the id is
    /// strictly greater than any this generator issued before; `None`
    /// (the clock stayed unusable throughout) leaves the generator
    /// unchanged, and the caller may simply try again.
    pub fn generate(&mut self) -> (r: Option<u64>)
        requires
            old(self).wf(),
        ensures
            final(self).wf(),
            final(self).spec_server_id() == old(self).spec_server_id(),
            final(self).spec_worker_id() == old(self).spec_worker_id(),
            r is None ==> *final(self) == *old(self),
            r is Some ==> ({
                &&& final(self).spec_counter() >= 1
                &&& r->0 == pack_id(
                    final(self).spec_last_timestamp(),
                    final(self).spec_worker_id(),
                    final(self).spec_server_id(),
                    (final(self).spec_counter() - 1) as u64,
                )
                &&& (final(self).spec_last_timestamp() > old(self).spec_last_timestamp()
                    || (final(self).spec_last_timestamp() == old(self).spec_last_timestamp()
                        && final(self).spec_counter() > old(self).spec_counter()))
            }),
    {
        let mut attempts: u64 = 0;
        while attempts < GENERATE_RETRY_LIMIT
            invariant
                self.wf(),
                *self == *old(self),
            decreases GENERATE_RETRY_LIMIT - attempts,
        {
            let now = now_ms();
            match self.try_generate(now) {
                Some(id) => {
                    return Some(id);
                },
                None => {
                },
            }
            attempts = attempts + 1;
        }
        None
    }

    /// Unpacks an id into its absolute timestamp in milliseconds, server
    /// id, worker id and sequence number.
    pub fn parse(id: u64) -> (r: (u64, u8, u8, u16))
        ensures
            r.0 == id_timestamp_ms(id),
            r.1 == id_server(id),
            r.2 == id_worker(id),
            r.3 == id_sequence(id),
    {
        let ts = id / 4194304 + SNOWFLAKE_EPOCH_MS;
        let server = ((id / 4096) % 32) as u8;
        let worker = ((id / 131072) % 32) as u8;
        let seq = (id % 4096) as u16;
        (ts, server, worker, seq)
    }
}

/// Ids of one generator are strictly increasing: if one `generate` call
/// moves the state from `g1` on to `g2`, the id it returns is strictly
/// greater than the one returned by the call that produced `g1`. The
/// hypotheses are exactly what `generate` ensures of each call.
pub proof fn lemma_generate_monotonic(
    g1: SnowflakeGenerator,
    g2: SnowflakeGenerator,
    id1: u64,
    id2: u64,
)
    requires
        g1.wf(),
        g2.wf(),
        g2.spec_server_id() == g1.spec_server_id(),
        g2.spec_worker_id() == g1.spec_worker_id(),
        g1.spec_counter() >= 1,
        g2.spec_counter() >= 1,
        id1 == pack_id(
            g1.spec_last_timestamp(),
            g1.spec_worker_id(),
            g1.spec_server_id(),
            (g1.spec_counter() - 1) as u64,
        ),
        id2 == pack_id(
            g2.spec_last_timestamp(),
            g2.spec_worker_id(),
            g2.spec_server_id(),
            (g2.spec_counter() - 1) as u64,
        ),
        g2.spec_last_timestamp() > g1.spec_last_timestamp() || (g2.spec_last_timestamp()
            == g1.spec_last_timestamp() && g2.spec_counter() > g1.spec_counter()),
    ensures
        id2 > id1,
{
    lemma_pack_monotonic(
        g1.spec_last_timestamp(),
        (g1.spec_counter() - 1) as u64,
        g2.spec_last_timestamp(),
        (g2.spec_counter() - 1) as u64,
        g1.spec_worker_id(),
        g1.spec_server_id(),
    );
}

/// Parsing an id a generator issued recovers the worker and server ids
/// the generator was constructed with. The hypotheses are exactly what
/// `generate` ensures.
pub proof fn lemma_parse_recovers_config(g: SnowflakeGenerator, id: u64)
    requires
        g.wf(),
        g.spec_counter() >= 1,
        id == pack_id(
            g.spec_last_timestamp(),
            g.spec_worker_id(),
            g.spec_server_id(),
            (g.spec_counter() - 1) as u64,
        ),
    ensures
        id_worker(id) == g.spec_worker_id(),
        id_server(id) == g.spec_server_id(),
        id_timestamp_ms(id) == g.spec_last_timestamp() + SNOWFLAKE_EPOCH_MS,
        id_sequence(id) == (g.spec_counter() - 1) as u16,
{
    lemma_parse_pack(
        g.spec_last_timestamp(),
        g.spec_worker_id(),
        g.spec_server_id(),
        (g.spec_counter() - 1) as u64,
    );
}

} // verus!
