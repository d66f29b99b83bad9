//! The buffered match sink at the heart of the mining pipeline: matched
//! candidates queue in a bounded buffer and leave it in whole batches, so
//! that every match pushed is persisted exactly once; and the selection of a
//! persistence backend from an output path.
use vstd::prelude::*;

verus! {

/// One match bound for persistence: the candidate's account id, the keypair
/// halves as hex text, the mnemonic phrase when one exists, the contract tag
/// and the matching rule's code.
pub struct MatchRow {
    pub account_id: String,
    pub public: String,
    pub secret: String,
    pub seed: String,
    pub tvc: u8,
    pub rule: u8,
}

/// A bounded match buffer. Rows queue here; when a push finds the buffer
/// over capacity, the accumulated batch is handed out for persistence first
/// and the new row starts the next batch.
pub struct MatchBuffer {
    rows: Vec<MatchRow>,
    capacity: usize,
}

impl MatchBuffer {
    /// The rows waiting to be persisted, oldest first.
    pub closed spec fn view(&self) -> Seq<MatchRow> {
        self.rows@
    }

    /// The configured capacity.
    pub closed spec fn cap(&self) -> nat {
        self.capacity as nat
    }

    pub fn new(capacity: usize) -> (r: Self)
        ensures
            r@ == Seq::<MatchRow>::empty(),
            r.cap() == capacity,
    {
        MatchBuffer { rows: Vec::new(), capacity }
    }

    /// How many rows are waiting.
    pub fn buffered(&self) -> (r: usize)
        ensures
            r == self@.len(),
    {
        self.rows.len()
    }

    /// Queue one row. When the buffer already holds more than its capacity,
    /// the whole batch comes back for persistence and the new row remains as
    /// the only buffered one; no row is ever dropped or duplicated.
    pub fn push(&mut self, row: MatchRow) -> (drained: Option<Vec<MatchRow>>)
        ensures
            final(self).cap() == old(self).cap(),
            match drained {
                None => old(self)@.len() <= old(self).cap() && final(self)@ == old(self)@.push(
                    row,
                ),
                Some(d) => old(self)@.len() > old(self).cap() && d@ == old(self)@ && final(self)@
                    =~= seq![row],
            },
    {
        if self.rows.len() > self.capacity {
            let mut drained: Vec<MatchRow> = Vec::new();
            core::mem::swap(&mut drained, &mut self.rows);
            self.rows.push(row);
            Some(drained)
        } else {
            self.rows.push(row);
            None
        }
    }

    /// Hand out everything buffered and clear the buffer.
    pub fn save(&mut self) -> (drained: Vec<MatchRow>)
        ensures
            final(self).cap() == old(self).cap(),
            drained@ == old(self)@,
            final(self)@ == Seq::<MatchRow>::empty(),
    {
        let mut drained: Vec<MatchRow> = Vec::new();
        core::mem::swap(&mut drained, &mut self.rows);
        drained
    }
}

/// The rows persisted and the rows still buffered after feeding a sequence
/// of rows, one `push` at a time, into an empty buffer of capacity `cap`;
/// each step mirrors `MatchBuffer::push`.
pub open spec fn fed(rows: Seq<MatchRow>, cap: nat) -> (Seq<MatchRow>, Seq<MatchRow>)
    decreases rows.len(),
{
    if rows.len() == 0 {
        (Seq::empty(), Seq::empty())
    } else {
        let prior = fed(rows.drop_last(), cap);
        if prior.1.len() > cap {
            (prior.0 + prior.1, seq![rows.last()])
        } else {
            (prior.0, prior.1.push(rows.last()))
        }
    }
}

/// Conservation: however many rows pass through the buffer, what was
/// persisted followed by what is still buffered is exactly the pushed
/// sequence, in order — nothing dropped, nothing duplicated. Together with
/// a final `save`, every pushed row is persisted exactly once.
pub proof fn lemma_sink_conservation(rows: Seq<MatchRow>, cap: nat)
    ensures
        fed(rows, cap).0 + fed(rows, cap).1 == rows,
    decreases rows.len(),
{
    if rows.len() == 0 {
        assert(fed(rows, cap).0 + fed(rows, cap).1 =~= rows);
    } else {
        lemma_sink_conservation(rows.drop_last(), cap);
        let prior = fed(rows.drop_last(), cap);
        if prior.1.len() > cap {
            assert((prior.0 + prior.1) + seq![rows.last()] =~= rows);
        } else {
            assert(prior.0 + prior.1.push(rows.last()) =~= (prior.0 + prior.1).push(rows.last()));
            assert(rows.drop_last().push(rows.last()) =~= rows);
        }
    }
}

/// The characters of the prefix naming the key-value backend.
pub open spec fn redis_chars() -> Seq<char> {
    seq!['r', 'e', 'd', 'i', 's']
}

/// The characters naming the flat-file backend.
pub open spec fn csv_chars() -> Seq<char> {
    seq!['c', 's', 'v']
}

/// The backend a destination path selects: the key-value store when the
/// path starts with its scheme, the flat CSV file otherwise.
pub open spec fn backend_of(p: Seq<char>) -> Seq<char> {
    if p.len() >= 5 && p.take(5) == redis_chars() {
        redis_chars()
    } else {
        csv_chars()
    }
}

/// A persistence destination: the output path and the backend it selects.
pub struct FileBackend {
    pub path: String,
    pub backend_type: String,
}

impl FileBackend {
    /// Select the backend named by a destination path.
    pub fn from_path(path: &str) -> (r: Self)
        ensures
            r.path@ == path@,
            r.backend_type@ == backend_of(path@),
    {
        proof {
            reveal_strlit("redis");
            reveal_strlit("csv");
        }
        let n = path.unicode_len();
        let mut is_redis = n >= 5;
        if is_redis {
            is_redis = path.get_char(0) == 'r' && path.get_char(1) == 'e' && path.get_char(2)
                == 'd' && path.get_char(3) == 'i' && path.get_char(4) == 's';
        }
        let backend_type = if is_redis {
            String::from_str("redis")
        } else {
            String::from_str("csv")
        };
        proof {
            if is_redis {
                assert(path@.take(5) =~= redis_chars());
                assert(backend_type@ =~= redis_chars());
            } else {
                if path@.len() >= 5 && path@.take(5) == redis_chars() {
                    assert(path@[0] == 'r' && path@[1] == 'e' && path@[2] == 'd' && path@[3] == 'i'
                        && path@[4] == 's');
                }
                assert(backend_type@ =~= csv_chars());
            }
        }
        FileBackend { path: String::from_str(path), backend_type }
    }
}

/// A key-value persistence destination: a connection string and the rows
/// waiting to be written, kept for interface parity with the flat-file
/// connector.
pub struct RedisConnector {
    pub connection: String,
    pub data_buffer: Vec<Vec<String>>,
}

} // verus!
