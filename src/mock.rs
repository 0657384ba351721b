use vstd::prelude::*;
use vstd::slice::slice_to_vec;

use crate::connection::Connection;
use crate::stream::{bytes_of, Stream};

verus! {

/// Whether a programmed exchange answers `data`: its request is `data` and
/// its response is just as long.
pub open spec fn answers(entry: (Seq<u8>, Seq<u8>), data: Seq<u8>) -> bool {
    entry.0 == data && entry.1.len() == data.len()
}

/// The answer that a table of programmed exchanges gives to `data`: the
/// response of the first entry that answers it, or `data` itself (an echo)
/// where none does.
pub open spec fn answer(table: Seq<(Seq<u8>, Seq<u8>)>, data: Seq<u8>) -> Seq<u8>
    decreases table.len(),
{
    if table.len() == 0 {
        data
    } else if answers(table[0], data) {
        table[0].1
    } else {
        answer(table.drop_first(), data)
    }
}

/// `len` bytes: those of `chunk` first, then zeros. This is what a zero-filled
/// buffer of `len` bytes holds after `chunk` has been read into it.
pub open spec fn fill(chunk: Seq<u8>, len: nat) -> Seq<u8> {
    Seq::new(len, |i: int| if i < chunk.len() { chunk[i] } else { 0u8 })
}

/// A scripted transport for exercising drivers without hardware.
///
/// - `transfer` answers from a table of programmed exchanges, and echoes what
///   it was sent where no entry matches.
/// - `write` takes its outcome from a queue, oldest first, and succeeds once
///   the queue is empty; the data of each successful write is logged.
/// - `read` takes its outcome from another queue: programmed bytes fill a
///   zero-filled buffer of the requested length, so missing bytes read as zero
///   and surplus bytes are dropped. Once that queue is empty it reads zeros.
pub struct MockStream {
    exchanges: Vec<(Vec<u8>, Vec<u8>)>,
    write_outcomes: Vec<Result<(), std::io::Error>>,
    read_outcomes: Vec<Result<Vec<u8>, std::io::Error>>,
    written: Vec<Vec<u8>>,
}

impl MockStream {
    /// The programmed exchanges, as (request, response) pairs, first first.
    pub closed spec fn table(self) -> Seq<(Seq<u8>, Seq<u8>)> {
        self.exchanges@.map_values(|p: (Vec<u8>, Vec<u8>)| (p.0@, p.1@))
    }

    /// The outcomes that coming writes will have, oldest first.
    pub closed spec fn write_queue(self) -> Seq<Result<(), std::io::Error>> {
        self.write_outcomes@
    }

    /// The outcomes that coming reads will be made of, oldest first.
    pub closed spec fn read_queue(self) -> Seq<Result<Seq<u8>, std::io::Error>> {
        self.read_outcomes@.map_values(|r: Result<Vec<u8>, std::io::Error>| bytes_of(r))
    }

    /// The data of every successful write so far, oldest first.
    pub closed spec fn log(self) -> Seq<Seq<u8>> {
        self.written@.map_values(|v: Vec<u8>| v@)
    }

    /// What the next write returns.
    pub open spec fn write_outcome(self) -> Result<(), std::io::Error> {
        if self.write_queue().len() == 0 {
            Ok(())
        } else {
            self.write_queue()[0]
        }
    }

    /// What the next read of `len` bytes returns.
    pub open spec fn read_outcome(self, len: nat) -> Result<Seq<u8>, std::io::Error> {
        if self.read_queue().len() == 0 {
            Ok(fill(Seq::empty(), len))
        } else {
            match self.read_queue()[0] {
                Ok(chunk) => Ok(fill(chunk, len)),
                Err(e) => Err(e),
            }
        }
    }

    /// What a transfer of `data` returns.
    pub open spec fn transfer_outcome(self, data: Seq<u8>) -> Result<Seq<u8>, std::io::Error> {
        Ok(answer(self.table(), data))
    }

    /// A mock with no programmed exchanges and empty queues: it echoes every
    /// transfer, accepts every write and reads zeros.
    pub fn new() -> (m: Self)
        ensures
            m.table() == Seq::<(Seq<u8>, Seq<u8>)>::empty(),
            m.write_queue() == Seq::<Result<(), std::io::Error>>::empty(),
            m.read_queue() == Seq::<Result<Seq<u8>, std::io::Error>>::empty(),
            m.log() == Seq::<Seq<u8>>::empty(),
    {
        let m = MockStream {
            exchanges: Vec::new(),
            write_outcomes: Vec::new(),
            read_outcomes: Vec::new(),
            written: Vec::new(),
        };
        assert(m.table() =~= Seq::<(Seq<u8>, Seq<u8>)>::empty());
        assert(m.read_queue() =~= Seq::<Result<Seq<u8>, std::io::Error>>::empty());
        assert(m.log() =~= Seq::<Seq<u8>>::empty());
        m
    }

    /// Programs `transfer(request)` to answer `response`. An exchange whose
    /// response is not exactly as long as its request cannot happen on a
    /// full-duplex bus, so it is refused and nothing changes.
    pub fn on_transfer(&mut self, request: Vec<u8>, response: Vec<u8>) -> (accepted: bool)
        ensures
            accepted == (request@.len() == response@.len()),
            final(self).table() == (if accepted {
                old(self).table().push((request@, response@))
            } else {
                old(self).table()
            }),
            final(self).write_queue() == old(self).write_queue(),
            final(self).read_queue() == old(self).read_queue(),
            final(self).log() == old(self).log(),
    {
        if request.len() != response.len() {
            return false;
        }
        self.exchanges.push((request, response));
        proof {
            assert(self.table() =~= old(self).table().push((request@, response@)));
        }
        true
    }

    /// Queues the outcome of a coming write, after those already queued.
    pub fn push_write(&mut self, outcome: Result<(), std::io::Error>)
        ensures
            final(self).write_queue() == old(self).write_queue().push(outcome),
            final(self).table() == old(self).table(),
            final(self).read_queue() == old(self).read_queue(),
            final(self).log() == old(self).log(),
    {
        self.write_outcomes.push(outcome);
    }

    /// Queues the outcome of a coming read, after those already queued.
    pub fn push_read(&mut self, outcome: Result<Vec<u8>, std::io::Error>)
        ensures
            final(self).read_queue() == old(self).read_queue().push(bytes_of(outcome)),
            final(self).table() == old(self).table(),
            final(self).write_queue() == old(self).write_queue(),
            final(self).log() == old(self).log(),
    {
        self.read_outcomes.push(outcome);
        proof {
            assert(self.read_queue() =~= old(self).read_queue().push(bytes_of(outcome)));
        }
    }

    /// The data of every successful write so far, oldest first.
    pub fn written(&self) -> (w: &Vec<Vec<u8>>)
        ensures
            w@.map_values(|v: Vec<u8>| v@) == self.log(),
    {
        &self.written
    }
}


/// Whether `a` and `b` hold the same bytes.
fn same_bytes(a: &[u8], b: &[u8]) -> (r: bool)
    ensures
        r == (a@ == b@),
{
    if a.len() != b.len() {
        return false;
    }
    let mut i: usize = 0;
    while i < a.len()
        invariant
            a@.len() == b@.len(),
            0 <= i <= a@.len(),
            forall|j: int| 0 <= j < i ==> a@[j] == b@[j],
        decreases a@.len() - i,
    {
        if a[i] != b[i] {
            return false;
        }
        i += 1;
    }
    assert(a@ =~= b@);
    true
}

/// A zero-filled buffer of `len` bytes after `chunk` has been read into it.
fn fill_buffer(chunk: &[u8], len: usize) -> (v: Vec<u8>)
    ensures
        v@ == fill(chunk@, len as nat),
{
    let mut v: Vec<u8> = Vec::new();
    let mut i: usize = 0;
    while i < len
        invariant
            0 <= i <= len,
            v@.len() == i,
            forall|j: int| 0 <= j < i ==> v@[j] == fill(chunk@, len as nat)[j],
        decreases len - i,
    {
        if i < chunk.len() {
            v.push(chunk[i]);
        } else {
            v.push(0u8);
        }
        i += 1;
    }
    assert(v@ =~= fill(chunk@, len as nat));
    v
}

/// The answer is the response of the first entry whose request matches.
proof fn lemma_answer_first_match(table: Seq<(Seq<u8>, Seq<u8>)>, data: Seq<u8>, k: int)
    requires
        0 <= k < table.len(),
        answers(table[k], data),
        forall|j: int| 0 <= j < k ==> !answers(#[trigger] table[j], data),
    ensures
        answer(table, data) == table[k].1,
    decreases k,
{
    if k > 0 {
        assert(!answers(table[0], data));
        assert forall|j: int| 0 <= j < k - 1 implies !answers(#[trigger] table.drop_first()[j], data) by {
            assert(table.drop_first()[j] == table[j + 1]);
        }
        lemma_answer_first_match(table.drop_first(), data, k - 1);
    }
}

impl Stream for MockStream {
    open spec fn write_spec(pre: Self, data: Seq<u8>, post: Self, r: Result<(), std::io::Error>) -> bool {
        &&& r == pre.write_outcome()
        &&& post.write_queue() == (if pre.write_queue().len() == 0 {
            pre.write_queue()
        } else {
            pre.write_queue().drop_first()
        })
        &&& post.log() == (if r is Ok { pre.log().push(data) } else { pre.log() })
        &&& post.table() == pre.table()
        &&& post.read_queue() == pre.read_queue()
    }

    open spec fn read_spec(pre: Self, len: nat, post: Self, r: Result<Seq<u8>, std::io::Error>) -> bool {
        &&& r == pre.read_outcome(len)
        &&& post.read_queue() == (if pre.read_queue().len() == 0 {
            pre.read_queue()
        } else {
            pre.read_queue().drop_first()
        })
        &&& post.table() == pre.table()
        &&& post.write_queue() == pre.write_queue()
        &&& post.log() == pre.log()
    }

    open spec fn transfer_spec(s: Self, data: Seq<u8>, r: Result<Seq<u8>, std::io::Error>) -> bool {
        r == s.transfer_outcome(data)
    }

    fn write(&mut self, data: &[u8]) -> (r: Result<(), std::io::Error>) {
        let r = if self.write_outcomes.len() > 0 {
            let first = self.write_outcomes.remove(0);
            first
        } else {
            Ok(())
        };
        match &r {
            Ok(_) => {
                let copy = slice_to_vec(data);
                self.written.push(copy);
            },
            Err(_) => {},
        }
        proof {
            assert(self.log() =~= (if r is Ok { old(self).log().push(data@) } else { old(self).log() }));
        }
        r
    }

    fn read(&mut self, len: usize) -> (r: Result<Vec<u8>, std::io::Error>) {
        if self.read_outcomes.len() > 0 {
            let first = self.read_outcomes.remove(0);
            proof {
                assert(self.read_queue() =~= old(self).read_queue().drop_first());
            }
            match first {
                Ok(chunk) => Ok(fill_buffer(chunk.as_slice(), len)),
                Err(e) => Err(e),
            }
        } else {
            let none: Vec<u8> = Vec::new();
            Ok(fill_buffer(none.as_slice(), len))
        }
    }

    fn transfer(&self, data: &[u8]) -> (r: Result<Vec<u8>, std::io::Error>) {
        let mut i: usize = 0;
        while i < self.exchanges.len()
            invariant
                0 <= i <= self.exchanges@.len(),
                forall|j: int| 0 <= j < i ==> !answers(#[trigger] self.table()[j], data@),
            decreases self.exchanges@.len() - i,
        {
            let request = &self.exchanges[i].0;
            let response = &self.exchanges[i].1;
            if response.len() == data.len() && same_bytes(request.as_slice(), data) {
                proof {
                    lemma_answer_first_match(self.table(), data@, i as int);
                }
                return Ok(slice_to_vec(response.as_slice()));
            }
            i += 1;
        }
        proof {
            lemma_answer_no_match(self.table(), data@);
        }
        Ok(slice_to_vec(data))
    }
}

/// Where no entry's request matches, the answer is an echo.
proof fn lemma_answer_no_match(table: Seq<(Seq<u8>, Seq<u8>)>, data: Seq<u8>)
    requires
        forall|j: int| 0 <= j < table.len() ==> !answers(#[trigger] table[j], data),
    ensures
        answer(table, data) == data,
    decreases table.len(),
{
    if table.len() > 0 {
        assert(!answers(table[0], data));
        assert forall|j: int| 0 <= j < table.drop_first().len() implies
            !answers(#[trigger] table.drop_first()[j], data) by {
            assert(table.drop_first()[j] == table[j + 1]);
        }
        lemma_answer_no_match(table.drop_first(), data);
    }
}

/// Writing through a connection to a mock changes none of the answers that
/// later reads and transfers get: those depend on the read queue and the
/// programmed exchanges alone, which a write leaves as they were.
pub proof fn lemma_write_keeps_answers(
    pre: Connection<MockStream>,
    data: Seq<u8>,
    post: Connection<MockStream>,
    r: Result<(), std::io::Error>,
)
    requires
        MockStream::write_spec(pre.transport(), data, post.transport(), r),
    ensures
        forall|len: nat| #[trigger] post.transport().read_outcome(len) == pre.transport().read_outcome(len),
        forall|d: Seq<u8>| #[trigger] post.transport().transfer_outcome(d) == pre.transport().transfer_outcome(d),
{
}

/// A mock with nothing programmed echoes: a transfer through its connection
/// returns exactly the bytes sent.
pub proof fn lemma_echo_transfer(c: Connection<MockStream>, data: Seq<u8>, r: Result<Seq<u8>, std::io::Error>)
    requires
        c.transport().table().len() == 0,
        MockStream::transfer_spec(c.transport(), data, r),
    ensures
        r == Ok::<Seq<u8>, std::io::Error>(data),
{
}

/// A transfer through a connection to a mock succeeds with exactly as many
/// bytes as were sent: the response of the first programmed exchange that
/// answers them, and an echo where none does.
pub proof fn lemma_transfer_answers_programmed(
    c: Connection<MockStream>,
    data: Seq<u8>,
    r: Result<Seq<u8>, std::io::Error>,
)
    requires
        MockStream::transfer_spec(c.transport(), data, r),
    ensures
        r is Ok,
        r->Ok_0.len() == data.len(),
        forall|k: int|
            0 <= k < c.transport().table().len() && answers(#[trigger] c.transport().table()[k], data)
                && (forall|j: int| 0 <= j < k ==> !answers(#[trigger] c.transport().table()[j], data))
                ==> r->Ok_0 == c.transport().table()[k].1,
        (forall|j: int| 0 <= j < c.transport().table().len() ==> !answers(#[trigger] c.transport().table()[j], data))
            ==> r->Ok_0 == data,
{
    let t = c.transport().table();
    lemma_answer_len(t, data);
    assert forall|k: int|
        0 <= k < t.len() && answers(#[trigger] t[k], data) && (forall|j: int| 0 <= j < k ==> !answers(#[trigger] t[j], data))
        implies r->Ok_0 == t[k].1 by {
        lemma_answer_first_match(t, data, k);
    }
    if forall|j: int| 0 <= j < t.len() ==> !answers(#[trigger] t[j], data) {
        lemma_answer_no_match(t, data);
    }
}

/// Every answer is exactly as long as what it answers.
proof fn lemma_answer_len(table: Seq<(Seq<u8>, Seq<u8>)>, data: Seq<u8>)
    ensures
        answer(table, data).len() == data.len(),
    decreases table.len(),
{
    if table.len() > 0 && !answers(table[0], data) {
        lemma_answer_len(table.drop_first(), data);
    }
}

} // verus!
