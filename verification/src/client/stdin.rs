//! Cuts a stream of bytes into chunks at a separator, and keeps the finished
//! chunks in order until the transport has taken them.
//!
//! The scan goes through the input once, left to right, and never looks back:
//! bytes that began to match the separator are not part of any chunk, whether
//! or not the match is completed, and the byte that breaks a match is ordinary
//! data.

use std::collections::VecDeque;
use vstd::prelude::*;
use crate::client::errors::StdinReadError;
use crate::client::messenger::SetInsert;

verus! {

/// Where a scan stands: the chunk that is being filled, how many bytes of the
/// separator the last bytes read have matched, and the chunks finished so far,
/// oldest first.
pub struct ScanState {
    pub chunk: Seq<u8>,
    pub matched: int,
    pub emitted: Seq<Seq<u8>>,
}

/// The scan after one more byte.
///
/// With an empty separator the byte joins the chunk. Otherwise a byte that is
/// not the next byte of the separator joins the chunk and ends the match; the
/// last byte of the separator ends the match and finishes the chunk, unless
/// the chunk is empty; any other byte of the separator extends the match.
pub open spec fn scan_byte(sep: Seq<u8>, s: ScanState, byte: u8) -> ScanState {
    if sep.len() == 0 {
        ScanState { chunk: s.chunk.push(byte), matched: s.matched, emitted: s.emitted }
    } else if byte != sep[s.matched] {
        ScanState { chunk: s.chunk.push(byte), matched: 0, emitted: s.emitted }
    } else if s.matched == sep.len() - 1 {
        if s.chunk.len() > 0 {
            ScanState { chunk: Seq::empty(), matched: 0, emitted: s.emitted.push(s.chunk) }
        } else {
            ScanState { chunk: s.chunk, matched: 0, emitted: s.emitted }
        }
    } else {
        ScanState { chunk: s.chunk, matched: s.matched + 1, emitted: s.emitted }
    }
}

/// The scan after all of `input`, byte after byte.
pub open spec fn scan(sep: Seq<u8>, s: ScanState, input: Seq<u8>) -> ScanState
    decreases input.len(),
{
    if input.len() == 0 {
        s
    } else {
        scan_byte(sep, scan(sep, s, input.drop_last()), input.last())
    }
}

/// Whether a scan state can come up with separator `sep`: the match is shorter
/// than the separator (and empty when the separator is), and no finished chunk
/// is empty.
pub open spec fn scan_valid(sep: Seq<u8>, s: ScanState) -> bool {
    &&& 0 <= s.matched
    &&& sep.len() == 0 ==> s.matched == 0
    &&& sep.len() > 0 ==> s.matched < sep.len()
    &&& forall|i: int| 0 <= i < s.emitted.len() ==> (#[trigger] s.emitted[i]).len() > 0
}

/// The state before anything was read.
pub open spec fn scan_start() -> ScanState {
    ScanState { chunk: Seq::empty(), matched: 0, emitted: Seq::empty() }
}

/// The tick on which the reader reads its input once and flushes its chunks.
#[derive(Clone, Copy, Debug)]
pub struct ProcessChunks;

/// The chunker: the scan over everything read so far, together with the name
/// of the set that the chunks go to.
pub struct StdinReaderServer {
    current_chunk: Vec<u8>,
    current_sep_idx: usize,
    chunks: VecDeque<Vec<u8>>,
    name: String,
    sep: Vec<u8>,
}

impl StdinReaderServer {
    /// The separator that the input is cut at.
    pub closed spec fn separator(&self) -> Seq<u8> {
        self.sep@
    }

    /// The name of the set that the chunks are inserted into.
    pub closed spec fn set_name(&self) -> Seq<char> {
        self.name@
    }

    /// The bytes read since the last finished chunk.
    pub closed spec fn current(&self) -> Seq<u8> {
        self.current_chunk@
    }

    /// How many bytes of the separator the last bytes read have matched.
    pub closed spec fn matched(&self) -> int {
        self.current_sep_idx as int
    }

    /// The finished chunks that the transport has not taken yet, oldest
    /// first.
    pub closed spec fn pending(&self) -> Seq<Seq<u8>> {
        Seq::new(self.chunks@.len(), |i: int| self.chunks@[i]@)
    }

    /// Where the scan stands.
    pub open spec fn state(&self) -> ScanState {
        ScanState { chunk: self.current(), matched: self.matched(), emitted: self.pending() }
    }

    /// Whether the match is shorter than the separator.
    pub open spec fn wf(&self) -> bool {
        &&& 0 <= self.matched()
        &&& self.separator().len() == 0 ==> self.matched() == 0
        &&& self.separator().len() > 0 ==> self.matched() < self.separator().len()
    }

    /// A chunker for the set `name` that cuts at `sep` and has read nothing.
    pub fn new(name: String, sep: Vec<u8>) -> (server: StdinReaderServer)
        ensures
            server.wf(),
            server.separator() == sep@,
            server.set_name() == name@,
            server.state() == scan_start(),
    {
        let server = StdinReaderServer {
            current_chunk: Vec::new(),
            current_sep_idx: 0,
            chunks: VecDeque::new(),
            name,
            sep,
        };
        assert(server.pending() =~= Seq::<Seq<u8>>::empty());
        server
    }

    /// The bytes read since the last finished chunk.
    pub fn current_chunk(&self) -> (chunk: &Vec<u8>)
        ensures
            chunk@ == self.current(),
    {
        &self.current_chunk
    }

    /// The number of finished chunks that the transport has not taken yet.
    pub fn pending_len(&self) -> (n: usize)
        ensures
            n == self.pending().len(),
    {
        self.chunks.len()
    }

    /// Scans `data`, the bytes that were just read.
    pub fn parse_chunks(&mut self, data: &[u8])
        requires
            old(self).wf(),
        ensures
            final(self).wf(),
            final(self).separator() == old(self).separator(),
            final(self).set_name() == old(self).set_name(),
            final(self).state() == scan(old(self).separator(), old(self).state(), data@),
            old(self).separator().len() == 0 ==> final(self).pending() == old(self).pending()
                && final(self).current() == old(self).current() + data@,
    {
        proof {
            if self.separator().len() == 0 {
                assert(self.separator() =~= Seq::<u8>::empty());
                lemma_scan_empty_separator(self.state(), data@);
            }
        }
        let ghost sep = self.separator();
        let ghost start = self.state();
        let ghost name = self.set_name();
        let mut i: usize = 0;
        assert(data@.take(0) =~= Seq::<u8>::empty());
        while i < data.len()
            invariant
                i <= data.len(),
                self.wf(),
                self.separator() == sep,
                self.set_name() == name,
                self.state() == scan(sep, start, data@.take(i as int)),
            decreases data.len() - i,
        {
            let datum = data[i];
            let ghost before = self.state();
            proof {
                let next = data@.take(i + 1);
                assert(next.drop_last() =~= data@.take(i as int));
                assert(next.last() == datum);
            }
            if self.sep.len() == 0 {
                self.current_chunk.push(datum);
            } else if datum != self.sep[self.current_sep_idx] {
                self.current_sep_idx = 0;
                self.current_chunk.push(datum);
            } else if self.current_sep_idx == self.sep.len() - 1 {
                self.current_sep_idx = 0;
                if self.current_chunk.len() > 0 {
                    let mut chunk = Vec::new();
                    std::mem::swap(&mut chunk, &mut self.current_chunk);
                    self.chunks.push_back(chunk);
                    assert(self.pending() =~= before.emitted.push(before.chunk));
                }
            } else {
                self.current_sep_idx = self.current_sep_idx + 1;
            }
            assert(self.pending() =~= scan_byte(sep, before, datum).emitted);
            assert(self.state() == scan_byte(sep, before, datum));
            i = i + 1;
        }
        assert(data@.take(data.len() as int) =~= data@);
    }
}

/// What the transport said of the chunk it was offered last.
#[derive(Debug)]
pub enum Delivery {
    /// No chunk was offered yet on this tick.
    Begin,
    /// The transport took the chunk.
    Accepted,
    /// The transport was full or closed, and handed the insert back.
    Rejected(SetInsert),
}

impl Delivery {
    /// The chunk that came back, if one did.
    pub open spec fn returned(&self) -> Option<Seq<u8>> {
        match self {
            Delivery::Rejected(insert) => Some(insert.value@),
            _ => None,
        }
    }
}

/// One step of flushing: the queue afterwards, and the chunk to offer to the
/// transport next, if flushing goes on.
///
/// A chunk that came back goes to the front of the queue again, and flushing
/// stops. Otherwise the oldest chunk leaves the queue to be offered; with an
/// empty queue flushing is over.
pub open spec fn flush_step(pending: Seq<Seq<u8>>, returned: Option<Seq<u8>>) -> (
    Seq<Seq<u8>>,
    Option<Seq<u8>>,
) {
    match returned {
        Some(chunk) => (seq![chunk] + pending, None),
        None => if pending.len() > 0 {
            (pending.drop_first(), Some(pending[0]))
        } else {
            (pending, None)
        },
    }
}

/// What comes of offering the queue to a transport that answers the offers
/// made to it with `verdicts`, in turn (`true`: taken): the chunks delivered,
/// in the order of delivery, and the queue that is left.
pub open spec fn flush_run(pending: Seq<Seq<u8>>, verdicts: Seq<bool>) -> (
    Seq<Seq<u8>>,
    Seq<Seq<u8>>,
)
    decreases verdicts.len(),
{
    if verdicts.len() == 0 {
        (Seq::empty(), pending)
    } else {
        let (popped, offered) = flush_step(pending, None);
        match offered {
            None => (Seq::empty(), pending),
            Some(chunk) => if verdicts[0] {
                let (delivered, left) = flush_run(popped, verdicts.drop_first());
                (seq![chunk] + delivered, left)
            } else {
                flush_run(flush_step(popped, Some(chunk)).0, verdicts.drop_first())
            },
        }
    }
}

/// `n` answers, all of them `verdict`.
pub open spec fn answers(n: nat, verdict: bool) -> Seq<bool> {
    Seq::new(n, |i: int| verdict)
}

impl StdinReaderServer {
    /// Takes in what one read of the input came to: the bytes read are
    /// scanned, a failure is handed back to be reported.
    pub fn handle(&mut self, tick: ProcessChunks, read: Result<&[u8], StdinReadError>) -> (report:
        Option<StdinReadError>)
        requires
            old(self).wf(),
        ensures
            final(self).wf(),
            final(self).separator() == old(self).separator(),
            final(self).set_name() == old(self).set_name(),
            match read {
                Ok(data) => report is None && final(self).state() == scan(
                    old(self).separator(),
                    old(self).state(),
                    data@,
                ),
                Err(error) => report == Some(error) && final(self).state() == old(self).state(),
            },
    {
        match read {
            Ok(data) => {
                if data.len() > 0 {
                    self.parse_chunks(data);
                }
                None
            },
            Err(error) => Some(error),
        }
    }

    /// Decides the next step of a flush from what the transport said of the
    /// last offer: the insert to offer next, or `None` when flushing is over
    /// for this tick.
    pub fn flush_chunks(&mut self, delivery: Delivery) -> (offer: Option<SetInsert>)
        requires
            old(self).wf(),
        ensures
            final(self).wf(),
            final(self).separator() == old(self).separator(),
            final(self).set_name() == old(self).set_name(),
            final(self).current() == old(self).current(),
            final(self).matched() == old(self).matched(),
            final(self).pending() == flush_step(old(self).pending(), delivery.returned()).0,
            match offer {
                Some(insert) => flush_step(old(self).pending(), delivery.returned()).1 == Some(
                    insert.value@,
                ) && insert.name@ == old(self).set_name(),
                None => flush_step(old(self).pending(), delivery.returned()).1 is None,
            },
    {
        match delivery {
            Delivery::Rejected(insert) => {
                self.chunks.push_front(insert.value);
                assert(self.pending() =~= seq![insert.value@] + old(self).pending());
                None
            },
            _ => {
                match self.chunks.pop_front() {
                    Some(chunk) => {
                        assert(self.pending() =~= old(self).pending().drop_first());
                        Some(SetInsert { name: self.name.clone(), value: chunk })
                    },
                    None => {
                        assert(self.pending() =~= old(self).pending());
                        None
                    },
                }
            },
        }
    }
}

/// Reading the input in two pieces is reading it in one.
pub proof fn lemma_scan_concat(sep: Seq<u8>, s: ScanState, first: Seq<u8>, second: Seq<u8>)
    ensures
        scan(sep, s, first + second) == scan(sep, scan(sep, s, first), second),
    decreases second.len(),
{
    if second.len() == 0 {
        assert(first + second =~= first);
    } else {
        assert((first + second).drop_last() =~= first + second.drop_last());
        assert((first + second).last() == second.last());
        lemma_scan_concat(sep, s, first, second.drop_last());
    }
}

/// A scan keeps the match shorter than the separator and never finishes an
/// empty chunk.
pub proof fn lemma_scan_valid(sep: Seq<u8>, s: ScanState, input: Seq<u8>)
    requires
        scan_valid(sep, s),
    ensures
        scan_valid(sep, scan(sep, s, input)),
    decreases input.len(),
{
    if input.len() > 0 {
        lemma_scan_valid(sep, s, input.drop_last());
    }
}

/// With an empty separator no chunk is ever finished, and every byte read is
/// kept, in order, in the chunk that is being filled.
pub proof fn lemma_scan_empty_separator(s: ScanState, input: Seq<u8>)
    ensures
        scan(Seq::empty(), s, input) == (ScanState {
            chunk: s.chunk + input,
            matched: s.matched,
            emitted: s.emitted,
        }),
    decreases input.len(),
{
    if input.len() == 0 {
        assert(s.chunk + input =~= s.chunk);
    } else {
        lemma_scan_empty_separator(s, input.drop_last());
        assert((s.chunk + input.drop_last()).push(input.last()) =~= s.chunk + input);
    }
}

/// A scan only ever adds to the finished chunks: those that were there stay,
/// in their places.
pub proof fn lemma_scan_keeps_emitted(sep: Seq<u8>, s: ScanState, input: Seq<u8>)
    ensures
        s.emitted.len() <= scan(sep, s, input).emitted.len(),
        scan(sep, s, input).emitted.take(s.emitted.len() as int) == s.emitted,
    decreases input.len(),
{
    if input.len() == 0 {
        assert(s.emitted.take(s.emitted.len() as int) =~= s.emitted);
    } else {
        lemma_scan_keeps_emitted(sep, s, input.drop_last());
        let before = scan(sep, s, input.drop_last());
        let after = scan(sep, s, input);
        assert(after.emitted.take(s.emitted.len() as int) =~= before.emitted.take(
            s.emitted.len() as int,
        ));
    }
}

/// The chunks of `chunks`, one after the other.
pub open spec fn joined(chunks: Seq<Seq<u8>>) -> Seq<u8>
    decreases chunks.len(),
{
    if chunks.len() == 0 {
        Seq::empty()
    } else {
        joined(chunks.drop_last()) + chunks.last()
    }
}

/// `input` with every occurrence of `byte` taken out.
pub open spec fn without(input: Seq<u8>, byte: u8) -> Seq<u8>
    decreases input.len(),
{
    if input.len() == 0 {
        Seq::empty()
    } else if input.last() == byte {
        without(input.drop_last(), byte)
    } else {
        without(input.drop_last(), byte).push(input.last())
    }
}

/// With a separator of one byte nothing but the separator is lost: the
/// finished chunks and the chunk being filled, one after the other, are what
/// they were before, followed by the input without its separators.
pub proof fn lemma_scan_one_byte_separator(byte: u8, s: ScanState, input: Seq<u8>)
    requires
        scan_valid(seq![byte], s),
    ensures
        joined(scan(seq![byte], s, input).emitted) + scan(seq![byte], s, input).chunk == joined(
            s.emitted,
        ) + s.chunk + without(input, byte),
    decreases input.len(),
{
    let sep = seq![byte];
    let start = joined(s.emitted) + s.chunk;
    if input.len() == 0 {
        assert(start + without(input, byte) =~= start);
    } else {
        let front = input.drop_last();
        let before = scan(sep, s, front);
        let after = scan(sep, s, input);
        lemma_scan_one_byte_separator(byte, s, front);
        lemma_scan_valid(sep, s, front);
        assert(before.matched == 0);
        if input.last() != byte {
            assert(joined(after.emitted) + after.chunk =~= (joined(before.emitted)
                + before.chunk).push(input.last()));
            assert(start + without(input, byte) =~= (start + without(front, byte)).push(
                input.last(),
            ));
        } else if before.chunk.len() > 0 {
            assert(after.emitted.drop_last() =~= before.emitted);
            assert(joined(after.emitted) + after.chunk =~= joined(before.emitted) + before.chunk);
        }
    }
}

/// Whatever the transport answers, what was delivered followed by what is
/// left is the queue as it was: nothing is lost, sent twice or reordered.
pub proof fn lemma_flush_run_keeps_order(pending: Seq<Seq<u8>>, verdicts: Seq<bool>)
    ensures
        flush_run(pending, verdicts).0 + flush_run(pending, verdicts).1 == pending,
    decreases verdicts.len(),
{
    if verdicts.len() == 0 || pending.len() == 0 {
        assert(Seq::<Seq<u8>>::empty() + pending =~= pending);
    } else if verdicts[0] {
        lemma_flush_run_keeps_order(pending.drop_first(), verdicts.drop_first());
        let (delivered, left) = flush_run(pending.drop_first(), verdicts.drop_first());
        assert((seq![pending[0]] + delivered) + left =~= seq![pending[0]] + (delivered + left));
        assert(seq![pending[0]] + pending.drop_first() =~= pending);
    } else {
        assert(seq![pending[0]] + pending.drop_first() =~= pending);
        lemma_flush_run_keeps_order(pending, verdicts.drop_first());
    }
}

/// A transport that takes every offer is delivered the whole queue, in order.
pub proof fn lemma_flush_run_all_accepted(pending: Seq<Seq<u8>>)
    ensures
        flush_run(pending, answers(pending.len(), true)) == (pending, Seq::<Seq<u8>>::empty()),
    decreases pending.len(),
{
    let verdicts = answers(pending.len(), true);
    if pending.len() > 0 {
        lemma_flush_run_all_accepted(pending.drop_first());
        assert(verdicts.drop_first() =~= answers(pending.drop_first().len(), true));
        assert(seq![pending[0]] + pending.drop_first() =~= pending);
    }
}

/// A transport that turns down `n` offers in a row and then takes every offer
/// is delivered each chunk of the queue exactly once, in the order of the
/// queue, and nothing is left.
pub proof fn lemma_backpressure_preserves_order(pending: Seq<Seq<u8>>, n: nat)
    ensures
        flush_run(pending, answers(n, false) + answers(pending.len(), true)) == (
            pending,
            Seq::<Seq<u8>>::empty(),
        ),
    decreases n,
{
    let verdicts = answers(n, false) + answers(pending.len(), true);
    if n == 0 {
        assert(verdicts =~= answers(pending.len(), true));
        lemma_flush_run_all_accepted(pending);
    } else if pending.len() == 0 {
    } else {
        assert(verdicts.drop_first() =~= answers((n - 1) as nat, false) + answers(
            pending.len(),
            true,
        ));
        assert(seq![pending[0]] + pending.drop_first() =~= pending);
        lemma_backpressure_preserves_order(pending, (n - 1) as nat);
    }
}

} // verus!
