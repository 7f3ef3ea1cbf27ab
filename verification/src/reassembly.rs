//! Reassembly of chunked byte streams into complete logical messages.
//!
//! A logical message arrives as a run of chunks; the last chunk of the run
//! carries a terminal flag. Within one polling tick the reassembler consumes
//! the chunks drained from the channel in arrival order, emits every message
//! that a terminal chunk closed, and carries the unterminated remainder to
//! the next tick.

use vstd::prelude::*;

verus! {

/// One fragment of a logical message as delivered by the channel: payload
/// bytes plus a flag marking the end of the message.
pub struct Chunk {
    /// The payload bytes carried by this fragment.
    pub bytes: Vec<u8>,
    /// True when this fragment closes the current logical message.
    pub is_terminal: bool,
}

/// The mathematical content of a chunk: its payload and its terminal flag.
pub ghost struct ChunkModel {
    /// The payload bytes.
    pub payload: Seq<u8>,
    /// Whether the chunk closes the current message.
    pub terminal: bool,
}

impl View for Chunk {
    type V = ChunkModel;

    open spec fn view(&self) -> ChunkModel {
        ChunkModel { payload: self.bytes@, terminal: self.is_terminal }
    }
}

impl Chunk {
    /// Wrap payload bytes and a terminal flag as a chunk.
    pub fn new(bytes: Vec<u8>, is_terminal: bool) -> (c: Chunk)
        ensures
            c@ == (ChunkModel { payload: bytes@, terminal: is_terminal }),
    {
        Chunk { bytes, is_terminal }
    }
}

/// The models of a sequence of chunks.
pub open spec fn chunk_models(cs: Seq<Chunk>) -> Seq<ChunkModel> {
    cs.map_values(|c: Chunk| c@)
}

/// The views of a sequence of byte buffers.
pub open spec fn buffer_views(ms: Seq<Vec<u8>>) -> Seq<Seq<u8>> {
    ms.map_values(|m: Vec<u8>| m@)
}

/// The completed messages produced by feeding the chunks `cs`, in order,
/// into a reassembler whose in-progress buffer holds `buf`: every chunk
/// appends its payload, and a terminal chunk closes the accumulated bytes
/// into one message.
pub open spec fn completed_messages(buf: Seq<u8>, cs: Seq<ChunkModel>) -> Seq<Seq<u8>>
    decreases cs.len(),
{
    if cs.len() == 0 {
        Seq::empty()
    } else if cs.first().terminal {
        seq![buf + cs.first().payload] + completed_messages(Seq::empty(), cs.drop_first())
    } else {
        completed_messages(buf + cs.first().payload, cs.drop_first())
    }
}

/// The in-progress buffer left behind after feeding the chunks `cs` into a
/// reassembler whose buffer holds `buf`.
pub open spec fn remainder(buf: Seq<u8>, cs: Seq<ChunkModel>) -> Seq<u8>
    decreases cs.len(),
{
    if cs.len() == 0 {
        buf
    } else if cs.first().terminal {
        remainder(Seq::empty(), cs.drop_first())
    } else {
        remainder(buf + cs.first().payload, cs.drop_first())
    }
}

/// Accumulates chunk payloads and yields a completed message at each
/// terminal chunk; the unterminated remainder is carried across ticks.
pub struct Reassembler {
    in_progress: Vec<u8>,
}

impl View for Reassembler {
    type V = Seq<u8>;

    closed spec fn view(&self) -> Seq<u8> {
        self.in_progress@
    }
}

impl Reassembler {
    /// A reassembler with an empty in-progress buffer.
    pub fn new() -> (r: Reassembler)
        ensures
            r@ == Seq::<u8>::empty(),
    {
        Reassembler { in_progress: Vec::new() }
    }

    /// The bytes accumulated so far for the current, still unterminated
    /// message.
    pub fn in_progress(&self) -> (b: &Vec<u8>)
        ensures
            b@ == self@,
    {
        &self.in_progress
    }

    /// Feed one chunk: its payload is appended to the in-progress buffer; a
    /// terminal chunk then closes the buffer into a completed message pushed
    /// onto `out`. The chunk is only read, never retained.
    pub fn push_chunk(&mut self, chunk: &Chunk, out: &mut Vec<Vec<u8>>)
        ensures
            buffer_views(final(out)@) == buffer_views(old(out)@)
                + completed_messages(old(self)@, seq![chunk@]),
            final(self)@ == remainder(old(self)@, seq![chunk@]),
    {
        let ghost pre = self.in_progress@;
        let n = chunk.bytes.len();
        proof {
            assert(pre + chunk.bytes@.take(0) =~= pre);
        }
        let mut j: usize = 0;
        while j < n
            invariant
                j <= n,
                n == chunk.bytes.len(),
                self.in_progress@ == pre + chunk.bytes@.take(j as int),
            decreases n - j,
        {
            let b = chunk.bytes[j];
            self.in_progress.push(b);
            j = j + 1;
            proof {
                assert(pre + chunk.bytes@.take(j as int)
                    =~= (pre + chunk.bytes@.take(j - 1)).push(chunk.bytes@[j - 1]));
            }
        }
        proof {
            assert(chunk.bytes@.take(n as int) =~= chunk.bytes@);
            assert(seq![chunk@].drop_first() =~= Seq::<ChunkModel>::empty());
            assert(completed_messages(Seq::<u8>::empty(), Seq::<ChunkModel>::empty())
                == Seq::<Seq<u8>>::empty());
            assert(remainder(Seq::<u8>::empty(), Seq::<ChunkModel>::empty())
                == Seq::<u8>::empty());
            assert(completed_messages(pre + chunk@.payload, Seq::<ChunkModel>::empty())
                == Seq::<Seq<u8>>::empty());
            assert(remainder(pre + chunk@.payload, Seq::<ChunkModel>::empty())
                == pre + chunk@.payload);
        }
        if chunk.is_terminal {
            let mut done: Vec<u8> = Vec::new();
            core::mem::swap(&mut done, &mut self.in_progress);
            out.push(done);
            proof {
                assert(completed_messages(pre, seq![chunk@])
                    =~= seq![pre + chunk@.payload]);
                assert(buffer_views(out@)
                    =~= buffer_views(old(out)@) + completed_messages(pre, seq![chunk@]));
            }
        } else {
            proof {
                assert(completed_messages(pre, seq![chunk@])
                    =~= Seq::<Seq<u8>>::empty());
                assert(buffer_views(out@)
                    =~= buffer_views(old(out)@) + completed_messages(pre, seq![chunk@]));
            }
        }
    }

    /// Consume the chunks drained from the channel in one tick, in arrival
    /// order, and return the messages completed within this tick, in order.
    /// The unterminated remainder stays behind for the next tick.
    pub fn tick(&mut self, chunks: &Vec<Chunk>) -> (out: Vec<Vec<u8>>)
        ensures
            buffer_views(out@) == completed_messages(old(self)@, chunk_models(chunks@)),
            final(self)@ == remainder(old(self)@, chunk_models(chunks@)),
    {
        let ghost b0 = self.in_progress@;
        let ghost models = chunk_models(chunks@);
        let mut out: Vec<Vec<u8>> = Vec::new();
        let n = chunks.len();
        proof {
            assert(models.skip(0) =~= models);
            assert(buffer_views(out@) + completed_messages(b0, models)
                =~= completed_messages(b0, models));
        }
        let mut i: usize = 0;
        while i < n
            invariant
                i <= n,
                n == chunks.len(),
                models == chunk_models(chunks@),
                completed_messages(b0, models)
                    == buffer_views(out@) + completed_messages(self@, models.skip(i as int)),
                remainder(b0, models) == remainder(self@, models.skip(i as int)),
            decreases n - i,
        {
            let ghost pre_buf = self@;
            let ghost pre_out = out@;
            let chunk = &chunks[i];
            self.push_chunk(chunk, &mut out);
            proof {
                assert(models.skip(i as int).first() == chunk@);
                assert(models.skip(i as int).drop_first() =~= models.skip(i + 1));
                lemma_feed_first(pre_buf, models.skip(i as int));
                assert(buffer_views(out@) + completed_messages(self@, models.skip(i + 1))
                    =~= (buffer_views(pre_out) + completed_messages(pre_buf, seq![chunk@]))
                        + completed_messages(self@, models.skip(i + 1)));
                assert((buffer_views(pre_out) + completed_messages(pre_buf, seq![chunk@]))
                        + completed_messages(self@, models.skip(i + 1))
                    =~= buffer_views(pre_out)
                        + (completed_messages(pre_buf, seq![chunk@])
                            + completed_messages(self@, models.skip(i + 1))));
            }
            i = i + 1;
        }
        proof {
            assert(models.skip(n as int) =~= Seq::<ChunkModel>::empty());
            assert(buffer_views(out@) + completed_messages(self@, models.skip(n as int))
                =~= buffer_views(out@));
        }
        out
    }
}

/// The concatenation of all payloads of `cs`, in arrival order.
pub open spec fn payload_concat(cs: Seq<ChunkModel>) -> Seq<u8>
    decreases cs.len(),
{
    if cs.len() == 0 {
        Seq::empty()
    } else {
        cs.first().payload + payload_concat(cs.drop_first())
    }
}

/// The concatenation of the byte buffers `ms`, in order.
pub open spec fn message_concat(ms: Seq<Seq<u8>>) -> Seq<u8>
    decreases ms.len(),
{
    if ms.len() == 0 {
        Seq::empty()
    } else {
        ms.first() + message_concat(ms.drop_first())
    }
}

/// Law: a tick that drains no chunks completes no message and leaves the
/// in-progress buffer unchanged.
pub proof fn lemma_empty_tick(buf: Seq<u8>)
    ensures
        completed_messages(buf, Seq::<ChunkModel>::empty()) == Seq::<Seq<u8>>::empty(),
        remainder(buf, Seq::<ChunkModel>::empty()) == buf,
{
}

/// Law: no byte is lost or invented: the bytes of all completed messages, in
/// order, followed by the final in-progress remainder, are exactly the
/// initial buffer followed by all chunk payloads in arrival order.
pub proof fn lemma_no_data_loss(buf: Seq<u8>, cs: Seq<ChunkModel>)
    ensures
        message_concat(completed_messages(buf, cs)) + remainder(buf, cs)
            == buf + payload_concat(cs),
    decreases cs.len(),
{
    if cs.len() == 0 {
        assert(message_concat(completed_messages(buf, cs)) + remainder(buf, cs)
            =~= buf + payload_concat(cs));
    } else {
        let c = cs.first();
        let rest = cs.drop_first();
        if c.terminal {
            lemma_no_data_loss(Seq::empty(), rest);
            let closed = buf + c.payload;
            let m = seq![closed] + completed_messages(Seq::empty(), rest);
            assert(m.first() == closed);
            assert(m.drop_first() =~= completed_messages(Seq::empty(), rest));
            assert(Seq::<u8>::empty() + payload_concat(rest) =~= payload_concat(rest));
            assert(message_concat(m) + remainder(Seq::empty(), rest)
                =~= closed
                    + (message_concat(completed_messages(Seq::empty(), rest))
                        + remainder(Seq::empty(), rest)));
            assert(closed + payload_concat(rest) =~= buf + payload_concat(cs));
        } else {
            lemma_no_data_loss(buf + c.payload, rest);
            assert((buf + c.payload) + payload_concat(rest) =~= buf + payload_concat(cs));
        }
    }
}

/// The number of terminal chunks in `cs`: how many messages the chunks
/// close.
pub open spec fn terminal_count(cs: Seq<ChunkModel>) -> nat
    decreases cs.len(),
{
    if cs.len() == 0 {
        0
    } else {
        (if cs.first().terminal {
            1nat
        } else {
            0nat
        }) + terminal_count(cs.drop_first())
    }
}

/// Law: the reassembler yields exactly one completed message per terminal
/// chunk, whatever the initial buffer holds.
pub proof fn lemma_message_count(buf: Seq<u8>, cs: Seq<ChunkModel>)
    ensures
        completed_messages(buf, cs).len() == terminal_count(cs),
    decreases cs.len(),
{
    if cs.len() == 0 {
    } else if cs.first().terminal {
        lemma_message_count(Seq::empty(), cs.drop_first());
    } else {
        lemma_message_count(buf + cs.first().payload, cs.drop_first());
    }
}

/// The position in `cs` of the terminal chunk that closes the `j`-th
/// completed message (both counted from zero). Meaningful only while
/// `j < terminal_count(cs)`.
pub open spec fn terminal_index(cs: Seq<ChunkModel>, j: nat) -> int
    decreases cs.len(),
{
    if cs.len() == 0 {
        0
    } else if cs.first().terminal {
        if j == 0 {
            0
        } else {
            1 + terminal_index(cs.drop_first(), (j - 1) as nat)
        }
    } else {
        1 + terminal_index(cs.drop_first(), j)
    }
}

/// Law: reassembly is correct. With the terminal chunks of `cs` standing at
/// positions `t_0 < t_1 < ...`, the reassembler yields one completed message
/// per terminal chunk, and the `j`-th message is the concatenation of the
/// payloads of the chunks after the previous terminal (exclusive) through
/// the `j`-th terminal (inclusive) — prefixed, for the first message alone,
/// by the initial in-progress buffer.
pub proof fn lemma_reassembly_correct(buf: Seq<u8>, cs: Seq<ChunkModel>, j: nat)
    requires
        j < terminal_count(cs),
    ensures
        completed_messages(buf, cs).len() == terminal_count(cs),
        ({
            let lo: int = if j == 0 {
                0
            } else {
                terminal_index(cs, (j - 1) as nat) + 1
            };
            let hi: int = terminal_index(cs, j) + 1;
            &&& 0 <= lo
            &&& lo < hi
            &&& hi <= cs.len()
            &&& cs[hi - 1].terminal
            &&& completed_messages(buf, cs)[j as int] == (if j == 0 {
                buf
            } else {
                Seq::<u8>::empty()
            }) + payload_concat(cs.subrange(lo, hi))
        }),
    decreases cs.len(),
{
    lemma_message_count(buf, cs);
    let c = cs.first();
    let rest = cs.drop_first();
    if c.terminal {
        if j == 0 {
            let sub = cs.subrange(0, 1);
            assert(sub =~= seq![c]);
            assert(sub.drop_first() =~= Seq::<ChunkModel>::empty());
            assert(payload_concat(Seq::<ChunkModel>::empty()) == Seq::<u8>::empty());
            assert(payload_concat(sub) =~= c.payload);
            assert(completed_messages(buf, cs)[0] == buf + c.payload);
            assert(buf + payload_concat(sub) =~= buf + c.payload);
        } else {
            let j1: nat = (j - 1) as nat;
            lemma_reassembly_correct(Seq::empty(), rest, j1);
            let lo1: int = if j1 == 0 {
                0
            } else {
                terminal_index(rest, (j1 - 1) as nat) + 1
            };
            let hi1: int = terminal_index(rest, j1) + 1;
            let lo: int = terminal_index(cs, j1) + 1;
            let hi: int = terminal_index(cs, j) + 1;
            assert(hi == hi1 + 1);
            assert(lo == lo1 + 1);
            assert(cs[hi - 1] == rest[hi1 - 1]);
            assert(cs.subrange(lo, hi) =~= rest.subrange(lo1, hi1));
            assert(completed_messages(buf, cs)[j as int]
                == completed_messages(Seq::empty(), rest)[j1 as int]);
            assert(Seq::<u8>::empty() + payload_concat(rest.subrange(lo1, hi1))
                == completed_messages(Seq::empty(), rest)[j1 as int]);
        }
    } else {
        lemma_reassembly_correct(buf + c.payload, rest, j);
        let hi1: int = terminal_index(rest, j) + 1;
        let hi: int = terminal_index(cs, j) + 1;
        assert(hi == hi1 + 1);
        assert(cs[hi - 1] == rest[hi1 - 1]);
        if j == 0 {
            let sub = cs.subrange(0, hi);
            assert(sub.first() == c);
            assert(sub.drop_first() =~= rest.subrange(0, hi1));
            assert(payload_concat(sub)
                == c.payload + payload_concat(rest.subrange(0, hi1)));
            assert((buf + c.payload) + payload_concat(rest.subrange(0, hi1))
                =~= buf + (c.payload + payload_concat(rest.subrange(0, hi1))));
            assert(completed_messages(buf, cs)[0] == buf + payload_concat(sub));
        } else {
            let j1: nat = (j - 1) as nat;
            let lo1: int = terminal_index(rest, j1) + 1;
            let lo: int = terminal_index(cs, j1) + 1;
            assert(lo == lo1 + 1);
            assert(cs.subrange(lo, hi) =~= rest.subrange(lo1, hi1));
        }
    }
}

/// Feeding a non-empty chunk sequence is feeding its first chunk and then
/// the rest from the buffer the first chunk left behind.
proof fn lemma_feed_first(buf: Seq<u8>, cs: Seq<ChunkModel>)
    requires
        cs.len() > 0,
    ensures
        completed_messages(buf, cs)
            == completed_messages(buf, seq![cs.first()])
                + completed_messages(remainder(buf, seq![cs.first()]), cs.drop_first()),
        remainder(buf, cs)
            == remainder(remainder(buf, seq![cs.first()]), cs.drop_first()),
{
    let c = cs.first();
    assert(seq![c].drop_first() =~= Seq::<ChunkModel>::empty());
    assert(completed_messages(Seq::<u8>::empty(), Seq::<ChunkModel>::empty())
        == Seq::<Seq<u8>>::empty());
    assert(remainder(Seq::<u8>::empty(), Seq::<ChunkModel>::empty()) == Seq::<u8>::empty());
    assert(completed_messages(buf + c.payload, Seq::<ChunkModel>::empty())
        == Seq::<Seq<u8>>::empty());
    assert(remainder(buf + c.payload, Seq::<ChunkModel>::empty()) == buf + c.payload);
    if c.terminal {
        assert(completed_messages(buf, seq![c]) =~= seq![buf + c.payload]);
        assert(remainder(buf, seq![c]) =~= Seq::<u8>::empty());
        assert(completed_messages(buf, cs)
            =~= seq![buf + c.payload] + completed_messages(Seq::empty(), cs.drop_first()));
    } else {
        assert(completed_messages(buf, seq![c]) =~= Seq::<Seq<u8>>::empty());
        assert(remainder(buf, seq![c]) =~= buf + c.payload);
        assert(completed_messages(buf, seq![c])
                + completed_messages(buf + c.payload, cs.drop_first())
            =~= completed_messages(buf + c.payload, cs.drop_first()));
    }
}

} // verus!
