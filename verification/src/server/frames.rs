//! WebSocket frames and the limits on what is queued for a client.

use vstd::prelude::*;
use vstd::utf8::*;

verus! {

/// Scrollback kept for a session, in bytes.
pub const MAX_HISTORY_BYTES: usize = 524288;

/// Most bytes of a binary frame.
pub const BINARY_FRAME_MAX: usize = 16384;

/// Most bytes that are queued for a client before the stream is cut.
pub const MAX_PENDING_BYTES: usize = 1048576;

/// A WebSocket message.
#[derive(Debug)]
pub enum Message {
    /// A text frame.
    Text(String),
    /// A binary frame.
    Binary(Vec<u8>),
}

/// The mathematical value of a [`Message`].
pub enum MessageView {
    Text(Seq<char>),
    Binary(Seq<u8>),
}

impl View for Message {
    type V = MessageView;

    open spec fn view(&self) -> MessageView {
        match *self {
            Message::Text(text) => MessageView::Text(text@),
            Message::Binary(bytes) => MessageView::Binary(bytes@),
        }
    }
}

/// The values of a list of messages.
pub open spec fn messages_view(messages: Seq<Message>) -> Seq<MessageView> {
    Seq::new(messages.len(), |i: int| messages[i]@)
}

/// What `String::from_utf8_lossy` makes of the bytes.
pub uninterp spec fn lossy_text(bytes: Seq<u8>) -> Seq<char>;

/// `String::from_utf8_lossy`: the text that the bytes encode, with a
/// replacement character for what is not valid UTF-8. Valid UTF-8 comes out
/// as it is.
#[verifier::external_body]
fn decode_lossy(bytes: &[u8]) -> (text: String)
    ensures
        text@ == lossy_text(bytes@),
        valid_utf8(bytes@) ==> text@ == decode_utf8(bytes@),
{
    String::from_utf8_lossy(bytes).to_string()
}

/// Wraps PTY output as a binary frame.
pub fn binary_frame(bytes: Vec<u8>) -> (frame: Message)
    ensures
        frame@ == MessageView::Binary(bytes@),
{
    Message::Binary(bytes)
}

/// Wraps PTY output as a text frame.
pub fn text_frame(bytes: &[u8]) -> (frame: Message)
    ensures
        frame@ == MessageView::Text(lossy_text(bytes@)),
        valid_utf8(bytes@) ==> frame@ == MessageView::Text(decode_utf8(bytes@)),
{
    Message::Text(decode_lossy(bytes))
}

/// `bytes` cut into pieces of the largest size that a frame may have, with
/// what is left as the last piece.
pub open spec fn chunks(bytes: Seq<u8>) -> Seq<MessageView>
    decreases bytes.len(),
{
    if bytes.len() == 0 {
        Seq::empty()
    } else if bytes.len() <= BINARY_FRAME_MAX {
        seq![MessageView::Binary(bytes)]
    } else {
        seq![MessageView::Binary(bytes.take(BINARY_FRAME_MAX as int))] + chunks(
            bytes.skip(BINARY_FRAME_MAX as int),
        )
    }
}

/// Cuts `bytes` into binary frames of limited size.
pub fn binary_chunks(bytes: Vec<u8>) -> (frames: Vec<Message>)
    ensures
        messages_view(frames@) == chunks(bytes@),
{
    let mut frames: Vec<Message> = Vec::new();
    let n: usize = bytes.len();
    let mut from: usize = 0;
    assert(bytes@.skip(0) =~= bytes@);
    assert(messages_view(frames@) =~= Seq::<MessageView>::empty());
    while from < n
        invariant
            from <= n,
            n == bytes@.len(),
            chunks(bytes@) =~= messages_view(frames@) + chunks(bytes@.skip(from as int)),
        decreases n - from,
    {
        let ghost rest = bytes@.skip(from as int);
        let ghost before = messages_view(frames@);
        let size: usize = if n - from <= BINARY_FRAME_MAX {
            n - from
        } else {
            BINARY_FRAME_MAX
        };
        let mut piece: Vec<u8> = Vec::new();
        let mut i: usize = 0;
        while i < size
            invariant
                i <= size,
                from + size <= n,
                n == bytes@.len(),
                piece@ == bytes@.subrange(from as int, from + i),
            decreases size - i,
        {
            piece.push(bytes[from + i]);
            i += 1;
            assert(piece@ =~= bytes@.subrange(from as int, from + i));
        }
        frames.push(Message::Binary(piece));
        assert(messages_view(frames@) =~= before.push(MessageView::Binary(piece@)));
        proof {
            if size < rest.len() {
                assert(piece@ =~= rest.take(size as int));
                assert(rest.skip(size as int) =~= bytes@.skip(from + size));
            } else {
                assert(piece@ =~= rest);
                assert(bytes@.skip(from + size) =~= Seq::<u8>::empty());
            }
        }
        from += size;
    }
    assert(bytes@.skip(n as int) =~= Seq::<u8>::empty());
    frames
}

/// The bytes of a list of binary frames, one after the other.
pub open spec fn joined(frames: Seq<MessageView>) -> Seq<u8>
    decreases frames.len(),
{
    if frames.len() == 0 {
        Seq::empty()
    } else {
        (match frames[0] {
            MessageView::Binary(bytes) => bytes,
            MessageView::Text(_) => Seq::empty(),
        }) + joined(frames.skip(1))
    }
}

/// Cutting loses nothing: the frames, joined, are the bytes again.
pub proof fn lemma_chunks_join_to_the_whole(bytes: Seq<u8>)
    ensures
        joined(chunks(bytes)) == bytes,
    decreases bytes.len(),
{
    reveal_with_fuel(joined, 2);
    if bytes.len() == 0 {
    } else if bytes.len() <= BINARY_FRAME_MAX {
        assert(chunks(bytes).skip(1) =~= Seq::<MessageView>::empty());
        assert(joined(chunks(bytes)) =~= bytes);
    } else {
        let rest = bytes.skip(BINARY_FRAME_MAX as int);
        lemma_chunks_join_to_the_whole(rest);
        assert(chunks(bytes).skip(1) =~= chunks(rest));
        assert(joined(chunks(bytes)) =~= bytes);
    }
}

/// Every frame is binary, holds at least one byte, and no more than a frame
/// may hold.
pub proof fn lemma_chunks_are_small(bytes: Seq<u8>, i: int)
    requires
        0 <= i < chunks(bytes).len(),
    ensures
        chunks(bytes)[i] matches MessageView::Binary(b) && 0 < b.len() <= BINARY_FRAME_MAX,
    decreases bytes.len(),
{
    if bytes.len() > BINARY_FRAME_MAX && i > 0 {
        let rest = bytes.skip(BINARY_FRAME_MAX as int);
        assert(chunks(bytes)[i] == chunks(rest)[i - 1]);
        lemma_chunks_are_small(rest, i - 1);
    }
}

/// Whether `len` more bytes fit into the budget of a client that has
/// `pending` bytes queued.
pub open spec fn accepts(pending: nat, len: nat) -> bool {
    pending + len <= MAX_PENDING_BYTES
}

/// Bytes queued for a client since its queue was last drained.
#[derive(Debug)]
pub struct ByteBudget {
    /// Bytes queued.
    pub pending: usize,
}

impl Default for ByteBudget {
    fn default() -> (budget: Self)
        ensures
            budget.pending == 0,
    {
        ByteBudget { pending: 0 }
    }
}

impl ByteBudget {
    /// Counts `len` more bytes. Returns `false`, and starts over, when they
    /// would exceed the budget: then the stream is to be cut and the client
    /// brought up to date from the history.
    pub fn accept(&mut self, len: usize) -> (accepted: bool)
        requires
            old(self).pending + len <= usize::MAX,
        ensures
            accepted == accepts(old(self).pending as nat, len as nat),
            accepted ==> final(self).pending == old(self).pending + len,
            !accepted ==> final(self).pending == 0,
            final(self).pending <= MAX_PENDING_BYTES,
    {
        if self.pending + len > MAX_PENDING_BYTES {
            self.pending = 0;
            return false;
        }
        self.pending += len;
        true
    }

    /// Starts over.
    pub fn reset(&mut self)
        ensures
            final(self).pending == 0,
    {
        self.pending = 0;
    }
}

/// The scrollback after `data` has been appended: the last bytes of all, as
/// many as are kept.
pub open spec fn kept(history: Seq<u8>, data: Seq<u8>) -> Seq<u8> {
    let all = history + data;
    if all.len() > MAX_HISTORY_BYTES {
        all.skip(all.len() - MAX_HISTORY_BYTES)
    } else {
        all
    }
}

/// Appends output to the scrollback and drops the oldest bytes beyond the
/// limit.
pub fn push_history(history: &mut Vec<u8>, data: &[u8])
    requires
        old(history)@.len() + data@.len() <= usize::MAX,
    ensures
        final(history)@ == kept(old(history)@, data@),
        final(history)@.len() <= MAX_HISTORY_BYTES,
{
    let ghost all = history@ + data@;
    history.extend_from_slice(data);
    assert(history@ =~= all);
    let n: usize = history.len();
    if n > MAX_HISTORY_BYTES {
        let tail: Vec<u8> = history.split_off(n - MAX_HISTORY_BYTES);
        assert(tail@ =~= all.skip(n - MAX_HISTORY_BYTES));
        *history = tail;
    }
}

/// The scrollback does not depend on how the output was cut into pieces: two
/// pieces leave what their concatenation leaves.
pub proof fn lemma_history_ignores_piece_boundaries(history: Seq<u8>, a: Seq<u8>, b: Seq<u8>)
    ensures
        kept(kept(history, a), b) == kept(history, a + b),
{
    assert(kept(kept(history, a), b) =~= kept(history, a + b));
}

/// The scrollback is always the end of everything that was written.
pub proof fn lemma_history_is_a_suffix(history: Seq<u8>, data: Seq<u8>)
    ensures
        kept(history, data).is_suffix_of(history + data),
        kept(history, data).len() <= MAX_HISTORY_BYTES,
        (history + data).len() <= MAX_HISTORY_BYTES ==> kept(history, data) == history + data,
{
    let all = history + data;
    let k = kept(history, data);
    assert(k =~= all.subrange(all.len() - k.len(), all.len() as int));
}

/// All frames but the last are as large as a frame may be, and the last one
/// holds what is left: no client is sent more frames than it takes.
pub proof fn lemma_chunks_are_as_few_as_possible(bytes: Seq<u8>, i: int)
    requires
        0 <= i < chunks(bytes).len(),
    ensures
        i < chunks(bytes).len() - 1 ==> chunks(bytes)[i] == MessageView::Binary(
            bytes.subrange(i * 16384, (i + 1) * 16384),
        ),
        i == chunks(bytes).len() - 1 ==> chunks(bytes)[i] == MessageView::Binary(
            bytes.skip(i * 16384),
        ),
        16384 * (chunks(bytes).len() - 1) < bytes.len() <= 16384 * chunks(bytes).len(),
    decreases bytes.len(),
{
    if bytes.len() <= 16384 {
        assert(bytes.skip(0) =~= bytes);
    } else {
        let rest = bytes.skip(16384);
        assert(chunks(bytes) == seq![MessageView::Binary(bytes.take(16384))] + chunks(rest));
        assert(chunks(rest).len() > 0);
        if i > 0 {
            lemma_chunks_are_as_few_as_possible(rest, i - 1);
            assert(chunks(bytes)[i] == chunks(rest)[i - 1]);
            assert(rest.skip((i - 1) * 16384) =~= bytes.skip(i * 16384));
            if i < chunks(bytes).len() - 1 {
                lemma_chunks_are_as_few_as_possible(rest, i);
                assert(rest.subrange((i - 1) * 16384, i * 16384) =~= bytes.subrange(
                    i * 16384,
                    (i + 1) * 16384,
                ));
            }
        } else {
            lemma_chunks_are_as_few_as_possible(rest, 0);
            assert(bytes.take(16384) =~= bytes.subrange(0, 16384));
        }
    }
}

/// A piece is counted exactly as long as no more than a megabyte is queued with
/// it, however much of that was queued before.
pub proof fn lemma_budget_is_one_megabyte(pending: nat, len: nat)
    ensures
        accepts(pending, len) <==> pending + len <= 1024 * 1024,
{
}

/// The budget does not depend on how output is cut into pieces: two pieces are
/// both accepted exactly when they would be as one, and a part of what is
/// accepted is accepted.
pub proof fn lemma_budget_ignores_piece_boundaries(pending: nat, a: nat, b: nat)
    ensures
        accepts(pending, a + b) <==> accepts(pending, a) && accepts(pending + a, b),
{
}

/// The scrollback holds as much of the output as half a megabyte takes: every
/// byte of it stands as far from the end as it was written.
pub proof fn lemma_history_keeps_the_last_half_megabyte(history: Seq<u8>, data: Seq<u8>, back: int)
    requires
        0 < back <= 512 * 1024,
        back <= history.len() + data.len(),
    ensures
        kept(history, data).len() >= back,
        kept(history, data)[kept(history, data).len() - back] == (history + data)[history.len()
            + data.len() - back],
        kept(history, data).len() <= 512 * 1024,
{
}

} // verus!
