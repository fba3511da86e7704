//! The three pipes of a running game. One reader each for standard output and
//! standard error relays what the game prints; one writer feeds standard input.
//!
//! Each lives in a thread of the caller's, which does the reading, writing and
//! waiting and follows what is decided here.
use crate::buffer::contents;
use bytes::Bytes;
use vstd::prelude::*;

verus! {

/// How much a reader reads at once, at most.
pub const READ_BUFFER_SIZE: usize = 512;

/// A piece of what a game printed.
#[derive(Debug)]
pub struct StdoutMsg {
    pub bytes: Bytes,
}

/// The news that a game has closed both its outputs.
#[derive(Debug)]
pub struct ExitMsg;

/// What a standard output reader did: how many bytes the game wrote.
#[derive(Clone, Copy, Debug, PartialEq, Eq, Structural)]
pub struct StdoutStats {
    pub bytes_written: usize,
}

/// What a standard error reader did: how many bytes the game wrote.
#[derive(Clone, Copy, Debug, PartialEq, Eq, Structural)]
pub struct StderrStats {
    pub bytes_written: usize,
}

/// What a standard input writer did: how many bytes it was given for the game.
#[derive(Clone, Copy, Debug, PartialEq, Eq, Structural)]
pub struct StdinStats {
    pub bytes_read: usize,
}

/// What a reader is to do after a read.
#[derive(Debug)]
pub enum ReaderAction {
    /// Send this to the game's actor, then read on.
    Forward(StdoutMsg),
    /// Raise the flag that both readers share, and stop.
    End,
}

impl View for ReaderAction {
    type V = Option<Seq<u8>>;

    /// The bytes to forward, if any.
    open spec fn view(&self) -> Option<Seq<u8>> {
        match *self {
            ReaderAction::Forward(msg) => Some(contents(msg.bytes)),
            ReaderAction::End => None,
        }
    }
}

/// How many bytes a read returned. A read that failed returned none.
pub open spec fn read_len<E>(read: Result<usize, E>) -> int {
    match read {
        Ok(size) => size as int,
        Err(_) => 0,
    }
}

/// What a reader counts and forwards when it has read `chunk`, after `count`
/// bytes. An empty chunk is the end.
pub open spec fn reader_step(count: nat, chunk: Seq<u8>) -> (nat, Option<Seq<u8>>) {
    if chunk.len() > 0 {
        (count + chunk.len(), Some(chunk))
    } else {
        (count, None)
    }
}

/// A reader of one of a game's outputs.
#[derive(Debug)]
pub struct OutputReader {
    pub bytes_written: usize,
}

impl OutputReader {
    /// A reader that has read nothing.
    pub fn new() -> (reader: OutputReader)
        ensures
            reader.bytes_written == 0,
    {
        OutputReader { bytes_written: 0 }
    }

    /// Takes in what a read into `buf` returned. What was read is forwarded and
    /// counted; where nothing was, or the read failed, the stream is at its end.
    pub fn on_read<E>(&mut self, buf: &[u8], read: Result<usize, E>) -> (action: ReaderAction)
        requires
            read_len(read) <= buf@.len(),
            old(self).bytes_written + read_len(read) <= usize::MAX,
        ensures
            (final(self).bytes_written as nat, action@) == reader_step(
                old(self).bytes_written as nat,
                buf@.take(read_len(read)),
            ),
            match read {
                Ok(size) => if size > 0 {
                    &&& action matches ReaderAction::Forward(msg)
                    &&& contents(msg.bytes) == buf@.subrange(0, size as int)
                    &&& final(self).bytes_written == old(self).bytes_written + size
                } else {
                    action is End && final(self).bytes_written == old(self).bytes_written
                },
                Err(_) => action is End && final(self).bytes_written == old(self).bytes_written,
            },
    {
        let size: usize = match read {
            Ok(size) => size,
            Err(_) => 0,
        };
        if size > 0 {
            self.bytes_written = self.bytes_written + size;
            let chunk = vstd::slice::slice_subrange(buf, 0, size);
            ReaderAction::Forward(StdoutMsg { bytes: Bytes::copy_from_slice(chunk) })
        } else {
            ReaderAction::End
        }
    }

    /// What this reader did, if it reads standard output.
    pub fn stdout_stats(&self) -> (stats: StdoutStats)
        ensures
            stats.bytes_written == self.bytes_written,
    {
        StdoutStats { bytes_written: self.bytes_written }
    }

    /// What this reader did, if it reads standard error.
    pub fn stderr_stats(&self) -> (stats: StderrStats)
        ensures
            stats.bytes_written == self.bytes_written,
    {
        StderrStats { bytes_written: self.bytes_written }
    }
}

/// Whether a reader that has come to its end announces the exit, given whether
/// the flag that both readers share was raised when it raised it: the second one
/// does.
pub open spec fn announces_exit(was_raised: bool) -> bool {
    was_raised
}

/// What a reader sends when it has come to its end and has raised the flag that
/// both readers share. `was_raised` says whether it was raised already.
pub fn on_end(was_raised: bool) -> (msg: Option<ExitMsg>)
    ensures
        msg is Some <==> announces_exit(was_raised),
        msg is Some <==> was_raised,
{
    if was_raised {
        Some(ExitMsg)
    } else {
        None
    }
}

/// The count and the forwarded chunks of a reader whose reads return `chunks`,
/// until it stops.
pub open spec fn reader_run(count: nat, chunks: Seq<Seq<u8>>) -> (nat, Seq<Seq<u8>>)
    decreases chunks.len(),
{
    if chunks.len() == 0 {
        (count, Seq::empty())
    } else {
        match reader_step(count, chunks[0]) {
            (next, Some(chunk)) => {
                let (last, forwarded) = reader_run(next, chunks.drop_first());
                (last, seq![chunk] + forwarded)
            },
            (next, None) => (next, Seq::empty()),
        }
    }
}

/// A reader forwards everything up to the end of its stream, unchanged and in
/// order, counts exactly the bytes that it forwards, and does nothing after the
/// end.
pub proof fn law_reader_relays_everything(
    count: nat,
    chunks: Seq<Seq<u8>>,
    after: Seq<Seq<u8>>,
)
    requires
        forall|i: int| 0 <= i < chunks.len() ==> (#[trigger] chunks[i]).len() > 0,
    ensures
        reader_run(count, chunks.push(Seq::empty()) + after) == (
            count + chunks.flatten().len(),
            chunks,
        ),
    decreases chunks.len(),
{
    let all = chunks.push(Seq::empty()) + after;
    if chunks.len() == 0 {
        assert(reader_run(count, all).1 =~= chunks);
    } else {
        let rest = chunks.drop_first();
        assert(all.drop_first() =~= rest.push(Seq::empty()) + after);
        law_reader_relays_everything(count + chunks[0].len(), rest, after);
        assert(seq![chunks[0]] + rest =~= chunks);
        assert(chunks.flatten() == chunks[0] + rest.flatten());
    }
}

/// One of a game's outputs.
pub ghost enum Output {
    Stdout,
    Stderr,
}

/// A message to a game's actor.
pub ghost enum RelayMsg {
    Data(Seq<u8>),
    Exit,
}

/// Whether the shared flag is raised after these reads: whether one came to an
/// end.
pub open spec fn flag_raised(reads: Seq<(Output, Seq<u8>)>) -> bool
    decreases reads.len(),
{
    reads.len() > 0 && (reads.last().1.len() == 0 || flag_raised(reads.drop_last()))
}

/// The messages that both readers send on these reads, in the order in which they
/// happen.
pub open spec fn relayed(reads: Seq<(Output, Seq<u8>)>) -> Seq<RelayMsg>
    decreases reads.len(),
{
    if reads.len() == 0 {
        Seq::empty()
    } else {
        let before = relayed(reads.drop_last());
        match reader_step(0, reads.last().1).1 {
            Some(chunk) => before.push(RelayMsg::Data(chunk)),
            None => if announces_exit(flag_raised(reads.drop_last())) {
                before.push(RelayMsg::Exit)
            } else {
                before
            },
        }
    }
}

/// Whether the reads can happen: a reader reads no more once it came to its end.
pub open spec fn can_happen(reads: Seq<(Output, Seq<u8>)>) -> bool {
    forall|i: int, j: int|
        0 <= i < j < reads.len() && (#[trigger] reads[i]).0 == (#[trigger] reads[j]).0
            ==> reads[i].1.len() > 0
}

/// Whether the reader of `output` came to its end.
pub open spec fn has_ended(reads: Seq<(Output, Seq<u8>)>, output: Output) -> bool {
    exists|i: int|
        0 <= i < reads.len() && (#[trigger] reads[i]).0 == output && reads[i].1.len() == 0
}

proof fn lemma_ended_step(reads: Seq<(Output, Seq<u8>)>, output: Output)
    requires
        reads.len() > 0,
    ensures
        has_ended(reads, output) <==> (has_ended(reads.drop_last(), output) || (reads.last().0
            == output && reads.last().1.len() == 0)),
{
    let before = reads.drop_last();
    if has_ended(reads, output) {
        let i = choose|i: int|
            0 <= i < reads.len() && (#[trigger] reads[i]).0 == output && reads[i].1.len() == 0;
        if i < before.len() {
            assert(before[i] == reads[i]);
        }
    }
    if has_ended(before, output) {
        let i = choose|i: int|
            0 <= i < before.len() && (#[trigger] before[i]).0 == output && before[i].1.len() == 0;
        assert(reads[i] == before[i]);
    }
    if reads.last().0 == output && reads.last().1.len() == 0 {
        assert(reads[reads.len() - 1] == reads.last());
    }
}

proof fn lemma_flag_is_an_end(reads: Seq<(Output, Seq<u8>)>)
    ensures
        flag_raised(reads) <==> has_ended(reads, Output::Stdout) || has_ended(
            reads,
            Output::Stderr,
        ),
    decreases reads.len(),
{
    if reads.len() > 0 {
        lemma_flag_is_an_end(reads.drop_last());
        lemma_ended_step(reads, Output::Stdout);
        lemma_ended_step(reads, Output::Stderr);
    }
}

/// However the two readers interleave, the exit is announced once, by the reader
/// that comes to its end second, after everything else was sent; and it is not
/// announced while one of the outputs is open.
pub proof fn law_exit_is_announced_once(reads: Seq<(Output, Seq<u8>)>)
    requires
        can_happen(reads),
    ensures
        has_ended(reads, Output::Stdout) && has_ended(reads, Output::Stderr) ==> relayed(
            reads,
        ).len() > 0 && relayed(reads).last() == RelayMsg::Exit && !relayed(
            reads,
        ).drop_last().contains(RelayMsg::Exit),
        !(has_ended(reads, Output::Stdout) && has_ended(reads, Output::Stderr)) ==> !relayed(
            reads,
        ).contains(RelayMsg::Exit),
    decreases reads.len(),
{
    if reads.len() > 0 {
        let before = reads.drop_last();
        assert forall|i: int, j: int|
            0 <= i < j < before.len() && (#[trigger] before[i]).0 == (
            #[trigger] before[j]).0 implies before[i].1.len() > 0 by {
            assert(reads[i].0 == reads[j].0);
        }
        law_exit_is_announced_once(before);
        lemma_flag_is_an_end(before);
        lemma_ended_step(reads, Output::Stdout);
        lemma_ended_step(reads, Output::Stderr);
        let last = reads.last();
        assert(!has_ended(before, last.0)) by {
            if has_ended(before, last.0) {
                let i = choose|i: int|
                    0 <= i < before.len() && (#[trigger] before[i]).0 == last.0
                        && before[i].1.len() == 0;
                assert(reads[i].0 == reads[reads.len() - 1].0);
            }
        }
        assert(!relayed(before).contains(RelayMsg::Exit));
        assert forall|msg: RelayMsg| #[trigger]
            relayed(before).push(msg).drop_last() == relayed(before) by {
            assert(relayed(before).push(msg).drop_last() =~= relayed(before));
        }
    }
}

/// A message to the writer of a game's standard input.
#[derive(Debug)]
pub enum StdinMessage {
    Data(Vec<u8>),
    Eof,
}

impl View for StdinMessage {
    type V = Option<Seq<u8>>;

    /// The bytes for the game, if any.
    open spec fn view(&self) -> Option<Seq<u8>> {
        match *self {
            StdinMessage::Data(data) => Some(data@),
            StdinMessage::Eof => None,
        }
    }
}

/// What the writer is to do with a message.
#[derive(Debug)]
pub enum WriterAction {
    /// Write this to the game.
    Write(Vec<u8>),
    /// Stop.
    Finish,
}

impl View for WriterAction {
    type V = Option<Seq<u8>>;

    /// The bytes to write, if any.
    open spec fn view(&self) -> Option<Seq<u8>> {
        match *self {
            WriterAction::Write(data) => Some(data@),
            WriterAction::Finish => None,
        }
    }
}

/// What the writer is to do after a write.
#[derive(Clone, Copy, Debug, PartialEq, Eq, Structural)]
pub enum AfterWrite {
    /// Flush, and wait for the next message.
    Flush,
    /// Stop.
    Finish,
}

/// The bytes that a received message asks to write. The end of the input asks for
/// none, nor does a queue whose senders are gone.
pub open spec fn to_write<E>(received: Result<StdinMessage, E>) -> Option<Seq<u8>> {
    match received {
        Ok(msg) => msg@,
        Err(_) => None,
    }
}

/// The count and the next thing to do after a write of `len` bytes: a message is
/// counted in full if writing it succeeded, and the first failure is the end.
pub open spec fn after_write(count: nat, len: nat, ok: bool) -> (nat, AfterWrite) {
    if ok {
        (count + len, AfterWrite::Flush)
    } else {
        (count, AfterWrite::Finish)
    }
}

/// A writer to a game's standard input.
#[derive(Debug)]
pub struct StdinWriter {
    pub bytes_read: usize,
}

impl StdinWriter {
    /// A writer that has written nothing.
    pub fn new() -> (writer: StdinWriter)
        ensures
            writer.bytes_read == 0,
    {
        StdinWriter { bytes_read: 0 }
    }

    /// Takes in what was received from the queue. The writer stops at the end of
    /// the input and where the queue is closed.
    pub fn on_message<E>(&self, received: Result<StdinMessage, E>) -> (action: WriterAction)
        ensures
            action@ == to_write(received),
            match received {
                Ok(StdinMessage::Data(data)) => action matches WriterAction::Write(bytes) && bytes@
                    == data@,
                Ok(StdinMessage::Eof) => action is Finish,
                Err(_) => action is Finish,
            },
    {
        match received {
            Ok(StdinMessage::Data(data)) => WriterAction::Write(data),
            Ok(StdinMessage::Eof) => WriterAction::Finish,
            Err(_) => WriterAction::Finish,
        }
    }

    /// Takes in how writing a message of `len` bytes went.
    pub fn on_write<E>(&mut self, len: usize, written: Result<usize, E>) -> (then: AfterWrite)
        requires
            written is Ok ==> old(self).bytes_read + len <= usize::MAX,
        ensures
            (final(self).bytes_read as nat, then) == after_write(
                old(self).bytes_read as nat,
                len as nat,
                written is Ok,
            ),
            written is Ok ==> final(self).bytes_read == old(self).bytes_read + len && then is Flush,
            written is Err ==> final(self).bytes_read == old(self).bytes_read && then is Finish,
    {
        match written {
            Ok(_) => {
                self.bytes_read = self.bytes_read + len;
                AfterWrite::Flush
            },
            Err(_) => AfterWrite::Finish,
        }
    }

    /// What this writer did.
    pub fn stats(&self) -> (stats: StdinStats)
        ensures
            stats.bytes_read == self.bytes_read,
    {
        StdinStats { bytes_read: self.bytes_read }
    }
}

/// The count and the messages written by a writer that finds `queue`: what each
/// message asks to write, and whether writing it would succeed.
pub open spec fn writer_run(count: nat, queue: Seq<(Option<Seq<u8>>, bool)>) -> (
    nat,
    Seq<Seq<u8>>,
)
    decreases queue.len(),
{
    if queue.len() == 0 {
        (count, Seq::empty())
    } else {
        match queue[0].0 {
            None => (count, Seq::empty()),
            Some(data) => match after_write(count, data.len(), queue[0].1) {
                (next, AfterWrite::Flush) => {
                    let (last, written) = writer_run(next, queue.drop_first());
                    (last, seq![data] + written)
                },
                (next, AfterWrite::Finish) => (next, Seq::empty()),
            },
        }
    }
}

/// The writer counts exactly the bytes of the messages that it wrote.
pub proof fn law_writer_counts_what_it_writes(count: nat, queue: Seq<(Option<Seq<u8>>, bool)>)
    ensures
        writer_run(count, queue).0 == count + writer_run(count, queue).1.flatten().len(),
    decreases queue.len(),
{
    if queue.len() > 0 {
        if let (Some(data), true) = queue[0] {
            law_writer_counts_what_it_writes(count + data.len(), queue.drop_first());
            let written = writer_run(count + data.len(), queue.drop_first()).1;
            let all = seq![data] + written;
            assert(all.drop_first() =~= written);
            assert(all.flatten() == data + written.flatten());
        }
    }
}

/// The end of the input stops the writer: what comes behind it in the queue is
/// never written.
pub proof fn law_writer_stops_at_the_end(
    count: nat,
    before: Seq<(Option<Seq<u8>>, bool)>,
    eof: (Option<Seq<u8>>, bool),
    after: Seq<(Option<Seq<u8>>, bool)>,
)
    requires
        eof.0 is None,
    ensures
        writer_run(count, before.push(eof) + after) == writer_run(count, before),
    decreases before.len(),
{
    let queue = before.push(eof) + after;
    if before.len() > 0 {
        let rest = before.drop_first();
        assert(queue.drop_first() =~= rest.push(eof) + after);
        if let (Some(data), true) = before[0] {
            law_writer_stops_at_the_end(count + data.len(), rest, eof, after);
        }
    }
}

/// The queue of these messages, each of which can be written.
pub open spec fn writable(messages: Seq<Seq<u8>>) -> Seq<(Option<Seq<u8>>, bool)> {
    messages.map_values(|data: Seq<u8>| (Some(data), true))
}

/// A writer writes everything up to the end of its input or the first failure,
/// unchanged and in order, counts exactly the bytes of that, and does nothing after
/// it.
pub proof fn law_writer_writes_everything(
    count: nat,
    messages: Seq<Seq<u8>>,
    stop: (Option<Seq<u8>>, bool),
    after: Seq<(Option<Seq<u8>>, bool)>,
)
    requires
        stop.0 is None || !stop.1,
    ensures
        writer_run(count, writable(messages).push(stop) + after) == (
            count + messages.flatten().len(),
            messages,
        ),
    decreases messages.len(),
{
    let queue = writable(messages).push(stop) + after;
    if messages.len() == 0 {
        assert(queue[0] == stop);
        assert(writer_run(count, queue).1 =~= messages);
    } else {
        let rest = messages.drop_first();
        assert(queue[0] == (Some(messages[0]), true));
        assert(queue.drop_first() =~= writable(rest).push(stop) + after);
        law_writer_writes_everything(count + messages[0].len(), rest, stop, after);
        assert(seq![messages[0]] + rest =~= messages);
        assert(messages.flatten() == messages[0] + rest.flatten());
    }
}

/// What a reader has read it forwards unchanged and counts in full, whatever it
/// counted before; an empty read forwards and counts nothing.
pub proof fn law_read_is_forwarded_whole(count: nat, chunk: Seq<u8>)
    ensures
        chunk.len() > 0 ==> reader_step(count, chunk).1 == Some(chunk) && reader_step(
            count,
            chunk,
        ).0 == count + chunk.len(),
        chunk.len() == 0 ==> reader_step(count, chunk).1 is None && reader_step(count, chunk).0
            == count,
{
}

/// A read that returned a size is taken to have read that much, and one that failed
/// to have read nothing.
pub proof fn law_failed_read_is_empty<E>(size: usize, error: E)
    ensures
        read_len(Ok::<usize, E>(size)) == size,
        read_len(Err::<usize, E>(error)) == 0,
{
}

/// A message is to be written as it is; the end of the input and a closed queue ask
/// for no write. A write that succeeded is counted by the length of its message and
/// followed by a flush; one that failed is not counted and is the last.
pub proof fn law_message_is_written_whole<E>(
    data: Vec<u8>,
    error: E,
    count: nat,
    len: nat,
)
    ensures
        to_write(Ok::<StdinMessage, E>(StdinMessage::Data(data))) == Some(data@),
        to_write(Ok::<StdinMessage, E>(StdinMessage::Eof)) is None,
        to_write(Err::<StdinMessage, E>(error)) is None,
        after_write(count, len, true) == (count + len, AfterWrite::Flush),
        after_write(count, len, false) == (count, AfterWrite::Finish),
{
}

/// Everything that is read reaches the actor, at once and unchanged: a read adds
/// exactly its chunk to what was sent before, and an end adds nothing, or the exit if
/// it is the second one.
pub proof fn law_each_read_is_relayed(
    reads: Seq<(Output, Seq<u8>)>,
    output: Output,
    chunk: Seq<u8>,
)
    ensures
        chunk.len() > 0 ==> relayed(reads.push((output, chunk))) == relayed(reads).push(
            RelayMsg::Data(chunk),
        ),
        chunk.len() == 0 && (forall|i: int|
            0 <= i < reads.len() ==> (#[trigger] reads[i]).1.len() > 0) ==> relayed(
            reads.push((output, chunk)),
        ) == relayed(reads),
        chunk.len() == 0 && (exists|i: int|
            0 <= i < reads.len() && (#[trigger] reads[i]).1.len() == 0) ==> relayed(
            reads.push((output, chunk)),
        ) == relayed(reads).push(RelayMsg::Exit),
{
    let all = reads.push((output, chunk));
    assert(all.drop_last() =~= reads);
    lemma_flag_is_an_end(reads);
    if exists|i: int| 0 <= i < reads.len() && (#[trigger] reads[i]).1.len() == 0 {
        let i = choose|i: int| 0 <= i < reads.len() && (#[trigger] reads[i]).1.len() == 0;
        assert(has_ended(reads, reads[i].0));
    }
}

} // verus!
