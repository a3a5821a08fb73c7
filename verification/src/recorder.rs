//! What is done with the output of a running command: it is recorded, copied to
//! a log file and forwarded line by line.

use std::collections::VecDeque;

use vstd::prelude::*;
use vstd::utf8::{encode_utf8, valid_utf8};

verus! {

/// The last `n` elements of `s`, or all of `s` if it is no longer than that.
pub open spec fn suffix(s: Seq<u8>, n: nat) -> Seq<u8> {
    if s.len() <= n {
        s
    } else {
        s.skip(s.len() - n)
    }
}

/// The record after `bytes` were read: it holds the end of what it held
/// followed by `bytes`, limited to `limit` bytes if there is a limit.
pub open spec fn recorded(record: Seq<u8>, bytes: Seq<u8>, limit: Option<u64>) -> Seq<u8> {
    match limit {
        Some(n) => suffix(record + bytes, n as nat),
        None => record + bytes,
    }
}

/// Copies `bytes` to the record. Once `limit` bytes are held, the record is a
/// circular buffer that loses its oldest bytes.
pub fn record_bytes(record: &mut VecDeque<u8>, bytes: &[u8], limit: Option<u64>)
    requires
        limit is Some ==> limit->0 <= usize::MAX,
    ensures
        final(record)@ == recorded(old(record)@, bytes@, limit),
{
    let mut from: usize = 0;
    if let Some(n) = limit {
        let limit: usize = n as usize;
        if record.len() > limit || bytes.len() > limit - record.len() {
            // we would overflow the limit if all the bytes were inserted
            if bytes.len() >= limit {
                // the record is entirely replaced with the end of the bytes
                record.clear();
                from = bytes.len() - limit;
                assert(suffix(old(record)@ + bytes@, limit as nat) =~= record@ + bytes@.skip(
                    from as int,
                ));
            } else {
                let keep: usize = limit - bytes.len();
                while record.len() > keep
                    invariant
                        keep <= record@.len() <= old(record)@.len(),
                        record@ == old(record)@.skip(old(record)@.len() - record@.len()),
                    decreases record@.len(),
                {
                    let ghost before = record@;
                    let _ = record.pop_front();
                    assert(record@ =~= before.skip(1));
                    assert(record@ =~= old(record)@.skip(old(record)@.len() - record@.len()));
                }
                assert(suffix(old(record)@ + bytes@, limit as nat) =~= record@ + bytes@);
            }
        }
    }
    let ghost kept = record@;
    assert(bytes@.skip(0) =~= bytes@);
    assert(kept + bytes@.skip(from as int) == recorded(old(record)@, bytes@, limit));
    let mut i: usize = from;
    while i < bytes.len()
        invariant
            from <= i <= bytes@.len(),
            record@ == kept + bytes@.subrange(from as int, i as int),
        decreases bytes@.len() - i,
    {
        record.push_back(bytes[i]);
        i = i + 1;
        assert(record@ =~= kept + bytes@.subrange(from as int, i as int));
    }
    assert(bytes@.subrange(from as int, i as int) =~= bytes@.skip(from as int));
}

/// All the bytes of a sequence of parts.
pub open spec fn flat(parts: Seq<Seq<u8>>) -> Seq<u8>
    decreases parts.len(),
{
    if parts.len() == 0 {
        Seq::empty()
    } else {
        flat(parts.drop_last()) + parts.last()
    }
}

/// The record after all the reads, starting from an empty record.
pub open spec fn record_of(reads: Seq<Seq<u8>>, limit: Option<u64>) -> Seq<u8>
    decreases reads.len(),
{
    if reads.len() == 0 {
        Seq::empty()
    } else {
        recorded(record_of(reads.drop_last(), limit), reads.last(), limit)
    }
}

/// The record is the end of the whole output: its last `limit` bytes, or all of
/// it without a limit. It does not matter how the output was cut into reads.
pub proof fn record_is_end_of_output(reads: Seq<Seq<u8>>, limit: Option<u64>)
    ensures
        record_of(reads, limit) == match limit {
            Some(n) => suffix(flat(reads), n as nat),
            None => flat(reads),
        },
    decreases reads.len(),
{
    if reads.len() > 0 {
        record_is_end_of_output(reads.drop_last(), limit);
        if let Some(n) = limit {
            let a = flat(reads.drop_last());
            let b = reads.last();
            assert(suffix(suffix(a, n as nat) + b, n as nat) =~= suffix(a + b, n as nat));
        }
    }
}

/// The record never holds more bytes than its limit.
pub proof fn record_within_limit(reads: Seq<Seq<u8>>, limit: u64)
    ensures
        record_of(reads, Some(limit)).len() <= limit,
{
    record_is_end_of_output(reads, Some(limit));
}

/// What is to be done to a log file with a read: the file is first emptied if
/// `reset` is set, then the bytes of the read from index `start` on are written.
pub struct LogWrite {
    pub reset: bool,
    pub start: usize,
}

impl LogWrite {
    /// The contents of the file after the write of `bytes`.
    pub open spec fn applied(self, contents: Seq<u8>, bytes: Seq<u8>) -> Seq<u8> {
        (if self.reset {
            Seq::empty()
        } else {
            contents
        }) + bytes.skip(self.start as int)
    }
}

/// The contents of a log file after `bytes` were read: the file begins anew each
/// time the limit would be passed, and never takes more than the end of a read
/// that is longer than the limit.
pub open spec fn logged(contents: Seq<u8>, bytes: Seq<u8>, limit: Option<u64>) -> Seq<u8> {
    match limit {
        Some(n) => if contents.len() + bytes.len() > n {
            suffix(bytes, n as nat)
        } else {
            contents + bytes
        },
        None => contents + bytes,
    }
}

/// How a read of `len` bytes goes to a log file that holds `log_len` bytes.
pub open spec fn log_write(log_len: int, len: int, limit: Option<u64>) -> LogWrite {
    if limit is Some && log_len + len > limit->0 {
        LogWrite {
            reset: true,
            start: if len > limit->0 {
                (len - limit->0) as usize
            } else {
                0
            },
        }
    } else {
        LogWrite { reset: false, start: 0 }
    }
}

/// The write that is decided on leaves the file with the contents that it is to
/// have.
pub proof fn log_write_applied(contents: Seq<u8>, bytes: Seq<u8>, limit: Option<u64>)
    requires
        bytes.len() <= usize::MAX,
    ensures
        log_write(contents.len() as int, bytes.len() as int, limit).applied(contents, bytes)
            == logged(contents, bytes, limit),
{
    assert(log_write(contents.len() as int, bytes.len() as int, limit).applied(contents, bytes)
        =~= logged(contents, bytes, limit));
}

/// Decides how `bytes` go to a log file into which `log_len` bytes have been
/// written since it was last emptied.
pub fn log_bytes(log_len: &mut u64, bytes: &[u8], limit: Option<u64>) -> (w: LogWrite)
    requires
        *old(log_len) + bytes@.len() <= u64::MAX,
    ensures
        w == log_write(*old(log_len) as int, bytes@.len() as int, limit),
        w.start <= bytes@.len(),
        *final(log_len) == (if w.reset {
            0
        } else {
            *old(log_len) as int
        }) + bytes@.len() - w.start,
{
    let len: u64 = bytes.len() as u64;
    let mut w = LogWrite { reset: false, start: 0 };
    *log_len = *log_len + len;
    if let Some(limit) = limit {
        if *log_len > limit {
            let start: u64 = if len > limit {
                len - limit
            } else {
                0
            };
            w = LogWrite { reset: true, start: start as usize };
            *log_len = len - start;
        }
    }
    w
}

/// The contents of a log file after all the reads, starting from an empty file.
pub open spec fn log_of(reads: Seq<Seq<u8>>, limit: Option<u64>) -> Seq<u8>
    decreases reads.len(),
{
    if reads.len() == 0 {
        Seq::empty()
    } else {
        logged(log_of(reads.drop_last(), limit), reads.last(), limit)
    }
}

/// A log file that starts empty always holds the end of the output so far, and
/// never more of it than the limit allows. Without a limit it holds all of it.
pub proof fn log_is_end_of_output(reads: Seq<Seq<u8>>, limit: Option<u64>)
    ensures
        limit is Some ==> log_of(reads, limit).len() <= limit->0,
        log_of(reads, limit).len() <= flat(reads).len(),
        log_of(reads, limit) == suffix(flat(reads), log_of(reads, limit).len()),
        limit is None ==> log_of(reads, limit) == flat(reads),
    decreases reads.len(),
{
    if reads.len() > 0 {
        log_is_end_of_output(reads.drop_last(), limit);
        let log = log_of(reads, limit);
        assert(log =~= suffix(flat(reads), log.len()));
    }
}

/// A log file that starts empty holds the whole output as long as that is within
/// the limit.
pub proof fn log_within_limit_is_whole(reads: Seq<Seq<u8>>, limit: u64)
    requires
        flat(reads).len() <= limit,
    ensures
        log_of(reads, Some(limit)) == flat(reads),
    decreases reads.len(),
{
    if reads.len() > 0 {
        log_within_limit_is_whole(reads.drop_last(), limit);
    } else {
        assert(log_of(reads, Some(limit)) =~= flat(reads));
    }
}

/// A stretch of valid UTF-8, followed by bytes that are not.
pub struct Utf8Chunk {
    pub valid: Vec<u8>,
    pub invalid: Vec<u8>,
    /// The invalid bytes end the input and could become valid with more bytes.
    pub incomplete: bool,
}

/// The value of a [Utf8Chunk].
#[verifier::ext_equal]
pub struct ChunkView {
    pub valid: Seq<u8>,
    pub invalid: Seq<u8>,
    pub incomplete: bool,
}

impl View for Utf8Chunk {
    type V = ChunkView;

    open spec fn view(&self) -> ChunkView {
        ChunkView { valid: self.valid@, invalid: self.invalid@, incomplete: self.incomplete }
    }
}

/// The values of a sequence of chunks.
pub open spec fn chunk_views(v: Seq<Utf8Chunk>) -> Seq<ChunkView> {
    Seq::new(v.len(), |i: int| v[i]@)
}

/// The bytes of a sequence of byte vectors.
pub open spec fn byte_views(v: Seq<Vec<u8>>) -> Seq<Seq<u8>> {
    Seq::new(v.len(), |i: int| v[i]@)
}

/// The bytes that a sequence of chunks was made from.
pub open spec fn chunk_bytes(chunks: Seq<ChunkView>) -> Seq<u8>
    decreases chunks.len(),
{
    if chunks.len() == 0 {
        Seq::empty()
    } else {
        chunk_bytes(chunks.drop_last()) + chunks.last().valid + chunks.last().invalid
    }
}

/// The bytes as one chunk with no invalid part.
pub open spec fn whole_chunk(bytes: Seq<u8>) -> Seq<ChunkView> {
    seq![ChunkView { valid: bytes, invalid: Seq::empty(), incomplete: false }]
}

/// The chunks into which `bstr` cuts a byte string.
pub uninterp spec fn utf8_chunks(bytes: Seq<u8>) -> Seq<ChunkView>;

/// Collects what `bstr::ByteSlice::utf8_chunks` yields. The contract claims that
/// the chunks depend on the bytes alone, that they make up the bytes, that their
/// valid parts are UTF-8, that only the last one can lack an invalid part or be
/// incomplete, and that nonempty UTF-8 is one chunk with no invalid part. Where
/// invalid bytes are cut is left unsaid.
#[verifier::external_body]
pub(crate) fn collect_utf8_chunks(bytes: &[u8]) -> (r: Vec<Utf8Chunk>)
    ensures
        chunk_views(r@) == utf8_chunks(bytes@),
        chunk_bytes(chunk_views(r@)) == bytes@,
        forall|i: int| 0 <= i < r@.len() ==> valid_utf8(#[trigger] r@[i].valid@),
        forall|i: int|
            0 <= i < r@.len() - 1 ==> (#[trigger] r@[i]).invalid@.len() > 0 && !r@[i].incomplete,
        forall|i: int| 0 <= i < r@.len() && (#[trigger] r@[i]).incomplete ==> r@[i].invalid@.len() > 0,
        valid_utf8(bytes@) && bytes@.len() > 0 ==> chunk_views(r@) == whole_chunk(bytes@),
{
    bstr::ByteSlice::utf8_chunks(bytes)
        .map(
            |c| Utf8Chunk {
                valid: c.valid().as_bytes().to_vec(),
                invalid: c.invalid().to_vec(),
                incomplete: c.incomplete(),
            },
        )
        .collect()
}

/// The number of bytes of the first line of `b`, with its terminator.
pub open spec fn line_len(b: Seq<u8>) -> nat
    decreases b.len(),
{
    if b.len() == 0 {
        0
    } else if b[0] == 10 {
        1
    } else {
        1 + line_len(b.skip(1))
    }
}

/// The lines of `b`, each with its terminator.
pub open spec fn byte_lines(b: Seq<u8>) -> Seq<Seq<u8>>
    decreases b.len(),
    via byte_lines_decreases
{
    if b.len() == 0 {
        Seq::empty()
    } else {
        seq![b.take(line_len(b) as int)] + byte_lines(b.skip(line_len(b) as int))
    }
}

#[via_fn]
proof fn byte_lines_decreases(b: Seq<u8>) {
    lemma_line_len(b);
}

proof fn lemma_line_len(b: Seq<u8>)
    ensures
        line_len(b) <= b.len(),
        b.len() > 0 ==> line_len(b) > 0,
        forall|i: int| 0 <= i < line_len(b) - 1 ==> #[trigger] b[i] != 10,
        0 < line_len(b) < b.len() ==> b[line_len(b) - 1] == 10,
    decreases b.len(),
{
    if b.len() > 0 && b[0] != 10 {
        lemma_line_len(b.skip(1));
        assert forall|i: int| 0 <= i < line_len(b) - 1 implies #[trigger] b[i] != 10 by {
            if i > 0 {
                assert(b[i] == b.skip(1)[i - 1]);
            }
        }
        if line_len(b) < b.len() && line_len(b) > 1 {
            assert(b[line_len(b) - 1] == b.skip(1)[line_len(b) - 2]);
        }
    }
}

/// Collects what `bstr::ByteSlice::lines_with_terminator` yields: the lines of
/// the bytes, cut after each newline, none of them empty.
#[verifier::external_body]
pub(crate) fn collect_lines(bytes: &[u8]) -> (r: Vec<Vec<u8>>)
    ensures
        byte_views(r@) == byte_lines(bytes@),
{
    bstr::ByteSlice::lines_with_terminator(bytes).map(|l| l.to_vec()).collect()
}

/// The state of forwarding one stream.
pub struct Forward {
    /// if no bytes have been written
    pub empty: bool,
    /// if the previous write had a newline on the end
    pub previous_newline: bool,
    /// when a UTF-8 codepoint is cut up across reads, its first bytes
    pub cut_up: Option<Vec<u8>>,
}

/// The value of a [Forward].
#[verifier::ext_equal]
pub struct ForwardView {
    pub empty: bool,
    pub previous_newline: bool,
    pub cut_up: Option<Seq<u8>>,
}

impl View for Forward {
    type V = ForwardView;

    open spec fn view(&self) -> ForwardView {
        ForwardView {
            empty: self.empty,
            previous_newline: self.previous_newline,
            cut_up: match self.cut_up {
                Some(v) => Some(v@),
                None => None,
            },
        }
    }
}

/// The UTF-8 encoding of the replacement character.
pub open spec fn replacement() -> Seq<u8> {
    seq![0xefu8, 0xbfu8, 0xbdu8]
}

impl ForwardView {
    /// The state before anything was read.
    pub open spec fn initial() -> ForwardView {
        ForwardView { empty: true, previous_newline: false, cut_up: None }
    }

    /// The next byte begins a line.
    pub open spec fn at_line_start(self) -> bool {
        self.empty || self.previous_newline
    }

    /// The prefix, if a line begins here.
    pub open spec fn lead(self, prefix: Seq<u8>) -> Seq<u8> {
        if self.at_line_start() {
            prefix
        } else {
            Seq::empty()
        }
    }

    /// The state after the nonempty line `line` was written.
    pub open spec fn after_line(self, line: Seq<u8>) -> ForwardView {
        ForwardView {
            empty: false,
            previous_newline: line.len() > 0 && line.last() == 10,
            cut_up: self.cut_up,
        }
    }

    /// The state after all the lines were written.
    pub open spec fn after_lines(self, lines: Seq<Seq<u8>>) -> ForwardView
        decreases lines.len(),
    {
        if lines.len() == 0 {
            self
        } else {
            self.after_lines(lines.drop_last()).after_line(lines.last())
        }
    }

    /// One write for each line: the prefix where a line begins, and the line.
    pub open spec fn line_writes(self, prefix: Seq<u8>, lines: Seq<Seq<u8>>) -> Seq<Seq<u8>>
        decreases lines.len(),
    {
        if lines.len() == 0 {
            Seq::empty()
        } else {
            self.line_writes(prefix, lines.drop_last()).push(
                self.after_lines(lines.drop_last()).lead(prefix) + lines.last(),
            )
        }
    }

    /// The state after the invalid bytes of `c` were handled.
    pub open spec fn after_invalid(self, c: ChunkView) -> ForwardView {
        if c.invalid.len() == 0 {
            self
        } else {
            ForwardView {
                empty: false,
                previous_newline: false,
                cut_up: if c.incomplete {
                    Some(c.invalid)
                } else {
                    self.cut_up
                },
            }
        }
    }

    /// What is written for the invalid bytes of `c`: the replacement character,
    /// or nothing yet if more bytes can make them valid, after the prefix where
    /// a line begins.
    pub open spec fn invalid_writes(self, prefix: Seq<u8>, c: ChunkView) -> Seq<Seq<u8>> {
        let w = self.lead(prefix) + (if c.incomplete {
            Seq::empty()
        } else {
            replacement()
        });
        if c.invalid.len() == 0 || w.len() == 0 {
            Seq::empty()
        } else {
            seq![w]
        }
    }

    /// The state after a chunk.
    pub open spec fn after_chunk(self, c: ChunkView) -> ForwardView {
        self.after_lines(byte_lines(c.valid)).after_invalid(c)
    }

    /// The writes for a chunk: its lines, then its invalid bytes.
    pub open spec fn chunk_writes(self, prefix: Seq<u8>, c: ChunkView) -> Seq<Seq<u8>> {
        self.line_writes(prefix, byte_lines(c.valid)) + self.after_lines(
            byte_lines(c.valid),
        ).invalid_writes(prefix, c)
    }

    /// The state after all the chunks.
    pub open spec fn after_chunks(self, chunks: Seq<ChunkView>) -> ForwardView
        decreases chunks.len(),
    {
        if chunks.len() == 0 {
            self
        } else {
            self.after_chunks(chunks.drop_last()).after_chunk(chunks.last())
        }
    }

    /// The writes for all the chunks.
    pub open spec fn chunks_writes(self, prefix: Seq<u8>, chunks: Seq<ChunkView>) -> Seq<Seq<u8>>
        decreases chunks.len(),
    {
        if chunks.len() == 0 {
            Seq::empty()
        } else {
            self.chunks_writes(prefix, chunks.drop_last()) + self.after_chunks(
                chunks.drop_last(),
            ).chunk_writes(prefix, chunks.last())
        }
    }

    /// The bytes that are looked at when `bytes` are read: those that were cut
    /// up come first.
    pub open spec fn pending(self, bytes: Seq<u8>) -> Seq<u8> {
        match self.cut_up {
            Some(c) => c + bytes,
            None => bytes,
        }
    }

    /// The state with no bytes held back.
    pub open spec fn resumed(self) -> ForwardView {
        ForwardView { empty: self.empty, previous_newline: self.previous_newline, cut_up: None }
    }

    /// The state after `bytes` were read.
    pub open spec fn after_read(self, bytes: Seq<u8>) -> ForwardView {
        self.resumed().after_chunks(utf8_chunks(self.pending(bytes)))
    }

    /// The writes when `bytes` are read.
    pub open spec fn read_writes(self, prefix: Seq<u8>, bytes: Seq<u8>) -> Seq<Seq<u8>> {
        self.resumed().chunks_writes(prefix, utf8_chunks(self.pending(bytes)))
    }

    /// What is written when the stream ends: a newline if there has been output
    /// with no newline at its end, after the replacement character if the output
    /// stopped inside a codepoint.
    pub open spec fn end_write(self) -> Seq<u8> {
        if self.empty || self.previous_newline {
            Seq::empty()
        } else if self.cut_up is Some {
            replacement().push(10)
        } else {
            seq![10u8]
        }
    }
}

fn copy_bytes(to: &mut Vec<u8>, from: &[u8])
    ensures
        final(to)@ == old(to)@ + from@,
{
    let mut i: usize = 0;
    while i < from.len()
        invariant
            i <= from@.len(),
            to@ == old(to)@ + from@.take(i as int),
        decreases from@.len() - i,
    {
        to.push(from[i]);
        i = i + 1;
        assert(to@ =~= old(to)@ + from@.take(i as int));
    }
    assert(from@.take(i as int) =~= from@);
}

fn push_replacement(to: &mut Vec<u8>)
    ensures
        final(to)@ == old(to)@ + replacement(),
{
    to.push(0xef);
    to.push(0xbf);
    to.push(0xbd);
    assert(to@ =~= old(to)@ + replacement());
}

impl Forward {
    /// The state before anything was read.
    pub fn new() -> (r: Self)
        ensures
            r@ == ForwardView::initial(),
    {
        Forward { empty: true, previous_newline: false, cut_up: None }
    }

    /// Takes in one line of valid UTF-8 and returns what is written for it.
    fn forward_line(&mut self, prefix: &str, line: &Vec<u8>) -> (w: Vec<u8>)
        ensures
            final(self)@ == old(self)@.after_line(line@),
            w@ == old(self)@.lead(encode_utf8(prefix@)) + line@,
    {
        let mut w: Vec<u8> = Vec::new();
        // if there has been no writing yet, or the last writing had a newline, then
        // insert the prefix
        if self.empty || self.previous_newline {
            copy_bytes(&mut w, prefix.as_bytes());
        }
        assert(w@ =~= old(self)@.lead(encode_utf8(prefix@)));
        self.previous_newline = line.len() > 0 && line[line.len() - 1] == 10;
        copy_bytes(&mut w, line.as_slice());
        self.empty = false;
        w
    }

    /// Takes in one chunk and pushes what is written for it.
    fn forward_chunk(&mut self, prefix: &str, chunk: &Utf8Chunk, writes: &mut Vec<Vec<u8>>)
        ensures
            final(self)@ == old(self)@.after_chunk(chunk@),
            byte_views(final(writes)@) == byte_views(old(writes)@) + old(self)@.chunk_writes(
                encode_utf8(prefix@),
                chunk@,
            ),
    {
        let ghost start = self@;
        let ghost p = encode_utf8(prefix@);
        let lines: Vec<Vec<u8>> = collect_lines(chunk.valid.as_slice());
        let ghost all = byte_views(lines@);
        let mut i: usize = 0;
        assert(all.take(0) =~= Seq::empty());
        while i < lines.len()
            invariant
                i <= lines@.len(),
                all == byte_views(lines@),
                p == encode_utf8(prefix@),
                self@ == start.after_lines(all.take(i as int)),
                byte_views(writes@) == byte_views(old(writes)@) + start.line_writes(
                    p,
                    all.take(i as int),
                ),
            decreases lines@.len() - i,
        {
            let ghost before = writes@;
            let w: Vec<u8> = self.forward_line(prefix, &lines[i]);
            writes.push(w);
            proof {
                assert(all.take(i + 1).drop_last() =~= all.take(i as int));
                assert(all.take(i + 1).last() == lines@[i as int]@);
                assert(byte_views(writes@) =~= byte_views(before).push(w@));
                assert(byte_views(writes@) =~= byte_views(old(writes)@) + start.line_writes(
                    p,
                    all.take(i + 1),
                ));
            }
            i = i + 1;
        }
        assert(all.take(i as int) =~= all);
        if chunk.invalid.len() > 0 {
            let ghost mid = self@;
            let mut w: Vec<u8> = Vec::new();
            if self.empty || self.previous_newline {
                copy_bytes(&mut w, prefix.as_bytes());
            }
            assert(w@ =~= mid.lead(p));
            if chunk.incomplete {
                // the next read or the end will pick this up
                let mut held: Vec<u8> = Vec::new();
                copy_bytes(&mut held, chunk.invalid.as_slice());
                assert(held@ =~= chunk.invalid@);
                self.cut_up = Some(held);
                assert(w@ =~= mid.lead(p) + Seq::<u8>::empty());
            } else {
                push_replacement(&mut w);
            }
            let ghost before = writes@;
            if w.len() > 0 {
                writes.push(w);
                assert(byte_views(writes@) =~= byte_views(before).push(w@));
                assert(byte_views(writes@) =~= byte_views(before) + mid.invalid_writes(p, chunk@));
            } else {
                assert(byte_views(writes@) =~= byte_views(before) + mid.invalid_writes(p, chunk@));
            }
            self.previous_newline = false;
            self.empty = false;
            assert(byte_views(writes@) =~= byte_views(old(writes)@) + start.chunk_writes(
                p,
                chunk@,
            ));
        } else {
            assert(byte_views(writes@) =~= byte_views(old(writes)@) + start.chunk_writes(
                p,
                chunk@,
            ));
        }
    }

    /// Takes in chunks of the stream and returns what is to be written for them,
    /// each element in one write, so that a prefix is not parted from its line.
    pub fn forward_chunks(&mut self, prefix: &str, chunks: &Vec<Utf8Chunk>) -> (writes: Vec<
        Vec<u8>,
    >)
        ensures
            final(self)@ == old(self)@.after_chunks(chunk_views(chunks@)),
            byte_views(writes@) == old(self)@.chunks_writes(
                encode_utf8(prefix@),
                chunk_views(chunks@),
            ),
    {
        let ghost start = self@;
        let ghost p = encode_utf8(prefix@);
        let ghost all = chunk_views(chunks@);
        let mut writes: Vec<Vec<u8>> = Vec::new();
        let mut i: usize = 0;
        assert(all.take(0) =~= Seq::empty());
        assert(byte_views(writes@) =~= Seq::empty());
        while i < chunks.len()
            invariant
                i <= chunks@.len(),
                all == chunk_views(chunks@),
                p == encode_utf8(prefix@),
                self@ == start.after_chunks(all.take(i as int)),
                byte_views(writes@) == start.chunks_writes(p, all.take(i as int)),
            decreases chunks@.len() - i,
        {
            self.forward_chunk(prefix, &chunks[i], &mut writes);
            proof {
                assert(all.take(i + 1).drop_last() =~= all.take(i as int));
                assert(all.take(i + 1).last() == chunks@[i as int]@);
            }
            i = i + 1;
        }
        assert(all.take(i as int) =~= all);
        writes
    }

    /// Takes in a read of the stream and returns what is to be written for it,
    /// each element in one write. Bytes that end inside a codepoint are held
    /// back until the next read.
    pub fn forward(&mut self, prefix: &str, bytes: &[u8]) -> (writes: Vec<Vec<u8>>)
        ensures
            final(self)@ == old(self)@.after_read(bytes@),
            byte_views(writes@) == old(self)@.read_writes(encode_utf8(prefix@), bytes@),
            valid_utf8(old(self)@.pending(bytes@)) && old(self)@.pending(bytes@).len() > 0 ==> {
                &&& flat(byte_views(writes@)) == decorated(
                    encode_utf8(prefix@),
                    old(self)@.at_line_start(),
                    old(self)@.pending(bytes@),
                )
                &&& final(self)@ == ForwardView::initial().after_line(old(self)@.pending(bytes@))
            },
    {
        let mut all: Vec<u8> = Vec::new();
        // prepend the possibly cut up bytes, this should be very rare
        if let Some(cut_up) = self.cut_up.take() {
            copy_bytes(&mut all, cut_up.as_slice());
        }
        copy_bytes(&mut all, bytes);
        assert(all@ =~= old(self)@.pending(bytes@));
        assert(self@ == old(self)@.resumed());
        let chunks: Vec<Utf8Chunk> = collect_utf8_chunks(all.as_slice());
        proof {
            if valid_utf8(all@) && all@.len() > 0 {
                lemma_whole_chunk(self@, encode_utf8(prefix@), all@);
            }
        }
        self.forward_chunks(prefix, &chunks)
    }

    /// What is to be written when the stream has ended.
    pub fn forward_end(&self) -> (w: Vec<u8>)
        ensures
            w@ == self@.end_write(),
    {
        let mut w: Vec<u8> = Vec::new();
        if !self.empty && !self.previous_newline {
            if self.cut_up.is_some() {
                push_replacement(&mut w);
            }
            w.push(10);
        }
        assert(w@ =~= self@.end_write());
        w
    }
}

/// `b` with the prefix put in front of each line, given that `b` starts a line.
pub open spec fn decorated(prefix: Seq<u8>, line_start: bool, b: Seq<u8>) -> Seq<u8>
    decreases b.len(),
{
    if b.len() == 0 {
        Seq::empty()
    } else {
        (if line_start {
            prefix
        } else {
            Seq::empty()
        }) + seq![b[0]] + decorated(prefix, b[0] == 10, b.skip(1))
    }
}

/// What follows in the decorated text begins a line exactly where the text
/// before it ended with a newline.
pub proof fn decorated_concatenation(prefix: Seq<u8>, line_start: bool, a: Seq<u8>, b: Seq<u8>)
    ensures
        a.len() > 0 ==> decorated(prefix, line_start, a + b) == decorated(prefix, line_start, a)
            + decorated(prefix, a.last() == 10, b),
        a.len() == 0 ==> decorated(prefix, line_start, a + b) == decorated(prefix, line_start, b),
    decreases a.len(),
{
    if a.len() == 0 {
        assert(a + b =~= b);
    } else {
        let rest = a.skip(1);
        assert((a + b).skip(1) =~= rest + b);
        decorated_concatenation(prefix, a[0] == 10, rest, b);
        let lead = if line_start {
            prefix
        } else {
            Seq::empty()
        };
        assert(decorated(prefix, line_start, a + b) == lead + seq![a[0]] + decorated(
            prefix,
            a[0] == 10,
            rest + b,
        ));
        if rest.len() == 0 {
            assert(decorated(prefix, a[0] == 10, rest) =~= Seq::empty());
        } else {
            assert(rest.last() == a.last());
        }
        assert(decorated(prefix, line_start, a + b) =~= decorated(prefix, line_start, a)
            + decorated(prefix, a.last() == 10, b));
    }
}

proof fn lemma_flat_one(w: Seq<u8>)
    ensures
        flat(seq![w]) == w,
{
    reveal_with_fuel(flat, 2);
    assert(seq![w].drop_last() =~= Seq::empty());
    assert(Seq::<u8>::empty() + w =~= w);
}

proof fn lemma_flat_concat(a: Seq<Seq<u8>>, b: Seq<Seq<u8>>)
    ensures
        flat(a + b) == flat(a) + flat(b),
    decreases b.len(),
{
    if b.len() == 0 {
        assert(a + b =~= a);
        assert(flat(a) + Seq::<u8>::empty() =~= flat(a));
    } else {
        assert((a + b).drop_last() =~= a + b.drop_last());
        lemma_flat_concat(a, b.drop_last());
        assert(flat(a + b) =~= flat(a) + flat(b));
    }
}

proof fn lemma_lines_front(st: ForwardView, prefix: Seq<u8>, l: Seq<u8>, rest: Seq<Seq<u8>>)
    ensures
        st.after_lines(seq![l] + rest) == st.after_line(l).after_lines(rest),
        st.line_writes(prefix, seq![l] + rest) == seq![st.lead(prefix) + l] + st.after_line(
            l,
        ).line_writes(prefix, rest),
    decreases rest.len(),
{
    let all = seq![l] + rest;
    if rest.len() == 0 {
        reveal_with_fuel(ForwardView::after_lines, 2);
        reveal_with_fuel(ForwardView::line_writes, 2);
        assert(all.drop_last() =~= Seq::empty());
        assert(st.line_writes(prefix, all) =~= seq![st.lead(prefix) + l]);
        assert(seq![st.lead(prefix) + l] + Seq::<Seq<u8>>::empty() =~= seq![st.lead(prefix) + l]);
    } else {
        assert(all.drop_last() =~= seq![l] + rest.drop_last());
        lemma_lines_front(st, prefix, l, rest.drop_last());
        assert(st.line_writes(prefix, all) =~= seq![st.lead(prefix) + l] + st.after_line(
            l,
        ).line_writes(prefix, rest));
    }
}

proof fn lemma_decorated_line(prefix: Seq<u8>, line_start: bool, l: Seq<u8>)
    requires
        l.len() > 0,
        forall|i: int| 0 <= i < l.len() - 1 ==> #[trigger] l[i] != 10,
    ensures
        decorated(prefix, line_start, l) == (if line_start {
            prefix
        } else {
            Seq::empty()
        }) + l,
    decreases l.len(),
{
    let rest = l.skip(1);
    reveal_with_fuel(decorated, 2);
    if rest.len() > 0 {
        assert forall|i: int| 0 <= i < rest.len() - 1 implies #[trigger] rest[i] != 10 by {
            assert(rest[i] == l[i + 1]);
        }
        lemma_decorated_line(prefix, false, rest);
    }
    assert(decorated(prefix, line_start, l) =~= (if line_start {
        prefix
    } else {
        Seq::empty()
    }) + l);
}

/// Writing the lines of `b` writes `b` with the prefix in front of each line.
proof fn lemma_line_writes(st: ForwardView, prefix: Seq<u8>, b: Seq<u8>)
    ensures
        flat(st.line_writes(prefix, byte_lines(b))) == decorated(prefix, st.at_line_start(), b),
        b.len() > 0 ==> st.after_lines(byte_lines(b)) == st.after_line(b),
        b.len() == 0 ==> st.after_lines(byte_lines(b)) == st,
    decreases b.len(),
{
    if b.len() > 0 {
        lemma_line_len(b);
        let n = line_len(b) as int;
        let l = b.take(n);
        let rest = b.skip(n);
        lemma_lines_front(st, prefix, l, byte_lines(rest));
        lemma_line_writes(st.after_line(l), prefix, rest);
        lemma_flat_concat(
            seq![st.lead(prefix) + l],
            st.after_line(l).line_writes(prefix, byte_lines(rest)),
        );
        lemma_flat_one(st.lead(prefix) + l);
        lemma_decorated_line(prefix, st.at_line_start(), l);
        decorated_concatenation(prefix, st.at_line_start(), l, rest);
        assert(l + rest =~= b);
        if rest.len() == 0 {
            assert(decorated(prefix, st.at_line_start(), l) + Seq::<u8>::empty() =~= decorated(
                prefix,
                st.at_line_start(),
                l,
            ));
            assert(l =~= b);
        }
    }
}

proof fn lemma_one_chunk(st: ForwardView, prefix: Seq<u8>, c: ChunkView)
    ensures
        st.after_chunks(seq![c]) == st.after_chunk(c),
        st.chunks_writes(prefix, seq![c]) == st.chunk_writes(prefix, c),
{
    reveal_with_fuel(ForwardView::after_chunks, 2);
    reveal_with_fuel(ForwardView::chunks_writes, 2);
    assert(seq![c].drop_last() =~= Seq::empty());
    assert(Seq::<Seq<u8>>::empty() + st.chunk_writes(prefix, c) =~= st.chunk_writes(prefix, c));
}

proof fn lemma_whole_chunk(st: ForwardView, prefix: Seq<u8>, b: Seq<u8>)
    requires
        b.len() > 0,
        st.cut_up is None,
    ensures
        flat(st.chunks_writes(prefix, whole_chunk(b))) == decorated(prefix, st.at_line_start(), b),
        st.after_chunks(whole_chunk(b)) == ForwardView::initial().after_line(b),
{
    let c = whole_chunk(b)[0];
    lemma_one_chunk(st, prefix, c);
    lemma_line_writes(st, prefix, b);
    assert(st.chunk_writes(prefix, c) =~= st.line_writes(prefix, byte_lines(b)));
}

/// A codepoint that is cut up by two reads comes out whole: the two reads write
/// what the text in one piece would give, with no second prefix inside a line.
pub proof fn cut_up_codepoint_comes_out_whole(
    st: ForwardView,
    prefix: Seq<u8>,
    first: Seq<u8>,
    part: Seq<u8>,
    rest: Seq<u8>,
)
    requires
        st.cut_up is None,
        part.len() > 0,
        utf8_chunks(first + part) == seq![
            ChunkView { valid: first, invalid: part, incomplete: true },
        ],
        utf8_chunks(part + rest) == whole_chunk(part + rest),
    ensures
        flat(st.read_writes(prefix, first + part)) + flat(
            st.after_read(first + part).read_writes(prefix, rest),
        ) == decorated(prefix, st.at_line_start(), first + part + rest),
{
    let c = ChunkView { valid: first, invalid: part, incomplete: true };
    let whole = part + rest;
    assert(st.resumed() == st);
    lemma_one_chunk(st, prefix, c);
    lemma_line_writes(st, prefix, first);
    let mid = st.after_lines(byte_lines(first));
    let lead = mid.lead(prefix);
    let after = st.after_read(first + part);
    assert(after.cut_up == Some(part));
    assert(!after.at_line_start());
    lemma_flat_concat(st.line_writes(prefix, byte_lines(first)), mid.invalid_writes(prefix, c));
    assert(lead + Seq::<u8>::empty() =~= lead);
    if lead.len() > 0 {
        lemma_flat_one(lead);
    }
    assert(flat(mid.invalid_writes(prefix, c)) =~= lead);
    lemma_whole_chunk(after.resumed(), prefix, whole);
    assert(first + part + rest =~= first + whole);
    decorated_concatenation(prefix, st.at_line_start(), first, whole);
    assert(decorated(prefix, mid.at_line_start(), whole) =~= lead + decorated(
        prefix,
        false,
        whole,
    ));
}

/// The state after all the reads of a stream.
pub open spec fn state_after(reads: Seq<Seq<u8>>) -> ForwardView
    decreases reads.len(),
{
    if reads.len() == 0 {
        ForwardView::initial()
    } else {
        state_after(reads.drop_last()).after_read(reads.last())
    }
}

/// All that is written while the stream is read.
pub open spec fn forwarded(prefix: Seq<u8>, reads: Seq<Seq<u8>>) -> Seq<u8>
    decreases reads.len(),
{
    if reads.len() == 0 {
        Seq::empty()
    } else {
        forwarded(prefix, reads.drop_last()) + flat(
            state_after(reads.drop_last()).read_writes(prefix, reads.last()),
        )
    }
}

/// The state agrees with what was written: nothing if it says so, and a newline
/// last if it says so.
spec fn agrees(st: ForwardView, out: Seq<u8>) -> bool {
    &&& st.empty ==> out.len() == 0
    &&& st.previous_newline ==> out.len() > 0 && out.last() == 10
}

proof fn lemma_agrees_lines(st: ForwardView, prefix: Seq<u8>, lines: Seq<Seq<u8>>, out: Seq<u8>)
    requires
        agrees(st, out),
    ensures
        agrees(st.after_lines(lines), out + flat(st.line_writes(prefix, lines))),
    decreases lines.len(),
{
    if lines.len() == 0 {
        assert(out + Seq::<u8>::empty() =~= out);
    } else {
        lemma_agrees_lines(st, prefix, lines.drop_last(), out);
        let writes = st.line_writes(prefix, lines);
        assert(writes.drop_last() =~= st.line_writes(prefix, lines.drop_last()));
        let w = st.after_lines(lines.drop_last()).lead(prefix) + lines.last();
        if lines.last().len() > 0 {
            assert(w.last() == lines.last().last());
            assert((out + flat(writes)).last() == w.last());
        }
    }
}

proof fn lemma_agrees_chunks(
    st: ForwardView,
    prefix: Seq<u8>,
    chunks: Seq<ChunkView>,
    out: Seq<u8>,
)
    requires
        agrees(st, out),
    ensures
        agrees(st.after_chunks(chunks), out + flat(st.chunks_writes(prefix, chunks))),
    decreases chunks.len(),
{
    if chunks.len() == 0 {
        assert(out + Seq::<u8>::empty() =~= out);
    } else {
        lemma_agrees_chunks(st, prefix, chunks.drop_last(), out);
        let mid = st.after_chunks(chunks.drop_last());
        let before = st.chunks_writes(prefix, chunks.drop_last());
        let c = chunks.last();
        lemma_agrees_lines(mid, prefix, byte_lines(c.valid), out + flat(before));
        let line_writes = mid.line_writes(prefix, byte_lines(c.valid));
        let invalid_writes = mid.after_lines(byte_lines(c.valid)).invalid_writes(prefix, c);
        lemma_flat_concat(line_writes, invalid_writes);
        lemma_flat_concat(before, mid.chunk_writes(prefix, c));
        let total = out + flat(st.chunks_writes(prefix, chunks));
        assert(total =~= out + flat(before) + flat(line_writes) + flat(invalid_writes));
        if c.invalid.len() == 0 {
            assert(total =~= out + flat(before) + flat(line_writes));
        }
    }
}

/// Whatever a command writes and however it is cut into reads, what was
/// forwarded once the stream has ended is empty or ends with a newline.
pub proof fn forwarded_output_ends_with_newline(prefix: Seq<u8>, reads: Seq<Seq<u8>>)
    ensures
        ({
            let total = forwarded(prefix, reads) + state_after(reads).end_write();
            total.len() == 0 || total.last() == 10
        }),
{
    lemma_agrees_reads(prefix, reads);
}

proof fn lemma_agrees_reads(prefix: Seq<u8>, reads: Seq<Seq<u8>>)
    ensures
        agrees(state_after(reads), forwarded(prefix, reads)),
    decreases reads.len(),
{
    if reads.len() > 0 {
        lemma_agrees_reads(prefix, reads.drop_last());
        let st = state_after(reads.drop_last());
        lemma_agrees_chunks(
            st.resumed(),
            prefix,
            utf8_chunks(st.pending(reads.last())),
            forwarded(prefix, reads.drop_last()),
        );
    }
}

/// The record of an output has its last bytes: all of them without a limit or where they
/// are within it, and exactly as many as the limit says where there are more.
pub proof fn record_has_the_last_bytes(reads: Seq<Seq<u8>>, limit: u64)
    ensures
        record_of(reads, None) == flat(reads),
        flat(reads).len() <= limit ==> record_of(reads, Some(limit)) == flat(reads),
        flat(reads).len() > limit ==> {
            let record = record_of(reads, Some(limit));
            &&& record.len() == limit
            &&& flat(reads).take(flat(reads).len() - limit) + record == flat(reads)
        },
{
    record_is_end_of_output(reads, None);
    record_is_end_of_output(reads, Some(limit));
    let all = flat(reads);
    if all.len() > limit {
        assert(all.take(all.len() - limit) + all.skip(all.len() - limit) =~= all);
    }
}

/// Parts laid one behind the other are their bytes in order.
pub proof fn parts_are_laid_in_order(a: Seq<Seq<u8>>, part: Seq<u8>, b: Seq<Seq<u8>>)
    ensures
        flat(Seq::empty()) == Seq::<u8>::empty(),
        flat(seq![part]) == part,
        flat(a + b) == flat(a) + flat(b),
{
    lemma_flat_one(part);
    lemma_flat_concat(a, b);
}

/// A log file takes a read behind what it has as long as that is within the limit, and
/// otherwise begins anew with the read, or with the end of it that is within the limit.
pub proof fn log_begins_anew_at_its_limit(contents: Seq<u8>, bytes: Seq<u8>, limit: u64)
    ensures
        logged(contents, bytes, None) == contents + bytes,
        contents.len() + bytes.len() <= limit ==> logged(contents, bytes, Some(limit)) == contents
            + bytes,
        contents.len() + bytes.len() > limit && bytes.len() <= limit ==> logged(
            contents,
            bytes,
            Some(limit),
        ) == bytes,
        bytes.len() > limit ==> logged(contents, bytes, Some(limit)).len() == limit && bytes.take(
            bytes.len() - limit,
        ) + logged(contents, bytes, Some(limit)) == bytes,
{
    if bytes.len() > limit {
        assert(bytes.take(bytes.len() - limit) + bytes.skip(bytes.len() - limit) =~= bytes);
    }
}

/// Decorating puts the prefix in front of each line and changes nothing else: a line has
/// one prefix, which what is written behind an unfinished line does not get.
pub proof fn each_line_has_one_prefix(prefix: Seq<u8>, line: Seq<u8>, rest: Seq<u8>)
    requires
        !line.contains(10u8),
    ensures
        decorated(prefix, true, line.push(10u8) + rest) == prefix + line.push(10u8) + decorated(
            prefix,
            true,
            rest,
        ),
        decorated(prefix, false, line.push(10u8) + rest) == line.push(10u8) + decorated(
            prefix,
            true,
            rest,
        ),
        line.len() > 0 ==> decorated(prefix, true, line) == prefix + line,
        decorated(prefix, false, line) == line,
        decorated(prefix, true, Seq::empty()) == Seq::<u8>::empty(),
{
    let l = line.push(10u8);
    assert forall|i: int| 0 <= i < l.len() - 1 implies #[trigger] l[i] != 10 by {
        assert(line.contains(line[i]));
    }
    lemma_decorated_line(prefix, true, l);
    lemma_decorated_line(prefix, false, l);
    decorated_concatenation(prefix, true, l, rest);
    decorated_concatenation(prefix, false, l, rest);
    assert(Seq::<u8>::empty() + l =~= l);
    if line.len() > 0 {
        assert forall|i: int| 0 <= i < line.len() - 1 implies #[trigger] line[i] != 10 by {
            assert(line.contains(line[i]));
        }
        lemma_decorated_line(prefix, true, line);
        lemma_decorated_line(prefix, false, line);
        assert(Seq::<u8>::empty() + line =~= line);
    }
}

/// An output of text comes out with the prefix in front of each line, however it is cut
/// into reads, and with a newline at the end if it has none.
pub proof fn text_comes_out_line_by_line(prefix: Seq<u8>, reads: Seq<Seq<u8>>)
    requires
        forall|i: int|
            0 <= i < reads.len() ==> (#[trigger] reads[i]).len() > 0 && utf8_chunks(reads[i])
                == whole_chunk(reads[i]),
    ensures
        forwarded(prefix, reads) == decorated(prefix, true, flat(reads)),
        state_after(reads).end_write() == if flat(reads).len() == 0 || flat(reads).last() == 10 {
            Seq::<u8>::empty()
        } else {
            seq![10u8]
        },
{
    lemma_forwarded_text(prefix, reads);
}

proof fn lemma_forwarded_text(prefix: Seq<u8>, reads: Seq<Seq<u8>>)
    requires
        forall|i: int|
            0 <= i < reads.len() ==> (#[trigger] reads[i]).len() > 0 && utf8_chunks(reads[i])
                == whole_chunk(reads[i]),
    ensures
        forwarded(prefix, reads) == decorated(prefix, true, flat(reads)),
        state_after(reads).cut_up is None,
        reads.len() == 0 ==> state_after(reads) == ForwardView::initial(),
        reads.len() > 0 ==> flat(reads).len() > 0 && !state_after(reads).empty && state_after(
            reads,
        ).previous_newline == (flat(reads).last() == 10),
    decreases reads.len(),
{
    if reads.len() > 0 {
        let front = reads.drop_last();
        assert forall|i: int| 0 <= i < front.len() implies (#[trigger] front[i]).len() > 0
            && utf8_chunks(front[i]) == whole_chunk(front[i]) by {
            assert(front[i] == reads[i]);
        }
        lemma_forwarded_text(prefix, front);
        let st = state_after(front);
        let last = reads[reads.len() - 1];
        assert(last == reads.last());
        assert(st.resumed() == st);
        lemma_whole_chunk(st, prefix, last);
        decorated_concatenation(prefix, true, flat(front), last);
        if front.len() == 0 {
            assert(flat(front) + last =~= last);
            assert(Seq::<u8>::empty() + decorated(prefix, true, last) =~= decorated(
                prefix,
                true,
                last,
            ));
        }
        assert(flat(reads).last() == last.last());
    }
}

/// Bytes that are no text come out as the replacement character, behind the text before
/// them; those that may still become text are held back until more is read, and come out
/// as that character if the stream ends.
pub proof fn bytes_that_are_no_text_are_replaced(
    st: ForwardView,
    prefix: Seq<u8>,
    valid: Seq<u8>,
    invalid: Seq<u8>,
    incomplete: bool,
)
    requires
        st.cut_up is None,
        valid.len() > 0,
        invalid.len() > 0,
        valid.last() != 10,
        utf8_chunks(valid + invalid) == seq![ChunkView { valid, invalid, incomplete }],
    ensures
        flat(st.read_writes(prefix, valid + invalid)) == decorated(
            prefix,
            st.at_line_start(),
            valid,
        ) + if incomplete {
            Seq::<u8>::empty()
        } else {
            seq![0xefu8, 0xbfu8, 0xbdu8]
        },
        st.after_read(valid + invalid).cut_up == if incomplete {
            Some(invalid)
        } else {
            None
        },
        st.after_read(valid + invalid).end_write() == if incomplete {
            seq![0xefu8, 0xbfu8, 0xbdu8, 10u8]
        } else {
            seq![10u8]
        },
{
    let c = ChunkView { valid, invalid, incomplete };
    assert(st.resumed() == st);
    lemma_one_chunk(st, prefix, c);
    lemma_line_writes(st, prefix, valid);
    let mid = st.after_lines(byte_lines(valid));
    let writes = mid.invalid_writes(prefix, c);
    lemma_flat_concat(st.line_writes(prefix, byte_lines(valid)), writes);
    assert(!mid.at_line_start());
    if incomplete {
        assert(mid.lead(prefix) + Seq::<u8>::empty() =~= Seq::<u8>::empty());
    } else {
        assert(mid.lead(prefix) + replacement() =~= replacement());
        lemma_flat_one(replacement());
    }
    assert(replacement().push(10) =~= seq![0xefu8, 0xbfu8, 0xbdu8, 10u8]);
}

/// The chunks of a read come out one behind the other: the text of each with the prefix in
/// front of its lines, then the replacement character for bytes that are no text, itself
/// behind the prefix if it begins a line.
pub proof fn chunks_come_out_in_order(
    st: ForwardView,
    prefix: Seq<u8>,
    chunks: Seq<ChunkView>,
    c: ChunkView,
)
    ensures
        ({
            let mid = st.after_chunks(chunks);
            let line_start = if c.valid.len() > 0 {
                c.valid.last() == 10
            } else {
                mid.at_line_start()
            };
            flat(st.chunks_writes(prefix, chunks.push(c))) == flat(
                st.chunks_writes(prefix, chunks),
            ) + decorated(prefix, mid.at_line_start(), c.valid) + if c.invalid.len() == 0 {
                Seq::<u8>::empty()
            } else {
                (if line_start {
                    prefix
                } else {
                    Seq::<u8>::empty()
                }) + (if c.incomplete {
                    Seq::<u8>::empty()
                } else {
                    seq![0xefu8, 0xbfu8, 0xbdu8]
                })
            }
        }),
{
    assert(chunks.push(c).drop_last() =~= chunks);
    let mid = st.after_chunks(chunks);
    lemma_line_writes(mid, prefix, c.valid);
    let then = mid.after_lines(byte_lines(c.valid));
    let a = st.chunks_writes(prefix, chunks);
    let b = mid.line_writes(prefix, byte_lines(c.valid));
    let d = then.invalid_writes(prefix, c);
    lemma_flat_concat(a, b + d);
    lemma_flat_concat(b, d);
    let w = then.lead(prefix) + (if c.incomplete {
        Seq::empty()
    } else {
        replacement()
    });
    if c.invalid.len() > 0 {
        if w.len() > 0 {
            lemma_flat_one(w);
        }
        assert(flat(d) =~= w);
    } else {
        assert(flat(d) =~= Seq::<u8>::empty());
    }
    assert(flat(st.chunks_writes(prefix, chunks.push(c))) =~= flat(a) + flat(b) + flat(d));
}

/// A log file is emptied exactly if the read would take it beyond its limit; then only the
/// end of the read that is within the limit is written, and otherwise all of it.
pub proof fn log_files_are_emptied_at_their_limit(log_len: nat, len: usize, limit: u64)
    ensures
        log_write(log_len as int, len as int, Some(limit)).reset <==> log_len + len > limit,
        log_write(log_len as int, len as int, Some(limit)).start == if len > limit {
            len - limit
        } else {
            0
        },
        !log_write(log_len as int, len as int, None).reset,
        log_write(log_len as int, len as int, None).start == 0,
{
}

} // verus!
