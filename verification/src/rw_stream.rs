//! A stream with one writer and several readers, which all see the same data.

use vstd::prelude::*;

verus! {

/// A buffer that is filled from its start.
pub struct BufInner {
    pub buf: Vec<u8>,
    /// How many bytes of the buffer there are to read
    pub fill: usize,
}

impl BufInner {
    /// No more is to be read than the buffer holds.
    pub open spec fn wf(self) -> bool {
        self.fill <= self.buf@.len()
    }

    /// The bytes there are to read.
    pub open spec fn filled(self) -> Seq<u8> {
        self.buf@.take(self.fill as int)
    }

    /// The bytes that can still be written.
    pub open spec fn room(self) -> int {
        self.buf@.len() - self.fill
    }

    /// An empty buffer
    pub fn new(capacity: usize) -> (r: Self)
        ensures
            r.wf(),
            r.buf@ == Seq::new(capacity as nat, |i: int| 0u8),
            r.fill == 0,
    {
        let mut buf: Vec<u8> = Vec::new();
        let mut i: usize = 0;
        while i < capacity
            invariant
                i <= capacity,
                buf@ == Seq::new(i as nat, |i: int| 0u8),
            decreases capacity - i,
        {
            buf.push(0u8);
            i = i + 1;
            assert(buf@ =~= Seq::new(i as nat, |i: int| 0u8));
        }
        BufInner { buf, fill: 0 }
    }

    /// Writes as many of the bytes as there is room for, behind those that were
    /// written before. Returns their number.
    pub fn write(&mut self, bytes: &[u8]) -> (r: usize)
        requires
            old(self).wf(),
        ensures
            final(self).wf(),
            r == if bytes@.len() < old(self).room() {
                bytes@.len() as int
            } else {
                old(self).room()
            },
            final(self).buf@ == old(self).filled() + bytes@.take(r as int) + old(self).buf@.skip(
                old(self).fill + r,
            ),
            final(self).fill == old(self).fill + r,
            final(self).filled() == old(self).filled() + bytes@.take(r as int),
    {
        let capacity: usize = self.buf.len();
        let room: usize = capacity - self.fill;
        let n: usize = if bytes.len() < room {
            bytes.len()
        } else {
            room
        };
        let start: usize = self.fill;
        let mut i: usize = 0;
        while i < n
            invariant
                i <= n,
                n <= bytes@.len(),
                start + n <= capacity,
                capacity == self.buf@.len(),
                start == old(self).fill,
                self.fill == start,
                self.buf@.len() == old(self).buf@.len(),
                forall|k: int| 0 <= k < start ==> self.buf@[k] == old(self).buf@[k],
                forall|k: int| 0 <= k < i ==> #[trigger] self.buf@[start + k] == bytes@[k],
                forall|k: int|
                    start + i <= k < capacity ==> #[trigger] self.buf@[k] == old(self).buf@[k],
            decreases n - i,
        {
            self.buf[start + i] = bytes[i];
            i = i + 1;
        }
        self.fill = start + n;
        assert forall|k: int| start <= k < start + n implies self.buf@[k] == bytes@[k - start] by {
            assert(self.buf@[start + (k - start)] == bytes@[k - start]);
        }
        assert(self.filled() =~= old(self).filled() + bytes@.take(n as int));
        assert(self.buf@ =~= old(self).filled() + bytes@.take(n as int) + old(self).buf@.skip(
            start + n,
        ));
        n
    }

    /// Reads at most `limit` bytes behind the first `read` ones, which were read
    /// before. Returns them, and whether all that there is has been read now.
    pub fn read(&self, read: usize, limit: usize) -> (r: (Vec<u8>, bool))
        requires
            self.wf(),
            read <= self.fill,
        ensures
            r.1 <==> self.fill - read <= limit,
            r.0@ == self.filled().subrange(
                read as int,
                if self.fill - read <= limit {
                    self.fill as int
                } else {
                    read + limit
                },
            ),
    {
        let left: usize = self.fill - read;
        let done: bool = left <= limit;
        let n: usize = if done {
            left
        } else {
            limit
        };
        let mut v: Vec<u8> = Vec::new();
        let mut i: usize = 0;
        while i < n
            invariant
                i <= n,
                read + n <= self.fill <= self.buf@.len(),
                v@ == self.filled().subrange(read as int, read + i),
            decreases n - i,
        {
            v.push(self.buf[read + i]);
            i = i + 1;
            assert(v@ =~= self.filled().subrange(read as int, read + i));
        }
        (v, done)
    }
}

/// A buffer with the number of readers that are not done with it.
pub struct Buf {
    pub inner_buf: BufInner,
    pub reads_left: usize,
}

impl Buf {
    /// An empty buffer that nobody reads
    pub fn new(capacity: usize) -> (r: Self)
        ensures
            r.inner_buf.wf(),
            r.inner_buf.buf@ == Seq::new(capacity as nat, |i: int| 0u8),
            r.inner_buf.fill == 0,
            r.reads_left == 0,
    {
        Buf { inner_buf: BufInner::new(capacity), reads_left: 0 }
    }
}

/// A count that goes down, and around at zero.
pub open spec fn one_less(n: usize) -> usize {
    if n == 0 {
        usize::MAX
    } else {
        (n - 1) as usize
    }
}

/// The two buffers of a stream. The writer and the readers alternate between
/// reading and writing to opposite buffers.
pub struct RwStream {
    /// The buffer that is being read or written
    pub current_buf: bool,
    pub buf0: Buf,
    pub buf1: Buf,
}

impl RwStream {
    /// The buffer that is not locked
    pub fn current_buf(&self) -> (r: &Buf)
        ensures
            *r == if self.current_buf {
                self.buf0
            } else {
                self.buf1
            },
    {
        if self.current_buf {
            &self.buf0
        } else {
            &self.buf1
        }
    }

    /// Note that this gets the number of readers left on the opposite buffer
    pub fn get_readers_left(&self) -> (r: usize)
        ensures
            r == if self.current_buf {
                self.buf0.reads_left
            } else {
                self.buf1.reads_left
            },
    {
        self.current_buf().reads_left
    }

    /// The buffer that is locked for writing
    pub fn write_owned(&mut self) -> (r: &mut BufInner)
        ensures
            final(self).current_buf == old(self).current_buf,
            if old(self).current_buf {
                &&& *r == old(self).buf1.inner_buf
                &&& final(self).buf0 == old(self).buf0
                &&& final(self).buf1 == (Buf { inner_buf: *final(r), ..old(self).buf1 })
            } else {
                &&& *r == old(self).buf0.inner_buf
                &&& final(self).buf0 == (Buf { inner_buf: *final(r), ..old(self).buf0 })
                &&& final(self).buf1 == old(self).buf1
            },
    {
        if self.current_buf {
            &mut self.buf1.inner_buf
        } else {
            &mut self.buf0.inner_buf
        }
    }

    /// The buffer that is locked for reading
    pub fn read_owned(&self) -> (r: &BufInner)
        ensures
            *r == if self.current_buf {
                self.buf1.inner_buf
            } else {
                self.buf0.inner_buf
            },
    {
        if self.current_buf {
            &self.buf1.inner_buf
        } else {
            &self.buf0.inner_buf
        }
    }

    /// A reader is done with its round. Returns if it was the last one, so that
    /// the writer may need a wake up. The count wraps around.
    pub fn read_finished(&mut self) -> (r: bool)
        ensures
            final(self).current_buf == old(self).current_buf,
            if old(self).current_buf {
                &&& r == (old(self).buf0.reads_left == 1)
                &&& final(self).buf0 == (Buf {
                    reads_left: one_less(old(self).buf0.reads_left),
                    ..old(self).buf0
                })
                &&& final(self).buf1 == old(self).buf1
            } else {
                &&& r == (old(self).buf1.reads_left == 1)
                &&& final(self).buf1 == (Buf {
                    reads_left: one_less(old(self).buf1.reads_left),
                    ..old(self).buf1
                })
                &&& final(self).buf0 == old(self).buf0
            },
    {
        let was: usize = self.get_readers_left();
        if self.current_buf {
            self.buf0.reads_left = was.wrapping_sub(1);
        } else {
            self.buf1.reads_left = was.wrapping_sub(1);
        }
        was == 1
    }
}

/// The writer of a stream.
pub struct RwStreamWriter {
    /// The buffer that is being read or written
    pub current_buf: bool,
    /// The first buffer, if it is held for writing. At least one of the two is
    /// held at all times, this acts as a barrier to the readers.
    pub lock0: Option<BufInner>,
    /// The second buffer, if it is held for writing
    pub lock1: Option<BufInner>,
}

/// A reader of a stream.
pub struct RwStreamReader {
    /// The buffer that is being read or written
    pub current_buf: bool,
    /// How much of the buffer was read so far, if it is held. It is held in
    /// between reads that do not get everything at once, to prevent the writer
    /// from running ahead.
    pub lock: Option<usize>,
}

impl RwStreamWriter {
    /// The held buffers are in order.
    pub open spec fn wf(self) -> bool {
        &&& self.lock0 matches Some(b) ==> b.wf()
        &&& self.lock1 matches Some(b) ==> b.wf()
    }

    /// Writes to the buffer that is held, if it is. Returns the number of bytes
    /// that were written, or `None` if the writer has to wait.
    pub fn poll_write(&mut self, bytes: &[u8]) -> (r: Option<usize>)
        requires
            old(self).wf(),
        ensures
            final(self).wf(),
            *final(self) == (RwStreamWriter { lock0: final(self).lock0, ..*old(self) }),
            match old(self).lock0 {
                None => r is None && final(self).lock0 is None,
                Some(was) => {
                    &&& final(self).lock0 matches Some(now)
                    &&& r matches Some(n)
                    &&& n == if bytes@.len() < was.room() {
                        bytes@.len() as int
                    } else {
                        was.room()
                    }
                    &&& now.buf@ == was.filled() + bytes@.take(n as int) + was.buf@.skip(
                        was.fill + n,
                    )
                    &&& now.fill == was.fill + n
                    &&& now.filled() == was.filled() + bytes@.take(n as int)
                },
            },
    {
        match self.lock0.take() {
            None => None,
            Some(b) => {
                let mut b: BufInner = b;
                let n: usize = b.write(bytes);
                self.lock0 = Some(b);
                Some(n)
            },
        }
    }
}

impl RwStreamReader {
    /// No more was read of the buffer than it has.
    pub open spec fn wf(self, buf: BufInner) -> bool {
        buf.wf() && (self.lock matches Some(read) ==> read <= buf.fill)
    }

    /// Reads at most `limit` bytes of the buffer that is held, if it is, and
    /// gives the buffer up when all of it has been read. Returns the bytes, or
    /// `None` if the reader has to wait.
    pub fn poll_read(&mut self, buf: &BufInner, limit: usize) -> (r: Option<Vec<u8>>)
        requires
            old(self).wf(*buf),
        ensures
            final(self).wf(*buf),
            final(self).current_buf == old(self).current_buf,
            match old(self).lock {
                None => r is None && final(self).lock is None,
                Some(read) => {
                    let end = if buf.fill - read <= limit {
                        buf.fill as int
                    } else {
                        read + limit
                    };
                    &&& r matches Some(v)
                    &&& v@ == buf.filled().subrange(read as int, end)
                    &&& final(self).lock == if end == buf.fill {
                        None::<usize>
                    } else {
                        Some(end as usize)
                    }
                },
            },
    {
        match self.lock {
            None => None,
            Some(read) => {
                let (v, done) = buf.read(read, limit);
                if done {
                    // unlock because we are done with this round
                    self.lock = None;
                } else {
                    self.lock = Some(read + limit);
                }
                Some(v)
            },
        }
    }
}

/// Allows a simultaneous writer and multiple readers of a stream, the readers all
/// see the same data from the writer. The writer holds the first buffer.
pub fn rw_stream_with_capacity(num_readers: usize, capacity: usize) -> (r: (
    RwStreamWriter,
    Vec<RwStreamReader>,
))
    ensures
        r.0.wf(),
        !r.0.current_buf,
        r.0.lock0 matches Some(b) && b.fill == 0 && b.buf@.len() == capacity,
        r.0.lock1 is None,
        r.1@ == Seq::new(
            num_readers as nat,
            |i: int| (RwStreamReader { current_buf: false, lock: None }),
        ),
{
    let writer = RwStreamWriter {
        current_buf: false,
        lock0: Some(BufInner::new(capacity)),
        lock1: None,
    };
    let mut readers: Vec<RwStreamReader> = Vec::new();
    let mut i: usize = 0;
    while i < num_readers
        invariant
            i <= num_readers,
            readers@ == Seq::new(
                i as nat,
                |i: int| (RwStreamReader { current_buf: false, lock: None }),
            ),
        decreases num_readers - i,
    {
        readers.push(RwStreamReader { current_buf: false, lock: None });
        i = i + 1;
        assert(readers@ =~= Seq::new(
            i as nat,
            |i: int| (RwStreamReader { current_buf: false, lock: None }),
        ));
    }
    (writer, readers)
}

/// [rw_stream_with_capacity] with a default 8kb capacity
pub fn rw_stream(num_readers: usize) -> (r: (RwStreamWriter, Vec<RwStreamReader>))
    ensures
        r.0.wf(),
        !r.0.current_buf,
        r.0.lock0 matches Some(b) && b.fill == 0 && b.buf@.len() == 8192,
        r.0.lock1 is None,
        r.1@ == Seq::new(
            num_readers as nat,
            |i: int| (RwStreamReader { current_buf: false, lock: None }),
        ),
{
    rw_stream_with_capacity(num_readers, 8192)
}

/// What a reader has of a buffer after reads with the limits.
pub open spec fn read_with(filled: Seq<u8>, limits: Seq<nat>) -> Seq<u8>
    decreases limits.len(),
{
    if limits.len() == 0 {
        Seq::empty()
    } else {
        let before = read_with(filled, limits.drop_last());
        let left = filled.len() - before.len();
        let n = if left <= limits.last() {
            left
        } else {
            limits.last() as int
        };
        before + filled.subrange(before.len() as int, before.len() + n)
    }
}

/// All the readers see the same data: whatever the limits of its reads are, a
/// reader has always read the start of what was written, so one that has read as
/// much as another has read the same.
pub proof fn readers_see_the_same_data(filled: Seq<u8>, limits: Seq<nat>)
    ensures
        read_with(filled, limits).len() <= filled.len(),
        read_with(filled, limits) == filled.take(read_with(filled, limits).len() as int),
    decreases limits.len(),
{
    if limits.len() == 0 {
        assert(read_with(filled, limits) =~= filled.take(0));
    } else {
        readers_see_the_same_data(filled, limits.drop_last());
        assert(read_with(filled, limits) =~= filled.take(
            read_with(filled, limits).len() as int,
        ));
    }
}

/// A read goes on where the reads before it stopped, and gets as many bytes as its limit
/// allows or as are left.
pub proof fn reads_go_on_where_they_stopped(filled: Seq<u8>, limits: Seq<nat>, limit: nat)
    ensures
        ({
            let before = read_with(filled, limits);
            let now = read_with(filled, limits.push(limit));
            &&& now.take(before.len() as int) == before
            &&& now.len() == if before.len() + limit < filled.len() {
                before.len() + limit
            } else {
                filled.len()
            }
            &&& before.len() + limit >= filled.len() ==> now == filled
        }),
{
    let before = read_with(filled, limits);
    let now = read_with(filled, limits.push(limit));
    readers_see_the_same_data(filled, limits);
    readers_see_the_same_data(filled, limits.push(limit));
    assert(limits.push(limit).drop_last() =~= limits);
    assert(now.take(before.len() as int) =~= before);
    if now.len() == filled.len() {
        assert(now =~= filled);
    }
}

/// What there is to read is the front of the buffer, and there is room for the rest.
pub proof fn buffers_are_read_from_their_front(b: BufInner)
    requires
        b.fill <= b.buf@.len(),
    ensures
        b.filled().len() == b.fill,
        forall|i: int| 0 <= i < b.fill ==> #[trigger] b.filled()[i] == b.buf@[i],
        b.room() == b.buf@.len() - b.fill,
{
}

/// A count goes down by one, and from zero to the greatest.
pub proof fn counts_go_down_by_one(n: usize)
    ensures
        n > 0 ==> one_less(n) == n - 1,
        n == 0 ==> one_less(n) == usize::MAX,
{
}

} // verus!
