//! The framing of messages between programs: a hash of the type, the length of
//! the data, the data.

use vstd::prelude::*;

use crate::error::{Error, ErrorKind, ErrorView, KindView};

verus! {

/// The `n` lowest bytes of `x`, the lowest first.
pub open spec fn le_bytes(x: nat, n: nat) -> Seq<u8>
    decreases n,
{
    if n == 0 {
        Seq::empty()
    } else {
        seq![(x % 256) as u8] + le_bytes(x / 256, (n - 1) as nat)
    }
}

/// The number whose bytes are `s`, the lowest first.
pub open spec fn le_value(s: Seq<u8>) -> nat
    decreases s.len(),
{
    if s.len() == 0 {
        0
    } else {
        s[0] as nat + 256 * le_value(s.skip(1))
    }
}

/// `256` to the power `n`.
pub open spec fn byte_pow(n: nat) -> nat
    decreases n,
{
    if n == 0 {
        1
    } else {
        256 * byte_pow((n - 1) as nat)
    }
}

/// A number that fits in `n` bytes is read back from them.
pub proof fn le_value_of_le_bytes(x: nat, n: nat)
    requires
        x < byte_pow(n),
    ensures
        le_bytes(x, n).len() == n,
        le_value(le_bytes(x, n)) == x,
    decreases n,
{
    if n > 0 {
        le_value_of_le_bytes(x / 256, (n - 1) as nat);
        let s = le_bytes(x, n);
        assert(s.skip(1) =~= le_bytes(x / 256, (n - 1) as nat));
    }
}

proof fn lemma_u64_bytes(x: u64)
    ensures
        x < byte_pow(8),
{
    reveal_with_fuel(byte_pow, 9);
}

proof fn lemma_le_value_bound(s: Seq<u8>)
    ensures
        le_value(s) < byte_pow(s.len()),
    decreases s.len(),
{
    if s.len() > 0 {
        lemma_le_value_bound(s.skip(1));
    }
}

/// What is sent for a message: the hash of its type, the length of its data as a
/// little endian number of 8 bytes, and the data.
pub open spec fn frame(id: Seq<u8>, data: Seq<u8>) -> Seq<u8> {
    id + le_bytes(data.len(), 8) + data
}

/// What is sent for a message.
pub fn encode_frame(id: &[u8; 16], data: &[u8]) -> (r: Vec<u8>)
    ensures
        r@ == frame(id@, data@),
{
    let mut r: Vec<u8> = Vec::new();
    let mut i: usize = 0;
    while i < 16
        invariant
            i <= 16,
            r@ == id@.take(i as int),
        decreases 16 - i,
    {
        r.push(id[i]);
        i = i + 1;
        assert(r@ =~= id@.take(i as int));
    }
    assert(id@.take(16) =~= id@);
    let mut len: u64 = data.len() as u64;
    let mut i: usize = 0;
    let ghost all = id@ + le_bytes(data@.len(), 8);
    while i < 8
        invariant
            i <= 8,
            all == r@ + le_bytes(len as nat, (8 - i) as nat),
        decreases 8 - i,
    {
        let ghost before = r@;
        let ghost old_len = len;
        r.push((len % 256) as u8);
        len = len / 256;
        i = i + 1;
        assert(r@ + le_bytes(len as nat, (8 - i) as nat) =~= before + le_bytes(
            old_len as nat,
            (8 - (i - 1)) as nat,
        ));
    }
    assert(r@ =~= all);
    let mut i: usize = 0;
    while i < data.len()
        invariant
            i <= data@.len(),
            r@ == all + data@.take(i as int),
        decreases data@.len() - i,
    {
        r.push(data[i]);
        i = i + 1;
        assert(r@ =~= all + data@.take(i as int));
    }
    assert(data@.take(i as int) =~= data@);
    r
}

/// How the serialization of a message into the buffer ended.
pub enum Serialized {
    Done,
    BufferFull,
    Failed(String),
}

/// What is to be done after a serialization.
pub enum SendStep {
    /// The frame is sent
    Send,
    /// That much more than the length of the buffer is reserved, then the
    /// message is serialized again
    Reserve(usize),
    /// The message is not sent
    Fail(Error),
}

/// Twice the capacity, which counts as 1 if it is 0, wrapping around at the limit
/// of the machine.
pub open spec fn doubled(capacity: usize) -> int {
    let twice = if capacity == 0 {
        2
    } else {
        2 * capacity
    };
    if twice <= usize::MAX {
        twice
    } else {
        twice - (usize::MAX + 1)
    }
}

/// Decides after a serialization into a buffer of that capacity: a buffer that
/// was too small is grown by twice its capacity, wrapping around at the limit of
/// the machine.
pub fn send_step(outcome: Serialized, capacity: usize) -> (r: SendStep)
    ensures
        match outcome {
            Serialized::Done => r is Send,
            Serialized::BufferFull => r matches SendStep::Reserve(n) && n == doubled(capacity),
            Serialized::Failed(e) => r matches SendStep::Fail(f) && f@ == ErrorView::of(
                KindView::Boxed(e@),
            ).with(KindView::Str("failed to serialize message"@)),
        },
{
    match outcome {
        Serialized::Done => SendStep::Send,
        Serialized::BufferFull => {
            let current: usize = if capacity == 0 {
                1
            } else {
                capacity
            };
            SendStep::Reserve(current.wrapping_add(current))
        },
        Serialized::Failed(e) => SendStep::Fail(
            Error::from_kind_locationless(ErrorKind::BoxedError(e)).add_err_no_location(
                ErrorKind::StrError("failed to serialize message"),
            ),
        ),
    }
}

/// The error of a message whose transfer could not even begin: most probably the
/// other side is where to look.
pub fn transfer_error(text: String, e: String) -> (r: Error)
    ensures
        r@ == ErrorView::of(KindView::ProbablyNotRootCause).with(KindView::Text(text@)).with(
            KindView::StdIo(e@),
        ),
        r@.not_root_cause(),
{
    let r: Error = Error::from_kind_locationless(ErrorKind::ProbablyNotRootCauseError)
        .add_err_no_location(ErrorKind::StringError(text))
        .add_err_no_location(ErrorKind::StdIoError(e));
    assert(r@.kinds[0] == KindView::ProbablyNotRootCause);
    r
}

/// The text for a send that could not begin.
pub open spec fn send_text(name: Seq<char>) -> Seq<char> {
    "NetMessenger::send::<"@ + name
        + ">::() could not write_all, this may be because the other side was abruptly terminated"@
}

/// The error of a send of a value of the named type that could not begin
pub fn send_error(name: &str, e: String) -> (r: Error)
    ensures
        r@ == ErrorView::of(KindView::ProbablyNotRootCause).with(
            KindView::Text(send_text(name@)),
        ).with(KindView::StdIo(e@)),
{
    let mut text: String = "NetMessenger::send::<".to_owned();
    text.append(name);
    text.append(
        ">::() could not write_all, this may be because the other side was abruptly terminated",
    );
    transfer_error(text, e)
}

/// The text for a receive that could not begin.
pub open spec fn recv_text(name: Seq<char>) -> Seq<char> {
    "NetMessenger::recv::<"@ + name
        + ">::() could not read_exact, this may be because the other side was abruptly terminated"@
}

/// The error of a receive of a value of the named type that could not begin
pub fn recv_error(name: &str, e: String) -> (r: Error)
    ensures
        r@ == ErrorView::of(KindView::ProbablyNotRootCause).with(
            KindView::Text(recv_text(name@)),
        ).with(KindView::StdIo(e@)),
{
    let mut text: String = "NetMessenger::recv::<".to_owned();
    text.append(name);
    text.append(
        ">::() could not read_exact, this may be because the other side was abruptly terminated",
    );
    transfer_error(text, e)
}

/// The text for a message of another type than the expected one.
pub open spec fn mismatch_text(name: Seq<char>) -> Seq<char> {
    "NetMessenger::recv() -> incoming type did not match expected type ("@ + name + ")"@
}

/// Which part of a frame is read next.
pub enum RecvStage {
    Id,
    Len,
    Data(usize),
    Done,
}

impl RecvStage {
    /// The number of bytes that the part has.
    pub open spec fn part_len(self) -> nat {
        match self {
            RecvStage::Id => 16,
            RecvStage::Len => 8,
            RecvStage::Data(n) => n as nat,
            RecvStage::Done => 0,
        }
    }

    /// The number of parts that are still to come.
    pub open spec fn parts_left(self) -> nat {
        match self {
            RecvStage::Id => 3,
            RecvStage::Len => 2,
            RecvStage::Data(_) => 1,
            RecvStage::Done => 0,
        }
    }
}

/// What becomes of a stream of bytes at the receiving end.
pub enum Received {
    /// The type was not the expected one
    Mismatch,
    /// The length does not fit the machine
    TooLong,
    /// More bytes are needed, for that part
    Waiting(RecvStage),
    /// The data of the message
    Data(Seq<u8>),
}

/// What becomes of one part, where the type with the hash `id` is expected.
pub open spec fn after_part(id: Seq<u8>, stage: RecvStage, bytes: Seq<u8>) -> Received {
    match stage {
        RecvStage::Id => if bytes == id {
            Received::Waiting(RecvStage::Len)
        } else {
            Received::Mismatch
        },
        RecvStage::Len => if le_value(bytes) <= usize::MAX {
            Received::Waiting(RecvStage::Data(le_value(bytes) as usize))
        } else {
            Received::TooLong
        },
        RecvStage::Data(_) => Received::Data(bytes),
        RecvStage::Done => Received::Waiting(RecvStage::Done),
    }
}

/// The receipt of one message.
pub struct Receiver {
    /// The hash of the type of the message
    pub id: [u8; 16],
    /// The name of the type of the message
    pub name: String,
    pub stage: RecvStage,
}

impl Receiver {
    /// Waits for a message of the named type
    pub fn new(id: [u8; 16], name: &str) -> (r: Self)
        ensures
            r.id@ == id@,
            r.name@ == name@,
            r.stage is Id,
    {
        Receiver { id, name: name.to_owned(), stage: RecvStage::Id }
    }

    /// The number of bytes that are to be read next
    pub fn wanted(&self) -> (r: usize)
        ensures
            r == self.stage.part_len(),
    {
        match self.stage {
            RecvStage::Id => 16,
            RecvStage::Len => 8,
            RecvStage::Data(n) => n,
            RecvStage::Done => 0,
        }
    }

    /// Takes in the bytes that were wanted. Returns the data once it is
    /// complete. A hash that is not the expected one is refused before anything
    /// else is read.
    pub fn receive(&mut self, bytes: Vec<u8>) -> (r: Result<Option<Vec<u8>>, Error>)
        requires
            bytes@.len() == old(self).stage.part_len(),
        ensures
            final(self).id == old(self).id,
            final(self).name == old(self).name,
            match after_part(old(self).id@, old(self).stage, bytes@) {
                Received::Waiting(next) => r == Ok::<Option<Vec<u8>>, Error>(None)
                    && final(self).stage == next,
                Received::Mismatch => r is Err && r->Err_0@ == ErrorView::message(
                    mismatch_text(old(self).name@),
                ) && final(self).stage is Done,
                Received::TooLong => r is Err && r->Err_0@ == ErrorView::of(
                    KindView::TryFromInt("TryFromIntError(())"@),
                ) && final(self).stage is Done,
                Received::Data(_) => r == Ok::<Option<Vec<u8>>, Error>(Some(bytes))
                    && final(self).stage is Done,
            },
    {
        match self.stage {
            RecvStage::Id => {
                if !same_id(&self.id, &bytes) {
                    self.stage = RecvStage::Done;
                    let mut text: String =
                        "NetMessenger::recv() -> incoming type did not match expected type (".to_owned();
                    text.append(self.name.as_str());
                    text.append(")");
                    return Err(Error::from_text(text));
                }
                self.stage = RecvStage::Len;
                Ok(None)
            },
            RecvStage::Len => {
                let n: u64 = le_u64(&bytes);
                if n > usize::MAX as u64 {
                    self.stage = RecvStage::Done;
                    return Err(
                        Error::from_kind_locationless(
                            ErrorKind::TryFromIntError("TryFromIntError(())".to_owned()),
                        ),
                    );
                }
                self.stage = RecvStage::Data(n as usize);
                Ok(None)
            },
            RecvStage::Data(_) => {
                self.stage = RecvStage::Done;
                Ok(Some(bytes))
            },
            RecvStage::Done => Ok(None),
        }
    }
}

fn same_id(id: &[u8; 16], bytes: &Vec<u8>) -> (r: bool)
    requires
        bytes@.len() == 16,
    ensures
        r == (bytes@ == id@),
{
    let mut i: usize = 0;
    while i < 16
        invariant
            i <= 16,
            bytes@.len() == 16,
            forall|k: int| 0 <= k < i ==> bytes@[k] == id@[k],
        decreases 16 - i,
    {
        if bytes[i] != id[i] {
            return false;
        }
        i = i + 1;
    }
    assert(bytes@ =~= id@);
    true
}

/// The number whose bytes are the 8 given ones, the lowest first.
fn le_u64(bytes: &Vec<u8>) -> (r: u64)
    requires
        bytes@.len() == 8,
    ensures
        r == le_value(bytes@),
{
    let mut r: u64 = 0;
    let mut i: usize = 8;
    assert(bytes@.skip(8) =~= Seq::<u8>::empty());
    while i > 0
        invariant
            i <= 8,
            bytes@.len() == 8,
            r == le_value(bytes@.skip(i as int)),
        decreases i,
    {
        proof {
            assert(bytes@.skip(i - 1).skip(1) =~= bytes@.skip(i as int));
            assert(bytes@.skip(i - 1)[0] == bytes@[i - 1]);
            lemma_le_value_bound(bytes@.skip(i - 1));
            reveal_with_fuel(byte_pow, 9);
        }
        r = bytes[i - 1] as u64 + 256 * r;
        i = i - 1;
    }
    assert(bytes@.skip(0) =~= bytes@);
    r
}

/// What becomes of a stream that is taken in part by part, beginning with
/// `stage`.
pub open spec fn received(id: Seq<u8>, stage: RecvStage, stream: Seq<u8>) -> Received
    decreases stage.parts_left(),
{
    let n = stage.part_len() as int;
    if stage is Done || stream.len() < n {
        Received::Waiting(stage)
    } else {
        match after_part(id, stage, stream.take(n)) {
            Received::Waiting(next) => received(id, next, stream.skip(n)),
            outcome => outcome,
        }
    }
}

/// What is sent is what is received by a party that expects the same type,
/// whatever follows it on the stream.
pub proof fn sent_data_is_received(id: Seq<u8>, data: Seq<u8>, rest: Seq<u8>)
    requires
        id.len() == 16,
        data.len() <= usize::MAX,
    ensures
        received(id, RecvStage::Id, frame(id, data) + rest) == Received::Data(data),
{
    reveal_with_fuel(received, 4);
    let stream = frame(id, data) + rest;
    lemma_u64_bytes(data.len() as u64);
    le_value_of_le_bytes(data.len(), 8);
    assert(stream.take(16) =~= id);
    assert(stream.skip(16).take(8) =~= le_bytes(data.len(), 8));
    assert(stream.skip(16).skip(8).take(data.len() as int) =~= data);
}

/// A party that expects another type refuses the message, whatever follows the
/// hash of the type.
pub proof fn other_type_is_refused(id: Seq<u8>, other: Seq<u8>, rest: Seq<u8>)
    requires
        id.len() == 16,
        other.len() == 16,
        id != other,
    ensures
        received(other, RecvStage::Id, id + rest) == Received::Mismatch,
{
    assert((id + rest).take(16) =~= id);
}

/// What is sent for a message is laid out so: sixteen bytes of the hash of the type, eight
/// bytes of the length of the data, the lowest first, and the data.
pub proof fn frame_is_laid_out_so(id: Seq<u8>, data: Seq<u8>)
    requires
        id.len() == 16,
        data.len() <= u64::MAX,
    ensures
        frame(id, data).len() == 24 + data.len(),
        frame(id, data).take(16) == id,
        frame(id, data).skip(24) == data,
        data.len() == frame(id, data)[16] + 0x100 * frame(id, data)[17] + 0x1_0000 * frame(
            id,
            data,
        )[18] + 0x100_0000 * frame(id, data)[19] + 0x1_0000_0000 * frame(id, data)[20]
            + 0x100_0000_0000 * frame(id, data)[21] + 0x1_0000_0000_0000 * frame(id, data)[22]
            + 0x100_0000_0000_0000 * frame(id, data)[23],
{
    lemma_u64_bytes(data.len() as u64);
    le_value_of_le_bytes(data.len(), 8);
    let b = le_bytes(data.len(), 8);
    let f = frame(id, data);
    assert(f.take(16) =~= id);
    assert(f.skip(24) =~= data);
    assert(forall|k: int| 0 <= k < 8 ==> f[16 + k] == b[k]);
    assert(f[16] == b[0] && f[17] == b[1] && f[18] == b[2] && f[19] == b[3]);
    assert(f[20] == b[4] && f[21] == b[5] && f[22] == b[6] && f[23] == b[7]);
    reveal_with_fuel(le_value, 9);
    let b1 = b.skip(1);
    let b2 = b1.skip(1);
    let b3 = b2.skip(1);
    let b4 = b3.skip(1);
    let b5 = b4.skip(1);
    let b6 = b5.skip(1);
    let b7 = b6.skip(1);
    assert(b1[0] == b[1] && b2[0] == b[2] && b3[0] == b[3] && b4[0] == b[4]);
    assert(b5[0] == b[5] && b6[0] == b[6] && b7[0] == b[7]);
    assert(b7.skip(1).len() == 0);
    assert(le_value(b7) == b[7]);
    assert(le_value(b6) == b[6] + 0x100 * le_value(b7));
    assert(le_value(b5) == b[5] + 0x100 * le_value(b6));
    assert(le_value(b4) == b[4] + 0x100 * le_value(b5));
    assert(le_value(b3) == b[3] + 0x100 * le_value(b4));
    assert(le_value(b2) == b[2] + 0x100 * le_value(b3));
    assert(le_value(b1) == b[1] + 0x100 * le_value(b2));
    assert(le_value(b) == b[0] + 0x100 * le_value(b1));
}

/// A buffer is grown by twice its capacity, an empty one by two bytes.
pub proof fn buffers_grow_by_twice_their_capacity(capacity: usize)
    ensures
        capacity == 0 ==> doubled(capacity) == 2,
        0 < capacity && 2 * capacity <= usize::MAX ==> doubled(capacity) == 2 * capacity,
        2 * capacity > usize::MAX ==> doubled(capacity) == 2 * capacity - usize::MAX - 1,
{
}

/// Only the part that is awaited is read: first the hash, of which nothing but equality
/// with the expected one counts, then the length, then as many bytes as it says.
pub proof fn parts_are_read_in_order(id: Seq<u8>, bytes: Seq<u8>, n: usize)
    ensures
        RecvStage::Id.part_len() == 16 && RecvStage::Len.part_len() == 8,
        RecvStage::Data(n).part_len() == n,
        after_part(id, RecvStage::Id, bytes) == if bytes == id {
            Received::Waiting(RecvStage::Len)
        } else {
            Received::Mismatch
        },
        bytes == le_bytes(n as nat, 8) ==> after_part(id, RecvStage::Len, bytes)
            == Received::Waiting(RecvStage::Data(n)),
        after_part(id, RecvStage::Data(n), bytes) == Received::Data(bytes),
{
    lemma_u64_bytes(n as u64);
    le_value_of_le_bytes(n as nat, 8);
}

/// The errors of a transfer name the type of the message and what was being done.
pub proof fn transfer_errors_name_the_type(name: Seq<char>)
    ensures
        send_text(name) == "NetMessenger::send::<"@ + name
            + ">::() could not write_all, this may be because the other side was abruptly terminated"@,
        recv_text(name) == "NetMessenger::recv::<"@ + name
            + ">::() could not read_exact, this may be because the other side was abruptly terminated"@,
        mismatch_text(name)
            == "NetMessenger::recv() -> incoming type did not match expected type ("@ + name
            + ")"@,
{
}

} // verus!
