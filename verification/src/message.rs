//! The transport envelope: one tag byte framing the three payload
//! kinds over a single byte stream.

use vstd::prelude::*;

use crate::be_bytes::{
    lemma_u64_be_bytes_round_trip, push_u64_be, read_u64_be, spec_u64_from_be_bytes,
    spec_u64_to_be_bytes,
};
use crate::codec::{Deserialize, Serialize};
use crate::config::{
    lemma_config_round_trip, push_config_bytes, read_config_at, spec_config_bytes,
    spec_config_deserialized, FilterConfig,
};
use crate::error::DeserializeError;
use crate::peak::{
    lemma_peak_of_depends_on_prefix, lemma_peak_round_trip, push_peak_bytes, read_peak_at,
    spec_peak_bytes, spec_peak_of, MeasuredPeak,
};
use crate::status::{
    lemma_status_round_trip, spec_status_bytes, spec_status_deserialized, Status,
};

verus! {

broadcast use vstd::std_specs::vec::axiom_spec_len;

/// A framed transmission: a batch of measured peaks, a control signal,
/// or a configuration record.
///
/// Wire format, all multi-byte integers big-endian:
/// - tag `0`: 8-byte peak count, then that many 18-byte peak records;
/// - tag `1`: one status byte;
/// - tag `2`: one 40-byte configuration record;
/// - any other tag byte is an invalid discriminant.
#[derive(Debug)]
pub enum Message {
    Data(Vec<MeasuredPeak>),
    Status(Status),
    Config(FilterConfig),
}

/// The mathematical shape of a `Message`: the peak batch as a sequence.
pub enum MessageView {
    Data(Seq<MeasuredPeak>),
    Status(Status),
    Config(FilterConfig),
}

impl View for Message {
    type V = MessageView;

    open spec fn view(&self) -> MessageView {
        match self {
            Message::Data(peaks) => MessageView::Data(peaks@),
            Message::Status(status) => MessageView::Status(*status),
            Message::Config(config) => MessageView::Config(*config),
        }
    }
}

// ---------------------------------------------------------------------
// Encoding

/// The canonical encodings of a run of peaks, concatenated.
pub open spec fn spec_peaks_bytes(ps: Seq<MeasuredPeak>) -> Seq<u8>
    decreases ps.len(),
{
    if ps.len() == 0 {
        Seq::empty()
    } else {
        spec_peak_bytes(ps[0]) + spec_peaks_bytes(ps.drop_first())
    }
}

/// The framed encoding of a message: its tag byte, then its payload;
/// a `Data` payload is preceded by the 8-byte big-endian peak count.
pub open spec fn spec_message_bytes(v: MessageView) -> Seq<u8> {
    match v {
        MessageView::Data(ps) => seq![0u8] + spec_u64_to_be_bytes(ps.len() as u64)
            + spec_peaks_bytes(ps),
        MessageView::Status(s) => seq![1u8] + spec_status_bytes(s),
        MessageView::Config(c) => seq![2u8] + spec_config_bytes(c),
    }
}

/// Concatenated peak encodings take 18 bytes per peak.
pub proof fn lemma_peaks_bytes_len(ps: Seq<MeasuredPeak>)
    ensures
        spec_peaks_bytes(ps).len() == 18 * ps.len(),
    decreases ps.len(),
{
    if ps.len() != 0 {
        lemma_peaks_bytes_len(ps.drop_first());
    }
}

proof fn lemma_peaks_bytes_push(ps: Seq<MeasuredPeak>, p: MeasuredPeak)
    ensures
        spec_peaks_bytes(ps.push(p)) == spec_peaks_bytes(ps) + spec_peak_bytes(p),
    decreases ps.len(),
{
    if ps.len() == 0 {
        assert(ps.push(p)[0] == p);
        assert(ps.push(p).drop_first() =~= Seq::<MeasuredPeak>::empty());
        assert(spec_peaks_bytes(Seq::<MeasuredPeak>::empty()) == Seq::<u8>::empty());
        assert(spec_peaks_bytes(ps) == Seq::<u8>::empty());
        assert(spec_peaks_bytes(ps.push(p)) =~= spec_peaks_bytes(ps) + spec_peak_bytes(p));
    } else {
        assert(ps.push(p)[0] == ps[0]);
        assert(ps.push(p).drop_first() =~= ps.drop_first().push(p));
        lemma_peaks_bytes_push(ps.drop_first(), p);
        assert(spec_peak_bytes(ps[0]) + (spec_peaks_bytes(ps.drop_first()) + spec_peak_bytes(p))
            =~= (spec_peak_bytes(ps[0]) + spec_peaks_bytes(ps.drop_first())) + spec_peak_bytes(p));
    }
}

// ---------------------------------------------------------------------
// Decoding

/// The first `n` canonical peak records found at the front of `b`.
pub open spec fn spec_peaks_from(b: Seq<u8>, n: nat) -> Seq<MeasuredPeak>
    decreases n,
{
    if n == 0 {
        Seq::empty()
    } else {
        seq![spec_peak_of(b)] + spec_peaks_from(b.skip(18), (n - 1) as nat)
    }
}

/// A byte shortfall as reported in `BufferToShort`: the exact count
/// where it fits, else saturated at the largest reportable value.
pub open spec fn spec_shortfall(missing: int) -> usize {
    if missing > usize::MAX {
        usize::MAX
    } else {
        missing as usize
    }
}

/// What decoding a buffer as a framed message yields.
///
/// An empty buffer is short of its tag byte. Under tag `0` the 8-byte
/// count must be present, and then `count * 18` payload bytes; under
/// tag `1` one status byte; under tag `2` one 40-byte configuration
/// record. Every shortfall is reported exactly (saturated only where
/// it would not fit in `usize`), and an out-of-range tag or status
/// byte is `WrongValue`. On success the consumed count is exactly the
/// encoded length, so messages can sit back-to-back.
pub open spec fn spec_message_deserialized(b: Seq<u8>) -> Result<
    (MessageView, int),
    DeserializeError,
> {
    if b.len() < 1 {
        Err(DeserializeError::BufferToShort(1))
    } else if b[0] == 0 {
        if b.len() < 9 {
            Err(DeserializeError::BufferToShort((9 - b.len()) as usize))
        } else {
            let count = spec_u64_from_be_bytes(b.subrange(1, 9)) as int;
            if b.len() - 9 < count * 18 {
                Err(DeserializeError::BufferToShort(spec_shortfall(count * 18 - (b.len() - 9))))
            } else {
                Ok((MessageView::Data(spec_peaks_from(b.skip(9), count as nat)), 9 + count * 18))
            }
        }
    } else if b[0] == 1 {
        if b.len() < 2 {
            Err(DeserializeError::BufferToShort((2 - b.len()) as usize))
        } else {
            match spec_status_deserialized(b.subrange(1, 2)) {
                Ok((status, _)) => Ok((MessageView::Status(status), 2)),
                Err(e) => Err(e),
            }
        }
    } else if b[0] == 2 {
        if b.len() < 41 {
            Err(DeserializeError::BufferToShort((41 - b.len()) as usize))
        } else {
            match spec_config_deserialized(b.subrange(1, 41)) {
                Ok((config, _)) => Ok((MessageView::Config(config), 41)),
                Err(e) => Err(e),
            }
        }
    } else {
        Err(DeserializeError::WrongValue)
    }
}

/// `spec_peaks_from` always yields one peak per requested record.
pub proof fn lemma_peaks_from_len(b: Seq<u8>, n: nat)
    ensures
        spec_peaks_from(b, n).len() == n,
    decreases n,
{
    if n != 0 {
        lemma_peaks_from_len(b.skip(18), (n - 1) as nat);
    }
}

/// The `i`-th of the `n` peak records at the front of `b` is decoded
/// from its own 18-byte window.
proof fn lemma_peaks_from_index(b: Seq<u8>, n: nat, i: int)
    requires
        18 * n <= b.len(),
        0 <= i < n,
    ensures
        spec_peaks_from(b, n)[i] == spec_peak_of(b.subrange(18 * i, 18 * i + 18)),
    decreases n,
{
    lemma_peaks_from_len(b.skip(18), (n - 1) as nat);
    if i == 0 {
        assert(spec_peaks_from(b, n)[0] == spec_peak_of(b));
        lemma_peak_of_depends_on_prefix(b, b.subrange(0, 18));
    } else {
        lemma_peaks_from_index(b.skip(18), (n - 1) as nat, i - 1);
        assert(spec_peaks_from(b, n)[i] == spec_peaks_from(b.skip(18), (n - 1) as nat)[i - 1]);
        assert(b.skip(18).subrange(18 * (i - 1), 18 * (i - 1) + 18) =~= b.subrange(
            18 * i,
            18 * i + 18,
        ));
    }
}

impl Serialize for Message {
    /// Encode the message as its framed byte string: 9 bytes of header
    /// plus 18 per peak for `Data`, 2 bytes for `Status`, 41 for
    /// `Config`.
    fn serialize(&self) -> (r: Vec<u8>)
        ensures
            r@ == spec_message_bytes(self@),
            self matches Message::Data(peaks) ==> r@.len() == 9 + 18 * peaks@.len(),
            self matches Message::Status(_) ==> r@.len() == 2,
            self matches Message::Config(_) ==> r@.len() == 41,
    {
        match self {
            Message::Data(peaks) => {
                let mut ser_data: Vec<u8> = Vec::new();
                ser_data.push(0);
                push_u64_be(&mut ser_data, peaks.len() as u64);
                proof {
                    assert(ser_data@ =~= seq![0u8] + spec_u64_to_be_bytes(peaks@.len() as u64)
                        + spec_peaks_bytes(peaks@.take(0)));
                }
                let n = peaks.len();
                let mut i: usize = 0;
                while i < n
                    invariant
                        n == peaks@.len(),
                        i <= n,
                        ser_data@ == seq![0u8] + spec_u64_to_be_bytes(peaks@.len() as u64)
                            + spec_peaks_bytes(peaks@.take(i as int)),
                    decreases n - i,
                {
                    push_peak_bytes(&mut ser_data, &peaks[i]);
                    proof {
                        let prefix = peaks@.take(i as int);
                        let head = seq![0u8] + spec_u64_to_be_bytes(peaks@.len() as u64);
                        assert(peaks@.take(i as int + 1) =~= prefix.push(peaks@[i as int]));
                        lemma_peaks_bytes_push(prefix, peaks@[i as int]);
                        assert(head + spec_peaks_bytes(prefix) + spec_peak_bytes(peaks@[i as int])
                            =~= head + spec_peaks_bytes(peaks@.take(i as int + 1)));
                    }
                    i += 1;
                }
                proof {
                    assert(peaks@.take(n as int) =~= peaks@);
                    lemma_peaks_bytes_len(peaks@);
                }
                ser_data
            },
            Message::Status(status) => {
                let mut ser_data: Vec<u8> = Vec::new();
                ser_data.push(1);
                let mut payload = status.serialize();
                ser_data.append(&mut payload);
                proof {
                    assert(ser_data@ =~= spec_message_bytes(self@));
                }
                ser_data
            },
            Message::Config(config) => {
                let mut ser_data: Vec<u8> = Vec::new();
                ser_data.push(2);
                push_config_bytes(&mut ser_data, config);
                proof {
                    assert(ser_data@ =~= spec_message_bytes(self@));
                }
                ser_data
            },
        }
    }
}

impl Deserialize for Message {
    type Item = Message;

    /// Decode one framed message from the front of `buffer`, returning
    /// it with the exact number of bytes consumed; bytes past that
    /// count are left untouched for the caller to resubmit.
    fn deserialize(buffer: &[u8]) -> (r: Result<(Self::Item, usize), DeserializeError>)
        ensures
            (match r {
                Ok((message, consumed)) => spec_message_deserialized(buffer@) == Ok::<
                    (MessageView, int),
                    DeserializeError,
                >((message@, consumed as int)),
                Err(e) => spec_message_deserialized(buffer@) == Err::<
                    (MessageView, int),
                    DeserializeError,
                >(e),
            }),
    {
        let len = buffer.len();
        if len < 1 {
            return Err(DeserializeError::BufferToShort(1));
        }
        match buffer[0] {
            0 => {
                if len < 9 {
                    return Err(DeserializeError::BufferToShort(9 - len));
                }
                let count64 = read_u64_be(buffer, 1);
                let avail = len - 9;
                if (count64 as u128) * 18 > (avail as u128) {
                    let missing128 = (count64 as u128) * 18 - (avail as u128);
                    let missing = if missing128 > (usize::MAX as u128) {
                        usize::MAX
                    } else {
                        missing128 as usize
                    };
                    Err(DeserializeError::BufferToShort(missing))
                } else {
                    let count = count64 as usize;
                    let total = count * 18;
                    let mut peaks: Vec<MeasuredPeak> = Vec::with_capacity(count);
                    let mut i: usize = 0;
                    while i < count
                        invariant
                            i <= count,
                            peaks@.len() == i,
                            count * 18 + 9 <= buffer@.len(),
                            buffer@.len() <= usize::MAX,
                            forall|j: int|
                                0 <= j < i ==> peaks@[j] == spec_peak_of(
                                    buffer@.subrange(9 + 18 * j, 9 + 18 * j + 18),
                                ),
                        decreases count - i,
                    {
                        let peak = read_peak_at(buffer, 9 + i * 18);
                        peaks.push(peak);
                        i += 1;
                    }
                    proof {
                        let c = buffer@.skip(9);
                        lemma_peaks_from_len(c, count as nat);
                        assert forall|j: int| 0 <= j < count implies spec_peaks_from(
                            c,
                            count as nat,
                        )[j] == peaks@[j] by {
                            lemma_peaks_from_index(c, count as nat, j);
                            assert(c.subrange(18 * j, 18 * j + 18) =~= buffer@.subrange(
                                9 + 18 * j,
                                9 + 18 * j + 18,
                            ));
                        }
                        assert(peaks@ =~= spec_peaks_from(c, count as nat));
                    }
                    Ok((Message::Data(peaks), 9 + total))
                }
            },
            1 => {
                if len < 2 {
                    return Err(DeserializeError::BufferToShort(2 - len));
                }
                proof {
                    assert(buffer@.subrange(1, 2)[0] == buffer@[1]);
                }
                match buffer[1] {
                    0 => Ok((Message::Status(Status::Start), 2)),
                    1 => Ok((Message::Status(Status::Stop), 2)),
                    _ => Err(DeserializeError::WrongValue),
                }
            },
            2 => {
                if len < 41 {
                    return Err(DeserializeError::BufferToShort(41 - len));
                }
                let config = read_config_at(buffer, 1);
                Ok((Message::Config(config), 41))
            },
            _ => Err(DeserializeError::WrongValue),
        }
    }
}

/// Element-wise comparison of two peak batches.
fn peaks_eq(a: &Vec<MeasuredPeak>, b: &Vec<MeasuredPeak>) -> (r: bool)
    ensures
        r == (a@ == b@),
{
    if a.len() != b.len() {
        return false;
    }
    let mut i: usize = 0;
    while i < a.len()
        invariant
            i <= a@.len(),
            a@.len() == b@.len(),
            forall|j: int| 0 <= j < i ==> a@[j] == b@[j],
        decreases a@.len() - i,
    {
        if a[i] != b[i] {
            return false;
        }
        i += 1;
    }
    proof {
        assert(a@ =~= b@);
    }
    true
}

impl PartialEq for Message {
    /// Two messages are equal when they are the same variant with
    /// equal payloads; peak batches compare element-wise.
    fn eq(&self, other: &Message) -> (r: bool) {
        match (self, other) {
            (Message::Data(a), Message::Data(b)) => peaks_eq(a, b),
            (Message::Status(a), Message::Status(b)) => a == b,
            (Message::Config(a), Message::Config(b)) => a == b,
            _ => false,
        }
    }
}

impl vstd::std_specs::cmp::PartialEqSpecImpl for Message {
    open spec fn obeys_eq_spec() -> bool {
        true
    }

    open spec fn eq_spec(&self, other: &Message) -> bool {
        self@ == other@
    }
}

// ---------------------------------------------------------------------
// Laws

/// A message round-trips: decoding its framed encoding gives the same
/// message back and consumes the entire encoding.
pub proof fn lemma_message_round_trip(m: Message)
    ensures
        spec_message_deserialized(spec_message_bytes(m@)) == Ok::<
            (MessageView, int),
            DeserializeError,
        >((m@, spec_message_bytes(m@).len() as int)),
{
    let b = spec_message_bytes(m@);
    match m {
        Message::Data(peaks) => {
            let ps = peaks@;
            let n = ps.len();
            assert(n == vstd::std_specs::vec::spec_vec_len(&peaks));
            lemma_peaks_bytes_len(ps);
            assert(b.len() == 9 + 18 * n);
            assert(b[0] == 0);
            assert(b.subrange(1, 9) =~= spec_u64_to_be_bytes(n as u64));
            lemma_u64_be_bytes_round_trip(n as u64);
            let count = spec_u64_from_be_bytes(b.subrange(1, 9)) as int;
            assert(count == n);
            assert(b.skip(9) =~= spec_peaks_bytes(ps));
            lemma_peaks_from_of_bytes(ps);
        },
        Message::Status(status) => {
            assert(b.len() == 2);
            assert(b[0] == 1);
            assert(b.subrange(1, 2) =~= spec_status_bytes(status));
            lemma_status_round_trip(status);
        },
        Message::Config(config) => {
            assert(b.len() == 41);
            assert(b[0] == 2);
            assert(b.subrange(1, 41) =~= spec_config_bytes(config));
            lemma_config_round_trip(config);
        },
    }
}

/// Decoding the concatenation of peak encodings recovers the peaks.
proof fn lemma_peaks_from_of_bytes(ps: Seq<MeasuredPeak>)
    ensures
        spec_peaks_from(spec_peaks_bytes(ps), ps.len()) == ps,
    decreases ps.len(),
{
    if ps.len() == 0 {
        assert(spec_peaks_from(spec_peaks_bytes(ps), ps.len()) =~= ps);
    } else {
        let bytes = spec_peaks_bytes(ps);
        let rest = spec_peaks_bytes(ps.drop_first());
        lemma_peaks_bytes_len(ps.drop_first());
        lemma_peak_round_trip(ps[0]);
        assert(spec_peak_of(spec_peak_bytes(ps[0])) == ps[0]);
        lemma_peak_of_depends_on_prefix(bytes, spec_peak_bytes(ps[0]));
        assert(spec_peak_of(bytes) == ps[0]);
        assert(bytes.skip(18) =~= rest);
        lemma_peaks_from_of_bytes(ps.drop_first());
        lemma_peaks_from_len(rest, ps.drop_first().len());
        assert(spec_peaks_from(bytes, ps.len()) =~= ps);
    }
}

/// Decoding a buffer whose tag byte is none of `0`, `1` or `2` fails
/// with `WrongValue`, never with a value.
pub proof fn lemma_message_invalid_discriminant(b: Seq<u8>)
    requires
        b.len() >= 1,
        b[0] != 0,
        b[0] != 1,
        b[0] != 2,
    ensures
        spec_message_deserialized(b) == Err::<(MessageView, int), DeserializeError>(
            DeserializeError::WrongValue,
        ),
{
}

/// The exact shortfall that decoding an `n`-byte strict prefix of a
/// valid message encoding reports: the missing tag byte, the rest of
/// the `Data` count field, or the remainder of the fixed-size payload.
pub open spec fn spec_prefix_shortfall(v: MessageView, n: int) -> usize
    recommends
        0 <= n < spec_message_bytes(v).len(),
{
    if n == 0 {
        1
    } else {
        match v {
            MessageView::Data(ps) => if n < 9 {
                (9 - n) as usize
            } else {
                spec_shortfall(9 + 18 * ps.len() - n)
            },
            MessageView::Status(_) => (2 - n) as usize,
            MessageView::Config(_) => (41 - n) as usize,
        }
    }
}

/// Decoding any strict prefix of a valid message encoding fails with
/// `BufferToShort` and the exact missing byte count; it never yields
/// a value and never reports a wrong discriminant.
pub proof fn lemma_message_prefix_truncated(m: Message, n: int)
    requires
        0 <= n < spec_message_bytes(m@).len(),
    ensures
        spec_message_deserialized(spec_message_bytes(m@).take(n)) == Err::<
            (MessageView, int),
            DeserializeError,
        >(DeserializeError::BufferToShort(spec_prefix_shortfall(m@, n))),
{
    let full = spec_message_bytes(m@);
    let prefix = full.take(n);
    if n == 0 {
    } else {
        match m {
            Message::Data(peaks) => {
                let ps = peaks@;
                assert(ps.len() == vstd::std_specs::vec::spec_vec_len(&peaks));
                lemma_peaks_bytes_len(ps);
                assert(prefix[0] == 0);
                if n >= 9 {
                    assert(prefix.subrange(1, 9) =~= spec_u64_to_be_bytes(ps.len() as u64));
                    lemma_u64_be_bytes_round_trip(ps.len() as u64);
                    let count = spec_u64_from_be_bytes(prefix.subrange(1, 9)) as int;
                    assert(count == ps.len());
                    assert(prefix.len() - 9 < count * 18);
                }
            },
            Message::Status(status) => {
                assert(full.len() == 2);
                assert(prefix[0] == 1);
            },
            Message::Config(config) => {
                assert(full.len() == 41);
                assert(prefix[0] == 2);
            },
        }
    }
}

} // verus!
