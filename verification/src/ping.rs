//! A simple ping protocol: messages with their length in front.

use vstd::prelude::*;

use crate::byte_strings::bytes_to_vec;

verus! {

/// The name of the protocol.
pub const PING_PROTOCOL: &'static str = "/ping/1";

/// The longest message that is read.
pub const MAX_PING_SIZE: usize = 1024;

/// How many bytes a length takes up at most.
pub const LONGEST_LENGTH: usize = 10;

/// A request.
#[derive(Debug)]
pub struct Ping(pub Vec<u8>);

/// A response.
#[derive(Debug)]
pub struct Pong(pub Vec<u8>);

/// Why a message could not be read.
#[derive(Clone, Copy, Debug, PartialEq, Eq, Structural)]
pub enum PingError {
    /// The message is empty, or ends too early.
    UnexpectedEof,
    /// The length is malformed or too large.
    InvalidData,
}

/// A number in groups of seven bits, least significant first. All but the last are marked by
/// their highest bit.
pub open spec fn varint(n: nat) -> Seq<u8>
    decreases n,
{
    if n < 128 {
        seq![n as u8]
    } else {
        seq![(n % 128 + 128) as u8] + varint(n / 128)
    }
}

/// A message as it is sent.
pub open spec fn framed(data: Seq<u8>) -> Seq<u8> {
    varint(data.len()) + data
}

/// How many bytes at the front are marked by their highest bit.
pub open spec fn marked_bytes(bytes: Seq<u8>) -> nat
    decreases bytes.len(),
{
    if bytes.len() == 0 || bytes[0] < 128 {
        0
    } else {
        1 + marked_bytes(bytes.skip(1))
    }
}

/// The number that groups of seven bits spell, least significant first.
pub open spec fn groups_value(bytes: Seq<u8>) -> nat
    decreases bytes.len(),
{
    if bytes.len() == 0 {
        0
    } else {
        (bytes[0] % 128) as nat + 128 * groups_value(bytes.skip(1))
    }
}

/// Whether a length stands in front whose last group is zero, though it is not the only one.
pub open spec fn has_needless_group(bytes: Seq<u8>) -> bool {
    let marked = marked_bytes(bytes);
    0 < marked < LONGEST_LENGTH && marked < bytes.len() && bytes[marked as int] == 0
}

/// Whether reading comes to an end. After a length with a needless group, more of the length is
/// looked for until the bytes end, which has to be before the longest length is full.
pub open spec fn is_readable(bytes: Seq<u8>) -> bool {
    has_needless_group(bytes) ==> bytes.len() < LONGEST_LENGTH
}

/// The length that stands in front, with the number of bytes that it takes up. Nothing at all
/// stands for the length zero. Of a length that is too large for 64 bits the lowest 64 count.
pub open spec fn leading_length(bytes: Seq<u8>) -> Result<(nat, nat), PingError> {
    let marked = marked_bytes(bytes);
    if bytes.len() == 0 {
        Ok((0, 0))
    } else if marked >= LONGEST_LENGTH {
        Err(PingError::InvalidData)
    } else if marked == bytes.len() || has_needless_group(bytes) {
        Err(PingError::UnexpectedEof)
    } else {
        Ok((groups_value(bytes.take((marked + 1) as int)) % 0x1_0000_0000_0000_0000, marked + 1))
    }
}

/// The message that stands in front.
pub open spec fn leading_message(bytes: Seq<u8>) -> Result<Seq<u8>, PingError> {
    match leading_length(bytes) {
        Err(error) => Err(error),
        Ok((len, used)) => if len > MAX_PING_SIZE {
            Err(PingError::InvalidData)
        } else if len == 0 || bytes.len() < used + len {
            Err(PingError::UnexpectedEof)
        } else {
            Ok(bytes.subrange(used as int, (used + len) as int))
        },
    }
}

fn push_varint(out: &mut Vec<u8>, n: usize)
    ensures
        final(out)@ == old(out)@ + varint(n as nat),
{
    let mut rest: usize = n;
    let ghost start = out@;
    while rest >= 128
        invariant
            start + varint(n as nat) == out@ + varint(rest as nat),
        decreases rest,
    {
        let group: u8 = (rest % 128 + 128) as u8;
        let ghost before = out@;
        out.push(group);
        assert(before + varint(rest as nat) =~= out@ + varint((rest / 128) as nat));
        rest = rest / 128;
    }
    out.push(rest as u8);
    assert(out@ =~= start + varint(n as nat));
}

fn frame(data: &Vec<u8>) -> (bytes: Vec<u8>)
    ensures
        bytes@ == framed(data@),
{
    let mut bytes: Vec<u8> = Vec::new();
    push_varint(&mut bytes, data.len());
    let ghost prefix = bytes@;
    let mut i: usize = 0;
    assert(prefix =~= prefix + data@.take(0));
    while i < data.len()
        invariant
            i <= data@.len(),
            bytes@ == prefix + data@.take(i as int),
        decreases data@.len() - i,
    {
        bytes.push(data[i]);
        assert(bytes@ =~= prefix + data@.take(i + 1));
        i += 1;
    }
    assert(data@.take(i as int) =~= data@);
    assert(prefix =~= varint(data@.len()));
    bytes
}

/// How many of the bytes at the front are marked, counted up to the longest length.
fn count_marked(bytes: &[u8]) -> (count: usize)
    ensures
        count == if marked_bytes(bytes@) < LONGEST_LENGTH {
            marked_bytes(bytes@)
        } else {
            LONGEST_LENGTH as nat
        },
        count <= bytes@.len(),
        count < bytes@.len() && count < LONGEST_LENGTH ==> bytes@[count as int] < 128,
        count < LONGEST_LENGTH ==> marked_bytes(bytes@) <= bytes@.len(),
{
    let mut count: usize = 0;
    assert(bytes@.skip(0) =~= bytes@);
    while count < bytes.len() && count < LONGEST_LENGTH && bytes[count] >= 128
        invariant
            count <= bytes@.len(),
            count <= LONGEST_LENGTH,
            marked_bytes(bytes@) == count + marked_bytes(bytes@.skip(count as int)),
        decreases bytes@.len() - count,
    {
        assert(bytes@.skip(count as int).skip(1) =~= bytes@.skip(count + 1));
        count += 1;
    }
    count
}

/// The lowest 64 bits of the number that the first groups spell.
fn sum_groups(bytes: &[u8], count: usize) -> (sum: u64)
    requires
        count <= bytes@.len(),
    ensures
        sum == groups_value(bytes@.take(count as int)) % 0x1_0000_0000_0000_0000,
{
    let mut sum: u64 = 0;
    let mut i: usize = count;
    let ghost groups = bytes@.take(count as int);
    assert(groups.skip(count as int) =~= Seq::<u8>::empty());
    while i > 0
        invariant
            i <= count,
            count <= bytes@.len(),
            groups == bytes@.take(count as int),
            sum == groups_value(groups.skip(i as int)) % 0x1_0000_0000_0000_0000,
        decreases i,
    {
        i -= 1;
        let group: u64 = (bytes[i] % 128) as u64;
        let ghost higher = groups_value(groups.skip(i + 1));
        assert(groups.skip(i as int).skip(1) =~= groups.skip(i + 1));
        let low: u64 = sum % 0x200_0000_0000_0000;
        proof {
            lemma_low_bits(higher, sum as nat, group as nat);
        }
        sum = low * 128 + group;
    }
    assert(groups.skip(0) =~= groups);
    sum
}

proof fn lemma_low_bits(higher: nat, sum: nat, group: nat)
    requires
        sum == higher % 0x1_0000_0000_0000_0000,
        group < 128,
    ensures
        (group + 128 * higher) % 0x1_0000_0000_0000_0000 == (sum % 0x200_0000_0000_0000) * 128
            + group,
{
    let above = higher / 0x1_0000_0000_0000_0000;
    let middle = sum / 0x200_0000_0000_0000;
    vstd::arithmetic::div_mod::lemma_fundamental_div_mod_converse(
        (group + 128 * higher) as int,
        0x1_0000_0000_0000_0000,
        (128 * above + middle) as int,
        ((sum % 0x200_0000_0000_0000) * 128 + group) as int,
    );
}

fn unframe(bytes: &[u8]) -> (message: Result<Vec<u8>, PingError>)
    requires
        is_readable(bytes@),
    ensures
        match message {
            Ok(data) => leading_message(bytes@) == Ok::<Seq<u8>, PingError>(data@),
            Err(error) => leading_message(bytes@) == Err::<Seq<u8>, PingError>(error),
        },
{
    if bytes.len() == 0 {
        return Err(PingError::UnexpectedEof);
    }
    let marked: usize = count_marked(bytes);
    if marked == LONGEST_LENGTH {
        return Err(PingError::InvalidData);
    }
    if marked == bytes.len() || marked > 0 && bytes[marked] == 0 {
        return Err(PingError::UnexpectedEof);
    }
    let used: usize = marked + 1;
    let sum: u64 = sum_groups(bytes, used);
    if sum > MAX_PING_SIZE as u64 {
        return Err(PingError::InvalidData);
    }
    let len: usize = sum as usize;
    if len == 0 || bytes.len() - used < len {
        return Err(PingError::UnexpectedEof);
    }
    let message = vstd::slice::slice_subrange(bytes, used, used + len);
    Ok(bytes_to_vec(message))
}

/// Whether a message can be read from the bytes, or be refused.
pub fn can_read(bytes: &[u8]) -> (readable: bool)
    ensures
        readable == is_readable(bytes@),
{
    let marked: usize = count_marked(bytes);
    let needless = marked > 0 && marked < LONGEST_LENGTH && marked < bytes.len()
        && bytes[marked] == 0;
    !needless || bytes.len() < LONGEST_LENGTH
}

/// Reads a request from what a peer sent.
pub fn read_request(bytes: &[u8]) -> (ping: Result<Ping, PingError>)
    requires
        is_readable(bytes@),
    ensures
        match ping {
            Ok(ping) => leading_message(bytes@) == Ok::<Seq<u8>, PingError>(ping.0@),
            Err(error) => leading_message(bytes@) == Err::<Seq<u8>, PingError>(error),
        },
{
    match unframe(bytes) {
        Ok(data) => Ok(Ping(data)),
        Err(error) => Err(error),
    }
}

/// Reads a response from what a peer sent.
pub fn read_response(bytes: &[u8]) -> (pong: Result<Pong, PingError>)
    requires
        is_readable(bytes@),
    ensures
        match pong {
            Ok(pong) => leading_message(bytes@) == Ok::<Seq<u8>, PingError>(pong.0@),
            Err(error) => leading_message(bytes@) == Err::<Seq<u8>, PingError>(error),
        },
{
    match unframe(bytes) {
        Ok(data) => Ok(Pong(data)),
        Err(error) => Err(error),
    }
}

/// What is sent for a request.
pub fn write_request(ping: &Ping) -> (bytes: Vec<u8>)
    ensures
        bytes@ == framed(ping.0@),
{
    frame(&ping.0)
}

/// What is sent for a response.
pub fn write_response(pong: &Pong) -> (bytes: Vec<u8>)
    ensures
        bytes@ == framed(pong.0@),
{
    frame(&pong.0)
}

/// What `k` groups of seven bits cannot hold any more.
spec fn group_limit(k: nat) -> nat
    decreases k,
{
    if k == 0 {
        1
    } else {
        128 * group_limit((k - 1) as nat)
    }
}

proof fn lemma_varint_len(n: nat, k: nat)
    requires
        k > 0,
        n < group_limit(k),
    ensures
        0 < varint(n).len() <= k,
    decreases k,
{
    if n >= 128 {
        reveal_with_fuel(group_limit, 2);
        lemma_varint_len(n / 128, (k - 1) as nat);
    }
}

proof fn lemma_varint(n: nat, rest: Seq<u8>)
    ensures
        varint(n).len() > 0,
        marked_bytes(varint(n) + rest) == varint(n).len() - 1,
        groups_value(varint(n)) == n,
        n > 0 ==> varint(n).last() > 0,
    decreases n,
{
    reveal_with_fuel(groups_value, 2);
    let bytes = varint(n) + rest;
    if n < 128 {
        assert(varint(n).skip(1) =~= Seq::<u8>::empty());
        assert(bytes[0] == n as u8);
    } else {
        lemma_varint(n / 128, rest);
        assert(varint(n).skip(1) =~= varint(n / 128));
        assert(bytes.skip(1) =~= varint(n / 128) + rest);
        assert(varint(n)[0] == (n % 128 + 128) as u8);
        assert(bytes[0] == (n % 128 + 128) as u8);
        assert(varint(n).last() == varint(n / 128).last());
    }
}

/// What was written can be read, and is read back, if it is neither empty nor too long, whatever
/// follows it. An empty message is refused as one that ends too early, and a long one as invalid.
pub proof fn law_read_gives_back_what_was_written(data: Seq<u8>, rest: Seq<u8>)
    requires
        data.len() <= usize::MAX,
    ensures
        is_readable(framed(data) + rest),
        0 < data.len() <= MAX_PING_SIZE ==> leading_message(framed(data) + rest) == Ok::<
            Seq<u8>,
            PingError,
        >(data),
        data.len() == 0 ==> leading_message(framed(data) + rest) == Err::<Seq<u8>, PingError>(
            PingError::UnexpectedEof,
        ),
        data.len() > MAX_PING_SIZE ==> leading_message(framed(data) + rest) == Err::<
            Seq<u8>,
            PingError,
        >(PingError::InvalidData),
{
    let n = data.len();
    let bytes = framed(data) + rest;
    let used = varint(n).len();
    assert(bytes =~= varint(n) + (data + rest));
    lemma_varint(n, data + rest);
    reveal_with_fuel(group_limit, 11);
    lemma_varint_len(n, 10);
    assert(bytes.take(used as int) =~= varint(n));
    assert(bytes[used - 1] == varint(n).last());
    assert(bytes.subrange(used as int, (used + n) as int) =~= data);
    assert(!has_needless_group(bytes)) by {
        if n == 0 {
            assert(used == 1);
        }
    }
    assert(leading_length(bytes) == Ok::<(nat, nat), PingError>((n, used)));
}

/// A later group counts 128 times as much for each group in front of it, and of each byte the
/// highest bit does not count.
pub proof fn law_groups_are_little_endian(a: Seq<u8>, b: Seq<u8>, byte: u8)
    ensures
        groups_value(a + b) == groups_value(a) + vstd::arithmetic::power::pow(128, a.len())
            * groups_value(b),
        groups_value(seq![byte]) == if byte < 128 {
            byte as int
        } else {
            byte - 128
        },
        groups_value(Seq::empty()) == 0,
    decreases a.len(),
{
    reveal_with_fuel(groups_value, 2);
    reveal(vstd::arithmetic::power::pow);
    assert(seq![byte].skip(1) =~= Seq::<u8>::empty());
    if a.len() == 0 {
        assert(a + b =~= b);
        assert(1 * groups_value(b) == groups_value(b));
    } else {
        let shorter = a.skip(1);
        law_groups_are_little_endian(shorter, b, byte);
        assert((a + b).skip(1) =~= shorter + b);
        let scale = vstd::arithmetic::power::pow(128, shorter.len());
        let behind = groups_value(b) as int;
        assert(vstd::arithmetic::power::pow(128, a.len()) == 128 * scale);
        assert(128 * (scale * behind) == (128 * scale) * behind) by (nonlinear_arith);
    }
}

/// A message is sent as it is behind its length: groups of which all but the last are marked, that
/// spell the length, in as few bytes as it takes.
pub proof fn law_messages_follow_their_length(data: Seq<u8>)
    ensures
        ({
            let used = framed(data).len() - data.len();
            &&& used >= 1
            &&& framed(data).skip(used) == data
            &&& groups_value(framed(data).take(used)) == data.len()
            &&& forall|i: int| 0 <= i < used - 1 ==> #[trigger] framed(data)[i] >= 128
            &&& framed(data)[used - 1] < 128
            &&& framed(data)[used - 1] == 0 ==> used == 1
        }),
{
    let n = data.len();
    let used = varint(n).len() as int;
    lemma_varint(n, data);
    lemma_varint_marks(n);
    assert(framed(data).take(used) =~= varint(n));
    assert(framed(data).skip(used) =~= data);
    assert forall|i: int| 0 <= i < used - 1 implies #[trigger] framed(data)[i] >= 128 by {
        assert(framed(data)[i] == varint(n)[i]);
    }
    assert(framed(data)[used - 1] == varint(n).last());
    if n == 0 {
        assert(used == 1);
    }
}

proof fn lemma_varint_marks(n: nat)
    ensures
        varint(n).len() > 0,
        varint(n).last() < 128,
        forall|i: int| 0 <= i < varint(n).len() - 1 ==> #[trigger] varint(n)[i] >= 128,
    decreases n,
{
    if n >= 128 {
        lemma_varint_marks(n / 128);
        assert(varint(n).last() == varint(n / 128).last());
        assert forall|i: int| 0 <= i < varint(n).len() - 1 implies #[trigger] varint(n)[i]
            >= 128 by {
            if i > 0 {
                assert(varint(n)[i] == varint(n / 128)[i - 1]);
            }
        }
    }
}

proof fn lemma_marked_bytes(head: Seq<u8>, rest: Seq<u8>)
    requires
        forall|i: int| 0 <= i < head.len() ==> head[i] >= 128,
        rest.len() == 0 || rest[0] < 128,
    ensures
        marked_bytes(head + rest) == head.len(),
    decreases head.len(),
{
    if head.len() == 0 {
        assert(head + rest =~= rest);
    } else {
        lemma_marked_bytes(head.skip(1), rest);
        assert((head + rest).skip(1) =~= head.skip(1) + rest);
    }
}

/// What stands behind a length is read exactly: as many bytes as the length says, if those are
/// some, no more than 1024, and all there. A length is up to nine marked bytes and one that is
/// not marked, nor zero unless it is the only one; of its value 64 bits count.
pub proof fn law_reading_goes_by_the_length(head: Seq<u8>, last: u8, rest: Seq<u8>)
    requires
        forall|i: int| 0 <= i < head.len() ==> head[i] >= 128,
        head.len() <= 9,
        last < 128,
        last == 0 ==> head.len() == 0,
    ensures
        is_readable(head.push(last) + rest),
        ({
            let len = groups_value(head.push(last)) % 0x1_0000_0000_0000_0000;
            let message = leading_message(head.push(last) + rest);
            &&& message is Ok <==> 0 < len <= 1024 && len <= rest.len()
            &&& message matches Ok(data) ==> data == rest.take(len as int)
            &&& message == Err::<Seq<u8>, PingError>(PingError::InvalidData) <==> len > 1024
        }),
{
    let bytes = head.push(last) + rest;
    let used = head.len() + 1;
    assert(bytes =~= head + (seq![last] + rest));
    lemma_marked_bytes(head, seq![last] + rest);
    assert(bytes[head.len() as int] == last);
    assert(bytes.take(used as int) =~= head.push(last));
    let len = groups_value(head.push(last)) % 0x1_0000_0000_0000_0000;
    if len <= rest.len() {
        assert(bytes.subrange(used as int, (used + len) as int) =~= rest.take(len as int));
    }
}

/// Bytes without a proper length are refused: ten marked ones as invalid; fewer than that, with
/// nothing or a needless zero behind them, as ending too early. With a needless zero reading comes
/// to an end only where there are fewer than ten bytes.
pub proof fn law_bad_lengths_are_refused(head: Seq<u8>, rest: Seq<u8>)
    requires
        forall|i: int| 0 <= i < head.len() ==> head[i] >= 128,
    ensures
        head.len() == 10 ==> is_readable(head + rest) && leading_message(head + rest) == Err::<
            Seq<u8>,
            PingError,
        >(PingError::InvalidData),
        head.len() < 10 ==> is_readable(head) && leading_message(head) == Err::<
            Seq<u8>,
            PingError,
        >(PingError::UnexpectedEof),
        0 < head.len() < 10 ==> {
            &&& is_readable(head.push(0) + rest) <==> head.len() + 1 + rest.len() < 10
            &&& leading_message(head.push(0) + rest) == Err::<Seq<u8>, PingError>(
                PingError::UnexpectedEof,
            )
        },
{
    lemma_marked_bytes(head, Seq::empty());
    assert(head + Seq::<u8>::empty() =~= head);
    if head.len() == 10 {
        lemma_marked_at_least(head, rest);
    }
    let zero = seq![0u8] + rest;
    assert(head.push(0) + rest =~= head + zero);
    lemma_marked_bytes(head, zero);
    assert((head.push(0) + rest)[head.len() as int] == 0);
}

proof fn lemma_marked_at_least(head: Seq<u8>, rest: Seq<u8>)
    requires
        forall|i: int| 0 <= i < head.len() ==> head[i] >= 128,
    ensures
        marked_bytes(head + rest) >= head.len(),
    decreases head.len(),
{
    if head.len() > 0 {
        lemma_marked_at_least(head.skip(1), rest);
        assert((head + rest).skip(1) =~= head.skip(1) + rest);
    }
}

} // verus!
