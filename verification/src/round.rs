//! Rounds and their canonical encoding.
//!
//! A round is one party's complete turn: the type of the party that owns it
//! and the operations of the turn, in order. Its encoding is the owner's type
//! in one byte, the number of operations in eight little-endian bytes, and
//! then each operation as the length of its UTF-8 text in eight little-endian
//! bytes followed by that text.

use vstd::prelude::*;
use vstd::utf8::{decode_utf8, encode_utf8, valid_utf8, encode_utf8_valid_utf8, encode_utf8_decode_utf8, decode_utf8_encode_utf8};
use crate::error::ChannelError;
use crate::bytes::{append_bytes, append_le64, copy_range, from_le64, le64, lemma_le64_inverse, read_le64, string_from_utf8};

verus! {

/// One party's turn.
#[derive(Clone, Debug, PartialEq, Eq)]
pub struct Round {
    pub user_type: u8,
    pub operations: Vec<String>,
}

/// What a round holds, as mathematical values.
pub struct RoundView {
    pub user_type: u8,
    pub operations: Seq<Seq<char>>,
}

/// The texts of a list of operations.
pub open spec fn operations_view(operations: Seq<String>) -> Seq<Seq<char>> {
    Seq::new(operations.len(), |i: int| operations[i]@)
}

impl View for Round {
    type V = RoundView;

    open spec fn view(&self) -> RoundView {
        RoundView { user_type: self.user_type, operations: operations_view(self.operations@) }
    }
}

/// The encoding of one operation: the length of its text, then the text.
pub open spec fn encode_operation(operation: Seq<char>) -> Seq<u8> {
    le64(encode_utf8(operation).len() as u64) + encode_utf8(operation)
}

/// The encodings of the operations, one after the other.
pub open spec fn encode_operations(operations: Seq<Seq<char>>) -> Seq<u8>
    decreases operations.len(),
{
    if operations.len() == 0 {
        Seq::empty()
    } else {
        encode_operation(operations[0]) + encode_operations(operations.drop_first())
    }
}

/// The canonical encoding of a round.
pub open spec fn encode_round(round: RoundView) -> Seq<u8> {
    seq![round.user_type] + le64(round.operations.len() as u64) + encode_operations(
        round.operations,
    )
}

/// Whether every length in the round fits the eight bytes that the encoding
/// has for it. Every round held in memory does.
pub open spec fn encodable(round: RoundView) -> bool {
    &&& round.operations.len() <= u64::MAX
    &&& forall|i: int|
        0 <= i < round.operations.len() ==> (#[trigger] encode_utf8(round.operations[i])).len()
            <= u64::MAX
}

/// Reads `count` operations that fill `bytes` exactly.
pub open spec fn decode_operations(bytes: Seq<u8>, count: nat) -> Option<Seq<Seq<char>>>
    decreases count,
{
    if count == 0 {
        if bytes.len() == 0 {
            Some(Seq::empty())
        } else {
            None
        }
    } else if bytes.len() < 8 {
        None
    } else {
        let length = from_le64(bytes.subrange(0, 8)) as int;
        if bytes.len() - 8 < length {
            None
        } else {
            let text = bytes.subrange(8, 8 + length);
            if !valid_utf8(text) {
                None
            } else {
                match decode_operations(bytes.skip(8 + length), (count - 1) as nat) {
                    Some(rest) => Some(seq![decode_utf8(text)] + rest),
                    None => None,
                }
            }
        }
    }
}

/// The round that `bytes` encodes, if they encode one.
pub open spec fn decode_round(bytes: Seq<u8>) -> Option<RoundView> {
    if bytes.len() < 9 {
        None
    } else {
        match decode_operations(bytes.skip(9), from_le64(bytes.subrange(1, 9)) as nat) {
            Some(operations) => Some(RoundView { user_type: bytes[0], operations }),
            None => None,
        }
    }
}

/// Appending an operation appends its encoding.
pub proof fn lemma_encode_operations_push(operations: Seq<Seq<char>>, operation: Seq<char>)
    ensures
        encode_operations(operations.push(operation)) == encode_operations(operations)
            + encode_operation(operation),
    decreases operations.len(),
{
    let extended = operations.push(operation);
    if operations.len() == 0 {
        assert(extended.drop_first() =~= Seq::<Seq<char>>::empty());
        assert(encode_operations(extended.drop_first()) =~= Seq::<u8>::empty());
        assert(encode_operations(extended) =~= encode_operation(operation));
        assert(encode_operations(operations) + encode_operation(operation) =~= encode_operation(
            operation,
        ));
    } else {
        lemma_encode_operations_push(operations.drop_first(), operation);
        assert(extended.drop_first() =~= operations.drop_first().push(operation));
        assert(extended[0] == operations[0]);
        assert(encode_operations(extended) =~= encode_operations(operations) + encode_operation(
            operation,
        ));
    }
}

/// Reading back the encoding of operations gives the operations.
pub proof fn lemma_decode_encode_operations(operations: Seq<Seq<char>>)
    requires
        forall|i: int|
            0 <= i < operations.len() ==> (#[trigger] encode_utf8(operations[i])).len()
                <= u64::MAX,
    ensures
        decode_operations(encode_operations(operations), operations.len()) == Some(operations),
    decreases operations.len(),
{
    if operations.len() > 0 {
        let first = operations[0];
        let rest = operations.drop_first();
        let text = encode_utf8(first);
        let bytes = encode_operations(operations);
        lemma_le64_inverse();
        assert forall|i: int| 0 <= i < rest.len() implies (#[trigger] encode_utf8(rest[i])).len()
            <= u64::MAX by {
            assert(rest[i] == operations[i + 1]);
        }
        lemma_decode_encode_operations(rest);
        assert(bytes == le64(text.len() as u64) + text + encode_operations(rest));
        assert(bytes.subrange(0, 8) =~= le64(text.len() as u64));
        assert(from_le64(bytes.subrange(0, 8)) == text.len());
        assert(bytes.subrange(8, 8 + text.len() as int) =~= text);
        assert(bytes.skip(8 + text.len() as int) =~= encode_operations(rest));
        encode_utf8_valid_utf8(first);
        encode_utf8_decode_utf8(first);
        assert(seq![first] + rest =~= operations);
    }
}

/// What is read from bytes encodes to those bytes again, and has as many
/// operations as were asked for.
pub proof fn lemma_encode_decode_operations(bytes: Seq<u8>, count: nat)
    requires
        decode_operations(bytes, count).is_some(),
    ensures
        decode_operations(bytes, count).unwrap().len() == count,
        encode_operations(decode_operations(bytes, count).unwrap()) == bytes,
        forall|i: int|
            0 <= i < count ==> (#[trigger] encode_utf8(
                decode_operations(bytes, count).unwrap()[i],
            )).len() <= u64::MAX,
    decreases count,
{
    let operations = decode_operations(bytes, count).unwrap();
    if count == 0 {
        assert(bytes =~= Seq::<u8>::empty());
    } else {
        let length = from_le64(bytes.subrange(0, 8)) as int;
        let text = bytes.subrange(8, 8 + length);
        let tail = bytes.skip(8 + length);
        let rest = decode_operations(tail, (count - 1) as nat).unwrap();
        lemma_encode_decode_operations(tail, (count - 1) as nat);
        lemma_le64_inverse();
        decode_utf8_encode_utf8(text);
        assert(operations == seq![decode_utf8(text)] + rest);
        assert(operations[0] == decode_utf8(text));
        assert(operations.drop_first() =~= rest);
        assert(encode_utf8(operations[0]) == text);
        assert(le64(length as u64) == bytes.subrange(0, 8));
        assert(encode_operations(operations) =~= bytes);
        assert forall|i: int| 0 <= i < count implies (#[trigger] encode_utf8(operations[i])).len()
            <= u64::MAX by {
            if i > 0 {
                assert(operations[i] == rest[i - 1]);
            }
        }
    }
}

/// Decoding is the inverse of encoding: the encoding of a round decodes to
/// that round.
pub proof fn lemma_decode_encode_round(round: RoundView)
    requires
        encodable(round),
    ensures
        decode_round(encode_round(round)) == Some(round),
{
    let bytes = encode_round(round);
    lemma_le64_inverse();
    lemma_decode_encode_operations(round.operations);
    assert(bytes.subrange(1, 9) =~= le64(round.operations.len() as u64));
    assert(bytes.skip(9) =~= encode_operations(round.operations));
    assert(bytes[0] == round.user_type);
}

/// Encoding is the inverse of decoding: bytes that decode to a round are the
/// encoding of that round, so no round has two encodings.
pub proof fn lemma_encode_decode_round(bytes: Seq<u8>)
    requires
        decode_round(bytes).is_some(),
    ensures
        encodable(decode_round(bytes).unwrap()),
        encode_round(decode_round(bytes).unwrap()) == bytes,
{
    let count = from_le64(bytes.subrange(1, 9)) as nat;
    lemma_le64_inverse();
    lemma_encode_decode_operations(bytes.skip(9), count);
}

/// A copy of a list of operations.
pub fn clone_operations(operations: &Vec<String>) -> (copy: Vec<String>)
    ensures
        operations_view(copy@) == operations_view(operations@),
{
    let mut copy: Vec<String> = Vec::new();
    let mut index: usize = 0;
    while index < operations.len()
        invariant
            index <= operations@.len(),
            copy@.len() == index,
            forall|k: int| 0 <= k < index ==> copy@[k]@ == operations@[k]@,
        decreases operations@.len() - index,
    {
        copy.push(operations[index].clone());
        index += 1;
    }
    copy
}

/// Whether two lists hold the same operations in the same order.
pub fn operations_equal(left: &Vec<String>, right: &Vec<String>) -> (same: bool)
    ensures
        same == (operations_view(left@) == operations_view(right@)),
{
    if left.len() != right.len() {
        assert(operations_view(left@).len() != operations_view(right@).len());
        return false;
    }
    let mut index: usize = 0;
    while index < left.len()
        invariant
            left@.len() == right@.len(),
            index <= left@.len(),
            forall|k: int| 0 <= k < index ==> left@[k]@ == right@[k]@,
        decreases left@.len() - index,
    {
        if left[index] != right[index] {
            assert(operations_view(left@)[index as int] != operations_view(right@)[index as int]);
            return false;
        }
        index += 1;
    }
    assert(operations_view(left@) =~= operations_view(right@));
    true
}

/// The texts that byte strings spell, where each of them is valid UTF-8.
pub open spec fn decode_texts(raw: Seq<Seq<u8>>) -> Option<Seq<Seq<char>>> {
    if forall|i: int| 0 <= i < raw.len() ==> valid_utf8(#[trigger] raw[i]) {
        Some(Seq::new(raw.len(), |i: int| decode_utf8(raw[i])))
    } else {
        None
    }
}

/// What a list of byte strings holds.
pub open spec fn raw_view(raw: Seq<Vec<u8>>) -> Seq<Seq<u8>> {
    Seq::new(raw.len(), |i: int| raw[i]@)
}

/// The operations that byte strings spell, or `MalformedRound` where one of
/// them is not valid UTF-8.
pub fn operations_from_bytes(raw: &Vec<Vec<u8>>) -> (decoded: Result<Vec<String>, ChannelError>)
    ensures
        match decoded {
            Ok(operations) => decode_texts(raw_view(raw@)) == Some(operations_view(operations@)),
            Err(error) => error == ChannelError::MalformedRound && decode_texts(raw_view(raw@)).is_none(),
        },
{
    let mut operations: Vec<String> = Vec::new();
    let mut index: usize = 0;
    while index < raw.len()
        invariant
            index <= raw@.len(),
            operations@.len() == index,
            forall|k: int| 0 <= k < index ==> valid_utf8(#[trigger] raw_view(raw@)[k]),
            forall|k: int| 0 <= k < index ==> operations@[k]@ == decode_utf8(raw@[k]@),
        decreases raw@.len() - index,
    {
        let bytes = copy_range(raw[index].as_slice(), 0, raw[index].len());
        assert(bytes@ =~= raw@[index as int]@);
        match string_from_utf8(bytes) {
            Some(text) => {
                operations.push(text);
            },
            None => {
                assert(!valid_utf8(raw_view(raw@)[index as int]));
                return Err(ChannelError::MalformedRound);
            },
        }
        index += 1;
    }
    assert(operations_view(operations@) =~= Seq::new(
        raw_view(raw@).len(),
        |i: int| decode_utf8(raw_view(raw@)[i]),
    ));
    Ok(operations)
}

/// The round of `user_type` with the given operations.
pub fn make_round(user_type: u8, operations: Vec<String>) -> (round: Round)
    ensures
        round@ == (RoundView { user_type, operations: operations_view(operations@) }),
{
    Round { user_type, operations }
}

impl Round {
    /// A copy of the round.
    pub fn duplicate(&self) -> (copy: Round)
        ensures
            copy@ == self@,
    {
        Round { user_type: self.user_type, operations: clone_operations(&self.operations) }
    }

    /// The canonical encoding of the round. A round in memory is encodable:
    /// its lengths fit a machine word.
    pub fn encode(&self) -> (bytes: Vec<u8>)
        ensures
            bytes@ == encode_round(self@),
            encodable(self@),
    {
        let mut bytes: Vec<u8> = Vec::new();
        bytes.push(self.user_type);
        append_le64(&mut bytes, self.operations.len() as u64);
        let ghost header = bytes@;
        let ghost texts = self@.operations;
        let mut index: usize = 0;
        assert(texts.take(0) =~= Seq::<Seq<char>>::empty());
        while index < self.operations.len()
            invariant
                index <= self.operations@.len(),
                texts == operations_view(self.operations@),
                bytes@ == header + encode_operations(texts.take(index as int)),
                forall|k: int| 0 <= k < index ==> (#[trigger] encode_utf8(texts[k])).len() <= u64::MAX,
            decreases self.operations@.len() - index,
        {
            let text = self.operations[index].as_str().as_bytes();
            append_le64(&mut bytes, text.len() as u64);
            append_bytes(&mut bytes, text);
            proof {
                lemma_encode_operations_push(texts.take(index as int), texts[index as int]);
                assert(texts.take(index as int).push(texts[index as int]) =~= texts.take(
                    index + 1,
                ));
                assert(bytes@ =~= header + encode_operations(texts.take(index + 1)));
            }
            index += 1;
        }
        assert(texts.take(index as int) =~= texts);
        assert(header =~= seq![self.user_type] + le64(self.operations@.len() as u64));
        bytes
    }

    /// The round that `bytes` encode, or `MalformedRound` where they encode
    /// none.
    pub fn decode(bytes: &[u8]) -> (decoded: Result<Round, ChannelError>)
        ensures
            match decoded {
                Ok(round) => decode_round(bytes@) == Some(round@),
                Err(error) => decode_round(bytes@).is_none() && error == ChannelError::MalformedRound,
            },
    {
        let total: usize = bytes.len();
        if total < 9 {
            return Err(ChannelError::MalformedRound);
        }
        let user_type = bytes[0];
        let count: u64 = read_le64(bytes, 1);
        let mut operations: Vec<String> = Vec::new();
        let mut cursor: usize = 9;
        let mut index: u64 = 0;
        let ghost whole = decode_operations(bytes@.skip(9), count as nat);
        while index < count
            invariant
                index <= count,
                9 <= cursor <= total,
                total == bytes@.len(),
                operations@.len() == index,
                count == from_le64(bytes@.subrange(1, 9)),
                whole == decode_operations(bytes@.skip(9), count as nat),
                whole == match decode_operations(bytes@.skip(cursor as int), (count - index) as nat) {
                    Some(rest) => Some(operations_view(operations@) + rest),
                    None => None,
                },
            decreases count - index,
        {
            let ghost remaining = bytes@.skip(cursor as int);
            let ghost parsed = operations_view(operations@);
            if total - cursor < 8 {
                return Err(ChannelError::MalformedRound);
            }
            let length: u64 = read_le64(bytes, cursor);
            assert(bytes@.subrange(cursor as int, cursor + 8) =~= remaining.subrange(0, 8));
            let available: u64 = (total - cursor - 8) as u64;
            if available < length {
                return Err(ChannelError::MalformedRound);
            }
            let start: usize = cursor + 8;
            let end: usize = start + length as usize;
            let text = copy_range(bytes, start, end);
            assert(text@ =~= remaining.subrange(8, 8 + length as int));
            assert(bytes@.skip(end as int) =~= remaining.skip(8 + length as int));
            match string_from_utf8(text) {
                None => {
                    return Err(ChannelError::MalformedRound);
                },
                Some(operation) => {
                    operations.push(operation);
                    proof {
                        let rest = decode_operations(
                            bytes@.skip(end as int),
                            (count - index - 1) as nat,
                        );
                        assert(operations_view(operations@) =~= parsed.push(operation@));
                        if rest.is_some() {
                            assert(parsed + (seq![operation@] + rest.unwrap()) =~= parsed.push(
                                operation@,
                            ) + rest.unwrap());
                        }
                    }
                    cursor = end;
                    index += 1;
                },
            }
        }
        if cursor != total {
            return Err(ChannelError::MalformedRound);
        }
        assert(bytes@.skip(cursor as int) =~= Seq::<u8>::empty());
        assert(operations_view(operations@) + Seq::<Seq<char>>::empty() =~= operations_view(
            operations@,
        ));
        Ok(Round { user_type, operations })
    }
}

/// Whether each of the operations has a text whose length fits the eight
/// bytes that the encoding has for it.
pub open spec fn operations_encodable(operations: Seq<Seq<char>>) -> bool {
    forall|i: int|
        0 <= i < operations.len() ==> (#[trigger] encode_utf8(operations[i])).len() <= u64::MAX
}

/// The encoding of operations delimits itself: where two lists of as many
/// operations, each followed by some bytes, give the same bytes, the lists
/// are the same and so is what follows them.
pub proof fn lemma_encode_operations_delimited(
    left: Seq<Seq<char>>,
    left_tail: Seq<u8>,
    right: Seq<Seq<char>>,
    right_tail: Seq<u8>,
)
    requires
        left.len() == right.len(),
        operations_encodable(left),
        operations_encodable(right),
        encode_operations(left) + left_tail == encode_operations(right) + right_tail,
    ensures
        left == right,
        left_tail == right_tail,
    decreases left.len(),
{
    if left.len() == 0 {
        assert(encode_operations(left) + left_tail =~= left_tail);
        assert(encode_operations(right) + right_tail =~= right_tail);
        assert(left =~= right);
    } else {
        let left_text = encode_utf8(left[0]);
        let right_text = encode_utf8(right[0]);
        let left_rest = left.drop_first();
        let right_rest = right.drop_first();
        let left_bytes = encode_operations(left) + left_tail;
        let right_bytes = encode_operations(right) + right_tail;
        lemma_le64_inverse();
        assert(left_bytes =~= le64(left_text.len() as u64) + left_text + (encode_operations(
            left_rest,
        ) + left_tail));
        assert(right_bytes =~= le64(right_text.len() as u64) + right_text + (encode_operations(
            right_rest,
        ) + right_tail));
        assert(left_bytes.subrange(0, 8) =~= le64(left_text.len() as u64));
        assert(right_bytes.subrange(0, 8) =~= le64(right_text.len() as u64));
        assert(from_le64(le64(left_text.len() as u64)) == from_le64(le64(right_text.len() as u64)));
        assert(left_text.len() == right_text.len());
        let length = left_text.len() as int;
        assert(left_bytes.subrange(8, 8 + length) =~= left_text);
        assert(right_bytes.subrange(8, 8 + length) =~= right_text);
        encode_utf8_decode_utf8(left[0]);
        encode_utf8_decode_utf8(right[0]);
        assert(left[0] == right[0]);
        assert(left_bytes.skip(8 + length) =~= encode_operations(left_rest) + left_tail);
        assert(right_bytes.skip(8 + length) =~= encode_operations(right_rest) + right_tail);
        assert forall|i: int| 0 <= i < left_rest.len() implies (#[trigger] encode_utf8(
            left_rest[i],
        )).len() <= u64::MAX by {
            assert(left_rest[i] == left[i + 1]);
        }
        assert forall|i: int| 0 <= i < right_rest.len() implies (#[trigger] encode_utf8(
            right_rest[i],
        )).len() <= u64::MAX by {
            assert(right_rest[i] == right[i + 1]);
        }
        lemma_encode_operations_delimited(left_rest, left_tail, right_rest, right_tail);
        assert(left =~= seq![left[0]] + left_rest);
        assert(right =~= seq![right[0]] + right_rest);
    }
}

/// The encoding of a round delimits itself: where two rounds, each followed
/// by some bytes, give the same bytes, the rounds are the same and so is
/// what follows them.
pub proof fn lemma_encode_round_delimited(
    left: RoundView,
    left_tail: Seq<u8>,
    right: RoundView,
    right_tail: Seq<u8>,
)
    requires
        encodable(left),
        encodable(right),
        encode_round(left) + left_tail == encode_round(right) + right_tail,
    ensures
        left == right,
        left_tail == right_tail,
{
    let left_bytes = encode_round(left) + left_tail;
    let right_bytes = encode_round(right) + right_tail;
    lemma_le64_inverse();
    assert(left_bytes[0] == left.user_type);
    assert(right_bytes[0] == right.user_type);
    assert(left_bytes.subrange(1, 9) =~= le64(left.operations.len() as u64));
    assert(right_bytes.subrange(1, 9) =~= le64(right.operations.len() as u64));
    assert(from_le64(le64(left.operations.len() as u64)) == from_le64(
        le64(right.operations.len() as u64),
    ));
    assert(left.operations.len() == right.operations.len());
    assert(left_bytes.skip(9) =~= encode_operations(left.operations) + left_tail);
    assert(right_bytes.skip(9) =~= encode_operations(right.operations) + right_tail);
    lemma_encode_operations_delimited(left.operations, left_tail, right.operations, right_tail);
}

/// Two rounds with the same encoding are the same round.
pub proof fn lemma_encode_round_injective(left: RoundView, right: RoundView)
    requires
        encodable(left),
        encodable(right),
        encode_round(left) == encode_round(right),
    ensures
        left == right,
{
    lemma_decode_encode_round(left);
    lemma_decode_encode_round(right);
}

} // verus!
