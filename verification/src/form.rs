//! The `application/x-www-form-urlencoded` notation in which a query string
//! carries its names and values.
//!
//! Writing: a byte that is a letter, a digit or one of `*`, `-`, `.`, `_`
//! stands for itself, a space becomes `+`, and any other byte becomes `%`
//! and its two upper-case hexadecimal digits. A pair is its name, `=` and
//! its value; pairs are joined by `&`. Reading undoes this, and the lemmas
//! below show that it gives back exactly what was written.

use vstd::prelude::*;

verus! {

/// A name and a value, each as bytes.
pub type Pair = (Seq<u8>, Seq<u8>);

pub const PLUS: u8 = 43;

pub const PERCENT: u8 = 37;

pub const AMPERSAND: u8 = 38;

pub const EQUALS: u8 = 61;

pub const SPACE: u8 = 32;

/// Whether `byte` is written as itself.
pub open spec fn is_unreserved(byte: u8) -> bool {
    ||| byte == 42
    ||| byte == 45
    ||| byte == 46
    ||| byte == 95
    ||| 48 <= byte <= 57
    ||| 65 <= byte <= 90
    ||| 97 <= byte <= 122
}

/// The upper-case hexadecimal digit for `nibble`, which is below 16.
pub open spec fn hex_digit(nibble: u8) -> u8 {
    if nibble < 10 {
        (48 + nibble) as u8
    } else {
        (55 + nibble) as u8
    }
}

/// The value of the hexadecimal digit `byte`, in either case.
pub open spec fn hex_value(byte: u8) -> Option<u8> {
    if 48 <= byte <= 57 {
        Some((byte - 48) as u8)
    } else if 65 <= byte <= 70 {
        Some((byte - 55) as u8)
    } else if 97 <= byte <= 102 {
        Some((byte - 87) as u8)
    } else {
        None
    }
}

/// How one byte is written.
pub open spec fn encode_byte(byte: u8) -> Seq<u8> {
    if is_unreserved(byte) {
        seq![byte]
    } else if byte == SPACE {
        seq![PLUS]
    } else {
        seq![PERCENT, hex_digit(byte / 16), hex_digit(byte % 16)]
    }
}

/// How a name or a value is written.
pub open spec fn encode(bytes: Seq<u8>) -> Seq<u8>
    decreases bytes.len(),
{
    if bytes.len() == 0 {
        Seq::empty()
    } else {
        encode_byte(bytes.first()) + encode(bytes.drop_first())
    }
}

/// Whether `bytes` starts with `%` and two hexadecimal digits.
pub open spec fn starts_with_escape(bytes: Seq<u8>) -> bool {
    &&& bytes.len() >= 3
    &&& bytes[0] == PERCENT
    &&& hex_value(bytes[1]) is Some
    &&& hex_value(bytes[2]) is Some
}

/// How a written name or value is read.
pub open spec fn decode(bytes: Seq<u8>) -> Seq<u8>
    decreases bytes.len(),
{
    if bytes.len() == 0 {
        Seq::empty()
    } else if starts_with_escape(bytes) {
        seq![(hex_value(bytes[1])->0 * 16 + hex_value(bytes[2])->0) as u8] + decode(bytes.skip(3))
    } else if bytes[0] == PLUS {
        seq![SPACE] + decode(bytes.drop_first())
    } else {
        seq![bytes[0]] + decode(bytes.drop_first())
    }
}

/// How a pair is written.
pub open spec fn write_pair(pair: Pair) -> Seq<u8> {
    encode(pair.0) + seq![EQUALS] + encode(pair.1)
}

/// How a sequence of pairs is written.
pub open spec fn write_pairs(pairs: Seq<Pair>) -> Seq<u8>
    decreases pairs.len(),
{
    if pairs.len() == 0 {
        Seq::empty()
    } else if pairs.len() == 1 {
        write_pair(pairs.first())
    } else {
        write_pair(pairs.first()) + seq![AMPERSAND] + write_pairs(pairs.drop_first())
    }
}

/// Whether `byte` does not occur in `bytes`.
pub open spec fn free_of(bytes: Seq<u8>, byte: u8) -> bool {
    forall|i: int| 0 <= i < bytes.len() ==> #[trigger] bytes[i] != byte
}

/// The index at which `byte` first occurs in `bytes`, or the length of
/// `bytes` where it does not occur.
pub open spec fn first_index(bytes: Seq<u8>, byte: u8) -> int
    decreases bytes.len(),
{
    if bytes.len() == 0 || bytes.first() == byte {
        0
    } else {
        1 + first_index(bytes.drop_first(), byte)
    }
}

/// What stands before the first `byte` in `bytes`.
pub open spec fn before_first(bytes: Seq<u8>, byte: u8) -> Seq<u8> {
    bytes.take(first_index(bytes, byte))
}

/// What stands after the first `byte` in `bytes`; nothing where it does not
/// occur.
pub open spec fn after_first(bytes: Seq<u8>, byte: u8) -> Seq<u8> {
    if first_index(bytes, byte) < bytes.len() {
        bytes.skip(first_index(bytes, byte) + 1)
    } else {
        Seq::empty()
    }
}

/// How a written pair is read: the name stands before the first `=`, the
/// value after it.
pub open spec fn read_pair(bytes: Seq<u8>) -> Pair {
    (decode(before_first(bytes, EQUALS)), decode(after_first(bytes, EQUALS)))
}

/// How a written sequence of pairs is read: the pairs stand between `&`,
/// and nothing between two `&` is no pair.
pub open spec fn read_pairs(bytes: Seq<u8>) -> Seq<Pair>
    decreases bytes.len(),
    via read_pairs_decreases
{
    if bytes.len() == 0 {
        Seq::empty()
    } else {
        let head = before_first(bytes, AMPERSAND);
        let tail = after_first(bytes, AMPERSAND);
        if head.len() == 0 {
            read_pairs(tail)
        } else {
            seq![read_pair(head)] + read_pairs(tail)
        }
    }
}

#[via_fn]
proof fn read_pairs_decreases(bytes: Seq<u8>) {
    if bytes.len() != 0 {
        lemma_first_index_bounds(bytes, AMPERSAND);
    }
}

pub proof fn lemma_first_index_bounds(bytes: Seq<u8>, byte: u8)
    ensures
        0 <= first_index(bytes, byte) <= bytes.len(),
        first_index(bytes, byte) < bytes.len() ==> bytes[first_index(bytes, byte)] == byte,
        free_of(before_first(bytes, byte), byte),
    decreases bytes.len(),
{
    if bytes.len() == 0 || bytes.first() == byte {
    } else {
        lemma_first_index_bounds(bytes.drop_first(), byte);
        let tail = bytes.drop_first();
        assert forall|i: int| 0 <= i < before_first(bytes, byte).len() implies #[trigger] before_first(
            bytes,
            byte,
        )[i] != byte by {
            if i > 0 {
                assert(before_first(bytes, byte)[i] == before_first(tail, byte)[i - 1]);
            }
        }
    }
}

/// Where `byte` does not occur in `head`, its first occurrence in `head`
/// followed by `byte` and `tail` is right after `head`.
pub proof fn lemma_first_index_found(head: Seq<u8>, byte: u8, tail: Seq<u8>)
    requires
        free_of(head, byte),
    ensures
        first_index(head + seq![byte] + tail, byte) == head.len(),
        before_first(head + seq![byte] + tail, byte) == head,
        after_first(head + seq![byte] + tail, byte) == tail,
    decreases head.len(),
{
    let whole = head + seq![byte] + tail;
    if head.len() == 0 {
        assert(whole.first() == byte);
    } else {
        assert(whole.first() == head[0]);
        assert(whole.drop_first() =~= head.drop_first() + seq![byte] + tail);
        assert forall|i: int| 0 <= i < head.drop_first().len() implies #[trigger] head.drop_first()[i]
            != byte by {
            assert(head.drop_first()[i] == head[i + 1]);
        }
        lemma_first_index_found(head.drop_first(), byte, tail);
    }
    assert(whole.take(head.len() as int) =~= head);
    assert(whole.skip(head.len() as int + 1) =~= tail);
}

/// Where `byte` does not occur in `bytes`, all of `bytes` stands before its
/// first occurrence.
pub proof fn lemma_first_index_missing(bytes: Seq<u8>, byte: u8)
    requires
        free_of(bytes, byte),
    ensures
        first_index(bytes, byte) == bytes.len(),
        before_first(bytes, byte) == bytes,
        after_first(bytes, byte) == Seq::<u8>::empty(),
    decreases bytes.len(),
{
    if bytes.len() > 0 {
        assert(bytes[0] != byte);
        assert forall|i: int| 0 <= i < bytes.drop_first().len() implies #[trigger] bytes.drop_first()[i]
            != byte by {
            assert(bytes.drop_first()[i] == bytes[i + 1]);
        }
        lemma_first_index_missing(bytes.drop_first(), byte);
    }
    assert(bytes.take(bytes.len() as int) =~= bytes);
}

/// A written byte holds neither `&` nor `=`.
pub proof fn lemma_encode_byte_plain(byte: u8)
    ensures
        free_of(encode_byte(byte), AMPERSAND),
        free_of(encode_byte(byte), EQUALS),
        1 <= encode_byte(byte).len() <= 3,
{
}

/// A written name or value holds neither `&` nor `=`.
pub proof fn lemma_encode_plain(bytes: Seq<u8>)
    ensures
        free_of(encode(bytes), AMPERSAND),
        free_of(encode(bytes), EQUALS),
    decreases bytes.len(),
{
    if bytes.len() > 0 {
        lemma_encode_byte_plain(bytes.first());
        lemma_encode_plain(bytes.drop_first());
    }
}

/// Writing one more byte appends what that byte is written as.
pub proof fn lemma_encode_push(bytes: Seq<u8>, byte: u8)
    ensures
        encode(bytes.push(byte)) == encode(bytes) + encode_byte(byte),
    decreases bytes.len(),
{
    let longer = bytes.push(byte);
    if bytes.len() == 0 {
        assert(longer.first() == byte);
        assert(longer.drop_first() =~= Seq::<u8>::empty());
        assert(encode(Seq::<u8>::empty()) =~= Seq::<u8>::empty());
        assert(encode(longer) =~= encode_byte(byte));
        assert(encode(bytes) + encode_byte(byte) =~= encode_byte(byte));
    } else {
        assert(longer.drop_first() =~= bytes.drop_first().push(byte));
        lemma_encode_push(bytes.drop_first(), byte);
        assert(encode(longer) =~= encode(bytes) + encode_byte(byte));
    }
}

/// Reading what a byte was written as gives the byte back, whatever
/// follows.
pub proof fn lemma_decode_encoded_byte(byte: u8, rest: Seq<u8>)
    ensures
        decode(encode_byte(byte) + rest) == seq![byte] + decode(rest),
{
    let written = encode_byte(byte) + rest;
    if is_unreserved(byte) {
        assert(written[0] == byte);
        assert(written.drop_first() =~= rest);
        assert(!starts_with_escape(written));
    } else if byte == SPACE {
        assert(written[0] == PLUS);
        assert(written.drop_first() =~= rest);
        assert(!starts_with_escape(written));
    } else {
        assert(written[0] == PERCENT);
        assert(written[1] == hex_digit(byte / 16));
        assert(written[2] == hex_digit(byte % 16));
        assert(hex_value(hex_digit(byte / 16)) == Some((byte / 16) as u8));
        assert(hex_value(hex_digit(byte % 16)) == Some((byte % 16) as u8));
        assert(written.skip(3) =~= rest);
        assert((byte / 16) * 16 + byte % 16 == byte);
    }
}

/// Reading what a name or a value was written as gives it back.
pub proof fn lemma_decode_encode(bytes: Seq<u8>)
    ensures
        decode(encode(bytes)) == bytes,
    decreases bytes.len(),
{
    if bytes.len() > 0 {
        lemma_decode_encoded_byte(bytes.first(), encode(bytes.drop_first()));
        lemma_decode_encode(bytes.drop_first());
        assert(seq![bytes.first()] + bytes.drop_first() =~= bytes);
    }
}

/// Reading what a pair was written as gives the pair back.
pub proof fn lemma_read_written_pair(pair: Pair)
    ensures
        read_pair(write_pair(pair)) == pair,
        write_pair(pair).len() > 0,
        free_of(write_pair(pair), AMPERSAND),
{
    lemma_encode_plain(pair.0);
    lemma_encode_plain(pair.1);
    lemma_first_index_found(encode(pair.0), EQUALS, encode(pair.1));
    lemma_decode_encode(pair.0);
    lemma_decode_encode(pair.1);
}

/// Reading what a sequence of pairs was written as gives the pairs back, in
/// their order.
pub proof fn lemma_read_written_pairs(pairs: Seq<Pair>)
    ensures
        read_pairs(write_pairs(pairs)) == pairs,
    decreases pairs.len(),
{
    if pairs.len() == 0 {
        assert(pairs =~= Seq::<Pair>::empty());
    } else {
        let head = write_pair(pairs.first());
        lemma_read_written_pair(pairs.first());
        if pairs.len() == 1 {
            lemma_first_index_missing(head, AMPERSAND);
            assert(read_pairs(Seq::<u8>::empty()) =~= Seq::<Pair>::empty());
            assert(seq![pairs.first()] + Seq::<Pair>::empty() =~= pairs);
        } else {
            let tail = write_pairs(pairs.drop_first());
            lemma_first_index_found(head, AMPERSAND, tail);
            lemma_read_written_pairs(pairs.drop_first());
            assert(seq![pairs.first()] + pairs.drop_first() =~= pairs);
        }
    }
}

/// Writing one more pair appends `&`, where pairs stand before it, and what
/// the pair is written as.
pub proof fn lemma_write_pairs_push(pairs: Seq<Pair>, pair: Pair)
    ensures
        write_pairs(pairs.push(pair)) == if pairs.len() == 0 {
            write_pair(pair)
        } else {
            write_pairs(pairs) + seq![AMPERSAND] + write_pair(pair)
        },
    decreases pairs.len(),
{
    let longer = pairs.push(pair);
    if pairs.len() == 0 {
        assert(longer.first() == pair);
    } else {
        assert(longer.first() == pairs.first());
        assert(longer.drop_first() =~= pairs.drop_first().push(pair));
        lemma_write_pairs_push(pairs.drop_first(), pair);
        if pairs.len() == 1 {
            assert(pairs.drop_first().len() == 0);
            assert(write_pairs(longer) =~= write_pairs(pairs) + seq![AMPERSAND] + write_pair(pair));
        } else {
            assert(write_pairs(longer) =~= write_pairs(pairs) + seq![AMPERSAND] + write_pair(pair));
        }
    }
}

/// Whether every byte of `bytes` is an ASCII character.
pub open spec fn all_ascii(bytes: Seq<u8>) -> bool {
    forall|i: int| 0 <= i < bytes.len() ==> #[trigger] bytes[i] < 128
}

/// A written name or value holds ASCII characters only.
pub proof fn lemma_encode_ascii(bytes: Seq<u8>)
    ensures
        all_ascii(encode(bytes)),
    decreases bytes.len(),
{
    if bytes.len() > 0 {
        lemma_encode_ascii(bytes.drop_first());
    }
}

/// Written pairs hold ASCII characters only.
pub proof fn lemma_write_pairs_ascii(pairs: Seq<Pair>)
    ensures
        all_ascii(write_pairs(pairs)),
    decreases pairs.len(),
{
    if pairs.len() > 0 {
        lemma_encode_ascii(pairs.first().0);
        lemma_encode_ascii(pairs.first().1);
        lemma_write_pairs_ascii(pairs.drop_first());
    }
}

/// The upper-case hexadecimal digit for `nibble`.
fn hex_digit_of(nibble: u8) -> (digit: u8)
    requires
        nibble < 16,
    ensures
        digit == hex_digit(nibble),
{
    if nibble < 10 {
        48 + nibble
    } else {
        55 + nibble
    }
}

/// Appends to `out` what `bytes` is written as.
pub fn append_encoded(out: &mut Vec<u8>, bytes: &[u8])
    ensures
        final(out)@ == old(out)@ + encode(bytes@),
{
    let mut i: usize = 0;
    assert(bytes@.take(0) =~= Seq::<u8>::empty());
    assert(out@ =~= old(out)@ + encode(bytes@.take(0)));
    while i < bytes.len()
        invariant
            i <= bytes.len(),
            out@ == old(out)@ + encode(bytes@.take(i as int)),
        decreases bytes.len() - i,
    {
        let byte = bytes[i];
        let ghost before = out@;
        proof {
            assert(bytes@.take(i + 1) =~= bytes@.take(i as int).push(byte));
            lemma_encode_push(bytes@.take(i as int), byte);
        }
        if byte == 42 || byte == 45 || byte == 46 || byte == 95 || (48 <= byte && byte <= 57) || (65
            <= byte && byte <= 90) || (97 <= byte && byte <= 122) {
            out.push(byte);
        } else if byte == SPACE {
            out.push(PLUS);
        } else {
            out.push(PERCENT);
            out.push(hex_digit_of(byte / 16));
            out.push(hex_digit_of(byte % 16));
        }
        assert(out@ =~= before + encode_byte(byte));
        assert(out@ =~= old(out)@ + encode(bytes@.take(i + 1)));
        i = i + 1;
    }
    assert(bytes@.take(i as int) =~= bytes@);
}

/// Appends to `out` one more pair, after `&` where `out` holds something
/// already.
pub fn append_pair(out: &mut Vec<u8>, name: &[u8], value: &[u8])
    ensures
        final(out)@ == if old(out)@.len() == 0 {
            write_pair((name@, value@))
        } else {
            old(out)@ + seq![AMPERSAND] + write_pair((name@, value@))
        },
{
    if out.len() > 0 {
        out.push(AMPERSAND);
    }
    append_encoded(out, name);
    out.push(EQUALS);
    append_encoded(out, value);
    assert(out@ =~= if old(out)@.len() == 0 {
        write_pair((name@, value@))
    } else {
        old(out)@ + seq![AMPERSAND] + write_pair((name@, value@))
    });
}

} // verus!
