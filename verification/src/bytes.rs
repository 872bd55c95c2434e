//! Byte sequences: appending, big-endian numbers, masking and UTF-8 text.
use vstd::prelude::*;
use vstd::utf8::encode_utf8;

verus! {

/// The number that `count` bytes of `bytes`, from `at` on, spell with the highest byte first.
pub open spec fn be_value(bytes: Seq<u8>, at: int, count: nat) -> nat
    decreases count,
{
    if count == 0 {
        0
    } else {
        be_value(bytes, at, (count - 1) as nat) * 256 + bytes[at + count - 1] as nat
    }
}

/// The lowest `count` bytes of `n`, the highest of them first.
pub open spec fn be_bytes(n: nat, count: nat) -> Seq<u8>
    decreases count,
{
    if count == 0 {
        Seq::empty()
    } else {
        be_bytes(n / 256, (count - 1) as nat).push((n % 256) as u8)
    }
}

/// Whether `n` can be spelled with `count` bytes.
pub open spec fn fits_bytes(n: nat, count: nat) -> bool
    decreases count,
{
    if count == 0 {
        n == 0
    } else {
        fits_bytes(n / 256, (count - 1) as nat)
    }
}

/// `data` with each byte combined with the byte of the four-byte `key` that falls on it.
pub open spec fn masked_with(data: Seq<u8>, key: Seq<u8>) -> Seq<u8> {
    Seq::new(data.len(), |i: int| data[i] ^ key[i % 4])
}

pub proof fn lemma_be_bytes_len(n: nat, count: nat)
    ensures
        be_bytes(n, count).len() == count,
    decreases count,
{
    if count > 0 {
        lemma_be_bytes_len(n / 256, (count - 1) as nat);
    }
}

pub proof fn lemma_be_value_local(a: Seq<u8>, i: int, b: Seq<u8>, j: int, count: nat)
    requires
        forall|k: int| 0 <= k < count ==> #[trigger] a[i + k] == b[j + k],
    ensures
        be_value(a, i, count) == be_value(b, j, count),
    decreases count,
{
    if count > 0 {
        assert(a[i + (count - 1)] == b[j + (count - 1)]);
        lemma_be_value_local(a, i, b, j, (count - 1) as nat);
    }
}

/// Reading a number back from the bytes that spell it gives the number.
pub proof fn lemma_be_round_trip(n: nat, count: nat)
    requires
        fits_bytes(n, count),
    ensures
        be_value(be_bytes(n, count), 0, count) == n,
    decreases count,
{
    if count > 0 {
        let rest = be_bytes(n / 256, (count - 1) as nat);
        lemma_be_bytes_len(n / 256, (count - 1) as nat);
        lemma_be_round_trip(n / 256, (count - 1) as nat);
        lemma_be_value_local(be_bytes(n, count), 0, rest, 0, (count - 1) as nat);
    }
}

/// Masking with the same key a second time takes the mask off.
pub proof fn lemma_mask_twice(data: Seq<u8>, key: Seq<u8>)
    ensures
        masked_with(masked_with(data, key), key) == data,
{
    assert forall|i: int| 0 <= i < data.len() implies masked_with(masked_with(data, key), key)[i]
        == data[i] by {
        let b = data[i];
        let k = key[i % 4];
        assert((b ^ k) ^ k == b) by (bit_vector);
    }
    assert(masked_with(masked_with(data, key), key) =~= data);
}

/// The UTF-8 bytes of two texts in a row are the bytes of the one, then of the other.
pub proof fn lemma_encode_concat(a: Seq<char>, b: Seq<char>)
    ensures
        encode_utf8(a + b) == encode_utf8(a) + encode_utf8(b),
    decreases a.len(),
{
    if a.len() == 0 {
        assert(a + b =~= b);
        assert(encode_utf8(a) + encode_utf8(b) =~= encode_utf8(b));
    } else {
        assert((a + b).drop_first() =~= a.drop_first() + b);
        lemma_encode_concat(a.drop_first(), b);
        assert(encode_utf8(a + b) =~= encode_utf8(a) + encode_utf8(b));
    }
}

/// Appends `more` to `buf`.
pub fn append_bytes(buf: &mut Vec<u8>, more: &[u8])
    ensures
        final(buf)@ == old(buf)@ + more@,
{
    buf.extend_from_slice(more);
    assert(buf@ =~= old(buf)@ + more@);
}

/// Appends the UTF-8 bytes of `text` to `buf`.
pub fn append_text(buf: &mut Vec<u8>, text: &str)
    ensures
        final(buf)@ == old(buf)@ + encode_utf8(text@),
{
    append_bytes(buf, text.as_bytes());
}

/// Each byte is masked with the key byte whose place is its own place modulo four, and none is
/// added or left out.
pub proof fn law_masked_byte(data: Seq<u8>, key: Seq<u8>, i: int)
    requires
        0 <= i < data.len(),
        key.len() == 4,
    ensures
        masked_with(data, key).len() == data.len(),
        i % 4 == 0 ==> masked_with(data, key)[i] == data[i] ^ key[0],
        i % 4 == 1 ==> masked_with(data, key)[i] == data[i] ^ key[1],
        i % 4 == 2 ==> masked_with(data, key)[i] == data[i] ^ key[2],
        i % 4 == 3 ==> masked_with(data, key)[i] == data[i] ^ key[3],
{
}

/// Two bytes, and eight bytes, spell a number with the highest byte first.
pub proof fn law_number_read(bytes: Seq<u8>, at: int)
    ensures
        be_value(bytes, at, 2) == bytes[at] * 0x100 + bytes[at + 1],
        be_value(bytes, at, 8) == bytes[at] * 0x1_00_0000_0000_0000 + bytes[at + 1]
            * 0x1_0000_0000_0000 + bytes[at + 2] * 0x100_0000_0000 + bytes[at + 3] * 0x1_0000_0000
            + bytes[at + 4] * 0x100_0000 + bytes[at + 5] * 0x1_0000 + bytes[at + 6] * 0x100
            + bytes[at + 7],
{
    reveal_with_fuel(be_value, 9);
}

} // verus!
