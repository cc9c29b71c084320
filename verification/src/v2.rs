use rand::distributions::Distribution;
use vstd::prelude::*;

verus! {

#[verifier::external_type_specification]
#[verifier::external_body]
pub struct ExThreadRng(rand::rngs::ThreadRng);

/// Relies on rand::thread_rng: a handle to the thread-local generator.
#[verifier::external_body]
fn new_thread_rng() -> rand::rngs::ThreadRng {
    rand::thread_rng()
}

/// Relies on rand::distributions::Uniform::new_inclusive, which panics only
/// when low > high, and on Distribution::sample for Uniform<u8>: one
/// pseudo-random byte drawn uniformly from low..=high. Nothing is promised of
/// its value; callers must hold for every outcome.
#[verifier::external_body]
fn sample_uniform_byte(low: u8, high: u8, rng: &mut rand::rngs::ThreadRng) -> u8
    requires
        low <= high,
{
    rand::distributions::Uniform::new_inclusive(low, high).sample(rng)
}

/// Size of the scratch buffers: one chunk of source bytes, one chunk of key
/// bytes, reused across iterations.
pub const BUFFER_SIZE: usize = 16384;

/// Byte-wise exclusive-or of two equally long byte sequences.
pub open spec fn xor_bytes(a: Seq<u8>, k: Seq<u8>) -> Seq<u8>
    recommends
        a.len() == k.len(),
{
    Seq::new(a.len(), |i: int| a[i] ^ k[i])
}

/// XORs the first `amount_source_bytes` bytes of `source` in place with the
/// corresponding bytes of `key`; the rest of `source` is left alone.
pub fn xor_with_key(source: &mut Vec<u8>, key: &Vec<u8>, amount_source_bytes: usize)
    requires
        amount_source_bytes <= old(source)@.len(),
        amount_source_bytes <= key@.len(),
    ensures
        final(source)@.len() == old(source)@.len(),
        forall|i: int|
            0 <= i < amount_source_bytes ==> final(source)@[i] == (old(source)@[i] ^ key@[i]),
        forall|i: int|
            amount_source_bytes <= i < old(source)@.len() ==> final(source)@[i] == old(
                source,
            )@[i],
{
    for i in 0..amount_source_bytes
        invariant
            amount_source_bytes <= source@.len(),
            amount_source_bytes <= key@.len(),
            source@.len() == old(source)@.len(),
            forall|j: int| 0 <= j < i ==> source@[j] == (old(source)@[j] ^ key@[j]),
            forall|j: int| i <= j < source@.len() ==> source@[j] == old(source)@[j],
    {
        let b = source[i] ^ key[i];
        source.set(i, b);
    }
}

/// Generates (part of) the key used for encrypting the file: the first
/// `amount` bytes of `key` are replaced by fresh pseudo-random bytes drawn
/// uniformly from the full byte range; the rest of `key` is left alone.
pub fn generate_key(key: &mut Vec<u8>, amount: usize)
    requires
        amount <= old(key)@.len(),
    ensures
        final(key)@.len() == old(key)@.len(),
        forall|i: int| amount <= i < old(key)@.len() ==> final(key)@[i] == old(key)@[i],
{
    let mut rng = new_thread_rng();
    for i in 0..amount
        invariant
            amount <= key@.len(),
            key@.len() == old(key)@.len(),
            forall|j: int| amount <= j < key@.len() ==> key@[j] == old(key)@[j],
    {
        let b = sample_uniform_byte(0, 255, &mut rng);
        key.set(i, b);
    }
}

proof fn lemma_xor_cancel_u8(x: u8, y: u8)
    ensures
        ((x ^ y) ^ y) == x,
{
    assert(((x ^ y) ^ y) == x) by (bit_vector);
}

/// XOR involution: for byte chunks `a` and `k` of equal length, XORing with
/// `k` twice gives back `a`, so the one XOR routine both encrypts and
/// decrypts.
pub proof fn lemma_xor_involution(a: Seq<u8>, k: Seq<u8>)
    requires
        a.len() == k.len(),
    ensures
        xor_bytes(xor_bytes(a, k), k) == a,
{
    assert forall|i: int| 0 <= i < a.len() implies xor_bytes(xor_bytes(a, k), k)[i] == a[i] by {
        lemma_xor_cancel_u8(a[i], k[i]);
    }
    assert(xor_bytes(xor_bytes(a, k), k) =~= a);
}

/// Round-trip: the ciphertext that encryption produces, together with the key
/// stream generated for it, forms a pair of equal lengths that decryption
/// accepts, and XORing the ciphertext with that key stream restores the
/// source exactly.
pub proof fn lemma_round_trip(source: Seq<u8>, key_stream: Seq<u8>)
    requires
        key_stream.len() == source.len(),
    ensures
        xor_bytes(source, key_stream).len() == key_stream.len(),
        xor_bytes(xor_bytes(source, key_stream), key_stream) == source,
{
    lemma_xor_involution(source, key_stream);
}

/// The one non-I/O failure of the cipher loop: during decryption the key
/// stream and the source stream diverged in length, so continuing would
/// silently desynchronize every later chunk.
#[derive(Debug, Clone, Copy, PartialEq, Eq, Structural)]
pub enum CipherError {
    LengthMismatch,
}

/// A fresh all-zero scratch buffer of the given length.
fn zeroed_buffer(len: usize) -> (r: Vec<u8>)
    ensures
        r@.len() == len,
{
    let mut r: Vec<u8> = Vec::new();
    while r.len() < len
        invariant
            r@.len() <= len,
        decreases len - r@.len(),
    {
        r.push(0);
    }
    r
}

/// Encrypts `source` with a freshly generated one-time pad: returns the
/// ciphertext and the generated key stream, both exactly as long as the
/// source, with the ciphertext the byte-wise XOR of source and key stream.
/// Works chunk by chunk through two fixed-size scratch buffers.
pub fn encrypt(source: &Vec<u8>) -> (r: (Vec<u8>, Vec<u8>))
    ensures
        r.0@.len() == source@.len(),
        r.1@.len() == source@.len(),
        r.0@ == xor_bytes(source@, r.1@),
{
    let mut out: Vec<u8> = Vec::new();
    let mut key_stream: Vec<u8> = Vec::new();
    let mut source_buffer = zeroed_buffer(BUFFER_SIZE);
    let mut key_buffer = zeroed_buffer(BUFFER_SIZE);
    let mut pos: usize = 0;

    while pos < source.len()
        invariant
            pos <= source@.len(),
            out@.len() == pos,
            key_stream@.len() == pos,
            source_buffer@.len() == BUFFER_SIZE,
            key_buffer@.len() == BUFFER_SIZE,
            forall|j: int| 0 <= j < pos ==> out@[j] == (source@[j] ^ key_stream@[j]),
        decreases source@.len() - pos,
    {
        let remaining = source.len() - pos;
        let amount = if remaining < BUFFER_SIZE {
            remaining
        } else {
            BUFFER_SIZE
        };

        for i in 0..amount
            invariant
                pos + amount <= source@.len(),
                source@.len() <= usize::MAX,
                source_buffer@.len() == BUFFER_SIZE,
                amount <= BUFFER_SIZE,
                forall|j: int| 0 <= j < i ==> source_buffer@[j] == source@[pos + j],
        {
            let b = source[pos + i];
            source_buffer.set(i, b);
        }

        generate_key(&mut key_buffer, amount);
        xor_with_key(&mut source_buffer, &key_buffer, amount);

        for i in 0..amount
            invariant
                pos + amount <= source@.len(),
                amount <= BUFFER_SIZE,
                source_buffer@.len() == BUFFER_SIZE,
                key_buffer@.len() == BUFFER_SIZE,
                out@.len() == pos + i,
                key_stream@.len() == pos + i,
                forall|j: int| 0 <= j < amount ==> source_buffer@[j] == (source@[pos + j]
                    ^ key_buffer@[j]),
                forall|j: int| 0 <= j < pos + i ==> out@[j] == (source@[j] ^ key_stream@[j]),
                forall|j: int| pos <= j < pos + i ==> key_stream@[j] == key_buffer@[j - pos],
        {
            out.push(source_buffer[i]);
            key_stream.push(key_buffer[i]);
        }

        pos = pos + amount;
    }

    assert(out@ =~= xor_bytes(source@, key_stream@));
    (out, key_stream)
}

/// Decrypts `source` with the key stream it was encrypted with: succeeds
/// exactly when the two streams have the same length, and then returns their
/// byte-wise XOR. A length divergence is detected at the first chunk whose
/// read sizes differ, before any output byte is produced from it. Works chunk
/// by chunk through two fixed-size scratch buffers.
pub fn decrypt(source: &Vec<u8>, key: &Vec<u8>) -> (r: Result<Vec<u8>, CipherError>)
    ensures
        r is Ok <==> source@.len() == key@.len(),
        r is Ok ==> r->Ok_0@ == xor_bytes(source@, key@),
        r is Err ==> r->Err_0 == CipherError::LengthMismatch,
{
    let mut out: Vec<u8> = Vec::new();
    let mut source_buffer = zeroed_buffer(BUFFER_SIZE);
    let mut key_buffer = zeroed_buffer(BUFFER_SIZE);
    let mut pos: usize = 0;

    loop
        invariant_except_break
            pos <= source@.len(),
            pos <= key@.len(),
            out@.len() == pos,
            source_buffer@.len() == BUFFER_SIZE,
            key_buffer@.len() == BUFFER_SIZE,
            forall|j: int| 0 <= j < pos ==> out@[j] == (source@[j] ^ key@[j]),
        ensures
            pos == source@.len(),
            pos == key@.len(),
            out@.len() == pos,
            forall|j: int| 0 <= j < pos ==> out@[j] == (source@[j] ^ key@[j]),
        decreases source@.len() - pos,
    {
        let source_remaining = source.len() - pos;
        let key_remaining = key.len() - pos;
        let source_bytes_read = if source_remaining < BUFFER_SIZE {
            source_remaining
        } else {
            BUFFER_SIZE
        };
        let key_bytes_read = if key_remaining < BUFFER_SIZE {
            key_remaining
        } else {
            BUFFER_SIZE
        };

        if source_bytes_read != key_bytes_read {
            return Err(CipherError::LengthMismatch);
        }
        if source_bytes_read == 0 {
            break;
        }

        for i in 0..source_bytes_read
            invariant
                pos + source_bytes_read <= source@.len(),
                pos + source_bytes_read <= key@.len(),
                source@.len() <= usize::MAX,
                key@.len() <= usize::MAX,
                source_bytes_read <= BUFFER_SIZE,
                source_buffer@.len() == BUFFER_SIZE,
                key_buffer@.len() == BUFFER_SIZE,
                forall|j: int| 0 <= j < i ==> source_buffer@[j] == source@[pos + j],
                forall|j: int| 0 <= j < i ==> key_buffer@[j] == key@[pos + j],
        {
            let b = source[pos + i];
            source_buffer.set(i, b);
            let b = key[pos + i];
            key_buffer.set(i, b);
        }

        xor_with_key(&mut source_buffer, &key_buffer, source_bytes_read);

        for i in 0..source_bytes_read
            invariant
                pos + source_bytes_read <= source@.len(),
                pos + source_bytes_read <= key@.len(),
                source_bytes_read <= BUFFER_SIZE,
                source_buffer@.len() == BUFFER_SIZE,
                out@.len() == pos + i,
                forall|j: int| 0 <= j < source_bytes_read ==> source_buffer@[j] == (source@[pos + j]
                    ^ key@[pos + j]),
                forall|j: int| 0 <= j < pos + i ==> out@[j] == (source@[j] ^ key@[j]),
        {
            out.push(source_buffer[i]);
        }

        pos = pos + source_bytes_read;
    }

    assert(out@ =~= xor_bytes(source@, key@));
    Ok(out)
}

} // verus!
