//! The key box: a permutation of the bytes, scrambled by the master key, and
//! the keystream it yields for the audio payload.

use vstd::prelude::*;

verus! {

/// The table before any swap: every byte at its own index.
pub open spec fn identity_table() -> Seq<u8> {
    Seq::new(256, |i: int| i as u8)
}

/// The table and the last swap target after step `i` of the scramble.
pub open spec fn key_box_step(state: (Seq<u8>, u8), key: Seq<u8>, i: int) -> (Seq<u8>, u8) {
    let table = state.0;
    let c = (table[i] as int + state.1 as int + key[i % (key.len() as int)] as int) % 256;
    (table.update(i, table[c]).update(c, table[i]), c as u8)
}

/// The table and the last swap target after the first `n` steps.
pub open spec fn key_box_state(key: Seq<u8>, n: nat) -> (Seq<u8>, u8)
    decreases n,
{
    if n == 0 {
        (identity_table(), 0u8)
    } else {
        key_box_step(key_box_state(key, (n - 1) as nat), key, n - 1)
    }
}

/// The key box that a master key yields.
pub open spec fn key_box_of(key: Seq<u8>) -> Seq<u8> {
    key_box_state(key, 256).0
}

/// Whether the byte value `v` stands somewhere in `t`.
pub open spec fn occurs(t: Seq<u8>, v: u8) -> bool {
    exists|i: int| 0 <= i < t.len() && #[trigger] t[i] == v
}

/// Every byte value occurs in `t`, and none at two places.
pub open spec fn is_permutation(t: Seq<u8>) -> bool {
    &&& t.len() == 256
    &&& forall|i: int, j: int| 0 <= i < j < 256 ==> t[i] != t[j]
    &&& forall|v: u8| #[trigger] occurs(t, v)
}

/// `inv` tells for each byte value where it stands in `t`.
pub open spec fn is_inverse(t: Seq<u8>, inv: Seq<int>) -> bool {
    &&& t.len() == 256
    &&& inv.len() == 256
    &&& forall|v: int| 0 <= v < 256 ==> 0 <= #[trigger] inv[v] < 256 && t[inv[v]] == v
    &&& forall|i: int| 0 <= i < 256 ==> inv[#[trigger] t[i] as int] == i
}

/// A table with an inverse is a permutation.
pub proof fn lemma_inverse_gives_permutation(t: Seq<u8>, inv: Seq<int>)
    requires
        is_inverse(t, inv),
    ensures
        is_permutation(t),
{
    assert forall|v: u8| #[trigger] occurs(t, v) by {
        let i = inv[v as int];
        assert(0 <= i < 256 && t[i] == v);
    }
}

/// Where each byte value stands after the first `n` steps of the scramble.
pub open spec fn key_box_inverse(key: Seq<u8>, n: nat) -> Seq<int>
    decreases n,
{
    if n == 0 {
        Seq::new(256, |v: int| v)
    } else {
        let before = key_box_state(key, (n - 1) as nat);
        let after = key_box_step(before, key, n - 1);
        let inv = key_box_inverse(key, (n - 1) as nat);
        inv.update(before.0[n - 1] as int, after.1 as int).update(
            before.0[after.1 as int] as int,
            n - 1,
        )
    }
}

/// Each step of the scramble swaps two entries, so the table stays invertible.
pub proof fn lemma_key_box_state_invertible(key: Seq<u8>, n: nat)
    requires
        key.len() > 0,
        n <= 256,
    ensures
        is_inverse(key_box_state(key, n).0, key_box_inverse(key, n)),
    decreases n,
{
    if n > 0 {
        lemma_key_box_state_invertible(key, (n - 1) as nat);
        let before = key_box_state(key, (n - 1) as nat);
        let after = key_box_step(before, key, n - 1);
        let inv0 = key_box_inverse(key, (n - 1) as nat);
        let inv1 = key_box_inverse(key, n);
        let i = n - 1;
        let c = after.1 as int;
        let t0 = before.0;
        let t1 = after.0;
        assert(0 <= c < 256);
        assert(t1 == t0.update(i, t0[c]).update(c, t0[i]));
        assert(inv1 == inv0.update(t0[i] as int, c).update(t0[c] as int, i));
        assert forall|v: int| 0 <= v < 256 implies 0 <= #[trigger] inv1[v] < 256 && t1[inv1[v]]
            == v by {
            assert(0 <= inv0[v] < 256 && t0[inv0[v]] == v);
            assert(inv0[t0[i] as int] == i);
            assert(inv0[t0[c] as int] == c);
        }
        assert forall|k: int| 0 <= k < 256 implies inv1[#[trigger] t1[k] as int] == k by {
            assert(inv0[t0[k] as int] == k);
            assert(inv0[t0[i] as int] == i);
            assert(inv0[t0[c] as int] == c);
        }
    }
}

/// The key box of every non-empty master key is a permutation of the bytes.
pub proof fn lemma_key_box_is_permutation(key: Seq<u8>)
    requires
        key.len() > 0,
    ensures
        is_permutation(key_box_of(key)),
{
    lemma_key_box_state_invertible(key, 256);
    lemma_inverse_gives_permutation(key_box_of(key), key_box_inverse(key, 256));
}

/// Equal master keys yield equal key boxes: the box depends on nothing else.
pub proof fn lemma_key_box_deterministic(key1: Seq<u8>, key2: Seq<u8>)
    requires
        key1 =~= key2,
    ensures
        key_box_of(key1) == key_box_of(key2),
{
}

/// Stepping an offset that wraps at `len` keeps it equal to the step count
/// modulo `len`.
pub proof fn lemma_next_offset(i: int, len: int)
    requires
        i >= 0,
        len > 0,
    ensures
        (i + 1) % len == (if i % len + 1 >= len {
            0
        } else {
            i % len + 1
        }),
{
    vstd::arithmetic::div_mod::lemma_fundamental_div_mod(i, len);
    vstd::arithmetic::div_mod::lemma_mod_bound(i, len);
    let q = i / len;
    let r = i % len;
    assert((q + 1) * len == len * q + len && q * len == len * q) by (nonlinear_arith);
    if r + 1 >= len {
        vstd::arithmetic::div_mod::lemma_fundamental_div_mod_converse(i + 1, len, q + 1, 0);
    } else {
        vstd::arithmetic::div_mod::lemma_fundamental_div_mod_converse(i + 1, len, q, r + 1);
    }
}

/// A 256-entry permutation table derived from a master key.
pub struct KeyBox {
    pub table: Vec<u8>,
}

impl View for KeyBox {
    type V = Seq<u8>;

    open spec fn view(&self) -> Seq<u8> {
        self.table@
    }
}

impl KeyBox {
    /// The table holds every byte value exactly once.
    pub open spec fn wf(&self) -> bool {
        is_permutation(self.table@)
    }

    /// The table's entries, in order.
    pub fn as_slice(&self) -> (s: &[u8])
        ensures
            s@ == self@,
    {
        self.table.as_slice()
    }
}

/// Builds the key box of a non-empty master key.
pub fn generate_key_box(key_data: &[u8]) -> (key_box: KeyBox)
    requires
        key_data@.len() > 0,
    ensures
        key_box@ == key_box_of(key_data@),
        key_box.wf(),
{
    let key_length: usize = key_data.len();
    let mut table: Vec<u8> = Vec::with_capacity(256);
    let mut n: usize = 0;
    while n < 256
        invariant
            n <= 256,
            table@.len() == n,
            forall|j: int| 0 <= j < n ==> table@[j] == j as u8,
        decreases 256 - n,
    {
        table.push(n as u8);
        n = n + 1;
    }
    assert(table@ =~= identity_table());
    let mut last_byte: u8 = 0;
    let mut key_offset: usize = 0;
    let mut i: usize = 0;
    while i < 256
        invariant
            i <= 256,
            key_length == key_data@.len(),
            key_length > 0,
            key_offset == i % key_length,
            table@.len() == 256,
            (table@, last_byte) == key_box_state(key_data@, i as nat),
        decreases 256 - i,
    {
        let swap: u8 = table[i];
        let c: usize = (swap as usize + last_byte as usize + key_data[key_offset] as usize) % 256;
        key_offset = key_offset + 1;
        if key_offset >= key_length {
            key_offset = 0;
        }
        let other: u8 = table[c];
        table.set(i, other);
        table.set(c, swap);
        last_byte = c as u8;
        proof {
            lemma_next_offset(i as int, key_length as int);
            assert(key_box_state(key_data@, (i + 1) as nat) == key_box_step(
                key_box_state(key_data@, i as nat),
                key_data@,
                i as int,
            ));
        }
        i = i + 1;
    }
    proof {
        lemma_key_box_is_permutation(key_data@);
    }
    KeyBox { table }
}

/// The keystream byte for the audio byte at absolute position `offset`.
pub open spec fn keystream_byte(table: Seq<u8>, offset: int) -> u8 {
    let j = (offset + 1) % 256;
    table[(table[j] as int + table[(table[j] as int + j) % 256] as int) % 256]
}

/// The audio transform of `data`, whose first byte stands at absolute position
/// `offset` of the audio stream.
pub open spec fn audio_transform(table: Seq<u8>, offset: int, data: Seq<u8>) -> Seq<u8> {
    Seq::new(data.len(), |i: int| data[i] ^ keystream_byte(table, offset + i))
}

/// Transforms one chunk of the audio stream that starts at absolute position
/// `offset`. The same call decrypts and encrypts.
pub fn decrypt_chunk(key_box: &KeyBox, offset: u64, chunk: &[u8]) -> (out: Vec<u8>)
    requires
        key_box.wf(),
    ensures
        out@ == audio_transform(key_box@, offset as int, chunk@),
{
    let n: usize = chunk.len();
    let start: usize = (offset % 256) as usize;
    let mut out: Vec<u8> = Vec::with_capacity(n);
    let mut i: usize = 0;
    while i < n
        invariant
            i <= n,
            n == chunk@.len(),
            start == offset % 256,
            key_box@.len() == 256,
            out@.len() == i,
            forall|k: int| 0 <= k < i ==> out@[k] == chunk@[k] ^ keystream_byte(
                key_box@,
                offset as int + k,
            ),
        decreases n - i,
    {
        let j: usize = (start + i % 256 + 1) % 256;
        assert(j == (offset as int + i as int + 1) % 256);
        let a: usize = key_box.table[j] as usize;
        let b: usize = key_box.table[(a + j) % 256] as usize;
        let k: u8 = key_box.table[(a + b) % 256];
        out.push(chunk[i] ^ k);
        i = i + 1;
    }
    assert(out@ =~= audio_transform(key_box@, offset as int, chunk@));
    out
}

/// Decrypts a whole audio payload.
pub fn decrypt_file_data(key_box: &KeyBox, payload: &[u8]) -> (out: Vec<u8>)
    requires
        key_box.wf(),
    ensures
        out@ == audio_transform(key_box@, 0, payload@),
{
    decrypt_chunk(key_box, 0, payload)
}

/// Applying the transform twice at the same position gives the input back.
pub proof fn lemma_audio_transform_involution(table: Seq<u8>, offset: int, data: Seq<u8>)
    ensures
        audio_transform(table, offset, audio_transform(table, offset, data)) == data,
{
    let once = audio_transform(table, offset, data);
    let twice = audio_transform(table, offset, once);
    assert forall|i: int| 0 <= i < data.len() implies twice[i] == data[i] by {
        let x = data[i];
        let k = keystream_byte(table, offset + i);
        assert((x ^ k) ^ k == x) by (bit_vector);
    }
    assert(twice =~= data);
}

/// Transforming a payload in one pass equals transforming its two parts, each
/// at its own absolute position, and joining the results.
pub proof fn lemma_audio_transform_split(table: Seq<u8>, offset: int, a: Seq<u8>, b: Seq<u8>)
    ensures
        audio_transform(table, offset, a + b) == audio_transform(table, offset, a)
            + audio_transform(table, offset + a.len(), b),
{
    assert(audio_transform(table, offset, a + b) =~= audio_transform(table, offset, a)
        + audio_transform(table, offset + a.len(), b));
}

/// The pieces of `chunks` joined in order.
pub open spec fn concat(chunks: Seq<Seq<u8>>) -> Seq<u8>
    decreases chunks.len(),
{
    if chunks.len() == 0 {
        Seq::empty()
    } else {
        concat(chunks.drop_last()) + chunks.last()
    }
}

/// The pieces of `chunks` transformed one after another, each at the absolute
/// position where it starts, and joined.
pub open spec fn audio_transform_chunked(table: Seq<u8>, offset: int, chunks: Seq<Seq<u8>>) -> Seq<
    u8,
>
    decreases chunks.len(),
{
    if chunks.len() == 0 {
        Seq::empty()
    } else {
        audio_transform_chunked(table, offset, chunks.drop_last()) + audio_transform(
            table,
            offset + concat(chunks.drop_last()).len(),
            chunks.last(),
        )
    }
}

/// However a payload is cut into chunks, transforming chunk by chunk gives what
/// one pass over the whole payload gives.
pub proof fn lemma_chunk_boundary_independence(table: Seq<u8>, offset: int, chunks: Seq<Seq<u8>>)
    ensures
        audio_transform_chunked(table, offset, chunks) == audio_transform(
            table,
            offset,
            concat(chunks),
        ),
    decreases chunks.len(),
{
    if chunks.len() == 0 {
        assert(audio_transform(table, offset, concat(chunks)) =~= Seq::<u8>::empty());
    } else {
        lemma_chunk_boundary_independence(table, offset, chunks.drop_last());
        lemma_audio_transform_split(table, offset, concat(chunks.drop_last()), chunks.last());
    }
}

} // verus!
