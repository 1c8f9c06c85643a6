//! One-way compression functions over AES, composed into multi-key PRGs.
//!
//! Two constructions wrap a keyed block cipher behind a compression contract:
//! Matyas-Meyer-Oseas yields one 16-byte block per input block, Hirose yields
//! two decorrelated 16-byte blocks per input block. A multi-key PRG holds one
//! independently keyed adapter per seed chunk and expands the seed chunkwise;
//! chunk `i` of the output depends only on key `i` and seed chunk `i`.

use vstd::prelude::*;

use aes::cipher::generic_array::GenericArray;
use aes::cipher::BlockEncrypt;
use aes::cipher::KeyInit;

use crate::utils::xor_bytes;
use crate::Error;

verus! {

#[verifier::external_type_specification]
#[verifier::external_body]
pub struct ExAes128(aes::Aes128);

#[verifier::external_type_specification]
#[verifier::external_body]
pub struct ExAes256(aes::Aes256);

/// The block AES-128 returns for a 16-byte key and a 16-byte plaintext block:
/// a function of the key and the block alone.
pub uninterp spec fn aes128_enc(key: Seq<u8>, block: Seq<u8>) -> Seq<u8>;

/// The block AES-256 returns for a 32-byte key and a 16-byte plaintext block:
/// a function of the key and the block alone.
pub uninterp spec fn aes256_enc(key: Seq<u8>, block: Seq<u8>) -> Seq<u8>;

/// One Matyas-Meyer-Oseas compression: encrypt the block, then feed the block
/// forward by XOR.
pub open spec fn mmo_block(key: Seq<u8>, x: Seq<u8>) -> Seq<u8> {
    xor_bytes(aes128_enc(key, x), x)
}

/// The `i`-th 16-byte chunk of `s`.
pub open spec fn chunk16(s: Seq<u8>, i: int) -> Seq<u8> {
    s.subrange(16 * i, 16 * i + 16)
}

/// The public constant the Hirose construction XORs into its second branch to
/// keep the two cipher calls on distinguishable inputs.
pub open spec fn hirose_const() -> Seq<u8> {
    Seq::new(16, |i: int| 0xffu8)
}

/// First Hirose output block: encrypt the block, feed the block forward.
pub open spec fn hirose_block1(key: Seq<u8>, x: Seq<u8>) -> Seq<u8> {
    xor_bytes(aes256_enc(key, x), x)
}

/// Second Hirose output block: encrypt the block with the domain-separation
/// constant XORed in, feed that pre-image forward.
pub open spec fn hirose_block2(key: Seq<u8>, x: Seq<u8>) -> Seq<u8> {
    xor_bytes(aes256_enc(key, xor_bytes(x, hirose_const())), xor_bytes(x, hirose_const()))
}

/// An ordered key sequence a PRG can be built from: at least one key, each of
/// `key_len` bytes.
pub open spec fn valid_keys(keys: Seq<Seq<u8>>, key_len: int) -> bool {
    keys.len() >= 1 && forall|i: int| 0 <= i < keys.len() ==> (#[trigger] keys[i]).len()
        == key_len
}

/// What a multi-key MMO PRG writes for the given keys and seed: output chunk
/// `i` (16 bytes) is the MMO compression of seed chunk `i` under key `i`.
pub open spec fn mmo_output(keys: Seq<Seq<u8>>, src: Seq<u8>) -> Seq<u8> {
    Seq::new(16 * keys.len(), |j: int| mmo_block(keys[j / 16], chunk16(src, j / 16))[j % 16])
}

/// What a multi-key Hirose PRG writes for the given keys and seed: output
/// chunk `i` (32 bytes) is the Hirose block pair of seed chunk `i` under key
/// `i`, first block then second.
pub open spec fn hirose_output(keys: Seq<Seq<u8>>, src: Seq<u8>) -> Seq<u8> {
    Seq::new(
        32 * keys.len(),
        |j: int|
            if j % 32 < 16 {
                hirose_block1(keys[j / 32], chunk16(src, j / 32))[j % 32]
            } else {
                hirose_block2(keys[j / 32], chunk16(src, j / 32))[j % 32 - 16]
            },
    )
}

/// Pointwise XOR of two equal-length byte buffers, the feed-forward step of
/// both compression functions.
fn xor_block(a: &Vec<u8>, b: &Vec<u8>) -> (r: Vec<u8>)
    requires
        a@.len() == b@.len(),
    ensures
        r@ == xor_bytes(a@, b@),
{
    let mut out: Vec<u8> = Vec::new();
    let mut t: usize = 0;
    while t < a.len()
        invariant
            t <= a@.len(),
            a@.len() == b@.len(),
            out@.len() == t,
            forall|j: int| 0 <= j < t ==> out@[j] == (#[trigger] a@[j]) ^ b@[j],
        decreases a@.len() - t,
    {
        out.push(a[t] ^ b[t]);
        t += 1;
    }
    proof {
        assert(out@ =~= xor_bytes(a@, b@));
    }
    out
}

/// One AES-128 cipher keyed for its lifetime, with the key bytes it was built
/// from kept beside it so that contracts can speak of them.
struct Aes128MatyasMeyerOseasCipher {
    cipher: aes::Aes128,
    key: Vec<u8>,
}

impl Aes128MatyasMeyerOseasCipher {
    /// Relies on `aes::Aes128::new` (its `KeyInit` impl): returns the AES-128
    /// cipher keyed with `key`. The adapter records the key bytes beside the
    /// cipher; the two fields are set together only here.
    #[verifier::external_body]
    fn new(key: &Vec<u8>) -> (r: Self)
        requires
            key@.len() == 16,
        ensures
            r.key@ == key@,
    {
        Aes128MatyasMeyerOseasCipher {
            cipher: aes::Aes128::new(GenericArray::from_slice(key.as_slice())),
            key: key.clone(),
        }
    }

    /// Relies on `cipher::BlockEncrypt::encrypt_block_b2b` for `aes::Aes128`:
    /// AES-128 encryption writes one 16-byte block that is a deterministic
    /// function of the key and the input block alone. `self.cipher` is always
    /// the cipher keyed with `self.key` (see `new`).
    #[verifier::external_body]
    fn enc_blk(&self, input: &Vec<u8>) -> (r: Vec<u8>)
        requires
            input@.len() == 16,
        ensures
            r@ == aes128_enc(self.key@, input@),
            r@.len() == 16,
    {
        let mut out = vec![0u8; 16];
        self.cipher.encrypt_block_b2b(
            GenericArray::from_slice(input.as_slice()),
            GenericArray::from_mut_slice(out.as_mut_slice()),
        );
        out
    }

    /// One MMO compression of one block: the cipher output XORed with its
    /// pre-image (the feed-forward that makes the construction one-way).
    fn gen_blk(&self, input: &Vec<u8>) -> (r: Vec<u8>)
        requires
            input@.len() == 16,
        ensures
            r@ == mmo_block(self.key@, input@),
            r@.len() == 16,
    {
        let e = self.enc_blk(input);
        xor_block(&e, input)
    }
}

/// A multi-key PRG built from AES-128 Matyas-Meyer-Oseas adapters: 16 output
/// bytes per 16-byte seed chunk.
pub struct Aes128MatyasMeyerOseas {
    ciphers: Vec<Aes128MatyasMeyerOseasCipher>,
}

impl Aes128MatyasMeyerOseas {
    /// The AES-128 keys of the adapters, in construction order.
    pub closed spec fn keys(&self) -> Seq<Seq<u8>> {
        self.ciphers@.map_values(|c: Aes128MatyasMeyerOseasCipher| c.key@)
    }

    /// Well-formed: at least one adapter, each keyed with 16 bytes.
    pub open spec fn wf(&self) -> bool {
        valid_keys(self.keys(), 16)
    }

    /// Builds one adapter per key, in order. Succeeds exactly when at least
    /// one key is given and every key is 16 bytes.
    pub fn new(keys: &Vec<Vec<u8>>) -> (r: Result<Self, Error>)
        ensures
            r is Ok <==> valid_keys(keys@.map_values(|v: Vec<u8>| v@), 16),
            r matches Ok(p) ==> p.wf() && p.keys() == keys@.map_values(|v: Vec<u8>| v@),
            r matches Err(e) ==> e == Error::LengthMismatch,
    {
        if keys.len() == 0 {
            return Err(Error::LengthMismatch);
        }
        let mut ciphers: Vec<Aes128MatyasMeyerOseasCipher> = Vec::new();
        let mut i: usize = 0;
        while i < keys.len()
            invariant
                i <= keys@.len(),
                ciphers@.len() == i,
                forall|j: int| 0 <= j < i ==> (#[trigger] ciphers@[j]).key@ == keys@[j]@,
                forall|j: int| 0 <= j < i ==> (#[trigger] keys@[j]@).len() == 16,
            decreases keys@.len() - i,
        {
            if keys[i].len() != 16 {
                proof {
                    assert(keys@.map_values(|v: Vec<u8>| v@)[i as int].len() != 16);
                }
                return Err(Error::LengthMismatch);
            }
            let c = Aes128MatyasMeyerOseasCipher::new(&keys[i]);
            ciphers.push(c);
            i += 1;
        }
        let p = Aes128MatyasMeyerOseas { ciphers };
        proof {
            assert(p.keys() =~= keys@.map_values(|v: Vec<u8>| v@));
        }
        Ok(p)
    }

    /// Expands `src` into `buf`: seed chunk `i` goes through adapter `i`, and
    /// its 16-byte output lands in output chunk `i`, in order.
    ///
    /// Succeeds exactly when both buffers are 16 bytes per adapter; on a
    /// length mismatch `buf` is left unchanged.
    pub fn gen(&self, buf: &mut Vec<u8>, src: &Vec<u8>) -> (r: Result<(), Error>)
        ensures
            r is Ok <==> (src@.len() == 16 * self.keys().len() && old(buf)@.len() == 16
                * self.keys().len()),
            r is Ok ==> final(buf)@ == mmo_output(self.keys(), src@),
            r is Err ==> final(buf)@ == old(buf)@,
            r matches Err(e) ==> e == Error::LengthMismatch,
    {
        let n = self.ciphers.len();
        let srclen = src.len();
        if srclen != buf.len() || srclen % 16 != 0 || srclen / 16 != n {
            proof {
                lemma_len_chunks(srclen as int, n as int, 16);
            }
            return Err(Error::LengthMismatch);
        }
        proof {
            lemma_len_chunks(srclen as int, n as int, 16);
        }
        let ghost kseq = self.keys();
        let ghost out_spec = mmo_output(kseq, src@);
        let mut i: usize = 0;
        while i < n
            invariant
                i <= n,
                n == self.ciphers@.len(),
                kseq == self.keys(),
                out_spec == mmo_output(kseq, src@),
                src@.len() == 16 * n,
                src@.len() <= usize::MAX,
                buf@.len() == 16 * n,
                buf@.len() <= usize::MAX,
                forall|j: int| 0 <= j < 16 * i ==> buf@[j] == (#[trigger] out_spec[j]),
            decreases n - i,
        {
            let mut chunk: Vec<u8> = Vec::new();
            let mut t: usize = 0;
            while t < 16
                invariant
                    t <= 16,
                    i < n,
                    src@.len() == 16 * n,
                    src@.len() <= usize::MAX,
                    chunk@.len() == t,
                    forall|j: int| 0 <= j < t ==> (#[trigger] chunk@[j]) == src@[16 * i + j],
                decreases 16 - t,
            {
                chunk.push(src[16 * i + t]);
                t += 1;
            }
            proof {
                assert forall|j: int| 0 <= j < 16 implies chunk@[j] == chunk16(
                    src@,
                    i as int,
                )[j] by {
                    assert(chunk@[j] == src@[16 * (i as int) + j]);
                    assert(chunk16(src@, i as int)[j] == src@[j + 16 * (i as int)]);
                }
                assert(chunk@ =~= chunk16(src@, i as int));
            }
            let blk = self.ciphers[i].gen_blk(&chunk);
            let mut t: usize = 0;
            while t < 16
                invariant
                    t <= 16,
                    i < n,
                    n == kseq.len(),
                    blk@ == mmo_block(kseq[i as int], chunk16(src@, i as int)),
                    blk@.len() == 16,
                    out_spec == mmo_output(kseq, src@),
                    buf@.len() == 16 * n,
                    buf@.len() <= usize::MAX,
                    forall|j: int| 0 <= j < 16 * i + t ==> buf@[j] == (#[trigger] out_spec[j]),
                decreases 16 - t,
            {
                buf.set(16 * i + t, blk[t]);
                proof {
                    let j = 16 * (i as int) + t;
                    assert(j / 16 == i as int && j % 16 == t as int) by (nonlinear_arith)
                        requires
                            j == 16 * (i as int) + t,
                            0 <= t < 16,
                            0 <= i,
                    ;
                    assert(out_spec[j] == blk@[t as int]);
                }
                t += 1;
            }
            i += 1;
        }
        proof {
            assert(buf@ =~= out_spec);
        }
        Ok(())
    }
}

/// One AES-256 cipher keyed for its lifetime, with the key bytes it was built
/// from kept beside it so that contracts can speak of them.
struct Aes256HiroseCipher {
    cipher: aes::Aes256,
    key: Vec<u8>,
}

impl Aes256HiroseCipher {
    /// Relies on `aes::Aes256::new` (its `KeyInit` impl): returns the AES-256
    /// cipher keyed with `key`. The adapter records the key bytes beside the
    /// cipher; the two fields are set together only here.
    #[verifier::external_body]
    fn new(key: &Vec<u8>) -> (r: Self)
        requires
            key@.len() == 32,
        ensures
            r.key@ == key@,
    {
        Aes256HiroseCipher {
            cipher: aes::Aes256::new(GenericArray::from_slice(key.as_slice())),
            key: key.clone(),
        }
    }

    /// Relies on `cipher::BlockEncrypt::encrypt_block_b2b` for `aes::Aes256`:
    /// AES-256 encryption writes one 16-byte block that is a deterministic
    /// function of the key and the input block alone. `self.cipher` is always
    /// the cipher keyed with `self.key` (see `new`).
    #[verifier::external_body]
    fn enc_blk(&self, input: &Vec<u8>) -> (r: Vec<u8>)
        requires
            input@.len() == 16,
        ensures
            r@ == aes256_enc(self.key@, input@),
            r@.len() == 16,
    {
        let mut out = vec![0u8; 16];
        self.cipher.encrypt_block_b2b(
            GenericArray::from_slice(input.as_slice()),
            GenericArray::from_mut_slice(out.as_mut_slice()),
        );
        out
    }

    /// One Hirose compression of one block: two cipher calls on distinguishable
    /// inputs — the block itself and the block XORed with the public constant —
    /// each fed forward by XOR with its own pre-image.
    fn gen_blk(&self, input: &Vec<u8>) -> (r: (Vec<u8>, Vec<u8>))
        requires
            input@.len() == 16,
        ensures
            r.0@ == hirose_block1(self.key@, input@),
            r.0@.len() == 16,
            r.1@ == hirose_block2(self.key@, input@),
            r.1@.len() == 16,
    {
        let e1 = self.enc_blk(input);
        let out1 = xor_block(&e1, input);
        let mut input2: Vec<u8> = Vec::new();
        let mut t: usize = 0;
        while t < 16
            invariant
                t <= 16,
                input@.len() == 16,
                input2@.len() == t,
                forall|j: int| 0 <= j < t ==> input2@[j] == (#[trigger] input@[j]) ^ 0xffu8,
            decreases 16 - t,
        {
            input2.push(input[t] ^ 0xffu8);
            t += 1;
        }
        proof {
            assert(input2@ =~= xor_bytes(input@, hirose_const()));
        }
        let e2 = self.enc_blk(&input2);
        let out2 = xor_block(&e2, &input2);
        (out1, out2)
    }
}

/// A multi-key PRG built from AES-256 Hirose adapters: 32 output bytes per
/// 16-byte seed chunk.
pub struct Aes256Hirose {
    ciphers: Vec<Aes256HiroseCipher>,
}

impl Aes256Hirose {
    /// The AES-256 keys of the adapters, in construction order.
    pub closed spec fn keys(&self) -> Seq<Seq<u8>> {
        self.ciphers@.map_values(|c: Aes256HiroseCipher| c.key@)
    }

    /// Well-formed: at least one adapter, each keyed with 32 bytes.
    pub open spec fn wf(&self) -> bool {
        valid_keys(self.keys(), 32)
    }

    /// Builds one adapter per key, in order. Succeeds exactly when at least
    /// one key is given and every key is 32 bytes.
    pub fn new(keys: &Vec<Vec<u8>>) -> (r: Result<Self, Error>)
        ensures
            r is Ok <==> valid_keys(keys@.map_values(|v: Vec<u8>| v@), 32),
            r matches Ok(p) ==> p.wf() && p.keys() == keys@.map_values(|v: Vec<u8>| v@),
            r matches Err(e) ==> e == Error::LengthMismatch,
    {
        if keys.len() == 0 {
            return Err(Error::LengthMismatch);
        }
        let mut ciphers: Vec<Aes256HiroseCipher> = Vec::new();
        let mut i: usize = 0;
        while i < keys.len()
            invariant
                i <= keys@.len(),
                ciphers@.len() == i,
                forall|j: int| 0 <= j < i ==> (#[trigger] ciphers@[j]).key@ == keys@[j]@,
                forall|j: int| 0 <= j < i ==> (#[trigger] keys@[j]@).len() == 32,
            decreases keys@.len() - i,
        {
            if keys[i].len() != 32 {
                proof {
                    assert(keys@.map_values(|v: Vec<u8>| v@)[i as int].len() != 32);
                }
                return Err(Error::LengthMismatch);
            }
            let c = Aes256HiroseCipher::new(&keys[i]);
            ciphers.push(c);
            i += 1;
        }
        let p = Aes256Hirose { ciphers };
        proof {
            assert(p.keys() =~= keys@.map_values(|v: Vec<u8>| v@));
        }
        Ok(p)
    }

    /// Expands `src` into `buf`: seed chunk `i` goes through adapter `i`, and
    /// its two 16-byte output blocks land in output chunk `i` (32 bytes), the
    /// first block before the second, chunks in order.
    ///
    /// Succeeds exactly when the seed is 16 bytes and the output buffer 32
    /// bytes per adapter; on a length mismatch `buf` is left unchanged.
    pub fn gen(&self, buf: &mut Vec<u8>, src: &Vec<u8>) -> (r: Result<(), Error>)
        ensures
            r is Ok <==> (src@.len() == 16 * self.keys().len() && old(buf)@.len() == 32
                * self.keys().len()),
            r is Ok ==> final(buf)@ == hirose_output(self.keys(), src@),
            r is Err ==> final(buf)@ == old(buf)@,
            r matches Err(e) ==> e == Error::LengthMismatch,
    {
        let n = self.ciphers.len();
        let srclen = src.len();
        let buflen = buf.len();
        if srclen % 16 != 0 || srclen / 16 != n || buflen % 32 != 0 || buflen / 32 != n {
            proof {
                lemma_len_chunks(srclen as int, n as int, 16);
                lemma_len_chunks(buflen as int, n as int, 32);
            }
            return Err(Error::LengthMismatch);
        }
        proof {
            lemma_len_chunks(srclen as int, n as int, 16);
            lemma_len_chunks(buflen as int, n as int, 32);
        }
        let ghost kseq = self.keys();
        let ghost out_spec = hirose_output(kseq, src@);
        let mut i: usize = 0;
        while i < n
            invariant
                i <= n,
                n == self.ciphers@.len(),
                kseq == self.keys(),
                out_spec == hirose_output(kseq, src@),
                src@.len() == 16 * n,
                src@.len() <= usize::MAX,
                buf@.len() == 32 * n,
                buf@.len() <= usize::MAX,
                forall|j: int| 0 <= j < 32 * i ==> buf@[j] == (#[trigger] out_spec[j]),
            decreases n - i,
        {
            let mut chunk: Vec<u8> = Vec::new();
            let mut t: usize = 0;
            while t < 16
                invariant
                    t <= 16,
                    i < n,
                    src@.len() == 16 * n,
                    src@.len() <= usize::MAX,
                    chunk@.len() == t,
                    forall|j: int| 0 <= j < t ==> (#[trigger] chunk@[j]) == src@[16 * i + j],
                decreases 16 - t,
            {
                chunk.push(src[16 * i + t]);
                t += 1;
            }
            proof {
                assert forall|j: int| 0 <= j < 16 implies chunk@[j] == chunk16(
                    src@,
                    i as int,
                )[j] by {
                    assert(chunk@[j] == src@[16 * (i as int) + j]);
                    assert(chunk16(src@, i as int)[j] == src@[j + 16 * (i as int)]);
                }
                assert(chunk@ =~= chunk16(src@, i as int));
            }
            let (blk1, blk2) = self.ciphers[i].gen_blk(&chunk);
            let mut t: usize = 0;
            while t < 16
                invariant
                    t <= 16,
                    i < n,
                    n == kseq.len(),
                    blk1@ == hirose_block1(kseq[i as int], chunk16(src@, i as int)),
                    blk1@.len() == 16,
                    out_spec == hirose_output(kseq, src@),
                    buf@.len() == 32 * n,
                    buf@.len() <= usize::MAX,
                    forall|j: int| 0 <= j < 32 * i + t ==> buf@[j] == (#[trigger] out_spec[j]),
                decreases 16 - t,
            {
                buf.set(32 * i + t, blk1[t]);
                proof {
                    let j = 32 * (i as int) + t;
                    assert(j / 32 == i as int && j % 32 == t as int) by (nonlinear_arith)
                        requires
                            j == 32 * (i as int) + t,
                            0 <= t < 16,
                            0 <= i,
                    ;
                    assert(out_spec[j] == blk1@[t as int]);
                }
                t += 1;
            }
            let mut t: usize = 0;
            while t < 16
                invariant
                    t <= 16,
                    i < n,
                    n == kseq.len(),
                    blk2@ == hirose_block2(kseq[i as int], chunk16(src@, i as int)),
                    blk2@.len() == 16,
                    out_spec == hirose_output(kseq, src@),
                    buf@.len() == 32 * n,
                    buf@.len() <= usize::MAX,
                    forall|j: int| 0 <= j < 32 * i + 16 + t ==> buf@[j] == (#[trigger] out_spec[j]),
                decreases 16 - t,
            {
                buf.set(32 * i + 16 + t, blk2[t]);
                proof {
                    let j = 32 * (i as int) + 16 + t;
                    assert(j / 32 == i as int && j % 32 == 16 + t as int) by (nonlinear_arith)
                        requires
                            j == 32 * (i as int) + 16 + t,
                            0 <= t < 16,
                            0 <= i,
                    ;
                    assert(out_spec[j] == blk2@[t as int]);
                }
                t += 1;
            }
            i += 1;
        }
        proof {
            assert(buf@ =~= out_spec);
        }
        Ok(())
    }
}

/// Law: determinism of the MMO PRG — the generated bytes are a function of
/// the adapter keys and the seed alone, so equal keys and equal seeds give
/// byte-identical output, on every call and across processes.
pub proof fn lemma_mmo_gen_deterministic(
    keys1: Seq<Seq<u8>>,
    keys2: Seq<Seq<u8>>,
    s1: Seq<u8>,
    s2: Seq<u8>,
)
    requires
        keys1 == keys2,
        s1 == s2,
    ensures
        mmo_output(keys1, s1) == mmo_output(keys2, s2),
{
}

/// Law: determinism of the Hirose PRG — the generated bytes are a function of
/// the adapter keys and the seed alone, so equal keys and equal seeds give
/// byte-identical output, on every call and across processes.
pub proof fn lemma_hirose_gen_deterministic(
    keys1: Seq<Seq<u8>>,
    keys2: Seq<Seq<u8>>,
    s1: Seq<u8>,
    s2: Seq<u8>,
)
    requires
        keys1 == keys2,
        s1 == s2,
    ensures
        hirose_output(keys1, s1) == hirose_output(keys2, s2),
{
}

/// Law: chunk independence of the MMO PRG — output chunk `i` depends only on
/// seed chunk `i`, so two seeds that agree on chunk `i` agree on output chunk
/// `i`, whatever their other chunks hold.
pub proof fn lemma_mmo_chunk_independence(keys: Seq<Seq<u8>>, s1: Seq<u8>, s2: Seq<u8>, i: int)
    requires
        0 <= i < keys.len(),
        s1.len() == 16 * keys.len(),
        s2.len() == 16 * keys.len(),
        chunk16(s1, i) == chunk16(s2, i),
    ensures
        mmo_output(keys, s1).subrange(16 * i, 16 * i + 16) == mmo_output(keys, s2).subrange(
            16 * i,
            16 * i + 16,
        ),
{
    let o1 = mmo_output(keys, s1);
    let o2 = mmo_output(keys, s2);
    assert forall|t: int| 0 <= t < 16 implies (#[trigger] o1.subrange(16 * i, 16 * i + 16)[t])
        == o2.subrange(16 * i, 16 * i + 16)[t] by {
        let j = 16 * i + t;
        assert(j / 16 == i && j % 16 == t) by (nonlinear_arith)
            requires
                j == 16 * i + t,
                0 <= t < 16,
                0 <= i,
        ;
        assert(o1[j] == mmo_block(keys[i], chunk16(s1, i))[t]);
        assert(o2[j] == mmo_block(keys[i], chunk16(s2, i))[t]);
    }
    assert(o1.subrange(16 * i, 16 * i + 16) =~= o2.subrange(16 * i, 16 * i + 16));
}

/// Law: chunk independence of the Hirose PRG — output chunk `i` (32 bytes)
/// depends only on seed chunk `i`, so two seeds that agree on chunk `i` agree
/// on output chunk `i`, whatever their other chunks hold.
pub proof fn lemma_hirose_chunk_independence(keys: Seq<Seq<u8>>, s1: Seq<u8>, s2: Seq<u8>, i: int)
    requires
        0 <= i < keys.len(),
        s1.len() == 16 * keys.len(),
        s2.len() == 16 * keys.len(),
        chunk16(s1, i) == chunk16(s2, i),
    ensures
        hirose_output(keys, s1).subrange(32 * i, 32 * i + 32) == hirose_output(keys, s2).subrange(
            32 * i,
            32 * i + 32,
        ),
{
    let o1 = hirose_output(keys, s1);
    let o2 = hirose_output(keys, s2);
    assert forall|t: int| 0 <= t < 32 implies (#[trigger] o1.subrange(32 * i, 32 * i + 32)[t])
        == o2.subrange(32 * i, 32 * i + 32)[t] by {
        let j = 32 * i + t;
        assert(j / 32 == i && j % 32 == t) by (nonlinear_arith)
            requires
                j == 32 * i + t,
                0 <= t < 32,
                0 <= i,
        ;
        if t < 16 {
            assert(o1[j] == hirose_block1(keys[i], chunk16(s1, i))[t]);
            assert(o2[j] == hirose_block1(keys[i], chunk16(s2, i))[t]);
        } else {
            assert(o1[j] == hirose_block2(keys[i], chunk16(s1, i))[t - 16]);
            assert(o2[j] == hirose_block2(keys[i], chunk16(s2, i))[t - 16]);
        }
    }
    assert(o1.subrange(32 * i, 32 * i + 32) =~= o2.subrange(32 * i, 32 * i + 32));
}

/// Law: Hirose domain separation — the pre-image of the second branch always
/// differs from the pre-image of the first, because the public constant that
/// is XORed in is nonzero in every byte. The two cipher calls of one
/// compression are therefore never made on the same input.
pub proof fn lemma_hirose_branch_inputs_differ(x: Seq<u8>)
    requires
        x.len() == 16,
    ensures
        xor_bytes(x, hirose_const()) != x,
{
    let y = xor_bytes(x, hirose_const());
    let b = x[0];
    assert(hirose_const()[0] == 0xffu8);
    assert(y[0] == b ^ 0xffu8);
    assert(b ^ 0xffu8 != b) by (bit_vector);
}

/// A length is `c` bytes per adapter exactly when it is a multiple of `c`
/// with quotient the adapter count.
proof fn lemma_len_chunks(len: int, n: int, c: int)
    requires
        len >= 0,
        n >= 0,
        c > 0,
    ensures
        (len % c == 0 && len / c == n) <==> len == c * n,
{
    if len % c == 0 && len / c == n {
        assert(len == c * (len / c) + len % c) by (nonlinear_arith)
            requires
                c > 0,
        ;
    }
    if len == c * n {
        assert((c * n) % c == 0 && (c * n) / c == n) by (nonlinear_arith)
            requires
                c > 0,
                n >= 0,
        ;
    }
}

} // verus!

