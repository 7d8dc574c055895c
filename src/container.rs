use vstd::prelude::*;

use crate::error::CryptError;

verus! {

/// Major version of the container format, written as three decimal digits.
pub const FORMAT_VERSION: u32 = 1;

/// Length of the header: format name, a space, three version digits, a newline.
pub const HEADER_LEN: usize = 15;

/// Length of the random salt fed to key derivation.
pub const SALT_LEN: usize = 12;

/// Length of the random nonce fed to the cipher.
pub const NONCE_LEN: usize = 12;

/// Length of the fixed part of a container: header, salt and nonce.
pub const PREFIX_LEN: usize = 39;

/// The ASCII bytes of the format name, `minichacha`.
pub open spec fn format_name() -> Seq<u8> {
    seq![109u8, 105u8, 110u8, 105u8, 99u8, 104u8, 97u8, 99u8, 104u8, 97u8]
}

/// The three ASCII decimal digits of `v` (taken modulo 1000), most significant first.
pub open spec fn version_digits(v: nat) -> Seq<u8> {
    seq![(48 + (v / 100) % 10) as u8, (48 + (v / 10) % 10) as u8, (48 + v % 10) as u8]
}

/// The header every container starts with: `"minichacha 001\n"` for version 1.
pub open spec fn header() -> Seq<u8> {
    format_name() + seq![32u8] + version_digits(FORMAT_VERSION as nat) + seq![10u8]
}

/// The container that frames `salt`, `nonce` and the sealed `body`.
pub open spec fn container_of(salt: Seq<u8>, nonce: Seq<u8>, body: Seq<u8>) -> Seq<u8> {
    header() + salt + nonce + body
}

/// Whether `c` is long enough for the fixed part and starts with the header.
pub open spec fn is_framed(c: Seq<u8>) -> bool {
    c.len() >= PREFIX_LEN && c.subrange(0, HEADER_LEN as int) == header()
}

/// The salt field of a framed container.
pub open spec fn salt_of(c: Seq<u8>) -> Seq<u8> {
    c.subrange(HEADER_LEN as int, HEADER_LEN + SALT_LEN)
}

/// The nonce field of a framed container.
pub open spec fn nonce_of(c: Seq<u8>) -> Seq<u8> {
    c.subrange(HEADER_LEN + SALT_LEN, PREFIX_LEN as int)
}

/// Everything after the fixed part: ciphertext and tag.
pub open spec fn body_of(c: Seq<u8>) -> Seq<u8> {
    c.subrange(PREFIX_LEN as int, c.len() as int)
}

/// The three fields of a container after its header.
pub struct ContainerParts {
    pub salt: Vec<u8>,
    pub nonce: Vec<u8>,
    pub body: Vec<u8>,
}

/// Framing a salt, a nonce and a body, then reading the container back, gives
/// the same three fields again.
pub proof fn lemma_decode_encode(salt: Seq<u8>, nonce: Seq<u8>, body: Seq<u8>)
    requires
        salt.len() == SALT_LEN,
        nonce.len() == NONCE_LEN,
    ensures
        is_framed(container_of(salt, nonce, body)),
        salt_of(container_of(salt, nonce, body)) == salt,
        nonce_of(container_of(salt, nonce, body)) == nonce,
        body_of(container_of(salt, nonce, body)) == body,
        container_of(salt, nonce, body).len() == PREFIX_LEN + body.len(),
{
    let c = container_of(salt, nonce, body);
    assert(header().len() == HEADER_LEN);
    assert(c.subrange(0, HEADER_LEN as int) =~= header());
    assert(salt_of(c) =~= salt);
    assert(nonce_of(c) =~= nonce);
    assert(body_of(c) =~= body);
}

/// The header bytes, `"minichacha 001\n"`.
pub fn header_bytes() -> (r: Vec<u8>)
    ensures
        r@ == header(),
        r@.len() == HEADER_LEN,
{
    let v: u8 = FORMAT_VERSION as u8;
    let r = vec![
        109u8, 105u8, 110u8, 105u8, 99u8, 104u8, 97u8, 99u8, 104u8, 97u8,
        32u8,
        48u8 + (v / 100) % 10, 48u8 + (v / 10) % 10, 48u8 + v % 10,
        10u8,
    ];
    assert(r@ =~= header());
    r
}

/// Appends `src` to the end of `dst`.
fn append_bytes(dst: &mut Vec<u8>, src: &[u8])
    ensures
        final(dst)@ == old(dst)@ + src@,
{
    let mut i: usize = 0;
    while i < src.len()
        invariant
            i <= src@.len(),
            dst@ == old(dst)@ + src@.subrange(0, i as int),
        decreases src@.len() - i,
    {
        dst.push(src[i]);
        i = i + 1;
        assert(src@.subrange(0, i as int) =~= src@.subrange(0, i - 1) + seq![src@[i - 1]]);
    }
    assert(src@.subrange(0, i as int) =~= src@);
}

/// A copy of `src[start..end]`.
fn copy_range(src: &[u8], start: usize, end: usize) -> (r: Vec<u8>)
    requires
        start <= end <= src@.len(),
    ensures
        r@ == src@.subrange(start as int, end as int),
{
    let mut r: Vec<u8> = Vec::new();
    let mut i: usize = start;
    while i < end
        invariant
            start <= i <= end <= src@.len(),
            r@ == src@.subrange(start as int, i as int),
        decreases end - i,
    {
        r.push(src[i]);
        i = i + 1;
        assert(src@.subrange(start as int, i as int)
            =~= src@.subrange(start as int, i - 1) + seq![src@[i - 1]]);
    }
    r
}

/// Serialises a container: header, then `salt`, `nonce` and `body` in order.
pub fn encode_container(salt: &[u8], nonce: &[u8], body: &[u8]) -> (r: Vec<u8>)
    requires
        salt@.len() == SALT_LEN,
        nonce@.len() == NONCE_LEN,
    ensures
        r@ == container_of(salt@, nonce@, body@),
{
    let mut r = header_bytes();
    append_bytes(&mut r, salt);
    append_bytes(&mut r, nonce);
    append_bytes(&mut r, body);
    r
}

/// Whether the first `HEADER_LEN` bytes of `c` are the header.
fn header_matches(c: &[u8]) -> (r: bool)
    requires
        c@.len() >= HEADER_LEN,
    ensures
        r == (c@.subrange(0, HEADER_LEN as int) == header()),
{
    let h = header_bytes();
    let mut i: usize = 0;
    while i < HEADER_LEN
        invariant
            i <= HEADER_LEN <= c@.len(),
            h@ == header(),
            forall|j: int| 0 <= j < i ==> c@[j] == h@[j],
        decreases HEADER_LEN - i,
    {
        if c[i] != h[i] {
            assert(c@.subrange(0, HEADER_LEN as int)[i as int] != header()[i as int]);
            return false;
        }
        i = i + 1;
    }
    assert(c@.subrange(0, HEADER_LEN as int) =~= header());
    true
}

/// Splits a container into salt, nonce and body.
///
/// Fails with `Format` exactly when `c` is shorter than the fixed part or does
/// not start with the header; nothing else about the bytes is checked here.
pub fn decode_container(c: &[u8]) -> (r: Result<ContainerParts, CryptError>)
    ensures
        match r {
            Ok(parts) => is_framed(c@)
                && parts.salt@ == salt_of(c@)
                && parts.nonce@ == nonce_of(c@)
                && parts.body@ == body_of(c@),
            Err(e) => !is_framed(c@) && e == CryptError::Format,
        },
{
    if c.len() < PREFIX_LEN {
        return Err(CryptError::Format);
    }
    if !header_matches(c) {
        return Err(CryptError::Format);
    }
    let salt = copy_range(c, HEADER_LEN, HEADER_LEN + SALT_LEN);
    let nonce = copy_range(c, HEADER_LEN + SALT_LEN, PREFIX_LEN);
    let body = copy_range(c, PREFIX_LEN, c.len());
    Ok(ContainerParts { salt, nonce, body })
}

} // verus!
