//! Content digests.
//!
//! A [`ContentHasher`] streams file bytes through an MD5 digest; the
//! caller feeds it chunks read from disk and finally takes the 16-byte
//! digest. The digest of a byte sequence is named by [`digest_of`]; the
//! library never states what that value is, only that equal byte
//! sequences give equal digests. [`to_hex`] renders a digest as the
//! lowercase hexadecimal key used for content duplicate groups, and
//! [`buffer_size_for`] picks the read-buffer size for a file of a given
//! length.

use vstd::prelude::*;

verus! {

/// The MD5 digest of a byte sequence: 16 bytes determined by the input
/// bytes alone.
pub uninterp spec fn digest_of(bytes: Seq<u8>) -> Seq<u8>;

#[verifier::external_type_specification]
#[verifier::external_body]
pub struct ExMd5(md5::Md5);

/// A streaming MD5 digest over the bytes fed so far.
pub struct ContentHasher {
    inner: md5::Md5,
    fed: Ghost<Seq<u8>>,
}

impl ContentHasher {
    /// The bytes fed to the hasher so far.
    pub closed spec fn fed(&self) -> Seq<u8> {
        self.fed@
    }

    /// A fresh hasher has consumed no bytes.
    pub fn new() -> (r: ContentHasher)
        ensures
            r.fed() == Seq::<u8>::empty(),
    {
        ContentHasher { inner: md5_new(), fed: Ghost(Seq::empty()) }
    }

    /// Feeds one chunk to the digest.
    pub fn update(&mut self, chunk: &[u8])
        ensures
            final(self).fed() == old(self).fed() + chunk@,
    {
        md5_update(&mut self.inner, chunk);
        proof {
            self.fed@ = self.fed@ + chunk@;
        }
    }

    /// Relies on `digest::Digest::finalize` for `md5::Md5`: it returns
    /// the 16-byte MD5 digest of exactly the bytes fed so far, a function
    /// of those bytes alone.
    #[verifier::external_body]
    pub fn finalize(self) -> (r: Vec<u8>)
        ensures
            r@ == digest_of(self.fed()),
            r@.len() == 16,
    {
        <md5::Md5 as md5::Digest>::finalize(self.inner).to_vec()
    }
}

/// Relies on `digest::Digest::new` for `md5::Md5`: a fresh digest state.
#[verifier::external_body]
fn md5_new() -> (r: md5::Md5)
    ensures
        true,
{
    <md5::Md5 as md5::Digest>::new()
}

/// Relies on `digest::Digest::update` for `md5::Md5`: it feeds the chunk
/// to the digest state.
#[verifier::external_body]
fn md5_update(state: &mut md5::Md5, chunk: &[u8])
    ensures
        true,
{
    <md5::Md5 as md5::Digest>::update(state, chunk);
}

/// Digests a whole in-memory byte buffer.
pub fn digest_bytes(data: &Vec<u8>) -> (r: Vec<u8>)
    ensures
        r@ == digest_of(data@),
        r@.len() == 16,
{
    let mut hasher = ContentHasher::new();
    hasher.update(data.as_slice());
    proof {
        assert(Seq::<u8>::empty() + data@ =~= data@);
    }
    hasher.finalize()
}

/// The lowercase hexadecimal digit for a value below 16.
pub open spec fn hex_digit(v: u8) -> u8
    recommends
        v < 16,
{
    if v < 10 {
        (48 + v) as u8
    } else {
        (87 + v) as u8
    }
}

/// The lowercase hexadecimal rendering of a byte sequence, two digits
/// per byte, high digit first.
pub open spec fn hex_of(bytes: Seq<u8>) -> Seq<u8>
    decreases bytes.len(),
{
    if bytes.len() == 0 {
        Seq::empty()
    } else {
        hex_of(bytes.drop_last()) + seq![
            hex_digit(bytes.last() / 16),
            hex_digit(bytes.last() % 16),
        ]
    }
}

/// Renders a byte sequence in lowercase hexadecimal.
pub fn to_hex(bytes: &Vec<u8>) -> (r: Vec<u8>)
    ensures
        r@ == hex_of(bytes@),
{
    let mut out: Vec<u8> = Vec::new();
    let mut i: usize = 0;
    while i < bytes.len()
        invariant
            i <= bytes.len(),
            out@ =~= hex_of(bytes@.subrange(0, i as int)),
        decreases bytes.len() - i,
    {
        let b = bytes[i];
        let hi = b / 16;
        let lo = b % 16;
        out.push(if hi < 10 {
            48 + hi
        } else {
            87 + hi
        });
        out.push(if lo < 10 {
            48 + lo
        } else {
            87 + lo
        });
        proof {
            let pre = bytes@.subrange(0, i + 1);
            assert(pre.drop_last() =~= bytes@.subrange(0, i as int));
            assert(pre.last() == bytes@[i as int]);
            assert(out@ =~= hex_of(pre));
        }
        i = i + 1;
    }
    proof {
        assert(bytes@.subrange(0, bytes@.len() as int) =~= bytes@);
    }
    out
}

/// Bytes below one mebibyte are read with an 8 KiB buffer, larger files
/// with a 32 KiB one.
pub fn buffer_size_for(size: u64) -> (r: usize)
    ensures
        size < 1048576 ==> r == 8192,
        size >= 1048576 ==> r == 32768,
{
    if size < 1048576 {
        8192
    } else {
        32768
    }
}

} // verus!
