//! SHA-256 of a download, fed chunk by chunk, and its lowercase hex form.

use vstd::prelude::*;
use sha2::Digest;

verus! {

/// An incremental SHA-256 computation.
///
/// The hasher is held in a private field because Verus cannot declare
/// `sha2::Sha256`, an alias of a generic wrapper type; its state is named by
/// [`sha256_fed`], the bytes fed so far.
#[verifier::external_body]
pub struct Sha256Hasher {
    inner: sha2::Sha256,
}

/// The bytes fed to a hasher so far.
pub uninterp spec fn sha256_fed(h: Sha256Hasher) -> Seq<u8>;

/// The SHA-256 digest of `data`, as the 32 bytes sha2 produces.
pub uninterp spec fn sha256_digest(data: Seq<u8>) -> Seq<u8>;

impl Sha256Hasher {
    /// A hasher that has been fed nothing.
    ///
    /// Trusted: calls `sha2::Sha256::new` (`Digest::new`), a fresh state.
    #[verifier::external_body]
    pub fn new() -> (h: Self)
        ensures
            sha256_fed(h) == Seq::<u8>::empty(),
    {
        Sha256Hasher { inner: sha2::Sha256::new() }
    }

    /// Feeds `data`.
    ///
    /// Trusted: calls `Digest::update`, which absorbs the bytes after those
    /// fed before; claims the fed bytes grow by `data`.
    #[verifier::external_body]
    pub fn update(&mut self, data: &[u8])
        ensures
            sha256_fed(*final(self)) == sha256_fed(*old(self)) + data@,
    {
        self.inner.update(data)
    }

    /// The digest of everything fed.
    ///
    /// Trusted: calls `Digest::finalize`, whose output for SHA-256 is 32
    /// bytes; claims those bytes are the named [`sha256_digest`] of the fed
    /// bytes.
    #[verifier::external_body]
    pub fn finalize(self) -> (d: Vec<u8>)
        ensures
            d@ == sha256_digest(sha256_fed(self)),
            d@.len() == 32,
    {
        self.inner.finalize().to_vec()
    }
}

/// The lowercase hex digit of `n < 16`.
pub open spec fn hex_digit(n: u8) -> char {
    if n < 10 {
        (48 + n) as char
    } else {
        (97 + (n - 10)) as char
    }
}

/// The lowercase hex form of `bytes`, two digits per byte.
pub open spec fn hex_of(bytes: Seq<u8>) -> Seq<char>
    decreases bytes.len(),
{
    if bytes.len() == 0 {
        Seq::empty()
    } else {
        let b = bytes.last();
        hex_of(bytes.drop_last()) + seq![hex_digit(b / 16), hex_digit(b % 16)]
    }
}

fn hex_char(n: u8) -> (c: char)
    requires
        n < 16,
    ensures
        c == hex_digit(n),
{
    if n < 10 {
        ((48u8 + n) as char)
    } else {
        ((97u8 + (n - 10)) as char)
    }
}

/// The lowercase hex form of `bytes` (see [`hex_of`]).
pub fn hex_lower(bytes: &[u8]) -> (s: String)
    ensures
        s@ == hex_of(bytes@),
{
    let mut v: Vec<char> = Vec::new();
    let mut i: usize = 0;
    while i < bytes.len()
        invariant
            i <= bytes@.len(),
            v@ == hex_of(bytes@.take(i as int)),
        decreases bytes.len() - i,
    {
        let b = bytes[i];
        assert(bytes@.take(i + 1).drop_last() =~= bytes@.take(i as int));
        v.push(hex_char(b / 16));
        v.push(hex_char(b % 16));
        i = i + 1;
    }
    assert(bytes@.take(bytes@.len() as int) =~= bytes@);
    crate::text::string_from_chars(&v)
}

/// The lowercase hex SHA-256 of everything a hasher was fed.
pub fn sha256_hex(h: Sha256Hasher) -> (s: String)
    ensures
        s@ == hex_of(sha256_digest(sha256_fed(h))),
{
    let d = h.finalize();
    hex_lower(d.as_slice())
}

} // verus!
