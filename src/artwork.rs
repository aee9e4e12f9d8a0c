//! The artwork identifier: a UUID-shaped string derived from a track's artist
//! and album, identical for every track that shares the pair.
use std::collections::hash_map::DefaultHasher;
use std::hash::Hasher;
use vstd::prelude::*;
use vstd::std_specs::hash::DefaultHasherAdditionalSpecFns;
use vstd::utf8::encode_utf8;

verus! {

/// The byte that closes each string written into the hasher, as `str`'s own
/// `Hash` impl does; it never occurs in UTF-8, so no two splits of the same
/// concatenation feed the same bytes.
pub const STR_END: u8 = 0xff;

/// The writes that hashing the artist and then the album performs.
pub open spec fn artwork_writes(artist: Seq<char>, album: Seq<char>) -> Seq<Seq<u8>> {
    seq![encode_utf8(artist), seq![STR_END], encode_utf8(album), seq![STR_END]]
}

/// The 64-bit digest of an (artist, album) pair under the default hasher.
pub open spec fn artwork_hash(artist: Seq<char>, album: Seq<char>) -> u64 {
    DefaultHasher::spec_finish(artwork_writes(artist, album))
}

/// One lower-case hexadecimal digit.
pub open spec fn hex_digit(v: int) -> char {
    seq!['0', '1', '2', '3', '4', '5', '6', '7', '8', '9', 'a', 'b', 'c', 'd', 'e', 'f'][v]
}

/// The last `count` hexadecimal digits of `value`, most significant first.
pub open spec fn hex_digits(value: nat, count: nat) -> Seq<char>
    decreases count,
{
    if count == 0 {
        Seq::empty()
    } else {
        hex_digits(value / 16, (count - 1) as nat).push(hex_digit((value % 16) as int))
    }
}

/// The hyphenated text (8-4-4-4-12 lower-case hex digits) of the 128-bit value
/// whose high half is `high` and low half is `low`.
pub open spec fn uuid_text(high: u64, low: u64) -> Seq<char> {
    let d = hex_digits(high as nat * 0x1_0000_0000_0000_0000 + low as nat, 32);
    d.subrange(0, 8) + seq!['-'] + d.subrange(8, 12) + seq!['-'] + d.subrange(12, 16)
        + seq!['-'] + d.subrange(16, 20) + seq!['-'] + d.subrange(20, 32)
}

/// The artwork identifier of a pair: its digest placed in both halves.
pub open spec fn artwork_id(artist: Seq<char>, album: Seq<char>) -> Seq<char> {
    let h = artwork_hash(artist, album);
    uuid_text(h, h)
}

/// Relies on uuid::Uuid::from_u64_pair, which lays the two halves out as the
/// big-endian 128-bit value `high << 64 | low` with no version bits set, and on
/// its Display impl, which writes the lower-case hyphenated form.
#[verifier::external_body]
fn uuid_from_halves(high: u64, low: u64) -> (r: String)
    ensures
        r@ == uuid_text(high, low),
{
    uuid::Uuid::from_u64_pair(high, low).to_string()
}

/// Hashes the artist and then the album into one hasher.
fn hash_pair(artist: &String, album: &String) -> (r: u64)
    ensures
        r == artwork_hash(artist@, album@),
{
    let end: [u8; 1] = [STR_END];
    let end_bytes = end.as_slice();
    assert(end_bytes@ =~= seq![STR_END]);
    let mut hasher = DefaultHasher::new();
    hasher.write(artist.as_str().as_bytes());
    hasher.write(end_bytes);
    hasher.write(album.as_str().as_bytes());
    hasher.write(end_bytes);
    proof {
        assert(hasher@ =~= artwork_writes(artist@, album@));
    }
    hasher.finish()
}

/// The artwork identifier of a track with this artist and album.
pub fn image_url(artist: &String, album: &String) -> (r: String)
    ensures
        r@ == artwork_id(artist@, album@),
{
    let h = hash_pair(artist, album);
    uuid_from_halves(h, h)
}

/// Equal pairs always get the same identifier.
pub proof fn lemma_artwork_id_deterministic(
    artist1: Seq<char>,
    album1: Seq<char>,
    artist2: Seq<char>,
    album2: Seq<char>,
)
    requires
        artist1 == artist2,
        album1 == album2,
    ensures
        artwork_id(artist1, album1) == artwork_id(artist2, album2),
{
}

} // verus!
