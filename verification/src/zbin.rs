//! The `.zbin` grid files: a gzip stream holding a grid header, the grid's
//! coordinates and one value per grid point, all little-endian 32-bit words.
//!
//! Floating-point coordinates and values are carried as their IEEE-754 bit
//! patterns (`f32::to_bits`), so the layout is handled exactly.

use std::io::{Read, Write};

use vstd::prelude::*;

verus! {

/// The word that `b0..b3` encode, least significant byte first.
pub open spec fn le_word(b0: u8, b1: u8, b2: u8, b3: u8) -> u32 {
    (b0 as u32) | ((b1 as u32) << 8u32) | ((b2 as u32) << 16u32) | ((b3 as u32) << 24u32)
}

/// The word stored at byte offset `at`.
pub open spec fn word_at(bytes: Seq<u8>, at: int) -> u32 {
    le_word(bytes[at], bytes[at + 1], bytes[at + 2], bytes[at + 3])
}

/// The `n` words stored from byte offset `at` on.
pub open spec fn words_at(bytes: Seq<u8>, at: int, n: int) -> Seq<u32> {
    Seq::new(n as nat, |k: int| word_at(bytes, at + 4 * k))
}

/// The little-endian bytes of `x`.
pub open spec fn le_bytes(x: u32) -> Seq<u8> {
    seq![(x & 0xff) as u8, ((x >> 8u32) & 0xff) as u8, ((x >> 16u32) & 0xff) as u8, ((x >> 24u32) & 0xff) as u8]
}

/// The little-endian bytes of every word, in order.
pub open spec fn words_bytes(words: Seq<u32>) -> Seq<u8>
    decreases words.len(),
{
    if words.len() == 0 {
        Seq::empty()
    } else {
        words_bytes(words.drop_last()) + le_bytes(words.last())
    }
}

pub proof fn lemma_le_word_of_bytes(x: u32)
    ensures
        le_word(le_bytes(x)[0], le_bytes(x)[1], le_bytes(x)[2], le_bytes(x)[3]) == x,
{
    let b0 = (x & 0xff) as u8;
    let b1 = ((x >> 8u32) & 0xff) as u8;
    let b2 = ((x >> 16u32) & 0xff) as u8;
    let b3 = ((x >> 24u32) & 0xff) as u8;
    assert((b0 as u32) | ((b1 as u32) << 8u32) | ((b2 as u32) << 16u32) | ((b3 as u32) << 24u32) == x) by (bit_vector)
        requires
            b0 == (x & 0xff) as u8,
            b1 == ((x >> 8u32) & 0xff) as u8,
            b2 == ((x >> 16u32) & 0xff) as u8,
            b3 == ((x >> 24u32) & 0xff) as u8;
}

/// Words written as bytes read back as the same words, wherever they sit.
pub proof fn lemma_words_read_back(prefix: Seq<u8>, words: Seq<u32>, suffix: Seq<u8>)
    ensures
        words_bytes(words).len() == 4 * words.len(),
        words_at(prefix + words_bytes(words) + suffix, prefix.len() as int, words.len() as int) == words,
    decreases words.len(),
{
    if words.len() > 0 {
        let rest = words.drop_last();
        let last = words.last();
        lemma_words_read_back(prefix, rest, le_bytes(last) + suffix);
        lemma_le_word_of_bytes(last);
        let whole = prefix + words_bytes(words) + suffix;
        assert(whole =~= prefix + words_bytes(rest) + (le_bytes(last) + suffix));
        let at = prefix.len() as int;
        let n = words.len() as int;
        assert(word_at(whole, at + 4 * (n - 1)) == last) by {
            let o = at + 4 * (n - 1);
            assert(whole[o] == le_bytes(last)[0]);
            assert(whole[o + 1] == le_bytes(last)[1]);
            assert(whole[o + 2] == le_bytes(last)[2]);
            assert(whole[o + 3] == le_bytes(last)[3]);
        }
        let w1 = words_at(prefix + words_bytes(rest) + (le_bytes(last) + suffix), at, n - 1);
        assert(w1 == rest);
        assert forall|k: int| 0 <= k < n implies #[trigger] words_at(whole, at, n)[k] == words[k] by {
            if k < n - 1 {
                assert(w1[k] == rest[k]);
                assert(words[k] == rest[k]);
            }
        }
        assert(words_at(whole, at, n) =~= words);
    }
}

/// Appends the little-endian bytes of `x`.
fn push_word(bytes: &mut Vec<u8>, x: u32)
    ensures
        final(bytes)@ == old(bytes)@ + le_bytes(x),
{
    bytes.push((x & 0xff) as u8);
    bytes.push(((x >> 8) & 0xff) as u8);
    bytes.push(((x >> 16) & 0xff) as u8);
    bytes.push(((x >> 24) & 0xff) as u8);
    proof {
        assert(final(bytes)@ =~= old(bytes)@ + le_bytes(x));
    }
}

/// The bounds of a regular grid, as bit patterns.
#[derive(Clone, Copy, Debug, PartialEq, Eq, Structural)]
pub struct GridBounds {
    pub min_lat: u32,
    pub max_lat: u32,
    pub min_lon: u32,
    pub max_lon: u32,
}

/// The uncompressed contents of a regular-grid `.zbin` file: the regular tag,
/// the grid's rows and columns, its bounds, and its first `nrows * ncols` values.
pub open spec fn regular_payload(nrows: u32, ncols: u32, bounds: GridBounds, values: Seq<u32>) -> Seq<u8> {
    words_bytes(seq![1u32, nrows, ncols, bounds.min_lat, bounds.max_lat, bounds.min_lon, bounds.max_lon])
        + words_bytes(values.take(nrows * ncols))
}

/// The uncompressed contents of a regular-grid `.zbin` file.
pub fn regular_zbin_payload(nrows: u32, ncols: u32, bounds: GridBounds, values: &[u32]) -> (payload: Vec<u8>)
    requires
        nrows * ncols <= values@.len(),
    ensures
        payload@ == regular_payload(nrows, ncols, bounds, values@),
{
    let mut payload: Vec<u8> = Vec::new();
    let ghost header = seq![1u32, nrows, ncols, bounds.min_lat, bounds.max_lat, bounds.min_lon, bounds.max_lon];
    push_word(&mut payload, 1);
    push_word(&mut payload, nrows);
    push_word(&mut payload, ncols);
    push_word(&mut payload, bounds.min_lat);
    push_word(&mut payload, bounds.max_lat);
    push_word(&mut payload, bounds.min_lon);
    push_word(&mut payload, bounds.max_lon);
    proof {
        reveal_with_fuel(words_bytes, 8);
        assert(header.take(0) =~= Seq::<u32>::empty());
        assert(payload@ =~= words_bytes(header));
    }
    proof {
        assert(nrows as int * ncols as int <= 0xffff_ffff * 0xffff_ffff) by (nonlinear_arith);
    }
    let available = values.len();
    let product: u64 = nrows as u64 * ncols as u64;
    assert(product <= available);
    let n: usize = product as usize;
    let mut k: usize = 0;
    while k < n
        invariant
            n == nrows * ncols,
            n <= values@.len(),
            k <= n,
            payload@ == words_bytes(header) + words_bytes(values@.take(k as int)),
        decreases n - k,
    {
        let ghost before = payload@;
        push_word(&mut payload, values[k]);
        proof {
            assert(values@.take(k + 1).drop_last() =~= values@.take(k as int));
            assert(values@.take(k + 1).last() == values@[k as int]);
            assert(payload@ =~= words_bytes(header) + words_bytes(values@.take(k + 1)));
        }
        k += 1;
    }
    payload
}

/// What gunzipping `data` gives with `libflate`: the decompressed stream, or
/// `None` where `data` is not a valid gzip stream.
pub uninterp spec fn gunzipped(data: Seq<u8>) -> Option<Seq<u8>>;

/// Compresses `payload` into a gzip stream.
///
/// Calls `libflate::gzip::Encoder` on a `Vec`. The encoder's only errors are
/// those of the writer it writes to, and writing to a `Vec` does not fail, so
/// the stream is always produced. Its header carries the time of writing, so
/// the bytes are not named; what is stated is that gunzipping them gives the
/// payload back.
#[verifier::external_body]
fn gzip_compress(payload: &[u8]) -> (compressed: Option<Vec<u8>>)
    ensures
        compressed is Some,
        compressed matches Some(z) ==> gunzipped(z@) == Some(payload@),
{
    let mut encoder = match libflate::gzip::Encoder::new(Vec::new()) {
        Ok(encoder) => encoder,
        Err(_) => return None,
    };
    match encoder.write_all(payload) {
        Ok(()) => {},
        Err(_) => return None,
    }
    match encoder.finish().into_result() {
        Ok(bytes) => Some(bytes),
        Err(_) => None,
    }
}

/// What reading the first `len` bytes of what `data` decompresses to gives
/// with `libflate`: those bytes, or `None` where the stream is not a valid
/// gzip stream up to there, or ends before.
pub uninterp spec fn gunzipped_prefix(data: Seq<u8>, len: nat) -> Option<Seq<u8>>;

/// Reads the first `len` decompressed bytes of a gzip stream.
///
/// Calls `libflate::gzip::Decoder` and `read_exact`, which stops once `len`
/// bytes are read: what follows them, the gzip trailer included, is not
/// read. Stated: a result has `len` bytes; a shorter read gives their first
/// bytes too; and where the whole stream decompresses, the result is the
/// start of what it decompresses to.
#[verifier::external_body]
fn gzip_decompress_prefix(data: &[u8], len: usize) -> (prefix: Option<Vec<u8>>)
    ensures
        match prefix {
            Some(p) => gunzipped_prefix(data@, len as nat) == Some(p@),
            None => gunzipped_prefix(data@, len as nat) is None,
        },
        prefix matches Some(p) ==> p@.len() == len,
        prefix matches Some(p) ==> forall|shorter: nat| #![trigger gunzipped_prefix(data@, shorter)]
            shorter <= len ==> gunzipped_prefix(data@, shorter) == Some(p@.take(shorter as int)),
        gunzipped(data@) is Some && len <= gunzipped(data@).unwrap().len()
            ==> prefix is Some && prefix.unwrap()@ == gunzipped(data@).unwrap().take(len as int),
{
    let mut decoder = match libflate::gzip::Decoder::new(data) {
        Ok(decoder) => decoder,
        Err(_) => return None,
    };
    let mut prefix = vec![0u8; len];
    match decoder.read_exact(&mut prefix) {
        Ok(()) => Some(prefix),
        Err(_) => None,
    }
}

/// The bytes of a regular-grid `.zbin` file: its payload, gzip-compressed.
pub fn regular_zbin_file(nrows: u32, ncols: u32, bounds: GridBounds, values: &[u32]) -> (file: Vec<u8>)
    requires
        nrows * ncols <= values@.len(),
    ensures
        gunzipped(file@) == Some(regular_payload(nrows, ncols, bounds, values@)),
{
    let payload = regular_zbin_payload(nrows, ncols, bounds, values);
    gzip_compress(payload.as_slice()).unwrap()
}

/// Why a `.zbin` file could not be read.
#[derive(Clone, Copy, Debug, PartialEq, Eq, Structural)]
pub enum ZbinError {
    /// Not a gzip stream, or one that breaks or ends within the header.
    NotGzip,
    /// The data ends, or its stream breaks, before the grid or its values do.
    Truncated,
    /// The grid tag is neither irregular (0) nor regular (1).
    UnknownGridType(u32),
}

/// The grid a `.zbin` file describes.
#[derive(Clone, Debug)]
pub enum ZbinGrid {
    /// A regular grid, given by its bounds.
    Regular { nrows: u32, ncols: u32, bounds: GridBounds },
    /// An irregular grid, given by every point's latitude and longitude.
    Irregular { nrows: u32, ncols: u32, lats: Vec<u32>, lons: Vec<u32> },
}

/// The number of grid points the header at the start of `payload` declares.
pub open spec fn point_count(payload: Seq<u8>) -> int {
    word_at(payload, 4) as int * word_at(payload, 8) as int
}

/// Where the values start, after the header and the grid description.
pub open spec fn values_offset(payload: Seq<u8>) -> int {
    if word_at(payload, 0) == 0 { 12 + 8 * point_count(payload) } else { 28int }
}

/// Why the payload of a `.zbin` file does not describe a grid, if it does not.
pub open spec fn grid_error(payload: Seq<u8>) -> Option<ZbinError> {
    if payload.len() < 12 {
        Some(ZbinError::Truncated)
    } else if word_at(payload, 0) != 0 && word_at(payload, 0) != 1 {
        Some(ZbinError::UnknownGridType(word_at(payload, 0)))
    } else if payload.len() < values_offset(payload) {
        Some(ZbinError::Truncated)
    } else {
        None
    }
}

/// Whether `grid` is the grid stored in `payload`: its shape with its bounds
/// (regular) or with every point's coordinates (irregular).
pub open spec fn grid_matches(grid: ZbinGrid, payload: Seq<u8>) -> bool {
    let n = point_count(payload);
    if word_at(payload, 0) == 1 {
        grid == ZbinGrid::Regular {
            nrows: word_at(payload, 4),
            ncols: word_at(payload, 8),
            bounds: GridBounds {
                min_lat: word_at(payload, 12),
                max_lat: word_at(payload, 16),
                min_lon: word_at(payload, 20),
                max_lon: word_at(payload, 24),
            },
        }
    } else {
        grid matches ZbinGrid::Irregular { nrows, ncols, lats, lons } && nrows == word_at(payload, 4)
            && ncols == word_at(payload, 8) && lats@ == words_at(payload, 12, n)
            && lons@ == words_at(payload, 12 + 4 * n, n)
    }
}

/// The values the payload of a `.zbin` file holds.
pub open spec fn spec_zbin_values(payload: Seq<u8>) -> Result<Seq<u32>, ZbinError> {
    if payload.len() < 12 {
        Err(ZbinError::Truncated)
    } else if word_at(payload, 0) != 0 && word_at(payload, 0) != 1 {
        Err(ZbinError::UnknownGridType(word_at(payload, 0)))
    } else if payload.len() < values_offset(payload) + 4 * point_count(payload) {
        Err(ZbinError::Truncated)
    } else {
        Ok(words_at(payload, values_offset(payload), point_count(payload)))
    }
}

/// Reads `n` words from byte offset `at`.
fn read_words(bytes: &[u8], at: usize, n: usize) -> (words: Vec<u32>)
    requires
        at + 4 * n <= bytes@.len(),
    ensures
        words@ == words_at(bytes@, at as int, n as int),
{
    let mut words: Vec<u32> = Vec::new();
    let len = bytes.len();
    let mut k: usize = 0;
    while k < n
        invariant
            len == bytes@.len(),
            at + 4 * n <= bytes@.len(),
            k <= n,
            words@ == words_at(bytes@, at as int, k as int),
        decreases n - k,
    {
        assert(4 * k + 4 <= 4 * n);
        let o = at + 4 * k;
        let w = (bytes[o] as u32) | ((bytes[o + 1] as u32) << 8) | ((bytes[o + 2] as u32) << 16)
            | ((bytes[o + 3] as u32) << 24);
        words.push(w);
        proof {
            assert(words@ =~= words_at(bytes@, at as int, k + 1));
        }
        k += 1;
    }
    words
}

fn word(bytes: &[u8], at: usize) -> (w: u32)
    requires
        at + 4 <= bytes@.len(),
    ensures
        w == word_at(bytes@, at as int),
{
    (bytes[at] as u32) | ((bytes[at + 1] as u32) << 8) | ((bytes[at + 2] as u32) << 16) | ((bytes[at + 3] as u32) << 24)
}

/// The grid a `.zbin` payload describes.
pub fn read_zbin_grid(payload: &[u8]) -> (grid: Result<ZbinGrid, ZbinError>)
    ensures
        match grid_error(payload@) {
            Some(e) => grid == Err::<ZbinGrid, ZbinError>(e),
            None => grid matches Ok(g) && grid_matches(g, payload@),
        },
{
    if payload.len() < 12 {
        return Err(ZbinError::Truncated);
    }
    let tag = word(payload, 0);
    if tag != 0 && tag != 1 {
        return Err(ZbinError::UnknownGridType(tag));
    }
    let nrows = word(payload, 4);
    let ncols = word(payload, 8);
    if tag == 1 {
        if payload.len() < 28 {
            return Err(ZbinError::Truncated);
        }
        let bounds = GridBounds {
            min_lat: word(payload, 12),
            max_lat: word(payload, 16),
            min_lon: word(payload, 20),
            max_lon: word(payload, 24),
        };
        return Ok(ZbinGrid::Regular { nrows, ncols, bounds });
    }
    proof {
        assert(nrows as int * ncols as int <= 0xffff_ffff * 0xffff_ffff) by (nonlinear_arith);
    }
    let n: u128 = nrows as u128 * ncols as u128;
    if 12 + 8 * n > payload.len() as u128 {
        return Err(ZbinError::Truncated);
    }
    let n = n as usize;
    let lats = read_words(payload, 12, n);
    let lons = read_words(payload, 12 + 4 * n, n);
    Ok(ZbinGrid::Irregular { nrows, ncols, lats, lons })
}

/// The values a `.zbin` payload holds, one per grid point.
pub fn read_zbin_values(payload: &[u8]) -> (values: Result<Vec<u32>, ZbinError>)
    ensures
        match values {
            Ok(v) => spec_zbin_values(payload@) == Ok::<Seq<u32>, ZbinError>(v@),
            Err(e) => spec_zbin_values(payload@) == Err::<Seq<u32>, ZbinError>(e),
        },
{
    if payload.len() < 12 {
        return Err(ZbinError::Truncated);
    }
    let tag = word(payload, 0);
    if tag != 0 && tag != 1 {
        return Err(ZbinError::UnknownGridType(tag));
    }
    let rows = word(payload, 4);
    let cols = word(payload, 8);
    proof {
        assert(rows as int * cols as int <= 0xffff_ffff * 0xffff_ffff) by (nonlinear_arith);
    }
    let n: u128 = rows as u128 * cols as u128;
    let offset: u128 = if tag == 0 { 12 + 8 * n } else { 28 };
    if offset + 4 * n > payload.len() as u128 {
        return Err(ZbinError::Truncated);
    }
    Ok(read_words(payload, offset as usize, n as usize))
}

/// How many bytes the grid description of a `.zbin` payload with this header
/// ends at, and how many its values end at.
pub open spec fn values_end(header: Seq<u8>) -> int {
    values_offset(header) + 4 * point_count(header)
}

/// How a `.zbin` file is read: its 12-byte header first, then, for a known
/// grid type, as much of the payload as the header says is there.
pub open spec fn zbin_file_read(file: Seq<u8>, end: spec_fn(Seq<u8>) -> int) -> Result<Seq<u8>, ZbinError> {
    match gunzipped_prefix(file, 12) {
        None => Err(ZbinError::NotGzip),
        Some(header) => if word_at(header, 0) != 0 && word_at(header, 0) != 1 {
            Err(ZbinError::UnknownGridType(word_at(header, 0)))
        } else if end(header) > usize::MAX {
            Err(ZbinError::Truncated)
        } else {
            match gunzipped_prefix(file, end(header) as nat) {
                None => Err(ZbinError::Truncated),
                Some(payload) => Ok(payload),
            }
        },
    }
}

/// The payload of a `.zbin` file read up to the end of its values.
pub open spec fn zbin_values_payload(file: Seq<u8>) -> Result<Seq<u8>, ZbinError> {
    zbin_file_read(file, |header: Seq<u8>| values_end(header))
}

/// The payload of a `.zbin` file read up to the end of its grid description.
pub open spec fn zbin_grid_payload(file: Seq<u8>) -> Result<Seq<u8>, ZbinError> {
    zbin_file_read(file, |header: Seq<u8>| values_offset(header))
}

/// Reads the payload of a `.zbin` file up to the end its header gives for
/// its values (`values`) or for its grid description.
fn read_zbin_payload(file: &[u8], values: bool) -> (payload: Result<Vec<u8>, ZbinError>)
    ensures
        match payload {
            Ok(p) => (if values { zbin_values_payload(file@) } else { zbin_grid_payload(file@) })
                == Ok::<Seq<u8>, ZbinError>(p@),
            Err(e) => (if values { zbin_values_payload(file@) } else { zbin_grid_payload(file@) })
                == Err::<Seq<u8>, ZbinError>(e),
        },
        payload matches Ok(p) ==> p@.len() >= 12 && (word_at(p@, 0) == 0 || word_at(p@, 0) == 1)
            && (if values { p@.len() == values_end(p@.take(12)) } else { p@.len() == values_offset(p@.take(12)) }),
{
    let header = match gzip_decompress_prefix(file, 12) {
        None => return Err(ZbinError::NotGzip),
        Some(h) => h,
    };
    let tag = word(&header, 0);
    if tag != 0 && tag != 1 {
        return Err(ZbinError::UnknownGridType(tag));
    }
    let rows = word(&header, 4);
    let cols = word(&header, 8);
    proof {
        assert(rows as int * cols as int <= 0xffff_ffff * 0xffff_ffff) by (nonlinear_arith);
    }
    let n: u128 = rows as u128 * cols as u128;
    let offset: u128 = if tag == 0 { 12 + 8 * n } else { 28 };
    let end: u128 = if values { offset + 4 * n } else { offset };
    proof {
        assert(offset == values_offset(header@));
        assert(values ==> end == values_end(header@));
    }
    if end > usize::MAX as u128 {
        return Err(ZbinError::Truncated);
    }
    match gzip_decompress_prefix(file, end as usize) {
        None => Err(ZbinError::Truncated),
        Some(payload) => {
            proof {
                assert(end >= 12);
                assert(gunzipped_prefix(file@, 12) == Some(payload@.take(12)));
                assert(payload@.take(12) == header@);
                assert(word_at(payload@, 0) == word_at(header@, 0));
            }
            Ok(payload)
        },
    }
}

/// The values of a `.zbin` file, one per grid point, as bit patterns.
///
/// Only the header and what the grid and its values take are read, as the
/// grid says; what follows them is not.
pub fn read_zbin_file_values(file: &[u8]) -> (values: Result<Vec<u32>, ZbinError>)
    ensures
        match zbin_values_payload(file@) {
            Err(e) => values == Err::<Vec<u32>, ZbinError>(e),
            Ok(payload) => values matches Ok(v) && v@ == words_at(payload, values_offset(payload), point_count(payload))
                && spec_zbin_values(payload) == Ok::<Seq<u32>, ZbinError>(v@),
        },
{
    match read_zbin_payload(file, true) {
        Err(e) => Err(e),
        Ok(payload) => {
            let ghost head = payload@.take(12);
            proof {
                assert(word_at(payload@, 4) == word_at(head, 4));
                assert(word_at(payload@, 8) == word_at(head, 8));
                assert(values_end(payload@) == values_end(head));
            }
            read_zbin_values(payload.as_slice())
        },
    }
}

/// The grid of a `.zbin` file.
///
/// Only the header and the grid description are read, as the header says.
pub fn read_zbin_file_grid(file: &[u8]) -> (grid: Result<ZbinGrid, ZbinError>)
    ensures
        match zbin_grid_payload(file@) {
            Err(e) => grid == Err::<ZbinGrid, ZbinError>(e),
            Ok(payload) => grid matches Ok(g) && grid_matches(g, payload) && grid_error(payload) is None,
        },
{
    match read_zbin_payload(file, false) {
        Err(e) => Err(e),
        Ok(payload) => {
            let ghost head = payload@.take(12);
            proof {
                assert(word_at(payload@, 4) == word_at(head, 4));
                assert(word_at(payload@, 8) == word_at(head, 8));
                assert(values_offset(payload@) == values_offset(head));
            }
            read_zbin_grid(payload.as_slice())
        },
    }
}

/// A regular grid written to a `.zbin` payload reads back with the same
/// shape, bounds and values.
pub proof fn law_regular_zbin_roundtrip(nrows: u32, ncols: u32, bounds: GridBounds, values: Seq<u32>)
    requires
        nrows * ncols <= values.len(),
    ensures
        spec_zbin_values(regular_payload(nrows, ncols, bounds, values)) == Ok::<Seq<u32>, ZbinError>(values.take(nrows * ncols)),
        grid_error(regular_payload(nrows, ncols, bounds, values)) is None,
        grid_matches(ZbinGrid::Regular { nrows, ncols, bounds }, regular_payload(nrows, ncols, bounds, values)),
{
    let header = seq![1u32, nrows, ncols, bounds.min_lat, bounds.max_lat, bounds.min_lon, bounds.max_lon];
    let body = values.take(nrows * ncols);
    let payload = regular_payload(nrows, ncols, bounds, values);
    lemma_words_read_back(Seq::empty(), header, words_bytes(body));
    lemma_words_read_back(words_bytes(header), body, Seq::empty());
    assert(Seq::<u8>::empty() + words_bytes(header) + words_bytes(body) =~= payload);
    assert(words_bytes(header) + words_bytes(body) + Seq::<u8>::empty() =~= payload);
    let hw = words_at(payload, 0, 7);
    assert(hw[0] == word_at(payload, 0));
    assert(hw[1] == word_at(payload, 4));
    assert(hw[2] == word_at(payload, 8));
    assert(hw[3] == word_at(payload, 12));
    assert(hw[4] == word_at(payload, 16));
    assert(hw[5] == word_at(payload, 20));
    assert(hw[6] == word_at(payload, 24));
}

} // verus!
