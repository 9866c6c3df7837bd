use vstd::prelude::*;

verus! {

/// The little-endian `u16` at `at`.
pub open spec fn le_u16(b: Seq<u8>, at: int) -> int {
    b[at] + 256 * b[at + 1]
}

/// The little-endian `u32` at `at`.
pub open spec fn le_u32(b: Seq<u8>, at: int) -> int {
    b[at] + 256 * b[at + 1] + 65536 * b[at + 2] + 16777216 * b[at + 3]
}

/// The little-endian `i32` at `at` is not negative.
pub open spec fn le_i32_nonneg(b: Seq<u8>, at: int) -> bool {
    le_u32(b, at) < 0x8000_0000
}

fn read_u16_le(b: &[u8], at: usize) -> (r: u16)
    requires
        at + 2 <= b@.len(),
    ensures
        r == le_u16(b@, at as int),
{
    (b[at] as u16) + (b[at + 1] as u16) * 256
}

fn read_u32_le(b: &[u8], at: usize) -> (r: u32)
    requires
        at + 4 <= b@.len(),
    ensures
        r == le_u32(b@, at as int),
{
    (b[at] as u32) + (b[at + 1] as u32) * 256 + (b[at + 2] as u32) * 65536 + (b[at + 3] as u32)
        * 16777216
}

/// A cursor over a byte buffer that reads little-endian integers.
pub struct GameboxReader<'a> {
    pub buffer: &'a [u8],
    pub cursor: usize,
}

impl<'a> GameboxReader<'a> {
    pub fn new(buffer: &'a [u8]) -> (r: GameboxReader<'a>)
        ensures
            r.buffer@ == buffer@,
            r.cursor == 0,
    {
        Self { buffer, cursor: 0 }
    }

    /// The `u32` at the cursor; the cursor moves past it.
    pub fn parse_u32(&mut self) -> (v: u32)
        requires
            old(self).cursor + 4 <= old(self).buffer@.len(),
        ensures
            v == le_u32(old(self).buffer@, old(self).cursor as int),
            final(self).cursor == old(self).cursor + 4,
            final(self).buffer@ == old(self).buffer@,
    {
        let v = read_u32_le(self.buffer, self.cursor);
        proof {
            vstd::slice::axiom_spec_len(self.buffer);
        }
        self.cursor = self.cursor + 4;
        v
    }

    /// The `u16` at the cursor; the cursor moves past it.
    pub fn parse_u16(&mut self) -> (v: u16)
        requires
            old(self).cursor + 2 <= old(self).buffer@.len(),
        ensures
            v == le_u16(old(self).buffer@, old(self).cursor as int),
            final(self).cursor == old(self).cursor + 2,
            final(self).buffer@ == old(self).buffer@,
    {
        let v = read_u16_le(self.buffer, self.cursor);
        proof {
            vstd::slice::axiom_spec_len(self.buffer);
        }
        self.cursor = self.cursor + 2;
        v
    }

    /// The chunk id at the cursor; the cursor moves past it.
    pub fn parse_chunk_id(&mut self) -> (c: ChunkId)
        requires
            old(self).cursor + 4 <= old(self).buffer@.len(),
        ensures
            c.0 == le_u32(old(self).buffer@, old(self).cursor as int),
            final(self).cursor == old(self).cursor + 4,
            final(self).buffer@ == old(self).buffer@,
    {
        ChunkId::new(self.parse_u32())
    }

    /// Moves the cursor `number` bytes on.
    pub fn skip(&mut self, number: usize)
        requires
            old(self).cursor + number <= usize::MAX,
        ensures
            final(self).cursor == old(self).cursor + number,
            final(self).buffer@ == old(self).buffer@,
    {
        self.cursor = self.cursor + number;
    }
}

/// The id of a chunk; the id of a class is a chunk id too.
#[derive(Debug, PartialEq, Eq, Clone, Copy, Structural)]
pub struct ChunkId(pub u32);

/// The class id of `CGameCtnReplayRecord`.
pub const REPLAY_RECORD_CLASS: u32 = 0x03093000;

/// The size field of a header chunk; its top bit marks a heavy chunk.
#[derive(Debug, PartialEq, Eq, Clone, Copy, Structural)]
pub struct ChunkSize(pub u32);

impl ChunkSize {
    /// The size, with bit 0 toggled for a heavy chunk.
    pub fn get_size(&self) -> (r: u32)
        ensures
            r == if self.0 >= 0x8000_0000 {
                self.0 ^ 1
            } else {
                self.0
            },
    {
        if self.is_heavy() {
            self.0 ^ 0b1
        } else {
            self.0
        }
    }

    /// Bit 31 is set.
    pub fn is_heavy(&self) -> (r: bool)
        ensures
            r == (self.0 >= 0x8000_0000),
    {
        let x = self.0;
        assert((x & (1u32 << 31u32) != 0) == (x >= 0x8000_0000)) by (bit_vector);
        x & (1u32 << 31u32) != 0
    }
}

/// An entry of the header: the id and the size of a header chunk.
#[derive(Debug, PartialEq, Eq, Clone, Copy, Structural)]
pub struct HeaderEntry {
    pub chunk_id: ChunkId,
    pub chunk_size: ChunkSize,
}

/// The raw bytes of a class, parsed when needed.
#[derive(Debug)]
pub struct Proxy {
    pub raw: Vec<u8>,
}

impl Proxy {
    pub fn new(buffer: Vec<u8>) -> (r: Proxy)
        ensures
            r.raw@ == buffer@,
    {
        Self { raw: buffer }
    }
}

/// A replay (`CGameCtnReplayRecord`).
#[derive(Debug)]
pub struct GameCtnReplayRecord {
    pub version: u32,
    pub time: u32,
    pub driver_login: String,
    pub map: Proxy,
}

/// A parsed GameBox class.
#[derive(Debug)]
pub enum GBXClass {
    GameCtnReplayRecord(GameCtnReplayRecord),
}

/// The reasons for which a GameBox file is refused.
#[derive(Debug)]
pub enum GBXError {
    /// The file does not start with `GBX`.
    MissingMagic,
    /// Only version 6 is read.
    UnsupportedVersion(u16),
    /// The body could not be decompressed.
    DecompressionFailed(minilzo_rs::Error),
    /// No parser is known for the class.
    UnknownChunk(u32),
    /// The zlib-compressed part of a replay decompressed to fewer than the 4 bytes of the
    /// chunk id that is read from it.
    TruncatedBody,
}

#[verifier::external_type_specification]
#[verifier::external_body]
pub struct ExLzoError(minilzo_rs::Error);

#[verifier::external_type_specification]
#[verifier::external_body]
pub struct ExLzo(minilzo_rs::LZO);

/// The bytes that a fresh zlib decompressor (`flate2::Decompress::new(true)`) yields for
/// `input` when it has all the room it needs: the whole decompressed stream, or, on data that is
/// no zlib stream, what it yields before it finds the fault.
pub uninterp spec fn zlib_inflated(input: Seq<u8>) -> Seq<u8>;

/// Makes a fresh zlib decompressor (`flate2::Decompress::new(true)`) and calls its
/// `decompress_vec` on `input` with `FlushDecompress::Finish`. Claimed: the bytes written behind
/// what `output` holds (which stays) are a prefix of what the decompressor yields for `input`,
/// as the call decompresses in order into the spare capacity only. How long that prefix is, and
/// the status that the call returns, are left unsaid: they depend on the capacity that the
/// allocator gave.
#[verifier::external_body]
fn zlib_inflate_into(input: &[u8], output: &mut Vec<u8>)
    ensures
        old(output)@.len() <= final(output)@.len() <= old(output)@.len() + zlib_inflated(input@).len(),
        final(output)@ == old(output)@ + zlib_inflated(input@).take(final(output)@.len() - old(output)@.len()),
{
    let _status = flate2::Decompress::new(true).decompress_vec(input, output, flate2::FlushDecompress::Finish);
}

/// The layout that a replay body must have to be read: the length of the map chunk at 4, and
/// after it the sizes that lead to the chunks read at the end, none of them negative.
pub open spec fn replay_record_layout(b: Seq<u8>) -> bool {
    &&& b.len() >= 8
    &&& 44 + le_u32(b, 4) <= b.len()
    &&& le_i32_nonneg(b, 36 + le_u32(b, 4))
    &&& le_i32_nonneg(b, 40 + le_u32(b, 4))
    &&& 68 + le_u32(b, 4) + le_u32(b, 40 + le_u32(b, 4)) <= b.len()
}

/// Whether a replay body has the layout that it is read by.
pub fn replay_record_layout_holds(b: &Vec<u8>) -> (r: bool)
    ensures
        r == replay_record_layout(b@),
{
    let b = b.as_slice();
    if b.len() < 8 {
        return false;
    }
    let length = read_u32_le(b, 4) as usize;
    if b.len() < 44 || length > b.len() - 44 {
        return false;
    }
    let uncompressed = read_u32_le(b, 36 + length);
    let compressed = read_u32_le(b, 40 + length);
    if uncompressed >= 0x8000_0000 || compressed >= 0x8000_0000 {
        return false;
    }
    if b.len() < 68 || (compressed as usize) > b.len() - 68 || length > b.len() - 68 - (
    compressed as usize) {
        return false;
    }
    true
}

/// The verdict on a replay body given its decompressed part `inflated`: the chunk id at its
/// start must be there; the reader then stops before the ghost data.
pub open spec fn replay_verdict(inflated: Seq<u8>) -> Result<GameCtnReplayRecord, GBXError> {
    if inflated.len() < 4 {
        Err(GBXError::TruncatedBody)
    } else {
        Err(GBXError::MissingMagic)
    }
}

/// The zlib-compressed part of a replay body: the bytes after its size fields, as many as the
/// compressed size says.
pub open spec fn replay_compressed_part(b: Seq<u8>) -> Seq<u8> {
    b.subrange(44 + le_u32(b, 4), 44 + le_u32(b, 4) + le_u32(b, 40 + le_u32(b, 4)))
}

/// The outcome of reading a replay body `b`: it never succeeds; it ends in `MissingMagic`, or in
/// `TruncatedBody`, which it always is where the zlib part of `b` yields less than a chunk id.
pub open spec fn replay_outcome(b: Seq<u8>, r: Result<GameCtnReplayRecord, GBXError>) -> bool {
    &&& (r matches Err(GBXError::TruncatedBody) || r matches Err(GBXError::MissingMagic))
    &&& (zlib_inflated(replay_compressed_part(b)).len() < 4 ==> r matches Err(GBXError::TruncatedBody))
}

/// The zlib-compressed part of a replay body.
pub fn replay_compressed_slice(b: &[u8]) -> (r: &[u8])
    requires
        replay_record_layout(b@),
    ensures
        r@ == replay_compressed_part(b@),
{
    proof {
        vstd::slice::axiom_spec_len(b);
    }
    let length = read_u32_le(b, 4) as usize;
    let compressed_size = read_u32_le(b, 40 + length) as usize;
    &b[44 + length..44 + length + compressed_size]
}

impl GameCtnReplayRecord {
    /// The verdict on a replay body once its zlib part was decompressed into `inflated`.
    pub fn replay_body_verdict(inflated: &Vec<u8>) -> (r: Result<Self, GBXError>)
        ensures
            r == replay_verdict(inflated@),
    {
        if inflated.len() < 4 {
            Err(GBXError::TruncatedBody)
        } else {
            Err(GBXError::MissingMagic)
        }
    }

    /// Reads the chunks of a replay body: the map chunk, the header of the zlib-compressed part,
    /// which is decompressed into room for its uncompressed size, and the chunk ids that follow.
    /// The reader stops before the ghost data, so a body ends in `MissingMagic`. Where what the
    /// decompressor gave holds less than the chunk id read from it, the body ends in
    /// `TruncatedBody`: which bodies those are depends on the room the allocator gave, so they
    /// cannot be left out beforehand, but every body whose zlib part yields less than 4 bytes
    /// is one.
    pub fn try_parse(buffer: Vec<u8>) -> (r: Result<Self, GBXError>)
        requires
            replay_record_layout(buffer@),
        ensures
            replay_outcome(buffer@, r),
    {
        let b = buffer.as_slice();
        proof {
            vstd::slice::axiom_spec_len(b);
        }
        let length = read_u32_le(b, 4) as usize;
        let uncompressed_size = read_u32_le(b, 36 + length) as usize;
        let mut body: Vec<u8> = Vec::with_capacity(uncompressed_size);
        let compressed = replay_compressed_slice(b);
        zlib_inflate_into(compressed, &mut body);
        Self::replay_body_verdict(&body)
    }
}

/// What parsing a body of the class may give.
pub open spec fn class_parse_outcome(class_id: u32, body: Seq<u8>, r: Result<GBXClass, GBXError>) -> bool {
    if class_id == REPLAY_RECORD_CLASS {
        &&& (r matches Err(GBXError::TruncatedBody) || r matches Err(GBXError::MissingMagic))
        &&& (zlib_inflated(replay_compressed_part(body)).len() < 4 ==> r matches Err(GBXError::TruncatedBody))
    } else {
        r == Err::<GBXClass, GBXError>(GBXError::UnknownChunk(class_id))
    }
}

impl ChunkId {
    pub fn new(id: u32) -> (r: Self)
        ensures
            r.0 == id,
    {
        ChunkId(id)
    }

    /// Parses a body of this class; only replays have a parser.
    pub fn try_parse(&self, buffer: Vec<u8>) -> (r: Result<GBXClass, GBXError>)
        requires
            self.0 == REPLAY_RECORD_CLASS ==> replay_record_layout(buffer@),
        ensures
            class_parse_outcome(self.0, buffer@, r),
    {
        if self.0 == REPLAY_RECORD_CLASS {
            match GameCtnReplayRecord::try_parse(buffer) {
                Ok(class) => Ok(GBXClass::GameCtnReplayRecord(class)),
                Err(error) => Err(error),
            }
        } else {
            Err(GBXError::UnknownChunk(self.0))
        }
    }
}

/// What parsing a decompressed body may give: `None` where a replay body lacks the layout that
/// it is read by.
pub open spec fn parse_body_outcome(class_id: u32, body: Seq<u8>, r: Option<Result<GBXClass, GBXError>>) -> bool {
    if class_id == REPLAY_RECORD_CLASS && !replay_record_layout(body) {
        r is None
    } else {
        r matches Some(x) && class_parse_outcome(class_id, body, x)
    }
}

/// Parses a decompressed body of the class; `None` where a replay body lacks the layout that
/// it is read by.
pub fn parse_body(class_id: ChunkId, body: Vec<u8>) -> (r: Option<Result<GBXClass, GBXError>>)
    ensures
        parse_body_outcome(class_id.0, body@, r),
{
    if class_id.0 == REPLAY_RECORD_CLASS && !replay_record_layout_holds(&body) {
        return None;
    }
    Some(class_id.try_parse(body))
}

/// The entry `k` of the header.
pub open spec fn header_entry_at(b: Seq<u8>, k: int) -> HeaderEntry {
    HeaderEntry {
        chunk_id: ChunkId(le_u32(b, 21 + 8 * k) as u32),
        chunk_size: ChunkSize(le_u32(b, 25 + 8 * k) as u32),
    }
}

/// The `count` entries of the header, one (chunk id, chunk size) pair each 8 bytes from byte 21.
pub fn read_header_entries(buffer: &[u8], count: u32) -> (r: Vec<HeaderEntry>)
    requires
        21 + 8 * count <= buffer@.len(),
        count > 0 ==> 8 * count + 21 <= u32::MAX,
    ensures
        r@.len() == count,
        forall|k: int| 0 <= k < count ==> #[trigger] r@[k] == header_entry_at(buffer@, k),
{
    let mut entries: Vec<HeaderEntry> = Vec::new();
    let mut num_entry: u32 = 0;
    while num_entry < count
        invariant
            num_entry <= count,
            21 + 8 * count <= buffer@.len(),
            count > 0 ==> 8 * count + 21 <= u32::MAX,
            entries@.len() == num_entry,
            forall|k: int| 0 <= k < num_entry ==> #[trigger] entries@[k] == header_entry_at(buffer@, k),
        decreases count - num_entry,
    {
        let cur_buf_pos = (num_entry * 8 + 21) as usize;
        let id = read_u32_le(buffer, cur_buf_pos);
        let size = read_u32_le(buffer, cur_buf_pos + 4);
        entries.push(HeaderEntry { chunk_id: ChunkId::new(id), chunk_size: ChunkSize(size) });
        num_entry = num_entry + 1;
    }
    entries
}

/// The file starts with `GBX`.
pub open spec fn has_magic(b: Seq<u8>) -> bool {
    b[0] == 71 && b[1] == 66 && b[2] == 88
}

/// The user data size of a version 6 file.
pub open spec fn user_data_size(b: Seq<u8>) -> int {
    le_u32(b, 13)
}

/// The compressed body of a version 6 file.
pub open spec fn compressed_body(b: Seq<u8>) -> Seq<u8> {
    b.subrange(33 + user_data_size(b), 33 + user_data_size(b) + le_u32(b, 29 + user_data_size(b)))
}

/// The size of the decompressed body of a version 6 file.
pub open spec fn uncompressed_size(b: Seq<u8>) -> int {
    le_u32(b, 25 + user_data_size(b))
}

/// The layout that a version 6 file must have to be read: the header fields, the header
/// entries and the compressed body lie within the file.
pub open spec fn v6_layout(b: Seq<u8>) -> bool {
    &&& b.len() >= 21
    &&& 21 + 8 * le_u32(b, 17) <= b.len()
    &&& le_u32(b, 17) > 0 ==> 8 * le_u32(b, 17) + 21 <= u32::MAX
    &&& 33 + user_data_size(b) <= b.len()
    &&& 33 + user_data_size(b) + le_u32(b, 29 + user_data_size(b)) <= b.len()
    &&& uncompressed_size(b) <= isize::MAX
}

/// The layout that a file must have to be read up to its verdict.
pub open spec fn gbx_layout(b: Seq<u8>) -> bool {
    &&& b.len() >= 3
    &&& has_magic(b) ==> b.len() >= 5
    &&& has_magic(b) && le_u16(b, 3) == 6 ==> v6_layout(b)
}

/// Whether a file has the layout that it is read by.
pub fn gbx_layout_holds(b: &[u8]) -> (r: bool)
    ensures
        r == gbx_layout(b@),
{
    let n = b.len();
    if n < 3 {
        return false;
    }
    if !(b[0] == 71 && b[1] == 66 && b[2] == 88) {
        return true;
    }
    if n < 5 {
        return false;
    }
    if read_u16_le(b, 3) != 6 {
        return true;
    }
    if n < 21 {
        return false;
    }
    let count = read_u32_le(b, 17) as usize;
    if count > (n - 21) / 8 {
        return false;
    }
    if count > 0 && count > (0xFFFF_FFFF - 21) / 8 {
        return false;
    }
    let uds = read_u32_le(b, 13) as usize;
    if n < 33 || uds > n - 33 {
        return false;
    }
    let compressed = read_u32_le(b, 29 + uds) as usize;
    if compressed > n - 33 - uds {
        return false;
    }
    let uncompressed = read_u32_le(b, 25 + uds);
    if uncompressed as usize > isize::MAX as usize {
        return false;
    }
    true
}

/// The miniLZO (LZO1X) decompression of `src` into `dst_len` bytes, or `None` where it fails.
pub uninterp spec fn lzo1x_decompressed(src: Seq<u8>, dst_len: usize) -> Option<Seq<u8>>;

/// Calls `minilzo_rs::LZO::init`, which checks that the linked miniLZO fits this build. Nothing
/// is claimed of its outcome.
#[verifier::external_body]
fn lzo_init() -> (r: Result<minilzo_rs::LZO, minilzo_rs::Error>) {
    minilzo_rs::LZO::init()
}

/// Calls `minilzo_rs::LZO::decompress_safe`. Claimed: the outcome depends on the input and the
/// output length alone (the instance's work memory is not read), and a decompressed body has
/// exactly `dst_len` bytes. Which error comes back on a failure is left unsaid.
#[verifier::external_body]
fn lzo_decompress_safe(lzo: &minilzo_rs::LZO, src: &[u8], dst_len: usize) -> (r: Result<
    Vec<u8>,
    minilzo_rs::Error,
>)
    requires
        dst_len <= isize::MAX,
    ensures
        match r {
            Ok(v) => lzo1x_decompressed(src@, dst_len) == Some(v@) && v@.len() == dst_len,
            Err(_) => lzo1x_decompressed(src@, dst_len) is None,
        },
{
    lzo.decompress_safe(src, dst_len)
}

/// Decompresses and parses the body of a version 6 file, given the outcome of starting the
/// decompressor: a failed start or a failed decompression is a failed decompression; `None`
/// where the decompressed body of a replay lacks the layout that it is read by.
pub fn parse_v6_body(lzo: Result<minilzo_rs::LZO, minilzo_rs::Error>, buffer: &[u8]) -> (r: Option<
    Result<GBXClass, GBXError>,
>)
    requires
        has_magic(buffer@),
        buffer@.len() >= 5,
        le_u16(buffer@, 3) == 6,
        v6_layout(buffer@),
    ensures
        match lzo {
            Err(e) => r == Some(Err::<GBXClass, GBXError>(GBXError::DecompressionFailed(e))),
            Ok(_) => match lzo1x_decompressed(
                compressed_body(buffer@),
                uncompressed_size(buffer@) as usize,
            ) {
                None => r matches Some(Err(GBXError::DecompressionFailed(_))),
                Some(body) => parse_body_outcome(le_u32(buffer@, 9) as u32, body, r),
            },
        },
{
    proof {
        vstd::slice::axiom_spec_len(buffer);
    }
    let lzo = match lzo {
        Ok(lzo) => lzo,
        Err(err) => {
            return Some(Err(GBXError::DecompressionFailed(err)));
        },
    };
    let class_id = ChunkId::new(read_u32_le(buffer, 9));
    let user_data_size = read_u32_le(buffer, 13) as usize;
    let uncompressed_size = read_u32_le(buffer, 25 + user_data_size) as usize;
    let compressed_size = read_u32_le(buffer, 29 + user_data_size) as usize;
    let compressed = &buffer[33 + user_data_size..33 + user_data_size + compressed_size];
    match lzo_decompress_safe(&lzo, compressed, uncompressed_size) {
        Ok(body) => parse_body(class_id, body),
        Err(err) => Some(Err(GBXError::DecompressionFailed(err))),
    }
}

/// Parses a GameBox file: its magic, its version (6 only), its header and its LZO-compressed
/// body, which the parser of its class reads. `None` where the decompressed body of a replay
/// lacks the layout that it is read by. Whether the decompressor starts is up to the linked
/// miniLZO; if it does not, the decompression fails.
pub fn try_parse_buffer(buffer: &[u8]) -> (r: Option<Result<GBXClass, GBXError>>)
    requires
        gbx_layout(buffer@),
    ensures
        !has_magic(buffer@) ==> r == Some(Err::<GBXClass, GBXError>(GBXError::MissingMagic)),
        has_magic(buffer@) && le_u16(buffer@, 3) != 6 ==> r == Some(
            Err::<GBXClass, GBXError>(GBXError::UnsupportedVersion(le_u16(buffer@, 3) as u16)),
        ),
        has_magic(buffer@) && le_u16(buffer@, 3) == 6 ==> match lzo1x_decompressed(
            compressed_body(buffer@),
            uncompressed_size(buffer@) as usize,
        ) {
            None => r matches Some(Err(GBXError::DecompressionFailed(_))),
            Some(body) => r matches Some(Err(GBXError::DecompressionFailed(_))) || parse_body_outcome(
                le_u32(buffer@, 9) as u32,
                body,
                r,
            ),
        },
{
    if !(buffer[0] == 71 && buffer[1] == 66 && buffer[2] == 88) {
        return Some(Err(GBXError::MissingMagic));
    }
    let mut reader = GameboxReader::new(&buffer[3..buffer.len()]);
    let version = reader.parse_u16();
    if version != 6 {
        return Some(Err(GBXError::UnsupportedVersion(version)));
    }
    // The header entries are read, so they must lie within the file, but nothing uses them yet.
    let num_header_chunks = read_u32_le(buffer, 17);
    let _header_entries = read_header_entries(buffer, num_header_chunks);
    parse_v6_body(lzo_init(), buffer)
}

} // verus!
