//! GCR nibble encoding of DOS 3.3 disk images (16 sectors, 6-and-2).
use vstd::prelude::*;

verus! {

pub const NIBBLE_WRITE_TABLE: [u8; 64] = [
    0x96, 0x97, 0x9A, 0x9B, 0x9D, 0x9E, 0x9F, 0xA6, 0xA7, 0xAB, 0xAC, 0xAD, 0xAE, 0xAF, 0xB2, 0xB3,
    0xB4, 0xB5, 0xB6, 0xB7, 0xB9, 0xBA, 0xBB, 0xBC, 0xBD, 0xBE, 0xBF, 0xCB, 0xCD, 0xCE, 0xCF, 0xD3,
    0xD6, 0xD7, 0xD9, 0xDA, 0xDB, 0xDC, 0xDD, 0xDE, 0xDF, 0xE5, 0xE6, 0xE7, 0xE9, 0xEA, 0xEB, 0xEC,
    0xED, 0xEE, 0xEF, 0xF2, 0xF3, 0xF4, 0xF5, 0xF6, 0xF7, 0xF9, 0xFA, 0xFB, 0xFC, 0xFD, 0xFE, 0xFF,
];

// DOS 3.3 physical-to-logical sector interleave table
pub const PHYS_TO_LOGICAL: [usize; 16] = [0, 7, 14, 6, 13, 5, 12, 4, 11, 3, 10, 2, 9, 1, 8, 15];

/// Number of bytes a track buffer can hold.
pub const TRACK_CAPACITY: usize = 6656;

/// Bytes per sector and sectors per track of a DOS 3.3 image.
pub const SECTOR_BYTES: usize = 256;
pub const SECTORS_PER_TRACK: usize = 16;

/// Tracks in a DOS 3.3 image, and the size in bytes of the whole image.
pub const DSK_TRACKS: usize = 35;
pub const DSK_BYTES: usize = 143360;

pub struct TrackData {
    pub raw_bytes: Vec<u8>,
    pub length: usize,
    pub read_length: usize,
}

/// A track buffer as plain values.
pub struct TrackState {
    pub raw: Seq<u8>,
    pub length: usize,
    pub read_length: usize,
}

impl View for TrackData {
    type V = TrackState;

    open spec fn view(&self) -> TrackState {
        TrackState { raw: self.raw_bytes@, length: self.length, read_length: self.read_length }
    }
}

impl TrackState {
    pub open spec fn wf(self) -> bool {
        self.raw.len() == TRACK_CAPACITY && self.length <= TRACK_CAPACITY
    }

    pub open spec fn bytes(self) -> Seq<u8> {
        self.raw.take(self.length as int)
    }
}

/// `n` zero bytes.
pub open spec fn zero_bytes(n: nat) -> Seq<u8> {
    Seq::new(n, |i: int| 0u8)
}

/// A track buffer with nothing on it.
pub open spec fn unformatted_track() -> TrackState {
    TrackState { raw: zero_bytes(TRACK_CAPACITY as nat), length: 0, read_length: 0 }
}

/// Track `t` of a disk image as `nibblize_dsk` lays it out: the nibbles of
/// `track_image` fill the whole buffer, and the read length is the track
/// length.
pub open spec fn nibblized_track(disk: Seq<u8>, t: int) -> TrackState {
    TrackState { raw: track_image(disk, t), length: TRACK_CAPACITY, read_length: TRACK_CAPACITY }
}

impl TrackData {
    /// The buffer has its full capacity and the used length fits in it.
    pub open spec fn wf(self) -> bool {
        self.raw_bytes@.len() == TRACK_CAPACITY && self.length <= TRACK_CAPACITY
    }

    /// The nibbles on the track.
    pub open spec fn bytes(self) -> Seq<u8> {
        self.raw_bytes@.take(self.length as int)
    }

    pub fn new() -> (r: Self)
        ensures
            r.wf(),
            r@ == unformatted_track(),
    {
        let raw_bytes = vec![0u8; TRACK_CAPACITY];
        proof {
            assert(raw_bytes@ =~= zero_bytes(TRACK_CAPACITY as nat));
        }
        Self { raw_bytes, length: 0, read_length: 0 }
    }

    /// Appends a nibble; a full track ignores it.
    pub fn push(&mut self, val: u8)
        requires
            old(self).wf(),
        ensures
            final(self).wf(),
            final(self).read_length == old(self).read_length,
            old(self).length < TRACK_CAPACITY ==> final(self).raw_bytes@ == old(self).raw_bytes@.update(old(self).length as int, val)
                && final(self).length == old(self).length + 1,
            old(self).length >= TRACK_CAPACITY ==> *final(self) == *old(self),
    {
        if self.length < self.raw_bytes.len() {
            self.raw_bytes.set(self.length, val);
            self.length += 1;
        }
    }
}

/// `n` self-sync bytes.
pub open spec fn sync_bytes(n: nat) -> Seq<u8> {
    Seq::new(n, |i: int| 0xFFu8)
}

/// 4-and-4 encoding of an address-field byte: odd bits, then even bits, each
/// interleaved with ones.
pub open spec fn spec_encode_4x4(v: u8) -> Seq<u8> {
    seq![(v >> 1) | 0xAA, v | 0xAA]
}

/// Exchanges the two bits of a 2-bit group.
pub open spec fn spec_swap2(b: u8) -> u8 {
    ((b & 1) << 1) | ((b & 2) >> 1)
}

/// Secondary nibble `k` of the 6-and-2 encoding: the swapped low bit pairs of
/// bytes `k`, `k + 86` and `k + 172` (when that exists).
pub open spec fn secondary_nibble(data: Seq<u8>, k: int) -> u8 {
    let b0 = spec_swap2(data[k] & 0x03);
    let b1 = spec_swap2(data[k + 86] & 0x03);
    let b2 = if k + 172 < 256 { spec_swap2(data[k + 172] & 0x03) } else { 0 };
    (b2 << 4) | (b1 << 2) | b0
}

/// The 342 six-bit values of a sector: 86 secondary nibbles, then the high six
/// bits of each of the 256 bytes.
pub open spec fn six_bit_values(data: Seq<u8>) -> Seq<u8> {
    Seq::new(342, |j: int| if j < 86 { secondary_nibble(data, j) & 0x3F } else { data[j - 86] >> 2 })
}

/// The value a six-bit value is XORed with before it is written: the previous
/// one, or zero for the first.
pub open spec fn previous_value(values: Seq<u8>, j: int) -> u8 {
    if j == 0 { 0 } else { values[j - 1] }
}

pub open spec fn disk_nibble(v: u8) -> u8 {
    NIBBLE_WRITE_TABLE[v as int]
}

/// 6-and-2 encoded data field contents: each six-bit value XORed with the
/// previous one and mapped to a disk nibble, then the checksum nibble.
pub open spec fn spec_encode_6and2(data: Seq<u8>) -> Seq<u8> {
    let v = six_bit_values(data);
    Seq::new(343, |j: int| if j < 342 { disk_nibble(v[j] ^ previous_value(v, j)) } else { disk_nibble(v[341]) })
}

/// The 256 bytes of a logical sector in a disk image.
pub open spec fn sector_data(disk: Seq<u8>, track: int, logical: int) -> Seq<u8> {
    disk.subrange(track * 4096 + logical * 256, track * 4096 + logical * 256 + 256)
}

/// The physical sector `phys` of a track: address field (volume 254, track,
/// sector, checksum), a gap of 12 sync bytes, the data field of the logical
/// sector that the interleave puts there, and a gap of 20 sync bytes.
pub open spec fn sector_block(disk: Seq<u8>, track: int, phys: int) -> Seq<u8> {
    let data = sector_data(disk, track, PHYS_TO_LOGICAL[phys] as int);
    let chk = 254u8 ^ (track as u8) ^ (phys as u8);
    seq![0xD5u8, 0xAA, 0x96] + spec_encode_4x4(254) + spec_encode_4x4(track as u8) + spec_encode_4x4(phys as u8)
        + spec_encode_4x4(chk) + seq![0xDEu8, 0xAA, 0xEB] + sync_bytes(12) + seq![0xD5u8, 0xAA, 0xAD]
        + spec_encode_6and2(data) + seq![0xDEu8, 0xAA, 0xEB] + sync_bytes(20)
}

/// The first `n` physical sectors of a track, in order.
pub open spec fn sector_blocks(disk: Seq<u8>, track: int, n: nat) -> Seq<u8>
    decreases n,
{
    if n == 0 { Seq::empty() } else { sector_blocks(disk, track, (n - 1) as nat) + sector_block(disk, track, n - 1) }
}

/// A nibblized track: a lead-in of 128 sync bytes, the 16 physical sectors,
/// and sync bytes up to the full track buffer.
pub open spec fn track_image(disk: Seq<u8>, track: int) -> Seq<u8> {
    sync_bytes(128) + sector_blocks(disk, track, 16) + sync_bytes(208)
}

proof fn lemma_six_bit_xor(a: u8, b: u8)
    by (bit_vector)
    requires
        a < 64,
        b < 64,
    ensures
        a ^ b < 64,
{
}

proof fn lemma_six_bit_parts(x: u8, y: u8)
    by (bit_vector)
    ensures
        x & 0x3F < 64,
        y >> 2 < 64,
{
}

fn swap2(b: u8) -> (r: u8)
    ensures
        r == spec_swap2(b),
{
    ((b & 0x01) << 1) | ((b & 0x02) >> 1)
}

fn encode4x4(val: u8) -> (r: (u8, u8))
    ensures
        seq![r.0, r.1] == spec_encode_4x4(val),
{
    ((val >> 1) | 0xAA, val | 0xAA)
}

/// Appends `n` sync bytes.
fn push_sync(out: &mut Vec<u8>, n: usize)
    ensures
        final(out)@ == old(out)@ + sync_bytes(n as nat),
{
    let ghost start = out@;
    for i in 0..n
        invariant
            out@ == start + sync_bytes(i as nat),
    {
        out.push(0xFF);
        proof {
            assert(out@ =~= start + sync_bytes((i + 1) as nat));
        }
    }
}

/// 6-and-2 encoding of the 256 bytes of `disk` from `off`, per "Beneath Apple
/// DOS" chapter 3. The bit pairs of the secondary buffer are swapped so that
/// the Boot ROM's LSR/ROL decoding sequence restores them.
fn encode_sector(disk: &[u8], off: usize) -> (r: Vec<u8>)
    requires
        off + 256 <= disk@.len(),
    ensures
        r@ == spec_encode_6and2(disk@.subrange(off as int, off + 256)),
{
    let ghost data = disk@.subrange(off as int, off + 256);
    let ghost values = six_bit_values(data);
    let mut snib: Vec<u8> = Vec::new();
    for k in 0..86
        invariant
            off + 256 <= disk.len(),
            data == disk@.subrange(off as int, off + 256),
            snib@.len() == k,
            forall|j: int| 0 <= j < k ==> snib@[j] == secondary_nibble(data, j),
    {
        let b0 = swap2(disk[off + k] & 0x03);
        let b1 = swap2(disk[off + k + 86] & 0x03);
        let b2 = if k + 172 < 256 { swap2(disk[off + k + 172] & 0x03) } else { 0 };
        snib.push((b2 << 4) | (b1 << 2) | b0);
    }
    let ghost encoded = spec_encode_6and2(data);
    let mut out: Vec<u8> = Vec::new();
    let mut last_val: u8 = 0;
    for i in 0..86
        invariant
            off + 256 <= disk.len(),
            data == disk@.subrange(off as int, off + 256),
            values == six_bit_values(data),
            encoded == spec_encode_6and2(data),
            snib@.len() == 86,
            forall|j: int| 0 <= j < 86 ==> snib@[j] == secondary_nibble(data, j),
            out@.len() == i,
            forall|j: int| 0 <= j < i ==> out@[j] == encoded[j],
            last_val == previous_value(values, i as int),
            last_val < 64,
    {
        let val6 = snib[i] & 0x3F;
        proof {
            lemma_six_bit_parts(snib@[i as int], 0);
            lemma_six_bit_xor(val6, last_val);
        }
        out.push(NIBBLE_WRITE_TABLE[(val6 ^ last_val) as usize]);
        last_val = val6;
    }
    for i in 0..256
        invariant
            off + 256 <= disk.len(),
            data == disk@.subrange(off as int, off + 256),
            values == six_bit_values(data),
            encoded == spec_encode_6and2(data),
            out@.len() == 86 + i,
            forall|j: int| 0 <= j < 86 + i ==> out@[j] == encoded[j],
            last_val == previous_value(values, 86 + i),
            last_val < 64,
    {
        let val6 = disk[off + i] >> 2;
        proof {
            lemma_six_bit_parts(0, disk@[off + i]);
            lemma_six_bit_xor(val6, last_val);
        }
        out.push(NIBBLE_WRITE_TABLE[(val6 ^ last_val) as usize]);
        last_val = val6;
    }
    // final checksum nibble
    out.push(NIBBLE_WRITE_TABLE[last_val as usize]);
    proof {
        assert(out@ =~= encoded);
    }
    out
}

/// Every sector block is 395 bytes long.
pub proof fn lemma_sector_block_len(disk: Seq<u8>, track: int, phys: int)
    ensures
        sector_block(disk, track, phys).len() == 395,
{
}

/// The first `n` sector blocks take 395 bytes each.
pub proof fn lemma_sector_blocks_len(disk: Seq<u8>, track: int, n: nat)
    ensures
        sector_blocks(disk, track, n).len() == 395 * n,
    decreases n,
{
    if n > 0 {
        lemma_sector_blocks_len(disk, track, (n - 1) as nat);
        lemma_sector_block_len(disk, track, n - 1);
    }
}

/// The interleave maps physical sectors to sectors 0-15.
pub proof fn lemma_interleave_in_range()
    ensures
        forall|i: int| 0 <= i < 16 ==> #[trigger] PHYS_TO_LOGICAL[i] < 16,
{
    assert(PHYS_TO_LOGICAL@ == seq![0usize, 7, 14, 6, 13, 5, 12, 4, 11, 3, 10, 2, 9, 1, 8, 15]);
}

/// Appends all of `bytes` to a vector.
fn extend(out: &mut Vec<u8>, bytes: &Vec<u8>)
    ensures
        final(out)@ == old(out)@ + bytes@,
{
    let ghost start = out@;
    for i in 0..bytes.len()
        invariant
            out@ == start + bytes@.take(i as int),
    {
        out.push(bytes[i]);
        proof {
            assert(out@ =~= start + bytes@.take(i + 1));
        }
    }
    proof {
        assert(bytes@.take(bytes@.len() as int) =~= bytes@);
    }
}

/// The nibbles of one physical sector of a track.
fn build_sector_block(disk_data: &[u8], track_num: usize, phys_pos: usize) -> (r: Vec<u8>)
    requires
        track_num < DSK_TRACKS,
        phys_pos < SECTORS_PER_TRACK,
        disk_data.len() >= DSK_BYTES,
    ensures
        r@ == sector_block(disk_data@, track_num as int, phys_pos as int),
{
    proof {
        lemma_interleave_in_range();
    }
    let logical_sector = PHYS_TO_LOGICAL[phys_pos];
    let track_offset = track_num * 16 * 256;
    let mut out: Vec<u8> = Vec::new();

    // Address Field
    out.push(0xD5);
    out.push(0xAA);
    out.push(0x96);
    let vol: u8 = 254;
    let trk: u8 = track_num as u8;
    // sec = physical sector number (what RWTS searches for)
    let sec: u8 = phys_pos as u8;
    let chk: u8 = vol ^ trk ^ sec;
    let (v1, v2) = encode4x4(vol);
    out.push(v1);
    out.push(v2);
    let (t1, t2) = encode4x4(trk);
    out.push(t1);
    out.push(t2);
    let (s1, s2) = encode4x4(sec);
    out.push(s1);
    out.push(s2);
    let (c1, c2) = encode4x4(chk);
    out.push(c1);
    out.push(c2);
    out.push(0xDE);
    out.push(0xAA);
    out.push(0xEB);
    let ghost address_field = out@;

    // Inter-field gap: 12 self-sync bytes
    push_sync(&mut out, 12);

    // Data Field
    out.push(0xD5);
    out.push(0xAA);
    out.push(0xAD);
    let ghost before_data = out@;
    let data = encode_sector(disk_data, track_offset + logical_sector * 256);
    extend(&mut out, &data);
    out.push(0xDE);
    out.push(0xAA);
    out.push(0xEB);

    // Inter-sector gap: 20 self-sync bytes
    push_sync(&mut out, 20);
    proof {
        let d = disk_data@;
        assert(address_field =~= seq![0xD5u8, 0xAA, 0x96] + spec_encode_4x4(254) + spec_encode_4x4(track_num as u8)
            + spec_encode_4x4(phys_pos as u8) + spec_encode_4x4(254u8 ^ (track_num as u8) ^ (phys_pos as u8))
            + seq![0xDEu8, 0xAA, 0xEB]);
        assert(data@ == spec_encode_6and2(sector_data(d, track_num as int, PHYS_TO_LOGICAL[phys_pos as int] as int)));
        assert(out@ =~= sector_block(d, track_num as int, phys_pos as int));
    }
    out
}

/// Appends all of `bytes` to a track that has room for them.
fn append_to_track(track: &mut TrackData, bytes: &Vec<u8>)
    requires
        old(track).wf(),
        old(track).length + bytes@.len() <= TRACK_CAPACITY,
    ensures
        final(track).wf(),
        final(track).length == old(track).length + bytes@.len(),
        final(track).bytes() == old(track).bytes() + bytes@,
        final(track).read_length == old(track).read_length,
        final(track).raw_bytes@ == old(track).bytes() + bytes@ + old(track).raw_bytes@.skip(final(track).length as int),
{
    let ghost start = track.bytes();
    let ghost start_raw = track.raw_bytes@;
    for i in 0..bytes.len()
        invariant
            track.wf(),
            track.length == start.len() + i,
            start.len() + bytes@.len() <= TRACK_CAPACITY,
            track.bytes() == start + bytes@.take(i as int),
            track.read_length == old(track).read_length,
            start_raw == old(track).raw_bytes@,
            start_raw.len() == TRACK_CAPACITY,
            start == old(track).bytes(),
            track.raw_bytes@ == track.bytes() + start_raw.skip(track.length as int),
    {
        let ghost prev = track.bytes();
        let ghost prev_raw = track.raw_bytes@;
        let ghost prev_len = track.length as int;
        track.push(bytes[i]);
        proof {
            assert(track.bytes() =~= prev.push(bytes@[i as int]));
            assert(track.bytes() =~= start + bytes@.take(i + 1));
            assert forall|j: int| 0 <= j < TRACK_CAPACITY implies #[trigger] track.raw_bytes@[j] == (track.bytes() + start_raw.skip(track.length as int))[j] by {
                assert(prev_raw[j] == (prev + start_raw.skip(prev_len))[j]);
                if j < prev_len {
                    assert(track.raw_bytes@[j] == prev_raw[j]);
                    assert(track.bytes()[j] == prev[j]);
                } else if j == prev_len {
                    assert(track.raw_bytes@[j] == bytes@[i as int]);
                } else {
                    assert(track.raw_bytes@[j] == prev_raw[j]);
                    assert(prev_raw[j] == start_raw[j]);
                }
            }
            assert(track.raw_bytes@ =~= track.bytes() + start_raw.skip(track.length as int));
        }
    }
    proof {
        assert(bytes@.take(bytes@.len() as int) =~= bytes@);
    }
}

/// Converts a 140KB DOS 3.3 image into 35 nibblized tracks.
pub fn nibblize_dsk(disk_data: &[u8]) -> (r: Vec<TrackData>)
    requires
        disk_data.len() >= DSK_BYTES,
    ensures
        r@.len() == DSK_TRACKS,
        forall|t: int| 0 <= t < DSK_TRACKS ==> (#[trigger] r@[t]).wf() && r@[t]@ == nibblized_track(disk_data@, t),
{
    let mut tracks: Vec<TrackData> = Vec::new();
    for track_num in 0..35
        invariant
            disk_data.len() >= DSK_BYTES,
            tracks@.len() == track_num,
            forall|t: int| 0 <= t < track_num ==> (#[trigger] tracks@[t]).wf() && tracks@[t]@ == nibblized_track(disk_data@, t),
    {
        let mut track_out = TrackData::new();
        // Lead-in: 128 self-sync bytes
        let mut gap: Vec<u8> = Vec::new();
        push_sync(&mut gap, 128);
        append_to_track(&mut track_out, &gap);
        proof {
            assert(track_out.bytes() =~= sync_bytes(128) + sector_blocks(disk_data@, track_num as int, 0));
            assert(track_out.raw_bytes@ =~= track_out.bytes() + zero_bytes((TRACK_CAPACITY - track_out.length) as nat));
        }
        for phys_pos in 0..16
            invariant
                disk_data.len() >= DSK_BYTES,
                track_num < DSK_TRACKS,
                track_out.wf(),
                track_out.read_length == 0,
                track_out.length == 128 + 395 * phys_pos,
                track_out.bytes() == sync_bytes(128) + sector_blocks(disk_data@, track_num as int, phys_pos as nat),
                track_out.raw_bytes@ == track_out.bytes() + zero_bytes((TRACK_CAPACITY - track_out.length) as nat),
        {
            let block = build_sector_block(disk_data, track_num, phys_pos);
            proof {
                lemma_sector_block_len(disk_data@, track_num as int, phys_pos as int);
            }
            append_to_track(&mut track_out, &block);
            proof {
                assert(track_out.bytes() =~= sync_bytes(128) + sector_blocks(disk_data@, track_num as int, (phys_pos + 1) as nat));
                assert(track_out.raw_bytes@ =~= track_out.bytes() + zero_bytes((TRACK_CAPACITY - track_out.length) as nat));
            }
        }
        proof {
            lemma_sector_blocks_len(disk_data@, track_num as int, 16);
        }
        // Sync bytes up to the full track buffer
        let mut pad: Vec<u8> = Vec::new();
        push_sync(&mut pad, 208);
        append_to_track(&mut track_out, &pad);
        track_out.read_length = track_out.length;
        proof {
            assert(track_out.raw_bytes@ =~= track_out.bytes());
            assert(track_out@ =~= nibblized_track(disk_data@, track_num as int));
        }
        tracks.push(track_out);
    }
    tracks
}


// ---------------------------------------------------------------------------
// Reading tracks back into a disk image.

/// Byte `k` of a circular track.
pub open spec fn track_byte(data: Seq<u8>, k: int) -> u8 {
    data[k % (data.len() as int)]
}

/// `D5 AA <third>` starts at position `k` of the circular track.
pub open spec fn prologue_at(data: Seq<u8>, k: int, third: u8) -> bool {
    track_byte(data, k) == 0xD5 && track_byte(data, k + 1) == 0xAA && track_byte(data, k + 2) == third
}

/// Inverse of the 4-and-4 encoding.
pub open spec fn spec_decode_4x4(v1: u8, v2: u8) -> u8 {
    ((v1 & 0x55) << 1) | (v2 & 0x55)
}

/// Index of `x` among the first `n` entries of the write table (the last
/// such index), or $FF when it is not there.
pub open spec fn table_lookup(x: u8, n: nat) -> u8
    decreases n,
{
    if n == 0 {
        0xFF
    } else if NIBBLE_WRITE_TABLE[n - 1] == x {
        (n - 1) as u8
    } else {
        table_lookup(x, (n - 1) as nat)
    }
}

/// The six-bit value a disk nibble stands for, or $FF for a byte that is no
/// valid data nibble.
pub open spec fn nibble_value(x: u8) -> u8 {
    table_lookup(x, 64)
}

/// First position in `[from, from + count)` where a data prologue `D5 AA AD` starts.
pub open spec fn find_data_prologue(data: Seq<u8>, from: int, count: nat) -> Option<int>
    decreases count,
{
    if count == 0 {
        None
    } else if prologue_at(data, from, 0xAD) {
        Some(from)
    } else {
        find_data_prologue(data, from + 1, (count - 1) as nat)
    }
}

pub open spec fn last_value(s: Seq<u8>) -> u8 {
    if s.len() == 0 { 0 } else { s.last() }
}

/// The first `k` six-bit values of a data field starting at `start`, undoing
/// the XOR chain; `None` when one of those nibbles is not a data nibble.
pub open spec fn decode_values(data: Seq<u8>, start: int, k: nat) -> Option<Seq<u8>>
    decreases k,
{
    if k == 0 {
        Some(Seq::empty())
    } else {
        match decode_values(data, start, (k - 1) as nat) {
            None => None,
            Some(prev) => {
                let v = nibble_value(track_byte(data, start + k - 1));
                if v == 0xFF { None } else { Some(prev.push(v ^ last_value(prev))) }
            },
        }
    }
}

/// Bit pair `k / 86` of secondary nibble `k % 86`.
pub open spec fn secondary_bits(decoded: Seq<u8>, k: int) -> u8 {
    let s = decoded[k % 86];
    if k / 86 == 0 { s & 0x03 } else if k / 86 == 1 { (s >> 2) & 0x03 } else { (s >> 4) & 0x03 }
}

/// The 256 sector bytes from the 342 decoded six-bit values.
pub open spec fn assemble_sector(decoded: Seq<u8>) -> Seq<u8> {
    Seq::new(256, |k: int| (decoded[86 + k] << 2) | spec_swap2(secondary_bits(decoded, k)))
}

/// Sectors read from a track so far, indexed by physical sector number.
pub type FoundSectors = Seq<Option<Seq<u8>>>;

pub open spec fn all_found(found: FoundSectors) -> bool {
    forall|i: int| 0 <= i < 16 ==> (#[trigger] found[i]) is Some
}

/// Physical sector number in the address field starting at `i`, when its
/// checksum is right and the number is below 16.
pub open spec fn address_sector(data: Seq<u8>, i: int) -> Option<u8> {
    let vol = spec_decode_4x4(track_byte(data, i + 3), track_byte(data, i + 4));
    let trk = spec_decode_4x4(track_byte(data, i + 5), track_byte(data, i + 6));
    let sec = spec_decode_4x4(track_byte(data, i + 7), track_byte(data, i + 8));
    let chk = spec_decode_4x4(track_byte(data, i + 9), track_byte(data, i + 10));
    if (vol ^ trk ^ sec) != chk || sec >= 16 { None } else { Some(sec) }
}

/// One step of the track scan at position `i`: the next position, the sectors
/// read, and whether this step stored a sector.
pub open spec fn scan_step(data: Seq<u8>, i: int, found: FoundSectors) -> (int, FoundSectors, bool) {
    if !prologue_at(data, i, 0x96) {
        (i + 1, found, false)
    } else {
        match address_sector(data, i) {
            None => (i + 1, found, false),
            Some(sec) => {
                if found[sec as int] is Some {
                    (i + 14, found, false)
                } else {
                    match find_data_prologue(data, i + 14, 60) {
                        None => (i + 14, found, false),
                        Some(j) => {
                            let d = j + 3;
                            match decode_values(data, d, 342) {
                                None => (d, found, false),
                                Some(vals) => {
                                    let checksum = nibble_value(track_byte(data, d + 342));
                                    if checksum == 0xFF || checksum != last_value(vals) {
                                        (d, found, false)
                                    } else {
                                        (d + 343, found.update(sec as int, Some(assemble_sector(vals))), true)
                                    }
                                },
                            }
                        },
                    }
                }
            },
        }
    }
}

/// Scans a track from position `i` for address fields and their data fields,
/// for at most two revolutions, stopping early once all 16 sectors are read.
pub open spec fn scan_track(data: Seq<u8>, i: int, found: FoundSectors) -> FoundSectors
    decreases 2 * data.len() - i,
{
    if data.len() == 0 || i >= 2 * data.len() || i < 0 {
        found
    } else {
        let (next, f, stored) = scan_step(data, i, found);
        if stored && all_found(f) {
            f
        } else if next <= i || next >= 2 * data.len() {
            f
        } else {
            scan_track(data, next, f)
        }
    }
}

pub open spec fn no_sectors() -> FoundSectors {
    Seq::new(16, |i: int| None)
}

/// The sectors that can be read from a track.
pub open spec fn track_sectors(data: Seq<u8>) -> FoundSectors {
    scan_track(data, 0, no_sectors())
}

/// Physical position of a logical sector (the inverse of the interleave).
pub open spec fn logical_to_physical(logical: int) -> int {
    seq![0int, 13, 11, 9, 7, 5, 3, 1, 14, 12, 10, 8, 6, 4, 2, 15][logical]
}

/// Byte `pos` of the disk image read back from the tracks: the byte of the
/// sector read from its track, or zero where that sector could not be read.
pub open spec fn denibblized_byte(tracks: Seq<Seq<u8>>, pos: int) -> u8 {
    let t = pos / 4096;
    let logical = (pos % 4096) / 256;
    let phys = logical_to_physical(logical);
    if t < tracks.len() && track_sectors(tracks[t])[phys] is Some {
        track_sectors(tracks[t])[phys]->0[pos % 256]
    } else {
        0
    }
}

pub open spec fn spec_denibblize(tracks: Seq<Seq<u8>>) -> Seq<u8> {
    Seq::new(DSK_BYTES as nat, |pos: int| denibblized_byte(tracks, pos))
}

pub open spec fn track_contents(tracks: Seq<TrackData>) -> Seq<Seq<u8>> {
    Seq::new(tracks.len(), |t: int| tracks[t].bytes())
}


proof fn lemma_find_data_prologue(data: Seq<u8>, from: int, count: nat)
    ensures
        find_data_prologue(data, from, count) matches Some(j) ==> from <= j < from + count && prologue_at(data, j, 0xAD),
    decreases count,
{
    if count > 0 {
        lemma_find_data_prologue(data, from + 1, (count - 1) as nat);
    }
}

proof fn lemma_decode_values_len(data: Seq<u8>, start: int, k: nat)
    ensures
        decode_values(data, start, k) matches Some(v) ==> v.len() == k,
    decreases k,
{
    if k > 0 {
        lemma_decode_values_len(data, start, (k - 1) as nat);
    }
}

proof fn lemma_decode_values_none(data: Seq<u8>, start: int, k: nat, k2: nat)
    requires
        k <= k2,
        decode_values(data, start, k) is None,
    ensures
        decode_values(data, start, k2) is None,
    decreases k2 - k,
{
    if k < k2 {
        lemma_decode_values_none(data, start, k, (k2 - 1) as nat);
    }
}

/// Lookup table from disk nibble to six-bit value ($FF for invalid nibbles).
fn build_read_table() -> (r: Vec<u8>)
    ensures
        r@.len() == 256,
        forall|x: u8| #[trigger] r@[x as int] == nibble_value(x),
{
    let mut read_table: Vec<u8> = vec![0xFFu8; 256];
    for i in 0..64
        invariant
            read_table@.len() == 256,
            forall|x: u8| #[trigger] read_table@[x as int] == table_lookup(x, i as nat),
    {
        let val = NIBBLE_WRITE_TABLE[i];
        read_table.set(val as usize, i as u8);
        proof {
            assert forall|x: u8| #[trigger] read_table@[x as int] == table_lookup(x, (i + 1) as nat) by {
                if x != val {
                    assert(read_table@[x as int] == table_lookup(x, i as nat));
                }
            }
        }
    }
    read_table
}

fn decode4x4(v1: u8, v2: u8) -> (r: u8)
    ensures
        r == spec_decode_4x4(v1, v2),
{
    ((v1 & 0x55) << 1) | (v2 & 0x55)
}

/// Byte `k` of a non-empty circular track.
fn byte_at(track: &TrackData, k: usize) -> (r: u8)
    requires
        track.wf(),
        track.length > 0,
    ensures
        r == track_byte(track.bytes(), k as int),
{
    track.raw_bytes[k % track.length]
}

fn is_prologue(track: &TrackData, k: usize, third: u8) -> (r: bool)
    requires
        track.wf(),
        track.length > 0,
        k <= 20000,
    ensures
        r == prologue_at(track.bytes(), k as int, third),
{
    byte_at(track, k) == 0xD5 && byte_at(track, k + 1) == 0xAA && byte_at(track, k + 2) == third
}

fn find_data_field(track: &TrackData, from: usize) -> (r: Option<usize>)
    requires
        track.wf(),
        track.length > 0,
        from <= 19000,
    ensures
        r matches Some(j) ==> find_data_prologue(track.bytes(), from as int, 60) == Some(j as int) && j < from + 60,
        r is None ==> find_data_prologue(track.bytes(), from as int, 60) is None,
{
    let ghost data = track.bytes();
    let mut j = from;
    while j < from + 60
        invariant
            from <= j <= from + 60,
            from <= 19000,
            track.wf(),
            track.length > 0,
            data == track.bytes(),
            find_data_prologue(data, from as int, 60) == find_data_prologue(data, j as int, (from + 60 - j) as nat),
        decreases from + 60 - j,
    {
        if is_prologue(track, j, 0xAD) {
            return Some(j);
        }
        j += 1;
    }
    None
}

/// Decodes the 342 six-bit values of a data field starting at `start`.
fn decode_field(track: &TrackData, read_table: &Vec<u8>, start: usize) -> (r: Option<Vec<u8>>)
    requires
        track.wf(),
        track.length > 0,
        start <= 19000,
        read_table@.len() == 256,
        forall|x: u8| #[trigger] read_table@[x as int] == nibble_value(x),
    ensures
        r matches Some(v) ==> decode_values(track.bytes(), start as int, 342) == Some(v@),
        r is None ==> decode_values(track.bytes(), start as int, 342) is None,
{
    let ghost data = track.bytes();
    let mut decoded: Vec<u8> = Vec::new();
    let mut last_val: u8 = 0;
    for k in 0..342
        invariant
            track.wf(),
            track.length > 0,
            start <= 19000,
            data == track.bytes(),
            read_table@.len() == 256,
            forall|x: u8| #[trigger] read_table@[x as int] == nibble_value(x),
            decode_values(data, start as int, k as nat) == Some(decoded@),
            last_val == last_value(decoded@),
    {
        let disk_val = byte_at(track, start + k);
        let val6 = read_table[disk_val as usize];
        if val6 == 0xFF {
            proof {
                assert(decode_values(data, start as int, (k + 1) as nat) is None);
                lemma_decode_values_none(data, start as int, (k + 1) as nat, 342);
            }
            return None;
        }
        let value = val6 ^ last_val;
        decoded.push(value);
        last_val = value;
    }
    Some(decoded)
}

/// Rebuilds the 256 sector bytes from the decoded six-bit values.
fn assemble(decoded: &Vec<u8>) -> (r: Vec<u8>)
    requires
        decoded@.len() == 342,
    ensures
        r@ == assemble_sector(decoded@),
{
    let mut sector: Vec<u8> = Vec::new();
    for k in 0..256
        invariant
            decoded@.len() == 342,
            sector@.len() == k,
            forall|j: int| 0 <= j < k ==> sector@[j] == #[trigger] assemble_sector(decoded@)[j],
    {
        let primary = decoded[86 + k];
        let snib = decoded[k % 86];
        let group = k / 86;
        let b = if group == 0 {
            snib & 0x03
        } else if group == 1 {
            (snib >> 2) & 0x03
        } else {
            (snib >> 4) & 0x03
        };
        sector.push((primary << 2) | swap2(b));
    }
    proof {
        assert(sector@ =~= assemble_sector(decoded@));
    }
    sector
}

/// Sectors read so far, as executable vectors, against their model.
pub open spec fn sectors_match(found: Seq<bool>, sectors: Seq<Vec<u8>>, model: FoundSectors) -> bool {
    &&& found.len() == 16
    &&& sectors.len() == 16
    &&& model.len() == 16
    &&& forall|i: int| 0 <= i < 16 ==> (#[trigger] found[i]) == model[i] is Some
    &&& forall|i: int| 0 <= i < 16 && found[i] ==> (#[trigger] sectors[i])@ == model[i]->0
    &&& forall|i: int| 0 <= i < 16 && found[i] ==> (#[trigger] sectors[i])@.len() == 256
}

/// One step of the scan: the next position and the sector read, if any.
fn scan_step_exec(track: &TrackData, read_table: &Vec<u8>, i: usize, found: &Vec<bool>) -> (r: (usize, Option<(usize, Vec<u8>)>))
    requires
        track.wf(),
        track.length > 0,
        i < 2 * track.length,
        found@.len() == 16,
        read_table@.len() == 256,
        forall|x: u8| #[trigger] read_table@[x as int] == nibble_value(x),
    ensures
        r.0 > i,
        r.0 <= i + 420,
        forall|model: FoundSectors| model.len() == 16 && (forall|s: int| 0 <= s < 16 ==> (#[trigger] found@[s]) == model[s] is Some) ==> {
            let (next, f, stored) = scan_step(track.bytes(), i as int, model);
            &&& next == r.0
            &&& stored == r.1 is Some
            &&& (r.1 matches Some((sec, sector)) ==> sec < 16 && sector@.len() == 256 && f == model.update(sec as int, Some(sector@)))
            &&& (r.1 is None ==> f == model)
        },
{
    let ghost data = track.bytes();
    if !is_prologue(track, i, 0x96) {
        return (i + 1, None);
    }
    let vol = decode4x4(byte_at(track, i + 3), byte_at(track, i + 4));
    let trk = decode4x4(byte_at(track, i + 5), byte_at(track, i + 6));
    let sec = decode4x4(byte_at(track, i + 7), byte_at(track, i + 8));
    let chk = decode4x4(byte_at(track, i + 9), byte_at(track, i + 10));
    if (vol ^ trk ^ sec) != chk || sec >= 16 {
        return (i + 1, None);
    }
    if found[sec as usize] {
        return (i + 14, None);
    }
    let data_idx = match find_data_field(track, i + 14) {
        Some(j) => j + 3,
        None => {
            return (i + 14, None);
        },
    };
    proof {
        lemma_find_data_prologue(data, i + 14, 60);
    }
    let decoded = match decode_field(track, read_table, data_idx) {
        Some(v) => v,
        None => {
            return (data_idx, None);
        },
    };
    proof {
        lemma_decode_values_len(data, data_idx as int, 342);
    }
    let checksum_val6 = read_table[byte_at(track, data_idx + 342) as usize];
    let last_val = decoded[341];
    if checksum_val6 == 0xFF || checksum_val6 != last_val {
        return (data_idx, None);
    }
    let sector = assemble(&decoded);
    (data_idx + 343, Some((sec as usize, sector)))
}

/// Reads every sector of a track that a DOS-style scan finds.
fn scan_track_exec(track: &TrackData, read_table: &Vec<u8>) -> (r: (Vec<bool>, Vec<Vec<u8>>))
    requires
        track.wf(),
        track.length > 0,
        read_table@.len() == 256,
        forall|x: u8| #[trigger] read_table@[x as int] == nibble_value(x),
    ensures
        sectors_match(r.0@, r.1@, track_sectors(track.bytes())),
{
    let ghost data = track.bytes();
    let mut found: Vec<bool> = vec![false; 16];
    let mut sectors: Vec<Vec<u8>> = Vec::new();
    for k in 0..16
        invariant
            sectors@.len() == k,
    {
        sectors.push(Vec::new());
    }
    let ghost mut model: FoundSectors = no_sectors();
    proof {
        assert(sectors_match(found@, sectors@, model));
    }
    let max_scan = track.length * 2;
    let mut scan_idx: usize = 0;
    let mut done = false;
    while scan_idx < max_scan && !done
        invariant
            track.wf(),
            track.length > 0,
            data == track.bytes(),
            max_scan == 2 * track.length,
            scan_idx <= max_scan + 420,
            read_table@.len() == 256,
            forall|x: u8| #[trigger] read_table@[x as int] == nibble_value(x),
            sectors_match(found@, sectors@, model),
            done ==> model == track_sectors(data),
            !done ==> scan_track(data, scan_idx as int, model) == track_sectors(data),
        decreases max_scan + 420 - scan_idx,
    {
        let ghost prev_model = model;
        let ghost prev_idx = scan_idx as int;
        let (next, stored) = scan_step_exec(track, read_table, scan_idx, &found);
        let ghost (gnext, gf, gstored) = scan_step(data, scan_idx as int, model);
        assert(gnext == next);
        match stored {
            Some((sec, sector)) => {
                found.set(sec, true);
                sectors.set(sec, sector);
                proof {
                    model = gf;
                    assert(sectors_match(found@, sectors@, model));
                }
                let mut all = true;
                for s in 0..16
                    invariant
                        found@.len() == 16,
                        all == forall|q: int| 0 <= q < s ==> #[trigger] found@[q],
                {
                    if !found[s] {
                        all = false;
                    }
                }
                if all {
                    proof {
                        assert forall|q: int| 0 <= q < 16 implies (#[trigger] model[q]) is Some by {
                            assert(found@[q]);
                        }
                        assert(all_found(model));
                    }
                    done = true;
                }
            },
            None => {},
        }
        scan_idx = next;
        proof {
            if !done {
                assert(scan_track(data, prev_idx, prev_model) == scan_track(data, scan_idx as int, model));
            }
        }
    }
    (found, sectors)
}

proof fn lemma_interleave_inverse()
    ensures
        forall|p: int| 0 <= p < 16 ==> logical_to_physical(#[trigger] PHYS_TO_LOGICAL[p] as int) == p,
        forall|l: int| 0 <= l < 16 ==> 0 <= #[trigger] logical_to_physical(l) < 16 && PHYS_TO_LOGICAL[logical_to_physical(l)] == l,
{
    assert(PHYS_TO_LOGICAL@ == seq![0usize, 7, 14, 6, 13, 5, 12, 4, 11, 3, 10, 2, 9, 1, 8, 15]);
}

/// Decodes nibblized tracks back into a DOS 3.3 image. Each track is scanned
/// for up to two revolutions for address fields with a valid checksum and
/// their data fields; a sector that cannot be read stays zero.
pub fn denibblize_dsk(tracks: &[TrackData]) -> (r: Result<Vec<u8>, String>)
    requires
        forall|t: int| 0 <= t < tracks@.len() ==> (#[trigger] tracks@[t]).wf(),
        forall|t: int| DSK_TRACKS <= t < tracks@.len() ==> track_sectors((#[trigger] tracks@[t]).bytes()) == no_sectors(),
    ensures
        r matches Ok(out) && out@ == spec_denibblize(track_contents(tracks@)),
{
    let ghost contents = track_contents(tracks@);
    let mut out: Vec<u8> = vec![0u8; DSK_BYTES];
    let read_table = build_read_table();
    proof {
        lemma_interleave_inverse();
    }
    for track_num in 0..tracks.len()
        invariant
            contents == track_contents(tracks@),
            forall|t: int| 0 <= t < tracks@.len() ==> (#[trigger] tracks@[t]).wf(),
            forall|t: int| DSK_TRACKS <= t < tracks@.len() ==> track_sectors((#[trigger] tracks@[t]).bytes()) == no_sectors(),
            read_table@.len() == 256,
            forall|x: u8| #[trigger] read_table@[x as int] == nibble_value(x),
            out@.len() == DSK_BYTES,
            forall|pos: int| 0 <= pos < DSK_BYTES ==> #[trigger] out@[pos] == if pos / 4096 < track_num { denibblized_byte(contents, pos) } else { 0 },
    {
        let track = &tracks[track_num];
        if track.length == 0 {
            proof {
                assert(track_sectors(track.bytes()) == no_sectors());
                assert forall|pos: int| 0 <= pos < DSK_BYTES implies #[trigger] out@[pos] == if pos / 4096 < track_num + 1 { denibblized_byte(contents, pos) } else { 0 } by {
                    if pos / 4096 == track_num {
                        assert(contents[track_num as int] == track.bytes());
                    }
                }
            }
        } else {
            let (found, sectors) = scan_track_exec(track, &read_table);
            let ghost model = track_sectors(track.bytes());
            proof {
                assert(contents[track_num as int] == track.bytes());
            }
            for phys in 0..16
                invariant
                    contents == track_contents(tracks@),
                    track_num < tracks@.len(),
                    contents[track_num as int] == tracks@[track_num as int].bytes(),
                    model == track_sectors(contents[track_num as int]),
                    track_num >= DSK_TRACKS ==> model == no_sectors(),
                    sectors_match(found@, sectors@, model),
                    out@.len() == DSK_BYTES,
                    forall|pos: int| 0 <= pos < DSK_BYTES ==> #[trigger] out@[pos] == if pos / 4096 < track_num {
                        denibblized_byte(contents, pos)
                    } else if pos / 4096 == track_num && logical_to_physical((pos % 4096) / 256) < phys {
                        denibblized_byte(contents, pos)
                    } else {
                        0
                    },
            {
                if found[phys] {
                    let logical_sector = PHYS_TO_LOGICAL[phys];
                    let sector_offset = track_num * 4096 + logical_sector * 256;
                    for k in 0..256
                        invariant
                            contents == track_contents(tracks@),
                            track_num < DSK_TRACKS,
                            track_num < tracks@.len(),
                            phys < 16,
                            found@[phys as int],
                            logical_sector == PHYS_TO_LOGICAL[phys as int],
                            sector_offset == track_num * 4096 + logical_sector * 256,
                            model == track_sectors(contents[track_num as int]),
                            sectors_match(found@, sectors@, model),
                            out@.len() == DSK_BYTES,
                            forall|pos: int| 0 <= pos < DSK_BYTES ==> #[trigger] out@[pos] == if pos / 4096 < track_num {
                                denibblized_byte(contents, pos)
                            } else if pos / 4096 == track_num && logical_to_physical((pos % 4096) / 256) < phys {
                                denibblized_byte(contents, pos)
                            } else if sector_offset <= pos < sector_offset + k {
                                denibblized_byte(contents, pos)
                            } else {
                                0
                            },
                    {
                        let ghost pos = sector_offset + k;
                    proof {
                        assert(pos / 4096 == track_num);
                        assert((pos % 4096) / 256 == logical_sector);
                        assert(pos % 256 == k);
                        assert(logical_to_physical(logical_sector as int) == phys);
                        assert(sectors@[phys as int]@ == model[phys as int]->0);
                    }
                    out.set(sector_offset + k, sectors[phys][k]);
                    proof {
                        let tt = pos / 4096;
                        let ll = (pos % 4096) / 256;
                        assert(tt == track_num);
                        assert(logical_to_physical(ll) == phys);
                        assert(contents.len() == tracks@.len());
                        assert(track_sectors(contents[tt])[phys as int] is Some);
                        let phys2 = logical_to_physical(ll);
                        assert(phys2 == phys as int);
                        assert(tt < contents.len());
                        assert(track_sectors(contents[tt])[phys2] is Some);
                        assert(denibblized_byte(contents, pos) == (if tt < contents.len() && track_sectors(contents[tt])[phys2] is Some {
                            track_sectors(contents[tt])[phys2]->0[pos % 256]
                        } else {
                            0
                        }));
                        assert(out@[pos] == denibblized_byte(contents, pos));
                    }
                    }
                }
            }
        }
    }
    Ok(out)
}


/// No track past the 35 of an image holds a sector that a scan can read.
pub open spec fn extra_tracks_blank(tracks: Seq<TrackData>) -> bool {
    forall|t: int| DSK_TRACKS <= t < tracks.len() ==> track_sectors((#[trigger] tracks[t]).bytes()) == no_sectors()
}

/// `denibblize_dsk` for tracks of any content: `None` when a track past the
/// 35 of an image holds a readable sector (its sectors have no place in a
/// 140KB image), the decoded image otherwise.
pub fn denibblize_dsk_checked(tracks: &[TrackData]) -> (r: Option<Vec<u8>>)
    requires
        forall|t: int| 0 <= t < tracks@.len() ==> (#[trigger] tracks@[t]).wf(),
    ensures
        r is Some <==> extra_tracks_blank(tracks@),
        r matches Some(out) ==> out@ == spec_denibblize(track_contents(tracks@)),
{
    let read_table = build_read_table();
    let mut t: usize = DSK_TRACKS;
    while t < tracks.len()
        invariant
            forall|k: int| 0 <= k < tracks@.len() ==> (#[trigger] tracks@[k]).wf(),
            read_table@.len() == 256,
            forall|x: u8| #[trigger] read_table@[x as int] == nibble_value(x),
            DSK_TRACKS <= t,
            forall|k: int| DSK_TRACKS <= k < t && k < tracks@.len() ==> track_sectors((#[trigger] tracks@[k]).bytes()) == no_sectors(),
        decreases tracks.len() - t,
    {
        let track = &tracks[t];
        if track.length == 0 {
            proof {
                assert(track.bytes().len() == 0);
                assert(track_sectors(track.bytes()) == no_sectors());
            }
        } else {
            let (found, _sectors) = scan_track_exec(track, &read_table);
            let ghost model = track_sectors(track.bytes());
            proof {
                assert(sectors_match(found@, _sectors@, model));
            }
            for p in 0..16
                invariant
                    DSK_TRACKS <= t < tracks@.len(),
                    model == track_sectors(tracks@[t as int].bytes()),
                    found@.len() == 16,
                    model.len() == 16,
                    forall|i: int| 0 <= i < 16 ==> (#[trigger] found@[i]) == model[i] is Some,
                    forall|i: int| 0 <= i < p ==> !(#[trigger] found@[i]),
            {
                if found[p] {
                    proof {
                        assert(model[p as int] is Some);
                        assert(no_sectors()[p as int] is None);
                        assert(!extra_tracks_blank(tracks@)) by {
                            assert(track_sectors(tracks@[t as int].bytes()) != no_sectors());
                        }
                    }
                    return None;
                }
            }
            proof {
                assert forall|i: int| 0 <= i < 16 implies #[trigger] model[i] == no_sectors()[i] by {
                    assert(!found@[i]);
                }
                assert(model =~= no_sectors());
            }
        }
        t += 1;
    }
    match denibblize_dsk(tracks) {
        Ok(out) => Some(out),
        Err(_) => None,
    }
}

} // verus!
