//! Reading back a freshly nibblized disk gives the image that was written.
use vstd::prelude::*;
use crate::nibble::{
    NIBBLE_WRITE_TABLE, PHYS_TO_LOGICAL, DSK_BYTES, DSK_TRACKS, FoundSectors, spec_encode_4x4, spec_decode_4x4, table_lookup,
    nibble_value, disk_nibble, spec_swap2, secondary_nibble, six_bit_values, assemble_sector, previous_value,
    decode_values, track_byte, last_value, spec_encode_6and2, sector_data, sector_block, sector_blocks, track_image,
    sync_bytes, prologue_at, find_data_prologue, address_sector, scan_step, scan_track, all_found, no_sectors,
    track_sectors, logical_to_physical, denibblized_byte, spec_denibblize, TrackData, nibblized_track, track_contents,
    lemma_sector_block_len, lemma_sector_blocks_len, lemma_interleave_in_range,
};

verus! {

proof fn lemma_decode_encode_4x4(v: u8)
    ensures
        spec_decode_4x4(spec_encode_4x4(v)[0], spec_encode_4x4(v)[1]) == v,
{
    assert((((((v >> 1u8) | 0xAAu8) & 0x55u8) << 1u8) | ((v | 0xAAu8) & 0x55u8)) == v) by (bit_vector);
}

/// The write table is strictly increasing.
proof fn lemma_write_table_sorted(i: int, j: int)
    requires
        0 <= i < j < 64,
    ensures
        NIBBLE_WRITE_TABLE[i] < NIBBLE_WRITE_TABLE[j],
    decreases j - i,
{
    assert(NIBBLE_WRITE_TABLE@ =~= seq![
        0x96u8, 0x97, 0x9A, 0x9B, 0x9D, 0x9E, 0x9F, 0xA6, 0xA7, 0xAB, 0xAC, 0xAD, 0xAE, 0xAF, 0xB2, 0xB3,
        0xB4, 0xB5, 0xB6, 0xB7, 0xB9, 0xBA, 0xBB, 0xBC, 0xBD, 0xBE, 0xBF, 0xCB, 0xCD, 0xCE, 0xCF, 0xD3,
        0xD6, 0xD7, 0xD9, 0xDA, 0xDB, 0xDC, 0xDD, 0xDE, 0xDF, 0xE5, 0xE6, 0xE7, 0xE9, 0xEA, 0xEB, 0xEC,
        0xED, 0xEE, 0xEF, 0xF2, 0xF3, 0xF4, 0xF5, 0xF6, 0xF7, 0xF9, 0xFA, 0xFB, 0xFC, 0xFD, 0xFE, 0xFF,
    ]);
    if j > i + 1 {
        lemma_write_table_sorted(i, j - 1);
        lemma_write_table_sorted(j - 1, j);
    }
}

proof fn lemma_table_lookup_hit(x: int, n: nat)
    requires
        0 <= x < n <= 64,
    ensures
        table_lookup(NIBBLE_WRITE_TABLE[x], n) == x,
    decreases n,
{
    if n - 1 != x {
        lemma_write_table_sorted(x, n - 1);
        lemma_table_lookup_hit(x, (n - 1) as nat);
    }
}

/// Reading a written nibble gives back its six-bit value.
pub proof fn lemma_nibble_value_of_disk_nibble(v: u8)
    requires
        v < 64,
    ensures
        nibble_value(disk_nibble(v)) == v,
{
    lemma_table_lookup_hit(v as int, 64);
}

proof fn lemma_secondary_parts(b0: u8, b1: u8, b2: u8)
    by (bit_vector)
    requires
        b0 < 4,
        b1 < 4,
        b2 < 4,
    ensures
        (((b2 << 4u8) | (b1 << 2u8) | b0) & 0x3Fu8) & 0x03u8 == b0,
        ((((b2 << 4u8) | (b1 << 2u8) | b0) & 0x3Fu8) >> 2u8) & 0x03u8 == b1,
        ((((b2 << 4u8) | (b1 << 2u8) | b0) & 0x3Fu8) >> 4u8) & 0x03u8 == b2,
{
}

proof fn lemma_swap2_twice(x: u8)
    by (bit_vector)
    ensures
        ((x & 3u8) & 1u8) << 1u8 | ((x & 3u8) & 2u8) >> 1u8 < 4,
        ((((((x & 3u8) & 1u8) << 1u8) | (((x & 3u8) & 2u8) >> 1u8)) & 1u8) << 1u8)
            | ((((((x & 3u8) & 1u8) << 1u8) | (((x & 3u8) & 2u8) >> 1u8)) & 2u8) >> 1u8) == x & 3u8,
        (((x >> 2u8) << 2u8) | (x & 3u8)) == x,
{
}

/// Decoding the six-bit values of a sector reassembles the sector.
pub proof fn lemma_assemble_six_bit_values(data: Seq<u8>)
    requires
        data.len() == 256,
    ensures
        assemble_sector(six_bit_values(data)) == data,
{
    let v = six_bit_values(data);
    assert forall|k: int| 0 <= k < 256 implies #[trigger] assemble_sector(v)[k] == data[k] by {
        let j = k % 86;
        let b0 = spec_swap2(data[j] & 0x03);
        let b1 = spec_swap2(data[j + 86] & 0x03);
        let b2 = if j + 172 < 256 { spec_swap2(data[j + 172] & 0x03) } else { 0 };
        lemma_swap2_twice(data[j]);
        lemma_swap2_twice(data[j + 86]);
        if j + 172 < 256 {
            lemma_swap2_twice(data[j + 172]);
        }
        lemma_secondary_parts(b0, b1, b2);
        lemma_swap2_twice(data[k]);
        assert(v[j] == secondary_nibble(data, j) & 0x3F);
        assert(v[86 + k] == data[k] >> 2u8);
    }
    assert(assemble_sector(v) =~= data);
}

proof fn lemma_six_bit_value_bound(data: Seq<u8>, j: int)
    requires
        data.len() == 256,
        0 <= j < 342,
    ensures
        six_bit_values(data)[j] < 64,
{
    let v = six_bit_values(data);
    if j < 86 {
        let x = secondary_nibble(data, j);
        assert(x & 0x3F < 64) by (bit_vector);
    } else {
        let x = data[j - 86];
        assert(x >> 2u8 < 64) by (bit_vector);
    }
}

/// Undoing the XOR chain of a data field gives back its six-bit values.
proof fn lemma_decode_values_chain(data: Seq<u8>, d: int, v: Seq<u8>, k: nat)
    requires
        v.len() == 342,
        forall|j: int| 0 <= j < 342 ==> #[trigger] v[j] < 64,
        forall|j: int| 0 <= j < 342 ==> #[trigger] track_byte(data, d + j) == disk_nibble(v[j] ^ previous_value(v, j)),
        k <= 342,
    ensures
        decode_values(data, d, k) == Some(v.take(k as int)),
    decreases k,
{
    if k > 0 {
        let j = k - 1;
        lemma_decode_values_chain(data, d, v, j as nat);
        let prev = v.take(j);
        let p = previous_value(v, j);
        assert(last_value(prev) == p);
        let a = v[j];
        assert(p < 64);
        assert(a ^ p < 64 && (a ^ p) ^ p == a) by (bit_vector)
            requires
                a < 64,
                p < 64,
        ;
        assert(track_byte(data, d + j) == disk_nibble(a ^ p));
        lemma_nibble_value_of_disk_nibble(a ^ p);
        assert(v.take(k as int) =~= prev.push(a));
    }
}

/// Block `p` of a track starts this many bytes into the track.
pub open spec fn block_start(p: int) -> int {
    128 + 395 * p
}

proof fn lemma_sector_blocks_index(disk: Seq<u8>, t: int, n: nat, p: int, off: int)
    requires
        0 <= p < n,
        0 <= off < 395,
    ensures
        sector_blocks(disk, t, n).len() == 395 * n,
        sector_blocks(disk, t, n)[395 * p + off] == sector_block(disk, t, p)[off],
    decreases n,
{
    lemma_sector_blocks_len(disk, t, (n - 1) as nat);
    lemma_sector_block_len(disk, t, n - 1);
    if p < n - 1 {
        lemma_sector_blocks_index(disk, t, (n - 1) as nat, p, off);
    }
}



/// Where the bytes of a nibblized track come from: 128 sync bytes, then the
/// 16 blocks of 395 bytes, then sync bytes up to 6656.
proof fn lemma_track_layout(disk: Seq<u8>, t: int)
    ensures
        track_image(disk, t).len() == 6656,
        forall|k: int| 0 <= k < 128 ==> #[trigger] track_image(disk, t)[k] == 0xFF,
        forall|p: int, off: int| 0 <= p < 16 && 0 <= off < 395
            ==> #[trigger] track_image(disk, t)[block_start(p) + off] == sector_block(disk, t, p)[off],
{
    lemma_sector_blocks_len(disk, t, 16);
    let lead = sync_bytes(128);
    let blocks = sector_blocks(disk, t, 16);
    assert(track_image(disk, t) == lead + blocks + sync_bytes(208));
    assert forall|k: int| 0 <= k < 128 implies #[trigger] track_image(disk, t)[k] == 0xFF by {
        assert((lead + blocks)[k] == lead[k]);
    }
    assert forall|p: int, off: int| 0 <= p < 16 && 0 <= off < 395
        implies #[trigger] track_image(disk, t)[block_start(p) + off] == sector_block(disk, t, p)[off] by {
        lemma_sector_blocks_index(disk, t, 16, p, off);
        assert((lead + blocks)[block_start(p) + off] == blocks[395 * p + off]);
    }
}

/// The fields of block `p` of track `t`, where a reader looks for them.
proof fn lemma_block_layout(disk: Seq<u8>, t: int, p: int)
    requires
        0 <= p < 16,
    ensures
        ({
            let b = sector_block(disk, t, p);
            let enc = spec_encode_6and2(sector_data(disk, t, PHYS_TO_LOGICAL[p] as int));
            &&& b[0] == 0xD5 && b[1] == 0xAA && b[2] == 0x96
            &&& spec_decode_4x4(b[3], b[4]) == 254
            &&& spec_decode_4x4(b[5], b[6]) == t as u8
            &&& spec_decode_4x4(b[7], b[8]) == p as u8
            &&& spec_decode_4x4(b[9], b[10]) == 254u8 ^ (t as u8) ^ (p as u8)
            &&& forall|k: int| 11 <= k < 26 ==> #[trigger] b[k] != 0xD5
            &&& b[26] == 0xD5 && b[27] == 0xAA && b[28] == 0xAD
            &&& forall|j: int| 0 <= j < 343 ==> #[trigger] b[29 + j] == enc[j]
            &&& forall|k: int| 372 <= k < 395 ==> #[trigger] b[k] != 0xD5
        }),
{
    let data = sector_data(disk, t, PHYS_TO_LOGICAL[p] as int);
    let enc = spec_encode_6and2(data);
    let chk = 254u8 ^ (t as u8) ^ (p as u8);
    let pre = seq![0xD5u8, 0xAA, 0x96] + spec_encode_4x4(254) + spec_encode_4x4(t as u8) + spec_encode_4x4(p as u8)
        + spec_encode_4x4(chk) + seq![0xDEu8, 0xAA, 0xEB] + sync_bytes(12) + seq![0xD5u8, 0xAA, 0xAD];
    let post = seq![0xDEu8, 0xAA, 0xEB] + sync_bytes(20);
    let b = sector_block(disk, t, p);
    assert(b == pre + enc + seq![0xDEu8, 0xAA, 0xEB] + sync_bytes(20));
    assert(pre.len() == 29);
    assert(enc.len() == 343);
    let e254 = spec_encode_4x4(254);
    let et = spec_encode_4x4(t as u8);
    let ep = spec_encode_4x4(p as u8);
    let ec = spec_encode_4x4(chk);
    assert(pre =~= seq![0xD5u8, 0xAA, 0x96, e254[0], e254[1], et[0], et[1], ep[0], ep[1], ec[0], ec[1],
        0xDE, 0xAA, 0xEB, 0xFF, 0xFF, 0xFF, 0xFF, 0xFF, 0xFF, 0xFF, 0xFF, 0xFF, 0xFF, 0xFF, 0xFF,
        0xD5, 0xAA, 0xAD]);
    assert(b =~= pre + enc + post);
    lemma_decode_encode_4x4(254);
    lemma_decode_encode_4x4(t as u8);
    lemma_decode_encode_4x4(p as u8);
    lemma_decode_encode_4x4(chk);
    assert forall|k: int| 372 <= k < 395 implies #[trigger] b[k] != 0xD5 by {
        assert(b[k] == post[k - 372]);
    }
    assert forall|j: int| 0 <= j < 343 implies #[trigger] b[29 + j] == enc[j] by {
        assert(b[29 + j] == (pre + enc)[29 + j]);
    }
    assert forall|k: int| 11 <= k < 26 implies #[trigger] b[k] != 0xD5 by {
        assert(b[k] == pre[k]);
    }
    assert(b[0] == pre[0] && b[1] == pre[1] && b[2] == pre[2]);
    assert(b[3] == pre[3] && b[4] == pre[4] && b[5] == pre[5] && b[6] == pre[6]);
    assert(b[7] == pre[7] && b[8] == pre[8] && b[9] == pre[9] && b[10] == pre[10]);
    assert(b[26] == pre[26] && b[27] == pre[27] && b[28] == pre[28]);
}

/// The sectors a reader has after the first `p` blocks of track `t`.
pub open spec fn sectors_read(disk: Seq<u8>, t: int, p: int) -> FoundSectors {
    Seq::new(16, |q: int| if q < p { Some(sector_data(disk, t, PHYS_TO_LOGICAL[q] as int)) } else { None })
}


proof fn lemma_block_bytes(disk: Seq<u8>, t: int, p: int)
    requires
        0 <= p < 16,
    ensures
        forall|k: int| block_start(p) <= k < block_start(p) + 395
            ==> #[trigger] track_byte(track_image(disk, t), k) == sector_block(disk, t, p)[k - block_start(p)],
{
    let data = track_image(disk, t);
    let i = block_start(p);
    lemma_track_layout(disk, t);
    assert forall|k: int| i <= k < i + 395 implies #[trigger] track_byte(data, k) == sector_block(disk, t, p)[k - i] by {
        assert(k % 6656 == k);
        assert(data[block_start(p) + (k - i)] == sector_block(disk, t, p)[k - i]);
    }
}

/// Block `p` starts with an address field for sector `p`, and its data
/// field follows within the reader's window.
proof fn lemma_scan_block_address(disk: Seq<u8>, t: int, p: int)
    requires
        0 <= p < 16,
    ensures
        prologue_at(track_image(disk, t), block_start(p), 0x96),
        address_sector(track_image(disk, t), block_start(p)) == Some(p as u8),
        find_data_prologue(track_image(disk, t), block_start(p) + 14, 60) == Some(block_start(p) + 26),
{
    let data = track_image(disk, t);
    let i = block_start(p);
    let b = sector_block(disk, t, p);
    lemma_block_bytes(disk, t, p);
    lemma_block_layout(disk, t, p);
    assert(track_byte(data, i) == b[0] && track_byte(data, i + 1) == b[1] && track_byte(data, i + 2) == b[2]);
    assert(track_byte(data, i + 3) == b[3] && track_byte(data, i + 4) == b[4]);
    assert(track_byte(data, i + 5) == b[5] && track_byte(data, i + 6) == b[6]);
    assert(track_byte(data, i + 7) == b[7] && track_byte(data, i + 8) == b[8]);
    assert(track_byte(data, i + 9) == b[9] && track_byte(data, i + 10) == b[10]);
    assert(track_byte(data, i + 26) == b[26] && track_byte(data, i + 27) == b[27] && track_byte(data, i + 28) == b[28]);
    assert(track_byte(data, i + 14) == b[14] && track_byte(data, i + 15) == b[15] && track_byte(data, i + 16) == b[16]);
    assert(track_byte(data, i + 17) == b[17] && track_byte(data, i + 18) == b[18] && track_byte(data, i + 19) == b[19]);
    assert(track_byte(data, i + 20) == b[20] && track_byte(data, i + 21) == b[21] && track_byte(data, i + 22) == b[22]);
    assert(track_byte(data, i + 23) == b[23] && track_byte(data, i + 24) == b[24] && track_byte(data, i + 25) == b[25]);
    reveal_with_fuel(find_data_prologue, 14);
}

/// The data field of block `p` decodes to the six-bit values of its sector,
/// followed by a matching checksum nibble.
proof fn lemma_scan_block_data(disk: Seq<u8>, t: int, p: int)
    requires
        disk.len() == DSK_BYTES,
        0 <= t < DSK_TRACKS,
        0 <= p < 16,
    ensures
        ({
            let v = six_bit_values(sector_data(disk, t, PHYS_TO_LOGICAL[p] as int));
            &&& decode_values(track_image(disk, t), block_start(p) + 29, 342) == Some(v)
            &&& nibble_value(track_byte(track_image(disk, t), block_start(p) + 29 + 342)) == last_value(v)
            &&& last_value(v) != 0xFF
            &&& assemble_sector(v) == sector_data(disk, t, PHYS_TO_LOGICAL[p] as int)
        }),
{
    let data = track_image(disk, t);
    let i = block_start(p);
    let b = sector_block(disk, t, p);
    lemma_block_bytes(disk, t, p);
    lemma_block_layout(disk, t, p);
    lemma_interleave_in_range();
    let sec = sector_data(disk, t, PHYS_TO_LOGICAL[p] as int);
    assert(sec.len() == 256);
    let v = six_bit_values(sec);
    let enc = spec_encode_6and2(sec);
    let d = i + 29;
    assert forall|j: int| 0 <= j < 342 implies #[trigger] v[j] < 64 by {
        lemma_six_bit_value_bound(sec, j);
    }
    assert forall|j: int| 0 <= j < 342 implies #[trigger] track_byte(data, d + j) == disk_nibble(v[j] ^ previous_value(v, j)) by {
        assert(track_byte(data, d + j) == b[d + j - i]);
        assert(b[29 + j] == enc[j]);
    }
    lemma_decode_values_chain(data, d, v, 342);
    assert(v.take(342) =~= v);
    assert(track_byte(data, d + 342) == b[d + 342 - i]);
    assert(b[29 + 342int] == enc[342]);
    lemma_nibble_value_of_disk_nibble(v[341]);
    lemma_assemble_six_bit_values(sec);
}

/// Reading block `p` at its start stores its sector and moves past its data field.
proof fn lemma_scan_block(disk: Seq<u8>, t: int, p: int)
    requires
        disk.len() == DSK_BYTES,
        0 <= t < DSK_TRACKS,
        0 <= p < 16,
    ensures
        scan_step(track_image(disk, t), block_start(p), sectors_read(disk, t, p))
            == (block_start(p) + 372, sectors_read(disk, t, p + 1), true),
{
    let found = sectors_read(disk, t, p);
    lemma_scan_block_address(disk, t, p);
    lemma_scan_block_data(disk, t, p);
    lemma_interleave_in_range();
    let v = six_bit_values(sector_data(disk, t, PHYS_TO_LOGICAL[p] as int));
    assert(found[p] is None);
    assert(found.update(p, Some(assemble_sector(v))) =~= sectors_read(disk, t, p + 1));
}

/// The scan walks byte by byte over positions where no address field starts.
proof fn lemma_scan_skip(data: Seq<u8>, i: int, j: int, found: FoundSectors)
    requires
        0 <= i <= j < 2 * data.len(),
        forall|k: int| i <= k < j ==> !#[trigger] prologue_at(data, k, 0x96),
    ensures
        scan_track(data, i, found) == scan_track(data, j, found),
    decreases j - i,
{
    if i < j {
        assert(!prologue_at(data, i, 0x96));
        assert(scan_step(data, i, found) == (i + 1, found, false));
        lemma_scan_skip(data, i + 1, j, found);
    }
}

/// No address field starts in the lead-in sync bytes or in the gap after a
/// data field.
proof fn lemma_gaps_have_no_prologue(disk: Seq<u8>, t: int)
    ensures
        forall|k: int| 0 <= k < 128 ==> !#[trigger] prologue_at(track_image(disk, t), k, 0x96),
        forall|p: int, k: int| 0 <= p < 16 && block_start(p) + 372 <= k < block_start(p) + 395
            ==> !#[trigger] prologue_at(track_image(disk, t), k + 0 * p, 0x96),
{
    let data = track_image(disk, t);
    lemma_track_layout(disk, t);
    assert forall|k: int| 0 <= k < 128 implies !#[trigger] prologue_at(data, k, 0x96) by {
        assert(k % 6656 == k);
    }
    assert forall|p: int, k: int| 0 <= p < 16 && block_start(p) + 372 <= k < block_start(p) + 395
        implies !#[trigger] prologue_at(data, k + 0 * p, 0x96) by {
        lemma_block_bytes(disk, t, p);
        lemma_block_layout(disk, t, p);
        assert(k + 0 * p == k);
        assert(track_byte(data, k) == sector_block(disk, t, p)[k - block_start(p)]);
    }
}

/// From the start of block `p`, with the sectors of the blocks before it
/// read, the scan reads all 16 sectors.
proof fn lemma_scan_from_block(disk: Seq<u8>, t: int, p: int)
    requires
        disk.len() == DSK_BYTES,
        0 <= t < DSK_TRACKS,
        0 <= p < 16,
    ensures
        scan_track(track_image(disk, t), block_start(p), sectors_read(disk, t, p)) == sectors_read(disk, t, 16),
    decreases 16 - p,
{
    let data = track_image(disk, t);
    lemma_track_layout(disk, t);
    lemma_scan_block(disk, t, p);
    let f = sectors_read(disk, t, p + 1);
    if p == 15 {
        assert(all_found(f));
    } else {
        assert(f[p + 1] is None);
        assert(!all_found(f));
        lemma_gaps_have_no_prologue(disk, t);
        assert forall|k: int| block_start(p) + 372 <= k < block_start(p + 1) implies !#[trigger] prologue_at(data, k, 0x96) by {
            assert(k + 0 * p == k);
            assert(!prologue_at(data, k + 0 * p, 0x96));
        }
        lemma_scan_skip(data, block_start(p) + 372, block_start(p + 1), f);
        lemma_scan_from_block(disk, t, p + 1);
    }
}

/// Every sector of a nibblized track reads back, at its physical position.
pub proof fn lemma_track_sectors_of_image(disk: Seq<u8>, t: int)
    requires
        disk.len() == DSK_BYTES,
        0 <= t < DSK_TRACKS,
    ensures
        track_sectors(track_image(disk, t)) == sectors_read(disk, t, 16),
{
    let data = track_image(disk, t);
    lemma_track_layout(disk, t);
    lemma_gaps_have_no_prologue(disk, t);
    assert(no_sectors() =~= sectors_read(disk, t, 0));
    lemma_scan_skip(data, 0, 128, no_sectors());
    lemma_scan_from_block(disk, t, 0);
}

/// Reading back the tracks of a freshly nibblized image gives the image:
/// for any 35 or more tracks whose first 35 hold the nibbles `nibblize_dsk`
/// writes for a 140KB image, decoding them yields exactly that image.
pub proof fn law_denibblize_nibblize(disk: Seq<u8>, tracks: Seq<Seq<u8>>)
    requires
        disk.len() == DSK_BYTES,
        tracks.len() >= DSK_TRACKS,
        forall|t: int| 0 <= t < DSK_TRACKS ==> #[trigger] tracks[t] == track_image(disk, t),
    ensures
        spec_denibblize(tracks) == disk,
{
    lemma_interleave_in_range();
    assert(PHYS_TO_LOGICAL@ == seq![0usize, 7, 14, 6, 13, 5, 12, 4, 11, 3, 10, 2, 9, 1, 8, 15]);
    assert forall|pos: int| 0 <= pos < DSK_BYTES implies #[trigger] denibblized_byte(tracks, pos) == disk[pos] by {
        let t = pos / 4096;
        let logical = (pos % 4096) / 256;
        let phys = logical_to_physical(logical);
        assert(0 <= t < DSK_TRACKS);
        assert(0 <= logical < 16);
        assert(0 <= phys < 16 && PHYS_TO_LOGICAL[phys] == logical);
        lemma_track_sectors_of_image(disk, t);
        assert(tracks[t] == track_image(disk, t));
        assert(track_sectors(tracks[t])[phys] == Some(sector_data(disk, t, logical)));
        assert(pos == t * 4096 + logical * 256 + pos % 256);
    }
    assert(spec_denibblize(tracks) =~= disk);
}

/// Saving right after loading gives back the loaded image: when the first 35
/// of the track buffers hold what `nibblize_dsk` made of a 140KB image (as
/// after `Disk2::load_disk`), `denibblize_dsk` of the buffers returns it.
pub proof fn law_save_after_load(disk: Seq<u8>, tracks: Seq<TrackData>)
    requires
        disk.len() == DSK_BYTES,
        tracks.len() >= DSK_TRACKS,
        forall|t: int| 0 <= t < DSK_TRACKS ==> (#[trigger] tracks[t])@ == nibblized_track(disk, t),
    ensures
        spec_denibblize(track_contents(tracks)) == disk,
{
    let contents = track_contents(tracks);
    assert forall|t: int| 0 <= t < DSK_TRACKS implies #[trigger] contents[t] == track_image(disk, t) by {
        lemma_track_layout(disk, t);
        assert(tracks[t].raw_bytes@ == track_image(disk, t));
        assert(tracks[t].length == 6656);
        assert(contents[t] =~= track_image(disk, t));
    }
    law_denibblize_nibblize(disk, contents);
}

} // verus!
