//! JFIF APP0 density patching: walk the marker segments of a JPEG byte
//! buffer, overwrite the density fields of the first APP0/JFIF segment, or
//! splice a minimal 18-byte segment in right after the start-of-image marker
//! when none exists before the start-of-scan marker.
use crate::errors::PipelineError;
use vstd::prelude::*;

verus! {

/// The buffer begins with the two-byte JPEG start-of-image marker.
pub open spec fn has_soi(s: Seq<u8>) -> bool {
    s.len() >= 2 && s[0] == 0xff && s[1] == 0xd8
}

/// Big-endian segment length stored right after the marker at `i` (the
/// length field counts itself but not the two marker bytes).
pub open spec fn seg_len(s: Seq<u8>, i: int) -> int {
    (s[i + 2] as int) * 256 + (s[i + 3] as int)
}

/// An APP0 segment at `i` whose payload starts with the JFIF identifier and
/// whose density fields lie inside the buffer.
pub open spec fn is_jfif_at(s: Seq<u8>, i: int) -> bool {
    &&& s[i + 1] == 0xe0
    &&& i + 9 <= s.len()
    &&& s[i + 4] == 0x4a
    &&& s[i + 5] == 0x46
    &&& s[i + 6] == 0x49
    &&& s[i + 7] == 0x46
    &&& s[i + 8] == 0x00
    &&& i + 15 < s.len()
}

/// Offset of the first APP0/JFIF segment reachable by the marker walk from
/// offset `i`, stopping at the start-of-scan marker, at a malformed marker,
/// or at the end of the buffer.
pub open spec fn find_jfif(s: Seq<u8>, i: int) -> Option<int>
    decreases s.len() - i,
{
    if i < 0 || i + 4 > s.len() {
        None
    } else if s[i] != 0xff || s[i + 1] == 0xda || seg_len(s, i) < 2 {
        None
    } else if is_jfif_at(s, i) {
        Some(i)
    } else if i + 2 + seg_len(s, i) + 4 > s.len() {
        None
    } else {
        find_jfif(s, i + 2 + seg_len(s, i))
    }
}

/// High byte of a big-endian density value.
pub open spec fn dpi_hi(dpi: u16) -> u8 {
    (dpi >> 8) as u8
}

/// Low byte of a big-endian density value.
pub open spec fn dpi_lo(dpi: u16) -> u8 {
    (dpi & 0xff) as u8
}

/// The buffer with the units byte and both density fields of the segment at
/// `i` overwritten: units 1 (dots per inch), X and Y density `dpi`.
pub open spec fn patch_at(s: Seq<u8>, i: int, dpi: u16) -> Seq<u8> {
    s.update(i + 11, 1u8).update(i + 12, dpi_hi(dpi)).update(i + 13, dpi_lo(dpi)).update(
        i + 14,
        dpi_hi(dpi),
    ).update(i + 15, dpi_lo(dpi))
}

/// A minimal APP0/JFIF segment: length 16, version 1.2, units dots per
/// inch, X and Y density `dpi`, no embedded thumbnail. 18 bytes with the
/// marker.
pub open spec fn app0_jfif(dpi: u16) -> Seq<u8> {
    seq![
        0xffu8,
        0xe0u8,
        0x00u8,
        0x10u8,
        0x4au8,
        0x46u8,
        0x49u8,
        0x46u8,
        0x00u8,
        0x01u8,
        0x02u8,
        0x01u8,
        dpi_hi(dpi),
        dpi_lo(dpi),
        dpi_hi(dpi),
        dpi_lo(dpi),
        0x00u8,
        0x00u8,
    ]
}

/// Result of the density patch on a buffer that begins with the
/// start-of-image marker: overwrite the first JFIF segment's fields, or
/// splice a fresh segment in at offset 2.
pub open spec fn patched(s: Seq<u8>, dpi: u16) -> Seq<u8> {
    match find_jfif(s, 2) {
        Some(i) => patch_at(s, i, dpi),
        None => s.subrange(0, 2) + app0_jfif(dpi) + s.subrange(2, s.len() as int),
    }
}

/// Units byte and X/Y density of the first JFIF segment, if any.
pub open spec fn jfif_density(s: Seq<u8>) -> Option<(int, int, int)> {
    match find_jfif(s, 2) {
        Some(i) => Some(
            (
                s[i + 11] as int,
                (s[i + 12] as int) * 256 + (s[i + 13] as int),
                (s[i + 14] as int) * 256 + (s[i + 15] as int),
            ),
        ),
        None => None,
    }
}

/// A successful walk lands on a well-formed JFIF segment at or after the
/// start offset.
proof fn lemma_find_jfif_found(s: Seq<u8>, k: int, j: int)
    requires
        find_jfif(s, k) == Some(j),
    ensures
        k <= j,
        j + 4 <= s.len(),
        s[j] == 0xff,
        s[j + 1] == 0xe0,
        seg_len(s, j) >= 2,
        is_jfif_at(s, j),
    decreases s.len() - k,
{
    if is_jfif_at(s, k) {
    } else {
        lemma_find_jfif_found(s, k + 2 + seg_len(s, k), j);
    }
}

/// The walk reads no byte at or beyond offset `found + 11`, so a buffer
/// that agrees below that offset walks to the same segment.
proof fn lemma_walk_preserved(s: Seq<u8>, p: Seq<u8>, k: int, j: int)
    requires
        find_jfif(s, k) == Some(j),
        p.len() == s.len(),
        forall|m: int| 0 <= m < s.len() && m < j + 11 ==> p[m] == s[m],
    ensures
        find_jfif(p, k) == Some(j),
    decreases s.len() - k,
{
    lemma_find_jfif_found(s, k, j);
    if is_jfif_at(s, k) {
        assert(j == k);
        assert(is_jfif_at(p, k));
    } else {
        let next = k + 2 + seg_len(s, k);
        lemma_find_jfif_found(s, next, j);
        assert(next <= j);
        assert(k + 8 < j + 11);
        assert(seg_len(p, k) == seg_len(s, k));
        assert(!is_jfif_at(p, k));
        lemma_walk_preserved(s, p, next, j);
    }
}

/// The two density bytes written for `dpi` read back as `dpi`.
proof fn lemma_dpi_bytes(dpi: u16)
    ensures
        (dpi_hi(dpi) as int) * 256 + (dpi_lo(dpi) as int) == dpi as int,
{
    assert((dpi >> 8) < 256 && (dpi & 0xff) < 256 && (dpi >> 8) * 256 + (dpi & 0xff) == dpi)
        by (bit_vector);
}

/// After a patch the buffer still starts with the start-of-image marker,
/// its first JFIF segment reports units 1 and density `dpi`/`dpi`, and its
/// length is unchanged when a segment already existed but grows by exactly
/// 18 bytes when one had to be spliced in.
pub proof fn lemma_patched_density(s: Seq<u8>, dpi: u16)
    requires
        has_soi(s),
    ensures
        has_soi(patched(s, dpi)),
        find_jfif(s, 2) is Some ==> patched(s, dpi).len() == s.len(),
        find_jfif(s, 2) is None ==> patched(s, dpi).len() == s.len() + 18,
        jfif_density(patched(s, dpi)) == Some((1int, dpi as int, dpi as int)),
{
    lemma_dpi_bytes(dpi);
    let p = patched(s, dpi);
    match find_jfif(s, 2) {
        Some(i) => {
            lemma_find_jfif_found(s, 2, i);
            assert(forall|m: int| 0 <= m < s.len() && m < i + 11 ==> p[m] == s[m]);
            lemma_walk_preserved(s, p, 2, i);
            assert(p[i + 11] == 1u8);
            assert(p[i + 12] == dpi_hi(dpi) && p[i + 13] == dpi_lo(dpi));
            assert(p[i + 14] == dpi_hi(dpi) && p[i + 15] == dpi_lo(dpi));
        },
        None => {
            assert(p.len() == s.len() + 18);
            assert forall|m: int| 0 <= m < 18 implies p[2 + m] == app0_jfif(dpi)[m] by {}
            assert(p[2] == 0xff && p[3] == 0xe0);
            assert(seg_len(p, 2) == 16);
            assert(p[6] == 0x4a && p[7] == 0x46 && p[8] == 0x49 && p[9] == 0x46 && p[10]
                == 0x00);
            assert(is_jfif_at(p, 2));
            assert(find_jfif(p, 2) == Some(2int));
            assert(p[13] == 1u8);
            assert(p[14] == dpi_hi(dpi) && p[15] == dpi_lo(dpi));
            assert(p[16] == dpi_hi(dpi) && p[17] == dpi_lo(dpi));
        },
    }
}

/// Patching an already-patched buffer finds the segment the first patch
/// guaranteed, so the length never changes again and the last written
/// density wins.
pub proof fn lemma_repatch(s: Seq<u8>, first_dpi: u16, second_dpi: u16)
    requires
        has_soi(s),
    ensures
        patched(patched(s, first_dpi), second_dpi).len() == patched(s, first_dpi).len(),
        jfif_density(patched(patched(s, first_dpi), second_dpi)) == Some(
            (1int, second_dpi as int, second_dpi as int),
        ),
{
    lemma_patched_density(s, first_dpi);
    lemma_patched_density(patched(s, first_dpi), second_dpi);
}

/// Walk the buffer for the first APP0/JFIF segment whose density fields are
/// in bounds, mirroring `find_jfif`.
fn find_jfif_pos(buf: &Vec<u8>) -> (r: Option<usize>)
    ensures
        match r {
            Some(j) => find_jfif(buf@, 2) == Some(j as int),
            None => find_jfif(buf@, 2) is None,
        },
{
    if buf.len() < 4 {
        return None;
    }
    let mut i: usize = 2;
    while i <= buf.len() - 4
        invariant
            2 <= i,
            i <= buf@.len(),
            buf@.len() >= 4,
            find_jfif(buf@, 2) == find_jfif(buf@, i as int),
        decreases buf@.len() - i,
    {
        if buf[i] != 0xff {
            return None;
        }
        let marker = buf[i + 1];
        if marker == 0xda {
            return None;
        }
        let seg: usize = (buf[i + 2] as usize) * 256 + (buf[i + 3] as usize);
        if seg < 2 {
            return None;
        }
        if marker == 0xe0 && buf.len() - i >= 9 && buf[i + 4] == 0x4a && buf[i + 5] == 0x46
            && buf[i + 6] == 0x49 && buf[i + 7] == 0x46 && buf[i + 8] == 0x00 && buf.len() - i
            >= 16 {
            proof {
                assert(is_jfif_at(buf@, i as int));
            }
            return Some(i);
        }
        proof {
            assert(!is_jfif_at(buf@, i as int));
        }
        if seg > buf.len() - i - 2 {
            return None;
        }
        i = i + 2 + seg;
    }
    None
}

/// Set the JFIF pixel density of a JPEG buffer to `dpi` in dots per inch,
/// overwriting the first JFIF segment's fields in place or splicing in a
/// minimal segment after the start-of-image marker. Fails, leaving the
/// buffer untouched, exactly when the buffer does not begin with the
/// start-of-image marker.
pub fn set_jpeg_dpi(buf: &mut Vec<u8>, dpi: u16) -> (r: Result<(), PipelineError>)
    ensures
        r is Ok <==> has_soi(old(buf)@),
        !has_soi(old(buf)@) ==> final(buf)@ == old(buf)@ && (r matches Err(
            PipelineError::InvalidContainer,
        )),
        has_soi(old(buf)@) ==> final(buf)@ == patched(old(buf)@, dpi),
{
    if buf.len() < 2 || buf[0] != 0xff || buf[1] != 0xd8 {
        return Err(PipelineError::InvalidContainer);
    }
    let ghost orig = buf@;
    proof {
        assert((dpi >> 8) < 256 && (dpi & 0xff) < 256) by (bit_vector);
    }
    let hi = (dpi >> 8) as u8;
    let lo = (dpi & 0xff) as u8;
    match find_jfif_pos(buf) {
        Some(j) => {
            proof {
                lemma_find_jfif_found(orig, 2, j as int);
            }
            buf.set(j + 11, 1);
            buf.set(j + 12, hi);
            buf.set(j + 13, lo);
            buf.set(j + 14, hi);
            buf.set(j + 15, lo);
            proof {
                assert(buf@ == patch_at(orig, j as int, dpi));
            }
            Ok(())
        },
        None => {
            let mut out: Vec<u8> = Vec::new();
            out.push(0xff);
            out.push(0xd8);
            out.push(0xff);
            out.push(0xe0);
            out.push(0x00);
            out.push(0x10);
            out.push(0x4a);
            out.push(0x46);
            out.push(0x49);
            out.push(0x46);
            out.push(0x00);
            out.push(0x01);
            out.push(0x02);
            out.push(0x01);
            out.push(hi);
            out.push(lo);
            out.push(hi);
            out.push(lo);
            out.push(0x00);
            out.push(0x00);
            proof {
                assert(out@ =~= orig.subrange(0, 2) + app0_jfif(dpi) + orig.subrange(2, 2));
            }
            let mut k: usize = 2;
            while k < buf.len()
                invariant
                    2 <= k,
                    k <= buf@.len(),
                    buf@ == orig,
                    has_soi(orig),
                    out@ == orig.subrange(0, 2) + app0_jfif(dpi) + orig.subrange(2, k as int),
                decreases buf@.len() - k,
            {
                out.push(buf[k]);
                proof {
                    assert(orig.subrange(2, k + 1) =~= orig.subrange(2, k as int).push(
                        orig[k as int]));
                    assert(out@ =~= orig.subrange(0, 2) + app0_jfif(dpi) + orig.subrange(
                        2,
                        k + 1,
                    ));
                }
                k += 1;
            }
            proof {
                assert(orig.subrange(2, orig.len() as int) =~= orig.subrange(
                    2,
                    buf@.len() as int,
                ));
            }
            *buf = out;
            Ok(())
        },
    }
}

} // verus!
