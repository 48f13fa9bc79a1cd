use image_rename_split::errors::PipelineError;
use image_rename_split::jfif::set_jpeg_dpi;

/// Read the units byte and X/Y density of the first APP0/JFIF segment.
fn read_density(buf: &[u8]) -> Option<(u8, u16, u16)> {
    if buf.len() < 4 || buf[0] != 0xff || buf[1] != 0xd8 {
        return None;
    }
    let mut i = 2usize;
    while i + 4 <= buf.len() {
        if buf[i] != 0xff || buf[i + 1] == 0xda {
            return None;
        }
        let len = ((buf[i + 2] as usize) << 8) | (buf[i + 3] as usize);
        if len < 2 {
            return None;
        }
        if buf[i + 1] == 0xe0
            && i + 9 <= buf.len()
            && &buf[i + 4..i + 9] == b"JFIF\0"
            && i + 15 < buf.len()
        {
            return Some((
                buf[i + 11],
                u16::from_be_bytes([buf[i + 12], buf[i + 13]]),
                u16::from_be_bytes([buf[i + 14], buf[i + 15]]),
            ));
        }
        i += 2 + len;
    }
    None
}

/// A tiny stream: SOI, an APP0/JFIF segment with units 0 and density 1x1,
/// then a start-of-scan marker with a little data.
fn stream_with_jfif() -> Vec<u8> {
    let mut v = vec![0xff, 0xd8];
    v.extend_from_slice(&[0xff, 0xe0, 0x00, 0x10]);
    v.extend_from_slice(b"JFIF\0");
    v.extend_from_slice(&[0x01, 0x02, 0x00, 0x00, 0x01, 0x00, 0x01, 0x00, 0x00]);
    v.extend_from_slice(&[0xff, 0xda, 0x00, 0x02, 0x12, 0x34]);
    v
}

/// A stream with no JFIF segment: SOI, one APP1 segment, start of scan.
fn stream_without_jfif() -> Vec<u8> {
    let mut v = vec![0xff, 0xd8];
    v.extend_from_slice(&[0xff, 0xe1, 0x00, 0x04, 0xaa, 0xbb]);
    v.extend_from_slice(&[0xff, 0xda, 0x00, 0x02, 0x12, 0x34]);
    v
}

#[test]
fn patch_overwrites_existing_segment() {
    let mut buf = stream_with_jfif();
    let before = buf.len();
    set_jpeg_dpi(&mut buf, 300).unwrap();
    assert_eq!(buf.len(), before);
    assert_eq!(read_density(&buf), Some((1, 300, 300)));
    assert_eq!(&buf[buf.len() - 6..], &[0xff, 0xda, 0x00, 0x02, 0x12, 0x34]);
}

#[test]
fn patch_inserts_segment_when_missing() {
    let mut buf = stream_without_jfif();
    let before = buf.clone();
    set_jpeg_dpi(&mut buf, 300).unwrap();
    assert_eq!(buf.len(), before.len() + 18);
    assert_eq!(&buf[0..2], &[0xff, 0xd8]);
    let expected_app0: [u8; 18] = [
        0xff, 0xe0, 0x00, 0x10, 0x4a, 0x46, 0x49, 0x46, 0x00, 0x01, 0x02, 0x01, 0x01, 0x2c,
        0x01, 0x2c, 0x00, 0x00,
    ];
    assert_eq!(&buf[2..20], &expected_app0);
    assert_eq!(&buf[20..], &before[2..]);
    assert_eq!(read_density(&buf), Some((1, 300, 300)));
}

#[test]
fn patch_twice_keeps_length_and_last_dpi_wins() {
    let mut grown = stream_without_jfif();
    set_jpeg_dpi(&mut grown, 300).unwrap();
    let after_first = grown.len();
    set_jpeg_dpi(&mut grown, 72).unwrap();
    assert_eq!(grown.len(), after_first);
    assert_eq!(read_density(&grown), Some((1, 72, 72)));

    let mut stable = stream_with_jfif();
    set_jpeg_dpi(&mut stable, 300).unwrap();
    let len = stable.len();
    set_jpeg_dpi(&mut stable, 600).unwrap();
    assert_eq!(stable.len(), len);
    assert_eq!(read_density(&stable), Some((1, 600, 600)));
}

#[test]
fn patch_rejects_missing_soi() {
    let mut buf = vec![0x89, 0x50, 0x4e, 0x47, 0x0d, 0x0a];
    let before = buf.clone();
    assert_eq!(set_jpeg_dpi(&mut buf, 300), Err(PipelineError::InvalidContainer));
    assert_eq!(buf, before);

    let mut truncated = vec![0xff];
    assert_eq!(set_jpeg_dpi(&mut truncated, 300), Err(PipelineError::InvalidContainer));
    assert_eq!(truncated, vec![0xff]);
}

#[test]
fn patch_splices_into_bare_soi() {
    // A buffer that is nothing but the start-of-image marker is valid for
    // the patcher: the walk finds no segment and one is spliced in.
    let mut buf = vec![0xff, 0xd8];
    set_jpeg_dpi(&mut buf, 300).unwrap();
    assert_eq!(buf.len(), 20);
    assert_eq!(&buf[0..2], &[0xff, 0xd8]);
    assert_eq!(read_density(&buf), Some((1, 300, 300)));
}

#[test]
fn patch_skips_non_jfif_app0() {
    let mut v = vec![0xff, 0xd8];
    v.extend_from_slice(&[0xff, 0xe0, 0x00, 0x09]);
    v.extend_from_slice(b"JFXX\0");
    v.extend_from_slice(&[0x10, 0x00]);
    v.extend_from_slice(&[0xff, 0xda, 0x00, 0x02, 0x00, 0x00]);
    let before = v.len();
    set_jpeg_dpi(&mut v, 300).unwrap();
    assert_eq!(v.len(), before + 18);
    assert_eq!(read_density(&v), Some((1, 300, 300)));
}
