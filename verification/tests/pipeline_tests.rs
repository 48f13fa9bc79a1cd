use base64::Engine;
use image::GenericImageView;
use image_rename_split::errors::PipelineError;
use image_rename_split::pipeline::{
    create_thumbnail, process_single_image, split_widths, thumbnail_dims,
};
use image_rename_split::scheduler::plan_chunks;

/// Encode a flat-colour RGB image of the given size as JPEG bytes.
fn sample_jpeg(w: u32, h: u32) -> Vec<u8> {
    let img = image::RgbImage::from_pixel(w, h, image::Rgb([90, 120, 180]));
    let mut buf: Vec<u8> = Vec::new();
    let mut enc = image::codecs::jpeg::JpegEncoder::new_with_quality(&mut buf, 90);
    enc.encode_image(&img).unwrap();
    buf
}

/// Units byte and X/Y density of the first APP0/JFIF segment.
fn density_of(buf: &[u8]) -> Option<(u8, u16, u16)> {
    assert_eq!(&buf[0..2], &[0xff, 0xd8]);
    let mut i = 2usize;
    while i + 4 <= buf.len() {
        if buf[i] != 0xff || buf[i + 1] == 0xda {
            return None;
        }
        let len = ((buf[i + 2] as usize) << 8) | (buf[i + 3] as usize);
        if len < 2 {
            return None;
        }
        if buf[i + 1] == 0xe0
            && i + 9 <= buf.len()
            && &buf[i + 4..i + 9] == b"JFIF\0"
            && i + 15 < buf.len()
        {
            return Some((
                buf[i + 11],
                u16::from_be_bytes([buf[i + 12], buf[i + 13]]),
                u16::from_be_bytes([buf[i + 14], buf[i + 15]]),
            ));
        }
        i += 2 + len;
    }
    None
}

#[test]
fn split_widths_rebuild_source_width() {
    assert_eq!(split_widths(800), (400, 400));
    assert_eq!(split_widths(801), (400, 401));
    assert_eq!(split_widths(2), (1, 1));
    assert_eq!(split_widths(3), (1, 2));
    for w in [1u32, 2, 5, 799, 800, 801, 4096] {
        let (l, r) = split_widths(w);
        assert_eq!(l + r, w);
        assert_eq!(l, w / 2);
    }
}

#[test]
fn split_produces_two_halves_with_density() {
    let src = sample_jpeg(800, 600);
    let out = process_single_image(&src, 1).unwrap();
    assert_eq!(out.left_name, "01_1.jpg");
    assert_eq!(out.right_name, "01_2.jpg");
    assert_eq!(density_of(&out.left), Some((1, 300, 300)));
    assert_eq!(density_of(&out.right), Some((1, 300, 300)));
    let left = image::load_from_memory(&out.left).unwrap();
    let right = image::load_from_memory(&out.right).unwrap();
    assert_eq!(left.dimensions(), (400, 600));
    assert_eq!(right.dimensions(), (400, 600));
}

#[test]
fn split_odd_width_gives_right_half_the_extra_column() {
    let src = sample_jpeg(801, 600);
    let out = process_single_image(&src, 12).unwrap();
    assert_eq!(out.left_name, "12_1.jpg");
    let left = image::load_from_memory(&out.left).unwrap();
    let right = image::load_from_memory(&out.right).unwrap();
    assert_eq!(left.dimensions(), (400, 600));
    assert_eq!(right.dimensions(), (401, 600));
}

#[test]
fn split_rejects_undecodable_source() {
    let src = vec![0u8; 64];
    assert!(matches!(process_single_image(&src, 1), Err(PipelineError::Decode)));
}

#[test]
fn thumbnail_dims_bound_and_aspect() {
    assert_eq!(thumbnail_dims(800, 600, 200), (200, 150));
    assert_eq!(thumbnail_dims(600, 800, 200), (150, 200));
    assert_eq!(thumbnail_dims(100, 50, 200), (100, 50));
    assert_eq!(thumbnail_dims(200, 200, 200), (200, 200));
    assert_eq!(thumbnail_dims(1000, 1000, 200), (200, 200));
    assert_eq!(thumbnail_dims(4000, 300, 200), (200, 15));
    // Extreme ratio: the integer-divided short side clamps to one pixel.
    assert_eq!(thumbnail_dims(100000, 10, 200), (200, 1));
}

#[test]
fn thumbnail_is_jpeg_data_uri() {
    let src = sample_jpeg(640, 480);
    let text = create_thumbnail(&src).unwrap();
    let prefix = "data:image/jpeg;base64,";
    assert!(text.starts_with(prefix));
    let decoded = base64::engine::general_purpose::STANDARD
        .decode(&text[prefix.len()..])
        .unwrap();
    let thumb = image::load_from_memory(&decoded).unwrap();
    assert_eq!(thumb.dimensions(), (200, 150));
}

#[test]
fn thumbnail_rejects_undecodable_source() {
    let src = b"not an image at all".to_vec();
    assert!(matches!(create_thumbnail(&src), Err(PipelineError::Decode)));
}

#[test]
fn batch_of_seven_produces_fourteen_named_outputs() {
    // Seven valid sources, chunked 3/3/1: the outputs are 01_1.jpg through
    // 07_2.jpg with density 300/300, whatever order the chunks would run in.
    let sources: Vec<Vec<u8>> = (0..7).map(|_| sample_jpeg(800, 600)).collect();
    let chunks = plan_chunks(sources.len(), 3);
    assert_eq!(chunks.len(), 3);
    assert_eq!((chunks[0].count, chunks[1].count, chunks[2].count), (3, 3, 1));
    let mut names: Vec<String> = Vec::new();
    for chunk in chunks.iter().rev() {
        for offset in 0..chunk.count {
            let item = chunk.start_index + offset;
            let seq = chunk.starting_sequence_number + offset;
            let out = process_single_image(&sources[item], seq).unwrap();
            assert_eq!(density_of(&out.left), Some((1, 300, 300)));
            assert_eq!(density_of(&out.right), Some((1, 300, 300)));
            names.push(out.left_name);
            names.push(out.right_name);
        }
    }
    names.sort();
    let expected: Vec<String> = (1..=7)
        .flat_map(|n| [format!("0{}_1.jpg", n), format!("0{}_2.jpg", n)])
        .collect();
    assert_eq!(names, expected);
}

#[test]
fn failed_item_does_not_stop_its_chunk() {
    // Three items in one chunk; the second one's bytes have gone bad
    // between load and export. The other two still yield their four files.
    let sources = vec![sample_jpeg(320, 240), vec![1u8, 2, 3], sample_jpeg(320, 240)];
    let chunks = plan_chunks(sources.len(), 3);
    assert_eq!(chunks.len(), 1);
    let mut ok_names: Vec<String> = Vec::new();
    let mut failures: Vec<usize> = Vec::new();
    for offset in 0..chunks[0].count {
        let seq = chunks[0].starting_sequence_number + offset;
        match process_single_image(&sources[chunks[0].start_index + offset], seq) {
            Ok(out) => {
                ok_names.push(out.left_name);
                ok_names.push(out.right_name);
            }
            Err(_) => failures.push(seq),
        }
    }
    assert_eq!(failures, vec![2]);
    assert_eq!(ok_names, vec!["01_1.jpg", "01_2.jpg", "03_1.jpg", "03_2.jpg"]);
}
