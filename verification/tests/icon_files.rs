use blackout::autostart::{icon_files, icon_pngs};
use blackout::icon::draw_monitor_icon;
use blackout::icon_file::{dib_image, icns_image, ico_image, png_image};

const PNG_MAGIC: &[u8] = b"\x89PNG\r\n\x1a\n";

fn canvas(size: i32) -> Vec<u32> {
    let mut px = vec![0u32; (size * size) as usize];
    draw_monitor_icon(&mut px, size);
    px
}

fn decode(bytes: &[u8]) -> (u32, u32, Vec<u8>) {
    let decoder = png::Decoder::new(bytes);
    let mut reader = decoder.read_info().unwrap();
    let mut buf = vec![0u8; reader.output_buffer_size()];
    let info = reader.next_frame(&mut buf).unwrap();
    buf.truncate(info.buffer_size());
    (info.width, info.height, buf)
}

#[test]
fn png_holds_the_icon_as_rgba() {
    for size in [16, 32, 48, 256] {
        let bytes = png_image(size).unwrap();
        assert!(bytes.starts_with(PNG_MAGIC));
        let (w, h, rgba) = decode(&bytes);
        assert_eq!((w, h), (size as u32, size as u32));
        let want: Vec<u8> = canvas(size)
            .iter()
            .flat_map(|&p| {
                [(p >> 16) as u8, (p >> 8) as u8, p as u8, (p >> 24) as u8]
            })
            .collect();
        assert_eq!(rgba, want);
    }
}

#[test]
fn png_of_empty_canvas_is_refused() {
    assert!(png_image(0).is_err());
}

#[test]
fn dib_is_bottom_up_with_zero_mask() {
    let size = 16;
    let d = dib_image(size);
    assert_eq!(d.len(), 40 + 16 * 16 * 4 + 4 * 16);
    assert_eq!(&d[0..4], &[40, 0, 0, 0]);
    assert_eq!(&d[4..8], &[16, 0, 0, 0]);
    assert_eq!(&d[8..12], &[32, 0, 0, 0]);
    assert_eq!(&d[12..16], &[1, 0, 32, 0]);
    assert_eq!(&d[16..20], &[0, 0, 0, 0]);
    assert_eq!(&d[20..24], &(1024u32).to_le_bytes());
    assert!(d[24..40].iter().all(|&b| b == 0));
    let px = canvas(size);
    // the first stored row is the bottom one
    for x in 0..16usize {
        let stored = u32::from_le_bytes(d[40 + 4 * x..44 + 4 * x].try_into().unwrap());
        assert_eq!(stored, px[15 * 16 + x]);
    }
    // the foot row (13) comes third from the bottom
    let row = 15 - 13;
    let at = 40 + row * 16 * 4;
    let stored = u32::from_le_bytes(d[at + 20..at + 24].try_into().unwrap());
    assert_eq!(stored, 0xFF3D_DC97);
    assert!(d[40 + 1024..].iter().all(|&b| b == 0));
    // a 40-pixel frame pads its mask rows to 8 bytes
    assert_eq!(dib_image(40).len(), 40 + 40 * 40 * 4 + 8 * 40);
}

#[test]
fn ico_uses_png_for_256() {
    let bytes = ico_image().unwrap();
    assert_eq!(&bytes[0..4], &[0, 0, 1, 0]);
    let count = u16::from_le_bytes([bytes[4], bytes[5]]) as usize;
    assert_eq!(count, 7 + 1);

    let mut found_png = false;
    for i in 0..count {
        let e = 6 + i * 16;
        let size = u32::from_le_bytes(bytes[e + 8..e + 12].try_into().unwrap()) as usize;
        let offset = u32::from_le_bytes(bytes[e + 12..e + 16].try_into().unwrap()) as usize;
        let w = bytes[e];
        if w == 0 {
            assert!(bytes[offset..].starts_with(PNG_MAGIC));
            assert!(size < 16 * 1024, "256 PNG should stay small, got {size} bytes");
            found_png = true;
        } else {
            assert_eq!(&bytes[offset..offset + 4], &[40, 0, 0, 0]);
        }
    }
    assert!(found_png);
    assert!(bytes.len() < 80 * 1024, "ICO grew too much: {} bytes", bytes.len());
}

#[test]
fn ico_directory_lists_each_frame() {
    let bytes = ico_image().unwrap();
    let dims: Vec<u8> = (0..8).map(|i| bytes[6 + i * 16]).collect();
    assert_eq!(dims, vec![16, 20, 24, 32, 40, 48, 64, 0]);
    // the first frame starts right after the directory
    let first = u32::from_le_bytes(bytes[6 + 12..6 + 16].try_into().unwrap());
    assert_eq!(first, 6 + 8 * 16);
    let first_len = u32::from_le_bytes(bytes[6 + 8..6 + 12].try_into().unwrap());
    assert_eq!(first_len as usize, dib_image(16).len());
    let second = u32::from_le_bytes(bytes[22 + 12..22 + 16].try_into().unwrap());
    assert_eq!(second, first + first_len);
}

#[test]
fn icns_header_and_png_chunk() {
    let bytes = icns_image().unwrap();
    assert_eq!(&bytes[0..4], b"icns");
    let total = u32::from_be_bytes(bytes[4..8].try_into().unwrap()) as usize;
    assert_eq!(total, bytes.len());
    assert_eq!(&bytes[8..12], b"icp4");
    let first = u32::from_be_bytes(bytes[12..16].try_into().unwrap()) as usize;
    assert!(bytes[16..].starts_with(PNG_MAGIC));
    assert!(first > 16);
    // the first chunk is the 16-pixel PNG
    assert_eq!(&bytes[16..8 + first], png_image(16).unwrap().as_slice());
    assert_eq!(&bytes[8 + first..12 + first], b"icp5");
}

#[test]
fn installed_icons_are_the_pngs_of_their_sizes() {
    let files = icon_pngs("/home/a/.local/share");
    let paths: Vec<String> = files.iter().map(|(p, _)| p.clone()).collect();
    assert_eq!(paths, icon_files("/home/a/.local/share"));
    assert_eq!(files[0].1, png_image(32).unwrap());
    assert_eq!(files[1].1, png_image(48).unwrap());
    assert_eq!(files[2].1, png_image(256).unwrap());
    let (w, _, _) = decode(&files[2].1);
    assert_eq!(w, 256);
}
