use blackout::icon::draw_monitor_icon;

const GREEN: u32 = 0xFF3D_DC97;

/// The icon drawn stroke by stroke, to hold the row-by-row drawing against.
fn plotted(size: i32) -> Vec<u32> {
    let n = if size > 0 { (size * size) as usize } else { 0 };
    let mut pixels = vec![0u32; n];
    let stroke = if size >= 24 { 2 } else { 1 };
    let pad = if size >= 20 { 2 } else { 1 };
    let stand_h = (size / 4).max(4);
    let mut body_w = size - pad * 2;
    if body_w % 2 != size % 2 {
        body_w -= 1;
    }
    let body_h = ((body_w * 3) / 4).min(size - pad - stand_h);
    let x0 = (size - body_w) / 2;
    let x1 = x0 + body_w;
    let y0 = ((size - stand_h - body_h) / 2).max(0);
    let y1 = y0 + body_h;
    let mut plot = |x: i32, y: i32| {
        if x >= 0 && y >= 0 && x < size && y < size {
            pixels[(y * size + x) as usize] = GREEN;
        }
    };
    for x in x0 + 1..x1 - 1 {
        for t in 0..stroke {
            plot(x, y0 + t);
            plot(x, y1 - 1 - t);
        }
    }
    for y in y0 + 1..y1 - 1 {
        for t in 0..stroke {
            plot(x0 + t, y);
            plot(x1 - 1 - t, y);
        }
    }
    let mid_l = (x0 + x1 - 1) / 2;
    let mid_r = (x0 + x1) / 2;
    let neck_h = (stand_h / 2).max(1);
    let half = ((body_w / 5).max(2)).max(stroke);
    let neck_y1 = (y1 + neck_h).min(size - stroke);
    for y in y1..neck_y1 {
        plot(mid_l, y);
        plot(mid_r, y);
    }
    let base_y0 = neck_y1.min(size - stroke);
    for y in base_y0..(base_y0 + stroke).min(size) {
        for x in (mid_l - half)..=(mid_r + half) {
            plot(x, y);
        }
    }
    pixels
}

fn drawn(size: i32) -> Vec<u32> {
    let n = if size > 0 { (size * size) as usize } else { 0 };
    let mut pixels = vec![7u32; n];
    draw_monitor_icon(&mut pixels, size);
    pixels
}

#[test]
fn icon_matches_stroke_drawing() {
    for size in 0..=64 {
        assert_eq!(drawn(size), plotted(size), "size {size}");
    }
    for size in [96, 128, 256] {
        assert_eq!(drawn(size), plotted(size), "size {size}");
    }
}

#[test]
fn icon_sixteen_pixels() {
    let p = drawn(16);
    let at = |x: usize, y: usize| p[y * 16 + x];
    // the top edge, without its corners
    assert_eq!(at(1, 1), 0);
    assert_eq!(at(2, 1), GREEN);
    assert_eq!(at(13, 1), GREEN);
    assert_eq!(at(14, 1), 0);
    // the sides, the hollow screen
    assert_eq!(at(1, 5), GREEN);
    assert_eq!(at(14, 5), GREEN);
    assert_eq!(at(7, 5), 0);
    // the neck: the two middle columns
    assert_eq!(at(7, 11), GREEN);
    assert_eq!(at(8, 12), GREEN);
    assert_eq!(at(6, 12), 0);
    // the foot
    assert_eq!(at(5, 13), GREEN);
    assert_eq!(at(10, 13), GREEN);
    assert_eq!(at(4, 13), 0);
    assert_eq!(at(11, 13), 0);
    assert_eq!(p.iter().filter(|&&c| c == GREEN).count(), 12 * 2 + 8 * 2 + 4 + 6);
}

#[test]
fn icon_is_mirror_symmetric() {
    for size in [16, 17, 20, 24, 31, 32, 48, 256] {
        let p = drawn(size);
        let s = size as usize;
        for y in 0..s {
            for x in 0..s {
                assert_eq!(p[y * s + x], p[y * s + (s - 1 - x)], "size {size} at {x},{y}");
            }
        }
    }
}

#[test]
fn icon_clears_past_the_canvas() {
    let mut pixels = vec![5u32; 20];
    draw_monitor_icon(&mut pixels, 4);
    assert!(pixels[16..].iter().all(|&c| c == 0));
    let mut none = vec![9u32; 3];
    draw_monitor_icon(&mut none, -2);
    assert_eq!(none, vec![0, 0, 0]);
}
