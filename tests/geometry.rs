use yas_scan::geometry::{derive_geometry, select_bucket, slot_center, window_from_lines, AspectBucket, FieldRect, GeometryError, WindowRect};

fn win(left: i32, top: i32, width: u32, height: u32) -> WindowRect {
    WindowRect { left, top, width, height }
}

#[test]
fn buckets_by_exact_ratio() {
    assert_eq!(select_bucket(3440, 1440), Some(AspectBucket::Ratio43x18));
    assert_eq!(select_bucket(1920, 1080), Some(AspectBucket::Ratio16x9));
    assert_eq!(select_bucket(1440, 900), Some(AspectBucket::Ratio8x5));
    assert_eq!(select_bucket(1024, 768), Some(AspectBucket::Ratio4x3));
    assert_eq!(select_bucket(2100, 900), Some(AspectBucket::Ratio7x3));
    assert_eq!(select_bucket(1921, 1080), None);
    assert_eq!(select_bucket(0, 0), None);
}

#[test]
fn unsupported_resolution_is_an_error() {
    assert_eq!(derive_geometry(win(0, 0, 1000, 1000), 0, 0), Err(GeometryError::UnsupportedResolution));
    assert_eq!(derive_geometry(win(5, 5, 1366, 768), 3, 3), Err(GeometryError::UnsupportedResolution));
    assert_eq!(derive_geometry(win(0, 0, 0, 0), 0, 0), Err(GeometryError::UnsupportedResolution));
}

#[test]
fn reference_window_gets_layout_constants() {
    let g = derive_geometry(win(100, 50, 1600, 900), 0, 0).unwrap();
    assert_eq!(g.title, FieldRect { left: 1260, top: 160, width: 330, height: 35 });
    assert_eq!(g.level, FieldRect { left: 1265, top: 405, width: 45, height: 20 });
    assert_eq!(g.slot, FieldRect { left: 190, top: 175, width: 115, height: 140 });
    assert_eq!(g.rows, 5);
}

#[test]
fn offsets_shift_every_rectangle() {
    let a = derive_geometry(win(100, 50, 1600, 900), 0, 0).unwrap();
    let b = derive_geometry(win(100, 50, 1600, 900), -7, 12).unwrap();
    assert_eq!(b.title.left, a.title.left - 7);
    assert_eq!(b.title.top, a.title.top + 12);
    assert_eq!(b.count.left, a.count.left - 7);
    assert_eq!(b.sub_stat_4.top, a.sub_stat_4.top + 12);
    assert_eq!(b.title.width, a.title.width);
}

#[test]
fn geometry_is_deterministic() {
    let w = win(12, 34, 1920, 1080);
    assert_eq!(derive_geometry(w, 2, 3), derive_geometry(w, 2, 3));
}

#[test]
fn geometry_scales_linearly() {
    let a = derive_geometry(win(0, 0, 1600, 900), 0, 0).unwrap();
    let b = derive_geometry(win(0, 0, 3200, 1800), 0, 0).unwrap();
    assert_eq!(b.title.left, 2 * a.title.left);
    assert_eq!(b.title.width, 2 * a.title.width);
    assert_eq!(b.main_stat_value.top, 2 * a.main_stat_value.top);
    assert_eq!(b.gap_y, 2 * a.gap_y);
    assert_eq!(b.columns, a.columns);
}

#[test]
fn scaled_window_rounds_down() {
    let g = derive_geometry(win(0, 0, 1920, 1080), 0, 0).unwrap();
    // 1160 * 1920 / 1600 and 35 * 1080 / 900
    assert_eq!(g.title.left, 1392);
    assert_eq!(g.title.height, 42);
}

#[test]
fn slot_centers_step_by_slot_and_gap() {
    let g = derive_geometry(win(100, 50, 1600, 900), 0, 0).unwrap();
    assert_eq!(slot_center(&g, 0, 0), (247, 245));
    assert_eq!(slot_center(&g, 2, 1), (507, 405));
}

#[test]
fn window_from_xwininfo_lines() {
    let lines: Vec<String> = "10\n20\n1920\n1080\n".split('\n').map(|l| l.to_string()).collect();
    assert_eq!(window_from_lines(&lines), Some(win(10, 20, 1920, 1080)));
    let short: Vec<String> = vec!["1".to_string(), "2".to_string(), "3".to_string()];
    assert_eq!(window_from_lines(&short), None);
    let bad: Vec<String> = vec!["1".to_string(), "x".to_string(), "3".to_string(), "4".to_string()];
    assert_eq!(window_from_lines(&bad), None);
    let far: Vec<String> = vec!["3000000000".to_string(), "0".to_string(), "3".to_string(), "4".to_string()];
    assert_eq!(window_from_lines(&far), None);
}
