use vstd::prelude::*;
use crate::record::{decimal_of, parse_decimal};

verus! {

/// Largest coordinate or size, in reference pixels, that a layout constant may hold.
pub const MAX_LAYOUT_VALUE: u32 = 10000;

/// The screen rectangle of the target window's client area.
#[derive(Clone, Copy, Debug, PartialEq, Eq, Structural)]
pub struct WindowRect {
    pub left: i32,
    pub top: i32,
    pub width: u32,
    pub height: u32,
}

/// The supported window shapes, by width:height ratio.
#[derive(Clone, Copy, Debug, PartialEq, Eq, Structural)]
pub enum AspectBucket {
    Ratio43x18,
    Ratio16x9,
    Ratio8x5,
    Ratio4x3,
    Ratio7x3,
}

impl AspectBucket {
    /// The ratio as (width part, height part); the two parts are coprime.
    pub open spec fn ratio(self) -> (nat, nat) {
        match self {
            AspectBucket::Ratio43x18 => (43, 18),
            AspectBucket::Ratio16x9 => (16, 9),
            AspectBucket::Ratio8x5 => (8, 5),
            AspectBucket::Ratio4x3 => (4, 3),
            AspectBucket::Ratio7x3 => (7, 3),
        }
    }

    /// Cross-multiplied exact ratio test.
    pub open spec fn matches(self, width: nat, height: nat) -> bool {
        height * self.ratio().0 == width * self.ratio().1
    }
}

/// The bucket of a window size, tried in a fixed order; a degenerate size has none.
pub open spec fn bucket_of(width: nat, height: nat) -> Option<AspectBucket> {
    if width == 0 || height == 0 {
        None
    } else if AspectBucket::Ratio43x18.matches(width, height) {
        Some(AspectBucket::Ratio43x18)
    } else if AspectBucket::Ratio16x9.matches(width, height) {
        Some(AspectBucket::Ratio16x9)
    } else if AspectBucket::Ratio8x5.matches(width, height) {
        Some(AspectBucket::Ratio8x5)
    } else if AspectBucket::Ratio4x3.matches(width, height) {
        Some(AspectBucket::Ratio4x3)
    } else if AspectBucket::Ratio7x3.matches(width, height) {
        Some(AspectBucket::Ratio7x3)
    } else {
        None
    }
}

/// Picks the bucket whose ratio the window size matches exactly.
pub fn select_bucket(width: u32, height: u32) -> (r: Option<AspectBucket>)
    ensures
        r == bucket_of(width as nat, height as nat),
        r is None <==> (width == 0 || height == 0 || forall|b: AspectBucket|
            !#[trigger] b.matches(width as nat, height as nat)),
        r matches Some(b) ==> b.matches(width as nat, height as nat),
{
    let w = width as u64;
    let h = height as u64;
    let r = if w == 0 || h == 0 {
        None
    } else if h * 43 == w * 18 {
        Some(AspectBucket::Ratio43x18)
    } else if h * 16 == w * 9 {
        Some(AspectBucket::Ratio16x9)
    } else if h * 8 == w * 5 {
        Some(AspectBucket::Ratio8x5)
    } else if h * 4 == w * 3 {
        Some(AspectBucket::Ratio4x3)
    } else if h * 7 == w * 3 {
        Some(AspectBucket::Ratio7x3)
    } else {
        None
    };
    proof {
        if r is None && width != 0 && height != 0 {
            assert forall|b: AspectBucket| !#[trigger] b.matches(width as nat, height as nat) by {
                match b {
                    AspectBucket::Ratio43x18 => {},
                    AspectBucket::Ratio16x9 => {},
                    AspectBucket::Ratio8x5 => {},
                    AspectBucket::Ratio4x3 => {},
                    AspectBucket::Ratio7x3 => {},
                }
            }
        }
    }
    r
}

/// A rectangle of a layout, in the pixels of the bucket's reference window.
#[derive(Clone, Copy, Debug, PartialEq, Eq, Structural)]
pub struct RefRect {
    pub x: u32,
    pub y: u32,
    pub w: u32,
    pub h: u32,
}

/// The layout constants of one bucket, given for its reference window size.
#[derive(Clone, Copy, Debug, PartialEq, Eq, Structural)]
pub struct Layout {
    pub ref_width: u32,
    pub ref_height: u32,
    pub title: RefRect,
    pub main_stat_name: RefRect,
    pub main_stat_value: RefRect,
    pub level: RefRect,
    pub sub_stat_1: RefRect,
    pub sub_stat_2: RefRect,
    pub sub_stat_3: RefRect,
    pub sub_stat_4: RefRect,
    pub star: RefRect,
    pub equip: RefRect,
    pub count: RefRect,
    pub slot: RefRect,
    pub gap_x: u32,
    pub gap_y: u32,
    pub columns: u32,
    pub rows: u32,
}

pub open spec fn rect_ok(r: RefRect) -> bool {
    r.x <= MAX_LAYOUT_VALUE && r.y <= MAX_LAYOUT_VALUE && r.w <= MAX_LAYOUT_VALUE && r.h
        <= MAX_LAYOUT_VALUE
}

/// What the scaling arithmetic needs of a layout.
pub open spec fn layout_ok(l: Layout) -> bool {
    &&& l.ref_width > 0
    &&& l.ref_height > 0
    &&& l.gap_x <= MAX_LAYOUT_VALUE
    &&& l.gap_y <= MAX_LAYOUT_VALUE
    &&& rect_ok(l.title)
    &&& rect_ok(l.main_stat_name)
    &&& rect_ok(l.main_stat_value)
    &&& rect_ok(l.level)
    &&& rect_ok(l.sub_stat_1)
    &&& rect_ok(l.sub_stat_2)
    &&& rect_ok(l.sub_stat_3)
    &&& rect_ok(l.sub_stat_4)
    &&& rect_ok(l.star)
    &&& rect_ok(l.equip)
    &&& rect_ok(l.count)
    &&& rect_ok(l.slot)
}

/// The layout of each bucket.
pub open spec fn layout(b: AspectBucket) -> Layout {
        match b {
            AspectBucket::Ratio43x18 => Layout {
                ref_width: 3440,
                ref_height: 1440,
                title: RefRect { x: 2736, y: 176, w: 528, h: 56 },
                main_stat_name: RefRect { x: 2736, y: 376, w: 288, h: 35 },
                main_stat_value: RefRect { x: 2736, y: 416, w: 288, h: 64 },
                level: RefRect { x: 2744, y: 568, w: 72, h: 32 },
                sub_stat_1: RefRect { x: 2760, y: 632, w: 480, h: 48 },
                sub_stat_2: RefRect { x: 2760, y: 688, w: 480, h: 48 },
                sub_stat_3: RefRect { x: 2760, y: 744, w: 480, h: 48 },
                sub_stat_4: RefRect { x: 2760, y: 800, w: 480, h: 48 },
                star: RefRect { x: 2736, y: 496, w: 192, h: 40 },
                equip: RefRect { x: 2784, y: 1312, w: 480, h: 48 },
                count: RefRect { x: 2880, y: 48, w: 320, h: 48 },
                slot: RefRect { x: 144, y: 200, w: 184, h: 224 },
                gap_x: 24,
                gap_y: 32,
                columns: 12,
                rows: 5,
            },
            AspectBucket::Ratio16x9 => Layout {
                ref_width: 1600,
                ref_height: 900,
                title: RefRect { x: 1160, y: 110, w: 330, h: 35 },
                main_stat_name: RefRect { x: 1160, y: 235, w: 180, h: 22 },
                main_stat_value: RefRect { x: 1160, y: 260, w: 180, h: 40 },
                level: RefRect { x: 1165, y: 355, w: 45, h: 20 },
                sub_stat_1: RefRect { x: 1175, y: 395, w: 300, h: 30 },
                sub_stat_2: RefRect { x: 1175, y: 430, w: 300, h: 30 },
                sub_stat_3: RefRect { x: 1175, y: 465, w: 300, h: 30 },
                sub_stat_4: RefRect { x: 1175, y: 500, w: 300, h: 30 },
                star: RefRect { x: 1160, y: 310, w: 120, h: 25 },
                equip: RefRect { x: 1190, y: 820, w: 300, h: 30 },
                count: RefRect { x: 1250, y: 30, w: 200, h: 30 },
                slot: RefRect { x: 90, y: 125, w: 115, h: 140 },
                gap_x: 15,
                gap_y: 20,
                columns: 8,
                rows: 5,
            },
            AspectBucket::Ratio8x5 => Layout {
                ref_width: 1440,
                ref_height: 900,
                title: RefRect { x: 1000, y: 110, w: 330, h: 35 },
                main_stat_name: RefRect { x: 1000, y: 235, w: 180, h: 22 },
                main_stat_value: RefRect { x: 1000, y: 260, w: 180, h: 40 },
                level: RefRect { x: 1005, y: 355, w: 45, h: 20 },
                sub_stat_1: RefRect { x: 1015, y: 395, w: 300, h: 30 },
                sub_stat_2: RefRect { x: 1015, y: 430, w: 300, h: 30 },
                sub_stat_3: RefRect { x: 1015, y: 465, w: 300, h: 30 },
                sub_stat_4: RefRect { x: 1015, y: 500, w: 300, h: 30 },
                star: RefRect { x: 1000, y: 310, w: 120, h: 25 },
                equip: RefRect { x: 1030, y: 820, w: 300, h: 30 },
                count: RefRect { x: 1090, y: 30, w: 200, h: 30 },
                slot: RefRect { x: 90, y: 125, w: 115, h: 140 },
                gap_x: 15,
                gap_y: 20,
                columns: 6,
                rows: 5,
            },
            AspectBucket::Ratio4x3 => Layout {
                ref_width: 1280,
                ref_height: 960,
                title: RefRect { x: 811, y: 117, w: 352, h: 37 },
                main_stat_name: RefRect { x: 811, y: 250, w: 192, h: 23 },
                main_stat_value: RefRect { x: 811, y: 277, w: 192, h: 42 },
                level: RefRect { x: 816, y: 378, w: 48, h: 21 },
                sub_stat_1: RefRect { x: 827, y: 421, w: 320, h: 32 },
                sub_stat_2: RefRect { x: 827, y: 458, w: 320, h: 32 },
                sub_stat_3: RefRect { x: 827, y: 496, w: 320, h: 32 },
                sub_stat_4: RefRect { x: 827, y: 533, w: 320, h: 32 },
                star: RefRect { x: 811, y: 330, w: 128, h: 26 },
                equip: RefRect { x: 843, y: 874, w: 320, h: 32 },
                count: RefRect { x: 907, y: 32, w: 213, h: 32 },
                slot: RefRect { x: 96, y: 133, w: 122, h: 149 },
                gap_x: 16,
                gap_y: 21,
                columns: 4,
                rows: 5,
            },
            AspectBucket::Ratio7x3 => Layout {
                ref_width: 2100,
                ref_height: 900,
                title: RefRect { x: 1660, y: 110, w: 330, h: 35 },
                main_stat_name: RefRect { x: 1660, y: 235, w: 180, h: 22 },
                main_stat_value: RefRect { x: 1660, y: 260, w: 180, h: 40 },
                level: RefRect { x: 1665, y: 355, w: 45, h: 20 },
                sub_stat_1: RefRect { x: 1675, y: 395, w: 300, h: 30 },
                sub_stat_2: RefRect { x: 1675, y: 430, w: 300, h: 30 },
                sub_stat_3: RefRect { x: 1675, y: 465, w: 300, h: 30 },
                sub_stat_4: RefRect { x: 1675, y: 500, w: 300, h: 30 },
                star: RefRect { x: 1660, y: 310, w: 120, h: 25 },
                equip: RefRect { x: 1690, y: 820, w: 300, h: 30 },
                count: RefRect { x: 1750, y: 30, w: 200, h: 30 },
                slot: RefRect { x: 90, y: 125, w: 115, h: 140 },
                gap_x: 15,
                gap_y: 20,
                columns: 11,
                rows: 5,
            },
        }
}

/// Returns the layout constants of a bucket.
pub fn layout_of(b: AspectBucket) -> (l: Layout)
    ensures
        l == layout(b),
        layout_ok(l),
{
        match b {
            AspectBucket::Ratio43x18 => Layout {
                ref_width: 3440,
                ref_height: 1440,
                title: RefRect { x: 2736, y: 176, w: 528, h: 56 },
                main_stat_name: RefRect { x: 2736, y: 376, w: 288, h: 35 },
                main_stat_value: RefRect { x: 2736, y: 416, w: 288, h: 64 },
                level: RefRect { x: 2744, y: 568, w: 72, h: 32 },
                sub_stat_1: RefRect { x: 2760, y: 632, w: 480, h: 48 },
                sub_stat_2: RefRect { x: 2760, y: 688, w: 480, h: 48 },
                sub_stat_3: RefRect { x: 2760, y: 744, w: 480, h: 48 },
                sub_stat_4: RefRect { x: 2760, y: 800, w: 480, h: 48 },
                star: RefRect { x: 2736, y: 496, w: 192, h: 40 },
                equip: RefRect { x: 2784, y: 1312, w: 480, h: 48 },
                count: RefRect { x: 2880, y: 48, w: 320, h: 48 },
                slot: RefRect { x: 144, y: 200, w: 184, h: 224 },
                gap_x: 24,
                gap_y: 32,
                columns: 12,
                rows: 5,
            },
            AspectBucket::Ratio16x9 => Layout {
                ref_width: 1600,
                ref_height: 900,
                title: RefRect { x: 1160, y: 110, w: 330, h: 35 },
                main_stat_name: RefRect { x: 1160, y: 235, w: 180, h: 22 },
                main_stat_value: RefRect { x: 1160, y: 260, w: 180, h: 40 },
                level: RefRect { x: 1165, y: 355, w: 45, h: 20 },
                sub_stat_1: RefRect { x: 1175, y: 395, w: 300, h: 30 },
                sub_stat_2: RefRect { x: 1175, y: 430, w: 300, h: 30 },
                sub_stat_3: RefRect { x: 1175, y: 465, w: 300, h: 30 },
                sub_stat_4: RefRect { x: 1175, y: 500, w: 300, h: 30 },
                star: RefRect { x: 1160, y: 310, w: 120, h: 25 },
                equip: RefRect { x: 1190, y: 820, w: 300, h: 30 },
                count: RefRect { x: 1250, y: 30, w: 200, h: 30 },
                slot: RefRect { x: 90, y: 125, w: 115, h: 140 },
                gap_x: 15,
                gap_y: 20,
                columns: 8,
                rows: 5,
            },
            AspectBucket::Ratio8x5 => Layout {
                ref_width: 1440,
                ref_height: 900,
                title: RefRect { x: 1000, y: 110, w: 330, h: 35 },
                main_stat_name: RefRect { x: 1000, y: 235, w: 180, h: 22 },
                main_stat_value: RefRect { x: 1000, y: 260, w: 180, h: 40 },
                level: RefRect { x: 1005, y: 355, w: 45, h: 20 },
                sub_stat_1: RefRect { x: 1015, y: 395, w: 300, h: 30 },
                sub_stat_2: RefRect { x: 1015, y: 430, w: 300, h: 30 },
                sub_stat_3: RefRect { x: 1015, y: 465, w: 300, h: 30 },
                sub_stat_4: RefRect { x: 1015, y: 500, w: 300, h: 30 },
                star: RefRect { x: 1000, y: 310, w: 120, h: 25 },
                equip: RefRect { x: 1030, y: 820, w: 300, h: 30 },
                count: RefRect { x: 1090, y: 30, w: 200, h: 30 },
                slot: RefRect { x: 90, y: 125, w: 115, h: 140 },
                gap_x: 15,
                gap_y: 20,
                columns: 6,
                rows: 5,
            },
            AspectBucket::Ratio4x3 => Layout {
                ref_width: 1280,
                ref_height: 960,
                title: RefRect { x: 811, y: 117, w: 352, h: 37 },
                main_stat_name: RefRect { x: 811, y: 250, w: 192, h: 23 },
                main_stat_value: RefRect { x: 811, y: 277, w: 192, h: 42 },
                level: RefRect { x: 816, y: 378, w: 48, h: 21 },
                sub_stat_1: RefRect { x: 827, y: 421, w: 320, h: 32 },
                sub_stat_2: RefRect { x: 827, y: 458, w: 320, h: 32 },
                sub_stat_3: RefRect { x: 827, y: 496, w: 320, h: 32 },
                sub_stat_4: RefRect { x: 827, y: 533, w: 320, h: 32 },
                star: RefRect { x: 811, y: 330, w: 128, h: 26 },
                equip: RefRect { x: 843, y: 874, w: 320, h: 32 },
                count: RefRect { x: 907, y: 32, w: 213, h: 32 },
                slot: RefRect { x: 96, y: 133, w: 122, h: 149 },
                gap_x: 16,
                gap_y: 21,
                columns: 4,
                rows: 5,
            },
            AspectBucket::Ratio7x3 => Layout {
                ref_width: 2100,
                ref_height: 900,
                title: RefRect { x: 1660, y: 110, w: 330, h: 35 },
                main_stat_name: RefRect { x: 1660, y: 235, w: 180, h: 22 },
                main_stat_value: RefRect { x: 1660, y: 260, w: 180, h: 40 },
                level: RefRect { x: 1665, y: 355, w: 45, h: 20 },
                sub_stat_1: RefRect { x: 1675, y: 395, w: 300, h: 30 },
                sub_stat_2: RefRect { x: 1675, y: 430, w: 300, h: 30 },
                sub_stat_3: RefRect { x: 1675, y: 465, w: 300, h: 30 },
                sub_stat_4: RefRect { x: 1675, y: 500, w: 300, h: 30 },
                star: RefRect { x: 1660, y: 310, w: 120, h: 25 },
                equip: RefRect { x: 1690, y: 820, w: 300, h: 30 },
                count: RefRect { x: 1750, y: 30, w: 200, h: 30 },
                slot: RefRect { x: 90, y: 125, w: 115, h: 140 },
                gap_x: 15,
                gap_y: 20,
                columns: 11,
                rows: 5,
            },
        }
}

/// A field rectangle in screen pixels.
#[derive(Clone, Copy, Debug, PartialEq, Eq, Structural)]
pub struct FieldRect {
    pub left: i64,
    pub top: i64,
    pub width: u64,
    pub height: u64,
}

/// Every named rectangle of a scan session, in screen pixels.
#[derive(Clone, Copy, Debug, PartialEq, Eq, Structural)]
pub struct GeometrySet {
    pub title: FieldRect,
    pub main_stat_name: FieldRect,
    pub main_stat_value: FieldRect,
    pub level: FieldRect,
    pub sub_stat_1: FieldRect,
    pub sub_stat_2: FieldRect,
    pub sub_stat_3: FieldRect,
    pub sub_stat_4: FieldRect,
    pub star: FieldRect,
    pub equip: FieldRect,
    pub count: FieldRect,
    pub slot: FieldRect,
    pub gap_x: u64,
    pub gap_y: u64,
    pub columns: u32,
    pub rows: u32,
}

#[derive(Clone, Copy, Debug, PartialEq, Eq, Structural)]
pub enum GeometryError {
    UnsupportedResolution,
}

/// A reference length scaled to the window: `v * size / reference`, rounded down.
pub open spec fn scale(v: nat, size: nat, reference: nat) -> nat {
    v * size / reference
}

/// A layout rectangle placed on the window, shifted by the operator's offsets.
pub open spec fn place(r: RefRect, l: Layout, win: WindowRect, ox: int, oy: int) -> FieldRect {
    FieldRect {
        left: (win.left + ox + scale(r.x as nat, win.width as nat, l.ref_width as nat)) as i64,
        top: (win.top + oy + scale(r.y as nat, win.height as nat, l.ref_height as nat)) as i64,
        width: scale(r.w as nat, win.width as nat, l.ref_width as nat) as u64,
        height: scale(r.h as nat, win.height as nat, l.ref_height as nat) as u64,
    }
}

/// The geometry of a layout on a window.
pub open spec fn geometry_for(l: Layout, win: WindowRect, ox: int, oy: int) -> GeometrySet {
    GeometrySet {
        title: place(l.title, l, win, ox, oy),
        main_stat_name: place(l.main_stat_name, l, win, ox, oy),
        main_stat_value: place(l.main_stat_value, l, win, ox, oy),
        level: place(l.level, l, win, ox, oy),
        sub_stat_1: place(l.sub_stat_1, l, win, ox, oy),
        sub_stat_2: place(l.sub_stat_2, l, win, ox, oy),
        sub_stat_3: place(l.sub_stat_3, l, win, ox, oy),
        sub_stat_4: place(l.sub_stat_4, l, win, ox, oy),
        star: place(l.star, l, win, ox, oy),
        equip: place(l.equip, l, win, ox, oy),
        count: place(l.count, l, win, ox, oy),
        slot: place(l.slot, l, win, ox, oy),
        gap_x: scale(l.gap_x as nat, win.width as nat, l.ref_width as nat) as u64,
        gap_y: scale(l.gap_y as nat, win.height as nat, l.ref_height as nat) as u64,
        columns: l.columns,
        rows: l.rows,
    }
}

/// The geometry of a window: that of its bucket's layout, or no geometry at all.
pub open spec fn geometry(win: WindowRect, ox: int, oy: int) -> Result<GeometrySet, GeometryError> {
    match bucket_of(win.width as nat, win.height as nat) {
        Some(b) => Ok(geometry_for(layout(b), win, ox, oy)),
        None => Err(GeometryError::UnsupportedResolution),
    }
}

/// A layout rectangle on a window exactly `k` times the layout's reference size.
pub open spec fn place_multiple(r: RefRect, k: nat, win: WindowRect, ox: int, oy: int) -> FieldRect {
    FieldRect {
        left: (win.left + ox + k * r.x) as i64,
        top: (win.top + oy + k * r.y) as i64,
        width: (k * r.w) as u64,
        height: (k * r.h) as u64,
    }
}

/// Every rectangle and gap of a layout multiplied by `k`.
pub open spec fn geometry_multiple(l: Layout, k: nat, win: WindowRect, ox: int, oy: int) -> GeometrySet {
    GeometrySet {
        title: place_multiple(l.title, k, win, ox, oy),
        main_stat_name: place_multiple(l.main_stat_name, k, win, ox, oy),
        main_stat_value: place_multiple(l.main_stat_value, k, win, ox, oy),
        level: place_multiple(l.level, k, win, ox, oy),
        sub_stat_1: place_multiple(l.sub_stat_1, k, win, ox, oy),
        sub_stat_2: place_multiple(l.sub_stat_2, k, win, ox, oy),
        sub_stat_3: place_multiple(l.sub_stat_3, k, win, ox, oy),
        sub_stat_4: place_multiple(l.sub_stat_4, k, win, ox, oy),
        star: place_multiple(l.star, k, win, ox, oy),
        equip: place_multiple(l.equip, k, win, ox, oy),
        count: place_multiple(l.count, k, win, ox, oy),
        slot: place_multiple(l.slot, k, win, ox, oy),
        gap_x: (k * l.gap_x) as u64,
        gap_y: (k * l.gap_y) as u64,
        columns: l.columns,
        rows: l.rows,
    }
}

proof fn lemma_scale_multiple(v: nat, k: nat, reference: nat)
    requires
        reference > 0,
    ensures
        scale(v, k * reference, reference) == k * v,
{
    assert(v * (k * reference) == reference * (k * v)) by (nonlinear_arith);
    vstd::arithmetic::div_mod::lemma_div_multiples_vanish((k * v) as int, reference as int);
}

/// Equal windows and offsets give equal geometry: it depends on nothing else.
pub proof fn lemma_geometry_deterministic(a: WindowRect, b: WindowRect, ox: int, oy: int)
    requires
        a == b,
    ensures
        geometry(a, ox, oy) == geometry(b, ox, oy),
{
}

/// Geometry scales linearly with the window: on a window of bucket `b` that is `k` times
/// the bucket's reference size, every rectangle's offset from the window origin, every
/// size and every gap is `k` times its layout constant.
pub proof fn lemma_geometry_scales_linearly(win: WindowRect, ox: int, oy: int, b: AspectBucket, k: nat)
    requires
        bucket_of(win.width as nat, win.height as nat) == Some(b),
        win.width == k * layout(b).ref_width,
        win.height == k * layout(b).ref_height,
    ensures
        geometry(win, ox, oy) == Ok::<GeometrySet, GeometryError>(geometry_multiple(layout(b), k, win, ox, oy)),
{
    let l = layout(b);
    assert(layout_ok(l));
    assert forall|v: nat| #[trigger] scale(v, win.width as nat, l.ref_width as nat) == k * v by {
        lemma_scale_multiple(v, k, l.ref_width as nat);
    }
    assert forall|v: nat| #[trigger] scale(v, win.height as nat, l.ref_height as nat) == k * v by {
        lemma_scale_multiple(v, k, l.ref_height as nat);
    }
}

/// `q` is `v * size / reference` rounded down: `q * reference <= v * size < (q + 1) * reference`.
pub open spec fn floor_scaled(q: int, v: nat, size: nat, reference: nat) -> bool {
    q * reference <= v * size < (q + 1) * reference
}

/// `f` is the layout rectangle `r` scaled linearly to the window and rounded down: its
/// offset from the window origin (shifted by the operator's offsets) and its size are the
/// layout constants times window size over reference size.
pub open spec fn scaled_linearly(f: FieldRect, r: RefRect, l: Layout, win: WindowRect, ox: int, oy: int) -> bool {
    &&& floor_scaled(f.left - win.left - ox, r.x as nat, win.width as nat, l.ref_width as nat)
    &&& floor_scaled(f.top - win.top - oy, r.y as nat, win.height as nat, l.ref_height as nat)
    &&& floor_scaled(f.width as int, r.w as nat, win.width as nat, l.ref_width as nat)
    &&& floor_scaled(f.height as int, r.h as nat, win.height as nat, l.ref_height as nat)
}

proof fn lemma_scale_floor(v: nat, size: nat, reference: nat)
    requires
        reference > 0,
        v <= MAX_LAYOUT_VALUE,
        size <= 0xffff_ffffnat,
    ensures
        floor_scaled(scale(v, size, reference) as int, v, size, reference),
        scale(v, size, reference) <= MAX_LAYOUT_VALUE * 0xffff_ffffnat,
{
    let p = v * size;
    let q = scale(v, size, reference) as int;
    vstd::arithmetic::div_mod::lemma_fundamental_div_mod(p as int, reference as int);
    vstd::arithmetic::div_mod::lemma_mod_bound(p as int, reference as int);
    assert(q * reference <= p < (q + 1) * reference) by (nonlinear_arith)
        requires
            p == reference * q + (p % reference) as int,
            0 <= (p % reference) as int,
            ((p % reference) as int) < reference,
    ;
    vstd::arithmetic::mul::lemma_mul_upper_bound(v as int, MAX_LAYOUT_VALUE as int, size as int, 0xffff_ffff);
    vstd::arithmetic::div_mod::lemma_div_is_ordered_by_denominator(p as int, 1, reference as int);
}

proof fn lemma_place_linear(r: RefRect, l: Layout, win: WindowRect, ox: i32, oy: i32)
    requires
        layout_ok(l),
        rect_ok(r),
    ensures
        scaled_linearly(place(r, l, win, ox as int, oy as int), r, l, win, ox as int, oy as int),
{
    lemma_scale_floor(r.x as nat, win.width as nat, l.ref_width as nat);
    lemma_scale_floor(r.y as nat, win.height as nat, l.ref_height as nat);
    lemma_scale_floor(r.w as nat, win.width as nat, l.ref_width as nat);
    lemma_scale_floor(r.h as nat, win.height as nat, l.ref_height as nat);
}

/// Geometry scales linearly with the window: on every window of a supported bucket, each
/// rectangle's offset from the window origin (shifted by the offsets) and its size are
/// the bucket's layout constants times window width (or height) over the reference width
/// (or height), rounded down.
pub proof fn lemma_geometry_linear(win: WindowRect, ox: i32, oy: i32, b: AspectBucket)
    requires
        bucket_of(win.width as nat, win.height as nat) == Some(b),
    ensures
        geometry(win, ox as int, oy as int) matches Ok(g) && {
            &&& scaled_linearly(g.title, layout(b).title, layout(b), win, ox as int, oy as int)
            &&& scaled_linearly(g.main_stat_name, layout(b).main_stat_name, layout(b), win, ox as int, oy as int)
            &&& scaled_linearly(g.main_stat_value, layout(b).main_stat_value, layout(b), win, ox as int, oy as int)
            &&& scaled_linearly(g.level, layout(b).level, layout(b), win, ox as int, oy as int)
            &&& scaled_linearly(g.sub_stat_1, layout(b).sub_stat_1, layout(b), win, ox as int, oy as int)
            &&& scaled_linearly(g.sub_stat_2, layout(b).sub_stat_2, layout(b), win, ox as int, oy as int)
            &&& scaled_linearly(g.sub_stat_3, layout(b).sub_stat_3, layout(b), win, ox as int, oy as int)
            &&& scaled_linearly(g.sub_stat_4, layout(b).sub_stat_4, layout(b), win, ox as int, oy as int)
            &&& scaled_linearly(g.star, layout(b).star, layout(b), win, ox as int, oy as int)
            &&& scaled_linearly(g.equip, layout(b).equip, layout(b), win, ox as int, oy as int)
            &&& scaled_linearly(g.count, layout(b).count, layout(b), win, ox as int, oy as int)
            &&& scaled_linearly(g.slot, layout(b).slot, layout(b), win, ox as int, oy as int)
        },
{
    let l = layout(b);
    assert(layout_ok(l));
    lemma_place_linear(l.title, l, win, ox, oy);
    lemma_place_linear(l.main_stat_name, l, win, ox, oy);
    lemma_place_linear(l.main_stat_value, l, win, ox, oy);
    lemma_place_linear(l.level, l, win, ox, oy);
    lemma_place_linear(l.sub_stat_1, l, win, ox, oy);
    lemma_place_linear(l.sub_stat_2, l, win, ox, oy);
    lemma_place_linear(l.sub_stat_3, l, win, ox, oy);
    lemma_place_linear(l.sub_stat_4, l, win, ox, oy);
    lemma_place_linear(l.star, l, win, ox, oy);
    lemma_place_linear(l.equip, l, win, ox, oy);
    lemma_place_linear(l.count, l, win, ox, oy);
    lemma_place_linear(l.slot, l, win, ox, oy);
}

fn scale_exec(v: u32, size: u32, reference: u32) -> (r: u64)
    requires
        reference > 0,
        v <= MAX_LAYOUT_VALUE,
    ensures
        r == scale(v as nat, size as nat, reference as nat),
        r <= MAX_LAYOUT_VALUE * 0xffff_ffffnat,
{
    proof {
        assert((v as nat) * (size as nat) <= MAX_LAYOUT_VALUE * 0xffff_ffffnat) by (nonlinear_arith)
            requires
                v <= MAX_LAYOUT_VALUE,
                size <= 0xffff_ffffnat,
        ;
    }
    let p = (v as u64) * (size as u64);
    proof {
        vstd::arithmetic::div_mod::lemma_div_is_ordered_by_denominator(p as int, 1, reference as int);
    }
    p / (reference as u64)
}

fn place_exec(r: RefRect, l: &Layout, win: WindowRect, offset_x: i32, offset_y: i32) -> (f: FieldRect)
    requires
        layout_ok(*l),
        rect_ok(r),
    ensures
        f == place(r, *l, win, offset_x as int, offset_y as int),
{
    let dx = scale_exec(r.x, win.width, l.ref_width);
    let dy = scale_exec(r.y, win.height, l.ref_height);
    let w = scale_exec(r.w, win.width, l.ref_width);
    let h = scale_exec(r.h, win.height, l.ref_height);
    FieldRect {
        left: win.left as i64 + offset_x as i64 + dx as i64,
        top: win.top as i64 + offset_y as i64 + dy as i64,
        width: w,
        height: h,
    }
}

/// Derives every field rectangle of a session from the window and the operator's offsets.
pub fn derive_geometry(win: WindowRect, offset_x: i32, offset_y: i32) -> (r: Result<GeometrySet, GeometryError>)
    ensures
        r == geometry(win, offset_x as int, offset_y as int),
        r is Err <==> (win.width == 0 || win.height == 0 || forall|b: AspectBucket|
            !#[trigger] b.matches(win.width as nat, win.height as nat)),
{
    let b = match select_bucket(win.width, win.height) {
        Some(b) => b,
        None => {
            return Err(GeometryError::UnsupportedResolution);
        },
    };
    let l = layout_of(b);
    let gx = scale_exec(l.gap_x, win.width, l.ref_width);
    let gy = scale_exec(l.gap_y, win.height, l.ref_height);
    Ok(GeometrySet {
        title: place_exec(l.title, &l, win, offset_x, offset_y),
        main_stat_name: place_exec(l.main_stat_name, &l, win, offset_x, offset_y),
        main_stat_value: place_exec(l.main_stat_value, &l, win, offset_x, offset_y),
        level: place_exec(l.level, &l, win, offset_x, offset_y),
        sub_stat_1: place_exec(l.sub_stat_1, &l, win, offset_x, offset_y),
        sub_stat_2: place_exec(l.sub_stat_2, &l, win, offset_x, offset_y),
        sub_stat_3: place_exec(l.sub_stat_3, &l, win, offset_x, offset_y),
        sub_stat_4: place_exec(l.sub_stat_4, &l, win, offset_x, offset_y),
        star: place_exec(l.star, &l, win, offset_x, offset_y),
        equip: place_exec(l.equip, &l, win, offset_x, offset_y),
        count: place_exec(l.count, &l, win, offset_x, offset_y),
        slot: place_exec(l.slot, &l, win, offset_x, offset_y),
        gap_x: gx,
        gap_y: gy,
        columns: l.columns,
        rows: l.rows,
    })
}

/// The screen point at the centre of the slot at `column`, `row` of the current page.
pub open spec fn slot_center_spec(g: GeometrySet, column: u32, row: u32) -> (int, int) {
    (
        g.slot.left + column * (g.slot.width + g.gap_x) + g.slot.width / 2,
        g.slot.top + row * (g.slot.height + g.gap_y) + g.slot.height / 2,
    )
}

/// Where to click to select the slot at `column`, `row` of the current page.
pub fn slot_center(g: &GeometrySet, column: u32, row: u32) -> (r: (i128, i128))
    ensures
        (r.0 as int, r.1 as int) == slot_center_spec(*g, column, row),
{
    let step_x: u128 = g.slot.width as u128 + g.gap_x as u128;
    let step_y: u128 = g.slot.height as u128 + g.gap_y as u128;
    proof {
        vstd::arithmetic::mul::lemma_mul_upper_bound(column as int, 0xffff_ffff, step_x as int, 0x2_0000_0000_0000_0000);
        vstd::arithmetic::mul::lemma_mul_upper_bound(row as int, 0xffff_ffff, step_y as int, 0x2_0000_0000_0000_0000);
    }
    let x = g.slot.left as i128 + (column as u128 * step_x) as i128 + (g.slot.width / 2) as i128;
    let y = g.slot.top as i128 + (row as u128 * step_y) as i128 + (g.slot.height / 2) as i128;
    (x, y)
}

/// The window a list of decimal numbers gives: left, top, width and height, in that order,
/// the first four entries; left and top must fit in `i32`.
pub open spec fn window_from_numbers(lines: Seq<Seq<char>>) -> Option<WindowRect> {
    if lines.len() < 4 {
        None
    } else {
        match (decimal_of(lines[0]), decimal_of(lines[1]), decimal_of(lines[2]), decimal_of(lines[3])) {
            (Some(l), Some(t), Some(w), Some(h)) => if l <= i32::MAX && t <= i32::MAX {
                Some(WindowRect { left: l as i32, top: t as i32, width: w, height: h })
            } else {
                None
            },
            _ => None,
        }
    }
}

/// Reads a window rectangle out of four lines of decimal numbers: left, top, width, height.
pub fn window_from_lines(lines: &Vec<String>) -> (r: Option<WindowRect>)
    ensures
        r == window_from_numbers(lines@.map_values(|s: String| s@)),
{
    let ghost v = lines@.map_values(|s: String| s@);
    if lines.len() < 4 {
        return None;
    }
    let l = parse_decimal(lines[0].as_str());
    let t = parse_decimal(lines[1].as_str());
    let w = parse_decimal(lines[2].as_str());
    let h = parse_decimal(lines[3].as_str());
    assert(v[0] == lines@[0]@ && v[1] == lines@[1]@ && v[2] == lines@[2]@ && v[3] == lines@[3]@);
    match (l, t, w, h) {
        (Some(l), Some(t), Some(w), Some(h)) => {
            if l <= 0x7fff_ffff && t <= 0x7fff_ffff {
                Some(WindowRect { left: l as i32, top: t as i32, width: w, height: h })
            } else {
                None
            }
        },
        _ => None,
    }
}

} // verus!
