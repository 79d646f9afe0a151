use lib::frame::Rect;
use lib::{
    Frame,
    generate_frame, grey, validate_options, write_y4m, ycbcr_from_rgb, GeneratorOptions, RgbCode,
    Transfer, Ycbcr, BASE_HEIGHT, BASE_WIDTH, CHROMA_NEUTRAL, GREY_40_CODE, HLG_MAIN_BAR_CODE,
    LIMITED_BLACK, LIMITED_WHITE, PQ_MAIN_BAR_CODE, RAMP_MAX_CODE, RAMP_MIN_CODE,
};

const TEST_NON_INTEGER_SCALE_WIDTH: usize = 1280;
const TEST_NON_INTEGER_SCALE_HEIGHT: usize = 720;
const UHD_WIDTH: usize = 3840;
const UHD_HEIGHT: usize = 2160;
const EIGHT_K_WIDTH: usize = 7680;
const EIGHT_K_HEIGHT: usize = 4320;

fn options(transfer: Transfer, width: usize, height: usize, frames: usize) -> GeneratorOptions {
    GeneratorOptions { transfer, width, height, frames }
}

#[test]
fn rgb_to_ycbcr_known_colors() {
    assert_eq!(
        ycbcr_from_rgb(grey(LIMITED_BLACK)),
        Ycbcr { y: LIMITED_BLACK, cb: CHROMA_NEUTRAL, cr: CHROMA_NEUTRAL }
    );
    assert_eq!(
        ycbcr_from_rgb(grey(LIMITED_WHITE)),
        Ycbcr { y: LIMITED_WHITE, cb: CHROMA_NEUTRAL, cr: CHROMA_NEUTRAL }
    );
    assert_eq!(
        ycbcr_from_rgb(RgbCode { r: LIMITED_WHITE, g: LIMITED_BLACK, b: LIMITED_BLACK }),
        Ycbcr { y: 294, cb: 387, cr: 960 }
    );
}

#[test]
fn representative_hlg_regions() {
    let frame = generate_frame(options(Transfer::Hlg, BASE_WIDTH, BASE_HEIGHT, 1)).unwrap();

    assert_eq!(frame.pixel(10, 10), ycbcr_from_rgb(grey(GREY_40_CODE)));
    assert_eq!(frame.pixel(250, 10), ycbcr_from_rgb(grey(LIMITED_WHITE)));
    assert_eq!(
        frame.pixel(450, 100),
        ycbcr_from_rgb(RgbCode { r: HLG_MAIN_BAR_CODE, g: HLG_MAIN_BAR_CODE, b: LIMITED_BLACK })
    );
    assert_eq!(frame.pixel(250, 650), ycbcr_from_rgb(grey(RAMP_MIN_CODE)));
    assert_eq!(frame.pixel(250, 730).cb, CHROMA_NEUTRAL);
    assert_eq!(frame.pixel(250, 730).cr, CHROMA_NEUTRAL);
    assert_eq!(frame.pixel(10, 830), Ycbcr { y: 694, cb: 307, cr: 526 });
    assert_eq!(frame.pixel(400, 830), ycbcr_from_rgb(grey(46)));
    assert_eq!(frame.pixel(1000, 830), ycbcr_from_rgb(grey(HLG_MAIN_BAR_CODE)));
    assert_eq!(frame.pixel(1700, 830), Ycbcr { y: 406, cb: 674, cr: 681 });
}

#[test]
fn hlg_stair_and_ramp_boundaries() {
    let frame = generate_frame(options(Transfer::Hlg, BASE_WIDTH, BASE_HEIGHT, 1)).unwrap();

    assert_eq!(frame.pixel(1164, 650).y, 590);
    assert_eq!(frame.pixel(1165, 650).y, 677);
    assert_eq!(frame.pixel(239, 730).y, LIMITED_BLACK);
    assert_eq!(frame.pixel(240, 730).y, RAMP_MIN_CODE);
    assert_eq!(frame.pixel(699, 730).y, RAMP_MIN_CODE);
    assert_eq!(frame.pixel(700, 730).y, 5);
    assert_eq!(frame.pixel(1714, 730).y, RAMP_MAX_CODE);
    assert_eq!(frame.pixel(1715, 730).y, RAMP_MAX_CODE);
}

#[test]
fn accepts_native_4k_and_8k_scales() {
    for (width, height) in [
        (BASE_WIDTH, BASE_HEIGHT),
        (UHD_WIDTH, UHD_HEIGHT),
        (EIGHT_K_WIDTH, EIGHT_K_HEIGHT),
    ] {
        assert!(validate_options(options(Transfer::Pq, width, height, 1)).is_ok());
    }
}

#[test]
fn representative_hlg_regions_scale_to_4k() {
    let frame = generate_frame(options(Transfer::Hlg, UHD_WIDTH, UHD_HEIGHT, 1)).unwrap();

    assert_eq!(frame.pixel(20, 20), ycbcr_from_rgb(grey(GREY_40_CODE)));
    assert_eq!(frame.pixel(500, 20), ycbcr_from_rgb(grey(LIMITED_WHITE)));
    assert_eq!(frame.pixel(500, 1300), ycbcr_from_rgb(grey(RAMP_MIN_CODE)));
    assert_eq!(frame.pixel(2000, 1660), ycbcr_from_rgb(grey(HLG_MAIN_BAR_CODE)));
}

#[test]
fn rejects_non_integer_scale() {
    assert!(generate_frame(options(
        Transfer::Pq,
        TEST_NON_INTEGER_SCALE_WIDTH,
        TEST_NON_INTEGER_SCALE_HEIGHT,
        1
    ))
    .is_err());
}

#[test]
fn validation_messages_name_the_failed_check() {
    let message = |o: GeneratorOptions| validate_options(o).unwrap_err();
    assert_eq!(message(options(Transfer::Pq, 1920, 1080, 0)), "frames must be greater than zero");
    assert_eq!(
        message(options(Transfer::Pq, 1280, 720, 1)),
        "native generation starts at 1920x1080; generate lower resolutions by resampling"
    );
    assert_eq!(
        message(options(Transfer::Pq, 2000, 1080, 1)),
        "only integer scales of 1920x1080 are supported"
    );
    assert_eq!(
        message(options(Transfer::Pq, 3840, 1080, 1)),
        "width and height must use the same integer scale from 1920x1080"
    );
    assert!(validate_options(options(Transfer::Hlg, 5760, 3240, 3)).is_ok());
}

#[test]
fn grey_colours_are_neutral() {
    for v in [0u16, 4, 46, 64, 414, 721, 940, 1019, 1023] {
        assert_eq!(ycbcr_from_rgb(grey(v)), Ycbcr { y: v, cb: CHROMA_NEUTRAL, cr: CHROMA_NEUTRAL });
    }
}

#[test]
fn conversion_clamps_to_ten_bits() {
    assert_eq!(ycbcr_from_rgb(grey(2000)), Ycbcr { y: 1023, cb: 512, cr: 512 });
    assert_eq!(ycbcr_from_rgb(grey(0)).y, 0);
    assert_eq!(
        ycbcr_from_rgb(RgbCode { r: LIMITED_BLACK, g: LIMITED_BLACK, b: LIMITED_WHITE }),
        Ycbcr { y: 116, cb: 960, cr: 476 }
    );
}

#[test]
fn pq_bars_and_patches() {
    let frame = generate_frame(options(Transfer::Pq, BASE_WIDTH, BASE_HEIGHT, 1)).unwrap();
    assert_eq!(frame.pixel(300, 300), ycbcr_from_rgb(grey(PQ_MAIN_BAR_CODE)));
    assert_eq!(frame.pixel(1000, 900), ycbcr_from_rgb(grey(PQ_MAIN_BAR_CODE)));
    assert_eq!(frame.pixel(10, 1000), Ycbcr { y: 559, cb: 415, cr: 518 });
    assert_eq!(frame.pixel(1900, 1000), Ycbcr { y: 277, cb: 667, cr: 540 });
    assert_eq!(frame.pixel(1919, 1079), Ycbcr { y: 277, cb: 667, cr: 540 });
    assert_eq!(frame.pixel(1800, 10), ycbcr_from_rgb(grey(GREY_40_CODE)));
}

#[test]
fn scaled_frame_repeats_the_2k_luma() {
    let base = generate_frame(options(Transfer::Hlg, BASE_WIDTH, BASE_HEIGHT, 1)).unwrap();
    let uhd = generate_frame(options(Transfer::Hlg, UHD_WIDTH, UHD_HEIGHT, 1)).unwrap();
    for (x, y) in [(0, 0), (481, 7), (1500, 1299), (3000, 1700), (3839, 2159), (1429, 1459)] {
        assert_eq!(uhd.pixel(x, y), base.pixel(x / 2, y / 2));
    }
    for x in (0..3840).step_by(7) {
        for y in [5, 200, 1270, 1450, 1800, 2100] {
            assert_eq!(uhd.pixel(x, y), base.pixel(x / 2, y / 2));
        }
    }
}

#[test]
fn y4m_stream_layout() {
    let mut out = Vec::new();
    write_y4m(&mut out, options(Transfer::Hlg, BASE_WIDTH, BASE_HEIGHT, 2)).unwrap();
    let header = b"YUV4MPEG2 W1920 H1080 F30:1 Ip A0:0 C420p10 XYSCSS=420P10\n";
    assert_eq!(&out[..header.len()], &header[..]);
    let record = 6 + 3 * 1920 * 1080;
    assert_eq!(out.len(), header.len() + 2 * record);
    assert_eq!(&out[header.len()..header.len() + 6], b"FRAME\n");
    // first luma sample: 40% grey, little endian
    let first = header.len() + 6;
    assert_eq!(out[first] as u16 + 256 * out[first + 1] as u16, 414);
    assert_eq!(&out[header.len()..header.len() + record], &out[header.len() + record..]);
}

#[test]
fn y4m_rejects_without_writing() {
    let mut out = vec![1u8, 2, 3];
    let err = write_y4m(&mut out, options(Transfer::Pq, 1920, 1080, 0)).unwrap_err();
    assert_eq!(err, "frames must be greater than zero");
    assert_eq!(out, vec![1u8, 2, 3]);
}

/// The BT.2020 conversion carried out in `f64`, rounding half away from zero.
fn float_conversion(rgb: RgbCode) -> Option<Ycbcr> {
    let norm = |c: u16| (c as f64 - 64.0) / 876.0;
    let (r, g, b) = (norm(rgb.r), norm(rgb.g), norm(rgb.b));
    let kr = 0.2627;
    let kb = 0.0593;
    let kg = 1.0 - kr - kb;
    let y = kr * r + kg * g + kb * b;
    let cb = (b - y) / (2.0 * (1.0 - kb));
    let cr = (r - y) / (2.0 * (1.0 - kr));
    let luma = 64.0 + 876.0 * y;
    // exact halves of the luma formula are left to floating-point error
    let weighted = 2627 * (rgb.r as i64 - 64) + 6780 * (rgb.g as i64 - 64) + 593 * (rgb.b as i64 - 64);
    if weighted.rem_euclid(10000) == 5000 {
        return None;
    }
    let code = |v: f64| (v.round() as i32).clamp(0, 1023) as u16;
    Some(Ycbcr { y: code(luma), cb: code(512.0 + 896.0 * cb), cr: code(512.0 + 896.0 * cr) })
}

#[test]
fn exact_conversion_agrees_with_floating_point() {
    let mut palette = Vec::new();
    for high in [LIMITED_WHITE, HLG_MAIN_BAR_CODE, PQ_MAIN_BAR_CODE] {
        for bits in 0..8u8 {
            let pick = |bit: u8| if bits & bit != 0 { high } else { LIMITED_BLACK };
            palette.push(RgbCode { r: pick(4), g: pick(2), b: pick(1) });
        }
    }
    for v in [4u16, 46, 64, 82, 99, 152, 239, 327, 414, 502, 590, 677, 765, 852, 940, 1019] {
        palette.push(grey(v));
    }
    for rgb in palette {
        assert_eq!(Some(ycbcr_from_rgb(rgb)), float_conversion(rgb));
    }
    let mut state: u64 = 0x2111;
    for _ in 0..20000 {
        state = state.wrapping_mul(6364136223846793005).wrapping_add(1442695040888963407);
        let rgb = RgbCode {
            r: (state >> 20) as u16 % 1024,
            g: (state >> 34) as u16 % 1024,
            b: (state >> 48) as u16 % 1024,
        };
        if let Some(expected) = float_conversion(rgb) {
            assert_eq!(ycbcr_from_rgb(rgb), expected);
        }
    }
}

#[test]
fn ramp_rises_one_code_per_column() {
    let frame = generate_frame(options(Transfer::Pq, BASE_WIDTH, BASE_HEIGHT, 1)).unwrap();
    for x in 240..1920usize {
        let expected = (x as i32 - 695).clamp(4, 1019) as u16;
        assert_eq!(frame.pixel(x, 780).y, expected);
        assert_eq!(frame.pixel(x, 780).cb, CHROMA_NEUTRAL);
    }
}

#[test]
fn fill_rect_paints_luma_and_covered_chroma() {
    let mut frame = Frame::new(6, 4);
    assert_eq!(frame.pixel(5, 3), Ycbcr { y: LIMITED_BLACK, cb: CHROMA_NEUTRAL, cr: CHROMA_NEUTRAL });
    let color = Ycbcr { y: 700, cb: 300, cr: 800 };
    frame.fill_rect(Rect { x: 1, y: 1, w: 3, h: 2 }, color);
    // luma follows the rectangle exactly
    assert_eq!(frame.pixel(1, 1).y, 700);
    assert_eq!(frame.pixel(3, 2).y, 700);
    assert_eq!(frame.pixel(0, 1).y, LIMITED_BLACK);
    assert_eq!(frame.pixel(4, 1).y, LIMITED_BLACK);
    assert_eq!(frame.pixel(1, 3).y, LIMITED_BLACK);
    // a chroma sample is painted when the bottom-right sample of its 2x2 block is
    assert_eq!(frame.pixel(0, 0).cb, 300);
    assert_eq!(frame.pixel(2, 0).cr, 800);
    assert_eq!(frame.pixel(4, 0).cb, CHROMA_NEUTRAL);
    assert_eq!(frame.pixel(0, 2).cb, CHROMA_NEUTRAL);
}

#[test]
fn scale_three_repeats_every_2k_pixel() {
    let base = generate_frame(options(Transfer::Pq, BASE_WIDTH, BASE_HEIGHT, 1)).unwrap();
    let big = generate_frame(options(Transfer::Pq, 3 * BASE_WIDTH, 3 * BASE_HEIGHT, 1)).unwrap();
    for x in (0..3 * BASE_WIDTH).step_by(5) {
        for y in [0, 271, 1300, 1891, 2000, 2200, 2500, 3239] {
            assert_eq!(big.pixel(x, y), base.pixel(x / 3, y / 3));
        }
    }
}

fn transfer_dependent(x: usize, y: usize) -> bool {
    (240..1680).contains(&x) && (90..630).contains(&y)
        || (x < 240 || x >= 1680) && ((630..720).contains(&y) || y >= 810)
        || (960..1398).contains(&x) && y >= 810
}

#[test]
fn only_dimmed_bars_caps_patches_and_white_depend_on_transfer() {
    let pq = generate_frame(options(Transfer::Pq, BASE_WIDTH, BASE_HEIGHT, 1)).unwrap();
    let hlg = generate_frame(options(Transfer::Hlg, BASE_WIDTH, BASE_HEIGHT, 1)).unwrap();
    for x in (0..BASE_WIDTH).step_by(3) {
        for y in (0..BASE_HEIGHT).step_by(11) {
            assert_eq!(pq.pixel(x, y) == hlg.pixel(x, y), !transfer_dependent(x, y), "at {x},{y}");
        }
    }
}

#[test]
fn ramp_row_at_4k_covers_the_narrow_range() {
    let frame = generate_frame(options(Transfer::Hlg, UHD_WIDTH, UHD_HEIGHT, 1)).unwrap();
    let row: Vec<u16> = (480..UHD_WIDTH).map(|x| frame.pixel(x, 1500).y).collect();
    assert_eq!(row[0], RAMP_MIN_CODE);
    assert_eq!(*row.last().unwrap(), RAMP_MAX_CODE);
    assert!(row.windows(2).all(|w| w[0] <= w[1]));
    for code in RAMP_MIN_CODE..=RAMP_MAX_CODE {
        assert!(row.contains(&code));
    }
}
