//! Tests of the frame buffer itself: construction, clearing, clipping,
//! iteration order, and the raw element range handed to a transfer engine.

use std::collections::HashMap;
use std::hash::Hash;

use embedded_graphics_framebuf::backends::{EndianCorrectedBuffer, EndianCorrection};
use embedded_graphics_framebuf::geometry::{Pixel, Point};
use embedded_graphics_framebuf::pixelcolor::{BinaryColor, RawU16Color, Rgb565};
use embedded_graphics_framebuf::FrameBuf;

fn get_px_nums<C>(fbuf: &FrameBuf<C, Vec<C>>) -> HashMap<C, i32>
where
    C: embedded_graphics_framebuf::pixelcolor::PixelColor + Hash + Eq,
{
    let mut px_nums: HashMap<C, i32> = HashMap::new();
    for px in fbuf.data.iter() {
        match px_nums.get_mut(px) {
            Some(v) => *v += 1,
            None => {
                px_nums.insert(*px, 1);
            }
        };
    }
    px_nums
}

#[test]
fn clears_buffer() {
    let mut fbuf = FrameBuf::new(vec![Rgb565::white(); 5 * 10], 5, 10);
    fbuf.clear_black();

    let px_nums = get_px_nums(&fbuf);

    assert_eq!(px_nums.get(&Rgb565::black()).unwrap(), &50);
    assert_eq!(px_nums.get(&Rgb565::white()), None);
}

#[test]
fn clears_with_color() {
    let mut fbuf = FrameBuf::new(vec![Rgb565::red(); 5 * 5], 5, 5);
    fbuf.clear(Rgb565::blue());

    let px_nums = get_px_nums(&fbuf);

    assert_eq!(px_nums.get(&Rgb565::blue()).unwrap(), &25);
    assert_eq!(px_nums.get(&Rgb565::red()), None);
}

#[test]
fn size_invariant_construction() {
    // A backend whose element count is not width * height never yields a
    // buffer, whatever the positive dimensions.
    for (w, h) in [(1usize, 1usize), (2, 3), (5, 10), (12, 11)] {
        let short = FrameBuf::try_new(vec![Rgb565::black(); w * h - 1], w, h);
        assert!(short.is_none());
        let long = FrameBuf::try_new(vec![Rgb565::black(); w * h + 1], w, h);
        assert!(long.is_none());
        let exact = FrameBuf::try_new(vec![Rgb565::black(); w * h], w, h);
        let fb = exact.unwrap();
        assert_eq!(fb.size(), (w, h));
        assert_eq!(fb.width(), w);
        assert_eq!(fb.height(), h);
    }
    // The endian-corrected backend counts logical elements the same way.
    let backend = EndianCorrectedBuffer::new(vec![Rgb565::black(); 7], EndianCorrection::ToBigEndian);
    assert!(FrameBuf::try_new(backend, 2, 3).is_none());
}

#[test]
fn clear_semantics() {
    let mut fbuf = FrameBuf::new(vec![Rgb565::red(); 4 * 3], 4, 3);
    fbuf.clear(Rgb565::green());
    for y in 0..3 {
        for x in 0..4 {
            assert_eq!(fbuf.get_color_at(Point::new(x, y)), Rgb565::green());
        }
    }
    let px_nums = get_px_nums(&fbuf);
    assert_eq!(px_nums.get(&Rgb565::red()), None);
    assert_eq!(px_nums.get(&Rgb565::blue()), None);
}

#[test]
fn clipping_drops_out_of_range_points() {
    let mut fbuf = FrameBuf::new(vec![BinaryColor::Off; 3 * 3], 3, 3);
    let stream = vec![
        Pixel(Point::new(-1, 0), BinaryColor::On),
        Pixel(Point::new(0, -1), BinaryColor::On),
        Pixel(Point::new(3, 0), BinaryColor::On),
        Pixel(Point::new(0, 3), BinaryColor::On),
        Pixel(Point::new(1, 1), BinaryColor::On),
        Pixel(Point::new(100, 100), BinaryColor::On),
        Pixel(Point::new(i32::MIN, i32::MAX), BinaryColor::On),
    ];
    // The call does not fail, the in-range pixel lands, and nothing else —
    // in particular no neighbor of the dropped points — changes.
    fbuf.draw_iter(&stream);
    for y in 0..3 {
        for x in 0..3 {
            let expected = if x == 1 && y == 1 { BinaryColor::On } else { BinaryColor::Off };
            assert_eq!(fbuf.get_color_at(Point::new(x, y)), expected);
        }
    }
}

#[test]
fn draw_iter_applies_in_stream_order() {
    let mut fbuf = FrameBuf::new(vec![Rgb565::black(); 2 * 2], 2, 2);
    let stream = vec![
        Pixel(Point::new(0, 0), Rgb565::red()),
        Pixel(Point::new(0, 0), Rgb565::blue()),
        Pixel(Point::new(1, 1), Rgb565::green()),
    ];
    fbuf.draw_iter(&stream);
    // The later write to the same point wins.
    assert_eq!(fbuf.get_color_at(Point::new(0, 0)), Rgb565::blue());
    assert_eq!(fbuf.get_color_at(Point::new(1, 1)), Rgb565::green());
    assert_eq!(fbuf.get_color_at(Point::new(1, 0)), Rgb565::black());
}

#[test]
fn iteration_completeness_and_order() {
    let w = 4usize;
    let h = 3usize;
    let mut cells = Vec::new();
    for i in 0..(w * h) {
        cells.push(Rgb565(i as u16));
    }
    let fbuf = FrameBuf::new(cells, w, h);
    let mut it = fbuf.into_iter();
    let mut seen = Vec::new();
    while let Some(px) = it.next() {
        seen.push(px);
    }
    // Exactly width * height pairs, row-major, each point once, colors
    // matching the buffer's contents.
    assert_eq!(seen.len(), w * h);
    for (i, px) in seen.iter().enumerate() {
        assert_eq!(px.0, Point::new((i % w) as i32, (i / w) as i32));
        assert_eq!(px.1, Rgb565(i as u16));
    }
    // A fresh pass starts over from the first pixel.
    let mut again = fbuf.into_iter();
    assert_eq!(again.next().unwrap().0, Point::new(0, 0));
}

#[test]
fn scenario_raw_element_sequence() {
    // A 3 by 3 16-bit buffer filled with one color; one pixel set to a
    // second color; the raw element sequence shows [original, updated] as
    // its first two entries, reflecting row-major order.
    let mut fbuf = FrameBuf::new(vec![Rgb565::blue(); 3 * 3], 3, 3);
    fbuf.set_color_at(Point::new(1, 0), Rgb565::red());
    let raw = fbuf.raw_data();
    assert_eq!(raw.len(), 9);
    assert_eq!(raw[0], Rgb565::blue());
    assert_eq!(raw[1], Rgb565::red());
    for i in 2..9 {
        assert_eq!(raw[i], Rgb565::blue());
    }
}

#[test]
fn fixed_size_array_backend() {
    let data = [BinaryColor::Off; 3 * 2];
    let mut fbuf = FrameBuf::new(data, 3, 2);
    fbuf.set_color_at(Point::new(2, 1), BinaryColor::On);
    assert_eq!(fbuf.get_color_at(Point::new(2, 1)), BinaryColor::On);
    assert_eq!(fbuf.get_color_at(Point::new(0, 0)), BinaryColor::Off);
    let raw = fbuf.raw_data();
    assert_eq!(raw.len(), 6);
    assert_eq!(raw[5], BinaryColor::On);
    assert_eq!(raw[0], BinaryColor::Off);
}

#[test]
fn raw_data_shows_wire_order() {
    let backend = EndianCorrectedBuffer::new(vec![Rgb565::black(); 2 * 2], EndianCorrection::ToBigEndian);
    let mut fbuf = FrameBuf::new(backend, 2, 2);
    fbuf.set_color_at(Point::new(0, 0), Rgb565::red());
    let raw = fbuf.raw_data();
    assert_eq!(raw.len(), 4);
    // The element range for DMA holds the big-endian byte pattern, while the
    // logical read still returns the color that was set.
    assert_eq!(raw[0].into_storage(), 0x00F8);
    assert_eq!(fbuf.get_color_at(Point::new(0, 0)), Rgb565::red());
}
