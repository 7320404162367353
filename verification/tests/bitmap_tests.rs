use raytracer::bitmap::Bitmap;
use raytracer::pixel::Rgb;

fn numbered(width: usize, height: usize) -> Bitmap {
    let mut bitmap = Bitmap::new(width, height);
    for y in 0..height {
        for x in 0..width {
            *bitmap.get_mut(x, y).unwrap() = (100 * y + x) as u32;
        }
    }
    bitmap
}

#[test]
fn new_is_zeroed_and_sized() {
    let bitmap = Bitmap::new(4, 3);
    assert_eq!(bitmap.width(), 4);
    assert_eq!(bitmap.height(), 3);
    assert_eq!(bitmap.buffer().len(), 12);
    assert!(bitmap.buffer().iter().all(|word| *word == 0));
}

#[test]
fn new_accepts_an_empty_image() {
    let mut flat = Bitmap::new(0, 5);
    assert_eq!(flat.buffer().len(), 0);
    assert_eq!(flat.position(0), None);
    assert_eq!(flat.index_of(0, 0), None);
    assert!(flat.get_mut(0, 0).is_none());
    assert!(flat.pixels().is_empty());
    let mut none = Bitmap::new(0, 0);
    assert!(none.get_mut(0, 0).is_none());
    assert!(none.paint(&Vec::new()));
}

#[test]
fn get_mut_counts_rows_from_the_bottom() {
    let mut bitmap = Bitmap::new(3, 2);
    *bitmap.get_mut(0, 0).unwrap() = 11;
    *bitmap.get_mut(2, 1).unwrap() = 22;
    *bitmap.get_mut(1, 0).unwrap() = 33;
    assert_eq!(bitmap.buffer(), &[0, 0, 22, 11, 33, 0]);
}

#[test]
fn get_mut_reads_what_was_written() {
    let mut bitmap = Bitmap::new(3, 2);
    *bitmap.get_mut(1, 1).unwrap() = 0xdead_beef;
    assert_eq!(*bitmap.get_mut(1, 1).unwrap(), 0xdead_beef);
    assert_eq!(*bitmap.get_mut(1, 0).unwrap(), 0);
}

#[test]
fn get_mut_rejects_coordinates_outside_the_image() {
    let mut bitmap = numbered(3, 2);
    let before = bitmap.buffer().to_vec();
    assert!(bitmap.get_mut(3, 0).is_none());
    assert!(bitmap.get_mut(0, 2).is_none());
    assert!(bitmap.get_mut(3, 2).is_none());
    assert!(bitmap.get_mut(usize::MAX, 0).is_none());
    assert!(bitmap.get_mut(0, usize::MAX).is_none());
    assert_eq!(bitmap.buffer(), before.as_slice());
}

#[test]
fn index_of_follows_the_row_formula() {
    let bitmap = Bitmap::new(4, 3);
    assert_eq!(bitmap.index_of(0, 0), Some(8));
    assert_eq!(bitmap.index_of(3, 0), Some(11));
    assert_eq!(bitmap.index_of(0, 2), Some(0));
    assert_eq!(bitmap.index_of(3, 2), Some(3));
    assert_eq!(bitmap.index_of(1, 1), Some(5));
    assert_eq!(bitmap.index_of(4, 0), None);
    assert_eq!(bitmap.index_of(0, 3), None);
}

#[test]
fn position_follows_the_row_formula() {
    let bitmap = Bitmap::new(4, 3);
    assert_eq!(bitmap.position(0), Some((0, 2)));
    assert_eq!(bitmap.position(3), Some((3, 2)));
    assert_eq!(bitmap.position(5), Some((1, 1)));
    assert_eq!(bitmap.position(8), Some((0, 0)));
    assert_eq!(bitmap.position(11), Some((3, 0)));
    assert_eq!(bitmap.position(12), None);
    assert_eq!(bitmap.position(usize::MAX), None);
}

#[test]
fn position_and_index_of_undo_each_other() {
    let bitmap = Bitmap::new(5, 7);
    for index in 0..35 {
        let (x, y) = bitmap.position(index).unwrap();
        assert!(x < 5 && y < 7);
        assert_eq!(bitmap.index_of(x, y), Some(index));
    }
    for y in 0..7 {
        for x in 0..5 {
            let index = bitmap.index_of(x, y).unwrap();
            assert!(index < 35);
            assert_eq!(bitmap.position(index), Some((x, y)));
        }
    }
}

#[test]
fn different_pixels_have_different_slots() {
    let bitmap = Bitmap::new(6, 4);
    let mut seen = vec![false; 24];
    for y in 0..4 {
        for x in 0..6 {
            let index = bitmap.index_of(x, y).unwrap();
            assert!(!seen[index]);
            seen[index] = true;
        }
    }
    assert!(seen.iter().all(|hit| *hit));
}

#[test]
fn pixels_lists_every_pixel_in_storage_order() {
    let bitmap = numbered(2, 2);
    assert_eq!(bitmap.pixels(), vec![(0, 1, 100), (1, 1, 101), (0, 0, 0), (1, 0, 1)]);
}

#[test]
fn pixels_agrees_with_the_buffer() {
    let bitmap = numbered(3, 4);
    let all = bitmap.pixels();
    assert_eq!(all.len(), 12);
    for (index, (x, y, word)) in all.into_iter().enumerate() {
        assert_eq!(bitmap.position(index), Some((x, y)));
        assert_eq!(word, bitmap.buffer()[index]);
        assert_eq!(word, (100 * y + x) as u32);
    }
}

#[test]
fn paint_writes_every_pixel_and_keeps_the_top_bytes() {
    let mut bitmap = Bitmap::new(2, 2);
    *bitmap.get_mut(0, 1).unwrap() = 0xff12_3456;
    *bitmap.get_mut(1, 1).unwrap() = 0x8000_0000;
    *bitmap.get_mut(0, 0).unwrap() = 0x00ff_ffff;
    let colors = vec![
        Rgb { r: 1, g: 2, b: 3 },
        Rgb { r: 4, g: 5, b: 6 },
        Rgb { r: 7, g: 8, b: 9 },
        Rgb { r: 10, g: 11, b: 12 },
    ];
    assert!(bitmap.paint(&colors));
    assert_eq!(bitmap.buffer(), &[0xff01_0203, 0x8004_0506, 0x0007_0809, 0x000a_0b0c]);
    assert_eq!(bitmap.width(), 2);
    assert_eq!(bitmap.height(), 2);
}

#[test]
fn paint_refuses_a_wrong_number_of_colours() {
    let mut bitmap = numbered(2, 2);
    let before = bitmap.buffer().to_vec();
    let grey = Rgb { r: 9, g: 9, b: 9 };
    assert!(!bitmap.paint(&vec![grey; 3]));
    assert_eq!(bitmap.buffer(), before.as_slice());
    assert!(!bitmap.paint(&vec![grey; 5]));
    assert_eq!(bitmap.buffer(), before.as_slice());
    assert!(!bitmap.paint(&Vec::new()));
    assert_eq!(bitmap.buffer(), before.as_slice());
}

#[test]
fn paint_of_one_colour_fills_a_two_by_two_image() {
    let mut bitmap = Bitmap::new(2, 2);
    let sky = Rgb { r: 0x80, g: 0xb3, b: 0xff };
    assert!(bitmap.paint(&vec![sky; 4]));
    assert_eq!(bitmap.buffer(), &[0x0080_b3ff; 4]);
    for y in 0..2 {
        for x in 0..2 {
            assert_eq!(*bitmap.get_mut(x, y).unwrap(), 0x0080_b3ff);
        }
    }
}

#[test]
fn paint_puts_each_colour_at_its_pixel() {
    let mut bitmap = Bitmap::new(3, 2);
    let colors: Vec<Rgb> = bitmap
        .pixels()
        .into_iter()
        .map(|(x, y, _)| Rgb { r: x as u8, g: y as u8, b: 0 })
        .collect();
    assert!(bitmap.paint(&colors));
    for y in 0..2 {
        for x in 0..3 {
            let word = *bitmap.get_mut(x, y).unwrap();
            assert_eq!(word, ((x as u32) << 16) | ((y as u32) << 8));
        }
    }
}

#[test]
fn a_marker_overwrites_one_pixel_only() {
    let mut bitmap = numbered(4, 3);
    let before = bitmap.buffer().to_vec();
    if let Some(pixel) = bitmap.get_mut(2, 1) {
        *pixel = 0x00ff_0000;
    }
    let slot = bitmap.index_of(2, 1).unwrap();
    for (index, word) in bitmap.buffer().iter().enumerate() {
        if index == slot {
            assert_eq!(*word, 0x00ff_0000);
        } else {
            assert_eq!(*word, before[index]);
        }
    }
}
