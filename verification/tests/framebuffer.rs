use path_tracer::framebuffer::{Framebuffer, FramebufferError, Row};

#[test]
fn new_image_is_black_and_sized() {
    let fb = Framebuffer::new(4, 3).unwrap();
    assert_eq!(fb.width(), 4);
    assert_eq!(fb.height(), 3);
    assert_eq!(fb.bytes().len(), 36);
    assert!(fb.bytes().iter().all(|b| *b == 0));
}

#[test]
fn image_of_the_usual_size() {
    let fb = Framebuffer::new(1200, 800).unwrap();
    assert_eq!(fb.bytes().len(), 1200 * 800 * 3);
    assert_eq!(fb.offset(0, 799), 0);
    assert_eq!(fb.offset(1199, 0), 1200 * 800 * 3 - 3);
    assert_eq!(fb.offset(7, 5), (800 - 5 - 1) * 1200 * 3 + 7 * 3);
}

#[test]
fn empty_images_have_no_bytes() {
    assert_eq!(Framebuffer::new(0, 0).unwrap().bytes().len(), 0);
    assert_eq!(Framebuffer::new(0, 9).unwrap().bytes().len(), 0);
    assert_eq!(Framebuffer::new(9, 0).unwrap().bytes().len(), 0);
    assert_eq!(Framebuffer::new(0, 9).unwrap().row_offset(3), 0);
}

#[test]
fn too_large_an_image_is_refused() {
    assert!(matches!(Framebuffer::new(u32::MAX, u32::MAX), Err(FramebufferError::TooLarge)));
}

#[test]
fn offset_flips_the_rows() {
    let fb = Framebuffer::new(4, 3).unwrap();
    for y in 0..3u32 {
        for x in 0..4u32 {
            let expected = ((3 - y - 1) * 4 * 3 + x * 3) as usize;
            assert_eq!(fb.offset(x, y), expected);
        }
        assert_eq!(fb.row_offset(y), ((3 - y - 1) * 4 * 3) as usize);
    }
}

#[test]
fn last_sampled_row_is_the_first_stored() {
    let fb = Framebuffer::new(5, 7).unwrap();
    assert_eq!(fb.row_offset(6), 0);
    assert_eq!(fb.row_offset(0), 5 * 3 * 6);
}

#[test]
fn put_pixel_writes_three_bytes_and_no_others() {
    let mut fb = Framebuffer::new(4, 3).unwrap();
    fb.put_pixel(0, 0, (1, 2, 3));
    let mut expected = vec![0u8; 36];
    expected[24] = 1;
    expected[25] = 2;
    expected[26] = 3;
    assert_eq!(fb.bytes(), &expected);
    fb.put_pixel(3, 2, (7, 8, 9));
    expected[9] = 7;
    expected[10] = 8;
    expected[11] = 9;
    assert_eq!(fb.bytes(), &expected);
    assert_eq!(fb.pixel(0, 0), (1, 2, 3));
    assert_eq!(fb.pixel(3, 2), (7, 8, 9));
    assert_eq!(fb.pixel(1, 1), (0, 0, 0));
}

#[test]
fn every_byte_belongs_to_exactly_one_pixel() {
    let (w, h) = (5u32, 4u32);
    let fb = Framebuffer::new(w, h).unwrap();
    let mut owners = vec![0u32; (w * h * 3) as usize];
    for y in 0..h {
        for x in 0..w {
            let at = fb.offset(x, y);
            for c in 0..3 {
                owners[at + c] += 1;
            }
        }
    }
    assert!(owners.iter().all(|n| *n == 1));
}

#[test]
fn pixels_written_once_each_are_all_read_back() {
    let (w, h) = (6u32, 5u32);
    let mut fb = Framebuffer::new(w, h).unwrap();
    for y in 0..h {
        for x in 0..w {
            fb.put_pixel(x, y, (x as u8, y as u8, (x * 10 + y) as u8));
        }
    }
    for y in 0..h {
        for x in 0..w {
            assert_eq!(fb.pixel(x, y), (x as u8, y as u8, (x * 10 + y) as u8));
        }
    }
    let bytes = fb.into_bytes();
    assert_eq!(&bytes[0..3], &[0u8, 4, 4]);
    assert_eq!(&bytes[bytes.len() - 3..], &[5u8, 0, 50]);
}

#[test]
fn new_row_is_black() {
    let row = Row::new(4).unwrap();
    assert_eq!(row.len(), 12);
    for x in 0..4 {
        assert_eq!(row.pixel(x), (0, 0, 0));
    }
    assert_eq!(Row::new(0).unwrap().len(), 0);
}

#[test]
fn row_put_pixel_sets_one_pixel() {
    let mut row = Row::new(3).unwrap();
    row.put_pixel(1, (10, 20, 30));
    assert_eq!(row.pixel(0), (0, 0, 0));
    assert_eq!(row.pixel(1), (10, 20, 30));
    assert_eq!(row.pixel(2), (0, 0, 0));
}

#[test]
fn render_calls_shade_for_every_column() {
    let row = Row::render(5, |x| (x as u8, (2 * x) as u8, 255 - x as u8)).unwrap();
    assert_eq!(row.len(), 15);
    for x in 0..5u32 {
        assert_eq!(row.pixel(x), (x as u8, (2 * x) as u8, 255 - x as u8));
    }
}

#[test]
fn render_goes_left_to_right() {
    let seen = std::cell::RefCell::new(Vec::new());
    let row = Row::render(4, |x| {
        seen.borrow_mut().push(x);
        (0, 0, 0)
    })
    .unwrap();
    assert_eq!(row.len(), 12);
    assert_eq!(seen.into_inner(), vec![0, 1, 2, 3]);
}

#[test]
fn store_row_fills_its_row_and_no_other() {
    let mut fb = Framebuffer::new(2, 3).unwrap();
    let row = Row::render(2, |x| (1 + x as u8, 3 + x as u8, 5 + x as u8)).unwrap();
    fb.store_row(1, &row);
    let expected: Vec<u8> = vec![0, 0, 0, 0, 0, 0, 1, 3, 5, 2, 4, 6, 0, 0, 0, 0, 0, 0];
    assert_eq!(fb.bytes(), &expected);
    fb.store_row(2, &row);
    let expected: Vec<u8> = vec![1, 3, 5, 2, 4, 6, 1, 3, 5, 2, 4, 6, 0, 0, 0, 0, 0, 0];
    assert_eq!(fb.bytes(), &expected);
    assert_eq!(fb.pixel(1, 2), (2, 4, 6));
    assert_eq!(fb.pixel(1, 0), (0, 0, 0));
}

#[test]
fn rows_stored_in_any_order_give_the_same_image() {
    let (w, h) = (3u32, 4u32);
    let mut up = Framebuffer::new(w, h).unwrap();
    let mut down = Framebuffer::new(w, h).unwrap();
    for y in 0..h {
        let row = Row::render(w, |x| (x as u8, y as u8, 9)).unwrap();
        up.store_row(y, &row);
    }
    for y in (0..h).rev() {
        let row = Row::render(w, |x| (x as u8, y as u8, 9)).unwrap();
        down.store_row(y, &row);
    }
    assert_eq!(up.bytes(), down.bytes());
    for y in 0..h {
        for x in 0..w {
            assert_eq!(up.pixel(x, y), (x as u8, y as u8, 9));
        }
    }
}

#[test]
fn assemble_puts_every_row_in_its_place() {
    let (w, h) = (3u32, 4u32);
    let rows: Vec<Row> = (0..h)
        .map(|y| Row::render(w, |x| (x as u8, y as u8, (10 * y + x) as u8)).unwrap())
        .collect();
    let fb = Framebuffer::assemble(w, h, &rows).unwrap();
    assert_eq!(fb.width(), w);
    assert_eq!(fb.height(), h);
    for y in 0..h {
        for x in 0..w {
            assert_eq!(fb.pixel(x, y), (x as u8, y as u8, (10 * y + x) as u8));
        }
    }
    let expected: Vec<u8> = vec![
        0, 3, 30, 1, 3, 31, 2, 3, 32, 0, 2, 20, 1, 2, 21, 2, 2, 22, 0, 1, 10, 1, 1, 11, 2, 1, 12,
        0, 0, 0, 1, 0, 1, 2, 0, 2,
    ];
    assert_eq!(fb.bytes(), &expected);
}

#[test]
fn assemble_agrees_with_pixel_by_pixel_writes() {
    let (w, h) = (7u32, 5u32);
    let shade = |x: u32, y: u32| ((x * 31 + y) as u8, (y * 17 + x) as u8, (x ^ y) as u8);
    let rows: Vec<Row> = (0..h).map(|y| Row::render(w, |x| shade(x, y)).unwrap()).collect();
    let assembled = Framebuffer::assemble(w, h, &rows).unwrap();
    let mut written = Framebuffer::new(w, h).unwrap();
    for y in 0..h {
        for x in 0..w {
            written.put_pixel(x, y, shade(x, y));
        }
    }
    assert_eq!(assembled.bytes(), written.bytes());
}

#[test]
fn assemble_refuses_rows_that_do_not_fit() {
    let row = |w: u32| Row::new(w).unwrap();
    assert!(matches!(
        Framebuffer::assemble(2, 3, &vec![row(2), row(2)]),
        Err(FramebufferError::RowMismatch)
    ));
    assert!(matches!(
        Framebuffer::assemble(2, 2, &vec![row(2), row(2), row(2)]),
        Err(FramebufferError::RowMismatch)
    ));
    assert!(matches!(
        Framebuffer::assemble(2, 2, &vec![row(2), row(3)]),
        Err(FramebufferError::RowMismatch)
    ));
    assert!(matches!(
        Framebuffer::assemble(u32::MAX, u32::MAX, &vec![]),
        Err(FramebufferError::TooLarge)
    ));
    assert!(Framebuffer::assemble(0, 0, &vec![]).is_ok());
    assert!(Framebuffer::assemble(0, 2, &vec![row(0), row(0)]).is_ok());
}
