use jlr_mandelbrot::render::RenderPass;

#[test]
fn first_pixel_is_the_window_center() {
    // A 512 by 512 pass starts at pixel (row 256, column 256).
    let mut pass = RenderPass::new(512, 512);
    assert_eq!(pass.next_pixel(), (256, 256));
    assert_eq!(pass.pixels_produced, 1);
}

#[test]
fn three_by_three_window_in_spiral_order() {
    let mut pass = RenderPass::new(3, 3);
    let expected = [
        (1, 1),
        (1, 2),
        (0, 2),
        (0, 1),
        (0, 0),
        (1, 0),
        (2, 0),
        (2, 1),
        (2, 2),
    ];
    for &pixel in expected.iter() {
        assert_eq!(pass.next_pixel(), pixel);
    }
}

#[test]
fn out_of_window_offsets_are_skipped() {
    // A 5 by 1 window: most of the spiral misses the single row, and the
    // five cells still come out, nearest to the center first.
    let mut pass = RenderPass::new(5, 1);
    let expected = [(0, 2), (0, 3), (0, 1), (0, 4), (0, 0)];
    for &pixel in expected.iter() {
        assert_eq!(pass.next_pixel(), pixel);
    }
}

#[test]
fn every_pixel_appears_exactly_once() {
    for (width, height) in [(1, 1), (4, 4), (5, 3), (2, 7), (16, 16)] {
        let mut pass = RenderPass::new(width, height);
        let mut seen = vec![false; width * height];
        for _ in 0..(width * height) {
            let (row, column) = pass.next_pixel();
            assert!(row < height && column < width);
            let i = row * width + column;
            assert!(!seen[i], "pixel {:?} produced twice", (row, column));
            seen[i] = true;
        }
        assert!(seen.iter().all(|&s| s));
        assert_eq!(pass.pixels_produced, width * height);
    }
}
