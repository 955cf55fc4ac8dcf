use jlr_mandelbrot::spiral::RowAndColumnIterator;

#[test]
fn spiral_starts_at_its_center() {
    let mut it = RowAndColumnIterator::new(256, 256);
    assert_eq!(it.next(), (256, 256));
}

#[test]
fn spiral_first_offsets_in_order() {
    let mut it = RowAndColumnIterator::new(0, 0);
    let expected = [
        (0, 0),
        (0, 1),
        (-1, 1),
        (-1, 0),
        (-1, -1),
        (0, -1),
        (1, -1),
        (1, 0),
        (1, 1),
        (1, 2),
        (0, 2),
        (-1, 2),
        (-2, 2),
        (-2, 1),
        (-2, 0),
        (-2, -1),
        (-2, -2),
        (-1, -2),
        (0, -2),
        (1, -2),
        (2, -2),
        (2, -1),
        (2, 0),
        (2, 1),
        (2, 2),
        (2, 3),
    ];
    for &offset in expected.iter() {
        assert_eq!(it.next(), offset);
    }
}

#[test]
fn spiral_is_restartable() {
    let mut first = RowAndColumnIterator::new(10, -3);
    let mut second = RowAndColumnIterator::new(10, -3);
    for _ in 0..500 {
        assert_eq!(first.next(), second.next());
    }
}

#[test]
fn spiral_covers_each_ball_exactly_once() {
    // The first (2r+1)^2 offsets are exactly those of Chebyshev radius <= r.
    let mut it = RowAndColumnIterator::new(0, 0);
    let mut seen: Vec<(isize, isize)> = Vec::new();
    for r in 0isize..=5 {
        let ball_size = ((2 * r + 1) * (2 * r + 1)) as usize;
        while seen.len() < ball_size {
            let offset = it.next();
            assert!(!seen.contains(&offset), "offset {:?} produced twice", offset);
            seen.push(offset);
        }
        for dr in -r..=r {
            for dc in -r..=r {
                assert!(
                    seen.contains(&(dr, dc)),
                    "offset {:?} missing from the first {} offsets",
                    (dr, dc),
                    ball_size
                );
            }
        }
        for &(dr, dc) in seen.iter() {
            assert!(dr.abs().max(dc.abs()) <= r);
        }
    }
}

#[test]
fn spiral_shifts_by_its_starting_coordinate() {
    let mut centered = RowAndColumnIterator::new(0, 0);
    let mut shifted = RowAndColumnIterator::new(7, 11);
    for _ in 0..200 {
        let (dr, dc) = centered.next();
        assert_eq!(shifted.next(), (dr + 7, dc + 11));
    }
}
