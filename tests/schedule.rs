use pathtracer::schedule::{assemble_columns, column_range, render_columns};

#[test]
fn column_ranges_split_evenly() {
    let ranges: Vec<(usize, usize)> = (0..4).map(|i| column_range(i, 4, 12)).collect();
    assert_eq!(ranges, vec![(0, 3), (3, 6), (6, 9), (9, 12)]);
}

#[test]
fn column_ranges_spread_the_remainder() {
    let ranges: Vec<(usize, usize)> = (0..3).map(|i| column_range(i, 3, 10)).collect();
    assert_eq!(ranges, vec![(0, 3), (3, 6), (6, 10)]);
}

#[test]
fn more_workers_than_columns_leaves_some_idle() {
    let ranges: Vec<(usize, usize)> = (0..4).map(|i| column_range(i, 4, 2)).collect();
    assert_eq!(ranges, vec![(0, 0), (0, 1), (1, 1), (1, 2)]);
}

#[test]
fn every_column_has_exactly_one_worker() {
    for &(workers, width) in &[(1usize, 7usize), (4, 12), (12, 1920), (5, 13), (8, 3)] {
        let mut count = vec![0usize; width];
        for i in 0..workers {
            let (start, end) = column_range(i, workers, width);
            assert!(start <= end && end <= width);
            for c in start..end {
                count[c] += 1;
            }
        }
        assert!(count.iter().all(|&n| n == 1), "workers {} width {}", workers, width);
    }
}

#[test]
fn assemble_joins_blocks_left_to_right() {
    let blocks = vec![
        vec![vec![1], vec![5]],
        vec![vec![2], vec![6]],
        vec![vec![3, 4], vec![7, 8]],
    ];
    let pixels = assemble_columns(4, 2, &blocks);
    assert_eq!(pixels, vec![vec![1, 2, 3, 4], vec![5, 6, 7, 8]]);
}

#[test]
fn render_columns_shades_the_worker_share() {
    let shade = |x: usize, y: usize| (100 * y + x) as i64;
    let block = render_columns(1, 3, 10, 2, &shade);
    assert_eq!(block, vec![vec![3, 4, 5], vec![103, 104, 105]]);
}

#[test]
fn rendered_blocks_assemble_into_the_whole_image() {
    let (width, height, workers) = (13usize, 4usize, 5usize);
    let shade = |x: usize, y: usize| (1000 * y + x) as i64;
    let blocks: Vec<Vec<Vec<i64>>> =
        (0..workers).map(|i| render_columns(i, workers, width, height, &shade)).collect();
    let pixels = assemble_columns(width, height, &blocks);
    assert_eq!(pixels.len(), height);
    for y in 0..height {
        assert_eq!(pixels[y].len(), width);
        for x in 0..width {
            assert_eq!(pixels[y][x], (1000 * y + x) as i64);
        }
    }
}

#[test]
fn single_constant_shade_fills_every_pixel() {
    let base = 0x336699i64;
    let shade = |_x: usize, _y: usize| base;
    let blocks: Vec<Vec<Vec<i64>>> = (0..3).map(|i| render_columns(i, 3, 9, 6, &shade)).collect();
    let pixels = assemble_columns(9, 6, &blocks);
    assert_eq!(pixels, vec![vec![base; 9]; 6]);
}

#[test]
fn zero_height_gives_no_rows() {
    let shade = |x: usize, _y: usize| x as i64;
    let block = render_columns(0, 2, 4, 0, &shade);
    assert!(block.is_empty());
    assert!(assemble_columns(4, 0, &vec![block.clone(), block]).is_empty());
}

#[test]
fn shares_differ_by_at_most_one_column() {
    for &(workers, width) in &[(5usize, 13usize), (12, 1920), (7, 100), (3, 2)] {
        for i in 0..workers {
            let (start, end) = column_range(i, workers, width);
            let size = end - start;
            assert!(size == width / workers || size == width / workers + 1);
        }
    }
}
