use pngcodec::interlace::compute_pass_counts;

#[test]
fn pass_count_for_8x8() {
    let pass_cts = compute_pass_counts(8, 8);

    assert_eq!(
        pass_cts
            .into_iter()
            .map(|p| p.width * p.height)
            .collect::<Vec<_>>(),
        vec![1 << 0, 1 << 0, 1 << 1, 1 << 2, 1 << 3, 1 << 4, 1 << 5,]
    )
}

#[test]
fn pass_count_for_9x9() {
    let pass_cts = compute_pass_counts(9, 9);
    assert_eq!(
        pass_cts
            .into_iter()
            .map(|p| p.width * p.height)
            .collect::<Vec<_>>(),
        vec![4, 2, 3, 6, 10, 20, 36]
    )
}

#[test]
fn pass_count_for_9x10() {
    let pass_cts = compute_pass_counts(9, 10);
    assert_eq!(
        pass_cts
            .into_iter()
            .map(|p| p.width * p.height)
            .collect::<Vec<_>>(),
        vec![4, 2, 3, 6, 10, 20, 45]
    )
}

#[test]
fn pass_areas_sum_to_image_area() {
    // The seven sub-images always hold exactly the full image.
    for w in 0..24u32 {
        for h in 0..24u32 {
            let total: usize = compute_pass_counts(w, h)
                .iter()
                .map(|p| p.width * p.height)
                .sum();
            assert_eq!(total, (w as usize) * (h as usize));
        }
    }
}

#[test]
fn pass_coordinates_cover_each_pixel_once() {
    let (w, h) = (13u32, 7u32);
    let mut seen = vec![0u32; (w * h) as usize];
    for p in compute_pass_counts(w, h) {
        for i in 0..p.height {
            for j in 0..p.width {
                let x = p.compute_x(j);
                let y = p.compute_y(i);
                seen[y * w as usize + x] += 1;
            }
        }
    }
    assert!(seen.iter().all(|&c| c == 1));
}
