use claudiofsr_lib::split_slice_into_subsets;

/// Split a slice into exactly N pieces.
#[test]
fn divided_into_n_pieces() {
    let total = 25;
    let my_vec: Vec<usize> = (1..=total).collect();
    println!("my_vec: {my_vec:?}\n");

    for n_pieces in 1..=total {
        let size = total / n_pieces;
        let remainder = total % n_pieces;
        if remainder > 0 {
            println!(
                "total {total} divided into {n_pieces:2} pieces ; size: {size} or {} ; remainder: {remainder}",
                size + 1
            );
        } else {
            println!(
                "total {total} divided into {n_pieces:2} pieces ; size: {size} ; remainder: {remainder}"
            );
        }
        let vectors = split_slice_into_subsets(&my_vec, n_pieces);
        println!("vectors: {vectors:?}");
        let mut sum_of_all_pieces = 0;
        for (index, vector) in vectors.iter().enumerate() {
            let piece_size = vector.len();
            sum_of_all_pieces += piece_size;
            assert!(
                piece_size >= size && piece_size <= size + 1,
                "piece {index} has size {piece_size}"
            );
            println!(
                "piece: {:2} ; size: {piece_size:2} ; vector[{index:2}]: {vector:2?}",
                index + 1
            );
        }
        assert_eq!(total, sum_of_all_pieces);
        println!();
    }

    println!("Extreme cases:");
    println!("1. attempt to divide slice by n_pieces such that n_pieces = 0.");
    let test_a: Vec<&[usize]> = split_slice_into_subsets(&my_vec, 0);
    println!("test_a: {test_a:?}");
    assert!(test_a.is_empty());

    println!("2. attempt to divide slice by n_pieces such that n_pieces > slice.len().");
    let test_b: Vec<&[usize]> = split_slice_into_subsets(&my_vec, total + 1);
    println!("test_b: {test_b:?}");
    assert_eq!(test_b.len(), total);

    let n_pieces = 4;
    let pieces: Vec<&[usize]> = split_slice_into_subsets(&my_vec, n_pieces);
    let result: Vec<&[usize]> = vec![
        &[1, 2, 3, 4, 5, 6, 7],
        &[8, 9, 10, 11, 12, 13],
        &[14, 15, 16, 17, 18, 19],
        &[20, 21, 22, 23, 24, 25],
    ];

    assert_eq!(result, pieces);
}

#[test]
fn split_empty_slice() {
    let empty: Vec<u8> = Vec::new();
    let pieces = split_slice_into_subsets(&empty, 3);
    assert!(pieces.is_empty());
}
