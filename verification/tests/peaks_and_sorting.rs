use disco::peaks::{chunk_maxima, detect_peaks};
use disco::sorting::Permutation;

#[test]
fn chunk_peaks_take_the_last_loudest_sample() {
    let samples: Vec<i16> = vec![1, 5, 5, 2, /**/ -3, -1, -2, -9, /**/ 7, 0];
    assert_eq!(chunk_maxima(&samples, 4), vec![(2, 5), (5, -1)]);
}

#[test]
fn loudest_half_in_time_order() {
    // chunk peaks: (1, 10), (3, 40), (5, 20), (7, 30)
    let samples: Vec<i16> = vec![0, 10, 40, 0, 20, 0, 0, 30];
    let samples: Vec<i16> = vec![
        samples[0], samples[1], samples[3], samples[2], samples[4], samples[4], samples[5],
        samples[7],
    ];
    assert_eq!(
        chunk_maxima(&samples, 2),
        vec![(1, 10), (3, 40), (5, 20), (7, 30)]
    );
    assert_eq!(detect_peaks(&samples, 2), vec![(3, 40), (7, 30)]);
}

#[test]
fn equal_peaks_prefer_the_earlier() {
    let samples: Vec<i16> = vec![5, 5, 5, 9];
    assert_eq!(detect_peaks(&samples, 1), vec![(0, 5), (3, 9)]);
    assert_eq!(detect_peaks(&samples, 3), vec![]);
    assert_eq!(detect_peaks(&vec![], 3), vec![]);
}

#[test]
fn permutations() {
    assert!(Permutation::from_indices(vec![2, 0, 1]).is_ok());
    assert_eq!(Permutation::from_indices(vec![2, 0, 1]).unwrap().indices(), vec![2, 0, 1]);
    assert!(Permutation::from_indices(vec![]).is_ok());
    assert!(Permutation::from_indices(vec![0, 0]).is_err());
    assert!(Permutation::from_indices(vec![0, 2]).is_err());
    assert_eq!(Permutation::identity(4).indices(), vec![0, 1, 2, 3]);
    let p = Permutation::identity(2);
    assert_eq!(p.clone().indices(), vec![0, 1]);
}

#[test]
fn sorting_positions_by_value() {
    let values = [3, 1, 4, 1, 5, 9, 2, 6];
    let p = Permutation::sort_axis_by(values.len(), |a, b| values[a] > values[b]);
    assert_eq!(p.indices(), vec![5, 7, 4, 2, 0, 6, 1, 3]);
    let p = Permutation::sort_axis_by(values.len(), |a, b| values[a] < values[b]);
    assert_eq!(p.indices(), vec![1, 3, 6, 0, 2, 4, 7, 5]);
    let p = Permutation::sort_axis_by(0, |_, _| false);
    assert!(p.indices().is_empty());
}

#[test]
fn half_of_the_chunks_survive_in_position_order() {
    let samples: Vec<i16> = (0..103).map(|i: i32| ((i * 37) % 23 - 11) as i16).collect();
    let peaks = detect_peaks(&samples, 5);
    assert_eq!(peaks.len(), 103 / 5 / 2);
    assert!(peaks.windows(2).all(|w| w[0].0 < w[1].0));
    let all = chunk_maxima(&samples, 5);
    let weakest_kept = peaks.iter().map(|p| p.1).min().unwrap();
    let dropped = all.iter().filter(|p| !peaks.contains(p)).count();
    assert_eq!(dropped, all.len() - peaks.len());
    assert!(all.iter().filter(|p| !peaks.contains(p)).all(|p| p.1 <= weakest_kept));
}
