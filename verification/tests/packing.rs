use packed_dataset::pack::pack;
use packed_dataset::{MAX_LEN, PADDING};

fn run(len: usize, first: u16) -> Vec<u16> {
    (0..len).map(|k| first.wrapping_add(k as u16) | 1).collect()
}

fn padded(tokens: &[u16]) -> Vec<u16> {
    let mut buffer = tokens.to_vec();
    buffer.resize(MAX_LEN, 0);
    buffer
}

#[test]
fn max_len_is_4096_and_padding_is_zero() {
    assert_eq!(MAX_LEN, 4096);
    assert_eq!(PADDING, 0);
}

#[test]
fn packing_nothing_gives_no_buffer() {
    assert_eq!(pack(&Vec::new()), Vec::<Vec<u16>>::new());
}

#[test]
fn one_short_sequence_gives_one_padded_buffer() {
    let buffers = pack(&vec![vec![7, 8, 9]]);
    assert_eq!(buffers, vec![padded(&[7, 8, 9])]);
}

#[test]
fn one_empty_sequence_still_opens_a_buffer() {
    let buffers = pack(&vec![Vec::new()]);
    assert_eq!(buffers, vec![vec![0u16; MAX_LEN]]);
}

#[test]
fn empty_sequences_never_open_a_second_buffer() {
    let buffers = pack(&vec![Vec::new(), vec![5], Vec::new(), vec![6, 7], Vec::new()]);
    assert_eq!(buffers, vec![padded(&[5, 6, 7])]);
}

#[test]
fn sequences_that_fit_are_concatenated_in_order() {
    let buffers = pack(&vec![vec![1, 2], vec![3], vec![4, 5, 6]]);
    assert_eq!(buffers, vec![padded(&[1, 2, 3, 4, 5, 6])]);
}

#[test]
fn sequence_that_does_not_fit_starts_a_new_buffer() {
    let long = run(MAX_LEN - 1, 1);
    let short = vec![11, 12, 13, 14, 15];
    let buffers = pack(&vec![long.clone(), short.clone()]);
    assert_eq!(buffers.len(), 2);
    assert_eq!(buffers[0], padded(&long));
    assert_eq!(buffers[0][MAX_LEN - 1], 0);
    assert_eq!(buffers[1], padded(&short));
}

#[test]
fn sequence_that_fills_the_buffer_exactly_stays_in_it() {
    let first = run(4000, 3);
    let second = run(96, 9);
    let third = vec![21, 22];
    let buffers = pack(&vec![first.clone(), second.clone(), third.clone()]);
    assert_eq!(buffers.len(), 2);
    let mut full = first;
    full.extend(second);
    assert_eq!(full.len(), MAX_LEN);
    assert_eq!(buffers[0], full);
    assert_eq!(buffers[1], padded(&third));
}

#[test]
fn sequence_of_full_width_takes_a_buffer_of_its_own() {
    let full = run(MAX_LEN, 1);
    let buffers = pack(&vec![vec![1], full.clone(), vec![2]]);
    assert_eq!(buffers, vec![padded(&[1]), full, padded(&[2])]);
}

#[test]
fn packer_never_goes_back_to_an_earlier_buffer() {
    let buffers = pack(&vec![run(3000, 1), run(3000, 5), vec![9]]);
    assert_eq!(buffers.len(), 2);
    assert_eq!(buffers[0], padded(&run(3000, 1)));
    let mut second = run(3000, 5);
    second.push(9);
    assert_eq!(buffers[1], padded(&second));
}

#[test]
fn order_of_sequences_decides_the_layout() {
    let a = run(3000, 1);
    let b = run(2000, 5);
    let c = run(1000, 9);
    assert_eq!(pack(&vec![a.clone(), b.clone(), c.clone()]).len(), 2);
    assert_eq!(pack(&vec![a.clone(), c.clone(), b.clone()]).len(), 2);
    let first = pack(&vec![a.clone(), b.clone(), c.clone()]);
    let mut tail = b.clone();
    tail.extend(c.clone());
    assert_eq!(first[0], padded(&a));
    assert_eq!(first[1], padded(&tail));
    let second = pack(&vec![a.clone(), c.clone(), b.clone()]);
    let mut head = a;
    head.extend(c);
    assert_eq!(second[0], padded(&head));
    assert_eq!(second[1], padded(&b));
}

#[test]
fn every_buffer_has_full_width() {
    let sequences: Vec<Vec<u16>> = (0..40).map(|k| run(k * 123 % 4097, k as u16)).collect();
    assert!(sequences.iter().all(|s| s.len() <= MAX_LEN));
    for buffer in pack(&sequences) {
        assert_eq!(buffer.len(), MAX_LEN);
    }
}

#[test]
fn every_sequence_lies_whole_in_one_buffer() {
    let sequences: Vec<Vec<u16>> = (0..60).map(|k| run(k * 271 % 3001, (k * 7) as u16)).collect();
    let buffers = pack(&sequences);
    let mut buffer = 0;
    let mut start = 0;
    let mut opened = false;
    for tokens in &sequences {
        if !opened || start + tokens.len() > MAX_LEN {
            if opened {
                buffer += 1;
            }
            opened = true;
            start = 0;
        }
        assert_eq!(&buffers[buffer][start..start + tokens.len()], &tokens[..]);
        start += tokens.len();
    }
    assert_eq!(buffers.len(), buffer + 1);
}

#[test]
fn positions_behind_the_last_token_are_padding() {
    let sequences = vec![run(4000, 1), run(200, 3), run(10, 5), run(4090, 7), run(5, 9)];
    let buffers = pack(&sequences);
    assert_eq!(buffers.len(), 3);
    assert!(buffers[0][4000..].iter().all(|&id| id == 0));
    assert!(buffers[1][210..].iter().all(|&id| id == 0));
    assert!(buffers[2][4095..].iter().all(|&id| id == 0));
    assert!(buffers[0][..4000].iter().all(|&id| id != 0));
    assert!(buffers[1][..210].iter().all(|&id| id != 0));
    assert!(buffers[2][..4095].iter().all(|&id| id != 0));
}

#[test]
fn no_buffer_holds_more_tokens_than_its_width() {
    let sequences: Vec<Vec<u16>> = (0..50).map(|k| run(k * 997 % 4097, 1)).collect();
    let buffers = pack(&sequences);
    let total: usize = sequences.iter().map(|s| s.len()).sum();
    let written: usize = buffers.iter().map(|b| b.iter().filter(|&&id| id != 0).count()).sum();
    assert_eq!(written, total);
    for buffer in &buffers {
        assert!(buffer.iter().filter(|&&id| id != 0).count() <= MAX_LEN);
    }
}

#[test]
fn buffer_count_lies_between_the_least_possible_and_one_per_sequence() {
    let sequences: Vec<Vec<u16>> = (0..30).map(|k| run(k * 613 % 4097, 1)).collect();
    let total: usize = sequences.iter().map(|s| s.len()).sum();
    let count = pack(&sequences).len();
    assert!(count * MAX_LEN >= total);
    assert!(count <= sequences.len());
    assert!(count > 0);
}

#[test]
fn packing_leaves_the_sequences_unchanged() {
    let sequences = vec![vec![1, 2, 3], vec![4]];
    let first = pack(&sequences);
    let second = pack(&sequences);
    assert_eq!(first, second);
    assert_eq!(sequences, vec![vec![1, 2, 3], vec![4]]);
}

#[test]
fn tokens_equal_to_padding_are_copied_like_any_other() {
    let buffers = pack(&vec![vec![0, 5, 0], vec![6]]);
    assert_eq!(buffers, vec![padded(&[0, 5, 0, 6])]);
}
