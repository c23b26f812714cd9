use packed_dataset::dataset::Dataset;
use packed_dataset::pack::pack;
use packed_dataset::MAX_LEN;

fn buffer(first: u16) -> Vec<u16> {
    let mut tokens = vec![0u16; MAX_LEN];
    tokens[0] = first;
    tokens
}

#[test]
fn empty_dataset_has_length_zero_and_no_item() {
    let dataset = Dataset::new();
    assert_eq!(dataset.len(), 0);
    assert_eq!(dataset.len().to_string(), "0");
    assert_eq!(dataset.item(0), None);
    assert_eq!(dataset.item(usize::MAX), None);
}

#[test]
fn appended_buffers_are_read_back_by_index() {
    let dataset = Dataset::new().append(vec![buffer(1), buffer(2)]);
    assert_eq!(dataset.len(), 2);
    assert_eq!(dataset.item(0), Some(&buffer(1)));
    assert_eq!(dataset.item(1), Some(&buffer(2)));
    assert_eq!(dataset.item(2), None);
}

#[test]
fn later_files_go_behind_earlier_ones() {
    let dataset = Dataset::new()
        .append(vec![buffer(1), buffer(2)])
        .append(Vec::new())
        .append(vec![buffer(3)]);
    assert_eq!(dataset.len(), 3);
    assert_eq!(dataset.item(0), Some(&buffer(1)));
    assert_eq!(dataset.item(1), Some(&buffer(2)));
    assert_eq!(dataset.item(2), Some(&buffer(3)));
    assert_eq!(dataset.item(3), None);
}

#[test]
fn appending_nothing_changes_nothing() {
    let dataset = Dataset::new().append(vec![buffer(9)]).append(Vec::new());
    assert_eq!(dataset.len(), 1);
    assert_eq!(dataset.item(0), Some(&buffer(9)));
}

#[test]
fn repeated_reads_give_the_same_buffer() {
    let dataset = Dataset::new().append(vec![buffer(4), buffer(5), buffer(6)]);
    for idx in 0..4 {
        let first = dataset.item(idx).cloned();
        let second = dataset.item(idx).cloned();
        assert_eq!(first, second);
    }
    assert_eq!(dataset.len(), 3);
}

#[test]
fn every_item_has_full_width() {
    let dataset = Dataset::new().append(pack(&vec![vec![1; 3000], vec![2; 3000], vec![3; 10]]));
    assert_eq!(dataset.len(), 2);
    for idx in 0..dataset.len() {
        assert_eq!(dataset.item(idx).unwrap().len(), MAX_LEN);
    }
}

#[test]
fn packed_file_is_appended_whole() {
    let packed = pack(&vec![vec![1; 4000], vec![2; 4000]]);
    let dataset = Dataset::new().append(packed.clone());
    assert_eq!(dataset.len(), 2);
    assert_eq!(dataset.item(0), Some(&packed[0]));
    assert_eq!(dataset.item(1), Some(&packed[1]));
}
