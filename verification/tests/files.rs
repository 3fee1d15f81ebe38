use fuse_storage::files::{
    batch_size, chunk_locations, normalize_chunks, normalize_locations, permits, plan_removal,
    trim_leading_slashes,
};

fn names(n: usize) -> Vec<String> {
    (0..n).map(|i| format!("dir/file_{}", i)).collect()
}

#[test]
fn locations_are_normalized() {
    assert_eq!(trim_leading_slashes("//a/b"), "a/b");
    assert_eq!(trim_leading_slashes("a/"), "a/");
    assert_eq!(trim_leading_slashes("///"), "");
    let raw = vec![
        "/a".to_string(),
        "".to_string(),
        "b".to_string(),
        "//".to_string(),
        "/c/d".to_string(),
    ];
    assert_eq!(normalize_locations(&raw), vec!["a", "b", "c/d"]);
}

#[test]
fn batch_size_and_permits_are_clamped() {
    assert_eq!(batch_size(0, 8), 1);
    assert_eq!(batch_size(7, 8), 1);
    assert_eq!(batch_size(64, 8), 8);
    assert_eq!(batch_size(64_000, 8), 1000);
    assert_eq!(batch_size(1_000_000, 1), 1000);
    assert_eq!(permits(0), 1);
    assert_eq!(permits(1), 1);
    assert_eq!(permits(4), 2);
    assert_eq!(permits(6), 3);
    assert_eq!(permits(64), 3);
}

#[test]
fn a_batch_that_fits_is_deleted_in_one_call() {
    let plan = plan_removal(&names(1), 16);
    assert_eq!(plan.batch_size, 1);
    assert_eq!(plan.chunks, vec![names(1)]);
    assert!(!plan.parallel);

    let plan = plan_removal(&names(1000), 1);
    assert_eq!(plan.batch_size, 1000);
    assert_eq!(plan.chunks.len(), 1);
    assert!(!plan.parallel);
    assert_eq!(plan.pool_threads, 2);
}

#[test]
fn a_larger_batch_is_cut_into_chunks() {
    let all = names(25);
    let plan = plan_removal(&all, 4);
    assert_eq!(plan.batch_size, 6);
    assert!(plan.parallel);
    assert_eq!(plan.permit, 2);
    assert_eq!(plan.chunks.len(), 5);
    assert!(plan.chunks.len() <= (25 + 6 - 1) / 6);
    assert_eq!(plan.chunks.concat(), all);
    for chunk in &plan.chunks[..4] {
        assert_eq!(chunk.len(), 6);
    }
    assert_eq!(plan.chunks[4].len(), 1);

    let plan = plan_removal(&names(2500), 2);
    assert_eq!(plan.batch_size, 1000);
    assert_eq!(plan.chunks.len(), 3);
    assert_eq!(plan.chunks[2].len(), 500);
    assert_eq!(plan.permit, 1);
}

#[test]
fn a_chunk_is_a_call_whatever_normalizing_leaves_of_it() {
    // the size is taken from the locations as given, and each chunk is
    // normalized by itself
    let raw = vec!["a".to_string(), "".to_string(), "b".to_string(), "c".to_string()];
    let plan = plan_removal(&raw, 2);
    assert_eq!(plan.batch_size, 2);
    assert!(plan.parallel);
    assert_eq!(plan.chunks, vec![vec!["a".to_string()], vec!["b".to_string(), "c".to_string()]]);

    let plan = plan_removal(&vec!["".to_string()], 1);
    assert_eq!(plan.batch_size, 1);
    assert!(!plan.parallel);
    assert_eq!(plan.chunks, vec![Vec::<String>::new()]);

    let plan = plan_removal(&vec!["/".to_string(), "".to_string(), "//x".to_string()], 4);
    assert_eq!(plan.batch_size, 1);
    assert!(plan.parallel);
    assert_eq!(plan.chunks, vec![vec![], vec![], vec!["x".to_string()]]);
}

#[test]
fn no_location_means_no_call() {
    let plan = plan_removal(&vec![], 4);
    assert!(plan.chunks.is_empty());
    assert!(!plan.parallel);
    assert_eq!(plan.batch_size, 1);
}

#[test]
fn chunks_of_a_plan_are_normalized() {
    let raw = vec!["/a".to_string(), "//b/c".to_string(), "d".to_string()];
    let plan = plan_removal(&raw, 1);
    assert_eq!(plan.batch_size, 3);
    assert_eq!(plan.chunks, vec![vec!["a".to_string(), "b/c".to_string(), "d".to_string()]]);
    assert_eq!(normalize_chunks(&vec![raw.clone(), vec!["/".to_string()]]), vec![
        vec!["a".to_string(), "b/c".to_string(), "d".to_string()],
        vec![],
    ]);
    // all the calls together delete the locations given, normalized
    let many: Vec<String> = (0..11).map(|i| format!("/{}", if i % 3 == 0 { "" } else { "k" })).collect();
    let plan = plan_removal(&many, 3);
    assert_eq!(plan.chunks.len(), (11 + plan.batch_size - 1) / plan.batch_size);
    assert_eq!(plan.chunks.concat(), normalize_locations(&many));
}

#[test]
fn chunks_of_a_given_size() {
    assert_eq!(
        chunk_locations(&names(5), 2),
        vec![names(5)[0..2].to_vec(), names(5)[2..4].to_vec(), names(5)[4..5].to_vec()]
    );
    assert_eq!(chunk_locations(&names(4), 2).len(), 2);
    assert!(chunk_locations(&vec![], 3).is_empty());
}
