use sysmon::processes::rank_by_memory;

#[test]
fn top_memory_users_come_first() {
    let memory = vec![10, 500, 30, 500, 70];
    assert_eq!(rank_by_memory(&memory, 3), vec![1, 3, 4]);
    assert_eq!(rank_by_memory(&memory, 10), vec![1, 3, 4, 2, 0]);
    assert_eq!(rank_by_memory(&memory, 0), Vec::<usize>::new());
}

#[test]
fn ranking_matches_a_stable_sort() {
    let memory: Vec<u64> = (0..40u64).map(|i| (i * 7919) % 13).collect();
    let mut expected: Vec<usize> = (0..memory.len()).collect();
    expected.sort_by(|a, b| memory[*b].cmp(&memory[*a]));
    expected.truncate(10);
    assert_eq!(rank_by_memory(&memory, 10), expected);
}

#[test]
fn no_processes_no_ranking() {
    assert!(rank_by_memory(&Vec::new(), 10).is_empty());
}
