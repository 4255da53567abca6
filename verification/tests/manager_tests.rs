use stride_kernel::manager::TaskManager;

fn passes(m: &TaskManager) -> Vec<usize> {
    m.ready_queue.iter().map(|it| it.task_pass).collect()
}

fn tids(m: &TaskManager) -> Vec<usize> {
    m.ready_queue.iter().map(|it| it.tid).collect()
}

#[test]
fn queue_stays_sorted_after_every_add() {
    let mut m = TaskManager::new();
    let inputs: [usize; 7] = [5, 1, 9, 3, 3, 0, 7];
    for (tid, &p) in inputs.iter().enumerate() {
        m.add(tid, p);
        let ps = passes(&m);
        for w in ps.windows(2) {
            assert!(w[0] <= w[1]);
        }
    }
    assert_eq!(passes(&m), vec![0, 1, 3, 3, 5, 7, 9]);
}

#[test]
fn fetch_on_empty_queue_returns_none_and_removes_nothing() {
    let mut m = TaskManager::new();
    assert_eq!(m.fetch(), None);
    assert_eq!(m.ready_queue.len(), 0);
    assert_eq!(m.fetch(), None);
    assert_eq!(m.ready_queue.len(), 0);
}

#[test]
fn insertion_positions_follow_pass_order() {
    // A (pass 0) already ready; B (pass 5) goes after A; C (pass 3)
    // lands between A and B.
    let mut m = TaskManager::new();
    m.add(10, 0); // A
    m.add(11, 5); // B
    assert_eq!(tids(&m), vec![10, 11]);
    m.add(12, 3); // C
    assert_eq!(tids(&m), vec![10, 12, 11]);
    assert_eq!(m.fetch(), Some(10));
    assert_eq!(m.fetch(), Some(12));
    assert_eq!(m.fetch(), Some(11));
    assert_eq!(m.fetch(), None);
}

#[test]
fn equal_passes_keep_arrival_order() {
    let mut m = TaskManager::new();
    m.add(1, 4);
    m.add(2, 4);
    m.add(3, 4);
    assert_eq!(tids(&m), vec![1, 2, 3]);
}

#[test]
fn fetch_returns_smallest_pass_first() {
    let mut m = TaskManager::new();
    m.add(1, 50);
    m.add(2, 20);
    m.add(3, 80);
    assert_eq!(m.fetch(), Some(2));
    assert_eq!(m.fetch(), Some(1));
    assert_eq!(m.fetch(), Some(3));
}
