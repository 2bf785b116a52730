use ferrugem::rotation::slot;
use ferrugem::rotation::Rotation;

#[test]
fn sequential_requests_visit_backends_in_cyclic_order() {
    let pool = 3usize;
    let mut cursor = Rotation::new();
    for i in 0..20usize {
        assert_eq!(cursor.select(pool), i % pool);
    }
}

#[test]
fn first_selection_is_the_first_backend() {
    let mut cursor = Rotation::new();
    assert_eq!(cursor.select(5), 0);
    assert_eq!(cursor.select(5), 1);
}

#[test]
fn a_pool_of_one_always_selects_it() {
    let mut cursor = Rotation::new();
    for _ in 0..4 {
        assert_eq!(cursor.select(1), 0);
    }
}

#[test]
fn slot_is_the_ticket_modulo_the_pool() {
    assert_eq!(slot(0, 3), 0);
    assert_eq!(slot(7, 3), 1);
    assert_eq!(slot(8, 4), 0);
    assert_eq!(slot(usize::MAX, 7), usize::MAX % 7);
}

#[test]
fn tickets_count_up_from_zero() {
    let mut cursor = Rotation::new();
    assert_eq!(cursor.take(), 0);
    assert_eq!(cursor.take(), 1);
    assert_eq!(cursor.take(), 2);
}

#[test]
fn cursor_wraps_and_still_selects_inside_the_pool() {
    let mut cursor = Rotation::at(usize::MAX);
    assert_eq!(cursor.take(), usize::MAX);
    assert_eq!(cursor.take(), 0);
    let mut other = Rotation::at(usize::MAX - 1);
    for _ in 0..4 {
        assert!(other.select(3) < 3);
    }
}

#[test]
fn each_backend_gets_its_fair_share() {
    let pool = 3usize;
    let calls = 10usize;
    let mut counts = vec![0usize; pool];
    let mut cursor = Rotation::new();
    for _ in 0..calls {
        counts[cursor.select(pool)] += 1;
    }
    assert_eq!(counts, vec![4, 3, 3]);
    assert_eq!(counts.iter().sum::<usize>(), calls);
    for count in counts {
        assert!(count >= calls / pool);
        assert!(count <= (calls + pool - 1) / pool);
    }
}

#[test]
fn fair_share_holds_from_any_starting_ticket() {
    let pool = 4usize;
    let calls = 9usize;
    let mut counts = vec![0usize; pool];
    let mut cursor = Rotation::at(6);
    for _ in 0..calls {
        counts[cursor.select(pool)] += 1;
    }
    assert_eq!(counts, vec![2, 2, 3, 2]);
    assert_eq!(counts.iter().sum::<usize>(), calls);
}

#[test]
fn an_aborted_request_still_consumes_its_turn() {
    let names = vec!["A", "B", "C"];
    let mut cursor = Rotation::new();
    let mut routed = Vec::new();
    for request in 1..=5 {
        let backend = names[cursor.select(names.len())];
        if request == 2 {
            continue;
        }
        routed.push(backend);
    }
    assert_eq!(routed, vec!["A", "C", "A", "B"]);
}
