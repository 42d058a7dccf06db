use portunusd::counter::RoundRobin;

#[test]
fn loops_around() {
    let data = vec![1, 2, 3];
    let mut rr = RoundRobin::new(&data);
    assert_eq!(rr.next(), &1);
    assert_eq!(rr.next(), &2);
    assert_eq!(rr.next(), &3);
    assert_eq!(rr.next(), &1);
}

#[test]
fn visits_each_element_once_per_cycle() {
    let data = vec![10, 20, 30, 40];
    let mut rr = RoundRobin::new(&data);
    for _cycle in 0..3 {
        let mut seen = vec![false; data.len()];
        for _draw in 0..data.len() {
            let item = rr.next();
            let position = data.iter().position(|x| x == item).unwrap();
            assert!(!seen[position]);
            seen[position] = true;
        }
        assert!(seen.iter().all(|s| *s));
    }
}

#[test]
fn single_element_pool_always_returns_it() {
    let data = vec![7];
    let mut rr = RoundRobin::new(&data);
    assert_eq!(rr.next(), &7);
    assert_eq!(rr.next(), &7);
    assert_eq!(rr.next(), &7);
}
