use rtop::ordering::{cpu_key, key_of, sort_processes};
use rtop::system_information::ProcessInformation;

fn proc_(pid: u32, name: &str, cpu: f32, mem: u64) -> ProcessInformation {
    ProcessInformation { pid, name: name.to_string(), cpu_usage_bits: cpu.to_bits(), memory_usage: mem }
}

fn pids(ps: &[ProcessInformation]) -> Vec<u32> {
    ps.iter().map(|p| p.pid).collect()
}

#[test]
fn sorts_by_cpu_descending() {
    let mut ps = vec![proc_(1, "a", 0.5, 10), proc_(2, "b", 12.0, 5), proc_(3, "c", 3.25, 7)];
    sort_processes(&mut ps, true);
    assert_eq!(pids(&ps), vec![2, 3, 1]);
}

#[test]
fn sorts_by_memory_descending() {
    let mut ps = vec![proc_(1, "a", 0.5, 10), proc_(2, "b", 12.0, 5), proc_(3, "c", 3.25, 700)];
    sort_processes(&mut ps, false);
    assert_eq!(pids(&ps), vec![3, 1, 2]);
}

#[test]
fn equal_keys_keep_their_order() {
    let mut ps = vec![
        proc_(1, "a", 1.0, 4),
        proc_(2, "b", 2.0, 4),
        proc_(3, "c", 1.0, 9),
        proc_(4, "d", 2.0, 4),
        proc_(5, "e", 1.0, 4),
    ];
    sort_processes(&mut ps, true);
    assert_eq!(pids(&ps), vec![2, 4, 1, 3, 5]);
    sort_processes(&mut ps, false);
    assert_eq!(pids(&ps), vec![3, 2, 4, 1, 5]);
}

#[test]
fn sorting_twice_changes_nothing() {
    let mut ps = vec![proc_(1, "a", 1.0, 4), proc_(2, "b", 7.0, 2), proc_(3, "c", 1.0, 9)];
    sort_processes(&mut ps, true);
    let once = pids(&ps);
    sort_processes(&mut ps, true);
    assert_eq!(pids(&ps), once);
}

#[test]
fn sort_keeps_every_process() {
    let mut ps: Vec<ProcessInformation> = (0..50u32)
        .map(|i| proc_(i, "p", ((i * 37) % 11) as f32, ((i * 53) % 7) as u64))
        .collect();
    sort_processes(&mut ps, true);
    let mut seen = pids(&ps);
    seen.sort();
    assert_eq!(seen, (0..50u32).collect::<Vec<_>>());
    for w in ps.windows(2) {
        assert!(key_of(&w[0], true) >= key_of(&w[1], true));
    }
}

#[test]
fn cpu_key_follows_the_total_order_of_floats() {
    let values = [f32::NEG_INFINITY, -3.5, -0.0, 0.0, 1e-30, 0.5, 7.0, f32::INFINITY];
    for a in values {
        for b in values {
            assert_eq!(cpu_key(a.to_bits()).cmp(&cpu_key(b.to_bits())), a.total_cmp(&b), "{a} {b}");
        }
    }
    assert_eq!(cpu_key(2.5f32.to_bits()), 2.5f32.to_bits() as i32);
}

#[test]
fn nan_sorts_like_total_cmp() {
    let mut ps = vec![proc_(1, "a", 1.0, 0), proc_(2, "b", f32::NAN, 0), proc_(3, "c", 50.0, 0)];
    sort_processes(&mut ps, true);
    let mut expected = vec![proc_(1, "a", 1.0, 0), proc_(2, "b", f32::NAN, 0), proc_(3, "c", 50.0, 0)];
    expected.sort_by(|a, b| f32::from_bits(b.cpu_usage_bits).total_cmp(&f32::from_bits(a.cpu_usage_bits)));
    assert_eq!(pids(&ps), pids(&expected));
}
