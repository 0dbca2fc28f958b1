use sysmon::schedule::poll_plan;

#[test]
fn processes_every_second_pass_disks_every_tenth() {
    let plans: Vec<(bool, bool)> =
        (0u64..21).map(|c| {
            let p = poll_plan(c);
            (p.refresh_processes, p.refresh_disks)
        })
        .collect();
    assert_eq!(plans[0], (true, true));
    assert_eq!(plans[1], (false, false));
    assert_eq!(plans[2], (true, false));
    assert_eq!(plans[10], (true, true));
    assert_eq!(plans[15], (false, false));
    assert_eq!(plans[20], (true, true));
}

#[test]
fn counter_wraps() {
    assert_eq!(poll_plan(0).next_counter, 1);
    assert_eq!(poll_plan(u64::MAX).next_counter, 0);
}
