use smart_horizoker::model::{ContainerStats, CpuShare};
use smart_horizoker::stats::{
    calculate_cpu_percentage, container_stats, sample_in_range, IoEntry, NetworkSample, StatsSample,
};

fn quiet() -> StatsSample {
    StatsSample {
        cpu_total: 0,
        precpu_total: 0,
        system_cpu: None,
        presystem_cpu: None,
        online_cpus: None,
        memory_usage: None,
        memory_limit: None,
        networks: None,
        io_bytes: None,
    }
}

fn io(op: &str, value: u64) -> IoEntry {
    IoEntry { op: op.to_string(), value }
}

#[test]
fn a_quiet_container_uses_nothing() {
    assert!(sample_in_range(&quiet()));
    let stats = container_stats(&quiet(), 5);
    assert_eq!(stats, ContainerStats { last_update: Some(5), ..ContainerStats::default() });
}

#[test]
fn a_busy_container_has_its_sums() {
    let sample = StatsSample {
        cpu_total: 500,
        precpu_total: 200,
        system_cpu: Some(9000),
        presystem_cpu: Some(8000),
        online_cpus: Some(4),
        memory_usage: Some(77),
        memory_limit: Some(88),
        networks: Some(vec![
            NetworkSample { rx_bytes: 1, tx_bytes: 10 },
            NetworkSample { rx_bytes: 2, tx_bytes: 20 },
        ]),
        io_bytes: Some(vec![io("Read", 100), io("WRITE", 7), io("read", 1), io("sync", 1000)]),
    };
    assert!(sample_in_range(&sample));
    let stats = container_stats(&sample, 9);
    assert_eq!(stats.cpu_usage, Some(CpuShare { cpu_delta: 300, system_delta: 1000, online_cpus: 4 }));
    assert_eq!((stats.memory_usage, stats.memory_limit), (77, 88));
    assert_eq!((stats.network_rx, stats.network_tx), (3, 30));
    assert_eq!((stats.block_read, stats.block_write), (101, 7));
    assert_eq!(stats.last_update, Some(9));
}

#[test]
fn sums_do_not_depend_on_the_order() {
    let mut sample = quiet();
    sample.io_bytes = Some(vec![io("read", 1), io("write", 2), io("read", 4)]);
    let forward = container_stats(&sample, 0);
    sample.io_bytes = Some(vec![io("read", 4), io("read", 1), io("write", 2)]);
    assert_eq!(container_stats(&sample, 0), forward);
}

#[test]
fn no_share_without_progress() {
    let mut sample = quiet();
    sample.cpu_total = 10;
    assert_eq!(calculate_cpu_percentage(&sample), None);
    sample.system_cpu = Some(10);
    assert_eq!(
        calculate_cpu_percentage(&sample),
        Some(CpuShare { cpu_delta: 10, system_delta: 10, online_cpus: 1 })
    );
    sample.precpu_total = 11;
    assert_eq!(calculate_cpu_percentage(&sample), None);
    sample.precpu_total = 10;
    assert_eq!(calculate_cpu_percentage(&sample), None);
}

#[test]
fn counters_are_read_as_signed_numbers() {
    let mut sample = quiet();
    sample.cpu_total = u64::MAX;
    sample.precpu_total = u64::MAX - 5;
    sample.system_cpu = Some(1);
    assert_eq!(
        calculate_cpu_percentage(&sample),
        Some(CpuShare { cpu_delta: 5, system_delta: 1, online_cpus: 1 })
    );
    sample.precpu_total = 0;
    assert_eq!(calculate_cpu_percentage(&sample), None);
}

#[test]
fn sums_and_differences_out_of_range_are_recognised() {
    let mut sample = quiet();
    sample.cpu_total = 1 << 63;
    assert!(sample_in_range(&sample));
    sample.precpu_total = 1;
    assert!(!sample_in_range(&sample));
    let mut sample = quiet();
    sample.presystem_cpu = Some(1 << 63);
    assert!(!sample_in_range(&sample));
    let mut sample = quiet();
    sample.networks = Some(vec![
        NetworkSample { rx_bytes: u64::MAX, tx_bytes: 0 },
        NetworkSample { rx_bytes: 0, tx_bytes: 3 },
    ]);
    assert!(sample_in_range(&sample));
    sample.networks = Some(vec![
        NetworkSample { rx_bytes: 0, tx_bytes: u64::MAX },
        NetworkSample { rx_bytes: 0, tx_bytes: 1 },
    ]);
    assert!(!sample_in_range(&sample));
    let mut sample = quiet();
    sample.io_bytes = Some(vec![io("read", u64::MAX), io("write", 1)]);
    assert!(sample_in_range(&sample));
    sample.io_bytes = Some(vec![io("read", u64::MAX), io("Read", 1)]);
    assert!(!sample_in_range(&sample));
    sample.io_bytes = Some(vec![io("write", u64::MAX), io("Write", 1)]);
    assert!(!sample_in_range(&sample));
}
