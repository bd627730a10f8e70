//! Resource statistics, reckoned from the counters that the daemon reports.
use crate::model::{ContainerStats, CpuShare};
use crate::text;
use vstd::prelude::*;

verus! {

/// Traffic of one network interface.
#[derive(Clone, Copy)]
pub struct NetworkSample {
    pub rx_bytes: u64,
    pub tx_bytes: u64,
}

/// One counter of block device traffic.
pub struct IoEntry {
    pub op: String,
    pub value: u64,
}

/// The counters of one reading of a container's statistics, and of the reading before it.
pub struct StatsSample {
    pub cpu_total: u64,
    pub precpu_total: u64,
    pub system_cpu: Option<u64>,
    pub presystem_cpu: Option<u64>,
    pub online_cpus: Option<u64>,
    pub memory_usage: Option<u64>,
    pub memory_limit: Option<u64>,
    pub networks: Option<Vec<NetworkSample>>,
    pub io_bytes: Option<Vec<IoEntry>>,
}

/// A counter, zero where it is missing.
pub open spec fn or_zero(n: Option<u64>) -> u64 {
    match n {
        Some(n) => n,
        None => 0,
    }
}

/// A 64-bit counter read as a signed number.
pub open spec fn as_signed(n: u64) -> int {
    if n <= i64::MAX {
        n as int
    } else {
        n - 0x1_0000_0000_0000_0000
    }
}

/// The sum of a list of counters.
pub open spec fn sum(values: Seq<u64>) -> nat
    decreases values.len(),
{
    if values.len() == 0 {
        0
    } else {
        sum(values.drop_last()) + values.last() as nat
    }
}

/// The bytes that each interface received.
pub open spec fn received(networks: Seq<NetworkSample>) -> Seq<u64> {
    Seq::new(networks.len(), |i: int| networks[i].rx_bytes)
}

/// The bytes that each interface sent.
pub open spec fn sent(networks: Seq<NetworkSample>) -> Seq<u64> {
    Seq::new(networks.len(), |i: int| networks[i].tx_bytes)
}

/// What each entry adds to the traffic of the operation `word`, in whatever case it is written.
pub open spec fn of_operation(entries: Seq<IoEntry>, word: Seq<char>) -> Seq<u64> {
    Seq::new(
        entries.len(),
        |i: int|
            if text::spells(entries[i].op@, word) {
                entries[i].value
            } else {
                0
            },
    )
}

impl StatsSample {
    /// Processor time that the container used between the two readings.
    pub open spec fn cpu_delta(self) -> int {
        as_signed(self.cpu_total) - as_signed(self.precpu_total)
    }

    /// Processor time that the whole system used between the two readings.
    pub open spec fn system_delta(self) -> int {
        as_signed(or_zero(self.system_cpu)) - as_signed(or_zero(self.presystem_cpu))
    }

    /// Bytes received by all interfaces.
    pub open spec fn network_rx(self) -> nat {
        match self.networks {
            Some(n) => sum(received(n@)),
            None => 0,
        }
    }

    /// Bytes sent by all interfaces.
    pub open spec fn network_tx(self) -> nat {
        match self.networks {
            Some(n) => sum(sent(n@)),
            None => 0,
        }
    }

    /// Bytes of the block device operation `word`.
    pub open spec fn block_total(self, word: Seq<char>) -> nat {
        match self.io_bytes {
            Some(e) => sum(of_operation(e@, word)),
            None => 0,
        }
    }

    /// Whether every difference and every sum is a 64-bit number.
    pub open spec fn in_range(self) -> bool {
        &&& i64::MIN <= self.cpu_delta() <= i64::MAX
        &&& i64::MIN <= self.system_delta() <= i64::MAX
        &&& self.network_rx() <= u64::MAX
        &&& self.network_tx() <= u64::MAX
        &&& self.block_total("read"@) <= u64::MAX
        &&& self.block_total("write"@) <= u64::MAX
    }

    /// The share of processor time: none unless both the container and the system used some.
    pub open spec fn cpu_share(self) -> Option<CpuShare> {
        if self.cpu_delta() > 0 && self.system_delta() > 0 {
            Some(
                CpuShare {
                    cpu_delta: self.cpu_delta() as i64,
                    system_delta: self.system_delta() as i64,
                    online_cpus: match self.online_cpus {
                        Some(n) => n,
                        None => 1,
                    },
                },
            )
        } else {
            None
        }
    }

    /// The statistics that the sample gives, read at `now`.
    pub open spec fn stats(self, now: u64) -> ContainerStats {
        ContainerStats {
            cpu_usage: self.cpu_share(),
            memory_usage: or_zero(self.memory_usage),
            memory_limit: or_zero(self.memory_limit),
            network_rx: self.network_rx() as u64,
            network_tx: self.network_tx() as u64,
            block_read: self.block_total("read"@) as u64,
            block_write: self.block_total("write"@) as u64,
            last_update: Some(now),
        }
    }
}

fn signed(n: u64) -> (s: i64)
    ensures
        s == as_signed(n),
{
    if n <= i64::MAX as u64 {
        n as i64
    } else {
        -((u64::MAX - n) as i64) - 1
    }
}

proof fn sum_grows(values: Seq<u64>, i: int)
    requires
        0 <= i <= values.len(),
    ensures
        sum(values.take(i)) <= sum(values),
    decreases values.len() - i,
{
    if i < values.len() {
        sum_grows(values, i + 1);
        assert(values.take(i + 1).drop_last() =~= values.take(i));
    } else {
        assert(values.take(i) =~= values);
    }
}

fn checked_sum(values: &Vec<u64>) -> (total: Option<u64>)
    ensures
        total is Some <==> sum(values@) <= u64::MAX,
        total matches Some(t) ==> t == sum(values@),
{
    let mut total: u64 = 0;
    let mut i: usize = 0;
    while i < values.len()
        invariant
            i <= values@.len(),
            total == sum(values@.take(i as int)),
        decreases values@.len() - i,
    {
        assert(values@.take(i + 1).drop_last() =~= values@.take(i as int));
        match total.checked_add(values[i]) {
            Some(t) => {
                total = t;
            },
            None => {
                proof {
                    sum_grows(values@, i + 1);
                }
                return None;
            },
        }
        i = i + 1;
    }
    assert(values@.take(i as int) =~= values@);
    Some(total)
}

fn checked_network(networks: &Option<Vec<NetworkSample>>) -> (totals: (Option<u64>, Option<u64>))
    ensures
        ({
            let rx = match *networks {
                Some(n) => sum(received(n@)),
                None => 0,
            };
            let tx = match *networks {
                Some(n) => sum(sent(n@)),
                None => 0,
            };
            &&& totals.0 is Some <==> rx <= u64::MAX
            &&& totals.0 matches Some(t) ==> t == rx
            &&& totals.1 is Some <==> tx <= u64::MAX
            &&& totals.1 matches Some(t) ==> t == tx
        }),
{
    let list: &Vec<NetworkSample> = match networks {
        Some(list) => list,
        None => {
            return (Some(0), Some(0));
        },
    };
    let mut rx: Vec<u64> = Vec::new();
    let mut tx: Vec<u64> = Vec::new();
    let mut i: usize = 0;
    while i < list.len()
        invariant
            i <= list@.len(),
            rx@ =~= received(list@).take(i as int),
            tx@ =~= sent(list@).take(i as int),
        decreases list@.len() - i,
    {
        rx.push(list[i].rx_bytes);
        tx.push(list[i].tx_bytes);
        i = i + 1;
    }
    assert(rx@ =~= received(list@));
    assert(tx@ =~= sent(list@));
    (checked_sum(&rx), checked_sum(&tx))
}

fn checked_operation(entries: &Option<Vec<IoEntry>>, word: &str) -> (total: Option<u64>)
    ensures
        ({
            let all = match *entries {
                Some(e) => sum(of_operation(e@, word@)),
                None => 0,
            };
            &&& total is Some <==> all <= u64::MAX
            &&& total matches Some(t) ==> t == all
        }),
{
    let list: &Vec<IoEntry> = match entries {
        Some(list) => list,
        None => {
            return Some(0);
        },
    };
    let mut values: Vec<u64> = Vec::new();
    let mut i: usize = 0;
    while i < list.len()
        invariant
            i <= list@.len(),
            values@ =~= of_operation(list@, word@).take(i as int),
        decreases list@.len() - i,
    {
        if text::spells_word(list[i].op.as_str(), word) {
            values.push(list[i].value);
        } else {
            values.push(0);
        }
        i = i + 1;
    }
    assert(values@ =~= of_operation(list@, word@));
    checked_sum(&values)
}

fn checked_delta(a: u64, b: u64) -> (d: Option<i64>)
    ensures
        d is Some <==> i64::MIN <= as_signed(a) - as_signed(b) <= i64::MAX,
        d matches Some(d) ==> d == as_signed(a) - as_signed(b),
{
    signed(a).checked_sub(signed(b))
}

/// Whether every difference and every sum of the sample is a 64-bit number.
pub fn sample_in_range(sample: &StatsSample) -> (b: bool)
    ensures
        b == sample.in_range(),
{
    let network: (Option<u64>, Option<u64>) = checked_network(&sample.networks);
    checked_delta(sample.cpu_total, sample.precpu_total).is_some() && checked_delta(
        sample.system_cpu.unwrap_or(0),
        sample.presystem_cpu.unwrap_or(0),
    ).is_some() && network.0.is_some() && network.1.is_some() && checked_operation(
        &sample.io_bytes,
        "read",
    ).is_some() && checked_operation(&sample.io_bytes, "write").is_some()
}

/// The container's share of processor time, `None` for no use.
pub fn calculate_cpu_percentage(sample: &StatsSample) -> (share: Option<CpuShare>)
    requires
        i64::MIN <= sample.cpu_delta() <= i64::MAX,
        i64::MIN <= sample.system_delta() <= i64::MAX,
    ensures
        share == sample.cpu_share(),
{
    let cpu_delta: i64 = signed(sample.cpu_total) - signed(sample.precpu_total);
    let system_delta: i64 = signed(sample.system_cpu.unwrap_or(0)) - signed(
        sample.presystem_cpu.unwrap_or(0),
    );
    if cpu_delta > 0 && system_delta > 0 {
        Some(CpuShare { cpu_delta, system_delta, online_cpus: sample.online_cpus.unwrap_or(1) })
    } else {
        None
    }
}

/// Reckons the statistics of one sample, read at `now`.
pub fn container_stats(sample: &StatsSample, now: u64) -> (stats: ContainerStats)
    requires
        sample.in_range(),
    ensures
        stats == sample.stats(now),
{
    let cpu_usage: Option<CpuShare> = calculate_cpu_percentage(sample);
    let network: (Option<u64>, Option<u64>) = checked_network(&sample.networks);
    let block_read: Option<u64> = checked_operation(&sample.io_bytes, "read");
    let block_write: Option<u64> = checked_operation(&sample.io_bytes, "write");
    ContainerStats {
        cpu_usage,
        memory_usage: sample.memory_usage.unwrap_or(0),
        memory_limit: sample.memory_limit.unwrap_or(0),
        network_rx: network.0.unwrap(),
        network_tx: network.1.unwrap(),
        block_read: block_read.unwrap(),
        block_write: block_write.unwrap(),
        last_update: Some(now),
    }
}

proof fn sum_without(values: Seq<u64>, j: int)
    requires
        0 <= j < values.len(),
    ensures
        sum(values) == sum(values.remove(j)) + values[j],
    decreases values.len(),
{
    if j == values.len() - 1 {
        assert(values.remove(j) =~= values.drop_last());
    } else {
        sum_without(values.drop_last(), j);
        assert(values.remove(j).drop_last() =~= values.drop_last().remove(j));
    }
}

/// Sums do not depend on the order in which interfaces or counters are listed.
pub proof fn sum_is_order_free(a: Seq<u64>, b: Seq<u64>)
    requires
        a.to_multiset() == b.to_multiset(),
    ensures
        sum(a) == sum(b),
    decreases a.len(),
{
    broadcast use vstd::seq_lib::group_to_multiset_ensures;

    assert(a.len() == a.to_multiset().len());
    assert(b.len() == b.to_multiset().len());
    if a.len() > 0 {
        let x = a.last();
        assert(a.contains(x));
        assert(b.to_multiset().count(x) > 0);
        assert(b.contains(x));
        let j = choose|j: int| 0 <= j < b.len() && b[j] == x;
        assert(a.remove(a.len() - 1) =~= a.drop_last());
        assert(a.drop_last().to_multiset() =~= a.to_multiset().remove(x));
        assert(b.remove(j).to_multiset() =~= b.to_multiset().remove(x));
        sum_is_order_free(a.drop_last(), b.remove(j));
        sum_without(b, j);
    }
}

/// Every entry counts for at most one of reading and writing.
pub proof fn operations_are_disjoint(entries: Seq<IoEntry>, i: int)
    requires
        0 <= i < entries.len(),
    ensures
        of_operation(entries, "read"@)[i] == 0 || of_operation(entries, "write"@)[i] == 0,
{
    reveal_strlit("read");
    reveal_strlit("write");
}

/// Where the counters of the container and of the system both grew, the share has exactly what
/// each of them grew by, however much that is, and the number of processors that was reported, or
/// one. Where one of them did not grow there is no share. A missing system counter reads zero.
pub proof fn shares_are_what_the_counters_grew_by(
    sample: StatsSample,
    system: u64,
    presystem: u64,
    share: Option<CpuShare>,
)
    requires
        call_ensures(calculate_cpu_percentage, (&sample,), share),
        sample.system_cpu == Some(system) || (sample.system_cpu is None && system == 0),
        sample.presystem_cpu == Some(presystem) || (sample.presystem_cpu is None && presystem
            == 0),
        sample.cpu_total < 0x8000_0000_0000_0000,
        sample.precpu_total < 0x8000_0000_0000_0000,
        system < 0x8000_0000_0000_0000,
        presystem < 0x8000_0000_0000_0000,
    ensures
        share is Some <==> sample.cpu_total > sample.precpu_total && system > presystem,
        share matches Some(s) ==> {
            &&& sample.precpu_total + s.cpu_delta == sample.cpu_total
            &&& presystem + s.system_delta == system
            &&& sample.online_cpus matches Some(n) ==> s.online_cpus == n
            &&& sample.online_cpus is None ==> s.online_cpus == 1
        },
{
}

/// Counters from 2^63 on are read as negative numbers, 2^64 below themselves, and then treated
/// alike.
pub proof fn great_counters_are_read_as_negative(
    sample: StatsSample,
    system: u64,
    presystem: u64,
    readings: Seq<int>,
    share: Option<CpuShare>,
)
    requires
        call_ensures(calculate_cpu_percentage, (&sample,), share),
        sample.system_cpu == Some(system),
        sample.presystem_cpu == Some(presystem),
        readings.len() == 4,
        forall|i: int|
            0 <= i < 4 ==> -0x8000_0000_0000_0000 <= #[trigger] readings[i]
                < 0x8000_0000_0000_0000,
        readings[0] == sample.cpu_total || readings[0] == sample.cpu_total
            - 0x1_0000_0000_0000_0000,
        readings[1] == sample.precpu_total || readings[1] == sample.precpu_total
            - 0x1_0000_0000_0000_0000,
        readings[2] == system || readings[2] == system - 0x1_0000_0000_0000_0000,
        readings[3] == presystem || readings[3] == presystem - 0x1_0000_0000_0000_0000,
        readings[0] - readings[1] < 0x8000_0000_0000_0000,
        readings[2] - readings[3] < 0x8000_0000_0000_0000,
    ensures
        share is Some <==> readings[0] > readings[1] && readings[2] > readings[3],
        share matches Some(s) ==> s.cpu_delta == readings[0] - readings[1] && s.system_delta
            == readings[2] - readings[3],
{
    assert(readings[0] == as_signed(sample.cpu_total));
    assert(readings[1] == as_signed(sample.precpu_total));
    assert(readings[2] == as_signed(system));
    assert(readings[3] == as_signed(presystem));
}

/// The sum of two lists together is the sum of the first and that of the second; the sum of one
/// number is that number.
pub proof fn sums_add_up(a: Seq<u64>, b: Seq<u64>, n: u64)
    ensures
        sum(a + b) == sum(a) + sum(b),
        sum(seq![n]) == n,
        sum(Seq::<u64>::empty()) == 0,
    decreases b.len(),
{
    assert(seq![n].drop_last() =~= Seq::empty());
    assert(sum(seq![n].drop_last()) == 0);
    if b.len() == 0 {
        assert(a + b =~= a);
    } else {
        sums_add_up(a, b.drop_last(), n);
        assert((a + b).drop_last() =~= a + b.drop_last());
    }
}

/// Memory counters are taken over as they are, zero where they are missing, the processor share is
/// the one that the counters give, and the time of reading is kept.
pub proof fn memory_and_time_are_taken_over(
    sample: StatsSample,
    now: u64,
    stats: ContainerStats,
    share: Option<CpuShare>,
)
    requires
        call_ensures(container_stats, (&sample, now), stats),
        call_ensures(calculate_cpu_percentage, (&sample,), share),
    ensures
        sample.memory_usage matches Some(n) ==> stats.memory_usage == n,
        sample.memory_usage is None ==> stats.memory_usage == 0,
        sample.memory_limit matches Some(n) ==> stats.memory_limit == n,
        sample.memory_limit is None ==> stats.memory_limit == 0,
        stats.last_update == Some(now),
        stats.cpu_usage == share,
{
}

/// Network traffic is the sum over all interfaces, received and sent each by itself, and zero
/// where no interfaces are reported.
pub proof fn network_traffic_is_summed(
    sample: StatsSample,
    networks: Vec<NetworkSample>,
    rx: Seq<u64>,
    tx: Seq<u64>,
    now: u64,
    stats: ContainerStats,
)
    requires
        call_ensures(container_stats, (&sample, now), stats),
        sample.networks is None || sample.networks == Some(networks),
        rx.len() == networks@.len(),
        tx.len() == networks@.len(),
        forall|i: int| 0 <= i < rx.len() ==> #[trigger] rx[i] == networks@[i].rx_bytes,
        forall|i: int| 0 <= i < tx.len() ==> #[trigger] tx[i] == networks@[i].tx_bytes,
        sum(rx) <= u64::MAX,
        sum(tx) <= u64::MAX,
    ensures
        sample.networks is Some ==> stats.network_rx == sum(rx) && stats.network_tx == sum(tx),
        sample.networks is None ==> stats.network_rx == 0 && stats.network_tx == 0,
{
    assert(rx =~= received(networks@));
    assert(tx =~= sent(networks@));
}

/// Whether `op` is `read`, each letter small or capital.
pub open spec fn reads(op: Seq<char>) -> bool {
    &&& op.len() == 4
    &&& op[0] == 'r' || op[0] == 'R'
    &&& op[1] == 'e' || op[1] == 'E'
    &&& op[2] == 'a' || op[2] == 'A'
    &&& op[3] == 'd' || op[3] == 'D'
}

/// Whether `op` is `write`, each letter small or capital.
pub open spec fn writes(op: Seq<char>) -> bool {
    &&& op.len() == 5
    &&& op[0] == 'w' || op[0] == 'W'
    &&& op[1] == 'r' || op[1] == 'R'
    &&& op[2] == 'i' || op[2] == 'I'
    &&& op[3] == 't' || op[3] == 'T'
    &&& op[4] == 'e' || op[4] == 'E'
}

proof fn operations_by_letters(op: Seq<char>)
    ensures
        text::spells(op, "read"@) <==> reads(op),
        text::spells(op, "write"@) <==> writes(op),
{
    reveal_strlit("read");
    reveal_strlit("write");
    if text::spells(op, "read"@) {
        assert(text::ascii_lower(op[0]) == 'r');
        assert(text::ascii_lower(op[1]) == 'e');
        assert(text::ascii_lower(op[2]) == 'a');
        assert(text::ascii_lower(op[3]) == 'd');
    }
    if text::spells(op, "write"@) {
        assert(text::ascii_lower(op[0]) == 'w');
        assert(text::ascii_lower(op[1]) == 'r');
        assert(text::ascii_lower(op[2]) == 'i');
        assert(text::ascii_lower(op[3]) == 't');
        assert(text::ascii_lower(op[4]) == 'e');
    }
}

/// Block device traffic is the sum over the entries of the operation, read and written each by
/// itself, whatever the case of the letters; other entries count for nothing.
pub proof fn block_traffic_is_summed(
    sample: StatsSample,
    entries: Vec<IoEntry>,
    read: Seq<u64>,
    written: Seq<u64>,
    now: u64,
    stats: ContainerStats,
)
    requires
        call_ensures(container_stats, (&sample, now), stats),
        sample.io_bytes is None || sample.io_bytes == Some(entries),
        read.len() == entries@.len(),
        written.len() == entries@.len(),
        forall|i: int|
            0 <= i < read.len() ==> #[trigger] read[i] == if reads(entries@[i].op@) {
                entries@[i].value
            } else {
                0
            },
        forall|i: int|
            0 <= i < written.len() ==> #[trigger] written[i] == if writes(entries@[i].op@) {
                entries@[i].value
            } else {
                0
            },
        sum(read) <= u64::MAX,
        sum(written) <= u64::MAX,
    ensures
        sample.io_bytes is Some ==> stats.block_read == sum(read) && stats.block_write == sum(
            written,
        ),
        sample.io_bytes is None ==> stats.block_read == 0 && stats.block_write == 0,
{
    assert(read =~= of_operation(entries@, "read"@)) by {
        assert forall|i: int| 0 <= i < read.len() implies read[i] == of_operation(
            entries@,
            "read"@,
        )[i] by {
            operations_by_letters(entries@[i].op@);
        }
    }
    assert(written =~= of_operation(entries@, "write"@)) by {
        assert forall|i: int| 0 <= i < written.len() implies written[i] == of_operation(
            entries@,
            "write"@,
        )[i] by {
            operations_by_letters(entries@[i].op@);
        }
    }
}

/// A sample of counters below 2^63 is in range exactly where its four sums are unsigned 64-bit
/// numbers.
pub proof fn samples_are_in_range_by_their_numbers(
    sample: StatsSample,
    networks: Vec<NetworkSample>,
    entries: Vec<IoEntry>,
    system: u64,
    presystem: u64,
    rx: Seq<u64>,
    tx: Seq<u64>,
    read: Seq<u64>,
    written: Seq<u64>,
    b: bool,
)
    requires
        call_ensures(sample_in_range, (&sample,), b),
        sample.networks == Some(networks) || (sample.networks is None && networks@.len() == 0),
        sample.io_bytes == Some(entries) || (sample.io_bytes is None && entries@.len() == 0),
        sample.system_cpu == Some(system) || (sample.system_cpu is None && system == 0),
        sample.presystem_cpu == Some(presystem) || (sample.presystem_cpu is None && presystem
            == 0),
        sample.cpu_total < 0x8000_0000_0000_0000,
        sample.precpu_total < 0x8000_0000_0000_0000,
        system < 0x8000_0000_0000_0000,
        presystem < 0x8000_0000_0000_0000,
        rx.len() == networks@.len(),
        tx.len() == networks@.len(),
        read.len() == entries@.len(),
        written.len() == entries@.len(),
        forall|i: int| 0 <= i < rx.len() ==> #[trigger] rx[i] == networks@[i].rx_bytes,
        forall|i: int| 0 <= i < tx.len() ==> #[trigger] tx[i] == networks@[i].tx_bytes,
        forall|i: int|
            0 <= i < read.len() ==> #[trigger] read[i] == if reads(entries@[i].op@) {
                entries@[i].value
            } else {
                0
            },
        forall|i: int|
            0 <= i < written.len() ==> #[trigger] written[i] == if writes(entries@[i].op@) {
                entries@[i].value
            } else {
                0
            },
    ensures
        b <==> sum(rx) <= u64::MAX && sum(tx) <= u64::MAX && sum(read) <= u64::MAX && sum(written)
            <= u64::MAX,
{
    assert(rx =~= received(networks@));
    assert(tx =~= sent(networks@));
    assert(read =~= of_operation(entries@, "read"@)) by {
        assert forall|i: int| 0 <= i < read.len() implies read[i] == of_operation(
            entries@,
            "read"@,
        )[i] by {
            operations_by_letters(entries@[i].op@);
        }
    }
    assert(written =~= of_operation(entries@, "write"@)) by {
        assert forall|i: int| 0 <= i < written.len() implies written[i] == of_operation(
            entries@,
            "write"@,
        )[i] by {
            operations_by_letters(entries@[i].op@);
        }
    }
}

/// A sample without networks and entries is in range exactly where its two differences are signed
/// 64-bit numbers; counters from 2^63 on are read 2^64 below themselves.
pub proof fn differences_decide_on_the_range(
    sample: StatsSample,
    system: u64,
    presystem: u64,
    readings: Seq<int>,
    b: bool,
)
    requires
        call_ensures(sample_in_range, (&sample,), b),
        sample.networks is None,
        sample.io_bytes is None,
        sample.system_cpu == Some(system),
        sample.presystem_cpu == Some(presystem),
        readings.len() == 4,
        forall|i: int|
            0 <= i < 4 ==> -0x8000_0000_0000_0000 <= #[trigger] readings[i]
                < 0x8000_0000_0000_0000,
        readings[0] == sample.cpu_total || readings[0] == sample.cpu_total
            - 0x1_0000_0000_0000_0000,
        readings[1] == sample.precpu_total || readings[1] == sample.precpu_total
            - 0x1_0000_0000_0000_0000,
        readings[2] == system || readings[2] == system - 0x1_0000_0000_0000_0000,
        readings[3] == presystem || readings[3] == presystem - 0x1_0000_0000_0000_0000,
    ensures
        b <==> -0x8000_0000_0000_0000 <= readings[0] - readings[1] < 0x8000_0000_0000_0000
            && -0x8000_0000_0000_0000 <= readings[2] - readings[3] < 0x8000_0000_0000_0000,
{
    assert(readings[0] == as_signed(sample.cpu_total));
    assert(readings[1] == as_signed(sample.precpu_total));
    assert(readings[2] == as_signed(system));
    assert(readings[3] == as_signed(presystem));
}

} // verus!
