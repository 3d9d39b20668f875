//! Traffic counters of the network interfaces and of the disks.
use crate::reading::{lemma_order_by_bits, Reading, ZERO};
use vstd::prelude::*;

verus! {

/// Bytes that an interface has received and sent.
#[derive(Clone, Copy, Debug, PartialEq, Eq, Structural)]
pub struct NetBytes {
    /// Bytes received.
    pub rx: u64,
    /// Bytes sent.
    pub tx: u64,
}

/// Bytes that the disks have read and written.
#[derive(Clone, Copy, Debug, PartialEq, Eq, Structural)]
pub struct DiskBytes {
    /// Bytes read.
    pub read: u64,
    /// Bytes written.
    pub write: u64,
}

impl Default for NetBytes {
    fn default() -> (r: NetBytes)
        ensures
            r == (NetBytes { rx: 0, tx: 0 }),
    {
        NetBytes { rx: 0, tx: 0 }
    }
}

impl Default for DiskBytes {
    fn default() -> (r: DiskBytes)
        ensures
            r == (DiskBytes { read: 0, write: 0 }),
    {
        DiskBytes { read: 0, write: 0 }
    }
}

/// One line of the system's table of interfaces.
#[derive(Clone, Copy, Debug, PartialEq, Eq, Structural)]
pub struct InterfaceRow {
    /// Index of the interface.
    pub index: u32,
    /// Bytes received.
    pub in_octets: u64,
    /// Bytes sent.
    pub out_octets: u64,
}

/// One line of the system's statistics of block devices, in sectors of 512 bytes.
#[derive(Clone, Copy, Debug, PartialEq, Eq, Structural)]
pub struct DiskRow {
    /// Sectors read, where the line says.
    pub read_sectors: Option<u64>,
    /// Sectors written, where the line says.
    pub write_sectors: Option<u64>,
}

/// One physical disk, or all of them, in the system's performance counters.
#[allow(non_snake_case)]
#[derive(Debug)]
pub struct PerfDisk {
    /// Name of the disk; `_Total` stands for all of them.
    pub Name: String,
    /// Bytes read in a second, where they are known.
    pub DiskReadBytesPerSec: Option<u64>,
    /// Bytes written in a second, where they are known.
    pub DiskWriteBytesPerSec: Option<u64>,
}

/// The performance counters of the disks, as one query answered.
#[derive(Debug)]
pub struct DiskCounters {
    /// The disks, in the order of the answer.
    pub rows: Vec<PerfDisk>,
}

/// Bytes in a sector.
pub const SECTOR: u64 = 512;

/// A count, zero where it is not known.
pub open spec fn known(n: Option<u64>) -> u64 {
    match n {
        Some(k) => k,
        None => 0,
    }
}

/// Bytes that the devices have read.
pub open spec fn bytes_read(rows: Seq<DiskRow>) -> int
    decreases rows.len(),
{
    if rows.len() == 0 {
        0
    } else {
        bytes_read(rows.drop_last()) + 512 * known(rows.last().read_sectors)
    }
}

/// Bytes that the devices have written.
pub open spec fn bytes_written(rows: Seq<DiskRow>) -> int
    decreases rows.len(),
{
    if rows.len() == 0 {
        0
    } else {
        bytes_written(rows.drop_last()) + 512 * known(rows.last().write_sectors)
    }
}

/// A number of bytes, cut off at what 64 bits hold.
pub open spec fn capped(n: int) -> int {
    if n > u64::MAX {
        u64::MAX as int
    } else {
        n
    }
}

/// Growth of a counter; none where it fell.
pub open spec fn growth(before: u64, after: u64) -> u64 {
    if after > before {
        (after - before) as u64
    } else {
        0
    }
}

/// The first row of an interface.
pub open spec fn row_of(rows: Seq<InterfaceRow>, index: u32) -> Option<InterfaceRow>
    decreases rows.len(),
{
    if rows.len() == 0 {
        None
    } else if rows.first().index == index {
        Some(rows.first())
    } else {
        row_of(rows.drop_first(), index)
    }
}

/// The counters of an interface: zero for the index zero, which is none, for an interface that the
/// table lacks, and where there is no table.
pub open spec fn net_bytes_of(index: u32, table: Option<Seq<InterfaceRow>>) -> NetBytes {
    match table {
        Some(rows) => match row_of(rows, index) {
            Some(row) => if index == 0 {
                NetBytes { rx: 0, tx: 0 }
            } else {
                NetBytes { rx: row.in_octets, tx: row.out_octets }
            },
            None => NetBytes { rx: 0, tx: 0 },
        },
        None => NetBytes { rx: 0, tx: 0 },
    }
}

/// Bytes a second, read and written, in the first row for all disks.
pub open spec fn total_rates(rows: Seq<PerfDisk>) -> (u64, u64)
    decreases rows.len(),
{
    if rows.len() == 0 {
        (0, 0)
    } else if rows.first().Name@ == "_Total"@ {
        (known(rows.first().DiskReadBytesPerSec), known(rows.first().DiskWriteBytesPerSec))
    } else {
        total_rates(rows.drop_first())
    }
}

/// Reads the counters of an interface out of the system's table.
pub fn snapshot_network(interface_index: u32, table: &Option<Vec<InterfaceRow>>) -> (r: NetBytes)
    ensures
        r == net_bytes_of(
            interface_index,
            match *table {
                Some(rows) => Some(rows@),
                None => None,
            },
        ),
{
    if interface_index == 0 {
        return NetBytes::default();
    }
    if let Some(rows) = table {
        let n: usize = rows.len();
        let mut i: usize = 0;
        proof {
            assert(rows@.skip(0) =~= rows@);
        }
        while i < n
            invariant
                i <= n,
                n == rows@.len(),
                interface_index != 0,
                *table == Some(*rows),
                row_of(rows@, interface_index) == row_of(rows@.skip(i as int), interface_index),
            decreases n - i,
        {
            proof {
                assert(rows@.skip(i as int).drop_first() =~= rows@.skip(i + 1));
            }
            if rows[i].index == interface_index {
                return NetBytes { rx: rows[i].in_octets, tx: rows[i].out_octets };
            }
            i = i + 1;
        }
    }
    NetBytes::default()
}

/// Adds up what the devices have read and written; nothing where there are no statistics.
pub fn snapshot_disk(rows: &Vec<DiskRow>) -> (r: DiskBytes)
    requires
        forall|i: int|
            0 <= i < rows@.len() ==> 512 * known((#[trigger] rows@[i]).read_sectors) <= u64::MAX
                && 512 * known(rows@[i].write_sectors) <= u64::MAX,
    ensures
        r.read == capped(bytes_read(rows@)),
        r.write == capped(bytes_written(rows@)),
{
    let mut read: u64 = 0;
    let mut write: u64 = 0;
    let n: usize = rows.len();
    let mut i: usize = 0;
    while i < n
        invariant
            i <= n,
            n == rows@.len(),
            forall|k: int|
                0 <= k < rows@.len() ==> 512 * known((#[trigger] rows@[k]).read_sectors)
                    <= u64::MAX && 512 * known(rows@[k].write_sectors) <= u64::MAX,
            read == capped(bytes_read(rows@.take(i as int))),
            write == capped(bytes_written(rows@.take(i as int))),
        decreases n - i,
    {
        let row = rows[i];
        proof {
            assert(rows@.take(i + 1).drop_last() =~= rows@.take(i as int));
            assert(rows@[i as int] == row);
        }
        read = read.saturating_add(row.read_sectors.unwrap_or(0) * SECTOR);
        write = write.saturating_add(row.write_sectors.unwrap_or(0) * SECTOR);
        i = i + 1;
    }
    proof {
        assert(rows@.take(n as int) =~= rows@);
    }
    DiskBytes { read, write }
}

/// Bytes received and sent between two snapshots that lie `dt` seconds apart, where that is a
/// positive time, and the snapshot to count on from.
pub fn diff_network(prev: NetBytes, cur: NetBytes, dt: Reading) -> (r: (
    Option<(u64, u64)>,
    NetBytes,
))
    ensures
        r.0 == (if (Reading { bits: ZERO }).less(dt) {
            Some((growth(prev.rx, cur.rx), growth(prev.tx, cur.tx)))
        } else {
            None
        }),
        r.1 == cur,
        r.0 is Some <==> 0 < dt.bits <= 0x7FF0_0000_0000_0000,
        r.0 matches Some(passed) ==> (prev.rx <= cur.rx ==> prev.rx + passed.0 == cur.rx),
        r.0 matches Some(passed) ==> (prev.tx <= cur.tx ==> prev.tx + passed.1 == cur.tx),
        r.0 matches Some(passed) ==> (cur.rx < prev.rx ==> passed.0 == 0),
        r.0 matches Some(passed) ==> (cur.tx < prev.tx ==> passed.1 == 0),
{
    proof {
        lemma_order_by_bits(Reading { bits: ZERO }, dt);
    }
    let drx: u64 = cur.rx.saturating_sub(prev.rx);
    let dtx: u64 = cur.tx.saturating_sub(prev.tx);
    if (Reading { bits: ZERO }).less_than(dt) {
        (Some((drx, dtx)), cur)
    } else {
        (None, cur)
    }
}

/// Bytes read and written between two snapshots that lie `dt` seconds apart, where that is a
/// positive time, and the snapshot to count on from.
pub fn diff_disk(prev: DiskBytes, cur: DiskBytes, dt: Reading) -> (r: (
    Option<(u64, u64)>,
    DiskBytes,
))
    ensures
        r.0 == (if (Reading { bits: ZERO }).less(dt) {
            Some((growth(prev.read, cur.read), growth(prev.write, cur.write)))
        } else {
            None
        }),
        r.1 == cur,
        r.0 is Some <==> 0 < dt.bits <= 0x7FF0_0000_0000_0000,
        r.0 matches Some(passed) ==> (prev.read <= cur.read ==> prev.read + passed.0 == cur.read),
        r.0 matches Some(passed) ==> (prev.write <= cur.write ==> prev.write + passed.1
            == cur.write),
        r.0 matches Some(passed) ==> (cur.read < prev.read ==> passed.0 == 0),
        r.0 matches Some(passed) ==> (cur.write < prev.write ==> passed.1 == 0),
{
    proof {
        lemma_order_by_bits(Reading { bits: ZERO }, dt);
    }
    let dread: u64 = cur.read.saturating_sub(prev.read);
    let dwrite: u64 = cur.write.saturating_sub(prev.write);
    if (Reading { bits: ZERO }).less_than(dt) {
        (Some((dread, dwrite)), cur)
    } else {
        (None, cur)
    }
}

impl DiskCounters {
    /// The counters that a query answered with.
    pub fn new(rows: Vec<PerfDisk>) -> (r: DiskCounters)
        ensures
            r.rows == rows,
    {
        DiskCounters { rows }
    }

    /// Bytes a second that all disks together read and write; zero where that is not known.
    pub fn read_total(&self) -> (r: (u64, u64))
        ensures
            r == total_rates(self.rows@),
    {
        let total = "_Total".to_owned();
        let n: usize = self.rows.len();
        let mut i: usize = 0;
        proof {
            assert(self.rows@.skip(0) =~= self.rows@);
        }
        while i < n
            invariant
                i <= n,
                n == self.rows@.len(),
                total@ == "_Total"@,
                total_rates(self.rows@) == total_rates(self.rows@.skip(i as int)),
            decreases n - i,
        {
            let row = &self.rows[i];
            proof {
                assert(self.rows@.skip(i as int).drop_first() =~= self.rows@.skip(i + 1));
            }
            if row.Name == total {
                return (
                    row.DiskReadBytesPerSec.unwrap_or(0),
                    row.DiskWriteBytesPerSec.unwrap_or(0),
                );
            }
            i = i + 1;
        }
        (0, 0)
    }
}

/// Bytes a second that all disks together read and write, from the answer to a query; none where
/// there was no answer.
pub fn disk_total(answer: Option<(u64, u64)>) -> (r: (u64, u64))
    ensures
        r == match answer {
            Some(total) => total,
            None => (0u64, 0u64),
        },
{
    match answer {
        Some(total) => total,
        None => (0, 0),
    }
}

/// While a counter does not fall, its growth over two intervals is that over both together.
pub proof fn lemma_growth_adds_up(a: u64, b: u64, c: u64)
    requires
        a <= b <= c,
    ensures
        growth(a, b) + growth(b, c) == growth(a, c),
{
}

/// A counter that fell, as after a restart, counts as standing still.
pub proof fn lemma_fallen_counter_stands_still(before: u64, after: u64)
    requires
        after <= before,
    ensures
        growth(before, after) == 0,
{
}

/// What is reported of a counter that did not fall makes up, with what it was, what it is: every
/// byte counted is a byte reported, over the whole range. One that fell is reported as none.
pub proof fn lemma_growth_is_exact(before: u64, after: u64)
    ensures
        before <= after ==> before + growth(before, after) == after,
        after < before ==> growth(before, after) == 0,
{
}

/// One byte more counted is one byte more reported.
pub proof fn lemma_each_byte_counts(before: u64, after: u64)
    requires
        before <= after < u64::MAX,
    ensures
        growth(before, (after + 1) as u64) == growth(before, after) + 1,
{
}

/// A device more adds 512 bytes for each of its sectors, and none where its line does not say;
/// without devices there are none.
pub proof fn lemma_sectors_add_up(rows: Seq<DiskRow>, row: DiskRow)
    ensures
        bytes_read(Seq::<DiskRow>::empty()) == 0,
        bytes_written(Seq::<DiskRow>::empty()) == 0,
        row.read_sectors matches Some(n) ==> bytes_read(rows.push(row)) == bytes_read(rows) + 512
            * n,
        row.read_sectors is None ==> bytes_read(rows.push(row)) == bytes_read(rows),
        row.write_sectors matches Some(n) ==> bytes_written(rows.push(row)) == bytes_written(rows)
            + 512 * n,
        row.write_sectors is None ==> bytes_written(rows.push(row)) == bytes_written(rows),
{
    assert(rows.push(row).drop_last() =~= rows);
}

/// A sum that 64 bits hold is reported as it is, and a larger one as the largest they hold.
pub proof fn lemma_capped(n: int)
    ensures
        n <= 0xFFFF_FFFF_FFFF_FFFF ==> capped(n) == n,
        n >= 0xFFFF_FFFF_FFFF_FFFF ==> capped(n) == 0xFFFF_FFFF_FFFF_FFFF,
{
}

/// The row of an interface is the first one that bears its index.
pub proof fn lemma_first_row(rows: Seq<InterfaceRow>, i: int, index: u32)
    requires
        0 <= i <= rows.len(),
        forall|j: int| 0 <= j < i ==> (#[trigger] rows[j]).index != index,
    ensures
        i < rows.len() && rows[i].index == index ==> row_of(rows, index) == Some(rows[i]),
        i == rows.len() ==> row_of(rows, index) is None,
    decreases rows.len(),
{
    if rows.len() > 0 && 0 < i {
        let rest = rows.drop_first();
        assert(rows[0].index != index);
        assert forall|j: int| 0 <= j < i - 1 implies (#[trigger] rest[j]).index != index by {
            assert(rest[j] == rows[j + 1]);
        }
        lemma_first_row(rest, i - 1, index);
    }
}

/// The counters of an interface are those of the first row that bears its index, each in its place,
/// and zero where no row does, where there is no table, and for the index zero.
pub proof fn lemma_interface_bytes(rows: Seq<InterfaceRow>, i: int, index: u32)
    requires
        0 <= i <= rows.len(),
        forall|j: int| 0 <= j < i ==> (#[trigger] rows[j]).index != index,
    ensures
        index != 0 && i < rows.len() && rows[i].index == index ==> net_bytes_of(
            index,
            Some(rows),
        ).rx == rows[i].in_octets && net_bytes_of(index, Some(rows)).tx == rows[i].out_octets,
        index == 0 || i == rows.len() ==> net_bytes_of(index, Some(rows)).rx == 0 && net_bytes_of(
            index,
            Some(rows),
        ).tx == 0,
        net_bytes_of(index, None).rx == 0,
        net_bytes_of(index, None).tx == 0,
{
    lemma_first_row(rows, i, index);
}

/// The rates of all disks together are those of the first row named `_Total`, read before written,
/// each zero where the row does not give it, and both zero where no row has that name.
pub proof fn lemma_total_row(rows: Seq<PerfDisk>, i: int)
    requires
        0 <= i <= rows.len(),
        forall|j: int| 0 <= j < i ==> (#[trigger] rows[j]).Name@ != "_Total"@,
    ensures
        i < rows.len() && rows[i].Name@ == "_Total"@ ==> {
            &&& rows[i].DiskReadBytesPerSec matches Some(n) ==> total_rates(rows).0 == n
            &&& rows[i].DiskReadBytesPerSec is None ==> total_rates(rows).0 == 0
            &&& rows[i].DiskWriteBytesPerSec matches Some(n) ==> total_rates(rows).1 == n
            &&& rows[i].DiskWriteBytesPerSec is None ==> total_rates(rows).1 == 0
        },
        i == rows.len() ==> total_rates(rows).0 == 0 && total_rates(rows).1 == 0,
    decreases rows.len(),
{
    if rows.len() > 0 && 0 < i {
        let rest = rows.drop_first();
        assert(rows[0].Name@ != "_Total"@);
        assert forall|j: int| 0 <= j < i - 1 implies (#[trigger] rest[j]).Name@ != "_Total"@ by {
            assert(rest[j] == rows[j + 1]);
        }
        lemma_total_row(rest, i - 1);
    }
}

} // verus!
