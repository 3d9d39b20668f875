//! The serial line: when its port is open, and what is sent.
use crate::panel::SerialCfg;
use crate::speed::{lemma_speed_text_plain, unit_suffix, SpeedUnit};
use crate::text::{
    append_int, lemma_decimal_digits, lemma_signed_decimal_plain, lemma_split_undoes_join, signed_decimal, split_first,
};
use vstd::prelude::*;
use vstd::string::StringExecFns;

verus! {

/// Symbols a second on the line.
pub const BAUD: u32 = 115_200;

/// What is to be done with the port, in this order.
#[derive(Clone, Copy, Debug, PartialEq, Eq, Structural)]
pub struct SerialStep {
    /// Close the port that is open.
    pub close: bool,
    /// Try to open the configured port.
    pub open: bool,
    /// Send a line if a port is open by now.
    pub send: bool,
}

/// Whether the open port, by the name that it reports, is the one to go on with.
pub open spec fn keeps_port(cfg: SerialCfg, open_port: Option<Seq<char>>) -> bool {
    cfg.enabled && open_port == Some(cfg.port@)
}

/// What is to be done with the port: one that is not wanted, or not the configured one, is closed;
/// the configured one is opened where none is left; and a line is sent while the line is on.
pub open spec fn step_of(cfg: SerialCfg, open_port: Option<Seq<char>>) -> SerialStep {
    SerialStep {
        close: open_port is Some && !keeps_port(cfg, open_port),
        open: cfg.enabled && !keeps_port(cfg, open_port),
        send: cfg.enabled,
    }
}

/// What is to be done with the port. `open_port` is the name that the open port reports, empty
/// where it reports none.
pub fn serial_step(cfg: &SerialCfg, open_port: Option<&String>) -> (r: SerialStep)
    ensures
        r == step_of(
            *cfg,
            match open_port {
                Some(name) => Some(name@),
                None => None,
            },
        ),
{
    if !cfg.enabled {
        return SerialStep { close: open_port.is_some(), open: false, send: false };
    }
    match open_port {
        Some(name) => {
            let same: bool = *name == cfg.port;
            SerialStep { close: !same, open: !same, send: true }
        },
        None => SerialStep { close: false, open: true, send: true },
    }
}

/// The address to send: the one found, or the one that stands for none.
pub fn get_primary_ip(found: Option<String>) -> (r: String)
    ensures
        r@ == match found {
            Some(ip) => ip@,
            None => "0.0.0.0"@,
        },
{
    match found {
        Some(ip) => ip,
        None => "0.0.0.0".to_owned(),
    }
}

/// A line: six fields with commas between them.
pub open spec fn line_of(
    cpu: int,
    ram: int,
    disk_r: Seq<char>,
    disk_w: Seq<char>,
    net: Seq<char>,
    ip: Seq<char>,
) -> Seq<char> {
    signed_decimal(cpu) + seq![','] + (signed_decimal(ram) + seq![','] + (disk_r + seq![','] + (
    disk_w + seq![','] + (net + seq![','] + (ip + seq!['\n'])))))
}

/// What stands before the first comma.
pub open spec fn first_field(s: Seq<char>) -> Seq<char> {
    match split_first(s, ',') {
        Some((before, _)) => before,
        None => s,
    }
}

/// What stands after the first comma.
pub open spec fn other_fields(s: Seq<char>) -> Seq<char> {
    match split_first(s, ',') {
        Some((_, after)) => after,
        None => Seq::empty(),
    }
}

/// The line to send: load and memory in whole percent, disk and network throughput as they are
/// written, and the address.
pub fn serial_line(cpu: i32, ram: i32, disk_r: &str, disk_w: &str, net: &str, ip: &str) -> (r:
    String)
    ensures
        r@ == line_of(cpu as int, ram as int, disk_r@, disk_w@, net@, ip@),
{
    proof {
        reveal_strlit(",");
        reveal_strlit("\n");
    }
    let mut r = String::new();
    append_int(&mut r, cpu);
    r.append(",");
    append_int(&mut r, ram);
    r.append(",");
    r.append(disk_r);
    r.append(",");
    r.append(disk_w);
    r.append(",");
    r.append(net);
    r.append(",");
    r.append(ip);
    r.append("\n");
    proof {
        assert(r@ =~= line_of(cpu as int, ram as int, disk_r@, disk_w@, net@, ip@));
    }
    r
}

/// A port stays open from one round to the next only while the line is on and it is the configured
/// one, and then it is not opened again.
pub proof fn lemma_only_configured_port_stays(cfg: SerialCfg, open_port: Option<Seq<char>>)
    ensures
        open_port is Some && !step_of(cfg, open_port).close <==> cfg.enabled && open_port == Some(
            cfg.port@,
        ),
        open_port is Some && step_of(cfg, open_port).open ==> step_of(cfg, open_port).close,
        !cfg.enabled ==> !step_of(cfg, open_port).open && !step_of(cfg, open_port).send,
{
}

/// The fields read back from the line at its commas, where the texts hold none.
pub proof fn lemma_line_reads_back(
    cpu: int,
    ram: int,
    disk_r: Seq<char>,
    disk_w: Seq<char>,
    net: Seq<char>,
    ip: Seq<char>,
)
    requires
        !disk_r.contains(','),
        !disk_w.contains(','),
        !net.contains(','),
    ensures
        ({
            let after1 = other_fields(line_of(cpu, ram, disk_r, disk_w, net, ip));
            let after2 = other_fields(after1);
            let after3 = other_fields(after2);
            let after4 = other_fields(after3);
            &&& first_field(line_of(cpu, ram, disk_r, disk_w, net, ip)) == signed_decimal(cpu)
            &&& first_field(after1) == signed_decimal(ram)
            &&& first_field(after2) == disk_r
            &&& first_field(after3) == disk_w
            &&& first_field(after4) == net
            &&& other_fields(after4) == ip + seq!['\n']
        }),
{
    let c5 = ip + seq!['\n'];
    let c4 = net + seq![','] + c5;
    let c3 = disk_w + seq![','] + c4;
    let c2 = disk_r + seq![','] + c3;
    let c1 = signed_decimal(ram) + seq![','] + c2;
    lemma_signed_decimal_plain(cpu, ',');
    lemma_signed_decimal_plain(ram, ',');
    lemma_split_undoes_join(signed_decimal(cpu), ',', c1);
    lemma_split_undoes_join(signed_decimal(ram), ',', c2);
    lemma_split_undoes_join(disk_r, ',', c3);
    lemma_split_undoes_join(disk_w, ',', c4);
    lemma_split_undoes_join(net, ',', c5);
}

/// Whether a field can stand in a line: it is not empty, and holds no comma and no line end.
pub open spec fn plain_field(s: Seq<char>) -> bool {
    s.len() > 0 && !s.contains(',') && !s.contains('\n')
}

/// How often a character occurs in a text.
pub open spec fn occurrences(s: Seq<char>, c: char) -> nat {
    s.to_multiset().count(c)
}

/// Occurrences in two joined texts add up; a text without the character has none.
proof fn lemma_occurrences_join(a: Seq<char>, b: Seq<char>, c: char)
    ensures
        occurrences(a + b, c) == occurrences(a, c) + occurrences(b, c),
        !a.contains(c) ==> occurrences(a, c) == 0,
        !b.contains(c) ==> occurrences(b, c) == 0,
{
    broadcast use vstd::seq_lib::group_to_multiset_ensures;

    vstd::seq_lib::lemma_multiset_commutative(a, b);
}

/// Occurrences in a field, the character after it, and the rest of a line.
proof fn lemma_occurrences_field(field: Seq<char>, mark: char, rest: Seq<char>, c: char)
    requires
        !field.contains(c),
    ensures
        occurrences(field + seq![mark] + rest, c) == (if mark == c {
            1nat
        } else {
            0nat
        }) + occurrences(rest, c),
{
    broadcast use vstd::seq_lib::group_to_multiset_ensures;

    lemma_occurrences_join(field + seq![mark], rest, c);
    lemma_occurrences_join(field, seq![mark], c);
    assert(seq![mark] =~= Seq::<char>::empty().push(mark));
    assert(Seq::<char>::empty().to_multiset().count(c) == 0) by {
        assert(!Seq::<char>::empty().contains(c));
    }
}

/// What is sent is one line of six fields: it holds five commas and one line end, which is its last
/// character, and no field is empty, where the texts are plain.
pub proof fn lemma_one_line(
    cpu: int,
    ram: int,
    disk_r: Seq<char>,
    disk_w: Seq<char>,
    net: Seq<char>,
    ip: Seq<char>,
)
    requires
        plain_field(disk_r),
        plain_field(disk_w),
        plain_field(net),
        plain_field(ip),
    ensures
        occurrences(line_of(cpu, ram, disk_r, disk_w, net, ip), ',') == 5,
        occurrences(line_of(cpu, ram, disk_r, disk_w, net, ip), '\n') == 1,
        line_of(cpu, ram, disk_r, disk_w, net, ip).last() == '\n',
        plain_field(signed_decimal(cpu)),
        plain_field(signed_decimal(ram)),
{
    lemma_number_plain(cpu);
    lemma_number_plain(ram);
    lemma_rest_of_line(ram, disk_r, disk_w, net, ip, ',');
    lemma_rest_of_line(ram, disk_r, disk_w, net, ip, '\n');
    let rest = signed_decimal(ram) + seq![','] + (disk_r + seq![','] + (disk_w + seq![','] + (net
        + seq![','] + (ip + seq!['\n']))));
    lemma_occurrences_field(signed_decimal(cpu), ',', rest, ',');
    lemma_occurrences_field(signed_decimal(cpu), ',', rest, '\n');
}

/// A whole number can stand in a line.
proof fn lemma_number_plain(n: int)
    ensures
        plain_field(signed_decimal(n)),
{
    lemma_signed_decimal_plain(n, ',');
    lemma_signed_decimal_plain(n, '\n');
    lemma_decimal_digits(n as nat);
    lemma_decimal_digits((-n) as nat);
}

/// Occurrences of a comma or a line end in a line without its first field.
proof fn lemma_rest_of_line(
    ram: int,
    disk_r: Seq<char>,
    disk_w: Seq<char>,
    net: Seq<char>,
    ip: Seq<char>,
    c: char,
)
    requires
        c == ',' || c == '\n',
        plain_field(disk_r),
        plain_field(disk_w),
        plain_field(net),
        plain_field(ip),
    ensures
        occurrences(
            signed_decimal(ram) + seq![','] + (disk_r + seq![','] + (disk_w + seq![','] + (net
                + seq![','] + (ip + seq!['\n'])))),
            c,
        ) == (if c == ',' {
            4nat
        } else {
            1nat
        }),
{
    let c5 = ip + seq!['\n'];
    let c4 = net + seq![','] + c5;
    let c3 = disk_w + seq![','] + c4;
    let c2 = disk_r + seq![','] + c3;
    lemma_number_plain(ram);
    assert(c5 =~= ip + seq!['\n'] + Seq::<char>::empty());
    lemma_occurrences_field(ip, '\n', Seq::<char>::empty(), c);
    lemma_occurrences_join(Seq::<char>::empty(), Seq::<char>::empty(), c);
    lemma_occurrences_field(net, ',', c5, c);
    lemma_occurrences_field(disk_w, ',', c4, c);
    lemma_occurrences_field(disk_r, ',', c3, c);
    lemma_occurrences_field(signed_decimal(ram), ',', c2, c);
}

/// The same of what is sent in fact: throughputs as [`speed_text`](crate::speed::speed_text) writes
/// them, of numbers without comma and line end.
pub proof fn lemma_one_line_of_speeds(
    cpu: int,
    ram: int,
    disk_r: (Seq<char>, SpeedUnit),
    disk_w: (Seq<char>, SpeedUnit),
    net: (Seq<char>, SpeedUnit),
    ip: Seq<char>,
)
    requires
        !disk_r.0.contains(',') && !disk_r.0.contains('\n'),
        !disk_w.0.contains(',') && !disk_w.0.contains('\n'),
        !net.0.contains(',') && !net.0.contains('\n'),
        plain_field(ip),
    ensures
        ({
            let read = disk_r.0 + unit_suffix(disk_r.1);
            let write = disk_w.0 + unit_suffix(disk_w.1);
            let traffic = net.0 + unit_suffix(net.1);
            let line = line_of(cpu, ram, read, write, traffic, ip);
            &&& occurrences(line, ',') == 5
            &&& occurrences(line, '\n') == 1
            &&& line.last() == '\n'
            &&& plain_field(signed_decimal(cpu)) && plain_field(signed_decimal(ram))
            &&& plain_field(read) && plain_field(write) && plain_field(traffic)
        }),
{
    lemma_speed_text_plain(disk_r.0, disk_r.1, ',');
    lemma_speed_text_plain(disk_r.0, disk_r.1, '\n');
    lemma_speed_text_plain(disk_w.0, disk_w.1, ',');
    lemma_speed_text_plain(disk_w.0, disk_w.1, '\n');
    lemma_speed_text_plain(net.0, net.1, ',');
    lemma_speed_text_plain(net.0, net.1, '\n');
    lemma_one_line(
        cpu,
        ram,
        disk_r.0 + unit_suffix(disk_r.1),
        disk_w.0 + unit_suffix(disk_w.1),
        net.0 + unit_suffix(net.1),
        ip,
    );
}

/// The address that stands for none can stand in a line.
pub proof fn lemma_no_address_plain()
    ensures
        plain_field("0.0.0.0"@),
{
    reveal_strlit("0.0.0.0");
}

/// What is done with the port, each part on its own: a line is sent if and only if the line is on;
/// the configured port is opened if and only if the line is on and it is not the open one; the open
/// port is closed if and only if the line is off or another port is configured.
pub proof fn lemma_step_is_exact(cfg: SerialCfg, open_port: Option<Seq<char>>)
    ensures
        step_of(cfg, open_port).send <==> cfg.enabled,
        step_of(cfg, open_port).open <==> cfg.enabled && (open_port matches Some(name) ==> name
            != cfg.port@),
        open_port is None ==> !step_of(cfg, open_port).close,
        open_port matches Some(name) ==> (step_of(cfg, open_port).close <==> !cfg.enabled || name
            != cfg.port@),
{
}

/// The line holds its six fields as they are, in order, one comma between each two and a line end
/// after the last, whatever the fields hold.
pub proof fn lemma_line_spelled(
    cpu: int,
    ram: int,
    disk_r: Seq<char>,
    disk_w: Seq<char>,
    net: Seq<char>,
    ip: Seq<char>,
)
    ensures
        line_of(cpu, ram, disk_r, disk_w, net, ip) == signed_decimal(cpu).push(',')
            + signed_decimal(ram).push(',') + disk_r.push(',') + disk_w.push(',') + net.push(',')
            + ip.push('\n'),
{
    assert(line_of(cpu, ram, disk_r, disk_w, net, ip) =~= signed_decimal(cpu).push(',')
        + signed_decimal(ram).push(',') + disk_r.push(',') + disk_w.push(',') + net.push(',')
        + ip.push('\n'));
}

} // verus!
