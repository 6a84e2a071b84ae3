//! Deciding what to print: from the loaded configuration and a report
//! of host information, produce the exact sequence of output lines, in
//! the fixed order banner, alignment/spacing echo, then one section per
//! enabled toggle.

use vstd::prelude::*;

use crate::codec::spec_align_text;
use crate::config::Alignment;
use crate::config::Config;
use crate::text::push_dec_u64;
use crate::text::push_two_dec_u64;
use crate::text::spec_dec_digits;
use crate::text::spec_two_dec_digits;

verus! {

/// One disk, as plain values: its name and its sizes in bytes.
pub struct DiskInfo {
    pub name: String,
    pub total_bytes: u64,
    pub available_bytes: u64,
}

/// One network interface, as plain values: its name and its traffic
/// counters in bytes.
pub struct NetInfo {
    pub name: String,
    pub received_bytes: u64,
    pub transmitted_bytes: u64,
}

/// A reading of the host, taken fresh each run and never cached. Every
/// field a provider could not supply is `None`: the presenter degrades
/// per field instead of failing. CPU utilization is carried in
/// hundredths of a percent, so two decimals print exactly.
pub struct SystemReport {
    pub cpu_centi_percent: u64,
    pub total_memory_bytes: u64,
    pub used_memory_bytes: u64,
    pub os_name: Option<String>,
    pub kernel_version: Option<String>,
    pub os_version: Option<String>,
    pub host_name: Option<String>,
    pub disks: Option<Vec<DiskInfo>>,
    pub networks: Option<Vec<NetInfo>>,
}

/// The views of a sequence of strings.
pub open spec fn views_of(s: Seq<String>) -> Seq<Seq<char>> {
    Seq::new(s.len(), |i: int| s[i]@)
}

proof fn lemma_views_of_add(a: Seq<String>, b: Seq<String>)
    ensures
        views_of(a + b) == views_of(a) + views_of(b),
{
    assert(views_of(a + b) =~= views_of(a) + views_of(b));
}

/// A provider text, or the fixed placeholder where it is missing.
pub open spec fn spec_opt_text(o: Option<String>) -> Seq<char> {
    match o {
        Some(s) => s@,
        None => "Unknown"@,
    }
}

/// The banner, always printed first.
pub open spec fn spec_banner_lines() -> Seq<Seq<char>> {
    seq![
        "\n   ______                ______     __       __  "@,
        "  / ____/___  ________  / ____/__  / /______/ /_ "@,
        " / /   / __ \\/ ___/ _ \\/ /_  / _ \\/ __/ ___/ __ \\"@,
        "/ /___/ /_/ / /  /  __/ __/ /  __/ /_/ /__/ / / /"@,
        "\\____/\\____/_/   \\___/_/    \\___/\\__/\\___/_/ /_/"@,
        "\n"@,
    ]
}

/// The alignment and spacing echo, always printed after the banner.
pub open spec fn spec_echo_lines(c: Config) -> Seq<Seq<char>> {
    seq![
        "Alignment: "@ + spec_align_text(c.alignment),
        "Spacing: "@ + spec_dec_digits(c.spacing as int),
    ]
}

/// The CPU section: aggregate utilization with two decimals.
pub open spec fn spec_cpu_lines(r: SystemReport) -> Seq<Seq<char>> {
    seq![
        "CPU Usage: "@ + spec_dec_digits(r.cpu_centi_percent as int / 100) + "."@
            + spec_two_dec_digits(r.cpu_centi_percent as int % 100) + "%"@,
    ]
}

/// The RAM section: total and used bytes, no unit conversion.
pub open spec fn spec_ram_lines(r: SystemReport) -> Seq<Seq<char>> {
    seq![
        "Total Memory: "@ + spec_dec_digits(r.total_memory_bytes as int) + " bytes"@,
        "Used Memory : "@ + spec_dec_digits(r.used_memory_bytes as int) + " bytes"@,
    ]
}

/// The OS identity section: four lines, each field falling back to the
/// placeholder when the provider could not supply it.
pub open spec fn spec_os_lines(r: SystemReport) -> Seq<Seq<char>> {
    seq![
        "System Name:             "@ + spec_opt_text(r.os_name),
        "System Kernel Version:   "@ + spec_opt_text(r.kernel_version),
        "System OS Version:       "@ + spec_opt_text(r.os_version),
        "System Host Name:        "@ + spec_opt_text(r.host_name),
    ]
}

/// The battery section: no battery capability is assumed, so the
/// section always reports unavailability.
pub open spec fn spec_battery_lines() -> Seq<Seq<char>> {
    seq!["Battery: Information not available"@]
}

/// One line per disk, in provider order.
pub open spec fn spec_disk_line(d: DiskInfo) -> Seq<char> {
    "Disk: "@ + d.name@ + " - Total: "@ + spec_dec_digits(d.total_bytes as int)
        + " bytes, Available: "@ + spec_dec_digits(d.available_bytes as int) + " bytes"@
}

/// The disk section: the provider's list in its order, or a visible
/// note when enumeration failed.
pub open spec fn spec_disk_lines(r: SystemReport) -> Seq<Seq<char>> {
    match r.disks {
        Some(ds) => Seq::new(ds@.len(), |i: int| spec_disk_line(ds@[i])),
        None => seq!["Disk information unavailable"@],
    }
}

/// One line per network interface, in provider order.
pub open spec fn spec_network_line(n: NetInfo) -> Seq<char> {
    "Network: "@ + n.name@ + " - Received: "@ + spec_dec_digits(n.received_bytes as int)
        + " bytes, Transmitted: "@ + spec_dec_digits(n.transmitted_bytes as int) + " bytes"@
}

/// The network section: the provider's list in its order, or a visible
/// note when enumeration failed.
pub open spec fn spec_network_lines(r: SystemReport) -> Seq<Seq<char>> {
    match r.networks {
        Some(ns) => Seq::new(ns@.len(), |i: int| spec_network_line(ns@[i])),
        None => seq!["Network information unavailable"@],
    }
}

/// A section's contribution: its lines when its toggle is on, nothing
/// otherwise.
pub open spec fn spec_section_if(on: bool, lines: Seq<Seq<char>>) -> Seq<Seq<char>> {
    if on {
        lines
    } else {
        Seq::empty()
    }
}

/// The whole output: banner, echo, then the enabled sections in the
/// fixed order cpu, ram, os, battery, disk, network.
pub open spec fn spec_output_lines(c: Config, r: SystemReport) -> Seq<Seq<char>> {
    spec_banner_lines() + spec_echo_lines(c) + spec_section_if(c.show_cpu, spec_cpu_lines(r))
        + spec_section_if(c.show_ram, spec_ram_lines(r)) + spec_section_if(
        c.show_os,
        spec_os_lines(r),
    ) + spec_section_if(c.show_battery, spec_battery_lines()) + spec_section_if(
        c.show_disk,
        spec_disk_lines(r),
    ) + spec_section_if(c.show_network, spec_network_lines(r))
}

fn banner_lines() -> (v: Vec<String>)
    ensures
        views_of(v@) == spec_banner_lines(),
{
    let mut v: Vec<String> = Vec::new();
    v.push(String::from_str("\n   ______                ______     __       __  "));
    v.push(String::from_str("  / ____/___  ________  / ____/__  / /______/ /_ "));
    v.push(String::from_str(" / /   / __ \\/ ___/ _ \\/ /_  / _ \\/ __/ ___/ __ \\"));
    v.push(String::from_str("/ /___/ /_/ / /  /  __/ __/ /  __/ /_/ /__/ / / /"));
    v.push(String::from_str("\\____/\\____/_/   \\___/_/    \\___/\\__/\\___/_/ /_/"));
    v.push(String::from_str("\n"));
    proof {
        assert(views_of(v@) =~= spec_banner_lines());
    }
    v
}

fn echo_lines(c: &Config) -> (v: Vec<String>)
    ensures
        views_of(v@) == spec_echo_lines(*c),
{
    let mut a = String::from_str("Alignment: ");
    match c.alignment {
        Alignment::Left => a.append("left"),
        Alignment::Right => a.append("right"),
    }
    let mut s = String::from_str("Spacing: ");
    push_dec_u64(&mut s, c.spacing);
    let mut v: Vec<String> = Vec::new();
    v.push(a);
    v.push(s);
    proof {
        assert(views_of(v@) =~= spec_echo_lines(*c));
    }
    v
}

fn cpu_lines(r: &SystemReport) -> (v: Vec<String>)
    ensures
        views_of(v@) == spec_cpu_lines(*r),
{
    let mut l = String::from_str("CPU Usage: ");
    push_dec_u64(&mut l, r.cpu_centi_percent / 100);
    l.append(".");
    push_two_dec_u64(&mut l, r.cpu_centi_percent % 100);
    l.append("%");
    let mut v: Vec<String> = Vec::new();
    v.push(l);
    proof {
        assert(views_of(v@) =~= spec_cpu_lines(*r));
    }
    v
}

fn ram_lines(r: &SystemReport) -> (v: Vec<String>)
    ensures
        views_of(v@) == spec_ram_lines(*r),
{
    let mut t = String::from_str("Total Memory: ");
    push_dec_u64(&mut t, r.total_memory_bytes);
    t.append(" bytes");
    let mut u = String::from_str("Used Memory : ");
    push_dec_u64(&mut u, r.used_memory_bytes);
    u.append(" bytes");
    let mut v: Vec<String> = Vec::new();
    v.push(t);
    v.push(u);
    proof {
        assert(views_of(v@) =~= spec_ram_lines(*r));
    }
    v
}

/// One OS identity line: the label, then the value or the placeholder.
fn os_line(label: &str, o: &Option<String>) -> (l: String)
    ensures
        l@ == label@ + spec_opt_text(*o),
{
    let mut l = String::from_str(label);
    match o {
        Some(v) => l.append(v.as_str()),
        None => l.append("Unknown"),
    }
    l
}

fn os_lines(r: &SystemReport) -> (v: Vec<String>)
    ensures
        views_of(v@) == spec_os_lines(*r),
{
    let mut v: Vec<String> = Vec::new();
    v.push(os_line("System Name:             ", &r.os_name));
    v.push(os_line("System Kernel Version:   ", &r.kernel_version));
    v.push(os_line("System OS Version:       ", &r.os_version));
    v.push(os_line("System Host Name:        ", &r.host_name));
    proof {
        assert(views_of(v@) =~= spec_os_lines(*r));
    }
    v
}

fn battery_lines() -> (v: Vec<String>)
    ensures
        views_of(v@) == spec_battery_lines(),
{
    let mut v: Vec<String> = Vec::new();
    v.push(String::from_str("Battery: Information not available"));
    proof {
        assert(views_of(v@) =~= spec_battery_lines());
    }
    v
}

fn disk_lines(r: &SystemReport) -> (v: Vec<String>)
    ensures
        views_of(v@) == spec_disk_lines(*r),
{
    let mut v: Vec<String> = Vec::new();
    match &r.disks {
        Some(ds) => {
            let mut i: usize = 0;
            while i < ds.len()
                invariant
                    i <= ds.len(),
                    views_of(v@) == Seq::new(i as nat, |k: int| spec_disk_line(ds@[k])),
                decreases ds.len() - i,
            {
                let mut l = String::from_str("Disk: ");
                l.append(ds[i].name.as_str());
                l.append(" - Total: ");
                push_dec_u64(&mut l, ds[i].total_bytes);
                l.append(" bytes, Available: ");
                push_dec_u64(&mut l, ds[i].available_bytes);
                l.append(" bytes");
                proof {
                    assert(l@ == spec_disk_line(ds@[i as int]));
                }
                let ghost vs0 = v@;
                let ghost lv = l@;
                v.push(l);
                proof {
                    assert(views_of(vs0) == Seq::new(i as nat, |k: int| spec_disk_line(ds@[k])));
                    assert(views_of(vs0).len() == vs0.len());
                    assert(vs0.len() == i as int);
                    assert(forall|k: int|
                        0 <= k < i ==> #[trigger] views_of(vs0)[k] == vs0[k]@);
                    assert(forall|k: int|
                        0 <= k < i ==> #[trigger] views_of(v@)[k] == vs0[k]@);
                    assert(v@.len() == i + 1);
                    assert(v@[i as int]@ == lv);
                    assert(views_of(v@)[i as int] == v@[i as int]@);
                    assert(views_of(v@)[i as int] == lv);
                    assert(forall|k: int|
                        0 <= k < i + 1 ==> Seq::new(
                            (i + 1) as nat,
                            |k2: int| spec_disk_line(ds@[k2]),
                        )[k] == #[trigger] spec_disk_line(ds@[k]));
                    assert(forall|k: int|
                        0 <= k < i ==> Seq::new(
                            i as nat,
                            |k2: int| spec_disk_line(ds@[k2]),
                        )[k] == #[trigger] spec_disk_line(ds@[k]));
                    assert(forall|k: int| 0 <= k < i ==> vs0[k]@ == spec_disk_line(ds@[k]));
                    assert(views_of(v@) =~= Seq::new(
                        (i + 1) as nat,
                        |k: int| spec_disk_line(ds@[k]),
                    ));
                }
                i += 1;
            }
            proof {
                assert(views_of(v@) =~= spec_disk_lines(*r));
            }
        },
        None => {
            v.push(String::from_str("Disk information unavailable"));
            proof {
                assert(views_of(v@) =~= spec_disk_lines(*r));
            }
        },
    }
    v
}

fn network_lines(r: &SystemReport) -> (v: Vec<String>)
    ensures
        views_of(v@) == spec_network_lines(*r),
{
    let mut v: Vec<String> = Vec::new();
    match &r.networks {
        Some(ns) => {
            let mut i: usize = 0;
            while i < ns.len()
                invariant
                    i <= ns.len(),
                    views_of(v@) == Seq::new(i as nat, |k: int| spec_network_line(ns@[k])),
                decreases ns.len() - i,
            {
                let mut l = String::from_str("Network: ");
                l.append(ns[i].name.as_str());
                l.append(" - Received: ");
                push_dec_u64(&mut l, ns[i].received_bytes);
                l.append(" bytes, Transmitted: ");
                push_dec_u64(&mut l, ns[i].transmitted_bytes);
                l.append(" bytes");
                proof {
                    assert(l@ == spec_network_line(ns@[i as int]));
                }
                let ghost vs0 = v@;
                let ghost lv = l@;
                v.push(l);
                proof {
                    assert(views_of(vs0) == Seq::new(i as nat, |k: int| spec_network_line(ns@[k])));
                    assert(views_of(vs0).len() == vs0.len());
                    assert(vs0.len() == i as int);
                    assert(forall|k: int|
                        0 <= k < i ==> #[trigger] views_of(vs0)[k] == vs0[k]@);
                    assert(forall|k: int|
                        0 <= k < i ==> #[trigger] views_of(v@)[k] == vs0[k]@);
                    assert(v@.len() == i + 1);
                    assert(v@[i as int]@ == lv);
                    assert(views_of(v@)[i as int] == v@[i as int]@);
                    assert(views_of(v@)[i as int] == lv);
                    assert(forall|k: int|
                        0 <= k < i + 1 ==> Seq::new(
                            (i + 1) as nat,
                            |k2: int| spec_network_line(ns@[k2]),
                        )[k] == #[trigger] spec_network_line(ns@[k]));
                    assert(forall|k: int|
                        0 <= k < i ==> Seq::new(
                            i as nat,
                            |k2: int| spec_network_line(ns@[k2]),
                        )[k] == #[trigger] spec_network_line(ns@[k]));
                    assert(forall|k: int| 0 <= k < i ==> vs0[k]@ == spec_network_line(ns@[k]));
                    assert(views_of(v@) =~= Seq::new(
                        (i + 1) as nat,
                        |k: int| spec_network_line(ns@[k]),
                    ));
                }
                i += 1;
            }
            proof {
                assert(views_of(v@) =~= spec_network_lines(*r));
            }
        },
        None => {
            v.push(String::from_str("Network information unavailable"));
            proof {
                assert(views_of(v@) =~= spec_network_lines(*r));
            }
        },
    }
    v
}

/// Produce the whole output, one element per printed line.
pub fn render_output(c: &Config, r: &SystemReport) -> (v: Vec<String>)
    ensures
        views_of(v@) == spec_output_lines(*c, *r),
{
    let mut out = banner_lines();
    let mut e = echo_lines(c);
    proof {
        lemma_views_of_add(out@, e@);
    }
    out.append(&mut e);
    let ghost g0 = spec_banner_lines() + spec_echo_lines(*c);
    assert(views_of(out@) == g0);
    let ghost g1 = g0 + spec_section_if(c.show_cpu, spec_cpu_lines(*r));
    if c.show_cpu {
        let mut t = cpu_lines(r);
        proof {
            lemma_views_of_add(out@, t@);
        }
        out.append(&mut t);
    } else {
        proof {
            assert(g1 =~= g0);
        }
    }
    assert(views_of(out@) == g1);
    let ghost g2 = g1 + spec_section_if(c.show_ram, spec_ram_lines(*r));
    if c.show_ram {
        let mut t = ram_lines(r);
        proof {
            lemma_views_of_add(out@, t@);
        }
        out.append(&mut t);
    } else {
        proof {
            assert(g2 =~= g1);
        }
    }
    assert(views_of(out@) == g2);
    let ghost g3 = g2 + spec_section_if(c.show_os, spec_os_lines(*r));
    if c.show_os {
        let mut t = os_lines(r);
        proof {
            lemma_views_of_add(out@, t@);
        }
        out.append(&mut t);
    } else {
        proof {
            assert(g3 =~= g2);
        }
    }
    assert(views_of(out@) == g3);
    let ghost g4 = g3 + spec_section_if(c.show_battery, spec_battery_lines());
    if c.show_battery {
        let mut t = battery_lines();
        proof {
            lemma_views_of_add(out@, t@);
        }
        out.append(&mut t);
    } else {
        proof {
            assert(g4 =~= g3);
        }
    }
    assert(views_of(out@) == g4);
    let ghost g5 = g4 + spec_section_if(c.show_disk, spec_disk_lines(*r));
    if c.show_disk {
        let mut t = disk_lines(r);
        proof {
            lemma_views_of_add(out@, t@);
        }
        out.append(&mut t);
    } else {
        proof {
            assert(g5 =~= g4);
        }
    }
    assert(views_of(out@) == g5);
    let ghost g6 = g5 + spec_section_if(c.show_network, spec_network_lines(*r));
    if c.show_network {
        let mut t = network_lines(r);
        proof {
            lemma_views_of_add(out@, t@);
        }
        out.append(&mut t);
    } else {
        proof {
            assert(g6 =~= g5);
        }
    }
    assert(views_of(out@) == g6);
    out
}

/// Toggle independence: the output is exactly the always-present banner
/// and echo followed by one block per enabled toggle, in the fixed
/// order; each toggle contributes its own section's lines and nothing
/// else, whatever the other toggles say.
pub proof fn lemma_toggle_independence(c: Config, r: SystemReport)
    ensures
        spec_output_lines(c, r) == spec_banner_lines() + spec_echo_lines(c) + spec_section_if(
            c.show_cpu,
            spec_cpu_lines(r),
        ) + spec_section_if(c.show_ram, spec_ram_lines(r)) + spec_section_if(
            c.show_os,
            spec_os_lines(r),
        ) + spec_section_if(c.show_battery, spec_battery_lines()) + spec_section_if(
            c.show_disk,
            spec_disk_lines(r),
        ) + spec_section_if(c.show_network, spec_network_lines(r)),
        c.show_battery == (spec_section_if(c.show_battery, spec_battery_lines())
            == spec_battery_lines()),
        !c.show_battery == (spec_section_if(c.show_battery, spec_battery_lines())
            == Seq::<Seq<char>>::empty()),
{
    assert(spec_battery_lines().len() == 1);
}

/// Provider degradation: when the OS name is unavailable, the OS
/// section still has all four lines, the first reading "Unknown" in the
/// name's place.
pub proof fn lemma_os_degradation(r: SystemReport)
    requires
        r.os_name is None,
    ensures
        spec_os_lines(r).len() == 4,
        spec_os_lines(r)[0] == "System Name:             "@ + "Unknown"@,
{
}

} // verus!
