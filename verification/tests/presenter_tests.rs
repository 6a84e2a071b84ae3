use corefetch::Alignment;
use corefetch::Config;
use corefetch::DiskInfo;
use corefetch::NetInfo;
use corefetch::SystemReport;
use corefetch::render_output;

fn quiet_config() -> Config {
    Config {
        alignment: Alignment::Left,
        spacing: 2,
        show_cpu: false,
        show_ram: false,
        show_os: false,
        show_battery: false,
        show_disk: false,
        show_network: false,
    }
}

fn plain_report() -> SystemReport {
    SystemReport {
        cpu_centi_percent: 4237,
        total_memory_bytes: 8192,
        used_memory_bytes: 4096,
        os_name: Some(String::from("TestOS")),
        kernel_version: Some(String::from("6.1")),
        os_version: Some(String::from("42")),
        host_name: Some(String::from("box")),
        disks: Some(Vec::new()),
        networks: Some(Vec::new()),
    }
}

const BANNER_LEN: usize = 6;

fn banner_and_echo(lines: &[String], alignment: &str, spacing: &str) {
    assert!(lines.len() >= BANNER_LEN + 2);
    assert_eq!(lines[BANNER_LEN - 1], "\n");
    assert_eq!(lines[BANNER_LEN], format!("Alignment: {}", alignment));
    assert_eq!(lines[BANNER_LEN + 1], format!("Spacing: {}", spacing));
}

#[test]
fn all_toggles_off_prints_banner_and_echo_only() {
    let lines = render_output(&quiet_config(), &plain_report());
    banner_and_echo(&lines, "left", "2");
    assert_eq!(lines.len(), BANNER_LEN + 2);
}

#[test]
fn battery_only_scenario() {
    let mut c = quiet_config();
    c.show_battery = true;
    let lines = render_output(&c, &plain_report());
    banner_and_echo(&lines, "left", "2");
    assert_eq!(lines.len(), BANNER_LEN + 3);
    assert_eq!(lines[BANNER_LEN + 2], "Battery: Information not available");
}

#[test]
fn cpu_two_decimal_rendering() {
    let mut c = quiet_config();
    c.show_cpu = true;
    let mut r = plain_report();
    r.cpu_centi_percent = 4237;
    assert_eq!(render_output(&c, &r)[BANNER_LEN + 2], "CPU Usage: 42.37%");
    r.cpu_centi_percent = 5;
    assert_eq!(render_output(&c, &r)[BANNER_LEN + 2], "CPU Usage: 0.05%");
    r.cpu_centi_percent = 10000;
    assert_eq!(render_output(&c, &r)[BANNER_LEN + 2], "CPU Usage: 100.00%");
    r.cpu_centi_percent = 0;
    assert_eq!(render_output(&c, &r)[BANNER_LEN + 2], "CPU Usage: 0.00%");
}

#[test]
fn ram_lines_are_raw_byte_counts() {
    let mut c = quiet_config();
    c.show_ram = true;
    let lines = render_output(&c, &plain_report());
    assert_eq!(lines[BANNER_LEN + 2], "Total Memory: 8192 bytes");
    assert_eq!(lines[BANNER_LEN + 3], "Used Memory : 4096 bytes");
    assert_eq!(lines.len(), BANNER_LEN + 4);
}

#[test]
fn os_section_full() {
    let mut c = quiet_config();
    c.show_os = true;
    let lines = render_output(&c, &plain_report());
    assert_eq!(lines[BANNER_LEN + 2], "System Name:             TestOS");
    assert_eq!(lines[BANNER_LEN + 3], "System Kernel Version:   6.1");
    assert_eq!(lines[BANNER_LEN + 4], "System OS Version:       42");
    assert_eq!(lines[BANNER_LEN + 5], "System Host Name:        box");
    assert_eq!(lines.len(), BANNER_LEN + 6);
}

#[test]
fn os_name_degrades_to_unknown() {
    let mut c = quiet_config();
    c.show_os = true;
    let mut r = plain_report();
    r.os_name = None;
    let lines = render_output(&c, &r);
    assert_eq!(lines[BANNER_LEN + 2], "System Name:             Unknown");
    assert_eq!(lines.len(), BANNER_LEN + 6);
}

#[test]
fn disks_render_in_provider_order() {
    let mut c = quiet_config();
    c.show_disk = true;
    let mut r = plain_report();
    r.disks = Some(vec![
        DiskInfo { name: String::from("sda"), total_bytes: 100, available_bytes: 25 },
        DiskInfo { name: String::from("sdb"), total_bytes: 7, available_bytes: 7 },
    ]);
    let lines = render_output(&c, &r);
    assert_eq!(lines[BANNER_LEN + 2], "Disk: sda - Total: 100 bytes, Available: 25 bytes");
    assert_eq!(lines[BANNER_LEN + 3], "Disk: sdb - Total: 7 bytes, Available: 7 bytes");
    assert_eq!(lines.len(), BANNER_LEN + 4);
}

#[test]
fn failed_disk_enumeration_leaves_a_note() {
    let mut c = quiet_config();
    c.show_disk = true;
    let mut r = plain_report();
    r.disks = None;
    let lines = render_output(&c, &r);
    assert_eq!(lines[BANNER_LEN + 2], "Disk information unavailable");
    assert_eq!(lines.len(), BANNER_LEN + 3);
}

#[test]
fn networks_render_in_provider_order() {
    let mut c = quiet_config();
    c.show_network = true;
    let mut r = plain_report();
    r.networks = Some(vec![
        NetInfo { name: String::from("eth0"), received_bytes: 10, transmitted_bytes: 20 },
        NetInfo { name: String::from("lo"), received_bytes: 0, transmitted_bytes: 0 },
    ]);
    let lines = render_output(&c, &r);
    assert_eq!(
        lines[BANNER_LEN + 2],
        "Network: eth0 - Received: 10 bytes, Transmitted: 20 bytes"
    );
    assert_eq!(lines[BANNER_LEN + 3], "Network: lo - Received: 0 bytes, Transmitted: 0 bytes");
    assert_eq!(lines.len(), BANNER_LEN + 4);
}

#[test]
fn failed_network_enumeration_leaves_a_note() {
    let mut c = quiet_config();
    c.show_network = true;
    let mut r = plain_report();
    r.networks = None;
    let lines = render_output(&c, &r);
    assert_eq!(lines[BANNER_LEN + 2], "Network information unavailable");
    assert_eq!(lines.len(), BANNER_LEN + 3);
}

#[test]
fn every_toggle_subset_prints_exactly_its_sections() {
    let mut r = plain_report();
    r.disks = None;
    r.networks = None;
    for bits in 0u8..64 {
        let c = Config {
            alignment: Alignment::Right,
            spacing: 0,
            show_cpu: bits & 1 != 0,
            show_ram: bits & 2 != 0,
            show_os: bits & 4 != 0,
            show_battery: bits & 8 != 0,
            show_disk: bits & 16 != 0,
            show_network: bits & 32 != 0,
        };
        let lines = render_output(&c, &r);
        banner_and_echo(&lines, "right", "0");
        let mut expected: usize = BANNER_LEN + 2;
        let mut cursor: usize = BANNER_LEN + 2;
        if c.show_cpu {
            assert!(lines[cursor].starts_with("CPU Usage: "));
            expected += 1;
            cursor += 1;
        }
        if c.show_ram {
            assert!(lines[cursor].starts_with("Total Memory: "));
            expected += 2;
            cursor += 2;
        }
        if c.show_os {
            assert!(lines[cursor].starts_with("System Name:"));
            expected += 4;
            cursor += 4;
        }
        if c.show_battery {
            assert_eq!(lines[cursor], "Battery: Information not available");
            expected += 1;
            cursor += 1;
        }
        if c.show_disk {
            assert_eq!(lines[cursor], "Disk information unavailable");
            expected += 1;
            cursor += 1;
        }
        if c.show_network {
            assert_eq!(lines[cursor], "Network information unavailable");
            expected += 1;
        }
        assert_eq!(lines.len(), expected);
    }
}

#[test]
fn right_alignment_and_spacing_are_echoed() {
    let mut c = quiet_config();
    c.alignment = Alignment::Right;
    c.spacing = 9876543210;
    let lines = render_output(&c, &plain_report());
    banner_and_echo(&lines, "right", "9876543210");
}

#[test]
fn empty_disk_and_network_lists_print_nothing() {
    let mut c = quiet_config();
    c.show_disk = true;
    c.show_network = true;
    let lines = render_output(&c, &plain_report());
    assert_eq!(lines.len(), BANNER_LEN + 2);
}
