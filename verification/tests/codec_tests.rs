use corefetch::Alignment;
use corefetch::Config;
use corefetch::FetchError;
use corefetch::parse_config;
use corefetch::render_config;

fn sample(alignment: Alignment, spacing: u64, bits: u8) -> Config {
    Config {
        alignment,
        spacing,
        show_cpu: bits & 1 != 0,
        show_ram: bits & 2 != 0,
        show_os: bits & 4 != 0,
        show_battery: bits & 8 != 0,
        show_disk: bits & 16 != 0,
        show_network: bits & 32 != 0,
    }
}

#[test]
fn render_default_exact_text() {
    let text = render_config(&Config::default());
    assert_eq!(
        text,
        "alignment = \"left\"\nspacing = 2\nshow_cpu = true\nshow_ram = true\n\
         show_os = true\nshow_battery = true\nshow_disk = true\nshow_network = true\n"
    );
}

#[test]
fn render_right_alignment_and_large_spacing() {
    let c = sample(Alignment::Right, u64::MAX, 0);
    let text = render_config(&c);
    assert!(text.starts_with("alignment = \"right\"\nspacing = 18446744073709551615\n"));
    assert!(text.contains("show_cpu = false\n"));
}

#[test]
fn round_trip_defaults() {
    let c = Config::default();
    assert_eq!(parse_config(render_config(&c).as_str()), Ok(c));
}

#[test]
fn round_trip_all_toggle_subsets() {
    for bits in 0u8..64 {
        for (alignment, spacing) in [
            (Alignment::Left, 0u64),
            (Alignment::Right, 1),
            (Alignment::Left, 42),
            (Alignment::Right, u64::MAX),
        ] {
            let c = sample(alignment, spacing, bits);
            assert_eq!(parse_config(render_config(&c).as_str()), Ok(c));
        }
    }
}

#[test]
fn parse_rejects_empty() {
    assert_eq!(parse_config(""), Err(FetchError::Parse));
}

#[test]
fn parse_rejects_mistyped_spacing() {
    let text = "alignment = \"left\"\nspacing = \"two\"\nshow_cpu = true\nshow_ram = true\n\
                show_os = true\nshow_battery = true\nshow_disk = true\nshow_network = true\n";
    assert_eq!(parse_config(text), Err(FetchError::Parse));
}

#[test]
fn parse_rejects_bad_alignment_value() {
    let text = "alignment = \"center\"\nspacing = 2\nshow_cpu = true\nshow_ram = true\n\
                show_os = true\nshow_battery = true\nshow_disk = true\nshow_network = true\n";
    assert_eq!(parse_config(text), Err(FetchError::Parse));
}

#[test]
fn parse_rejects_negative_spacing() {
    let text = "alignment = \"left\"\nspacing = -1\nshow_cpu = true\nshow_ram = true\n\
                show_os = true\nshow_battery = true\nshow_disk = true\nshow_network = true\n";
    assert_eq!(parse_config(text), Err(FetchError::Parse));
}

#[test]
fn parse_rejects_spacing_overflow() {
    let text = "alignment = \"left\"\nspacing = 18446744073709551616\nshow_cpu = true\n\
                show_ram = true\nshow_os = true\nshow_battery = true\nshow_disk = true\n\
                show_network = true\n";
    assert_eq!(parse_config(text), Err(FetchError::Parse));
}

#[test]
fn parse_accepts_spacing_at_u64_max() {
    let text = "alignment = \"left\"\nspacing = 18446744073709551615\nshow_cpu = true\n\
                show_ram = true\nshow_os = true\nshow_battery = true\nshow_disk = true\n\
                show_network = true\n";
    let c = parse_config(text).expect("maximal spacing fits");
    assert_eq!(c.spacing, u64::MAX);
}

#[test]
fn parse_rejects_missing_field() {
    let text = "alignment = \"left\"\nspacing = 2\nshow_cpu = true\nshow_ram = true\n\
                show_os = true\nshow_battery = true\nshow_disk = true\n";
    assert_eq!(parse_config(text), Err(FetchError::Parse));
}

#[test]
fn parse_rejects_trailing_garbage() {
    let mut text = String::from(
        "alignment = \"left\"\nspacing = 2\nshow_cpu = true\nshow_ram = true\n\
         show_os = true\nshow_battery = true\nshow_disk = true\nshow_network = true\n",
    );
    text.push_str("extra = 1\n");
    assert_eq!(parse_config(text.as_str()), Err(FetchError::Parse));
}

#[test]
fn parse_rejects_misspelled_key() {
    let text = "alinement = \"left\"\nspacing = 2\nshow_cpu = true\nshow_ram = true\n\
                show_os = true\nshow_battery = true\nshow_disk = true\nshow_network = true\n";
    assert_eq!(parse_config(text), Err(FetchError::Parse));
}

#[test]
fn rendered_text_is_valid_toml() {
    let c = Config {
        alignment: Alignment::Right,
        spacing: 7,
        show_cpu: true,
        show_ram: false,
        show_os: true,
        show_battery: false,
        show_disk: true,
        show_network: false,
    };
    let text = render_config(&c);
    let table: toml::Table = text.parse().expect("rendered config parses as TOML");
    assert_eq!(table.get("alignment").and_then(|v| v.as_str()), Some("right"));
    assert_eq!(table.get("spacing").and_then(|v| v.as_integer()), Some(7));
    assert_eq!(table.get("show_cpu").and_then(|v| v.as_bool()), Some(true));
    assert_eq!(table.get("show_ram").and_then(|v| v.as_bool()), Some(false));
    assert_eq!(table.get("show_os").and_then(|v| v.as_bool()), Some(true));
    assert_eq!(table.get("show_battery").and_then(|v| v.as_bool()), Some(false));
    assert_eq!(table.get("show_disk").and_then(|v| v.as_bool()), Some(true));
    assert_eq!(table.get("show_network").and_then(|v| v.as_bool()), Some(false));
}
