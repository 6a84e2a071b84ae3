use corefetch::Alignment;
use corefetch::Config;
use corefetch::FetchError;
use corefetch::config_path_for_home;
use corefetch::load_or_initialize;
use corefetch::render_config;
use corefetch::resolve_config_path;

#[test]
fn default_values_are_documented() {
    let c = Config::default();
    assert_eq!(c.alignment, Alignment::Left);
    assert_eq!(c.spacing, 2);
    assert!(c.show_cpu);
    assert!(c.show_ram);
    assert!(c.show_os);
    assert!(c.show_battery);
    assert!(c.show_disk);
    assert!(c.show_network);
}

#[test]
fn absent_file_yields_defaults_and_one_write() {
    let loaded = load_or_initialize(None).expect("absence is not an error");
    assert_eq!(loaded.config, Config::default());
    let generated = loaded.generated.expect("the file must be created");
    assert_eq!(generated, render_config(&Config::default()));
}

#[test]
fn initialize_twice_is_idempotent() {
    let first = load_or_initialize(None).expect("absence is not an error");
    let written = first.generated.expect("first run writes");
    let second = load_or_initialize(Some(written.as_str())).expect("written text loads");
    assert_eq!(second.config, first.config);
    assert!(second.generated.is_none(), "second run must not write");
}

#[test]
fn existing_file_is_loaded_not_rewritten() {
    let c = Config {
        alignment: Alignment::Right,
        spacing: 0,
        show_cpu: false,
        show_ram: true,
        show_os: false,
        show_battery: true,
        show_disk: false,
        show_network: true,
    };
    let text = render_config(&c);
    let loaded = load_or_initialize(Some(text.as_str())).expect("valid text loads");
    assert_eq!(loaded.config, c);
    assert!(loaded.generated.is_none());
}

#[test]
fn malformed_file_is_a_parse_error_and_not_overwritten() {
    let text = "alignment = \"left\"\nspacing = \"two\"\nshow_cpu = true\nshow_ram = true\n\
                show_os = true\nshow_battery = true\nshow_disk = true\nshow_network = true\n";
    match load_or_initialize(Some(text)) {
        Err(e) => assert_eq!(e, FetchError::Parse),
        Ok(_) => panic!("malformed content must not load"),
    }
}

#[test]
fn empty_file_is_a_parse_error() {
    match load_or_initialize(Some("")) {
        Err(e) => assert_eq!(e, FetchError::Parse),
        Ok(_) => panic!("empty content must not load"),
    }
}

#[test]
fn config_path_appends_fixed_suffix() {
    assert_eq!(
        config_path_for_home("/home/someone"),
        "/home/someone/.config/CoreFetch/config.toml"
    );
    assert_eq!(config_path_for_home(""), "/.config/CoreFetch/config.toml");
}

#[test]
fn resolved_path_has_fixed_suffix() {
    match resolve_config_path() {
        Ok(p) => assert!(p.ends_with("/.config/CoreFetch/config.toml")),
        Err(e) => assert_eq!(e, FetchError::Environment),
    }
}
