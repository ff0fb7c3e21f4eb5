use proxmon::config::Config;
use proxmon::fetch::ClusterError;
use proxmon::host::Host;
use proxmon::host::HostType;
use proxmon::host::IpOverride;
use proxmon::host::ManualHost;
use proxmon::session::parse_u16;
use proxmon::session::App;
use proxmon::session::Effect;
use proxmon::session::Key;
use proxmon::session::SetupField;
use proxmon::session::TextInput;
use proxmon::session::ViewMode;
use proxmon::sort::SortColumn;
use proxmon::sort::SortDirection;

fn vm(name: &str, ip: Option<&str>) -> Host {
    Host {
        name: name.to_string(),
        host_type: HostType::VM,
        status: "running".to_string(),
        ip: ip.map(|s| s.to_string()),
        node: Some("pve1".to_string()),
        vmid: Some(100),
        ansible_user: Some("gozy".to_string()),
    }
}

fn app_with_hosts(hosts: Vec<Host>) -> App {
    let mut app = App::new(Config::default(), "config.yml".to_string());
    app.hosts = hosts;
    app.selected_index = 0;
    app
}

fn type_text(input: &mut TextInput, text: &str) {
    for c in text.chars() {
        input.insert_char(c);
    }
}

#[test]
fn navigation_wraps_and_clamps() {
    let mut app = app_with_hosts(vec![vm("a", None), vm("b", None), vm("c", None)]);
    app.next();
    assert_eq!(app.selected_index, 1);
    app.next();
    app.next();
    assert_eq!(app.selected_index, 0);
    app.previous();
    assert_eq!(app.selected_index, 2);
    app.page_up();
    assert_eq!(app.selected_index, 0);
    app.page_down();
    assert_eq!(app.selected_index, 2);
    app.go_to_top();
    assert_eq!(app.selected_index, 0);
    app.go_to_bottom();
    assert_eq!(app.selected_index, 2);
}

#[test]
fn navigation_on_empty_list_does_nothing() {
    let mut app = app_with_hosts(Vec::new());
    app.next();
    app.previous();
    app.page_down();
    app.page_up();
    app.go_to_top();
    app.go_to_bottom();
    assert_eq!(app.selected_index, 0);
}

#[test]
fn choosing_a_column_sorts_and_toggling_flips_direction() {
    let mut app = app_with_hosts(vec![vm("b-host", None), vm("A-host", None)]);
    app.selected_index = 1;
    app.set_sort_column(SortColumn::Name);
    // The fresh session already sorts by name ascending, so this toggles.
    assert_eq!(app.sort_direction, SortDirection::Descending);
    assert_eq!(app.hosts[0].name, "b-host");
    assert_eq!(app.selected_index, 0);
    app.set_sort_column(SortColumn::Status);
    assert_eq!(app.sort_column, SortColumn::Status);
    assert_eq!(app.sort_direction, SortDirection::Ascending);
}

#[test]
fn quit_keys_raise_the_flag() {
    let mut app = app_with_hosts(Vec::new());
    app.handle_key_event(Key::Char('q'));
    assert!(app.should_quit);
    let mut app = app_with_hosts(Vec::new());
    app.handle_key_event(Key::Ctrl('c'));
    assert!(app.should_quit);
}

#[test]
fn edit_ip_flow_updates_override_and_list_at_once() {
    let mut app = app_with_hosts(vec![vm("web-01", Some("10.0.0.5"))]);
    app.handle_key_event(Key::Char('i'));
    assert_eq!(app.view_mode, ViewMode::EditIp);
    assert_eq!(app.editing_host_name, "web-01");
    assert_eq!(app.ip_input.value(), "10.0.0.5");
    // Replace the prefilled value.
    for _ in 0..8 {
        app.handle_key_event(Key::Backspace);
    }
    app.handle_key_event(Key::Home);
    app.handle_key_event(Key::Delete);
    assert_eq!(app.ip_input.value(), "");
    for c in "10.0.0.99".chars() {
        app.handle_key_event(Key::Char(c));
    }
    let effect = app.handle_key_event(Key::Enter);
    assert_eq!(effect, Effect::SaveConfig);
    assert_eq!(app.view_mode, ViewMode::Main);
    assert_eq!(app.hosts[0].ip.as_deref(), Some("10.0.0.99"));
    assert_eq!(app.config.ip_overrides.len(), 1);
    assert_eq!(app.config.ip_overrides[0].name, "web-01");
    assert_eq!(app.config.ip_overrides[0].ip, "10.0.0.99");
    assert_eq!(app.last_error.as_deref(), Some("IP saved for web-01"));
}

#[test]
fn empty_edit_removes_override_and_clears_address() {
    let mut app = app_with_hosts(vec![vm("web-01", Some("10.0.0.99"))]);
    app.config.ip_overrides =
        vec![IpOverride { name: "web-01".to_string(), ip: "10.0.0.99".to_string() }];
    app.start_edit_ip();
    for _ in 0..9 {
        app.handle_key_event(Key::Backspace);
    }
    let effect = app.handle_key_event(Key::Enter);
    assert_eq!(effect, Effect::SaveConfig);
    assert!(app.config.ip_overrides.is_empty());
    assert!(app.hosts[0].ip.is_none());
}

#[test]
fn setup_form_validates_and_records_a_cluster() {
    let mut app = app_with_hosts(Vec::new());
    app.handle_key_event(Key::Char('a'));
    assert_eq!(app.view_mode, ViewMode::Setup);
    assert_eq!(app.setup_port.value(), "8006");
    // Submitting with empty fields is refused.
    app.setup_field = SetupField::VerifySsl;
    let effect = app.handle_key_event(Key::Enter);
    assert_eq!(effect, Effect::Nothing);
    assert_eq!(app.last_error.as_deref(), Some("All fields except port are required"));
    // Fill the form.
    type_text(&mut app.setup_name, "lab");
    type_text(&mut app.setup_host, "pve.example");
    type_text(&mut app.setup_token_id, "root@pam!tok");
    type_text(&mut app.setup_token_secret, "SECRET-REDACTED");
    app.setup_port = TextInput::new();
    type_text(&mut app.setup_port, "not-a-port");
    app.setup_field = SetupField::VerifySsl;
    app.handle_key_event(Key::Char(' '));
    assert!(app.setup_verify_ssl);
    let effect = app.handle_key_event(Key::Enter);
    assert_eq!(effect, Effect::SaveConfig);
    assert_eq!(app.view_mode, ViewMode::Main);
    assert_eq!(app.config.proxmox_hosts.len(), 1);
    let added = &app.config.proxmox_hosts[0];
    assert_eq!(added.name, "lab");
    assert_eq!(added.host, "pve.example");
    assert_eq!(added.port, 8006);
    assert!(added.verify_ssl);
    assert_eq!(app.last_error.as_deref(), Some("Added Proxmox host 'lab'"));
    // A second cluster with the same name is refused.
    app.start_setup();
    type_text(&mut app.setup_name, "lab");
    type_text(&mut app.setup_host, "other.example");
    type_text(&mut app.setup_token_id, "id");
    type_text(&mut app.setup_token_secret, "SECRET-REDACTED");
    app.setup_field = SetupField::VerifySsl;
    let effect = app.handle_key_event(Key::Enter);
    assert_eq!(effect, Effect::Nothing);
    assert_eq!(app.config.proxmox_hosts.len(), 1);
    assert_eq!(app.last_error.as_deref(), Some("Host 'lab' already exists"));
}

#[test]
fn setup_field_cycle_is_a_loop() {
    let mut app = app_with_hosts(Vec::new());
    let order = [
        SetupField::Name,
        SetupField::Host,
        SetupField::Port,
        SetupField::ApiTokenId,
        SetupField::ApiTokenSecret,
        SetupField::VerifySsl,
    ];
    for expected in order.iter() {
        assert_eq!(app.setup_field, *expected);
        app.next_setup_field();
    }
    assert_eq!(app.setup_field, SetupField::Name);
    app.prev_setup_field();
    assert_eq!(app.setup_field, SetupField::VerifySsl);
}

#[test]
fn export_view_renders_and_offers_copy() {
    let mut app = app_with_hosts(vec![vm("web-01", Some("10.0.0.5"))]);
    app.handle_key_event(Key::Char('e'));
    assert_eq!(app.view_mode, ViewMode::Export);
    assert!(app.export_content.contains("[Proxmox_VM]"));
    assert!(app.export_content.contains("web-01 ansible_host=10.0.0.5 ansible_user=gozy"));
    let effect = app.handle_key_event(Key::Char('y'));
    assert_eq!(effect, Effect::CopyExport);
    app.handle_key_event(Key::Esc);
    assert_eq!(app.view_mode, ViewMode::Main);
}

#[test]
fn apply_discovery_reconciles_sorts_and_reports_failures() {
    let mut app = app_with_hosts(Vec::new());
    app.config.ip_overrides =
        vec![IpOverride { name: "web-01".to_string(), ip: "10.0.0.99".to_string() }];
    app.config.manual_hosts = vec![ManualHost {
        name: "aaa-gw".to_string(),
        ip: "10.0.0.1".to_string(),
        host_type: "physical".to_string(),
        ansible_user: "root".to_string(),
    }];
    app.begin_refresh();
    assert!(app.is_loading);
    assert!(app.last_error.is_none());
    let gathered = vec![vm("web-01", Some("10.0.0.5"))];
    let errors = vec![ClusterError {
        cluster: "lab2".to_string(),
        message: "timeout".to_string(),
    }];
    app.apply_discovery(gathered, &errors);
    assert!(!app.is_loading);
    assert!(app.initial_fetch_done);
    assert_eq!(app.selected_index, 0);
    // Sorted by name ascending: the manual host comes first.
    assert_eq!(app.hosts[0].name, "aaa-gw");
    assert_eq!(app.hosts[1].name, "web-01");
    assert_eq!(app.hosts[1].ip.as_deref(), Some("10.0.0.99"));
    assert_eq!(app.last_error.as_deref(), Some("Error fetching from lab2: timeout"));
}

#[test]
fn loading_animation_wraps() {
    let mut app = app_with_hosts(Vec::new());
    app.tick_loading_animation();
    assert_eq!(app.loading_frame, 1);
    app.loading_frame = usize::MAX;
    app.tick_loading_animation();
    assert_eq!(app.loading_frame, 0);
}

#[test]
fn port_fields_parse_like_integers() {
    assert_eq!(parse_u16("8006"), Some(8006));
    assert_eq!(parse_u16("+9000"), Some(9000));
    assert_eq!(parse_u16("65535"), Some(65535));
    assert_eq!(parse_u16("65536"), None);
    assert_eq!(parse_u16("70000"), None);
    assert_eq!(parse_u16(""), None);
    assert_eq!(parse_u16("+"), None);
    assert_eq!(parse_u16("12a"), None);
    assert_eq!(parse_u16("-1"), None);
}

#[test]
fn text_input_edits_at_the_cursor() {
    let mut input = TextInput::new();
    type_text(&mut input, "abc");
    input.move_left();
    input.insert_char('X');
    assert_eq!(input.value(), "abXc");
    input.move_home();
    input.delete_next();
    assert_eq!(input.value(), "bXc");
    input.move_end();
    input.delete_prev();
    assert_eq!(input.value(), "bX");
}
