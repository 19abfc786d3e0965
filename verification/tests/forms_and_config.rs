use ghost::config::{AuthMethodConfig, ConfigManager, ServerConfig, default_servers};
use ghost::forms::{AuthMethodSelection, InputField, ServerForm};
use ghost::models::AuthMethod;

fn type_into(field: &mut InputField, text: &str) {
    for c in text.chars() {
        field.insert_char(c);
    }
}

#[test]
fn input_field_edits_at_the_cursor() {
    let mut f = InputField::new("Name", "My Server");
    assert_eq!(f.label, "Name");
    assert_eq!(f.placeholder, "My Server");
    assert!(f.value.is_empty());

    type_into(&mut f, "abd");
    assert_eq!(f.cursor_position, 3);
    f.move_cursor_left();
    f.insert_char('c');
    let value: String = f.value.iter().collect();
    assert_eq!(value, "abcd");
    assert_eq!(f.cursor_position, 3);

    f.delete_char();
    let value: String = f.value.iter().collect();
    assert_eq!(value, "abd");
    f.delete_char_forward();
    let value: String = f.value.iter().collect();
    assert_eq!(value, "ab");
    f.move_cursor_to_start();
    assert_eq!(f.cursor_position, 0);
    f.delete_char();
    assert_eq!(f.value.len(), 2);
    f.move_cursor_to_end();
    assert_eq!(f.cursor_position, 2);
    f.move_cursor_right();
    assert_eq!(f.cursor_position, 2);
}

#[test]
fn password_fields_are_masked() {
    let mut f = InputField::new("Secret", "");
    f.is_password = true;
    assert_eq!(f.display_value(), "");
    type_into(&mut f, "hunter2");
    assert_eq!(f.display_value(), "*******");
    f.is_password = false;
    assert_eq!(f.display_value(), "hunter2");
}

#[test]
fn auth_selection_cycles_and_describes() {
    let variants = AuthMethodSelection::variants();
    assert_eq!(
        variants,
        vec![
            AuthMethodSelection::Agent,
            AuthMethodSelection::Password,
            AuthMethodSelection::PublicKey,
            AuthMethodSelection::Interactive,
        ]
    );
    assert_eq!(AuthMethodSelection::Agent.display_name(), "SSH Agent");
    assert_eq!(
        AuthMethodSelection::Password.description(),
        "Use password authentication (not recommended)"
    );
    assert_eq!(
        AuthMethodSelection::from_auth(&AuthMethod::Interactive),
        AuthMethodSelection::Interactive
    );
    match AuthMethodSelection::PublicKey.to_config() {
        AuthMethodConfig::PublicKey { key_path } => assert_eq!(key_path, "~/.ssh/id_rsa"),
        _ => panic!("key-based selection carries the default key path"),
    }
}

#[test]
fn form_focus_moves_through_fields_selector_and_tags() {
    let mut form = ServerForm::new_add_form();
    assert_eq!(form.fields.len(), 5);
    assert_eq!(form.current_field, 0);
    assert!(form.fields[0].is_focused);
    assert!(!form.auth_method_focused);

    for expected in 1..=5 {
        form.next_field();
        assert_eq!(form.current_field, expected);
    }
    assert!(form.tags_input.is_focused);
    form.next_field();
    assert_eq!(form.current_field, 0);

    form.previous_field();
    assert!(form.auth_method_focused);
    assert!(!form.fields[0].is_focused);
    form.previous_field();
    assert_eq!(form.current_field, 5);
    assert!(!form.auth_method_focused);
    form.previous_field();
    assert_eq!(form.current_field, 4);

    form.next_auth_method();
    assert_eq!(form.auth_method, AuthMethodSelection::Password);
    form.previous_auth_method();
    assert_eq!(form.auth_method, AuthMethodSelection::Agent);
    form.previous_auth_method();
    assert_eq!(form.auth_method, AuthMethodSelection::Interactive);
}

#[test]
fn validation_reports_each_missing_field() {
    let form = ServerForm::new_add_form();
    let errors = form.validate();
    assert_eq!(
        errors,
        vec![
            "Name is required",
            "Host is required",
            "Port is required",
            "Username is required",
        ]
    );

    let mut form = ServerForm::new_add_form();
    type_into(&mut form.fields[0], "box");
    type_into(&mut form.fields[1], "example.com");
    type_into(&mut form.fields[2], "99999");
    type_into(&mut form.fields[3], "root");
    assert_eq!(form.validate(), vec!["Port must be a valid number (1-65535)"]);

    let mut ok = ServerForm::new_add_form();
    type_into(&mut ok.fields[0], "box");
    type_into(&mut ok.fields[1], "example.com");
    type_into(&mut ok.fields[2], "22");
    type_into(&mut ok.fields[3], "root");
    assert!(ok.validate().is_empty());
    assert!(ok.has_input());
    assert!(!ServerForm::new_add_form().has_input());
}

#[test]
fn form_builds_the_host_record() {
    let mut form = ServerForm::new_add_form();
    type_into(&mut form.fields[0], "  box  ");
    type_into(&mut form.fields[1], "example.com");
    type_into(&mut form.fields[2], "2200");
    type_into(&mut form.fields[3], "alice");
    type_into(&mut form.fields[4], " main box ");
    type_into(&mut form.tags_input, "web, prod ,,db");
    form.auth_method = AuthMethodSelection::PublicKey;

    let conn = form.to_server_connection().expect("a valid form converts");
    assert_eq!(conn.name, "box");
    assert_eq!(conn.host, "example.com");
    assert_eq!(conn.port, 2200);
    assert_eq!(conn.username, "alice");
    assert_eq!(conn.description.as_deref(), Some("main box"));
    assert_eq!(conn.tags, vec!["web", "prod", "db"]);
    assert_eq!(conn.id.len(), 36);
    match conn.auth_method {
        AuthMethod::PublicKey { key_path } => assert_eq!(key_path, "~/.ssh/id_rsa"),
        _ => panic!("key-based auth expected"),
    }

    let bad = ServerForm::new_add_form();
    let err = bad.to_server_connection().expect_err("an empty form is rejected");
    assert_eq!(
        err,
        "Name is required; Host is required; Port is required; Username is required"
    );
}

#[test]
fn edit_form_is_prefilled_and_keeps_the_id() {
    let mut form = ServerForm::new_add_form();
    type_into(&mut form.fields[0], "box");
    type_into(&mut form.fields[1], "example.com");
    type_into(&mut form.fields[2], "22");
    type_into(&mut form.fields[3], "alice");
    type_into(&mut form.tags_input, "web,db");
    let conn = form.to_server_connection().unwrap();
    let id = conn.id.clone();

    let edit = ServerForm::new_edit_form(&conn);
    assert!(edit.is_editing);
    assert_eq!(edit.original_id.as_deref(), Some(id.as_str()));
    let name: String = edit.fields[0].value.iter().collect();
    assert_eq!(name, "box");
    let port: String = edit.fields[2].value.iter().collect();
    assert_eq!(port, "22");
    let tags: String = edit.tags_input.value.iter().collect();
    assert_eq!(tags, "web,db");
    assert_eq!(edit.fields[2].cursor_position, 2);

    let round = edit.to_server_connection().unwrap();
    assert_eq!(round.id, id);
    assert_eq!(round.name, "box");
}

#[test]
fn test_server_conversion() {
    let server_config = ServerConfig {
        name: "Test".to_string(),
        host: "test.com".to_string(),
        port: 22,
        username: "user".to_string(),
        auth_method: AuthMethodConfig::Agent,
        description: Some("test".to_string()),
        tags: vec!["test".to_string()],
        timeout: None,
    };

    let connection = server_config.clone().to_connection();
    let back_to_config = connection.to_config();

    assert_eq!(server_config.name, back_to_config.name);
    assert_eq!(server_config.host, back_to_config.host);
    assert_eq!(server_config.port, back_to_config.port);
}

#[test]
fn config_round_trip_keeps_every_field() {
    let manager = ConfigManager::new("/tmp/config.toml".to_string());
    assert_eq!(manager.config_path(), "/tmp/config.toml");

    let servers = default_servers();
    assert_eq!(servers.len(), 3);
    assert_eq!(servers[0].0, "server_1");
    assert_eq!(servers[0].1.name, "Production Server");
    assert_eq!(servers[0].1.host, "prod.example.com");
    assert_eq!(servers[0].1.timeout, Some(10));
    assert_eq!(servers[1].0, "server_2");
    assert_eq!(servers[1].1.username, "developer");
    assert_eq!(servers[2].1.tags, vec!["database", "production"]);

    let connections = manager.config_to_connections(servers);
    assert_eq!(connections.len(), 3);
    assert_eq!(connections[0].id, "server_1");
    assert_eq!(connections[0].name, "Production Server");
    assert_eq!(connections[1].id, "server_2");
    match &connections[1].auth_method {
        AuthMethod::PublicKey { key_path } => assert_eq!(key_path, "~/.ssh/id_rsa"),
        _ => panic!("the development sample uses a key"),
    }

    let back = manager.connections_to_config(&connections);
    assert_eq!(back.len(), 3);
    assert_eq!(back[0].0, "server_1");
    assert_eq!(back[0].1.name, "Production Server");
    assert_eq!(back[2].1.host, "db.example.com");
    assert!(back[0].1.timeout.is_none());
}
