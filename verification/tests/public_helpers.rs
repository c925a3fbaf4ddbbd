use runaserver::public::{
    evaluate, exit_code_text, findout_software, generate_vhost, list_version, nonempty_lines,
    parse_option, print_header, search_json, select_index, valid_input, valid_name, CommandStatus,
    Settings, list_in_fields, JsonField, JsonScalar,
};

fn strings(v: &[&str]) -> Vec<String> {
    v.iter().map(|s| s.to_string()).collect()
}

#[test]
fn valid_name_accepts_plain_names() {
    assert!(valid_name("mi_sitio-1"));
    assert!(valid_name("a"));
    assert!(valid_name(&"x".repeat(64)));
}

#[test]
fn valid_name_rejects_bad_names() {
    assert!(!valid_name(""));
    assert!(!valid_name(&"x".repeat(65)));
    assert!(!valid_name("-sitio"));
    assert!(!valid_name("_sitio"));
    assert!(!valid_name("sitio-"));
    assert!(!valid_name("sitio_"));
    assert!(!valid_name("mi sitio"));
    assert!(!valid_name("sitio.lan"));
    assert!(!valid_name("señal"));
}

#[test]
fn checker_valid_name_agrees() {
    for n in ["ok", "-no", "si_", "bien-1", ""] {
        assert_eq!(runaserver::checker::valid_name(n), valid_name(n));
    }
}

#[test]
fn parse_option_trims_and_parses() {
    assert_eq!(parse_option(" 3\n"), Some(3));
    assert_eq!(parse_option("+7"), Some(7));
    assert_eq!(parse_option("0"), Some(0));
    assert_eq!(parse_option(""), None);
    assert_eq!(parse_option("+"), None);
    assert_eq!(parse_option("-1"), None);
    assert_eq!(parse_option("1 2"), None);
    assert_eq!(parse_option("99999999999999999999999"), None);
}

#[test]
fn valid_input_checks_range() {
    assert!(valid_input("1\n", 3));
    assert!(valid_input("3", 3));
    assert!(!valid_input("4", 3));
    assert!(!valid_input("0", 3));
    assert!(!valid_input("abc", 3));
    assert!(!runaserver::checker::valid_input("1", 0));
}

#[test]
fn select_index_is_zero_based() {
    assert_eq!(select_index("2\n", 5), Some(1));
    assert_eq!(select_index("1", 1), Some(0));
    assert_eq!(select_index("6", 5), None);
    assert_eq!(select_index("", 5), None);
    assert_eq!(select_index("x", 5), None);
}

#[test]
fn findout_software_splits_missing_and_installed() {
    let programas = strings(&["apache2", "curl", "git", "unzip"]);
    let salida = "apache2\n  git  \n\n";
    let (faltan, hay) = findout_software(&programas, salida);
    assert_eq!(faltan, strings(&["curl", "unzip"]));
    assert_eq!(hay, strings(&["apache2", "git"]));
}

#[test]
fn findout_software_without_programs_is_empty() {
    let (faltan, hay) = findout_software(&[], "apache2\n");
    assert!(faltan.is_empty());
    assert!(hay.is_empty());
}

#[test]
fn findout_software_without_output_reports_all_missing() {
    let programas = strings(&["a", "b"]);
    let (faltan, hay) = findout_software(&programas, "");
    assert_eq!(faltan, programas);
    assert!(hay.is_empty());
}

#[test]
fn nonempty_lines_trims() {
    assert_eq!(nonempty_lines("8.1\n\n 8.3 \r\n"), strings(&["8.1", "8.3"]));
}

#[test]
fn header_centres_uppercase_title() {
    let h = print_header("hola", 10);
    assert_eq!(h, strings(&["==========", "   HOLA", "=========="]));
    let h = print_header("título largo", 4);
    assert_eq!(h[1], "TÍTULO LARGO");
    assert_eq!(runaserver::public::line(3), "===");
    assert_eq!(runaserver::public::line(0), "");
}

#[test]
fn list_version_numbers_from_one() {
    assert_eq!(list_version(&strings(&["7.4", "8.3"])), strings(&["1) PHP7.4", "2) PHP8.3"]));
    assert!(list_version(&[]).is_empty());
}

#[test]
fn evaluate_success_only() {
    assert!(evaluate(&CommandStatus::Exited { success: true, code: Some(0) }));
    assert!(!evaluate(&CommandStatus::Exited { success: false, code: Some(1) }));
    assert!(!evaluate(&CommandStatus::Exited { success: false, code: None }));
    assert!(!evaluate(&CommandStatus::NotStarted));
}

#[test]
fn checker_evaluate_agrees() {
    for st in [
        CommandStatus::Exited { success: true, code: Some(0) },
        CommandStatus::Exited { success: false, code: Some(2) },
        CommandStatus::NotStarted,
    ] {
        assert_eq!(runaserver::checker::evaluate(&st), evaluate(&st));
    }
}

#[test]
fn exit_code_text_formats() {
    assert_eq!(exit_code_text(Some(0)), "0");
    assert_eq!(exit_code_text(Some(127)), "127");
    assert_eq!(exit_code_text(Some(-15)), "-15");
    assert_eq!(exit_code_text(Some(i32::MIN)), i32::MIN.to_string());
    assert_eq!(exit_code_text(None), "?");
}

#[test]
fn generate_vhost_replaces_markers() {
    let plantilla = "<VirtualHost *:80>\n ServerName {sitio}\n DocumentRoot {web_dir}\n php{ver}-fpm {sitio}\n</VirtualHost>\n";
    let (ruta, contenido) = generate_vhost(plantilla, "blog", "/var/www/blog", "8.3");
    assert_eq!(ruta, "/etc/apache2/sites-available/blog.conf");
    assert_eq!(
        contenido,
        "<VirtualHost *:80>\n ServerName blog\n DocumentRoot /var/www/blog\n php8.3-fpm blog\n</VirtualHost>\n"
    );
}

#[test]
fn generate_vhost_plain_template_unchanged() {
    let plantilla = "<VirtualHost *:80>\n ServerName {site} {ver\n</VirtualHost>\n";
    let (_, contenido) = generate_vhost(plantilla, "{ver}", "{sitio}", "x");
    assert_eq!(contenido, plantilla);
}

#[test]
fn select_index_stays_in_range() {
    for len in 0..5usize {
        for input in ["0", "1", "2", "4", "5", " 3 ", "+2", "x", ""] {
            if let Some(i) = select_index(input, len) {
                assert!(i < len);
                assert!(valid_input(input, len));
            } else {
                assert!(!valid_input(input, len));
            }
        }
    }
}

#[test]
fn generate_vhost_markers_inside_values_stay() {
    let (_, contenido) = generate_vhost("{sitio}", "{ver}", "w", "X");
    assert_eq!(contenido, "X");
}

#[test]
fn search_json_lists() {
    let json = r#"{"paquetes_base": ["curl", "git", 3, true, null, ["x"]], "apache": "apache2", "n": 1.5, "b": false, "o": {"a": 1}}"#;
    assert_eq!(search_json("packages.json", "paquetes_base", Some(json)), strings(&["curl", "git", "3", "true"]));
    assert_eq!(search_json("packages.json", "apache", Some(json)), strings(&["apache2"]));
    assert_eq!(search_json("packages.json", "n", Some(json)), strings(&["1.5"]));
    assert_eq!(search_json("packages.json", "b", Some(json)), strings(&["false"]));
    assert!(search_json("packages.json", "o", Some(json)).is_empty());
    assert!(search_json("packages.json", "falta", Some(json)).is_empty());
}

#[test]
fn search_json_degenerate_inputs() {
    assert!(search_json("", "k", Some(r#"{"k": "v"}"#)).is_empty());
    assert!(search_json("f.json", "", Some(r#"{"k": "v"}"#)).is_empty());
    assert!(search_json("f.json", "k", None).is_empty());
    assert!(search_json("f.json", "k", Some("{not json")).is_empty());
    assert!(search_json("f.json", "k", Some(r#"["k"]"#)).is_empty());
    assert_eq!(search_json("f.json", "k", Some(r#"{"k": "a", "k": "b"}"#)), strings(&["b"]));
}

#[test]
fn settings_admin_mode() {
    let mut s = Settings::new();
    assert!(!s.admin_mode);
    s.set_admin_mode(true);
    assert!(s.admin_mode);
    s.set_admin_mode(false);
    assert!(!s.admin_mode);
}

#[test]
fn list_in_parsed_fields() {
    let fields = vec![
        ("a".to_string(), JsonField::List(vec![JsonScalar::Str("x".to_string()), JsonScalar::Null, JsonScalar::Bool(true)])),
        ("b".to_string(), JsonField::Single(JsonScalar::Number("2".to_string()))),
        ("a".to_string(), JsonField::Single(JsonScalar::Str("later".to_string()))),
    ];
    assert_eq!(list_in_fields(&fields, "a"), strings(&["x", "true"]));
    assert_eq!(list_in_fields(&fields, "b"), strings(&["2"]));
    assert!(list_in_fields(&fields, "c").is_empty());
}
