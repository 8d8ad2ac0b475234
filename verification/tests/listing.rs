use bo::args::{Config, InstallConfig};
use bo::deduplicate::deduplicate_lines;
use bo::install_writer::{comes_before, install_plan, listed_step_files, names_step_file, step_line};
use bo::text::chars_of;

fn texts(items: &[&str]) -> Vec<String> {
    items.iter().map(|t| t.to_string()).collect()
}

fn install_config(footer_line: Option<&str>, footer_sql_content: Option<&str>) -> InstallConfig {
    InstallConfig {
        install_file_name: "install.TXT".to_string(),
        header_lines: texts(&["000|HEADER", "001|CONNECT"]),
        sql_execution_format: "SQL|exec {}|log {}.log".to_string(),
        footer_line: footer_line.map(|t| t.to_string()),
        footer_sql_content: footer_sql_content.map(|t| t.to_string()),
    }
}

#[test]
fn deduplicate_keeps_the_first_of_each_line() {
    let out = deduplicate_lines(&texts(&["b", "a", "b", "c", "a", "", "", "B"]));
    assert_eq!(out, texts(&["b", "a", "c", "", "B"]));
    assert_eq!(deduplicate_lines(&Vec::new()), Vec::<String>::new());
    assert_eq!(deduplicate_lines(&texts(&["x", "x", "x"])), texts(&["x"]));
}

#[test]
fn strings_are_ordered_by_their_characters() {
    let le = |a: &str, b: &str| comes_before(&chars_of(a), &chars_of(b));
    for (a, b) in [("", ""), ("", "a"), ("a", "a"), ("a", "ab"), ("ab", "b"), ("A", "a"), ("z", "é"), ("é", "€")] {
        assert!(le(a, b));
        assert_eq!(le(a, b), a <= b);
        assert_eq!(le(b, a), b <= a);
    }
    assert!(!le("b", "a"));
    assert!(!le("ab", "a"));
}

#[test]
fn step_files_are_known_by_prefix_and_suffix() {
    assert!(names_step_file(&chars_of("STEP_001_A.sql")));
    assert!(names_step_file(&chars_of("STEP_.sql")));
    assert!(!names_step_file(&chars_of("STEP_001_A.txt")));
    assert!(!names_step_file(&chars_of("step_001_A.sql")));
    assert!(!names_step_file(&chars_of("X_STEP_001_A.sql")));
    assert!(!names_step_file(&chars_of("STEP_001_A.sql.bak")));
    assert!(!names_step_file(&chars_of(".sql")));
    assert!(!names_step_file(&chars_of("")));
}

#[test]
fn listed_step_files_are_filtered_and_sorted() {
    let entries = texts(&[
        "STEP_010_B.sql",
        "install.TXT",
        "STEP_002_A.sql",
        "diff_result_ALL.txt",
        "STEP_002_A.sql",
        "STEP_001_Z.sql",
        "STEP_1000_X.sql",
    ]);
    assert_eq!(
        listed_step_files(&entries),
        texts(&["STEP_001_Z.sql", "STEP_002_A.sql", "STEP_002_A.sql", "STEP_010_B.sql", "STEP_1000_X.sql"])
    );
    assert!(listed_step_files(&Vec::new()).is_empty());
}

#[test]
fn step_line_holds_number_and_name() {
    assert_eq!(step_line(2, "SQL|@{}", "STEP_001_A.sql"), "002|SQL|@STEP_001_A.sql");
    assert_eq!(step_line(12, "no placeholder", "x"), "012|no placeholder");
    assert_eq!(step_line(1234, "{}{}", "x"), "1234|xx");
}

#[test]
fn install_plan_lists_header_steps_and_footer() {
    let config = install_config(Some("{}|SQL|exec STEP_{}_FINAL.sql"), Some("COMMIT;\n"));
    let plan = install_plan(&config, &texts(&["STEP_001_A.sql", "STEP_002_B.sql"]));
    assert_eq!(
        plan.lines,
        texts(&[
            "000|HEADER",
            "001|CONNECT",
            "002|SQL|exec STEP_001_A.sql|log STEP_001_A.sql.log",
            "003|SQL|exec STEP_002_B.sql|log STEP_002_B.sql.log",
            "004|SQL|exec STEP_004_FINAL.sql",
        ])
    );
    let footer = plan.footer_file.unwrap();
    assert_eq!(footer.file_name, "exec STEP_004_FINAL.sql");
    assert_eq!(footer.content, "COMMIT;\n");
}

#[test]
fn install_plan_without_footer_content_names_no_footer_file() {
    let config = install_config(Some("{}|end"), None);
    let plan = install_plan(&config, &Vec::new());
    assert_eq!(plan.lines, texts(&["000|HEADER", "001|CONNECT", "002|end"]));
    assert!(plan.footer_file.is_none());
}

#[test]
fn install_plan_without_footer_line_has_no_footer() {
    let config = install_config(None, Some("COMMIT;"));
    let plan = install_plan(&config, &texts(&["STEP_001_A.sql"]));
    assert_eq!(
        plan.lines,
        texts(&["000|HEADER", "001|CONNECT", "002|SQL|exec STEP_001_A.sql|log STEP_001_A.sql.log"])
    );
    assert!(plan.footer_file.is_none());
}

#[test]
fn install_plan_footer_name_without_a_bar_is_the_whole_line() {
    let config = install_config(Some("STEP_{}_END.sql"), Some(""));
    let plan = install_plan(&config, &texts(&["STEP_001_A.sql"]));
    assert_eq!(plan.lines[3], "STEP_003_END.sql");
    let footer = plan.footer_file.unwrap();
    assert_eq!(footer.file_name, "STEP_003_END.sql");
    assert_eq!(footer.content, "");
}

#[test]
fn config_knows_whether_a_mod_file_is_named() {
    let mut config = Config {
        pattern: "./input/diff_result_*".to_string(),
        mod_file: String::new(),
        output: "./output".to_string(),
        install_config: install_config(None, None),
    };
    assert!(!config.has_mod_file());
    config.mod_file = "alter_mod.txt".to_string();
    assert!(config.has_mod_file());
}
