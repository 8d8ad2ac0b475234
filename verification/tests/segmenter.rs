use bo::split_sql::{
    finalize_block, handle_alter_line, handle_create_line, segment, short_table_name,
    split_into_blocks, LineKind, Segmenter,
};
use bo::SqlBlock;

fn lines_of(texts: &[&str]) -> Vec<String> {
    texts.iter().map(|t| t.to_string()).collect()
}

fn names_of(blocks: &[SqlBlock]) -> Vec<String> {
    blocks.iter().map(|b| b.name.clone()).collect()
}

#[test]
fn alter_line_gives_a_one_line_block() {
    let lines = lines_of(&["ALTER TABLE SCHEMA.T100_FOO ADD (X NUMBER)"]);
    let blocks = split_into_blocks(&lines).unwrap();
    assert_eq!(blocks.len(), 1);
    assert_eq!(blocks[0].name, "ALTER_T100");
    assert_eq!(blocks[0].lines, lines);
}

#[test]
fn grant_in_front_of_create_joins_the_block() {
    let lines = lines_of(&[
        "GRANT REFERENCES ON SCHEMA.BAR TO X",
        "CREATE TABLE SCHEMA.FOO_BAR (ID NUMBER)",
    ]);
    let blocks = split_into_blocks(&lines).unwrap();
    assert_eq!(blocks.len(), 1);
    assert_eq!(blocks[0].name, "CREATE_FOO");
    assert_eq!(blocks[0].lines, lines);
}

#[test]
fn create_block_takes_the_lines_up_to_the_next_boundary() {
    let lines = lines_of(&[
        "CREATE TABLE S.AAA_ONE (",
        "  ID NUMBER,",
        "",
        "   ",
        ")",
        "ALTER TABLE S.T7_X ADD (Y NUMBER)",
        "COMMENT ON TABLE S.AAA_ONE IS 'x'",
        "CREATE TABLE S.BBB (",
        ")",
    ]);
    let blocks = split_into_blocks(&lines).unwrap();
    assert_eq!(names_of(&blocks), vec!["CREATE_AAA", "ALTER_T7", "CREATE_BBB"]);
    assert_eq!(blocks[0].lines, lines_of(&["CREATE TABLE S.AAA_ONE (", "  ID NUMBER,", ")"]));
    assert_eq!(blocks[1].lines, lines_of(&["ALTER TABLE S.T7_X ADD (Y NUMBER)"]));
    assert_eq!(blocks[2].lines, lines_of(&["CREATE TABLE S.BBB (", ")"]));
}

#[test]
fn grant_between_two_creates_goes_to_the_second_only() {
    let lines = lines_of(&[
        "CREATE TABLE S.ONE_A (ID NUMBER)",
        "TABLESPACE X",
        "GRANT REFERENCES ON S.ONE_A TO U",
        "CREATE TABLE S.TWO_B (ID NUMBER)",
        "GRANT REFERENCES ON S.TWO_B TO U",
    ]);
    let blocks = split_into_blocks(&lines).unwrap();
    assert_eq!(names_of(&blocks), vec!["CREATE_ONE", "CREATE_TWO"]);
    assert_eq!(blocks[0].lines, lines_of(&["CREATE TABLE S.ONE_A (ID NUMBER)", "TABLESPACE X"]));
    assert_eq!(
        blocks[1].lines,
        lines_of(&[
            "GRANT REFERENCES ON S.ONE_A TO U",
            "CREATE TABLE S.TWO_B (ID NUMBER)",
            "GRANT REFERENCES ON S.TWO_B TO U",
        ])
    );
}

#[test]
fn grant_is_not_taken_across_a_blank_line() {
    let lines = lines_of(&["GRANT REFERENCES ON S.A TO U", "", "CREATE TABLE S.TWO_B (ID NUMBER)"]);
    let blocks = split_into_blocks(&lines).unwrap();
    assert_eq!(blocks.len(), 1);
    assert_eq!(blocks[0].lines, lines_of(&["CREATE TABLE S.TWO_B (ID NUMBER)"]));
}

#[test]
fn grant_in_front_of_alter_stays_where_it_is() {
    let lines = lines_of(&[
        "CREATE TABLE S.ONE_A (ID NUMBER)",
        "GRANT REFERENCES ON S.ONE_A TO U",
        "ALTER TABLE S.T1_A ADD (X NUMBER)",
    ]);
    let blocks = split_into_blocks(&lines).unwrap();
    assert_eq!(names_of(&blocks), vec!["CREATE_ONE", "ALTER_T1"]);
    assert_eq!(
        blocks[0].lines,
        lines_of(&["CREATE TABLE S.ONE_A (ID NUMBER)", "GRANT REFERENCES ON S.ONE_A TO U"])
    );
    assert_eq!(blocks[1].lines, lines_of(&["ALTER TABLE S.T1_A ADD (X NUMBER)"]));
}

#[test]
fn unmatched_lines_outside_blocks_are_skipped() {
    let lines = lines_of(&[
        "-- header",
        "DROP TABLE S.X",
        "ALTER TABLE S.T1_A ADD (X NUMBER)",
        "COMMENT ON COLUMN S.T1_A.X IS 'x'",
        "",
        "ALTER TABLE S.T2_B ADD (X NUMBER)",
    ]);
    let blocks = split_into_blocks(&lines).unwrap();
    assert_eq!(names_of(&blocks), vec!["ALTER_T1", "ALTER_T2"]);
    assert_eq!(blocks[0].lines.len(), 1);
    assert_eq!(blocks[1].lines.len(), 1);
}

#[test]
fn no_boundary_gives_no_block() {
    assert!(split_into_blocks(&Vec::new()).unwrap().is_empty());
    let lines = lines_of(&["", "GRANT REFERENCES ON S.A TO U", "DROP TABLE S.X"]);
    assert!(split_into_blocks(&lines).unwrap().is_empty());
}

#[test]
fn matching_ignores_case_and_surrounding_white_space() {
    let lines = lines_of(&[
        "  alter table schema.t100_foo add (x number)  ",
        "\tgrant references on s.bar to x",
        "  Create Table s.foo_bar (id number)",
    ]);
    let blocks = split_into_blocks(&lines).unwrap();
    assert_eq!(names_of(&blocks), vec!["ALTER_t100", "CREATE_foo"]);
    assert_eq!(blocks[0].lines, lines_of(&["  alter table schema.t100_foo add (x number)  "]));
    assert_eq!(
        blocks[1].lines,
        lines_of(&["\tgrant references on s.bar to x", "  Create Table s.foo_bar (id number)"])
    );
}

#[test]
fn matching_is_anchored_at_the_start_of_the_line() {
    let lines = lines_of(&["-- ALTER TABLE S.T1_A ADD (X NUMBER)", "x CREATE TABLE S.A_B ("]);
    assert!(split_into_blocks(&lines).unwrap().is_empty());
}

#[test]
fn alter_line_without_table_number_is_no_boundary() {
    let lines = lines_of(&["ALTER TABLE S.FOO_BAR ADD (X NUMBER)", "ALTER TABLE S.T_BAR ADD (X NUMBER)"]);
    assert!(split_into_blocks(&lines).unwrap().is_empty());
}

#[test]
fn create_table_without_underscore_keeps_its_whole_name() {
    let lines = lines_of(&["CREATE TABLE S.PLAIN (ID NUMBER)"]);
    let blocks = split_into_blocks(&lines).unwrap();
    assert_eq!(blocks[0].name, "CREATE_PLAIN");
}

#[test]
fn block_lines_are_the_input_lines_in_order() {
    let lines = lines_of(&[
        "junk",
        "GRANT REFERENCES ON S.Z TO U",
        "CREATE TABLE S.A_1 (",
        "",
        "x",
        "GRANT REFERENCES ON S.A_1 TO U",
        "CREATE TABLE S.B_1 (",
        "y",
        "ALTER TABLE S.T5_Q MODIFY (Z NUMBER)",
        "junk 2",
    ]);
    let blocks = split_into_blocks(&lines).unwrap();
    let flat: Vec<String> = blocks.iter().flat_map(|b| b.lines.iter().cloned()).collect();
    let expected = lines_of(&[
        "GRANT REFERENCES ON S.Z TO U",
        "CREATE TABLE S.A_1 (",
        "x",
        "GRANT REFERENCES ON S.A_1 TO U",
        "CREATE TABLE S.B_1 (",
        "y",
        "ALTER TABLE S.T5_Q MODIFY (Z NUMBER)",
    ]);
    assert_eq!(flat, expected);
    let mut from = 0;
    for line in &flat {
        let at = lines[from..].iter().position(|l| l == line).unwrap();
        from += at + 1;
    }
    assert!(blocks.iter().all(|b| !b.lines.is_empty()));
}

#[test]
fn short_table_name_cuts_at_the_first_underscore() {
    assert_eq!(short_table_name("FOO_BAR"), "FOO");
    assert_eq!(short_table_name("FOO_BAR_BAZ"), "FOO");
    assert_eq!(short_table_name("FOO"), "FOO");
    assert_eq!(short_table_name("_FOO"), "");
    assert_eq!(short_table_name("FOO_"), "FOO");
    assert_eq!(short_table_name(""), "");
    assert_eq!(short_table_name("ÄÖ_Ü"), "ÄÖ");
}

#[test]
fn finalize_block_moves_a_block_with_lines() {
    let mut current = SqlBlock { name: "CREATE_A".to_string(), lines: lines_of(&["a", "b"]) };
    let mut blocks = vec![SqlBlock { name: "ALTER_T1".to_string(), lines: lines_of(&["x"]) }];
    finalize_block(&mut current, &mut blocks);
    assert_eq!(blocks.len(), 2);
    assert_eq!(blocks[0].name, "ALTER_T1");
    assert_eq!(blocks[1].name, "CREATE_A");
    assert_eq!(blocks[1].lines, lines_of(&["a", "b"]));
    assert_eq!(current.name, "");
    assert!(current.lines.is_empty());
}

#[test]
fn finalize_block_leaves_a_block_without_lines() {
    let mut current = SqlBlock { name: "PENDING".to_string(), lines: Vec::new() };
    let mut blocks: Vec<SqlBlock> = Vec::new();
    finalize_block(&mut current, &mut blocks);
    assert!(blocks.is_empty());
    assert_eq!(current.name, "PENDING");
    assert!(current.lines.is_empty());
}

#[test]
fn classify_tells_the_rules_apart() {
    let segmenter = Segmenter::new().unwrap();
    match segmenter.classify("ALTER TABLE SCHEMA.T100_FOO ADD (X NUMBER)") {
        LineKind::Alter(token) => assert_eq!(token, "T100"),
        other => panic!("{:?}", other),
    }
    match segmenter.classify("  CREATE   TABLE  SCHEMA.FOO_BAR (ID NUMBER)") {
        LineKind::Create(table) => assert_eq!(table, "FOO_BAR"),
        other => panic!("{:?}", other),
    }
    assert!(matches!(segmenter.classify("GRANT REFERENCES ON S.BAR TO X"), LineKind::Grant));
    assert!(matches!(segmenter.classify("GRANT SELECT ON S.BAR TO X"), LineKind::Other));
    assert!(matches!(segmenter.classify(""), LineKind::Blank));
    assert!(matches!(segmenter.classify(" \t \u{a0}"), LineKind::Blank));
    assert!(matches!(segmenter.classify("CREATE INDEX S.I ON S.T (C)"), LineKind::Other));
    assert!(matches!(segmenter.classify("CREATE TABLE FOO (ID NUMBER)"), LineKind::Other));
}

#[test]
fn classify_all_keeps_the_order_of_the_lines() {
    let segmenter = Segmenter::new().unwrap();
    let kinds = segmenter.classify_all(&lines_of(&["", "x", "ALTER TABLE S.T1_A ADD (X NUMBER)"]));
    assert_eq!(kinds.len(), 3);
    assert!(matches!(kinds[0], LineKind::Blank));
    assert!(matches!(kinds[1], LineKind::Other));
    assert!(matches!(kinds[2], LineKind::Alter(_)));
}

#[test]
fn split_agrees_with_split_into_blocks() {
    let lines = lines_of(&["CREATE TABLE S.A_1 (", "x", "ALTER TABLE S.T5_Q MODIFY (Z NUMBER)"]);
    let by_method = Segmenter::new().unwrap().split(&lines);
    let by_function = split_into_blocks(&lines).unwrap();
    assert_eq!(names_of(&by_method), names_of(&by_function));
    assert_eq!(by_method[0].lines, by_function[0].lines);
    assert_eq!(by_method[1].lines, by_function[1].lines);
}

#[test]
fn segment_goes_by_the_kinds_it_is_given() {
    let lines = lines_of(&["a", "b", "c", "d", "e", "f", "g"]);
    let kinds = vec![
        LineKind::Grant,
        LineKind::Create("TAB_X".to_string()),
        LineKind::Blank,
        LineKind::Other,
        LineKind::Grant,
        LineKind::Create("NEXT".to_string()),
        LineKind::Alter("T9".to_string()),
    ];
    let blocks = segment(&lines, &kinds);
    assert_eq!(names_of(&blocks), vec!["CREATE_TAB", "CREATE_NEXT", "ALTER_T9"]);
    assert_eq!(blocks[0].lines, lines_of(&["a", "b", "d"]));
    assert_eq!(blocks[1].lines, lines_of(&["e", "f"]));
    assert_eq!(blocks[2].lines, lines_of(&["g"]));
}

#[test]
fn segment_keeps_a_grant_that_no_create_follows() {
    let lines = lines_of(&["a", "b", "c"]);
    let kinds = vec![LineKind::Create("T".to_string()), LineKind::Grant, LineKind::Other];
    let blocks = segment(&lines, &kinds);
    assert_eq!(blocks.len(), 1);
    assert_eq!(blocks[0].lines, lines);
    let kinds = vec![LineKind::Create("T".to_string()), LineKind::Other, LineKind::Grant];
    let blocks = segment(&lines, &kinds);
    assert_eq!(blocks[0].lines, lines);
}

#[test]
fn handle_alter_line_answers_only_for_alter_lines() {
    let lines = lines_of(&["a", "b"]);
    let kinds = vec![LineKind::Other, LineKind::Alter("T3".to_string())];
    let mut current = SqlBlock { name: String::new(), lines: Vec::new() };
    let mut blocks: Vec<SqlBlock> = Vec::new();
    assert_eq!(handle_alter_line(0, &lines, &kinds, &mut current, &mut blocks), None);
    assert!(blocks.is_empty());
    assert_eq!(handle_alter_line(1, &lines, &kinds, &mut current, &mut blocks), Some(2));
    assert_eq!(names_of(&blocks), vec!["ALTER_T3"]);
    assert_eq!(blocks[0].lines, lines_of(&["b"]));
}

#[test]
fn handle_alter_line_closes_the_open_block_first() {
    let lines = lines_of(&["a"]);
    let kinds = vec![LineKind::Alter("T3".to_string())];
    let mut current = SqlBlock { name: "OPEN".to_string(), lines: lines_of(&["o"]) };
    let mut blocks: Vec<SqlBlock> = Vec::new();
    assert_eq!(handle_alter_line(0, &lines, &kinds, &mut current, &mut blocks), Some(1));
    assert_eq!(names_of(&blocks), vec!["OPEN", "ALTER_T3"]);
    assert!(current.lines.is_empty());
    assert_eq!(current.name, "");
}

#[test]
fn handle_create_line_answers_with_the_next_boundary() {
    let lines = lines_of(&["g", "c", "x", "", "a", "y"]);
    let kinds = vec![
        LineKind::Grant,
        LineKind::Create("A_B".to_string()),
        LineKind::Other,
        LineKind::Blank,
        LineKind::Alter("T1".to_string()),
        LineKind::Other,
    ];
    let mut current = SqlBlock { name: String::new(), lines: Vec::new() };
    let mut blocks: Vec<SqlBlock> = Vec::new();
    assert_eq!(handle_create_line(0, &lines, &kinds, &mut current, &mut blocks), None);
    assert_eq!(handle_create_line(4, &lines, &kinds, &mut current, &mut blocks), None);
    assert!(blocks.is_empty());
    assert_eq!(handle_create_line(1, &lines, &kinds, &mut current, &mut blocks), Some(4));
    assert_eq!(names_of(&blocks), vec!["CREATE_A"]);
    assert_eq!(blocks[0].lines, lines_of(&["g", "c", "x"]));
    assert!(current.lines.is_empty());
    assert_eq!(current.name, "");
}

#[test]
fn handle_create_line_runs_to_the_end_of_the_input() {
    let lines = lines_of(&["c", "x", ""]);
    let kinds = vec![LineKind::Create("AB".to_string()), LineKind::Other, LineKind::Blank];
    let mut current = SqlBlock { name: String::new(), lines: Vec::new() };
    let mut blocks: Vec<SqlBlock> = Vec::new();
    assert_eq!(handle_create_line(0, &lines, &kinds, &mut current, &mut blocks), Some(3));
    assert_eq!(names_of(&blocks), vec!["CREATE_AB"]);
    assert_eq!(blocks[0].lines, lines_of(&["c", "x"]));
}

#[test]
fn alter_directly_behind_create_leaves_the_create_block_one_line() {
    let lines = lines_of(&["CREATE TABLE S.A_1 (ID NUMBER)", "ALTER TABLE S.T1_A ADD (X NUMBER)"]);
    let blocks = split_into_blocks(&lines).unwrap();
    assert_eq!(names_of(&blocks), vec!["CREATE_A", "ALTER_T1"]);
    assert_eq!(blocks[0].lines, lines_of(&["CREATE TABLE S.A_1 (ID NUMBER)"]));
    assert_eq!(blocks[1].lines, lines_of(&["ALTER TABLE S.T1_A ADD (X NUMBER)"]));
}

#[test]
fn grant_behind_alter_goes_to_the_create_that_follows() {
    let lines = lines_of(&[
        "ALTER TABLE S.T1_A ADD (X NUMBER)",
        "GRANT REFERENCES ON S.Q TO U",
        "CREATE TABLE S.B_1 (ID NUMBER)",
    ]);
    let blocks = split_into_blocks(&lines).unwrap();
    assert_eq!(names_of(&blocks), vec!["ALTER_T1", "CREATE_B"]);
    assert_eq!(blocks[0].lines, lines_of(&["ALTER TABLE S.T1_A ADD (X NUMBER)"]));
    assert_eq!(
        blocks[1].lines,
        lines_of(&["GRANT REFERENCES ON S.Q TO U", "CREATE TABLE S.B_1 (ID NUMBER)"])
    );
}

#[test]
fn only_the_grant_directly_in_front_is_taken() {
    let lines = lines_of(&[
        "GRANT REFERENCES ON S.P TO U",
        "GRANT REFERENCES ON S.Q TO U",
        "CREATE TABLE S.A_1 (ID NUMBER)",
        "GRANT REFERENCES ON S.R TO U",
        "GRANT REFERENCES ON S.S TO U",
        "CREATE TABLE S.B_1 (ID NUMBER)",
    ]);
    let blocks = split_into_blocks(&lines).unwrap();
    assert_eq!(names_of(&blocks), vec!["CREATE_A", "CREATE_B"]);
    assert_eq!(
        blocks[0].lines,
        lines_of(&[
            "GRANT REFERENCES ON S.Q TO U",
            "CREATE TABLE S.A_1 (ID NUMBER)",
            "GRANT REFERENCES ON S.R TO U",
        ])
    );
    assert_eq!(
        blocks[1].lines,
        lines_of(&["GRANT REFERENCES ON S.S TO U", "CREATE TABLE S.B_1 (ID NUMBER)"])
    );
}

#[test]
fn many_lines_are_split_in_one_pass() {
    let mut lines = Vec::new();
    for k in 0..300 {
        lines.push(format!("CREATE TABLE S.TAB{}_X (", k));
        lines.push("  ID NUMBER".to_string());
        lines.push(String::new());
        lines.push(")".to_string());
        lines.push(format!("ALTER TABLE S.T{}_X ADD (Y NUMBER)", k));
        lines.push("unmatched".to_string());
    }
    let blocks = split_into_blocks(&lines).unwrap();
    assert_eq!(blocks.len(), 600);
    assert_eq!(blocks[0].name, "CREATE_TAB0");
    assert_eq!(blocks[1].name, "ALTER_T0");
    assert_eq!(blocks[598].name, "CREATE_TAB299");
    assert_eq!(blocks[599].name, "ALTER_T299");
    assert!(blocks.iter().step_by(2).all(|b| b.lines.len() == 3));
    assert!(blocks.iter().skip(1).step_by(2).all(|b| b.lines.len() == 1));
}
