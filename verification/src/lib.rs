//! Splits a stream of SQL DDL lines into named statement blocks and rewrites
//! each block into the text of its numbered step file.
//!
//! - [`split_sql`] turns an ordered sequence of lines into blocks, one per
//!   `ALTER TABLE` line and one per `CREATE TABLE` line with the lines that
//!   follow it; [`split_laws`] holds what is proved of those blocks.
//! - [`block_writer`] turns each block into the text that is stored for it
//!   and numbers the stored blocks.
//! - [`deduplicate`], [`mod_writer`] and [`install_writer`] compute what is
//!   written before and after: the distinct lines, the name of the
//!   additional step, and the listing of the steps.
//! - [`text`] holds the operations on character sequences that the others
//!   are built from.
//! - [`pattern`] and [`std_text`] hold what is trusted and not proved: the
//!   regular-expression engine, and two operations of the standard library.
//!
//! Nothing here reads or writes a file: the functions take and give lines
//! and texts.

use crate::pattern::{compile, regex_compiles, regex_source};
use regex::Regex;
use vstd::prelude::*;

pub mod args;
pub mod block_writer;
pub mod deduplicate;
pub mod install_writer;
pub mod mod_writer;
pub mod pattern;
pub mod split_laws;
pub mod split_sql;
pub mod std_text;
pub mod text;

verus! {

/// Default glob pattern of the input files.
pub const DEFAULT_PATTERN: &'static str = "./input/diff_result_*";

/// Default output directory.
pub const DEFAULT_OUTPUT: &'static str = "./output";

/// Name of the file that holds all inputs, one after another.
pub const ALL_FILE_NAME: &'static str = "diff_result_ALL.txt";

/// Name of the file that holds each distinct input line once.
pub const DEDUP_FILE_NAME: &'static str = "diff_deduplicated.txt";

/// The ALTER rule. Group 1 is the table-number token.
pub const ALTER_PATTERN: &'static str = r"(?i)^ALTER\s+TABLE\s+[A-Za-z0-9_]+\.(T\d+)_[A-Za-z0-9_]+";

/// The CREATE rule. Group 1 is the schema, group 2 the table identifier.
pub const CREATE_PATTERN: &'static str = r"(?i)^CREATE\s+TABLE\s+([A-Za-z0-9_]+)\.([A-Za-z0-9_]+)";

/// The GRANT-REFERENCES rule.
pub const GRANT_REF_PATTERN: &'static str = r"(?i)^GRANT\s+REFERENCES\s+ON\s+[A-Za-z0-9_]+\.[A-Za-z0-9_]+";

/// Name prefix of a block opened by an `ALTER TABLE` line.
pub const ALTER_PREFIX: &'static str = "ALTER_";

/// Name prefix of a block opened by a `CREATE TABLE` line.
pub const CREATE_PREFIX: &'static str = "CREATE_";

/// The rule that finds the `CREATE TABLE` statements to rewrite.
pub const CREATE_TABLE_PATTERN: &'static str = r"(?i)^CREATE\s+TABLE";

/// The rule that finds the `CREATE INDEX` statements to rewrite.
pub const CREATE_INDEX_PATTERN: &'static str = r"(?i)^CREATE\s+INDEX";

/// A `CREATE TABLE` line that holds this text already has its storage
/// clauses.
pub const CREATE_TABLE_MARKER: &'static str = "TABLESPACE BO_D_RW_D_02";

/// A `CREATE INDEX` line that holds this text already has its storage
/// clauses.
pub const CREATE_INDEX_MARKER: &'static str = "TABLESPACE BO_I_RW_D_02";

/// The storage and partitioning clauses appended to a `CREATE TABLE` line.
pub const CREATE_TABLE_SUFFIX: &'static str = " TABLESPACE BO_D_RW_D_02\nPARTITION BY RANGE (TECH_DUE_DT) INTERVAL(NUMTODSINTERVAL(1, 'DAY'))\n(\n  PARTITION BEFORE2022 VALUES LESS THAN (TO_DATE('2022-01-01','YYYY-MM-DD')),\n  PARTITION BEFORE2023 VALUES LESS THAN (TO_DATE('2023-01-01','YYYY-MM-DD'))\n)\nCOMPRESS FOR QUERY HIGH ROW LEVEL LOCKING";

/// The storage clauses appended to a `CREATE INDEX` line.
pub const CREATE_INDEX_SUFFIX: &'static str = " TABLESPACE BO_I_RW_D_02\nNOCOMPRESS LOCAL";

/// The deprecated tablespace clause that is cut out of a `CREATE INDEX`
/// line.
pub const DELETE_INDEX_SUFFIX: &'static str = "TABLESPACE BO_I_RW_D_01";

/// What every stored line ends with.
pub const STATEMENT_DELIMITER: char = ';';

/// What the name of a step file starts with.
pub const STEP_FILE_PREFIX: &'static str = "STEP_";

/// What the name of a step file ends with.
pub const STEP_FILE_SUFFIX: &'static str = ".sql";

/// A rule whose pattern the expression engine did not accept.
#[derive(Debug, Clone, Copy, PartialEq, Eq, Structural)]
pub enum PatternError {
    /// The ALTER rule.
    Alter,
    /// The CREATE rule.
    Create,
    /// The GRANT-REFERENCES rule.
    GrantRef,
    /// The rule that finds `CREATE TABLE` statements to rewrite.
    CreateTable,
    /// The rule that finds `CREATE INDEX` statements to rewrite.
    CreateIndex,
}

impl PatternError {
    /// The pattern of the rule, as a character sequence.
    pub open spec fn pattern_spec(self) -> Seq<char> {
        match self {
            PatternError::Alter => ALTER_PATTERN@,
            PatternError::Create => CREATE_PATTERN@,
            PatternError::GrantRef => GRANT_REF_PATTERN@,
            PatternError::CreateTable => CREATE_TABLE_PATTERN@,
            PatternError::CreateIndex => CREATE_INDEX_PATTERN@,
        }
    }

    /// The pattern of the rule.
    pub fn pattern(&self) -> (pattern: &'static str)
        ensures
            pattern@ == self.pattern_spec(),
    {
        match self {
            PatternError::Alter => ALTER_PATTERN,
            PatternError::Create => CREATE_PATTERN,
            PatternError::GrantRef => GRANT_REF_PATTERN,
            PatternError::CreateTable => CREATE_TABLE_PATTERN,
            PatternError::CreateIndex => CREATE_INDEX_PATTERN,
        }
    }
}

/// Compiles the pattern of the given rule. Fails with that rule where the
/// expression engine does not accept the pattern.
pub fn compile_rule(pattern: &str, rule: PatternError) -> (r: Result<Regex, PatternError>)
    ensures
        r is Ok <==> regex_compiles(pattern@),
        r matches Ok(re) ==> regex_source(re) == pattern@,
        r matches Err(e) ==> e == rule,
{
    match compile(pattern) {
        Ok(re) => Ok(re),
        Err(_) => Err(rule),
    }
}

/// A named, ordered group of lines: one logical DDL unit.
#[derive(Debug)]
pub struct SqlBlock {
    pub name: String,
    pub lines: Vec<String>,
}

/// What a block is, mathematically: its name and its lines, as character
/// sequences.
pub struct BlockView {
    pub name: Seq<char>,
    pub lines: Seq<Seq<char>>,
}

impl DeepView for SqlBlock {
    type V = BlockView;

    open spec fn deep_view(&self) -> BlockView {
        BlockView { name: self.name@, lines: self.lines.deep_view() }
    }
}

} // verus!
