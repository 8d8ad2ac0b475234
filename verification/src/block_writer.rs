//! The rewriter: from a block to the text that is stored for it, and from
//! the blocks to their numbered step files.
//!
//! Each line loses its trailing white space. A `CREATE TABLE` line gets the
//! storage and partitioning clauses unless it carries their marker; a
//! `CREATE INDEX` line loses the deprecated tablespace clause and gets the
//! index storage clauses unless it carries their marker; every line ends
//! with one statement delimiter. Blocks without lines are not stored, and
//! the stored ones are numbered from 1 without gaps.

use crate::pattern::{is_match, regex_compiles, regex_matches, regex_source};
use crate::std_text::push_char;
use crate::text::{
    contains, contains_spec, ends_with, ends_with_spec, format_padded, lemma_replace_first,
    lemma_replace_nothing, occurs_at, replace_all, replace_spec, trim_end, trim_end_spec,
    zero_padded,
};
use crate::{
    compile_rule, BlockView, PatternError, SqlBlock, CREATE_INDEX_MARKER, CREATE_INDEX_PATTERN,
    CREATE_INDEX_SUFFIX, CREATE_TABLE_MARKER, CREATE_TABLE_PATTERN, CREATE_TABLE_SUFFIX,
    DELETE_INDEX_SUFFIX, STATEMENT_DELIMITER, STEP_FILE_PREFIX, STEP_FILE_SUFFIX,
};
use regex::Regex;
use vstd::prelude::*;

verus! {

/// The class of statement that a line starts, as far as rewriting goes.
#[derive(Debug, Clone, Copy, PartialEq, Eq, Structural)]
pub enum Statement {
    CreateTable,
    CreateIndex,
    Other,
}

/// `s`, with the statement delimiter appended unless it ends with one.
pub open spec fn with_delimiter(s: Seq<char>) -> Seq<char> {
    if ends_with_spec(s, STATEMENT_DELIMITER) {
        s
    } else {
        s.push(STATEMENT_DELIMITER)
    }
}

/// A `CREATE TABLE` line with its storage clauses.
pub open spec fn table_line(t: Seq<char>) -> Seq<char> {
    if contains_spec(t, CREATE_TABLE_MARKER@) {
        t
    } else {
        t + CREATE_TABLE_SUFFIX@
    }
}

/// A `CREATE INDEX` line without the deprecated clause and with its
/// storage clauses.
pub open spec fn index_line(t: Seq<char>) -> Seq<char> {
    let stripped = replace_spec(t, DELETE_INDEX_SUFFIX@, Seq::empty());
    if contains_spec(stripped, CREATE_INDEX_MARKER@) {
        stripped
    } else {
        stripped + CREATE_INDEX_SUFFIX@
    }
}

/// The stored form of a line of the given class that has no trailing
/// white space.
pub open spec fn rewritten(t: Seq<char>, statement: Statement) -> Seq<char> {
    with_delimiter(
        match statement {
            Statement::CreateTable => table_line(t),
            Statement::CreateIndex => index_line(t),
            Statement::Other => t,
        },
    )
}

/// The class of a line that has no trailing white space: the rule for
/// `CREATE TABLE` is tried first.
pub open spec fn statement_spec(t: Seq<char>) -> Statement {
    if regex_matches(CREATE_TABLE_PATTERN@, t) {
        Statement::CreateTable
    } else if regex_matches(CREATE_INDEX_PATTERN@, t) {
        Statement::CreateIndex
    } else {
        Statement::Other
    }
}

/// The stored form of a line.
pub open spec fn rewrite_line_spec(line: Seq<char>) -> Seq<char> {
    let t = trim_end_spec(line);
    rewritten(t, statement_spec(t))
}

/// The stored text of a block's lines: each line in its stored form,
/// followed by a line break.
pub open spec fn block_text_spec(lines: Seq<Seq<char>>) -> Seq<char>
    decreases lines.len(),
{
    if lines.len() == 0 {
        Seq::empty()
    } else {
        block_text_spec(lines.drop_last()) + rewrite_line_spec(lines.last()).push('\n')
    }
}

/// Rewrites a line of the given class that has no trailing white space.
pub fn rewrite_statement(trimmed: &str, statement: Statement) -> (out: String)
    ensures
        out@ == rewritten(trimmed@, statement),
{
    let mut out: String;
    match statement {
        Statement::CreateTable => {
            out = trimmed.to_owned();
            if !contains(trimmed, CREATE_TABLE_MARKER) {
                out.append(CREATE_TABLE_SUFFIX);
            }
        },
        Statement::CreateIndex => {
            proof {
                reveal_strlit("");
            }
            out = replace_all(trimmed, DELETE_INDEX_SUFFIX, "");
            assert(""@ =~= Seq::<char>::empty());
            if !contains(out.as_str(), CREATE_INDEX_MARKER) {
                out.append(CREATE_INDEX_SUFFIX);
            }
        },
        Statement::Other => {
            out = trimmed.to_owned();
        },
    }
    if !ends_with(out.as_str(), STATEMENT_DELIMITER) {
        push_char(&mut out, STATEMENT_DELIMITER);
    }
    out
}

/// The two rewriting rules, compiled.
pub struct Rewriter {
    create_table: Regex,
    create_index: Regex,
}

/// The first of the rewriter's rules that does not compile, if any.
pub open spec fn rewriter_fault() -> Option<PatternError> {
    if !regex_compiles(CREATE_TABLE_PATTERN@) {
        Some(PatternError::CreateTable)
    } else if !regex_compiles(CREATE_INDEX_PATTERN@) {
        Some(PatternError::CreateIndex)
    } else {
        None
    }
}

impl Rewriter {
    #[verifier::type_invariant]
    spec fn holds_the_rules(self) -> bool {
        &&& regex_source(self.create_table) == CREATE_TABLE_PATTERN@
        &&& regex_source(self.create_index) == CREATE_INDEX_PATTERN@
    }

    /// Compiles the two rules. Fails with the first rule that the
    /// expression engine does not accept.
    pub fn new() -> (r: Result<Rewriter, PatternError>)
        ensures
            r is Ok <==> rewriter_fault() is None,
            r matches Err(e) ==> rewriter_fault() == Some(e),
    {
        let create_table = compile_rule(CREATE_TABLE_PATTERN, PatternError::CreateTable)?;
        let create_index = compile_rule(CREATE_INDEX_PATTERN, PatternError::CreateIndex)?;
        Ok(Rewriter { create_table, create_index })
    }

    /// The class of a line that has no trailing white space.
    pub fn statement(&self, trimmed: &str) -> (statement: Statement)
        ensures
            statement == statement_spec(trimmed@),
    {
        proof {
            use_type_invariant(self);
        }
        if is_match(&self.create_table, trimmed) {
            Statement::CreateTable
        } else if is_match(&self.create_index, trimmed) {
            Statement::CreateIndex
        } else {
            Statement::Other
        }
    }

    /// The stored form of a line.
    pub fn rewrite_line(&self, line: &str) -> (out: String)
        ensures
            out@ == rewrite_line_spec(line@),
    {
        let trimmed = trim_end(line);
        let statement = self.statement(trimmed);
        rewrite_statement(trimmed, statement)
    }

    /// The stored text of a block: each of its lines in its stored form,
    /// followed by a line break.
    pub fn rewrite_block(&self, block: &SqlBlock) -> (text: String)
        ensures
            text@ == block_text_spec(block.deep_view().lines),
    {
        let ghost lines = block.lines.deep_view();
        let mut text = String::new();
        let mut i: usize = 0;
        while i < block.lines.len()
            invariant
                i <= block.lines.len(),
                lines == block.lines.deep_view(),
                text@ == block_text_spec(lines.take(i as int)),
            decreases block.lines.len() - i,
        {
            let out_line = self.rewrite_line(block.lines[i].as_str());
            text.append(out_line.as_str());
            push_char(&mut text, '\n');
            assert(lines.take(i + 1).drop_last() =~= lines.take(i as int));
            i += 1;
        }
        assert(lines.take(i as int) =~= lines);
        text
    }
}

/// A file to store: the step number, the file's name and its content.
#[derive(Debug)]
pub struct StepFile {
    pub step: usize,
    pub file_name: String,
    pub content: String,
}

/// What a `StepFile` is, mathematically.
pub struct StepFileView {
    pub step: nat,
    pub file_name: Seq<char>,
    pub content: Seq<char>,
}

impl DeepView for StepFile {
    type V = StepFileView;

    open spec fn deep_view(&self) -> StepFileView {
        StepFileView { step: self.step as nat, file_name: self.file_name@, content: self.content@ }
    }
}

/// The name of the file for a step: the step number in at least three
/// digits, then the block's name.
pub open spec fn step_file_name_spec(step: nat, block_name: Seq<char>) -> Seq<char> {
    STEP_FILE_PREFIX@ + zero_padded(step, 3) + seq!['_'] + block_name + STEP_FILE_SUFFIX@
}

/// The blocks that are stored: those with lines, in their order.
pub open spec fn stored(blocks: Seq<BlockView>) -> Seq<BlockView>
    decreases blocks.len(),
{
    if blocks.len() == 0 {
        Seq::empty()
    } else if blocks.last().lines.len() > 0 {
        stored(blocks.drop_last()).push(blocks.last())
    } else {
        stored(blocks.drop_last())
    }
}

/// The file for a block under a step number.
pub open spec fn step_file_spec(step: nat, block: BlockView) -> StepFileView {
    StepFileView {
        step,
        file_name: step_file_name_spec(step, block.name),
        content: block_text_spec(block.lines),
    }
}

/// The files for the blocks: one for each stored block, in order, numbered
/// from 1.
pub open spec fn step_files_spec(blocks: Seq<BlockView>) -> Seq<StepFileView> {
    Seq::new(stored(blocks).len(), |k: int| step_file_spec((k + 1) as nat, stored(blocks)[k]))
}

/// The step numbers of the files are 1, 2, and so on up to the number of
/// blocks that have lines: none is left out and none is used twice. The
/// file with the number `k + 1` is that of the block with lines that has
/// `k` such blocks in front of it.
pub proof fn lemma_steps_have_no_gaps(blocks: Seq<BlockView>)
    ensures
        step_files_spec(blocks).len() == stored(blocks).len(),
        forall|k: int|
            0 <= k < step_files_spec(blocks).len() ==> {
                &&& (#[trigger] step_files_spec(blocks)[k]).step == k + 1
                &&& step_files_spec(blocks)[k] == step_file_spec((k + 1) as nat, stored(blocks)[k])
            },
{
}

/// The blocks that are stored are the blocks with lines: each stored block
/// has lines, each block with lines is stored, and where every block has
/// lines, all are stored.
pub proof fn lemma_stored(blocks: Seq<BlockView>)
    ensures
        stored(blocks).len() <= blocks.len(),
        forall|k: int| 0 <= k < stored(blocks).len() ==> (#[trigger] stored(blocks)[k]).lines.len() > 0,
        forall|i: int|
            0 <= i < blocks.len() && (#[trigger] blocks[i]).lines.len() > 0 ==> stored(blocks).contains(
                blocks[i],
            ),
        (forall|k: int| 0 <= k < blocks.len() ==> (#[trigger] blocks[k]).lines.len() > 0) ==> stored(
            blocks,
        ) == blocks,
    decreases blocks.len(),
{
    if blocks.len() > 0 {
        lemma_stored(blocks.drop_last());
        let front = blocks.drop_last();
        assert forall|i: int| 0 <= i < blocks.len() && (#[trigger] blocks[i]).lines.len()
            > 0 implies stored(blocks).contains(blocks[i]) by {
            if i < front.len() {
                assert(front[i] == blocks[i]);
                let k = choose|k: int| 0 <= k < stored(front).len() && stored(front)[k] == blocks[i];
                assert(stored(blocks)[k] == blocks[i]);
            } else {
                assert(stored(blocks)[stored(blocks).len() - 1] == blocks[i]);
            }
        }
        if forall|k: int| 0 <= k < blocks.len() ==> (#[trigger] blocks[k]).lines.len() > 0 {
            assert forall|k: int| 0 <= k < blocks.drop_last().len() implies (
            #[trigger] blocks.drop_last()[k]).lines.len() > 0 by {
                assert(blocks.drop_last()[k] == blocks[k]);
            }
            assert(blocks.drop_last().push(blocks.last()) =~= blocks);
        }
    }
}

/// The name of the file for a step.
pub fn step_file_name(step: usize, block_name: &str) -> (name: String)
    ensures
        name@ == step_file_name_spec(step as nat, block_name@),
{
    let mut name = STEP_FILE_PREFIX.to_owned();
    let number = format_padded(step, 3);
    name.append(number.as_str());
    push_char(&mut name, '_');
    name.append(block_name);
    name.append(STEP_FILE_SUFFIX);
    name
}

impl Rewriter {
    /// The files to store for the blocks: one for each block that has
    /// lines, in order, with the step numbers 1, 2, and so on.
    pub fn step_files(&self, blocks: &Vec<SqlBlock>) -> (files: Vec<StepFile>)
        ensures
            files.deep_view() == step_files_spec(blocks.deep_view()),
            files.len() == stored(blocks.deep_view()).len(),
            forall|k: int| 0 <= k < files.len() ==> (#[trigger] files[k]).step == k + 1,
    {
        let ghost all = blocks.deep_view();
        let mut files: Vec<StepFile> = Vec::new();
        let mut i: usize = 0;
        while i < blocks.len()
            invariant
                i <= blocks.len(),
                all == blocks.deep_view(),
                files.len() <= i,
                files.deep_view() == step_files_spec(all.take(i as int)),
            decreases blocks.len() - i,
        {
            let block = &blocks[i];
            let ghost before = files.deep_view();
            assert(all.take(i + 1).drop_last() =~= all.take(i as int));
            if block.lines.len() > 0 {
                let step: usize = files.len() + 1;
                let file = StepFile {
                    step,
                    file_name: step_file_name(step, block.name.as_str()),
                    content: self.rewrite_block(block),
                };
                files.push(file);
                assert(files.deep_view() =~= before.push(file.deep_view()));
            }
            i += 1;
        }
        assert(all.take(i as int) =~= all);
        assert forall|k: int| 0 <= k < files.len() implies (#[trigger] files[k]).step == k + 1 by {
            assert(files.deep_view()[k].step == k + 1);
        }
        files
    }
}

/// The files to store for the blocks. Fails, before any block is looked
/// at, where a rewriting rule does not compile.
pub fn blocks_to_files(blocks: &Vec<SqlBlock>) -> (r: Result<Vec<StepFile>, PatternError>)
    ensures
        r is Ok <==> rewriter_fault() is None,
        r matches Ok(files) ==> {
            &&& files.deep_view() == step_files_spec(blocks.deep_view())
            &&& files.len() == stored(blocks.deep_view()).len()
            &&& forall|k: int| 0 <= k < files.len() ==> (#[trigger] files[k]).step == k + 1
        },
        r matches Err(e) ==> rewriter_fault() == Some(e),
{
    match Rewriter::new() {
        Ok(rewriter) => Ok(rewriter.step_files(blocks)),
        Err(e) => Err(e),
    }
}

/// What the laws below need of the text of the constants: the marker
/// stands in the table suffix right behind its first character, a space;
/// the marker holds one space, in front of a `B`; the suffix ends with a
/// `G`.
proof fn lemma_table_suffix_shape()
    ensures
        CREATE_TABLE_MARKER@.len() == 23,
        CREATE_TABLE_SUFFIX@.len() == 294,
        CREATE_TABLE_SUFFIX@.subrange(1, 24) == CREATE_TABLE_MARKER@,
        CREATE_TABLE_SUFFIX@[0] == ' ',
        CREATE_TABLE_SUFFIX@[1] == 'T',
        CREATE_TABLE_SUFFIX@[293] == 'G',
        CREATE_TABLE_MARKER@[11] == 'B',
        forall|d: int| 0 <= d < 23 && CREATE_TABLE_MARKER@[d] == ' ' ==> d == 10,
{
    reveal_strlit("TABLESPACE BO_D_RW_D_02");
    reveal_strlit(
        " TABLESPACE BO_D_RW_D_02\nPARTITION BY RANGE (TECH_DUE_DT) INTERVAL(NUMTODSINTERVAL(1, 'DAY'))\n(\n  PARTITION BEFORE2022 VALUES LESS THAN (TO_DATE('2022-01-01','YYYY-MM-DD')),\n  PARTITION BEFORE2023 VALUES LESS THAN (TO_DATE('2023-01-01','YYYY-MM-DD'))\n)\nCOMPRESS FOR QUERY HIGH ROW LEVEL LOCKING",
    );
    assert(CREATE_TABLE_SUFFIX@.subrange(1, 24) =~= CREATE_TABLE_MARKER@);
}

/// Every stored line ends with the statement delimiter, and a line that
/// ends with one is given no second.
pub proof fn lemma_ends_with_delimiter(t: Seq<char>, statement: Statement)
    ensures
        ends_with_spec(rewritten(t, statement), STATEMENT_DELIMITER),
        with_delimiter(rewritten(t, statement)) == rewritten(t, statement),
        ends_with_spec(t, STATEMENT_DELIMITER) ==> rewritten(t, Statement::Other) == t,
{
}

/// Where a text `m` stands in `sfx` right behind its first character, a
/// character that `m` holds only once and not in front of what `sfx` goes
/// on with, and `t` does not hold `m`, there `sfx` stands in `t`, `sfx` and
/// one more character, which is not the last of `sfx`, at one position
/// only: behind `t`.
proof fn lemma_stands_once(t: Seq<char>, m: Seq<char>, sfx: Seq<char>, end: char, at: int)
    requires
        !contains_spec(t, m),
        0 < at < m.len() - 1,
        m.len() + 1 < sfx.len(),
        sfx.subrange(1, 1 + m.len() as int) == m,
        forall|d: int| 0 <= d < m.len() && m[d] == sfx[0] ==> d == at,
        m[at + 1] != sfx[1],
        sfx.last() != end,
    ensures
        forall|k: int| occurs_at((t + sfx).push(end), sfx, k) <==> k == t.len(),
{
    let out = (t + sfx).push(end);
    let n = t.len() as int;
    let w = sfx.len() as int;
    let mw = m.len() as int;
    assert(out.subrange(n, n + w) =~= sfx);
    assert forall|k: int| occurs_at(out, sfx, k) implies k == n by {
        let found = out.subrange(k, k + w);
        if k > n {
            assert(found[w - 1] == out[k + w - 1]);
        } else if k < n {
            if k + 1 + mw <= n {
                lemma_stands_inside(t, m, sfx, end, k);
            } else {
                let d = n - (k + 1);
                assert(found[1 + d] == out[n]);
                assert(sfx.subrange(1, 1 + mw)[d] == sfx[1 + d]);
                assert(d == at);
                assert(found[2 + d] == out[n + 1]);
                assert(sfx.subrange(1, 1 + mw)[d + 1] == sfx[2 + d]);
            }
        }
    }
}

/// Where `sfx` stands in `t`, `sfx` and one more character so far in
/// front that the part of it behind its first character lies within `t`,
/// that part stands in `t`.
proof fn lemma_stands_inside(t: Seq<char>, m: Seq<char>, sfx: Seq<char>, end: char, k: int)
    requires
        m.len() + 1 < sfx.len(),
        sfx.subrange(1, 1 + m.len() as int) == m,
        occurs_at((t + sfx).push(end), sfx, k),
        k + 1 + m.len() <= t.len(),
    ensures
        occurs_at(t, m, k + 1),
{
    let out = (t + sfx).push(end);
    let mw = m.len() as int;
    let found = out.subrange(k, k + sfx.len());
    assert forall|j: int| 0 <= j < mw implies t.subrange(k + 1, k + 1 + mw)[j] == m[j] by {
        assert(found[1 + j] == out[k + 1 + j]);
        assert(sfx.subrange(1, 1 + mw)[j] == sfx[1 + j]);
    }
    assert(t.subrange(k + 1, k + 1 + mw) =~= m);
}

/// A `CREATE TABLE` line that does not carry the marker is stored as the
/// line, the table suffix and one delimiter. The suffix stands in it at
/// one position only, and it ends with one delimiter, not two, whatever
/// the line ended with.
pub proof fn lemma_table_suffix_once(t: Seq<char>)
    requires
        !contains_spec(t, CREATE_TABLE_MARKER@),
    ensures
        rewritten(t, Statement::CreateTable) == (t + CREATE_TABLE_SUFFIX@).push(STATEMENT_DELIMITER),
        forall|k: int|
            occurs_at(rewritten(t, Statement::CreateTable), CREATE_TABLE_SUFFIX@, k) <==> k
                == t.len(),
        ends_with_spec(rewritten(t, Statement::CreateTable), STATEMENT_DELIMITER),
        rewritten(t, Statement::CreateTable)[rewritten(t, Statement::CreateTable).len() - 2]
            != STATEMENT_DELIMITER,
{
    lemma_table_suffix_shape();
    let sfx = CREATE_TABLE_SUFFIX@;
    assert((t + sfx).last() == sfx[293]);
    lemma_stands_once(t, CREATE_TABLE_MARKER@, sfx, STATEMENT_DELIMITER, 10);
}

/// Rewriting the stored form of a `CREATE TABLE` line as a `CREATE TABLE`
/// line changes nothing: it carries the marker, so the suffix is not
/// appended a second time.
pub proof fn lemma_table_rewrite_is_stable(t: Seq<char>)
    ensures
        contains_spec(rewritten(t, Statement::CreateTable), CREATE_TABLE_MARKER@),
        rewritten(rewritten(t, Statement::CreateTable), Statement::CreateTable) == rewritten(
            t,
            Statement::CreateTable,
        ),
{
    lemma_table_suffix_shape();
    let m = CREATE_TABLE_MARKER@;
    let sfx = CREATE_TABLE_SUFFIX@;
    let with_clauses = table_line(t);
    let out = rewritten(t, Statement::CreateTable);
    let n = t.len() as int;
    if !contains_spec(t, m) {
        assert(with_clauses.subrange(n + 1, n + 24) =~= sfx.subrange(1, 24));
        assert(occurs_at(with_clauses, m, n + 1));
    }
    let k = choose|k: int| occurs_at(with_clauses, m, k);
    assert(out.subrange(k, k + 23) =~= with_clauses.subrange(k, k + 23));
    assert(occurs_at(out, m, k));
}

/// What the law below needs of the text of the constants for `CREATE
/// INDEX` lines.
proof fn lemma_index_suffix_shape()
    ensures
        CREATE_INDEX_MARKER@.len() == 23,
        DELETE_INDEX_SUFFIX@.len() == 23,
        CREATE_INDEX_SUFFIX@.len() == 41,
        CREATE_INDEX_SUFFIX@.subrange(1, 24) == CREATE_INDEX_MARKER@,
        CREATE_INDEX_SUFFIX@[0] == ' ',
        CREATE_INDEX_SUFFIX@[1] == 'T',
        CREATE_INDEX_SUFFIX@[23] == '2',
        CREATE_INDEX_SUFFIX@[40] == 'L',
        CREATE_INDEX_MARKER@[11] == 'B',
        DELETE_INDEX_SUFFIX@[0] == 'T',
        DELETE_INDEX_SUFFIX@[11] == 'B',
        DELETE_INDEX_SUFFIX@[22] == '1',
        forall|d: int| 0 <= d < 23 && CREATE_INDEX_MARKER@[d] == ' ' ==> d == 10,
        forall|d: int| 0 <= d < 23 && DELETE_INDEX_SUFFIX@[d] == ' ' ==> d == 10,
        forall|e: int| 0 <= e < 41 && CREATE_INDEX_SUFFIX@[e] == 'T' ==> e == 1,
{
    reveal_strlit("TABLESPACE BO_I_RW_D_01");
    reveal_strlit("TABLESPACE BO_I_RW_D_02");
    reveal_strlit(" TABLESPACE BO_I_RW_D_02\nNOCOMPRESS LOCAL");
    assert(CREATE_INDEX_SUFFIX@.subrange(1, 24) =~= CREATE_INDEX_MARKER@);
}

/// Where `t` does not hold `d`, and `d` can neither begin in `t` and end
/// in `sfx` nor stand in `sfx`, there `t`, `sfx` and one more character do
/// not hold `d`.
proof fn lemma_stands_nowhere(
    t: Seq<char>,
    d: Seq<char>,
    sfx: Seq<char>,
    end: char,
    at: int,
    hit: int,
    miss: int,
)
    requires
        !contains_spec(t, d),
        0 < at < d.len() - 1,
        forall|j: int| 0 <= j < d.len() && d[j] == sfx[0] ==> j == at,
        sfx.len() >= 2,
        d[at + 1] != sfx[1],
        forall|e: int| 0 <= e < sfx.len() && sfx[e] == d[0] ==> e == hit,
        0 <= miss < d.len(),
        0 <= hit,
        hit + miss < sfx.len(),
        d[miss] != sfx[hit + miss],
    ensures
        !contains_spec((t + sfx).push(end), d),
{
    let out = (t + sfx).push(end);
    let n = t.len() as int;
    let w = d.len() as int;
    assert forall|k: int| !occurs_at(out, d, k) by {
        if occurs_at(out, d, k) {
            let found = out.subrange(k, k + w);
            if k + w <= n {
                assert(t.subrange(k, k + w) =~= found);
                assert(occurs_at(t, d, k));
            } else if k < n {
                let j = n - k;
                assert(found[j] == out[n]);
                assert(j == at);
                assert(found[j + 1] == out[n + 1]);
            } else {
                let e = k - n;
                assert(found[0] == out[k]);
                assert(e == hit);
                assert(found[miss] == out[k + miss]);
            }
        }
    }
}

/// A `CREATE INDEX` line that holds the deprecated clause once, behind
/// `front` and in front of `back`, and that without the clause holds
/// neither it nor the marker, is stored as `front`, `back`, the index suffix
/// and one delimiter. The stored form does not hold the deprecated clause,
/// and the suffix stands in it at one position only.
pub proof fn lemma_index_clause_replaced(front: Seq<char>, back: Seq<char>)
    requires
        forall|k: int|
            0 <= k < front.len() ==> !occurs_at(
                front + DELETE_INDEX_SUFFIX@ + back,
                DELETE_INDEX_SUFFIX@,
                k,
            ),
        !contains_spec(back, DELETE_INDEX_SUFFIX@),
        !contains_spec(front + back, DELETE_INDEX_SUFFIX@),
        !contains_spec(front + back, CREATE_INDEX_MARKER@),
    ensures
        rewritten(front + DELETE_INDEX_SUFFIX@ + back, Statement::CreateIndex) == (front + back
            + CREATE_INDEX_SUFFIX@).push(STATEMENT_DELIMITER),
        !contains_spec(
            rewritten(front + DELETE_INDEX_SUFFIX@ + back, Statement::CreateIndex),
            DELETE_INDEX_SUFFIX@,
        ),
        forall|k: int|
            occurs_at(
                rewritten(front + DELETE_INDEX_SUFFIX@ + back, Statement::CreateIndex),
                CREATE_INDEX_SUFFIX@,
                k,
            ) <==> k == front.len() + back.len(),
{
    lemma_index_suffix_shape();
    let clause = DELETE_INDEX_SUFFIX@;
    let sfx = CREATE_INDEX_SUFFIX@;
    let nothing = Seq::<char>::empty();
    lemma_replace_first(front, clause, back, nothing);
    lemma_replace_nothing(back, clause, nothing);
    assert(front + nothing + back =~= front + back);
    assert((front + back + sfx).last() == sfx[40]);
    lemma_stands_once(front + back, CREATE_INDEX_MARKER@, sfx, STATEMENT_DELIMITER, 10);
    lemma_stands_nowhere(front + back, clause, sfx, STATEMENT_DELIMITER, 10, 1, 22);
}

} // verus!
