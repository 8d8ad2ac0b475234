//! The segmenter: from an ordered sequence of lines to an ordered sequence
//! of named blocks.
//!
//! Every line falls under exactly one rule. A line under the ALTER rule or
//! the CREATE rule is a boundary: it opens a block. An ALTER block is the
//! boundary line alone. A CREATE block is the boundary line, before it the
//! line directly in front where that is a GRANT REFERENCES line, and behind
//! it every line up to the next boundary that is neither blank nor taken
//! by the CREATE line that follows it.
//!
//! What follows from these definitions is proved in [`crate::split_laws`].

use crate::pattern::{
    capture_group, is_match, regex_compiles, regex_group, regex_matches, regex_source,
};
use crate::split_laws::{
    all_lines, is_subsequence, lemma_blocks_are_subsequence, lemma_no_block_is_empty,
    lemma_region_end, lemma_spans_skip,
};
use crate::text::{chars_of, find_char, lemma_len_before, len_before, trim, trim_spec};
use crate::{
    compile_rule, BlockView, PatternError, SqlBlock, ALTER_PATTERN, ALTER_PREFIX, CREATE_PATTERN,
    CREATE_PREFIX, GRANT_REF_PATTERN,
};
use regex::Regex;
use vstd::prelude::*;

verus! {

/// The rule a line falls under, with the text the rule captured.
#[derive(Debug)]
pub enum LineKind {
    /// An `ALTER TABLE` line, with its table-number token.
    Alter(String),
    /// A `CREATE TABLE` line, with its table identifier.
    Create(String),
    /// A `GRANT REFERENCES` line.
    Grant,
    /// A line of white space only.
    Blank,
    /// Any other line.
    Other,
}

/// What a `LineKind` is, mathematically.
pub enum Kind {
    Alter(Seq<char>),
    Create(Seq<char>),
    Grant,
    Blank,
    Other,
}

impl DeepView for LineKind {
    type V = Kind;

    open spec fn deep_view(&self) -> Kind {
        match self {
            LineKind::Alter(token) => Kind::Alter(token@),
            LineKind::Create(table) => Kind::Create(table@),
            LineKind::Grant => Kind::Grant,
            LineKind::Blank => Kind::Blank,
            LineKind::Other => Kind::Other,
        }
    }
}

/// The rule a line falls under. The rules are tried on the trimmed line in
/// the order ALTER, CREATE, GRANT REFERENCES, blank; the first that applies
/// wins.
pub open spec fn classify_spec(line: Seq<char>) -> Kind {
    let t = trim_spec(line);
    if regex_group(ALTER_PATTERN@, t, 1) is Some {
        Kind::Alter(regex_group(ALTER_PATTERN@, t, 1)->0)
    } else if regex_group(CREATE_PATTERN@, t, 2) is Some {
        Kind::Create(regex_group(CREATE_PATTERN@, t, 2)->0)
    } else if regex_matches(GRANT_REF_PATTERN@, t) {
        Kind::Grant
    } else if t.len() == 0 {
        Kind::Blank
    } else {
        Kind::Other
    }
}

/// A table identifier cut off at its first underscore.
pub open spec fn short_name_spec(full: Seq<char>) -> Seq<char> {
    full.take(len_before(full, '_') as int)
}

/// Whether a line of this kind opens a block.
pub open spec fn is_boundary(k: Kind) -> bool {
    k is Alter || k is Create
}

/// The position of the first boundary at or behind `from`, or the number of
/// lines where there is none.
pub open spec fn region_end(kinds: Seq<Kind>, from: int) -> int
    decreases kinds.len() - from,
{
    if from < 0 || from >= kinds.len() {
        kinds.len() as int
    } else if is_boundary(kinds[from]) {
        from
    } else {
        region_end(kinds, from + 1)
    }
}

/// Whether line `j` is a GRANT REFERENCES line directly in front of a
/// CREATE line, which then takes it.
pub open spec fn reclaimed(kinds: Seq<Kind>, j: int) -> bool {
    &&& 0 <= j
    &&& j + 1 < kinds.len()
    &&& kinds[j] is Grant
    &&& kinds[j + 1] is Create
}

/// Whether a line behind a CREATE line stays in that block.
pub open spec fn kept(kinds: Seq<Kind>, j: int) -> bool {
    &&& 0 <= j < kinds.len()
    &&& !(kinds[j] is Blank)
    &&& !reclaimed(kinds, j)
}

/// The positions in `from..to` that are kept, in increasing order.
pub open spec fn body(kinds: Seq<Kind>, from: int, to: int) -> Seq<int>
    decreases to - from,
{
    if to <= from {
        Seq::empty()
    } else if kept(kinds, to - 1) {
        body(kinds, from, to - 1).push(to - 1)
    } else {
        body(kinds, from, to - 1)
    }
}

/// The positions a CREATE block at `i` starts with: the GRANT REFERENCES
/// line directly in front, where there is one, then the CREATE line.
pub open spec fn head(kinds: Seq<Kind>, i: int) -> Seq<int> {
    if i > 0 && kinds[i - 1] is Grant {
        seq![i - 1, i]
    } else {
        seq![i]
    }
}

/// A block by its name and the positions of its lines in the input.
pub struct Span {
    pub name: Seq<char>,
    pub picks: Seq<int>,
}

/// The block that the boundary at `i` opens.
pub open spec fn span_at(kinds: Seq<Kind>, i: int) -> Span {
    match kinds[i] {
        Kind::Alter(token) => Span { name: ALTER_PREFIX@ + token, picks: seq![i] },
        Kind::Create(table) => Span {
            name: CREATE_PREFIX@ + short_name_spec(table),
            picks: head(kinds, i) + body(kinds, i + 1, region_end(kinds, i + 1)),
        },
        _ => Span { name: Seq::empty(), picks: Seq::empty() },
    }
}

/// The blocks opened by the boundaries among the first `upto` lines, in
/// the order of the boundaries.
pub open spec fn spans(kinds: Seq<Kind>, upto: int) -> Seq<Span>
    decreases upto,
{
    if upto <= 0 {
        Seq::empty()
    } else if is_boundary(kinds[upto - 1]) {
        spans(kinds, upto - 1).push(span_at(kinds, upto - 1))
    } else {
        spans(kinds, upto - 1)
    }
}

/// The block that a span stands for: its name, and the lines at its
/// positions.
pub open spec fn block_of(lines: Seq<Seq<char>>, span: Span) -> BlockView {
    BlockView { name: span.name, lines: span.picks.map_values(|j: int| lines[j]) }
}

/// The blocks of a sequence of lines whose kinds are given: one per
/// boundary, in input order.
pub open spec fn segment_spec(lines: Seq<Seq<char>>, kinds: Seq<Kind>) -> Seq<BlockView> {
    spans(kinds, kinds.len() as int).map_values(|sp: Span| block_of(lines, sp))
}

/// The blocks of a sequence of lines, each line classified by the rules.
pub open spec fn blocks_spec(lines: Seq<Seq<char>>) -> Seq<BlockView> {
    segment_spec(lines, lines.map_values(|line: Seq<char>| classify_spec(line)))
}

/// The finished blocks once the open block `current` has been closed: it
/// joins them unless it has no lines.
pub open spec fn flushed(blocks: Seq<BlockView>, current: BlockView) -> Seq<BlockView> {
    if current.lines.len() > 0 {
        blocks.push(current)
    } else {
        blocks
    }
}

/// The open block once it has been closed: empty where it had lines,
/// untouched where it had none.
pub open spec fn cleared(current: BlockView) -> BlockView {
    if current.lines.len() > 0 {
        BlockView { name: Seq::empty(), lines: Seq::empty() }
    } else {
        current
    }
}

/// Extracts the part of a table identifier before its first underscore, or
/// all of it where it has none.
pub fn short_table_name(full: &str) -> (short: String)
    ensures
        short@ == short_name_spec(full@),
        short@.len() <= full@.len(),
        short@ == full@.take(short@.len() as int),
        !short@.contains('_'),
        short@.len() < full@.len() ==> full@[short@.len() as int] == '_',
{
    let v = chars_of(full);
    let k = find_char(&v, '_');
    proof {
        lemma_len_before(full@, '_');
    }
    let short = full.substring_char(0, k).to_owned();
    short
}

/// Closes the open block: where it has lines it is moved behind the
/// finished blocks and the open block starts anew, empty; where it has
/// none, nothing changes.
pub fn finalize_block(current_block: &mut SqlBlock, blocks: &mut Vec<SqlBlock>)
    ensures
        final(blocks).deep_view() == flushed(old(blocks).deep_view(), old(current_block).deep_view()),
        final(current_block).deep_view() == cleared(old(current_block).deep_view()),
{
    if current_block.lines.len() > 0 {
        let mut done = SqlBlock { name: String::new(), lines: Vec::new() };
        core::mem::swap(current_block, &mut done);
        blocks.push(done);
        assert(current_block.lines.deep_view() =~= Seq::<Seq<char>>::empty());
    }
}

/// Handles the line at `i` where it is an `ALTER TABLE` line: the open block
/// is closed, and a block of this one line joins the finished blocks. Gives
/// the position to go on from, or `None` where the line is of another kind.
pub fn handle_alter_line(
    i: usize,
    lines: &Vec<String>,
    kinds: &Vec<LineKind>,
    current_block: &mut SqlBlock,
    blocks: &mut Vec<SqlBlock>,
) -> (next: Option<usize>)
    requires
        i < lines.len(),
        lines.len() == kinds.len(),
    ensures
        kinds.deep_view()[i as int] is Alter ==> {
            &&& next == Some((i + 1) as usize)
            &&& final(blocks).deep_view() == flushed(
                old(blocks).deep_view(),
                old(current_block).deep_view(),
            ).push(block_of(lines.deep_view(), span_at(kinds.deep_view(), i as int)))
            &&& final(current_block).deep_view() == cleared(old(current_block).deep_view())
        },
        !(kinds.deep_view()[i as int] is Alter) ==> {
            &&& next is None
            &&& *final(blocks) == *old(blocks)
            &&& *final(current_block) == *old(current_block)
        },
{
    match &kinds[i] {
        LineKind::Alter(token) => {
            finalize_block(current_block, blocks);
            let mut name = ALTER_PREFIX.to_owned();
            name.append(token.as_str());
            let mut only: Vec<String> = Vec::new();
            push_line(&mut only, &lines[i]);
            let single_block = SqlBlock { name, lines: only };
            proof {
                let want = block_of(lines.deep_view(), span_at(kinds.deep_view(), i as int));
                assert(single_block.deep_view().lines =~= want.lines);
            }
            blocks.push(single_block);
            Some(i + 1)
        },
        _ => None,
    }
}

/// Handles the line at `i` where it is a `CREATE TABLE` line: the open
/// block is closed; a new block takes the GRANT REFERENCES line directly in
/// front, where there is one, then the CREATE line, then every line up to
/// the next boundary that is neither blank nor taken by the CREATE line
/// behind it; and that block joins the finished blocks. Gives the position
/// of the next boundary, or the number of lines where there is none; `None`
/// where the line is of another kind.
pub fn handle_create_line(
    i: usize,
    lines: &Vec<String>,
    kinds: &Vec<LineKind>,
    current_block: &mut SqlBlock,
    blocks: &mut Vec<SqlBlock>,
) -> (next: Option<usize>)
    requires
        i < lines.len(),
        lines.len() == kinds.len(),
    ensures
        kinds.deep_view()[i as int] is Create ==> {
            &&& next == Some(region_end(kinds.deep_view(), i + 1) as usize)
            &&& final(blocks).deep_view() == flushed(
                old(blocks).deep_view(),
                old(current_block).deep_view(),
            ).push(block_of(lines.deep_view(), span_at(kinds.deep_view(), i as int)))
            &&& final(current_block).deep_view() == BlockView {
                name: Seq::empty(),
                lines: Seq::empty(),
            }
        },
        !(kinds.deep_view()[i as int] is Create) ==> {
            &&& next is None
            &&& *final(blocks) == *old(blocks)
            &&& *final(current_block) == *old(current_block)
        },
{
    let ghost ks = kinds.deep_view();
    let ghost ls = lines.deep_view();
    let ghost pick = |j: int| ls[j];
    match &kinds[i] {
        LineKind::Create(table) => {
            finalize_block(current_block, blocks);
            let mut taken: Vec<String> = Vec::new();
            if i > 0 && is_grant(&kinds[i - 1]) {
                push_line(&mut taken, &lines[i - 1]);
            }
            push_line(&mut taken, &lines[i]);

            let short_name = short_table_name(table.as_str());
            let mut name = CREATE_PREFIX.to_owned();
            name.append(short_name.as_str());

            let n = lines.len();
            let mut j: usize = i + 1;
            while j < n && !opens_block(&kinds[j])
                invariant
                    i < j <= n,
                    n == lines.len(),
                    n == kinds.len(),
                    ks == kinds.deep_view(),
                    ls == lines.deep_view(),
                    pick == |j: int| ls[j],
                    region_end(ks, j as int) == region_end(ks, i + 1),
                    taken.deep_view() == (head(ks, i as int) + body(ks, i + 1, j as int)).map_values(pick),
                decreases n - j,
            {
                let taken_by_next = is_grant(&kinds[j]) && j + 1 < n && is_create(&kinds[j + 1]);
                let stays = !is_blank(&kinds[j]) && !taken_by_next;
                assert(stays == kept(ks, j as int));
                if stays {
                    push_line(&mut taken, &lines[j]);
                }
                j += 1;
            }
            current_block.name = name;
            current_block.lines = taken;
            assert(current_block.deep_view() == block_of(ls, span_at(ks, i as int)));
            finalize_block(current_block, blocks);
            Some(j)
        },
        _ => None,
    }
}

/// Partitions the lines, whose kinds are given, into blocks: one scan from
/// the first line to the last, one block per boundary line.
pub fn segment(lines: &Vec<String>, kinds: &Vec<LineKind>) -> (blocks: Vec<SqlBlock>)
    requires
        lines.len() == kinds.len(),
    ensures
        blocks.deep_view() == segment_spec(lines.deep_view(), kinds.deep_view()),
        is_subsequence(all_lines(blocks.deep_view()), lines.deep_view()),
        forall|k: int|
            0 <= k < blocks.len() ==> (#[trigger] blocks[k]).lines.len() > 0 && blocks[k].name@.len()
                > 0,
{
    let ghost ks = kinds.deep_view();
    let ghost ls = lines.deep_view();
    let ghost to_block = |sp: Span| block_of(ls, sp);
    let mut blocks: Vec<SqlBlock> = Vec::new();
    let mut current_block = SqlBlock { name: String::new(), lines: Vec::new() };
    let total = lines.len();
    let mut i: usize = 0;
    while i < total
        invariant
            i <= total,
            total == lines.len(),
            total == kinds.len(),
            ks == kinds.deep_view(),
            ls == lines.deep_view(),
            to_block == |sp: Span| block_of(ls, sp),
            current_block.deep_view().lines.len() == 0,
            blocks.deep_view() == spans(ks, i as int).map_values(to_block),
        decreases total - i,
    {
        match handle_alter_line(i, lines, kinds, &mut current_block, &mut blocks) {
            Some(next) => {
                i = next;
            },
            None => match handle_create_line(i, lines, kinds, &mut current_block, &mut blocks) {
                Some(next) => {
                    proof {
                        lemma_region_end(ks, i + 1);
                        lemma_spans_skip(ks, i + 1, next as int);
                    }
                    i = next;
                },
                None => {
                    i += 1;
                },
            },
        }
    }
    finalize_block(&mut current_block, &mut blocks);
    proof {
        lemma_blocks_are_subsequence(ls, ks);
        lemma_no_block_is_empty(ls, ks);
        assert forall|k: int| 0 <= k < blocks.len() implies (#[trigger] blocks[k]).lines.len() > 0
            && blocks[k].name@.len() > 0 by {
            assert(blocks.deep_view()[k].name == blocks[k].name@);
        }
    }
    blocks
}

/// The three classification rules, compiled.
pub struct Segmenter {
    alter: Regex,
    create: Regex,
    grant: Regex,
}

/// The first of the segmenter's rules that does not compile, if any.
pub open spec fn segmenter_fault() -> Option<PatternError> {
    if !regex_compiles(ALTER_PATTERN@) {
        Some(PatternError::Alter)
    } else if !regex_compiles(CREATE_PATTERN@) {
        Some(PatternError::Create)
    } else if !regex_compiles(GRANT_REF_PATTERN@) {
        Some(PatternError::GrantRef)
    } else {
        None
    }
}

impl Segmenter {
    #[verifier::type_invariant]
    spec fn holds_the_rules(self) -> bool {
        &&& regex_source(self.alter) == ALTER_PATTERN@
        &&& regex_source(self.create) == CREATE_PATTERN@
        &&& regex_source(self.grant) == GRANT_REF_PATTERN@
    }

    /// Compiles the three rules. Fails with the first rule that the
    /// expression engine does not accept.
    pub fn new() -> (r: Result<Segmenter, PatternError>)
        ensures
            r is Ok <==> segmenter_fault() is None,
            r matches Err(e) ==> segmenter_fault() == Some(e),
    {
        let alter = compile_rule(ALTER_PATTERN, PatternError::Alter)?;
        let create = compile_rule(CREATE_PATTERN, PatternError::Create)?;
        let grant = compile_rule(GRANT_REF_PATTERN, PatternError::GrantRef)?;
        Ok(Segmenter { alter, create, grant })
    }

    /// Classifies one line.
    pub fn classify(&self, line: &str) -> (kind: LineKind)
        ensures
            kind.deep_view() == classify_spec(line@),
    {
        proof {
            use_type_invariant(self);
        }
        let trimmed = trim(line);
        match capture_group(&self.alter, trimmed, 1) {
            Some(token) => LineKind::Alter(token),
            None => match capture_group(&self.create, trimmed, 2) {
                Some(table) => LineKind::Create(table),
                None => {
                    if is_match(&self.grant, trimmed) {
                        LineKind::Grant
                    } else if trimmed.is_empty() {
                        LineKind::Blank
                    } else {
                        LineKind::Other
                    }
                },
            },
        }
    }

    /// Classifies every line.
    pub fn classify_all(&self, lines: &Vec<String>) -> (kinds: Vec<LineKind>)
        ensures
            kinds.deep_view() == lines.deep_view().map_values(|line: Seq<char>| classify_spec(line)),
    {
        let ghost want = lines.deep_view().map_values(|line: Seq<char>| classify_spec(line));
        let mut kinds: Vec<LineKind> = Vec::new();
        let mut i: usize = 0;
        while i < lines.len()
            invariant
                i <= lines.len(),
                kinds.len() == i,
                want == lines.deep_view().map_values(|line: Seq<char>| classify_spec(line)),
                forall|t: int| 0 <= t < i ==> (#[trigger] kinds[t]).deep_view() == want[t],
            decreases lines.len() - i,
        {
            let kind = self.classify(lines[i].as_str());
            kinds.push(kind);
            i += 1;
        }
        kinds
    }

    /// Partitions the lines into blocks.
    pub fn split(&self, lines: &Vec<String>) -> (blocks: Vec<SqlBlock>)
        ensures
            blocks.deep_view() == blocks_spec(lines.deep_view()),
            is_subsequence(all_lines(blocks.deep_view()), lines.deep_view()),
            forall|k: int|
                0 <= k < blocks.len() ==> (#[trigger] blocks[k]).lines.len() > 0
                    && blocks[k].name@.len() > 0,
    {
        let kinds = self.classify_all(lines);
        segment(lines, &kinds)
    }
}

/// Splits a sequence of lines into blocks of SQL statements, one per
/// `ALTER TABLE` line and one per `CREATE TABLE` line. Fails, before any
/// line is looked at, where a rule does not compile.
pub fn split_into_blocks(lines: &Vec<String>) -> (r: Result<Vec<SqlBlock>, PatternError>)
    ensures
        r is Ok <==> segmenter_fault() is None,
        r matches Ok(blocks) ==> {
            &&& blocks.deep_view() == blocks_spec(lines.deep_view())
            &&& is_subsequence(all_lines(blocks.deep_view()), lines.deep_view())
            &&& forall|k: int|
                0 <= k < blocks.len() ==> (#[trigger] blocks[k]).lines.len() > 0
                    && blocks[k].name@.len() > 0
        },
        r matches Err(e) ==> segmenter_fault() == Some(e),
{
    match Segmenter::new() {
        Ok(segmenter) => Ok(segmenter.split(lines)),
        Err(e) => Err(e),
    }
}

/// Appends a copy of `line` to `lines`.
fn push_line(lines: &mut Vec<String>, line: &String)
    ensures
        final(lines).deep_view() == old(lines).deep_view().push(line@),
{
    lines.push(line.clone());
}

/// Whether the kind is that of a boundary line.
fn opens_block(kind: &LineKind) -> (b: bool)
    ensures
        b == is_boundary(kind.deep_view()),
{
    match kind {
        LineKind::Alter(_) => true,
        LineKind::Create(_) => true,
        _ => false,
    }
}

/// Whether the kind is that of a `CREATE TABLE` line.
fn is_create(kind: &LineKind) -> (b: bool)
    ensures
        b == kind.deep_view() is Create,
{
    match kind {
        LineKind::Create(_) => true,
        _ => false,
    }
}

/// Whether the kind is that of a `GRANT REFERENCES` line.
fn is_grant(kind: &LineKind) -> (b: bool)
    ensures
        b == kind.deep_view() is Grant,
{
    match kind {
        LineKind::Grant => true,
        _ => false,
    }
}

/// Whether the kind is that of a blank line.
fn is_blank(kind: &LineKind) -> (b: bool)
    ensures
        b == kind.deep_view() is Blank,
{
    match kind {
        LineKind::Blank => true,
        _ => false,
    }
}

} // verus!
