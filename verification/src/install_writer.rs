//! The install file: the listing of the stored steps.
//!
//! The listing starts with the configured header lines. Then comes one line
//! per step file, in the order of the files' names, numbered from 2. Then,
//! where one is configured, comes the footer line under the next number, and
//! with it the footer file that the line names.

use crate::args::{InstallConfig, InstallConfigView};
use crate::std_text::push_char;
use crate::text::{
    after_last, after_last_spec, chars_of, format_padded, matches_at, occurs_at, replace_all,
    replace_spec, zero_padded,
};
use crate::{STEP_FILE_PREFIX, STEP_FILE_SUFFIX};
use vstd::prelude::*;

verus! {

/// Where a step file's name, or a step number, goes in a configured line.
pub const PLACEHOLDER: &'static str = "{}";

/// The number of the first listed step file.
pub const FIRST_LISTED_STEP: usize = 2;

/// Whether `a` comes before `b` or equals it, in the order of strings:
/// character by character, by code point, a prefix before what it is a
/// prefix of.
pub open spec fn lex_le(a: Seq<char>, b: Seq<char>) -> bool
    decreases a.len(),
{
    if a.len() == 0 {
        true
    } else if b.len() == 0 {
        false
    } else if a[0] != b[0] {
        (a[0] as u32) < (b[0] as u32)
    } else {
        lex_le(a.skip(1), b.skip(1))
    }
}

/// Of two strings, one comes before the other or equals it.
pub proof fn lemma_lex_total(a: Seq<char>, b: Seq<char>)
    ensures
        lex_le(a, b) || lex_le(b, a),
    decreases a.len(),
{
    if a.len() > 0 && b.len() > 0 {
        if a[0] == b[0] {
            lemma_lex_total(a.skip(1), b.skip(1));
        } else {
            vstd::utf8::char_u32_cast(a[0], a[0] as u32);
            vstd::utf8::char_u32_cast(b[0], b[0] as u32);
        }
    }
}

/// The order of strings is transitive.
pub proof fn lemma_lex_transitive(a: Seq<char>, b: Seq<char>, c: Seq<char>)
    requires
        lex_le(a, b),
        lex_le(b, c),
    ensures
        lex_le(a, c),
    decreases a.len(),
{
    if a.len() > 0 && b.len() > 0 && c.len() > 0 && a[0] == b[0] && b[0] == c[0] {
        lemma_lex_transitive(a.skip(1), b.skip(1), c.skip(1));
    }
}

/// Whether `a` comes before `b` or equals it.
pub fn comes_before(a: &Vec<char>, b: &Vec<char>) -> (le: bool)
    ensures
        le == lex_le(a@, b@),
{
    let mut i: usize = 0;
    assert(a@.skip(0) == a@ && b@.skip(0) == b@);
    while i < a.len() && i < b.len() && a[i] == b[i]
        invariant
            i <= a.len(),
            i <= b.len(),
            lex_le(a@, b@) == lex_le(a@.skip(i as int), b@.skip(i as int)),
        decreases a.len() - i,
    {
        assert(a@.skip(i as int).skip(1) == a@.skip(i + 1));
        assert(b@.skip(i as int).skip(1) == b@.skip(i + 1));
        i += 1;
    }
    if i == a.len() {
        true
    } else if i == b.len() {
        false
    } else {
        (a[i] as u32) < (b[i] as u32)
    }
}

/// Whether `name` is the name of a step file: it starts with the step
/// prefix and ends with the step suffix.
pub open spec fn is_step_file(name: Seq<char>) -> bool {
    &&& occurs_at(name, STEP_FILE_PREFIX@, 0)
    &&& occurs_at(name, STEP_FILE_SUFFIX@, name.len() - STEP_FILE_SUFFIX@.len())
}

/// The names of step files among `entries`, in the order of `entries`.
pub open spec fn step_names(entries: Seq<Seq<char>>) -> Seq<Seq<char>>
    decreases entries.len(),
{
    if entries.len() == 0 {
        Seq::empty()
    } else if is_step_file(entries.last()) {
        step_names(entries.drop_last()).push(entries.last())
    } else {
        step_names(entries.drop_last())
    }
}

/// Whether each name comes before or equals every name behind it.
pub open spec fn sorted(names: Seq<Seq<char>>) -> bool {
    forall|i: int, j: int| 0 <= i < j < names.len() ==> lex_le(names[i], names[j])
}

/// Whether `name` is the name of a step file.
pub fn names_step_file(name: &Vec<char>) -> (b: bool)
    ensures
        b == is_step_file(name@),
{
    let prefix = chars_of(STEP_FILE_PREFIX);
    let suffix = chars_of(STEP_FILE_SUFFIX);
    if suffix.len() > name.len() {
        return false;
    }
    matches_at(name, &prefix, 0) && matches_at(name, &suffix, name.len() - suffix.len())
}

/// The names of the step files among the entries of a directory, sorted.
pub fn listed_step_files(entries: &Vec<String>) -> (names: Vec<String>)
    ensures
        sorted(names.deep_view()),
        names.deep_view().to_multiset() == step_names(entries.deep_view()).to_multiset(),
{
    let ghost all = entries.deep_view();
    let mut names: Vec<String> = Vec::new();
    let mut keys: Vec<Vec<char>> = Vec::new();
    let mut i: usize = 0;
    assert(all.take(0) =~= Seq::<Seq<char>>::empty());
    assert(names.deep_view() =~= Seq::<Seq<char>>::empty());
    while i < entries.len()
        invariant
            i <= entries.len(),
            all == entries.deep_view(),
            keys.len() == names.len(),
            forall|t: int| 0 <= t < keys.len() ==> (#[trigger] keys[t])@ == names[t]@,
            sorted(names.deep_view()),
            names.deep_view().to_multiset() == step_names(all.take(i as int)).to_multiset(),
        decreases entries.len() - i,
    {
        let key = chars_of(entries[i].as_str());
        assert(all.take(i + 1).drop_last() =~= all.take(i as int));
        assert(all.take(i + 1).last() == key@);
        if names_step_file(&key) {
            let ghost before = names.deep_view();
            let mut at: usize = 0;
            while at < keys.len() && comes_before(&keys[at], &key)
                invariant
                    at <= keys.len(),
                    keys.len() == names.len(),
                    before == names.deep_view(),
                    forall|t: int| 0 <= t < keys.len() ==> (#[trigger] keys[t])@ == names[t]@,
                    forall|t: int| 0 <= t < at ==> lex_le(#[trigger] before[t], key@),
                decreases keys.len() - at,
            {
                at += 1;
            }
            proof {
                assert forall|t: int| at <= t < before.len() implies lex_le(key@, #[trigger] before[t]) by {
                    lemma_lex_total(before[at as int], key@);
                    assert(keys[at as int]@ == before[at as int]);
                    if t > at {
                        lemma_lex_transitive(key@, before[at as int], before[t]);
                    }
                }
            }
            names.insert(at, entries[i].clone());
            keys.insert(at, key);
            proof {
                let after = names.deep_view();
                assert(after =~= before.insert(at as int, key@));
                assert(after.remove(at as int) =~= before);
                after.to_multiset_ensures();
                before.to_multiset_ensures();
                step_names(all.take(i as int)).to_multiset_ensures();
                assert(after.contains(key@)) by {
                    assert(after[at as int] == key@);
                }
                assert(after.to_multiset() =~= before.to_multiset().insert(key@));
                assert forall|a: int, b: int| 0 <= a < b < after.len() implies lex_le(after[a], after[b]) by {
                    if a < at && b > at {
                        assert(after[a] == before[a] && after[b] == before[b - 1]);
                    } else if a < at && b < at {
                        assert(after[a] == before[a] && after[b] == before[b]);
                    } else if a > at {
                        assert(after[a] == before[a - 1] && after[b] == before[b - 1]);
                    } else if a == at {
                        assert(after[b] == before[b - 1]);
                    } else {
                        assert(after[a] == before[a]);
                    }
                }
            }
        }
        i += 1;
    }
    assert(all.take(i as int) =~= all);
    names
}

/// The file that the footer line names.
#[derive(Debug)]
pub struct FooterFile {
    pub file_name: String,
    pub content: String,
}

/// What to write: the lines of the install file and, where one is
/// configured, the footer file.
#[derive(Debug)]
pub struct InstallPlan {
    pub lines: Vec<String>,
    pub footer_file: Option<FooterFile>,
}

/// What a `FooterFile` is, mathematically.
pub struct FooterFileView {
    pub file_name: Seq<char>,
    pub content: Seq<char>,
}

/// What an `InstallPlan` is, mathematically.
pub struct InstallPlanView {
    pub lines: Seq<Seq<char>>,
    pub footer_file: Option<FooterFileView>,
}

impl DeepView for FooterFile {
    type V = FooterFileView;

    open spec fn deep_view(&self) -> FooterFileView {
        FooterFileView { file_name: self.file_name@, content: self.content@ }
    }
}

impl DeepView for InstallPlan {
    type V = InstallPlanView;

    open spec fn deep_view(&self) -> InstallPlanView {
        InstallPlanView { lines: self.lines.deep_view(), footer_file: self.footer_file.deep_view() }
    }
}

/// A step number as the install file shows it: in at least three digits.
pub open spec fn step_number_spec(number: nat) -> Seq<char> {
    zero_padded(number, 3)
}

/// The line for a step file: its number, a bar, and the configured text
/// with the file's name in the place of each placeholder.
pub open spec fn step_line_spec(number: nat, format: Seq<char>, file_name: Seq<char>) -> Seq<char> {
    step_number_spec(number) + seq!['|'] + replace_spec(format, PLACEHOLDER@, file_name)
}

/// The lines for the step files, which are numbered from 2 in their order.
pub open spec fn step_lines_spec(format: Seq<char>, names: Seq<Seq<char>>) -> Seq<Seq<char>> {
    Seq::new(
        names.len(),
        |k: int| step_line_spec((k + FIRST_LISTED_STEP) as nat, format, names[k]),
    )
}

/// The footer's number: the one behind the last step file's.
pub open spec fn footer_number_spec(names: Seq<Seq<char>>) -> nat {
    names.len() + FIRST_LISTED_STEP as nat
}

/// The footer line: the template with the footer's number in the place of
/// each placeholder.
pub open spec fn footer_line_spec(template: Seq<char>, number: nat) -> Seq<char> {
    replace_spec(template, PLACEHOLDER@, step_number_spec(number))
}

/// The name of the footer file: what stands in the template behind its
/// last bar, with the footer's number in the place of each placeholder.
pub open spec fn footer_name_spec(template: Seq<char>, number: nat) -> Seq<char> {
    replace_spec(after_last_spec(template, '|'), PLACEHOLDER@, step_number_spec(number))
}

/// What to write for the configuration and the step files' names.
pub open spec fn install_plan_spec(config: InstallConfigView, names: Seq<Seq<char>>) -> InstallPlanView {
    let number = footer_number_spec(names);
    let listed = config.header_lines + step_lines_spec(config.sql_execution_format, names);
    InstallPlanView {
        lines: match config.footer_line {
            Some(template) => listed.push(footer_line_spec(template, number)),
            None => listed,
        },
        footer_file: match (config.footer_line, config.footer_sql_content) {
            (Some(template), Some(content)) => Some(
                FooterFileView { file_name: footer_name_spec(template, number), content },
            ),
            _ => None,
        },
    }
}

/// The line for a step file.
pub fn step_line(number: usize, format: &str, file_name: &str) -> (line: String)
    ensures
        line@ == step_line_spec(number as nat, format@, file_name@),
{
    let mut line = format_padded(number, 3);
    push_char(&mut line, '|');
    let text = replace_all(format, PLACEHOLDER, file_name);
    line.append(text.as_str());
    line
}

/// What to write into the install file, and the footer file, for the
/// configuration and the names of the step files, which are listed in the
/// order given.
pub fn install_plan(config: &InstallConfig, step_files: &Vec<String>) -> (plan: InstallPlan)
    requires
        step_files.len() + FIRST_LISTED_STEP <= usize::MAX,
    ensures
        plan.deep_view() == install_plan_spec(config.deep_view(), step_files.deep_view()),
{
    let ghost cfg = config.deep_view();
    let ghost names = step_files.deep_view();
    let mut lines: Vec<String> = Vec::new();
    let mut h: usize = 0;
    while h < config.header_lines.len()
        invariant
            h <= config.header_lines.len(),
            cfg == config.deep_view(),
            lines.deep_view() == cfg.header_lines.take(h as int),
        decreases config.header_lines.len() - h,
    {
        let ghost before = lines.deep_view();
        lines.push(config.header_lines[h].clone());
        assert(lines.deep_view() =~= before.push(cfg.header_lines[h as int]));
        h += 1;
    }

    let mut k: usize = 0;
    while k < step_files.len()
        invariant
            k <= step_files.len(),
            step_files.len() + FIRST_LISTED_STEP <= usize::MAX,
            cfg == config.deep_view(),
            names == step_files.deep_view(),
            lines.deep_view() == cfg.header_lines + step_lines_spec(
                cfg.sql_execution_format,
                names.take(k as int),
            ),
        decreases step_files.len() - k,
    {
        let ghost before = lines.deep_view();
        let line = step_line(
            k + FIRST_LISTED_STEP,
            config.sql_execution_format.as_str(),
            step_files[k].as_str(),
        );
        lines.push(line);
        assert(lines.deep_view() =~= before.push(line@));
        k += 1;
    }
    assert(names.take(k as int) =~= names);

    let number: usize = step_files.len() + FIRST_LISTED_STEP;
    let mut footer_file: Option<FooterFile> = None;
    match &config.footer_line {
        Some(template) => {
            let shown = format_padded(number, 3);
            let ghost before = lines.deep_view();
            let line = replace_all(template.as_str(), PLACEHOLDER, shown.as_str());
            lines.push(line);
            assert(lines.deep_view() =~= before.push(line@));
            match &config.footer_sql_content {
                Some(content) => {
                    let file_name = replace_all(
                        after_last(template.as_str(), '|'),
                        PLACEHOLDER,
                        shown.as_str(),
                    );
                    footer_file = Some(FooterFile { file_name, content: content.clone() });
                },
                None => {},
            }
        },
        None => {},
    }
    InstallPlan { lines, footer_file }
}

} // verus!
