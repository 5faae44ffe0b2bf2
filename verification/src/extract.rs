//! The extractor: every line of the listing is classified against the row
//! grammar and the summary grammar, rows become records in line order, and the
//! summary line, which may occur once, gives the expected count.

use vstd::prelude::*;
use crate::cvar::{cvar_views, Cvar, CvarView};
use crate::lines::{count_of, lines_of, parse_count, split_lines};
use crate::pattern::{
    capture_groups, compile_pattern, find_matches, found_groups, group_views, regex_accepts,
    regex_captures, regex_matches, regex_source, texts, ATTRIBUTE_PATTERN, COUNT_PATTERN,
    CVAR_PATTERN,
};

verus! {

/// Why an extraction was abandoned.
#[derive(Debug, Clone, Copy, PartialEq, Eq)]
pub enum ExtractError {
    /// One of the three line grammars was not accepted by the matcher.
    BadPattern,
    /// A second summary line was found.
    DuplicateCount,
    /// The digits of the summary line do not spell a count that fits.
    CountUnparsable,
}

/// What one line of the listing turned out to be.
#[derive(Debug, Clone, PartialEq, Eq)]
pub enum Line {
    /// A table row, with the record it describes.
    Record(Cvar),
    /// The summary line, with its digits.
    Count(String),
    /// Anything else.
    Noise,
}

/// The mathematical content of a [`Line`].
pub enum LineKind {
    Record(CvarView),
    Count(Seq<char>),
    Noise,
}

impl View for Line {
    type V = LineKind;

    open spec fn view(&self) -> LineKind {
        match self {
            Line::Record(cvar) => LineKind::Record(cvar@),
            Line::Count(digits) => LineKind::Count(digits@),
            Line::Noise => LineKind::Noise,
        }
    }
}

/// Records gathered so far, and the expected count if a summary line was seen.
pub type State = (Seq<CvarView>, Option<usize>);

/// Whether the matcher accepts the three line grammars.
pub open spec fn patterns_accepted() -> bool {
    &&& regex_accepts(CVAR_PATTERN@)
    &&& regex_accepts(COUNT_PATTERN@)
    &&& regex_accepts(ATTRIBUTE_PATTERN@)
}

/// The text of capture group `i`, empty where the group is missing.
pub open spec fn group_text(groups: Seq<Option<Seq<char>>>, i: int) -> Seq<char> {
    if 0 <= i < groups.len() {
        match groups[i] {
            Some(text) => text,
            None => Seq::empty(),
        }
    } else {
        Seq::empty()
    }
}

/// The flag name inside the groups captured from one quoted occurrence.
pub open spec fn attribute_in(found: Option<Seq<Option<Seq<char>>>>) -> Option<Seq<char>> {
    match found {
        Some(groups) => if groups.len() > 1 {
            groups[1]
        } else {
            None
        },
        None => None,
    }
}

/// The flag names of a run of quoted occurrences, in their order; an
/// occurrence without a captured name adds nothing.
pub open spec fn collect_attributes(occurrences: Seq<Seq<char>>) -> Seq<Seq<char>>
    decreases occurrences.len(),
{
    if occurrences.len() == 0 {
        Seq::empty()
    } else {
        let earlier = collect_attributes(occurrences.drop_last());
        match attribute_in(regex_captures(ATTRIBUTE_PATTERN@, occurrences.last())) {
            Some(name) => earlier.push(name),
            None => earlier,
        }
    }
}

/// The flag names that an attribute column holds.
pub open spec fn attributes_of(column: Seq<char>) -> Seq<Seq<char>> {
    collect_attributes(regex_matches(ATTRIBUTE_PATTERN@, column))
}

/// The record that the capture groups of a table row describe.
pub open spec fn cvar_of_groups(groups: Seq<Option<Seq<char>>>, attributes: Seq<Seq<char>>) -> CvarView {
    CvarView {
        name: group_text(groups, 1),
        default: group_text(groups, 2),
        attributes,
        description: group_text(groups, 4),
    }
}

/// What a line is: a table row if the row grammar matches it, else the
/// summary line if the summary grammar matches it, else noise.
pub open spec fn classify(line: Seq<char>) -> LineKind {
    match regex_captures(CVAR_PATTERN@, line) {
        Some(groups) => LineKind::Record(
            cvar_of_groups(groups, attributes_of(group_text(groups, 3))),
        ),
        None => match regex_captures(COUNT_PATTERN@, line) {
            Some(groups) => LineKind::Count(group_text(groups, 1)),
            None => LineKind::Noise,
        },
    }
}

/// The effect of one classified line on the state: a record is appended, the
/// first summary line sets the expected count, a second one is an error, and
/// noise changes nothing.
pub open spec fn absorb(state: State, line: LineKind) -> Result<State, ExtractError> {
    match line {
        LineKind::Record(cvar) => Ok((state.0.push(cvar), state.1)),
        LineKind::Count(digits) => if state.1 is Some {
            Err(ExtractError::DuplicateCount)
        } else {
            match count_of(digits) {
                Some(count) => Ok((state.0, Some(count))),
                None => Err(ExtractError::CountUnparsable),
            }
        },
        LineKind::Noise => Ok(state),
    }
}

/// The state after all of `lines`, taken in order, or the first error.
pub open spec fn extract_lines(lines: Seq<Seq<char>>) -> Result<State, ExtractError>
    decreases lines.len(),
{
    if lines.len() == 0 {
        Ok((Seq::empty(), None))
    } else {
        match extract_lines(lines.drop_last()) {
            Ok(state) => absorb(state, classify(lines.last())),
            Err(e) => Err(e),
        }
    }
}

/// What extraction yields for a whole listing.
pub open spec fn extracted(text: Seq<char>) -> Result<State, ExtractError> {
    if patterns_accepted() {
        extract_lines(lines_of(text))
    } else {
        Err(ExtractError::BadPattern)
    }
}

/// The content of an extraction's outcome.
pub open spec fn outcome_view(outcome: Result<(Vec<Cvar>, Option<usize>), ExtractError>) -> Result<
    State,
    ExtractError,
> {
    match outcome {
        Ok((cvars, expected)) => Ok((cvar_views(cvars@), expected)),
        Err(e) => Err(e),
    }
}

/// An owned copy of capture group `i`, empty where the group is missing.
pub fn group_string(groups: &Vec<Option<String>>, i: usize) -> (text: String)
    ensures
        text@ == group_text(group_views(groups@), i as int),
{
    if i < groups.len() {
        match &groups[i] {
            Some(s) => s.clone(),
            None => String::new(),
        }
    } else {
        String::new()
    }
}

/// The flag name among the groups captured from one quoted occurrence.
pub fn attribute_from_groups(found: &Option<Vec<Option<String>>>) -> (name: Option<String>)
    ensures
        match attribute_in(found_groups(*found)) {
            Some(text) => name matches Some(s) && s@ == text,
            None => name is None,
        },
{
    match found {
        Some(groups) => {
            if groups.len() > 1 {
                match &groups[1] {
                    Some(s) => Some(s.clone()),
                    None => None,
                }
            } else {
                None
            }
        },
        None => None,
    }
}

impl Cvar {
    /// Builds the record of a table row from its capture groups and the flags
    /// found in its attribute column. A row without the description group has
    /// an empty description.
    pub fn from_groups(groups: &Vec<Option<String>>, attributes: Vec<String>) -> (cvar: Cvar)
        ensures
            cvar@ == cvar_of_groups(group_views(groups@), texts(attributes@)),
            groups.len() <= 4 || groups[4] is None ==> cvar.description@ == Seq::<char>::empty(),
    {
        Cvar {
            name: group_string(groups, 1),
            default: group_string(groups, 2),
            attributes,
            description: group_string(groups, 4),
        }
    }
}

/// The three line grammars, compiled once.
pub struct Grammar {
    row: regex::Regex,
    summary: regex::Regex,
    attribute: regex::Regex,
}

impl Grammar {
    /// Each expression is the one compiled from its pattern.
    #[verifier::type_invariant]
    spec fn compiled_from_patterns(self) -> bool {
        &&& regex_source(self.row) == CVAR_PATTERN@
        &&& regex_source(self.summary) == COUNT_PATTERN@
        &&& regex_source(self.attribute) == ATTRIBUTE_PATTERN@
    }

    /// Compiles the three line grammars. Fails with `BadPattern` exactly
    /// where the matcher rejects one of them.
    pub fn compile() -> (r: Result<Grammar, ExtractError>)
        ensures
            r is Ok <==> patterns_accepted(),
            r matches Err(e) ==> e == ExtractError::BadPattern,
    {
        let row = match compile_pattern(CVAR_PATTERN) {
            Ok(re) => re,
            Err(_) => {
                return Err(ExtractError::BadPattern);
            },
        };
        let summary = match compile_pattern(COUNT_PATTERN) {
            Ok(re) => re,
            Err(_) => {
                return Err(ExtractError::BadPattern);
            },
        };
        let attribute = match compile_pattern(ATTRIBUTE_PATTERN) {
            Ok(re) => re,
            Err(_) => {
                return Err(ExtractError::BadPattern);
            },
        };
        Ok(Grammar { row, summary, attribute })
    }

    /// Collects the quoted flag names of an attribute column, in order.
    pub fn parse_attributes(&self, column: &str) -> (attributes: Vec<String>)
        ensures
            texts(attributes@) == attributes_of(column@),
    {
        proof {
            use_type_invariant(self);
        }
        let mut attributes: Vec<String> = Vec::new();
        let occurrences = find_matches(&self.attribute, column);
        assert(texts(attributes@) =~= Seq::<Seq<char>>::empty());
        let mut i: usize = 0;
        while i < occurrences.len()
            invariant
                regex_source(self.attribute) == ATTRIBUTE_PATTERN@,
                0 <= i <= occurrences.len(),
                texts(attributes@) == collect_attributes(texts(occurrences@).take(i as int)),
            decreases occurrences.len() - i,
        {
            let ghost before = texts(attributes@);
            let ghost upto = texts(occurrences@).take(i + 1);
            assert(upto.drop_last() =~= texts(occurrences@).take(i as int));
            assert(upto.last() == occurrences[i as int]@);
            let found = capture_groups(&self.attribute, occurrences[i].as_str());
            match attribute_from_groups(&found) {
                Some(name) => {
                    attributes.push(name);
                    assert(texts(attributes@) =~= before.push(name@));
                },
                None => {},
            }
            i = i + 1;
        }
        assert(texts(occurrences@).take(i as int) =~= texts(occurrences@));
        attributes
    }

    /// Classifies one line of the listing.
    pub fn classify_line(&self, line: &str) -> (kind: Line)
        ensures
            kind@ == classify(line@),
    {
        proof {
            use_type_invariant(self);
        }
        match capture_groups(&self.row, line) {
            Some(groups) => {
                let column = group_string(&groups, 3);
                let attributes = self.parse_attributes(column.as_str());
                Line::Record(Cvar::from_groups(&groups, attributes))
            },
            None => {
                match capture_groups(&self.summary, line) {
                    Some(groups) => Line::Count(group_string(&groups, 1)),
                    None => Line::Noise,
                }
            },
        }
    }
}

/// Applies one classified line to the records and the expected count
/// gathered so far. On an error both are left as they were.
pub fn absorb_line(cvars: &mut Vec<Cvar>, expected: &mut Option<usize>, line: Line) -> (r: Result<
    (),
    ExtractError,
>)
    ensures
        match absorb((cvar_views(old(cvars)@), *old(expected)), line@) {
            Ok(state) => {
                &&& r is Ok
                &&& cvar_views(final(cvars)@) == state.0
                &&& *final(expected) == state.1
            },
            Err(e) => {
                &&& r == Err::<(), ExtractError>(e)
                &&& *final(cvars) == *old(cvars)
                &&& *final(expected) == *old(expected)
            },
        },
        match line {
            Line::Record(cvar) => final(cvars)@ == old(cvars)@.push(cvar),
            _ => final(cvars)@ == old(cvars)@,
        },
{
    match line {
        Line::Record(cvar) => {
            let ghost before = cvar_views(cvars@);
            cvars.push(cvar);
            assert(cvar_views(cvars@) =~= before.push(cvar@));
            Ok(())
        },
        Line::Count(digits) => {
            if expected.is_some() {
                return Err(ExtractError::DuplicateCount);
            }
            match parse_count(digits.as_str()) {
                Some(count) => {
                    *expected = Some(count);
                    Ok(())
                },
                None => Err(ExtractError::CountUnparsable),
            }
        },
        Line::Noise => Ok(()),
    }
}

/// An error met on a prefix of the lines is the outcome for all of them.
pub proof fn lemma_error_persists(lines: Seq<Seq<char>>, k: int)
    requires
        0 <= k <= lines.len(),
        extract_lines(lines.take(k)) is Err,
    ensures
        extract_lines(lines) == extract_lines(lines.take(k)),
    decreases lines.len() - k,
{
    if k == lines.len() {
        assert(lines.take(k) =~= lines);
    } else {
        assert(lines.take(k + 1).drop_last() =~= lines.take(k));
        lemma_error_persists(lines, k + 1);
    }
}

/// Extracts the records and the expected count from a whole listing.
///
/// Fails with `DuplicateCount` at a second summary line, with
/// `CountUnparsable` at a summary line whose digits spell no `usize`, and with
/// `BadPattern` where the matcher rejects a line grammar; lines that match
/// neither grammar are skipped.
pub fn extract_cvars(lines: String) -> (outcome: Result<(Vec<Cvar>, Option<usize>), ExtractError>)
    ensures
        outcome_view(outcome) == extracted(lines@),
{
    let grammar = match Grammar::compile() {
        Ok(grammar) => grammar,
        Err(e) => {
            return Err(e);
        },
    };
    let all = split_lines(lines.as_str());
    let mut cvars: Vec<Cvar> = Vec::new();
    let mut expected: Option<usize> = None;
    assert(cvar_views(cvars@) =~= Seq::<CvarView>::empty());
    assert(texts(all@).take(0) =~= Seq::<Seq<char>>::empty());
    let mut i: usize = 0;
    while i < all.len()
        invariant
            patterns_accepted(),
            0 <= i <= all.len(),
            texts(all@) == lines_of(lines@),
            extract_lines(texts(all@).take(i as int)) == Ok::<State, ExtractError>(
                (cvar_views(cvars@), expected),
            ),
        decreases all.len() - i,
    {
        let ghost upto = texts(all@).take(i + 1);
        assert(upto.drop_last() =~= texts(all@).take(i as int));
        assert(upto.last() == all[i as int]@);
        let kind = grammar.classify_line(all[i].as_str());
        match absorb_line(&mut cvars, &mut expected, kind) {
            Ok(()) => {},
            Err(e) => {
                proof {
                    lemma_error_persists(texts(all@), i + 1);
                }
                return Err(e);
            },
        }
        i = i + 1;
    }
    assert(texts(all@).take(i as int) =~= texts(all@));
    Ok((cvars, expected))
}

} // verus!
