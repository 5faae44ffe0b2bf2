//! Properties of the extractor, proved over the functions that define it.

use vstd::prelude::*;
use crate::cvar::{Cvar, CvarView};
use crate::extract::{
    absorb, attribute_in, classify, collect_attributes, extract_lines, extracted,
    outcome_view, patterns_accepted, ExtractError, LineKind, State,
};
use crate::lines::{count_of, lines_of};
use crate::pattern::{regex_captures, ATTRIBUTE_PATTERN, CVAR_PATTERN};

verus! {

/// Whether the row grammar matches `line`.
pub open spec fn is_record_line(line: Seq<char>) -> bool {
    classify(line) is Record
}

/// The record of a line that the row grammar matches.
pub open spec fn record_of_line(line: Seq<char>) -> CvarView {
    match classify(line) {
        LineKind::Record(cvar) => cvar,
        _ => arbitrary(),
    }
}

/// The records of the table rows among `lines`, in the order of the lines.
pub open spec fn records_in_order(lines: Seq<Seq<char>>) -> Seq<CvarView> {
    lines.filter(|line: Seq<char>| is_record_line(line)).map_values(
        |line: Seq<char>| record_of_line(line),
    )
}

/// Whether `outcome` is what extraction yields for `text`.
pub open spec fn is_extraction_of(
    text: Seq<char>,
    outcome: Result<(Vec<Cvar>, Option<usize>), ExtractError>,
) -> bool {
    outcome_view(outcome) == extracted(text)
}

/// Extraction is a function of the text: two outcomes for one text hold the
/// same records in the same order and the same expected count, or the same
/// error.
pub proof fn law_same_text_same_outcome(
    text: Seq<char>,
    first: Result<(Vec<Cvar>, Option<usize>), ExtractError>,
    second: Result<(Vec<Cvar>, Option<usize>), ExtractError>,
)
    requires
        is_extraction_of(text, first),
        is_extraction_of(text, second),
    ensures
        outcome_view(first) == outcome_view(second),
{
}

/// The records come out in the order of the lines that hold them: the
/// records extracted from a text are the records of its table rows, each at
/// the place of its line among them.
pub proof fn law_records_follow_line_order(text: Seq<char>)
    requires
        extracted(text) is Ok,
    ensures
        extracted(text)->Ok_0.0 == records_in_order(lines_of(text)),
{
    lemma_records_follow_line_order(lines_of(text));
}

/// The records gathered from `lines` are the records of the table rows among
/// them, in the order of the lines.
pub proof fn lemma_records_follow_line_order(lines: Seq<Seq<char>>)
    requires
        extract_lines(lines) is Ok,
    ensures
        extract_lines(lines)->Ok_0.0 == records_in_order(lines),
    decreases lines.len(),
{
    reveal(Seq::filter);
    let is_row = |line: Seq<char>| is_record_line(line);
    let record = |line: Seq<char>| record_of_line(line);
    if lines.len() == 0 {
        assert(records_in_order(lines) =~= Seq::<CvarView>::empty());
    } else {
        let earlier = lines.drop_last();
        lemma_records_follow_line_order(earlier);
        let kept = earlier.filter(is_row);
        if is_record_line(lines.last()) {
            assert(lines.filter(is_row) == kept.push(lines.last()));
            assert(kept.push(lines.last()).map_values(record) =~= kept.map_values(record).push(
                record_of_line(lines.last()),
            ));
        } else {
            assert(lines.filter(is_row) == kept);
        }
    }
}

/// The flag name of one quoted occurrence in an attribute column.
pub open spec fn attribute_of(occurrence: Seq<char>) -> Option<Seq<char>> {
    attribute_in(regex_captures(ATTRIBUTE_PATTERN@, occurrence))
}

/// Flags come out in the order of their occurrences: where every occurrence
/// holds a name, the attributes are those names, one for one and in order,
/// repeated names included.
pub proof fn law_attributes_follow_occurrences(occurrences: Seq<Seq<char>>)
    requires
        forall|i: int| 0 <= i < occurrences.len() ==> attribute_of(#[trigger] occurrences[i]) is Some,
    ensures
        collect_attributes(occurrences).len() == occurrences.len(),
        forall|i: int|
            0 <= i < occurrences.len() ==> Some(#[trigger] collect_attributes(occurrences)[i])
                == attribute_of(occurrences[i]),
    decreases occurrences.len(),
{
    if occurrences.len() > 0 {
        let earlier = occurrences.drop_last();
        assert forall|i: int| 0 <= i < earlier.len() implies attribute_of(
            #[trigger] earlier[i],
        ) is Some by {
            assert(earlier[i] == occurrences[i]);
        }
        law_attributes_follow_occurrences(earlier);
        assert(attribute_of(occurrences.last()) is Some);
        assert forall|i: int| 0 <= i < occurrences.len() implies Some(
            #[trigger] collect_attributes(occurrences)[i],
        ) == attribute_of(occurrences[i]) by {
            if i < earlier.len() {
                assert(earlier[i] == occurrences[i]);
                assert(collect_attributes(occurrences)[i] == collect_attributes(earlier)[i]);
            }
        }
    }
}

/// A table row whose description group took no part in the match, as when
/// the line ends at its third colon, has an empty description.
pub proof fn law_missing_description_is_empty(line: Seq<char>)
    requires
        regex_captures(CVAR_PATTERN@, line) matches Some(groups) && (groups.len() <= 4
            || groups[4] is None),
    ensures
        classify(line) matches LineKind::Record(cvar) && cvar.description == Seq::<char>::empty(),
{
}

/// Whether the summary grammar, and not the row grammar, matches `line`.
pub open spec fn is_count_line(line: Seq<char>) -> bool {
    classify(line) is Count
}

/// The digits of a summary line.
pub open spec fn count_digits(line: Seq<char>) -> Seq<char> {
    match classify(line) {
        LineKind::Count(digits) => digits,
        _ => Seq::empty(),
    }
}

/// No two of `lines` are summary lines.
pub open spec fn at_most_one_count(lines: Seq<Seq<char>>) -> bool {
    forall|i: int, j: int|
        0 <= i < j < lines.len() ==> !(is_count_line(#[trigger] lines[i]) && is_count_line(
            #[trigger] lines[j],
        ))
}

/// The digits of every summary line among `lines` spell a count that fits.
pub open spec fn counts_parse(lines: Seq<Seq<char>>) -> bool {
    forall|i: int|
        0 <= i < lines.len() && is_count_line(#[trigger] lines[i]) ==> count_of(
            count_digits(lines[i]),
        ) is Some
}

/// None of `lines` is a summary line.
pub open spec fn no_count(lines: Seq<Seq<char>>) -> bool {
    forall|i: int| 0 <= i < lines.len() ==> !is_count_line(#[trigger] lines[i])
}

/// Some summary line among `lines` spells `count`.
pub open spec fn some_line_counts(lines: Seq<Seq<char>>, count: usize) -> bool {
    exists|i: int|
        0 <= i < lines.len() && is_count_line(#[trigger] lines[i]) && count_of(
            count_digits(lines[i]),
        ) == Some(count)
}

/// Where the expected count comes from: after a successful extraction it is
/// absent exactly where no line is a summary line, and otherwise it is the
/// number that a summary line spells.
pub proof fn lemma_expected_count_source(lines: Seq<Seq<char>>)
    requires
        extract_lines(lines) is Ok,
    ensures
        match extract_lines(lines)->Ok_0.1 {
            None => no_count(lines),
            Some(count) => some_line_counts(lines, count),
        },
    decreases lines.len(),
{
    if lines.len() > 0 {
        let earlier = lines.drop_last();
        let last = lines.len() - 1;
        lemma_expected_count_source(earlier);
        let before = extract_lines(earlier)->Ok_0;
        assert forall|i: int| 0 <= i < earlier.len() implies earlier[i] == lines[i] by {}
        match extract_lines(lines)->Ok_0.1 {
            None => {
                assert(before.1 is None);
                assert forall|i: int| 0 <= i < lines.len() implies !is_count_line(
                    #[trigger] lines[i],
                ) by {
                    if i < last {
                        assert(!is_count_line(earlier[i]));
                    }
                }
            },
            Some(count) => {
                if is_count_line(lines[last]) {
                    assert(count_of(count_digits(lines[last])) == Some(count));
                } else {
                    assert(before.1 == Some(count));
                    let i = choose|i: int|
                        0 <= i < earlier.len() && is_count_line(#[trigger] earlier[i]) && count_of(
                            count_digits(earlier[i]),
                        ) == Some(count);
                    assert(is_count_line(lines[i]));
                }
            },
        }
    }
}

/// Extraction of `lines` succeeds exactly where at most one of them is a
/// summary line and its digits spell a count that fits.
pub proof fn lemma_success_of_lines(lines: Seq<Seq<char>>)
    ensures
        extract_lines(lines) is Ok <==> at_most_one_count(lines) && counts_parse(lines),
    decreases lines.len(),
{
    if lines.len() > 0 {
        let earlier = lines.drop_last();
        let last = lines.len() - 1;
        lemma_success_of_lines(earlier);
        assert forall|i: int| 0 <= i < earlier.len() implies earlier[i] == lines[i] by {}
        if extract_lines(lines) is Ok {
            lemma_expected_count_source(earlier);
            assert forall|i: int, j: int| 0 <= i < j < lines.len() implies !(is_count_line(
                #[trigger] lines[i],
            ) && is_count_line(#[trigger] lines[j])) by {
                if j < last {
                    assert(!(is_count_line(earlier[i]) && is_count_line(earlier[j])));
                } else if is_count_line(lines[j]) {
                    assert(!is_count_line(earlier[i]));
                }
            }
            assert forall|i: int| 0 <= i < lines.len() && is_count_line(
                #[trigger] lines[i],
            ) implies count_of(count_digits(lines[i])) is Some by {
                if i < last {
                    assert(is_count_line(earlier[i]));
                }
            }
        }
        if at_most_one_count(lines) && counts_parse(lines) {
            assert forall|i: int, j: int| 0 <= i < j < earlier.len() implies !(is_count_line(
                #[trigger] earlier[i],
            ) && is_count_line(#[trigger] earlier[j])) by {
                assert(!(is_count_line(lines[i]) && is_count_line(lines[j])));
            }
            assert forall|i: int| 0 <= i < earlier.len() && is_count_line(
                #[trigger] earlier[i],
            ) implies count_of(count_digits(earlier[i])) is Some by {
                assert(is_count_line(lines[i]));
            }
            assert(extract_lines(earlier) is Ok);
            lemma_expected_count_source(earlier);
            if is_count_line(lines[last]) {
                let before = extract_lines(earlier)->Ok_0;
                if before.1 is Some {
                    let i = choose|i: int|
                        0 <= i < earlier.len() && is_count_line(#[trigger] earlier[i]) && count_of(
                            count_digits(earlier[i]),
                        ) == before.1;
                    assert(is_count_line(lines[i]) && is_count_line(lines[last]));
                    assert(false);
                }
                assert(count_of(count_digits(lines[last])) is Some);
            }
        }
    }
}

/// Two summary lines are fatal: for a text with two lines that match the
/// summary grammar, whatever else it holds, extraction fails and returns no
/// records.
pub proof fn law_second_count_is_rejected(text: Seq<char>, i: int, j: int)
    requires
        0 <= i < j < lines_of(text).len(),
        classify(lines_of(text)[i]) is Count,
        classify(lines_of(text)[j]) is Count,
    ensures
        extracted(text) is Err,
{
    lemma_second_count_is_rejected(lines_of(text), i, j);
}

/// Lines with two summary lines among them give an error.
pub proof fn lemma_second_count_is_rejected(lines: Seq<Seq<char>>, i: int, j: int)
    requires
        0 <= i < j < lines.len(),
        classify(lines[i]) is Count,
        classify(lines[j]) is Count,
    ensures
        extract_lines(lines) is Err,
{
    lemma_success_of_lines(lines);
    assert(is_count_line(lines[i]) && is_count_line(lines[j]));
}

/// When success is owed: extraction of a text succeeds exactly where the
/// matcher accepts the grammars, at most one line is a summary line, and its
/// digits spell a count that fits.
pub proof fn law_success_is_owed(text: Seq<char>)
    ensures
        extracted(text) is Ok <==> {
            &&& patterns_accepted()
            &&& at_most_one_count(lines_of(text))
            &&& counts_parse(lines_of(text))
        },
{
    lemma_success_of_lines(lines_of(text));
}

/// The expected count is what the summary line says: absent where the text
/// has no summary line, and otherwise the number that its summary line spells.
pub proof fn law_expected_count_is_the_summary(text: Seq<char>)
    requires
        extracted(text) is Ok,
    ensures
        match extracted(text)->Ok_0.1 {
            None => no_count(lines_of(text)),
            Some(count) => some_line_counts(lines_of(text), count),
        },
{
    lemma_expected_count_source(lines_of(text));
}

/// A line that matches neither grammar leaves the state as it is.
pub proof fn law_noise_changes_nothing(state: State, line: Seq<char>)
    requires
        classify(line) is Noise,
    ensures
        absorb(state, classify(line)) == Ok::<State, ExtractError>(state),
{
}

/// Noise is ignored wherever it stands: with a line that matches neither
/// grammar put between any lines, the records, the expected count and the
/// error, if there is one, are what they are without it.
pub proof fn law_noise_is_ignored(before: Seq<Seq<char>>, noise: Seq<char>, after: Seq<Seq<char>>)
    requires
        classify(noise) is Noise,
    ensures
        extract_lines(before.push(noise) + after) == extract_lines(before + after),
    decreases after.len(),
{
    if after.len() == 0 {
        assert(before.push(noise) + after =~= before.push(noise));
        assert(before + after =~= before);
        assert(before.push(noise).drop_last() =~= before);
    } else {
        law_noise_is_ignored(before, noise, after.drop_last());
        assert((before.push(noise) + after).drop_last() =~= before.push(noise) + after.drop_last());
        assert((before + after).drop_last() =~= before + after.drop_last());
    }
}

} // verus!
