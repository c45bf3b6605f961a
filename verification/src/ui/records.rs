//! What is read from a line of the log, and which records are shown.
use crate::text::holds;
use crate::text::lemma_index_of;
use crate::text::lower;
use crate::text::lowercase;
use crate::text::trim;
use crate::text::whitespace;
use crate::ui::diagnostics::bracketed;
use crate::ui::diagnostics::direction_named;
use crate::ui::diagnostics::last_of;
use crate::ui::diagnostics::matching;
use crate::ui::diagnostics::record_of;
use crate::ui::diagnostics::row_update;
use crate::ui::diagnostics::stage_of;
use crate::ui::diagnostics::value_from;
use crate::ui::diagnostics::value_in;
use crate::ui::diagnostics::word_value;
use crate::ui::diagnostics::DiagnosticFilter;
use crate::ui::diagnostics::LiveDiagnostic;
use crate::ui::diagnostics::RowUpdate;
use crate::wording::law_trimming_takes_whitespace_alone;
use crate::ui::diagnostics::pauses;
use crate::ui::diagnostics::pushes;
use crate::ui::diagnostics::DiagnosticStore;
use vstd::prelude::*;

verus! {

/// A text that has what is searched for, in capitals or small letters.
pub open spec fn mentions(text: Seq<char>, query: Seq<char>) -> bool {
    holds(lowercase(text), lowercase(trim(query)))
}

/// A record is shown if and only if it has the level, the stage and the direction that
/// were chosen, where one was, and what is searched for is in any of its texts.
pub proof fn law_records_are_found_by_any_text(f: DiagnosticFilter, e: LiveDiagnostic)
    ensures
        crate::ui::diagnostics::matches(f, e) <==> {
            &&& f.level@ == "all"@ || e.level@ == f.level@
            &&& f.stage@ == "all"@ || e.stage@ == f.stage@
            &&& f.direction@ == "all"@ || e.direction@ == f.direction@
            &&& {
                ||| trim(f.query@).len() == 0
                ||| mentions(e.message@, f.query@)
                ||| mentions(e.correlation@, f.query@)
                ||| mentions(e.direction@, f.query@)
                ||| mentions(e.stage@, f.query@)
                ||| mentions(e.level@, f.query@)
                ||| mentions(e.timestamp@, f.query@)
            }
        },
{
}

/// The records that are shown are those that the filter lets through, all of them, in
/// the order in which they came; where they are too many, the newest.
pub proof fn law_the_newest_records_are_shown(
    f: DiagnosticFilter,
    entries: Seq<LiveDiagnostic>,
    limit: nat,
)
    ensures
        matching(f, entries) == entries.filter(|e: LiveDiagnostic| crate::ui::diagnostics::matches(f, e)),
        ({
            let all = entries.filter(|e: LiveDiagnostic| crate::ui::diagnostics::matches(f, e));
            let shown = last_of(matching(f, entries), limit);
            &&& shown.len() == (if all.len() < limit {
                all.len()
            } else {
                limit
            })
            &&& forall|i: int|
                0 <= i < shown.len() ==> #[trigger] shown[i] == all[all.len() - shown.len() + i]
        }),
    decreases entries.len(),
{
    reveal(Seq::filter);
    if entries.len() > 0 {
        law_the_newest_records_are_shown(f, entries.drop_last(), limit);
        assert(matching(f, entries) =~= entries.filter(|e: LiveDiagnostic| crate::ui::diagnostics::matches(f, e)));
    } else {
        assert(matching(f, entries) =~= entries.filter(|e: LiveDiagnostic| crate::ui::diagnostics::matches(f, e)));
    }
}

proof fn lemma_bracketed(a: Seq<char>, rest: Seq<char>)
    requires
        !a.contains(']'),
    ensures
        bracketed(seq!['['] + a + seq![']'] + rest) == Some((a, rest)),
{
    let s = seq!['['] + a + seq![']'] + rest;
    let inner = s.drop_first();
    let n = a.len() as int;
    assert(inner =~= a + seq![']'] + rest);
    assert forall|j: int| 0 <= j < n implies inner[j] != ']' by {
        assert(a.contains(a[j]));
    }
    assert(inner[n] == ']');
    lemma_index_of(inner, ']', n);
    assert(inner.take(n) =~= a);
    assert(inner.skip(n + 1) =~= rest);
}

/// A line of the log has its time, its level and its target in brackets, and then its
/// message. The record has the time, the level in small letters (a warning by its whole
/// name), and the message without the blanks around it.
pub proof fn law_lines_are_read(
    line: Seq<char>,
    timestamp: Seq<char>,
    level: Seq<char>,
    target: Seq<char>,
    rest: Seq<char>,
)
    requires
        !timestamp.contains(']'),
        !level.contains(']'),
        !target.contains(']'),
        rest.len() > 0,
        !whitespace(rest.last()),
        line == seq!['['] + timestamp + seq![']'] + (seq!['['] + level + seq![']'] + (seq!['[']
            + target + seq![']'] + rest)),
    ensures
        record_of(line) matches Some(r) && {
            &&& r.timestamp == timestamp
            &&& r.message == trim(rest)
            &&& lower(level) != "warn"@ ==> r.level == lower(level)
            &&& lower(level) == "warn"@ ==> r.level == "warning"@
            &&& value_in(trim(rest), "stage"@) matches Some(v) ==> r.stage == lower(v)
            &&& value_in(trim(rest), "stage"@) is None ==> r.stage == lower(
                stage_of(target, trim(rest)),
            )
            &&& value_in(trim(rest), "direction"@) matches Some(v) ==> r.direction
                == direction_named(v)
            &&& value_in(trim(rest), "direction"@) is None ==> r.direction.len() == 0
            &&& value_in(trim(rest), "correlation"@) matches Some(v) ==> r.correlation == v
            &&& value_in(trim(rest), "correlation"@) is None && (value_in(
                trim(rest),
                "transfer"@,
            ) is Some) ==> Some(r.correlation) == value_in(trim(rest), "transfer"@)
        },
{
    let third = seq!['['] + target + seq![']'] + rest;
    let second = seq!['['] + level + seq![']'] + third;
    let (i, j) = law_trimming_takes_whitespace_alone(line);
    assert(line[0] == '[');
    assert(!whitespace('['));
    assert(line.last() == rest.last());
    assert(i == 0) by {
        if i > 0 {
            assert(whitespace(line[0]));
        }
    }
    assert(j == line.len()) by {
        if j < line.len() {
            assert(whitespace(line[line.len() - 1]));
        }
    }
    assert(trim(line) =~= line);
    lemma_bracketed(timestamp, second);
    lemma_bracketed(level, third);
    lemma_bracketed(target, rest);
}

/// A line that does not start with a bracket is no record.
pub proof fn law_other_lines_are_no_records(line: Seq<char>)
    requires
        trim(line).len() == 0 || trim(line)[0] != '[',
    ensures
        record_of(line) is None,
{
}

/// Both ways of naming a direction are the same one, in capitals and small letters.
pub proof fn law_directions_have_one_name(s: Seq<char>)
    ensures
        lower(s) == "inbound"@ || lower(s) == "incoming"@ ==> direction_named(s) == "incoming"@,
        lower(s) == "outbound"@ || lower(s) == "outgoing"@ ==> direction_named(s) == "outgoing"@,
{
    reveal_strlit("inbound");
    reveal_strlit("incoming");
    reveal_strlit("outbound");
    reveal_strlit("outgoing");
    assert("inbound"@[0] == 'i' && "incoming"@[0] == 'i');
    assert("outbound"@[0] == 'o' && "outgoing"@[0] == 'o');
}

/// A value is what stands behind its name and an equals sign, in the first word that has
/// it, without brackets and commas around it.
pub proof fn law_values_stand_behind_their_name(
    ws: Seq<Seq<char>>,
    i: int,
    key: Seq<char>,
    value: Seq<char>,
)
    requires
        0 <= i < ws.len(),
        !key.contains('='),
        ws[i] == key + seq!['='] + value,
        value.len() == 0 || (!seq![',', ';', ')', ']', '}'].contains(value[0]) && !seq![
            ',',
            ';',
            ')',
            ']',
            '}',
        ].contains(value.last())),
        forall|j: int| 0 <= j < i ==> word_value(#[trigger] ws[j], key) is None,
    ensures
        value_from(ws, key, 0) == Some(value),
{
    let marks = seq![',', ';', ')', ']', '}'];
    let word = ws[i];
    let n = key.len() as int;
    assert forall|j: int| 0 <= j < n implies word[j] != '=' by {
        assert(key.contains(key[j]));
    }
    lemma_index_of(word, '=', n);
    assert(word.take(n) =~= key);
    assert(word.skip(n + 1) =~= value);
    assert(marks[0] == ',' && marks[1] == ';' && marks[2] == ')' && marks[3] == ']' && marks[4]
        == '}');
    if value.len() > 0 {
        assert(!crate::ui::diagnostics::closing(value[0]));
        assert(!crate::ui::diagnostics::closing(value.last()));
    }
    assert(word_value(word, key) == Some(value));
    lemma_value_from(ws, key, 0, i);
}

proof fn lemma_value_from(ws: Seq<Seq<char>>, key: Seq<char>, from: int, i: int)
    requires
        0 <= from <= i < ws.len(),
        word_value(ws[i], key) is Some,
        forall|j: int| from <= j < i ==> word_value(#[trigger] ws[j], key) is None,
    ensures
        value_from(ws, key, from) == word_value(ws[i], key),
    decreases i - from,
{
    if from < i {
        lemma_value_from(ws, key, from + 1, i);
    }
}

/// What the log is about: whatever mentions the clipboard is of the clipboard, then
/// capture and emulation, then authorization, and the rest is of the network.
pub proof fn law_stages_by_what_is_mentioned(target: Seq<char>, message: Seq<char>)
    ensures
        ({
            let s = lower(target + seq![' '] + message);
            let clipboard = holds(s, "clipboard"@) || holds(s, "manifest"@) || holds(
                s,
                "selection"@,
            ) || holds(s, "paste"@);
            let capture = holds(s, "capture"@) || holds(s, "emulation"@);
            let authorization = holds(s, "authoriz"@) || holds(s, "fingerprint"@);
            &&& clipboard ==> stage_of(target, message) == "clipboard"@
            &&& !clipboard && capture ==> stage_of(target, message) == "capture"@
            &&& !clipboard && !capture && authorization ==> stage_of(target, message)
                == "authorization"@
            &&& !clipboard && !capture && !authorization ==> stage_of(target, message)
                == "network"@
        }),
{
    assert(target.push(' ') + message =~= target + seq![' '] + message);
}

/// The rows are built anew where the filter changed or all of them are new, kept where
/// nothing came, and otherwise grow by what came.
pub proof fn law_rows_grow_by_what_came(shown: (u64, u64), appended: u64, revision: u64, rows: nat)
    requires
        rows <= usize::MAX,
    ensures
        revision != shown.1 ==> row_update(shown, appended, revision, rows) == RowUpdate::Replace,
        revision == shown.1 && appended == shown.0 ==> row_update(shown, appended, revision, rows)
            == RowUpdate::Keep,
        revision == shown.1 && shown.0 < appended < shown.0 + rows ==> row_update(
            shown,
            appended,
            revision,
            rows,
        ) == RowUpdate::Append((appended - shown.0) as usize),
{
}

/// A record that comes is the newest; at most 2000 are kept, and none leaves before there
/// are more. While the view is paused it does not change.
pub proof fn law_records_are_kept(
    before: DiagnosticStore,
    entry: LiveDiagnostic,
    after: DiagnosticStore,
)
    requires
        pushes(before, entry, after),
    ensures
        after.entries@.len() > 0,
        after.entries@.last() == entry,
        before.entries@.len() < 2000 ==> after.entries@ == before.entries@.push(entry),
        after.entries@.len() <= 2000,
        before.paused_entries is Some ==> after.visible() == before.visible(),
        before.paused_entries is None ==> after.visible() == after.entries@,
        after.filter == before.filter,
{
}

/// Pausing holds what is in view, and going on shows what has come since.
pub proof fn law_pauses_hold_the_view(
    before: DiagnosticStore,
    paused: bool,
    after: DiagnosticStore,
)
    requires
        pauses(before, paused, after),
        before.filter.paused == (before.paused_entries is Some),
    ensures
        after.filter.paused == paused,
        after.entries@ == before.entries@,
        paused && !before.filter.paused ==> after.visible() == before.entries@
            && after.paused_entries is Some,
        !paused ==> after.visible() == before.entries@,
        paused == before.filter.paused ==> after.visible() == before.visible(),
        after.filter.query == before.filter.query && after.filter.level == before.filter.level,
{
}

} // verus!
