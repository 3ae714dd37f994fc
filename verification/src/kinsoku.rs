//! Forbidden-character migration over wrapped lines ("kinsoku"):
//! script-specific rules forbid certain characters from starting or
//! ending a line.
//!
//! Leading-forbidden migration scans the lines in reverse, pulling a
//! disallowed leading character back onto the end of the previous
//! line, carrying it as a pending character from line to line; a line
//! that is a single disallowed character is kept as it is, to avoid
//! endless regress, and a pending character is carried onward past
//! it.  Trailing-forbidden migration scans forward and
//! pushes a disallowed trailing character onto the start of the next
//! line under the same single-character exception.  A line of nothing
//! but whitespace becomes empty.  Both passes leave lines that already
//! satisfy their rule untouched, so a second application of a pass
//! returns its input whenever the first application's result satisfies
//! the rule.

use vstd::prelude::*;
use crate::wrap::lines_view;

verus! {

/// The whitespace characters line blanking recognizes.
pub open spec fn is_space_char(c: char) -> bool {
    c == ' ' || c == '\t' || c == '\r' || c == '\n' || c == '\u{3000}'
}

/// Whether a character counts as whitespace for line blanking.
pub fn is_space(c: char) -> (r: bool)
    ensures
        r == is_space_char(c),
{
    c == ' ' || c == '\t' || c == '\r' || c == '\n' || c == '\u{3000}'
}

/// A line of nothing but whitespace (the empty line included).
pub open spec fn is_blank_line(line: Seq<char>) -> bool {
    forall|i: int| 0 <= i < line.len() ==> is_space_char(#[trigger] line[i])
}

/// Whether a line is nothing but whitespace.
pub fn line_is_blank(line: &Vec<char>) -> (r: bool)
    ensures
        r == is_blank_line(line@),
{
    let mut i: usize = 0;
    while i < line.len()
        invariant
            0 <= i <= line@.len(),
            forall|j: int| 0 <= j < i ==> is_space_char(#[trigger] line@[j]),
        decreases line@.len() - i,
    {
        if !is_space(line[i]) {
            return false;
        }
        i = i + 1;
    }
    true
}

/// How many whitespace characters the line starts with.
pub open spec fn spec_leading_spaces(line: Seq<char>) -> int
    decreases line.len(),
{
    if line.len() == 0 || !is_space_char(line[0]) {
        0
    } else {
        1 + spec_leading_spaces(line.drop_first())
    }
}

/// How many whitespace characters the line ends with.
pub open spec fn spec_trailing_spaces(line: Seq<char>) -> int
    decreases line.len(),
{
    if line.len() == 0 || !is_space_char(line.last()) {
        0
    } else {
        1 + spec_trailing_spaces(line.drop_last())
    }
}

/// The number of characters left when surrounding whitespace is
/// trimmed from a line that is not all whitespace.
pub open spec fn spec_trimmed_len(line: Seq<char>) -> int {
    line.len() - spec_leading_spaces(line) - spec_trailing_spaces(line)
}

/// Counts the characters left when surrounding whitespace is trimmed.
pub fn trimmed_len(line: &Vec<char>) -> (r: usize)
    requires
        !is_blank_line(line@),
    ensures
        r == spec_trimmed_len(line@),
{
    proof {
        lemma_spaces_bounded(line@);
    }
    let mut lead: usize = 0;
    proof {
        assert(line@.skip(0) =~= line@);
    }
    while lead < line.len() && is_space(line[lead])
        invariant
            0 <= lead <= line@.len(),
            spec_leading_spaces(line@) == lead + spec_leading_spaces(line@.skip(lead as int)),
            forall|j: int| 0 <= j < lead ==> is_space_char(#[trigger] line@[j]),
        decreases line@.len() - lead,
    {
        proof {
            assert(line@.skip(lead as int)[0] == line@[lead as int]);
            assert(line@.skip(lead as int).drop_first() =~= line@.skip(lead as int + 1));
        }
        lead = lead + 1;
    }
    proof {
        if lead < line@.len() {
            assert(line@.skip(lead as int)[0] == line@[lead as int]);
        } else {
            assert(!is_blank_line(line@));
            assert(false);
        }
        assert(spec_leading_spaces(line@) == lead);
    }
    let mut trail: usize = 0;
    proof {
        assert(line@.take(line@.len() as int) =~= line@);
    }
    let mut t = line.len();
    while t > 0 && is_space(line[t - 1])
        invariant
            0 <= t <= line@.len(),
            trail == line@.len() - t,
            spec_trailing_spaces(line@)
                == trail + spec_trailing_spaces(line@.take(t as int)),
            forall|j: int| t <= j < line@.len() ==> is_space_char(#[trigger] line@[j]),
        decreases t,
    {
        proof {
            assert(line@.take(t as int).last() == line@[t as int - 1]);
            assert(line@.take(t as int).drop_last() =~= line@.take(t as int - 1));
        }
        t = t - 1;
        trail = trail + 1;
    }
    proof {
        if t > 0 {
            assert(line@.take(t as int).last() == line@[t as int - 1]);
        } else {
            assert(line@.take(0).len() == 0);
        }
        assert(spec_trailing_spaces(line@) == trail);
        lemma_lead_trail_fit(line@);
    }
    line.len() - lead - trail
}

/// Leading and trailing space counts are within the line's length.
proof fn lemma_spaces_bounded(line: Seq<char>)
    ensures
        0 <= spec_leading_spaces(line) <= line.len(),
        0 <= spec_trailing_spaces(line) <= line.len(),
    decreases line.len(),
{
    if line.len() > 0 {
        lemma_spaces_bounded(line.drop_first());
        lemma_spaces_bounded(line.drop_last());
    }
}

/// On a line that is not all whitespace, the leading and trailing
/// space runs do not overlap.
proof fn lemma_lead_trail_fit(line: Seq<char>)
    requires
        !is_blank_line(line),
    ensures
        spec_leading_spaces(line) + spec_trailing_spaces(line) <= line.len(),
        spec_trimmed_len(line) >= 1,
    decreases line.len(),
{
    lemma_spaces_bounded(line);
    let k = choose|k: int| 0 <= k < line.len() && !is_space_char(line[k]);
    lemma_lead_stops(line, k);
    lemma_trail_stops(line, k);
}

/// A non-space character at `k` bounds the leading space run by `k`.
proof fn lemma_lead_stops(line: Seq<char>, k: int)
    requires
        0 <= k < line.len(),
        !is_space_char(line[k]),
    ensures
        spec_leading_spaces(line) <= k,
    decreases k,
{
    if k > 0 && is_space_char(line[0]) {
        assert(line.drop_first()[k - 1] == line[k]);
        lemma_lead_stops(line.drop_first(), k - 1);
    }
}

/// A non-space character at `k` bounds the trailing space run.
proof fn lemma_trail_stops(line: Seq<char>, k: int)
    requires
        0 <= k < line.len(),
        !is_space_char(line[k]),
    ensures
        spec_trailing_spaces(line) <= line.len() - 1 - k,
    decreases line.len(),
{
    if k < line.len() - 1 && is_space_char(line.last()) {
        assert(line.drop_last()[k] == line[k]);
        lemma_trail_stops(line.drop_last(), k);
    }
}

/// One migration step of the leading-forbidden pass: what a single
/// line becomes, given the pending character pulled off the following
/// line, and the pending character it hands on.
pub open spec fn start_step(
    line: Seq<char>,
    forbidden: Seq<char>,
    pending: Option<char>,
) -> (Seq<char>, Option<char>) {
    if is_blank_line(line) {
        (Seq::empty(), pending)
    } else if forbidden.contains(line[0]) {
        if spec_trimmed_len(line) == 1 {
            (line, pending)
        } else {
            match pending {
                Some(p) => (line.drop_first().push(p), Some(line[0])),
                None => (line.drop_first(), Some(line[0])),
            }
        }
    } else {
        match pending {
            Some(p) => (line.push(p), None),
            None => (line, None),
        }
    }
}

/// The leading-forbidden pass over a line list, processed from the
/// last line toward the first: the migrated lines and the character
/// still pending at the front.
pub open spec fn start_scan(
    lines: Seq<Seq<char>>,
    forbidden: Seq<char>,
) -> (Seq<Seq<char>>, Option<char>)
    decreases lines.len(),
{
    if lines.len() == 0 {
        (Seq::empty(), None)
    } else {
        let (tail, pending) = start_scan(lines.drop_first(), forbidden);
        let (migrated, out) = start_step(lines[0], forbidden, pending);
        (seq![migrated] + tail, out)
    }
}

/// The leading-forbidden migration of a line list: the scan's result,
/// with a character still pending at the front prepended to the first
/// line.
pub open spec fn spec_filter_start(lines: Seq<Seq<char>>, forbidden: Seq<char>) -> Seq<Seq<char>> {
    let (result, pending) = start_scan(lines, forbidden);
    match pending {
        None => result,
        Some(p) => if result.len() > 0 {
            result.update(0, seq![p] + result[0])
        } else {
            seq![seq![p]]
        },
    }
}

/// Lines that satisfy the leading rule: every line is empty, or
/// neither blank nor led by a forbidden character.
pub open spec fn satisfies_start_rule(lines: Seq<Seq<char>>, forbidden: Seq<char>) -> bool {
    forall|i: int| 0 <= i < lines.len() ==> {
        let line = #[trigger] lines[i];
        line.len() == 0 || (!is_blank_line(line) && !forbidden.contains(line[0]))
    }
}

/// Lines that satisfy the trailing rule: every line is empty, or
/// neither blank nor ended by a forbidden character.
pub open spec fn satisfies_end_rule(lines: Seq<Seq<char>>, forbidden: Seq<char>) -> bool {
    forall|i: int| 0 <= i < lines.len() ==> {
        let line = #[trigger] lines[i];
        line.len() == 0 || (!is_blank_line(line) && !forbidden.contains(line.last()))
    }
}

/// The scan leaves rule-satisfying lines untouched and pends nothing.
proof fn lemma_start_scan_identity(lines: Seq<Seq<char>>, forbidden: Seq<char>)
    requires
        satisfies_start_rule(lines, forbidden),
    ensures
        start_scan(lines, forbidden) == (lines, Option::<char>::None),
    decreases lines.len(),
{
    if lines.len() > 0 {
        assert(satisfies_start_rule(lines.drop_first(), forbidden)) by {
            assert forall|i: int| 0 <= i < lines.drop_first().len() implies {
                let line = #[trigger] lines.drop_first()[i];
                line.len() == 0 || (!is_blank_line(line) && !forbidden.contains(line[0]))
            } by {
                assert(lines.drop_first()[i] == lines[i + 1]);
            }
        }
        lemma_start_scan_identity(lines.drop_first(), forbidden);
        let line = lines[0];
        if line.len() == 0 {
            assert(is_blank_line(line));
            assert(start_step(line, forbidden, None) == (Seq::<char>::empty(), Option::<char>::None));
            assert(Seq::<char>::empty() =~= line);
        } else {
            assert(!is_blank_line(line) && !forbidden.contains(line[0]));
            assert(start_step(line, forbidden, None) == (line, Option::<char>::None));
        }
        assert(seq![lines[0]] + lines.drop_first() =~= lines);
    }
}

/// Migration is the identity on lines that already satisfy the
/// leading rule.
pub proof fn lemma_filter_start_identity(lines: Seq<Seq<char>>, forbidden: Seq<char>)
    requires
        satisfies_start_rule(lines, forbidden),
    ensures
        spec_filter_start(lines, forbidden) == lines,
{
    lemma_start_scan_identity(lines, forbidden);
}

/// Law: applying leading-forbidden migration twice yields the same
/// result as applying it once, whenever one application's result
/// satisfies the rule (in particular on input that already does).
pub proof fn lemma_filter_start_idempotent(lines: Seq<Seq<char>>, forbidden: Seq<char>)
    requires
        satisfies_start_rule(spec_filter_start(lines, forbidden), forbidden),
    ensures
        spec_filter_start(spec_filter_start(lines, forbidden), forbidden)
            == spec_filter_start(lines, forbidden),
{
    lemma_filter_start_identity(spec_filter_start(lines, forbidden), forbidden);
}

/// One migration step of the trailing-forbidden pass: what a single
/// line becomes, given the pending character pushed off the previous
/// line, and the pending character it hands on.
pub open spec fn end_step(
    line: Seq<char>,
    forbidden: Seq<char>,
    pending: Option<char>,
) -> (Seq<char>, Option<char>) {
    if is_blank_line(line) {
        (Seq::empty(), pending)
    } else if forbidden.contains(line.last()) {
        if spec_trimmed_len(line) == 1 {
            (line, pending)
        } else {
            match pending {
                Some(p) => (seq![p] + line.drop_last(), Some(line.last())),
                None => (line.drop_last(), Some(line.last())),
            }
        }
    } else {
        match pending {
            Some(p) => (seq![p] + line, None),
            None => (line, None),
        }
    }
}

/// The trailing-forbidden pass over a line list, processed from the
/// first line toward the last: the migrated lines and the character
/// still pending at the end.
pub open spec fn end_scan(
    lines: Seq<Seq<char>>,
    forbidden: Seq<char>,
) -> (Seq<Seq<char>>, Option<char>)
    decreases lines.len(),
{
    if lines.len() == 0 {
        (Seq::empty(), None)
    } else {
        let (head, pending) = end_scan(lines.drop_last(), forbidden);
        let (migrated, out) = end_step(lines.last(), forbidden, pending);
        (head.push(migrated), out)
    }
}

/// The trailing-forbidden migration of a line list: the scan's result,
/// with a character still pending at the end appended to the last
/// line.
pub open spec fn spec_filter_end(lines: Seq<Seq<char>>, forbidden: Seq<char>) -> Seq<Seq<char>> {
    let (result, pending) = end_scan(lines, forbidden);
    match pending {
        None => result,
        Some(p) => if result.len() > 0 {
            result.update(result.len() - 1, result.last().push(p))
        } else {
            seq![seq![p]]
        },
    }
}

/// The scan leaves rule-satisfying lines untouched and pends nothing.
proof fn lemma_end_scan_identity(lines: Seq<Seq<char>>, forbidden: Seq<char>)
    requires
        satisfies_end_rule(lines, forbidden),
    ensures
        end_scan(lines, forbidden) == (lines, Option::<char>::None),
    decreases lines.len(),
{
    if lines.len() > 0 {
        assert(satisfies_end_rule(lines.drop_last(), forbidden)) by {
            assert forall|i: int| 0 <= i < lines.drop_last().len() implies {
                let line = #[trigger] lines.drop_last()[i];
                line.len() == 0 || (!is_blank_line(line) && !forbidden.contains(line.last()))
            } by {
                assert(lines.drop_last()[i] == lines[i]);
            }
        }
        lemma_end_scan_identity(lines.drop_last(), forbidden);
        let line = lines.last();
        if line.len() == 0 {
            assert(is_blank_line(line));
            assert(Seq::<char>::empty() =~= line);
        } else {
            assert(!is_blank_line(line) && !forbidden.contains(line.last()));
        }
        assert(lines.drop_last().push(lines.last()) =~= lines);
    }
}

/// Migration is the identity on lines that already satisfy the
/// trailing rule.
pub proof fn lemma_filter_end_identity(lines: Seq<Seq<char>>, forbidden: Seq<char>)
    requires
        satisfies_end_rule(lines, forbidden),
    ensures
        spec_filter_end(lines, forbidden) == lines,
{
    lemma_end_scan_identity(lines, forbidden);
}

/// Law: applying trailing-forbidden migration twice yields the same
/// result as applying it once, whenever one application's result
/// satisfies the rule (in particular on input that already does).
pub proof fn lemma_filter_end_idempotent(lines: Seq<Seq<char>>, forbidden: Seq<char>)
    requires
        satisfies_end_rule(spec_filter_end(lines, forbidden), forbidden),
    ensures
        spec_filter_end(spec_filter_end(lines, forbidden), forbidden)
            == spec_filter_end(lines, forbidden),
{
    lemma_filter_end_identity(spec_filter_end(lines, forbidden), forbidden);
}

/// Whether a character list holds a character.
fn chars_contain(chars: &Vec<char>, c: char) -> (r: bool)
    ensures
        r == chars@.contains(c),
{
    let mut i: usize = 0;
    while i < chars.len()
        invariant
            0 <= i <= chars@.len(),
            forall|j: int| 0 <= j < i ==> chars@[j] != c,
        decreases chars@.len() - i,
    {
        if chars[i] == c {
            return true;
        }
        i = i + 1;
    }
    false
}

/// Migrates forbidden leading characters: scans the lines in reverse,
/// pulling a disallowed leading character back onto the end of the
/// previous line.  A line that is a single disallowed character stays
/// as it is; an all-whitespace line becomes empty.
pub fn filter_start_forbidden_chars(
    lines: Vec<Vec<char>>,
    forbidden_chars: &Vec<char>,
) -> (r: Vec<Vec<char>>)
    ensures
        lines_view(r@) == spec_filter_start(lines_view(lines@), forbidden_chars@),
{
    let ghost all = lines_view(lines@);
    let mut filtered: Vec<Vec<char>> = Vec::new();
    let mut char_to_append: Option<char> = None;
    let mut i = lines.len();
    proof {
        assert(all.skip(i as int) =~= Seq::<Seq<char>>::empty());
        assert(lines_view(filtered@) =~= Seq::<Seq<char>>::empty());
    }
    while i > 0
        invariant
            0 <= i <= lines@.len(),
            (lines_view(filtered@), char_to_append)
                == start_scan(all.skip(i as int), forbidden_chars@),
        decreases i,
    {
        let line = &lines[i - 1];
        proof {
            assert(all.skip(i as int - 1)[0] == line@);
            assert(all.skip(i as int - 1).drop_first() =~= all.skip(i as int));
        }
        let ghost pend_in = char_to_append;
        let ghost pre = lines_view(filtered@);
        if line_is_blank(line) {
            let blank: Vec<char> = Vec::new();
            filtered.insert(0, blank);
            proof {
                assert(lines_view(filtered@) =~= seq![Seq::<char>::empty()] + pre);
            }
        } else {
            let first = line[0];
            if chars_contain(forbidden_chars, first) {
                if trimmed_len(line) == 1 {
                    // A single disallowed character: kept as it is; a
                    // pending character stays pending past it.
                    filtered.insert(0, line.clone());
                    proof {
                        assert(lines_view(filtered@) =~= seq![line@] + pre);
                    }
                } else {
                    let mut remaining = line.clone();
                    remaining.remove(0);
                    proof {
                        assert(remaining@ =~= line@.drop_first());
                    }
                    match char_to_append {
                        Some(p) => {
                            remaining.push(p);
                            proof {
                                assert(remaining@ =~= line@.drop_first().push(p));
                            }
                        }
                        None => {}
                    }
                    let ghost remv = remaining@;
                    filtered.insert(0, remaining);
                    char_to_append = Some(first);
                    proof {
                        assert(lines_view(filtered@) =~= seq![remv] + pre);
                    }
                }
            } else {
                match char_to_append {
                    Some(p) => {
                        let mut extended = line.clone();
                        extended.push(p);
                        let ghost extv = extended@;
                        filtered.insert(0, extended);
                        char_to_append = None;
                        proof {
                            assert(extv =~= line@.push(p));
                            assert(lines_view(filtered@) =~= seq![extv] + pre);
                        }
                    }
                    None => {
                        filtered.insert(0, line.clone());
                        proof {
                            assert(lines_view(filtered@) =~= seq![line@] + pre);
                        }
                    }
                }
            }
        }
        i = i - 1;
    }
    proof {
        assert(all.skip(0) =~= all);
    }
    match char_to_append {
        Some(p) => {
            if filtered.len() > 0 {
                let ghost pre = lines_view(filtered@);
                let mut first_item = filtered.remove(0);
                first_item.insert(0, p);
                proof {
                    assert(first_item@ =~= seq![p] + pre[0]);
                }
                let ghost firstv = first_item@;
                filtered.insert(0, first_item);
                proof {
                    assert(lines_view(filtered@) =~= pre.update(0, firstv));
                }
            } else {
                let mut single: Vec<char> = Vec::new();
                single.push(p);
                let ghost singlev = single@;
                filtered.push(single);
                proof {
                    assert(singlev =~= seq![p]);
                    assert(lines_view(filtered@) =~= seq![seq![p]]);
                }
            }
        }
        None => {}
    }
    filtered
}

/// Migrates forbidden trailing characters: scans the lines forward,
/// pushing a disallowed trailing character onto the start of the next
/// line.  A line that is a single disallowed character stays as it is;
/// an all-whitespace line becomes empty.
pub fn filter_end_forbidden_chars(
    lines: Vec<Vec<char>>,
    forbidden_chars: &Vec<char>,
) -> (r: Vec<Vec<char>>)
    ensures
        lines_view(r@) == spec_filter_end(lines_view(lines@), forbidden_chars@),
{
    let ghost all = lines_view(lines@);
    let mut filtered: Vec<Vec<char>> = Vec::new();
    let mut char_to_prepend: Option<char> = None;
    let mut i: usize = 0;
    proof {
        assert(all.take(0) =~= Seq::<Seq<char>>::empty());
        assert(lines_view(filtered@) =~= Seq::<Seq<char>>::empty());
    }
    while i < lines.len()
        invariant
            0 <= i <= lines@.len(),
            (lines_view(filtered@), char_to_prepend)
                == end_scan(all.take(i as int), forbidden_chars@),
        decreases lines@.len() - i,
    {
        let line = &lines[i];
        proof {
            assert(all.take(i as int + 1).last() == line@);
            assert(all.take(i as int + 1).drop_last() =~= all.take(i as int));
        }
        let ghost pre = lines_view(filtered@);
        if line_is_blank(line) {
            let blank: Vec<char> = Vec::new();
            filtered.push(blank);
            proof {
                assert(lines_view(filtered@) =~= pre.push(Seq::<char>::empty()));
            }
        } else {
            let last = line[line.len() - 1];
            proof {
                assert(line@.last() == line@[line@.len() - 1]);
            }
            if chars_contain(forbidden_chars, last) {
                if trimmed_len(line) == 1 {
                    // A single disallowed character: kept as it is; a
                    // pending character stays pending past it.
                    filtered.push(line.clone());
                    proof {
                        assert(lines_view(filtered@) =~= pre.push(line@));
                    }
                } else {
                    let mut remaining = line.clone();
                    remaining.pop();
                    proof {
                        assert(remaining@ =~= line@.drop_last());
                    }
                    match char_to_prepend {
                        Some(p) => {
                            remaining.insert(0, p);
                            proof {
                                assert(remaining@ =~= seq![p] + line@.drop_last());
                            }
                        }
                        None => {}
                    }
                    let ghost remv = remaining@;
                    filtered.push(remaining);
                    char_to_prepend = Some(last);
                    proof {
                        assert(lines_view(filtered@) =~= pre.push(remv));
                    }
                }
            } else {
                match char_to_prepend {
                    Some(p) => {
                        let mut extended = line.clone();
                        extended.insert(0, p);
                        let ghost extv = extended@;
                        filtered.push(extended);
                        char_to_prepend = None;
                        proof {
                            assert(extv =~= seq![p] + line@);
                            assert(lines_view(filtered@) =~= pre.push(extv));
                        }
                    }
                    None => {
                        filtered.push(line.clone());
                        proof {
                            assert(lines_view(filtered@) =~= pre.push(line@));
                        }
                    }
                }
            }
        }
        i = i + 1;
    }
    proof {
        assert(all.take(lines@.len() as int) =~= all);
    }
    match char_to_prepend {
        Some(p) => {
            if filtered.len() > 0 {
                let ghost pre = lines_view(filtered@);
                let last_index = filtered.len() - 1;
                let mut last_item = filtered.remove(last_index);
                last_item.push(p);
                proof {
                    assert(last_item@ =~= pre.last().push(p));
                }
                let ghost lastv = last_item@;
                filtered.push(last_item);
                proof {
                    assert(lines_view(filtered@) =~= pre.update(pre.len() - 1, lastv));
                }
            } else {
                let mut single: Vec<char> = Vec::new();
                single.push(p);
                let ghost singlev = single@;
                filtered.push(single);
                proof {
                    assert(singlev =~= seq![p]);
                    assert(lines_view(filtered@) =~= seq![seq![p]]);
                }
            }
        }
        None => {}
    }
    filtered
}


/// The wide-script leading-forbidden character set.
pub open spec fn line_start_forbidden_ja_chars() -> Seq<char> {
    seq![
        '、', '。', ',', '.',
        '」', '』', ')', '}', '】', '>', '≫', ']',
        '・', 'ー', '―', '-',
        '!', '！', '?', '？', ':', '：', ';', '；', '/', '／',
        'ゝ', '々', '〃',
        'ぁ', 'ぃ', 'ぅ', 'ぇ', 'ぉ', 'っ', 'ゃ', 'ゅ', 'ょ',
        'ァ', 'ィ', 'ゥ', 'ェ', 'ォ', 'ッ', 'ャ', 'ュ', 'ョ',
    ]
}

/// The wide-script trailing-forbidden character set.
pub open spec fn line_end_forbidden_ja_chars() -> Seq<char> {
    seq![
        '「', '『', '（', '｛', '【', '＜', '≪', '［',
        '〘', '〖', '〝', '\'', '"', '｟', '«',
    ]
}

/// The Latin-script trailing-forbidden character set.
pub open spec fn line_end_forbidden_de_chars() -> Seq<char> {
    seq!['-', '–', '—', '(', '[', '{', '„', '“', '\'']
}

/// The Latin-script leading-forbidden character set.
pub open spec fn line_start_forbidden_de_chars() -> Seq<char> {
    seq!['.', ',', '!', '?', ':', ';', ')', ']', '}', '“', '”', '"', '\'']
}

/// The wide punctuation, closing brackets, symbols, iteration marks
/// and small kana that must not start a line.
pub fn line_start_forbidden_ja() -> (r: Vec<char>)
    ensures
        r@ == line_start_forbidden_ja_chars(),
{
    let mut v: Vec<char> = Vec::new();
    v.push('、'); v.push('。'); v.push(','); v.push('.');
    v.push('」'); v.push('』'); v.push(')'); v.push('}');
    v.push('】'); v.push('>'); v.push('≫'); v.push(']');
    v.push('・'); v.push('ー'); v.push('―'); v.push('-');
    v.push('!'); v.push('！'); v.push('?'); v.push('？');
    v.push(':'); v.push('：'); v.push(';'); v.push('；');
    v.push('/'); v.push('／');
    v.push('ゝ'); v.push('々'); v.push('〃');
    v.push('ぁ'); v.push('ぃ'); v.push('ぅ'); v.push('ぇ'); v.push('ぉ');
    v.push('っ'); v.push('ゃ'); v.push('ゅ'); v.push('ょ');
    v.push('ァ'); v.push('ィ'); v.push('ゥ'); v.push('ェ'); v.push('ォ');
    v.push('ッ'); v.push('ャ'); v.push('ュ'); v.push('ョ');
    proof {
        assert(v@ =~= line_start_forbidden_ja_chars());
    }
    v
}

/// The opening brackets that must not end a line.
pub fn line_end_forbidden_ja() -> (r: Vec<char>)
    ensures
        r@ == line_end_forbidden_ja_chars(),
{
    let mut v: Vec<char> = Vec::new();
    v.push('「'); v.push('『'); v.push('（'); v.push('｛');
    v.push('【'); v.push('＜'); v.push('≪'); v.push('［');
    v.push('〘'); v.push('〖'); v.push('〝'); v.push('\'');
    v.push('"'); v.push('｟'); v.push('«');
    proof {
        assert(v@ =~= line_end_forbidden_ja_chars());
    }
    v
}

/// The dashes, opening brackets and low quotes that must not end a
/// line in Latin-script typography.
pub fn line_end_forbidden_de() -> (r: Vec<char>)
    ensures
        r@ == line_end_forbidden_de_chars(),
{
    let mut v: Vec<char> = Vec::new();
    v.push('-'); v.push('–'); v.push('—'); v.push('(');
    v.push('['); v.push('{'); v.push('„'); v.push('“');
    v.push('\'');
    proof {
        assert(v@ =~= line_end_forbidden_de_chars());
    }
    v
}

/// The punctuation and closing brackets that must not start a line in
/// Latin-script typography.
pub fn line_start_forbidden_de() -> (r: Vec<char>)
    ensures
        r@ == line_start_forbidden_de_chars(),
{
    let mut v: Vec<char> = Vec::new();
    v.push('.'); v.push(','); v.push('!'); v.push('?');
    v.push(':'); v.push(';'); v.push(')'); v.push(']');
    v.push('}'); v.push('“'); v.push('”'); v.push('"');
    v.push('\'');
    proof {
        assert(v@ =~= line_start_forbidden_de_chars());
    }
    v
}

/// Leading-forbidden migration under the wide-script rule set.
pub fn filter_start_jp(lines: Vec<Vec<char>>) -> (r: Vec<Vec<char>>)
    ensures
        lines_view(r@) == spec_filter_start(lines_view(lines@), line_start_forbidden_ja_chars()),
{
    let forbidden = line_start_forbidden_ja();
    proof {
        assert(forbidden@ == line_start_forbidden_ja_chars());
    }
    filter_start_forbidden_chars(lines, &forbidden)
}

/// Trailing-forbidden migration under the wide-script rule set.
pub fn filter_end_jp(lines: Vec<Vec<char>>) -> (r: Vec<Vec<char>>)
    ensures
        lines_view(r@) == spec_filter_end(lines_view(lines@), line_end_forbidden_ja_chars()),
{
    let forbidden = line_end_forbidden_ja();
    proof {
        assert(forbidden@ == line_end_forbidden_ja_chars());
    }
    filter_end_forbidden_chars(lines, &forbidden)
}

/// Leading-forbidden migration under the Latin-script rule set.
pub fn filter_start_de(lines: Vec<Vec<char>>) -> (r: Vec<Vec<char>>)
    ensures
        lines_view(r@) == spec_filter_start(lines_view(lines@), line_start_forbidden_de_chars()),
{
    let forbidden = line_start_forbidden_de();
    proof {
        assert(forbidden@ == line_start_forbidden_de_chars());
    }
    filter_start_forbidden_chars(lines, &forbidden)
}

/// Trailing-forbidden migration under the Latin-script rule set.
pub fn filter_end_de(lines: Vec<Vec<char>>) -> (r: Vec<Vec<char>>)
    ensures
        lines_view(r@) == spec_filter_end(lines_view(lines@), line_end_forbidden_de_chars()),
{
    let forbidden = line_end_forbidden_de();
    proof {
        assert(forbidden@ == line_end_forbidden_de_chars());
    }
    filter_end_forbidden_chars(lines, &forbidden)
}

} // verus!
