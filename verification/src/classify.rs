//! The line classifier: a single-pass scan that sorts each line terminator
//! into one of {program, blank, comment} and counts comment occurrences,
//! driven by a caller-supplied ordered list of comment delimiter patterns.

use vstd::prelude::*;

verus! {

/// The byte value of the line terminator.
pub const LINE_TERMINATOR: u8 = 10;

/// The byte value of a space.
pub const SPACE: u8 = 32;

/// The byte value of a horizontal tab.
pub const TAB: u8 = 9;

/// Whether a comment runs to the end of its line or to its own closing text.
#[derive(Clone, Copy)]
pub enum CommentMode {
    SingleLine,
    MultiLine,
}

/// One configured comment shape. For a single-line comment the closing
/// pattern is implicitly the line terminator and `closing_pattern` is unused.
pub struct CommentType {
    pub mode: CommentMode,
    pub opening_pattern: Vec<u8>,
    pub closing_pattern: Vec<u8>,
}

/// The pattern text that ends a comment opened by `ct`: the line terminator
/// for a single-line comment, the configured closing text otherwise.
pub open spec fn effective_closing(ct: CommentType) -> Seq<u8> {
    match ct.mode {
        CommentMode::SingleLine => seq![LINE_TERMINATOR],
        CommentMode::MultiLine => ct.closing_pattern@,
    }
}

/// Every opening pattern is non-empty, and so is every closing pattern that
/// can become active. The configuration layer guarantees this; the scan
/// assumes it (an empty pattern would keep the scan from advancing).
pub open spec fn patterns_wf(pats: Seq<CommentType>) -> bool {
    forall|j: int| 0 <= j < pats.len() ==> {
        &&& (#[trigger] pats[j]).opening_pattern@.len() >= 1
        &&& effective_closing(pats[j]).len() >= 1
    }
}

/// `pat` occurs in `text` starting exactly at position `i`.
pub open spec fn matches_at(text: Seq<u8>, pat: Seq<u8>, i: int) -> bool {
    &&& 0 <= i
    &&& i + pat.len() <= text.len()
    &&& forall|k: int| 0 <= k < pat.len() ==> text[i + k] == #[trigger] pat[k]
}

/// The first pattern at or after index `k` whose opening text occurs at
/// position `i`, earliest-declared first.
pub open spec fn spec_find_opening_from(
    text: Seq<u8>,
    pats: Seq<CommentType>,
    i: int,
    k: int,
) -> Option<int>
    decreases pats.len() - k,
{
    if k < 0 || k >= pats.len() {
        None
    } else if matches_at(text, pats[k].opening_pattern@, i) {
        Some(k)
    } else {
        spec_find_opening_from(text, pats, i, k + 1)
    }
}

/// The first declared pattern whose opening text occurs at position `i`.
pub open spec fn spec_find_opening(text: Seq<u8>, pats: Seq<CommentType>, i: int) -> Option<int> {
    spec_find_opening_from(text, pats, i, 0)
}

/// How far the scan advances over `pat`; a scan step always advances, even
/// where a configured pattern is empty.
pub open spec fn pattern_advance(pat: Seq<u8>) -> int {
    if pat.len() == 0 {
        1
    } else {
        pat.len() as int
    }
}

/// The scan position after advancing by `adv`, clamped to the end of text.
pub open spec fn next_scan_pos(i: int, adv: int, len: int) -> int {
    if i + adv > len {
        len
    } else {
        i + adv
    }
}

/// Componentwise sum of two counter quadruples
/// (program lines, blank lines, comment lines, comment occurrences).
pub open spec fn add4(a: (int, int, int, int), b: (int, int, int, int)) -> (int, int, int, int) {
    (a.0 + b.0, a.1 + b.1, a.2 + b.2, a.3 + b.3)
}

/// The counters produced by scanning `text` from position `i` onward in the
/// given state: `in_comment` says whether a comment span is open, `closing`
/// is the active closing pattern (meaningful only while `in_comment`), and
/// `has_content` says whether the current physical line already holds a
/// non-whitespace, non-terminator character seen outside any delimiter.
///
/// While a comment is open, the scan advances by the closing pattern's full
/// length even when the closing pattern does not occur at the current
/// position; characters inside the skipped span are never examined. This is
/// a deliberate quirk of the scan, kept as designed.
pub open spec fn spec_scan(
    text: Seq<u8>,
    pats: Seq<CommentType>,
    i: int,
    in_comment: bool,
    closing: Seq<u8>,
    has_content: bool,
) -> (int, int, int, int)
    decreases text.len() - i,
{
    if i < 0 || i >= text.len() {
        (0, 0, 0, 0)
    } else if in_comment {
        let closed = matches_at(text, closing, i);
        let is_terminator = text[i] == LINE_TERMINATOR;
        let here: (int, int, int, int) = if is_terminator {
            if has_content {
                (1, 0, 0, 0)
            } else {
                (0, 0, 1, 0)
            }
        } else {
            (0, 0, 0, 0)
        };
        let next = next_scan_pos(i, pattern_advance(closing), text.len() as int);
        add4(here, spec_scan(text, pats, next, !closed, closing, if is_terminator { false } else { has_content }))
    } else {
        match spec_find_opening(text, pats, i) {
            Some(j) => {
                let ct = pats[j];
                let next = next_scan_pos(i, pattern_advance(ct.opening_pattern@), text.len() as int);
                add4((0, 0, 0, 1), spec_scan(text, pats, next, true, effective_closing(ct), has_content))
            },
            None => {
                let c = text[i];
                if c == SPACE || c == TAB {
                    spec_scan(text, pats, i + 1, false, closing, has_content)
                } else if c == LINE_TERMINATOR {
                    let here: (int, int, int, int) = if has_content {
                        (1, 0, 0, 0)
                    } else {
                        (0, 1, 0, 0)
                    };
                    add4(here, spec_scan(text, pats, i + 1, false, closing, false))
                } else {
                    spec_scan(text, pats, i + 1, false, closing, true)
                }
            },
        }
    }
}

/// The classification of a whole text: the scan started at the beginning,
/// outside any comment, on a line without content, as
/// (program lines, blank lines, comment lines, comment occurrences).
pub open spec fn spec_classify(text: Seq<u8>, pats: Seq<CommentType>) -> (int, int, int, int) {
    spec_scan(text, pats, 0, false, Seq::empty(), false)
}

/// The number of line terminators at positions the scan examines, starting
/// at position `i` in the given state. Bytes inside a consumed opening
/// delimiter, and bytes inside the span skipped while an open comment is
/// searched for its closing pattern, are never examined.
pub open spec fn spec_scanned_terminators(
    text: Seq<u8>,
    pats: Seq<CommentType>,
    i: int,
    in_comment: bool,
    closing: Seq<u8>,
) -> int
    decreases text.len() - i,
{
    if i < 0 || i >= text.len() {
        0
    } else if in_comment {
        let closed = matches_at(text, closing, i);
        let here: int = if text[i] == LINE_TERMINATOR {
            1
        } else {
            0
        };
        here + spec_scanned_terminators(
            text,
            pats,
            next_scan_pos(i, pattern_advance(closing), text.len() as int),
            !closed,
            closing,
        )
    } else {
        match spec_find_opening(text, pats, i) {
            Some(j) => spec_scanned_terminators(
                text,
                pats,
                next_scan_pos(i, pattern_advance(pats[j].opening_pattern@), text.len() as int),
                true,
                effective_closing(pats[j]),
            ),
            None => {
                let here: int = if text[i] == LINE_TERMINATOR {
                    1
                } else {
                    0
                };
                here + spec_scanned_terminators(text, pats, i + 1, false, closing)
            },
        }
    }
}

/// The number of line terminators in `text` at or after position `i`.
pub open spec fn count_terminators_from(text: Seq<u8>, i: int) -> int
    decreases text.len() - i,
{
    if i < 0 || i >= text.len() {
        0
    } else {
        (if text[i] == LINE_TERMINATOR {
            1int
        } else {
            0int
        }) + count_terminators_from(text, i + 1)
    }
}

/// The number of line terminators in `text`.
pub open spec fn count_terminators(text: Seq<u8>) -> int {
    count_terminators_from(text, 0)
}

/// All four counters of a scan are non-negative, from any state.
pub proof fn lemma_scan_nonneg(
    text: Seq<u8>,
    pats: Seq<CommentType>,
    i: int,
    in_comment: bool,
    closing: Seq<u8>,
    has_content: bool,
)
    ensures
        ({
            let r = spec_scan(text, pats, i, in_comment, closing, has_content);
            r.0 >= 0 && r.1 >= 0 && r.2 >= 0 && r.3 >= 0
        }),
    decreases text.len() - i,
{
    if i < 0 || i >= text.len() {
    } else if in_comment {
        let closed = matches_at(text, closing, i);
        let is_terminator = text[i] == LINE_TERMINATOR;
        let next = next_scan_pos(i, pattern_advance(closing), text.len() as int);
        lemma_scan_nonneg(
            text,
            pats,
            next,
            !closed,
            closing,
            if is_terminator {
                false
            } else {
                has_content
            },
        );
    } else {
        match spec_find_opening(text, pats, i) {
            Some(j) => {
                let ct = pats[j];
                let next = next_scan_pos(i, pattern_advance(ct.opening_pattern@), text.len() as int);
                lemma_scan_nonneg(text, pats, next, true, effective_closing(ct), has_content);
            },
            None => {
                lemma_scan_nonneg(text, pats, i + 1, false, closing, has_content);
                lemma_scan_nonneg(text, pats, i + 1, false, closing, false);
                lemma_scan_nonneg(text, pats, i + 1, false, closing, true);
            },
        }
    }
}

/// Law: every line terminator the scan examines is attributed to exactly one
/// of {program, blank, comment}: from any state, the three line counters sum
/// to the number of terminators examined from that state on.
pub proof fn lemma_terminator_attribution(
    text: Seq<u8>,
    pats: Seq<CommentType>,
    i: int,
    in_comment: bool,
    closing: Seq<u8>,
    has_content: bool,
)
    ensures
        ({
            let r = spec_scan(text, pats, i, in_comment, closing, has_content);
            r.0 + r.1 + r.2 == spec_scanned_terminators(text, pats, i, in_comment, closing)
        }),
    decreases text.len() - i,
{
    if i < 0 || i >= text.len() {
    } else if in_comment {
        let closed = matches_at(text, closing, i);
        let is_terminator = text[i] == LINE_TERMINATOR;
        let next = next_scan_pos(i, pattern_advance(closing), text.len() as int);
        lemma_terminator_attribution(
            text,
            pats,
            next,
            !closed,
            closing,
            if is_terminator {
                false
            } else {
                has_content
            },
        );
    } else {
        match spec_find_opening(text, pats, i) {
            Some(j) => {
                let ct = pats[j];
                let next = next_scan_pos(i, pattern_advance(ct.opening_pattern@), text.len() as int);
                lemma_terminator_attribution(text, pats, next, true, effective_closing(ct), has_content);
            },
            None => {
                let c = text[i];
                if c == SPACE || c == TAB {
                    lemma_terminator_attribution(text, pats, i + 1, false, closing, has_content);
                } else if c == LINE_TERMINATOR {
                    lemma_terminator_attribution(text, pats, i + 1, false, closing, false);
                } else {
                    lemma_terminator_attribution(text, pats, i + 1, false, closing, true);
                }
            },
        }
    }
}

/// Law: for a whole classification run, program lines, blank lines and
/// comment lines together account for exactly the line terminators the scan
/// examined. (Terminators inside delimiter text that the scan consumes, or
/// inside a span the open-comment scan skips over, are not examined.)
pub proof fn lemma_classify_terminator_attribution(text: Seq<u8>, pats: Seq<CommentType>)
    ensures
        ({
            let r = spec_classify(text, pats);
            r.0 + r.1 + r.2 == spec_scanned_terminators(text, pats, 0, false, Seq::empty())
        }),
{
    lemma_terminator_attribution(text, pats, 0, false, Seq::empty(), false);
}

/// A pattern whose scan steps never skip past a line terminator: its opening
/// text holds none, and its effective closing is a single byte, so the scan
/// advances one byte at a time while its comment is open.
pub open spec fn pattern_skips_no_terminator(ct: CommentType) -> bool {
    &&& forall|k: int|
        0 <= k < ct.opening_pattern@.len() ==> #[trigger] ct.opening_pattern@[k]
            != LINE_TERMINATOR
    &&& effective_closing(ct).len() == 1
}

/// Every configured pattern leaves every line terminator to be examined.
pub open spec fn patterns_skip_no_terminator(pats: Seq<CommentType>) -> bool {
    forall|j: int| 0 <= j < pats.len() ==> pattern_skips_no_terminator(#[trigger] pats[j])
}

proof fn lemma_count_terminators_skip(text: Seq<u8>, i: int, j: int)
    requires
        0 <= i <= j <= text.len(),
        forall|k: int| i <= k < j ==> text[k] != LINE_TERMINATOR,
    ensures
        count_terminators_from(text, i) == count_terminators_from(text, j),
    decreases j - i,
{
    if i < j {
        lemma_count_terminators_skip(text, i + 1, j);
    }
}

proof fn lemma_scanned_equals_count(
    text: Seq<u8>,
    pats: Seq<CommentType>,
    i: int,
    in_comment: bool,
    closing: Seq<u8>,
)
    requires
        patterns_wf(pats),
        patterns_skip_no_terminator(pats),
        in_comment ==> closing.len() == 1,
        0 <= i,
    ensures
        spec_scanned_terminators(text, pats, i, in_comment, closing) == count_terminators_from(
            text,
            i,
        ),
    decreases text.len() - i,
{
    if i >= text.len() {
    } else if in_comment {
        let closed = matches_at(text, closing, i);
        lemma_scanned_equals_count(text, pats, i + 1, !closed, closing);
    } else {
        match spec_find_opening(text, pats, i) {
            Some(j) => {
                lemma_find_opening_from_characterization(text, pats, i, 0);
                let ct = pats[j];
                let olen = ct.opening_pattern@.len() as int;
                assert(pattern_skips_no_terminator(pats[j]));
                assert forall|k: int| i <= k < i + olen implies text[k] != LINE_TERMINATOR by {
                    let m = k - i;
                    assert(text[i + m] == ct.opening_pattern@[m]);
                    assert(ct.opening_pattern@[m] != LINE_TERMINATOR);
                }
                lemma_count_terminators_skip(text, i, i + olen);
                lemma_scanned_equals_count(text, pats, i + olen, true, effective_closing(ct));
            },
            None => {
                lemma_scanned_equals_count(text, pats, i + 1, false, closing);
            },
        }
    }
}

/// Law: where no pattern can make the scan skip a line terminator (no
/// opening text holds one, and every effective closing is a single byte),
/// program lines, blank lines and comment lines together equal the number
/// of line terminators in the whole text. In particular this holds for any
/// set of single-line comment patterns with terminator-free openings.
pub proof fn lemma_classify_counts_every_terminator(text: Seq<u8>, pats: Seq<CommentType>)
    requires
        patterns_wf(pats),
        patterns_skip_no_terminator(pats),
    ensures
        ({
            let r = spec_classify(text, pats);
            r.0 + r.1 + r.2 == count_terminators(text)
        }),
{
    lemma_terminator_attribution(text, pats, 0, false, Seq::empty(), false);
    lemma_scanned_equals_count(text, pats, 0, false, Seq::empty());
}

proof fn lemma_scan_no_patterns(
    text: Seq<u8>,
    pats: Seq<CommentType>,
    i: int,
    closing: Seq<u8>,
    has_content: bool,
)
    requires
        pats.len() == 0,
    ensures
        ({
            let r = spec_scan(text, pats, i, false, closing, has_content);
            r.2 == 0 && r.3 == 0 && r.0 + r.1 == count_terminators_from(text, i)
        }),
    decreases text.len() - i,
{
    if i < 0 || i >= text.len() {
    } else {
        assert(spec_find_opening(text, pats, i) is None);
        let c = text[i];
        if c == SPACE || c == TAB {
            lemma_scan_no_patterns(text, pats, i + 1, closing, has_content);
        } else if c == LINE_TERMINATOR {
            lemma_scan_no_patterns(text, pats, i + 1, closing, false);
        } else {
            lemma_scan_no_patterns(text, pats, i + 1, closing, true);
        }
    }
}

/// Law: with no comment patterns configured, no comment line and no comment
/// occurrence is ever counted, and program lines plus blank lines together
/// count every line terminator in the text.
pub proof fn lemma_classify_no_patterns(text: Seq<u8>, pats: Seq<CommentType>)
    requires
        pats.len() == 0,
    ensures
        ({
            let r = spec_classify(text, pats);
            r.2 == 0 && r.3 == 0 && r.0 + r.1 == count_terminators(text)
        }),
{
    lemma_scan_no_patterns(text, pats, 0, Seq::empty(), false);
}

proof fn lemma_count_no_terminators(text: Seq<u8>, i: int)
    requires
        forall|k: int| 0 <= k < text.len() ==> text[k] != LINE_TERMINATOR,
    ensures
        count_terminators_from(text, i) == 0,
    decreases text.len() - i,
{
    if i < 0 || i >= text.len() {
    } else {
        lemma_count_no_terminators(text, i + 1);
    }
}

/// Law: with no comment patterns configured and no line terminator in the
/// text, all four counters are zero, however much other content the text
/// holds: a final line that no terminator ends is never counted.
pub proof fn lemma_no_patterns_no_terminators(text: Seq<u8>, pats: Seq<CommentType>)
    requires
        pats.len() == 0,
        forall|k: int| 0 <= k < text.len() ==> text[k] != LINE_TERMINATOR,
    ensures
        spec_classify(text, pats) == (0int, 0int, 0int, 0int),
{
    lemma_classify_no_patterns(text, pats);
    lemma_scan_nonneg(text, pats, 0, false, Seq::empty(), false);
    lemma_count_no_terminators(text, 0);
}

proof fn lemma_find_opening_from_characterization(
    text: Seq<u8>,
    pats: Seq<CommentType>,
    i: int,
    k: int,
)
    requires
        0 <= k <= pats.len(),
    ensures
        (match spec_find_opening_from(text, pats, i, k) {
            Some(j) => {
                &&& k <= j < pats.len()
                &&& matches_at(text, pats[j].opening_pattern@, i)
                &&& forall|m: int|
                    k <= m < j ==> !matches_at(text, (#[trigger] pats[m]).opening_pattern@, i)
            },
            None => forall|m: int|
                k <= m < pats.len() ==> !matches_at(text, (#[trigger] pats[m]).opening_pattern@, i),
        }),
    decreases pats.len() - k,
{
    if k >= pats.len() {
    } else if matches_at(text, pats[k].opening_pattern@, i) {
    } else {
        lemma_find_opening_from_characterization(text, pats, i, k + 1);
    }
}

/// Law: ties between patterns are broken by declaration order. The pattern
/// whose comment is opened at a position is the first-declared one whose
/// opening text occurs there; every earlier-declared pattern does not match,
/// and where none matches at all, no comment is opened.
pub proof fn lemma_first_declared_pattern_wins(text: Seq<u8>, pats: Seq<CommentType>, i: int)
    ensures
        (match spec_find_opening(text, pats, i) {
            Some(j) => {
                &&& 0 <= j < pats.len()
                &&& matches_at(text, pats[j].opening_pattern@, i)
                &&& forall|m: int|
                    0 <= m < j ==> !matches_at(text, (#[trigger] pats[m]).opening_pattern@, i)
            },
            None => forall|m: int|
                0 <= m < pats.len() ==> !matches_at(text, (#[trigger] pats[m]).opening_pattern@, i),
        }),
{
    lemma_find_opening_from_characterization(text, pats, i, 0);
}

/// Law: classification has no hidden state: its result is a function of the
/// text and the patterns alone, so any two runs on identical input yield
/// identical output.
pub proof fn lemma_classify_deterministic(
    text: Seq<u8>,
    pats: Seq<CommentType>,
    r1: (int, int, int, int),
    r2: (int, int, int, int),
)
    requires
        r1 == spec_classify(text, pats),
        r2 == spec_classify(text, pats),
    ensures
        r1 == r2,
{
}

/// Prefix test at a position: does `pat` occur in `text` starting at `i`?
fn is_prefix_at(text: &Vec<u8>, pat: &Vec<u8>, i: usize) -> (r: bool)
    requires
        i <= text@.len(),
    ensures
        r == matches_at(text@, pat@, i as int),
{
    if pat.len() > text.len() - i {
        return false;
    }
    let mut k: usize = 0;
    while k < pat.len()
        invariant
            text@.len() <= usize::MAX,
            i + pat@.len() <= text@.len(),
            k <= pat@.len(),
            forall|m: int| 0 <= m < k ==> text@[i + m] == #[trigger] pat@[m],
        decreases pat@.len() - k,
    {
        if text[i + k] != pat[k] {
            return false;
        }
        k += 1;
    }
    true
}

/// The first declared pattern whose opening text occurs at position `i`,
/// or `None` where no opening pattern occurs there.
fn find_opening(text: &Vec<u8>, comment_types: &Vec<CommentType>, i: usize) -> (r: Option<usize>)
    requires
        i <= text@.len(),
    ensures
        (match r {
            Some(j) => {
                &&& j < comment_types@.len()
                &&& spec_find_opening(text@, comment_types@, i as int) == Some(j as int)
                &&& matches_at(text@, comment_types@[j as int].opening_pattern@, i as int)
            },
            None => spec_find_opening(text@, comment_types@, i as int) is None,
        }),
{
    let mut k: usize = 0;
    while k < comment_types.len()
        invariant
            i <= text@.len(),
            k <= comment_types@.len(),
            spec_find_opening(text@, comment_types@, i as int) == spec_find_opening_from(
                text@,
                comment_types@,
                i as int,
                k as int,
            ),
        decreases comment_types@.len() - k,
    {
        let ct = &comment_types[k];
        if is_prefix_at(text, &ct.opening_pattern, i) {
            return Some(k);
        }
        k += 1;
    }
    None
}

/// Classifies a whole text against the configured comment patterns, in one
/// left-to-right scan, and returns
/// (program lines, blank lines, comment lines, comment occurrences).
pub fn parse_file_string(file_string: &Vec<u8>, comment_types: &Vec<CommentType>) -> (r: (
    u32,
    u32,
    u32,
    u32,
))
    requires
        file_string@.len() <= u32::MAX,
        patterns_wf(comment_types@),
    ensures
        (r.0 as int, r.1 as int, r.2 as int, r.3 as int) == spec_classify(
            file_string@,
            comment_types@,
        ),
{
    let mut program_lines: u32 = 0;
    let mut blank_lines: u32 = 0;
    let mut comment_lines: u32 = 0;
    let mut comments: u32 = 0;

    let mut in_comment: bool = false;
    let mut has_content: bool = false;
    let mut active: usize = 0;
    let ghost mut closing: Seq<u8> = Seq::empty();

    let mut i: usize = 0;
    while i < file_string.len()
        invariant
            i <= file_string@.len(),
            file_string@.len() <= u32::MAX,
            patterns_wf(comment_types@),
            in_comment ==> {
                &&& active < comment_types@.len()
                &&& closing == effective_closing(comment_types@[active as int])
                &&& closing.len() >= 1
            },
            program_lines + blank_lines + comment_lines + comments <= i,
            spec_classify(file_string@, comment_types@) == add4(
                (program_lines as int, blank_lines as int, comment_lines as int, comments as int),
                spec_scan(
                    file_string@,
                    comment_types@,
                    i as int,
                    in_comment,
                    closing,
                    has_content,
                ),
            ),
        decreases file_string@.len() - i,
    {
        let c = file_string[i];
        if in_comment {
            let ct = &comment_types[active];
            let closed: bool;
            let adv: usize;
            match ct.mode {
                CommentMode::SingleLine => {
                    closed = c == LINE_TERMINATOR;
                    adv = 1;
                    proof {
                        assert(closing =~= seq![LINE_TERMINATOR]);
                        if c == LINE_TERMINATOR {
                            assert forall|k: int| 0 <= k < closing.len() implies file_string@[i
                                + k] == closing[k] by {
                                assert(k == 0);
                                assert(file_string@[i as int] == LINE_TERMINATOR);
                            }
                            assert(matches_at(file_string@, closing, i as int));
                        } else {
                            assert(!matches_at(file_string@, closing, i as int)) by {
                                if matches_at(file_string@, closing, i as int) {
                                    assert(file_string@[i + 0int] == closing[0]);
                                }
                            }
                        }
                    }
                },
                CommentMode::MultiLine => {
                    closed = is_prefix_at(file_string, &ct.closing_pattern, i);
                    adv = ct.closing_pattern.len();
                },
            }
            if c == LINE_TERMINATOR {
                if has_content {
                    program_lines += 1;
                } else {
                    comment_lines += 1;
                }
                has_content = false;
            }
            if closed {
                in_comment = false;
            }
            if adv >= file_string.len() - i {
                i = file_string.len();
            } else {
                i += adv;
            }
        } else {
            match find_opening(file_string, comment_types, i) {
                Some(j) => {
                    comments += 1;
                    in_comment = true;
                    active = j;
                    proof {
                        closing = effective_closing(comment_types@[j as int]);
                    }
                    let ct = &comment_types[j];
                    i += ct.opening_pattern.len();
                },
                None => {
                    if c == SPACE || c == TAB {
                    } else if c == LINE_TERMINATOR {
                        if has_content {
                            program_lines += 1;
                        } else {
                            blank_lines += 1;
                        }
                        has_content = false;
                    } else {
                        has_content = true;
                    }
                    i += 1;
                },
            }
        }
    }
    (program_lines, blank_lines, comment_lines, comments)
}

} // verus!
