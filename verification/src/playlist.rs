//! The playlist description format: one track per line, parsed into
//! descriptors for the catalog.
//!
//! A line is trimmed of surrounding blanks first. A blank line, or one
//! starting with `#`, says nothing. The first meaningful line may read
//! `playlist <name>` and names the playlist; such a line anywhere else
//! is an error. Every other meaningful line describes one track:
//! `source | repeats | display name`, where the last two parts are
//! optional and the repeat count is a decimal integer, optionally
//! negative.

use vstd::prelude::*;

use vstd::string::StrSliceExecFns;

use crate::track::TrackDescriptor;

verus! {

/// A blank character: space, tab, or a carriage return left by a line
/// ending.
pub open spec fn is_blank(c: char) -> bool {
    c == ' ' || c == '\t' || c == '\r'
}

/// The characters with leading blanks dropped.
pub open spec fn trim_front(s: Seq<char>) -> Seq<char>
    decreases s.len(),
{
    if s.len() > 0 && is_blank(s.first()) {
        trim_front(s.drop_first())
    } else {
        s
    }
}

/// The characters with trailing blanks dropped.
pub open spec fn trim_back(s: Seq<char>) -> Seq<char>
    decreases s.len(),
{
    if s.len() > 0 && is_blank(s.last()) {
        trim_back(s.drop_last())
    } else {
        s
    }
}

/// The characters with blanks dropped on both ends.
pub open spec fn trimmed(s: Seq<char>) -> Seq<char> {
    trim_back(trim_front(s))
}

/// Dropping leading blanks keeps any suffix that starts at the first
/// non-blank position.
proof fn lemma_trim_front_at(s: Seq<char>, i: int)
    requires
        0 <= i <= s.len(),
        forall|j: int| 0 <= j < i ==> is_blank(#[trigger] s[j]),
        i == s.len() || !is_blank(s[i]),
    ensures
        trim_front(s) == s.subrange(i, s.len() as int),
    decreases i,
{
    if i == 0 {
        assert(s.subrange(0, s.len() as int) =~= s);
    } else {
        assert(is_blank(s.first()));
        lemma_trim_front_at(s.drop_first(), i - 1);
        assert(s.drop_first().subrange(i - 1, s.drop_first().len() as int) =~= s.subrange(
            i,
            s.len() as int,
        ));
    }
}

/// Dropping trailing blanks keeps any prefix that ends after the last
/// non-blank position.
proof fn lemma_trim_back_at(s: Seq<char>, i: int)
    requires
        0 <= i <= s.len(),
        forall|j: int| i <= j < s.len() ==> is_blank(#[trigger] s[j]),
        i == 0 || !is_blank(s[i - 1]),
    ensures
        trim_back(s) == s.subrange(0, i),
    decreases s.len() - i,
{
    if i == s.len() {
        assert(s.subrange(0, i) =~= s);
    } else {
        assert(is_blank(s.last()));
        lemma_trim_back_at(s.drop_last(), i);
        assert(s.drop_last().subrange(0, i) =~= s.subrange(0, i));
    }
}

/// Whether a character is a blank, exactly as [`is_blank`] says.
fn is_blank_char(c: char) -> (blank: bool)
    ensures
        blank == is_blank(c),
{
    c == ' ' || c == '\t' || c == '\r'
}

/// The line with surrounding blanks removed, exactly as [`trimmed`]
/// describes.
pub fn trim_line(line: &str) -> (out: &str)
    ensures
        out@ == trimmed(line@),
{
    let len = line.unicode_len();
    let mut start: usize = 0;
    while start < len && is_blank_char(line.get_char(start))
        invariant
            0 <= start <= len,
            len == line@.len(),
            forall|j: int| 0 <= j < start ==> is_blank(#[trigger] line@[j]),
        decreases len - start,
    {
        start = start + 1;
    }
    let mut end: usize = len;
    while end > start && is_blank_char(line.get_char(end - 1))
        invariant
            start <= end <= len,
            len == line@.len(),
            forall|j: int| 0 <= j < start ==> is_blank(#[trigger] line@[j]),
            start == len || !is_blank(line@[start as int]),
            forall|j: int| end <= j < len ==> is_blank(#[trigger] line@[j]),
        decreases end,
    {
        end = end - 1;
    }
    let out = line.substring_char(start, end);
    proof {
        lemma_trim_front_at(line@, start as int);
        let front = line@.subrange(start as int, len as int);
        if end == start {
            lemma_trim_back_at(front, 0);
        } else {
            lemma_trim_back_at(front, end - start);
        }
        assert(front.subrange(0, end - start) =~= line@.subrange(start as int, end as int));
    }
    out
}

/// The position of the first `|`, or the length when there is none.
pub open spec fn split_point(s: Seq<char>) -> int
    decreases s.len(),
{
    if s.len() == 0 {
        0
    } else if s.first() == '|' {
        0
    } else {
        1 + split_point(s.drop_first())
    }
}

/// The split point is the first position holding a `|`.
proof fn lemma_split_point_at(s: Seq<char>, i: int)
    requires
        0 <= i <= s.len(),
        forall|j: int| 0 <= j < i ==> #[trigger] s[j] != '|',
        i == s.len() || s[i] == '|',
    ensures
        split_point(s) == i,
    decreases i,
{
    if i > 0 {
        lemma_split_point_at(s.drop_first(), i - 1);
    }
}

/// Finds the first `|`, exactly as [`split_point`] describes.
pub fn find_split(s: &str) -> (position: usize)
    ensures
        position == split_point(s@),
        position <= s@.len(),
{
    let len = s.unicode_len();
    let mut i: usize = 0;
    while i < len && s.get_char(i) != '|'
        invariant
            0 <= i <= len,
            len == s@.len(),
            forall|j: int| 0 <= j < i ==> #[trigger] s@[j] != '|',
        decreases len - i,
    {
        i = i + 1;
    }
    proof {
        lemma_split_point_at(s@, i as int);
    }
    i
}

/// A decimal digit.
pub open spec fn is_digit(c: char) -> bool {
    '0' as int <= c as int <= '9' as int
}

/// Every character is a decimal digit.
pub open spec fn all_digits(s: Seq<char>) -> bool {
    forall|i: int| 0 <= i < s.len() ==> is_digit(#[trigger] s[i])
}

/// The number a run of decimal digits denotes.
pub open spec fn digits_value(s: Seq<char>) -> int
    decreases s.len(),
{
    if s.len() == 0 {
        0
    } else {
        digits_value(s.drop_last()) * 10 + (s.last() as int - '0' as int)
    }
}

/// A digit run's value is never negative, and never shrinks as digits
/// are appended.
proof fn lemma_digits_value_grows(s: Seq<char>, k: int)
    requires
        all_digits(s),
        0 <= k <= s.len(),
    ensures
        0 <= digits_value(s.subrange(0, k)) <= digits_value(s),
    decreases s.len(),
{
    if s.len() == 0 {
        assert(s.subrange(0, 0) =~= s);
    } else {
        assert(all_digits(s.drop_last()));
        lemma_digits_value_grows(s.drop_last(), if k == s.len() {
            k - 1
        } else {
            k
        });
        assert(is_digit(s.last()));
        if k == s.len() {
            assert(s.subrange(0, k) =~= s);
            assert(s.drop_last().subrange(0, k - 1) =~= s.drop_last());
        } else {
            assert(s.drop_last().subrange(0, k) =~= s.subrange(0, k));
        }
    }
}

/// The shape of a repeat-count field: one optional minus sign, then at
/// least one decimal digit.
pub open spec fn is_count(s: Seq<char>) -> bool {
    if s.len() > 0 && s.first() == '-' {
        s.len() > 1 && all_digits(s.drop_first())
    } else {
        s.len() > 0 && all_digits(s)
    }
}

/// The digits of a count field, with any minus sign dropped.
pub open spec fn count_digits(s: Seq<char>) -> Seq<char> {
    if s.len() > 0 && s.first() == '-' {
        s.drop_first()
    } else {
        s
    }
}

/// The number a count field denotes.
pub open spec fn count_value(s: Seq<char>) -> int
    recommends
        is_count(s),
{
    if s.len() > 0 && s.first() == '-' {
        -digits_value(s.drop_first())
    } else {
        digits_value(s)
    }
}

/// A count field that the parser accepts: well shaped, with a magnitude
/// no machine integer of the descriptor could exceed.
pub open spec fn count_fits(s: Seq<char>) -> bool {
    is_count(s) && digits_value(count_digits(s)) <= i64::MAX as int
}

/// Parses a repeat-count field: the result exists exactly for a well
/// shaped field whose magnitude fits, and then denotes its value.
pub fn parse_count(s: &str) -> (count: Option<i64>)
    ensures
        count is Some <==> count_fits(s@),
        count matches Some(v) ==> v as int == count_value(s@),
{
    let len = s.unicode_len();
    let negative = len > 0 && s.get_char(0) == '-';
    let first: usize = if negative {
        1
    } else {
        0
    };
    let ghost digits = count_digits(s@);
    proof {
        assert(digits =~= s@.subrange(first as int, len as int));
    }
    if first >= len {
        return None;
    }
    let mut value: i64 = 0;
    let mut i = first;
    while i < len
        invariant
            first <= i <= len,
            len == s@.len(),
            first == 1 ==> s@.len() > 0 && s@.first() == '-',
            first == 0 ==> s@.len() == 0 || s@.first() != '-',
            digits == count_digits(s@),
            digits == s@.subrange(first as int, len as int),
            all_digits(digits.subrange(0, i - first)),
            0 <= value,
            value as int == digits_value(digits.subrange(0, i - first)),
        decreases len - i,
    {
        let c = s.get_char(i);
        let code = c as u32;
        if code < 48 || code > 57 {
            proof {
                assert(digits[i - first] == s@[i as int]);
                assert(!is_digit(digits[i - first]));
                assert(!all_digits(digits));
            }
            return None;
        }
        let digit = (code - 48) as i64;
        let ghost prefix = digits.subrange(0, i - first);
        let ghost extended = digits.subrange(0, i + 1 - first);
        proof {
            assert(extended.drop_last() =~= prefix);
            assert(extended.last() == s@[i as int]);
            assert(is_digit(extended.last()));
            assert(digits_value(extended) == digits_value(prefix) * 10 + (s@[i as int] as int
                - '0' as int));
            assert(all_digits(extended));
        }
        if value > (i64::MAX - digit) / 10 {
            proof {
                let bound = (i64::MAX - digit) as int;
                assert(value as int * 10 > bound - 9) by (nonlinear_arith)
                    requires
                        value as int > bound / 10,
                        bound == 10 * (bound / 10) + bound % 10,
                        0 <= bound % 10 < 10,
                ;
                assert(digits_value(extended) > i64::MAX as int);
                if all_digits(digits) {
                    lemma_digits_value_grows(digits, i + 1 - first);
                }
                assert(!count_fits(s@));
            }
            return None;
        }
        proof {
            let bound = (i64::MAX - digit) as int;
            assert(value as int * 10 <= bound - bound % 10) by (nonlinear_arith)
                requires
                    value as int <= bound / 10,
                    0 <= value as int,
                    bound == 10 * (bound / 10) + bound % 10,
            ;
        }
        value = value * 10 + digit;
        i = i + 1;
    }
    proof {
        assert(digits.subrange(0, len - first) =~= digits);
        assert(count_fits(s@));
    }
    if negative {
        Some(-value)
    } else {
        Some(value)
    }
}

/// The prefix that marks the playlist-name line.
pub open spec fn name_prefix() -> Seq<char> {
    seq!['p', 'l', 'a', 'y', 'l', 'i', 's', 't', ' ']
}

/// Why a line, or the whole description, is refused.
#[derive(Clone, Copy, Debug, PartialEq, Eq, Structural)]
pub enum LineFault {
    /// A track line with nothing before its first separator.
    EmptySource,
    /// A repeat-count field that is not a decimal integer the counter
    /// can hold.
    BadRepeatCount,
    /// A playlist-name line after the description already said
    /// something.
    MisplacedName,
}

/// What one line of a playlist description says.
pub enum LineContent {
    /// Nothing: the line is blank or a comment.
    Blank,
    /// The playlist-name line, carrying the name.
    Name(String),
    /// One track's descriptor.
    Track(TrackDescriptor),
    /// A meaningful line that fits no form.
    Bad(LineFault),
}

/// The mathematical content of a [`LineContent`].
pub ghost enum LineContentModel {
    Blank,
    Name(Seq<char>),
    Track(crate::track::TrackDescriptorModel),
    Bad(LineFault),
}

/// The model of a classified line.
pub open spec fn content_model(content: LineContent) -> LineContentModel {
    match content {
        LineContent::Blank => LineContentModel::Blank,
        LineContent::Name(name) => LineContentModel::Name(name@),
        LineContent::Track(descriptor) => LineContentModel::Track(descriptor@),
        LineContent::Bad(fault) => LineContentModel::Bad(fault),
    }
}

/// What a line says, as a mathematical function: surrounding blanks are
/// ignored; an empty or `#` line says nothing; a `playlist ` prefix
/// makes it the name line; anything else is a track line `source |
/// repeats | display name`, whose first field must not be empty, whose
/// second must be a fitting decimal integer or empty, and whose third is
/// kept only when not empty (and may itself contain separators).
pub open spec fn spec_classify(line: Seq<char>) -> LineContentModel {
    let t = trimmed(line);
    if t.len() == 0 || t.first() == '#' {
        LineContentModel::Blank
    } else if t.len() >= name_prefix().len() && t.subrange(0, name_prefix().len() as int)
        == name_prefix() {
        LineContentModel::Name(trimmed(t.subrange(name_prefix().len() as int, t.len() as int)))
    } else {
        let p = split_point(t);
        let source = trimmed(t.subrange(0, p));
        if source.len() == 0 {
            LineContentModel::Bad(LineFault::EmptySource)
        } else if p == t.len() {
            LineContentModel::Track(
                crate::track::TrackDescriptorModel { name: None, source, repeats: 0 },
            )
        } else {
            let rest = t.subrange(p + 1, t.len() as int);
            let q = split_point(rest);
            let count_part = trimmed(rest.subrange(0, q));
            let display = if q == rest.len() {
                None
            } else {
                let n = trimmed(rest.subrange(q + 1, rest.len() as int));
                if n.len() == 0 {
                    None
                } else {
                    Some(n)
                }
            };
            if count_part.len() == 0 {
                LineContentModel::Track(
                    crate::track::TrackDescriptorModel { name: display, source, repeats: 0 },
                )
            } else if count_fits(count_part) {
                LineContentModel::Track(
                    crate::track::TrackDescriptorModel {
                        name: display,
                        source,
                        repeats: count_value(count_part),
                    },
                )
            } else {
                LineContentModel::Bad(LineFault::BadRepeatCount)
            }
        }
    }
}

/// Classifies one line, exactly as [`spec_classify`] says.
pub fn classify_line(line: &str) -> (content: LineContent)
    ensures
        content_model(content) == spec_classify(line@),
{
    let t = trim_line(line);
    let t_len = t.unicode_len();
    if t_len == 0 {
        return LineContent::Blank;
    }
    if t.get_char(0) == '#' {
        return LineContent::Blank;
    }
    proof {
        assert(name_prefix().len() == 9);
        assert(name_prefix()[0] == 'p' && name_prefix()[1] == 'l' && name_prefix()[2] == 'a'
            && name_prefix()[3] == 'y' && name_prefix()[4] == 'l' && name_prefix()[5] == 'i'
            && name_prefix()[6] == 's' && name_prefix()[7] == 't' && name_prefix()[8] == ' ');
    }
    let is_name = t_len >= 9 && t.get_char(0) == 'p' && t.get_char(1) == 'l' && t.get_char(2)
        == 'a' && t.get_char(3) == 'y' && t.get_char(4) == 'l' && t.get_char(5) == 'i'
        && t.get_char(6) == 's' && t.get_char(7) == 't' && t.get_char(8) == ' ';
    proof {
        if is_name {
            assert(t@.subrange(0, 9) =~= name_prefix());
        } else if t_len >= 9 {
            assert(t@.subrange(0, 9) == name_prefix() ==> t@.subrange(0, 9)[0] == 'p'
                && t@.subrange(0, 9)[1] == 'l' && t@.subrange(0, 9)[2] == 'a' && t@.subrange(0, 9)[3]
                == 'y' && t@.subrange(0, 9)[4] == 'l' && t@.subrange(0, 9)[5] == 'i' && t@.subrange(
                0,
                9,
            )[6] == 's' && t@.subrange(0, 9)[7] == 't' && t@.subrange(0, 9)[8] == ' ');
        }
    }
    if is_name {
        let rest = t.substring_char(9, t_len);
        let name = trim_line(rest);
        return LineContent::Name(String::from_str(name));
    }
    let p = find_split(t);
    let source = trim_line(t.substring_char(0, p));
    if source.unicode_len() == 0 {
        return LineContent::Bad(LineFault::EmptySource);
    }
    if p == t_len {
        return LineContent::Track(
            TrackDescriptor { name: None, source: String::from_str(source), repeats: 0 },
        );
    }
    let rest = t.substring_char(p + 1, t_len);
    let rest_len = rest.unicode_len();
    let q = find_split(rest);
    let count_field = trim_line(rest.substring_char(0, q));
    let display: Option<String> = if q == rest_len {
        None
    } else {
        let candidate = trim_line(rest.substring_char(q + 1, rest_len));
        if candidate.unicode_len() == 0 {
            None
        } else {
            Some(String::from_str(candidate))
        }
    };
    let repeats: i64 = if count_field.unicode_len() == 0 {
        0
    } else {
        match parse_count(count_field) {
            Some(value) => value,
            None => {
                return LineContent::Bad(LineFault::BadRepeatCount);
            },
        }
    };
    LineContent::Track(TrackDescriptor { name: display, source: String::from_str(source), repeats })
}

/// The models of a sequence of descriptors, in order.
pub open spec fn descriptor_models(descriptors: Seq<TrackDescriptor>) -> Seq<
    crate::track::TrackDescriptorModel,
> {
    Seq::new(descriptors.len(), |i: int| descriptors[i]@)
}

/// The model of an optional name.
pub open spec fn name_model(name: Option<String>) -> Option<Seq<char>> {
    match name {
        Some(n) => Some(n@),
        None => None,
    }
}

/// The outcome of parsing one whole playlist description.
pub ghost enum ParseModel {
    /// Every line was understood: the optional name and the descriptors
    /// in line order.
    Done { name: Option<Seq<char>>, tracks: Seq<crate::track::TrackDescriptorModel> },
    /// The first refused line, and why.
    Failed { line: int, fault: LineFault },
}

/// Parsing from line `i` on, with what earlier lines said. The name
/// line is accepted only while nothing was named and no track seen.
pub open spec fn spec_parse_from(
    lines: Seq<String>,
    i: int,
    name: Option<Seq<char>>,
    tracks: Seq<crate::track::TrackDescriptorModel>,
) -> ParseModel
    decreases lines.len() - i,
{
    if i < 0 || i >= lines.len() {
        ParseModel::Done { name, tracks }
    } else {
        match spec_classify(lines[i]@) {
            LineContentModel::Blank => spec_parse_from(lines, i + 1, name, tracks),
            LineContentModel::Name(n) => {
                if name is None && tracks.len() == 0 {
                    spec_parse_from(lines, i + 1, Some(n), tracks)
                } else {
                    ParseModel::Failed { line: i, fault: LineFault::MisplacedName }
                }
            },
            LineContentModel::Track(d) => spec_parse_from(lines, i + 1, name, tracks.push(d)),
            LineContentModel::Bad(fault) => ParseModel::Failed { line: i, fault },
        }
    }
}

/// The outcome of a whole description, line by line from the top.
pub open spec fn spec_parse(lines: Seq<String>) -> ParseModel {
    spec_parse_from(lines, 0, None, Seq::empty())
}

/// Where and why a playlist description was refused.
#[derive(Clone, Copy, Debug)]
pub struct ParseFault {
    pub line_number: usize,
    pub fault: LineFault,
}

/// Parses a playlist description given as its lines: exactly the
/// outcome [`spec_parse`] describes — the name and the descriptors in
/// order, or the first refused line.
pub fn parse_playlist(lines: &Vec<String>) -> (result: Result<
    (Option<String>, Vec<TrackDescriptor>),
    ParseFault,
>)
    ensures
        match result {
            Ok(parsed) => spec_parse(lines@) == (ParseModel::Done {
                name: name_model(parsed.0),
                tracks: descriptor_models(parsed.1@),
            }),
            Err(fault) => spec_parse(lines@) == (ParseModel::Failed {
                line: fault.line_number as int,
                fault: fault.fault,
            }),
        },
{
    let mut name: Option<String> = None;
    let mut tracks: Vec<TrackDescriptor> = Vec::new();
    let mut i: usize = 0;
    proof {
        assert(descriptor_models(tracks@) =~= Seq::empty());
    }
    while i < lines.len()
        invariant
            0 <= i <= lines@.len(),
            spec_parse(lines@) == spec_parse_from(
                lines@,
                i as int,
                name_model(name),
                descriptor_models(tracks@),
            ),
        decreases lines@.len() - i,
    {
        let content = classify_line(lines[i].as_str());
        match content {
            LineContent::Blank => {},
            LineContent::Name(n) => {
                if name.is_some() || tracks.len() > 0 {
                    return Err(ParseFault { line_number: i, fault: LineFault::MisplacedName });
                }
                name = Some(n);
            },
            LineContent::Track(descriptor) => {
                let ghost tracks_before = tracks@;
                tracks.push(descriptor);
                proof {
                    assert(descriptor_models(tracks@) =~= descriptor_models(tracks_before).push(
                        descriptor@,
                    ));
                }
            },
            LineContent::Bad(fault) => {
                return Err(ParseFault { line_number: i, fault });
            },
        }
        i = i + 1;
    }
    Ok((name, tracks))
}

} // verus!
