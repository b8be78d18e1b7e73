//! Classifying the lines of a recording and labelling each body line with its coalition.

use crate::scan::{is_partition_of, lemma_scan_error_stays, line_at, partition, scan};
use crate::tacview::{
    color_of, has_color_marker, lookup, registered, Coalition, CoalitionIDs, ThirdName,
};
use crate::text::{
    first_index_not, first_index_of, lemma_first_index_not_is, position_of, position_of_other,
};
use vstd::prelude::*;
use vstd::std_specs::iter::IteratorSpec;

verus! {

/// Opens a timestamp line, and with it the body of a recording.
pub const COMMENT: char = '#';

/// Opens a destruction line.
pub const MINUS: char = '-';

/// Opens a line of global data.
pub const ZERO: char = '0';

/// Separates the unit identifier of a telemetry line from what the line tells of the unit.
pub const COMMA: char = ',';

/// Ends a line whose record goes on in the next line.
pub const BACKSLASH: char = '\\';

/// The byte order mark. A line may begin with it, and then it is passed over.
pub const UTF8_BOM: char = '\u{FEFF}';

/// Why a recording could not be processed.
#[derive(PartialEq, Eq, Clone, Copy, Debug, Structural)]
pub enum ProcessError {
    /// A line holds no character besides byte order marks.
    EmptyLine,
    /// A line begins with whitespace.
    MalformedLine,
    /// A line is said to continue a record of no known type.
    UnknownLineType,
    /// A telemetry or destruction line names no unit.
    CannotExtractID,
}

/// What a line of the body records.
#[derive(PartialEq, Eq, Clone, Copy, Debug, Structural)]
pub enum LineType {
    Unknown,
    Timestamp,
    Destruction,
    Telemetry,
    ArbitraryData,
}

/// Whether `c` is whitespace, as `char::is_whitespace` of the standard library tells it.
pub uninterp spec fn is_whitespace(c: char) -> bool;

/// The contract of `char::is_whitespace` of the standard library. The method tells whether a
/// character has the Unicode property White_Space, which depends on the character alone. Nothing
/// more is claimed of it: its answer is known to the proofs by the name `is_whitespace` only.
pub assume_specification[ char::is_whitespace ](c: char) -> (whitespace: bool)
    ensures
        whitespace == is_whitespace(c),
;

/// How many byte order marks stand at the start of `line`: the position of its first character
/// that is none.
pub open spec fn leading_marks(line: Seq<char>) -> int {
    first_index_not(line, UTF8_BOM)
}

/// A line is blank when it holds nothing, or byte order marks only.
pub open spec fn is_blank(line: Seq<char>) -> bool {
    leading_marks(line) >= line.len()
}

/// The first character of `line` that is no byte order mark.
pub open spec fn first_char(line: Seq<char>) -> char
    recommends
        !is_blank(line),
{
    line[leading_marks(line)]
}

/// The type of a line whose first character is `first`, given whether that character is
/// whitespace.
pub open spec fn type_by_first_char(first: char, whitespace: bool) -> Result<
    LineType,
    ProcessError,
> {
    if first == COMMENT {
        Ok(LineType::Timestamp)
    } else if first == MINUS {
        Ok(LineType::Destruction)
    } else if first == ZERO {
        Ok(LineType::ArbitraryData)
    } else if whitespace {
        Err(ProcessError::MalformedLine)
    } else {
        Ok(LineType::Telemetry)
    }
}

/// The type of a line, told by its first character that is no byte order mark.
pub open spec fn type_of_line(line: Seq<char>) -> Result<LineType, ProcessError> {
    if is_blank(line) {
        Err(ProcessError::EmptyLine)
    } else {
        type_by_first_char(first_char(line), is_whitespace(first_char(line)))
    }
}

impl LineType {
    /// The type of a line that begins with `first`, where `whitespace` tells whether `first` is
    /// whitespace.
    pub fn by_first_char(first: char, whitespace: bool) -> (line_type: Result<
        LineType,
        ProcessError,
    >)
        ensures
            line_type == type_by_first_char(first, whitespace),
    {
        if first == COMMENT {
            Ok(LineType::Timestamp)
        } else if first == MINUS {
            Ok(LineType::Destruction)
        } else if first == ZERO {
            Ok(LineType::ArbitraryData)
        } else if whitespace {
            Err(ProcessError::MalformedLine)
        } else {
            Ok(LineType::Telemetry)
        }
    }

    /// The type of `line`.
    pub fn find_type(line: &str) -> (line_type: Result<LineType, ProcessError>)
        ensures
            line_type == type_of_line(line@),
    {
        match first_significant_char(line) {
            Some(first) => LineType::by_first_char(first, first.is_whitespace()),
            None => Err(ProcessError::EmptyLine),
        }
    }
}

/// The first character of `line` that is no byte order mark, if it has one.
pub fn first_significant_char(line: &str) -> (first: Option<char>)
    ensures
        first == if is_blank(line@) {
            None
        } else {
            Some(first_char(line@))
        },
{
    for c in it: line.chars()
        invariant
            it.seq() == line@,
            forall|j: int| 0 <= j < it.index() ==> line@[j] == UTF8_BOM,
    {
        if c != UTF8_BOM {
            proof {
                lemma_first_index_not_is(line@, UTF8_BOM, it.index() as int);
            }
            return Some(c);
        }
    }
    proof {
        lemma_first_index_not_is(line@, UTF8_BOM, line@.len() as int);
    }
    None
}

/// One line of the body after it was read: its type, whether its record goes on in the next
/// line, and the coalition it belongs to.
#[derive(PartialEq, Eq, Clone, Copy, Debug, Structural)]
pub struct Line {
    pub line_type: LineType,
    pub continued: bool,
    pub coalition: Coalition,
}

/// What stands before the first line of a body: no type, no coalition, nothing to continue.
pub open spec fn start_line() -> Line {
    Line { line_type: LineType::Unknown, continued: false, coalition: Coalition::Unknown }
}

/// A line's record goes on in the next line when the line ends with a backslash.
pub open spec fn continues(line: Seq<char>) -> bool {
    line.len() > 0 && line.last() == BACKSLASH
}

/// The position of the first comma in `line`, or the length of `line` if it has none.
pub open spec fn first_comma(line: Seq<char>) -> int {
    first_index_of(line, COMMA)
}

/// The unit that a line speaks of. A destruction line names it after its first character that
/// is no byte order mark, up to the end of the line; any other line names it before its first
/// comma. There is no unit where that text is empty or the line has no such character or comma.
pub open spec fn unit_id(line: Seq<char>, line_type: LineType) -> Option<Seq<char>> {
    if line_type == LineType::Destruction {
        if leading_marks(line) + 1 < line.len() {
            Some(line.skip(leading_marks(line) + 1))
        } else {
            None
        }
    } else {
        if 0 < first_comma(line) < line.len() {
            Some(line.take(first_comma(line)))
        } else {
            None
        }
    }
}

/// The coalition of a line that speaks of the unit `id`, and the registry after the line. A line
/// with a colour marker has the coalition of its colour and registers `id` with it, unless `id`
/// is registered already. A line without one has the coalition that `id` is registered with, if
/// any.
pub open spec fn resolve(
    ids: Map<Seq<char>, Coalition>,
    line: Seq<char>,
    id: Seq<char>,
    third: ThirdName,
) -> (Option<Coalition>, Map<Seq<char>, Coalition>) {
    if has_color_marker(line) {
        (Some(color_of(line, third)), registered(ids, id, color_of(line, third)))
    } else {
        (lookup(ids, id), ids)
    }
}

/// A line of type `line_type` read by its content, and the registry after it. The line fails
/// where it names no unit; where its unit has no coalition, its coalition is unknown.
pub open spec fn read_content(
    line_type: LineType,
    line: Seq<char>,
    ids: Map<Seq<char>, Coalition>,
    third: ThirdName,
) -> Result<(Line, Map<Seq<char>, Coalition>), ProcessError> {
    match unit_id(line, line_type) {
        Some(id) => Ok(
            (
                Line {
                    line_type,
                    continued: continues(line),
                    coalition: match resolve(ids, line, id, third).0 {
                        Some(coalition) => coalition,
                        None => Coalition::Unknown,
                    },
                },
                resolve(ids, line, id, third).1,
            ),
        ),
        None => Err(ProcessError::CannotExtractID),
    }
}

/// One step of a scan: the line that follows `previous`, and the registry after it.
///
/// A line that continues the record of `previous` has its type and coalition and leaves the
/// registry alone. Any other line is classified: timestamps and global data go to all
/// coalitions, telemetry and destruction lines are read by their content.
pub open spec fn step(
    previous: Line,
    line: Seq<char>,
    ids: Map<Seq<char>, Coalition>,
    third: ThirdName,
) -> Result<(Line, Map<Seq<char>, Coalition>), ProcessError> {
    if previous.continued {
        if previous.line_type == LineType::Unknown {
            Err(ProcessError::UnknownLineType)
        } else {
            Ok(
                (
                    Line {
                        line_type: previous.line_type,
                        continued: continues(line),
                        coalition: previous.coalition,
                    },
                    ids,
                ),
            )
        }
    } else {
        match type_of_line(line) {
            Ok(LineType::Timestamp) => Ok(
                (
                    Line {
                        line_type: LineType::Timestamp,
                        continued: continues(line),
                        coalition: Coalition::All,
                    },
                    ids,
                ),
            ),
            Ok(LineType::ArbitraryData) => Ok(
                (
                    Line {
                        line_type: LineType::ArbitraryData,
                        continued: continues(line),
                        coalition: Coalition::All,
                    },
                    ids,
                ),
            ),
            Ok(LineType::Telemetry) => read_content(LineType::Telemetry, line, ids, third),
            Ok(LineType::Destruction) => read_content(LineType::Destruction, line, ids, third),
            Ok(LineType::Unknown) => Err(ProcessError::UnknownLineType),
            Err(e) => Err(e),
        }
    }
}

impl Line {
    /// A line of the given type and coalition, continued or not.
    pub fn new(line_type: LineType, continued: bool, coalition: Coalition) -> (line: Self)
        ensures
            line == (Line { line_type, continued, coalition }),
    {
        Self { line_type, continued, coalition }
    }

    /// Whether the record of `current_line` goes on in the next line.
    pub fn will_line_continue(current_line: &str) -> (continued: bool)
        ensures
            continued == continues(current_line@),
    {
        let mut last: Option<char> = None;
        for c in it: current_line.chars()
            invariant
                it.seq() == current_line@,
                last == if it.index() == 0 {
                    None
                } else {
                    Some(current_line@[it.index() - 1])
                },
        {
            last = Some(c);
        }
        match last {
            Some(c) => c == BACKSLASH,
            None => false,
        }
    }

    /// The unit identifier in `line`, read as a line of type `line_type`.
    pub fn get_id_from_line<'a>(line: &'a str, line_type: &LineType) -> (id: Result<
        &'a str,
        ProcessError,
    >)
        ensures
            match id {
                Ok(id) => unit_id(line@, *line_type) == Some(id@),
                Err(e) => e == ProcessError::CannotExtractID && unit_id(line@, *line_type) is None,
            },
    {
        let len: usize = line.unicode_len();
        match line_type {
            LineType::Destruction => {
                let marker: usize = position_of_other(line, UTF8_BOM);
                if marker < len && marker + 1 < len {
                    Ok(line.substring_char(marker + 1, len))
                } else {
                    Err(ProcessError::CannotExtractID)
                }
            },
            _ => {
                let comma: usize = position_of(line, COMMA);
                if 0 < comma && comma < len {
                    Ok(line.substring_char(0, comma))
                } else {
                    Err(ProcessError::CannotExtractID)
                }
            },
        }
    }

    /// The coalition of `line`, which speaks of the unit `id`, with the registry kept up to
    /// date: a colour in the line decides and is registered, else the registry is asked.
    pub fn assign_id_to_coalitions(
        coalition_ids: &mut CoalitionIDs,
        line: &str,
        id: &str,
        third: ThirdName,
    ) -> (found: Option<Coalition>)
        ensures
            found == resolve(old(coalition_ids)@, line@, id@, third).0,
            final(coalition_ids)@ == resolve(old(coalition_ids)@, line@, id@, third).1,
    {
        if Coalition::line_contains_coalition(line) {
            let coalition = Coalition::from_line_named(line, third);
            coalition_ids.insert(id, &coalition);
            Some(coalition)
        } else {
            coalition_ids.get(id)
        }
    }

    /// Reads a line of type `line_type` by its content: finds its unit and from that its
    /// coalition.
    pub fn from_content(
        line_type: LineType,
        current_line: &str,
        coalition_ids: &mut CoalitionIDs,
        third: ThirdName,
    ) -> (line: Result<Line, ProcessError>)
        ensures
            match read_content(line_type, current_line@, old(coalition_ids)@, third) {
                Ok((expected, ids)) => {
                    &&& line == Ok::<Line, ProcessError>(expected)
                    &&& final(coalition_ids)@ == ids
                },
                Err(e) => {
                    &&& line == Err::<Line, ProcessError>(e)
                    &&& final(coalition_ids)@ == old(coalition_ids)@
                },
            },
    {
        let id = match Self::get_id_from_line(current_line, &line_type) {
            Ok(id) => id,
            Err(e) => {
                return Err(e);
            },
        };
        let continued = Self::will_line_continue(current_line);
        let coalition = match Self::assign_id_to_coalitions(
            coalition_ids,
            current_line,
            id,
            third,
        ) {
            Some(coalition) => coalition,
            None => Coalition::Unknown,
        };
        Ok(Line::new(line_type, continued, coalition))
    }

    /// Reads the line that follows `old_line`, with the registry kept up to date.
    pub fn process_line(
        old_line: Line,
        current_line: &str,
        coalition_ids: &mut CoalitionIDs,
        third: ThirdName,
    ) -> (line: Result<Line, ProcessError>)
        ensures
            match step(old_line, current_line@, old(coalition_ids)@, third) {
                Ok((expected, ids)) => {
                    &&& line == Ok::<Line, ProcessError>(expected)
                    &&& final(coalition_ids)@ == ids
                },
                Err(e) => {
                    &&& line == Err::<Line, ProcessError>(e)
                    &&& final(coalition_ids)@ == old(coalition_ids)@
                },
            },
    {
        if old_line.continued {
            match old_line.line_type {
                LineType::Unknown => Err(ProcessError::UnknownLineType),
                line_type => Ok(
                    Line::new(
                        line_type,
                        Self::will_line_continue(current_line),
                        old_line.coalition,
                    ),
                ),
            }
        } else {
            let line_type = match LineType::find_type(current_line) {
                Ok(line_type) => line_type,
                Err(e) => {
                    return Err(e);
                },
            };
            match line_type {
                LineType::Timestamp | LineType::ArbitraryData => Ok(
                    Line::new(line_type, Self::will_line_continue(current_line), Coalition::All),
                ),
                LineType::Telemetry | LineType::Destruction => Self::from_content(
                    line_type,
                    current_line,
                    coalition_ids,
                    third,
                ),
                LineType::Unknown => Err(ProcessError::UnknownLineType),
            }
        }
    }
}

impl Default for Line {
    fn default() -> (line: Self)
        ensures
            line == start_line(),
    {
        Line::new(LineType::Unknown, false, Coalition::Unknown)
    }
}

/// A line of the body that could not be read: its position, and why.
#[derive(PartialEq, Eq, Clone, Copy, Debug, Structural)]
pub struct LineError {
    pub line: usize,
    pub error: ProcessError,
}

/// Labels every line of `body` with its coalition, or tells which line could not be read. The
/// third coalition is called `third`.
///
/// The lines are read in order, from an empty registry. The first line that cannot be read ends
/// the scan.
pub fn partition_body(body: &[String], third: ThirdName) -> (coalitions: Result<
    Vec<Coalition>,
    LineError,
>)
    ensures
        match coalitions {
            Ok(labels) => {
                &&& partition(body.deep_view(), third) == Ok::<Seq<Coalition>, ProcessError>(
                    labels@,
                )
                &&& labels.len() == body.len()
            },
            Err(failed) => {
                &&& failed.line < body.len()
                &&& scan(body.deep_view(), failed.line as nat, third) is Ok
                &&& scan(body.deep_view(), (failed.line + 1) as nat, third) == Err::<
                    (Line, Map<Seq<char>, Coalition>),
                    ProcessError,
                >(failed.error)
                &&& partition(body.deep_view(), third) == Err::<Seq<Coalition>, ProcessError>(
                    failed.error,
                )
            },
        },
{
    let ghost lines = body.deep_view();
    let mut result: Vec<Coalition> = Vec::new();
    let mut coalition_ids = CoalitionIDs::new();
    let mut old_line = Line::default();
    let mut i: usize = 0;
    while i < body.len()
        invariant
            lines == body.deep_view(),
            i <= body.len(),
            scan(lines, i as nat, third) == Ok::<(Line, Map<Seq<char>, Coalition>), ProcessError>(
                (old_line, coalition_ids@),
            ),
            result.len() == i,
            forall|j: int| 0 <= j < i ==> result[j] == line_at(lines, j, third).coalition,
        decreases body.len() - i,
    {
        match Line::process_line(old_line, body[i].as_str(), &mut coalition_ids, third) {
            Ok(processed) => {
                result.push(processed.coalition);
                old_line = processed;
            },
            Err(error) => {
                proof {
                    lemma_scan_error_stays(lines, (i + 1) as nat, lines.len(), third);
                }
                return Err(LineError { line: i, error });
            },
        }
        i = i + 1;
    }
    assert(result@ =~= Seq::new(lines.len(), |i: int| line_at(lines, i, third).coalition));
    Ok(result)
}

/// Labels every line of `body` with its coalition, where the third coalition is violet.
///
/// The lines are read in order, from an empty registry. The first line that cannot be read ends
/// the scan with its error.
pub fn get_coalition_per_line(body: &[String]) -> (coalitions: Result<Vec<Coalition>, ProcessError>)
    ensures
        is_partition_of(body.deep_view(), ThirdName::Violet, coalitions),
        coalitions matches Ok(labels) ==> labels.len() == body.len(),
{
    match partition_body(body, ThirdName::Violet) {
        Ok(labels) => Ok(labels),
        Err(failed) => Err(failed.error),
    }
}

/// A line opens the body when its first character that is no byte order mark is `#`.
pub open spec fn opens_body(line: Seq<char>) -> bool {
    !is_blank(line) && first_char(line) == COMMENT
}

/// How many lines of `lines` are read as header before the split is decided: the position of the
/// first line that is blank or opens the body, or the number of lines if there is none.
pub open spec fn header_len(lines: Seq<Seq<char>>) -> int
    decreases lines.len(),
{
    if lines.len() == 0 || is_blank(lines[0]) || opens_body(lines[0]) {
        0
    } else {
        1 + header_len(lines.skip(1))
    }
}

/// Header and body of a recording. The body begins with the first line that opens it, and the
/// header is what stands before. A blank line before the body is an error.
pub open spec fn split(lines: Seq<Seq<char>>) -> Result<
    (Seq<Seq<char>>, Seq<Seq<char>>),
    ProcessError,
> {
    let at = header_len(lines);
    if at < lines.len() && is_blank(lines[at]) {
        Err(ProcessError::EmptyLine)
    } else {
        Ok((lines.take(at), lines.skip(at)))
    }
}

/// A position before which no line is blank or opens the body, and which is the end of `lines`
/// or holds such a line, is `header_len`.
pub proof fn lemma_header_len_is(lines: Seq<Seq<char>>, k: int)
    requires
        0 <= k <= lines.len(),
        forall|j: int| 0 <= j < k ==> !is_blank(lines[j]) && !opens_body(lines[j]),
        k < lines.len() ==> is_blank(lines[k]) || opens_body(lines[k]),
    ensures
        header_len(lines) == k,
    decreases lines.len(),
{
    if k > 0 {
        lemma_header_len_is(lines.skip(1), k - 1);
    }
}

/// No line before `header_len` is blank or opens the body, and the line at `header_len`, if
/// there is one, is blank or opens the body.
pub proof fn lemma_header_len(lines: Seq<Seq<char>>)
    ensures
        0 <= header_len(lines) <= lines.len(),
        forall|j: int|
            0 <= j < header_len(lines) ==> !is_blank(#[trigger] lines[j]) && !opens_body(
                lines[j],
            ),
        header_len(lines) < lines.len() ==> is_blank(lines[header_len(lines)]) || opens_body(
            lines[header_len(lines)],
        ),
    decreases lines.len(),
{
    if lines.len() > 0 && !is_blank(lines[0]) && !opens_body(lines[0]) {
        let rest = lines.skip(1);
        lemma_header_len(rest);
        assert forall|j: int| 0 <= j < header_len(lines) implies !is_blank(#[trigger] lines[j])
            && !opens_body(lines[j]) by {
            if j > 0 {
                assert(lines[j] == rest[j - 1]);
            }
        }
    }
}

/// A split loses nothing and cuts at the first line that opens the body: header and body make
/// up the recording, no line of the header is blank or opens the body, and the body, unless it
/// is empty, begins with a line that opens it. A split fails exactly when a blank line stands
/// before every line that opens the body.
pub proof fn lemma_split_cuts_at_first_opening(lines: Seq<Seq<char>>)
    ensures
        match split(lines) {
            Ok((header, body)) => {
                &&& header + body == lines
                &&& forall|j: int|
                    0 <= j < header.len() ==> !is_blank(#[trigger] header[j]) && !opens_body(
                        header[j],
                    )
                &&& body.len() > 0 ==> opens_body(body[0])
            },
            Err(e) => {
                &&& e == ProcessError::EmptyLine
                &&& exists|k: int|
                    {
                        &&& 0 <= k < lines.len()
                        &&& is_blank(#[trigger] lines[k])
                        &&& forall|j: int| 0 <= j < k ==> !opens_body(#[trigger] lines[j])
                    }
            },
        },
{
    lemma_header_len(lines);
    let at = header_len(lines);
    assert(lines.take(at) + lines.skip(at) =~= lines);
}

/// Splits a recording into its header and its body.
pub fn split_into_header_and_body(lines: Vec<String>) -> (parts: Result<
    (Vec<String>, Vec<String>),
    ProcessError,
>)
    ensures
        match parts {
            Ok((header, body)) => split(lines.deep_view()) == Ok::<
                (Seq<Seq<char>>, Seq<Seq<char>>),
                ProcessError,
            >((header.deep_view(), body.deep_view())),
            Err(e) => split(lines.deep_view()) == Err::<
                (Seq<Seq<char>>, Seq<Seq<char>>),
                ProcessError,
            >(e),
        },
{
    let ghost text = lines.deep_view();
    let mut header = lines;
    let mut split_idx: usize = 0;
    while split_idx < header.len()
        invariant
            text == lines.deep_view(),
            text == header.deep_view(),
            split_idx <= header.len(),
            forall|j: int| 0 <= j < split_idx ==> !is_blank(text[j]) && !opens_body(text[j]),
        ensures
            split_idx < header.len() ==> opens_body(text[split_idx as int]),
        decreases header.len() - split_idx,
    {
        match first_significant_char(header[split_idx].as_str()) {
            None => {
                proof {
                    lemma_header_len_is(text, split_idx as int);
                }
                return Err(ProcessError::EmptyLine);
            },
            Some(first) => {
                if first == COMMENT {
                    break ;
                }
            },
        }
        split_idx = split_idx + 1;
    }
    proof {
        lemma_header_len_is(text, split_idx as int);
    }
    let body = header.split_off(split_idx);
    assert(header.deep_view() =~= text.take(split_idx as int));
    assert(body.deep_view() =~= text.skip(split_idx as int));
    Ok((header, body))
}

} // verus!
