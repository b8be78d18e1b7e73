//! Writing each coalition's recording: which lines go where, under which name, and what a sink
//! that takes them has to do.

use crate::constants::{EXTENSION_TXT, EXTENSION_ZIP};
use crate::outputs::{FilenamesVariant, OutputFilenames};
use crate::selection::{
    lemma_selected_grows, lemma_selected_push, output_of, selected_among, selected_lines,
};
use crate::tacview::{label_of, Coalition, ThirdName};
use vstd::prelude::*;
use vstd::string::StringExecFns;

verus! {

/// The extension of an input file of the given kind.
pub open spec fn extension(is_zip: bool) -> Seq<char> {
    if is_zip {
        EXTENSION_ZIP@
    } else {
        EXTENSION_TXT@
    }
}

/// The name of an input file of the given kind without its extension: without as many
/// characters at its end as the extension has.
pub open spec fn base_name(filename: Seq<char>, is_zip: bool) -> Seq<char>
    recommends
        extension(is_zip).len() <= filename.len(),
{
    filename.take(filename.len() - extension(is_zip).len())
}

/// The name of a coalition's output: the input's name with an underscore and the coalition's
/// name put before `new_extension`, which takes the place of the input's extension.
pub open spec fn tagged_name(
    filename: Seq<char>,
    is_zip: bool,
    coalition: Coalition,
    third: ThirdName,
    new_extension: Seq<char>,
) -> Seq<char>
    recommends
        extension(is_zip).len() <= filename.len(),
{
    base_name(filename, is_zip) + "_"@ + label_of(coalition, third) + new_extension
}

/// An output could not be written: its sink could not be made, or did not take a line.
#[derive(Debug)]
pub struct WriteError {
    /// What went wrong, in words.
    pub reason: String,
}

/// What a sink has seen so far: the lines that were handed to it, in order, those among them
/// that it took, and the error with which it last refused one.
pub struct Progress {
    pub offered: Seq<Seq<char>>,
    pub written: Seq<Seq<char>>,
    pub refusal: Option<WriteError>,
}

/// What a sink has seen after it was handed `line` and answered `taken`.
pub open spec fn handed(
    before: Progress,
    line: Seq<char>,
    taken: Result<(), WriteError>,
) -> Progress {
    Progress {
        offered: before.offered.push(line),
        written: if taken is Ok {
            before.written.push(line)
        } else {
            before.written
        },
        refusal: match taken {
            Ok(_) => before.refusal,
            Err(error) => Some(error),
        },
    }
}

/// `lines` were handed to a sink in order, up to the first that it refused. Where it took them
/// all, it was handed and holds all of them after what it had before. Where it refused one, it
/// was handed the lines up to that one and holds those in front of it, and `taken` is the error
/// that the sink gave.
pub open spec fn took(
    before: Progress,
    after: Progress,
    lines: Seq<Seq<char>>,
    taken: Result<(), WriteError>,
) -> bool {
    match taken {
        Ok(_) => {
            &&& after.offered == before.offered + lines
            &&& after.written == before.written + lines
            &&& after.refusal == before.refusal
        },
        Err(error) => {
            &&& after.refusal == Some(error)
            &&& exists|k: int|
                {
                    &&& 0 <= k < lines.len()
                    &&& after.offered == before.offered + lines.take(k + 1)
                    &&& after.written == before.written + #[trigger] lines.take(k)
                }
        },
    }
}

/// A sink for the lines of one output.
///
/// A sink is handed one line at a time and takes it or refuses it. `progress` tells which lines
/// it was handed and which it took.
pub trait StringWriter {
    /// The lines that the sink was handed and the lines that it took.
    spec fn progress(&self) -> Progress;

    /// Hands one line to the sink.
    fn write_line(&mut self, line: &str) -> (taken: Result<(), WriteError>)
        ensures
            final(self).progress() == handed(old(self).progress(), line@, taken),
    ;

    /// Hands `lines` to the sink in order, up to the first that it refuses.
    fn write_strings(&mut self, lines: &[String]) -> (taken: Result<(), WriteError>)
        ensures
            took(old(self).progress(), final(self).progress(), lines.deep_view(), taken),
    {
        let ghost text = lines.deep_view();
        let ghost before = self.progress();
        let mut i: usize = 0;
        while i < lines.len()
            invariant
                text == lines.deep_view(),
                before == old(self).progress(),
                i <= lines.len(),
                self.progress().offered == before.offered + text.take(i as int),
                self.progress().written == before.written + text.take(i as int),
                self.progress().refusal == before.refusal,
            decreases lines.len() - i,
        {
            assert(text.take(i + 1) =~= text.take(i as int).push(lines[i as int]@));
            match self.write_line(lines[i].as_str()) {
                Ok(()) => {},
                Err(e) => {
                    assert(self.progress().offered =~= before.offered + text.take(i + 1));
                    return Err(e);
                },
            }
            i = i + 1;
        }
        assert(text.take(i as int) =~= text);
        Ok(())
    }

    /// Hands to the sink, in order, the lines that go to the output of `coalition`: those whose
    /// label in `coalition_per_line` is `coalition` or `All`. Stops at the first line that the
    /// sink refuses.
    fn write_for_coalition(
        &mut self,
        lines: &[String],
        coalition_per_line: &[Coalition],
        coalition: &Coalition,
    ) -> (taken: Result<(), WriteError>)
        requires
            lines.len() == coalition_per_line.len(),
        ensures
            took(
                old(self).progress(),
                final(self).progress(),
                selected_lines(lines.deep_view(), coalition_per_line@, *coalition),
                taken,
            ),
    {
        let ghost text = lines.deep_view();
        let ghost labels = coalition_per_line@;
        let ghost before = self.progress();
        let mut i: usize = 0;
        while i < lines.len()
            invariant
                text == lines.deep_view(),
                labels == coalition_per_line@,
                before == old(self).progress(),
                lines.len() == coalition_per_line.len(),
                i <= lines.len(),
                self.progress().offered == before.offered + selected_among(
                    text,
                    labels,
                    *coalition,
                    i as nat,
                ),
                self.progress().written == before.written + selected_among(
                    text,
                    labels,
                    *coalition,
                    i as nat,
                ),
                self.progress().refusal == before.refusal,
            decreases lines.len() - i,
        {
            proof {
                lemma_selected_push(text, labels, *coalition, i as nat);
            }
            let label = coalition_per_line[i];
            if label == *coalition || label == Coalition::All {
                match self.write_line(lines[i].as_str()) {
                    Ok(()) => {},
                    Err(e) => {
                        proof {
                            let all = selected_lines(text, labels, *coalition);
                            let k = selected_among(text, labels, *coalition, i as nat).len() as int;
                            lemma_selected_grows(text, labels, *coalition, i as nat, text.len());
                            lemma_selected_grows(
                                text,
                                labels,
                                *coalition,
                                (i + 1) as nat,
                                text.len(),
                            );
                            assert(self.progress().written == before.written + all.take(k));
                        }
                        return Err(e);
                    },
                }
            }
            i = i + 1;
        }
        Ok(())
    }
}

/// A vector of strings is a sink that keeps every line and refuses none.
impl StringWriter for Vec<String> {
    open spec fn progress(&self) -> Progress {
        Progress { offered: self.deep_view(), written: self.deep_view(), refusal: None }
    }

    fn write_line(&mut self, line: &str) -> (taken: Result<(), WriteError>)
        ensures
            taken is Ok,
    {
        self.push(line.to_owned());
        assert(self.deep_view() =~= old(self).deep_view().push(line@));
        Ok(())
    }
}

/// Lines handed to a sink in two runs, the second only after the first was taken whole, are
/// handed to it as one run.
pub proof fn lemma_took_both(
    before: Progress,
    between: Progress,
    after: Progress,
    first: Seq<Seq<char>>,
    second: Seq<Seq<char>>,
    taken: Result<(), WriteError>,
)
    requires
        took(before, between, first, Ok(())),
        took(between, after, second, taken),
    ensures
        took(before, after, first + second, taken),
{
    match taken {
        Ok(_) => {
            assert(after.offered =~= before.offered + (first + second));
            assert(after.written =~= before.written + (first + second));
        },
        Err(_) => {
            let k = choose|k: int|
                {
                    &&& 0 <= k < second.len()
                    &&& after.offered == between.offered + second.take(k + 1)
                    &&& after.written == between.written + #[trigger] second.take(k)
                };
            assert(after.offered =~= before.offered + (first + second).take(first.len() + k + 1));
            assert(after.written =~= before.written + (first + second).take(first.len() + k));
        },
    }
}

/// Lines of which a sink refused one are refused as well when more lines would have followed.
pub proof fn lemma_took_part(
    before: Progress,
    after: Progress,
    first: Seq<Seq<char>>,
    second: Seq<Seq<char>>,
    taken: Result<(), WriteError>,
)
    requires
        taken is Err,
        took(before, after, first, taken),
    ensures
        took(before, after, first + second, taken),
{
    let k = choose|k: int|
        {
            &&& 0 <= k < first.len()
            &&& after.offered == before.offered + first.take(k + 1)
            &&& after.written == before.written + #[trigger] first.take(k)
        };
    assert(first.take(k) =~= (first + second).take(k));
    assert(first.take(k + 1) =~= (first + second).take(k + 1));
}

/// The name of a recording without its extension.
pub fn remove_extension(filename: &str, is_zip: bool) -> (base: &str)
    requires
        extension(is_zip).len() <= filename@.len(),
    ensures
        base@ == base_name(filename@, is_zip),
{
    let len: usize = filename.unicode_len();
    let cut: usize = if is_zip {
        EXTENSION_ZIP.unicode_len()
    } else {
        EXTENSION_TXT.unicode_len()
    };
    filename.substring_char(0, len - cut)
}

/// The name of the output of `coalition` for the input `filename`, with the extension
/// `new_extension`, where the third coalition is called `third`.
pub fn output_name(
    filename: &str,
    is_zip: bool,
    coalition: &Coalition,
    third: ThirdName,
    new_extension: &str,
) -> (name: String)
    requires
        extension(is_zip).len() <= filename@.len(),
    ensures
        name@ == tagged_name(filename@, is_zip, *coalition, third, new_extension@),
{
    let mut name = remove_extension(filename, is_zip).to_owned();
    name.append("_");
    name.append(coalition.label_named(third));
    name.append(new_extension);
    name
}

/// No output has the name of the input: the name of an output is longer.
pub proof fn lemma_output_name_differs(
    filename: Seq<char>,
    is_zip: bool,
    coalition: Coalition,
    third: ThirdName,
    zipped_output: bool,
)
    requires
        extension(is_zip).len() <= filename.len(),
    ensures
        tagged_name(filename, is_zip, coalition, third, extension(zipped_output)).len()
            > filename.len(),
        tagged_name(filename, is_zip, coalition, third, extension(zipped_output)) != filename,
{
    reveal_strlit(".txt.acmi");
    reveal_strlit(".zip.acmi");
    reveal_strlit("_");
}

/// A recording that was split and labelled, ready to be written: the name and kind of the input,
/// its header, its body, and the coalition of each line of the body.
pub struct OutputData {
    input_filename: String,
    is_zip: bool,
    header: Vec<String>,
    body: Vec<String>,
    coalition_per_line: Vec<Coalition>,
    third: ThirdName,
}

impl OutputData {
    /// Every line of the body has its label, and the input's name is long enough to hold its
    /// extension.
    #[verifier::type_invariant]
    spec fn consistent(&self) -> bool {
        &&& self.body.len() == self.coalition_per_line.len()
        &&& extension(self.is_zip).len() <= self.input_filename@.len()
    }

    /// The name of the input.
    pub closed spec fn filename(&self) -> Seq<char> {
        self.input_filename@
    }

    /// Whether the input is a zip archive.
    pub closed spec fn zipped(&self) -> bool {
        self.is_zip
    }

    /// The lines of the header.
    pub closed spec fn header_text(&self) -> Seq<Seq<char>> {
        self.header.deep_view()
    }

    /// The lines of the body.
    pub closed spec fn body_text(&self) -> Seq<Seq<char>> {
        self.body.deep_view()
    }

    /// The coalition of each line of the body.
    pub closed spec fn labels(&self) -> Seq<Coalition> {
        self.coalition_per_line@
    }

    /// What the third coalition is called in the names of the outputs.
    pub closed spec fn third_name(&self) -> ThirdName {
        self.third
    }

    /// The name of the output of `coalition` with the extension `new_extension`.
    pub open spec fn name_of(&self, coalition: Coalition, new_extension: Seq<char>) -> Seq<char> {
        tagged_name(self.filename(), self.zipped(), coalition, self.third_name(), new_extension)
    }

    /// What the output of `coalition` is to hold.
    pub open spec fn output(&self, coalition: Coalition) -> Seq<Seq<char>> {
        output_of(self.header_text(), self.body_text(), self.labels(), coalition)
    }

    /// A recording ready to be written, with the third coalition called violet. Every line of
    /// the body has its coalition, and the name of the input is long enough to hold the
    /// extension of its kind.
    pub fn new(
        input_filename: String,
        is_zip: bool,
        header: Vec<String>,
        body: Vec<String>,
        coalition_per_line: Vec<Coalition>,
    ) -> (data: Self)
        requires
            body.len() == coalition_per_line.len(),
            extension(is_zip).len() <= input_filename@.len(),
        ensures
            data.filename() == input_filename@,
            data.zipped() == is_zip,
            data.header_text() == header.deep_view(),
            data.body_text() == body.deep_view(),
            data.labels() == coalition_per_line@,
            data.third_name() == ThirdName::Violet,
    {
        Self { is_zip, body, coalition_per_line, header, input_filename, third: ThirdName::Violet }
    }

    /// The same recording, with the third coalition called `third` in the names of the outputs.
    pub fn with_third_name(self, third: ThirdName) -> (data: Self)
        ensures
            data.filename() == self.filename(),
            data.zipped() == self.zipped(),
            data.header_text() == self.header_text(),
            data.body_text() == self.body_text(),
            data.labels() == self.labels(),
            data.third_name() == third,
    {
        proof {
            use_type_invariant(&self);
        }
        Self {
            is_zip: self.is_zip,
            body: self.body,
            coalition_per_line: self.coalition_per_line,
            header: self.header,
            input_filename: self.input_filename,
            third,
        }
    }

    /// The name of the input.
    pub fn input_filename(&self) -> (name: &str)
        ensures
            name@ == self.filename(),
    {
        self.input_filename.as_str()
    }

    /// Whether the input is a zip archive, and the outputs are to be archives too.
    pub fn is_zip(&self) -> (is_zip: bool)
        ensures
            is_zip == self.zipped(),
    {
        self.is_zip
    }

    /// The coalitions that get an output, in the order in which the outputs are made.
    pub fn coalitions() -> (coalitions: [Coalition; 3])
        ensures
            coalitions@ == seq![Coalition::Blue, Coalition::Red, Coalition::Violet],
    {
        [Coalition::Blue, Coalition::Red, Coalition::Violet]
    }

    /// The name of the text that holds the output of `coalition`: of the output file, or of the
    /// one entry of the output archive.
    pub fn txt_name(&self, coalition: &Coalition) -> (name: String)
        ensures
            name@ == self.name_of(*coalition, EXTENSION_TXT@),
    {
        proof {
            use_type_invariant(self);
        }
        output_name(self.input_filename.as_str(), self.is_zip, coalition, self.third, EXTENSION_TXT)
    }

    /// The name of the archive that holds the output of `coalition`, where the input is one.
    pub fn zip_name(&self, coalition: &Coalition) -> (name: Option<String>)
        ensures
            match name {
                Some(name) => self.zipped() && name@ == self.name_of(*coalition, EXTENSION_ZIP@),
                None => !self.zipped(),
            },
    {
        proof {
            use_type_invariant(self);
        }
        if self.is_zip {
            Some(
                output_name(
                    self.input_filename.as_str(),
                    true,
                    coalition,
                    self.third,
                    EXTENSION_ZIP,
                ),
            )
        } else {
            None
        }
    }

    /// The names of the three outputs, as plain text and as archives.
    pub fn filenames(&self) -> (names: OutputFilenames)
        ensures
            names.txt.blue@ == self.name_of(Coalition::Blue, EXTENSION_TXT@),
            names.txt.red@ == self.name_of(Coalition::Red, EXTENSION_TXT@),
            names.txt.violet@ == self.name_of(Coalition::Violet, EXTENSION_TXT@),
            names.zip.blue@ == self.name_of(Coalition::Blue, EXTENSION_ZIP@),
            names.zip.red@ == self.name_of(Coalition::Red, EXTENSION_ZIP@),
            names.zip.violet@ == self.name_of(Coalition::Violet, EXTENSION_ZIP@),
    {
        proof {
            use_type_invariant(self);
        }
        let name = self.input_filename.as_str();
        OutputFilenames {
            txt: FilenamesVariant {
                blue: output_name(name, self.is_zip, &Coalition::Blue, self.third, EXTENSION_TXT),
                red: output_name(name, self.is_zip, &Coalition::Red, self.third, EXTENSION_TXT),
                violet: output_name(
                    name,
                    self.is_zip,
                    &Coalition::Violet,
                    self.third,
                    EXTENSION_TXT,
                ),
            },
            zip: FilenamesVariant {
                blue: output_name(name, self.is_zip, &Coalition::Blue, self.third, EXTENSION_ZIP),
                red: output_name(name, self.is_zip, &Coalition::Red, self.third, EXTENSION_ZIP),
                violet: output_name(
                    name,
                    self.is_zip,
                    &Coalition::Violet,
                    self.third,
                    EXTENSION_ZIP,
                ),
            },
        }
    }

    /// The lines of the output of `coalition`, in the order in which they are to be written: the
    /// header, then the lines of the body that go to the coalition.
    pub fn lines_for(&self, coalition: &Coalition) -> (lines: Vec<&str>)
        ensures
            lines.deep_view() == self.output(*coalition),
    {
        proof {
            use_type_invariant(self);
        }
        let ghost header = self.header.deep_view();
        let ghost body = self.body.deep_view();
        let ghost labels = self.coalition_per_line@;
        let mut lines: Vec<&str> = Vec::new();
        let mut i: usize = 0;
        while i < self.header.len()
            invariant
                header == self.header.deep_view(),
                i <= self.header.len(),
                lines.deep_view() == header.take(i as int),
            decreases self.header.len() - i,
        {
            let ghost before = lines.deep_view();
            lines.push(self.header[i].as_str());
            assert(lines.deep_view() =~= before.push(self.header[i as int]@));
            assert(header.take(i + 1) =~= header.take(i as int).push(self.header[i as int]@));
            i = i + 1;
        }
        assert(header.take(i as int) =~= header);
        let mut j: usize = 0;
        while j < self.body.len()
            invariant
                body == self.body.deep_view(),
                labels == self.coalition_per_line@,
                self.body.len() == self.coalition_per_line.len(),
                j <= self.body.len(),
                lines.deep_view() == header + selected_among(body, labels, *coalition, j as nat),
            decreases self.body.len() - j,
        {
            proof {
                lemma_selected_push(body, labels, *coalition, j as nat);
            }
            let label = self.coalition_per_line[j];
            if label == *coalition || label == Coalition::All {
                let ghost before = lines.deep_view();
                lines.push(self.body[j].as_str());
                assert(lines.deep_view() =~= before.push(self.body[j as int]@));
                assert(lines.deep_view() =~= header + selected_among(
                    body,
                    labels,
                    *coalition,
                    (j + 1) as nat,
                ));
            }
            j = j + 1;
        }
        lines
    }

    /// Writes the output of `coalition` to `writer`: the header, then the lines of the body
    /// that go to the coalition. Stops at the first line that the sink refuses.
    pub fn write_coalition<W: StringWriter>(&self, writer: &mut W, coalition: &Coalition) -> (taken:
        Result<(), WriteError>)
        ensures
            took(old(writer).progress(), final(writer).progress(), self.output(*coalition), taken),
    {
        proof {
            use_type_invariant(self);
        }
        let ghost before = writer.progress();
        let ghost header = self.header_text();
        let ghost selected = selected_lines(self.body_text(), self.labels(), *coalition);
        match writer.write_strings(self.header.as_slice()) {
            Ok(()) => {},
            Err(e) => {
                proof {
                    lemma_took_part(before, writer.progress(), header, selected, Err(e));
                }
                return Err(e);
            },
        }
        let ghost between = writer.progress();
        let taken = writer.write_for_coalition(
            self.body.as_slice(),
            self.coalition_per_line.as_slice(),
            coalition,
        );
        proof {
            lemma_took_both(before, between, writer.progress(), header, selected, taken);
        }
        taken
    }
}

} // verus!
