//! The three outputs side by side: their names, the lines of each, and writing them one after
//! another.

use crate::selection::{lemma_selected_push, selected_among, selected_lines};
use crate::tacview::Coalition;
use crate::text::{chars_of, ends_with, matches_at};
use crate::writer::{lemma_took_both, lemma_took_part, took, Progress, StringWriter, WriteError};
use std::collections::HashSet;
use vstd::prelude::*;
use vstd::string::StringExecFns;

verus! {

/// The unit identifiers of a recording, sorted by the coalition of the unit.
pub struct IDs<'a> {
    pub blue: HashSet<&'a str>,
    pub red: HashSet<&'a str>,
    pub violet: HashSet<&'a str>,
    pub unknown: HashSet<&'a str>,
}

/// One file name for each coalition.
pub struct FilenamesVariant {
    pub blue: String,
    pub red: String,
    pub violet: String,
}

/// The names of the outputs, as plain text and as archives.
pub struct OutputFilenames {
    pub txt: FilenamesVariant,
    pub zip: FilenamesVariant,
}

/// Some output has the name of the input, and would be written over it.
pub open spec fn collides(input: Seq<char>, outputs: FilenamesVariant) -> bool {
    input == outputs.blue@ || input == outputs.red@ || input == outputs.violet@
}

/// Whether some output has the name of the input.
pub fn output_filenames_collide(
    input_filename: &String,
    output_filenames: &FilenamesVariant,
) -> (found: bool)
    ensures
        found == collides(input_filename@, *output_filenames),
{
    *input_filename == output_filenames.blue || *input_filename == output_filenames.red
        || *input_filename == output_filenames.violet
}

/// Passes output names of which none is the name of the input. Names that collide are not to be
/// brought here: `output_filenames_collide` tells them.
pub fn sanity_check_output_filenames(input_filename: &String, output_filenames: &FilenamesVariant)
    requires
        !collides(input_filename@, *output_filenames),
{
}

/// The name of an output: the input's name with `coalition` put before its extension, and
/// `new_extension` in place of `old_extension`. A name that does not end with `old_extension`
/// stays as it is.
pub open spec fn output_filename(
    input: Seq<char>,
    old_extension: Seq<char>,
    new_extension: Seq<char>,
    coalition: Seq<char>,
) -> Seq<char> {
    if ends_with(input, old_extension) {
        input.take(input.len() - old_extension.len()) + coalition + new_extension
    } else {
        input
    }
}

/// The name of the output for the input `input_filename`, where `coalition` is the tag of a
/// coalition, such as `_blue`.
pub fn get_output_filenames_individual(
    input_filename: &str,
    old_extension: &str,
    new_extension: &str,
    coalition: &str,
) -> (name: String)
    ensures
        name@ == output_filename(input_filename@, old_extension@, new_extension@, coalition@),
{
    let input = chars_of(input_filename);
    let old = chars_of(old_extension);
    if old.len() <= input.len() && matches_at(&input, &old, input.len() - old.len()) {
        let mut name = input_filename.substring_char(0, input.len() - old.len()).to_owned();
        name.append(coalition);
        name.append(new_extension);
        name
    } else {
        input_filename.to_owned()
    }
}

/// The lines of the body that go to each coalition's output.
pub struct BodiesByCoalition<'a> {
    pub blue: Vec<&'a str>,
    pub red: Vec<&'a str>,
    pub violet: Vec<&'a str>,
}

impl<'a> BodiesByCoalition<'a> {
    /// Sorts the lines of `body` by their labels: each coalition gets its own lines and those
    /// that go to all, in the order of the body.
    pub fn new(body: &'a [String], coalition_per_line: &[Coalition]) -> (bodies: Self)
        requires
            body.len() == coalition_per_line.len(),
        ensures
            bodies.blue.deep_view() == selected_lines(
                body.deep_view(),
                coalition_per_line@,
                Coalition::Blue,
            ),
            bodies.red.deep_view() == selected_lines(
                body.deep_view(),
                coalition_per_line@,
                Coalition::Red,
            ),
            bodies.violet.deep_view() == selected_lines(
                body.deep_view(),
                coalition_per_line@,
                Coalition::Violet,
            ),
    {
        let ghost text = body.deep_view();
        let ghost labels = coalition_per_line@;
        let mut blue: Vec<&'a str> = Vec::new();
        let mut red: Vec<&'a str> = Vec::new();
        let mut violet: Vec<&'a str> = Vec::new();
        let mut i: usize = 0;
        while i < body.len()
            invariant
                text == body.deep_view(),
                labels == coalition_per_line@,
                body.len() == coalition_per_line.len(),
                i <= body.len(),
                blue.deep_view() == selected_among(text, labels, Coalition::Blue, i as nat),
                red.deep_view() == selected_among(text, labels, Coalition::Red, i as nat),
                violet.deep_view() == selected_among(text, labels, Coalition::Violet, i as nat),
            decreases body.len() - i,
        {
            proof {
                lemma_selected_push(text, labels, Coalition::Blue, i as nat);
                lemma_selected_push(text, labels, Coalition::Red, i as nat);
                lemma_selected_push(text, labels, Coalition::Violet, i as nat);
            }
            let line: &'a str = body[i].as_str();
            match coalition_per_line[i] {
                Coalition::Blue => {
                    blue.push(line);
                },
                Coalition::Red => {
                    red.push(line);
                },
                Coalition::Violet => {
                    violet.push(line);
                },
                Coalition::All => {
                    blue.push(line);
                    red.push(line);
                    violet.push(line);
                },
                Coalition::Unknown => {},
            }
            i = i + 1;
        }
        BodiesByCoalition { blue, red, violet }
    }
}

/// The sinks of the three outputs.
pub struct Descriptors<T: StringWriter> {
    pub blue: T,
    pub red: T,
    pub violet: T,
}

/// What the sinks of the three outputs have seen.
pub struct FanOut {
    pub blue: Progress,
    pub red: Progress,
    pub violet: Progress,
}

/// How writing each of the three outputs ended.
#[derive(Debug)]
pub struct WriteReport {
    pub blue: Result<(), WriteError>,
    pub red: Result<(), WriteError>,
    pub violet: Result<(), WriteError>,
}

/// The coalitions whose outputs failed, in the order blue, red, violet.
pub open spec fn failed_outputs(report: WriteReport) -> Seq<Coalition> {
    (if report.blue is Err {
        seq![Coalition::Blue]
    } else {
        Seq::<Coalition>::empty()
    }) + (if report.red is Err {
        seq![Coalition::Red]
    } else {
        Seq::<Coalition>::empty()
    }) + (if report.violet is Err {
        seq![Coalition::Violet]
    } else {
        Seq::<Coalition>::empty()
    })
}

/// The error with which the output of `coalition` failed, if it has an output and that failed.
pub open spec fn failure_of(report: WriteReport, coalition: Coalition) -> Option<WriteError> {
    match coalition {
        Coalition::Blue => match report.blue {
            Ok(_) => None,
            Err(error) => Some(error),
        },
        Coalition::Red => match report.red {
            Ok(_) => None,
            Err(error) => Some(error),
        },
        Coalition::Violet => match report.violet {
            Ok(_) => None,
            Err(error) => Some(error),
        },
        _ => None,
    }
}

impl WriteReport {
    /// The coalitions whose outputs failed, in the order blue, red, violet. The run as a whole
    /// succeeded exactly when there is none.
    pub fn failed(&self) -> (failed: Vec<Coalition>)
        ensures
            failed@ == failed_outputs(*self),
    {
        let mut failed: Vec<Coalition> = Vec::new();
        if self.blue.is_err() {
            failed.push(Coalition::Blue);
        }
        if self.red.is_err() {
            failed.push(Coalition::Red);
        }
        if self.violet.is_err() {
            failed.push(Coalition::Violet);
        }
        assert(failed@ =~= failed_outputs(*self));
        failed
    }

    /// The error with which the output of `coalition` failed.
    pub fn error_of(&self, coalition: &Coalition) -> (error: Option<&WriteError>)
        ensures
            match error {
                Some(error) => failure_of(*self, *coalition) == Some(*error),
                None => failure_of(*self, *coalition) is None,
            },
    {
        let outcome = match coalition {
            Coalition::Blue => &self.blue,
            Coalition::Red => &self.red,
            Coalition::Violet => &self.violet,
            _ => {
                return None;
            },
        };
        match outcome {
            Ok(_) => None,
            Err(error) => Some(error),
        }
    }
}

/// Something that takes a recording sorted by coalition and writes the three outputs.
pub trait Handling {
    /// What the sinks of the three outputs have seen so far.
    spec fn progress(&self) -> FanOut;

    /// Writes to each output the header and then the body of its coalition. Every output is
    /// attempted, whatever became of the others, and reported on its own.
    fn write(&mut self, header: Vec<String>, bodies_by_coalition: BodiesByCoalition) -> (report:
        WriteReport)
        ensures
            took(
                old(self).progress().blue,
                final(self).progress().blue,
                header.deep_view() + bodies_by_coalition.blue.deep_view(),
                report.blue,
            ),
            took(
                old(self).progress().red,
                final(self).progress().red,
                header.deep_view() + bodies_by_coalition.red.deep_view(),
                report.red,
            ),
            took(
                old(self).progress().violet,
                final(self).progress().violet,
                header.deep_view() + bodies_by_coalition.violet.deep_view(),
                report.violet,
            ),
    ;
}

/// Writes `header` and then `body` to `sink`, up to the first line that the sink refuses.
fn write_output<T: StringWriter>(sink: &mut T, header: &Vec<String>, body: &Vec<&str>) -> (taken:
    Result<(), WriteError>)
    ensures
        took(
            old(sink).progress(),
            final(sink).progress(),
            header.deep_view() + body.deep_view(),
            taken,
        ),
{
    let ghost before = sink.progress();
    let ghost head = header.deep_view();
    let ghost text = body.deep_view();
    match sink.write_strings(header.as_slice()) {
        Ok(()) => {},
        Err(e) => {
            proof {
                lemma_took_part(before, sink.progress(), head, text, Err(e));
            }
            return Err(e);
        },
    }
    let ghost between = sink.progress();
    let mut i: usize = 0;
    while i < body.len()
        invariant
            before == old(sink).progress(),
            head == header.deep_view(),
            text == body.deep_view(),
            took(before, between, head, Ok(())),
            i <= body.len(),
            sink.progress().offered == between.offered + text.take(i as int),
            sink.progress().written == between.written + text.take(i as int),
            sink.progress().refusal == between.refusal,
        decreases body.len() - i,
    {
        match sink.write_line(body[i]) {
            Ok(()) => {},
            Err(e) => {
                proof {
                    assert(sink.progress().offered =~= between.offered + text.take(i + 1));
                    lemma_took_both(before, between, sink.progress(), head, text, Err(e));
                }
                return Err(e);
            },
        }
        i = i + 1;
    }
    proof {
        assert(text.take(i as int) =~= text);
        lemma_took_both(before, between, sink.progress(), head, text, Ok(()));
    }
    Ok(())
}

impl<T: StringWriter> Handling for Descriptors<T> {
    open spec fn progress(&self) -> FanOut {
        FanOut {
            blue: self.blue.progress(),
            red: self.red.progress(),
            violet: self.violet.progress(),
        }
    }

    fn write(&mut self, header: Vec<String>, bodies_by_coalition: BodiesByCoalition) -> (report:
        WriteReport) {
        let blue = write_output(&mut self.blue, &header, &bodies_by_coalition.blue);
        let red = write_output(&mut self.red, &header, &bodies_by_coalition.red);
        let violet = write_output(&mut self.violet, &header, &bodies_by_coalition.violet);
        WriteReport { blue, red, violet }
    }
}

} // verus!
