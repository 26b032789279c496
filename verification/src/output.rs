//! What is written at the end of a run: the names of the files and their
//! text. Writing them is the caller's part.

use crate::decimal::{decimal, decimal_text, lemma_decimal_round_trip, parse_decimal, parse_usize};
use crate::orchestrator::{exchange_views, GeneratedDialog, GenerationMetadata};
use crate::script::script_text;
use crate::text::{
    chars_of, matches_at, occurs_at, slice, starts_with, string_of, trim_end, trimmed_end,
};
use std::path::PathBuf;
use vstd::prelude::*;
use vstd::string::StringExecFns;

verus! {

/// `std::path::PathBuf`, an owned file-system path. The library keeps
/// the output directory in one and never looks inside.
#[verifier::external_type_specification]
#[verifier::external_body]
pub struct ExPathBuf(PathBuf);

/// Where the results of a run go.
#[derive(Debug)]
pub struct OutputWriter {
    output_dir: PathBuf,
}

/// The two files of a result: their names within the output directory,
/// and their text.
#[derive(Debug)]
pub struct OutputFiles {
    pub dialog_name: String,
    pub dialog_content: String,
    pub metadata_name: String,
    pub metadata_content: String,
}

/// Whether `s` ends with `pat`.
pub open spec fn ends_with(s: Seq<char>, pat: Seq<char>) -> bool {
    occurs_at(s, pat, s.len() - pat.len())
}

/// The number `N` of a file named `generated-dialogN.txt`, where `N` is
/// a decimal number that fits the machine word.
pub open spec fn dialog_number(name: Seq<char>) -> Option<usize> {
    let prefix = "generated-dialog"@;
    let suffix = ".txt"@;
    if starts_with(name, prefix) && ends_with(name.skip(prefix.len() as int), suffix) {
        match parse_decimal(name.subrange(prefix.len() as int, name.len() - suffix.len())) {
            Some(n) => if n <= usize::MAX {
                Some(n as usize)
            } else {
                None
            },
            None => None,
        }
    } else {
        None
    }
}

/// The greatest number of a dialog file among `names`, or zero where
/// there is none.
pub open spec fn max_dialog_number(names: Seq<Seq<char>>) -> nat
    decreases names.len(),
{
    if names.len() == 0 {
        0
    } else {
        let before = max_dialog_number(names.drop_last());
        match dialog_number(names.last()) {
            Some(n) => if n > before {
                n as nat
            } else {
                before
            },
            None => before,
        }
    }
}

/// The texts of a sequence of strings.
pub open spec fn string_views(names: Seq<String>) -> Seq<Seq<char>> {
    Seq::new(names.len(), |i: int| names[i]@)
}

/// The name of the dialog file with the number `num`.
pub open spec fn dialog_file_name_text(num: usize) -> Seq<char> {
    "generated-dialog"@ + decimal_text(num as nat) + ".txt"@
}

/// The name of the metadata file with the number `num`.
pub open spec fn metadata_file_name_text(num: usize) -> Seq<char> {
    "output-metadata"@ + decimal_text(num as nat) + ".txt"@
}

/// The text of the metadata file for `meta`, with the sampling
/// temperature, the wall time in seconds and the average rate as the
/// caller has formatted them.
pub open spec fn metadata_text(
    meta: GenerationMetadata,
    temperature: Seq<char>,
    wall_seconds: Seq<char>,
    tokens_per_second: Seq<char>,
) -> Seq<char> {
    "Model: "@ + meta.model@ + "\nTurns: "@ + decimal_text(meta.turns as nat) + "\nTemperature: "@
        + temperature + "\n\nPrompt tokens: "@ + decimal_text(meta.total_prompt_tokens as nat)
        + "\nCompletion tokens: "@ + decimal_text(meta.total_completion_tokens as nat)
        + "\nTotal tokens: "@ + decimal_text(
        (meta.total_prompt_tokens + meta.total_completion_tokens) as nat,
    ) + "\n\nWall time: "@ + wall_seconds + "s\nTokens/second: "@ + tokens_per_second + "\n"@
}

/// The name of the dialog file with the number `num` carries that
/// number.
pub proof fn lemma_dialog_file_name_is_numbered(num: usize)
    ensures
        dialog_number(dialog_file_name_text(num)) == Some(num),
{
    let prefix = "generated-dialog"@;
    let suffix = ".txt"@;
    let digits = decimal_text(num as nat);
    let name = dialog_file_name_text(num);
    lemma_decimal_round_trip(num as nat);
    assert(name.subrange(0, prefix.len() as int) =~= prefix);
    let rest = name.skip(prefix.len() as int);
    assert(rest =~= digits + suffix);
    assert(rest.subrange(rest.len() - suffix.len(), rest.len() as int) =~= suffix);
    assert(name.subrange(prefix.len() as int, name.len() - suffix.len()) =~= digits);
}

/// No dialog file among `names` has a number above the greatest.
pub proof fn lemma_max_dialog_number_bounds(names: Seq<Seq<char>>, i: int)
    requires
        0 <= i < names.len(),
    ensures
        dialog_number(names[i]) matches Some(n) ==> n <= max_dialog_number(names),
    decreases names.len(),
{
    if i < names.len() - 1 {
        lemma_max_dialog_number_bounds(names.drop_last(), i);
    }
}

impl OutputFiles {
    /// Whether the files hold `dialog`, under the names `dialog_name` and
    /// `metadata_name`, with the three numbers that are no whole numbers
    /// as the caller has formatted them.
    pub open spec fn hold(
        &self,
        dialog: GeneratedDialog,
        dialog_name: Seq<char>,
        metadata_name: Seq<char>,
        temperature: Seq<char>,
        wall_seconds: Seq<char>,
        tokens_per_second: Seq<char>,
    ) -> bool {
        &&& self.dialog_name@ == dialog_name
        &&& self.dialog_content@ == trim_end(script_text(exchange_views(dialog.exchanges@)))
        &&& self.metadata_name@ == metadata_name
        &&& self.metadata_content@ == metadata_text(
            dialog.metadata,
            temperature,
            wall_seconds,
            tokens_per_second,
        )
    }
}

fn number_of(name: &String) -> (r: Option<usize>)
    ensures
        r == dialog_number(name@),
{
    let v = chars_of(name.as_str());
    let prefix = chars_of("generated-dialog");
    let suffix = chars_of(".txt");
    if !matches_at(&v, &prefix, 0) {
        return None;
    }
    let rest = slice(&v, prefix.len(), v.len());
    assert(rest@ =~= v@.skip(prefix@.len() as int));
    if suffix.len() > rest.len() || !matches_at(&rest, &suffix, rest.len() - suffix.len()) {
        return None;
    }
    let middle = slice(&rest, 0, rest.len() - suffix.len());
    assert(middle@ =~= v@.subrange(prefix@.len() as int, v@.len() - suffix@.len()));
    parse_usize(&middle)
}

fn text_of_number(n: u128) -> (s: String)
    ensures
        s@ == decimal_text(n as nat),
{
    string_of(&decimal(n))
}

impl OutputWriter {
    /// The directory that the results go to.
    pub closed spec fn directory(&self) -> PathBuf {
        self.output_dir
    }

    /// A writer for the directory `output_dir`.
    pub fn new(output_dir: PathBuf) -> (writer: OutputWriter)
        ensures
            writer.directory() == output_dir,
    {
        OutputWriter { output_dir }
    }

    /// The directory that the results go to.
    pub fn output_dir(&self) -> (dir: &PathBuf)
        ensures
            *dir == self.directory(),
    {
        &self.output_dir
    }

    /// The number for the next dialog file in a directory that holds the
    /// files `names`: one more than the greatest number of a dialog file
    /// there, and 1 where there is none. `None` where that number does not
    /// fit the machine word.
    pub fn next_file_number(names: &Vec<String>) -> (next: Option<usize>)
        ensures
            match next {
                Some(n) => n == max_dialog_number(string_views(names@)) + 1,
                None => max_dialog_number(string_views(names@)) + 1 > usize::MAX,
            },
    {
        let ghost all = string_views(names@);
        let mut max_num: usize = 0;
        let mut i: usize = 0;
        assert(all.take(0) =~= Seq::<Seq<char>>::empty());
        while i < names.len()
            invariant
                i <= names.len(),
                all == string_views(names@),
                max_num == max_dialog_number(all.take(i as int)),
            decreases names.len() - i,
        {
            let ghost upto = all.take(i + 1);
            assert(upto.drop_last() =~= all.take(i as int));
            assert(upto.last() == names@[i as int]@);
            match number_of(&names[i]) {
                Some(n) => {
                    if n > max_num {
                        max_num = n;
                    }
                },
                None => {},
            }
            i += 1;
        }
        assert(all.take(names.len() as int) =~= all);
        if max_num == usize::MAX {
            None
        } else {
            Some(max_num + 1)
        }
    }

    /// The files for the generated dialog `dialog` in a directory that
    /// holds the files `existing`: the dialog file and the metadata file
    /// under the next free number, or `None` where that number does not
    /// fit the machine word. The sampling temperature, the wall time in
    /// seconds and the average rate in tokens per second come as text.
    pub fn write(
        &self,
        dialog: &GeneratedDialog,
        existing: &Vec<String>,
        temperature: &str,
        wall_seconds: &str,
        tokens_per_second: &str,
    ) -> (files: Option<OutputFiles>)
        ensures
            files is Some <==> max_dialog_number(string_views(existing@)) < usize::MAX,
            files matches Some(f) ==> f.hold(
                *dialog,
                dialog_file_name_text((max_dialog_number(string_views(existing@)) + 1) as usize),
                metadata_file_name_text((max_dialog_number(string_views(existing@)) + 1) as usize),
                temperature@,
                wall_seconds@,
                tokens_per_second@,
            ),
    {
        match Self::next_file_number(existing) {
            Some(num) => Some(
                OutputFiles {
                    dialog_name: Self::dialog_file_name(num),
                    dialog_content: Self::dialog_content(dialog),
                    metadata_name: Self::metadata_file_name(num),
                    metadata_content: Self::metadata_content(
                        &dialog.metadata,
                        temperature,
                        wall_seconds,
                        tokens_per_second,
                    ),
                },
            ),
            None => None,
        }
    }

    /// The files for the edited dialog `dialog`: the script and the
    /// metadata, under their fixed names.
    pub fn write_edited(
        &self,
        dialog: &GeneratedDialog,
        temperature: &str,
        wall_seconds: &str,
        tokens_per_second: &str,
    ) -> (files: OutputFiles)
        ensures
            files.hold(
                *dialog,
                "edited-podcast.txt"@,
                "edited-metadata.txt"@,
                temperature@,
                wall_seconds@,
                tokens_per_second@,
            ),
    {
        OutputFiles {
            dialog_name: String::from_str("edited-podcast.txt"),
            dialog_content: Self::dialog_content(dialog),
            metadata_name: String::from_str("edited-metadata.txt"),
            metadata_content: Self::metadata_content(
                &dialog.metadata,
                temperature,
                wall_seconds,
                tokens_per_second,
            ),
        }
    }

    /// The name of the dialog file with the number `num`.
    pub fn dialog_file_name(num: usize) -> (name: String)
        ensures
            name@ == dialog_file_name_text(num),
    {
        String::from_str("generated-dialog").concat(text_of_number(num as u128).as_str()).concat(
            ".txt",
        )
    }

    /// The name of the metadata file with the number `num`.
    pub fn metadata_file_name(num: usize) -> (name: String)
        ensures
            name@ == metadata_file_name_text(num),
    {
        String::from_str("output-metadata").concat(text_of_number(num as u128).as_str()).concat(
            ".txt",
        )
    }

    /// The text of the dialog file: the script of the transcript, without
    /// the white space at its end.
    pub fn dialog_content(dialog: &GeneratedDialog) -> (content: String)
        ensures
            content@ == trim_end(script_text(exchange_views(dialog.exchanges@))),
    {
        let script = dialog.script();
        string_of(&trimmed_end(&chars_of(script.as_str())))
    }

    /// The text of the metadata file. The three numbers that are no whole
    /// numbers come as text: the sampling temperature, the wall time in
    /// seconds, and the average rate in tokens per second.
    pub fn metadata_content(
        meta: &GenerationMetadata,
        temperature: &str,
        wall_seconds: &str,
        tokens_per_second: &str,
    ) -> (content: String)
        ensures
            content@ == metadata_text(*meta, temperature@, wall_seconds@, tokens_per_second@),
    {
        let total: u128 = meta.total_prompt_tokens as u128 + meta.total_completion_tokens as u128;
        String::from_str("Model: ").concat(meta.model.as_str()).concat("\nTurns: ").concat(
            text_of_number(meta.turns as u128).as_str(),
        ).concat("\nTemperature: ").concat(temperature).concat("\n\nPrompt tokens: ").concat(
            text_of_number(meta.total_prompt_tokens as u128).as_str(),
        ).concat("\nCompletion tokens: ").concat(
            text_of_number(meta.total_completion_tokens as u128).as_str(),
        ).concat("\nTotal tokens: ").concat(text_of_number(total).as_str()).concat(
            "\n\nWall time: ",
        ).concat(wall_seconds).concat("s\nTokens/second: ").concat(tokens_per_second).concat("\n")
    }
}

} // verus!
