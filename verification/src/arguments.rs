//! Reading the command line.
//!
//! Arguments are read from left to right. An option that takes a value takes
//! the argument that follows it, whatever that is. Where an option comes
//! more than once, its first value counts. A request for help ends the
//! reading at once, and so does an argument that is no option.

use vstd::prelude::*;
use vstd::string::*;
use crate::config::{ConfigError, ConfigErrorView, Configuration, ConfigurationView, Mode};
use crate::text::{same_text, split, split_on, texts};

verus! {

/// What the command line asks for.
#[derive(Debug, Clone, PartialEq, Eq)]
pub enum Invocation {
    /// Print how the tool is used.
    Help,
    /// Run with these settings.
    Run(Configuration),
}

/// What an `Invocation` holds, as text.
pub enum InvocationView {
    Help,
    Run(ConfigurationView),
}

impl View for Invocation {
    type V = InvocationView;

    open spec fn view(&self) -> InvocationView {
        match self {
            Invocation::Help => InvocationView::Help,
            Invocation::Run(config) => InvocationView::Run(config@),
        }
    }
}

/// The views of both sides of a parse result.
pub open spec fn outcome_view(r: Result<Invocation, ConfigError>) -> Result<
    InvocationView,
    ConfigErrorView,
> {
    match r {
        Ok(invocation) => Ok(invocation@),
        Err(e) => Err(e@),
    }
}

/// The character between the items of a list given on the command line.
pub const LIST_SEPARATOR: char = ',';

/// Whether `arg` asks for help.
pub open spec fn asks_for_help(arg: Seq<char>) -> bool {
    arg == "-h"@ || arg == "--help"@
}

/// Whether `arg` is an option that takes the next argument as its value.
pub open spec fn takes_value(arg: Seq<char>) -> bool {
    arg == "--dir"@ || arg == "--extensions"@ || arg == "--file_name"@ || arg == "--save"@
}

/// Whether `arg` is an option that stands alone.
pub open spec fn is_switch(arg: Seq<char>) -> bool {
    arg == "--preserve"@ || arg == "--preserve-structure"@ || arg == "--debug"@ || arg
        == "--copy"@ || arg == "--cut"@
}

/// `kept` if it holds a value, else `value`.
pub open spec fn first_of<T>(kept: Option<T>, value: T) -> Option<T> {
    if kept is Some {
        kept
    } else {
        Some(value)
    }
}

/// The settings gathered so far while the command line is read.
#[derive(Debug)]
pub struct Draft {
    pub source: Option<String>,
    pub destination: Option<String>,
    pub extensions: Option<Vec<String>>,
    pub file_names: Option<Vec<String>>,
    pub preserve_structure: bool,
    pub dry_run: bool,
    pub copy: bool,
    pub cut: bool,
}

/// What a `Draft` holds, as text.
pub struct DraftView {
    pub source: Option<Seq<char>>,
    pub destination: Option<Seq<char>>,
    pub extensions: Option<Seq<Seq<char>>>,
    pub file_names: Option<Seq<Seq<char>>>,
    pub preserve_structure: bool,
    pub dry_run: bool,
    pub copy: bool,
    pub cut: bool,
}

/// The text of an optional string.
pub open spec fn text_of(s: Option<String>) -> Option<Seq<char>> {
    match s {
        Some(s) => Some(s@),
        None => None,
    }
}

/// The texts of an optional list.
pub open spec fn texts_of(list: Option<Vec<String>>) -> Option<Seq<Seq<char>>> {
    match list {
        Some(list) => Some(texts(list@)),
        None => None,
    }
}

impl View for Draft {
    type V = DraftView;

    open spec fn view(&self) -> DraftView {
        DraftView {
            source: text_of(self.source),
            destination: text_of(self.destination),
            extensions: texts_of(self.extensions),
            file_names: texts_of(self.file_names),
            preserve_structure: self.preserve_structure,
            dry_run: self.dry_run,
            copy: self.copy,
            cut: self.cut,
        }
    }
}

impl DraftView {
    /// Nothing has been read.
    pub open spec fn empty() -> DraftView {
        DraftView {
            source: None,
            destination: None,
            extensions: None,
            file_names: None,
            preserve_structure: false,
            dry_run: false,
            copy: false,
            cut: false,
        }
    }

    /// The draft after `option` has been read with `value`.
    pub open spec fn with_value(self, option: Seq<char>, value: Seq<char>) -> DraftView {
        if option == "--dir"@ {
            DraftView { source: first_of(self.source, value), ..self }
        } else if option == "--extensions"@ {
            DraftView {
                extensions: first_of(self.extensions, split(value, LIST_SEPARATOR)),
                ..self
            }
        } else if option == "--file_name"@ {
            DraftView {
                file_names: first_of(self.file_names, split(value, LIST_SEPARATOR)),
                ..self
            }
        } else if option == "--save"@ {
            DraftView { destination: first_of(self.destination, value), ..self }
        } else {
            self
        }
    }

    /// The draft after `switch` has been read.
    pub open spec fn with_switch(self, switch: Seq<char>) -> DraftView {
        if switch == "--preserve"@ || switch == "--preserve-structure"@ {
            DraftView { preserve_structure: true, ..self }
        } else if switch == "--debug"@ {
            DraftView { dry_run: true, ..self }
        } else if switch == "--copy"@ {
            DraftView { copy: true, ..self }
        } else if switch == "--cut"@ {
            DraftView { cut: true, ..self }
        } else {
            self
        }
    }

    /// The settings that the draft amounts to once the command line has
    /// been read to its end.
    ///
    /// Exactly one of copying and moving must have been asked for. Both
    /// roots default to the current directory, `.`, and both lists to the
    /// empty list.
    pub open spec fn finish(self) -> Result<InvocationView, ConfigErrorView> {
        if !self.copy && !self.cut {
            Err(ConfigErrorView::MissingMode)
        } else if self.copy && self.cut {
            Err(ConfigErrorView::ConflictingModes)
        } else {
            Ok(
                InvocationView::Run(
                    ConfigurationView {
                        source: if self.source is Some {
                            self.source->0
                        } else {
                            "."@
                        },
                        destination: if self.destination is Some {
                            self.destination->0
                        } else {
                            "."@
                        },
                        extensions: if self.extensions is Some {
                            self.extensions->0
                        } else {
                            Seq::empty()
                        },
                        file_names: if self.file_names is Some {
                            self.file_names->0
                        } else {
                            Seq::empty()
                        },
                        preserve_structure: self.preserve_structure,
                        mode: if self.copy {
                            Mode::Copy
                        } else {
                            Mode::Move
                        },
                        dry_run: self.dry_run,
                    },
                ),
            )
        }
    }
}

/// What the arguments from position `at` on amount to, given what was
/// gathered before.
pub open spec fn parsed_from(args: Seq<Seq<char>>, at: int, draft: DraftView) -> Result<
    InvocationView,
    ConfigErrorView,
>
    decreases args.len() - at,
{
    if at < 0 || at >= args.len() {
        draft.finish()
    } else if asks_for_help(args[at]) {
        Ok(InvocationView::Help)
    } else if takes_value(args[at]) {
        if at + 1 >= args.len() {
            Err(ConfigErrorView::MissingValue(args[at]))
        } else {
            parsed_from(args, at + 2, draft.with_value(args[at], args[at + 1]))
        }
    } else if is_switch(args[at]) {
        parsed_from(args, at + 1, draft.with_switch(args[at]))
    } else {
        Err(ConfigErrorView::UnknownArgument(args[at]))
    }
}

/// What a command line amounts to. `args` are the arguments after the
/// program's name.
pub open spec fn parsed(args: Seq<Seq<char>>) -> Result<InvocationView, ConfigErrorView> {
    parsed_from(args, 0, DraftView::empty())
}

impl Draft {
    /// A draft with nothing read.
    pub fn new() -> (draft: Draft)
        ensures
            draft@ == DraftView::empty(),
    {
        Draft {
            source: None,
            destination: None,
            extensions: None,
            file_names: None,
            preserve_structure: false,
            dry_run: false,
            copy: false,
            cut: false,
        }
    }

    /// Takes in `option` with its `value`.
    pub fn set_value(&mut self, option: &str, value: &str)
        ensures
            final(self)@ == old(self)@.with_value(option@, value@),
    {
        if same_text(option, "--dir") {
            if self.source.is_none() {
                self.source = Some(String::from_str(value));
            }
        } else if same_text(option, "--extensions") {
            if self.extensions.is_none() {
                self.extensions = Some(split_on(value, LIST_SEPARATOR));
            }
        } else if same_text(option, "--file_name") {
            if self.file_names.is_none() {
                self.file_names = Some(split_on(value, LIST_SEPARATOR));
            }
        } else if same_text(option, "--save") {
            if self.destination.is_none() {
                self.destination = Some(String::from_str(value));
            }
        }
    }

    /// Takes in `switch`.
    pub fn set_switch(&mut self, switch: &str)
        ensures
            final(self)@ == old(self)@.with_switch(switch@),
    {
        if same_text(switch, "--preserve") || same_text(switch, "--preserve-structure") {
            self.preserve_structure = true;
        } else if same_text(switch, "--debug") {
            self.dry_run = true;
        } else if same_text(switch, "--copy") {
            self.copy = true;
        } else if same_text(switch, "--cut") {
            self.cut = true;
        }
    }

    /// Turns the draft into settings, or says what is wrong with it.
    pub fn finish(self) -> (r: Result<Invocation, ConfigError>)
        ensures
            outcome_view(r) == self@.finish(),
    {
        if !self.copy && !self.cut {
            return Err(ConfigError::MissingMode);
        }
        if self.copy && self.cut {
            return Err(ConfigError::ConflictingModes);
        }
        let source = match self.source {
            Some(s) => s,
            None => String::from_str("."),
        };
        let destination = match self.destination {
            Some(s) => s,
            None => String::from_str("."),
        };
        let extensions = match self.extensions {
            Some(list) => list,
            None => Vec::new(),
        };
        let file_names = match self.file_names {
            Some(list) => list,
            None => Vec::new(),
        };
        let mode = if self.copy {
            Mode::Copy
        } else {
            Mode::Move
        };
        let config = Configuration {
            source,
            destination,
            extensions,
            file_names,
            preserve_structure: self.preserve_structure,
            mode,
            dry_run: self.dry_run,
        };
        proof {
            assert(config@.extensions =~= self@.finish()->Ok_0->Run_0.extensions);
            assert(config@.file_names =~= self@.finish()->Ok_0->Run_0.file_names);
        }
        Ok(Invocation::Run(config))
    }
}

/// Whether `arg` is one of the options that take a value.
pub fn is_value_option(arg: &str) -> (r: bool)
    ensures
        r == takes_value(arg@),
{
    same_text(arg, "--dir") || same_text(arg, "--extensions") || same_text(arg, "--file_name")
        || same_text(arg, "--save")
}

/// Whether `arg` is one of the options that stand alone.
pub fn is_switch_option(arg: &str) -> (r: bool)
    ensures
        r == is_switch(arg@),
{
    same_text(arg, "--preserve") || same_text(arg, "--preserve-structure") || same_text(
        arg,
        "--debug",
    ) || same_text(arg, "--copy") || same_text(arg, "--cut")
}

/// Reads the command line. `args` are the arguments after the program's name.
pub fn parse_args(args: &Vec<String>) -> (r: Result<Invocation, ConfigError>)
    ensures
        outcome_view(r) == parsed(texts(args@)),
{
    let mut draft = Draft::new();
    let mut i: usize = 0;
    while i < args.len()
        invariant
            i <= args.len(),
            parsed_from(texts(args@), i as int, draft@) == parsed(texts(args@)),
        decreases args.len() - i,
    {
        let arg = args[i].as_str();
        assert(texts(args@)[i as int] == arg@);
        if same_text(arg, "-h") || same_text(arg, "--help") {
            return Ok(Invocation::Help);
        } else if is_value_option(arg) {
            if i + 1 >= args.len() {
                return Err(ConfigError::MissingValue(String::from_str(arg)));
            }
            assert(texts(args@)[i + 1] == args[i + 1]@);
            draft.set_value(arg, args[i + 1].as_str());
            i = i + 2;
        } else if is_switch_option(arg) {
            draft.set_switch(arg);
            i = i + 1;
        } else {
            return Err(ConfigError::UnknownArgument(String::from_str(arg)));
        }
    }
    draft.finish()
}

/// The code with which the process ends: 0 where all was in order, 1 where
/// the run could not start.
pub open spec fn exit_code_of<T, E>(outcome: Result<T, E>) -> int {
    if outcome is Ok {
        0
    } else {
        1
    }
}

/// Computes the code with which the process ends.
pub fn exit_code<T>(outcome: &Result<T, ConfigError>) -> (code: i32)
    ensures
        code == exit_code_of(*outcome),
{
    match outcome {
        Ok(_) => 0,
        Err(_) => 1,
    }
}

/// Whether any argument from position `at` on asks for help.
pub open spec fn help_asked_from(args: Seq<Seq<char>>, at: int) -> bool {
    exists|j: int| at <= j < args.len() && asks_for_help(#[trigger] args[j])
}

/// Without `--copy` and `--cut` from position `at` on, and with neither
/// read before, the rest of the command line leads to no run.
pub proof fn lemma_no_mode_no_run_from(args: Seq<Seq<char>>, at: int, draft: DraftView)
    requires
        0 <= at,
        !draft.copy,
        !draft.cut,
        forall|j: int| at <= j < args.len() ==> args[j] != "--copy"@ && args[j] != "--cut"@,
    ensures
        !(parsed_from(args, at, draft) matches Ok(InvocationView::Run(_))),
        !help_asked_from(args, at) ==> parsed_from(args, at, draft) is Err,
    decreases args.len() - at,
{
    if at < args.len() && !asks_for_help(args[at]) {
        if takes_value(args[at]) {
            if at + 1 < args.len() {
                let next = draft.with_value(args[at], args[at + 1]);
                lemma_no_mode_no_run_from(args, at + 2, next);
                if help_asked_from(args, at + 2) {
                    let j = choose|j: int| at + 2 <= j < args.len() && asks_for_help(args[j]);
                    assert(asks_for_help(args[j]));
                }
            }
        } else if is_switch(args[at]) {
            let next = draft.with_switch(args[at]);
            lemma_no_mode_no_run_from(args, at + 1, next);
            if help_asked_from(args, at + 1) {
                let j = choose|j: int| at + 1 <= j < args.len() && asks_for_help(args[j]);
                assert(asks_for_help(args[j]));
            }
        }
    }
}

/// A command line that holds neither `--copy` nor `--cut` leads to no run,
/// so nothing is planned and nothing is transferred. Unless it asks for
/// help, it is an error, and the process ends with a code other than 0.
pub proof fn lemma_no_mode_no_run(args: Seq<Seq<char>>)
    requires
        !args.contains("--copy"@),
        !args.contains("--cut"@),
    ensures
        !(parsed(args) matches Ok(InvocationView::Run(_))),
        !help_asked_from(args, 0) ==> parsed(args) is Err && exit_code_of(parsed(args)) != 0,
{
    lemma_no_mode_no_run_from(args, 0, DraftView::empty());
}

} // verus!
