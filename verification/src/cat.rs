//! The options of `cat`, their builder, the option parser and the line
//! transformer.
//!
//! A `Cat` is a set of switches and two counters. Its mathematical model is
//! `State`; what one line does to it and what is written for the line is
//! `State::step`, and a whole stream is `State::stream`.

use crate::cliopt::{is_option, is_singlechar_option, option_like, same_text, singlechar_like};
use crate::line::{
    escape_nonprinting, escape_tabs, number_field, number_field_text, show_end, show_nonprinting,
    show_tabs, strip_newline, without_newline, END_MARK, NEWLINE,
};
use vstd::prelude::*;
use vstd::slice::{slice_subrange, slice_to_vec};
use vstd::string::*;
use vstd::utf8::encode_utf8;

verus! {

/// The switches that a run is made with.
#[derive(Clone, Copy, Debug, PartialEq, Eq, Structural)]
pub struct CmdOption {
    /// Number the lines that are not empty; silences `number`.
    pub number_noblank: bool,
    /// Mark the end of each line.
    pub show_ends: bool,
    /// Number all lines.
    pub number: bool,
    /// Write one empty line for a run of them.
    pub squeeze_blank: bool,
    /// Write tabs as `^I`.
    pub show_tabs: bool,
    /// Write control characters and bytes above 127 in caret notation.
    pub show_nonprinting: bool,
    /// Show the help text and end the run.
    pub display_help: bool,
    /// Show the version and end the run.
    pub display_version: bool,
}

impl CmdOption {
    /// No switch set.
    pub open spec fn none() -> CmdOption {
        CmdOption {
            number_noblank: false,
            show_ends: false,
            number: false,
            squeeze_blank: false,
            show_tabs: false,
            show_nonprinting: false,
            display_help: false,
            display_version: false,
        }
    }

    /// Help and version are never both asked for.
    pub open spec fn exclusive(self) -> bool {
        !(self.display_help && self.display_version)
    }

    /// `-A`: non-printing bytes, ends and tabs are shown.
    pub open spec fn with_show_all(self) -> CmdOption {
        CmdOption { show_nonprinting: true, show_ends: true, show_tabs: true, ..self }
    }

    /// `-b`: the lines that are not empty are numbered.
    pub open spec fn with_number_nonblank(self) -> CmdOption {
        CmdOption { number_noblank: true, ..self }
    }

    /// `-e`: non-printing bytes and ends are shown.
    pub open spec fn with_e(self) -> CmdOption {
        CmdOption { show_nonprinting: true, show_ends: true, ..self }
    }

    /// `-E`: ends are shown.
    pub open spec fn with_show_ends(self) -> CmdOption {
        CmdOption { show_ends: true, ..self }
    }

    /// `-n`: all lines are numbered.
    pub open spec fn with_number(self) -> CmdOption {
        CmdOption { number: true, ..self }
    }

    /// `-s`: empty lines in a row are squeezed.
    pub open spec fn with_squeeze_blank(self) -> CmdOption {
        CmdOption { squeeze_blank: true, ..self }
    }

    /// `-t`: non-printing bytes and tabs are shown.
    pub open spec fn with_t(self) -> CmdOption {
        CmdOption { show_nonprinting: true, show_tabs: true, ..self }
    }

    /// `-T`: tabs are shown.
    pub open spec fn with_show_tabs(self) -> CmdOption {
        CmdOption { show_tabs: true, ..self }
    }

    /// `-v`: non-printing bytes are shown.
    pub open spec fn with_show_nonprinting(self) -> CmdOption {
        CmdOption { show_nonprinting: true, ..self }
    }

    /// Help is asked for, unless the version was asked for before.
    pub open spec fn with_display_help(self) -> CmdOption {
        if self.display_version {
            self
        } else {
            CmdOption { display_help: true, ..self }
        }
    }

    /// The version is asked for, unless help was asked for before.
    pub open spec fn with_display_version(self) -> CmdOption {
        if self.display_help {
            self
        } else {
            CmdOption { display_version: true, ..self }
        }
    }

    /// What the options become by one flag; `None` for a token that is no flag.
    pub open spec fn with_flag(self, token: Seq<char>) -> Option<CmdOption> {
        if token == "-A"@ || token == "--show-all"@ {
            Some(self.with_show_all())
        } else if token == "-b"@ || token == "--number-nonblank"@ {
            Some(self.with_number_nonblank())
        } else if token == "-e"@ {
            Some(self.with_e())
        } else if token == "-E"@ || token == "--show-ends"@ {
            Some(self.with_show_ends())
        } else if token == "-n"@ || token == "--number"@ {
            Some(self.with_number())
        } else if token == "-s"@ || token == "--squeeze-blank"@ {
            Some(self.with_squeeze_blank())
        } else if token == "-t"@ {
            Some(self.with_t())
        } else if token == "-T"@ || token == "--show-tabs"@ {
            Some(self.with_show_tabs())
        } else if token == "-u"@ {
            Some(self)
        } else if token == "-v"@ || token == "--show-nonprinting"@ {
            Some(self.with_show_nonprinting())
        } else if token == "--help"@ {
            Some(self.with_display_help())
        } else if token == "--version"@ {
            Some(self.with_display_version())
        } else {
            None
        }
    }

    /// What the options become by the flags among `tokens`, in their order.
    /// Operands and tokens that are no flag change nothing.
    pub open spec fn with_flags(self, tokens: Seq<Seq<char>>) -> CmdOption
        decreases tokens.len(),
    {
        if tokens.len() == 0 {
            self
        } else {
            let before = self.with_flags(tokens.drop_last());
            match before.with_flag(tokens.last()) {
                Some(after) if option_like(tokens.last()) => after,
                _ => before,
            }
        }
    }
}

impl Default for CmdOption {
    fn default() -> (option: CmdOption)
        ensures
            option == CmdOption::none(),
    {
        CmdOption {
            number_noblank: false,
            show_ends: false,
            number: false,
            squeeze_blank: false,
            show_tabs: false,
            show_nonprinting: false,
            display_help: false,
            display_version: false,
        }
    }
}

/// An option-like token that is no flag.
pub open spec fn rejected(token: Seq<char>) -> bool {
    option_like(token) && CmdOption::none().with_flag(token) is None
}

/// The place of the first rejected token; the number of tokens if none is.
pub open spec fn first_rejected(tokens: Seq<Seq<char>>) -> nat
    decreases tokens.len(),
{
    if tokens.len() == 0 || rejected(tokens[0]) {
        0
    } else {
        1 + first_rejected(tokens.skip(1))
    }
}

/// The tokens that are not option-like, in their order.
pub open spec fn operands(tokens: Seq<Seq<char>>) -> Seq<Seq<char>> {
    tokens.filter(|token: Seq<char>| !option_like(token))
}

/// The complaint about a rejected token of the form `-x`: it quotes what
/// follows the dash.
pub open spec fn invalid_option_message(token: Seq<char>) -> Seq<char> {
    "cat: invalid option -- '"@ + token.skip(1)
        + "'\nTry 'cat --help' for more information."@
}

/// The complaint about any other rejected token: it quotes the token.
pub open spec fn unrecognized_option_message(token: Seq<char>) -> Seq<char> {
    "cat: unrecognized option '"@ + token + "'\nTry 'cat --help' for more information."@
}

/// The complaint about a token that is no flag.
pub open spec fn usage_message(token: Seq<char>) -> Seq<char> {
    if singlechar_like(token) {
        invalid_option_message(token)
    } else {
        unrecognized_option_message(token)
    }
}

/// The text that `--help` asks for.
pub open spec fn help_text() -> Seq<char> {
    "help contents is here."@
}

/// The text that `--version` asks for.
pub open spec fn version_text() -> Seq<char> {
    "rust cat version 0.1.0"@
}

/// What is written for a line: the text and its terminator, or nothing for a
/// line that is left out.
pub open spec fn written(text: Option<Seq<u8>>) -> Seq<u8> {
    match text {
        Some(text) => text.push(NEWLINE),
        None => Seq::empty(),
    }
}

/// The number of bytes before the first terminator; all of them if there is none.
pub open spec fn line_len(input: Seq<u8>) -> nat
    decreases input.len(),
{
    if input.len() == 0 || input[0] == NEWLINE {
        0
    } else {
        1 + line_len(input.skip(1))
    }
}

/// What follows the first line and its terminator.
pub open spec fn after_line(input: Seq<u8>) -> Seq<u8> {
    if line_len(input) < input.len() {
        input.skip(line_len(input) as int + 1)
    } else {
        Seq::empty()
    }
}

/// The lines of a stream, without their terminators: the stream is cut
/// behind each terminator, and bytes behind the last one are a line too.
pub open spec fn lines_of(input: Seq<u8>) -> Seq<Seq<u8>>
    decreases input.len(),
{
    if input.len() == 0 {
        Seq::empty()
    } else {
        seq![input.take(line_len(input) as int)] + lines_of(after_line(input))
    }
}

/// How many of the lines are not empty.
pub open spec fn nonempty(lines: Seq<Seq<u8>>) -> nat
    decreases lines.len(),
{
    if lines.len() == 0 {
        0
    } else if lines.last().len() > 0 {
        nonempty(lines.drop_last()) + 1
    } else {
        nonempty(lines.drop_last())
    }
}

/// The lines as they are written when the lines that are not empty are
/// numbered from `first` and nothing else is asked for: a line that is not
/// empty stands behind the number `first` and the count of such lines
/// before it, an empty line is written empty, and each gets its terminator.
pub open spec fn nonblank_numbered(first: nat, lines: Seq<Seq<u8>>) -> Seq<u8>
    decreases lines.len(),
{
    if lines.len() == 0 {
        Seq::empty()
    } else {
        let before = lines.drop_last();
        let line = lines.last();
        let text = if line.len() > 0 {
            number_field(first + nonempty(before)) + line
        } else {
            line
        };
        nonblank_numbered(first, before) + text.push(NEWLINE)
    }
}

/// What a transformer holds.
pub struct State {
    /// The switches; no line changes them.
    pub option: CmdOption,
    /// The number that the next numbered line gets.
    pub line_number: nat,
    /// How many empty lines were seen in a row, while they are squeezed.
    pub blank_count: nat,
}

impl State {
    /// The state that a run starts in.
    pub open spec fn initial(option: CmdOption) -> State {
        State { option, line_number: 1, blank_count: 0 }
    }

    /// What holds of every transformer: help and version are not both asked
    /// for, and lines are numbered from one.
    pub open spec fn valid(self) -> bool {
        self.option.exclusive() && self.line_number >= 1
    }

    /// Both counters are numbers that a transformer can hold.
    pub open spec fn fits(self) -> bool {
        self.line_number <= u64::MAX && self.blank_count <= u64::MAX
    }

    /// Both counters can take `lines` more lines, whatever the lines are.
    pub open spec fn has_room(self, lines: nat) -> bool {
        self.line_number + lines <= u64::MAX && self.blank_count + lines <= u64::MAX
    }

    /// The static text that ends the run before any line is read, if one was
    /// asked for.
    pub open spec fn notice(self) -> Option<Seq<char>> {
        if self.option.display_version {
            Some(version_text())
        } else if self.option.display_help {
            Some(help_text())
        } else {
            None
        }
    }

    /// The count of empty lines in a row after `line`.
    pub open spec fn blank_count_after(self, line: Seq<u8>) -> nat {
        if !self.option.squeeze_blank {
            self.blank_count
        } else if line.len() == 0 {
            self.blank_count + 1
        } else {
            0
        }
    }

    /// The line is left out: empty lines are squeezed, and this one follows
    /// an empty line.
    pub open spec fn squeezes(self, line: Seq<u8>) -> bool {
        self.option.squeeze_blank && line.len() == 0 && self.blank_count >= 1
    }

    /// The line with non-printing bytes and tabs shown, as far as the
    /// switches ask for it; non-printing bytes first.
    pub open spec fn escaped(self, line: Seq<u8>) -> Seq<u8> {
        let shown = if self.option.show_nonprinting {
            show_nonprinting(line)
        } else {
            line
        };
        if self.option.show_tabs {
            show_tabs(shown)
        } else {
            shown
        }
    }

    /// The line gets a number: with `number_noblank` the lines that are not
    /// empty, else every line if `number` is set.
    pub open spec fn numbers(self, line: Seq<u8>) -> bool {
        if self.option.number_noblank {
            self.escaped(line).len() > 0
        } else {
            self.option.number
        }
    }

    /// What is written for a line that is not left out, without its
    /// terminator.
    pub open spec fn formatted(self, line: Seq<u8>) -> Seq<u8> {
        let numbered = if self.numbers(line) {
            number_field(self.line_number) + self.escaped(line)
        } else {
            self.escaped(line)
        };
        if self.option.show_ends {
            show_end(numbered)
        } else {
            numbered
        }
    }

    /// One line: the state after it, and what is written for it. The line's
    /// own terminator, if it still has one, does not count.
    pub open spec fn step(self, raw: Seq<u8>) -> (State, Option<Seq<u8>>) {
        let line = strip_newline(raw);
        let counted = State { blank_count: self.blank_count_after(line), ..self };
        if self.squeezes(line) {
            (counted, None)
        } else if self.numbers(line) {
            (State { line_number: self.line_number + 1, ..counted }, Some(self.formatted(line)))
        } else {
            (counted, Some(self.formatted(line)))
        }
    }

    /// A whole stream: the state after it, and what is written for it. The
    /// stream is cut behind each terminator; bytes behind the last one are a
    /// line too.
    pub open spec fn stream(self, input: Seq<u8>) -> (State, Seq<u8>)
        decreases input.len(),
    {
        if input.len() == 0 {
            (self, Seq::empty())
        } else {
            let (next, text) = self.step(input.take(line_len(input) as int));
            let (last, more) = next.stream(after_line(input));
            (last, written(text) + more)
        }
    }

    /// A run on one stream. Where help or the version was asked for, that
    /// text is written, with a terminator behind it as behind a line, and
    /// neither the stream nor the state is touched; else the stream is taken.
    pub open spec fn run(self, input: Seq<u8>) -> (State, Seq<u8>) {
        match self.notice() {
            Some(text) => (self, written(Some(encode_utf8(text)))),
            None => self.stream(input),
        }
    }

    /// The state after each line of the stream fits.
    pub open spec fn stream_fits(self, input: Seq<u8>) -> bool
        decreases input.len(),
    {
        input.len() == 0 || {
            let next = self.step(input.take(line_len(input) as int)).0;
            next.fits() && next.stream_fits(after_line(input))
        }
    }
}

/// Collects the switches for a `Cat`.
pub struct CatBuilder {
    option: CmdOption,
}

impl View for CatBuilder {
    type V = CmdOption;

    closed spec fn view(&self) -> CmdOption {
        self.option
    }
}

impl CatBuilder {
    #[verifier::type_invariant]
    spec fn inv(self) -> bool {
        self.option.exclusive()
    }

    /// A builder with no switch set.
    pub fn new() -> (builder: CatBuilder)
        ensures
            builder@ == CmdOption::none(),
    {
        CatBuilder { option: CmdOption::default() }
    }

    /// Asks for non-printing bytes, ends and tabs to be shown, as `-A` does.
    pub fn with_show_all(&mut self) -> (this: &mut Self)
        ensures
            this@ == old(self)@.with_show_all(),
            *final(self) == *final(this),
    {
        proof {
            use_type_invariant(&*self);
        }
        self.option.show_nonprinting = true;
        self.option.show_ends = true;
        self.option.show_tabs = true;
        self
    }

    /// Asks for the lines that are not empty to be numbered, as `-b` does.
    pub fn with_number_nonblank(&mut self) -> (this: &mut Self)
        ensures
            this@ == old(self)@.with_number_nonblank(),
            *final(self) == *final(this),
    {
        proof {
            use_type_invariant(&*self);
        }
        self.option.number_noblank = true;
        self
    }

    /// Asks for non-printing bytes and ends to be shown, as `-e` does.
    pub fn with_e(&mut self) -> (this: &mut Self)
        ensures
            this@ == old(self)@.with_e(),
            *final(self) == *final(this),
    {
        proof {
            use_type_invariant(&*self);
        }
        self.option.show_nonprinting = true;
        self.option.show_ends = true;
        self
    }

    /// Asks for ends to be shown, as `-E` does.
    pub fn with_show_ends(&mut self) -> (this: &mut Self)
        ensures
            this@ == old(self)@.with_show_ends(),
            *final(self) == *final(this),
    {
        proof {
            use_type_invariant(&*self);
        }
        self.option.show_ends = true;
        self
    }

    /// Asks for all lines to be numbered, as `-n` does.
    pub fn with_number(&mut self) -> (this: &mut Self)
        ensures
            this@ == old(self)@.with_number(),
            *final(self) == *final(this),
    {
        proof {
            use_type_invariant(&*self);
        }
        self.option.number = true;
        self
    }

    /// Asks for empty lines in a row to be squeezed, as `-s` does.
    pub fn with_squeeze_blank(&mut self) -> (this: &mut Self)
        ensures
            this@ == old(self)@.with_squeeze_blank(),
            *final(self) == *final(this),
    {
        proof {
            use_type_invariant(&*self);
        }
        self.option.squeeze_blank = true;
        self
    }

    /// Asks for non-printing bytes and tabs to be shown, as `-t` does.
    pub fn with_t(&mut self) -> (this: &mut Self)
        ensures
            this@ == old(self)@.with_t(),
            *final(self) == *final(this),
    {
        proof {
            use_type_invariant(&*self);
        }
        self.option.show_nonprinting = true;
        self.option.show_tabs = true;
        self
    }

    /// Asks for tabs to be shown, as `-T` does.
    pub fn with_show_tabs(&mut self) -> (this: &mut Self)
        ensures
            this@ == old(self)@.with_show_tabs(),
            *final(self) == *final(this),
    {
        proof {
            use_type_invariant(&*self);
        }
        self.option.show_tabs = true;
        self
    }

    /// Asks for non-printing bytes to be shown, as `-v` does.
    pub fn with_show_nonprinting(&mut self) -> (this: &mut Self)
        ensures
            this@ == old(self)@.with_show_nonprinting(),
            *final(self) == *final(this),
    {
        proof {
            use_type_invariant(&*self);
        }
        self.option.show_nonprinting = true;
        self
    }

    /// Asks for help, unless the version was asked for before.
    pub fn with_display_help(&mut self) -> (this: &mut Self)
        ensures
            this@ == old(self)@.with_display_help(),
            *final(self) == *final(this),
    {
        proof {
            use_type_invariant(&*self);
        }
        if !self.option.display_version {
            self.option.display_help = true;
        }
        self
    }

    /// Asks for the version, unless help was asked for before.
    pub fn with_display_version(&mut self) -> (this: &mut Self)
        ensures
            this@ == old(self)@.with_display_version(),
            *final(self) == *final(this),
    {
        proof {
            use_type_invariant(&*self);
        }
        if !self.option.display_help {
            self.option.display_version = true;
        }
        self
    }

    /// A transformer with the switches collected so far, at the start of a run.
    pub fn build(&self) -> (cat: Cat)
        ensures
            cat@ == State::initial(self@),
            cat@.valid(),
    {
        proof {
            use_type_invariant(self);
        }
        Cat { option: self.option, number_count: 1, blank_count: 0 }
    }
}

/// The line transformer: the switches, the number of the next numbered line,
/// and the count of empty lines in a row. The counters run on from one
/// stream to the next.
pub struct Cat {
    option: CmdOption,
    number_count: u64,
    blank_count: u64,
}

impl View for Cat {
    type V = State;

    closed spec fn view(&self) -> State {
        State {
            option: self.option,
            line_number: self.number_count as nat,
            blank_count: self.blank_count as nat,
        }
    }
}

/// The complaint about a token that is no flag.
fn usage_error(opt: &str) -> (message: String)
    ensures
        message@ == usage_message(opt@),
{
    if is_singlechar_option(opt) {
        let name = opt.substring_char(1, opt.unicode_len());
        let mut message = String::from_str("cat: invalid option -- '");
        message.append(name);
        message.append("'\nTry 'cat --help' for more information.");
        message
    } else {
        let mut message = String::from_str("cat: unrecognized option '");
        message.append(opt);
        message.append("'\nTry 'cat --help' for more information.");
        message
    }
}

impl Cat {
    #[verifier::type_invariant]
    spec fn inv(self) -> bool {
        self.option.exclusive() && self.number_count >= 1
    }

    /// The switches.
    pub fn option(&self) -> (option: CmdOption)
        ensures
            option == self@.option,
            option.exclusive(),
    {
        proof {
            use_type_invariant(self);
        }
        self.option
    }

    /// The number that the next numbered line gets.
    pub fn line_number(&self) -> (n: u64)
        ensures
            n == self@.line_number,
            n >= 1,
    {
        proof {
            use_type_invariant(self);
        }
        self.number_count
    }

    /// How many empty lines were seen in a row, while they are squeezed.
    pub fn blank_count(&self) -> (n: u64)
        ensures
            n == self@.blank_count,
    {
        self.blank_count
    }

    /// Whether both counters can take `lines` more lines.
    pub fn has_room(&self, lines: usize) -> (room: bool)
        ensures
            room == self@.has_room(lines as nat),
    {
        let lines = lines as u64;
        lines <= u64::MAX - self.number_count && lines <= u64::MAX - self.blank_count
    }

    /// Takes one flag. A token that is no flag changes nothing and gives the
    /// complaint about it.
    pub fn parse_option(&mut self, opt: &str) -> (res: Result<(), String>)
        ensures
            final(self)@.line_number == old(self)@.line_number,
            final(self)@.blank_count == old(self)@.blank_count,
            match old(self)@.option.with_flag(opt@) {
                Some(option) => res is Ok && final(self)@.option == option,
                None => res matches Err(message) && message@ == usage_message(opt@)
                    && final(self)@.option == old(self)@.option,
            },
    {
        proof {
            use_type_invariant(&*self);
        }
        if same_text(opt, "-A") || same_text(opt, "--show-all") {
            self.option.show_nonprinting = true;
            self.option.show_ends = true;
            self.option.show_tabs = true;
        } else if same_text(opt, "-b") || same_text(opt, "--number-nonblank") {
            self.option.number_noblank = true;
        } else if same_text(opt, "-e") {
            self.option.show_nonprinting = true;
            self.option.show_ends = true;
        } else if same_text(opt, "-E") || same_text(opt, "--show-ends") {
            self.option.show_ends = true;
        } else if same_text(opt, "-n") || same_text(opt, "--number") {
            self.option.number = true;
        } else if same_text(opt, "-s") || same_text(opt, "--squeeze-blank") {
            self.option.squeeze_blank = true;
        } else if same_text(opt, "-t") {
            self.option.show_nonprinting = true;
            self.option.show_tabs = true;
        } else if same_text(opt, "-T") || same_text(opt, "--show-tabs") {
            self.option.show_tabs = true;
        } else if same_text(opt, "-u") {
        } else if same_text(opt, "-v") || same_text(opt, "--show-nonprinting") {
            self.option.show_nonprinting = true;
        } else if same_text(opt, "--help") {
            if !self.option.display_version {
                self.option.display_help = true;
            }
        } else if same_text(opt, "--version") {
            if !self.option.display_help {
                self.option.display_version = true;
            }
        } else {
            return Err(usage_error(opt));
        }
        Ok(())
    }

    /// Takes the flags among `args` in their order and gives back the
    /// operands. It stops at the first option-like token that is no flag,
    /// with the complaint about it; the flags before that token are taken.
    pub fn parse(&mut self, args: &[String]) -> (res: Result<Vec<String>, String>)
        ensures
            final(self)@.line_number == old(self)@.line_number,
            final(self)@.blank_count == old(self)@.blank_count,
            final(self)@.option == old(self)@.option.with_flags(
                args.deep_view().take(first_rejected(args.deep_view()) as int),
            ),
            match res {
                Ok(files) => first_rejected(args.deep_view()) == args.len()
                    && files.deep_view() == operands(args.deep_view()),
                Err(message) => first_rejected(args.deep_view()) < args.len()
                    && message@ == usage_message(
                    args.deep_view()[first_rejected(args.deep_view()) as int],
                ),
            },
    {
        let ghost tokens = args.deep_view();
        let mut files: Vec<String> = Vec::new();
        let mut i: usize = 0;
        proof {
            assert(tokens.skip(0) == tokens);
            assert(tokens.take(0) == Seq::<Seq<char>>::empty());
            reveal(Seq::filter);
            assert(files.deep_view() == operands(tokens.take(0)));
        }
        while i < args.len()
            invariant
                i <= args.len(),
                tokens == args.deep_view(),
                first_rejected(tokens) == i + first_rejected(tokens.skip(i as int)),
                self@.line_number == old(self)@.line_number,
                self@.blank_count == old(self)@.blank_count,
                self@.option == old(self)@.option.with_flags(tokens.take(i as int)),
                files.deep_view() == operands(tokens.take(i as int)),
            decreases args.len() - i,
        {
            let arg = &args[i];
            proof {
                assert(tokens[i as int] == arg@);
                assert(tokens.skip(i as int)[0] == arg@);
                assert(tokens.skip(i as int).skip(1) == tokens.skip(i + 1));
                assert(tokens.take(i + 1).drop_last() == tokens.take(i as int));
                assert(tokens.take(i + 1).last() == arg@);
                reveal(Seq::filter);
                lemma_with_flag_known(self@.option, arg@);
            }
            if is_option(arg) {
                match self.parse_option(arg) {
                    Ok(()) => {},
                    Err(message) => {
                        return Err(message);
                    },
                }
            } else {
                let ghost before = files.deep_view();
                files.push(arg.clone());
                proof {
                    assert(files.deep_view() == before.push(arg@));
                }
            }
            i += 1;
        }
        proof {
            assert(tokens.take(i as int) == tokens);
        }
        Ok(files)
    }

    /// The text that `--help` asks for.
    pub fn help(&self) -> (text: String)
        ensures
            text@ == help_text(),
    {
        String::from_str("help contents is here.")
    }

    /// The text that `--version` asks for.
    pub fn version(&self) -> (text: String)
        ensures
            text@ == version_text(),
    {
        String::from_str("rust cat version 0.1.0")
    }

    /// Takes one line, without its terminator or with it, and gives what is
    /// written for it, without a terminator: nothing for a line that is left
    /// out. The counters must not run over; `has_room(1)` is enough for that.
    pub fn apply(&mut self, raw: &[u8]) -> (out: Option<Vec<u8>>)
        requires
            old(self)@.step(raw@).0.fits(),
        ensures
            final(self)@ == old(self)@.step(raw@).0,
            match out {
                Some(text) => old(self)@.step(raw@).1 == Some(text@),
                None => old(self)@.step(raw@).1 is None,
            },
    {
        proof {
            use_type_invariant(&*self);
        }
        let line = without_newline(raw);
        if self.option.squeeze_blank {
            if line.len() == 0 {
                self.blank_count += 1;
                if self.blank_count > 1 {
                    return None;
                }
            } else {
                self.blank_count = 0;
            }
        }
        let shown = if self.option.show_nonprinting {
            escape_nonprinting(line)
        } else {
            slice_to_vec(line)
        };
        let mut escaped = if self.option.show_tabs {
            escape_tabs(shown.as_slice())
        } else {
            shown
        };
        let numbers = if self.option.number_noblank {
            escaped.len() > 0
        } else {
            self.option.number
        };
        let mut out = if numbers {
            let mut field = number_field_text(self.number_count);
            field.append(&mut escaped);
            self.number_count += 1;
            field
        } else {
            escaped
        };
        if self.option.show_ends {
            out.push(END_MARK);
        }
        Some(out)
    }

    /// Takes a whole stream and gives all that is written for it: each line
    /// that is not left out, with a terminator behind it, also behind the
    /// last line if the stream ends without one. The counters must not run
    /// over on the way; `has_room(input.len())` is enough for that.
    pub fn cat(&mut self, input: &[u8]) -> (out: Vec<u8>)
        requires
            old(self)@.stream_fits(input@),
        ensures
            final(self)@ == old(self)@.stream(input@).0,
            out@ == old(self)@.stream(input@).1,
    {
        let mut out: Vec<u8> = Vec::new();
        let mut pos: usize = 0;
        proof {
            assert(input@.skip(0) == input@);
        }
        while pos < input.len()
            invariant
                pos <= input.len(),
                self@.stream_fits(input@.skip(pos as int)),
                old(self)@.stream(input@).0 == self@.stream(input@.skip(pos as int)).0,
                old(self)@.stream(input@).1 == out@ + self@.stream(input@.skip(pos as int)).1,
            decreases input.len() - pos,
        {
            let ghost rest = input@.skip(pos as int);
            let mut end: usize = pos;
            while end < input.len() && input[end] != NEWLINE
                invariant
                    pos <= end <= input.len(),
                    line_len(input@.skip(pos as int)) == (end - pos) + line_len(
                        input@.skip(end as int),
                    ),
                decreases input.len() - end,
            {
                proof {
                    assert(input@.skip(end as int).skip(1) == input@.skip(end + 1));
                }
                end += 1;
            }
            let line = slice_subrange(input, pos, end);
            proof {
                assert(line_len(rest) == end - pos);
                assert(rest.take(end - pos) == line@);
                if end < input.len() {
                    assert(rest.skip(end - pos + 1) == input@.skip(end + 1));
                } else {
                    assert(input@.skip(end as int) == Seq::<u8>::empty());
                }
            }
            match self.apply(line) {
                Some(mut text) => {
                    out.append(&mut text);
                    out.push(NEWLINE);
                },
                None => {},
            }
            pos = if end < input.len() {
                end + 1
            } else {
                end
            };
        }
        out
    }

    /// The static text that ends the run before any stream is opened, if
    /// help or the version was asked for.
    pub fn notice(&self) -> (text: Option<String>)
        ensures
            match text {
                Some(text) => self@.notice() == Some(text@),
                None => self@.notice() is None,
            },
    {
        if self.option.display_version {
            Some(self.version())
        } else if self.option.display_help {
            Some(self.help())
        } else {
            None
        }
    }

    /// Runs on one stream and gives what is to be written. Where help or the
    /// version was asked for, that is the text and a terminator, and the
    /// stream is not touched. A run on bytes in hand never fails: showing
    /// help or the version is a success like any other.
    pub fn run(&mut self, input: &[u8]) -> (res: Result<Vec<u8>, ()>)
        requires
            old(self)@.notice() is None ==> old(self)@.stream_fits(input@),
        ensures
            res is Ok,
            res.unwrap()@ == old(self)@.run(input@).1,
            final(self)@ == old(self)@.run(input@).0,
            old(self)@.notice() is Some ==> *final(self) == *old(self),
    {
        match self.notice() {
            Some(text) => {
                let mut out = slice_to_vec(text.as_str().as_bytes());
                out.push(NEWLINE);
                Ok(out)
            },
            None => Ok(self.cat(input)),
        }
    }
}

/// A flag changes the options whatever they were; a token that is no flag
/// is none whatever they were.
proof fn lemma_with_flag_known(option: CmdOption, token: Seq<char>)
    ensures
        option.with_flag(token) is None <==> CmdOption::none().with_flag(token) is None,
{
}

/// Every flag is an option-like token, so none is taken for an operand.
pub proof fn flag_is_option_like(option: CmdOption, token: Seq<char>)
    requires
        option.with_flag(token) is Some,
    ensures
        option_like(token),
{
    reveal_strlit("-A");
    reveal_strlit("--show-all");
    reveal_strlit("-b");
    reveal_strlit("--number-nonblank");
    reveal_strlit("-e");
    reveal_strlit("-E");
    reveal_strlit("--show-ends");
    reveal_strlit("-n");
    reveal_strlit("--number");
    reveal_strlit("-s");
    reveal_strlit("--squeeze-blank");
    reveal_strlit("-t");
    reveal_strlit("-T");
    reveal_strlit("--show-tabs");
    reveal_strlit("-u");
    reveal_strlit("-v");
    reveal_strlit("--show-nonprinting");
    reveal_strlit("--help");
    reveal_strlit("--version");
}

/// A flag given a second time changes nothing.
pub proof fn repeated_flag_changes_nothing(option: CmdOption, token: Seq<char>)
    requires
        option.with_flag(token) is Some,
    ensures
        option.with_flag(token).unwrap().with_flag(token) == option.with_flag(token),
{
}

/// No flag makes help and version both asked for: whichever was asked for
/// first stays.
pub proof fn flag_keeps_exclusive(option: CmdOption, token: Seq<char>)
    requires
        option.exclusive(),
        option.with_flag(token) is Some,
    ensures
        option.with_flag(token).unwrap().exclusive(),
        option.display_help ==> option.with_flag(token).unwrap().display_help,
        option.display_version ==> option.with_flag(token).unwrap().display_version,
{
}

/// Nor does any sequence of tokens.
pub proof fn flags_keep_exclusive(option: CmdOption, tokens: Seq<Seq<char>>)
    requires
        option.exclusive(),
    ensures
        option.with_flags(tokens).exclusive(),
    decreases tokens.len(),
{
    if tokens.len() > 0 {
        flags_keep_exclusive(option, tokens.drop_last());
    }
}

/// The two complaints never read the same, whatever the tokens: the one
/// about a token of the form `-x` differs from the other in its sixth
/// character.
pub proof fn complaints_differ(single: Seq<char>, other: Seq<char>)
    ensures
        invalid_option_message(single) != unrecognized_option_message(other),
{
    reveal_strlit("cat: invalid option -- '");
    reveal_strlit("cat: unrecognized option '");
    assert(invalid_option_message(single)[5] == 'i');
    assert(unrecognized_option_message(other)[5] == 'u');
}

/// With no switch set, a line is written as it is, less its terminator, and
/// the state stays.
pub proof fn plain_step_keeps_line(state: State, raw: Seq<u8>)
    requires
        state.option == CmdOption::none(),
    ensures
        state.step(raw) == (state, Some(strip_newline(raw))),
{
}

/// With non-printing bytes shown and no other switch set, what is written
/// for a line is its caret notation, taken once.
pub proof fn nonprinting_shown_once(state: State, raw: Seq<u8>)
    requires
        state.option == CmdOption::none().with_show_nonprinting(),
    ensures
        state.step(raw) == (state, Some(show_nonprinting(strip_newline(raw)))),
{
}

/// With `number_noblank`, `number` has no say: the step is the same with
/// `number` cleared, but for the switch itself.
pub proof fn nonblank_silences_number(state: State, raw: Seq<u8>)
    requires
        state.option.number_noblank,
    ensures
        ({
            let cleared = State {
                option: CmdOption { number: false, ..state.option },
                ..state
            };
            &&& state.step(raw).1 == cleared.step(raw).1
            &&& state.step(raw).0.line_number == cleared.step(raw).0.line_number
            &&& state.step(raw).0.blank_count == cleared.step(raw).0.blank_count
        }),
{
}

/// With `number_noblank`, an empty line takes no number.
pub proof fn empty_line_takes_no_number(state: State, raw: Seq<u8>)
    requires
        state.option.number_noblank,
        strip_newline(raw).len() == 0,
    ensures
        state.step(raw).0.line_number == state.line_number,
        state.step(raw).1 is Some ==> state.step(raw).1.unwrap() == (if state.option.show_ends {
            seq![END_MARK]
        } else {
            Seq::<u8>::empty()
        }),
{
    let line = strip_newline(raw);
    assert(line == Seq::<u8>::empty());
    assert(state.escaped(line) == Seq::<u8>::empty());
}

/// A line that is left out moves nothing but the count of empty lines.
pub proof fn squeezed_line_takes_no_number(state: State, raw: Seq<u8>)
    requires
        state.step(raw).1 is None,
    ensures
        state.option.squeeze_blank,
        strip_newline(raw).len() == 0,
        state.blank_count >= 1,
        state.step(raw).0 == (State { blank_count: state.blank_count + 1, ..state }),
{
}

/// Of the empty lines in a row, squeezing writes the first and no other.
pub proof fn squeeze_writes_first_empty_line(state: State, raw: Seq<u8>)
    requires
        state.option.squeeze_blank,
        strip_newline(raw).len() == 0,
    ensures
        state.step(raw).1 is Some <==> state.blank_count == 0,
        state.step(raw).0.blank_count == state.blank_count + 1,
{
}

/// A step changes no switch, counts on from where it stands, and moves the
/// line number by one at most.
pub proof fn step_keeps_valid(state: State, raw: Seq<u8>)
    requires
        state.valid(),
    ensures
        state.step(raw).0.valid(),
        state.step(raw).0.option == state.option,
        state.line_number <= state.step(raw).0.line_number <= state.line_number + 1,
        state.step(raw).0.blank_count <= state.blank_count + 1,
{
}

/// A state with room for one line fits after any line.
pub proof fn room_for_a_line(state: State, raw: Seq<u8>)
    requires
        state.has_room(1),
    ensures
        state.step(raw).0.fits(),
{
}

/// A state with room for as many lines as the stream has bytes fits after
/// each line of it.
pub proof fn room_for_a_stream(state: State, input: Seq<u8>)
    requires
        state.has_room(input.len()),
    ensures
        state.stream_fits(input),
    decreases input.len(),
{
    if input.len() > 0 {
        let n = line_len(input);
        line_len_bounds(input);
        let next = state.step(input.take(n as int)).0;
        let rest = after_line(input);
        room_for_a_stream(next, rest);
    }
}

/// A line that a reader cut, so that it has no terminator but at its end,
/// is taken the same with the terminator and without it.
pub proof fn step_ignores_terminator(state: State, raw: Seq<u8>)
    requires
        forall|i: int| 0 <= i < raw.len() - 1 ==> raw[i] != NEWLINE,
    ensures
        state.step(strip_newline(raw)) == state.step(raw),
{
}

/// So does a stream, line by line: the counters move by the number of its
/// bytes at most.
pub proof fn stream_keeps_valid(state: State, input: Seq<u8>)
    requires
        state.valid(),
    ensures
        state.stream(input).0.valid(),
        state.stream(input).0.option == state.option,
        state.line_number <= state.stream(input).0.line_number <= state.line_number
            + input.len(),
        state.stream(input).0.blank_count <= state.blank_count + input.len(),
    decreases input.len(),
{
    if input.len() > 0 {
        let n = line_len(input);
        line_len_bounds(input);
        let next = state.step(input.take(n as int)).0;
        step_keeps_valid(state, input.take(n as int));
        let rest = after_line(input);
        stream_keeps_valid(next, rest);
    }
}

/// The first line ends within the input, at a terminator if it ends before
/// the input does, and holds none.
pub proof fn line_len_bounds(input: Seq<u8>)
    ensures
        line_len(input) <= input.len(),
        line_len(input) < input.len() ==> input[line_len(input) as int] == NEWLINE,
        forall|i: int| 0 <= i < line_len(input) ==> input[i] != NEWLINE,
    decreases input.len(),
{
    if input.len() > 0 && input[0] != NEWLINE {
        line_len_bounds(input.skip(1));
        assert forall|i: int| 0 <= i < line_len(input) implies input[i] != NEWLINE by {
            if i > 0 {
                assert(input.skip(1)[i - 1] == input[i]);
            }
        }
    }
}

/// What is written for a stream ends with a terminator, also where the
/// stream does not.
pub proof fn stream_ends_with_newline(state: State, input: Seq<u8>)
    ensures
        state.stream(input).1.len() > 0 ==> state.stream(input).1.last() == NEWLINE,
    decreases input.len(),
{
    if input.len() > 0 {
        let n = line_len(input);
        line_len_bounds(input);
        let (next, text) = state.step(input.take(n as int));
        let rest = after_line(input);
        stream_ends_with_newline(next, rest);
    }
}

/// Streams run on: where the first ends with a terminator, or is empty,
/// two streams one after the other are written as the one stream that they
/// make together, and leave the same state.
pub proof fn stream_of_parts(state: State, first: Seq<u8>, second: Seq<u8>)
    requires
        first.len() > 0 ==> first.last() == NEWLINE,
    ensures
        state.stream(first + second).0 == state.stream(first).0.stream(second).0,
        state.stream(first + second).1 == state.stream(first).1 + state.stream(first).0.stream(
            second,
        ).1,
    decreases first.len(),
{
    if first.len() == 0 {
        assert(first + second == second);
    } else {
        let whole = first + second;
        let n = line_len(first);
        line_len_bounds(first);
        line_len_of_front(first, second);
        assert(whole.take(n as int) == first.take(n as int));
        let next = state.step(first.take(n as int)).0;
        let rest = first.skip(n as int + 1);
        assert(whole.skip(n as int + 1) == rest + second);
        stream_of_parts(next, rest, second);
    }
}

/// A line that ends within the front part of a text is the same line in
/// the whole text.
proof fn line_len_of_front(front: Seq<u8>, back: Seq<u8>)
    requires
        line_len(front) < front.len(),
    ensures
        line_len(front + back) == line_len(front),
    decreases front.len(),
{
    if front[0] != NEWLINE {
        assert((front + back).skip(1) == front.skip(1) + back);
        line_len_of_front(front.skip(1), back);
    }
}

/// The count of lines that are not empty, with one line in front.
proof fn nonempty_with_first(line: Seq<u8>, rest: Seq<Seq<u8>>)
    ensures
        nonempty(seq![line] + rest) == nonempty(rest) + (if line.len() > 0 {
            1nat
        } else {
            0nat
        }),
    decreases rest.len(),
{
    let all = seq![line] + rest;
    if rest.len() == 0 {
        assert(all.drop_last() == Seq::<Seq<u8>>::empty());
        assert(all.last() == line);
        assert(nonempty(all.drop_last()) == 0);
        assert(nonempty(rest) == 0);
    } else {
        nonempty_with_first(line, rest.drop_last());
        assert(all.drop_last() == seq![line] + rest.drop_last());
        assert(all.last() == rest.last());
    }
}

/// The numbered text of the lines, with one line in front: the lines behind
/// it are numbered on from where it leaves the number.
proof fn nonblank_numbered_with_first(first: nat, line: Seq<u8>, rest: Seq<Seq<u8>>)
    ensures
        nonblank_numbered(first, seq![line] + rest) == (if line.len() > 0 {
            (number_field(first) + line).push(NEWLINE) + nonblank_numbered(first + 1, rest)
        } else {
            line.push(NEWLINE) + nonblank_numbered(first, rest)
        }),
    decreases rest.len(),
{
    let all = seq![line] + rest;
    if rest.len() == 0 {
        assert(all.drop_last() == Seq::<Seq<u8>>::empty());
        assert(all.last() == line);
        assert(nonblank_numbered(first, all.drop_last()) == Seq::<u8>::empty());
        assert(nonempty(all.drop_last()) == 0);
    } else {
        nonblank_numbered_with_first(first, line, rest.drop_last());
        nonempty_with_first(line, rest.drop_last());
        assert(all.drop_last() == seq![line] + rest.drop_last());
        assert(all.last() == rest.last());
    }
}

/// With the lines that are not empty numbered and nothing else asked for,
/// a stream is written line by line: each line that is not empty behind its
/// number, counted from the state's over such lines only, and each empty
/// line empty. The number moves on by the count of lines that are not
/// empty; nothing else in the state moves.
pub proof fn nonblank_numbers_in_order(state: State, input: Seq<u8>)
    requires
        state.option == CmdOption::none().with_number_nonblank(),
    ensures
        state.stream(input).1 == nonblank_numbered(state.line_number, lines_of(input)),
        state.stream(input).0 == (State {
            line_number: state.line_number + nonempty(lines_of(input)),
            ..state
        }),
    decreases input.len(),
{
    if input.len() > 0 {
        line_len_bounds(input);
        let line = input.take(line_len(input) as int);
        let rest = after_line(input);
        let next = state.step(line).0;
        assert(strip_newline(line) == line);
        assert(state.escaped(line) == line);
        nonblank_numbers_in_order(next, rest);
        nonblank_numbered_with_first(state.line_number, line, lines_of(rest));
        nonempty_with_first(line, lines_of(rest));
    }
}

} // verus!
