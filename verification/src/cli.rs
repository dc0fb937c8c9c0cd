//! The command line of the tracker: its subcommands and their options.
//!
//! A command line is the program's name, a subcommand, and options. An
//! option is written with its long name (`--interval`) or its short one
//! (`-i`). An option with a value takes the next word as its value; after a
//! long name the value may also follow in the same word, behind `=`.

use crate::text::{find_char, first_index, i64_value, parse_i64, parse_u64, parse_u8, same_text};
use crate::text::{u64_value, u8_value};
use crate::timestamp::{date_text, Moment, Timestamp};
use vstd::prelude::*;
use vstd::string::*;

verus! {

/// What the tracker is asked to do.
#[derive(Debug)]
pub enum Commands {
    /// Start tracking.
    Start { interval: Option<u64>, quality: Option<u8> },
    /// Pause tracking.
    Pause,
    /// Resume tracking.
    Resume,
    /// Show the report of a day.
    Report { date: Option<String>, today: bool },
    /// Recognise the text of one image, or of stored events that lack it.
    Ocr { file: Option<String>, batch: Option<i64> },
}

/// A parsed command line.
#[derive(Debug)]
pub struct Cli {
    pub command: Commands,
}

/// Why a command line was refused.
#[derive(Debug)]
pub enum CliError {
    /// No subcommand was given.
    MissingCommand,
    /// The word is no subcommand.
    UnknownCommand(String),
    /// The word is no option of the subcommand.
    UnknownArgument(String),
    /// The option needs a value and the command line ends after it.
    MissingValue(String),
    /// The value is not a number that the option takes.
    InvalidValue { argument: String, value: String },
    /// The option was given before.
    DuplicateArgument(String),
    /// The option takes no value and was given one.
    UnexpectedValue(String),
    /// `--date` and `--today` were both given.
    ConflictingArguments,
}

/// A command, as mathematical values.
pub enum CommandView {
    Start { interval: Option<u64>, quality: Option<u8> },
    Pause,
    Resume,
    Report { date: Option<Seq<char>>, today: bool },
    Ocr { file: Option<Seq<char>>, batch: Option<i64> },
}

/// A refusal, as mathematical values.
pub enum RefusalView {
    MissingCommand,
    UnknownCommand(Seq<char>),
    UnknownArgument(Seq<char>),
    MissingValue(Seq<char>),
    InvalidValue { argument: Seq<char>, value: Seq<char> },
    DuplicateArgument(Seq<char>),
    UnexpectedValue(Seq<char>),
    ConflictingArguments,
}

impl View for Commands {
    type V = CommandView;

    open spec fn view(&self) -> CommandView {
        match *self {
            Commands::Start { interval, quality } => CommandView::Start { interval, quality },
            Commands::Pause => CommandView::Pause,
            Commands::Resume => CommandView::Resume,
            Commands::Report { date, today } => CommandView::Report {
                date: match date {
                    Some(d) => Some(d@),
                    None => None,
                },
                today,
            },
            Commands::Ocr { file, batch } => CommandView::Ocr {
                file: match file {
                    Some(f) => Some(f@),
                    None => None,
                },
                batch,
            },
        }
    }
}

impl View for CliError {
    type V = RefusalView;

    open spec fn view(&self) -> RefusalView {
        match *self {
            CliError::MissingCommand => RefusalView::MissingCommand,
            CliError::UnknownCommand(word) => RefusalView::UnknownCommand(word@),
            CliError::UnknownArgument(word) => RefusalView::UnknownArgument(word@),
            CliError::MissingValue(name) => RefusalView::MissingValue(name@),
            CliError::InvalidValue { argument, value } => RefusalView::InvalidValue {
                argument: argument@,
                value: value@,
            },
            CliError::DuplicateArgument(name) => RefusalView::DuplicateArgument(name@),
            CliError::UnexpectedValue(name) => RefusalView::UnexpectedValue(name@),
            CliError::ConflictingArguments => RefusalView::ConflictingArguments,
        }
    }
}

impl CliError {
    pub open spec fn spec_message(self) -> Seq<char> {
        match self {
            CliError::MissingCommand => "サブコマンドを指定してください"@,
            CliError::UnknownCommand(word) => "不明なサブコマンド: "@ + word@,
            CliError::UnknownArgument(word) => "不明な引数: "@ + word@,
            CliError::MissingValue(name) => "値がありません: "@ + name@,
            CliError::InvalidValue { argument, value } => "無効な値: "@ + argument@ + " "@ + value@,
            CliError::DuplicateArgument(name) => "引数が重複しています: "@ + name@,
            CliError::UnexpectedValue(name) => "値を取らない引数です: "@ + name@,
            CliError::ConflictingArguments => "--date と --today は同時に指定できません"@,
        }
    }

    /// The text shown to the operator for this refusal.
    pub fn message(&self) -> (text: String)
        ensures
            text@ == self.spec_message(),
    {
        match self {
            CliError::MissingCommand => String::from_str("サブコマンドを指定してください"),
            CliError::UnknownCommand(word) => String::from_str("不明なサブコマンド: ").concat(
                word.as_str(),
            ),
            CliError::UnknownArgument(word) => String::from_str("不明な引数: ").concat(
                word.as_str(),
            ),
            CliError::MissingValue(name) => String::from_str("値がありません: ").concat(
                name.as_str(),
            ),
            CliError::InvalidValue { argument, value } => String::from_str("無効な値: ").concat(
                argument.as_str(),
            ).concat(" ").concat(value.as_str()),
            CliError::DuplicateArgument(name) => String::from_str("引数が重複しています: ").concat(
                name.as_str(),
            ),
            CliError::UnexpectedValue(name) => String::from_str("値を取らない引数です: ").concat(
                name.as_str(),
            ),
            CliError::ConflictingArguments => String::from_str(
                "--date と --today は同時に指定できません",
            ),
        }
    }
}

/// The subcommands.
#[derive(Debug, Clone, Copy, PartialEq, Eq, Structural)]
pub enum Subcommand {
    Start,
    Pause,
    Resume,
    Report,
    Ocr,
}

/// The options.
#[derive(Debug, Clone, Copy, PartialEq, Eq, Structural)]
pub enum Flag {
    Interval,
    Quality,
    Date,
    Today,
    File,
    Batch,
}

/// The options gathered from a command line so far.
pub struct OptionsView {
    pub interval: Option<u64>,
    pub quality: Option<u8>,
    pub date: Option<Seq<char>>,
    pub today: bool,
    pub file: Option<Seq<char>>,
    pub batch: Option<i64>,
}

/// No option given.
pub open spec fn no_options() -> OptionsView {
    OptionsView { interval: None, quality: None, date: None, today: false, file: None, batch: None }
}

/// The subcommand that `word` names.
pub open spec fn subcommand_named(word: Seq<char>) -> Option<Subcommand> {
    if word == "start"@ {
        Some(Subcommand::Start)
    } else if word == "pause"@ {
        Some(Subcommand::Pause)
    } else if word == "resume"@ {
        Some(Subcommand::Resume)
    } else if word == "report"@ {
        Some(Subcommand::Report)
    } else if word == "ocr"@ {
        Some(Subcommand::Ocr)
    } else {
        None
    }
}

/// The option of `sub` that `name` names, long or short.
pub open spec fn flag_named(sub: Subcommand, name: Seq<char>) -> Option<Flag> {
    match sub {
        Subcommand::Start => if name == "--interval"@ || name == "-i"@ {
            Some(Flag::Interval)
        } else if name == "--quality"@ || name == "-q"@ {
            Some(Flag::Quality)
        } else {
            None
        },
        Subcommand::Report => if name == "--date"@ || name == "-d"@ {
            Some(Flag::Date)
        } else if name == "--today"@ || name == "-t"@ {
            Some(Flag::Today)
        } else {
            None
        },
        Subcommand::Ocr => if name == "--file"@ || name == "-f"@ {
            Some(Flag::File)
        } else if name == "--batch"@ || name == "-b"@ {
            Some(Flag::Batch)
        } else {
            None
        },
        _ => None,
    }
}

/// Whether the option is followed by a value.
pub open spec fn takes_value(flag: Flag) -> bool {
    flag != Flag::Today
}

/// Whether `word` begins like a long name, with two hyphens.
pub open spec fn is_long(word: Seq<char>) -> bool {
    word.len() >= 2 && word[0] == '-' && word[1] == '-'
}

/// The name in `word`: of a long name with a value behind `=`, what stands
/// before the `=`.
pub open spec fn flag_name(word: Seq<char>) -> Seq<char> {
    if is_long(word) {
        word.take(first_index(word, '=', 0))
    } else {
        word
    }
}

/// The value that `word` carries behind `=`, after a long name.
pub open spec fn attached_value(word: Seq<char>) -> Option<Seq<char>> {
    if is_long(word) && first_index(word, '=', 0) < word.len() {
        Some(word.skip(first_index(word, '=', 0) + 1))
    } else {
        None
    }
}

/// Whether the option was given.
pub open spec fn is_given(options: OptionsView, flag: Flag) -> bool {
    match flag {
        Flag::Interval => options.interval is Some,
        Flag::Quality => options.quality is Some,
        Flag::Date => options.date is Some,
        Flag::Today => options.today,
        Flag::File => options.file is Some,
        Flag::Batch => options.batch is Some,
    }
}

/// `options` with the option `flag` given the value `value`. Nothing where
/// the option takes a number and `value` is not one that fits.
pub open spec fn with_value(options: OptionsView, flag: Flag, value: Seq<char>) -> Option<
    OptionsView,
> {
    match flag {
        Flag::Interval => match u64_value(value) {
            Some(v) => Some(OptionsView { interval: Some(v), ..options }),
            None => None,
        },
        Flag::Quality => match u8_value(value) {
            Some(v) => Some(OptionsView { quality: Some(v), ..options }),
            None => None,
        },
        Flag::Date => Some(OptionsView { date: Some(value), ..options }),
        Flag::Today => Some(OptionsView { today: true, ..options }),
        Flag::File => Some(OptionsView { file: Some(value), ..options }),
        Flag::Batch => match i64_value(value) {
            Some(v) => Some(OptionsView { batch: Some(v), ..options }),
            None => None,
        },
    }
}

/// The options that `words` give to `sub`, on top of `so_far`; or the first
/// fault in them, read from the left.
pub open spec fn options_from(sub: Subcommand, words: Seq<Seq<char>>, so_far: OptionsView) -> Result<
    OptionsView,
    RefusalView,
>
    decreases words.len(),
{
    if words.len() == 0 {
        Ok(so_far)
    } else {
        let word = words[0];
        let name = flag_name(word);
        match flag_named(sub, name) {
            None => Err(RefusalView::UnknownArgument(word)),
            Some(flag) => if is_given(so_far, flag) {
                Err(RefusalView::DuplicateArgument(name))
            } else if !takes_value(flag) {
                if attached_value(word) is Some {
                    Err(RefusalView::UnexpectedValue(name))
                } else {
                    options_from(sub, words.skip(1), OptionsView { today: true, ..so_far })
                }
            } else {
                match attached_value(word) {
                    Some(value) => match with_value(so_far, flag, value) {
                        Some(next) => options_from(sub, words.skip(1), next),
                        None => Err(RefusalView::InvalidValue { argument: name, value }),
                    },
                    None => if words.len() < 2 {
                        Err(RefusalView::MissingValue(name))
                    } else {
                        match with_value(so_far, flag, words[1]) {
                            Some(next) => options_from(sub, words.skip(2), next),
                            None => Err(
                                RefusalView::InvalidValue { argument: name, value: words[1] },
                            ),
                        }
                    },
                }
            },
        }
    }
}

/// The command that `sub` is with `options`. A report takes a date or
/// `--today`, not both.
pub open spec fn command_of(sub: Subcommand, options: OptionsView) -> Result<
    CommandView,
    RefusalView,
> {
    match sub {
        Subcommand::Start => Ok(
            CommandView::Start { interval: options.interval, quality: options.quality },
        ),
        Subcommand::Pause => Ok(CommandView::Pause),
        Subcommand::Resume => Ok(CommandView::Resume),
        Subcommand::Report => if options.date is Some && options.today {
            Err(RefusalView::ConflictingArguments)
        } else {
            Ok(CommandView::Report { date: options.date, today: options.today })
        },
        Subcommand::Ocr => Ok(CommandView::Ocr { file: options.file, batch: options.batch }),
    }
}

/// What the command line `words` asks for: the first word is the program's
/// name, the second the subcommand, the rest its options.
pub open spec fn parsed(words: Seq<Seq<char>>) -> Result<CommandView, RefusalView> {
    if words.len() < 2 {
        Err(RefusalView::MissingCommand)
    } else {
        match subcommand_named(words[1]) {
            None => Err(RefusalView::UnknownCommand(words[1])),
            Some(sub) => match options_from(sub, words.skip(2), no_options()) {
                Ok(options) => command_of(sub, options),
                Err(refusal) => Err(refusal),
            },
        }
    }
}

/// The texts of the words of a command line.
pub open spec fn texts(args: Seq<&str>) -> Seq<Seq<char>> {
    args.map_values(|word: &str| word@)
}

/// What `result` says of a command line, as mathematical values.
pub open spec fn outcome_view(result: Result<Cli, CliError>) -> Result<CommandView, RefusalView> {
    match result {
        Ok(cli) => Ok(cli.command@),
        Err(e) => Err(e@),
    }
}

/// The options gathered so far.
struct Gathered {
    interval: Option<u64>,
    quality: Option<u8>,
    date: Option<String>,
    today: bool,
    file: Option<String>,
    batch: Option<i64>,
}

impl View for Gathered {
    type V = OptionsView;

    closed spec fn view(&self) -> OptionsView {
        OptionsView {
            interval: self.interval,
            quality: self.quality,
            date: match self.date {
                Some(d) => Some(d@),
                None => None,
            },
            today: self.today,
            file: match self.file {
                Some(f) => Some(f@),
                None => None,
            },
            batch: self.batch,
        }
    }
}

impl Gathered {
    /// Whether the option was given.
    fn has(&self, flag: Flag) -> (given: bool)
        ensures
            given == is_given(self@, flag),
    {
        match flag {
            Flag::Interval => self.interval.is_some(),
            Flag::Quality => self.quality.is_some(),
            Flag::Date => self.date.is_some(),
            Flag::Today => self.today,
            Flag::File => self.file.is_some(),
            Flag::Batch => self.batch.is_some(),
        }
    }

    /// Takes in the value of an option; `false`, and nothing taken in,
    /// where the value is not a number that the option takes.
    fn take(&mut self, flag: Flag, value: &str) -> (taken: bool)
        ensures
            taken == with_value(old(self)@, flag, value@) is Some,
            taken ==> final(self)@ == with_value(old(self)@, flag, value@)->0,
            !taken ==> final(self)@ == old(self)@,
    {
        match flag {
            Flag::Interval => match parse_u64(value) {
                Some(v) => {
                    self.interval = Some(v);
                    true
                },
                None => false,
            },
            Flag::Quality => match parse_u8(value) {
                Some(v) => {
                    self.quality = Some(v);
                    true
                },
                None => false,
            },
            Flag::Date => {
                self.date = Some(String::from_str(value));
                true
            },
            Flag::Today => {
                self.today = true;
                true
            },
            Flag::File => {
                self.file = Some(String::from_str(value));
                true
            },
            Flag::Batch => match parse_i64(value) {
                Some(v) => {
                    self.batch = Some(v);
                    true
                },
                None => false,
            },
        }
    }

    /// The command that `sub` is with these options.
    fn into_command(self, sub: Subcommand) -> (result: Result<Cli, CliError>)
        ensures
            outcome_view(result) == command_of(sub, self@),
    {
        match sub {
            Subcommand::Start => Ok(
                Cli { command: Commands::Start { interval: self.interval, quality: self.quality } },
            ),
            Subcommand::Pause => Ok(Cli { command: Commands::Pause }),
            Subcommand::Resume => Ok(Cli { command: Commands::Resume }),
            Subcommand::Report => if self.date.is_some() && self.today {
                Err(CliError::ConflictingArguments)
            } else {
                Ok(Cli { command: Commands::Report { date: self.date, today: self.today } })
            },
            Subcommand::Ocr => Ok(
                Cli { command: Commands::Ocr { file: self.file, batch: self.batch } },
            ),
        }
    }
}

/// The subcommand that `word` names.
fn subcommand_of(word: &str) -> (sub: Option<Subcommand>)
    ensures
        sub == subcommand_named(word@),
{
    if same_text(word, "start") {
        Some(Subcommand::Start)
    } else if same_text(word, "pause") {
        Some(Subcommand::Pause)
    } else if same_text(word, "resume") {
        Some(Subcommand::Resume)
    } else if same_text(word, "report") {
        Some(Subcommand::Report)
    } else if same_text(word, "ocr") {
        Some(Subcommand::Ocr)
    } else {
        None
    }
}

/// The option of `sub` that `name` names.
fn flag_of(sub: Subcommand, name: &str) -> (flag: Option<Flag>)
    ensures
        flag == flag_named(sub, name@),
{
    match sub {
        Subcommand::Start => if same_text(name, "--interval") || same_text(name, "-i") {
            Some(Flag::Interval)
        } else if same_text(name, "--quality") || same_text(name, "-q") {
            Some(Flag::Quality)
        } else {
            None
        },
        Subcommand::Report => if same_text(name, "--date") || same_text(name, "-d") {
            Some(Flag::Date)
        } else if same_text(name, "--today") || same_text(name, "-t") {
            Some(Flag::Today)
        } else {
            None
        },
        Subcommand::Ocr => if same_text(name, "--file") || same_text(name, "-f") {
            Some(Flag::File)
        } else if same_text(name, "--batch") || same_text(name, "-b") {
            Some(Flag::Batch)
        } else {
            None
        },
        _ => None,
    }
}

/// Whether `word` begins with two hyphens.
fn begins_long(word: &str) -> (long: bool)
    ensures
        long == is_long(word@),
{
    word.unicode_len() >= 2 && word.get_char(0) == '-' && word.get_char(1) == '-'
}

impl Cli {
    /// Reads a command line: the program's name, a subcommand and its
    /// options. The first fault, read from the left, refuses the line.
    pub fn try_parse_from(args: &[&str]) -> (result: Result<Cli, CliError>)
        ensures
            outcome_view(result) == parsed(texts(args@)),
    {
        let ghost words = texts(args@);
        if args.len() < 2 {
            return Err(CliError::MissingCommand);
        }
        let sub = match subcommand_of(args[1]) {
            Some(sub) => sub,
            None => {
                return Err(CliError::UnknownCommand(String::from_str(args[1])));
            },
        };
        let mut gathered = Gathered {
            interval: None,
            quality: None,
            date: None,
            today: false,
            file: None,
            batch: None,
        };
        let ghost goal = options_from(sub, words.skip(2), no_options());
        let mut i: usize = 2;
        while i < args.len()
            invariant
                2 <= i <= args@.len(),
                words == texts(args@),
                goal == options_from(sub, words.skip(i as int), gathered@),
                parsed(words) == match goal {
                    Ok(options) => command_of(sub, options),
                    Err(refusal) => Err(refusal),
                },
            decreases args@.len() - i,
        {
            let word = args[i];
            let ghost rest = words.skip(i as int);
            proof {
                assert(rest.len() > 0);
                assert(rest[0] == word@);
                assert(rest.skip(1) =~= words.skip(i + 1));
                if i + 1 < args@.len() {
                    assert(rest[1] == args@[i + 1]@);
                    assert(rest.skip(2) =~= words.skip(i + 2));
                }
            }
            let long = begins_long(word);
            let split = if long {
                find_char(word, '=', 0)
            } else {
                word.unicode_len()
            };
            let name = word.substring_char(0, split);
            proof {
                assert(name@ =~= flag_name(word@));
            }
            let flag = match flag_of(sub, name) {
                Some(flag) => flag,
                None => {
                    return Err(CliError::UnknownArgument(String::from_str(word)));
                },
            };
            if gathered.has(flag) {
                return Err(CliError::DuplicateArgument(String::from_str(name)));
            }
            let attached = long && split < word.unicode_len();
            if flag == Flag::Today {
                if attached {
                    return Err(CliError::UnexpectedValue(String::from_str(name)));
                }
                gathered.today = true;
                i += 1;
            } else if attached {
                let value = word.substring_char(split + 1, word.unicode_len());
                proof {
                    assert(value@ =~= attached_value(word@)->0);
                }
                if !gathered.take(flag, value) {
                    return Err(
                        CliError::InvalidValue {
                            argument: String::from_str(name),
                            value: String::from_str(value),
                        },
                    );
                }
                i += 1;
            } else {
                if i + 1 >= args.len() {
                    return Err(CliError::MissingValue(String::from_str(name)));
                }
                let value = args[i + 1];
                if !gathered.take(flag, value) {
                    return Err(
                        CliError::InvalidValue {
                            argument: String::from_str(name),
                            value: String::from_str(value),
                        },
                    );
                }
                i += 2;
            }
        }
        assert(words.skip(args@.len() as int).len() == 0);
        gathered.into_command(sub)
    }
}

/// The day that a report is asked for: the given date, or the day of `now`
/// where `--today` or no date is given.
pub open spec fn report_day(date: Option<Seq<char>>, today: bool, now: Moment) -> Seq<char> {
    match date {
        Some(day) => if today {
            date_text(now)
        } else {
            day
        },
        None => date_text(now),
    }
}

/// The day that a report is asked for.
pub fn report_date(date: Option<String>, today: bool, now: &Timestamp) -> (day: String)
    ensures
        day@ == report_day(
            match date {
                Some(d) => Some(d@),
                None => None,
            },
            today,
            now@,
        ),
{
    match date {
        Some(day) => if today {
            now.date()
        } else {
            day
        },
        None => now.date(),
    }
}

/// `text` with a space in place of every line feed.
pub open spec fn on_one_line(text: Seq<char>) -> Seq<char> {
    text.map_values(
        |c: char|
            if c == '\n' {
                ' '
            } else {
                c
            },
    )
}

/// What is shown of recognised text: its first 50 characters, with three
/// dots behind them where there are more, on one line.
pub open spec fn preview_text(text: Seq<char>) -> Seq<char> {
    if text.len() > 50 {
        on_one_line(text.take(50)) + "..."@
    } else {
        on_one_line(text)
    }
}

/// What is shown of recognised text.
pub fn ocr_preview(text: &str) -> (preview: String)
    ensures
        preview@ == preview_text(text@),
{
    let n = text.unicode_len();
    let shown: usize = if n > 50 {
        50
    } else {
        n
    };
    let mut preview = String::new();
    let mut i: usize = 0;
    while i < shown
        invariant
            i <= shown <= n,
            n == text@.len(),
            preview@ == on_one_line(text@.take(i as int)),
        decreases shown - i,
    {
        proof {
            reveal_strlit(" ");
            assert(text@.subrange(i as int, i + 1) =~= seq![text@[i as int]]);
        }
        if text.get_char(i) == '\n' {
            preview.append(" ");
        } else {
            preview.append(text.substring_char(i, i + 1));
        }
        assert(preview@ =~= on_one_line(text@.take(i + 1)));
        i += 1;
    }
    if n > 50 {
        preview.append("...");
    } else {
        assert(text@.take(n as int) =~= text@);
    }
    preview
}

} // verus!
