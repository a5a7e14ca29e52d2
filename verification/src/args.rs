//! The command line.

use vstd::prelude::*;
use vstd::string::StringExecFns;

use crate::numbers::parse_unsigned;
use crate::pipeline::Request;
use crate::text::same_text;

verus! {

/// What is shown to whoever asks for the usage, or calls in a way that is refused. What
/// it says of the quality of WebP is of no effect: WebP is written without loss, since
/// the encoder knows no other way.
pub const USAGE: &'static str = "Usage: rapidraw-cli --input <image> --preset <preset.rrdata> --output <out.jpg> [options]
       rapidraw-cli --server

Options:
  --input,   -i  Input image path (RAW or JPEG/PNG/etc.)
  --preset,  -p  Preset JSON path (.rrdata sidecar or standalone preset file)
  --output,  -o  Output path (.jpg/.png/.webp/.tif)
  --quality, -q  JPEG/WebP quality 1–100 (default: 90)
  --resize,  -r  Resize long edge to N pixels before saving
  --server,  -s  Server mode: read JSON jobs from stdin, write results to stdout
  --help,    -h  Show this help

Set WGPU_BACKEND=vulkan|metal|dx12|gl to override GPU backend.";

/// The quality of a JPEG result where none was asked for.
pub fn default_quality() -> (quality: u8)
    ensures
        quality == 90,
{
    90
}

/// What the command line asks for.
pub struct Args {
    pub input: String,
    pub preset: String,
    pub output: String,
    pub quality: u8,
    pub resize: Option<u32>,
    pub server: bool,
}

/// What the command line asks for, with texts as sequences of characters.
pub struct ArgsView {
    pub input: Seq<char>,
    pub preset: Seq<char>,
    pub output: Seq<char>,
    pub quality: u8,
    pub resize: Option<u32>,
    pub server: bool,
}

impl View for Args {
    type V = ArgsView;

    open spec fn view(&self) -> ArgsView {
        ArgsView {
            input: self.input@,
            preset: self.preset@,
            output: self.output@,
            quality: self.quality,
            resize: self.resize,
            server: self.server,
        }
    }
}

/// Whether `request` is the rendering that these arguments ask for.
pub open spec fn is_asked(request: Request, args: Args) -> bool {
    &&& request.input@ == args@.input
    &&& request.preset@ == args@.preset
    &&& request.output@ == args@.output
    &&& request.quality == args@.quality
    &&& request.resize == args@.resize
}

impl Args {
    /// The rendering that was asked for.
    pub fn into_request(self) -> (request: Request)
        ensures
            is_asked(request, self),
    {
        Request {
            input: self.input,
            preset: self.preset,
            output: self.output,
            quality: self.quality,
            resize: self.resize,
        }
    }
}

/// What is to be done: show the usage, or go to work.
pub enum Invocation {
    Help,
    Run(Args),
}

/// What is to be done, with texts as sequences of characters.
pub enum InvocationView {
    Help,
    Run(ArgsView),
}

impl View for Invocation {
    type V = InvocationView;

    open spec fn view(&self) -> InvocationView {
        match self {
            Invocation::Help => InvocationView::Help,
            Invocation::Run(args) => InvocationView::Run(args@),
        }
    }
}

/// The flags of the command line.
#[derive(Clone, Copy, PartialEq, Eq, Structural, Debug)]
pub enum Flag {
    Input,
    Preset,
    Output,
    Quality,
    Resize,
    Server,
    Help,
}

/// The flag that a word stands for: each has a long and a short spelling.
pub open spec fn flag_named(word: Seq<char>) -> Option<Flag> {
    if word == "--input"@ || word == "-i"@ {
        Some(Flag::Input)
    } else if word == "--preset"@ || word == "-p"@ {
        Some(Flag::Preset)
    } else if word == "--output"@ || word == "-o"@ {
        Some(Flag::Output)
    } else if word == "--quality"@ || word == "-q"@ {
        Some(Flag::Quality)
    } else if word == "--resize"@ || word == "-r"@ {
        Some(Flag::Resize)
    } else if word == "--server"@ || word == "-s"@ {
        Some(Flag::Server)
    } else if word == "--help"@ || word == "-h"@ {
        Some(Flag::Help)
    } else {
        None
    }
}

/// What the flags have set so far.
pub struct Options {
    pub input: Option<String>,
    pub preset: Option<String>,
    pub output: Option<String>,
    pub quality: u8,
    pub resize: Option<u32>,
    pub server: bool,
}

/// What the flags have set so far, with texts as sequences of characters.
pub struct OptionsView {
    pub input: Option<Seq<char>>,
    pub preset: Option<Seq<char>>,
    pub output: Option<Seq<char>>,
    pub quality: u8,
    pub resize: Option<u32>,
    pub server: bool,
}

impl View for Options {
    type V = OptionsView;

    open spec fn view(&self) -> OptionsView {
        OptionsView {
            input: crate::pipeline::option_text(self.input),
            preset: crate::pipeline::option_text(self.preset),
            output: crate::pipeline::option_text(self.output),
            quality: self.quality,
            resize: self.resize,
            server: self.server,
        }
    }
}

/// What holds before any flag is read.
pub open spec fn unset() -> OptionsView {
    OptionsView {
        input: None,
        preset: None,
        output: None,
        quality: 90,
        resize: None,
        server: false,
    }
}

/// What came of reading the flags one by one.
pub enum Scan {
    /// All were read.
    Complete(Options),
    /// The usage was asked for.
    Help,
    /// A flag or its value was refused, for this reason.
    Refused(String),
    /// The last word is a flag that lacks its value.
    NoValue,
}

/// What came of reading the flags, with texts as sequences of characters.
pub enum ScanView {
    Complete(OptionsView),
    Help,
    Refused(Seq<char>),
    NoValue,
}

impl View for Scan {
    type V = ScanView;

    open spec fn view(&self) -> ScanView {
        match self {
            Scan::Complete(options) => ScanView::Complete(options@),
            Scan::Help => ScanView::Help,
            Scan::Refused(reason) => ScanView::Refused(reason@),
            Scan::NoValue => ScanView::NoValue,
        }
    }
}

/// What the options become when a flag that takes a value is given `value`, or why
/// the value is refused.
pub open spec fn set_by(options: OptionsView, flag: Flag, value: Seq<char>) -> Result<
    OptionsView,
    Seq<char>,
> {
    match flag {
        Flag::Input => Ok(OptionsView { input: Some(value), ..options }),
        Flag::Preset => Ok(OptionsView { preset: Some(value), ..options }),
        Flag::Output => Ok(OptionsView { output: Some(value), ..options }),
        Flag::Quality => match crate::numbers::bounded_value(value, 100) {
            Some(quality) => if quality >= 1 {
                Ok(OptionsView { quality: quality as u8, ..options })
            } else {
                Err("Invalid --quality (1–100)"@)
            },
            None => Err("Invalid --quality (1–100)"@),
        },
        Flag::Resize => match crate::numbers::bounded_value(value, 0xffff_ffff) {
            Some(edge) => Ok(OptionsView { resize: Some(edge as u32), ..options }),
            None => Err("Invalid --resize (pixels)"@),
        },
        _ => Ok(options),
    }
}

/// What comes of reading the words from the one at `at` on, given what was set
/// before.
pub open spec fn scanned(words: Seq<Seq<char>>, at: int, options: OptionsView) -> ScanView
    decreases words.len() - at,
{
    if at >= words.len() {
        ScanView::Complete(options)
    } else {
        match flag_named(words[at]) {
            None => ScanView::Refused("Unknown argument: "@ + words[at]),
            Some(Flag::Help) => ScanView::Help,
            Some(Flag::Server) => scanned(
                words,
                at + 1,
                OptionsView { server: true, ..options },
            ),
            Some(flag) => if at + 1 >= words.len() {
                ScanView::NoValue
            } else {
                match set_by(options, flag, words[at + 1]) {
                    Ok(set) => scanned(words, at + 2, set),
                    Err(reason) => ScanView::Refused(reason),
                }
            },
        }
    }
}

/// What comes of reading a whole command line: its first word is the program.
pub open spec fn scanned_line(words: Seq<Seq<char>>) -> ScanView {
    scanned(words, 1, unset())
}

/// The arguments that complete options make. A server needs no paths and is given
/// none; a single rendering needs all three, and is refused for the first that is
/// missing.
pub open spec fn completed(options: OptionsView) -> Result<ArgsView, Seq<char>> {
    if options.server {
        Ok(
            ArgsView {
                input: Seq::empty(),
                preset: Seq::empty(),
                output: Seq::empty(),
                quality: options.quality,
                resize: options.resize,
                server: true,
            },
        )
    } else if options.input is None {
        Err("--input is required"@)
    } else if options.preset is None {
        Err("--preset is required"@)
    } else if options.output is None {
        Err("--output is required"@)
    } else {
        Ok(
            ArgsView {
                input: options.input->0,
                preset: options.preset->0,
                output: options.output->0,
                quality: options.quality,
                resize: options.resize,
                server: false,
            },
        )
    }
}

/// What a command line asks for, or why it is refused.
pub open spec fn parsed(words: Seq<Seq<char>>) -> Result<InvocationView, Seq<char>> {
    match scanned_line(words) {
        ScanView::Complete(options) => match completed(options) {
            Ok(args) => Ok(InvocationView::Run(args)),
            Err(reason) => Err(reason),
        },
        ScanView::Help => Ok(InvocationView::Help),
        ScanView::Refused(reason) => Err(reason),
        ScanView::NoValue => Err(Seq::empty()),
    }
}

/// The flag that a word stands for.
pub fn flag_of(word: &str) -> (flag: Option<Flag>)
    ensures
        flag == flag_named(word@),
{
    if same_text(word, "--input") || same_text(word, "-i") {
        Some(Flag::Input)
    } else if same_text(word, "--preset") || same_text(word, "-p") {
        Some(Flag::Preset)
    } else if same_text(word, "--output") || same_text(word, "-o") {
        Some(Flag::Output)
    } else if same_text(word, "--quality") || same_text(word, "-q") {
        Some(Flag::Quality)
    } else if same_text(word, "--resize") || same_text(word, "-r") {
        Some(Flag::Resize)
    } else if same_text(word, "--server") || same_text(word, "-s") {
        Some(Flag::Server)
    } else if same_text(word, "--help") || same_text(word, "-h") {
        Some(Flag::Help)
    } else {
        None
    }
}

/// Sets what a flag with a value sets, or says why the value is refused.
fn apply(options: &mut Options, flag: Flag, value: &String) -> (refusal: Option<String>)
    ensures
        match refusal {
            Some(reason) => set_by(old(options)@, flag, value@) == Err::<OptionsView, Seq<char>>(
                reason@,
            ),
            None => set_by(old(options)@, flag, value@) == Ok::<OptionsView, Seq<char>>(
                final(options)@,
            ),
        },
{
    match flag {
        Flag::Input => {
            options.input = Some(value.clone());
            None
        },
        Flag::Preset => {
            options.preset = Some(value.clone());
            None
        },
        Flag::Output => {
            options.output = Some(value.clone());
            None
        },
        Flag::Quality => match parse_unsigned(value.as_str(), 100) {
            Some(quality) => if quality >= 1 {
                options.quality = quality as u8;
                None
            } else {
                Some("Invalid --quality (1–100)".to_string())
            },
            None => Some("Invalid --quality (1–100)".to_string()),
        },
        Flag::Resize => match parse_unsigned(value.as_str(), 0xffff_ffff) {
            Some(edge) => {
                options.resize = Some(edge);
                None
            },
            None => Some("Invalid --resize (pixels)".to_string()),
        },
        _ => None,
    }
}

/// Reads the flags of a command line, whose first word is the program.
pub fn scan(argv: &Vec<String>) -> (outcome: Scan)
    ensures
        outcome@ == scanned_line(argv.deep_view()),
{
    let ghost words = argv.deep_view();
    let mut options = Options {
        input: None,
        preset: None,
        output: None,
        quality: default_quality(),
        resize: None,
        server: false,
    };
    let mut at: usize = 1;
    while at < argv.len()
        invariant
            words == argv.deep_view(),
            words.len() == argv.len(),
            forall|i: int| 0 <= i < words.len() ==> #[trigger] words[i] == argv[i]@,
            1 <= at,
            scanned_line(words) == scanned(words, at as int, options@),
        decreases argv.len() - at,
    {
        let word = argv[at].as_str();
        match flag_of(word) {
            None => {
                let mut reason = "Unknown argument: ".to_string();
                reason.append(word);
                return Scan::Refused(reason);
            },
            Some(Flag::Help) => {
                return Scan::Help;
            },
            Some(Flag::Server) => {
                options.server = true;
                at = at + 1;
            },
            Some(flag) => {
                if argv.len() - at <= 1 {
                    return Scan::NoValue;
                }
                match apply(&mut options, flag, &argv[at + 1]) {
                    Some(reason) => {
                        return Scan::Refused(reason);
                    },
                    None => {},
                }
                if argv.len() - at <= 2 {
                    assert(scanned(words, at + 2, options@) == ScanView::Complete(options@));
                    return Scan::Complete(options);
                }
                at = at + 2;
            },
        }
    }
    Scan::Complete(options)
}

/// Turns options that were all read into arguments, or says what is missing.
pub fn complete(options: Options) -> (args: Result<Args, String>)
    ensures
        match args {
            Ok(made) => completed(options@) == Ok::<ArgsView, Seq<char>>(made@),
            Err(reason) => completed(options@) == Err::<ArgsView, Seq<char>>(reason@),
        },
{
    if options.server {
        return Ok(
            Args {
                input: String::new(),
                preset: String::new(),
                output: String::new(),
                quality: options.quality,
                resize: options.resize,
                server: true,
            },
        );
    }
    let input = match options.input {
        Some(path) => path,
        None => {
            return Err("--input is required".to_string());
        },
    };
    let preset = match options.preset {
        Some(path) => path,
        None => {
            return Err("--preset is required".to_string());
        },
    };
    let output = match options.output {
        Some(path) => path,
        None => {
            return Err("--output is required".to_string());
        },
    };
    Ok(
        Args {
            input,
            preset,
            output,
            quality: options.quality,
            resize: options.resize,
            server: false,
        },
    )
}

/// Whether reading a command line runs into a flag that lacks its value.
pub fn lacks_value(argv: &Vec<String>) -> (lacks: bool)
    ensures
        lacks == (scanned_line(argv.deep_view()) is NoValue),
{
    match scan(argv) {
        Scan::NoValue => true,
        _ => false,
    }
}

/// Reads a command line, whose first word is the program.
pub fn parse_args(argv: &Vec<String>) -> (invocation: Result<Invocation, String>)
    requires
        !(scanned_line(argv.deep_view()) is NoValue),
    ensures
        match invocation {
            Ok(asked) => parsed(argv.deep_view()) == Ok::<InvocationView, Seq<char>>(asked@),
            Err(reason) => parsed(argv.deep_view()) == Err::<InvocationView, Seq<char>>(reason@),
        },
{
    match scan(argv) {
        Scan::Complete(options) => match complete(options) {
            Ok(args) => Ok(Invocation::Run(args)),
            Err(reason) => Err(reason),
        },
        Scan::Help => Ok(Invocation::Help),
        Scan::Refused(reason) => Err(reason),
        Scan::NoValue => Err(String::new()),
    }
}

} // verus!
