//! What holds of every command line.

use vstd::prelude::*;

use crate::args::{
    Args, ArgsView, Flag, Invocation, InvocationView, Options, OptionsView, Scan, ScanView, USAGE,
};
use crate::pipeline::Request;

verus! {

/// Whether a flag is followed by a value.
pub open spec fn takes_value(flag: Flag) -> bool {
    !(flag is Server) && !(flag is Help)
}

/// Reading from `from` on does not depend on the words before.
proof fn lemma_earlier_words_do_not_matter(
    words: Seq<Seq<char>>,
    at: int,
    word: Seq<char>,
    from: int,
    options: OptionsView,
)
    requires
        0 <= at < words.len(),
        at < from,
    ensures
        crate::args::scanned(words.update(at, word), from, options) == crate::args::scanned(
            words,
            from,
            options,
        ),
    decreases words.len() - from,
{
    if from < words.len() {
        let server = OptionsView { server: true, ..options };
        lemma_earlier_words_do_not_matter(words, at, word, from + 1, server);
        match crate::args::flag_named(words[from]) {
            Some(flag) => {
                if takes_value(flag) && from + 1 < words.len() {
                    match crate::args::set_by(options, flag, words[from + 1]) {
                        Ok(set) => {
                            lemma_earlier_words_do_not_matter(words, at, word, from + 2, set);
                        },
                        Err(_) => {},
                    }
                }
            },
            None => {},
        }
    }
}

/// The long and the short spelling of a flag mean the same: where a flag is read,
/// it can be replaced by its other spelling.
pub proof fn law_spellings_mean_the_same(
    words: Seq<Seq<char>>,
    at: int,
    spelling: Seq<char>,
    options: OptionsView,
)
    requires
        0 <= at < words.len(),
        crate::args::flag_named(words[at]) is Some,
        crate::args::flag_named(spelling) == crate::args::flag_named(words[at]),
    ensures
        crate::args::scanned(words.update(at, spelling), at, options) == crate::args::scanned(
            words,
            at,
            options,
        ),
{
    let server = OptionsView { server: true, ..options };
    lemma_earlier_words_do_not_matter(words, at, spelling, at + 1, server);
    let flag = crate::args::flag_named(words[at])->0;
    if takes_value(flag) && at + 1 < words.len() {
        match crate::args::set_by(options, flag, words[at + 1]) {
            Ok(set) => {
                lemma_earlier_words_do_not_matter(words, at, spelling, at + 2, set);
            },
            Err(_) => {},
        }
    }
}

/// A flag that is given twice counts with its later value alone.
pub proof fn law_later_value_counts(
    options: OptionsView,
    flag: Flag,
    earlier: Seq<char>,
    later: Seq<char>,
)
    requires
        crate::args::set_by(options, flag, earlier) is Ok,
    ensures
        crate::args::set_by(crate::args::set_by(options, flag, earlier)->Ok_0, flag, later)
            == crate::args::set_by(options, flag, later),
{
}

/// Different flags do not disturb each other: their order does not matter.
pub proof fn law_flags_commute(
    options: OptionsView,
    first: Flag,
    first_value: Seq<char>,
    second: Flag,
    second_value: Seq<char>,
)
    requires
        first != second,
        crate::args::set_by(options, first, first_value) is Ok,
        crate::args::set_by(options, second, second_value) is Ok,
    ensures
        crate::args::set_by(
            crate::args::set_by(options, first, first_value)->Ok_0,
            second,
            second_value,
        ) == crate::args::set_by(
            crate::args::set_by(options, second, second_value)->Ok_0,
            first,
            first_value,
        ),
{
}

/// Whether no word from `from` on stands for `flag`.
pub open spec fn unmentioned(words: Seq<Seq<char>>, from: int, flag: Flag) -> bool {
    forall|i: int|
        from <= i < words.len() ==> crate::args::flag_named(#[trigger] words[i]) != Some(flag)
}

/// What no flag mentions stays as it was.
pub proof fn law_unmentioned_stays(words: Seq<Seq<char>>, at: int, options: OptionsView)
    requires
        0 <= at,
        crate::args::scanned(words, at, options) is Complete,
    ensures
        ({
            let end = crate::args::scanned(words, at, options)->Complete_0;
            &&& unmentioned(words, at, Flag::Input) ==> end.input == options.input
            &&& unmentioned(words, at, Flag::Preset) ==> end.preset == options.preset
            &&& unmentioned(words, at, Flag::Output) ==> end.output == options.output
            &&& unmentioned(words, at, Flag::Quality) ==> end.quality == options.quality
            &&& unmentioned(words, at, Flag::Resize) ==> end.resize == options.resize
            &&& unmentioned(words, at, Flag::Server) ==> end.server == options.server
        }),
    decreases words.len() - at,
{
    if at < words.len() {
        match crate::args::flag_named(words[at]) {
            Some(Flag::Server) => {
                law_unmentioned_stays(words, at + 1, OptionsView { server: true, ..options });
            },
            Some(flag) => {
                match crate::args::set_by(options, flag, words[at + 1]) {
                    Ok(set) => {
                        law_unmentioned_stays(words, at + 2, set);
                    },
                    Err(_) => {},
                }
            },
            None => {},
        }
    }
}

/// A command line that does not mention the quality asks for the default, and one
/// that does not mention a bound on the size sets none.
pub proof fn law_defaults(words: Seq<Seq<char>>, args: ArgsView)
    requires
        crate::args::parsed(words) == Ok::<InvocationView, Seq<char>>(InvocationView::Run(args)),
    ensures
        unmentioned(words, 1, Flag::Quality) ==> args.quality == 90,
        unmentioned(words, 1, Flag::Resize) ==> args.resize is None,
        unmentioned(words, 1, Flag::Server) ==> !args.server,
{
    law_unmentioned_stays(words, 1, crate::args::unset());
}

/// A single rendering is told all three paths, and a server none.
pub proof fn law_paths(words: Seq<Seq<char>>, args: ArgsView)
    requires
        crate::args::parsed(words) == Ok::<InvocationView, Seq<char>>(InvocationView::Run(args)),
    ensures
        args.server ==> args.input.len() == 0 && args.preset.len() == 0 && args.output.len() == 0,
        !args.server ==> ({
            &&& !unmentioned(words, 1, Flag::Input)
            &&& !unmentioned(words, 1, Flag::Preset)
            &&& !unmentioned(words, 1, Flag::Output)
        }),
{
    law_unmentioned_stays(words, 1, crate::args::unset());
}

/// A server is never refused for want of a path.
pub proof fn law_server_needs_no_paths(options: OptionsView)
    requires
        options.server,
    ensures
        crate::args::completed(options) is Ok,
{
}

/// Asking for the usage settles the matter: where the flag is read, whatever was
/// set before and whatever follows.
pub proof fn law_help_settles_it(words: Seq<Seq<char>>, at: int, options: OptionsView)
    requires
        0 <= at < words.len(),
        crate::args::flag_named(words[at]) == Some(Flag::Help),
    ensures
        crate::args::scanned(words, at, options) is Help,
{
}

/// A word that is no flag is refused by name, where a flag is expected.
pub proof fn law_unknown_words_are_named(words: Seq<Seq<char>>, at: int, options: OptionsView)
    requires
        0 <= at < words.len(),
        crate::args::flag_named(words[at]) is None,
    ensures
        crate::args::scanned(words, at, options) == ScanView::Refused(
            "Unknown argument: "@ + words[at],
        ),
{
}

/// Every quality that is accepted is one from one to a hundred.
pub proof fn law_quality_is_in_range(words: Seq<Seq<char>>, args: ArgsView)
    requires
        crate::args::parsed(words) == Ok::<InvocationView, Seq<char>>(InvocationView::Run(args)),
    ensures
        1 <= args.quality <= 100,
{
    lemma_quality_in_range(words, 1, crate::args::unset());
}

/// Reading flags keeps the quality in its range.
proof fn lemma_quality_in_range(words: Seq<Seq<char>>, at: int, options: OptionsView)
    requires
        0 <= at,
        1 <= options.quality <= 100,
        crate::args::scanned(words, at, options) is Complete,
    ensures
        1 <= crate::args::scanned(words, at, options)->Complete_0.quality <= 100,
    decreases words.len() - at,
{
    if at < words.len() {
        match crate::args::flag_named(words[at]) {
            Some(Flag::Server) => {
                lemma_quality_in_range(words, at + 1, OptionsView { server: true, ..options });
            },
            Some(flag) => {
                match crate::args::set_by(options, flag, words[at + 1]) {
                    Ok(set) => {
                        lemma_quality_in_range(words, at + 2, set);
                    },
                    Err(_) => {},
                }
            },
            None => {},
        }
    }
}

/// A command line that is written out as a program and settings, each a flag with its
/// value.
pub open spec fn written_out(
    program: Seq<char>,
    settings: Seq<(Seq<char>, Seq<char>)>,
) -> Seq<Seq<char>> {
    Seq::new(
        (1 + 2 * settings.len()) as nat,
        |i: int|
            if i == 0 {
                program
            } else if i % 2 == 1 {
                settings[i / 2].0
            } else {
                settings[i / 2 - 1].1
            },
    )
}

/// How the value that a flag has in these arguments is written, if it has one.
pub open spec fn value_in(args: ArgsView, flag: Flag) -> Option<Seq<char>> {
    match flag {
        Flag::Input => Some(args.input),
        Flag::Preset => Some(args.preset),
        Flag::Output => Some(args.output),
        Flag::Quality => Some(crate::numbers::decimal_digits(args.quality as nat)),
        Flag::Resize => match args.resize {
            Some(edge) => Some(crate::numbers::decimal_digits(edge as nat)),
            None => None,
        },
        _ => None,
    }
}

/// Whether a setting gives a flag, in either spelling, the value that it has in these
/// arguments.
pub open spec fn agrees(setting: (Seq<char>, Seq<char>), args: ArgsView) -> bool {
    match crate::args::flag_named(setting.0) {
        Some(flag) => value_in(args, flag) == Some(setting.1),
        None => false,
    }
}

/// Whether one of the settings from `from` on is of this flag.
pub open spec fn is_set(settings: Seq<(Seq<char>, Seq<char>)>, from: int, flag: Flag) -> bool {
    exists|i: int|
        from <= i < settings.len() && crate::args::flag_named(#[trigger] settings[i].0) == Some(
            flag,
        )
}

/// Whether options hold what these arguments do wherever they, or a setting from `from`
/// on, have set it, and what holds before any flag is read elsewhere.
spec fn is_partly(
    options: OptionsView,
    args: ArgsView,
    settings: Seq<(Seq<char>, Seq<char>)>,
    from: int,
) -> bool {
    &&& !options.server
    &&& options.input == Some(args.input) || is_set(settings, from, Flag::Input)
    &&& options.preset == Some(args.preset) || is_set(settings, from, Flag::Preset)
    &&& options.output == Some(args.output) || is_set(settings, from, Flag::Output)
    &&& options.quality == args.quality || is_set(settings, from, Flag::Quality)
    &&& options.resize == args.resize || is_set(settings, from, Flag::Resize)
}

/// One setting less is to come.
proof fn lemma_set_here_or_later(
    settings: Seq<(Seq<char>, Seq<char>)>,
    from: int,
    flag: Flag,
)
    requires
        0 <= from < settings.len(),
        is_set(settings, from, flag),
    ensures
        crate::args::flag_named(settings[from].0) == Some(flag) || is_set(
            settings,
            from + 1,
            flag,
        ),
{
    let i = choose|i: int|
        from <= i < settings.len() && crate::args::flag_named(#[trigger] settings[i].0) == Some(
            flag,
        );
    if i > from {
        assert(is_set(settings, from + 1, flag));
    }
}

/// Reading settings that agree with arguments leads to these arguments.
proof fn lemma_settings_are_read(
    program: Seq<char>,
    settings: Seq<(Seq<char>, Seq<char>)>,
    args: ArgsView,
    from: int,
    options: OptionsView,
)
    requires
        0 <= from <= settings.len(),
        forall|i: int| 0 <= i < settings.len() ==> agrees(#[trigger] settings[i], args),
        1 <= args.quality <= 100,
        is_partly(options, args, settings, from),
    ensures
        ({
            let words = written_out(program, settings);
            let read = crate::args::scanned(words, 1 + 2 * from, options);
            &&& read matches ScanView::Complete(end)
            &&& is_partly(end, args, settings, settings.len() as int)
        }),
    decreases settings.len() - from,
{
    let words = written_out(program, settings);
    let at = 1 + 2 * from;
    if from < settings.len() {
        let setting = settings[from];
        assert(agrees(setting, args));
        assert(words[at] == setting.0);
        assert(words[at + 1] == setting.1);
        let flag = crate::args::flag_named(setting.0)->0;
        crate::numbers::law_decimal_reads_back(args.quality as nat);
        if args.resize is Some {
            crate::numbers::law_decimal_reads_back(args.resize->0 as nat);
        }
        let set = crate::args::set_by(options, flag, setting.1);
        assert(set is Ok);
        if is_set(settings, from, Flag::Input) {
            lemma_set_here_or_later(settings, from, Flag::Input);
        }
        if is_set(settings, from, Flag::Preset) {
            lemma_set_here_or_later(settings, from, Flag::Preset);
        }
        if is_set(settings, from, Flag::Output) {
            lemma_set_here_or_later(settings, from, Flag::Output);
        }
        if is_set(settings, from, Flag::Quality) {
            lemma_set_here_or_later(settings, from, Flag::Quality);
        }
        if is_set(settings, from, Flag::Resize) {
            lemma_set_here_or_later(settings, from, Flag::Resize);
        }
        lemma_settings_are_read(program, settings, args, from + 1, set->Ok_0);
    }
}

/// Parsing undoes writing out. A command line that sets what the arguments of a single
/// rendering hold, each flag in its long or its short spelling, numbers in decimal, in
/// any order, parses to these arguments, whatever the program is called. The quality may
/// be left out where it is the default, and the resizing where there is none.
pub proof fn law_parsing_undoes_writing(
    program: Seq<char>,
    settings: Seq<(Seq<char>, Seq<char>)>,
    args: ArgsView,
)
    requires
        !args.server,
        1 <= args.quality <= 100,
        forall|i: int| 0 <= i < settings.len() ==> agrees(#[trigger] settings[i], args),
        is_set(settings, 0, Flag::Input),
        is_set(settings, 0, Flag::Preset),
        is_set(settings, 0, Flag::Output),
        is_set(settings, 0, Flag::Quality) || args.quality == 90,
        is_set(settings, 0, Flag::Resize) || args.resize is None,
    ensures
        crate::args::parsed(written_out(program, settings)) == Ok::<InvocationView, Seq<char>>(
            InvocationView::Run(args),
        ),
{
    lemma_settings_are_read(program, settings, args, 0, crate::args::unset());
}

/// Whether a flag is read from `at` on, where flags are expected.
pub open spec fn is_read_later(words: Seq<Seq<char>>, at: int, flag: Flag) -> bool
    decreases words.len() - at,
{
    if at >= words.len() {
        false
    } else {
        match crate::args::flag_named(words[at]) {
            Some(found) => found == flag || if takes_value(found) && at + 1 < words.len() {
                is_read_later(words, at + 2, flag)
            } else {
                is_read_later(words, at + 1, flag)
            },
            None => false,
        }
    }
}

/// The words from `at` on, without those settings of a flag that another follows.
pub open spec fn with_last_only(words: Seq<Seq<char>>, at: int, flag: Flag) -> Seq<Seq<char>>
    decreases words.len() - at,
{
    if at >= words.len() {
        Seq::empty()
    } else {
        match crate::args::flag_named(words[at]) {
            Some(found) => if !takes_value(found) || at + 1 >= words.len() {
                seq![words[at]] + with_last_only(words, at + 1, flag)
            } else if found == flag && is_read_later(words, at + 2, flag) {
                with_last_only(words, at + 2, flag)
            } else {
                seq![words[at], words[at + 1]] + with_last_only(words, at + 2, flag)
            },
            None => seq![words[at]] + with_last_only(words, at + 1, flag),
        }
    }
}

/// Whether options are the same but for what a flag sets.
spec fn same_but_for(a: OptionsView, b: OptionsView, flag: Flag) -> bool {
    &&& flag is Input || a.input == b.input
    &&& flag is Preset || a.preset == b.preset
    &&& flag is Output || a.output == b.output
    &&& flag is Quality || a.quality == b.quality
    &&& flag is Resize || a.resize == b.resize
    &&& a.server == b.server
}

/// What a flag has set does not matter where it is read again.
proof fn lemma_read_again(
    words: Seq<Seq<char>>,
    at: int,
    flag: Flag,
    a: OptionsView,
    b: OptionsView,
)
    requires
        0 <= at,
        takes_value(flag),
        is_read_later(words, at, flag),
        same_but_for(a, b, flag),
        crate::args::scanned(words, at, a) is Complete,
    ensures
        crate::args::scanned(words, at, b) == crate::args::scanned(words, at, a),
    decreases words.len() - at,
{
    let found = crate::args::flag_named(words[at])->0;
    if found is Server {
        lemma_read_again(
            words,
            at + 1,
            flag,
            OptionsView { server: true, ..a },
            OptionsView { server: true, ..b },
        );
    } else {
        let value = words[at + 1];
        let set_a = crate::args::set_by(a, found, value)->Ok_0;
        let set_b = crate::args::set_by(b, found, value)->Ok_0;
        if found == flag {
            assert(set_a == set_b);
        } else {
            lemma_read_again(words, at + 2, flag, set_a, set_b);
        }
    }
}

/// Leaving out earlier settings of a flag changes nothing of what is read.
proof fn lemma_last_setting(
    front: Seq<Seq<char>>,
    words: Seq<Seq<char>>,
    at: int,
    flag: Flag,
    options: OptionsView,
)
    requires
        0 <= at,
        takes_value(flag),
        crate::args::scanned(words, at, options) is Complete,
    ensures
        crate::args::scanned(
            front + with_last_only(words, at, flag),
            front.len() as int,
            options,
        ) == crate::args::scanned(words, at, options),
    decreases words.len() - at,
{
    let kept = with_last_only(words, at, flag);
    let line = front + kept;
    let start = front.len() as int;
    if at < words.len() {
        let found = crate::args::flag_named(words[at])->0;
        if found is Server {
            let rest = with_last_only(words, at + 1, flag);
            let longer = front.push(words[at]);
            assert(line =~= longer + rest);
            assert(line[start] == words[at]);
            lemma_last_setting(
                longer,
                words,
                at + 1,
                flag,
                OptionsView { server: true, ..options },
            );
        } else {
            let value = words[at + 1];
            let set = crate::args::set_by(options, found, value)->Ok_0;
            if found == flag && is_read_later(words, at + 2, flag) {
                lemma_read_again(words, at + 2, flag, set, options);
                lemma_last_setting(front, words, at + 2, flag, options);
            } else {
                let rest = with_last_only(words, at + 2, flag);
                let longer = front.push(words[at]).push(value);
                assert(line =~= longer + rest);
                assert(line[start] == words[at]);
                assert(line[start + 1] == value);
                lemma_last_setting(longer, words, at + 2, flag, set);
            }
        }
    }
}

/// The last setting of a flag wins: a command line that asks for work asks for the same
/// with all earlier settings of that flag left out, flags and values.
pub proof fn law_last_setting_wins(words: Seq<Seq<char>>, flag: Flag)
    requires
        words.len() > 0,
        takes_value(flag),
        crate::args::parsed(words) matches Ok(InvocationView::Run(_)),
    ensures
        crate::args::parsed(seq![words[0]] + with_last_only(words, 1, flag))
            == crate::args::parsed(words),
{
    lemma_last_setting(seq![words[0]], words, 1, flag, crate::args::unset());
}

/// What the usage says.
pub proof fn law_usage()
    ensures
        USAGE@ == "Usage: rapidraw-cli --input <image> --preset <preset.rrdata> --output <out.jpg> [options]
       rapidraw-cli --server

Options:
  --input,   -i  Input image path (RAW or JPEG/PNG/etc.)
  --preset,  -p  Preset JSON path (.rrdata sidecar or standalone preset file)
  --output,  -o  Output path (.jpg/.png/.webp/.tif)
  --quality, -q  JPEG/WebP quality 1–100 (default: 90)
  --resize,  -r  Resize long edge to N pixels before saving
  --server,  -s  Server mode: read JSON jobs from stdin, write results to stdout
  --help,    -h  Show this help

Set WGPU_BACKEND=vulkan|metal|dx12|gl to override GPU backend."@,
{
}

/// Every flag has its long and its short spelling, and no other word is a flag.
pub proof fn law_words_that_are_flags(word: Seq<char>)
    ensures
        ({
            let found = crate::args::flag_named(word);
            &&& found == Some(Flag::Input) <==> word == "--input"@ || word == "-i"@
            &&& found == Some(Flag::Preset) <==> word == "--preset"@ || word == "-p"@
            &&& found == Some(Flag::Output) <==> word == "--output"@ || word == "-o"@
            &&& found == Some(Flag::Quality) <==> word == "--quality"@ || word == "-q"@
            &&& found == Some(Flag::Resize) <==> word == "--resize"@ || word == "-r"@
            &&& found == Some(Flag::Server) <==> word == "--server"@ || word == "-s"@
            &&& found == Some(Flag::Help) <==> word == "--help"@ || word == "-h"@
        }),
{
    reveal_strlit("--input");
    reveal_strlit("-i");
    reveal_strlit("--preset");
    reveal_strlit("-p");
    reveal_strlit("--output");
    reveal_strlit("-o");
    reveal_strlit("--quality");
    reveal_strlit("-q");
    reveal_strlit("--resize");
    reveal_strlit("-r");
    reveal_strlit("--server");
    reveal_strlit("-s");
    reveal_strlit("--help");
    reveal_strlit("-h");
    assert("-i"@[1] == 'i' && "-p"@[1] == 'p' && "-o"@[1] == 'o' && "-q"@[1] == 'q');
    assert("-r"@[1] == 'r' && "-s"@[1] == 's' && "-h"@[1] == 'h');
    assert("--input"@[2] == 'i' && "--preset"@[2] == 'p' && "--output"@[2] == 'o');
    assert("--quality"@[2] == 'q' && "--resize"@[2] == 'r' && "--server"@[2] == 's');
    assert("--help"@[2] == 'h');
}

/// A path that is given is taken as it is, and sets nothing but that path.
pub proof fn law_paths_are_taken_as_given(options: OptionsView, value: Seq<char>)
    ensures
        crate::args::set_by(options, Flag::Input, value) matches Ok(set) && {
            &&& set.input == Some(value)
            &&& set.preset == options.preset && set.output == options.output
            &&& set.quality == options.quality && set.resize == options.resize
            &&& set.server == options.server
        },
        crate::args::set_by(options, Flag::Preset, value) matches Ok(set) && {
            &&& set.preset == Some(value)
            &&& set.input == options.input && set.output == options.output
            &&& set.quality == options.quality && set.resize == options.resize
            &&& set.server == options.server
        },
        crate::args::set_by(options, Flag::Output, value) matches Ok(set) && {
            &&& set.output == Some(value)
            &&& set.input == options.input && set.preset == options.preset
            &&& set.quality == options.quality && set.resize == options.resize
            &&& set.server == options.server
        },
{
}

/// A quality that is given is the number that is written, if that is one from one to a
/// hundred, and sets nothing else; anything else is refused.
pub proof fn law_quality_is_taken_as_given(options: OptionsView, value: Seq<char>)
    ensures
        match (
            crate::numbers::unsigned_value(value),
            crate::args::set_by(options, Flag::Quality, value),
        ) {
            (Some(number), Ok(set)) => {
                &&& 1 <= number <= 100
                &&& set.quality == number
                &&& set.input == options.input && set.preset == options.preset
                &&& set.output == options.output && set.resize == options.resize
                &&& set.server == options.server
            },
            (Some(number), Err(reason)) => (number < 1 || number > 100) && reason
                == "Invalid --quality (1–100)"@,
            (None, Err(reason)) => reason == "Invalid --quality (1–100)"@,
            (None, Ok(_)) => false,
        },
{
}

/// A bound that is given is the number that is written, if thirty-two bits can hold it,
/// and sets nothing else; anything else is refused.
pub proof fn law_bound_is_taken_as_given(options: OptionsView, value: Seq<char>)
    ensures
        match (
            crate::numbers::unsigned_value(value),
            crate::args::set_by(options, Flag::Resize, value),
        ) {
            (Some(number), Ok(set)) => {
                &&& number <= 0xffff_ffff
                &&& set.resize matches Some(edge) && edge == number
                &&& set.input == options.input && set.preset == options.preset
                &&& set.output == options.output && set.quality == options.quality
                &&& set.server == options.server
            },
            (Some(number), Err(reason)) => number > 0xffff_ffff && reason
                == "Invalid --resize (pixels)"@,
            (None, Err(reason)) => reason == "Invalid --resize (pixels)"@,
            (None, Ok(_)) => false,
        },
{
}

/// How a command line is read, word by word: at its end what was set holds; a flag with
/// a value takes the next word, whatever that is; the flag for serving takes none; and
/// the first word that cannot be read decides.
pub proof fn law_reading_goes_word_by_word(
    words: Seq<Seq<char>>,
    at: int,
    options: OptionsView,
)
    requires
        0 <= at,
    ensures
        ({
            let read = crate::args::scanned(words, at, options);
            if at >= words.len() {
                read == ScanView::Complete(options)
            } else {
                match crate::args::flag_named(words[at]) {
                    None => read == ScanView::Refused("Unknown argument: "@ + words[at]),
                    Some(Flag::Help) => read is Help,
                    Some(Flag::Server) => read == crate::args::scanned(
                        words,
                        at + 1,
                        OptionsView {
                            input: options.input,
                            preset: options.preset,
                            output: options.output,
                            quality: options.quality,
                            resize: options.resize,
                            server: true,
                        },
                    ),
                    Some(flag) => {
                        &&& at + 1 == words.len() ==> read is NoValue
                        &&& at + 1 < words.len() ==> match crate::args::set_by(
                            options,
                            flag,
                            words[at + 1],
                        ) {
                            Ok(set) => read == crate::args::scanned(words, at + 2, set),
                            Err(reason) => read == ScanView::Refused(reason),
                        }
                    },
                }
            }
        }),
{
}

/// What is read of the words from one on does not depend on the words before it.
pub proof fn law_earlier_words_do_not_matter(
    front: Seq<Seq<char>>,
    other: Seq<Seq<char>>,
    rest: Seq<Seq<char>>,
    at: int,
    options: OptionsView,
)
    requires
        0 <= at,
    ensures
        crate::args::scanned(front + rest, front.len() + at, options) == crate::args::scanned(
            other + rest,
            other.len() + at,
            options,
        ),
    decreases rest.len() - at,
{
    if at < rest.len() {
        let i = front.len() + at;
        let j = other.len() + at;
        assert((front + rest)[i] == rest[at]);
        assert((other + rest)[j] == rest[at]);
        law_earlier_words_do_not_matter(
            front,
            other,
            rest,
            at + 1,
            OptionsView { server: true, ..options },
        );
        if at + 1 < rest.len() {
            assert((front + rest)[i + 1] == rest[at + 1]);
            assert((other + rest)[j + 1] == rest[at + 1]);
            match crate::args::flag_named(rest[at]) {
                Some(flag) => {
                    match crate::args::set_by(options, flag, rest[at + 1]) {
                        Ok(set) => {
                            law_earlier_words_do_not_matter(front, other, rest, at + 2, set);
                        },
                        Err(_) => {},
                    }
                },
                None => {},
            }
        }
    }
}

/// A whole command line is read from its second word on, and before that nothing is set
/// but the quality, which is ninety.
pub proof fn law_reading_begins_behind_the_program(words: Seq<Seq<char>>)
    ensures
        crate::args::scanned_line(words) == crate::args::scanned(
            words,
            1,
            OptionsView {
                input: None,
                preset: None,
                output: None,
                quality: 90,
                resize: None,
                server: false,
            },
        ),
{
}

/// What complete options ask for: the paths they hold, of which none may be missing and
/// the first that is missing is named, or serving, for which there are none; and in
/// either case their quality and their bound.
pub proof fn law_what_options_ask_for(options: OptionsView)
    ensures
        match crate::args::completed(options) {
            Ok(args) => {
                &&& args.server == options.server
                &&& args.quality == options.quality
                &&& args.resize == options.resize
                &&& options.server ==> args.input.len() == 0 && args.preset.len() == 0
                    && args.output.len() == 0
                &&& !options.server ==> {
                    &&& options.input == Some(args.input)
                    &&& options.preset == Some(args.preset)
                    &&& options.output == Some(args.output)
                }
            },
            Err(reason) => {
                &&& !options.server
                &&& {
                    ||| options.input is None && reason == "--input is required"@
                    ||| options.input is Some && options.preset is None && reason
                        == "--preset is required"@
                    ||| options.input is Some && options.preset is Some && options.output is None
                        && reason == "--output is required"@
                }
            },
        },
{
}

/// What a command line comes to is what its options come to, the usage where that was
/// asked for, or the refusal.
pub proof fn law_what_a_command_line_comes_to(words: Seq<Seq<char>>)
    ensures
        match (crate::args::scanned_line(words), crate::args::parsed(words)) {
            (ScanView::Complete(options), Ok(asked)) => asked matches InvocationView::Run(args)
                && crate::args::completed(options) == Ok::<ArgsView, Seq<char>>(args),
            (ScanView::Complete(options), Err(reason)) => crate::args::completed(options) == Err::<
                ArgsView,
                Seq<char>,
            >(reason),
            (ScanView::Help, Ok(asked)) => asked is Help,
            (ScanView::Help, Err(_)) => false,
            (ScanView::Refused(told), Err(reason)) => told == reason,
            (ScanView::Refused(_), Ok(_)) => false,
            (ScanView::NoValue, _) => true,
        },
{
}

/// The rendering that arguments ask for is of their input, with their preset, to their
/// output, at their quality and with their bound.
pub proof fn law_arguments_are_rendered_as_they_ask(request: Request, args: Args)
    requires
        crate::args::is_asked(request, args),
    ensures
        request.input@ == args.input@,
        request.preset@ == args.preset@,
        request.output@ == args.output@,
        request.quality == args.quality,
        request.resize == args.resize,
{
}

/// Arguments, options and what was read are taken as they are.
pub proof fn law_arguments_are_taken_as_they_are(args: Args, options: Options, reason: String)
    ensures
        args@.input == args.input@,
        args@.preset == args.preset@,
        args@.output == args.output@,
        args@.quality == args.quality,
        args@.resize == args.resize,
        args@.server == args.server,
        match (options.input, options@.input) {
            (Some(path), Some(text)) => path@ == text,
            (None, None) => true,
            _ => false,
        },
        match (options.preset, options@.preset) {
            (Some(path), Some(text)) => path@ == text,
            (None, None) => true,
            _ => false,
        },
        match (options.output, options@.output) {
            (Some(path), Some(text)) => path@ == text,
            (None, None) => true,
            _ => false,
        },
        options@.quality == options.quality,
        options@.resize == options.resize,
        options@.server == options.server,
        (Scan::Complete(options))@ == ScanView::Complete(options@),
        (Scan::Help)@ == ScanView::Help,
        (Scan::Refused(reason))@ == ScanView::Refused(reason@),
        (Scan::NoValue)@ == ScanView::NoValue,
        (Invocation::Help)@ == InvocationView::Help,
        (Invocation::Run(args))@ == InvocationView::Run(args@),
{
}

} // verus!
