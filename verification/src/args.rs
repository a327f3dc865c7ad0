//! Command-line options and how they are parsed.

use vstd::prelude::*;
use crate::error::CleanupError;
use crate::text::views_of;

verus! {

/// The options of one run. Built once from the command line, then only read.
#[derive(Debug, Clone, PartialEq, Eq)]
pub struct Args {
    /// Name of the manifest file, relative to the working directory.
    pub cleanup_file: String,
    /// Account for the directories without deleting them.
    pub dry: bool,
}

/// The mathematical value of an [`Args`].
pub struct Options {
    /// The characters of the manifest file's name.
    pub cleanup_file: Seq<char>,
    /// Whether deleting is suppressed.
    pub dry: bool,
}

impl View for Args {
    type V = Options;

    open spec fn view(&self) -> Options {
        Options { cleanup_file: self.cleanup_file@, dry: self.dry }
    }
}

/// The options in force when the command line sets nothing.
pub open spec fn default_options() -> Options {
    Options { cleanup_file: ".cleanup"@, dry: false }
}

/// `token` announces the manifest file name.
pub open spec fn is_file_flag(token: Seq<char>) -> bool {
    token == "-c"@ || token == "--cleanup-file"@
}

/// `token` switches dry-run on.
pub open spec fn is_dry_flag(token: Seq<char>) -> bool {
    token == "-d"@ || token == "--dry"@
}

/// Reads `tokens` from left to right, starting from the options `so_far`.
///
/// A file flag takes the token after it as the manifest name; as the last token
/// it has no value and changes nothing. A dry flag switches dry-run on. A later
/// flag overwrites an earlier one. The first token that is neither is the error.
pub open spec fn parse_flags(tokens: Seq<Seq<char>>, so_far: Options) -> Result<Options, Seq<char>>
    decreases tokens.len(),
{
    if tokens.len() == 0 {
        Ok(so_far)
    } else if is_file_flag(tokens[0]) {
        if tokens.len() == 1 {
            Ok(so_far)
        } else {
            parse_flags(tokens.skip(2), Options { cleanup_file: tokens[1], dry: so_far.dry })
        }
    } else if is_dry_flag(tokens[0]) {
        parse_flags(tokens.skip(1), Options { cleanup_file: so_far.cleanup_file, dry: true })
    } else {
        Err(tokens[0])
    }
}

/// What a whole argument vector means. Its first token names the program and is
/// not read.
pub open spec fn parse_command_line(argv: Seq<Seq<char>>) -> Result<Options, Seq<char>> {
    if argv.len() == 0 {
        Ok(default_options())
    } else {
        parse_flags(argv.skip(1), default_options())
    }
}

fn is_one_of(token: &String, short: &String, long: &String) -> (b: bool)
    ensures
        b == (token@ == short@ || token@ == long@),
{
    *token == *short || *token == *long
}

impl Args {
    /// Parses the argument vector of the process, program name included.
    ///
    /// Succeeds exactly when every token read is a known flag or the value of a
    /// file flag, and otherwise returns the first offending token.
    pub fn create_args(args: Vec<String>) -> (result: Result<Args, CleanupError>)
        ensures
            match result {
                Ok(parsed) => parse_command_line(views_of(args@)) == Ok::<Options, Seq<char>>(
                    parsed@,
                ),
                Err(CleanupError::InvalidArgument(token)) => parse_command_line(
                    views_of(args@),
                ) == Err::<Options, Seq<char>>(token@),
                Err(_) => false,
            },
    {
        let mut cleanup_file = ".cleanup".to_owned();
        let mut dry = false;
        if args.len() == 0 {
            return Ok(Args { cleanup_file, dry });
        }
        let short_file = "-c".to_owned();
        let long_file = "--cleanup-file".to_owned();
        let short_dry = "-d".to_owned();
        let long_dry = "--dry".to_owned();
        let ghost argv = views_of(args@);
        let mut i: usize = 1;
        while i < args.len()
            invariant
                1 <= i <= args.len(),
                argv == views_of(args@),
                short_file@ == "-c"@,
                long_file@ == "--cleanup-file"@,
                short_dry@ == "-d"@,
                long_dry@ == "--dry"@,
                parse_command_line(argv) == parse_flags(
                    argv.skip(i as int),
                    Options { cleanup_file: cleanup_file@, dry },
                ),
            decreases args.len() - i,
        {
            let ghost rest = argv.skip(i as int);
            let arg = &args[i];
            assert(rest[0] == arg@);
            if is_one_of(arg, &short_file, &long_file) {
                if i + 1 < args.len() {
                    assert(rest[1] == args[i + 1]@);
                    assert(rest.skip(2) =~= argv.skip(i + 2));
                    cleanup_file = args[i + 1].clone();
                    i = i + 2;
                } else {
                    i = i + 1;
                }
            } else if is_one_of(arg, &short_dry, &long_dry) {
                assert(rest.skip(1) =~= argv.skip(i + 1));
                dry = true;
                i = i + 1;
            } else {
                return Err(CleanupError::InvalidArgument(arg.clone()));
            }
        }
        Ok(Args { cleanup_file, dry })
    }
}

} // verus!
