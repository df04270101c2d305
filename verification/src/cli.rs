//! The command line.

use vstd::prelude::*;
use vstd::string::*;

verus! {

/// Which stage to stop behind.
#[derive(Debug, Clone, Copy, PartialEq, Eq, Structural)]
pub enum CompileMode {
    /// `-S`: compile to assembler source.
    Assembly,
    /// `-c`: compile and assemble.
    Object,
}

/// `-m<x>`: the memory model.
#[derive(Debug, Clone, Copy, PartialEq, Eq, Structural)]
pub enum MemoryModel {
    Tiny,
    Small,
    Compact,
    Medium,
    Large,
    Huge,
}

impl MemoryModel {
    /// Whether functions are called far, as in the medium, large and huge
    /// models.
    #[must_use]
    #[verifier::allow_in_spec]
    pub fn has_far_code(self) -> bool
        returns
            (match self {
                MemoryModel::Medium | MemoryModel::Large | MemoryModel::Huge => true,
                _ => false,
            }),
    {
        match self {
            MemoryModel::Medium | MemoryModel::Large | MemoryModel::Huge => true,
            _ => false,
        }
    }

    /// The byte by which an object file names the model.
    #[must_use]
    #[verifier::allow_in_spec]
    pub fn marker_byte(self) -> u8
        returns
            (match self {
                MemoryModel::Tiny => 0x08u8,
                MemoryModel::Small => 0x09u8,
                MemoryModel::Medium => 0x0Au8,
                MemoryModel::Compact => 0x0Bu8,
                MemoryModel::Large => 0x0Cu8,
                MemoryModel::Huge => 0x0Du8,
            }),
    {
        match self {
            MemoryModel::Tiny => 0x08u8,
            MemoryModel::Small => 0x09u8,
            MemoryModel::Medium => 0x0Au8,
            MemoryModel::Compact => 0x0Bu8,
            MemoryModel::Large => 0x0Cu8,
            MemoryModel::Huge => 0x0Du8,
        }
    }
}

/// What a command line asks for.
#[derive(Debug, Clone)]
pub struct ParsedArgs {
    pub mode: CompileMode,
    pub memory_model: MemoryModel,
    /// `-d`: equal string literals share one place.
    pub merge_strings: bool,
    /// `-D<name>` and `-D<name>=<body>`: macros defined from outside.
    pub defines: Vec<(String, String)>,
    /// `-K`: plain `char` is unsigned.
    pub unsigned_chars: bool,
    /// `-O` or `-O2`.
    pub optimize: bool,
    /// `-1` or `-2`: the instructions of the 80186 may be used.
    pub target_186: bool,
    /// `-N`: functions check for stack overflow.
    pub stack_check: bool,
    /// `-r-`: no variable lives in a register.
    pub no_reg_vars: bool,
    /// The source files in the order they were given.
    pub sources: Vec<String>,
}

/// Why a command line is refused.
#[derive(Debug)]
pub enum CliError {
    Usage,
    /// A flag that is not known.
    Unsupported(String),
    NoSource,
    NoMode,
}

impl CliError {
    /// The message as text.
    pub open spec fn text(self) -> Seq<char> {
        match self {
            CliError::Usage => "usage: bcc -S -ms <source>.C"@,
            CliError::Unsupported(flag) => "unsupported flag: "@ + flag@,
            CliError::NoSource => "missing input file"@,
            CliError::NoMode => "compile mode not specified (need -S or -c)"@,
        }
    }

    /// The message.
    #[must_use]
    pub fn message(&self) -> (r: String)
        ensures
            r@ == self.text(),
    {
        match self {
            CliError::Usage => "usage: bcc -S -ms <source>.C".to_owned(),
            CliError::Unsupported(flag) => "unsupported flag: ".to_owned().concat(flag.as_str()),
            CliError::NoSource => "missing input file".to_owned(),
            CliError::NoMode => "compile mode not specified (need -S or -c)".to_owned(),
        }
    }
}

/// What one argument means.
#[derive(Debug, Clone, Copy, PartialEq, Eq, Structural)]
pub enum Meaning {
    Mode(CompileMode),
    Model(MemoryModel),
    MergeStrings,
    UnsignedChars,
    Optimize,
    Target186,
    StackCheck,
    NoRegVars,
    /// A macro definition.
    Define,
    /// A flag that changes nothing.
    Ignored,
    /// A flag that is not known.
    Unknown,
    /// A source file.
    Source,
}

/// Whether an argument starts with two given characters.
pub open spec fn starts_with(arg: Seq<char>, a: char, b: char) -> bool {
    arg.len() >= 2 && arg[0] == a && arg[1] == b
}

/// What one argument means.
pub open spec fn meaning(arg: Seq<char>) -> Meaning {
    if arg == "-S"@ {
        Meaning::Mode(CompileMode::Assembly)
    } else if arg == "-c"@ {
        Meaning::Mode(CompileMode::Object)
    } else if arg == "-ms"@ {
        Meaning::Model(MemoryModel::Small)
    } else if arg == "-mt"@ {
        Meaning::Model(MemoryModel::Tiny)
    } else if arg == "-mc"@ {
        Meaning::Model(MemoryModel::Compact)
    } else if arg == "-mm"@ {
        Meaning::Model(MemoryModel::Medium)
    } else if arg == "-ml"@ {
        Meaning::Model(MemoryModel::Large)
    } else if arg == "-mh"@ {
        Meaning::Model(MemoryModel::Huge)
    } else if arg == "-d"@ {
        Meaning::MergeStrings
    } else if arg == "-K"@ {
        Meaning::UnsignedChars
    } else if arg == "-O"@ || arg == "-O2"@ {
        Meaning::Optimize
    } else if arg == "-1"@ || arg == "-2"@ {
        Meaning::Target186
    } else if arg == "-N"@ {
        Meaning::StackCheck
    } else if arg == "-r-"@ {
        Meaning::NoRegVars
    } else if starts_with(arg, '-', 'D') {
        Meaning::Define
    } else if arg == "-G"@ || arg == "-A"@ || arg == "-f-"@ || arg == "-N-"@ {
        Meaning::Ignored
    } else if arg.len() >= 1 && arg[0] == '-' {
        Meaning::Unknown
    } else {
        Meaning::Source
    }
}

/// Whether an argument is a given word.
fn is_word(arg: &String, word: &str) -> (r: bool)
    ensures
        r == (arg@ == word@),
{
    *arg == word.to_owned()
}

/// What one argument means.
pub fn meaning_of(arg: &String) -> (r: Meaning)
    ensures
        r == meaning(arg@),
{
    if is_word(arg, "-S") {
        return Meaning::Mode(CompileMode::Assembly);
    }
    if is_word(arg, "-c") {
        return Meaning::Mode(CompileMode::Object);
    }
    if is_word(arg, "-ms") {
        return Meaning::Model(MemoryModel::Small);
    }
    if is_word(arg, "-mt") {
        return Meaning::Model(MemoryModel::Tiny);
    }
    if is_word(arg, "-mc") {
        return Meaning::Model(MemoryModel::Compact);
    }
    if is_word(arg, "-mm") {
        return Meaning::Model(MemoryModel::Medium);
    }
    if is_word(arg, "-ml") {
        return Meaning::Model(MemoryModel::Large);
    }
    if is_word(arg, "-mh") {
        return Meaning::Model(MemoryModel::Huge);
    }
    if is_word(arg, "-d") {
        return Meaning::MergeStrings;
    }
    if is_word(arg, "-K") {
        return Meaning::UnsignedChars;
    }
    if is_word(arg, "-O") || is_word(arg, "-O2") {
        return Meaning::Optimize;
    }
    if is_word(arg, "-1") || is_word(arg, "-2") {
        return Meaning::Target186;
    }
    if is_word(arg, "-N") {
        return Meaning::StackCheck;
    }
    if is_word(arg, "-r-") {
        return Meaning::NoRegVars;
    }
    let text: &str = arg.as_str();
    let len: usize = text.unicode_len();
    if len >= 2 && text.get_char(0) == '-' && text.get_char(1) == 'D' {
        return Meaning::Define;
    }
    if is_word(arg, "-G") || is_word(arg, "-A") || is_word(arg, "-f-") || is_word(arg, "-N-") {
        return Meaning::Ignored;
    }
    if len >= 1 && text.get_char(0) == '-' {
        return Meaning::Unknown;
    }
    Meaning::Source
}

/// The position of the first `=` from position `from` on, or the length.
pub open spec fn equals_sign(s: Seq<char>, from: int) -> int
    decreases s.len() - from,
{
    if from < 0 || from >= s.len() || s[from] == '=' {
        from
    } else {
        equals_sign(s, from + 1)
    }
}

/// The name and the body of a definition, which are parted by the first `=`;
/// without one the body is empty.
pub open spec fn definition(arg: Seq<char>) -> (Seq<char>, Seq<char>)
    recommends
        arg.len() >= 2,
{
    let eq = equals_sign(arg, 2);
    (
        arg.subrange(2, eq),
        if eq < arg.len() {
            arg.subrange(eq + 1, arg.len() as int)
        } else {
            seq![]
        },
    )
}

/// The name and the body of a definition.
pub fn define(arg: &String) -> (r: (String, String))
    requires
        arg@.len() >= 2,
    ensures
        (r.0@, r.1@) == definition(arg@),
{
    let text: &str = arg.as_str();
    let len: usize = text.unicode_len();
    let mut eq: usize = 2;
    while eq < len && text.get_char(eq) != '='
        invariant
            2 <= eq <= len,
            len == text@.len(),
            text@ == arg@,
            equals_sign(arg@, 2) == equals_sign(arg@, eq as int),
        decreases len - eq,
    {
        eq += 1;
    }
    let name: String = text.substring_char(2, eq).to_owned();
    let body: String = if eq < len {
        text.substring_char(eq + 1, len).to_owned()
    } else {
        String::new()
    };
    proof {
        assert(arg@.len() == len);
        assert(equals_sign(arg@, 2) == eq);
    }
    (name, body)
}

/// The text of arguments.
pub open spec fn texts(argv: Seq<String>) -> Seq<Seq<char>> {
    argv.map_values(|a: String| a@)
}

/// Whether any argument means a given thing.
pub open spec fn asks_for(argv: Seq<Seq<char>>, wanted: Meaning) -> bool {
    exists|i: int| 0 <= i < argv.len() && meaning(#[trigger] argv[i]) == wanted
}

/// The last compile mode that is asked for.
pub open spec fn last_mode(argv: Seq<Seq<char>>) -> Option<CompileMode>
    decreases argv.len(),
{
    if argv.len() == 0 {
        None
    } else {
        match meaning(argv.last()) {
            Meaning::Mode(m) => Some(m),
            _ => last_mode(argv.drop_last()),
        }
    }
}

/// The last memory model that is asked for.
pub open spec fn last_model(argv: Seq<Seq<char>>) -> Option<MemoryModel>
    decreases argv.len(),
{
    if argv.len() == 0 {
        None
    } else {
        match meaning(argv.last()) {
            Meaning::Model(m) => Some(m),
            _ => last_model(argv.drop_last()),
        }
    }
}

/// All definitions in order.
pub open spec fn definitions(argv: Seq<Seq<char>>) -> Seq<(Seq<char>, Seq<char>)>
    decreases argv.len(),
{
    if argv.len() == 0 {
        seq![]
    } else if meaning(argv.last()) == Meaning::Define {
        definitions(argv.drop_last()).push(definition(argv.last()))
    } else {
        definitions(argv.drop_last())
    }
}

/// All source files in order.
pub open spec fn source_files(argv: Seq<Seq<char>>) -> Seq<Seq<char>>
    decreases argv.len(),
{
    if argv.len() == 0 {
        seq![]
    } else if meaning(argv.last()) == Meaning::Source {
        source_files(argv.drop_last()).push(argv.last())
    } else {
        source_files(argv.drop_last())
    }
}

/// The first flag that is not known.
pub open spec fn first_unknown(argv: Seq<Seq<char>>) -> Option<Seq<char>>
    decreases argv.len(),
{
    if argv.len() == 0 {
        None
    } else {
        match first_unknown(argv.drop_last()) {
            Some(flag) => Some(flag),
            None => if meaning(argv.last()) == Meaning::Unknown {
                Some(argv.last())
            } else {
                None
            },
        }
    }
}

/// The text of definitions.
pub open spec fn pairs(list: Seq<(String, String)>) -> Seq<(Seq<char>, Seq<char>)> {
    list.map_values(|d: (String, String)| (d.0@, d.1@))
}

impl ParsedArgs {
    /// Whether this is what a command line asks for.
    pub open spec fn answers(self, argv: Seq<Seq<char>>) -> bool {
        &&& Some(self.mode) == last_mode(argv)
        &&& self.memory_model == (match last_model(argv) {
            Some(m) => m,
            None => MemoryModel::Small,
        })
        &&& self.merge_strings == asks_for(argv, Meaning::MergeStrings)
        &&& self.unsigned_chars == asks_for(argv, Meaning::UnsignedChars)
        &&& self.optimize == asks_for(argv, Meaning::Optimize)
        &&& self.target_186 == asks_for(argv, Meaning::Target186)
        &&& self.stack_check == asks_for(argv, Meaning::StackCheck)
        &&& self.no_reg_vars == asks_for(argv, Meaning::NoRegVars)
        &&& pairs(self.defines@) == definitions(argv)
        &&& texts(self.sources@) == source_files(argv)
    }
}

/// One more argument asks for a thing exactly if it means it or one before
/// it does.
proof fn asks_for_push(argv: Seq<Seq<char>>, arg: Seq<char>, wanted: Meaning)
    ensures
        asks_for(argv.push(arg), wanted) == (asks_for(argv, wanted) || meaning(arg) == wanted),
{
    let more = argv.push(arg);
    if asks_for(argv, wanted) {
        let i = choose|i: int| 0 <= i < argv.len() && meaning(#[trigger] argv[i]) == wanted;
        assert(more[i] == argv[i]);
    }
    if meaning(arg) == wanted {
        assert(more[argv.len() as int] == arg);
    }
    if asks_for(more, wanted) {
        let i = choose|i: int| 0 <= i < more.len() && meaning(#[trigger] more[i]) == wanted;
        if i < argv.len() {
            assert(argv[i] == more[i]);
        }
    }
}

/// Whether arguments before the last have a first unknown flag, the last
/// does not change it.
proof fn first_unknown_keeps(argv: Seq<Seq<char>>, n: int)
    requires
        0 <= n <= argv.len(),
        first_unknown(argv.take(n)) is Some,
    ensures
        first_unknown(argv) == first_unknown(argv.take(n)),
    decreases argv.len(),
{
    if n < argv.len() {
        assert(argv.drop_last().take(n) =~= argv.take(n));
        first_unknown_keeps(argv.drop_last(), n);
    } else {
        assert(argv.take(n) =~= argv);
    }
}

/// Reads a command line without the name of the program. Flags may stand in
/// any order; of two modes or two models the later counts.
///
/// An unknown flag is refused before anything else, then a missing mode,
/// then a missing source file.
pub fn parse_args(argv: &[String]) -> (r: Result<ParsedArgs, CliError>)
    ensures
        r matches Ok(args) ==> {
            &&& first_unknown(texts(argv@)) is None
            &&& source_files(texts(argv@)).len() > 0
            &&& args.answers(texts(argv@))
        },
        r matches Err(e) ==> (match e {
            CliError::Unsupported(flag) => first_unknown(texts(argv@)) == Some(flag@),
            CliError::NoMode => first_unknown(texts(argv@)) is None && last_mode(texts(argv@)) is None,
            CliError::NoSource => {
                &&& first_unknown(texts(argv@)) is None
                &&& last_mode(texts(argv@)) is Some
                &&& source_files(texts(argv@)).len() == 0
            },
            CliError::Usage => false,
        }),
{
    let mut mode: Option<CompileMode> = None;
    let mut memory_model: Option<MemoryModel> = None;
    let mut merge_strings: bool = false;
    let mut unsigned_chars: bool = false;
    let mut optimize: bool = false;
    let mut target_186: bool = false;
    let mut stack_check: bool = false;
    let mut no_reg_vars: bool = false;
    let mut defines: Vec<(String, String)> = Vec::new();
    let mut sources: Vec<String> = Vec::new();
    let ghost all = texts(argv@);
    let mut i: usize = 0;
    proof {
        assert(all.take(0) =~= seq![]);
        assert(pairs(defines@) =~= seq![]);
        assert(texts(sources@) =~= seq![]);
    }
    while i < argv.len()
        invariant
            0 <= i <= argv.len(),
            all == texts(argv@),
            all.len() == argv.len(),
            first_unknown(all.take(i as int)) is None,
            mode == last_mode(all.take(i as int)),
            memory_model == last_model(all.take(i as int)),
            merge_strings == asks_for(all.take(i as int), Meaning::MergeStrings),
            unsigned_chars == asks_for(all.take(i as int), Meaning::UnsignedChars),
            optimize == asks_for(all.take(i as int), Meaning::Optimize),
            target_186 == asks_for(all.take(i as int), Meaning::Target186),
            stack_check == asks_for(all.take(i as int), Meaning::StackCheck),
            no_reg_vars == asks_for(all.take(i as int), Meaning::NoRegVars),
            pairs(defines@) == definitions(all.take(i as int)),
            texts(sources@) == source_files(all.take(i as int)),
        decreases argv.len() - i,
    {
        let arg: &String = &argv[i];
        let ghost before = all.take(i as int);
        let ghost now = all.take(i + 1);
        let ghost old_defines = defines@;
        let ghost old_sources = sources@;
        proof {
            assert(now =~= before.push(arg@));
            assert(now.drop_last() =~= before);
            assert(now.last() == arg@);
            asks_for_push(before, arg@, Meaning::MergeStrings);
            asks_for_push(before, arg@, Meaning::UnsignedChars);
            asks_for_push(before, arg@, Meaning::Optimize);
            asks_for_push(before, arg@, Meaning::Target186);
            asks_for_push(before, arg@, Meaning::StackCheck);
            asks_for_push(before, arg@, Meaning::NoRegVars);
        }
        match meaning_of(arg) {
            Meaning::Mode(m) => {
                mode = Some(m);
            },
            Meaning::Model(m) => {
                memory_model = Some(m);
            },
            Meaning::MergeStrings => {
                merge_strings = true;
            },
            Meaning::UnsignedChars => {
                unsigned_chars = true;
            },
            Meaning::Optimize => {
                optimize = true;
            },
            Meaning::Target186 => {
                target_186 = true;
            },
            Meaning::StackCheck => {
                stack_check = true;
            },
            Meaning::NoRegVars => {
                no_reg_vars = true;
            },
            Meaning::Define => {
                defines.push(define(arg));
                proof {
                    assert(pairs(defines@) =~= pairs(old_defines).push(definition(arg@)));
                }
            },
            Meaning::Ignored => {},
            Meaning::Unknown => {
                proof {
                    first_unknown_keeps(all, i + 1);
                }
                return Err(CliError::Unsupported(arg.clone()));
            },
            Meaning::Source => {
                sources.push(arg.clone());
                proof {
                    assert(texts(sources@) =~= texts(old_sources).push(arg@));
                }
            },
        }
        i += 1;
    }
    proof {
        assert(all.take(i as int) =~= all);
    }
    let Some(mode) = mode else { return Err(CliError::NoMode); };
    let memory_model: MemoryModel = match memory_model {
        Some(m) => m,
        None => MemoryModel::Small,
    };
    if sources.len() == 0 {
        return Err(CliError::NoSource);
    }
    Ok(
        ParsedArgs {
            mode,
            memory_model,
            merge_strings,
            defines,
            unsigned_chars,
            optimize,
            target_186,
            stack_check,
            no_reg_vars,
            sources,
        },
    )
}

} // verus!
