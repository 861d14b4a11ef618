//! Resolution of the command tokens into what the run is to do.

use crate::text::{spells, texts};
use vstd::prelude::*;
use vstd::string::*;

verus! {

/// What a listing shows and how.
#[derive(Clone, Copy, Debug, PartialEq, Eq, Structural)]
pub struct Options {
    /// Entries whose name starts with `.` are listed too.
    pub show_all: bool,
    /// Each entry is shown as a long row rather than as its bare name.
    pub long_format: bool,
}

impl Default for Options {
    fn default() -> (options: Options)
        ensures
            !options.show_all,
            !options.long_format,
    {
        Options { show_all: false, long_format: false }
    }
}

/// What the command tokens ask for.
#[derive(Debug, PartialEq, Eq)]
pub enum Invocation {
    /// List the directory under these options.
    List(Options),
    /// Show the usage text and stop.
    Help,
    /// Show the version and stop.
    Version,
    /// Reject this token and stop.
    Unknown(String),
}

/// An `Invocation` with its token as a sequence of characters.
pub enum InvocationView {
    List(Options),
    Help,
    Version,
    Unknown(Seq<char>),
}

impl View for Invocation {
    type V = InvocationView;

    open spec fn view(&self) -> InvocationView {
        match self {
            Invocation::List(options) => InvocationView::List(*options),
            Invocation::Help => InvocationView::Help,
            Invocation::Version => InvocationView::Version,
            Invocation::Unknown(token) => InvocationView::Unknown(token@),
        }
    }
}

/// A token that sets an option and lets resolution go on.
pub open spec fn is_flag(token: Seq<char>) -> bool {
    token == "-a"@ || token == "-l"@
}

/// `k` is the position of the first token that is not a flag.
pub open spec fn stops_at(tokens: Seq<Seq<char>>, k: int) -> bool {
    &&& 0 <= k < tokens.len()
    &&& !is_flag(tokens[k])
    &&& forall|j: int| 0 <= j < k ==> is_flag(#[trigger] tokens[j])
}

/// What a token that is not a flag asks for.
pub open spec fn terminal(token: Seq<char>) -> InvocationView {
    if token == "-help"@ {
        InvocationView::Help
    } else if token == "-version"@ {
        InvocationView::Version
    } else {
        InvocationView::Unknown(token)
    }
}

/// What a sequence of tokens asks for. The first token that is not a flag
/// decides alone; where every token is a flag, an option is set exactly when
/// its flag occurs.
pub open spec fn resolve(tokens: Seq<Seq<char>>) -> InvocationView {
    if exists|k: int| stops_at(tokens, k) {
        terminal(tokens[choose|k: int| stops_at(tokens, k)])
    } else {
        InvocationView::List(
            Options { show_all: tokens.contains("-a"@), long_format: tokens.contains("-l"@) },
        )
    }
}

/// The four tokens that resolution knows are four different texts.
pub proof fn lemma_known_tokens_differ()
    ensures
        "-a"@ != "-l"@,
        !is_flag("-help"@),
        !is_flag("-version"@),
        "-help"@ != "-version"@,
{
    reveal_strlit("-a");
    reveal_strlit("-l");
    reveal_strlit("-help");
    reveal_strlit("-version");
    assert("-l"@[1] == 'l');
    assert("-help"@[1] == 'h');
    assert("-version"@[1] == 'v');
}

/// At most one position is the first token that is not a flag.
pub proof fn lemma_stop_unique(tokens: Seq<Seq<char>>, a: int, b: int)
    requires
        stops_at(tokens, a),
        stops_at(tokens, b),
    ensures
        a == b,
{
}

/// The first token that is not a flag decides the outcome, whatever the flags
/// before it and the tokens after it.
pub proof fn lemma_first_stop_decides(tokens: Seq<Seq<char>>, k: int)
    requires
        stops_at(tokens, k),
    ensures
        resolve(tokens) == terminal(tokens[k]),
{
    let chosen = choose|k: int| stops_at(tokens, k);
    lemma_stop_unique(tokens, chosen, k);
}

/// Resolves the command tokens, the program's name not among them, from left
/// to right.
pub fn parse_options(args: &Vec<String>) -> (parsed: Invocation)
    ensures
        parsed@ == resolve(texts(args@)),
{
    let ghost tokens = texts(args@);
    let mut options = Options::default();
    let mut i: usize = 0;
    while i < args.len()
        invariant
            i <= args.len(),
            tokens == texts(args@),
            forall|j: int| 0 <= j < i ==> is_flag(#[trigger] tokens[j]),
            options.show_all <==> exists|j: int| 0 <= j < i && tokens[j] == "-a"@,
            options.long_format <==> exists|j: int| 0 <= j < i && tokens[j] == "-l"@,
        decreases args.len() - i,
    {
        let token = &args[i];
        proof {
            lemma_known_tokens_differ();
        }
        if spells(token, "-a") {
            options.show_all = true;
        } else if spells(token, "-l") {
            options.long_format = true;
        } else {
            proof {
                lemma_first_stop_decides(tokens, i as int);
            }
            if spells(token, "-help") {
                return Invocation::Help;
            } else if spells(token, "-version") {
                return Invocation::Version;
            } else {
                return Invocation::Unknown(token.clone());
            }
        }
        i += 1;
    }
    Invocation::List(options)
}

/// An unknown token that follows flags only is rejected as it would be alone:
/// the flags before it change nothing.
pub proof fn lemma_unknown_rejected_after_flags(
    flags: Seq<Seq<char>>,
    token: Seq<char>,
    rest: Seq<Seq<char>>,
)
    requires
        forall|j: int| 0 <= j < flags.len() ==> is_flag(#[trigger] flags[j]),
        !is_flag(token),
        token != "-help"@,
        token != "-version"@,
    ensures
        resolve(flags + seq![token] + rest) == InvocationView::Unknown(token),
        resolve(flags + seq![token] + rest) == resolve(seq![token]),
{
    let tokens = flags + seq![token] + rest;
    lemma_first_stop_decides(tokens, flags.len() as int);
    lemma_first_stop_decides(seq![token], 0);
}

/// `-help` and `-version` win over the flags before them and over whatever
/// follows: no listing is asked for.
pub proof fn lemma_help_and_version_take_precedence(flags: Seq<Seq<char>>, rest: Seq<Seq<char>>)
    requires
        forall|j: int| 0 <= j < flags.len() ==> is_flag(#[trigger] flags[j]),
    ensures
        resolve(flags + seq!["-help"@] + rest) == InvocationView::Help,
        resolve(flags + seq!["-version"@] + rest) == InvocationView::Version,
{
    lemma_known_tokens_differ();
    let with_help = flags + seq!["-help"@] + rest;
    lemma_first_stop_decides(with_help, flags.len() as int);
    let with_version = flags + seq!["-version"@] + rest;
    lemma_first_stop_decides(with_version, flags.len() as int);
}

/// A listing is asked for exactly when every token is a flag, and then each
/// option is set exactly when its flag occurs, however often and in whatever
/// order.
pub proof fn lemma_flags_only(tokens: Seq<Seq<char>>)
    requires
        forall|j: int| 0 <= j < tokens.len() ==> is_flag(#[trigger] tokens[j]),
    ensures
        resolve(tokens) == InvocationView::List(
            Options { show_all: tokens.contains("-a"@), long_format: tokens.contains("-l"@) },
        ),
{
}

} // verus!
