//! The parser: one pass over the tokens of a command line, from left to right.
//!
//! Every token is classified by its first two characters alone. A token that begins with a dash
//! names flags; any other token selects the command or, behind a command that takes one, is its
//! value. The first token that cannot be placed ends the pass.
use vstd::prelude::*;
use crate::cli::{
    is_first_argument, is_first_flag, lookup_argument, lookup_flag, CliView, FlagView, CLI,
};
use crate::text::{substring, texts};

verus! {

/// Why a command line was refused.
#[derive(Debug, Clone, PartialEq, Eq)]
pub enum ParseError {
    /// A flag, behind two dashes or as one letter of a bundle, is no spelling of any
    /// registered flag. Holds the text that was not found.
    InvalidFlag(String),
    /// The first word is neither a registered command nor `help`. Holds the word.
    UnrecognizedArgument(String),
    /// A further word came behind the command, where the command takes no value or already
    /// has one.
    ExcessArguments,
    /// A command that needs its value was given none. The parser never reports this by itself:
    /// it is for the command's own check, see [`require_value`].
    MissingArgument,
    /// The command line selected no command.
    NoArgumentGiven,
}

/// A [`ParseError`] with its text as characters.
pub enum ErrorView {
    InvalidFlag(Seq<char>),
    UnrecognizedArgument(Seq<char>),
    ExcessArguments,
    MissingArgument,
    NoArgumentGiven,
}

impl View for ParseError {
    type V = ErrorView;

    open spec fn view(&self) -> ErrorView {
        match self {
            ParseError::InvalidFlag(text) => ErrorView::InvalidFlag(text@),
            ParseError::UnrecognizedArgument(text) => ErrorView::UnrecognizedArgument(text@),
            ParseError::ExcessArguments => ErrorView::ExcessArguments,
            ParseError::MissingArgument => ErrorView::MissingArgument,
            ParseError::NoArgumentGiven => ErrorView::NoArgumentGiven,
        }
    }
}

/// What one token is, by its first two characters.
#[derive(Debug, Clone, PartialEq, Eq)]
pub enum Token {
    /// Two dashes and a name: the name, which may be empty.
    Long(String),
    /// One dash and one or more letters, the first of them no dash: the letters.
    Bundle(String),
    /// A dash and nothing else. It is passed over.
    Dash,
    /// Anything that does not begin with a dash: a command, `help`, or a value.
    Word,
}

/// A [`Token`] with its text as characters.
pub enum TokenView {
    Long(Seq<char>),
    Bundle(Seq<char>),
    Dash,
    Word,
}

impl View for Token {
    type V = TokenView;

    open spec fn view(&self) -> TokenView {
        match self {
            Token::Long(name) => TokenView::Long(name@),
            Token::Bundle(letters) => TokenView::Bundle(letters@),
            Token::Dash => TokenView::Dash,
            Token::Word => TokenView::Word,
        }
    }
}

/// How a token is classified.
pub open spec fn spec_classify(token: Seq<char>) -> TokenView {
    if token.len() == 0 || token[0] != '-' {
        TokenView::Word
    } else if token.len() == 1 {
        TokenView::Dash
    } else if token[1] == '-' {
        TokenView::Long(token.skip(2))
    } else {
        TokenView::Bundle(token.skip(1))
    }
}

/// Classifies one token.
pub fn classify(token: &String) -> (r: Token)
    ensures
        r@ == spec_classify(token@),
{
    let s = token.as_str();
    let n = s.unicode_len();
    if n == 0 || s.get_char(0) != '-' {
        Token::Word
    } else if n == 1 {
        Token::Dash
    } else if s.get_char(1) == '-' {
        let name = String::from_str(substring(s, 2, n));
        assert(name@ =~= token@.skip(2));
        Token::Long(name)
    } else {
        let letters = String::from_str(substring(s, 1, n));
        assert(letters@ =~= token@.skip(1));
        Token::Bundle(letters)
    }
}

/// The slot of the flag that the letter at position `j` of `letters` spells, if any.
pub open spec fn letter_slot(flags: Seq<FlagView>, letters: Seq<char>, j: int) -> Option<int> {
    lookup_flag(flags, seq![letters[j]])
}

/// Whether position `j` holds the first letter of `letters` that spells no flag.
pub open spec fn is_first_unknown(flags: Seq<FlagView>, letters: Seq<char>, j: int) -> bool {
    &&& 0 <= j < letters.len()
    &&& letter_slot(flags, letters, j) is None
    &&& forall|k: int| 0 <= k < j ==> #[trigger] letter_slot(flags, letters, k) is Some
}

/// What a bundle of letters names: the slot of each letter's flag, in the order of the
/// letters, or the first letter that spells no flag.
pub open spec fn spec_bundle(flags: Seq<FlagView>, letters: Seq<char>) -> Result<
    Seq<int>,
    Seq<char>,
> {
    if exists|j: int| is_first_unknown(flags, letters, j) {
        let j = choose|j: int| is_first_unknown(flags, letters, j);
        Err(seq![letters[j]])
    } else {
        Ok(Seq::new(letters.len(), |j: int| letter_slot(flags, letters, j)->0))
    }
}

/// The first unknown letter of a bundle is the one that the bundle is refused for.
pub proof fn lemma_first_unknown(flags: Seq<FlagView>, letters: Seq<char>, j: int)
    requires
        is_first_unknown(flags, letters, j),
    ensures
        spec_bundle(flags, letters) == Err::<Seq<int>, Seq<char>>(seq![letters[j]]),
{
    let c = choose|c: int| is_first_unknown(flags, letters, c);
    assert(is_first_unknown(flags, letters, c));
    if c < j {
        assert(letter_slot(flags, letters, c) is Some);
    }
    if j < c {
        assert(letter_slot(flags, letters, j) is Some);
    }
}

/// The slots in a vector, as integers.
pub open spec fn slots(v: Seq<usize>) -> Seq<int> {
    Seq::new(v.len(), |i: int| v[i] as int)
}

/// The characters of an optional string.
pub open spec fn optional_text(value: Option<String>) -> Option<Seq<char>> {
    match value {
        Some(text) => Some(text@),
        None => None,
    }
}

impl CLI {
    /// Looks up each letter of a bundle as a spelling of one character, in order, and returns
    /// the slots of the flags found. Stops at the first letter that spells no flag and returns
    /// that letter.
    pub fn handle_bundle(&self, letters: &String) -> (r: Result<Vec<usize>, String>)
        ensures
            match r {
                Ok(found) => spec_bundle(self@.flags, letters@) == Ok::<Seq<int>, Seq<char>>(
                    slots(found@),
                ),
                Err(letter) => spec_bundle(self@.flags, letters@) == Err::<Seq<int>, Seq<char>>(
                    letter@,
                ),
            },
            r is Ok ==> forall|k: int|
                0 <= k < r->Ok_0@.len() ==> 0 <= #[trigger] slots(r->Ok_0@)[k] < self@.flags.len(),
    {
        let s = letters.as_str();
        let n = s.unicode_len();
        let mut found: Vec<usize> = Vec::new();
        let mut k: usize = 0;
        while k < n
            invariant
                k <= n,
                n == letters@.len(),
                s@ == letters@,
                found@.len() == k,
                forall|m: int|
                    0 <= m < k ==> #[trigger] letter_slot(self@.flags, letters@, m) == Some(
                        found@[m] as int,
                    ),
                forall|m: int| 0 <= m < k ==> 0 <= #[trigger] found@[m] < self@.flags.len(),
            decreases n - k,
        {
            let letter = String::from_str(substring(s, k, k + 1));
            assert(letter@ =~= seq![letters@[k as int]]);
            match self.handle_flag(&letter) {
                Some(i) => {
                    found.push(i);
                },
                None => {
                    proof {
                        assert(is_first_unknown(self@.flags, letters@, k as int));
                        lemma_first_unknown(self@.flags, letters@, k as int);
                    }
                    return Err(letter);
                },
            }
            k += 1;
        }
        proof {
            assert forall|j: int| !is_first_unknown(self@.flags, letters@, j) by {
                if 0 <= j < letters@.len() {
                    assert(letter_slot(self@.flags, letters@, j) is Some);
                }
            }
            assert(slots(found@) =~= Seq::new(
                letters@.len(),
                |j: int| letter_slot(self@.flags, letters@, j)->0,
            ));
        }
        Ok(found)
    }
}

/// What the parser has gathered so far: the selected command, the matched flags in the order
/// of their tokens, and the command's value. Commands and flags are named by their slots in
/// the registries.
#[derive(Debug, Clone, PartialEq, Eq)]
pub struct ParseResult {
    /// The slot of the selected command, once there is one.
    pub command: Option<usize>,
    /// The slots of the matched flags. A flag that was given twice stands twice.
    pub flags: Vec<usize>,
    /// The value behind the command.
    pub value: Option<String>,
}

/// A [`ParseResult`] as plain values.
pub struct ParseState {
    pub command: Option<int>,
    pub flags: Seq<int>,
    pub value: Option<Seq<char>>,
}

impl View for ParseResult {
    type V = ParseState;

    open spec fn view(&self) -> ParseState {
        ParseState {
            command: match self.command {
                Some(c) => Some(c as int),
                None => None,
            },
            flags: slots(self.flags@),
            value: optional_text(self.value),
        }
    }
}

impl ParseState {
    /// The state before the first token.
    pub open spec fn fresh() -> ParseState {
        ParseState { command: None, flags: Seq::empty(), value: None }
    }

    /// Whether the state belongs to the registries of `cli`: its command and its flags are
    /// slots of them, and it holds a value only for a command that takes one.
    pub open spec fn fits(self, cli: CliView) -> bool {
        &&& self.command is Some ==> 0 <= self.command->0 < cli.arguments.len()
        &&& forall|k: int|
            0 <= k < self.flags.len() ==> 0 <= #[trigger] self.flags[k] < cli.flags.len()
        &&& self.value is Some ==> self.command is Some && cli.arguments[self.command->0].arg
    }
}

/// Where the pass stands after a token.
#[derive(Debug, Clone, PartialEq, Eq)]
pub enum Scan {
    /// The token was placed; the pass goes on from this state.
    Continue(ParseResult),
    /// The token asked for the help. The pass is over and no command runs.
    Help,
    /// The token could not be placed. The pass is over and what was gathered is dropped.
    Fail(ParseError),
}

/// A [`Scan`] as plain values.
pub enum ScanView {
    Continue(ParseState),
    Help,
    Fail(ErrorView),
}

impl View for Scan {
    type V = ScanView;

    open spec fn view(&self) -> ScanView {
        match self {
            Scan::Continue(state) => ScanView::Continue(state@),
            Scan::Help => ScanView::Help,
            Scan::Fail(error) => ScanView::Fail(error@),
        }
    }
}

/// What one token does to the state.
pub open spec fn spec_step(cli: CliView, state: ParseState, token: Seq<char>) -> ScanView {
    match spec_classify(token) {
        TokenView::Long(name) => match lookup_flag(cli.flags, name) {
            Some(i) => ScanView::Continue(ParseState { flags: state.flags.push(i), ..state }),
            None => ScanView::Fail(ErrorView::InvalidFlag(name)),
        },
        TokenView::Bundle(letters) => match spec_bundle(cli.flags, letters) {
            Ok(found) => ScanView::Continue(ParseState { flags: state.flags + found, ..state }),
            Err(letter) => ScanView::Fail(ErrorView::InvalidFlag(letter)),
        },
        TokenView::Dash => ScanView::Continue(state),
        TokenView::Word => match state.command {
            None => if token == "help"@ {
                ScanView::Help
            } else {
                match lookup_argument(cli.arguments, token) {
                    Some(i) => ScanView::Continue(ParseState { command: Some(i), ..state }),
                    None => ScanView::Fail(ErrorView::UnrecognizedArgument(token)),
                }
            },
            Some(c) => if cli.arguments[c].arg && state.value is None {
                ScanView::Continue(ParseState { value: Some(token), ..state })
            } else {
                ScanView::Fail(ErrorView::ExcessArguments)
            },
        },
    }
}

/// Where the pass stands after all of `tokens`: each token is placed from the state that the
/// tokens before it left, and nothing is read behind the token that ended the pass.
pub open spec fn spec_scan(cli: CliView, tokens: Seq<Seq<char>>) -> ScanView
    decreases tokens.len(),
{
    if tokens.len() == 0 {
        ScanView::Continue(ParseState::fresh())
    } else {
        match spec_scan(cli, tokens.drop_last()) {
            ScanView::Continue(state) => spec_step(cli, state, tokens.last()),
            stopped => stopped,
        }
    }
}

/// A pass that has ended is not changed by the tokens behind it.
pub proof fn lemma_scan_stops(cli: CliView, tokens: Seq<Seq<char>>, n: int)
    requires
        0 <= n <= tokens.len(),
        !(spec_scan(cli, tokens.take(n)) is Continue),
    ensures
        spec_scan(cli, tokens) == spec_scan(cli, tokens.take(n)),
    decreases tokens.len(),
{
    if n == tokens.len() {
        assert(tokens.take(n) =~= tokens);
    } else {
        assert(tokens.drop_last().take(n) =~= tokens.take(n));
        lemma_scan_stops(cli, tokens.drop_last(), n);
    }
}

/// A token that is placed leaves a state that belongs to the registries.
pub proof fn lemma_step_fits(cli: CliView, state: ParseState, token: Seq<char>)
    requires
        state.fits(cli),
    ensures
        spec_step(cli, state, token) is Continue ==> spec_step(cli, state, token)->Continue_0.fits(
            cli,
        ),
{
    match spec_classify(token) {
        TokenView::Long(name) => {
            if let Some(i) = lookup_flag(cli.flags, name) {
                assert(is_first_flag(cli.flags, name, i));
            }
        },
        TokenView::Bundle(letters) => {
            if let Ok(found) = spec_bundle(cli.flags, letters) {
                assert forall|k: int| 0 <= k < found.len() implies 0 <= #[trigger] found[k]
                    < cli.flags.len() by {
                    assert(!is_first_unknown(cli.flags, letters, k));
                    lemma_letter_known(cli.flags, letters, k);
                    let name = seq![letters[k]];
                    assert(is_first_flag(cli.flags, name, found[k]));
                }
            }
        },
        TokenView::Dash => {},
        TokenView::Word => {
            if state.command is None && token != "help"@ {
                if let Some(i) = lookup_argument(cli.arguments, token) {
                    assert(is_first_argument(cli.arguments, token, i));
                }
            }
        },
    }
}

/// In a bundle with no unknown letter every letter spells a flag.
pub proof fn lemma_letter_known(flags: Seq<FlagView>, letters: Seq<char>, j: int)
    requires
        0 <= j < letters.len(),
        forall|k: int| !is_first_unknown(flags, letters, k),
    ensures
        letter_slot(flags, letters, j) is Some,
    decreases j,
{
    if letter_slot(flags, letters, j) is None {
        assert forall|k: int| 0 <= k < j implies #[trigger] letter_slot(flags, letters, k)
            is Some by {
            lemma_letter_known(flags, letters, k);
        }
        assert(is_first_unknown(flags, letters, j));
    }
}

impl ParseResult {
    /// The state before the first token: no command, no flag, no value.
    pub fn new() -> (r: ParseResult)
        ensures
            r@ == ParseState::fresh(),
    {
        let r = ParseResult { command: None, flags: Vec::new(), value: None };
        assert(r@.flags =~= Seq::<int>::empty());
        r
    }

    /// Whether the state belongs to the registries of `cli`: see [`ParseState::fits`]. A state
    /// that [`CLI::step`] is to go on from has to.
    pub fn fits(&self, cli: &CLI) -> (r: bool)
        ensures
            r == self@.fits(cli@),
    {
        match self.command {
            Some(c) => {
                if c >= cli.arguments.len() {
                    return false;
                }
                if self.value.is_some() && !cli.arguments[c].arg {
                    return false;
                }
            },
            None => {
                if self.value.is_some() {
                    return false;
                }
            },
        }
        let mut k: usize = 0;
        while k < self.flags.len()
            invariant
                k <= self.flags.len(),
                forall|m: int| 0 <= m < k ==> 0 <= #[trigger] self@.flags[m] < cli@.flags.len(),
            decreases self.flags.len() - k,
        {
            if self.flags[k] >= cli.flags.len() {
                assert(!(self@.flags[k as int] < cli@.flags.len()));
                return false;
            }
            k += 1;
        }
        true
    }
}

/// What a command line asks the program to do.
#[derive(Debug, Clone, PartialEq, Eq)]
pub enum ParseOutcome {
    /// Run a command.
    Run {
        /// The slot of the command in the registry.
        command: usize,
        /// The slots of the matched flags, in the order of their tokens.
        flags: Vec<usize>,
        /// The value behind the command, if one was given.
        value: Option<String>,
    },
    /// Show the help and run no command.
    Help,
    /// Report the error and run no command.
    Error(ParseError),
}

/// A [`ParseOutcome`] as plain values.
pub enum OutcomeView {
    Run { command: int, flags: Seq<int>, value: Option<Seq<char>> },
    Help,
    Error(ErrorView),
}

impl View for ParseOutcome {
    type V = OutcomeView;

    open spec fn view(&self) -> OutcomeView {
        match self {
            ParseOutcome::Run { command, flags, value } => OutcomeView::Run {
                command: *command as int,
                flags: slots(flags@),
                value: optional_text(*value),
            },
            ParseOutcome::Help => OutcomeView::Help,
            ParseOutcome::Error(error) => OutcomeView::Error(error@),
        }
    }
}

impl OutcomeView {
    /// Whether what is to run belongs to the registries of `cli`: the command and the flags are
    /// slots of them, and there is a value only for a command that takes one.
    pub open spec fn fits(self, cli: CliView) -> bool {
        self matches OutcomeView::Run { command, flags, value } ==> (ParseState {
            command: Some(command),
            flags,
            value,
        }).fits(cli)
    }
}

/// What the end of the pass asks for: the selected command runs with what was gathered; with
/// no command selected the command line is refused.
pub open spec fn spec_resolve(scan: ScanView) -> OutcomeView {
    match scan {
        ScanView::Continue(state) => match state.command {
            Some(command) => OutcomeView::Run { command, flags: state.flags, value: state.value },
            None => OutcomeView::Error(ErrorView::NoArgumentGiven),
        },
        ScanView::Help => OutcomeView::Help,
        ScanView::Fail(error) => OutcomeView::Error(error),
    }
}

/// What a command line asks for: a function of the registries and the tokens alone.
pub open spec fn spec_parse(cli: CliView, tokens: Seq<Seq<char>>) -> OutcomeView {
    spec_resolve(spec_scan(cli, tokens))
}

impl Scan {
    /// Ends the pass: see [`spec_resolve`].
    pub fn resolve(self) -> (r: ParseOutcome)
        ensures
            r@ == spec_resolve(self@),
    {
        match self {
            Scan::Continue(state) => {
                let ParseResult { command, flags, value } = state;
                match command {
                    Some(command) => ParseOutcome::Run { command, flags, value },
                    None => ParseOutcome::Error(ParseError::NoArgumentGiven),
                }
            },
            Scan::Help => ParseOutcome::Help,
            Scan::Fail(error) => ParseOutcome::Error(error),
        }
    }
}

impl CLI {
    /// Places one token: see [`spec_step`].
    pub fn step(&self, state: ParseResult, token: &String) -> (r: Scan)
        requires
            state@.fits(self@),
        ensures
            r@ == spec_step(self@, state@, token@),
            r@ is Continue ==> r@->Continue_0.fits(self@),
    {
        proof {
            lemma_step_fits(self@, state@, token@);
        }
        let ParseResult { command, mut flags, value } = state;
        match classify(token) {
            Token::Long(name) => match self.handle_flag(&name) {
                Some(i) => {
                    flags.push(i);
                    let next = ParseResult { command, flags, value };
                    assert(next@.flags =~= state@.flags.push(i as int));
                    Scan::Continue(next)
                },
                None => Scan::Fail(ParseError::InvalidFlag(name)),
            },
            Token::Bundle(letters) => match self.handle_bundle(&letters) {
                Ok(mut found) => {
                    let ghost added = slots(found@);
                    flags.append(&mut found);
                    let next = ParseResult { command, flags, value };
                    assert(next@.flags =~= state@.flags + added);
                    Scan::Continue(next)
                },
                Err(letter) => Scan::Fail(ParseError::InvalidFlag(letter)),
            },
            Token::Dash => Scan::Continue(ParseResult { command, flags, value }),
            Token::Word => match command {
                None => {
                    let help = String::from_str("help");
                    if *token == help {
                        Scan::Help
                    } else {
                        match self.find_argument(token) {
                            Some(i) => Scan::Continue(
                                ParseResult { command: Some(i), flags, value },
                            ),
                            None => Scan::Fail(ParseError::UnrecognizedArgument(token.clone())),
                        }
                    }
                },
                Some(c) => {
                    if self.arguments[c].arg && value.is_none() {
                        Scan::Continue(
                            ParseResult { command, flags, value: Some(token.clone()) },
                        )
                    } else {
                        Scan::Fail(ParseError::ExcessArguments)
                    }
                },
            },
        }
    }

    /// Makes the pass over `tokens`, the words of the command line behind the program's name:
    /// see [`spec_scan`].
    pub fn scan(&self, tokens: &Vec<String>) -> (r: Scan)
        ensures
            r@ == spec_scan(self@, texts(tokens@)),
            r@ is Continue ==> r@->Continue_0.fits(self@),
    {
        let ghost all = texts(tokens@);
        let mut state = ParseResult::new();
        let mut i: usize = 0;
        while i < tokens.len()
            invariant
                i <= tokens.len(),
                all == texts(tokens@),
                spec_scan(self@, all.take(i as int)) == ScanView::Continue(state@),
                state@.fits(self@),
            decreases tokens.len() - i,
        {
            let after = self.step(state, &tokens[i]);
            proof {
                let upto = all.take(i + 1);
                assert(upto.drop_last() =~= all.take(i as int));
                assert(upto.last() == tokens@[i as int]@);
                assert(spec_scan(self@, upto) == after@);
                if !(after@ is Continue) {
                    lemma_scan_stops(self@, all, i + 1);
                }
            }
            match after {
                Scan::Continue(next) => {
                    state = next;
                },
                stopped => {
                    return stopped;
                },
            }
            i += 1;
        }
        assert(all.take(i as int) =~= all);
        Scan::Continue(state)
    }

    /// Parses a command line. `tokens` are its words behind the program's name. The outcome is
    /// a function of the tokens and of what the registries hold, see [`spec_parse`]: the same
    /// tokens on the same registries are always classified and answered alike.
    pub fn parse(&self, tokens: &Vec<String>) -> (r: ParseOutcome)
        ensures
            r@ == spec_parse(self@, texts(tokens@)),
            r@.fits(self@),
    {
        self.scan(tokens).resolve()
    }
}

/// The status with which the program ends on an outcome: 0 where a command runs or the help
/// is shown, 1 on every error.
pub open spec fn spec_exit_code(outcome: OutcomeView) -> int {
    if outcome is Error {
        1
    } else {
        0
    }
}

impl ParseOutcome {
    /// The status with which the program ends on this outcome.
    pub fn exit_code(&self) -> (r: i32)
        ensures
            r == spec_exit_code(self@),
    {
        match self {
            ParseOutcome::Error(_) => 1,
            _ => 0,
        }
    }
}

/// Whether the flag in slot `slot` of the registry is among the matched flags.
pub fn has_flag(flags: &Vec<usize>, slot: usize) -> (r: bool)
    ensures
        r == slots(flags@).contains(slot as int),
{
    let mut i: usize = 0;
    while i < flags.len()
        invariant
            i <= flags.len(),
            forall|k: int| 0 <= k < i ==> slots(flags@)[k] != slot as int,
        decreases flags.len() - i,
    {
        if flags[i] == slot {
            assert(slots(flags@)[i as int] == slot as int);
            return true;
        }
        i += 1;
    }
    false
}

/// The value of a command that cannot do without one: the value where one was given, and
/// the missing-argument error where none was.
pub fn require_value(value: &Option<String>) -> (r: Result<&String, ParseError>)
    ensures
        match *value {
            Some(text) => r == Ok::<&String, ParseError>(&text),
            None => r == Err::<&String, ParseError>(ParseError::MissingArgument),
        },
{
    match value {
        Some(text) => Ok(text),
        None => Err(ParseError::MissingArgument),
    }
}

} // verus!
