//! What holds of the parser on every registry.
use vstd::prelude::*;
use crate::cli::{
    is_first_flag, lemma_first_flag, lemma_flag_found, lookup_argument, lookup_flag, CliView, CLI,
};
use crate::parser::{
    is_first_unknown, lemma_first_unknown, lemma_scan_stops, lemma_step_fits, letter_slot,
    spec_bundle, spec_classify, spec_exit_code, spec_parse, spec_scan, spec_step, ErrorView,
    OutcomeView, ParseState, ScanView, TokenView,
};
use crate::text::texts;

verus! {

/// Whether a token is a word: it does not begin with a dash.
pub open spec fn is_word(token: Seq<char>) -> bool {
    token.len() == 0 || token[0] != '-'
}

/// The pass over a command line of one token is that token placed from the fresh state.
pub proof fn lemma_scan_one(cli: CliView, token: Seq<char>)
    ensures
        spec_scan(cli, seq![token]) == spec_step(cli, ParseState::fresh(), token),
{
    let tokens = seq![token];
    assert(tokens.drop_last() =~= Seq::<Seq<char>>::empty());
    assert(tokens.last() == token);
    assert(spec_scan(cli, tokens.drop_last()) == ScanView::Continue(ParseState::fresh()));
}

/// The pass over one more token is that token placed from where the pass stood.
pub proof fn lemma_scan_push(cli: CliView, tokens: Seq<Seq<char>>, token: Seq<char>)
    ensures
        spec_scan(cli, tokens.push(token)) == match spec_scan(cli, tokens) {
            ScanView::Continue(state) => spec_step(cli, state, token),
            stopped => stopped,
        },
{
    assert(tokens.push(token).drop_last() =~= tokens);
    assert(tokens.push(token).last() == token);
}

/// Whatever the tokens, what the pass has gathered belongs to the registries: the command and
/// every matched flag are slots of them, and a value is held only for a selected command that
/// takes one. The same holds of what is handed to a command that is to run.
pub proof fn gathered_state_fits_registries(cli: CliView, tokens: Seq<Seq<char>>)
    ensures
        spec_scan(cli, tokens) is Continue ==> spec_scan(cli, tokens)->Continue_0.fits(cli),
        spec_parse(cli, tokens).fits(cli),
    decreases tokens.len(),
{
    if tokens.len() > 0 {
        gathered_state_fits_registries(cli, tokens.drop_last());
        if let ScanView::Continue(state) = spec_scan(cli, tokens.drop_last()) {
            lemma_step_fits(cli, state, tokens.last());
        }
    }
}

/// A spelling of one character that some flag of the registry accepts, written alone behind
/// one dash, is placed without error: the pass ends with exactly one flag matched, the first
/// of the registry that accepts the spelling, and with no command and no value. With no
/// command selected, the command line as a whole is then refused for that alone. The dash
/// itself is no such spelling: two dashes begin a long name.
pub proof fn single_letter_matches_its_flag(cli: CliView, k: int, s: Seq<char>)
    requires
        0 <= k < cli.flags.len(),
        cli.flags[k].accepts(s),
        s.len() == 1,
        s[0] != '-',
    ensures
        lookup_flag(cli.flags, s) is Some,
        is_first_flag(cli.flags, s, lookup_flag(cli.flags, s)->0),
        (forall|m: int| 0 <= m < k ==> !(#[trigger] cli.flags[m]).accepts(s)) ==> lookup_flag(
            cli.flags,
            s,
        ) == Some(k),
        spec_scan(cli, seq![seq!['-'] + s]) == ScanView::Continue(
            ParseState { command: None, flags: seq![lookup_flag(cli.flags, s)->0], value: None },
        ),
        spec_parse(cli, seq![seq!['-'] + s]) == OutcomeView::Error(ErrorView::NoArgumentGiven),
{
    lemma_flag_found(cli.flags, s, k);
    if forall|m: int| 0 <= m < k ==> !(#[trigger] cli.flags[m]).accepts(s) {
        lemma_first_flag(cli.flags, s, k);
    }
    let token = seq!['-'] + s;
    let letters = token.skip(1);
    assert(letters =~= s);
    assert(seq![letters[0]] =~= s);
    assert(spec_classify(token) == TokenView::Bundle(letters));
    assert(letter_slot(cli.flags, letters, 0) is Some);
    assert forall|j: int| !is_first_unknown(cli.flags, letters, j) by {
    }
    let found = spec_bundle(cli.flags, letters)->Ok_0;
    assert(found =~= seq![lookup_flag(cli.flags, s)->0]);
    assert(Seq::<int>::empty() + found =~= found);
    lemma_scan_one(cli, token);
}

/// Two letters behind one dash, each a spelling that some flag accepts and the first of them
/// no dash, are both matched, in the order in which they stand, and nothing else is
/// gathered.
pub proof fn bundled_letters_match_in_order(cli: CliView, a: char, b: char)
    requires
        lookup_flag(cli.flags, seq![a]) is Some,
        lookup_flag(cli.flags, seq![b]) is Some,
        a != '-',
    ensures
        spec_scan(cli, seq![seq!['-', a, b]]) == ScanView::Continue(
            ParseState {
                command: None,
                flags: seq![
                    lookup_flag(cli.flags, seq![a])->0,
                    lookup_flag(cli.flags, seq![b])->0,
                ],
                value: None,
            },
        ),
{
    let token = seq!['-', a, b];
    let letters = token.skip(1);
    assert(letters =~= seq![a, b]);
    assert(spec_classify(token) == TokenView::Bundle(letters));
    assert(seq![letters[0]] =~= seq![a]);
    assert(seq![letters[1]] =~= seq![b]);
    assert(letter_slot(cli.flags, letters, 0) is Some);
    assert(letter_slot(cli.flags, letters, 1) is Some);
    assert forall|j: int| !is_first_unknown(cli.flags, letters, j) by {
    }
    let found = spec_bundle(cli.flags, letters)->Ok_0;
    assert(found =~= seq![
        lookup_flag(cli.flags, seq![a])->0,
        lookup_flag(cli.flags, seq![b])->0,
    ]);
    assert(Seq::<int>::empty() + found =~= found);
    lemma_scan_one(cli, token);
}

/// A spelling that some flag of the registry accepts, of several characters or of one,
/// written behind two dashes, matches the first flag that accepts it.
pub proof fn long_name_matches_its_flag(cli: CliView, k: int, s: Seq<char>)
    requires
        0 <= k < cli.flags.len(),
        cli.flags[k].accepts(s),
    ensures
        lookup_flag(cli.flags, s) is Some,
        is_first_flag(cli.flags, s, lookup_flag(cli.flags, s)->0),
        (forall|m: int| 0 <= m < k ==> !(#[trigger] cli.flags[m]).accepts(s)) ==> lookup_flag(
            cli.flags,
            s,
        ) == Some(k),
        spec_scan(cli, seq![seq!['-', '-'] + s]) == ScanView::Continue(
            ParseState { command: None, flags: seq![lookup_flag(cli.flags, s)->0], value: None },
        ),
{
    lemma_flag_found(cli.flags, s, k);
    if forall|m: int| 0 <= m < k ==> !(#[trigger] cli.flags[m]).accepts(s) {
        lemma_first_flag(cli.flags, s, k);
    }
    let token = seq!['-', '-'] + s;
    assert(token.skip(2) =~= s);
    assert(spec_classify(token) == TokenView::Long(s));
    assert(Seq::<int>::empty().push(lookup_flag(cli.flags, s)->0) =~= seq![
        lookup_flag(cli.flags, s)->0,
    ]);
    lemma_scan_one(cli, token);
}

/// A letter other than the dash that no flag accepts as a spelling, written behind one dash,
/// ends the pass with an invalid-flag error that names the letter, whatever was gathered
/// from the tokens before it and whatever stands behind it: the outcome holds the error and
/// nothing else, and the status is not zero.
pub proof fn unknown_letter_is_refused(
    cli: CliView,
    before: Seq<Seq<char>>,
    x: char,
    after: Seq<Seq<char>>,
)
    requires
        spec_scan(cli, before) is Continue,
        lookup_flag(cli.flags, seq![x]) is None,
        x != '-',
    ensures
        spec_parse(cli, before + seq![seq!['-', x]] + after) == OutcomeView::Error(
            ErrorView::InvalidFlag(seq![x]),
        ),
        spec_parse(cli, seq![seq!['-', x]]) == OutcomeView::Error(
            ErrorView::InvalidFlag(seq![x]),
        ),
        spec_exit_code(spec_parse(cli, before + seq![seq!['-', x]] + after)) != 0,
{
    let token = seq!['-', x];
    let letters = token.skip(1);
    assert(letters =~= seq![x]);
    assert(spec_classify(token) == TokenView::Bundle(letters));
    assert(seq![letters[0]] =~= seq![x]);
    assert(is_first_unknown(cli.flags, letters, 0));
    lemma_first_unknown(cli.flags, letters, 0);
    let state = spec_scan(cli, before)->Continue_0;
    assert(spec_step(cli, state, token) == ScanView::Fail(ErrorView::InvalidFlag(seq![x])));
    assert(spec_step(cli, ParseState::fresh(), token) == ScanView::Fail(
        ErrorView::InvalidFlag(seq![x]),
    ));
    lemma_scan_one(cli, token);
    lemma_scan_push(cli, before, token);
    let all = before + seq![token] + after;
    let n = before.len() as int + 1;
    assert(all.take(n) =~= before.push(token));
    lemma_scan_stops(cli, all, n);
}

/// A further word behind a command that takes no value is refused as one argument too many,
/// even where the word names a command or asks for help.
pub proof fn word_behind_plain_command_is_refused(
    cli: CliView,
    name: Seq<char>,
    extra: Seq<char>,
)
    requires
        is_word(name),
        is_word(extra),
        name != "help"@,
        lookup_argument(cli.arguments, name) is Some,
        !cli.arguments[lookup_argument(cli.arguments, name)->0].arg,
    ensures
        spec_parse(cli, seq![name, extra]) == OutcomeView::Error(ErrorView::ExcessArguments),
{
    lemma_scan_one(cli, name);
    assert(seq![name, extra] =~= seq![name].push(extra));
    lemma_scan_push(cli, seq![name], extra);
}

/// A word behind a command that takes a value becomes that value: the command runs with it
/// and with no flags.
pub proof fn word_behind_valued_command_is_its_value(
    cli: CliView,
    name: Seq<char>,
    value: Seq<char>,
)
    requires
        is_word(name),
        is_word(value),
        name != "help"@,
        lookup_argument(cli.arguments, name) is Some,
        cli.arguments[lookup_argument(cli.arguments, name)->0].arg,
    ensures
        spec_parse(cli, seq![name, value]) == (OutcomeView::Run {
            command: lookup_argument(cli.arguments, name)->0,
            flags: Seq::empty(),
            value: Some(value),
        }),
        spec_exit_code(spec_parse(cli, seq![name, value])) == 0,
{
    lemma_scan_one(cli, name);
    assert(seq![name, value] =~= seq![name].push(value));
    lemma_scan_push(cli, seq![name], value);
}

/// The word `help` as the only token asks for the help on every registry: no command is to
/// run, and the status is zero. Nothing behind it is read.
pub proof fn help_alone_shows_help(cli: CliView, after: Seq<Seq<char>>)
    ensures
        spec_parse(cli, seq!["help"@]) == OutcomeView::Help,
        spec_parse(cli, seq!["help"@] + after) == OutcomeView::Help,
        spec_exit_code(spec_parse(cli, seq!["help"@])) == 0,
{
    reveal_strlit("help");
    let token = "help"@;
    assert(token[0] == 'h');
    assert(spec_classify(token) == TokenView::Word);
    lemma_scan_one(cli, token);
    let all = seq![token] + after;
    assert(all.take(1) =~= seq![token]);
    lemma_scan_stops(cli, all, 1);
}

/// A command line without tokens is refused on every registry, because it selects no command.
pub proof fn empty_line_is_refused(cli: CliView)
    ensures
        spec_parse(cli, Seq::empty()) == OutcomeView::Error(ErrorView::NoArgumentGiven),
        spec_exit_code(spec_parse(cli, Seq::empty())) == 1,
{
}

/// Parsing depends on nothing but the text of the tokens and what the registries hold: two
/// programs with the same contents, given the same tokens, classify every token alike, and
/// their passes and their outcomes are the same.
pub proof fn parse_is_a_function_of_contents(
    a: CLI,
    b: CLI,
    tokens_a: Seq<String>,
    tokens_b: Seq<String>,
)
    requires
        a@ == b@,
        texts(tokens_a) == texts(tokens_b),
    ensures
        tokens_a.len() == tokens_b.len(),
        forall|i: int|
            0 <= i < tokens_a.len() ==> spec_classify(#[trigger] tokens_a[i]@) == spec_classify(
                tokens_b[i]@,
            ),
        spec_scan(a@, texts(tokens_a)) == spec_scan(b@, texts(tokens_b)),
        spec_parse(a@, texts(tokens_a)) == spec_parse(b@, texts(tokens_b)),
{
    assert(texts(tokens_a).len() == tokens_a.len());
    assert(texts(tokens_b).len() == tokens_b.len());
    assert forall|i: int| 0 <= i < tokens_a.len() implies spec_classify(
        #[trigger] tokens_a[i]@,
    ) == spec_classify(tokens_b[i]@) by {
        assert(texts(tokens_a)[i] == tokens_a[i]@);
        assert(texts(tokens_b)[i] == tokens_b[i]@);
    }
}

} // verus!
