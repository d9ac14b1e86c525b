//! The command console: editing the input line, the completion list that a
//! parse leaves, and which completions are shown.
use vstd::prelude::*;

verus! {

/// A key pressed while the console has the focus.
#[derive(Debug)]
pub enum ConsoleKey {
    /// Text typed on the keyboard.
    Character(String),
    Backspace,
    Space,
    Enter,
    /// Any other key; it does nothing.
    Other,
}

/// What a key press did to the input line.
#[derive(Debug)]
pub enum ConsoleEdit {
    Unchanged,
    Edited,
    /// The line was submitted, and cleared; it holds the submitted text.
    Submit(String),
}

/// `String::push_str`: appends `text`.
#[verifier::external_body]
fn string_push_str(s: &mut String, text: &str)
    ensures
        final(s)@ == old(s)@ + text@,
{
    s.push_str(text)
}

/// `String::push`: appends one character.
#[verifier::external_body]
fn string_push(s: &mut String, c: char)
    ensures
        final(s)@ == old(s)@.push(c),
{
    s.push(c)
}

/// `String::pop`: removes and returns the last character, or returns `None`
/// on an empty string.
#[verifier::external_body]
fn string_pop(s: &mut String) -> (r: Option<char>)
    ensures
        old(s)@.len() == 0 ==> r is None && final(s)@ == old(s)@,
        old(s)@.len() > 0 ==> r == Some(old(s)@.last()) && final(s)@ == old(s)@.drop_last(),
{
    s.pop()
}

/// Applies a key press to the input line: typed text and spaces are
/// appended, backspace removes the last character, enter submits the line
/// and clears it.
pub fn type_key(input: &mut String, key: &ConsoleKey) -> (r: ConsoleEdit)
    ensures
        match key {
            ConsoleKey::Character(text) => final(input)@ == old(input)@ + text@ && r is Edited,
            ConsoleKey::Backspace => final(input)@ == (if old(input)@.len() > 0 {
                old(input)@.drop_last()
            } else {
                old(input)@
            }) && r is Edited,
            ConsoleKey::Space => final(input)@ == old(input)@.push(' ') && r is Edited,
            ConsoleKey::Enter => final(input)@ == Seq::<char>::empty() && (r matches ConsoleEdit::Submit(
                line,
            ) && line@ == old(input)@),
            ConsoleKey::Other => final(input)@ == old(input)@ && r is Unchanged,
        },
{
    match key {
        ConsoleKey::Character(text) => {
            string_push_str(input, text.as_str());
            ConsoleEdit::Edited
        },
        ConsoleKey::Backspace => {
            string_pop(input);
            ConsoleEdit::Edited
        },
        ConsoleKey::Space => {
            string_push(input, ' ');
            ConsoleEdit::Edited
        },
        ConsoleKey::Enter => {
            let mut line = String::new();
            std::mem::swap(&mut line, input);
            ConsoleEdit::Submit(line)
        },
        ConsoleKey::Other => ConsoleEdit::Unchanged,
    }
}

/// What parsing the input line gave.
#[derive(Debug)]
pub enum ParseOutcome {
    /// The line is a complete command.
    Valid,
    /// The line ended early; these tokens, written as RON strings, could
    /// come next.
    UnexpectedEnd(Vec<String>),
    /// The line holds an error.
    Invalid,
}

/// The completion state of the console.
#[derive(Debug)]
pub struct Completion {
    /// The tokens that may come next.
    pub tokens: Vec<String>,
    /// The position, in characters of the input line, where they go.
    pub offset: usize,
    /// Whether the input line is a complete command.
    pub is_valid: bool,
}

/// The string that a RON string literal denotes, or `None` when the text is
/// not one.
pub uninterp spec fn ron_string(text: Seq<char>) -> Option<Seq<char>>;

/// `ron::from_str::<String>`: decodes a RON string literal. Its result is a
/// function of the text alone, named `ron_string`.
#[verifier::external_body]
fn decode_ron_string(text: &str) -> (r: Option<String>)
    ensures
        r is Some <==> ron_string(text@) is Some,
        r matches Some(s) ==> Some(s@) == ron_string(text@),
{
    ron::from_str::<String>(text).ok()
}

/// The views of a sequence of strings.
pub open spec fn views(s: Seq<String>) -> Seq<Seq<char>> {
    s.map_values(|t: String| t@)
}

/// The decoded tokens among the first `n` of `expected`, in order; the ones
/// that do not decode are skipped.
pub open spec fn decoded_upto(expected: Seq<Seq<char>>, n: int) -> Seq<Seq<char>>
    decreases n,
{
    if n <= 0 {
        seq![]
    } else {
        decoded_upto(expected, n - 1) + match ron_string(expected[n - 1]) {
            Some(t) => seq![t],
            None => seq![],
        }
    }
}

/// Updates the completion after a parse of `input`: a valid line clears
/// the tokens; a line that ended early replaces them with the decodable
/// expected tokens, placed after the last character; an invalid line keeps
/// them.
pub fn fill_completion(completion: &mut Completion, input: &String, outcome: &ParseOutcome)
    ensures
        match outcome {
            ParseOutcome::Valid => {
                &&& final(completion).tokens@.len() == 0
                &&& final(completion).is_valid
                &&& final(completion).offset == old(completion).offset
            },
            ParseOutcome::UnexpectedEnd(expected) => {
                &&& views(final(completion).tokens@) == decoded_upto(
                    views(expected@),
                    expected@.len() as int,
                )
                &&& !final(completion).is_valid
                &&& final(completion).offset == input@.len()
            },
            ParseOutcome::Invalid => {
                &&& final(completion).tokens@ == old(completion).tokens@
                &&& !final(completion).is_valid
                &&& final(completion).offset == old(completion).offset
            },
        },
{
    match outcome {
        ParseOutcome::Valid => {
            completion.tokens = Vec::new();
            completion.is_valid = true;
        },
        ParseOutcome::UnexpectedEnd(expected) => {
            let mut tokens: Vec<String> = Vec::new();
            let mut i: usize = 0;
            while i < expected.len()
                invariant
                    0 <= i <= expected@.len(),
                    views(tokens@) == decoded_upto(views(expected@), i as int),
                decreases expected@.len() - i,
            {
                let ghost before = tokens@;
                match decode_ron_string(expected[i].as_str()) {
                    Some(token) => {
                        tokens.push(token);
                        proof {
                            assert(views(tokens@) =~= views(before).push(token@));
                        }
                    },
                    None => {},
                }
                proof {
                    assert(views(expected@)[i as int] == expected@[i as int]@);
                    assert(views(tokens@) =~= decoded_upto(views(expected@), i + 1));
                }
                i = i + 1;
            }
            completion.tokens = tokens;
            completion.is_valid = false;
            completion.offset = input.as_str().unicode_len();
        },
        ParseOutcome::Invalid => {
            completion.is_valid = false;
        },
    }
}

/// The part of the input line from character `offset` on; empty when the
/// line is shorter.
pub fn completion_start(input: &String, offset: usize) -> (r: String)
    ensures
        r@ == (if offset <= input@.len() {
            input@.subrange(offset as int, input@.len() as int)
        } else {
            Seq::<char>::empty()
        }),
{
    let line = input.as_str();
    let len = line.unicode_len();
    if offset <= len {
        line.substring_char(offset, len).to_owned()
    } else {
        String::new()
    }
}

/// Whether a character is alphabetic or numeric in the Unicode sense.
pub uninterp spec fn char_alphanumeric(c: char) -> bool;

/// `char::is_alphanumeric`: whether `c` is alphabetic or numeric in the
/// Unicode sense, named `char_alphanumeric`.
#[verifier::external_body]
fn is_alphanumeric(c: char) -> (r: bool)
    ensures
        r == char_alphanumeric(c),
{
    c.is_alphanumeric()
}

/// Whether a token is a word: letters, digits and dashes only.
pub open spec fn is_word(token: Seq<char>) -> bool {
    forall|i: int| 0 <= i < token.len() ==> char_alphanumeric(#[trigger] token[i]) || token[i] == '-'
}

/// Whether a completion token is shown for the text typed since the
/// completion offset: tokens that are not words are always shown, words
/// only when they start with that text.
pub fn completion_shown(token: &String, start: &String) -> (r: bool)
    ensures
        r <==> (!is_word(token@) || start@.is_prefix_of(token@)),
{
    let t = token.as_str();
    let s = start.as_str();
    let tlen = t.unicode_len();
    let mut word = true;
    let mut i: usize = 0;
    while i < tlen
        invariant
            0 <= i <= tlen,
            tlen == t@.len(),
            t@ == token@,
            word <==> forall|k: int| 0 <= k < i ==> char_alphanumeric(#[trigger] t@[k]) || t@[k] == '-',
        decreases tlen - i,
    {
        let c = t.get_char(i);
        if !(is_alphanumeric(c) || c == '-') {
            word = false;
        }
        i = i + 1;
    }
    if !word {
        return true;
    }
    assert(is_word(token@));
    let slen = s.unicode_len();
    if slen > tlen {
        return false;
    }
    let mut j: usize = 0;
    while j < slen
        invariant
            0 <= j <= slen <= tlen,
            slen == s@.len(),
            tlen == t@.len(),
            t@ == token@,
            s@ == start@,
            is_word(token@),
            forall|k: int| 0 <= k < j ==> s@[k] == t@[k],
        decreases slen - j,
    {
        if s.get_char(j) != t.get_char(j) {
            proof {
                assert(t@.subrange(0, slen as int)[j as int] != s@[j as int]);
            }
            return false;
        }
        j = j + 1;
    }
    proof {
        assert(t@.subrange(0, slen as int) =~= s@);
    }
    true
}

} // verus!
