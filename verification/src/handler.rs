//! Commands of a chat message, and the text that answers a request for a
//! sample.
use crate::generator::{Generate, GenerationError};
use crate::grammar;
use crate::laws::lemma_expression_sound;
use crate::parser::{parse, ParseError};
use crate::text::{
    chars_of, decimal, decimal_digits, is_space, lemma_word_end_bounds, piece, skip_spaces,
    skip_word, spaces_end, spells, string_between, trim_end, trimmed_end, word_end,
};
use rand::rngs::StdRng;
use regex::Regex;
use vstd::prelude::*;
use vstd::string::StringExecFns;
use vstd::utf8::encode_utf8;

verus! {

/// What a message asks for.
#[derive(Clone, Debug, PartialEq, Eq)]
pub enum Command {
    /// Draw a sample of the pattern.
    RandRegexp(String),
    /// Store the pattern `value` under `key`.
    Save { key: String, value: String },
    /// Draw a sample of the pattern stored under the key.
    Call(String),
    /// Forget the pattern stored under the key.
    Remove(String),
    /// Join the channel of the message.
    Join,
    /// Leave the channel of the message.
    Leave,
}

/// Mathematical counterpart of [`Command`].
pub enum CommandModel {
    RandRegexp(Seq<char>),
    Save { key: Seq<char>, value: Seq<char> },
    Call(Seq<char>),
    Remove(Seq<char>),
    Join,
    Leave,
}

impl View for Command {
    type V = CommandModel;

    open spec fn view(&self) -> CommandModel {
        match self {
            Command::RandRegexp(pattern) => CommandModel::RandRegexp(pattern@),
            Command::Save { key, value } => CommandModel::Save { key: key@, value: value@ },
            Command::Call(key) => CommandModel::Call(key@),
            Command::Remove(key) => CommandModel::Remove(key@),
            Command::Join => CommandModel::Join,
            Command::Leave => CommandModel::Leave,
        }
    }
}

/// Why a message is no command.
#[derive(Clone, Debug, PartialEq, Eq)]
pub enum CommandError {
    /// The first word does not begin with a slash. Worth an answer only when
    /// the message was addressed to the reader.
    NotACommand,
    /// No key follows the command.
    MissingKey,
    /// More than the key follows the command.
    KeyWithSpace,
    /// The command, here without its slash, is none of the known ones.
    Unknown(String),
}

/// Mathematical counterpart of [`CommandError`].
pub enum CommandErrorModel {
    NotACommand,
    MissingKey,
    KeyWithSpace,
    Unknown(Seq<char>),
}

impl View for CommandError {
    type V = CommandErrorModel;

    open spec fn view(&self) -> CommandErrorModel {
        match self {
            CommandError::NotACommand => CommandErrorModel::NotACommand,
            CommandError::MissingKey => CommandErrorModel::MissingKey,
            CommandError::KeyWithSpace => CommandErrorModel::KeyWithSpace,
            CommandError::Unknown(name) => CommandErrorModel::Unknown(name@),
        }
    }
}

/// The names under which a sample of a pattern is asked for.
pub open spec fn asks_for_sample(name: Seq<char>) -> bool {
    name == "regex"@ || name == "regexp"@ || name == "rand"@ || name == "random"@ || name
        == "randregex"@ || name == "randregexp"@
}

/// The names under which a pattern is stored.
pub open spec fn asks_to_save(name: Seq<char>) -> bool {
    name == "save"@ || name == "memory"@
}

/// The names under which a stored pattern is sampled.
pub open spec fn asks_to_call(name: Seq<char>) -> bool {
    name == "call"@ || name == "load"@
}

/// The names under which a stored pattern is forgotten.
pub open spec fn asks_to_remove(name: Seq<char>) -> bool {
    name == "remove"@ || name == "delete"@ || name == "forget"@
}

/// The names under which the channel is left.
pub open spec fn asks_to_leave(name: Seq<char>) -> bool {
    name == "leave"@ || name == "bye"@
}

/// The command that a message holds.
///
/// White space around the message does not count. The first word is a slash
/// and the name of the command. What follows it, without the white space
/// around it, is the pattern to sample; or the key, which is the next word,
/// and behind it the pattern to store.
pub open spec fn interpret(s: Seq<char>) -> Result<CommandModel, CommandErrorModel> {
    let stop = trimmed_end(s, s.len() as int);
    let start = spaces_end(s, 0);
    let name_end = word_end(s, start);
    let rest_start = spaces_end(s, name_end);
    let key_end = word_end(s, rest_start);
    let value_start = spaces_end(s, key_end);
    let name = piece(s, start + 1, name_end);
    let rest = piece(s, rest_start, stop);
    let key = piece(s, rest_start, key_end);
    let value = piece(s, value_start, stop);
    if !(0 <= start < s.len() && s[start] == '/') {
        Err(CommandErrorModel::NotACommand)
    } else if asks_for_sample(name) {
        Ok(CommandModel::RandRegexp(rest))
    } else if asks_to_save(name) {
        if key.len() == 0 {
            Err(CommandErrorModel::MissingKey)
        } else {
            Ok(CommandModel::Save { key, value })
        }
    } else if asks_to_call(name) {
        if key.len() == 0 {
            Err(CommandErrorModel::MissingKey)
        } else if value.len() > 0 {
            Err(CommandErrorModel::KeyWithSpace)
        } else {
            Ok(CommandModel::Call(rest))
        }
    } else if asks_to_remove(name) {
        if key.len() == 0 {
            Err(CommandErrorModel::MissingKey)
        } else if value.len() > 0 {
            Err(CommandErrorModel::KeyWithSpace)
        } else {
            Ok(CommandModel::Remove(rest))
        }
    } else if name == "join"@ {
        Ok(CommandModel::Join)
    } else if asks_to_leave(name) {
        Ok(CommandModel::Leave)
    } else {
        Err(CommandErrorModel::Unknown(name))
    }
}

/// The text that tells the sender what was wrong with a command.
pub open spec fn command_error_text(e: CommandErrorModel) -> Seq<char> {
    match e {
        CommandErrorModel::NotACommand => "/ で始まるコマンドが必須です"@,
        CommandErrorModel::MissingKey => "key が必須です"@,
        CommandErrorModel::KeyWithSpace => "key に空白を含めることはできません"@,
        CommandErrorModel::Unknown(name) => "unknown command /"@ + name,
    }
}

impl CommandError {
    /// Whether the error is worth an answer only when the message was
    /// addressed to the reader: a message without a slash is mostly not meant
    /// as a command at all.
    pub fn is_optional(&self) -> (b: bool)
        ensures
            b == (self@ is NotACommand),
    {
        match self {
            CommandError::NotACommand => true,
            _ => false,
        }
    }

    /// The text that tells the sender what was wrong.
    pub fn message(&self) -> (text: String)
        ensures
            text@ == command_error_text(self@),
    {
        match self {
            CommandError::NotACommand => String::from_str("/ で始まるコマンドが必須です"),
            CommandError::MissingKey => String::from_str("key が必須です"),
            CommandError::KeyWithSpace => String::from_str("key に空白を含めることはできません"),
            CommandError::Unknown(name) => {
                let mut text = String::from_str("unknown command /");
                text.append(name.as_str());
                text
            },
        }
    }
}

/// Reads the command of a message.
pub fn parse_command(input: &str) -> (r: Result<Command, CommandError>)
    ensures
        match interpret(input@) {
            Ok(c) => r matches Ok(found) && found@ == c,
            Err(e) => r matches Err(found) && found@ == e,
        },
{
    let chars = chars_of(input);
    let stop = trim_end(&chars);
    let start = skip_spaces(&chars, 0);
    if start >= chars.len() || chars[start] != '/' {
        return Err(CommandError::NotACommand);
    }
    let name_end = skip_word(&chars, start);
    let rest_start = skip_spaces(&chars, name_end);
    let key_end = skip_word(&chars, rest_start);
    let value_start = skip_spaces(&chars, key_end);
    let name_start = start + 1;
    proof {
        assert(!is_space('/'));
        assert(word_end(chars@, start as int) == word_end(chars@, start + 1));
        lemma_word_end_bounds(chars@, start + 1);
        assert(piece(chars@, name_start as int, name_end as int) =~= chars@.subrange(
            name_start as int,
            name_end as int,
        ));
    }
    if spells(&chars, name_start, name_end, "regex") || spells(
        &chars,
        name_start,
        name_end,
        "regexp",
    ) || spells(&chars, name_start, name_end, "rand") || spells(
        &chars,
        name_start,
        name_end,
        "random",
    ) || spells(&chars, name_start, name_end, "randregex") || spells(
        &chars,
        name_start,
        name_end,
        "randregexp",
    ) {
        Ok(Command::RandRegexp(string_between(&chars, rest_start, stop)))
    } else if spells(&chars, name_start, name_end, "save") || spells(
        &chars,
        name_start,
        name_end,
        "memory",
    ) {
        if rest_start >= key_end {
            Err(CommandError::MissingKey)
        } else {
            Ok(
                Command::Save {
                    key: string_between(&chars, rest_start, key_end),
                    value: string_between(&chars, value_start, stop),
                },
            )
        }
    } else if spells(&chars, name_start, name_end, "call") || spells(
        &chars,
        name_start,
        name_end,
        "load",
    ) {
        if rest_start >= key_end {
            Err(CommandError::MissingKey)
        } else if value_start < stop {
            Err(CommandError::KeyWithSpace)
        } else {
            Ok(Command::Call(string_between(&chars, rest_start, stop)))
        }
    } else if spells(&chars, name_start, name_end, "remove") || spells(
        &chars,
        name_start,
        name_end,
        "delete",
    ) || spells(&chars, name_start, name_end, "forget") {
        if rest_start >= key_end {
            Err(CommandError::MissingKey)
        } else if value_start < stop {
            Err(CommandError::KeyWithSpace)
        } else {
            Ok(Command::Remove(string_between(&chars, rest_start, stop)))
        }
    } else if spells(&chars, name_start, name_end, "join") {
        Ok(Command::Join)
    } else if spells(&chars, name_start, name_end, "leave") || spells(
        &chars,
        name_start,
        name_end,
        "bye",
    ) {
        Ok(Command::Leave)
    } else {
        Err(CommandError::Unknown(string_between(&chars, name_start, name_end)))
    }
}

/// The longest sample, in bytes, that is handed on.
pub const LENGTH_LIMIT: usize = 3000;

/// Why a request for a sample got none.
#[derive(Debug, Clone, Copy, PartialEq, Eq)]
pub enum TextError {
    /// The text is no pattern.
    Parse(ParseError),
    /// Drawing from the pattern failed.
    Generate(GenerationError),
    /// The sample has this many bytes, which is above the limit.
    TooLong(usize),
}

/// The number of bytes that hold the characters in UTF-8, as a `usize`
/// counts them.
pub open spec fn byte_length(s: Seq<char>) -> usize {
    encode_utf8(s).len() as usize
}

/// Hands on a sample of at most [`LENGTH_LIMIT`] bytes and refuses a longer
/// one.
pub fn within_limit(text: String) -> (r: Result<String, TextError>)
    ensures
        r == if byte_length(text@) <= LENGTH_LIMIT {
            Ok::<String, TextError>(text)
        } else {
            Err::<String, TextError>(TextError::TooLong(byte_length(text@)))
        },
{
    let n = text.as_str().len();
    if n > LENGTH_LIMIT {
        Err(TextError::TooLong(n))
    } else {
        Ok(text)
    }
}

/// Reads `regexp` as a pattern and draws one sample of it.
///
/// A text that is no pattern is refused with the position that reading it
/// gives. Otherwise the sample is a string that the pattern describes, of
/// at most [`LENGTH_LIMIT`] bytes; or drawing failed with an error that some
/// part of the pattern gives rise to, which is never an empty class; or the
/// string drawn was too long.
pub fn generate_text(regexp: &str, rng: &mut StdRng) -> (r: Result<String, TextError>)
    ensures
        match grammar::pattern(regexp@) {
            Err(position) => r == Err::<String, TextError>(
                TextError::Parse(ParseError { position: position as usize }),
            ),
            Ok(e) => match r {
                Ok(text) => e.produces(text@) && byte_length(text@) <= LENGTH_LIMIT,
                Err(TextError::Generate(err)) => e.can_raise(err) && err
                    != GenerationError::EmptyClass,
                Err(TextError::TooLong(n)) => n > LENGTH_LIMIT && exists|text: Seq<char>|
                    e.produces(text) && #[trigger] byte_length(text) == n,
                Err(TextError::Parse(_)) => false,
            },
        },
{
    match parse(regexp) {
        Err(e) => Err(TextError::Parse(e)),
        Ok(expression) => {
            proof {
                lemma_expression_sound(expression@);
            }
            match expression.generate(rng) {
                Err(e) => Err(TextError::Generate(e)),
                Ok(text) => {
                    let ghost drawn = text@;
                    let r = within_limit(text);
                    proof {
                        assert(r.is_err() ==> byte_length(drawn) > LENGTH_LIMIT);
                    }
                    r
                },
            }
        },
    }
}

/// The text that names a failure of drawing.
pub open spec fn generation_error_text(e: GenerationError) -> Seq<char> {
    match e {
        GenerationError::InvalidEscape => "Failed to generate: InvalidEscape"@,
        GenerationError::InvalidCodepoint => "Failed to generate: InvalidCodepoint"@,
        GenerationError::EmptyClass => "Failed to generate: EmptyClass"@,
    }
}

/// The text that tells why a request for a sample got none.
pub open spec fn text_error_text(e: TextError) -> Seq<char> {
    match e {
        TextError::Parse(p) => "Failed to parse: ParseError { position: "@ + decimal_digits(
            p.position as nat,
        ) + " }"@,
        TextError::Generate(g) => generation_error_text(g),
        TextError::TooLong(n) => "Generated text is too long: "@ + decimal_digits(n as nat)
            + " > "@ + decimal_digits(LENGTH_LIMIT as nat),
    }
}

impl TextError {
    /// The text that tells the sender why there is no sample.
    pub fn message(&self) -> (text: String)
        ensures
            text@ == text_error_text(*self),
    {
        match self {
            TextError::Parse(p) => {
                let mut text = String::from_str("Failed to parse: ParseError { position: ");
                text.append(decimal(p.position).as_str());
                text.append(" }");
                text
            },
            TextError::Generate(GenerationError::InvalidEscape) => String::from_str(
                "Failed to generate: InvalidEscape",
            ),
            TextError::Generate(GenerationError::InvalidCodepoint) => String::from_str(
                "Failed to generate: InvalidCodepoint",
            ),
            TextError::Generate(GenerationError::EmptyClass) => String::from_str(
                "Failed to generate: EmptyClass",
            ),
            TextError::TooLong(n) => {
                let mut text = String::from_str("Generated text is too long: ");
                text.append(decimal(*n).as_str());
                text.append(" > ");
                text.append(decimal(LENGTH_LIMIT).as_str());
                text
            },
        }
    }
}

/// The answer to a request for a sample: the sample, or the text that tells
/// why there is none.
pub fn sample_reply(outcome: Result<String, TextError>) -> (text: String)
    ensures
        text@ == match outcome {
            Ok(sample) => sample@,
            Err(e) => text_error_text(e),
        },
{
    match outcome {
        Ok(sample) => sample,
        Err(e) => e.message(),
    }
}

/// How storing a pattern ended.
#[derive(Debug, PartialEq, Eq)]
pub enum Stored {
    /// The pattern is stored.
    Done,
    /// The key was taken.
    Duplicate,
    /// The database failed, with this message.
    Failed(String),
}

/// The answer to a request to store `value` under `key`.
pub fn save_reply(key: &str, value: &str, outcome: &Stored) -> (text: String)
    ensures
        text@ == match *outcome {
            Stored::Done => "Saved: "@ + key@ + " => "@ + value@,
            Stored::Duplicate => "Key \""@ + key@ + "\" is already exists"@,
            Stored::Failed(error) => "Failed to save: "@ + error@,
        },
{
    match outcome {
        Stored::Done => {
            let mut text = String::from_str("Saved: ");
            text.append(key);
            text.append(" => ");
            text.append(value);
            text
        },
        Stored::Duplicate => {
            let mut text = String::from_str("Key \"");
            text.append(key);
            text.append("\" is already exists");
            text
        },
        Stored::Failed(error) => {
            let mut text = String::from_str("Failed to save: ");
            text.append(error.as_str());
            text
        },
    }
}

/// The answer to a request to forget the pattern under `key`, where the
/// database removed a row, removed none, or failed with a message.
pub fn remove_reply(key: &str, outcome: &Result<bool, String>) -> (text: String)
    ensures
        text@ == match *outcome {
            Ok(true) => "Removed: "@ + key@,
            Ok(false) => "Key \""@ + key@ + "\" is not found"@,
            Err(error) => "Failed to remove: "@ + error@,
        },
{
    match outcome {
        Ok(true) => {
            let mut text = String::from_str("Removed: ");
            text.append(key);
            text
        },
        Ok(false) => not_found_reply(key),
        Err(error) => {
            let mut text = String::from_str("Failed to remove: ");
            text.append(error.as_str());
            text
        },
    }
}

/// The answer where nothing is stored under `key`.
pub fn not_found_reply(key: &str) -> (text: String)
    ensures
        text@ == "Key \""@ + key@ + "\" is not found"@,
{
    let mut text = String::from_str("Key \"");
    text.append(key);
    text.append("\" is not found");
    text
}

/// Whether `text` can answer a request for a sample of the pattern that
/// `pattern` writes: it is a sample within the limit, or tells why there is
/// none.
pub open spec fn answers(pattern: Seq<char>, text: Seq<char>) -> bool {
    match grammar::pattern(pattern) {
        Err(position) => text == text_error_text(
            TextError::Parse(ParseError { position: position as usize }),
        ),
        Ok(e) => {
            ||| e.produces(text) && byte_length(text) <= LENGTH_LIMIT
            ||| exists|err: GenerationError|
                e.can_raise(err) && text == #[trigger] generation_error_text(err)
            ||| exists|n: usize|
                n > LENGTH_LIMIT && text == #[trigger] text_error_text(TextError::TooLong(n))
        },
    }
}

/// The answer to a request for a sample of the pattern stored under `key`,
/// where the database found the pattern, found none, or failed with a
/// message.
pub fn call_reply(key: &str, found: Result<Option<String>, String>, rng: &mut StdRng) -> (text:
    String)
    ensures
        match found {
            Ok(Some(pattern)) => answers(pattern@, text@),
            Ok(None) => text@ == "Key \""@ + key@ + "\" is not found"@,
            Err(error) => text@ == "Failed to get from database: "@ + error@,
        },
{
    match found {
        Ok(Some(pattern)) => rand_reply(pattern.as_str(), rng),
        Ok(None) => not_found_reply(key),
        Err(error) => {
            let mut text = String::from_str("Failed to get from database: ");
            text.append(error.as_str());
            text
        },
    }
}

/// The answer to a request for a sample of `pattern`.
pub fn rand_reply(pattern: &str, rng: &mut StdRng) -> (text: String)
    ensures
        answers(pattern@, text@),
{
    let outcome = generate_text(pattern, rng);
    proof {
        match outcome {
            Err(TextError::Generate(err)) => {
                assert(text_error_text(TextError::Generate(err)) == generation_error_text(err));
            },
            Err(TextError::TooLong(n)) => {
                assert(text_error_text(outcome.unwrap_err()) == text_error_text(
                    TextError::TooLong(n),
                ));
            },
            _ => {},
        }
    }
    sample_reply(outcome)
}

/// The answer to a message that is no command: none where the error is
/// optional and the message was not addressed to the reader.
pub fn error_reply(error: &CommandError, has_mention: bool) -> (text: Option<String>)
    ensures
        match text {
            Some(t) => t@ == command_error_text(error@) && (has_mention || !(error@
                is NotACommand)),
            None => error@ is NotACommand && !has_mention,
        },
{
    if error.is_optional() && !has_mention {
        None
    } else {
        Some(error.message())
    }
}

/// What `regex::Regex::replace_all` gives for the regular expression that
/// `pattern` writes, on `text`, with `replacement`.
pub uninterp spec fn replaced(pattern: Seq<char>, text: Seq<char>, replacement: Seq<char>) -> Seq<
    char,
>;

/// `regex::Regex::new` on `pattern`, then `regex::Regex::replace_all` on
/// `text` with `replacement`.
///
/// Believed of it: where `pattern` writes a regular expression, the result
/// is what the crate's replacement gives for these three texts, the same
/// whenever it is asked. `None` stands for a pattern that the crate refuses.
#[verifier::external_body]
fn replace_all(pattern: &str, text: &str, replacement: &str) -> (r: Option<String>)
    ensures
        r matches Some(s) ==> s@ == replaced(pattern@, text@, replacement@),
{
    match Regex::new(pattern) {
        Ok(re) => Some(re.replace_all(text, replacement).into_owned()),
        Err(_) => None,
    }
}

/// The regular expression for the mark that stands in a message in place of
/// a mention, a channel or a group; its group `raw` holds the text that the
/// sender typed.
pub const SPECIAL_MESSAGE_REGEX: &'static str =
    r#"!\{"type":"(user|channel|group)","raw":"(?P<raw>(?:[^\\"]|\\.)+)","id":"(?:[^\\"]|\\.)+"\}"#;

/// The replacement that puts the group `raw` in place of a mark.
pub const RAW_GROUP: &'static str = "${raw}";

/// The regular expression for the mark of a mention of the user `name` with
/// the identifier `user_id`.
pub open spec fn mention_pattern(name: Seq<char>, user_id: Seq<char>) -> Seq<char> {
    r#"!\{"type":"user","raw":"@"#@ + name + r#"","id":""#@ + user_id + r#""\}"#@
}

/// Writes the regular expression for the mark of a mention.
pub fn mention_regex(name: &str, user_id: &str) -> (pattern: String)
    ensures
        pattern@ == mention_pattern(name@, user_id@),
{
    let mut pattern = String::from_str(r#"!\{"type":"user","raw":"@"#);
    pattern.append(name);
    pattern.append(r#"","id":""#);
    pattern.append(user_id);
    pattern.append(r#""\}"#);
    pattern
}

/// The text of a message as its sender typed it: without the marks of
/// mentions of the reader, where the message mentions the reader, and with
/// every other mark replaced by the text it stands for.
pub open spec fn typed_text(
    text: Seq<char>,
    has_mention: bool,
    name: Seq<char>,
    user_id: Seq<char>,
) -> Seq<char> {
    let unaddressed = if has_mention {
        replaced(mention_pattern(name, user_id), text, ""@)
    } else {
        text
    };
    replaced(SPECIAL_MESSAGE_REGEX@, unaddressed, RAW_GROUP@)
}

/// Recovers the text of a message as its sender typed it, for the reader
/// with the name `name` and the identifier `user_id`.
///
/// `None` where a regular expression was refused, which a name or an
/// identifier with signs of the regular expressions can bring about.
pub fn typed(text: &str, has_mention: bool, name: &str, user_id: &str) -> (r: Option<String>)
    ensures
        r matches Some(content) ==> content@ == typed_text(text@, has_mention, name@, user_id@),
{
    if has_mention {
        let pattern = mention_regex(name, user_id);
        match replace_all(pattern.as_str(), text, "") {
            Some(unaddressed) => replace_all(
                SPECIAL_MESSAGE_REGEX,
                unaddressed.as_str(),
                RAW_GROUP,
            ),
            None => None,
        }
    } else {
        replace_all(SPECIAL_MESSAGE_REGEX, text, RAW_GROUP)
    }
}

/// What is to be done about a message.
#[derive(Debug, PartialEq, Eq)]
pub enum Step {
    /// Nothing.
    Ignore,
    /// Send this text to the channel of the message.
    Reply(String),
    /// Store `value` under `key` for the sender, then answer with
    /// [`save_reply`].
    Save { key: String, value: String },
    /// Look the key up, then answer with [`call_reply`].
    Call(String),
    /// Remove the sender's pattern under the key, then answer with
    /// [`remove_reply`].
    Remove(String),
    /// Join the channel of the message.
    Join,
    /// Leave the channel of the message.
    Leave,
}

/// Decides what is to be done about a message with the text `content`.
///
/// A message of a bot is ignored. A request for a sample is answered at
/// once; a command that needs the store or the channel is handed on; what is
/// no command is answered with its error, or ignored where that error is
/// optional and the message was not addressed to the reader.
pub fn plan(content: &str, from_bot: bool, has_mention: bool, rng: &mut StdRng) -> (step: Step)
    ensures
        from_bot ==> step is Ignore,
        !from_bot ==> match interpret(content@) {
            Ok(CommandModel::RandRegexp(pattern)) => step matches Step::Reply(text) && answers(
                pattern,
                text@,
            ),
            Ok(CommandModel::Save { key, value }) => step matches Step::Save {
                key: k,
                value: v,
            } && k@ == key && v@ == value,
            Ok(CommandModel::Call(key)) => step matches Step::Call(k) && k@ == key,
            Ok(CommandModel::Remove(key)) => step matches Step::Remove(k) && k@ == key,
            Ok(CommandModel::Join) => step is Join,
            Ok(CommandModel::Leave) => step is Leave,
            Err(e) => if e is NotACommand && !has_mention {
                step is Ignore
            } else {
                step matches Step::Reply(text) && text@ == command_error_text(e)
            },
        },
{
    if from_bot {
        return Step::Ignore;
    }
    match parse_command(content) {
        Ok(Command::RandRegexp(pattern)) => Step::Reply(rand_reply(pattern.as_str(), rng)),
        Ok(Command::Save { key, value }) => Step::Save { key, value },
        Ok(Command::Call(key)) => Step::Call(key),
        Ok(Command::Remove(key)) => Step::Remove(key),
        Ok(Command::Join) => Step::Join,
        Ok(Command::Leave) => Step::Leave,
        Err(e) => match error_reply(&e, has_mention) {
            Some(text) => Step::Reply(text),
            None => Step::Ignore,
        },
    }
}

} // verus!
