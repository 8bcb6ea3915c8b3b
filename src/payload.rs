use vstd::prelude::*;
use vstd::string::*;

verus! {

/// The lowercase hexadecimal digits.
pub open spec fn hex_digits() -> Seq<char> {
    seq!['0', '1', '2', '3', '4', '5', '6', '7', '8', '9', 'a', 'b', 'c', 'd', 'e', 'f']
}

/// How a character is written inside a JSON string literal: a quote, a
/// backslash and the control characters below U+0020 escaped, with the short
/// escapes where JSON has them and `\u00XX` in lowercase hexadecimal otherwise.
pub open spec fn escape_char(c: char) -> Seq<char> {
    if c == '"' {
        seq!['\\', '"']
    } else if c == '\\' {
        seq!['\\', '\\']
    } else if c == '\u{8}' {
        seq!['\\', 'b']
    } else if c == '\u{c}' {
        seq!['\\', 'f']
    } else if c == '\n' {
        seq!['\\', 'n']
    } else if c == '\r' {
        seq!['\\', 'r']
    } else if c == '\t' {
        seq!['\\', 't']
    } else if (c as u32) < 0x20 {
        seq![
            '\\',
            'u',
            '0',
            '0',
            hex_digits()[(c as u32) as int / 16],
            hex_digits()[(c as u32) as int % 16],
        ]
    } else {
        seq![c]
    }
}

/// The characters of a text as written inside a JSON string literal.
pub open spec fn escape_json(text: Seq<char>) -> Seq<char>
    decreases text.len(),
{
    if text.len() == 0 {
        Seq::empty()
    } else {
        escape_json(text.drop_last()) + escape_char(text.last())
    }
}

/// The JSON string literal of a text.
pub open spec fn json_string_of(text: Seq<char>) -> Seq<char> {
    seq!['"'] + escape_json(text) + seq!['"']
}

/// Escaping a concatenation escapes each part.
pub proof fn lemma_escape_concat(a: Seq<char>, b: Seq<char>)
    ensures
        escape_json(a + b) == escape_json(a) + escape_json(b),
    decreases b.len(),
{
    if b.len() == 0 {
        assert(a + b =~= a);
        assert(escape_json(b) =~= Seq::<char>::empty());
        assert(escape_json(a) + escape_json(b) =~= escape_json(a));
    } else {
        lemma_escape_concat(a, b.drop_last());
        assert((a + b).drop_last() =~= a + b.drop_last());
        assert((a + b).last() == b.last());
        assert(escape_json(a + b) =~= escape_json(a) + escape_json(b));
    }
}

/// A text with no character that JSON escapes is written unchanged.
pub proof fn lemma_escape_plain(text: Seq<char>)
    requires
        plain_in_json(text),
    ensures
        escape_json(text) == text,
    decreases text.len(),
{
    if text.len() > 0 {
        lemma_escape_plain(text.drop_last());
        assert(!escaped_in_json(text[text.len() - 1]));
        assert(escape_json(text) =~= text);
    }
}

/// Whether JSON writes a character escaped inside a string literal.
pub open spec fn escaped_in_json(c: char) -> bool {
    c == '"' || c == '\\' || (c as u32) < 0x20
}

/// Relies on serde_json::to_string on a `str`: with the compact formatter it
/// writes the text between quotes, escaping a quote, a backslash and the
/// control characters below U+0020 (short escapes for backspace, form feed,
/// line feed, carriage return and tab, `\u00XX` in lowercase hexadecimal for
/// the others) and nothing else. Writing a `str` into a `Vec` cannot fail.
#[verifier::external_body]
pub(crate) fn json_string(text: &str) -> (r: String)
    ensures
        r@ == json_string_of(text@),
{
    serde_json::to_string(text).unwrap_or_default()
}

/// The structured error payload for a message: a JSON object with an `error` field.
pub open spec fn error_payload_text(message: Seq<char>) -> Seq<char> {
    "{\"error\":"@ + json_string_of(message) + "}"@
}

/// Whether JSON writes every character of a text unescaped.
pub open spec fn plain_in_json(text: Seq<char>) -> bool {
    forall|i: int| 0 <= i < text.len() ==> !escaped_in_json(#[trigger] text[i])
}

/// Builds the structured error payload for a message.
pub fn error_payload(message: &str) -> (r: String)
    ensures
        r@ == error_payload_text(message@),
        r@ == "{\"error\":\""@ + escape_json(message@) + "\"}"@,
{
    let quoted = json_string(message);
    let r = String::from_str("{\"error\":").concat(quoted.as_str()).concat("}");
    proof {
        reveal_strlit("{\"error\":");
        reveal_strlit("}");
        reveal_strlit("{\"error\":\"");
        reveal_strlit("\"}");
        assert(r@ =~= "{\"error\":\""@ + escape_json(message@) + "\"}"@);
    }
    r
}

/// How the dispatch of one function call ended.
#[derive(Clone, PartialEq, Eq, Debug)]
pub enum DispatchOutcome {
    /// No function of the requested name is registered.
    NotFound,
    /// The argument string could not be decoded; the text says why.
    InvalidArguments(String),
    /// The handler failed; the text says why.
    Failed(String),
    /// The handler succeeded with this serialized output.
    Completed(String),
}

/// The function-result text that the transcript records for a dispatch.
pub open spec fn payload_text(name: Seq<char>, outcome: DispatchOutcome) -> Seq<char> {
    match outcome {
        DispatchOutcome::NotFound => error_payload_text("Function not found: "@ + name),
        DispatchOutcome::InvalidArguments(why) => error_payload_text("Invalid arguments: "@ + why@),
        DispatchOutcome::Failed(why) => error_payload_text("Execution failed: "@ + why@),
        DispatchOutcome::Completed(output) => output@,
    }
}

/// The function-result text for a dispatch of the function `name`. Every outcome,
/// a failure too, becomes a text that the model reads on its next turn.
pub fn dispatch_payload(name: &str, outcome: DispatchOutcome) -> (r: String)
    ensures
        r@ == payload_text(name@, outcome),
        outcome is NotFound ==> r@ == "{\"error\":\"Function not found: "@ + escape_json(name@)
            + "\"}"@,
{
    match outcome {
        DispatchOutcome::NotFound => {
            let message = String::from_str("Function not found: ").concat(name);
            let r = error_payload(message.as_str());
            proof {
                let prefix = "Function not found: "@;
                reveal_strlit("Function not found: ");
                reveal_strlit("{\"error\":\"Function not found: ");
                reveal_strlit("{\"error\":\"");
                reveal_strlit("\"}");
                assert(plain_in_json(prefix));
                lemma_escape_plain(prefix);
                lemma_escape_concat(prefix, name@);
                assert(r@ =~= "{\"error\":\"Function not found: "@ + escape_json(name@) + "\"}"@);
            }
            r
        },
        DispatchOutcome::InvalidArguments(why) => {
            let message = String::from_str("Invalid arguments: ").concat(why.as_str());
            error_payload(message.as_str())
        },
        DispatchOutcome::Failed(why) => {
            let message = String::from_str("Execution failed: ").concat(why.as_str());
            error_payload(message.as_str())
        },
        DispatchOutcome::Completed(output) => output,
    }
}

} // verus!
