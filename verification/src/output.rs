//! What becomes of a command's output.
use crate::text::{texts, trim, trimmed, Text};
use vstd::prelude::*;
use vstd::utf8::{decode_utf8, valid_utf8};

verus! {

/// The words of a command line, with a space between each two.
pub open spec fn spaced(words: Seq<Text>) -> Text
    decreases words.len(),
{
    if words.len() == 0 {
        seq![]
    } else if words.len() == 1 {
        words[0]
    } else {
        spaced(words.drop_last()) + " "@ + words.last()
    }
}

/// The text that bytes stand for, with a replacement character for each part
/// that is not UTF-8.
pub uninterp spec fn decoded(bytes: Seq<u8>) -> Text;

/// What a command that was run to its end has to say: what it printed, or that
/// it failed and why.
pub open spec fn outcome(
    program: Text,
    args: Seq<Text>,
    success: bool,
    out: Text,
    err: Text,
) -> Result<Text, Text> {
    if success {
        Ok(trimmed(out))
    } else {
        Err("Command failed ("@ + program + " "@ + spaced(args) + "): "@ + err)
    }
}

/// The model of a result of two strings.
pub open spec fn result_view(result: Result<String, String>) -> Result<Text, Text> {
    match result {
        Ok(text) => Ok(text@),
        Err(text) => Err(text@),
    }
}

/// The text that bytes stand for.
///
/// `String::from_utf8_lossy`: its result is a function of the bytes alone. Bytes
/// that are valid UTF-8 give the characters that they encode. Which characters
/// come of bytes that are not is left to the name.
#[verifier::external_body]
fn decode_lossy(bytes: &[u8]) -> (text: String)
    ensures
        text@ == decoded(bytes@),
        valid_utf8(bytes@) ==> text@ == decode_utf8(bytes@),
{
    String::from_utf8_lossy(bytes).into_owned()
}

/// Joins the words of a command line.
pub fn command_line(words: &[String]) -> (line: String)
    ensures
        line@ == spaced(texts(words@)),
{
    let mut line = String::new();
    let ghost all = texts(words@);
    let mut i: usize = 0;
    proof {
        assert(line@ =~= spaced(all.take(0)));
    }
    while i < words.len()
        invariant
            i <= words@.len(),
            all == texts(words@),
            line@ == spaced(all.take(i as int)),
        decreases words@.len() - i,
    {
        let ghost before = line@;
        proof {
            assert(all.take(i + 1).drop_last() =~= all.take(i as int));
            assert(all.take(i + 1).last() == words@[i as int]@);
        }
        if i > 0 {
            line.append(" ");
        }
        line.append(words[i].as_str());
        proof {
            if i == 0 {
                assert(line@ =~= words@[0]@);
            }
        }
        i = i + 1;
    }
    proof {
        assert(all.take(i as int) =~= all);
    }
    line
}

/// What a command that was run to its end has to say, from the text that it
/// printed.
pub fn captured(
    program: &str,
    args: &[String],
    success: bool,
    out: &str,
    err: &str,
) -> (said: Result<String, String>)
    ensures
        result_view(said) == outcome(program@, texts(args@), success, out@, err@),
        success ==> (said matches Ok(text) && text@ == trimmed(out@)),
        !success ==> (said matches Err(text) && text@ == "Command failed ("@ + program@ + " "@
            + spaced(texts(args@)) + "): "@ + err@),
{
    if success {
        Ok(trim(out))
    } else {
        Err(
            "Command failed (".to_string().concat(program).concat(" ").concat(
                command_line(args).as_str(),
            ).concat("): ").concat(err),
        )
    }
}

/// What a command that was run to its end has to say, from the bytes that it
/// printed.
pub fn run_capture(
    program: &str,
    args: &[String],
    success: bool,
    stdout: &[u8],
    stderr: &[u8],
) -> (said: Result<String, String>)
    ensures
        result_view(said) == outcome(
            program@,
            texts(args@),
            success,
            decoded(stdout@),
            decoded(stderr@),
        ),
        success ==> (said matches Ok(text) && text@ == trimmed(decoded(stdout@))),
        !success ==> (said matches Err(text) && text@ == "Command failed ("@ + program@ + " "@
            + spaced(texts(args@)) + "): "@ + decoded(stderr@)),
        success && valid_utf8(stdout@) ==> (said matches Ok(text) && text@ == trimmed(
            decode_utf8(stdout@),
        )),
        !success && valid_utf8(stderr@) ==> (said matches Err(text) && text@ == "Command failed ("@
            + program@ + " "@ + spaced(texts(args@)) + "): "@ + decode_utf8(stderr@)),
{
    let out = decode_lossy(stdout);
    let err = decode_lossy(stderr);
    captured(program, args, success, out.as_str(), err.as_str())
}

/// Words on a command line stand with one space between each two.
pub proof fn law_spaced(words: Seq<Text>, word: Text)
    ensures
        spaced(seq![]) == Seq::<char>::empty(),
        spaced(seq![word]) == word,
        words.len() > 0 ==> spaced(words.push(word)) == spaced(words).push(' ') + word,
{
    reveal_strlit(" ");
    assert(words.push(word).drop_last() =~= words);
    assert(spaced(words) + " "@ =~= spaced(words).push(' '));
}

/// A command that succeeds has its output to say, trimmed, whatever it printed as
/// errors; one that fails has its errors to say, whatever else it printed.
pub proof fn law_outcome(program: Text, args: Seq<Text>, out: Text, err: Text)
    ensures
        outcome(program, args, true, out, err) == Ok::<Text, Text>(trimmed(out)),
        outcome(program, args, false, out, err) == Err::<Text, Text>(
            "Command failed ("@ + program + " "@ + spaced(args) + "): "@ + err,
        ),
{
}

} // verus!
