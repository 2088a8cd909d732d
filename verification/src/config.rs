//! Reading the settings file and writing it back, as far as text goes.

use vstd::prelude::*;

use crate::text::{shell_escape, trim};

verus! {

/// What `String::from_utf8_lossy` makes of the given bytes.
pub uninterp spec fn utf8_lossy(bytes: Seq<u8>) -> Seq<char>;

/// `String::from_utf8_lossy`. The text depends on the bytes alone, and for valid
/// UTF-8 it is what the bytes encode. How malformed stretches are replaced is left
/// to the name.
#[verifier::external_body]
fn from_utf8_lossy(bytes: &[u8]) -> (text: String)
    ensures
        text@ == utf8_lossy(bytes@),
        vstd::utf8::valid_utf8(bytes@) ==> text@ == vstd::utf8::decode_utf8(bytes@),
{
    String::from_utf8_lossy(bytes).into_owned()
}

/// The settings text in what the load command printed, `stdout`: the output as text,
/// without the white space around it.
pub open spec fn settings_text(stdout: Seq<u8>) -> Seq<char> {
    crate::text::trimmed(utf8_lossy(stdout))
}

/// The shell command that stores `json` as the settings file.
pub open spec fn save_command(json: Seq<char>) -> Seq<char> {
    "mkdir -p \"$HOME/.config/zellij/plugins\" && printf '%s' '"@ + crate::text::shell_escaped(json)
        + "' > \"$HOME/.config/zellij/plugins/zellaude.json\""@
}

/// The settings text in what the load command printed: the output as text, without
/// the white space around it.
pub fn config_text(stdout: &[u8]) -> (text: String)
    ensures
        text@ == settings_text(stdout@),
        text@ == crate::text::trimmed(utf8_lossy(stdout@)),
        vstd::utf8::valid_utf8(stdout@) ==> text@ == crate::text::trimmed(vstd::utf8::decode_utf8(stdout@)),
{
    let raw = from_utf8_lossy(stdout);
    trim(raw.as_str()).to_owned()
}

/// The shell command that stores `json` as the settings file.
pub fn save_config_command(json: &str) -> (command: String)
    ensures
        command@ == save_command(json@),
        command@ == "mkdir -p \"$HOME/.config/zellij/plugins\" && printf '%s' '"@ + crate::text::shell_escaped(
            json@,
        ) + "' > \"$HOME/.config/zellij/plugins/zellaude.json\""@,
{
    let mut command = "mkdir -p \"$HOME/.config/zellij/plugins\" && printf '%s' '".to_owned();
    command.append(shell_escape(json).as_str());
    command.append("' > \"$HOME/.config/zellij/plugins/zellaude.json\"");
    command
}

/// What a save command writes is the settings text itself: the command is a fixed head,
/// one quoted word that a shell reads as `json`, and a fixed tail.
pub proof fn law_save_command_prints_the_text(json: Seq<char>) -> (word: Seq<char>)
    ensures
        save_command(json) == "mkdir -p \"$HOME/.config/zellij/plugins\" && printf '%s' "@ + word
            + " > \"$HOME/.config/zellij/plugins/zellaude.json\""@,
        crate::text::shell_word(word, false) == Some(json),
        word == seq!['\''] + crate::text::shell_escaped(json) + seq!['\''],
{
    reveal_strlit("mkdir -p \"$HOME/.config/zellij/plugins\" && printf '%s' '");
    reveal_strlit("mkdir -p \"$HOME/.config/zellij/plugins\" && printf '%s' ");
    reveal_strlit("' > \"$HOME/.config/zellij/plugins/zellaude.json\"");
    reveal_strlit(" > \"$HOME/.config/zellij/plugins/zellaude.json\"");
    let word = seq!['\''] + crate::text::shell_escaped(json) + seq!['\''];
    crate::text::law_shell_reads_back_what_was_escaped(json);
    assert("mkdir -p \"$HOME/.config/zellij/plugins\" && printf '%s' '"@
        =~= "mkdir -p \"$HOME/.config/zellij/plugins\" && printf '%s' "@ + seq!['\'']);
    assert("' > \"$HOME/.config/zellij/plugins/zellaude.json\""@ =~= seq!['\'']
        + " > \"$HOME/.config/zellij/plugins/zellaude.json\""@);
    assert(save_command(json) =~= "mkdir -p \"$HOME/.config/zellij/plugins\" && printf '%s' "@
        + word + " > \"$HOME/.config/zellij/plugins/zellaude.json\""@);
    word
}

/// The settings text is one stretch of what was printed, all of it but white space at its
/// ends.
pub proof fn law_the_settings_text_is_what_was_printed(stdout: Seq<u8>) -> (ends: (int, int))
    ensures
        0 <= ends.0 <= ends.1 <= utf8_lossy(stdout).len(),
        forall|i: int|
            0 <= i < ends.0 || ends.1 <= i < utf8_lossy(stdout).len() ==> crate::text::white_space(
                #[trigger] utf8_lossy(stdout)[i],
            ),
        ends.0 < ends.1 ==> !crate::text::white_space(utf8_lossy(stdout)[ends.0])
            && !crate::text::white_space(utf8_lossy(stdout)[ends.1 - 1]),
        settings_text(stdout) == utf8_lossy(stdout).subrange(ends.0, ends.1),
{
    let ends = crate::text::law_trimming_takes_white_space_off_the_ends(utf8_lossy(stdout));
    assert(settings_text(stdout) =~= utf8_lossy(stdout).subrange(ends.0, ends.1));
    ends
}

} // verus!
