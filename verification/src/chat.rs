//! The chat-command parser: recognises `-<word> [args]` inside scoped chat
//! text and hands the text after the leading `-` on, verbatim.

use crate::text::{chars_from, char_is_ascii_alnum, char_is_ascii_alpha, is_ascii_alnum,
    is_ascii_alpha};
use vstd::prelude::*;
use vstd::string::StrSliceExecFns;

verus! {

/// Position `k` ends the command word: everything from position 2 up to `k`
/// is alphanumeric, and `k` is the end of the text or a space.
pub open spec fn word_break_at(s: Seq<char>, k: int) -> bool {
    2 <= k <= s.len() && (forall|j: int| 2 <= j < k ==> is_ascii_alnum(#[trigger] s[j])) && (k
        == s.len() || s[k] == ' ')
}

/// `s` matches `-<alpha><alnum>*( <anything>)?`: a leading dash, a command
/// word of letters and digits starting with a letter, then nothing or a
/// space and arbitrary arguments.
pub open spec fn is_chat_command(s: Seq<char>) -> bool {
    s.len() >= 2 && s[0] == '-' && is_ascii_alpha(s[1]) && (exists|k: int| word_break_at(s, k))
}

/// What parsing returns: the text after the dash when `s` is a command.
pub open spec fn parse_spec(s: Seq<char>) -> Option<Seq<char>> {
    if is_chat_command(s) {
        Some(s.skip(1))
    } else {
        None
    }
}

/// A recognised chat command; `raw` is the text after the leading `-`,
/// trailing whitespace preserved.
pub struct ChatCommand {
    raw: String,
}

impl View for ChatCommand {
    type V = Seq<char>;

    closed spec fn view(&self) -> Seq<char> {
        self.raw@
    }
}

impl ChatCommand {
    /// The text after the leading `-`, untrimmed.
    pub fn raw(&self) -> (r: &String)
        ensures
            r@ == self@,
    {
        &self.raw
    }
}

/// Recognise a chat command in raw chat text.
pub fn parse_chat_command(text: &String) -> (r: Option<ChatCommand>)
    ensures
        match r {
            Some(cmd) => parse_spec(text@) == Some(cmd@),
            None => parse_spec(text@) is None,
        },
{
    let n = text.as_str().unicode_len();
    if n < 2 {
        return None;
    }
    if text.as_str().get_char(0) != '-' {
        return None;
    }
    if !char_is_ascii_alpha(text.as_str().get_char(1)) {
        return None;
    }
    let mut j: usize = 2;
    while j < n && char_is_ascii_alnum(text.as_str().get_char(j))
        invariant
            n == text@.len(),
            2 <= j <= n,
            forall|k: int| 2 <= k < j ==> is_ascii_alnum(#[trigger] text@[k]),
        decreases n - j,
    {
        j = j + 1;
    }
    if j < n && text.as_str().get_char(j) != ' ' {
        proof {
            assert forall|k: int| !word_break_at(text@, k) by {
                if 2 <= k <= text@.len() {
                    if k <= j {
                        assert(k < text@.len());
                        if k < j {
                            assert(is_ascii_alnum(text@[k]));
                        }
                    } else {
                        assert(!is_ascii_alnum(text@[j as int]));
                    }
                }
            }
        }
        return None;
    }
    proof {
        assert(word_break_at(text@, j as int));
    }
    let raw = chars_from(text, 1);
    Some(ChatCommand { raw })
}

/// Round trip: for any text `w` that forms a valid command after a leading
/// dash, parsing `-w` yields exactly `w`, arguments and trailing whitespace
/// included.
pub proof fn lemma_parse_roundtrip(w: Seq<char>)
    requires
        is_chat_command(seq!['-'] + w),
    ensures
        parse_spec(seq!['-'] + w) == Some(w),
{
    assert((seq!['-'] + w).skip(1) =~= w);
}

} // verus!
