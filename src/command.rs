use vstd::prelude::*;
use vstd::slice::slice_to_vec;
use vstd::string::StringExecFns;
use vstd::utf8::encode_utf8;
use crate::text::{chars_of, string_of};

verus! {

/// What `str::to_lowercase` makes of a text.
pub uninterp spec fn lower_of(s: Seq<char>) -> Seq<char>;

/// Relies on `str::to_lowercase`: the lowercase form of a text depends on its
/// characters alone.
#[verifier::external_body]
fn lowercase(s: &str) -> (r: String)
    ensures
        r@ == lower_of(s@),
{
    s.to_lowercase()
}

/// Whether `c` has the Unicode White_Space property.
pub open spec fn is_white(c: char) -> bool {
    let v = c as u32;
    (0x9 <= v <= 0xd) || v == 0x20 || v == 0x85 || v == 0xa0 || v == 0x1680 || (0x2000 <= v
        <= 0x200a) || v == 0x2028 || v == 0x2029 || v == 0x202f || v == 0x205f || v == 0x3000
}

/// Whether `c` has the Unicode White_Space property.
pub fn is_white_space(c: char) -> (r: bool)
    ensures
        r == is_white(c),
{
    let v = c as u32;
    (0x9 <= v && v <= 0xd) || v == 0x20 || v == 0x85 || v == 0xa0 || v == 0x1680 || (0x2000 <= v
        && v <= 0x200a) || v == 0x2028 || v == 0x2029 || v == 0x202f || v == 0x205f || v == 0x3000
}

/// The first position at or after `i` that does not hold white space.
pub open spec fn skip_white(s: Seq<char>, i: int) -> int
    decreases s.len() - i,
{
    if 0 <= i < s.len() && is_white(s[i]) {
        skip_white(s, i + 1)
    } else {
        i
    }
}

/// The first position at or after `i` that holds white space, or the end.
pub open spec fn word_end(s: Seq<char>, i: int) -> int
    decreases s.len() - i,
{
    if 0 <= i < s.len() && !is_white(s[i]) {
        word_end(s, i + 1)
    } else {
        i
    }
}

/// The end of `s[lo..hi]` once trailing white space is cut.
pub open spec fn trim_end(s: Seq<char>, lo: int, hi: int) -> int
    decreases hi - lo,
{
    if lo < hi && is_white(s[hi - 1]) {
        trim_end(s, lo, hi - 1)
    } else {
        hi
    }
}

/// The first position at or after `i` where `t` occurs in `s`.
pub open spec fn first_from(s: Seq<char>, t: Seq<char>, i: int) -> int
    decreases s.len() - i,
{
    if i < 0 || i + t.len() > s.len() || i >= s.len() {
        i
    } else if s.subrange(i, i + t.len()) == t {
        i
    } else {
        first_from(s, t, i + 1)
    }
}

/// A command typed by a user, read as text.
pub enum ParsedCommand {
    /// Send the message to the recipient.
    Send(Seq<char>, Seq<char>),
    Status,
    /// The send command without a recipient or a message.
    Malformed,
    Unknown,
}

/// The command that `s` spells, given `keyword`, the lowercase form of its
/// first word: `/send <to> <message>`, where the message is what follows the
/// first occurrence of `<to>` in the whole line, trimmed; or `/status`.
pub open spec fn command_of(s: Seq<char>, keyword: Seq<char>) -> ParsedCommand {
    if keyword == "/send"@ {
        let b = word_end(s, skip_white(s, 0));
        let c = skip_white(s, b);
        if c < s.len() {
            let to = s.subrange(c, word_end(s, c));
            let p = skip_white(s, first_from(s, to, 0) + to.len());
            let q = trim_end(s, p, s.len() as int);
            if p < q {
                ParsedCommand::Send(to, s.subrange(p, q))
            } else {
                ParsedCommand::Malformed
            }
        } else {
            ParsedCommand::Malformed
        }
    } else if keyword == "/status"@ {
        ParsedCommand::Status
    } else {
        ParsedCommand::Unknown
    }
}

/// The first word of `s`.
pub open spec fn first_word(s: Seq<char>) -> Seq<char> {
    s.subrange(skip_white(s, 0), word_end(s, skip_white(s, 0)))
}

/// The message of a malformed send command.
pub open spec fn usage_message() -> Seq<char> {
    "Invalid command format. Usage: /send <to> <message>"@
}

proof fn lemma_skip_white_bounds(s: Seq<char>, i: int)
    requires
        0 <= i <= s.len(),
    ensures
        i <= skip_white(s, i) <= s.len(),
        skip_white(s, i) < s.len() ==> !is_white(s[skip_white(s, i)]),
    decreases s.len() - i,
{
    if i < s.len() && is_white(s[i]) {
        lemma_skip_white_bounds(s, i + 1);
    }
}

proof fn lemma_word_end_bounds(s: Seq<char>, i: int)
    requires
        0 <= i <= s.len(),
    ensures
        i <= word_end(s, i) <= s.len(),
    decreases s.len() - i,
{
    if i < s.len() && !is_white(s[i]) {
        lemma_word_end_bounds(s, i + 1);
    }
}

proof fn lemma_trim_end_bounds(s: Seq<char>, lo: int, hi: int)
    requires
        0 <= lo <= hi <= s.len(),
    ensures
        lo <= trim_end(s, lo, hi) <= hi,
    decreases hi - lo,
{
    if lo < hi && is_white(s[hi - 1]) {
        lemma_trim_end_bounds(s, lo, hi - 1);
    }
}

proof fn lemma_first_from_bounds(s: Seq<char>, t: Seq<char>, i: int, at: int)
    requires
        0 <= i <= at,
        at + t.len() <= s.len(),
        s.subrange(at, at + t.len()) == t,
    ensures
        i <= first_from(s, t, i) <= at,
    decreases at - i,
{
    if s.subrange(i, i + t.len()) != t {
        lemma_first_from_bounds(s, t, i + 1, at);
    }
}

fn skip_white_from(s: &Vec<char>, i: usize) -> (r: usize)
    requires
        i <= s@.len(),
    ensures
        r == skip_white(s@, i as int),
        r <= s@.len(),
{
    let mut j = i;
    while j < s.len() && is_white_space(s[j])
        invariant
            i <= j <= s@.len(),
            skip_white(s@, j as int) == skip_white(s@, i as int),
        decreases s@.len() - j,
    {
        j = j + 1;
    }
    j
}

fn word_end_from(s: &Vec<char>, i: usize) -> (r: usize)
    requires
        i <= s@.len(),
    ensures
        r == word_end(s@, i as int),
        i <= r <= s@.len(),
{
    let mut j = i;
    while j < s.len() && !is_white_space(s[j])
        invariant
            i <= j <= s@.len(),
            word_end(s@, j as int) == word_end(s@, i as int),
        decreases s@.len() - j,
    {
        j = j + 1;
    }
    j
}

fn trim_end_of(s: &Vec<char>, lo: usize, hi: usize) -> (r: usize)
    requires
        lo <= hi <= s@.len(),
    ensures
        r == trim_end(s@, lo as int, hi as int),
        lo <= r <= hi,
{
    let mut j = hi;
    while j > lo && is_white_space(s[j - 1])
        invariant
            lo <= j <= hi <= s@.len(),
            trim_end(s@, lo as int, j as int) == trim_end(s@, lo as int, hi as int),
        decreases j,
    {
        j = j - 1;
    }
    j
}

/// Whether `s[lo..hi]` occurs in `s` at `i`.
fn occurs_at(s: &Vec<char>, lo: usize, hi: usize, i: usize) -> (r: bool)
    requires
        lo <= hi <= s@.len(),
        i <= s@.len(),
    ensures
        r == (i + (hi - lo) <= s@.len() && s@.subrange(i as int, i + (hi - lo)) == s@.subrange(
            lo as int,
            hi as int,
        )),
{
    let n = hi - lo;
    if n > s.len() - i {
        return false;
    }
    let limit = s.len();
    let mut j: usize = 0;
    while j < n
        invariant
            limit == s@.len(),
            lo <= hi <= s@.len(),
            i <= s@.len(),
            n == hi - lo,
            i + n <= s@.len(),
            j <= n,
            forall|k: int| 0 <= k < j ==> #[trigger] s@[i + k] == s@[lo + k],
        decreases n - j,
    {
        if s[i + j] != s[lo + j] {
            proof {
                assert(s@.subrange(i as int, i + n)[j as int] != s@.subrange(lo as int, hi as int)[j as int]);
            }
            return false;
        }
        j = j + 1;
    }
    assert forall|k: int| 0 <= k < n implies s@.subrange(i as int, i + n)[k] == s@.subrange(
        lo as int,
        hi as int,
    )[k] by {
        assert(s@[i + k] == s@[lo + k]);
    }
    assert(s@.subrange(i as int, i + n) =~= s@.subrange(lo as int, hi as int));
    true
}

/// A command typed by a user.
pub enum Command {
    /// Send the message, as bytes, to the recipient.
    Send(String, Vec<u8>),
    Status,
}

impl Command {
    /// Reads `command`, given `keyword`, the lowercase form of its first word.
    pub fn interpret(command: &str, keyword: &String) -> (r: Result<Command, String>)
        ensures
            r matches Ok(Command::Send(to, message)) ==> exists|text: Seq<char>|
                command_of(command@, keyword@) == ParsedCommand::Send(to@, text) && message@
                    == encode_utf8(text),
            r matches Ok(Command::Status) <==> command_of(command@, keyword@) is Status,
            r is Ok <==> (command_of(command@, keyword@) is Send || command_of(
                command@,
                keyword@,
            ) is Status),
            r matches Err(e) ==> (command_of(command@, keyword@) is Malformed ==> e@
                == usage_message()) && (command_of(command@, keyword@) is Unknown ==> e@
                == "Unknown command: "@ + command@),
    {
        let s = chars_of(command);
        if *keyword == String::from_str("/send") {
            let ghost sv = s@;
            let a = skip_white_from(&s, 0);
            proof {
                lemma_skip_white_bounds(sv, 0);
            }
            let b = word_end_from(&s, a);
            let c = skip_white_from(&s, b);
            proof {
                lemma_skip_white_bounds(sv, b as int);
            }
            if c < s.len() {
                let d = word_end_from(&s, c);
                proof {
                    lemma_word_end_bounds(sv, c + 1);
                    assert(d > c);
                }
                let ghost to = sv.subrange(c as int, d as int);
                let mut i: usize = 0;
                proof {
                    lemma_first_from_bounds(sv, to, 0, c as int);
                }
                while !occurs_at(&s, c, d, i)
                    invariant
                        i <= c < d <= sv.len(),
                        s@ == sv,
                        to == sv.subrange(c as int, d as int),
                        first_from(sv, to, i as int) == first_from(sv, to, 0),
                        i <= first_from(sv, to, 0) <= c,
                    decreases c - i,
                {
                    proof {
                        if i == c {
                            assert(sv.subrange(c as int, c + (d - c)) == to);
                        }
                        assert(i < c);
                        lemma_first_from_bounds(sv, to, i + 1, c as int);
                    }
                    i = i + 1;
                }
                let start = skip_white_from(&s, i + (d - c));
                proof {
                    lemma_skip_white_bounds(sv, i + (d - c));
                }
                let end = trim_end_of(&s, start, s.len());
                if start < end {
                    let to_text = string_of(&s, c, d);
                    let text = string_of(&s, start, end);
                    let bytes = slice_to_vec(text.as_str().as_bytes());
                    return Ok(Command::Send(to_text, bytes));
                }
            }
            Err(String::from_str("Invalid command format. Usage: /send <to> <message>"))
        } else if *keyword == String::from_str("/status") {
            Ok(Command::Status)
        } else {
            Err(String::from_str("Unknown command: ").concat(command))
        }
    }

    /// Reads a command typed by a user: `/send <to> <message>` or `/status`,
    /// the first word in any case.
    pub fn from_str(command: &str) -> (r: Result<Command, String>)
        ensures
            r matches Ok(Command::Send(to, message)) ==> exists|text: Seq<char>|
                command_of(command@, lower_of(first_word(command@))) == ParsedCommand::Send(
                    to@,
                    text,
                ) && message@ == encode_utf8(text),
            r is Ok <==> (command_of(command@, lower_of(first_word(command@))) is Send
                || command_of(command@, lower_of(first_word(command@))) is Status),
            r matches Err(e) ==> (command_of(command@, lower_of(first_word(command@))) is Malformed
                ==> e@ == usage_message()) && (command_of(
                command@,
                lower_of(first_word(command@)),
            ) is Unknown ==> e@ == "Unknown command: "@ + command@),
    {
        let s = chars_of(command);
        let a = skip_white_from(&s, 0);
        proof {
            lemma_skip_white_bounds(s@, 0);
        }
        let b = word_end_from(&s, a);
        let word = string_of(&s, a, b);
        let keyword = lowercase(word.as_str());
        Command::interpret(command, &keyword)
    }
}

} // verus!
