//! Commands received over the serial control channel.

use vstd::prelude::*;
use vstd::slice::slice_subrange;
use vstd::string::StringSliceAdditionalSpecFns;
use vstd::utf8::{
    decode_utf8, encode_utf8, encode_utf8_decode_utf8, encode_utf8_valid_utf8, is_ascii_chars,
    is_ascii_chars_encode_utf8, valid_utf8,
};

verus! {

/// The bytes that count as ASCII whitespace: space, tab, line feed, form
/// feed and carriage return.
pub open spec fn is_ascii_space(b: u8) -> bool {
    b == 0x20 || b == 0x09 || b == 0x0a || b == 0x0c || b == 0x0d
}

/// How many whitespace bytes stand at the front of `s`.
pub open spec fn leading_spaces(s: Seq<u8>) -> nat
    decreases s.len(),
{
    if s.len() > 0 && is_ascii_space(s[0]) {
        1 + leading_spaces(s.drop_first())
    } else {
        0
    }
}

/// How many whitespace bytes stand at the end of `s`.
pub open spec fn trailing_spaces(s: Seq<u8>) -> nat
    decreases s.len(),
{
    if s.len() > 0 && is_ascii_space(s.last()) {
        1 + trailing_spaces(s.drop_last())
    } else {
        0
    }
}

/// `s` without its leading and trailing whitespace. A sequence of nothing
/// but whitespace trims to the empty sequence.
pub open spec fn trim_spec(s: Seq<u8>) -> Seq<u8> {
    if leading_spaces(s) >= s.len() {
        Seq::<u8>::empty()
    } else {
        s.subrange(leading_spaces(s) as int, s.len() - trailing_spaces(s))
    }
}

/// The lower-case form of an ASCII letter; any other byte is unchanged.
pub open spec fn lower_spec(b: u8) -> u8 {
    if 0x41 <= b <= 0x5a {
        (b + 0x20) as u8
    } else {
        b
    }
}

/// Equality of two byte strings up to the case of ASCII letters.
pub open spec fn eq_ignore_case_spec(a: Seq<u8>, b: Seq<u8>) -> bool {
    &&& a.len() == b.len()
    &&& forall|i: int| 0 <= i < a.len() ==> lower_spec(#[trigger] a[i]) == lower_spec(b[i])
}

/// The word `q`, which asks for a restart into update mode.
pub open spec fn quit_word() -> Seq<u8> {
    seq![0x71u8]
}

/// The word `elf2uf2-term`, sent by the flashing tool's terminal when it
/// closes; it asks for a restart into update mode too.
pub open spec fn term_word() -> Seq<u8> {
    seq![0x65u8, 0x6c, 0x66, 0x32, 0x75, 0x66, 0x32, 0x2d, 0x74, 0x65, 0x72, 0x6d]
}

/// The word `hello`.
pub open spec fn hello_word() -> Seq<u8> {
    seq![0x68u8, 0x65, 0x6c, 0x6c, 0x6f]
}

/// What the controller does with one line received on the command channel.
#[derive(Clone, Copy, Debug, PartialEq, Eq, Structural)]
pub enum Command {
    /// Restart the chip into its update mode; normal operation ends.
    Reboot,
    /// Acknowledge a greeting with a log line.
    Hello,
    /// Log the input and carry on. Bytes that are no text belong here too.
    Other,
}

/// The characters that count as whitespace in text: those with the Unicode
/// property White_Space. Among them are the tabs and line ends of ASCII, the
/// vertical tab included, the space, and the spaces of other scripts.
pub open spec fn is_white_space(c: char) -> bool {
    let u = c as u32;
    ||| 0x09 <= u <= 0x0d
    ||| u == 0x20
    ||| u == 0x85
    ||| u == 0xa0
    ||| u == 0x1680
    ||| 0x2000 <= u <= 0x200a
    ||| u == 0x2028
    ||| u == 0x2029
    ||| u == 0x202f
    ||| u == 0x205f
    ||| u == 0x3000
}

/// How many whitespace characters stand at the front of `s`.
pub open spec fn leading_white_space(s: Seq<char>) -> nat
    decreases s.len(),
{
    if s.len() > 0 && is_white_space(s[0]) {
        1 + leading_white_space(s.drop_first())
    } else {
        0
    }
}

/// How many whitespace characters stand at the end of `s`.
pub open spec fn trailing_white_space(s: Seq<char>) -> nat
    decreases s.len(),
{
    if s.len() > 0 && is_white_space(s.last()) {
        1 + trailing_white_space(s.drop_last())
    } else {
        0
    }
}

/// `s` without its leading and trailing whitespace. Text of nothing but
/// whitespace trims to the empty text.
pub open spec fn trim_text_spec(s: Seq<char>) -> Seq<char> {
    if leading_white_space(s) >= s.len() {
        Seq::<char>::empty()
    } else {
        s.subrange(leading_white_space(s) as int, s.len() - trailing_white_space(s))
    }
}

/// Calls `core::str::from_utf8`, which checks that the bytes are valid
/// UTF-8 and, if they are, hands them out as text: the characters that the
/// bytes encode.
#[verifier::external_body]
fn utf8_text(data: &[u8]) -> (r: Option<&str>)
    ensures
        r is Some <==> valid_utf8(data@),
        r matches Some(text) ==> text@ == decode_utf8(data@),
{
    match core::str::from_utf8(data) {
        Ok(text) => Some(text),
        Err(_) => None,
    }
}

/// Calls `str::trim`, which gives the text without its leading and
/// trailing whitespace, where whitespace is what has the Unicode property
/// White_Space.
#[verifier::external_body]
fn trim_text(text: &str) -> (r: &str)
    ensures
        r@ == trim_text_spec(text@),
{
    text.trim()
}

/// The command that a trimmed word stands for. The restart words are
/// matched exactly, the greeting in any case.
pub open spec fn command_of_word(word: Seq<u8>) -> Command {
    if word == quit_word() || word == term_word() {
        Command::Reboot
    } else if eq_ignore_case_spec(word, hello_word()) {
        Command::Hello
    } else {
        Command::Other
    }
}

/// The command that a received line stands for. A line that is no UTF-8
/// text is no command. Else the text is trimmed of its whitespace, and the
/// bytes of what is left are the word.
pub open spec fn command_spec(data: Seq<u8>) -> Command {
    if !valid_utf8(data) {
        Command::Other
    } else {
        command_of_word(encode_utf8(trim_text_spec(decode_utf8(data))))
    }
}

/// The whitespace among the ASCII bytes: the tabs and line ends, the
/// vertical tab included, and the space.
pub open spec fn is_white_space_byte(b: u8) -> bool {
    0x09 <= b <= 0x0d || b == 0x20
}

/// Every character before `i` being whitespace, and `i` being the end or
/// no whitespace, `i` is the number of leading whitespace characters.
proof fn lemma_leading_white_space(s: Seq<char>, i: int)
    requires
        0 <= i <= s.len(),
        forall|j: int| 0 <= j < i ==> is_white_space(#[trigger] s[j]),
        i == s.len() || !is_white_space(s[i]),
    ensures
        leading_white_space(s) == i,
    decreases i,
{
    if i > 0 {
        let t = s.drop_first();
        assert(is_white_space(s[0]));
        assert forall|j: int| 0 <= j < i - 1 implies is_white_space(#[trigger] t[j]) by {
            assert(t[j] == s[j + 1]);
        }
        if i < s.len() {
            assert(t[i - 1] == s[i]);
        }
        lemma_leading_white_space(t, i - 1);
    }
}

/// Every character from `i` on being whitespace, and the character before
/// `i` being none, `s.len() - i` is the number of trailing whitespace
/// characters.
proof fn lemma_trailing_white_space(s: Seq<char>, i: int)
    requires
        0 <= i <= s.len(),
        forall|j: int| i <= j < s.len() ==> is_white_space(#[trigger] s[j]),
        i == 0 || !is_white_space(s[i - 1]),
    ensures
        trailing_white_space(s) == s.len() - i,
    decreases s.len() - i,
{
    if i < s.len() {
        let t = s.drop_last();
        assert(is_white_space(s.last()));
        assert forall|j: int| i <= j < t.len() implies is_white_space(#[trigger] t[j]) by {
            assert(t[j] == s[j]);
        }
        if i > 0 {
            assert(t[i - 1] == s[i - 1]);
        }
        lemma_trailing_white_space(t, i);
    }
}

/// On a line of ASCII bytes, text and bytes are one: the line is valid
/// text, and its command is that of the bytes from the first to the last
/// that is no whitespace. `from` and `to` mark that part; on a line of
/// nothing but whitespace they are equal.
pub proof fn lemma_command_of_ascii(data: Seq<u8>, from: int, to: int)
    requires
        forall|i: int| 0 <= i < data.len() ==> #[trigger] data[i] < 0x80,
        0 <= from <= to <= data.len(),
        forall|i: int| 0 <= i < from ==> is_white_space_byte(#[trigger] data[i]),
        forall|i: int| to <= i < data.len() ==> is_white_space_byte(#[trigger] data[i]),
        from < to ==> !is_white_space_byte(data[from]) && !is_white_space_byte(data[to - 1]),
    ensures
        valid_utf8(data),
        command_spec(data) == command_of_word(data.subrange(from, to)),
{
    let chars = Seq::new(data.len(), |i: int| data[i] as char);
    assert(is_ascii_chars(chars));
    is_ascii_chars_encode_utf8(chars);
    assert(encode_utf8(chars) =~= data);
    encode_utf8_valid_utf8(chars);
    encode_utf8_decode_utf8(chars);
    assert(decode_utf8(data) == chars);
    assert forall|i: int| 0 <= i < chars.len() implies is_white_space(#[trigger] chars[i])
        == is_white_space_byte(data[i]) by {
        assert(chars[i] as u32 == data[i] as u32);
    }
    if from == to {
        assert forall|j: int| 0 <= j < chars.len() implies is_white_space(#[trigger] chars[j]) by {
            if j < from {
                assert(is_white_space_byte(data[j]));
            } else {
                assert(is_white_space_byte(data[j]));
            }
        }
        lemma_leading_white_space(chars, chars.len() as int);
        assert(trim_text_spec(chars) =~= Seq::<char>::empty());
        assert(encode_utf8(Seq::<char>::empty()) =~= data.subrange(from, to));
    } else {
        assert forall|j: int| 0 <= j < from implies is_white_space(#[trigger] chars[j]) by {
            assert(is_white_space_byte(data[j]));
        }
        assert forall|j: int| to <= j < chars.len() implies is_white_space(#[trigger] chars[j]) by {
            assert(is_white_space_byte(data[j]));
        }
        lemma_leading_white_space(chars, from);
        lemma_trailing_white_space(chars, to);
        let word = chars.subrange(from, to);
        assert(trim_text_spec(chars) == word);
        assert(is_ascii_chars(word));
        is_ascii_chars_encode_utf8(word);
        assert(encode_utf8(word) =~= data.subrange(from, to));
    }
}

/// Every byte before `i` being whitespace, and `i` being the end or no
/// whitespace, `i` is the number of leading whitespace bytes.
proof fn lemma_leading(s: Seq<u8>, i: int)
    requires
        0 <= i <= s.len(),
        forall|j: int| 0 <= j < i ==> is_ascii_space(#[trigger] s[j]),
        i == s.len() || !is_ascii_space(s[i]),
    ensures
        leading_spaces(s) == i,
    decreases i,
{
    if i > 0 {
        let t = s.drop_first();
        assert(is_ascii_space(s[0]));
        assert forall|j: int| 0 <= j < i - 1 implies is_ascii_space(#[trigger] t[j]) by {
            assert(t[j] == s[j + 1]);
        }
        if i < s.len() {
            assert(t[i - 1] == s[i]);
        }
        lemma_leading(t, i - 1);
    }
}

/// Every byte from `i` on being whitespace, and the byte before `i` being
/// none, `s.len() - i` is the number of trailing whitespace bytes.
proof fn lemma_trailing(s: Seq<u8>, i: int)
    requires
        0 <= i <= s.len(),
        forall|j: int| i <= j < s.len() ==> is_ascii_space(#[trigger] s[j]),
        i == 0 || !is_ascii_space(s[i - 1]),
    ensures
        trailing_spaces(s) == s.len() - i,
    decreases s.len() - i,
{
    if i < s.len() {
        let t = s.drop_last();
        assert(is_ascii_space(s.last()));
        assert forall|j: int| i <= j < t.len() implies is_ascii_space(#[trigger] t[j]) by {
            assert(t[j] == s[j]);
        }
        if i > 0 {
            assert(t[i - 1] == s[i - 1]);
        }
        lemma_trailing(t, i);
    }
}

fn is_space(b: u8) -> (r: bool)
    ensures
        r == is_ascii_space(b),
{
    b == 0x20 || b == 0x09 || b == 0x0a || b == 0x0c || b == 0x0d
}

fn lower(b: u8) -> (r: u8)
    ensures
        r == lower_spec(b),
{
    if 0x41 <= b && b <= 0x5a {
        b + 0x20
    } else {
        b
    }
}

/// The part of `x` between its first and its last byte that is no ASCII
/// whitespace, both included; empty where `x` holds nothing else.
pub fn trim_ascii_whitespace(x: &[u8]) -> (r: &[u8])
    ensures
        r@ == trim_spec(x@),
{
    let n: usize = x.len();
    let mut from: usize = 0;
    while from < n && is_space(x[from])
        invariant
            n == x@.len(),
            from <= n,
            forall|j: int| 0 <= j < from ==> is_ascii_space(#[trigger] x@[j]),
        decreases n - from,
    {
        from += 1;
    }
    proof {
        lemma_leading(x@, from as int);
    }
    if from == n {
        return slice_subrange(x, 0, 0);
    }
    let mut to: usize = n;
    while to > from + 1 && is_space(x[to - 1])
        invariant
            n == x@.len(),
            from < to <= n,
            !is_ascii_space(x@[from as int]),
            forall|j: int| to <= j < n ==> is_ascii_space(#[trigger] x@[j]),
        decreases to,
    {
        to -= 1;
    }
    proof {
        lemma_trailing(x@, to as int);
    }
    slice_subrange(x, from, to)
}

/// Whether `a` and `b` are the same bytes up to the case of ASCII letters.
pub fn eq_ignore_ascii_case(a: &[u8], b: &[u8]) -> (r: bool)
    ensures
        r == eq_ignore_case_spec(a@, b@),
{
    if a.len() != b.len() {
        return false;
    }
    let n: usize = a.len();
    let mut i: usize = 0;
    while i < n
        invariant
            n == a@.len(),
            n == b@.len(),
            i <= n,
            forall|j: int| 0 <= j < i ==> lower_spec(#[trigger] a@[j]) == lower_spec(b@[j]),
        decreases n - i,
    {
        if lower(a[i]) != lower(b[i]) {
            return false;
        }
        i += 1;
    }
    true
}

/// Whether `a` and `b` hold the same bytes.
pub fn bytes_equal(a: &[u8], b: &[u8]) -> (r: bool)
    ensures
        r == (a@ == b@),
{
    if a.len() != b.len() {
        return false;
    }
    let n: usize = a.len();
    let mut i: usize = 0;
    while i < n
        invariant
            n == a@.len(),
            n == b@.len(),
            i <= n,
            forall|j: int| 0 <= j < i ==> a@[j] == b@[j],
        decreases n - i,
    {
        if a[i] != b[i] {
            return false;
        }
        i += 1;
    }
    assert(a@ =~= b@);
    true
}

/// Decides what to do with one line from the command channel. The line is
/// read as UTF-8 text and trimmed of the whitespace around it, as text is:
/// the vertical tab and the spaces beyond ASCII are whitespace too.
pub fn parse_command(data: &[u8]) -> (r: Command)
    ensures
        r == command_spec(data@),
{
    let text = match utf8_text(data) {
        Some(text) => text,
        None => {
            return Command::Other;
        },
    };
    let word = trim_text(text).as_bytes();
    let quit: [u8; 1] = [0x71];
    let term: [u8; 12] = [0x65, 0x6c, 0x66, 0x32, 0x75, 0x66, 0x32, 0x2d, 0x74, 0x65, 0x72, 0x6d];
    let hello: [u8; 5] = [0x68, 0x65, 0x6c, 0x6c, 0x6f];
    assert(quit@ =~= quit_word());
    assert(term@ =~= term_word());
    assert(hello@ =~= hello_word());
    if bytes_equal(word, quit.as_slice()) || bytes_equal(word, term.as_slice()) {
        Command::Reboot
    } else if eq_ignore_ascii_case(word, hello.as_slice()) {
        Command::Hello
    } else {
        Command::Other
    }
}

} // verus!
