use vstd::prelude::*;

use crate::decimal::parse_u32;
use crate::error::Error;

verus! {

/// The number of bytes that are read of a "connect" command at most.
pub const REQUEST_BUF_LEN: usize = 32;

/// The number of bytes of the shortest "connect" command, with a port of one
/// digit: this many are asked for at once.
pub const MIN_READ_LEN: usize = 10;

/// Whether a character is white space, as Unicode has it.
pub open spec fn is_white_space(c: char) -> bool {
    ||| '\u{9}' <= c <= '\u{d}'
    ||| c == ' '
    ||| c == '\u{85}'
    ||| c == '\u{a0}'
    ||| c == '\u{1680}'
    ||| '\u{2000}' <= c <= '\u{200a}'
    ||| c == '\u{2028}'
    ||| c == '\u{2029}'
    ||| c == '\u{202f}'
    ||| c == '\u{205f}'
    ||| c == '\u{3000}'
}

/// The number of characters before the first white space.
pub open spec fn word_len(text: Seq<char>) -> nat
    decreases text.len(),
{
    if text.len() == 0 || is_white_space(text[0]) {
        0
    } else {
        1 + word_len(text.drop_first())
    }
}

/// The words of a text: the longest parts of it without white space.
pub open spec fn words(text: Seq<char>) -> Seq<Seq<char>>
    decreases text.len(),
{
    if text.len() == 0 {
        Seq::empty()
    } else if is_white_space(text[0]) {
        words(text.drop_first())
    } else {
        let n = word_len(text) as int;
        proof {
            lemma_word_len(text);
        }
        seq![text.take(n)] + words(text.skip(n))
    }
}

/// A character with upper case letters made lower case. Among the characters
/// outside ASCII none has a letter of the word "connect" as its lower case.
pub open spec fn lower(c: char) -> char {
    if 'A' <= c <= 'Z' {
        (c as u8 + 32) as char
    } else {
        c
    }
}

/// The word "connect".
pub open spec fn connect_word() -> Seq<char> {
    seq!['c', 'o', 'n', 'n', 'e', 'c', 't']
}

/// The port that the text of a "connect" command names: its first word is
/// "connect", in upper or lower case, and its second word is a number.
pub open spec fn requested_port(text: Seq<char>) -> Option<u32> {
    let w = words(text);
    if w.len() >= 2 && w[0].map_values(|c: char| lower(c)) == connect_word() {
        crate::decimal::parsed_u32(w[1])
    } else {
        None
    }
}

/// The port that the bytes of a "connect" command name. They must be UTF-8.
pub open spec fn requested_port_of_bytes(bytes: Seq<u8>) -> Option<u32> {
    if vstd::utf8::valid_utf8(bytes) {
        requested_port(vstd::utf8::decode_utf8(bytes))
    } else {
        None
    }
}

/// What `word_len` counts: characters that are not white space, up to the
/// first that is.
pub proof fn lemma_word_len(text: Seq<char>)
    ensures
        word_len(text) <= text.len(),
        text.len() > 0 && !is_white_space(text[0]) ==> word_len(text) > 0,
        forall|i: int| 0 <= i < word_len(text) ==> !is_white_space(#[trigger] text[i]),
        word_len(text) < text.len() ==> is_white_space(text[word_len(text) as int]),
    decreases text.len(),
{
    if text.len() > 0 && !is_white_space(text[0]) {
        lemma_word_len(text.drop_first());
        assert forall|i: int| 0 <= i < word_len(text) implies !is_white_space(
            #[trigger] text[i],
        ) by {
            if i > 0 {
                assert(text.drop_first()[i - 1] == text[i]);
            }
        }
    }
}

/// A stretch without white space that is followed by white space, or by
/// nothing, is a word.
proof fn lemma_word_len_is(text: Seq<char>, n: nat)
    requires
        n <= text.len(),
        forall|i: int| 0 <= i < n ==> !is_white_space(#[trigger] text[i]),
        n < text.len() ==> is_white_space(text[n as int]),
    ensures
        word_len(text) == n,
{
    lemma_word_len(text);
}

fn is_white(c: char) -> (b: bool)
    ensures
        b == is_white_space(c),
{
    ('\u{9}' <= c && c <= '\u{d}') || c == ' ' || c == '\u{85}' || c == '\u{a0}' || c == '\u{1680}'
        || ('\u{2000}' <= c && c <= '\u{200a}') || c == '\u{2028}' || c == '\u{2029}' || c
        == '\u{202f}' || c == '\u{205f}' || c == '\u{3000}'
}

fn to_lower(c: char) -> (l: char)
    ensures
        l == lower(c),
{
    if 'A' <= c && c <= 'Z' {
        (c as u8 + 32) as char
    } else {
        c
    }
}

/// Finds the first word at or behind position `from`.
fn next_word(text: &Vec<char>, from: usize) -> (word: Option<(usize, usize)>)
    requires
        from <= text.len(),
    ensures
        match word {
            Some((start, end)) => {
                &&& from <= start < end <= text.len()
                &&& words(text@.skip(from as int)) == seq![
                    text@.subrange(start as int, end as int),
                ] + words(text@.skip(end as int))
            },
            None => words(text@.skip(from as int)).len() == 0,
        },
{
    let mut start: usize = from;
    while start < text.len() && is_white(text[start])
        invariant
            from <= start <= text.len(),
            words(text@.skip(start as int)) == words(text@.skip(from as int)),
        decreases text.len() - start,
    {
        assert(text@.skip(start as int).drop_first() =~= text@.skip(start + 1));
        start = start + 1;
    }
    if start == text.len() {
        return None;
    }
    let mut end: usize = start;
    while end < text.len() && !is_white(text[end])
        invariant
            start <= end <= text.len(),
            start < text.len(),
            !is_white_space(text@[start as int]),
            forall|i: int| start <= i < end ==> !is_white_space(#[trigger] text@[i]),
        decreases text.len() - end,
    {
        end = end + 1;
    }
    proof {
        let rest = text@.skip(start as int);
        lemma_word_len_is(rest, (end - start) as nat);
        assert(rest.take(end - start) =~= text@.subrange(start as int, end as int));
        assert(rest.skip(end - start) =~= text@.skip(end as int));
    }
    Some((start, end))
}

/// Whether the word from `start` to `end` is "connect", in upper or lower case.
fn is_connect(text: &Vec<char>, start: usize, end: usize) -> (b: bool)
    requires
        start <= end <= text.len(),
    ensures
        b == (text@.subrange(start as int, end as int).map_values(|c: char| lower(c))
            == connect_word()),
{
    let ghost word = text@.subrange(start as int, end as int).map_values(|c: char| lower(c));
    assert(word.len() == end - start);
    if end - start != 7 {
        assert(word.len() != connect_word().len());
        return false;
    }
    assert forall|i: int| 0 <= i < 7 implies #[trigger] word[i] == lower(text@[start + i]) by {}
    let b = to_lower(text[start]) == 'c' && to_lower(text[start + 1]) == 'o' && to_lower(
        text[start + 2],
    ) == 'n' && to_lower(text[start + 3]) == 'n' && to_lower(text[start + 4]) == 'e' && to_lower(
        text[start + 5],
    ) == 'c' && to_lower(text[start + 6]) == 't';
    proof {
        if b {
            assert(word =~= connect_word());
        } else {
            assert(word[0] != connect_word()[0] || word[1] != connect_word()[1] || word[2]
                != connect_word()[2] || word[3] != connect_word()[3] || word[4] != connect_word()[4]
                || word[5] != connect_word()[5] || word[6] != connect_word()[6]);
        }
    }
    b
}

/// Finds the port that the text of a "connect" command names.
fn parse_request(text: &Vec<char>) -> (port: Option<u32>)
    ensures
        port == requested_port(text@),
{
    assert(text@.skip(0) =~= text@);
    match next_word(text, 0) {
        None => None,
        Some((start, end)) => {
            let ghost w = words(text@);
            assert(w[0] == text@.subrange(start as int, end as int));
            if !is_connect(text, start, end) {
                return None;
            }
            match next_word(text, end) {
                None => None,
                Some((start2, end2)) => {
                    assert(w[1] == text@.subrange(start2 as int, end2 as int));
                    parse_u32(text, start2, end2)
                },
            }
        },
    }
}

/// Calls `std::str::from_utf8`: the bytes as text if they are UTF-8, else
/// nothing.
#[verifier::external_body]
fn text_from_utf8(bytes: &[u8]) -> (text: Option<&str>)
    ensures
        text is Some <==> vstd::utf8::valid_utf8(bytes@),
        text matches Some(s) ==> s@ == vstd::utf8::decode_utf8(bytes@),
{
    std::str::from_utf8(bytes).ok()
}

/// A "connect" command while it is read from a host stream.
pub struct PortRequest {
    buf: Vec<u8>,
    len: usize,
}

/// What has been read of a "connect" command.
#[verifier::ext_equal]
pub struct RequestBytes {
    /// The buffer, which is zero where nothing was read.
    pub buf: Seq<u8>,
    /// The position up to which the buffer counts as read.
    pub len: int,
}

impl RequestBytes {
    /// The buffer after the first read brought `first`.
    pub open spec fn start(first: Seq<u8>) -> RequestBytes {
        RequestBytes {
            buf: first + Seq::new((REQUEST_BUF_LEN - first.len()) as nat, |i: int| 0u8),
            len: MIN_READ_LEN as int,
        }
    }

    /// Whether a further byte is to be read: no line end was read last, and
    /// there is room.
    pub open spec fn wants_byte(self) -> bool {
        self.buf[self.len - 1] != 10 && self.len < REQUEST_BUF_LEN
    }

    /// The buffer with a further byte.
    pub open spec fn push(self, byte: u8) -> RequestBytes {
        RequestBytes { buf: self.buf.update(self.len, byte), len: self.len + 1 }
    }
}

impl View for PortRequest {
    type V = RequestBytes;

    closed spec fn view(&self) -> RequestBytes {
        RequestBytes { buf: self.buf@, len: self.len as int }
    }
}

impl PortRequest {
    /// The buffer has its fixed size, and the first read is done.
    pub open spec fn wf(&self) -> bool {
        &&& self@.buf.len() == REQUEST_BUF_LEN
        &&& MIN_READ_LEN <= self@.len <= REQUEST_BUF_LEN
    }

    /// Takes what the first read of at most `MIN_READ_LEN` bytes brought. It
    /// counts as complete even if it brought fewer.
    pub fn new(first: &[u8]) -> (req: PortRequest)
        requires
            first@.len() <= MIN_READ_LEN,
        ensures
            req.wf(),
            req@ == RequestBytes::start(first@),
    {
        let mut buf: Vec<u8> = Vec::new();
        let mut i: usize = 0;
        while i < REQUEST_BUF_LEN
            invariant
                i <= REQUEST_BUF_LEN,
                first@.len() <= MIN_READ_LEN,
                buf@ =~= RequestBytes::start(first@).buf.take(i as int),
            decreases REQUEST_BUF_LEN - i,
        {
            let byte: u8 = if i < first.len() {
                first[i]
            } else {
                0
            };
            buf.push(byte);
            i = i + 1;
        }
        assert(buf@ =~= RequestBytes::start(first@).buf);
        PortRequest { buf, len: MIN_READ_LEN }
    }

    /// Whether a further byte is to be read.
    pub fn wants_byte(&self) -> (b: bool)
        requires
            self.wf(),
        ensures
            b == self@.wants_byte(),
    {
        self.buf[self.len - 1] != 10 && self.len < REQUEST_BUF_LEN
    }

    /// Takes a further byte.
    pub fn push(&mut self, byte: u8)
        requires
            old(self).wf(),
            old(self)@.wants_byte(),
        ensures
            final(self).wf(),
            final(self)@ == old(self)@.push(byte),
    {
        self.buf.set(self.len, byte);
        self.len = self.len + 1;
    }

    /// The destination port that the command names.
    pub fn port(&self) -> (port: Result<u32, Error>)
        requires
            self.wf(),
        ensures
            port == match requested_port_of_bytes(self@.buf) {
                Some(p) => Ok(p),
                None => Err(Error::InvalidPortRequest),
            },
    {
        match text_from_utf8(self.buf.as_slice()) {
            None => Err(Error::InvalidPortRequest),
            Some(s) => {
                let n: usize = s.unicode_len();
                let mut text: Vec<char> = Vec::new();
                let mut i: usize = 0;
                while i < n
                    invariant
                        i <= n,
                        n == s@.len(),
                        text@ =~= s@.take(i as int),
                    decreases n - i,
                {
                    text.push(s.get_char(i));
                    i = i + 1;
                }
                assert(text@ =~= s@);
                match parse_request(&text) {
                    Some(p) => Ok(p),
                    None => Err(Error::InvalidPortRequest),
                }
            },
        }
    }
}

/// The bytes of the command that asks for `port`: the word "connect", a space,
/// the port in decimal and a line end.
pub open spec fn connect_command(port: u32) -> Seq<u8> {
    seq![99u8, 111u8, 110u8, 110u8, 101u8, 99u8, 116u8, 32u8] + crate::decimal::decimal_digits(
        port as nat,
    ) + seq![10u8]
}

/// What has been read after the first `k` bytes of `command` have arrived.
pub open spec fn request_after(command: Seq<u8>, k: int) -> RequestBytes {
    RequestBytes { buf: RequestBytes::start(command.take(k)).buf, len: k }
}

/// Bytes of ASCII characters are UTF-8, and stand for one character each.
proof fn lemma_ascii_is_utf8(bytes: Seq<u8>)
    requires
        forall|i: int| 0 <= i < bytes.len() ==> #[trigger] bytes[i] < 128,
    ensures
        vstd::utf8::valid_utf8(bytes),
        vstd::utf8::decode_utf8(bytes) == bytes.map_values(|b: u8| b as char),
{
    let chars = bytes.map_values(|b: u8| b as char);
    assert(vstd::utf8::is_ascii_chars(chars)) by {
        assert forall|i: int| 0 <= i < chars.len() implies '\0' <= #[trigger] chars[i] <= '\u{7f}' by {
            assert(bytes[i] < 128);
        }
    }
    vstd::utf8::is_ascii_chars_encode_utf8(chars);
    assert(vstd::utf8::encode_utf8(chars) =~= bytes) by {
        assert forall|i: int| 0 <= i < bytes.len() implies vstd::utf8::encode_utf8(chars)[i]
            == bytes[i] by {
            assert(chars[i] as u8 == vstd::utf8::encode_utf8(chars)[i]);
            let b = bytes[i];
            assert(b < 128);
            assert(chars[i] == b as char);
        }
    }
    vstd::utf8::encode_utf8_valid_utf8(chars);
    vstd::utf8::encode_utf8_decode_utf8(chars);
}

/// A "connect" command for a port is read up to its line end, and is then
/// understood as asking for that port.
pub proof fn connect_command_is_understood(port: u32)
    ensures
        ({
            let command = connect_command(port);
            let n = command.len() as int;
            &&& MIN_READ_LEN <= n <= REQUEST_BUF_LEN
            &&& RequestBytes::start(command.take(MIN_READ_LEN as int)) == request_after(
                command,
                MIN_READ_LEN as int,
            )
            &&& forall|k: int|
                MIN_READ_LEN <= k < n ==> (#[trigger] request_after(command, k)).wants_byte()
                    && request_after(command, k).push(command[k]) == request_after(command, k + 1)
            &&& !request_after(command, n).wants_byte()
            &&& requested_port_of_bytes(request_after(command, n).buf) == Some(port)
        }),
{
    let digits = crate::decimal::decimal_digits(port as nat);
    let command = connect_command(port);
    let n = command.len() as int;
    crate::decimal::lemma_decimal_digits(port as nat);
    assert(digits.len() <= 10) by {
        assert(vstd::arithmetic::power::pow(10, 10) == 10_000_000_000) by {
            reveal_with_fuel(vstd::arithmetic::power::pow, 11);
        }
        crate::decimal::lemma_decimal_digits_len(port as nat, 10);
    }
    assert forall|i: int| 8 <= i < n - 1 implies #[trigger] command[i] == digits[i - 8] by {}
    assert forall|k: int| MIN_READ_LEN <= k < n implies (#[trigger] request_after(
        command,
        k,
    )).wants_byte() && request_after(command, k).push(command[k]) == request_after(
        command,
        k + 1,
    ) by {
        assert(request_after(command, k).buf[k - 1] == command[k - 1]);
        assert(digits[k - 1 - 8] >= 48);
        assert(request_after(command, k).push(command[k]).buf =~= request_after(
            command,
            k + 1,
        ).buf);
    }
    assert(command.take(n) =~= command);
    let buf = request_after(command, n).buf;
    assert(buf[n - 1] == 10);
    // The text of the buffer: the word, a space, the digits, a line end, zeros.
    assert forall|i: int| 0 <= i < buf.len() implies #[trigger] buf[i] < 128 by {
        if 8 <= i < n - 1 {
            assert(buf[i] == command[i]);
        }
    }
    lemma_ascii_is_utf8(buf);
    let text = buf.map_values(|b: u8| b as char);
    assert forall|i: int| 0 <= i < n implies #[trigger] text[i] == command[i] as char by {
        assert(buf[i] == command[i]);
    }
    lemma_word_len_is(text, 7);
    let rest1 = text.skip(7);
    assert(text.take(7).map_values(|c: char| lower(c)) =~= connect_word());
    assert(words(text) == seq![text.take(7)] + words(rest1));
    let rest2 = rest1.drop_first();
    assert(rest2 =~= text.skip(8));
    assert(is_white_space(rest1[0]));
    assert(words(rest1) == words(rest2));
    let d = digits.len();
    assert forall|i: int| 0 <= i < d implies !is_white_space(#[trigger] rest2[i]) by {
        assert(rest2[i] == text[i + 8]);
        assert(command[i + 8] == digits[i]);
    }
    assert(rest2[d as int] == text[n - 1]);
    lemma_word_len_is(rest2, d);
    assert(rest2.take(d as int) =~= crate::decimal::decimal_chars(port as nat)) by {
        assert forall|i: int| 0 <= i < d implies rest2[i] == crate::decimal::decimal_chars(
            port as nat,
        )[i] by {
            assert(rest2[i] == text[i + 8]);
            assert(command[i + 8] == digits[i]);
        }
    }
    assert(words(rest2) == seq![rest2.take(d as int)] + words(rest2.skip(d as int)));
    assert(words(text)[0] == text.take(7));
    assert(words(text)[1] == rest2.take(d as int));
    crate::decimal::decimal_round_trip(port);
}

/// White space by code point.
pub proof fn white_space_by_code_point(c: char)
    ensures
        ({
            let n = c as u32;
            is_white_space(c) == (9 <= n <= 13 || n == 32 || n == 133 || n == 160 || n == 5760
                || 8192 <= n <= 8202 || n == 8232 || n == 8233 || n == 8239 || n == 8287 || n
                == 12288)
        }),
{
}

/// How a text falls into words: white space in front does not matter, characters
/// up to the next white space are a word, and so is what is left without any.
pub proof fn text_falls_into_words(word: Seq<char>, space: char, rest: Seq<char>)
    requires
        is_white_space(space),
        word.len() > 0,
        forall|i: int| 0 <= i < word.len() ==> !is_white_space(#[trigger] word[i]),
    ensures
        words(Seq::<char>::empty()).len() == 0,
        words(seq![space] + rest) == words(rest),
        words(word) == seq![word],
        words(word.push(space) + rest) == seq![word] + words(rest),
{
    let n = word.len() as int;
    assert((seq![space] + rest).drop_first() =~= rest);
    assert((seq![space] + rest)[0] == space);
    lemma_word_len_is(word, word.len());
    assert(word.take(n) =~= word);
    assert(word.skip(n) =~= Seq::<char>::empty());
    assert(words(Seq::<char>::empty()) =~= Seq::<Seq<char>>::empty());
    assert(words(word) =~= seq![word]);
    let text = word.push(space) + rest;
    assert forall|i: int| 0 <= i < n implies !is_white_space(#[trigger] text[i]) by {
        assert(text[i] == word[i]);
    }
    assert(text[n] == space);
    lemma_word_len_is(text, word.len());
    assert(text.take(n) =~= word);
    let left = text.skip(n);
    assert(left.drop_first() =~= rest);
    assert(left[0] == space);
    assert(words(left) == words(rest));
}

/// A text asks for a port exactly if its first word is "connect", each letter in
/// upper or lower case; it then asks for the number that its second word is.
/// What follows does not matter.
pub proof fn port_is_asked_for_by_two_words(text: Seq<char>)
    ensures
        ({
            let w = words(text);
            let c = w[0];
            let named = w.len() >= 2 && c.len() == 7 && (c[0] == 'c' || c[0] == 'C') && (c[1] == 'o'
                || c[1] == 'O') && (c[2] == 'n' || c[2] == 'N') && (c[3] == 'n' || c[3] == 'N')
                && (c[4] == 'e' || c[4] == 'E') && (c[5] == 'c' || c[5] == 'C') && (c[6] == 't'
                || c[6] == 'T');
            &&& named ==> requested_port(text) == crate::decimal::parsed_u32(w[1])
            &&& !named ==> requested_port(text) is None
        }),
{
    let w = words(text);
    if w.len() >= 2 {
        let c = w[0];
        let low = c.map_values(|x: char| lower(x));
        if c.len() == 7 {
            lemma_lower(c[0], 'c', 'C');
            lemma_lower(c[1], 'o', 'O');
            lemma_lower(c[2], 'n', 'N');
            lemma_lower(c[3], 'n', 'N');
            lemma_lower(c[4], 'e', 'E');
            lemma_lower(c[5], 'c', 'C');
            lemma_lower(c[6], 't', 'T');
            assert forall|i: int| 0 <= i < 7 implies #[trigger] low[i] == lower(c[i]) by {}
            if lower(c[0]) == 'c' && lower(c[1]) == 'o' && lower(c[2]) == 'n' && lower(c[3]) == 'n'
                && lower(c[4]) == 'e' && lower(c[5]) == 'c' && lower(c[6]) == 't' {
                assert(low =~= connect_word());
            } else {
                assert(low[0] != connect_word()[0] || low[1] != connect_word()[1] || low[2]
                    != connect_word()[2] || low[3] != connect_word()[3] || low[4]
                    != connect_word()[4] || low[5] != connect_word()[5] || low[6]
                    != connect_word()[6]);
            }
        } else {
            assert(low.len() != connect_word().len());
        }
    }
}

/// A character has a letter as its lower case exactly if it is that letter in
/// either case.
proof fn lemma_lower(c: char, low: char, up: char)
    requires
        'a' <= low <= 'z',
        up as int == low as int - 32,
    ensures
        lower(c) == low <==> c == low || c == up,
{
    if 'A' <= c <= 'Z' {
        assert(lower(c) as int == c as int + 32);
    }
}

/// Bytes ask for what the text that they encode asks for, and for nothing if
/// they encode none.
pub proof fn bytes_ask_for_what_their_text_asks_for(text: Seq<char>, bytes: Seq<u8>)
    ensures
        requested_port_of_bytes(vstd::utf8::encode_utf8(text)) == requested_port(text),
        !vstd::utf8::valid_utf8(bytes) ==> requested_port_of_bytes(bytes) is None,
{
    vstd::utf8::encode_utf8_valid_utf8(text);
    vstd::utf8::encode_utf8_decode_utf8(text);
}

/// The first read fills the buffer of 32 bytes from its beginning, with zeros
/// behind, and counts as ten bytes. Reading goes on byte by byte, each at its
/// place, until a line end is read last or the buffer is full.
pub proof fn command_is_read_up_to_its_line_end(first: Seq<u8>, r: RequestBytes, byte: u8, i: int)
    requires
        first.len() <= 10,
        r.buf.len() == 32,
        10 <= r.len <= 32,
    ensures
        RequestBytes::start(first).len == 10,
        RequestBytes::start(first).buf.len() == 32,
        0 <= i < first.len() ==> RequestBytes::start(first).buf[i] == first[i],
        first.len() <= i < 32 ==> RequestBytes::start(first).buf[i] == 0,
        r.wants_byte() == (r.buf[r.len - 1] != 10 && r.len < 32),
        r.len < 32 ==> {
            &&& r.push(byte).len == r.len + 1
            &&& r.push(byte).buf.len() == 32
            &&& r.push(byte).buf[r.len] == byte
            &&& 0 <= i < 32 && i != r.len ==> r.push(byte).buf[i] == r.buf[i]
        },
{
}

} // verus!
