//! Turning text into the bytes sent to a port, and received bytes into text.

pub mod app_settings;
pub mod history;
pub mod quick_commands;
pub mod no_reset;
pub mod ch341_fix;
pub mod privileges;

use vstd::prelude::*;
use vstd::utf8::{decode_utf8, encode_utf8, is_ascii_chars, valid_utf8};
use crate::text::{append_chars, chars_of, is_white_space, join, string_of};
use crate::types::LineEnding;

verus! {

/// `s` with every white-space character removed, as collecting
/// `split_whitespace()` leaves it.
pub open spec fn strip_white_space(s: Seq<char>) -> Seq<char>
    decreases s.len(),
{
    if s.len() == 0 {
        s
    } else if is_white_space(s.last()) {
        strip_white_space(s.drop_last())
    } else {
        strip_white_space(s.drop_last()).push(s.last())
    }
}

/// The value of a hexadecimal digit (either case).
pub open spec fn hex_digit_value(c: char) -> Option<nat> {
    let u = c as u32;
    if 48 <= u <= 57 {
        Some((u - 48) as nat)
    } else if 97 <= u <= 102 {
        Some((u - 87) as nat)
    } else if 65 <= u <= 70 {
        Some((u - 55) as nat)
    } else {
        None
    }
}

/// The byte written by a pair of hexadecimal digits, if both are digits.
pub open spec fn pair_value(a: char, b: char) -> Option<u8> {
    match (hex_digit_value(a), hex_digit_value(b)) {
        (Some(x), Some(y)) => Some((x * 16 + y) as u8),
        _ => None,
    }
}

/// Decodes consecutive pairs from the front; the error is the first pair
/// that is not a byte.
pub open spec fn decode_pairs(c: Seq<char>) -> Result<Seq<u8>, Seq<char>>
    decreases c.len(),
{
    if c.len() < 2 {
        Ok(seq![])
    } else {
        match pair_value(c[0], c[1]) {
            None => Err(c.take(2)),
            Some(b) => match decode_pairs(c.skip(2)) {
                Ok(rest) => Ok(seq![b] + rest),
                Err(p) => Err(p),
            },
        }
    }
}

/// The message for text that holds characters outside ASCII.
pub open spec fn msg_non_ascii() -> Seq<char> {
    "HEX 格式错误：只允许十六进制字符（0-9 A-F a-f）"@
}

/// The message for an odd number of digits.
pub open spec fn msg_odd_length() -> Seq<char> {
    "HEX 格式错误：字符数必须为偶数"@
}

/// The message that names the first pair that is not a byte.
pub open spec fn msg_bad_pair(pair: Seq<char>) -> Seq<char> {
    "HEX 格式错误：包含非法字符 '"@ + pair + "'"@
}

/// What parsing hexadecimal text gives: white space anywhere is ignored;
/// then the text must be ASCII, of even length, and made of pairs of
/// hexadecimal digits.  The error is the message shown to the user.
pub open spec fn hex_parse(text: Seq<char>) -> Result<Seq<u8>, Seq<char>> {
    let c = strip_white_space(text);
    if !is_ascii_chars(c) {
        Err(msg_non_ascii())
    } else if c.len() % 2 != 0 {
        Err(msg_odd_length())
    } else {
        match decode_pairs(c) {
            Ok(bytes) => Ok(bytes),
            Err(pair) => Err(msg_bad_pair(pair)),
        }
    }
}

fn hex_value(c: char) -> (r: Option<u8>)
    ensures
        r matches Some(v) ==> hex_digit_value(c) == Some(v as nat),
        r is None ==> hex_digit_value(c) is None,
{
    let u = c as u32;
    if 48 <= u && u <= 57 {
        Some((u - 48) as u8)
    } else if 97 <= u && u <= 102 {
        Some((u - 87) as u8)
    } else if 65 <= u && u <= 70 {
        Some((u - 55) as u8)
    } else {
        None
    }
}

fn pair_byte(a: char, b: char) -> (r: Option<u8>)
    ensures
        r == pair_value(a, b),
{
    match (hex_value(a), hex_value(b)) {
        (Some(x), Some(y)) => Some(x * 16 + y),
        _ => None,
    }
}

fn remove_white_space(s: &[char]) -> (t: Vec<char>)
    ensures
        t@ == strip_white_space(s@),
{
    let mut t: Vec<char> = Vec::new();
    let mut i: usize = 0;
    while i < s.len()
        invariant
            i <= s@.len(),
            t@ == strip_white_space(s@.take(i as int)),
        decreases s@.len() - i,
    {
        assert(s@.take(i + 1).drop_last() =~= s@.take(i as int));
        if !crate::text::char_is_whitespace(s[i]) {
            t.push(s[i]);
        }
        i = i + 1;
    }
    assert(s@.take(s@.len() as int) =~= s@);
    t
}

/// Parses hexadecimal text such as `"41 42\n43"` or `"414243"` into bytes.
pub fn parse_hex(text: &str) -> (r: Result<Vec<u8>, String>)
    ensures
        r matches Ok(v) ==> hex_parse(text@) == Ok::<Seq<u8>, Seq<char>>(v@),
        r matches Err(m) ==> hex_parse(text@) == Err::<Seq<u8>, Seq<char>>(m@),
{
    let all = chars_of(text);
    let c = remove_white_space(all.as_slice());
    let n = c.len();
    let mut k: usize = 0;
    while k < n
        invariant
            k <= n,
            n == c@.len(),
            c@ == strip_white_space(text@),
            forall|j: int| 0 <= j < k ==> #[trigger] c@[j] <= '\u{7f}',
        decreases n - k,
    {
        let ch = c[k];
        if !(ch <= '\u{7f}') {
            return Err("HEX 格式错误：只允许十六进制字符（0-9 A-F a-f）".to_string());
        }
        assert(c@[k as int] == ch);
        k = k + 1;
    }
    assert forall|j: int| 0 <= j < c@.len() implies '\0' <= #[trigger] c@[j] <= '\u{7f}' by {
        crate::text::lemma_char_nonnegative(c@[j]);
    }
    assert(is_ascii_chars(c@));
    if n % 2 != 0 {
        return Err("HEX 格式错误：字符数必须为偶数".to_string());
    }
    let mut bytes: Vec<u8> = Vec::new();
    let mut i: usize = 0;
    assert(c@.skip(0) =~= c@);
    assert(forall|r: Seq<u8>| bytes@ + r =~= r);
    while i < n
        invariant
            i <= n,
            n == c@.len(),
            c@ == strip_white_space(text@),
            is_ascii_chars(c@),
            n % 2 == 0,
            i % 2 == 0,
            match decode_pairs(c@.skip(i as int)) {
                Ok(rest) => decode_pairs(c@) == Ok::<Seq<u8>, Seq<char>>(bytes@ + rest),
                Err(p) => decode_pairs(c@) == Err::<Seq<u8>, Seq<char>>(p),
            },
        decreases n - i,
    {
        let ghost tail = c@.skip(i as int);
        assert(tail.skip(2) =~= c@.skip(i + 2));
        match pair_byte(c[i], c[i + 1]) {
            None => {
                let mut msg = chars_of("HEX 格式错误：包含非法字符 '");
                msg.push(c[i]);
                msg.push(c[i + 1]);
                let close = chars_of("'");
                append_chars(&mut msg, close.as_slice());
                assert(tail.take(2) =~= seq![c@[i as int], c@[i + 1]]);
                assert(msg@ =~= msg_bad_pair(tail.take(2)));
                return Err(string_of(msg.as_slice()));
            },
            Some(b) => {
                let ghost before = bytes@;
                bytes.push(b);
                proof {
                    match decode_pairs(c@.skip(i + 2)) {
                        Ok(rest) => {
                            assert(bytes@ + rest =~= before + (seq![b] + rest));
                        },
                        Err(p) => {},
                    }
                }
            },
        }
        i = i + 2;
    }
    assert(c@.skip(n as int) =~= Seq::<char>::empty());
    assert(bytes@ + Seq::<u8>::empty() =~= bytes@);
    Ok(bytes)
}

/// The upper-case hexadecimal digit for `d`, which is below sixteen.
pub open spec fn upper_hex_digit(d: nat) -> char {
    if d < 10 {
        (d + 48) as char
    } else {
        (d + 55) as char
    }
}

/// The two upper-case hexadecimal digits of a byte (`format!("{:02X}", b)`).
pub open spec fn hex_pair(b: u8) -> Seq<char> {
    seq![upper_hex_digit(b as nat / 16), upper_hex_digit(b as nat % 16)]
}

/// The bytes as upper-case hexadecimal pairs separated by single spaces.
pub open spec fn hex_text(data: Seq<u8>) -> Seq<char> {
    join(data.map_values(|b: u8| hex_pair(b)), seq![' '])
}

fn hex_digit_char(d: u8) -> (c: char)
    requires
        d < 16,
    ensures
        c == upper_hex_digit(d as nat),
{
    if d < 10 {
        (d + 48) as char
    } else {
        (d + 55) as char
    }
}

/// Upper-case hexadecimal text of the bytes, one space between bytes
/// (`[0x41, 0x0D]` gives `"41 0D"`).
pub fn bytes_to_hex(data: &[u8]) -> (s: String)
    ensures
        s@ == hex_text(data@),
{
    let mut out: Vec<char> = Vec::new();
    let mut i: usize = 0;
    while i < data.len()
        invariant
            i <= data@.len(),
            out@ == hex_text(data@.take(i as int)),
        decreases data@.len() - i,
    {
        let b = data[i];
        let ghost before = out@;
        let ghost pieces = data@.take(i + 1).map_values(|b: u8| hex_pair(b));
        proof {
            assert(pieces.drop_last() =~= data@.take(i as int).map_values(|b: u8| hex_pair(b)));
            assert(pieces.last() == hex_pair(b));
        }
        if i > 0 {
            out.push(' ');
        }
        out.push(hex_digit_char(b / 16));
        out.push(hex_digit_char(b % 16));
        proof {
            if i == 0 {
                assert(pieces.len() == 1);
                assert(out@ =~= pieces[0]);
            } else {
                assert(out@ =~= before + seq![' '] + hex_pair(b));
            }
        }
        i = i + 1;
    }
    assert(data@.take(data@.len() as int) =~= data@);
    string_of(out.as_slice())
}

/// What `String::from_utf8_lossy` gives for the bytes.
pub uninterp spec fn utf8_lossy(bytes: Seq<u8>) -> Seq<char>;

/// Decodes bytes as UTF-8, each invalid sequence becoming U+FFFD
/// (`String::from_utf8_lossy`).  The contract names the result; it adds
/// only that valid UTF-8 decodes to the characters it encodes, and says
/// nothing of how invalid sequences are cut up.
#[verifier::external_body]
pub(crate) fn decode_lossy(data: &[u8]) -> (s: String)
    ensures
        s@ == utf8_lossy(data@),
        valid_utf8(data@) ==> s@ == decode_utf8(data@),
{
    String::from_utf8_lossy(data).into_owned()
}

/// `s` with each `"\r\n"` replaced by `"\n"`, scanning from the front.
pub open spec fn crlf_to_lf(s: Seq<char>) -> Seq<char>
    decreases s.len(),
{
    if s.len() == 0 {
        s
    } else if s.len() >= 2 && s[0] == '\r' && s[1] == '\n' {
        seq!['\n'] + crlf_to_lf(s.skip(2))
    } else {
        seq![s[0]] + crlf_to_lf(s.skip(1))
    }
}

/// A control character: Unicode general category Cc.
pub open spec fn is_control(c: char) -> bool {
    (c as u32) <= 0x1f || (0x7f <= (c as u32) && (c as u32) <= 0x9f)
}

/// How one character of the decoded text is shown: a lone `'\r'` becomes a
/// line break; control characters other than `'\n'` and `'\t'` become `'.'`.
pub open spec fn shown_char(c: char) -> char {
    if c == '\r' {
        '\n'
    } else if is_control(c) && c != '\n' && c != '\t' {
        '.'
    } else {
        c
    }
}

/// The text shown for decoded input.
pub open spec fn display_chars(decoded: Seq<char>) -> Seq<char> {
    crlf_to_lf(decoded).map_values(|c: char| shown_char(c))
}

fn shown(c: char) -> (d: char)
    ensures
        d == shown_char(c),
{
    let u = c as u32;
    if c == '\r' {
        '\n'
    } else if (u <= 0x1f || (0x7f <= u && u <= 0x9f)) && c != '\n' && c != '\t' {
        '.'
    } else {
        c
    }
}

/// The text shown for already decoded input: line breaks normalised to
/// `'\n'`, control characters shown as `'.'`.
pub fn display_text(decoded: &str) -> (s: String)
    ensures
        s@ == display_chars(decoded@),
{
    let cs = chars_of(decoded);
    let n = cs.len();
    let mut out: Vec<char> = Vec::new();
    let mut i: usize = 0;
    assert(cs@.skip(0) =~= cs@);
    assert(out@ + display_chars(decoded@) =~= display_chars(decoded@));
    while i < n
        invariant
            i <= n,
            n == cs@.len(),
            cs@ == decoded@,
            out@ + crlf_to_lf(cs@.skip(i as int)).map_values(|c: char| shown_char(c))
                == display_chars(decoded@),
        decreases n - i,
    {
        let ghost rest = cs@.skip(i as int);
        let ghost before = out@;
        if i + 1 < n && cs[i] == '\r' && cs[i + 1] == '\n' {
            out.push('\n');
            proof {
                assert(rest.skip(2) =~= cs@.skip(i + 2));
                assert(crlf_to_lf(rest) == seq!['\n'] + crlf_to_lf(rest.skip(2)));
                let tail = crlf_to_lf(rest.skip(2)).map_values(|c: char| shown_char(c));
                assert(crlf_to_lf(rest).map_values(|c: char| shown_char(c)) =~= seq!['\n']
                    + tail);
                assert(out@ + tail =~= before + (seq!['\n'] + tail));
            }
            i = i + 2;
        } else {
            out.push(shown(cs[i]));
            proof {
                assert(rest.skip(1) =~= cs@.skip(i + 1));
                assert(crlf_to_lf(rest) == seq![rest[0]] + crlf_to_lf(rest.skip(1)));
                let tail = crlf_to_lf(rest.skip(1)).map_values(|c: char| shown_char(c));
                assert(crlf_to_lf(rest).map_values(|c: char| shown_char(c)) =~= seq![
                    shown_char(rest[0]),
                ] + tail);
                assert(out@ + tail =~= before + (seq![shown_char(rest[0])] + tail));
            }
            i = i + 1;
        }
    }
    assert(cs@.skip(n as int) =~= Seq::<char>::empty());
    assert(out@ + Seq::<char>::empty() =~= out@);
    string_of(out.as_slice())
}

/// How `<[u8]>::utf8_chunks` splits the bytes: for each chunk, its valid
/// part decoded, and the invalid byte sequence after it.
pub uninterp spec fn utf8_chunk_list(bytes: Seq<u8>) -> Seq<(Seq<char>, Seq<u8>)>;

/// The decoded valid parts of the chunks, one after another.
pub open spec fn valid_text(chunks: Seq<(Seq<char>, Seq<u8>)>) -> Seq<char>
    decreases chunks.len(),
{
    if chunks.len() == 0 {
        seq![]
    } else {
        valid_text(chunks.drop_last()) + chunks.last().0
    }
}

/// The bytes the chunks stand for: each valid part encoded, then its
/// invalid bytes, chunk after chunk.
pub open spec fn chunk_bytes(chunks: Seq<(Seq<char>, Seq<u8>)>) -> Seq<u8>
    decreases chunks.len(),
{
    if chunks.len() == 0 {
        seq![]
    } else {
        chunk_bytes(chunks.drop_last()) + encode_utf8(chunks.last().0) + chunks.last().1
    }
}

/// The text of the chunks as shown: each decoded valid part, followed by
/// one `'.'` where invalid bytes came after it.
pub open spec fn chunk_text(chunks: Seq<(Seq<char>, Seq<u8>)>) -> Seq<char>
    decreases chunks.len(),
{
    if chunks.len() == 0 {
        seq![]
    } else {
        chunk_text(chunks.drop_last()) + chunks.last().0 + if chunks.last().1.len() > 0 {
            seq!['.']
        } else {
            seq![]
        }
    }
}

/// The chunks as plain values: each valid part by its characters, each
/// invalid sequence by its bytes.
pub open spec fn chunk_views(v: Seq<(String, Vec<u8>)>) -> Seq<(Seq<char>, Seq<u8>)> {
    Seq::new(v.len(), |i: int| (v[i].0@, v[i].1@))
}

/// Splits bytes into UTF-8 chunks (`<[u8]>::utf8_chunks`), each given as its
/// valid part and the invalid sequence after it.  The contract names the
/// result and adds what the documentation of `Utf8Chunk` gives: the valid
/// part of a chunk, then its invalid sequence, chunk after chunk, make up
/// the input; an invalid sequence is at most three bytes and is empty only
/// in the last chunk; and it is one that made decoding fail, so valid input
/// has none and its valid parts together are the input decoded.  Where
/// invalid input is cut is left to the name.
#[verifier::external_body]
fn utf8_chunks(data: &[u8]) -> (v: Vec<(String, Vec<u8>)>)
    ensures
        chunk_views(v@) == utf8_chunk_list(data@),
        chunk_bytes(chunk_views(v@)) == data@,
        forall|i: int|
            0 <= i < v@.len() ==> (#[trigger] chunk_views(v@)[i]).1.len() <= 3 && (i + 1 < v@.len()
                ==> chunk_views(v@)[i].1.len() >= 1),
        valid_utf8(data@) ==> (forall|i: int|
            0 <= i < v@.len() ==> (#[trigger] chunk_views(v@)[i]).1.len() == 0) && valid_text(
            chunk_views(v@),
        ) == decode_utf8(data@),
{
    data.utf8_chunks().map(|c| (c.valid().to_string(), c.invalid().to_vec())).collect()
}

proof fn lemma_chunk_text_valid(chunks: Seq<(Seq<char>, Seq<u8>)>)
    requires
        forall|i: int| 0 <= i < chunks.len() ==> (#[trigger] chunks[i]).1.len() == 0,
    ensures
        chunk_text(chunks) == valid_text(chunks),
    decreases chunks.len(),
{
    if chunks.len() > 0 {
        let d = chunks.drop_last();
        assert forall|i: int| 0 <= i < d.len() implies (#[trigger] d[i]).1.len() == 0 by {
            assert(d[i] == chunks[i]);
        }
        lemma_chunk_text_valid(d);
        assert(chunks.last() == chunks[chunks.len() - 1]);
        assert(chunks.last().1.len() == 0);
        assert(chunk_text(chunks) =~= valid_text(chunks));
    }
}

proof fn lemma_chunk_text_step(list: Seq<(Seq<char>, Seq<u8>)>, i: int)
    requires
        0 <= i < list.len(),
    ensures
        chunk_text(list.take(i + 1)) == chunk_text(list.take(i)) + list[i].0 + if list[i].1.len()
            > 0 {
            seq!['.']
        } else {
            seq![]
        },
{
    assert(list.take(i + 1).drop_last() =~= list.take(i));
    assert(list.take(i + 1).last() == list[i]);
}

/// Encoding never takes fewer bytes than there are characters.
proof fn lemma_encode_len(s: Seq<char>)
    ensures
        encode_utf8(s).len() >= s.len(),
    decreases s.len(),
{
    if s.len() > 0 {
        lemma_encode_len(s.drop_first());
        assert(vstd::utf8::encode_scalar(s[0] as u32).len() >= 1);
    }
}

/// The shown text of the chunks is no longer than the bytes they stand for.
proof fn lemma_chunk_text_len(chunks: Seq<(Seq<char>, Seq<u8>)>)
    ensures
        chunk_text(chunks).len() <= chunk_bytes(chunks).len(),
    decreases chunks.len(),
{
    if chunks.len() > 0 {
        lemma_chunk_text_len(chunks.drop_last());
        lemma_encode_len(chunks.last().0);
    }
}

/// Normalising line breaks never lengthens the text.
proof fn lemma_crlf_len(s: Seq<char>)
    ensures
        crlf_to_lf(s).len() <= s.len(),
    decreases s.len(),
{
    if s.len() >= 2 && s[0] == '\r' && s[1] == '\n' {
        lemma_crlf_len(s.skip(2));
    } else if s.len() > 0 {
        lemma_crlf_len(s.skip(1));
    }
}

/// The text shown in the terminal for received bytes: each valid UTF-8 part
/// kept, each invalid byte sequence shown as one `'.'`, then as
/// [`display_text`] gives it.  Valid UTF-8 (U+FFFD and Chinese included)
/// is decoded as it is, and the text never has more characters than there
/// were bytes.
#[verifier::rlimit(40)]
pub fn bytes_to_display(data: &[u8]) -> (s: String)
    ensures
        s@ == display_chars(chunk_text(utf8_chunk_list(data@))),
        valid_utf8(data@) ==> s@ == display_chars(decode_utf8(data@)),
        s@.len() <= data@.len(),
{
    let chunks = utf8_chunks(data);
    let ghost list = utf8_chunk_list(data@);
    let mut cs: Vec<char> = Vec::new();
    let mut i: usize = 0;
    while i < chunks.len()
        invariant
            i <= chunks@.len(),
            chunks@.len() == list.len(),
            list == utf8_chunk_list(data@),
            chunk_views(chunks@) == list,
            cs@ == chunk_text(list.take(i as int)),
        decreases chunks@.len() - i,
    {
        let part = chars_of(chunks[i].0.as_str());
        append_chars(&mut cs, part.as_slice());
        if chunks[i].1.len() > 0 {
            cs.push('.');
        }
        proof {
            lemma_chunk_text_step(list, i as int);
            assert(chunk_views(chunks@)[i as int] == list[i as int]);
            assert(cs@ =~= chunk_text(list.take(i + 1)));
        }
        i = i + 1;
    }
    assert(list.take(list.len() as int) =~= list);
    proof {
        if valid_utf8(data@) {
            lemma_chunk_text_valid(list);
        }
        lemma_chunk_text_len(list);
        lemma_crlf_len(chunk_text(list));
    }
    let text = string_of(cs.as_slice());
    display_text(text.as_str())
}

/// What one read from the open port gave: some bytes (none at the end of
/// input), a time-out, a read that would block, or a failure with its
/// message.
#[derive(Debug)]
pub enum ReadEvent {
    Read(usize),
    TimedOut,
    WouldBlock,
    Failed(String),
}

/// What to do after a read: append the bytes read and read again, stop
/// with what was collected, or give up with the message shown.
#[derive(Debug)]
pub enum ReadStep {
    Append(usize),
    Done,
    Fail(String),
}

/// Reading drains the port: bytes read are appended and reading goes on;
/// the end of input, a time-out or a read that would block ends it; any
/// other failure ends it with `"读取失败: "` and the message.
pub fn read_step(event: &ReadEvent) -> (r: ReadStep)
    ensures
        event matches ReadEvent::Read(n) ==> (if n == 0 {
            r is Done
        } else {
            r matches ReadStep::Append(k) && k == n
        }),
        (event is TimedOut || event is WouldBlock) ==> r is Done,
        event matches ReadEvent::Failed(e) ==> (r matches ReadStep::Fail(m) && m@ == "读取失败: "@
            + e@),
{
    match event {
        ReadEvent::Read(n) => {
            if *n == 0 {
                ReadStep::Done
            } else {
                ReadStep::Append(*n)
            }
        },
        ReadEvent::TimedOut => ReadStep::Done,
        ReadEvent::WouldBlock => ReadStep::Done,
        ReadEvent::Failed(e) => {
            let mut v: Vec<char> = Vec::new();
            crate::text::push_str(&mut v, "读取失败: ");
            crate::text::push_str(&mut v, e.as_str());
            ReadStep::Fail(string_of(v.as_slice()))
        },
    }
}

/// What draining the port gave: nothing when no byte came, else the bytes.
pub fn read_result(collected: Vec<u8>) -> (r: Option<Vec<u8>>)
    ensures
        collected@.len() == 0 ==> r is None,
        collected@.len() > 0 ==> (r matches Some(v) && v@ == collected@),
{
    if collected.len() == 0 {
        None
    } else {
        Some(collected)
    }
}

/// The bytes appended after text sent in ASCII mode.
pub open spec fn line_ending_bytes(le: LineEnding) -> Seq<u8> {
    match le {
        LineEnding::Off => seq![],
        LineEnding::CrLf => seq![13u8, 10u8],
        LineEnding::Lf => seq![10u8],
        LineEnding::Cr => seq![13u8],
    }
}

/// The bytes sent for `text`: in hexadecimal mode the parsed bytes, with no
/// line ending; otherwise the UTF-8 bytes of the text and then the line
/// ending.  The error is the message shown to the user.
pub open spec fn send_payload(text: Seq<char>, hex_mode: bool, le: LineEnding) -> Result<
    Seq<u8>,
    Seq<char>,
> {
    if hex_mode {
        hex_parse(text)
    } else {
        Ok(vstd::utf8::encode_utf8(text) + line_ending_bytes(le))
    }
}

/// The bytes that sending `text` writes to the port.
pub fn encode_send_data(text: &str, hex_mode: bool, line_ending: &LineEnding) -> (r: Result<
    Vec<u8>,
    String,
>)
    ensures
        r matches Ok(v) ==> send_payload(text@, hex_mode, *line_ending) == Ok::<
            Seq<u8>,
            Seq<char>,
        >(v@),
        r matches Err(m) ==> send_payload(text@, hex_mode, *line_ending) == Err::<
            Seq<u8>,
            Seq<char>,
        >(m@),
{
    if hex_mode {
        return parse_hex(text);
    }
    let bytes = text.as_bytes();
    let mut data: Vec<u8> = Vec::new();
    let mut i: usize = 0;
    while i < bytes.len()
        invariant
            i <= bytes@.len(),
            data@ == bytes@.take(i as int),
        decreases bytes@.len() - i,
    {
        data.push(bytes[i]);
        assert(bytes@.take(i + 1) =~= bytes@.take(i as int).push(bytes@[i as int]));
        i = i + 1;
    }
    assert(bytes@.take(bytes@.len() as int) =~= bytes@);
    let ghost body = data@;
    match line_ending {
        LineEnding::Off => {},
        LineEnding::CrLf => {
            data.push(13u8);
            data.push(10u8);
        },
        LineEnding::Lf => {
            data.push(10u8);
        },
        LineEnding::Cr => {
            data.push(13u8);
        },
    }
    assert(data@ =~= body + line_ending_bytes(*line_ending));
    Ok(data)
}

} // verus!
