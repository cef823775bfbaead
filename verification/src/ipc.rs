//! The IPC wire vocabulary and its codec.  A request is one line of UTF-8
//! text — a command word, case-insensitive, surrounded by optional
//! whitespace.  A response is one line of JSON: `{"ok":null}`, an error
//! object, or a status object.  Both directions are framed and checked
//! here; the socket itself lives outside the library.

use vstd::prelude::*;
use vstd::string::{StringSliceAdditionalSpecFns, StrSliceExecFns};
use vstd::utf8::encode_utf8;

verus! {

/// Commands sent from a client to the daemon.
#[derive(Debug, Clone, Copy, PartialEq, Eq, Structural)]
pub enum IpcCommand {
    /// Show the window switcher (start switching mode).
    Show,
    /// Cycle to the next window.
    Next,
    /// Cycle to the previous window.
    Prev,
    /// Select the current window and close the switcher.
    Select,
    /// Cancel switching without selecting.
    Cancel,
    /// Query daemon status.
    Status,
    /// Shut the daemon down gracefully.
    Shutdown,
}

/// Commands a local input source (the UI's keyboard capture) feeds the
/// daemon while a session runs.
#[derive(Debug, Clone, Copy, PartialEq, Eq, Structural)]
pub enum InputCommand {
    /// Cycle to the next window.
    Next,
    /// Cycle to the previous window.
    Prev,
    /// Select the current window and close the switcher.
    Select,
    /// Cancel switching without selecting.
    Cancel,
}

/// Responses from the daemon to a client.
#[derive(Debug)]
pub enum IpcResponse {
    /// The command was accepted.
    Accepted,
    /// The request was not understood, or could not be carried out.
    Error(String),
    /// The state of the daemon, for the `status` command.
    Status { switching: bool, window_count: usize, current_index: Option<usize> },
}

/// The error of decoding a request line that names no command.
#[derive(Debug, Clone, Copy, PartialEq, Eq, Structural)]
pub struct ParseIpcCommandError;

// ---------------------------------------------------------------------
// Request decoding.
// ---------------------------------------------------------------------

/// Whitespace as a request line is trimmed of it: the characters of the
/// Unicode `White_Space` property.
pub open spec fn is_ws_char(c: char) -> bool {
    ||| c == '\u{9}'
    ||| c == '\u{a}'
    ||| c == '\u{b}'
    ||| c == '\u{c}'
    ||| c == '\u{d}'
    ||| c == ' '
    ||| c == '\u{85}'
    ||| c == '\u{a0}'
    ||| c == '\u{1680}'
    ||| ('\u{2000}' <= c && c <= '\u{200a}')
    ||| c == '\u{2028}'
    ||| c == '\u{2029}'
    ||| c == '\u{202f}'
    ||| c == '\u{205f}'
    ||| c == '\u{3000}'
}

/// An ASCII upper-case letter folded to lower case; every other character
/// passes through.  The command words are ASCII, and no character outside
/// ASCII lower-cases to a letter these words use, so this folding decides
/// the same matches as full Unicode lower-casing would.
pub open spec fn lower_char(c: char) -> char {
    if 'A' <= c && c <= 'Z' {
        ((c as u8) + 32) as char
    } else {
        c
    }
}

/// The line with each character case-folded.
pub open spec fn lowered(s: Seq<char>) -> Seq<char> {
    s.map_values(|c: char| lower_char(c))
}

/// The line without its leading whitespace.
pub open spec fn trim_front(s: Seq<char>) -> Seq<char>
    decreases s.len(),
{
    if s.len() > 0 && is_ws_char(s[0]) {
        trim_front(s.drop_first())
    } else {
        s
    }
}

/// The line without its trailing whitespace.
pub open spec fn trim_back(s: Seq<char>) -> Seq<char>
    decreases s.len(),
{
    if s.len() > 0 && is_ws_char(s.last()) {
        trim_back(s.drop_last())
    } else {
        s
    }
}

/// The line without leading and trailing whitespace.
pub open spec fn trimmed(s: Seq<char>) -> Seq<char> {
    trim_back(trim_front(s))
}

/// What a request line decodes to: the command whose word the trimmed,
/// case-folded line spells, if any.
pub open spec fn parsed_command(s: Seq<char>) -> Option<IpcCommand> {
    let c = lowered(trimmed(s));
    if c == ("show")@ {
        Some(IpcCommand::Show)
    } else if c == ("next")@ {
        Some(IpcCommand::Next)
    } else if c == ("prev")@ {
        Some(IpcCommand::Prev)
    } else if c == ("select")@ {
        Some(IpcCommand::Select)
    } else if c == ("cancel")@ {
        Some(IpcCommand::Cancel)
    } else if c == ("status")@ {
        Some(IpcCommand::Status)
    } else if c == ("shutdown")@ {
        Some(IpcCommand::Shutdown)
    } else {
        None
    }
}

/// Whether this character is request-line whitespace.
fn is_ws(c: char) -> (r: bool)
    ensures
        r == is_ws_char(c),
{
    c == '\u{9}' || c == '\u{a}' || c == '\u{b}' || c == '\u{c}' || c == '\u{d}' || c == ' '
        || c == '\u{85}' || c == '\u{a0}' || c == '\u{1680}' || ('\u{2000}' <= c && c
        <= '\u{200a}') || c == '\u{2028}' || c == '\u{2029}' || c == '\u{202f}' || c == '\u{205f}'
        || c == '\u{3000}'
}

/// This character case-folded.
fn ascii_lower(c: char) -> (r: char)
    ensures
        r == lower_char(c),
{
    if 'A' <= c && c <= 'Z' {
        ((c as u8) + 32) as char
    } else {
        c
    }
}

/// Whether the characters `line[lo..hi]`, case-folded, spell the
/// (lower-case ASCII) keyword.
fn matches_keyword(line: &str, lo: usize, hi: usize, kw: &str) -> (r: bool)
    requires
        lo <= hi <= line@.len(),
    ensures
        r == (lowered(line@.subrange(lo as int, hi as int)) == kw@),
{
    let ghost part = line@.subrange(lo as int, hi as int);
    let kn = kw.unicode_len();
    if hi - lo != kn {
        proof {
            assert(lowered(part).len() == part.len());
        }
        return false;
    }
    let mut m: usize = 0;
    while m < kn
        invariant
            0 <= m <= kn,
            lo <= hi <= line@.len(),
            hi - lo == kn,
            kn == kw@.len(),
            part == line@.subrange(lo as int, hi as int),
            forall|x: int| 0 <= x < m ==> lower_char(part[x]) == kw@[x],
        decreases kn - m,
    {
        let c = ascii_lower(line.get_char(lo + m));
        if c != kw.get_char(m) {
            proof {
                assert(lowered(part)[m as int] == lower_char(part[m as int]));
                assert(part[m as int] == line@[lo + m]);
            }
            return false;
        }
        proof {
            assert(part[m as int] == line@[lo + m]);
        }
        m += 1;
    }
    proof {
        assert(lowered(part) =~= kw@);
    }
    true
}

impl IpcCommand {
    /// The command word this request line spells, or the decode error.  A
    /// line decodes case-insensitively with surrounding whitespace
    /// (spaces, tabs, the newline that framed the line) ignored.
    pub fn from_line(line: &str) -> (r: Result<IpcCommand, ParseIpcCommandError>)
        ensures
            match r {
                Ok(c) => parsed_command(line@) == Some(c),
                Err(e) => parsed_command(line@) is None && e == ParseIpcCommandError,
            },
    {
        let n = line.unicode_len();
        let ghost whole = line@;

        // Find the first character after the leading whitespace.
        let mut lo: usize = 0;
        proof {
            assert(whole.skip(0) =~= whole);
        }
        loop
            invariant_except_break
                0 <= lo <= n,
                whole == line@,
                n == whole.len(),
                trim_front(whole) == trim_front(whole.skip(lo as int)),
            ensures
                0 <= lo <= n,
                whole == line@,
                n == whole.len(),
                trim_front(whole) == whole.skip(lo as int),
            decreases n - lo,
        {
            if lo == n {
                proof {
                    assert(whole.skip(n as int) =~= Seq::<char>::empty());
                }
                break;
            }
            proof {
                assert(whole.skip(lo as int)[0] == whole[lo as int]);
            }
            if !is_ws(line.get_char(lo)) {
                break;
            }
            proof {
                assert(whole.skip(lo as int).drop_first() =~= whole.skip(lo + 1 as int));
            }
            lo = lo + 1;
        }

        // Find the last character before the trailing whitespace.
        let ghost front = whole.skip(lo as int);
        let mut hi: usize = n;
        proof {
            assert(front.take(n - lo as int) =~= front);
        }
        loop
            invariant_except_break
                lo <= hi <= n,
                whole == line@,
                n == whole.len(),
                front == whole.skip(lo as int),
                trim_front(whole) == front,
                trim_back(front) == trim_back(front.take(hi - lo as int)),
            ensures
                lo <= hi <= n,
                whole == line@,
                n == whole.len(),
                trimmed(whole) == front.take(hi - lo as int),
            decreases hi,
        {
            if hi == lo {
                proof {
                    assert(front.take(0) =~= Seq::<char>::empty());
                }
                break;
            }
            proof {
                assert(front.take(hi - lo as int).last() == whole[hi - 1 as int]);
            }
            if !is_ws(line.get_char(hi - 1)) {
                break;
            }
            proof {
                assert(front.take(hi - lo as int).drop_last() =~= front.take(hi - 1 - lo as int));
            }
            hi = hi - 1;
        }
        proof {
            assert(whole.skip(lo as int).take(hi - lo as int) =~= whole.subrange(
                lo as int,
                hi as int,
            ));
            assert(trimmed(whole) == whole.subrange(lo as int, hi as int));
        }

        if matches_keyword(line, lo, hi, "show") {
            Ok(IpcCommand::Show)
        } else if matches_keyword(line, lo, hi, "next") {
            Ok(IpcCommand::Next)
        } else if matches_keyword(line, lo, hi, "prev") {
            Ok(IpcCommand::Prev)
        } else if matches_keyword(line, lo, hi, "select") {
            Ok(IpcCommand::Select)
        } else if matches_keyword(line, lo, hi, "cancel") {
            Ok(IpcCommand::Cancel)
        } else if matches_keyword(line, lo, hi, "status") {
            Ok(IpcCommand::Status)
        } else if matches_keyword(line, lo, hi, "shutdown") {
            Ok(IpcCommand::Shutdown)
        } else {
            Err(ParseIpcCommandError)
        }
    }

    /// The lower-case wire word of the command.
    pub open spec fn text_spec(&self) -> Seq<char> {
        match self {
            IpcCommand::Show => ("show")@,
            IpcCommand::Next => ("next")@,
            IpcCommand::Prev => ("prev")@,
            IpcCommand::Select => ("select")@,
            IpcCommand::Cancel => ("cancel")@,
            IpcCommand::Status => ("status")@,
            IpcCommand::Shutdown => ("shutdown")@,
        }
    }

    /// The wire word of this command, as written on a request line.
    pub fn as_text(&self) -> (r: &'static str)
        ensures
            r@ == self.text_spec(),
    {
        match self {
            IpcCommand::Show => "show",
            IpcCommand::Next => "next",
            IpcCommand::Prev => "prev",
            IpcCommand::Select => "select",
            IpcCommand::Cancel => "cancel",
            IpcCommand::Status => "status",
            IpcCommand::Shutdown => "shutdown",
        }
    }
}

/// The trimmed, case-folded form of a non-empty, all-lower-case ASCII
/// word is the word itself.
proof fn lemma_canonical_word(s: &str)
    requires
        s@.len() > 0,
        forall|i: int| 0 <= i < s@.len() ==> 'a' <= #[trigger] s@[i] <= 'z',
    ensures
        lowered(trimmed(s@)) == s@,
{
    let t = s@;
    assert(!is_ws_char(t[0]));
    assert(trim_front(t) == t);
    assert(!is_ws_char(t[t.len() - 1]));
    assert(trim_back(t) == t);
    assert(lowered(t) =~= t) by {
        assert forall|i: int| 0 <= i < t.len() implies lower_char(t[i]) == t[i] by {}
    }
}

/// Writing a command's wire word and decoding the line gives the command
/// back: the codec round-trips.
pub proof fn lemma_wire_roundtrip(cmd: IpcCommand)
    ensures
        parsed_command(cmd.text_spec()) == Some(cmd),
{
    reveal_strlit("show");
    reveal_strlit("next");
    reveal_strlit("prev");
    reveal_strlit("select");
    reveal_strlit("cancel");
    reveal_strlit("status");
    reveal_strlit("shutdown");
    match cmd {
        IpcCommand::Show => {
            lemma_canonical_word("show");
        },
        IpcCommand::Next => {
            lemma_canonical_word("next");
            assert(("next")@[0] != ("show")@[0]);
        },
        IpcCommand::Prev => {
            lemma_canonical_word("prev");
            assert(("prev")@[0] != ("show")@[0]);
            assert(("prev")@[0] != ("next")@[0]);
        },
        IpcCommand::Select => {
            lemma_canonical_word("select");
            assert(("select")@.len() != ("show")@.len());
        },
        IpcCommand::Cancel => {
            lemma_canonical_word("cancel");
            assert(("cancel")@[0] != ("select")@[0]);
        },
        IpcCommand::Status => {
            lemma_canonical_word("status");
            assert(("status")@[1] != ("select")@[1]);
            assert(("status")@[0] != ("cancel")@[0]);
        },
        IpcCommand::Shutdown => {
            lemma_canonical_word("shutdown");
            assert(("shutdown")@.len() != ("show")@.len());
            assert(("shutdown")@.len() != ("select")@.len());
        },
    }
}

impl core::str::FromStr for IpcCommand {
    type Err = ParseIpcCommandError;

    fn from_str(s: &str) -> Result<IpcCommand, ParseIpcCommandError> {
        IpcCommand::from_line(s)
    }
}

// ---------------------------------------------------------------------
// Response encoding.
// ---------------------------------------------------------------------

/// The hexadecimal digit of a value below sixteen, lower case.
pub open spec fn hex_digit(n: u8) -> u8 {
    if n < 10 {
        (48 + n) as u8
    } else {
        (87 + n) as u8
    }
}

/// How one byte of a JSON string body is written: quote and backslash get
/// a backslash escape, control bytes their short escape or `\u00XX`, and
/// every other byte — including every byte of a multi-byte UTF-8
/// sequence — passes through.
pub open spec fn escape_byte(b: u8) -> Seq<u8> {
    if b == 34 {
        seq![92u8, 34u8]
    } else if b == 92 {
        seq![92u8, 92u8]
    } else if b == 8 {
        seq![92u8, 98u8]
    } else if b == 9 {
        seq![92u8, 116u8]
    } else if b == 10 {
        seq![92u8, 110u8]
    } else if b == 12 {
        seq![92u8, 102u8]
    } else if b == 13 {
        seq![92u8, 114u8]
    } else if b < 32 {
        seq![92u8, 117u8, 48u8, 48u8, hex_digit(b / 16), hex_digit(b % 16)]
    } else {
        seq![b]
    }
}

/// A byte sequence escaped for a JSON string body.
pub open spec fn json_escaped(s: Seq<u8>) -> Seq<u8>
    decreases s.len(),
{
    if s.len() == 0 {
        Seq::empty()
    } else {
        json_escaped(s.drop_last()) + escape_byte(s.last())
    }
}

/// The decimal digits of a number, most significant first.
pub open spec fn dec_bytes(n: nat) -> Seq<u8>
    decreases n,
{
    if n < 10 {
        seq![(48 + n) as u8]
    } else {
        dec_bytes(n / 10).push((48 + n % 10) as u8)
    }
}

/// The JSON spelling of a boolean.
pub open spec fn bool_bytes(b: bool) -> Seq<u8> {
    if b {
        ("true").spec_bytes()
    } else {
        ("false").spec_bytes()
    }
}

/// The one line of JSON that answers a request: `{"ok":null}`, an error
/// object carrying the escaped message, or the status object.
pub open spec fn response_bytes(r: IpcResponse) -> Seq<u8> {
    match r {
        IpcResponse::Accepted => ("{\"ok\":null}").spec_bytes(),
        IpcResponse::Error(m) => ("{\"error\":\"").spec_bytes() + json_escaped(encode_utf8(m@))
            + ("\"}").spec_bytes(),
        IpcResponse::Status { switching, window_count, current_index } => (
        "{\"status\":{\"switching\":").spec_bytes() + bool_bytes(switching)
            + (",\"window_count\":").spec_bytes() + dec_bytes(window_count as nat)
            + (",\"current_index\":").spec_bytes() + (match current_index {
            Some(i) => dec_bytes(i as nat),
            None => ("null").spec_bytes(),
        }) + ("}}").spec_bytes(),
    }
}

/// Append the bytes of a literal piece of the response.
fn push_literal(out: &mut Vec<u8>, s: &str)
    ensures
        final(out)@ == old(out)@ + s.spec_bytes(),
{
    let ghost base = out@;
    let bs = s.as_bytes();
    out.extend_from_slice(bs);
    proof {
        assert forall|i: int| 0 <= i < bs@.len() implies out@[base.len() + i] == bs@[i] by {
            assert(vstd::pervasive::cloned::<u8>(bs@[i], out@[base.len() + i]));
        }
        assert(out@ =~= base + s.spec_bytes());
    }
}

/// Append the decimal digits of a number.
fn push_decimal(out: &mut Vec<u8>, n: usize)
    ensures
        final(out)@ == old(out)@ + dec_bytes(n as nat),
    decreases n,
{
    if n < 10 {
        out.push(48 + n as u8);
        proof {
            assert(out@ =~= old(out)@ + dec_bytes(n as nat));
        }
    } else {
        push_decimal(out, n / 10);
        out.push(48 + (n % 10) as u8);
        proof {
            assert(out@ =~= old(out)@ + dec_bytes(n as nat));
        }
    }
}

/// The hexadecimal digit of a value below sixteen.
fn hex_digit_of(n: u8) -> (r: u8)
    requires
        n < 16,
    ensures
        r == hex_digit(n),
{
    if n < 10 {
        48 + n
    } else {
        87 + n
    }
}

/// Append a message's bytes escaped for a JSON string body.
fn push_escaped(out: &mut Vec<u8>, bytes: &[u8])
    ensures
        final(out)@ == old(out)@ + json_escaped(bytes@),
{
    let ghost base = old(out)@;
    let n = bytes.len();
    let mut i: usize = 0;
    while i < n
        invariant
            0 <= i <= n,
            n == bytes@.len(),
            out@ == base + json_escaped(bytes@.take(i as int)),
        decreases n - i,
    {
        let ghost sofar = out@;
        let b = bytes[i];
        if b == 34 {
            out.push(92);
            out.push(34);
        } else if b == 92 {
            out.push(92);
            out.push(92);
        } else if b == 8 {
            out.push(92);
            out.push(98);
        } else if b == 9 {
            out.push(92);
            out.push(116);
        } else if b == 10 {
            out.push(92);
            out.push(110);
        } else if b == 12 {
            out.push(92);
            out.push(102);
        } else if b == 13 {
            out.push(92);
            out.push(114);
        } else if b < 32 {
            out.push(92);
            out.push(117);
            out.push(48);
            out.push(48);
            out.push(hex_digit_of(b / 16));
            out.push(hex_digit_of(b % 16));
        } else {
            out.push(b);
        }
        proof {
            assert(out@ =~= sofar + escape_byte(bytes@[i as int]));
            assert(bytes@.take(i + 1 as int).drop_last() =~= bytes@.take(i as int));
            assert(bytes@.take(i + 1 as int).last() == bytes@[i as int]);
            assert(out@ =~= base + json_escaped(bytes@.take(i + 1 as int)));
        }
        i += 1;
    }
    proof {
        assert(bytes@.take(n as int) =~= bytes@);
    }
}

/// Encode a response as its one line of JSON, without the trailing
/// newline.
pub fn encode_response(r: &IpcResponse) -> (out: Vec<u8>)
    ensures
        out@ == response_bytes(*r),
{
    let mut out: Vec<u8> = Vec::new();
    match r {
        IpcResponse::Accepted => {
            push_literal(&mut out, "{\"ok\":null}");
            proof {
                assert(out@ =~= response_bytes(*r));
            }
        },
        IpcResponse::Error(m) => {
            push_literal(&mut out, "{\"error\":\"");
            push_escaped(&mut out, m.as_str().as_bytes());
            push_literal(&mut out, "\"}");
            proof {
                assert(out@ =~= response_bytes(*r));
            }
        },
        IpcResponse::Status { switching, window_count, current_index } => {
            push_literal(&mut out, "{\"status\":{\"switching\":");
            if *switching {
                push_literal(&mut out, "true");
            } else {
                push_literal(&mut out, "false");
            }
            push_literal(&mut out, ",\"window_count\":");
            push_decimal(&mut out, *window_count);
            push_literal(&mut out, ",\"current_index\":");
            match current_index {
                Some(i) => push_decimal(&mut out, *i),
                None => push_literal(&mut out, "null"),
            }
            push_literal(&mut out, "}}");
            proof {
                assert(out@ =~= response_bytes(*r));
            }
        },
    }
    out
}

} // verus!
