//! The text protocol: how a submitted line becomes a username or a chat
//! message, and the notices the server sends.
use vstd::prelude::*;
use vstd::string::StringSliceAdditionalSpecFns;

use crate::config::{MSG_SIZE, NAME_SIZE};

verus! {

/// The byte that ends every line of the protocol.
pub const NEWLINE: u8 = 10;

/// Name given to a client that submits an empty username.
pub const DEFAULT_NAME: &'static str = "Default_Username";

/// Local command with which a client leaves; it is never sent to the server.
pub const QUIT_COMMAND: &'static str = "/quit\n";

// ---------------------------------------------------------------------------
// Byte helpers

/// Appends the bytes of `s` to `out`.
pub fn push_str(out: &mut Vec<u8>, s: &str)
    ensures
        final(out)@ == old(out)@ + s.spec_bytes(),
{
    let b = s.as_bytes();
    push_slice(out, b);
}

/// Appends `b` to `out`.
pub fn push_slice(out: &mut Vec<u8>, b: &[u8])
    ensures
        final(out)@ == old(out)@ + b@,
{
    let mut i: usize = 0;
    while i < b.len()
        invariant
            i <= b@.len(),
            out@ == old(out)@ + b@.take(i as int),
        decreases b@.len() - i,
    {
        out.push(b[i]);
        i = i + 1;
        assert(b@.take(i as int) =~= b@.take(i as int - 1).push(b@[i as int - 1]));
    }
    assert(b@.take(b@.len() as int) =~= b@);
}

/// Whether two byte strings are equal.
pub fn bytes_eq(a: &[u8], b: &[u8]) -> (r: bool)
    ensures
        r == (a@ == b@),
{
    if a.len() != b.len() {
        return false;
    }
    let mut i: usize = 0;
    while i < a.len()
        invariant
            i <= a@.len(),
            a@.len() == b@.len(),
            forall|k: int| 0 <= k < i ==> a@[k] == b@[k],
        decreases a@.len() - i,
    {
        if a[i] != b[i] {
            return false;
        }
        i = i + 1;
    }
    assert(a@ =~= b@);
    true
}

// ---------------------------------------------------------------------------
// Usernames

/// ASCII whitespace, as `char::is_whitespace` sees it: space, tab, line feed,
/// vertical tab, form feed and carriage return.
pub open spec fn is_space(b: u8) -> bool {
    b == 32 || (9 <= b && b <= 13)
}

/// `s` without its leading whitespace.
pub open spec fn trim_start(s: Seq<u8>) -> Seq<u8>
    decreases s.len(),
{
    if s.len() > 0 && is_space(s[0]) {
        trim_start(s.drop_first())
    } else {
        s
    }
}

/// `s` without its trailing whitespace.
pub open spec fn trim_end(s: Seq<u8>) -> Seq<u8>
    decreases s.len(),
{
    if s.len() > 0 && is_space(s.last()) {
        trim_end(s.drop_last())
    } else {
        s
    }
}

/// `s` without whitespace at either end.
pub open spec fn trim(s: Seq<u8>) -> Seq<u8> {
    trim_end(trim_start(s))
}

pub open spec fn default_name() -> Seq<u8> {
    DEFAULT_NAME.spec_bytes()
}

/// The username that a submitted line asks for: the line without surrounding
/// whitespace, cut to `NAME_SIZE` bytes, or the default name where nothing is
/// left.
pub open spec fn requested_name(line: Seq<u8>) -> Seq<u8> {
    let t = trim(line);
    if t.len() == 0 {
        default_name()
    } else if t.len() > NAME_SIZE {
        t.take(NAME_SIZE as int)
    } else {
        t
    }
}

/// Returns `line` without whitespace at either end.
pub fn trim_bytes(line: &[u8]) -> (r: Vec<u8>)
    ensures
        r@ == trim(line@),
{
    let n = line.len();
    let mut lo: usize = 0;
    assert(line@.subrange(0, n as int) =~= line@);
    while lo < n && (line[lo] == 32 || (9 <= line[lo] && line[lo] <= 13))
        invariant
            n == line@.len(),
            lo <= n,
            trim_start(line@) == trim_start(line@.subrange(lo as int, n as int)),
        decreases n - lo,
    {
        assert(line@.subrange(lo as int, n as int).drop_first() =~= line@.subrange(
            lo as int + 1,
            n as int,
        ));
        lo = lo + 1;
    }
    assert(trim_start(line@) == line@.subrange(lo as int, n as int));
    let mut hi: usize = n;
    while hi > lo && (line[hi - 1] == 32 || (9 <= line[hi - 1] && line[hi - 1] <= 13))
        invariant
            n == line@.len(),
            lo <= hi <= n,
            trim(line@) == trim_end(line@.subrange(lo as int, hi as int)),
        decreases hi - lo,
    {
        assert(line@.subrange(lo as int, hi as int).drop_last() =~= line@.subrange(
            lo as int,
            hi as int - 1,
        ));
        hi = hi - 1;
    }
    let mut r: Vec<u8> = Vec::new();
    let mut i: usize = lo;
    while i < hi
        invariant
            lo <= i <= hi <= n,
            n == line@.len(),
            r@ == line@.subrange(lo as int, i as int),
        decreases hi - i,
    {
        r.push(line[i]);
        i = i + 1;
        assert(r@ =~= line@.subrange(lo as int, i as int));
    }
    r
}

/// The username that `line` asks for.
pub fn requested_username(line: &[u8]) -> (r: Vec<u8>)
    ensures
        r@ == requested_name(line@),
{
    let mut t = trim_bytes(line);
    if t.len() == 0 {
        let mut d: Vec<u8> = Vec::new();
        push_str(&mut d, DEFAULT_NAME);
        d
    } else {
        t.truncate(NAME_SIZE);
        t
    }
}

// ---------------------------------------------------------------------------
// Chat messages

/// `line` ending in a newline: unchanged where it already does.
pub open spec fn terminated(line: Seq<u8>) -> Seq<u8> {
    if line.len() > 0 && line.last() == NEWLINE {
        line
    } else {
        line.push(NEWLINE)
    }
}

/// `"<name>: <line>"`, newline-terminated, before any truncation.
pub open spec fn full_chat(name: Seq<u8>, line: Seq<u8>) -> Seq<u8> {
    name + ": ".spec_bytes() + terminated(line)
}

/// The message broadcast for a line that `name` sent: `"<name>: <line>"`,
/// newline-terminated, and where longer than `MSG_SIZE` bytes, its first
/// `MSG_SIZE - 1` bytes and a newline.
pub open spec fn chat_message(name: Seq<u8>, line: Seq<u8>) -> Seq<u8> {
    let full = full_chat(name, line);
    if full.len() > MSG_SIZE {
        full.take(MSG_SIZE - 1).push(NEWLINE)
    } else {
        full
    }
}

/// Frames a line received from `name` as the message to broadcast.
pub fn format_chat(name: &[u8], line: &[u8]) -> (r: Vec<u8>)
    ensures
        r@ == chat_message(name@, line@),
{
    let mut r: Vec<u8> = Vec::new();
    push_slice(&mut r, name);
    push_str(&mut r, ": ");
    push_slice(&mut r, line);
    if line.len() == 0 || line[line.len() - 1] != NEWLINE {
        r.push(NEWLINE);
    }
    assert(r@ =~= name@ + ": ".spec_bytes() + terminated(line@));
    if r.len() > MSG_SIZE {
        r.truncate(MSG_SIZE - 1);
        r.push(NEWLINE);
    }
    r
}

/// A chat message never exceeds `MSG_SIZE` bytes and always ends in a
/// newline; one whose framed form is longer is cut to exactly `MSG_SIZE` bytes.
pub proof fn lemma_chat_message_bounded(name: Seq<u8>, line: Seq<u8>)
    ensures
        chat_message(name, line).len() <= MSG_SIZE,
        chat_message(name, line).len() > 0,
        chat_message(name, line).last() == NEWLINE,
        full_chat(name, line).len() > MSG_SIZE ==> chat_message(name, line).len() == MSG_SIZE,
        full_chat(name, line).len() <= MSG_SIZE ==> chat_message(name, line) == full_chat(name, line),
{
    let t = terminated(line);
    let full = full_chat(name, line);
    assert(full.last() == t.last());
}

// ---------------------------------------------------------------------------
// Notices

pub open spec fn prompt_notice() -> Seq<u8> {
    "*Please enter a username: \n".spec_bytes()
}

pub open spec fn taken_notice() -> Seq<u8> {
    "*Username taken, please try another.\n".spec_bytes()
}

pub open spec fn joined_notice(name: Seq<u8>) -> Seq<u8> {
    "*".spec_bytes() + name + " has joined. Say hello!\n".spec_bytes()
}

pub open spec fn left_notice(name: Seq<u8>) -> Seq<u8> {
    "*".spec_bytes() + name + " has left.\n".spec_bytes()
}

/// Decimal digits of `n`, most significant first.
pub open spec fn decimal(n: nat) -> Seq<u8>
    decreases n,
{
    if n < 10 {
        seq![(48 + n) as u8]
    } else {
        decimal(n / 10).push((48 + n % 10) as u8)
    }
}

pub open spec fn capacity_notice(cap: nat) -> Seq<u8> {
    "Room is already at ".spec_bytes() + decimal(cap) + "/".spec_bytes() + decimal(cap)
        + " capacity. Please quit and try again later.\n".spec_bytes()
}

/// The prompt sent to a connection before its username is read.
pub fn username_prompt() -> (r: Vec<u8>)
    ensures
        r@ == prompt_notice(),
{
    let mut r: Vec<u8> = Vec::new();
    push_str(&mut r, "*Please enter a username: \n");
    r
}

/// The reply to a username that another client holds.
pub fn username_taken() -> (r: Vec<u8>)
    ensures
        r@ == taken_notice(),
{
    let mut r: Vec<u8> = Vec::new();
    push_str(&mut r, "*Username taken, please try another.\n");
    r
}

/// The notice broadcast when `name` joins.
pub fn joined(name: &[u8]) -> (r: Vec<u8>)
    ensures
        r@ == joined_notice(name@),
{
    let mut r: Vec<u8> = Vec::new();
    push_str(&mut r, "*");
    push_slice(&mut r, name);
    push_str(&mut r, " has joined. Say hello!\n");
    r
}

/// The notice broadcast when `name` leaves.
pub fn left(name: &[u8]) -> (r: Vec<u8>)
    ensures
        r@ == left_notice(name@),
{
    let mut r: Vec<u8> = Vec::new();
    push_str(&mut r, "*");
    push_slice(&mut r, name);
    push_str(&mut r, " has left.\n");
    r
}

/// Appends the decimal digits of `n` to `out`.
pub fn push_decimal(out: &mut Vec<u8>, n: u64)
    ensures
        final(out)@ == old(out)@ + decimal(n as nat),
    decreases n,
{
    if n >= 10 {
        push_decimal(out, n / 10);
    }
    out.push((48 + n % 10) as u8);
    assert(final(out)@ =~= old(out)@ + decimal(n as nat));
}

/// The notice sent to a connection refused because `cap` clients are in.
pub fn room_full(cap: u64) -> (r: Vec<u8>)
    ensures
        r@ == capacity_notice(cap as nat),
{
    let mut r: Vec<u8> = Vec::new();
    push_str(&mut r, "Room is already at ");
    push_decimal(&mut r, cap);
    push_str(&mut r, "/");
    push_decimal(&mut r, cap);
    push_str(&mut r, " capacity. Please quit and try again later.\n");
    assert(r@ =~= capacity_notice(cap as nat));
    r
}

/// Whether a line typed at a client is the command to leave.
pub fn is_quit_command(line: &[u8]) -> (r: bool)
    ensures
        r == (line@ == QUIT_COMMAND.spec_bytes()),
{
    bytes_eq(line, QUIT_COMMAND.as_bytes())
}

} // verus!
