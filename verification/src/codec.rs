//! The command codec: one input line decodes to a `Command` or to an error
//! message; every `Response` encodes to exactly one output line.
//!
//! Decoding is tag-driven: the `cmd` member selects the variant, and the
//! variant's remaining fields are required; a missing or mismatched required
//! field is a decode error. Encoding is total: every response has exactly one
//! wire shape.

use vstd::prelude::*;
use crate::json::{
    Member, MemberV, Scalar, ScalarV, members_view, parse_line, parse_line_exec,
};
use crate::protocol::{Command, CommandV, FileEntry, FileEntryV, Response, ResponseV};
use crate::text::{str_chars, string_from_chars};

verus! {

/// The value of the first member named `k`, if any.
pub open spec fn lookup(ms: Seq<MemberV>, k: Seq<char>) -> Option<ScalarV>
    decreases ms.len(),
{
    if ms.len() == 0 {
        None
    } else if ms[0].0 == k {
        Some(ms[0].1)
    } else {
        lookup(ms.drop_first(), k)
    }
}

/// A required text field: present and a string.
pub open spec fn req_text(ms: Seq<MemberV>, k: Seq<char>) -> Option<Seq<char>> {
    match lookup(ms, k) {
        Some(ScalarV::Text(t)) => Some(t),
        _ => None,
    }
}

/// An optional text field: absent or null is `Some(None)`; a string is
/// `Some(Some(_))`; any other value is a mismatch.
pub open spec fn opt_text(ms: Seq<MemberV>, k: Seq<char>) -> Option<Option<Seq<char>>> {
    match lookup(ms, k) {
        None => Some(None),
        Some(ScalarV::Null) => Some(None),
        Some(ScalarV::Text(t)) => Some(Some(t)),
        _ => None,
    }
}

/// The required port field: a plain integer that fits a 16-bit port.
pub open spec fn req_port(ms: Seq<MemberV>) -> Option<u16> {
    match lookup(ms, "port"@) {
        Some(ScalarV::Num(n)) => if n <= u16::MAX {
            Some(n as u16)
        } else {
            None
        },
        _ => None,
    }
}

/// The command a member list denotes, or the decode error it earns.
pub open spec fn command_of(ms: Seq<MemberV>) -> Result<CommandV, Seq<char>> {
    match req_text(ms, "cmd"@) {
        None => Err("missing or invalid `cmd` tag"@),
        Some(tag) => {
            if tag == "Connect"@ {
                match (req_text(ms, "host"@), req_port(ms), req_text(ms, "username"@), opt_text(
                    ms,
                    "password"@,
                ), opt_text(ms, "private_key"@)) {
                    (Some(h), Some(p), Some(u), Some(pw), Some(pk)) => Ok(
                        CommandV::Connect {
                            host: h,
                            port: p,
                            username: u,
                            password: pw,
                            private_key: pk,
                        },
                    ),
                    _ => Err("missing or invalid fields for `Connect`"@),
                }
            } else if tag == "Exec"@ {
                match req_text(ms, "command"@) {
                    Some(c) => Ok(CommandV::Exec { command: c }),
                    None => Err("missing or invalid fields for `Exec`"@),
                }
            } else if tag == "SftpList"@ {
                match req_text(ms, "path"@) {
                    Some(p) => Ok(CommandV::SftpList { path: p }),
                    None => Err("missing or invalid fields for `SftpList`"@),
                }
            } else if tag == "SftpRemove"@ {
                match req_text(ms, "path"@) {
                    Some(p) => Ok(CommandV::SftpRemove { path: p }),
                    None => Err("missing or invalid fields for `SftpRemove`"@),
                }
            } else if tag == "SftpMkdir"@ {
                match req_text(ms, "path"@) {
                    Some(p) => Ok(CommandV::SftpMkdir { path: p }),
                    None => Err("missing or invalid fields for `SftpMkdir`"@),
                }
            } else if tag == "SftpRmdir"@ {
                match req_text(ms, "path"@) {
                    Some(p) => Ok(CommandV::SftpRmdir { path: p }),
                    None => Err("missing or invalid fields for `SftpRmdir`"@),
                }
            } else if tag == "GetHomeDir"@ {
                Ok(CommandV::GetHomeDir)
            } else if tag == "SftpDownload"@ {
                match (req_text(ms, "remote"@), req_text(ms, "local"@)) {
                    (Some(r), Some(l)) => Ok(CommandV::SftpDownload { remote: r, local: l }),
                    _ => Err("missing or invalid fields for `SftpDownload`"@),
                }
            } else if tag == "SftpUpload"@ {
                match (req_text(ms, "local"@), req_text(ms, "remote"@)) {
                    (Some(l), Some(r)) => Ok(CommandV::SftpUpload { local: l, remote: r }),
                    _ => Err("missing or invalid fields for `SftpUpload`"@),
                }
            } else if tag == "Disconnect"@ {
                Ok(CommandV::Disconnect)
            } else {
                Err("unknown command tag"@)
            }
        },
    }
}

/// What one input line decodes to: a command, or the decode error's message.
pub open spec fn decode_spec(s: Seq<char>) -> Result<CommandV, Seq<char>> {
    match parse_line(s) {
        Some(ms) => command_of(ms),
        None => Err("malformed JSON line"@),
    }
}

proof fn lemma_lookup_from(ms: Seq<MemberV>, k: Seq<char>, i: int)
    requires
        0 <= i <= ms.len(),
        forall|j: int| 0 <= j < i ==> (#[trigger] ms[j]).0 != k,
    ensures
        lookup(ms, k) == lookup(ms.subrange(i, ms.len() as int), k),
    decreases i,
{
    if i == 0 {
        assert(ms.subrange(0, ms.len() as int) =~= ms);
    } else {
        lemma_lookup_from(ms, k, i - 1);
        let t = ms.subrange(i - 1, ms.len() as int);
        assert(t[0] == ms[i - 1]);
        assert(t.drop_first() =~= ms.subrange(i, ms.len() as int));
    }
}

/// Whether `a` holds exactly the text `b`.
fn str_eq(a: &String, b: &str) -> (r: bool)
    ensures
        r == (a@ == b@),
{
    let bs = String::from_str(b);
    *a == bs
}

/// A copy of a scalar, equal in the model.
fn clone_scalar(v: &Scalar) -> (c: Scalar)
    ensures
        c@ == v@,
{
    match v {
        Scalar::Text(t) => Scalar::Text(t.clone()),
        Scalar::Num(n) => Scalar::Num(*n),
        Scalar::OtherNum => Scalar::OtherNum,
        Scalar::Flag(b) => Scalar::Flag(*b),
        Scalar::Null => Scalar::Null,
    }
}

/// The value of the first member named `k`, if any.
fn find_scalar(ms: &Vec<Member>, k: &str) -> (r: Option<Scalar>)
    ensures
        match r {
            Some(v) => lookup(members_view(ms@), k@) == Some(v@),
            None => lookup(members_view(ms@), k@) is None,
        },
{
    let ghost mv = members_view(ms@);
    let mut i: usize = 0;
    while i < ms.len()
        invariant
            i <= ms@.len(),
            mv == members_view(ms@),
            mv.len() == ms@.len(),
            forall|j: int| 0 <= j < i ==> (#[trigger] mv[j]).0 != k@,
        decreases ms@.len() - i,
    {
        if str_eq(&ms[i].0, k) {
            let v = clone_scalar(&ms[i].1);
            proof {
                lemma_lookup_from(mv, k@, i as int);
                let t = mv.subrange(i as int, mv.len() as int);
                assert(t[0] == mv[i as int]);
                assert(mv[i as int] == (ms@[i as int].0@, ms@[i as int].1@));
            }
            return Some(v);
        }
        proof {
            assert(mv[i as int] == (ms@[i as int].0@, ms@[i as int].1@));
        }
        i = i + 1;
    }
    proof {
        lemma_lookup_from(mv, k@, i as int);
        assert(mv.subrange(i as int, mv.len() as int).len() == 0);
    }
    None
}

/// A required text field: present and a string.
fn find_text(ms: &Vec<Member>, k: &str) -> (r: Option<String>)
    ensures
        match r {
            Some(t) => req_text(members_view(ms@), k@) == Some(t@),
            None => req_text(members_view(ms@), k@) is None,
        },
{
    match find_scalar(ms, k) {
        Some(Scalar::Text(t)) => Some(t),
        _ => None,
    }
}

/// An optional text field: absent or null is `Some(None)`.
fn find_opt_text(ms: &Vec<Member>, k: &str) -> (r: Option<Option<String>>)
    ensures
        match r {
            Some(o) => opt_text(members_view(ms@), k@) == Some(
                match o {
                    Some(t) => Some(t@),
                    None => None::<Seq<char>>,
                },
            ),
            None => opt_text(members_view(ms@), k@) is None,
        },
{
    match find_scalar(ms, k) {
        None => Some(None),
        Some(Scalar::Null) => Some(None),
        Some(Scalar::Text(t)) => Some(Some(t)),
        Some(_) => None,
    }
}

/// The required port field: a plain integer that fits a 16-bit port.
fn find_port(ms: &Vec<Member>) -> (r: Option<u16>)
    ensures
        r == req_port(members_view(ms@)),
{
    match find_scalar(ms, "port") {
        Some(Scalar::Num(n)) => {
            if n <= 65535 {
                Some(n as u16)
            } else {
                None
            }
        },
        _ => None,
    }
}

/// The command a member list denotes, or the decode error it earns.
pub fn command_from_members(ms: &Vec<Member>) -> (r: Result<Command, String>)
    ensures
        match r {
            Ok(c) => command_of(members_view(ms@)) == Ok::<CommandV, Seq<char>>(c@),
            Err(m) => command_of(members_view(ms@)) == Err::<CommandV, Seq<char>>(m@),
        },
{
    let tag = match find_text(ms, "cmd") {
        Some(t) => t,
        None => {
            return Err(String::from_str("missing or invalid `cmd` tag"));
        },
    };
    if str_eq(&tag, "Connect") {
        let host = match find_text(ms, "host") {
            Some(h) => h,
            None => {
                return Err(String::from_str("missing or invalid fields for `Connect`"));
            },
        };
        let port = match find_port(ms) {
            Some(p) => p,
            None => {
                return Err(String::from_str("missing or invalid fields for `Connect`"));
            },
        };
        let username = match find_text(ms, "username") {
            Some(u) => u,
            None => {
                return Err(String::from_str("missing or invalid fields for `Connect`"));
            },
        };
        let password = match find_opt_text(ms, "password") {
            Some(p) => p,
            None => {
                return Err(String::from_str("missing or invalid fields for `Connect`"));
            },
        };
        let private_key = match find_opt_text(ms, "private_key") {
            Some(p) => p,
            None => {
                return Err(String::from_str("missing or invalid fields for `Connect`"));
            },
        };
        Ok(Command::Connect { host, port, username, password, private_key })
    } else if str_eq(&tag, "Exec") {
        match find_text(ms, "command") {
            Some(c) => Ok(Command::Exec { command: c }),
            None => Err(String::from_str("missing or invalid fields for `Exec`")),
        }
    } else if str_eq(&tag, "SftpList") {
        match find_text(ms, "path") {
            Some(p) => Ok(Command::SftpList { path: p }),
            None => Err(String::from_str("missing or invalid fields for `SftpList`")),
        }
    } else if str_eq(&tag, "SftpRemove") {
        match find_text(ms, "path") {
            Some(p) => Ok(Command::SftpRemove { path: p }),
            None => Err(String::from_str("missing or invalid fields for `SftpRemove`")),
        }
    } else if str_eq(&tag, "SftpMkdir") {
        match find_text(ms, "path") {
            Some(p) => Ok(Command::SftpMkdir { path: p }),
            None => Err(String::from_str("missing or invalid fields for `SftpMkdir`")),
        }
    } else if str_eq(&tag, "SftpRmdir") {
        match find_text(ms, "path") {
            Some(p) => Ok(Command::SftpRmdir { path: p }),
            None => Err(String::from_str("missing or invalid fields for `SftpRmdir`")),
        }
    } else if str_eq(&tag, "GetHomeDir") {
        Ok(Command::GetHomeDir)
    } else if str_eq(&tag, "SftpDownload") {
        let remote = match find_text(ms, "remote") {
            Some(r) => r,
            None => {
                return Err(String::from_str("missing or invalid fields for `SftpDownload`"));
            },
        };
        let local = match find_text(ms, "local") {
            Some(l) => l,
            None => {
                return Err(String::from_str("missing or invalid fields for `SftpDownload`"));
            },
        };
        Ok(Command::SftpDownload { remote, local })
    } else if str_eq(&tag, "SftpUpload") {
        let local = match find_text(ms, "local") {
            Some(l) => l,
            None => {
                return Err(String::from_str("missing or invalid fields for `SftpUpload`"));
            },
        };
        let remote = match find_text(ms, "remote") {
            Some(r) => r,
            None => {
                return Err(String::from_str("missing or invalid fields for `SftpUpload`"));
            },
        };
        Ok(Command::SftpUpload { local, remote })
    } else if str_eq(&tag, "Disconnect") {
        Ok(Command::Disconnect)
    } else {
        Err(String::from_str("unknown command tag"))
    }
}

/// Decode one input line: the command it denotes, or the decode error's
/// message. A malformed line is an error value, never a failure of the
/// decoder itself.
pub fn decode_command(line: &str) -> (r: Result<Command, String>)
    ensures
        match r {
            Ok(c) => decode_spec(line@) == Ok::<CommandV, Seq<char>>(c@),
            Err(m) => decode_spec(line@) == Err::<CommandV, Seq<char>>(m@),
        },
{
    let cs = str_chars(line);
    match parse_line_exec(&cs) {
        Some(ms) => command_from_members(&ms),
        None => Err(String::from_str("malformed JSON line")),
    }
}

/// The hexadecimal digit character for `v` (0 to 15).
pub open spec fn hex_char(v: int) -> char {
    if v == 0 {
        '0'
    } else if v == 1 {
        '1'
    } else if v == 2 {
        '2'
    } else if v == 3 {
        '3'
    } else if v == 4 {
        '4'
    } else if v == 5 {
        '5'
    } else if v == 6 {
        '6'
    } else if v == 7 {
        '7'
    } else if v == 8 {
        '8'
    } else if v == 9 {
        '9'
    } else if v == 10 {
        'a'
    } else if v == 11 {
        'b'
    } else if v == 12 {
        'c'
    } else if v == 13 {
        'd'
    } else if v == 14 {
        'e'
    } else {
        'f'
    }
}

/// How one character appears inside an encoded JSON string: quotes and
/// backslashes are escaped, the common control characters by letter, the
/// rest of the control characters numerically.
pub open spec fn escaped_char(c: char) -> Seq<char> {
    if c == '"' {
        seq!['\\', '"']
    } else if c == '\\' {
        seq!['\\', '\\']
    } else if c == '\n' {
        seq!['\\', 'n']
    } else if c == '\r' {
        seq!['\\', 'r']
    } else if c == '\t' {
        seq!['\\', 't']
    } else if (c as u32) < 0x20 {
        seq!['\\', 'u', '0', '0', hex_char(c as u32 as int / 16), hex_char(c as u32 as int % 16)]
    } else {
        seq![c]
    }
}

/// How a text appears inside an encoded JSON string.
pub open spec fn escaped(s: Seq<char>) -> Seq<char>
    decreases s.len(),
{
    if s.len() == 0 {
        Seq::empty()
    } else {
        escaped_char(s[0]) + escaped(s.drop_first())
    }
}

/// The decimal digits of `n`, most significant first.
pub open spec fn dec_digits(n: int) -> Seq<char>
    decreases n,
    when n >= 0
{
    if n < 10 {
        seq![hex_char(n)]
    } else {
        dec_digits(n / 10).push(hex_char(n % 10))
    }
}

/// The one wire shape of a listing entry.
pub open spec fn encode_entry(e: FileEntryV) -> Seq<char> {
    "{\"name\":\""@ + escaped(e.name) + "\",\"is_dir\":"@ + (if e.is_dir {
        "true"@
    } else {
        "false"@
    }) + ",\"size\":"@ + dec_digits(e.size as int) + "}"@
}

/// The listing entries, comma-separated.
pub open spec fn encode_entries(fs: Seq<FileEntryV>) -> Seq<char>
    decreases fs.len(),
{
    if fs.len() == 0 {
        Seq::empty()
    } else if fs.len() == 1 {
        encode_entry(fs[0])
    } else {
        encode_entry(fs[0]) + ","@ + encode_entries(fs.drop_first())
    }
}

/// The one wire shape of each response.
pub open spec fn encode_spec(r: ResponseV) -> Seq<char> {
    match r {
        ResponseV::Connected => "{\"status\":\"connected\"}"@,
        ResponseV::Disconnected => "{\"status\":\"disconnected\"}"@,
        ResponseV::Okay => "{\"status\":\"ok\"}"@,
        ResponseV::Output { output } => "{\"status\":\"output\",\"output\":\""@ + escaped(output)
            + "\"}"@,
        ResponseV::HomeDir { path } => "{\"status\":\"home_dir\",\"path\":\""@ + escaped(path)
            + "\"}"@,
        ResponseV::Error { message } => "{\"status\":\"error\",\"message\":\""@ + escaped(message)
            + "\"}"@,
        ResponseV::Files { files } => "{\"status\":\"files\",\"files\":["@ + encode_entries(files)
            + "]}"@,
    }
}

proof fn lemma_escaped_append(a: Seq<char>, b: Seq<char>)
    ensures
        escaped(a + b) == escaped(a) + escaped(b),
    decreases a.len(),
{
    if a.len() == 0 {
        assert(a + b =~= b);
        assert(escaped(a) + escaped(b) =~= escaped(b));
    } else {
        lemma_escaped_append(a.drop_first(), b);
        assert((a + b).drop_first() =~= a.drop_first() + b);
        assert((a + b).len() > 0);
        assert((a + b)[0] == a[0]);
        assert(escaped_char(a[0]) + (escaped(a.drop_first()) + escaped(b)) =~= (escaped_char(a[0])
            + escaped(a.drop_first())) + escaped(b));
    }
}

proof fn lemma_escaped_snoc(s: Seq<char>, i: int)
    requires
        0 <= i < s.len(),
    ensures
        escaped(s.subrange(0, i + 1)) == escaped(s.subrange(0, i)) + escaped_char(s[i]),
{
    lemma_escaped_append(s.subrange(0, i), seq![s[i]]);
    assert(s.subrange(0, i + 1) =~= s.subrange(0, i) + seq![s[i]]);
    assert(seq![s[i]].drop_first() =~= Seq::<char>::empty());
    assert(escaped(Seq::<char>::empty()) =~= Seq::<char>::empty());
    assert(escaped(seq![s[i]]) == escaped_char(s[i]) + escaped(Seq::<char>::empty()));
    assert(escaped_char(s[i]) + Seq::<char>::empty() =~= escaped_char(s[i]));
}

proof fn lemma_entries_snoc(fs: Seq<FileEntryV>, e: FileEntryV)
    requires
        fs.len() >= 1,
    ensures
        encode_entries(fs.push(e)) == encode_entries(fs) + ","@ + encode_entry(e),
    decreases fs.len(),
{
    if fs.len() == 1 {
        assert(fs.push(e).drop_first() =~= seq![e]);
        assert(encode_entries(seq![e]) == encode_entry(e));
        assert(fs.push(e)[0] == fs[0]);
        assert(encode_entry(fs[0]) + (","@ + encode_entry(e)) =~= (encode_entry(fs[0]) + ","@)
            + encode_entry(e));
    } else {
        lemma_entries_snoc(fs.drop_first(), e);
        assert(fs.push(e).drop_first() =~= fs.drop_first().push(e));
        assert(fs.push(e)[0] == fs[0]);
        assert(encode_entry(fs[0]) + ","@ + (encode_entries(fs.drop_first()) + ","@
            + encode_entry(e)) =~= (encode_entry(fs[0]) + ","@ + encode_entries(fs.drop_first()))
            + ","@ + encode_entry(e));
    }
}

/// Append the characters of `s` to `out`.
fn push_str_chars(out: &mut Vec<char>, s: &str)
    ensures
        final(out)@ == old(out)@ + s@,
{
    let mut v = str_chars(s);
    out.append(&mut v);
}

/// The hexadecimal digit character for `v` (0 to 15).
fn hex_char_exec(v: u32) -> (r: char)
    requires
        v < 16,
    ensures
        r == hex_char(v as int),
{
    if v == 0 {
        '0'
    } else if v == 1 {
        '1'
    } else if v == 2 {
        '2'
    } else if v == 3 {
        '3'
    } else if v == 4 {
        '4'
    } else if v == 5 {
        '5'
    } else if v == 6 {
        '6'
    } else if v == 7 {
        '7'
    } else if v == 8 {
        '8'
    } else if v == 9 {
        '9'
    } else if v == 10 {
        'a'
    } else if v == 11 {
        'b'
    } else if v == 12 {
        'c'
    } else if v == 13 {
        'd'
    } else if v == 14 {
        'e'
    } else {
        'f'
    }
}

/// Append one character's escaped form to `out`.
fn push_escaped_char(out: &mut Vec<char>, c: char)
    ensures
        final(out)@ == old(out)@ + escaped_char(c),
{
    if c == '"' {
        out.push('\\');
        out.push('"');
        proof {
            assert(out@ =~= old(out)@ + escaped_char(c));
        }
    } else if c == '\\' {
        out.push('\\');
        out.push('\\');
        proof {
            assert(out@ =~= old(out)@ + escaped_char(c));
        }
    } else if c == '\n' {
        out.push('\\');
        out.push('n');
        proof {
            assert(out@ =~= old(out)@ + escaped_char(c));
        }
    } else if c == '\r' {
        out.push('\\');
        out.push('r');
        proof {
            assert(out@ =~= old(out)@ + escaped_char(c));
        }
    } else if c == '\t' {
        out.push('\\');
        out.push('t');
        proof {
            assert(out@ =~= old(out)@ + escaped_char(c));
        }
    } else if (c as u32) < 0x20 {
        let v = c as u32;
        out.push('\\');
        out.push('u');
        out.push('0');
        out.push('0');
        out.push(hex_char_exec(v / 16));
        out.push(hex_char_exec(v % 16));
        proof {
            assert(out@ =~= old(out)@ + escaped_char(c));
        }
    } else {
        out.push(c);
        proof {
            assert(out@ =~= old(out)@ + escaped_char(c));
        }
    }
}

/// Append a text's escaped form to `out`.
fn push_escaped(out: &mut Vec<char>, s: &str)
    ensures
        final(out)@ == old(out)@ + escaped(s@),
{
    let cs = str_chars(s);
    let mut i: usize = 0;
    proof {
        assert(s@.subrange(0, 0) =~= Seq::<char>::empty());
        assert(out@ + escaped(s@.subrange(0, 0)) =~= out@);
    }
    while i < cs.len()
        invariant
            i <= cs@.len(),
            cs@ == s@,
            out@ == old(out)@ + escaped(s@.subrange(0, i as int)),
        decreases cs@.len() - i,
    {
        push_escaped_char(out, cs[i]);
        proof {
            lemma_escaped_snoc(s@, i as int);
            assert(out@ =~= old(out)@ + escaped(s@.subrange(0, i as int + 1)));
        }
        i = i + 1;
    }
    proof {
        assert(s@.subrange(0, s@.len() as int) =~= s@);
    }
}

/// Append the decimal digits of `n` to `out`, most significant first.
fn push_dec_digits(out: &mut Vec<char>, n: u64)
    ensures
        final(out)@ == old(out)@ + dec_digits(n as int),
    decreases n,
{
    if n < 10 {
        out.push(hex_char_exec(n as u32));
        proof {
            assert(out@ =~= old(out)@ + dec_digits(n as int));
        }
    } else {
        push_dec_digits(out, n / 10);
        out.push(hex_char_exec((n % 10) as u32));
        proof {
            assert(out@ =~= old(out)@ + dec_digits(n as int));
        }
    }
}

/// Append one listing entry's wire shape to `out`.
fn push_entry(out: &mut Vec<char>, e: &FileEntry)
    ensures
        final(out)@ == old(out)@ + encode_entry(e@),
{
    push_str_chars(out, "{\"name\":\"");
    push_escaped(out, e.name.as_str());
    push_str_chars(out, "\",\"is_dir\":");
    if e.is_dir {
        push_str_chars(out, "true");
    } else {
        push_str_chars(out, "false");
    }
    push_str_chars(out, ",\"size\":");
    push_dec_digits(out, e.size);
    push_str_chars(out, "}");
    proof {
        assert(out@ =~= old(out)@ + encode_entry(e@));
    }
}

/// Encode one response as its one wire shape: one line of JSON. Encoding is
/// total; every response encodes.
pub fn encode_response(r: &Response) -> (out: String)
    ensures
        out@ == encode_spec(r@),
{
    let mut out: Vec<char> = Vec::new();
    match r {
        Response::Connected => {
            push_str_chars(&mut out, "{\"status\":\"connected\"}");
        },
        Response::Disconnected => {
            push_str_chars(&mut out, "{\"status\":\"disconnected\"}");
        },
        Response::Okay => {
            push_str_chars(&mut out, "{\"status\":\"ok\"}");
        },
        Response::Output { output } => {
            push_str_chars(&mut out, "{\"status\":\"output\",\"output\":\"");
            push_escaped(&mut out, output.as_str());
            push_str_chars(&mut out, "\"}");
        },
        Response::HomeDir { path } => {
            push_str_chars(&mut out, "{\"status\":\"home_dir\",\"path\":\"");
            push_escaped(&mut out, path.as_str());
            push_str_chars(&mut out, "\"}");
        },
        Response::Error { message } => {
            push_str_chars(&mut out, "{\"status\":\"error\",\"message\":\"");
            push_escaped(&mut out, message.as_str());
            push_str_chars(&mut out, "\"}");
        },
        Response::Files { files } => {
            let ghost fv = files@.map_values(|e: FileEntry| e@);
            push_str_chars(&mut out, "{\"status\":\"files\",\"files\":[");
            let ghost head = out@;
            let mut i: usize = 0;
            proof {
                assert(fv.subrange(0, 0) =~= Seq::<FileEntryV>::empty());
                assert(head + encode_entries(fv.subrange(0, 0)) =~= head);
            }
            while i < files.len()
                invariant
                    i <= files@.len(),
                    fv == files@.map_values(|e: FileEntry| e@),
                    fv.len() == files@.len(),
                    out@ == head + encode_entries(fv.subrange(0, i as int)),
                decreases files@.len() - i,
            {
                if i > 0 {
                    push_str_chars(&mut out, ",");
                }
                push_entry(&mut out, &files[i]);
                proof {
                    assert(fv[i as int] == files@[i as int]@);
                    if i == 0 {
                        assert(fv.subrange(0, 1) =~= seq![fv[0]]);
                        assert(encode_entries(seq![fv[0]]) == encode_entry(fv[0]));
                        assert(out@ =~= head + encode_entries(fv.subrange(0, 1)));
                    } else {
                        assert(fv.subrange(0, i as int + 1) =~= fv.subrange(0, i as int).push(
                            fv[i as int],
                        ));
                        lemma_entries_snoc(fv.subrange(0, i as int), fv[i as int]);
                        assert(out@ =~= head + encode_entries(fv.subrange(0, i as int + 1)));
                    }
                }
                i = i + 1;
            }
            proof {
                assert(fv.subrange(0, fv.len() as int) =~= fv);
            }
            push_str_chars(&mut out, "]}");
        },
    }
    let s = string_from_chars(&out);
    proof {
        assert(s@ =~= encode_spec(r@));
    }
    s
}

} // verus!
