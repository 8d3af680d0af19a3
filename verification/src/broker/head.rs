//! Reads a request's head, line by line, and the authority that it names.
use vstd::prelude::*;

use crate::broker::egress;
use crate::broker::egress::Refusal;
use crate::broker::egress::RefusalModel;
use crate::broker::egress::Request;
use crate::broker::egress::RequestModel;
use crate::broker::egress::MAX_HEADER_BYTES;
use crate::number;
use crate::text;

verus! {

/// `s` without the carriage returns and line feeds at its end.
pub open spec fn without_line_end(s: Seq<char>) -> Seq<char>
    decreases s.len(),
{
    if s.len() > 0 && (s.last() == '\r' || s.last() == '\n') {
        without_line_end(s.drop_last())
    } else {
        s
    }
}

/// What has been read of a head.
#[derive(Debug)]
pub struct HeadReader {
    /// How many bytes it had so far.
    pub consumed: usize,
    /// The method and the target, once the first line is there.
    pub line: Option<(String, String)>,
    pub headers: Vec<(String, String)>,
}

#[verifier::ext_equal]
pub struct HeadModel {
    pub consumed: nat,
    pub line: Option<(Seq<char>, Seq<char>)>,
    pub headers: Seq<(Seq<char>, Seq<char>)>,
}

impl View for HeadReader {
    type V = HeadModel;

    open spec fn view(&self) -> HeadModel {
        HeadModel {
            consumed: self.consumed as nat,
            line: egress::header_view(self.line),
            headers: egress::header_texts(self.headers@),
        }
    }
}

/// What a line makes of a head.
#[derive(Debug)]
pub enum HeadStep {
    More(HeadReader),
    Done(Request),
}

#[verifier::ext_equal]
pub enum HeadStepModel {
    More(HeadModel),
    Done(RequestModel),
}

impl View for HeadStep {
    type V = HeadStepModel;

    open spec fn view(&self) -> HeadStepModel {
        match *self {
            HeadStep::More(h) => HeadStepModel::More(h@),
            HeadStep::Done(r) => HeadStepModel::Done(r@),
        }
    }
}

/// What reading a line gave: its text, empty at the end of the connection, or an error.
pub open spec fn line_view(got: Result<String, String>) -> Result<Seq<char>, Seq<char>> {
    match got {
        Ok(s) => Ok(s@),
        Err(m) => Err(m@),
    }
}

/// What a line makes of a head: the first is the request line, an empty one ends the head, any
/// other is a header. A head that grows past its limit is refused.
pub open spec fn head_step(h: HeadModel, got: Result<Seq<char>, Seq<char>>) -> Result<HeadStepModel, RefusalModel> {
    match got {
        Err(m) => Err(RefusalModel::BadRequest("read: "@ + m)),
        Ok(line) => {
            let consumed = h.consumed + vstd::utf8::encode_utf8(line).len();
            if line.len() == 0 {
                Err(RefusalModel::BadRequest("connection closed mid-request"@))
            } else if consumed > MAX_HEADER_BYTES {
                Err(RefusalModel::TooLarge("request head exceeded 65536 bytes"@))
            } else {
                match h.line {
                    None => {
                        let words = text::words_of(line);
                        if words.len() < 2 {
                            Err(RefusalModel::BadRequest("malformed request line"@))
                        } else {
                            Ok(
                                HeadStepModel::More(
                                    HeadModel { consumed, line: Some((words[0], words[1])), headers: h.headers },
                                ),
                            )
                        }
                    },
                    Some((method, target)) => {
                        let content = without_line_end(line);
                        if content.len() == 0 {
                            Ok(HeadStepModel::Done(RequestModel { method, target, headers: h.headers }))
                        } else {
                            match text::split_once_at(content, ':') {
                                None => Err(
                                    RefusalModel::BadRequest("malformed header: "@ + text::quoted(content)),
                                ),
                                Some((name, value)) => Ok(
                                    HeadStepModel::More(
                                        HeadModel {
                                            consumed,
                                            line: h.line,
                                            headers: h.headers.push((text::trimmed(name), text::trimmed(value))),
                                        },
                                    ),
                                ),
                            }
                        }
                    },
                }
            }
        },
    }
}

/// How many bytes may still be read of a head before it is refused: with the last of them it is too
/// long.
pub open spec fn room_of(h: HeadModel) -> nat {
    if h.consumed <= MAX_HEADER_BYTES {
        (MAX_HEADER_BYTES + 1 - h.consumed) as nat
    } else {
        0
    }
}

/// What a read of so many bytes makes of a head: one that fills the room is refused whatever it
/// holds, and any other is a line.
pub open spec fn read_step(h: HeadModel, read: nat, got: Result<Seq<char>, Seq<char>>) -> Result<
    HeadStepModel,
    RefusalModel,
> {
    if read >= room_of(h) {
        Err(RefusalModel::TooLarge("request head exceeded 65536 bytes"@))
    } else {
        head_step(h, got)
    }
}

/// The request that lines hold from a head on; the connection ends behind the last of them.
pub open spec fn head_from(h: HeadModel, lines: Seq<Seq<char>>) -> Result<RequestModel, RefusalModel>
    decreases lines.len(),
{
    if lines.len() == 0 {
        Err(RefusalModel::BadRequest("connection closed mid-request"@))
    } else {
        match head_step(h, Ok(lines[0])) {
            Err(r) => Err(r),
            Ok(HeadStepModel::Done(req)) => Ok(req),
            Ok(HeadStepModel::More(next)) => head_from(next, lines.skip(1)),
        }
    }
}

/// The head before its first line.
pub open spec fn empty_head() -> HeadModel {
    HeadModel { consumed: 0, line: None, headers: Seq::empty() }
}

/// Whether a result is the wanted one.
pub open spec fn answers<T: View>(r: Result<T, Refusal>, want: Result<T::V, RefusalModel>) -> bool {
    match (r, want) {
        (Ok(t), Ok(m)) => t@ == m,
        (Err(e), Err(m)) => e@ == m,
        _ => false,
    }
}

/// `s` without the carriage returns and line feeds at its end.
fn strip_line_end(s: &str) -> (r: String)
    ensures
        r@ == without_line_end(s@),
{
    let chars = text::chars_of(s);
    let mut n: usize = chars.len();
    proof {
        assert(chars@.take(n as int) =~= s@);
    }
    while n > 0 && (chars[n - 1] == '\r' || chars[n - 1] == '\n')
        invariant
            n <= chars@.len(),
            chars@ == s@,
            without_line_end(s@) == without_line_end(chars@.take(n as int)),
        decreases n,
    {
        proof {
            assert(chars@.take(n as int).drop_last() =~= chars@.take(n - 1));
            assert(chars@.take(n as int).last() == chars@[n - 1]);
        }
        n = n - 1;
    }
    let r = text::text_of(&chars, 0, n);
    proof {
        assert(r@ =~= chars@.take(n as int));
        if n > 0 {
            assert(chars@.take(n as int).last() == chars@[n - 1]);
        }
    }
    r
}

impl HeadReader {
    /// A head before its first line.
    pub fn new() -> (r: Self)
        ensures
            r@ == empty_head(),
    {
        let headers: Vec<(String, String)> = Vec::new();
        proof {
            assert(egress::header_texts(headers@) =~= Seq::<(Seq<char>, Seq<char>)>::empty());
        }
        HeadReader { consumed: 0, line: None, headers }
    }

    /// How many bytes may be read for the next line: no reader has to hold more than that.
    pub fn room(&self) -> (r: usize)
        ensures
            r == room_of(self@),
            self.consumed <= MAX_HEADER_BYTES ==> r == MAX_HEADER_BYTES + 1 - self.consumed,
    {
        if self.consumed <= MAX_HEADER_BYTES {
            MAX_HEADER_BYTES + 1 - self.consumed
        } else {
            0
        }
    }

    /// Takes what was read for the next line: how many bytes, at most as many as there is room for,
    /// and their text. Where they fill the room the line is cut, and the head is refused even if the
    /// cut leaves no text.
    pub fn take_read(self, read: usize, got: Result<String, String>) -> (r: Result<HeadStep, Refusal>)
        requires
            self.consumed <= MAX_HEADER_BYTES,
        ensures
            answers(r, read_step(self@, read as nat, line_view(got))),
            r matches Ok(HeadStep::More(next)) ==> next.consumed <= MAX_HEADER_BYTES,
    {
        if read >= self.room() {
            return Err(Refusal::TooLarge("request head exceeded 65536 bytes".to_owned()));
        }
        self.take_line(got)
    }

    /// Takes the next line of the head.
    pub fn take_line(self, got: Result<String, String>) -> (r: Result<HeadStep, Refusal>)
        requires
            self.consumed <= MAX_HEADER_BYTES,
        ensures
            answers(r, head_step(self@, line_view(got))),
            r matches Ok(HeadStep::More(next)) ==> next.consumed <= MAX_HEADER_BYTES,
    {
        let line = match got {
            Ok(line) => line,
            Err(m) => {
                let mut t = "read: ".to_owned();
                t.append(m.as_str());
                return Err(Refusal::BadRequest(t));
            },
        };
        if line.as_str().is_empty() {
            return Err(Refusal::BadRequest("connection closed mid-request".to_owned()));
        }
        let n: usize = line.as_str().as_bytes().len();
        if n > MAX_HEADER_BYTES - self.consumed {
            return Err(Refusal::TooLarge("request head exceeded 65536 bytes".to_owned()));
        }
        let consumed: usize = self.consumed + n;
        match self.line {
            None => {
                let words = text::split_whitespace(line.as_str());
                proof {
                    assert(text::texts(words@).len() == words@.len());
                }
                if words.len() < 2 {
                    return Err(Refusal::BadRequest("malformed request line".to_owned()));
                }
                proof {
                    assert(text::texts(words@)[0] == words@[0]@);
                    assert(text::texts(words@)[1] == words@[1]@);
                }
                Ok(
                    HeadStep::More(
                        HeadReader {
                            consumed,
                            line: Some((words[0].clone(), words[1].clone())),
                            headers: self.headers,
                        },
                    ),
                )
            },
            Some((method, target)) => {
                let content = strip_line_end(line.as_str());
                if content.as_str().is_empty() {
                    return Ok(HeadStep::Done(Request { method, target, headers: self.headers }));
                }
                match text::split_once(content.as_str(), ':') {
                    None => {
                        let mut t = "malformed header: ".to_owned();
                        t.append(text::quote(content.as_str()).as_str());
                        Err(Refusal::BadRequest(t))
                    },
                    Some((name, value)) => {
                        let mut headers = self.headers;
                        let ghost before = egress::header_texts(headers@);
                        let name = text::trim(name.as_str());
                        let value = text::trim(value.as_str());
                        let ghost pair = (name@, value@);
                        headers.push((name, value));
                        proof {
                            assert(egress::header_texts(headers@) =~= before.push(pair));
                        }
                        Ok(HeadStep::More(HeadReader { consumed, line: Some((method, target)), headers }))
                    },
                }
            },
        }
    }
}

/// Reads a request's head from lines, each with its line end; the connection ends behind the last
/// of them.
pub fn read_request(lines: &Vec<String>) -> (r: Result<Request, Refusal>)
    ensures
        answers(r, head_from(empty_head(), text::texts(lines@))),
{
    let ghost all = text::texts(lines@);
    let mut head = HeadReader::new();
    let mut i: usize = 0;
    proof {
        assert(all.skip(0) =~= all);
    }
    while i < lines.len()
        invariant
            i <= lines@.len(),
            all == text::texts(lines@),
            head.consumed <= MAX_HEADER_BYTES,
            head_from(empty_head(), all) == head_from(head@, all.skip(i as int)),
        decreases lines@.len() - i,
    {
        let ghost rest = all.skip(i as int);
        proof {
            assert(rest[0] == lines@[i as int]@);
            assert(rest.skip(1) =~= all.skip(i + 1));
        }
        match head.take_line(Ok(lines[i].clone())) {
            Err(e) => {
                return Err(e);
            },
            Ok(HeadStep::Done(req)) => {
                return Ok(req);
            },
            Ok(HeadStep::More(next)) => {
                head = next;
            },
        }
        i = i + 1;
    }
    Err(Refusal::BadRequest("connection closed mid-request".to_owned()))
}

/// What has been read of a head and what may still be read of it is never more than one byte over
/// the limit, however the client cuts its lines.
pub proof fn a_head_is_never_buffered_beyond_its_limit(h: HeadModel, read: nat, got: Result<Seq<char>, Seq<char>>)
    requires
        h.consumed <= MAX_HEADER_BYTES,
    ensures
        h.consumed + room_of(h) == MAX_HEADER_BYTES + 1,
        read_step(h, read, got) matches Ok(HeadStepModel::More(next)) ==> next.consumed <= MAX_HEADER_BYTES
            && next.consumed + room_of(next) == MAX_HEADER_BYTES + 1,
{
}

/// A line that fills the room is answered as too large, as the whole of it would be: cutting it
/// changes nothing for the client.
pub proof fn a_cut_line_is_too_large(h: HeadModel, line: Seq<char>, rest: Seq<char>)
    requires
        h.consumed <= MAX_HEADER_BYTES,
        vstd::utf8::encode_utf8(line).len() >= room_of(h),
    ensures
        head_step(h, Ok(line)) == Err::<HeadStepModel, RefusalModel>(
            RefusalModel::TooLarge("request head exceeded 65536 bytes"@),
        ),
        head_step(h, Ok(line + rest)) == head_step(h, Ok(line)),
        read_step(h, vstd::utf8::encode_utf8(line).len(), Ok(line)) == head_step(h, Ok(line)),
{
    encoding_grows(line, rest);
    if line.len() == 0 {
        assert(vstd::utf8::encode_utf8(line).len() == 0);
    }
}

/// More text takes no fewer bytes.
proof fn encoding_grows(a: Seq<char>, b: Seq<char>)
    ensures
        vstd::utf8::encode_utf8(a + b).len() >= vstd::utf8::encode_utf8(a).len(),
    decreases a.len(),
{
    if a.len() > 0 {
        let all = a + b;
        assert(all[0] == a[0]);
        assert(all.drop_first() =~= a.drop_first() + b);
        encoding_grows(a.drop_first(), b);
    }
}

/// The host and the port that an authority names, an IPv6 address in brackets; a port that is not
/// named is the default one.
pub open spec fn authority_parts(a: Seq<char>, default_port: u16) -> Result<(Seq<char>, u16), RefusalModel> {
    let bad_port = RefusalModel::BadRequest("bad port in "@ + text::quoted(a));
    if a.len() > 0 && a[0] == '[' {
        match text::split_once_at(a.skip(1), ']') {
            None => Err(RefusalModel::BadRequest("malformed IPv6 authority: "@ + text::quoted(a))),
            Some((host, tail)) => if tail.len() > 0 && tail[0] == ':' {
                match number::parsed(tail.skip(1), u16::MAX as nat) {
                    Some(p) => Ok((host, p as u16)),
                    None => Err(bad_port),
                }
            } else {
                Ok((host, default_port))
            },
        }
    } else {
        match text::rsplit_once_at(a, ':') {
            Some((host, port)) => match number::parsed(port, u16::MAX as nat) {
                Some(p) => Ok((host, p as u16)),
                None => Err(bad_port),
            },
            None => Ok((a, default_port)),
        }
    }
}

/// What follows the first character `c` of `s`, where `s` starts with it.
fn strip_char(s: &str, c: char) -> (r: Option<String>)
    ensures
        r is Some <==> s@.len() > 0 && s@[0] == c,
        r matches Some(t) ==> t@ == s@.skip(1),
{
    let chars = text::chars_of(s);
    if chars.len() > 0 && chars[0] == c {
        let t = text::text_of(&chars, 1, chars.len());
        proof {
            assert(t@ =~= s@.skip(1));
        }
        Some(t)
    } else {
        None
    }
}

/// The refusal of a port.
fn bad_port(authority: &str) -> (r: Refusal)
    ensures
        r@ == RefusalModel::BadRequest("bad port in "@ + text::quoted(authority@)),
{
    let mut t = "bad port in ".to_owned();
    t.append(text::quote(authority).as_str());
    Refusal::BadRequest(t)
}

/// The host and the port that an authority names.
pub fn split_authority(authority: &str, default_port: u16) -> (r: Result<(String, u16), Refusal>)
    ensures
        match (r, authority_parts(authority@, default_port)) {
            (Ok(t), Ok(m)) => (t.0@, t.1) == m,
            (Err(e), Err(m)) => e@ == m,
            _ => false,
        },
{
    if let Some(rest) = strip_char(authority, '[') {
        let (host, tail) = match text::split_once(rest.as_str(), ']') {
            Some(parts) => parts,
            None => {
                let mut t = "malformed IPv6 authority: ".to_owned();
                t.append(text::quote(authority).as_str());
                return Err(Refusal::BadRequest(t));
            },
        };
        return match strip_char(tail.as_str(), ':') {
            Some(p) => match number::parse_u16(p.as_str()) {
                Some(port) => Ok((host, port)),
                None => Err(bad_port(authority)),
            },
            None => Ok((host, default_port)),
        };
    }
    match text::rsplit_once(authority, ':') {
        Some((host, port)) => match number::parse_u16(port.as_str()) {
            Some(p) => Ok((host, p)),
            None => Err(bad_port(authority)),
        },
        None => Ok((authority.to_owned(), default_port)),
    }
}

} // verus!
