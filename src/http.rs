use vstd::prelude::*;
use vstd::slice::slice_to_vec;
use vstd::string::is_ascii;

verus! {

broadcast use vstd::string::is_ascii_spec_bytes;

/// The byte sequence of a text made of ASCII characters.
pub open spec fn ascii_bytes(s: Seq<char>) -> Seq<u8> {
    s.map_values(|c: char| c as u8)
}

/// A response that carries a status line and no body.
#[derive(Clone, Copy, Debug, PartialEq, Eq, Structural)]
pub enum Status {
    BadRequest,
    NotFound,
    MethodNotAllowed,
    InternalServerError,
}

impl Status {
    /// The exact text written on the wire for this status.
    pub open spec fn spec_text(self) -> Seq<char> {
        match self {
            Status::BadRequest => "HTTP/1.1 400 BAD REQUEST\r\n\r\n"@,
            Status::NotFound => "HTTP/1.1 404 NOT FOUND\r\n\r\n"@,
            Status::MethodNotAllowed => "HTTP/1.1 405 Method Not Allowed\r\n\r\n"@,
            Status::InternalServerError => "HTTP/1.1 500 Internal Server Error\r\n\r\n"@,
        }
    }

    pub open spec fn spec_response(self) -> Seq<u8> {
        ascii_bytes(self.spec_text())
    }

    /// The full response for this status: the status line, an empty line, no body.
    pub fn response(&self) -> (r: Vec<u8>)
        ensures
            r@ == self.spec_response(),
    {
        match self {
            Status::BadRequest => {
                let s = "HTTP/1.1 400 BAD REQUEST\r\n\r\n";
                proof {
                    reveal_strlit("HTTP/1.1 400 BAD REQUEST\r\n\r\n");
                }
                ascii_to_vec(s)
            },
            Status::NotFound => {
                let s = "HTTP/1.1 404 NOT FOUND\r\n\r\n";
                proof {
                    reveal_strlit("HTTP/1.1 404 NOT FOUND\r\n\r\n");
                }
                ascii_to_vec(s)
            },
            Status::MethodNotAllowed => {
                let s = "HTTP/1.1 405 Method Not Allowed\r\n\r\n";
                proof {
                    reveal_strlit("HTTP/1.1 405 Method Not Allowed\r\n\r\n");
                }
                ascii_to_vec(s)
            },
            Status::InternalServerError => {
                let s = "HTTP/1.1 500 Internal Server Error\r\n\r\n";
                proof {
                    reveal_strlit("HTTP/1.1 500 Internal Server Error\r\n\r\n");
                }
                ascii_to_vec(s)
            },
        }
    }
}

/// Copies the bytes of an ASCII text.
fn ascii_to_vec(s: &str) -> (r: Vec<u8>)
    requires
        is_ascii(s),
    ensures
        r@ == ascii_bytes(s@),
{
    let r = slice_to_vec(s.as_bytes());
    assert(r@ =~= ascii_bytes(s@));
    r
}

pub const SPACE: u8 = 32;

/// Index of the first space in `b`, or `b.len()` where there is none.
pub open spec fn first_space(b: Seq<u8>) -> nat
    decreases b.len(),
{
    if b.len() == 0 {
        0
    } else if b[0] == SPACE {
        0
    } else {
        1 + first_space(b.drop_first())
    }
}

/// The first space-separated token of a request line: its method.
pub open spec fn method_of(b: Seq<u8>) -> Seq<u8> {
    b.take(first_space(b) as int)
}

/// A request line holds a second token only where it holds a space.
pub open spec fn has_target(b: Seq<u8>) -> bool {
    first_space(b) < b.len()
}

/// The second space-separated token of a request line: the requested path.
pub open spec fn target_of(b: Seq<u8>) -> Seq<u8> {
    let rest = b.skip(first_space(b) + 1int);
    rest.take(first_space(rest) as int)
}

pub open spec fn ascii_lower(c: u8) -> u8 {
    if 65 <= c <= 90 {
        (c + 32) as u8
    } else {
        c
    }
}

/// The method is `GET` in any mix of cases.
pub open spec fn is_get(m: Seq<u8>) -> bool {
    &&& m.len() == 3
    &&& ascii_lower(m[0]) == 103
    &&& ascii_lower(m[1]) == 101
    &&& ascii_lower(m[2]) == 116
}

/// No byte of `s` is a space.
pub open spec fn no_space(s: Seq<u8>) -> bool {
    forall|i: int| 0 <= i < s.len() ==> s[i] != SPACE
}

/// A request line laid out as `method`, a space, `path`, then either nothing
/// or a space and anything.
pub open spec fn is_request_line(line: Seq<u8>, method: Seq<u8>, path: Seq<u8>) -> bool {
    &&& no_space(method)
    &&& no_space(path)
    &&& line.take(method.len() as int) == method
    &&& line.len() > method.len()
    &&& line[method.len() as int] == SPACE
    &&& line.skip(method.len() + 1int).take(path.len() as int) == path
    &&& (line.len() == method.len() + 1 + path.len() || (line.len() > method.len() + 1 + path.len()
        && line[method.len() + 1int + path.len()] == SPACE))
}

/// The method and path of a request line are its first two space-separated tokens.
pub proof fn lemma_request_line_parts(line: Seq<u8>, method: Seq<u8>, path: Seq<u8>)
    requires
        is_request_line(line, method, path),
    ensures
        has_target(line),
        method_of(line) == method,
        target_of(line) == path,
{
    let k = method.len() as int;
    assert forall|j: int| 0 <= j < k implies line[j] != SPACE by {
        assert(line.take(k)[j] == line[j]);
    }
    lemma_first_space(line, k);
    let rest = line.skip(k + 1);
    let p = path.len() as int;
    assert forall|j: int| 0 <= j < p implies rest[j] != SPACE by {
        assert(rest.take(p)[j] == rest[j]);
    }
    if rest.len() > p {
        assert(rest[p] == line[k + 1 + p]);
    }
    lemma_first_space(rest, p);
}

proof fn lemma_first_space(b: Seq<u8>, i: int)
    requires
        0 <= i <= b.len(),
        forall|j: int| 0 <= j < i ==> b[j] != SPACE,
        i == b.len() || b[i] == SPACE,
    ensures
        first_space(b) == i,
    decreases i,
{
    if i > 0 {
        assert(b[0] != SPACE);
        lemma_first_space(b.drop_first(), i - 1);
    }
}

/// Position of the first space in `b` at or after `start`, or `b.len()`.
fn find_space(b: &[u8], start: usize) -> (i: usize)
    requires
        start <= b@.len(),
    ensures
        start <= i <= b@.len(),
        forall|j: int| start <= j < i ==> b@[j] != SPACE,
        i == b@.len() || b@[i as int] == SPACE,
{
    let mut i = start;
    while i < b.len() && b[i] != SPACE
        invariant
            start <= i <= b@.len(),
            forall|j: int| start <= j < i ==> b@[j] != SPACE,
        decreases b@.len() - i,
    {
        i = i + 1;
    }
    i
}

/// Splits a request line into its method and its path, or `None` where the
/// line holds no space and so names no path.
pub fn split_request_line(line: &[u8]) -> (r: Option<(&[u8], &[u8])>)
    ensures
        match r {
            Some((m, t)) => has_target(line@) && m@ == method_of(line@) && t@ == target_of(
                line@,
            ),
            None => !has_target(line@),
        },
{
    let k = find_space(line, 0);
    proof {
        lemma_first_space(line@, k as int);
    }
    if k == line.len() {
        return None;
    }
    let e = find_space(line, k + 1);
    let ghost rest = line@.skip(k + 1int);
    proof {
        assert forall|j: int| 0 <= j < e - (k + 1) implies rest[j] != SPACE by {
            assert(rest[j] == line@[j + k + 1]);
        }
        lemma_first_space(rest, e - (k + 1));
    }
    let m = &line[0..k];
    let t = &line[k + 1..e];
    assert(m@ =~= method_of(line@));
    assert(t@ =~= target_of(line@));
    Some((m, t))
}

/// Whether a method token is `GET`, ignoring the case of its letters.
pub fn method_is_get(m: &[u8]) -> (r: bool)
    ensures
        r == is_get(m@),
{
    if m.len() != 3 {
        return false;
    }
    let a = if 65 <= m[0] && m[0] <= 90 { m[0] + 32 } else { m[0] };
    let b = if 65 <= m[1] && m[1] <= 90 { m[1] + 32 } else { m[1] };
    let c = if 65 <= m[2] && m[2] <= 90 { m[2] + 32 } else { m[2] };
    a == 103 && b == 101 && c == 116
}

/// The decimal digits of `n`, most significant first, without leading zeros.
pub open spec fn decimal(n: nat) -> Seq<u8>
    decreases n,
{
    if n < 10 {
        seq![(48 + n) as u8]
    } else {
        decimal(n / 10).push((48 + n % 10) as u8)
    }
}

/// The number that a string of decimal digits denotes.
pub open spec fn digits_value(s: Seq<u8>) -> nat
    decreases s.len(),
{
    if s.len() == 0 {
        0
    } else {
        digits_value(s.drop_last()) * 10 + (s.last() - 48) as nat
    }
}

/// The `Content-Length` field reads back as the number it was written from:
/// it is made of digits only, and those digits denote `n`.
pub proof fn lemma_decimal_reads_back(n: nat)
    ensures
        decimal(n).len() > 0,
        forall|i: int| 0 <= i < decimal(n).len() ==> 48 <= #[trigger] decimal(n)[i] <= 57,
        digits_value(decimal(n)) == n,
    decreases n,
{
    if n >= 10 {
        lemma_decimal_reads_back(n / 10);
        let d = decimal(n);
        assert(d.drop_last() =~= decimal(n / 10));
        assert(d.last() == (48 + n % 10) as u8);
        assert(digits_value(d) == digits_value(decimal(n / 10)) * 10 + (n % 10));
        assert(n == (n / 10) * 10 + n % 10);
    } else {
        let d = decimal(n);
        assert(d.drop_last() =~= Seq::<u8>::empty());
        assert(digits_value(d) == digits_value(d.drop_last()) * 10 + (d.last() - 48) as nat);
    }
}

fn push_decimal(out: &mut Vec<u8>, n: usize)
    ensures
        final(out)@ == old(out)@ + decimal(n as nat),
    decreases n,
{
    if n >= 10 {
        push_decimal(out, n / 10);
    }
    out.push((48 + n % 10) as u8);
    assert(final(out)@ =~= old(out)@ + decimal(n as nat));
}

fn push_bytes(out: &mut Vec<u8>, b: &[u8])
    ensures
        final(out)@ == old(out)@ + b@,
{
    let mut i: usize = 0;
    while i < b.len()
        invariant
            i <= b@.len(),
            out@ == old(out)@ + b@.take(i as int),
        decreases b@.len() - i,
    {
        out.push(b[i]);
        i = i + 1;
        assert(out@ =~= old(out)@ + b@.take(i as int));
    }
    assert(b@.take(i as int) =~= b@);
}

pub open spec fn ok_head() -> Seq<u8> {
    ascii_bytes("HTTP/1.1 200 OK\r\nContent-Length: "@)
}

pub open spec fn blank_line() -> Seq<u8> {
    ascii_bytes("\r\n\r\n"@)
}

/// The response to a served request: status 200, the body's length in bytes,
/// then the body.
pub open spec fn spec_ok_response(body: Seq<u8>) -> Seq<u8> {
    ok_head() + decimal(body.len()) + blank_line() + body
}

/// Frames a handler's body as a `200 OK` response with its `Content-Length`.
pub fn ok_response(body: &[u8]) -> (r: Vec<u8>)
    ensures
        r@ == spec_ok_response(body@),
{
    let head = "HTTP/1.1 200 OK\r\nContent-Length: ";
    let sep = "\r\n\r\n";
    proof {
        reveal_strlit("HTTP/1.1 200 OK\r\nContent-Length: ");
        reveal_strlit("\r\n\r\n");
    }
    let mut r = ascii_to_vec(head);
    push_decimal(&mut r, body.len());
    let sb = sep.as_bytes();
    assert(is_ascii(sep));
    assert(sb@ =~= blank_line());
    push_bytes(&mut r, sb);
    push_bytes(&mut r, body);
    assert(r@ =~= spec_ok_response(body@));
    r
}

/// The response once a handler has run: its body framed as `200 OK`, or
/// `500` where it failed.
pub fn completion_response(body: Option<&[u8]>) -> (r: Vec<u8>)
    ensures
        r@ == match body {
            Some(b) => spec_ok_response(b@),
            None => Status::InternalServerError.spec_response(),
        },
{
    match body {
        Some(b) => ok_response(b),
        None => Status::InternalServerError.response(),
    }
}

} // verus!
