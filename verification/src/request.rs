use vstd::prelude::*;

use crate::response::{has_header, lookup, HeaderList};
use crate::types::{headers_view, Header};
use crate::bytes::bytes_eq;
use crate::text::{from_utf8_lossy, utf8_lossy};

verus! {

/// The request methods that the server recognizes.
#[derive(Clone, Copy, Debug, PartialEq, Eq, Structural)]
pub enum Method {
    GET,
    POST,
    PUT,
    DELETE,
    HEAD,
}

impl Method {
    /// The method that a method name stands for.
    pub open spec fn spec_from_name(s: Seq<u8>) -> Option<Method> {
        if s == seq!['G' as u8, 'E' as u8, 'T' as u8] {
            Some(Method::GET)
        } else if s == seq!['P' as u8, 'O' as u8, 'S' as u8, 'T' as u8] {
            Some(Method::POST)
        } else if s == seq!['P' as u8, 'U' as u8, 'T' as u8] {
            Some(Method::PUT)
        } else if s == seq!['D' as u8, 'E' as u8, 'L' as u8, 'E' as u8, 'T' as u8, 'E' as u8] {
            Some(Method::DELETE)
        } else if s == seq!['H' as u8, 'E' as u8, 'A' as u8, 'D' as u8] {
            Some(Method::HEAD)
        } else {
            None
        }
    }

    /// Reads a method name; any other name gives "Unrecognized method".
    pub fn from_str(s: &[u8]) -> (r: Result<Method, &'static str>)
        ensures
            match Self::spec_from_name(s@) {
                Some(m) => r == Ok::<Method, &'static str>(m),
                None => r matches Err(e) && e@ == "Unrecognized method"@,
            },
    {
        let get: Vec<u8> = vec!['G' as u8, 'E' as u8, 'T' as u8];
        let post: Vec<u8> = vec!['P' as u8, 'O' as u8, 'S' as u8, 'T' as u8];
        let put: Vec<u8> = vec!['P' as u8, 'U' as u8, 'T' as u8];
        let delete: Vec<u8> = vec!['D' as u8, 'E' as u8, 'L' as u8, 'E' as u8, 'T' as u8, 'E' as u8];
        let head: Vec<u8> = vec!['H' as u8, 'E' as u8, 'A' as u8, 'D' as u8];
        assert(get@ =~= seq!['G' as u8, 'E' as u8, 'T' as u8]);
        assert(post@ =~= seq!['P' as u8, 'O' as u8, 'S' as u8, 'T' as u8]);
        assert(put@ =~= seq!['P' as u8, 'U' as u8, 'T' as u8]);
        assert(delete@ =~= seq!['D' as u8, 'E' as u8, 'L' as u8, 'E' as u8, 'T' as u8, 'E' as u8]);
        assert(head@ =~= seq!['H' as u8, 'E' as u8, 'A' as u8, 'D' as u8]);
        if bytes_eq(s, get.as_slice()) {
            Ok(Method::GET)
        } else if bytes_eq(s, post.as_slice()) {
            Ok(Method::POST)
        } else if bytes_eq(s, put.as_slice()) {
            Ok(Method::PUT)
        } else if bytes_eq(s, delete.as_slice()) {
            Ok(Method::DELETE)
        } else if bytes_eq(s, head.as_slice()) {
            Ok(Method::HEAD)
        } else {
            Err("Unrecognized method")
        }
    }
}

/// The name of each method, as a request line writes it.
pub open spec fn method_name(m: Method) -> Seq<u8> {
    match m {
        Method::GET => seq!['G' as u8, 'E' as u8, 'T' as u8],
        Method::POST => seq!['P' as u8, 'O' as u8, 'S' as u8, 'T' as u8],
        Method::PUT => seq!['P' as u8, 'U' as u8, 'T' as u8],
        Method::DELETE => seq!['D' as u8, 'E' as u8, 'L' as u8, 'E' as u8, 'T' as u8, 'E' as u8],
        Method::HEAD => seq!['H' as u8, 'E' as u8, 'A' as u8, 'D' as u8],
    }
}

/// Each method name reads as the method of that name, and a name reads as a method only when
/// it is that method's name: `GET`, `POST`, `PUT`, `DELETE` and `HEAD` give `GET`, `POST`,
/// `PUT`, `DELETE` and `HEAD`.
pub proof fn lemma_method_names(s: Seq<u8>, m: Method)
    ensures
        Method::spec_from_name(method_name(m)) == Some(m),
        Method::spec_from_name(s) == Some(m) ==> s == method_name(m),
        Method::spec_from_name(seq!['G' as u8, 'E' as u8, 'T' as u8]) == Some(Method::GET),
        Method::spec_from_name(seq!['P' as u8, 'O' as u8, 'S' as u8, 'T' as u8]) == Some(
            Method::POST,
        ),
        Method::spec_from_name(seq!['P' as u8, 'U' as u8, 'T' as u8]) == Some(Method::PUT),
        Method::spec_from_name(
            seq!['D' as u8, 'E' as u8, 'L' as u8, 'E' as u8, 'T' as u8, 'E' as u8],
        ) == Some(Method::DELETE),
        Method::spec_from_name(seq!['H' as u8, 'E' as u8, 'A' as u8, 'D' as u8]) == Some(
            Method::HEAD,
        ),
{
}

/// A request: a method, a path, headers, a body and the stream it came on.
#[derive(Debug)]
pub struct Request {
    pub method: Method,
    pub path: Vec<u8>,
    pub headers: Vec<Header>,
    pub body: Vec<u8>,
    pub stream_id: u32,
}

/// A request as a value.
pub struct RequestModel {
    pub method: Method,
    pub path: Seq<u8>,
    pub headers: HeaderList,
    pub body: Seq<u8>,
    pub stream_id: u32,
}

impl View for Request {
    type V = RequestModel;

    open spec fn view(&self) -> RequestModel {
        RequestModel {
            method: self.method,
            path: self.path@,
            headers: headers_view(self.headers@),
            body: self.body@,
            stream_id: self.stream_id,
        }
    }
}

/// The first header with a name carries the value that `lookup` gives.
pub proof fn lemma_lookup_first(hs: HeaderList, name: Seq<u8>, i: int)
    requires
        0 <= i < hs.len(),
        hs[i].0 == name,
        forall|j: int| 0 <= j < i ==> hs[j].0 != name,
    ensures
        lookup(hs, name) == Some(hs[i].1),
    decreases i,
{
    if i > 0 {
        assert(hs[0].0 != name);
        lemma_lookup_first(hs.drop_first(), name, i - 1);
    }
}

impl Request {
    /// The first header with this name.
    pub fn get_header(&self, name: &[u8]) -> (r: Option<&Header>)
        ensures
            match r {
                Some(h) => h@.0 == name@ && lookup(self@.headers, name@) == Some(h@.1),
                None => !has_header(self@.headers, name@) && lookup(self@.headers, name@) is None,
            },
    {
        match crate::response::find_header(&self.headers, name) {
            Some(i) => {
                proof {
                    let hs = self@.headers;
                    assert forall|j: int| 0 <= j < i implies hs[j].0 != name@ by {
                        assert(hs[j] == self.headers@[j]@);
                    }
                    assert(hs[i as int] == self.headers@[i as int]@);
                    lemma_lookup_first(hs, name@, i as int);
                }
                Some(&self.headers[i])
            },
            None => {
                proof {
                    crate::response::lemma_lookup_absent(self@.headers, name@);
                }
                None
            },
        }
    }
}

/// The length, in UTF-8, of the white space character that `s` starts with (a character of
/// `char::is_whitespace`: U+0009 to U+000D, U+0020, U+0085, U+00A0, U+1680, U+2000 to U+200A,
/// U+2028, U+2029, U+202F, U+205F, U+3000), or 0 when it starts with none.
pub open spec fn space_len(s: Seq<u8>) -> nat {
    if s.len() >= 1 && (s[0] == 32 || (9 <= s[0] && s[0] <= 13)) {
        1
    } else if s.len() >= 2 && s[0] == 0xC2 && (s[1] == 0x85 || s[1] == 0xA0) {
        2
    } else if s.len() >= 3 && ((s[0] == 0xE1 && s[1] == 0x9A && s[2] == 0x80) || (s[0] == 0xE2
        && s[1] == 0x80 && ((0x80 <= s[2] && s[2] <= 0x8A) || s[2] == 0xA8 || s[2] == 0xA9
        || s[2] == 0xAF)) || (s[0] == 0xE2 && s[1] == 0x81 && s[2] == 0x9F) || (s[0] == 0xE3
        && s[1] == 0x80 && s[2] == 0x80)) {
        3
    } else {
        0
    }
}

/// A line without the carriage return that ends it, if one does.
pub open spec fn strip_cr(line: Seq<u8>) -> Seq<u8> {
    if line.len() > 0 && line.last() == 13 {
        line.drop_last()
    } else {
        line
    }
}

/// The lines of `s`, `cur` being the start of the current line: a line ends at a line feed,
/// without it and without a carriage return just before it; a last line with no line feed
/// after it counts when it is not empty.
pub open spec fn lines_from(s: Seq<u8>, cur: Seq<u8>) -> Seq<Seq<u8>>
    decreases s.len(),
{
    if s.len() == 0 {
        if cur.len() > 0 {
            seq![cur]
        } else {
            Seq::empty()
        }
    } else if s[0] == 10 {
        seq![strip_cr(cur)] + lines_from(s.drop_first(), Seq::empty())
    } else {
        lines_from(s.drop_first(), cur.push(s[0]))
    }
}

/// The lines of `s` (see `lines_from`).
pub open spec fn lines(s: Seq<u8>) -> Seq<Seq<u8>> {
    lines_from(s, Seq::empty())
}

/// The words of UTF-8 text `s`, `cur` being the start of the current word: the runs of bytes
/// between white space characters, as `str::split_whitespace` gives them.
pub open spec fn words_from(s: Seq<u8>, cur: Seq<u8>) -> Seq<Seq<u8>>
    decreases s.len(),
{
    let done = if cur.len() > 0 {
        seq![cur]
    } else {
        Seq::empty()
    };
    if s.len() == 0 {
        done
    } else if space_len(s) > 0 {
        done + words_from(s.skip(space_len(s) as int), Seq::empty())
    } else {
        words_from(s.drop_first(), cur.push(s[0]))
    }
}

/// The words of `s` (see `words_from`).
pub open spec fn words(s: Seq<u8>) -> Seq<Seq<u8>> {
    words_from(s, Seq::empty())
}

/// The lines put back together, one line feed between two.
pub open spec fn join_lines(ls: Seq<Seq<u8>>) -> Seq<u8>
    decreases ls.len(),
{
    if ls.len() == 0 {
        Seq::empty()
    } else if ls.len() == 1 {
        ls[0]
    } else {
        join_lines(ls.drop_last()) + seq![10u8] + ls.last()
    }
}

/// Whether ": " starts at `i`.
pub open spec fn sep_at(s: Seq<u8>, i: int) -> bool {
    0 <= i && i + 1 < s.len() && s[i] == 58 && s[i + 1] == 32
}

/// Where the first ": " at or after `i` starts; the length of `s` when there is none.
pub open spec fn find_sep_from(s: Seq<u8>, i: int) -> int
    decreases s.len() - i,
{
    if i < 0 || i + 1 >= s.len() {
        s.len() as int
    } else if sep_at(s, i) {
        i
    } else {
        find_sep_from(s, i + 1)
    }
}

/// The first ": " at or after `i` is at or after `i`, and where it is found there is one.
pub proof fn lemma_find_sep(s: Seq<u8>, i: int)
    requires
        0 <= i,
    ensures
        find_sep_from(s, i) >= i || find_sep_from(s, i) == s.len(),
        find_sep_from(s, i) < s.len() ==> sep_at(s, find_sep_from(s, i)),
    decreases s.len() - i,
{
    if i + 1 < s.len() && !sep_at(s, i) {
        lemma_find_sep(s, i + 1);
    }
}

/// Byte strings as values.
pub open spec fn vecs_view(v: Seq<Vec<u8>>) -> Seq<Seq<u8>> {
    v.map_values(|x: Vec<u8>| x@)
}

/// Splits bytes into lines (see `lines`).
pub fn split_lines(s: &[u8]) -> (r: Vec<Vec<u8>>)
    ensures
        vecs_view(r@) == lines(s@),
{
    let mut out: Vec<Vec<u8>> = Vec::new();
    let mut cur: Vec<u8> = Vec::new();
    let mut i: usize = 0;
    assert(s@.skip(0) =~= s@);
    assert(vecs_view(out@) =~= Seq::<Seq<u8>>::empty());
    while i < s.len()
        invariant
            i <= s@.len(),
            vecs_view(out@) + lines_from(s@.skip(i as int), cur@) == lines(s@),
        decreases s@.len() - i,
    {
        let ghost rest = s@.skip(i as int);
        assert(rest[0] == s@[i as int]);
        assert(rest.drop_first() =~= s@.skip(i + 1));
        let ghost before = vecs_view(out@);
        let ghost c = cur@;
        if s[i] == 10 {
            let mut line: Vec<u8> = Vec::new();
            std::mem::swap(&mut line, &mut cur);
            if line.len() > 0 && line[line.len() - 1] == 13 {
                line.pop();
            }
            assert(line@ == strip_cr(c));
            out.push(line);
            assert(vecs_view(out@) =~= before + seq![strip_cr(c)]);
        } else {
            cur.push(s[i]);
        }
        i = i + 1;
    }
    if cur.len() > 0 {
        let ghost before = vecs_view(out@);
        let ghost c = cur@;
        out.push(cur);
        assert(vecs_view(out@) =~= before + seq![c]);
    }
    out
}

/// The length of the white space character at `i` (see `space_len`).
fn space_len_at(s: &[u8], i: usize) -> (r: usize)
    requires
        i < s@.len(),
    ensures
        r == space_len(s@.skip(i as int)),
{
    let ghost t = s@.skip(i as int);
    let n: usize = s.len() - i;
    let b0: u8 = s[i];
    if b0 == 32 || (9 <= b0 && b0 <= 13) {
        return 1;
    }
    if n >= 2 {
        let b1: u8 = s[i + 1];
        assert(t[1] == b1);
        if b0 == 0xC2 && (b1 == 0x85 || b1 == 0xA0) {
            return 2;
        }
        if n >= 3 {
            let b2: u8 = s[i + 2];
            assert(t[2] == b2);
            if (b0 == 0xE1 && b1 == 0x9A && b2 == 0x80) || (b0 == 0xE2 && b1 == 0x80 && ((0x80
                <= b2 && b2 <= 0x8A) || b2 == 0xA8 || b2 == 0xA9 || b2 == 0xAF)) || (b0 == 0xE2
                && b1 == 0x81 && b2 == 0x9F) || (b0 == 0xE3 && b1 == 0x80 && b2 == 0x80) {
                return 3;
            }
        }
    }
    0
}

/// Splits UTF-8 text into words (see `words`).
pub fn split_words(s: &[u8]) -> (r: Vec<Vec<u8>>)
    ensures
        vecs_view(r@) == words(s@),
{
    let mut out: Vec<Vec<u8>> = Vec::new();
    let mut cur: Vec<u8> = Vec::new();
    let mut i: usize = 0;
    assert(s@.skip(0) =~= s@);
    assert(vecs_view(out@) =~= Seq::<Seq<u8>>::empty());
    while i < s.len()
        invariant
            i <= s@.len(),
            vecs_view(out@) + words_from(s@.skip(i as int), cur@) == words(s@),
        decreases s@.len() - i,
    {
        let ghost rest = s@.skip(i as int);
        assert(rest[0] == s@[i as int]);
        assert(rest.drop_first() =~= s@.skip(i + 1));
        let ghost before = vecs_view(out@);
        let ghost c = cur@;
        let b: u8 = s[i];
        let k: usize = space_len_at(s, i);
        if k > 0 {
            assert(rest.skip(k as int) =~= s@.skip(i + k));
            assert(words_from(rest, c) == (if c.len() > 0 {
                seq![c]
            } else {
                Seq::empty()
            }) + words_from(s@.skip(i + k), Seq::empty()));
            if cur.len() > 0 {
                let mut word: Vec<u8> = Vec::new();
                std::mem::swap(&mut word, &mut cur);
                out.push(word);
                assert(vecs_view(out@) =~= before + seq![c]);
                assert(before + (seq![c] + words_from(s@.skip(i + k), Seq::empty())) =~= (before
                    + seq![c]) + words_from(s@.skip(i + k), Seq::empty()));
            } else {
                assert(cur@ =~= Seq::<u8>::empty());
                assert(Seq::<Seq<u8>>::empty() + words_from(s@.skip(i + k), Seq::empty())
                    =~= words_from(s@.skip(i + k), Seq::empty()));
            }
            i = i + k;
        } else {
            assert(words_from(rest, c) == words_from(s@.skip(i + 1), c.push(b)));
            cur.push(b);
            i = i + 1;
        }
    }
    if cur.len() > 0 {
        let ghost before = vecs_view(out@);
        let ghost c = cur@;
        out.push(cur);
        assert(vecs_view(out@) =~= before + seq![c]);
    } else {
        assert(vecs_view(out@) + Seq::<Seq<u8>>::empty() =~= vecs_view(out@));
    }
    out
}

/// Where the first ": " starts; the length of `s` when there is none.
pub fn find_sep(s: &[u8]) -> (r: usize)
    ensures
        r == find_sep_from(s@, 0),
{
    if s.len() < 2 {
        return s.len();
    }
    let mut i: usize = 0;
    while i < s.len() - 1
        invariant
            s@.len() >= 2,
            i <= s@.len() - 1,
            find_sep_from(s@, i as int) == find_sep_from(s@, 0),
        decreases s@.len() - i,
    {
        if s[i] == 58 && s[i + 1] == 32 {
            return i;
        }
        i = i + 1;
    }
    s.len()
}

/// The lines from `start` on, put back together (see `join_lines`).
pub fn join_from(ls: &Vec<Vec<u8>>, start: usize) -> (r: Vec<u8>)
    requires
        start <= ls@.len(),
    ensures
        r@ == join_lines(vecs_view(ls@).skip(start as int)),
{
    let ghost all = vecs_view(ls@);
    let mut out: Vec<u8> = Vec::new();
    let mut k: usize = start;
    assert(all.subrange(start as int, start as int) =~= Seq::<Seq<u8>>::empty());
    while k < ls.len()
        invariant
            start <= k <= ls@.len(),
            all == vecs_view(ls@),
            out@ == join_lines(all.subrange(start as int, k as int)),
        decreases ls@.len() - k,
    {
        let ghost part = all.subrange(start as int, k as int + 1);
        assert(part.drop_last() =~= all.subrange(start as int, k as int));
        assert(part.last() == ls@[k as int]@);
        if k > start {
            out.push(10u8);
        } else {
            assert(out@ =~= Seq::<u8>::empty());
        }
        crate::bytes::extend_bytes(&mut out, ls[k].as_slice());
        proof {
            if k > start {
                assert(out@ =~= join_lines(part));
            } else {
                assert(part =~= seq![ls@[k as int]@]);
                assert(out@ =~= join_lines(part));
            }
        }
        k = k + 1;
    }
    assert(all.subrange(start as int, ls@.len() as int) =~= all.skip(start as int));
    out
}

/// The version that the reader accepts: "HTTP/1.1".
pub open spec fn http11() -> Seq<u8> {
    seq![72u8, 84u8, 84u8, 80u8, 47u8, 49u8, 46u8, 49u8]
}

/// The headers from line `k` on, up to the first empty line, and the body: the lines after
/// that empty line, put back together (nothing when no empty line comes). A header is split at
/// its first ": "; a header line without one gives "Header missing value".
pub open spec fn read_headers(ls: Seq<Seq<u8>>, k: int) -> Result<(HeaderList, Seq<u8>), Seq<char>>
    decreases ls.len() - k,
{
    if k < 0 || k >= ls.len() {
        Ok((Seq::empty(), Seq::empty()))
    } else if ls[k].len() == 0 {
        Ok((Seq::empty(), join_lines(ls.skip(k + 1))))
    } else {
        let i = find_sep_from(ls[k], 0);
        if i >= ls[k].len() {
            Err("Header missing value"@)
        } else {
            match read_headers(ls, k + 1) {
                Ok((hs, body)) => Ok((seq![(ls[k].take(i), ls[k].skip(i + 2))] + hs, body)),
                Err(e) => Err(e),
            }
        }
    }
}

/// The request that UTF-8 text holds: the first line gives the method, the path and the version
/// (its first three words; fewer give "Missing Method", "Missing path" or "Missing version"),
/// and a version other than "HTTP/1.1" gives "Unsupported HTTP version"; then come the headers
/// and the body (see `read_headers`); last, a method other than the five known gives
/// "Unrecognized method". An empty input gives "Empty request". The request is on stream 0.
pub open spec fn spec_parse_request(text: Seq<u8>) -> Result<RequestModel, Seq<char>> {
    let ls = lines(text);
    if ls.len() == 0 {
        Err("Empty request"@)
    } else {
        let ws = words(ls[0]);
        if ws.len() < 1 {
            Err("Missing Method"@)
        } else if ws.len() < 2 {
            Err("Missing path"@)
        } else if ws.len() < 3 {
            Err("Missing version"@)
        } else if ws[2] != http11() {
            Err("Unsupported HTTP version"@)
        } else {
            match read_headers(ls, 1) {
                Err(e) => Err(e),
                Ok((hs, body)) => match Method::spec_from_name(ws[0]) {
                    None => Err("Unrecognized method"@),
                    Some(m) => Ok(
                        RequestModel { method: m, path: ws[1], headers: hs, body, stream_id: 0 },
                    ),
                },
            }
        }
    }
}

/// The request that bytes hold: the bytes are read as UTF-8 text, each invalid sequence
/// replaced by U+FFFD (see `utf8_lossy`), and the text is read as `spec_parse_request` says.
pub open spec fn spec_from_bytes(bytes: Seq<u8>) -> Result<RequestModel, Seq<char>> {
    spec_parse_request(utf8_lossy(bytes))
}

/// A request's error, as text.
pub open spec fn error_view(r: Result<Request, String>) -> Result<RequestModel, Seq<char>> {
    match r {
        Ok(q) => Ok(q@),
        Err(e) => Err(e@),
    }
}

/// Reads the headers from line `k` on (see `read_headers`).
fn read_header_lines(ls: &Vec<Vec<u8>>, k: usize) -> (r: Result<(Vec<Header>, Vec<u8>), String>)
    requires
        1 <= k <= ls@.len(),
    ensures
        match (r, read_headers(vecs_view(ls@), k as int)) {
            (Ok((hs, body)), Ok((m, b))) => headers_view(hs@) == m && body@ == b,
            (Err(e), Err(t)) => e@ == t,
            _ => false,
        },
{
    let ghost all = vecs_view(ls@);
    let mut headers: Vec<Header> = Vec::new();
    let mut j: usize = k;
    assert(headers_view(headers@) =~= Seq::<(Seq<u8>, Seq<u8>)>::empty());
    while j < ls.len()
        invariant
            k <= j <= ls@.len(),
            all == vecs_view(ls@),
            read_headers(all, k as int) == match read_headers(all, j as int) {
                Ok((m, b)) => Ok((headers_view(headers@) + m, b)),
                Err(e) => Err(e),
            },
        decreases ls@.len() - j,
    {
        let line = &ls[j];
        assert(line@ == all[j as int]);
        if line.len() == 0 {
            let body = join_from(ls, j + 1);
            assert(headers_view(headers@) + Seq::<(Seq<u8>, Seq<u8>)>::empty() =~= headers_view(
                headers@,
            ));
            return Ok((headers, body));
        }
        let i: usize = find_sep(line.as_slice());
        proof {
            lemma_find_sep(line@, 0);
        }
        if i >= line.len() {
            return Err("Header missing value".to_owned());
        }
        let name = crate::bytes::copy_range(line.as_slice(), 0, i);
        let value = crate::bytes::copy_range(line.as_slice(), i + 2, line.len());
        let ghost before = headers_view(headers@);
        headers.push(Header::new(name, value));
        proof {
            let h = (all[j as int].take(i as int), all[j as int].skip(i as int + 2));
            assert(headers_view(headers@) =~= before + seq![h]);
            match read_headers(all, j + 1) {
                Ok((m, b)) => {
                    assert(before + (seq![h] + m) =~= (before + seq![h]) + m);
                },
                Err(e) => {},
            }
        }
        j = j + 1;
    }
    assert(headers_view(headers@) + Seq::<(Seq<u8>, Seq<u8>)>::empty() =~= headers_view(headers@));
    Ok((headers, Vec::new()))
}

impl Request {
    /// Reads an HTTP/1.1 request from a buffer (see `spec_from_bytes`).
    pub fn from_bytes(bytes: [u8; 1024]) -> (r: Result<Self, String>)
        ensures
            error_view(r) == spec_from_bytes(bytes@),
    {
        let text = from_utf8_lossy(bytes.as_slice());
        Self::from_text(text.as_slice())
    }

    /// Reads an HTTP/1.1 request from UTF-8 text (see `spec_parse_request`).
    pub fn from_text(text: &[u8]) -> (r: Result<Self, String>)
        ensures
            error_view(r) == spec_parse_request(text@),
    {
        let ls = split_lines(text);
        if ls.len() == 0 {
            return Err("Empty request".to_owned());
        }
        let ws = split_words(ls[0].as_slice());
        if ws.len() < 1 {
            return Err("Missing Method".to_owned());
        }
        if ws.len() < 2 {
            return Err("Missing path".to_owned());
        }
        if ws.len() < 3 {
            return Err("Missing version".to_owned());
        }
        let version: Vec<u8> = vec![72u8, 84u8, 84u8, 80u8, 47u8, 49u8, 46u8, 49u8];
        assert(version@ =~= http11());
        assert(ws@[2]@ == words(vecs_view(ls@)[0])[2]);
        if !crate::bytes::bytes_eq(ws[2].as_slice(), version.as_slice()) {
            return Err("Unsupported HTTP version".to_owned());
        }
        let (headers, body) = match read_header_lines(&ls, 1) {
            Ok(hb) => hb,
            Err(e) => {
                return Err(e);
            },
        };
        let method = match Method::from_str(ws[0].as_slice()) {
            Ok(m) => m,
            Err(e) => {
                return Err(e.to_owned());
            },
        };
        let path = crate::bytes::copy_range(ws[1].as_slice(), 0, ws[1].len());
        assert(ws@[1]@.subrange(0, ws@[1]@.len() as int) =~= ws@[1]@);
        Ok(Request { method, path, headers, body, stream_id: 0 })
    }
}

} // verus!
