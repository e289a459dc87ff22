use vstd::prelude::*;

use crate::bytes::bytes_eq;

verus! {

/// One header: a name and a value, as bytes.
#[derive(Debug)]
pub struct Header {
    pub name: Vec<u8>,
    pub value: Vec<u8>,
}

impl View for Header {
    type V = (Seq<u8>, Seq<u8>);

    open spec fn view(&self) -> (Seq<u8>, Seq<u8>) {
        (self.name@, self.value@)
    }
}

impl Header {
    pub fn new(name: Vec<u8>, value: Vec<u8>) -> (r: Header)
        ensures
            r@ == (name@, value@),
    {
        Header { name, value }
    }

    /// A copy of this header.
    pub fn copy(&self) -> (r: Header)
        ensures
            r@ == self@,
    {
        Header {
            name: crate::bytes::copy_range(self.name.as_slice(), 0, self.name.len()),
            value: crate::bytes::copy_range(self.value.as_slice(), 0, self.value.len()),
        }
    }
}

/// The headers of a list, as values.
pub open spec fn headers_view(hs: Seq<Header>) -> Seq<(Seq<u8>, Seq<u8>)> {
    hs.map_values(|h: Header| h@)
}

/// The kinds of file that the server sends.
#[derive(Clone, Copy, Debug, PartialEq, Eq, Structural)]
pub enum ContentType {
    HTML,
    Text,
    JavaScript,
    CSS,
    Unknown,
}

/// The bytes of an ASCII string literal, written out.
pub open spec fn html_ext() -> Seq<u8> {
    seq!['h' as u8, 't' as u8, 'm' as u8, 'l' as u8]
}

pub open spec fn txt_ext() -> Seq<u8> {
    seq!['t' as u8, 'x' as u8, 't' as u8]
}

pub open spec fn js_ext() -> Seq<u8> {
    seq!['j' as u8, 's' as u8]
}

pub open spec fn css_ext() -> Seq<u8> {
    seq!['c' as u8, 's' as u8, 's' as u8]
}

impl ContentType {
    /// The content type that a file extension names.
    pub open spec fn spec_from_extension(ext: Seq<u8>) -> ContentType {
        if ext == html_ext() {
            ContentType::HTML
        } else if ext == txt_ext() {
            ContentType::Text
        } else if ext == js_ext() {
            ContentType::JavaScript
        } else if ext == css_ext() {
            ContentType::CSS
        } else {
            ContentType::Unknown
        }
    }

    pub fn from_extension(ext: &[u8]) -> (r: ContentType)
        ensures
            r == Self::spec_from_extension(ext@),
    {
        let html: Vec<u8> = vec!['h' as u8, 't' as u8, 'm' as u8, 'l' as u8];
        let txt: Vec<u8> = vec!['t' as u8, 'x' as u8, 't' as u8];
        let js: Vec<u8> = vec!['j' as u8, 's' as u8];
        let css: Vec<u8> = vec!['c' as u8, 's' as u8, 's' as u8];
        if bytes_eq(ext, html.as_slice()) {
            ContentType::HTML
        } else if bytes_eq(ext, txt.as_slice()) {
            ContentType::Text
        } else if bytes_eq(ext, js.as_slice()) {
            ContentType::JavaScript
        } else if bytes_eq(ext, css.as_slice()) {
            ContentType::CSS
        } else {
            ContentType::Unknown
        }
    }

    /// The media type that names this content type in a `content-type` header.
    pub open spec fn spec_media_type(self) -> Seq<u8> {
        match self {
            ContentType::HTML => seq![
                't' as u8, 'e' as u8, 'x' as u8, 't' as u8, '/' as u8, 'h' as u8, 't' as u8,
                'm' as u8, 'l' as u8,
            ],
            ContentType::Text => seq![
                't' as u8, 'e' as u8, 'x' as u8, 't' as u8, '/' as u8, 'p' as u8, 'l' as u8,
                'a' as u8, 'i' as u8, 'n' as u8,
            ],
            ContentType::JavaScript => seq![
                't' as u8, 'e' as u8, 'x' as u8, 't' as u8, '/' as u8, 'j' as u8, 'a' as u8,
                'v' as u8, 'a' as u8, 's' as u8, 'c' as u8, 'r' as u8, 'i' as u8, 'p' as u8,
                't' as u8,
            ],
            ContentType::CSS => seq![
                't' as u8, 'e' as u8, 'x' as u8, 't' as u8, '/' as u8, 'c' as u8, 's' as u8,
                's' as u8,
            ],
            ContentType::Unknown => seq![
                'a' as u8, 'p' as u8, 'p' as u8, 'l' as u8, 'i' as u8, 'c' as u8, 'a' as u8,
                't' as u8, 'i' as u8, 'o' as u8, 'n' as u8, '/' as u8, 'o' as u8, 'c' as u8,
                't' as u8, 'e' as u8, 't' as u8, '-' as u8, 's' as u8, 't' as u8, 'r' as u8,
                'e' as u8, 'a' as u8, 'm' as u8,
            ],
        }
    }

    /// The media type that names this content type in a `content-type` header.
    pub fn media_type(&self) -> (r: Vec<u8>)
        ensures
            r@ == self.spec_media_type(),
    {
        let r: Vec<u8> = match self {
            ContentType::HTML => vec![
                't' as u8, 'e' as u8, 'x' as u8, 't' as u8, '/' as u8, 'h' as u8, 't' as u8,
                'm' as u8, 'l' as u8,
            ],
            ContentType::Text => vec![
                't' as u8, 'e' as u8, 'x' as u8, 't' as u8, '/' as u8, 'p' as u8, 'l' as u8,
                'a' as u8, 'i' as u8, 'n' as u8,
            ],
            ContentType::JavaScript => vec![
                't' as u8, 'e' as u8, 'x' as u8, 't' as u8, '/' as u8, 'j' as u8, 'a' as u8,
                'v' as u8, 'a' as u8, 's' as u8, 'c' as u8, 'r' as u8, 'i' as u8, 'p' as u8,
                't' as u8,
            ],
            ContentType::CSS => vec![
                't' as u8, 'e' as u8, 'x' as u8, 't' as u8, '/' as u8, 'c' as u8, 's' as u8,
                's' as u8,
            ],
            ContentType::Unknown => vec![
                'a' as u8, 'p' as u8, 'p' as u8, 'l' as u8, 'i' as u8, 'c' as u8, 'a' as u8,
                't' as u8, 'i' as u8, 'o' as u8, 'n' as u8, '/' as u8, 'o' as u8, 'c' as u8,
                't' as u8, 'e' as u8, 't' as u8, '-' as u8, 's' as u8, 't' as u8, 'r' as u8,
                'e' as u8, 'a' as u8, 'm' as u8,
            ],
        };
        assert(r@ =~= self.spec_media_type());
        r
    }
}

} // verus!
