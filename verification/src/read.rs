use vstd::prelude::*;

use crate::response::{find_header, has_header, lookup, lemma_lookup_absent, names_distinct, set_header, set_header_spec, HeaderList};
use crate::types::{headers_view, Header};

verus! {

/// `s` with every leading occurrence of `prefix` removed, as `str::trim_start_matches` does; an
/// empty prefix removes nothing.
pub open spec fn trim_start_matches(s: Seq<u8>, prefix: Seq<u8>) -> Seq<u8>
    decreases s.len(),
{
    if prefix.len() > 0 && prefix.len() <= s.len() && s.subrange(0, prefix.len() as int) == prefix {
        trim_start_matches(s.subrange(prefix.len() as int, s.len() as int), prefix)
    } else {
        s
    }
}

/// `s` with every backslash replaced by a slash.
pub open spec fn backslashes_to_slashes(s: Seq<u8>) -> Seq<u8> {
    s.map_values(|b: u8| if b == '\\' as u8 { '/' as u8 } else { b })
}

/// The key under which a file is cached: its path with backslashes turned into slashes, less
/// the leading occurrences of the served directory.
pub open spec fn spec_cache_key(path: Seq<u8>, base: Seq<u8>) -> Seq<u8> {
    trim_start_matches(backslashes_to_slashes(path), base)
}

/// The key under which a file is cached (see `spec_cache_key`).
pub fn cache_key(path: &[u8], base: &[u8]) -> (r: Vec<u8>)
    ensures
        r@ == spec_cache_key(path@, base@),
{
    let mut replaced: Vec<u8> = Vec::new();
    let mut i: usize = 0;
    while i < path.len()
        invariant
            i <= path@.len(),
            replaced@ == backslashes_to_slashes(path@.subrange(0, i as int)),
        decreases path@.len() - i,
    {
        let b: u8 = path[i];
        replaced.push(if b == '\\' as u8 { '/' as u8 } else { b });
        i = i + 1;
        assert(backslashes_to_slashes(path@.subrange(0, i as int)) =~= backslashes_to_slashes(
            path@.subrange(0, i - 1),
        ).push(if b == '\\' as u8 { '/' as u8 } else { b }));
    }
    assert(path@.subrange(0, i as int) =~= path@);
    let mut start: usize = 0;
    let n: usize = replaced.len();
    let m: usize = base.len();
    assert(replaced@.subrange(0, n as int) =~= replaced@);
    if m > 0 {
        loop
            invariant
                n == replaced@.len(),
                m == base@.len(),
                m > 0,
                start <= n,
                trim_start_matches(replaced@, base@) == trim_start_matches(
                    replaced@.subrange(start as int, n as int),
                    base@,
                ),
            ensures
                start <= n,
                trim_start_matches(replaced@, base@) == replaced@.subrange(start as int, n as int),
            decreases n - start,
        {
            let ghost rest = replaced@.subrange(start as int, n as int);
            if m > n - start {
                break;
            }
            let candidate = crate::bytes::copy_range(replaced.as_slice(), start, start + m);
            assert(rest.subrange(0, m as int) =~= replaced@.subrange(start as int, start + m));
            if !crate::bytes::bytes_eq(candidate.as_slice(), base) {
                break;
            }
            assert(rest.subrange(m as int, rest.len() as int) =~= replaced@.subrange(
                start + m,
                n as int,
            ));
            start = start + m;
        }
    }
    let r = crate::bytes::copy_range(replaced.as_slice(), start, n);
    r
}

/// The files that the server sends, by key. Each key names one file.
pub struct FileCache {
    files: Vec<Header>,
}

impl View for FileCache {
    type V = HeaderList;

    /// The (key, contents) pairs, in the order they were first inserted.
    closed spec fn view(&self) -> HeaderList {
        headers_view(self.files@)
    }
}

impl FileCache {
    #[verifier::type_invariant]
    closed spec fn inv(self) -> bool {
        names_distinct(headers_view(self.files@))
    }

    pub fn new() -> (r: FileCache)
        ensures
            r@ == Seq::<(Seq<u8>, Seq<u8>)>::empty(),
    {
        let r = FileCache { files: Vec::new() };
        assert(r@ =~= Seq::<(Seq<u8>, Seq<u8>)>::empty());
        r
    }

    /// Caches a file under a key; a file cached under the same key is replaced.
    pub fn insert(&mut self, key: Vec<u8>, contents: Vec<u8>)
        ensures
            names_distinct(old(self)@),
            final(self)@ == set_header_spec(old(self)@, key@, contents@),
    {
        proof {
            use_type_invariant(&*self);
        }
        let mut files: Vec<Header> = Vec::new();
        std::mem::swap(&mut files, &mut self.files);
        set_header(&mut files, key, contents);
        self.files = files;
    }

    /// The contents cached under a key.
    pub fn get(&self, key: &[u8]) -> (r: Option<&Vec<u8>>)
        ensures
            match r {
                Some(c) => lookup(self@, key@) == Some(c@),
                None => lookup(self@, key@) is None,
            },
    {
        match find_header(&self.files, key) {
            Some(i) => {
                proof {
                    let hs = self@;
                    assert forall|j: int| 0 <= j < i implies hs[j].0 != key@ by {
                        assert(hs[j] == self.files@[j]@);
                    }
                    assert(hs[i as int] == self.files@[i as int]@);
                    crate::request::lemma_lookup_first(hs, key@, i as int);
                }
                Some(&self.files[i].value)
            },
            None => {
                proof {
                    lemma_lookup_absent(self@, key@);
                }
                None
            },
        }
    }

    /// The number of files cached.
    pub fn len(&self) -> (r: usize)
        ensures
            r == self@.len(),
    {
        self.files.len()
    }
}

} // verus!
