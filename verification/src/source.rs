//! Source files and the map that holds them: immutable text, a content
//! digest, and cached line ranges.

use vstd::prelude::*;

use crate::location::SyntaxLocation;
use vstd::utf8::encode_utf8;
use crate::span::CheapRange;
use crate::span::SourceId;

verus! {

/// The line ending sequence of a file.
#[derive(Debug, Clone, Copy, PartialEq, Eq, Structural)]
pub enum LineEnding {
    /// LF, `\n`.
    Unix,
    /// CRLF, `\r\n`.
    Windows,
    /// The file only has one line.
    OneLine,
}

/// Where a source file came from.
#[derive(Debug)]
pub enum SourceFilePath {
    /// A real file on disk, by its canonical path.
    Real(String),
    /// A virtual file, such as a line of interactive input.
    Virtual(String),
}

/// The SHA-256 digest of a byte sequence: 32 bytes, a function of the input
/// alone.
pub uninterp spec fn sha256_of(bytes: Seq<u8>) -> Seq<u8>;

/// Relies on sha2::Sha256 (through Digest::new, update and finalize): the
/// SHA-256 digest of the input, 32 bytes long, depending on the input alone.
#[verifier::external_body]
fn sha256_digest(bytes: &[u8]) -> (r: [u8; 32])
    ensures
        r@ == sha256_of(bytes@),
{
    let mut hasher = <sha2::Sha256 as sha2::Digest>::new();
    sha2::Digest::update(&mut hasher, bytes);
    let out = sha2::Digest::finalize(hasher);
    let mut hash = [0u8; 32];
    hash.copy_from_slice(out.as_slice());
    hash
}

/// The lowercase hex digit of a value below sixteen.
pub open spec fn hex_digit(v: u8) -> u8 {
    if v < 10 {
        (48 + v) as u8
    } else {
        (87 + v) as u8
    }
}

/// The lowercase hex text of a byte sequence: two digits for each byte.
pub open spec fn hex_of(bytes: Seq<u8>) -> Seq<u8>
    decreases bytes.len(),
{
    if bytes.len() == 0 {
        Seq::empty()
    } else {
        hex_of(bytes.drop_last()) + seq![
            hex_digit(bytes.last() / 16),
            hex_digit(bytes.last() % 16),
        ]
    }
}

/// Whether the first newline of the text is part of a CRLF pair.
pub open spec fn has_crlf_ending(src: Seq<u8>) -> bool {
    exists|i: int|
        0 < i < src.len() && #[trigger] src[i] == 10 && src[i - 1] == 13 && forall|j: int|
            0 <= j < i ==> src[j] != 10
}

/// Which line ending convention the first newline of the text shows.
pub open spec fn line_ending_ok(src: Seq<u8>, r: LineEnding) -> bool {
    match r {
        LineEnding::OneLine => forall|i: int| 0 <= i < src.len() ==> src[i] != 10,
        LineEnding::Unix => (exists|i: int| 0 <= i < src.len() && src[i] == 10)
            && !has_crlf_ending(src),
        LineEnding::Windows => has_crlf_ending(src),
    }
}

/// Reads the line ending convention off the first newline of the text.
pub fn get_line_ending(src: &[u8]) -> (r: LineEnding)
    ensures
        line_ending_ok(src@, r),
{
    let n = src.len();
    let mut i: usize = 0;
    while i < n
        invariant
            i <= n == src@.len(),
            forall|j: int| 0 <= j < i ==> src@[j] != 10,
        decreases n - i,
    {
        if src[i] == 10 {
            if i > 0 && src[i - 1] == 13 {
                proof {
                    assert(has_crlf_ending(src@));
                }
                return LineEnding::Windows;
            }
            proof {
                assert(src@[i as int] == 10);
                assert forall|k: int|
                    0 < k < src@.len() && #[trigger] src@[k] == 10 && src@[k - 1] == 13 implies
                    !(forall|j: int| 0 <= j < k ==> src@[j] != 10) by {
                    if k <= i as int {
                        assert(src@[k - 1] == 13);
                        assert(src@[k] == 10);
                        if k < i as int {
                            assert(src@[k] != 10);
                        } else {
                            assert(k == i as int);
                            assert(src@[k - 1] != 13 || k - 1 >= i as int);
                        }
                    } else {
                        assert(src@[i as int] == 10);
                    }
                }
            }
            return LineEnding::Unix;
        }
        i = i + 1;
    }
    LineEnding::OneLine
}

/// No newline byte in the half-open range.
pub open spec fn no_newline_in(src: Seq<u8>, a: int, b: int) -> bool {
    forall|m: int| a <= m < b ==> #[trigger] src[m] != 10
}

/// The cached line ranges of LF-terminated text, complete up to `bound`:
/// the k-th entry is line k, runs up to (not including) its newline, holds
/// no newline itself, lines are consecutive starting at offset zero, and
/// every newline before `bound` ends exactly one recorded line.
pub open spec fn line_ranges_upto(src: Seq<u8>, ranges: Seq<SyntaxLocation>, bound: int) -> bool {
    &&& forall|k: int| 0 <= k < ranges.len() ==> (#[trigger] ranges[k]).line == k
    &&& forall|k: int|
        0 <= k < ranges.len() ==> (#[trigger] ranges[k]).range.start <= ranges[k].range.end
            && ranges[k].range.end < bound <= src.len() && src[ranges[k].range.end as int] == 10
    &&& forall|k: int|
        0 <= k < ranges.len() ==> no_newline_in(
            src,
            (#[trigger] ranges[k]).range.start as int,
            ranges[k].range.end as int,
        )
    &&& (ranges.len() > 0 ==> ranges[0].range.start == 0)
    &&& forall|k: int|
        0 <= k < ranges.len() - 1 ==> (#[trigger] ranges[k + 1]).range.start == ranges[
            k
        ].range.end + 1
    &&& forall|m: int|
        0 <= m < bound && #[trigger] src[m] == 10 ==> exists|k: int|
            0 <= k < ranges.len() && (#[trigger] ranges[k]).range.end == m
}

/// A container for a source file being compiled. The source text is
/// immutable.
#[derive(Debug)]
pub struct SourceFile {
    /// Where the file came from; interactive input gets a virtual path.
    pub path: SourceFilePath,
    /// The display name of the file.
    pub name: String,
    /// The SHA-256 of the file's content.
    pub hash: [u8; 32],
    /// The original content of the file.
    pub src: String,
    /// Cached byte ranges of each line, in line order.
    pub line_ranges: Vec<SyntaxLocation>,
    /// The line ending sequence of the file.
    pub eol: LineEnding,
}

impl SourceFile {
    /// Builds a source file: computes its content digest, line ending and
    /// per-line byte ranges. Text with CRLF line endings is not handled.
    pub fn new(name: String, path: SourceFilePath, src: String) -> (r: Self)
        requires
            !has_crlf_ending(encode_utf8(src@)),
        ensures
            r.name@ == name@,
            r.path == path,
            r.src@ == src@,
            r.hash@ == sha256_of(encode_utf8(src@)),
            line_ending_ok(encode_utf8(src@), r.eol),
            match r.eol {
                LineEnding::Unix => line_ranges_upto(
                    encode_utf8(src@),
                    r.line_ranges@,
                    encode_utf8(src@).len() as int,
                ),
                LineEnding::OneLine => r.line_ranges@.len() == 1 && r.line_ranges@[0].line == 0
                    && r.line_ranges@[0].range.start == 0 && r.line_ranges@[0].range.end
                    == encode_utf8(src@).len(),
                LineEnding::Windows => false,
            },
    {
        let bytes = src.as_str().as_bytes();
        let line_ending = get_line_ending(bytes);
        let n = bytes.len();
        let mut line_ranges: Vec<SyntaxLocation> = Vec::new();
        match line_ending {
            LineEnding::Unix => {
                let mut current_line: usize = 0;
                let mut line_start: usize = 0;
                let mut current: usize = 0;
                while current < n
                    invariant
                        line_start <= current <= n == encode_utf8(src@).len(),
                        current_line == line_ranges@.len(),
                        current_line <= current,
                        bytes@ == encode_utf8(src@),
                        line_ranges_upto(bytes@, line_ranges@, current as int),
                        line_start as int == if line_ranges@.len() == 0 {
                            0int
                        } else {
                            line_ranges@.last().range.end + 1
                        },
                        no_newline_in(bytes@, line_start as int, current as int),
                    decreases n - current,
                {
                    if bytes[current] == 10 {
                        let ghost before = line_ranges@;
                        line_ranges.push(
                            SyntaxLocation {
                                line: current_line,
                                range: CheapRange::new(line_start, current),
                            },
                        );
                        proof {
                            assert forall|m: int|
                                0 <= m < current + 1 && #[trigger] bytes@[m] == 10 implies
                                exists|k: int|
                                    0 <= k < line_ranges@.len()
                                        && (#[trigger] line_ranges@[k]).range.end == m by {
                                if m < current as int {
                                    let k = choose|k: int|
                                        0 <= k < before.len() && (#[trigger] before[k]).range.end
                                            == m;
                                    assert(line_ranges@[k].range.end == m);
                                } else {
                                    assert(line_ranges@[line_ranges@.len() - 1].range.end == m);
                                }
                            }
                        }
                        current_line = current_line + 1;
                        line_start = current + 1;
                    }
                    current = current + 1;
                }
            },
            LineEnding::Windows => {
                proof {
                    assert(false);
                }
            },
            LineEnding::OneLine => {
                line_ranges.push(SyntaxLocation { line: 0, range: CheapRange::new(0, n) });
                proof {
                    assert(line_ranges@.len() == 1);
                }
            },
        }
        let hash = sha256_digest(bytes);
        SourceFile { path, name, hash, src, line_ranges, eol: line_ending }
    }

    /// The content digest as lowercase hex text.
    pub fn hash_as_hex(&self) -> (r: Vec<u8>)
        ensures
            r@ == hex_of(self.hash@),
    {
        let mut r: Vec<u8> = Vec::new();
        let mut i: usize = 0;
        while i < 32
            invariant
                i <= 32,
                r@ == hex_of(self.hash@.take(i as int)),
        decreases 32 - i,
        {
            let b = self.hash[i];
            let hi = b / 16;
            let lo = b % 16;
            let hi_digit = if hi < 10 {
                48 + hi
            } else {
                87 + hi
            };
            let lo_digit = if lo < 10 {
                48 + lo
            } else {
                87 + lo
            };
            r.push(hi_digit);
            r.push(lo_digit);
            proof {
                let pre = self.hash@.take(i as int);
                let now = self.hash@.take(i + 1);
                assert(now.drop_last() =~= pre);
                assert(now.last() == self.hash@[i as int]);
                assert(r@ =~= hex_of(now));
            }
            i = i + 1;
        }
        proof {
            assert(self.hash@.take(32) =~= self.hash@);
        }
        r
    }

    /// The file's content.
    pub fn content(&self) -> (r: String)
        ensures
            r@ == self.src@,
    {
        self.src.clone()
    }

    /// The file's content as bytes.
    pub fn bytes(&self) -> (r: &[u8])
        ensures
            r@ == encode_utf8(self.src@),
    {
        self.src.as_str().as_bytes()
    }
}

/// The map of loaded source files, keyed by their ids.
#[derive(Debug)]
pub struct SourceMap {
    pub files: Vec<SourceFile>,
}

impl Default for SourceMap {
    fn default() -> (r: Self)
        ensures
            r.files@ == Seq::<SourceFile>::empty(),
    {
        SourceMap { files: Vec::new() }
    }
}

impl SourceMap {
    /// The id the next loaded file will get.
    fn next_id(&self) -> (r: SourceId)
        requires
            self.files@.len() < u32::MAX,
        ensures
            r == (SourceId(self.files@.len() as u32)),
    {
        SourceId(self.files.len() as u32)
    }

    fn new_file(&mut self, name: String, path: Option<String>, src: String) -> (r: SourceId)
        requires
            old(self).files@.len() < u32::MAX,
            !has_crlf_ending(encode_utf8(src@)),
        ensures
            r == (SourceId(old(self).files@.len() as u32)),
            final(self).files@.len() == old(self).files@.len() + 1,
            forall|k: int|
                0 <= k < old(self).files@.len() ==> final(self).files@[k] == old(
                    self,
                ).files@[k],
            final(self).files@.last().src@ == src@,
            final(self).files@.last().name@ == name@,
    {
        let id = self.next_id();
        let file_path = match path {
            Some(p) => SourceFilePath::Real(p),
            None => SourceFilePath::Virtual(name.clone()),
        };
        let file = SourceFile::new(name, file_path, src);
        self.files.push(file);
        id
    }

    /// Loads a virtual file: a named string of text.
    pub fn load_virtual(&mut self, name: String, src: String) -> (r: SourceId)
        requires
            old(self).files@.len() < u32::MAX,
            !has_crlf_ending(encode_utf8(src@)),
        ensures
            r == (SourceId(old(self).files@.len() as u32)),
            final(self).files@.len() == old(self).files@.len() + 1,
            forall|k: int|
                0 <= k < old(self).files@.len() ==> final(self).files@[k] == old(
                    self,
                ).files@[k],
            final(self).files@.last().src@ == src@,
            final(self).files@.last().name@ == name@,
    {
        self.new_file(name, None, src)
    }

    /// The content of a previously loaded file.
    pub fn get_raw(&self, id: &SourceId) -> (r: Option<String>)
        ensures
            match r {
                Some(text) => id.0 < self.files@.len() && text@ == self.files@[id.0 as int].src@,
                None => id.0 >= self.files@.len(),
            },
    {
        let idx = id.0 as usize;
        if idx < self.files.len() {
            Some(self.files[idx].content())
        } else {
            None
        }
    }

    /// The display name of a previously loaded file.
    pub fn get_name(&self, id: &SourceId) -> (r: Option<&str>)
        ensures
            match r {
                Some(name) => id.0 < self.files@.len() && name@ == self.files@[
                    id.0 as int
                ].name@,
                None => id.0 >= self.files@.len(),
            },
    {
        let idx = id.0 as usize;
        if idx < self.files.len() {
            Some(self.files[idx].name.as_str())
        } else {
            None
        }
    }
}

} // verus!
