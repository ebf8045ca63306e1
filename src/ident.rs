use vstd::prelude::*;
use vstd::utf8::{decode_utf8 as utf8_decoded, valid_utf8};

verus! {

/// The two container formats an intake file may hold.
#[derive(Clone, Copy, Debug, PartialEq, Eq, Structural)]
pub enum SourceKind {
    /// A bencoded `.torrent` metainfo file.
    Torrent,
    /// A text file holding one `magnet:` link.
    Magnet,
}

/// Index of the last `.` in `s`, or -1 where there is none.
pub open spec fn last_dot(s: Seq<char>) -> int
    decreases s.len(),
{
    if s.len() == 0 {
        -1
    } else if s.last() == '.' {
        s.len() - 1
    } else {
        last_dot(s.drop_last())
    }
}

/// The extension of a file name: what follows its last dot, where that dot
/// is not the first character.
pub open spec fn extension_of(name: Seq<char>) -> Option<Seq<char>> {
    let d = last_dot(name);
    if d <= 0 {
        None
    } else {
        Some(name.subrange(d + 1, name.len() as int))
    }
}

pub open spec fn torrent_ext() -> Seq<char> {
    seq!['t', 'o', 'r', 'r', 'e', 'n', 't']
}

pub open spec fn magnet_ext() -> Seq<char> {
    seq!['m', 'a', 'g', 'n', 'e', 't']
}

/// The kind of intake file a name designates, if any.
pub open spec fn kind_of(name: Seq<char>) -> Option<SourceKind> {
    match extension_of(name) {
        Some(e) => if e == torrent_ext() {
            Some(SourceKind::Torrent)
        } else if e == magnet_ext() {
            Some(SourceKind::Magnet)
        } else {
            None
        },
        None => None,
    }
}

pub open spec fn is_lower_hex(c: char) -> bool {
    ('0' <= c && c <= '9') || ('a' <= c && c <= 'f')
}

/// A canonical info hash: 40 (v1) or 64 (v2) lowercase hexadecimal digits.
pub open spec fn is_info_hash(h: Seq<char>) -> bool {
    &&& (h.len() == 40 || h.len() == 64)
    &&& forall|i: int| 0 <= i < h.len() ==> is_lower_hex(#[trigger] h[i])
}

pub open spec fn opt_view(o: Option<String>) -> Option<Seq<char>> {
    match o {
        Some(s) => Some(s@),
        None => None,
    }
}

/// Deepest list or dictionary nesting accepted in a metainfo file. Real
/// metainfo files nest a few levels (a v2 file tree one more per directory).
pub const MAX_BENCODE_DEPTH: usize = 64;

/// Byte-string lengths are counted up to this value; any longer string runs
/// past the end of every input this reads.
pub const LENGTH_CAP: u64 = 1_000_000_000_000_000;

/// Where a scan of bencode stands: between values, inside an integer, inside
/// the length of a byte string, or inside its contents (bytes still to skip).
#[derive(Clone, Copy, Debug, PartialEq, Eq, Structural)]
pub enum ScanMode {
    Value,
    Integer,
    Length(u64),
    Bytes(u64),
}

/// The state of a bencode scan: lists and dictionaries open now, the most
/// ever open at once, and where the scan stands.
pub ghost struct Scan {
    pub depth: nat,
    pub deepest: nat,
    pub mode: ScanMode,
}

pub open spec fn is_digit(b: u8) -> bool {
    48 <= b <= 57
}

/// The length of a byte string after one more decimal digit, capped.
pub open spec fn next_length(n: u64, b: u8) -> u64 {
    if n >= LENGTH_CAP {
        LENGTH_CAP
    } else {
        (n * 10 + (b - 48)) as u64
    }
}

/// One byte of a bencode scan: `l` and `d` open a list or dictionary, `e`
/// closes one (or ends an integer), `i` starts an integer, digits give the
/// length of a byte string whose contents follow its `:` and are skipped.
pub open spec fn scan_step(s: Scan, b: u8) -> Scan {
    match s.mode {
        ScanMode::Value => if b == 108 || b == 100 {
            Scan {
                depth: s.depth + 1,
                deepest: if s.depth + 1 > s.deepest {
                    s.depth + 1
                } else {
                    s.deepest
                },
                mode: ScanMode::Value,
            }
        } else if b == 101 {
            Scan {
                depth: if s.depth > 0 {
                    (s.depth - 1) as nat
                } else {
                    0
                },
                ..s
            }
        } else if b == 105 {
            Scan { mode: ScanMode::Integer, ..s }
        } else if is_digit(b) {
            Scan { mode: ScanMode::Length((b - 48) as u64), ..s }
        } else {
            s
        },
        ScanMode::Integer => if b == 101 {
            Scan { mode: ScanMode::Value, ..s }
        } else {
            s
        },
        ScanMode::Length(n) => if is_digit(b) {
            Scan { mode: ScanMode::Length(next_length(n, b)), ..s }
        } else if b == 58 && n > 0 {
            Scan { mode: ScanMode::Bytes(n), ..s }
        } else {
            Scan { mode: ScanMode::Value, ..s }
        },
        ScanMode::Bytes(k) => if k <= 1 {
            Scan { mode: ScanMode::Value, ..s }
        } else {
            Scan { mode: ScanMode::Bytes((k - 1) as u64), ..s }
        },
    }
}

/// The scan after reading all of `s`.
pub open spec fn scan_of(s: Seq<u8>) -> Scan
    decreases s.len(),
{
    if s.len() == 0 {
        Scan { depth: 0, deepest: 0, mode: ScanMode::Value }
    } else {
        scan_step(scan_of(s.drop_last()), s.last())
    }
}

/// The deepest nesting of lists and dictionaries in bencoded bytes, as far as
/// they are well formed.
pub open spec fn bencode_depth(s: Seq<u8>) -> nat {
    scan_of(s).deepest
}

/// Computes `bencode_depth` of the bytes.
pub fn bencode_depth_of(contents: &[u8]) -> (r: usize)
    ensures
        r == bencode_depth(contents@),
{
    let mut depth: usize = 0;
    let mut deepest: usize = 0;
    let mut mode = ScanMode::Value;
    let mut i: usize = 0;
    while i < contents.len()
        invariant
            i <= contents@.len(),
            depth <= deepest <= i,
            scan_of(contents@.subrange(0, i as int)) == (Scan {
                depth: depth as nat,
                deepest: deepest as nat,
                mode,
            }),
        decreases contents@.len() - i,
    {
        let ghost next = contents@.subrange(0, i + 1);
        assert(next.drop_last() =~= contents@.subrange(0, i as int));
        let b = contents[i];
        match mode {
            ScanMode::Value => {
                if b == 108 || b == 100 {
                    depth = depth + 1;
                    if depth > deepest {
                        deepest = depth;
                    }
                } else if b == 101 {
                    if depth > 0 {
                        depth = depth - 1;
                    }
                } else if b == 105 {
                    mode = ScanMode::Integer;
                } else if 48 <= b && b <= 57 {
                    mode = ScanMode::Length((b - 48) as u64);
                }
            },
            ScanMode::Integer => {
                if b == 101 {
                    mode = ScanMode::Value;
                }
            },
            ScanMode::Length(n) => {
                if 48 <= b && b <= 57 {
                    let n2: u64 = if n >= LENGTH_CAP {
                        LENGTH_CAP
                    } else {
                        n * 10 + (b - 48) as u64
                    };
                    mode = ScanMode::Length(n2);
                } else if b == 58 && n > 0 {
                    mode = ScanMode::Bytes(n);
                } else {
                    mode = ScanMode::Value;
                }
            },
            ScanMode::Bytes(k) => {
                if k <= 1 {
                    mode = ScanMode::Value;
                } else {
                    mode = ScanMode::Bytes(k - 1);
                }
            },
        }
        i = i + 1;
    }
    assert(contents@.subrange(0, contents@.len() as int) =~= contents@);
    deepest
}

/// The info hash that hightorrent reads from the bytes of a metainfo file.
pub uninterp spec fn torrent_info_hash(contents: Seq<u8>) -> Option<Seq<char>>;

/// The serialization of the URL that the url crate parses from a text.
pub uninterp spec fn url_serialization(text: Seq<char>) -> Option<Seq<char>>;

/// The info hash that hightorrent reads from a magnet link.
pub uninterp spec fn magnet_info_hash(link: Seq<char>) -> Option<Seq<char>>;

/// Relies on `hightorrent::TorrentFile::from_slice` and `TorrentFile::hash`:
/// the info hash of a parsed metainfo file (the parser recurses once per
/// nesting level, so deeper input is refused before the call), which hightorrent builds with
/// `InfoHash::new` (40 or 64 hex digits, lowercased), or None where parsing fails.
#[verifier::external_body]
fn parse_torrent(contents: &[u8]) -> (r: Option<String>)
    requires
        bencode_depth(contents@) <= MAX_BENCODE_DEPTH,
    ensures
        opt_view(r) == torrent_info_hash(contents@),
        r matches Some(h) ==> is_info_hash(h@),
{
    hightorrent::TorrentFile::from_slice(contents).ok().map(|t| t.hash().to_owned())
}

/// Relies on `String::from_utf8`: the decoded text, or None where the bytes
/// are not valid UTF-8.
#[verifier::external_body]
fn decode_utf8(bytes: Vec<u8>) -> (r: Option<String>)
    ensures
        r is Some <==> valid_utf8(bytes@),
        r matches Some(t) ==> t@ == utf8_decoded(bytes@),
{
    String::from_utf8(bytes).ok()
}

/// Relies on `url::Url::parse`: the serialization of the parsed URL, or None
/// where the text is not a URL.
#[verifier::external_body]
fn parse_url(text: &str) -> (r: Option<String>)
    ensures
        opt_view(r) == url_serialization(text@),
{
    url::Url::parse(text).ok().map(String::from)
}

/// Relies on `hightorrent::MagnetLink::new` and `InfoHash::as_str`: the info
/// hash of a magnet link, which hightorrent checks with `InfoHash::new`
/// (40 or 64 hex digits, lowercased), or None where the link is refused.
#[verifier::external_body]
fn parse_magnet(link: &str) -> (r: Option<String>)
    ensures
        opt_view(r) == magnet_info_hash(link@),
        r matches Some(h) ==> is_info_hash(h@),
{
    hightorrent::MagnetLink::new(link).ok().map(|m| m.hash().as_str().to_owned())
}

/// The content identifier of an intake file of the given kind.
pub open spec fn identifier_of(kind: SourceKind, contents: Seq<u8>) -> Option<Seq<char>> {
    match kind {
        SourceKind::Torrent => if bencode_depth(contents) <= MAX_BENCODE_DEPTH {
            torrent_info_hash(contents)
        } else {
            None
        },
        SourceKind::Magnet => if valid_utf8(contents) {
            match url_serialization(utf8_decoded(contents)) {
                Some(url) => magnet_info_hash(url),
                None => None,
            }
        } else {
            None
        },
    }
}

proof fn lemma_last_dot(s: Seq<char>, d: int)
    requires
        -1 <= d < s.len(),
        d >= 0 ==> s[d] == '.',
        forall|k: int| d < k < s.len() ==> s[k] != '.',
    ensures
        last_dot(s) == d,
    decreases s.len(),
{
    if s.len() > 0 && s.len() - 1 != d {
        assert(s.last() != '.');
        assert forall|k: int| d < k < s.drop_last().len() implies s.drop_last()[k] != '.' by {
            assert(s.drop_last()[k] == s[k]);
        }
        lemma_last_dot(s.drop_last(), d);
    }
}

/// Whether two strings hold the same characters.
pub(crate) fn same_text(a: &str, b: &str) -> (r: bool)
    ensures
        r == (a@ == b@),
{
    let n = a.unicode_len();
    if n != b.unicode_len() {
        return false;
    }
    let mut i: usize = 0;
    while i < n
        invariant
            n == a@.len() == b@.len(),
            i <= n,
            forall|k: int| 0 <= k < i ==> a@[k] == b@[k],
        decreases n - i,
    {
        if a.get_char(i) != b.get_char(i) {
            return false;
        }
        i = i + 1;
    }
    assert(a@ =~= b@);
    true
}

/// The kind of intake file that a file name designates by its extension:
/// `.torrent` or `.magnet`, else None.
pub fn source_kind(file_name: &str) -> (r: Option<SourceKind>)
    ensures
        r == kind_of(file_name@),
{
    let n = file_name.unicode_len();
    let mut i: usize = n;
    let mut dot: Option<usize> = None;
    while i > 0 && dot.is_none()
        invariant
            n == file_name@.len(),
            i <= n,
            dot matches Some(d) ==> d < n && file_name@[d as int] == '.' && d == i,
            forall|k: int| i < k < n ==> file_name@[k] != '.',
            dot.is_none() ==> (i == n || file_name@[i as int] != '.'),
        decreases i + (if dot.is_none() { 1int } else { 0int }),
    {
        if file_name.get_char(i - 1) == '.' {
            dot = Some(i - 1);
        }
        i = i - 1;
    }
    let d: usize = match dot {
        Some(d) => d,
        None => {
            proof {
                lemma_last_dot(file_name@, -1);
            }
            return None;
        },
    };
    proof {
        lemma_last_dot(file_name@, d as int);
    }
    if d == 0 {
        return None;
    }
    let ext = file_name.substring_char(d + 1, n);
    proof {
        reveal_strlit("torrent");
        reveal_strlit("magnet");
        assert("torrent"@ =~= torrent_ext());
        assert("magnet"@ =~= magnet_ext());
    }
    if same_text(ext, "torrent") {
        Some(SourceKind::Torrent)
    } else if same_text(ext, "magnet") {
        Some(SourceKind::Magnet)
    } else {
        None
    }
}

/// The content identifier of an intake file of the given kind, or None where
/// the file is rejected: a metainfo file that nests deeper than
/// `MAX_BENCODE_DEPTH` or does not parse, or a link file
/// that is not UTF-8, not a URL, or not a magnet link with a valid info hash.
pub fn extract_identifier(kind: SourceKind, contents: Vec<u8>) -> (r: Option<String>)
    ensures
        opt_view(r) == identifier_of(kind, contents@),
        r matches Some(h) ==> is_info_hash(h@),
{
    match kind {
        SourceKind::Torrent => {
            if bencode_depth_of(contents.as_slice()) > MAX_BENCODE_DEPTH {
                return None;
            }
            parse_torrent(contents.as_slice())
        },
        SourceKind::Magnet => {
            let text = match decode_utf8(contents) {
                Some(t) => t,
                None => return None,
            };
            let url = match parse_url(text.as_str()) {
                Some(u) => u,
                None => return None,
            };
            parse_magnet(url.as_str())
        },
    }
}

/// An intake file whose identifier was extracted.
pub struct InfoHashSource {
    pub info_hash: String,
    pub file_name: String,
    pub path: String,
}

impl InfoHashSource {
    /// The identifier is canonical.
    pub open spec fn wf(&self) -> bool {
        is_info_hash(self.info_hash@)
    }

    /// Recognizes an intake file by the extension of its name and extracts
    /// the identifier from its contents; None where either step rejects it.
    pub fn from_file(file_name: &str, path: &str, contents: Vec<u8>) -> (r: Option<InfoHashSource>)
        ensures
            match kind_of(file_name@) {
                None => r is None,
                Some(k) => match identifier_of(k, contents@) {
                    None => r is None,
                    Some(h) => r matches Some(s) && s.info_hash@ == h && s.file_name@
                        == file_name@ && s.path@ == path@,
                },
            },
            r matches Some(s) ==> s.wf(),
    {
        let kind = match source_kind(file_name) {
            Some(k) => k,
            None => return None,
        };
        match extract_identifier(kind, contents) {
            Some(info_hash) => Some(
                InfoHashSource {
                    info_hash,
                    file_name: String::from_str(file_name),
                    path: String::from_str(path),
                },
            ),
            None => None,
        }
    }
}

/// Intake files with byte-identical contents, whatever their names, yield the
/// same identifier where their names designate the same kind, and so the same
/// job name.
pub proof fn lemma_same_contents_same_identifier(
    name_a: Seq<char>,
    name_b: Seq<char>,
    a: Seq<u8>,
    b: Seq<u8>,
)
    requires
        a == b,
        kind_of(name_a) is Some,
        kind_of(name_a) == kind_of(name_b),
    ensures
        identifier_of(kind_of(name_a).unwrap(), a) == identifier_of(kind_of(name_b).unwrap(), b),
        identifier_of(kind_of(name_a).unwrap(), a) matches Some(h) ==> identifier_of(
            kind_of(name_b).unwrap(),
            b,
        ) matches Some(h2) && crate::job::job_name_of(h) == crate::job::job_name_of(h2),
{
}

} // verus!
