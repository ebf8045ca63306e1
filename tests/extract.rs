use blackhole::ident::{
    bencode_depth_of, extract_identifier, source_kind, InfoHashSource, SourceKind, MAX_BENCODE_DEPTH,
};
use blackhole::job::job_name;

const TORRENT: &str =
    "d4:infod6:lengthi1024e4:name8:file.txt12:piece lengthi16384e6:pieces20:aaaaaaaaaaaaaaaaaaaaee";
const TORRENT_HASH: &str = "5e73478c8951a47213df390eedca1a9e580e47cb";

#[test]
fn kind_follows_extension() {
    assert_eq!(source_kind("movie.torrent"), Some(SourceKind::Torrent));
    assert_eq!(source_kind("movie.magnet"), Some(SourceKind::Magnet));
    assert_eq!(source_kind("a.b.torrent"), Some(SourceKind::Torrent));
    assert_eq!(source_kind("movie.txt"), None);
    assert_eq!(source_kind("movie"), None);
    assert_eq!(source_kind(".torrent"), None);
    assert_eq!(source_kind("movie.TORRENT"), None);
    assert_eq!(source_kind("movie.torrent.bak"), None);
}

#[test]
fn torrent_identifier_is_reference_hash() {
    let s = InfoHashSource::from_file("x.torrent", "torrents/x.torrent", TORRENT.as_bytes().to_vec())
        .unwrap();
    assert_eq!(s.info_hash, TORRENT_HASH);
    assert_eq!(s.file_name, "x.torrent");
    assert_eq!(s.path, "torrents/x.torrent");
}

#[test]
fn identical_files_share_identifier_and_job_name() {
    let a = InfoHashSource::from_file("a.torrent", "torrents/a.torrent", TORRENT.as_bytes().to_vec())
        .unwrap();
    let b = InfoHashSource::from_file("b.torrent", "torrents/b.torrent", TORRENT.as_bytes().to_vec())
        .unwrap();
    assert_eq!(a.info_hash, b.info_hash);
    assert_eq!(job_name(&a.info_hash), job_name(&b.info_hash));
}

#[test]
fn magnet_identifier_is_canonical_hash() {
    let link = "magnet:?xt=urn:btih:C811B41641A09D192B8ED81B14064FFF55D85CE3";
    let r = extract_identifier(SourceKind::Magnet, link.as_bytes().to_vec());
    assert_eq!(r, Some("c811b41641a09d192b8ed81b14064fff55d85ce3".to_string()));
}

#[test]
fn magnet_file_with_trailing_newline() {
    let link = "magnet:?xt=urn:btih:c811b41641a09d192b8ed81b14064fff55d85ce3&dn=Emma\n";
    let s = InfoHashSource::from_file("emma.magnet", "torrents/emma.magnet", link.as_bytes().to_vec())
        .unwrap();
    assert_eq!(s.info_hash, "c811b41641a09d192b8ed81b14064fff55d85ce3");
}

#[test]
fn unknown_extension_is_rejected() {
    assert!(InfoHashSource::from_file("x.txt", "torrents/x.txt", TORRENT.as_bytes().to_vec()).is_none());
}

#[test]
fn corrupt_torrent_is_rejected() {
    let r = extract_identifier(SourceKind::Torrent, b"d4:infoi3ee".to_vec());
    assert_eq!(r, None);
    let r = extract_identifier(SourceKind::Torrent, b"not bencode at all".to_vec());
    assert_eq!(r, None);
}

#[test]
fn bad_magnet_files_are_rejected() {
    assert_eq!(extract_identifier(SourceKind::Magnet, vec![0xff, 0xfe, 0x00]), None);
    assert_eq!(extract_identifier(SourceKind::Magnet, b"not a url".to_vec()), None);
    assert_eq!(extract_identifier(SourceKind::Magnet, b"https://example.com/?xt=urn:btih:c811b41641a09d192b8ed81b14064fff55d85ce3".to_vec()), None);
    assert_eq!(extract_identifier(SourceKind::Magnet, b"magnet:?xt=urn:btih:xyz".to_vec()), None);
}

#[test]
fn torrent_bytes_as_magnet_are_rejected() {
    assert!(InfoHashSource::from_file("x.magnet", "torrents/x.magnet", TORRENT.as_bytes().to_vec()).is_none());
}

#[test]
fn bencode_depth_values() {
    assert_eq!(bencode_depth_of(b""), 0);
    assert_eq!(bencode_depth_of(b"i42e"), 0);
    assert_eq!(bencode_depth_of(b"4:ldld"), 0);
    assert_eq!(bencode_depth_of(b"li1ee"), 1);
    assert_eq!(bencode_depth_of(b"d1:ald1:bleeee"), 4);
    assert_eq!(bencode_depth_of(b"ld4:lllleel0:ee"), 2);
    assert_eq!(bencode_depth_of(b"ili-lle"), 0);
    assert_eq!(bencode_depth_of(b"li-lle"), 1);
    assert_eq!(bencode_depth_of(TORRENT.as_bytes()), 2);
}

#[test]
fn deeply_nested_torrent_is_rejected() {
    let mut bytes = b"d1:x".to_vec();
    bytes.extend(std::iter::repeat(b'l').take(300_000));
    assert_eq!(extract_identifier(SourceKind::Torrent, bytes), None);
}

#[test]
fn nesting_at_the_limit_still_parses() {
    let mut bytes = b"d4:infod6:lengthi1024e4:name8:file.txt12:piece lengthi16384e6:pieces20:aaaaaaaaaaaaaaaaaaaae1:x".to_vec();
    let levels = MAX_BENCODE_DEPTH - 1;
    bytes.extend(std::iter::repeat(b'l').take(levels));
    bytes.extend(std::iter::repeat(b'e').take(levels));
    bytes.push(b'e');
    assert_eq!(bencode_depth_of(&bytes), MAX_BENCODE_DEPTH);
    assert!(extract_identifier(SourceKind::Torrent, bytes).is_some());
    let mut deeper = b"d4:infod6:lengthi1024e4:name8:file.txt12:piece lengthi16384e6:pieces20:aaaaaaaaaaaaaaaaaaaae1:x".to_vec();
    deeper.extend(std::iter::repeat(b'l').take(levels + 1));
    deeper.extend(std::iter::repeat(b'e').take(levels + 1));
    deeper.push(b'e');
    assert_eq!(extract_identifier(SourceKind::Torrent, deeper), None);
}
