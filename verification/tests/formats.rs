use ripgrep_web::decode::{read_compressed, ReadBytes, MAX_DECOMPRESSED_BYTES};
use ripgrep_web::found::{ReportedLine, SearchMatch, Submatch};
use ripgrep_web::matcher::build_matcher;
use ripgrep_web::path::{compression, is_compressed_path, Compression};
use ripgrep_web::search::{describe_line, member_path, LogSearch, Step};
use std::io::Write;

const TEXT: &[u8] = b"INFO ready\nERROR marker one\nINFO idle\nERROR marker two\n";

fn gzip(data: &[u8]) -> Vec<u8> {
    let mut encoder = flate2::write::GzEncoder::new(Vec::new(), flate2::Compression::fast());
    encoder.write_all(data).unwrap();
    encoder.finish().unwrap()
}

fn bzip2(data: &[u8]) -> Vec<u8> {
    let mut encoder = bzip2::write::BzEncoder::new(Vec::new(), bzip2::Compression::fast());
    encoder.write_all(data).unwrap();
    encoder.finish().unwrap()
}

fn xz(data: &[u8]) -> Vec<u8> {
    let mut encoder = xz2::write::XzEncoder::new(Vec::new(), 6);
    encoder.write_all(data).unwrap();
    encoder.finish().unwrap()
}

fn lzma(data: &[u8]) -> Vec<u8> {
    let options = xz2::stream::LzmaOptions::new_preset(6).unwrap();
    let stream = xz2::stream::Stream::new_lzma_encoder(&options).unwrap();
    let mut encoder = xz2::write::XzEncoder::new_stream(Vec::new(), stream);
    encoder.write_all(data).unwrap();
    encoder.finish().unwrap()
}

fn zstd_of(data: &[u8]) -> Vec<u8> {
    zstd::stream::encode_all(data, 3).unwrap()
}

/// What a client that takes everything gets of a file, and the last step.
fn offered(path: &str, data: Vec<u8>) -> (Vec<SearchMatch>, Step) {
    let matcher = build_matcher("marker", false, true).unwrap();
    let mut search = LogSearch::new(matcher, 20, true, None);
    assert!(search.open(path.to_owned(), ReadBytes { data, failure: None }).is_ok());
    let mut found = Vec::new();
    loop {
        match search.advance(false) {
            Step::Deliver(item) => {
                found.push(item);
                search.answer(true);
            }
            Step::Continue | Step::Skipped(_) => {}
            last => return (found, last),
        }
    }
}

fn check(path: &str, data: Vec<u8>) {
    let (found, last) = offered(path, data);
    assert_eq!(last, Step::Finished);
    assert_eq!(found.len(), 2);
    assert_eq!(found[0].path, path);
    assert_eq!(found[0].line_number, 2);
    assert_eq!(found[0].line, "ERROR marker one");
    assert_eq!(found[1].line_number, 4);
}

fn check_decoded(format: Compression, packed: Vec<u8>) {
    let read = read_compressed(format, &packed);
    assert_eq!(read.data, TEXT.to_vec());
    assert!(read.failure.is_none());

    let half = packed.len() / 2;
    assert!(read_compressed(format, &packed[..half]).failure.is_some());
}

#[test]
fn gzip_files_are_decoded() {
    check("/app.log.gz", gzip(TEXT));
    check_decoded(Compression::Gzip, gzip(TEXT));
}

#[test]
fn bzip2_files_are_decoded() {
    check("/app.log.bz2", bzip2(TEXT));
    check_decoded(Compression::Bzip2, bzip2(TEXT));
}

#[test]
fn xz_files_are_decoded() {
    check("/app.log.xz", xz(TEXT));
    check_decoded(Compression::Xz, xz(TEXT));
}

#[test]
fn lzma_files_are_decoded() {
    check("/app.log.lzma", lzma(TEXT));
    check("/app.log.lzma", xz(TEXT));
    check_decoded(Compression::Lzma, lzma(TEXT));
}

#[test]
fn zstd_files_are_decoded() {
    check("/app.log.zst", zstd_of(TEXT));
    check("/app.log.zstd", zstd_of(TEXT));
    check_decoded(Compression::Zstd, zstd_of(TEXT));
}

#[test]
fn data_of_another_format_fails() {
    for path in ["/a.gz", "/a.bz2", "/a.xz", "/a.lzma", "/a.zst"] {
        let (found, last) = offered(path, TEXT.to_vec());
        assert_eq!(found.len(), 0);
        assert!(matches!(last, Step::Failed(_)));
    }
}

#[test]
fn of_data_that_breaks_off_complete_lines_are_searched() {
    let mut packed = gzip(TEXT);
    let length = packed.len();
    packed.truncate(length - 4);
    let (found, last) = offered("/a.gz", packed);
    assert_eq!(found.len(), 2);
    assert!(matches!(last, Step::Failed(_)));
}

#[test]
fn no_more_is_decoded_than_the_limit() {
    assert_eq!(MAX_DECOMPRESSED_BYTES, 256 * 1024 * 1024);
    let mut block = vec![b'x'; 1024 * 1024];
    let end = block.len() - 1;
    block[end] = b'\n';
    let mut encoder = zstd::stream::write::Encoder::new(Vec::new(), 1).unwrap();
    for _ in 0..255 {
        encoder.write_all(&block).unwrap();
    }
    block[end - 6..end].copy_from_slice(b"marker");
    encoder.write_all(&block).unwrap();
    encoder.write_all(b"marker behind the limit\n").unwrap();
    let packed = encoder.finish().unwrap();
    let (found, last) = offered("/bomb.zst", packed);
    assert_eq!(last, Step::Finished);
    assert_eq!(found.len(), 1);
    assert_eq!(found[0].line_number, 256);
    assert_eq!(found[0].submatches, vec![Submatch { start: end - 6, end }]);
}

#[test]
fn files_of_several_parts_are_searched_whole() {
    let join = |pack: fn(&[u8]) -> Vec<u8>| {
        let mut all = pack(b"INFO\n");
        all.extend_from_slice(&pack(b"marker\n"));
        all
    };
    for (path, packed) in [
        ("a.gz", join(gzip)),
        ("a.bz2", join(bzip2)),
        ("a.xz", join(xz)),
        ("a.lzma", join(xz)),
        ("a.zst", join(zstd_of)),
    ] {
        let (found, last) = offered(path, packed);
        assert_eq!(last, Step::Finished, "{}", path);
        assert_eq!(found.len(), 1, "{}", path);
        assert_eq!(found[0].path, path);
        assert_eq!(found[0].line_number, 2);
        assert_eq!(found[0].line, "marker");
    }
}

#[test]
fn what_stands_behind_the_last_stream_is_not_looked_at() {
    for (path, packed) in [("a.gz", gzip(b"marker")), ("a.bz2", bzip2(b"marker"))] {
        for rest in [&b"\x00\x00\x00\x00"[..], &b"rubbish"[..], &b"\x1f"[..]] {
            let mut data = packed.clone();
            data.extend_from_slice(rest);
            let (found, last) = offered(path, data);
            assert_eq!(last, Step::Finished);
            assert_eq!(found.len(), 1);
            assert_eq!(found[0].line, "marker");
        }
    }
    for (path, pack) in [("a.gz", gzip as fn(&[u8]) -> Vec<u8>), ("a.bz2", bzip2)] {
        let mut data = pack(b"INFO\n");
        data.extend_from_slice(&pack(b"marker one\n"));
        let more = pack(b"marker two\n");
        data.extend_from_slice(&more[..more.len() / 2]);
        let (found, last) = offered(path, data);
        assert!(matches!(last, Step::Failed(_)));
        assert_eq!(found[0].line, "marker one");
    }
}

#[test]
fn the_older_format_is_not_taken_for_xz() {
    let (found, last) = offered("/a.xz", lzma(TEXT));
    assert!(matches!(last, Step::Failed(_)));
    assert_eq!(found.len(), 0);
}

#[test]
fn a_file_of_no_compressed_format_is_not_searched_as_one() {
    let matcher = build_matcher("marker", false, true).unwrap();
    let mut search = LogSearch::new(matcher, 20, true, None);
    let read = ReadBytes { data: TEXT.to_vec(), failure: None };
    assert!(search.search_compressed_file("/a.log".to_owned(), read).is_ok());
    assert_eq!(search.advance(false), Step::Finished);
    let read = ReadBytes { data: gzip(TEXT), failure: None };
    assert!(search.search_compressed_file("/a.gz".to_owned(), read).is_ok());
    assert!(matches!(search.advance(false), Step::Deliver(_)));
}

#[test]
fn a_compressed_file_that_cannot_be_read_to_its_end_fails_for_that() {
    let matcher = build_matcher("marker", false, true).unwrap();
    let mut search = LogSearch::new(matcher, 20, true, None);
    let mut data = gzip(TEXT);
    let length = data.len();
    data.truncate(length - 4);
    let read = ReadBytes { data, failure: Some("device gone".to_owned()) };
    assert!(search.open("/a.gz".to_owned(), read).is_ok());
    for _ in 0..2 {
        assert!(matches!(search.advance(false), Step::Deliver(_)));
        search.answer(true);
    }
    assert_eq!(search.advance(false), Step::Failed("device gone".to_owned()));
}

#[test]
fn compressed_binary_data_is_not_searched() {
    let data = b"marker one\nmarker \x00 two\n";
    for (path, packed) in [
        ("/a.gz", gzip(data)),
        ("/a.bz2", bzip2(data)),
        ("/a.xz", xz(data)),
        ("/a.lzma", lzma(data)),
        ("/a.zst", zstd_of(data)),
    ] {
        let (found, last) = offered(path, packed);
        assert_eq!(last, Step::Finished);
        assert_eq!(found.len(), 0);
    }
}

#[test]
fn a_compressed_file_with_a_mark_of_binary_data_far_behind_is_not_searched() {
    let mut data = b"marker\n".repeat(50_000);
    data.push(0);
    let (found, last) = offered("/a.gz", gzip(&data));
    assert_eq!(last, Step::Finished);
    assert_eq!(found.len(), 0);
}

#[test]
fn the_extension_says_how_a_file_is_compressed() {
    assert_eq!(compression("/var/log/a.zip"), Some(Compression::Zip));
    assert_eq!(compression("/var/log/a.gz"), Some(Compression::Gzip));
    assert_eq!(compression("/var/log/a.bz2"), Some(Compression::Bzip2));
    assert_eq!(compression("/var/log/a.xz"), Some(Compression::Xz));
    assert_eq!(compression("/var/log/a.lzma"), Some(Compression::Lzma));
    assert_eq!(compression("/var/log/a.zst"), Some(Compression::Zstd));
    assert_eq!(compression("/var/log/a.zstd"), Some(Compression::Zstd));
    assert_eq!(compression("/var/log/a.log"), None);
    assert!(is_compressed_path("/var/log/A.Log.GZ"));
    assert!(is_compressed_path("a.ZsT"));
    assert!(is_compressed_path("a.gz/"));
    assert!(is_compressed_path("a.gz/."));
    assert!(!is_compressed_path("/var/log.gz/a"));
    assert!(!is_compressed_path(".gz"));
    assert!(!is_compressed_path("/var/log/.gz"));
    assert!(!is_compressed_path("a."));
    assert!(!is_compressed_path("a.gz/.."));
    assert!(!is_compressed_path("gz"));
    assert!(!is_compressed_path("a.gzip"));
    assert!(!is_compressed_path(""));
    assert!(is_compressed_path("日志.gz"));
}

#[test]
fn the_extension_is_that_of_std() {
    let names = [
        "", "/", ".", "..", "a", "a.", ".a", "..a", "a.b", "a.b.gz", "a.gz/", "a.gz//", "a.gz/.",
        "a.gz/..", "/.gz", "/a/.gz/b.xz", "./a.zip", "a.GZ", "a.bZ2", "...gz", "a..gz", "a.gz ",
        "x/y.lzma/./", "//a//b.zst//", "a.tar.zstd", ".gz.gz",
    ];
    for name in names {
        let expected = std::path::Path::new(name)
            .extension()
            .and_then(|extension| extension.to_str())
            .is_some_and(|extension| {
                matches!(
                    extension.to_ascii_lowercase().as_str(),
                    "zip" | "gz" | "bz2" | "xz" | "lzma" | "zst" | "zstd"
                )
            });
        assert_eq!(is_compressed_path(name), expected, "{:?}", name);
    }
}

#[test]
fn members_are_shown_behind_their_archive() {
    assert_eq!(member_path("/var/log/old.zip", "nginx/a.log"), "/var/log/old.zip!nginx/a.log");
}

#[test]
fn a_described_line_keeps_its_parts() {
    let line = ReportedLine { number: 7, text: "some text\r\n".to_owned() };
    let item = describe_line("/a.log", &line, vec![Submatch { start: 5, end: 9 }]);
    assert_eq!(item.path, "/a.log");
    assert_eq!(item.line_number, 7);
    assert_eq!(item.line, "some text");
    assert_eq!(item.submatches, vec![Submatch { start: 5, end: 9 }]);
}
