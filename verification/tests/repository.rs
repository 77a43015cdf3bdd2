use krwlr::repository::Repository;
use std::io::Read;

fn inflate(bytes: &[u8]) -> String {
    let mut text = String::new();
    flate2::read::ZlibDecoder::new(bytes).read_to_string(&mut text).unwrap();
    text
}

#[test]
fn new_repository_is_empty() {
    let repo = Repository::new();
    assert_eq!(repo.compressed_bytes(), 0);
    assert_eq!(repo.uncompressed_bytes(), 0);
}

#[test]
fn stored_page_is_framed_raw_and_compressed() {
    let mut repo = Repository::new();
    let content = "<html><body>hello hello hello hello hello hello hello</body></html>";
    let page = repo.store(content).unwrap();
    assert_eq!(page.uncompressed, content.as_bytes());
    assert_ne!(page.compressed, content.as_bytes());
    assert!(page.compressed.len() < content.len());
    assert_eq!(inflate(&page.compressed), content);
    assert_eq!(&page.compressed[..2], &[0x78, 0xda]);
}

#[test]
fn stream_lengths_add_up() {
    let mut repo = Repository::new();
    let first = repo.store("first page").unwrap();
    assert_eq!(repo.uncompressed_bytes(), 10);
    assert_eq!(repo.compressed_bytes(), first.compressed.len() as u64);
    let second = repo.store("zweite Seite äöü").unwrap();
    assert_eq!(second.uncompressed.len(), 19);
    assert_eq!(repo.uncompressed_bytes(), 29);
    assert_eq!(repo.compressed_bytes(), (first.compressed.len() + second.compressed.len()) as u64);
}

#[test]
fn empty_page_is_stored_too() {
    let mut repo = Repository::new();
    let page = repo.store("").unwrap();
    assert!(page.uncompressed.is_empty());
    assert!(!page.compressed.is_empty());
    assert_eq!(inflate(&page.compressed), "");
    assert_eq!(repo.uncompressed_bytes(), 0);
    assert_eq!(repo.compressed_bytes(), page.compressed.len() as u64);
}

#[test]
fn same_page_compresses_the_same() {
    let mut repo = Repository::new();
    let first = repo.store("the same text").unwrap();
    let second = repo.store("the same text").unwrap();
    assert_eq!(first.compressed, second.compressed);
    assert_eq!(first.uncompressed, second.uncompressed);
}

#[test]
fn streams_are_named_by_the_stamp() {
    let (compressed, uncompressed) = Repository::file_names("2024-05-06_07-08-09");
    assert_eq!(compressed, "repo-2024-05-06_07-08-09.zlib");
    assert_eq!(uncompressed, "repo-2024-05-06_07-08-09.txt");
    let (compressed, uncompressed) = Repository::file_names("");
    assert_eq!(compressed, "repo-.zlib");
    assert_eq!(uncompressed, "repo-.txt");
}
