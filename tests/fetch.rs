use cursetool::cache::Database;
use cursetool::digest::{md5_hex, sha256_hex, to_hex};
use cursetool::fetch::{
    addon_info_url, canonical_download_url, encode_url, file_info_from_download, mod_file_url, mod_files_page_url,
    search_url, FetchError, FileListing, FilesPage, Pagination, DEFAULT_TIMEOUT, INFINITE_TIMEOUT,
};
use cursetool::model::CurseModFile;

#[test]
fn request_keys() {
    assert_eq!(addon_info_url(224476), Ok("https://api.curseforge.com/v1/mods/224476".to_string()));
    assert_eq!(mod_file_url(238222, 3043174), Ok("https://api.curseforge.com/v1/mods/238222/files/3043174".to_string()));
    assert_eq!(
        mod_files_page_url(238222, "1.12.2", 50),
        Ok("https://api.curseforge.com/v1/mods/238222/files?gameVersion=1.12.2&pageSize=50&index=50".to_string())
    );
    assert_eq!(
        search_url("jei"),
        Ok("https://api.curseforge.com/v1/mods/search?gameId=432&classId=6&slug=jei".to_string())
    );
}

#[test]
fn request_key_is_the_url_as_sent() {
    assert_eq!(
        mod_files_page_url(1, "1.12 beta", 0),
        Ok("https://api.curseforge.com/v1/mods/1/files?gameVersion=1.12%20beta&pageSize=50&index=0".to_string())
    );
}

#[test]
fn ttl_policy() {
    assert_eq!(DEFAULT_TIMEOUT, 86400);
    assert_eq!(INFINITE_TIMEOUT, 86400 * 365);
}

#[test]
fn edge_and_media_hosts_share_a_key() {
    let edge = canonical_download_url("https://edge.forgecdn.net/path/name.jar").unwrap();
    let media = canonical_download_url("https://media.forgecdn.net/path/name.jar").unwrap();
    assert_eq!(edge, "https://media.forgecdn.net/path/name.jar");
    assert_eq!(edge, media);

    let mut db = Database::for_tests();
    let first: Result<String, String> = db.get_or_put_at(&edge, INFINITE_TIMEOUT, 100, || Ok("hashes".to_string()));
    let second: Result<String, String> =
        db.get_or_put_at(&media, INFINITE_TIMEOUT, 200, || panic!("served from the cache"));
    assert_eq!(first, second);
    assert_eq!(db.len(), 1);
}

#[test]
fn other_hosts_are_kept() {
    assert_eq!(canonical_download_url("https://example.org/a/b.jar"), Ok("https://example.org/a/b.jar".to_string()));
    assert_eq!(canonical_download_url("HTTPS://Example.org"), Ok("https://example.org/".to_string()));
}

#[test]
fn download_url_errors() {
    assert_eq!(canonical_download_url("not a url"), Err(FetchError::InvalidUrl));
    assert_eq!(canonical_download_url("unix:/run/foo.socket"), Err(FetchError::MissingHost));
}

fn file(url: &str) -> CurseModFile {
    CurseModFile {
        id: 9,
        file_name: "n.jar".to_string(),
        file_date: "2020".to_string(),
        download_url: url.to_string(),
        game_version: vec!["1.12.2".to_string()],
    }
}

#[test]
fn encode_url_encodes_the_file_name() {
    let f = encode_url(file("https://media.forgecdn.net/files/1/2/a+b c(1).jar")).unwrap();
    assert_eq!(f.download_url, "https://media.forgecdn.net/files/1/2/a%2Bb%20c%281%29.jar");
    assert_eq!(f.id, 9);
    assert_eq!(f.file_name, "n.jar");
    let already = encode_url(file("https://media.forgecdn.net/files/1/2/a%2Bb%20c.jar")).unwrap();
    assert_eq!(already.download_url, "https://media.forgecdn.net/files/1/2/a%2Bb%20c.jar");
    let plain = encode_url(file("https://edge.forgecdn.net/files/2747/935/ironchest-1.12.2-7.0.72.847.jar")).unwrap();
    assert_eq!(plain.download_url, "https://edge.forgecdn.net/files/2747/935/ironchest-1.12.2-7.0.72.847.jar");
}

#[test]
fn encode_url_rejects_bad_urls() {
    assert!(matches!(encode_url(file("no url")), Err(FetchError::InvalidUrl)));
    assert!(matches!(encode_url(file("data:text/plain,x")), Err(FetchError::InvalidUrl)));
}

#[test]
fn paginated_listing() {
    let mut listing = FileListing::new(238222, "1.12.2");
    assert_eq!(
        listing.page_url(),
        Ok("https://api.curseforge.com/v1/mods/238222/files?gameVersion=1.12.2&pageSize=50&index=0".to_string())
    );
    let page = FilesPage {
        data: vec![file("https://media.forgecdn.net/f/a b.jar"), file("https://media.forgecdn.net/f/c.jar")],
        pagination: Some(Pagination { result_count: 2 }),
    };
    assert_eq!(listing.add_page(page), Ok(false));
    assert_eq!(
        listing.page_url(),
        Ok("https://api.curseforge.com/v1/mods/238222/files?gameVersion=1.12.2&pageSize=50&index=50".to_string())
    );
    let last = FilesPage { data: vec![], pagination: Some(Pagination { result_count: 0 }) };
    assert_eq!(listing.add_page(last), Ok(true));
    let files = listing.finish().unwrap();
    assert_eq!(files.len(), 2);
    assert_eq!(files[0].download_url, "https://media.forgecdn.net/f/a%20b.jar");
    assert_eq!(files[1].download_url, "https://media.forgecdn.net/f/c.jar");
}

#[test]
fn listing_without_pagination_fails() {
    let mut listing = FileListing::new(1, "1.12.2");
    let page = FilesPage { data: vec![], pagination: None };
    assert_eq!(listing.add_page(page), Err(FetchError::MissingPagination));
}

#[test]
fn listing_with_a_bad_url_fails() {
    let mut listing = FileListing::new(1, "1.12.2");
    let page = FilesPage { data: vec![file("bad")], pagination: Some(Pagination { result_count: 0 }) };
    assert_eq!(listing.add_page(page), Ok(true));
    assert!(matches!(listing.finish(), Err(FetchError::InvalidUrl)));
}

#[test]
fn hashes_are_lowercase_hex() {
    assert_eq!(md5_hex(b""), "d41d8cd98f00b204e9800998ecf8427e");
    assert_eq!(md5_hex(b"abc"), "900150983cd24fb0d6963f7d28e17f72");
    assert_eq!(sha256_hex(b"abc"), "ba7816bf8f01cfea414140de5dae2223b00361a396177a9cb410ff61f20015ad");
    assert_eq!(to_hex(&[0x00, 0x0f, 0xa0, 0xff]), "000fa0ff");
}

#[test]
fn file_info_from_content() {
    let body = b"abc".to_vec();
    let url = "https://media.forgecdn.net/path/name.jar";
    let info = file_info_from_download(url, Some("application/java-archive"), &body).unwrap();
    assert_eq!(info.md5, "900150983cd24fb0d6963f7d28e17f72");
    assert_eq!(info.sha256, "ba7816bf8f01cfea414140de5dae2223b00361a396177a9cb410ff61f20015ad");
    assert_eq!(info.size, 3);
    assert_eq!(info.download_url, url);
    assert!(matches!(file_info_from_download(url, Some("application/xml"), &body), Err(FetchError::UnexpectedXml)));
    assert!(matches!(file_info_from_download(url, None, &body), Err(FetchError::MissingContentType)));
}
