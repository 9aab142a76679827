//! The fetch layer's rules: request keys for each remote operation, the
//! time-to-live policy, the download-host alias, the re-encoding of download
//! file names, the paginated file listing, and what is derived from a
//! downloaded file.
use vstd::prelude::*;
use vstd::utf8::encode_utf8;

use crate::digest::{hex_lower, md5_digest, md5_hex, sha256_digest, sha256_hex};
use crate::model::{CurseModFile, CurseModFileInfo};
use crate::text::{decimal, push_decimal, str_eq};
use crate::urls::{
    drop_last_segment, join_url, parse_url, parsed_url, percent_decode, percent_decoded,
    percent_encode, percent_encoded, replace_host, url_joined, url_parent, url_with_host,
};

verus! {

/// Time-to-live of catalog metadata and listings: one day, in seconds.
pub const DEFAULT_TIMEOUT: u64 = 86400;

/// Time-to-live of what is derived from a published file, whose content does
/// not change: a year, in seconds.
pub const INFINITE_TIMEOUT: u64 = 86400 * 365;

/// The catalog service's root.
pub const BASE_URL: &'static str = "https://api.curseforge.com";

/// Files requested per listing page.
pub const PAGE_SIZE: u32 = 50;

/// The download host that is rewritten before keying or fetching.
pub const EDGE_HOST: &'static str = "edge.forgecdn.net";

/// The download host that it is rewritten to.
pub const MEDIA_HOST: &'static str = "media.forgecdn.net";

/// What can go wrong in the fetch layer's own rules.
#[derive(Clone, Copy, Debug, PartialEq, Eq, Structural)]
pub enum FetchError {
    /// A URL that does not parse, or that a step of its rewriting refuses.
    InvalidUrl,
    /// A download URL without a host.
    MissingHost,
    /// A download response without a content type.
    MissingContentType,
    /// A download response in XML: a sign of a miscomputed URL.
    UnexpectedXml,
    /// A listing page without pagination information.
    MissingPagination,
    /// A listing whose next page offset does not fit.
    TooManyPages,
}

/// A key, or `InvalidUrl` where the URL could not be formed.
pub open spec fn key_result(u: Option<Seq<char>>, r: Result<String, FetchError>) -> bool {
    match u {
        Some(k) => r matches Ok(s) && s@ == k,
        None => r == Err::<String, FetchError>(FetchError::InvalidUrl),
    }
}

fn api_url(path: &String) -> (r: Result<String, FetchError>)
    ensures
        key_result(url_joined(BASE_URL@, path@), r),
{
    match join_url(BASE_URL, path.as_str()) {
        Some(u) => Ok(u),
        None => Err(FetchError::InvalidUrl),
    }
}

/// The catalog path of a project's entry.
pub open spec fn addon_info_path(project_id: u32) -> Seq<char> {
    "/v1/mods/"@ + decimal(project_id as nat)
}

/// The catalog path of one page of a project's files for a game version.
pub open spec fn mod_files_page_path(project_id: u32, game_version: Seq<char>, index: u32) -> Seq<char> {
    "/v1/mods/"@ + decimal(project_id as nat) + "/files?gameVersion="@ + game_version
        + "&pageSize=50&index="@ + decimal(index as nat)
}

/// The catalog path of one file of a project.
pub open spec fn mod_file_path(project_id: u32, file_id: u32) -> Seq<char> {
    "/v1/mods/"@ + decimal(project_id as nat) + "/files/"@ + decimal(file_id as nat)
}

/// The catalog path of a search for a mod by slug.
pub open spec fn search_path(slug: Seq<char>) -> Seq<char> {
    "/v1/mods/search?gameId=432&classId=6&slug="@ + slug
}

/// The request key of a project's catalog entry: its URL as sent.
pub fn addon_info_url(project_id: u32) -> (r: Result<String, FetchError>)
    ensures
        key_result(url_joined(BASE_URL@, addon_info_path(project_id)), r),
{
    let mut p = String::new();
    p.append("/v1/mods/");
    push_decimal(&mut p, project_id as u64);
    assert(p@ =~= addon_info_path(project_id));
    api_url(&p)
}

/// The request key of one page of a project's files, starting at `index`.
pub fn mod_files_page_url(project_id: u32, game_version: &str, index: u32) -> (r: Result<String, FetchError>)
    ensures
        key_result(url_joined(BASE_URL@, mod_files_page_path(project_id, game_version@, index)), r),
{
    let mut p = String::new();
    p.append("/v1/mods/");
    push_decimal(&mut p, project_id as u64);
    p.append("/files?gameVersion=");
    p.append(game_version);
    p.append("&pageSize=50&index=");
    push_decimal(&mut p, index as u64);
    assert(p@ =~= mod_files_page_path(project_id, game_version@, index));
    api_url(&p)
}

/// The request key of one file of a project.
pub fn mod_file_url(project_id: u32, file_id: u32) -> (r: Result<String, FetchError>)
    ensures
        key_result(url_joined(BASE_URL@, mod_file_path(project_id, file_id)), r),
{
    let mut p = String::new();
    p.append("/v1/mods/");
    push_decimal(&mut p, project_id as u64);
    p.append("/files/");
    push_decimal(&mut p, file_id as u64);
    assert(p@ =~= mod_file_path(project_id, file_id));
    api_url(&p)
}

/// The request key of a search for a mod by slug.
pub fn search_url(slug: &str) -> (r: Result<String, FetchError>)
    ensures
        key_result(url_joined(BASE_URL@, search_path(slug@)), r),
{
    let mut p = String::new();
    p.append("/v1/mods/search?gameId=432&classId=6&slug=");
    p.append(slug);
    assert(p@ =~= search_path(slug@));
    api_url(&p)
}

/// The key and target of a download: the parsed URL, with the edge host
/// rewritten to the media host.
pub open spec fn canonical_url(s: Seq<char>) -> Result<Seq<char>, FetchError> {
    match parsed_url(s) {
        None => Err(FetchError::InvalidUrl),
        Some(p) => match p.1 {
            None => Err(FetchError::MissingHost),
            Some(h) => if h == EDGE_HOST@ {
                match url_with_host(s, MEDIA_HOST@) {
                    Some(u) => Ok(u),
                    None => Err(FetchError::InvalidUrl),
                }
            } else {
                Ok(p.0)
            },
        },
    }
}

/// The download URL under which a file is fetched and its derived data
/// cached.
pub fn canonical_download_url(download_url: &str) -> (r: Result<String, FetchError>)
    ensures
        match canonical_url(download_url@) {
            Ok(u) => r matches Ok(s) && s@ == u,
            Err(e) => r == Err::<String, FetchError>(e),
        },
{
    match parse_url(download_url) {
        None => Err(FetchError::InvalidUrl),
        Some(parts) => match parts.host {
            None => Err(FetchError::MissingHost),
            Some(h) => if str_eq(h.as_str(), EDGE_HOST) {
                match replace_host(download_url, MEDIA_HOST) {
                    Some(u) => Ok(u),
                    None => Err(FetchError::InvalidUrl),
                }
            } else {
                Ok(parts.text)
            },
        },
    }
}

/// A download URL with its file name decoded and then percent-encoded
/// throughout, `+` included; `None` where a step fails.
pub open spec fn fixed_download_url(s: Seq<char>) -> Option<Seq<char>> {
    match parsed_url(s) {
        None => None,
        Some(p) => match p.2 {
            None => None,
            Some(seg) => match percent_decoded(seg) {
                None => None,
                Some(name) => match url_parent(s) {
                    None => None,
                    Some(parent) => match parsed_url(parent + "/"@ + percent_encoded(encode_utf8(name))) {
                        None => None,
                        Some(q) => Some(q.0),
                    },
                },
            },
        },
    }
}

/// The file with its download URL re-encoded, all else unchanged.
pub fn encode_url(file: CurseModFile) -> (r: Result<CurseModFile, FetchError>)
    ensures
        match fixed_download_url(file.download_url@) {
            None => r == Err::<CurseModFile, FetchError>(FetchError::InvalidUrl),
            Some(u) => r matches Ok(f) && f.download_url@ == u && f.id == file.id && f.file_name
                == file.file_name && f.file_date == file.file_date && f.game_version == file.game_version,
        },
{
    let parts = match parse_url(file.download_url.as_str()) {
        Some(p) => p,
        None => return Err(FetchError::InvalidUrl),
    };
    let seg = match parts.last_segment {
        Some(s) => s,
        None => return Err(FetchError::InvalidUrl),
    };
    let name = match percent_decode(seg.as_str()) {
        Some(n) => n,
        None => return Err(FetchError::InvalidUrl),
    };
    let encoded = percent_encode(name.as_str());
    let mut joined = match drop_last_segment(file.download_url.as_str()) {
        Some(b) => b,
        None => return Err(FetchError::InvalidUrl),
    };
    joined.append("/");
    joined.append(encoded.as_str());
    match parse_url(joined.as_str()) {
        Some(fixed) => Ok(CurseModFile { download_url: fixed.text, ..file }),
        None => Err(FetchError::InvalidUrl),
    }
}

/// The pagination information of a listing page.
#[derive(Clone, Copy, Debug)]
pub struct Pagination {
    /// The number of files on the page.
    pub result_count: u32,
}

/// One page of a project's file listing.
#[derive(Clone, Debug)]
pub struct FilesPage {
    pub data: Vec<CurseModFile>,
    pub pagination: Option<Pagination>,
}

/// A paginated file listing in progress: pages of `PAGE_SIZE` files are
/// requested at increasing offsets and their files gathered, until a page
/// reports no results.
pub struct FileListing {
    project_id: u32,
    game_version: String,
    index: u32,
    files: Vec<CurseModFile>,
}

impl FileListing {
    /// The project whose files are listed.
    pub closed spec fn project(&self) -> u32 {
        self.project_id
    }

    /// The game version the listing is filtered by.
    pub closed spec fn version(&self) -> Seq<char> {
        self.game_version@
    }

    /// The offset of the next page to request.
    pub closed spec fn offset(&self) -> u32 {
        self.index
    }

    /// The files gathered so far, in page order.
    pub closed spec fn listed(&self) -> Seq<CurseModFile> {
        self.files@
    }

    /// A listing that has requested nothing yet.
    pub fn new(project_id: u32, game_version: &str) -> (r: FileListing)
        ensures
            r.project() == project_id,
            r.version() == game_version@,
            r.offset() == 0,
            r.listed() == Seq::<CurseModFile>::empty(),
    {
        FileListing { project_id, game_version: game_version.to_owned(), index: 0, files: Vec::new() }
    }

    /// The request key of the next page.
    pub fn page_url(&self) -> (r: Result<String, FetchError>)
        ensures
            key_result(
                url_joined(BASE_URL@, mod_files_page_path(self.project(), self.version(), self.offset())),
                r,
            ),
    {
        mod_files_page_url(self.project_id, self.game_version.as_str(), self.index)
    }

    /// Gathers the files of the page just fetched. Returns whether the
    /// listing is complete: the page reported no results. A page without
    /// pagination information is an error.
    pub fn add_page(&mut self, page: FilesPage) -> (r: Result<bool, FetchError>)
        ensures
            final(self).project() == old(self).project(),
            final(self).version() == old(self).version(),
            final(self).listed() == old(self).listed() + page.data@,
            match page.pagination {
                None => r == Err::<bool, FetchError>(FetchError::MissingPagination) && final(self).offset()
                    == old(self).offset(),
                Some(p) => if p.result_count == 0 {
                    r == Ok::<bool, FetchError>(true) && final(self).offset() == old(self).offset()
                } else if old(self).offset() + PAGE_SIZE <= u32::MAX {
                    r == Ok::<bool, FetchError>(false) && final(self).offset() == old(self).offset() + PAGE_SIZE
                } else {
                    r == Err::<bool, FetchError>(FetchError::TooManyPages) && final(self).offset()
                        == old(self).offset()
                },
            },
    {
        let mut data = page.data;
        self.files.append(&mut data);
        match page.pagination {
            None => Err(FetchError::MissingPagination),
            Some(p) => if p.result_count == 0 {
                Ok(true)
            } else if self.index <= u32::MAX - PAGE_SIZE {
                self.index = self.index + PAGE_SIZE;
                Ok(false)
            } else {
                Err(FetchError::TooManyPages)
            },
        }
    }

    /// The gathered files, each with its download URL re-encoded; an error
    /// where some URL cannot be.
    pub fn finish(self) -> (r: Result<Vec<CurseModFile>, FetchError>)
        ensures
            r is Ok <==> forall|i: int|
                0 <= i < self.listed().len() ==> #[trigger] fixed_download_url(self.listed()[i].download_url@) is Some,
            r is Err ==> r == Err::<Vec<CurseModFile>, FetchError>(FetchError::InvalidUrl),
            r matches Ok(v) ==> v@.len() == self.listed().len() && forall|i: int|
                0 <= i < v@.len() ==> {
                    let (f, g) = (#[trigger] v@[i], self.listed()[i]);
                    &&& Some(f.download_url@) == fixed_download_url(g.download_url@)
                    &&& f.id == g.id
                    &&& f.file_name == g.file_name
                    &&& f.file_date == g.file_date
                    &&& f.game_version == g.game_version
                },
    {
        let ghost all = self.listed();
        let mut rest = self.files;
        let mut out: Vec<CurseModFile> = Vec::new();
        let ghost mut n: int = 0;
        while rest.len() > 0
            invariant
                all == self.listed(),
                0 <= n <= all.len(),
                rest@ == all.subrange(n, all.len() as int),
                out@.len() == n,
                forall|i: int| 0 <= i < n ==> #[trigger] fixed_download_url(all[i].download_url@) is Some,
                forall|i: int|
                    0 <= i < n ==> {
                        let (f, g) = (#[trigger] out@[i], all[i]);
                        &&& Some(f.download_url@) == fixed_download_url(g.download_url@)
                        &&& f.id == g.id
                        &&& f.file_name == g.file_name
                        &&& f.file_date == g.file_date
                        &&& f.game_version == g.game_version
                    },
            decreases rest@.len(),
        {
            let f = rest.remove(0);
            assert(f == all[n]);
            match encode_url(f) {
                Ok(g) => {
                    out.push(g);
                },
                Err(e) => {
                    assert(fixed_download_url(all[n].download_url@) is None);
                    assert(!(forall|i: int|
                        0 <= i < all.len() ==> #[trigger] fixed_download_url(all[i].download_url@) is Some));
                    return Err(e);
                },
            }
            assert(rest@ =~= all.subrange(n + 1, all.len() as int));
            proof {
                n = n + 1;
            }
        }
        Ok(out)
    }
}

/// The data derived from a downloaded file's content, or the error that its
/// content type calls for.
pub open spec fn file_info_result(
    download_url: Seq<char>,
    content_type: Option<Seq<char>>,
    body: Seq<u8>,
    r: Result<CurseModFileInfo, FetchError>,
) -> bool {
    match content_type {
        None => r == Err::<CurseModFileInfo, FetchError>(FetchError::MissingContentType),
        Some(ct) => if ct == "application/xml"@ {
            r == Err::<CurseModFileInfo, FetchError>(FetchError::UnexpectedXml)
        } else {
            r matches Ok(info) && info.md5@ == hex_lower(md5_digest(body)) && info.sha256@ == hex_lower(
                sha256_digest(body),
            ) && info.size == body.len() as u64 && info.download_url@ == download_url
        },
    }
}

/// What is cached for a downloaded file: its hashes, size and URL. A missing
/// content type is an error, and so is XML, which the file host answers to a
/// miscomputed URL.
pub fn file_info_from_download(
    download_url: &str,
    content_type: Option<&str>,
    body: &Vec<u8>,
) -> (r: Result<CurseModFileInfo, FetchError>)
    ensures
        file_info_result(
            download_url@,
            match content_type {
                Some(ct) => Some(ct@),
                None => None,
            },
            body@,
            r,
        ),
{
    match content_type {
        None => Err(FetchError::MissingContentType),
        Some(ct) => if str_eq(ct, "application/xml") {
            Err(FetchError::UnexpectedXml)
        } else {
            Ok(CurseModFileInfo {
                md5: md5_hex(body.as_slice()),
                sha256: sha256_hex(body.as_slice()),
                size: body.len() as u64,
                download_url: download_url.to_owned(),
            })
        },
    }
}

} // verus!
