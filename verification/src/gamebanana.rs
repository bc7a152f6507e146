//! The records of the content service, the addresses at which they are
//! asked for, and what the search and detail views make of them.

use vstd::prelude::*;
use vstd::string::StringExecFns;
use crate::downloads::new_download;
use crate::downloads::Download;
use crate::error::GbError;
use crate::seqs::first_index;
use crate::seqs::first_index_at;
use crate::seqs::first_index_none;
use crate::text::chars_of;
use crate::text::i32_to_decimal;
use crate::text::signed_decimal;
use crate::thumbnail::Thumbnail;

verus! {

/// The address of the service's programming interface.
pub const GB_API_DOMAIN: &'static str = "https://api.gamebanana.com";

/// The address of the service.
pub const GB_DOMAIN: &'static str = "https://gamebanana.com";

/// The path of the positional item endpoint, below [`GB_API_DOMAIN`].
pub const GB_MOD_INFO: &'static str = "/Core/Item/Data";

/// The path of the detail endpoint, below [`GB_DOMAIN`].
pub const GB_MOD_DATA: &'static str = "apiv11/Mod";

/// The path of the search endpoint, below [`GB_DOMAIN`].
pub const GB_MOD_SEARCH: &'static str = "apiv11/Game/16522/Subfeed";

/// One downloadable file of a mod.
#[derive(Debug, PartialEq, Eq)]
pub struct GbModDownload {
    pub id: u32,
    pub file: String,
    pub filesize: u32,
    pub description: String,
    pub date_added: u32,
    pub download_count: u32,
    pub md5_checksum: String,
    pub download_url: String,
    pub clam_av_result: String,
    pub avast_av_result: String,
    pub analysis_state: String,
    pub analysis_result: String,
    pub analysis_result_code: String,
    pub contains_exe: bool,
}

impl Clone for GbModDownload {
    fn clone(&self) -> (out: Self)
        ensures
            out == *self,
    {
        GbModDownload {
            id: self.id,
            file: self.file.clone(),
            filesize: self.filesize,
            description: self.description.clone(),
            date_added: self.date_added,
            download_count: self.download_count,
            md5_checksum: self.md5_checksum.clone(),
            download_url: self.download_url.clone(),
            clam_av_result: self.clam_av_result.clone(),
            avast_av_result: self.avast_av_result.clone(),
            analysis_state: self.analysis_state.clone(),
            analysis_result: self.analysis_result.clone(),
            analysis_result_code: self.analysis_result_code.clone(),
            contains_exe: self.contains_exe,
        }
    }
}

/// A mod as the positional item endpoint describes it.
#[derive(Clone, Debug, PartialEq, Eq)]
pub struct GBMod {
    pub name: String,
    pub files: Vec<GbModDownload>,
    pub text: String,
}

impl GBMod {
    /// Names the three places of a positional answer: the first is the mod's
    /// name, the second its files, the third its description. An answer
    /// whose second place holds no table of files describes no mod.
    pub fn from_positional(name: String, files: Option<Vec<GbModDownload>>, text: String) -> (out:
        Option<GBMod>)
        ensures
            out == match files {
                Some(files) => Some(GBMod { name, files, text }),
                None => None,
            },
    {
        match files {
            Some(files) => Some(GBMod { name, files, text }),
            None => None,
        }
    }
}

/// Who submitted a mod.
#[derive(Clone, Debug, PartialEq, Eq)]
pub struct GbSubmitter {
    pub id: u64,
    pub name: String,
    pub is_online: bool,
    pub has_ripe: bool,
    pub profile_url: String,
    pub avatar_url: String,
    pub upic_url: String,
}

/// A mod as the detail endpoint describes it.
#[derive(Clone, Debug, PartialEq, Eq)]
pub struct GbMod {
    pub name: String,
    pub files: Vec<GbModDownload>,
    pub text: String,
    pub submitter: GbSubmitter,
}

/// One picture of a mod's preview.
#[derive(Clone, Debug, PartialEq, Eq)]
pub struct GbPreviewImage {
    pub img_type: String,
    pub base_url: String,
    pub file: String,
}

/// The pictures of a mod's preview.
#[derive(Clone, Debug, PartialEq, Eq)]
pub struct GbPreview {
    pub images: Vec<GbPreviewImage>,
}

/// A mod as a search finds it.
#[derive(Clone, Debug, PartialEq, Eq)]
pub struct GBSearch {
    pub id: u64,
    pub model_name: String,
    pub title: String,
    pub icon_classes: String,
    pub name: String,
    pub profile_url: String,
    pub date_added: u64,
    pub has_files: bool,
    pub submitter: GbSubmitter,
    pub date_updated: u64,
    pub is_nsfw: bool,
    pub initial_visibility: String,
    pub like_count: i32,
    pub post_count: i32,
    pub was_featured: bool,
    pub view_count: i32,
    pub is_owned_by_accessor: bool,
    pub preview_media: GbPreview,
}

/// What a search answer says of the whole result.
#[derive(Clone, Debug, PartialEq, Eq)]
pub struct GbMetadata {
    pub record_count: i32,
    pub perpage: i32,
    pub is_complete: bool,
}

/// One page of a search's answer.
#[derive(Clone, Debug, PartialEq, Eq)]
pub struct GbSearchResults {
    pub metadata: GbMetadata,
    pub records: Vec<GBSearch>,
}

/// A submitter as the views show one.
#[derive(Clone, Debug, PartialEq, Eq)]
pub struct SlGbSubmitter {
    pub name: String,
    pub avatar_url: String,
}

impl From<GbSubmitter> for SlGbSubmitter {
    fn from(submitter: GbSubmitter) -> (out: SlGbSubmitter) {
        SlGbSubmitter { name: submitter.name, avatar_url: submitter.avatar_url }
    }
}

impl vstd::std_specs::convert::FromSpecImpl<GbSubmitter> for SlGbSubmitter {
    open spec fn obeys_from_spec() -> bool {
        true
    }

    open spec fn from_spec(submitter: GbSubmitter) -> SlGbSubmitter {
        SlGbSubmitter { name: submitter.name, avatar_url: submitter.avatar_url }
    }
}

/// What a parameter of a request is called and what it holds.
#[derive(Clone, Debug, PartialEq, Eq)]
pub struct QueryPair {
    pub key: String,
    pub value: String,
}

/// A request to the search endpoint: its address and its parameters, which
/// the transport encodes.
#[derive(Clone, Debug, PartialEq, Eq)]
pub struct SearchRequest {
    pub url: String,
    pub query: Vec<QueryPair>,
}

/// The address of the search endpoint.
pub open spec fn search_address() -> Seq<char> {
    GB_DOMAIN@ + "/"@ + GB_MOD_SEARCH@
}

/// What a search sends: the request for page `page` of the mods whose name
/// matches `search`. The name goes as `_sName`, the page in decimal as
/// `_nPage`; sending is the caller's part.
pub fn search_gb(search: &str, page: i32) -> (request: SearchRequest)
    ensures
        request.url@ == search_address(),
        request.query@.len() == 2,
        request.query@[0].key@ == "_sName"@,
        request.query@[0].value@ == search@,
        request.query@[1].key@ == "_nPage"@,
        request.query@[1].value@ == signed_decimal(page as int),
{
    let mut url = String::from_str(GB_DOMAIN);
    url.append("/");
    url.append(GB_MOD_SEARCH);
    let mut query: Vec<QueryPair> = Vec::new();
    query.push(QueryPair { key: String::from_str("_sName"), value: String::from_str(search) });
    query.push(QueryPair { key: String::from_str("_nPage"), value: i32_to_decimal(page) });
    SearchRequest { url, query }
}

/// The address at which the detail endpoint describes the mod `mod_id`.
pub open spec fn mod_info_address(mod_id: int) -> Seq<char> {
    GB_DOMAIN@ + "/"@ + GB_MOD_DATA@ + "/"@ + signed_decimal(mod_id)
        + "?_csvProperties=_aFiles,_sText,_idRow,_sName,_aSubmitter"@
}

/// Where fetching the details of the mod `mod_id` asks: the address of the
/// detail endpoint for it. What comes back goes to [`decoded_mod_info`].
pub fn fetch_mod_info(mod_id: i32) -> (url: String)
    ensures
        url@ == mod_info_address(mod_id as int),
{
    let mut url = String::from_str(GB_DOMAIN);
    url.append("/");
    url.append(GB_MOD_DATA);
    url.append("/");
    let number = i32_to_decimal(mod_id);
    url.append(number.as_str());
    url.append("?_csvProperties=_aFiles,_sText,_idRow,_sName,_aSubmitter");
    url
}

/// The address at which the positional item endpoint describes the item
/// `mod_id`.
pub open spec fn mod_data_address(mod_id: Seq<char>) -> Seq<char> {
    GB_API_DOMAIN@ + GB_MOD_INFO@ + "?itemid="@ + mod_id
        + "&itemtype=Mod&fields=name,Files().aFiles()"@
}

/// Where fetching the files of the item `mod_id` asks: the address of the
/// positional item endpoint for it. There is nothing to ask for without an
/// identifier. What comes back goes to [`GBMod::from_positional`].
pub fn fetch_mod_data(mod_id: &str) -> (url: Option<String>)
    ensures
        url matches Some(u) ==> u@ == mod_data_address(mod_id@),
        url is None <==> mod_id@.len() == 0,
{
    if mod_id.is_empty() {
        return None;
    }
    let mut url = String::from_str(GB_API_DOMAIN);
    url.append(GB_MOD_INFO);
    url.append("?itemid=");
    url.append(mod_id);
    url.append("&itemtype=Mod&fields=name,Files().aFiles()");
    Some(url)
}

/// What fetching a mod's details came to: the mod that the answer `body`
/// decodes to, or why it does not decode.
pub fn decoded_mod_info(body: String, decoded: Result<GbMod, String>) -> (out: Result<GbMod, GbError>)
    ensures
        out == match decoded {
            Ok(found) => Ok::<GbMod, GbError>(found),
            Err(reason) => Err::<GbMod, GbError>(GbError::Decode { reason, body }),
        },
{
    match decoded {
        Ok(found) => Ok(found),
        Err(reason) => Err(GbError::Decode { reason, body }),
    }
}

/// The address of the first picture of `item`'s preview: its base and its
/// file joined by `/`.
pub open spec fn preview_address(item: GBSearch) -> Option<Seq<char>> {
    if item.preview_media.images@.len() > 0 {
        let first = item.preview_media.images@[0];
        Some(first.base_url@ + "/"@ + first.file@)
    } else {
        None
    }
}

/// The address of the first picture of `item`'s preview, if it has one.
pub fn preview_image_url(item: &GBSearch) -> (url: Option<String>)
    ensures
        url is Some <==> preview_address(*item) is Some,
        url matches Some(u) ==> Some(u@) == preview_address(*item),
{
    if item.preview_media.images.len() == 0 {
        return None;
    }
    let first = &item.preview_media.images[0];
    let mut url = first.base_url.clone();
    url.append("/");
    url.append(first.file.as_str());
    Some(url)
}

/// Those among `decoded` that were decoded, in their order.
pub open spec fn kept_of<T>(decoded: Seq<Result<T, String>>) -> Seq<T> {
    decoded.filter_map(
        |one: Result<T, String>|
            match one {
                Ok(value) => Some(value),
                Err(_) => None,
            },
    )
}

/// What is left of a batch that was decoded one by one: what decoded, in
/// its order. What does not decode is left out and the rest stands.
fn kept<T>(decoded: Vec<Result<T, String>>) -> (kept: Vec<T>)
    ensures
        kept@ == kept_of(decoded@),
{
    let ghost all = decoded@;
    let ghost keep = |one: Result<T, String>|
        match one {
            Ok(value) => Some(value),
            Err(_) => None,
        };
    let mut kept: Vec<T> = Vec::new();
    for one in it: decoded
        invariant
            it.seq() == all,
            keep == |one: Result<T, String>|
                match one {
                    Ok(value) => Some(value),
                    Err(_) => None,
                },
            kept@ == all.take(it.index() as int).filter_map(keep),
    {
        proof {
            all.lemma_filter_map_take_succ(keep, it.index() as int);
        }
        match one {
            Ok(value) => {
                kept.push(value);
            },
            Err(_) => {},
        }
    }
    assert(all.take(all.len() as int) =~= all);
    kept
}

/// What is left of a page whose records were decoded one by one: those that
/// decoded, in the order in which the service sent them. A record that does
/// not decode is left out and the rest of the page stands.
pub fn kept_records(decoded: Vec<Result<GBSearch, String>>) -> (kept: Vec<GBSearch>)
    ensures
        kept@ == kept_of(decoded@),
{
    kept(decoded)
}

/// What is left of a mod's table of files whose entries were decoded one by
/// one: those that decoded, in their order.
pub fn kept_files(decoded: Vec<Result<GbModDownload, String>>) -> (kept: Vec<GbModDownload>)
    ensures
        kept@ == kept_of(decoded@),
{
    kept(decoded)
}

/// A page of a search's answer whose frame decoded: what it says of the
/// whole result, and its records, each decoded on its own.
#[derive(Clone, Debug, PartialEq, Eq)]
pub struct SearchPage {
    pub metadata: GbMetadata,
    pub records: Vec<Result<GBSearch, String>>,
}

/// What a search came to: the page that the answer `body` decodes to, with
/// the records that decoded in their order, or, where not even the frame of
/// the page decodes, the reason together with the answer as it came.
pub fn decoded_search(body: String, decoded: Result<SearchPage, String>) -> (out: Result<
    GbSearchResults,
    GbError,
>)
    ensures
        match decoded {
            Ok(page) => out matches Ok(results) && results.metadata == page.metadata
                && results.records@ == kept_of(page.records@),
            Err(reason) => out == Err::<GbSearchResults, GbError>(GbError::Decode { reason, body }),
        },
{
    match decoded {
        Ok(page) => Ok(
            GbSearchResults { metadata: page.metadata, records: kept_records(page.records) },
        ),
        Err(reason) => Err(GbError::Decode { reason, body }),
    }
}

/// A search result as the result list shows it. `image` is its preview, once
/// that has arrived.
#[derive(Clone, Debug, PartialEq, Eq)]
pub struct GbPreviewData {
    pub author: SlGbSubmitter,
    pub id: u64,
    pub image: Option<Thumbnail>,
    pub item_type: String,
    pub name: String,
    pub updated: String,
    pub image_url: String,
    pub image_loaded: bool,
}

/// Whether `row` shows the search result `item` as a fresh row does: with
/// the item's identifier, kind, name and submitter, the address of its first
/// preview picture (empty where it has none), and no picture yet.
pub open spec fn shows(row: GbPreviewData, item: GBSearch) -> bool {
    &&& row.id == item.id
    &&& row.item_type@ == item.model_name@
    &&& row.name@ == item.name@
    &&& row.author.name@ == item.submitter.name@
    &&& row.author.avatar_url@ == item.submitter.avatar_url@
    &&& row.updated@ == "Never"@
    &&& row.image_url@ == match preview_address(item) {
        Some(address) => address,
        None => Seq::empty(),
    }
    &&& row.image is None
    &&& !row.image_loaded
}

/// The row that shows the search result `item`.
pub fn preview_row(item: &GBSearch) -> (row: GbPreviewData)
    ensures
        shows(row, *item),
{
    let image_url = match preview_image_url(item) {
        Some(url) => url,
        None => String::new(),
    };
    GbPreviewData {
        author: SlGbSubmitter {
            name: item.submitter.name.clone(),
            avatar_url: item.submitter.avatar_url.clone(),
        },
        id: item.id,
        image: None,
        item_type: item.model_name.clone(),
        name: item.name.clone(),
        updated: String::from_str("Never"),
        image_url,
        image_loaded: false,
    }
}

/// Whether `rows` show the search results `records` as fresh rows do: one
/// for each, in their order.
pub open spec fn show_all(rows: Seq<GbPreviewData>, records: Seq<GBSearch>) -> bool {
    &&& rows.len() == records.len()
    &&& forall|i: int| 0 <= i < rows.len() ==> shows(#[trigger] rows[i], records[i])
}

/// The rows that show the search results `records`, one for each, in their
/// order.
pub fn preview_rows(records: &Vec<GBSearch>) -> (rows: Vec<GbPreviewData>)
    ensures
        show_all(rows@, records@),
{
    let mut rows: Vec<GbPreviewData> = Vec::new();
    for i in 0..records.len()
        invariant
            rows@.len() == i,
            forall|k: int| 0 <= k < i ==> shows(#[trigger] rows@[k], records@[k]),
    {
        rows.push(preview_row(&records[i]));
    }
    rows
}

/// Whether the detail view has yet to fetch `row`'s preview: it has none and
/// there is an address to fetch it from.
pub fn wants_preview(row: &GbPreviewData) -> (wanted: bool)
    ensures
        wanted == (!row.image_loaded && row.image_url@.len() > 0),
{
    !row.image_loaded && !row.image_url.as_str().is_empty()
}

/// The place of the first row with the identifier `id`.
pub open spec fn row_of(rows: Seq<GbPreviewData>, id: u64) -> Option<int> {
    first_index(rows, |row: GbPreviewData| row.id == id)
}

/// The row `row` with the preview `image` in it.
pub open spec fn with_preview(row: GbPreviewData, image: Thumbnail) -> GbPreviewData {
    GbPreviewData {
        author: row.author,
        id: row.id,
        image: Some(image),
        item_type: row.item_type,
        name: row.name,
        updated: row.updated,
        image_url: row.image_url,
        image_loaded: true,
    }
}

/// Puts the preview `image` into the first row with the identifier `id` and
/// tells its place. The other rows stay as they are, whenever the preview
/// arrives; without such a row nothing changes.
pub fn get_preview_image(rows: &mut Vec<GbPreviewData>, id: u64, image: Thumbnail) -> (place: Option<
    usize,
>)
    ensures
        match row_of(old(rows)@, id) {
            Some(i) => place == Some(i as usize) && final(rows)@ == old(rows)@.update(
                i,
                with_preview(old(rows)@[i], image),
            ),
            None => place is None && final(rows)@ == old(rows)@,
        },
{
    let ghost asked = |row: GbPreviewData| row.id == id;
    let mut i: usize = 0;
    while i < rows.len()
        invariant
            i <= rows@.len(),
            rows@ == old(rows)@,
            asked == |row: GbPreviewData| row.id == id,
            forall|k: int| 0 <= k < i ==> !asked(#[trigger] rows@[k]),
        decreases rows@.len() - i,
    {
        if rows[i].id == id {
            proof {
                first_index_at(rows@, asked, i as int);
            }
            let row = rows.remove(i);
            let shown = GbPreviewData {
                author: row.author,
                id: row.id,
                image: Some(image),
                item_type: row.item_type,
                name: row.name,
                updated: row.updated,
                image_url: row.image_url,
                image_loaded: true,
            };
            rows.insert(i, shown);
            assert(rows@ =~= old(rows)@.update(i as int, with_preview(old(rows)@[i as int], image)));
            return Some(i);
        }
        i += 1;
    }
    proof {
        first_index_none(rows@, asked);
    }
    None
}

/// Whether `s` starts with the four characters of a line break tag.
pub open spec fn starts_with_break(s: Seq<char>) -> bool {
    s.len() >= 4 && s[0] == '<' && s[1] == 'b' && s[2] == 'r' && s[3] == '>'
}

/// The text `s` with a line feed in place of each line break tag, read from
/// the left.
pub open spec fn without_breaks(s: Seq<char>) -> Seq<char>
    decreases s.len(),
{
    if s.len() == 0 {
        s
    } else if starts_with_break(s) {
        seq!['\n'] + without_breaks(s.skip(4))
    } else {
        seq![s[0]] + without_breaks(s.skip(1))
    }
}

/// A mod's description as the detail view shows it: with line feeds where
/// the service wrote line break tags.
pub fn description_text(text: &str) -> (out: String)
    ensures
        out@ == without_breaks(text@),
{
    let all = chars_of(text);
    let n = all.len();
    let mut out = String::new();
    let mut i: usize = 0;
    assert(all@.skip(0) =~= all@);
    while i < n
        invariant
            i <= n,
            n == all@.len(),
            all@ == text@,
            without_breaks(all@) == out@ + without_breaks(all@.skip(i as int)),
        decreases n - i,
    {
        let ghost rest = all@.skip(i as int);
        let ghost before = out@;
        if n - i >= 4 && all[i] == '<' && all[i + 1] == 'b' && all[i + 2] == 'r' && all[i + 3]
            == '>' {
            out.push('\n');
            proof {
                assert(starts_with_break(rest));
                assert(rest.skip(4) =~= all@.skip(i + 4));
                assert(out@ + without_breaks(all@.skip(i + 4)) =~= before + (seq!['\n']
                    + without_breaks(rest.skip(4))));
            }
            i += 4;
        } else {
            out.push(all[i]);
            proof {
                assert(!starts_with_break(rest));
                assert(rest.skip(1) =~= all@.skip(i + 1));
                assert(out@ + without_breaks(all@.skip(i + 1)) =~= before + (seq![rest[0]]
                    + without_breaks(rest.skip(1))));
            }
            i += 1;
        }
    }
    assert(out@ + without_breaks(all@.skip(n as int)) =~= out@);
    out
}

/// The downloads that the detail view lists for the files `files`: one for
/// each, in their order, none of them started.
pub fn downloads_of(files: &Vec<GbModDownload>) -> (list: Vec<Download>)
    ensures
        list@.len() == files@.len(),
        forall|i: int| 0 <= i < list@.len() ==> #[trigger] list@[i] == new_download(files@[i]),
{
    let mut list: Vec<Download> = Vec::new();
    for i in 0..files.len()
        invariant
            list@.len() == i,
            forall|k: int| 0 <= k < i ==> #[trigger] list@[k] == new_download(files@[k]),
    {
        list.push(Download::from(files[i].clone()));
    }
    list
}

} // verus!
