//! Jellyfin media server: the client's identity, the request URLs, and
//! what the server's JSON answers are turned into.
//!
//! The HTTP requests themselves are made by the application.
use vstd::prelude::*;
use crate::json::{field_array, field_str, field_str_or, field_u64, JsonValue};
use crate::text::{opt_view, owned, push_str, str_eq, trim_end_char, trim_end_matches_char};

verus! {

#[derive(Debug, Clone)]
pub struct JellyfinServer {
    pub name: String,
    pub url: String,
    pub version: String,
}

#[derive(Debug, Clone)]
pub struct JellyfinUser {
    pub id: String,
    pub name: String,
}

#[derive(Debug, Clone)]
pub struct JellyfinItem {
    pub id: String,
    pub name: String,
    pub item_type: String,
    pub path: Option<String>,
    pub media_sources: Option<Vec<MediaSource>>,
    pub overview: Option<String>,
    pub run_time_ticks: Option<u64>,
    pub thumbnail_url: Option<String>,
}

#[derive(Debug, Clone)]
pub struct MediaSource {
    pub id: String,
    pub path: String,
    pub container: Option<String>,
    pub bitrate: Option<u32>,
}

/// The server to talk to and the credentials to use.
#[derive(Debug, Clone)]
pub struct JellyfinClient {
    pub server_url: String,
    pub api_key: String,
    pub user_id: String,
}

// ---------------------------------------------------------------------------
// Models
// ---------------------------------------------------------------------------

#[verifier::ext_equal]
pub struct ServerModel {
    pub name: Seq<char>,
    pub url: Seq<char>,
    pub version: Seq<char>,
}

impl View for JellyfinServer {
    type V = ServerModel;

    open spec fn view(&self) -> ServerModel {
        ServerModel { name: self.name@, url: self.url@, version: self.version@ }
    }
}

#[verifier::ext_equal]
pub struct MediaSourceModel {
    pub id: Seq<char>,
    pub path: Seq<char>,
    pub container: Option<Seq<char>>,
    pub bitrate: Option<u32>,
}

impl View for MediaSource {
    type V = MediaSourceModel;

    open spec fn view(&self) -> MediaSourceModel {
        MediaSourceModel {
            id: self.id@,
            path: self.path@,
            container: opt_view(self.container),
            bitrate: self.bitrate,
        }
    }
}

pub open spec fn sources_view(o: Option<Vec<MediaSource>>) -> Option<Seq<MediaSourceModel>> {
    match o {
        Some(v) => Some(v@.map_values(|m: MediaSource| m@)),
        None => None,
    }
}

#[verifier::ext_equal]
pub struct ItemModel {
    pub id: Seq<char>,
    pub name: Seq<char>,
    pub item_type: Seq<char>,
    pub path: Option<Seq<char>>,
    pub media_sources: Option<Seq<MediaSourceModel>>,
    pub overview: Option<Seq<char>>,
    pub run_time_ticks: Option<u64>,
    pub thumbnail_url: Option<Seq<char>>,
}

impl View for JellyfinItem {
    type V = ItemModel;

    open spec fn view(&self) -> ItemModel {
        ItemModel {
            id: self.id@,
            name: self.name@,
            item_type: self.item_type@,
            path: opt_view(self.path),
            media_sources: sources_view(self.media_sources),
            overview: opt_view(self.overview),
            run_time_ticks: self.run_time_ticks,
            thumbnail_url: opt_view(self.thumbnail_url),
        }
    }
}

#[verifier::ext_equal]
pub struct ClientModel {
    pub server_url: Seq<char>,
    pub api_key: Seq<char>,
    pub user_id: Seq<char>,
}

impl View for JellyfinClient {
    type V = ClientModel;

    open spec fn view(&self) -> ClientModel {
        ClientModel { server_url: self.server_url@, api_key: self.api_key@, user_id: self.user_id@ }
    }
}

pub open spec fn items_view(v: Seq<JellyfinItem>) -> Seq<ItemModel> {
    v.map_values(|x: JellyfinItem| x@)
}

// ---------------------------------------------------------------------------
// Specification
// ---------------------------------------------------------------------------

/// The URL that tells whether a server answers.
pub open spec fn info_url(server_url: Seq<char>) -> Seq<char> {
    trim_end_char(server_url, '/') + "/System/Info/Public"@
}

/// The URL of the user's libraries.
pub open spec fn views_url(c: ClientModel) -> Seq<char> {
    c.server_url + "/Users/"@ + c.user_id + "/Views"@
}

/// The URL of the videos of a library.
pub open spec fn items_url(c: ClientModel, library_id: Seq<char>) -> Seq<char> {
    c.server_url + "/Users/"@ + c.user_id + "/Items?ParentId="@ + library_id
        + "&IncludeItemTypes=Movie,Series,Episode&Recursive=true"@
}

/// The URL of a video's picture.
pub open spec fn thumbnail_url(c: ClientModel, id: Seq<char>) -> Seq<char> {
    c.server_url + "/Items/"@ + id + "/Images/Primary?maxHeight=200"@
}

/// The URL that streams a video.
pub open spec fn stream_url(c: ClientModel, video_id: Seq<char>) -> Seq<char> {
    c.server_url + "/Videos/"@ + video_id + "/stream?api_key="@ + c.api_key
}

/// The server described by its public information `info`.
pub open spec fn server_of(info: JsonValue, server_url: Seq<char>) -> ServerModel {
    ServerModel {
        name: field_str_or(info, "ServerName"@, "Unknown"@),
        url: server_url,
        version: field_str_or(info, "Version"@, "Unknown"@),
    }
}

/// The library that a view entry describes, when it is a movie or series
/// collection.
pub open spec fn library_item(item: JsonValue) -> Option<ItemModel> {
    match field_str(item, "CollectionType"@) {
        Some(t) => if t == "movies"@ || t == "tvshows"@ {
            Some(
                ItemModel {
                    id: field_str_or(item, "Id"@, ""@),
                    name: field_str_or(item, "Name"@, "Unknown"@),
                    item_type: t,
                    path: None,
                    media_sources: None,
                    overview: None,
                    run_time_ticks: None,
                    thumbnail_url: None,
                },
            )
        } else {
            None
        },
        None => None,
    }
}

/// The libraries among the view entries `items`, in order.
pub open spec fn libraries_in(items: Seq<JsonValue>) -> Seq<ItemModel>
    decreases items.len(),
{
    if items.len() == 0 {
        Seq::empty()
    } else {
        let rest = libraries_in(items.drop_last());
        match library_item(items.last()) {
            Some(m) => rest.push(m),
            None => rest,
        }
    }
}

/// The libraries that the answer `json` lists.
pub open spec fn libraries_of(json: JsonValue) -> Seq<ItemModel> {
    match field_array(json, "Items"@) {
        Some(items) => libraries_in(items),
        None => Seq::empty(),
    }
}

/// The video that an entry of a library describes.
pub open spec fn video_item(c: ClientModel, item: JsonValue) -> ItemModel {
    let id = field_str_or(item, "Id"@, ""@);
    ItemModel {
        id: id,
        name: field_str_or(item, "Name"@, "Unknown"@),
        item_type: field_str_or(item, "Type"@, "Unknown"@),
        path: None,
        media_sources: None,
        overview: field_str(item, "Overview"@),
        run_time_ticks: field_u64(item, "RunTimeTicks"@),
        thumbnail_url: Some(thumbnail_url(c, id)),
    }
}

/// The videos that the answer `json` lists, in order.
pub open spec fn videos_of(c: ClientModel, json: JsonValue) -> Seq<ItemModel> {
    match field_array(json, "Items"@) {
        Some(items) => items.map_values(|it: JsonValue| video_item(c, it)),
        None => Seq::empty(),
    }
}

/// The server addresses in the answers to a discovery broadcast: each
/// answer's `Address`, in the order they came, each address once.
pub open spec fn discovered_addresses(replies: Seq<JsonValue>) -> Seq<Seq<char>>
    decreases replies.len(),
{
    if replies.len() == 0 {
        Seq::empty()
    } else {
        let rest = discovered_addresses(replies.drop_last());
        match field_str(replies.last(), "Address"@) {
            Some(a) => if rest.contains(a) {
                rest
            } else {
                rest.push(a)
            },
            None => rest,
        }
    }
}

// ---------------------------------------------------------------------------
// Laws
// ---------------------------------------------------------------------------

proof fn lemma_trim_end_char(s: Seq<char>, c: char)
    ensures
        trim_end_char(s, c).len() == 0 || trim_end_char(s, c).last() != c,
        trim_end_char(trim_end_char(s, c), c) == trim_end_char(s, c),
    decreases s.len(),
{
    if s.len() > 0 && s.last() == c {
        lemma_trim_end_char(s.drop_last(), c);
    }
}

/// A client's server URL never ends with `/`, so the request URLs never
/// hold `//` where the path is joined; making a client from its own server
/// URL keeps that URL.
pub proof fn law_client_url_has_no_trailing_slash(server_url: Seq<char>)
    ensures
        trim_end_char(server_url, '/').len() == 0 || trim_end_char(server_url, '/').last() != '/',
        trim_end_char(trim_end_char(server_url, '/'), '/') == trim_end_char(server_url, '/'),
{
    lemma_trim_end_char(server_url, '/');
}

/// The collection type that makes a view entry a video library.
pub open spec fn is_video_collection(it: JsonValue) -> bool {
    field_str(it, "CollectionType"@) == Some("movies"@) || field_str(it, "CollectionType"@) == Some(
        "tvshows"@,
    )
}

proof fn lemma_libraries_kinds(items: Seq<JsonValue>)
    ensures
        forall|k: int|
            0 <= k < libraries_in(items).len() ==> (#[trigger] libraries_in(items)[k]).item_type
                == "movies"@ || libraries_in(items)[k].item_type == "tvshows"@,
    decreases items.len(),
{
    if items.len() > 0 {
        lemma_libraries_kinds(items.drop_last());
    }
}

/// Every library listed is a `movies` or a `tvshows` collection.
pub proof fn law_libraries_are_movies_or_shows(json: JsonValue)
    ensures
        forall|k: int|
            0 <= k < libraries_of(json).len() ==> (#[trigger] libraries_of(json)[k]).item_type
                == "movies"@ || libraries_of(json)[k].item_type == "tvshows"@,
{
    match field_array(json, "Items"@) {
        Some(items) => lemma_libraries_kinds(items),
        None => {},
    }
}

/// A view entry is listed, after those before it, exactly when its
/// `CollectionType` is `movies` or `tvshows`; it is then listed with that
/// type, its `Id` and its `Name`.
pub proof fn law_library_entry_kept_iff_video(items: Seq<JsonValue>, it: JsonValue)
    ensures
        libraries_in(items.push(it)).len() == libraries_in(items).len() + (if is_video_collection(
            it,
        ) {
            1int
        } else {
            0int
        }),
        libraries_in(items.push(it)).subrange(0, libraries_in(items).len() as int) == libraries_in(
            items,
        ),
        is_video_collection(it) ==> {
            let m = libraries_in(items.push(it)).last();
            &&& Some(m.item_type) == field_str(it, "CollectionType"@)
            &&& m.id == field_str_or(it, "Id"@, ""@)
            &&& m.name == field_str_or(it, "Name"@, "Unknown"@)
        },
{
    assert(items.push(it).drop_last() =~= items);
    assert(items.push(it).last() == it);
    let r = libraries_in(items);
    match library_item(it) {
        Some(m) => {
            assert(r.push(m).subrange(0, r.len() as int) =~= r);
        },
        None => {
            assert(r.subrange(0, r.len() as int) =~= r);
        },
    }
}

// ---------------------------------------------------------------------------
// Executable functions
// ---------------------------------------------------------------------------

/// `test_connection`'s request URL for `server_url`.
pub fn info_request_url(server_url: &str) -> (r: String)
    ensures
        r@ == info_url(server_url@),
{
    let mut r = trim_end_matches_char(server_url, '/');
    push_str(&mut r, "/System/Info/Public");
    r
}

/// `test_connection`'s result from the server's answer `info`: its name
/// and version ("Unknown" where missing) and the URL as given.
pub fn server_from_info(info: &JsonValue, server_url: &str) -> (r: JellyfinServer)
    ensures
        r@ == server_of(*info, server_url@),
{
    JellyfinServer {
        name: info.field_str_or("ServerName", "Unknown"),
        url: owned(server_url),
        version: info.field_str_or("Version", "Unknown"),
    }
}

/// `get_video_libraries`' result from the server's answer `json`: the
/// movie and series collections, in order.
pub fn libraries_from_json(json: &JsonValue) -> (r: Vec<JellyfinItem>)
    ensures
        items_view(r@) == libraries_of(*json),
{
    let mut r: Vec<JellyfinItem> = Vec::new();
    match json.field_array("Items") {
        None => {
            assert(items_view(r@) =~= Seq::empty());
        },
        Some(items) => {
            let mut i: usize = 0;
            while i < items.len()
                invariant
                    i <= items@.len(),
                    items_view(r@) == libraries_in(items@.subrange(0, i as int)),
                decreases items.len() - i,
            {
                let item = &items[i];
                assert(items@.subrange(0, i + 1).drop_last() == items@.subrange(0, i as int));
                assert(items@.subrange(0, i + 1).last() == *item);
                match item.field_str("CollectionType") {
                    Some(t) => {
                        if str_eq(t.as_str(), "movies") || str_eq(t.as_str(), "tvshows") {
                            let lib = JellyfinItem {
                                id: item.field_str_or("Id", ""),
                                name: item.field_str_or("Name", "Unknown"),
                                item_type: t,
                                path: None,
                                media_sources: None,
                                overview: None,
                                run_time_ticks: None,
                                thumbnail_url: None,
                            };
                            let ghost before = r@;
                            r.push(lib);
                            assert(items_view(r@) =~= items_view(before).push(lib@));
                        }
                    },
                    None => {},
                }
                i = i + 1;
            }
            assert(items@.subrange(0, items@.len() as int) == items@);
        },
    }
    r
}

/// The UDP port on which Jellyfin servers answer discovery broadcasts.
pub const DISCOVERY_PORT: u16 = 7359;

/// The broadcast message that asks Jellyfin servers to announce
/// themselves.
pub fn discovery_message() -> (r: String)
    ensures
        r@ == "who is JellyfinServer?"@,
{
    owned("who is JellyfinServer?")
}

/// `discover_servers`' addresses from the decoded answers to a discovery
/// broadcast: each answer's `Address`, in order, each once.
pub fn discovery_addresses(replies: &Vec<JsonValue>) -> (r: Vec<String>)
    ensures
        r@.map_values(|a: String| a@) == discovered_addresses(replies@),
{
    let mut r: Vec<String> = Vec::new();
    let mut i: usize = 0;
    while i < replies.len()
        invariant
            i <= replies@.len(),
            r@.map_values(|a: String| a@) == discovered_addresses(replies@.subrange(0, i as int)),
        decreases replies.len() - i,
    {
        assert(replies@.subrange(0, i + 1).drop_last() == replies@.subrange(0, i as int));
        assert(replies@.subrange(0, i + 1).last() == replies@[i as int]);
        let ghost seen = r@.map_values(|a: String| a@);
        match replies[i].field_str("Address") {
            Some(a) => {
                let mut found = false;
                let mut k: usize = 0;
                while k < r.len()
                    invariant
                        k <= r@.len(),
                        seen == r@.map_values(|x: String| x@),
                        found == (exists|j: int| 0 <= j < k && seen[j] == a@),
                    decreases r.len() - k,
                {
                    let same = r[k] == a;
                    assert(seen[k as int] == r@[k as int]@);
                    if same {
                        found = true;
                    }
                    k = k + 1;
                }
                if found {
                    assert(seen.contains(a@));
                } else {
                    assert(!seen.contains(a@));
                    let ghost av = a@;
                    r.push(a);
                    assert(r@.map_values(|x: String| x@) =~= seen.push(av));
                }
            },
            None => {},
        }
        i = i + 1;
    }
    assert(replies@.subrange(0, replies@.len() as int) == replies@);
    r
}

impl JellyfinClient {
    /// A client for `server_url` (without its trailing slashes).
    pub fn new(server_url: String, api_key: String, user_id: String) -> (r: Self)
        ensures
            r@ == (ClientModel {
                server_url: trim_end_char(server_url@, '/'),
                api_key: api_key@,
                user_id: user_id@,
            }),
    {
        JellyfinClient {
            server_url: trim_end_matches_char(server_url.as_str(), '/'),
            api_key,
            user_id,
        }
    }

    /// `get_video_libraries`' request URL.
    pub fn views_request_url(&self) -> (r: String)
        ensures
            r@ == views_url(self@),
    {
        let mut r = self.server_url.clone();
        push_str(&mut r, "/Users/");
        push_str(&mut r, self.user_id.as_str());
        push_str(&mut r, "/Views");
        r
    }

    /// `get_videos`' request URL for a library.
    pub fn items_request_url(&self, library_id: &str) -> (r: String)
        ensures
            r@ == items_url(self@, library_id@),
    {
        let mut r = self.server_url.clone();
        push_str(&mut r, "/Users/");
        push_str(&mut r, self.user_id.as_str());
        push_str(&mut r, "/Items?ParentId=");
        push_str(&mut r, library_id);
        push_str(&mut r, "&IncludeItemTypes=Movie,Series,Episode&Recursive=true");
        r
    }

    /// The URL of the picture of video `id`.
    pub fn thumbnail_request_url(&self, id: &str) -> (r: String)
        ensures
            r@ == thumbnail_url(self@, id@),
    {
        let mut r = self.server_url.clone();
        push_str(&mut r, "/Items/");
        push_str(&mut r, id);
        push_str(&mut r, "/Images/Primary?maxHeight=200");
        r
    }

    /// `get_stream_url`: the URL that streams video `video_id`.
    pub fn get_stream_url(&self, video_id: &str) -> (r: String)
        ensures
            r@ == stream_url(self@, video_id@),
    {
        let mut r = self.server_url.clone();
        push_str(&mut r, "/Videos/");
        push_str(&mut r, video_id);
        push_str(&mut r, "/stream?api_key=");
        push_str(&mut r, self.api_key.as_str());
        r
    }

    /// `get_videos`' result from the server's answer `json`: every listed
    /// entry, in order.
    pub fn videos_from_json(&self, json: &JsonValue) -> (r: Vec<JellyfinItem>)
        ensures
            items_view(r@) == videos_of(self@, *json),
    {
        let mut r: Vec<JellyfinItem> = Vec::new();
        match json.field_array("Items") {
            None => {
                assert(items_view(r@) =~= Seq::empty());
            },
            Some(items) => {
                let mut i: usize = 0;
                while i < items.len()
                    invariant
                        i <= items@.len(),
                        items_view(r@) == items@.subrange(0, i as int).map_values(
                            |it: JsonValue| video_item(self@, it),
                        ),
                    decreases items.len() - i,
                {
                    let item = &items[i];
                    let id = item.field_str_or("Id", "");
                    let thumb = self.thumbnail_request_url(id.as_str());
                    let v = JellyfinItem {
                        id,
                        name: item.field_str_or("Name", "Unknown"),
                        item_type: item.field_str_or("Type", "Unknown"),
                        path: None,
                        media_sources: None,
                        overview: item.field_str("Overview"),
                        run_time_ticks: item.field_u64("RunTimeTicks"),
                        thumbnail_url: Some(thumb),
                    };
                    let ghost before = r@;
                    r.push(v);
                    assert(v@ =~= video_item(self@, items@[i as int]));
                    assert(items_view(r@) =~= items_view(before).push(v@));
                    assert(items@.subrange(0, i + 1).map_values(|it: JsonValue| video_item(self@, it))
                        =~= items@.subrange(0, i as int).map_values(
                        |it: JsonValue| video_item(self@, it),
                    ).push(video_item(self@, items@[i as int])));
                    i = i + 1;
                }
                assert(items@.subrange(0, items@.len() as int) == items@);
            },
        }
        r
    }
}

} // verus!
