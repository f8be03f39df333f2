//! The channel browser of the video mode: its state, which channels it
//! shows for a filter, the texts it displays, and how it answers a key.
use vstd::prelude::*;
use crate::text::{
    chars_contain, chars_of, contains, decimal, lemma_find_from_occurrence, lowercase, matches_at,
    opt_view, owned, pop_char, push_char, push_decimal, push_str, to_lowercase, clone_opt,
};
use crate::video::iptv::{lemma_find_from_found, Channel, ChannelModel};
use crate::video::{VideoItem, VideoSource};

verus! {

/// State of the video browser panel.
pub struct VideoBrowserState {
    pub channels: Vec<Channel>,
    pub selected_index: usize,
    pub filter: String,
    pub groups: Vec<String>,
    pub selected_group: Option<String>,
    pub loading: bool,
    pub status_message: Option<String>,
}

/// The browser state seen through the characters of its strings.
#[verifier::ext_equal]
pub struct BrowserModel {
    pub channels: Seq<ChannelModel>,
    pub selected_index: usize,
    pub filter: Seq<char>,
    pub groups: Seq<Seq<char>>,
    pub selected_group: Option<Seq<char>>,
    pub loading: bool,
    pub status_message: Option<Seq<char>>,
}

impl View for VideoBrowserState {
    type V = BrowserModel;

    open spec fn view(&self) -> BrowserModel {
        BrowserModel {
            channels: self.channels@.map_values(|c: Channel| c@),
            selected_index: self.selected_index,
            filter: self.filter@,
            groups: self.groups@.map_values(|g: String| g@),
            selected_group: opt_view(self.selected_group),
            loading: self.loading,
            status_message: opt_view(self.status_message),
        }
    }
}

impl Default for VideoBrowserState {
    /// An empty browser: no channels, no filter, first entry selected.
    fn default() -> (r: Self)
        ensures
            r@ == (BrowserModel {
                channels: Seq::empty(),
                selected_index: 0,
                filter: Seq::empty(),
                groups: Seq::empty(),
                selected_group: None,
                loading: false,
                status_message: None,
            }),
    {
        let r = VideoBrowserState {
            channels: Vec::new(),
            selected_index: 0,
            filter: String::new(),
            groups: Vec::new(),
            selected_group: None,
            loading: false,
            status_message: None,
        };
        assert(r@.channels =~= Seq::empty());
        assert(r@.groups =~= Seq::empty());
        r
    }
}

/// A key as the browser tells keys apart.
#[derive(Debug, Clone, Copy, PartialEq, Eq, Structural)]
pub enum BrowserKey {
    Up,
    Down,
    Enter,
    Backspace,
    Esc,
    Char(char),
    /// Any other key; the browser does not handle it.
    Other,
}

/// What the application is asked to do after a key.
#[derive(Debug, Clone)]
pub enum BrowserAction {
    Nothing,
    /// Play `channels[i]`.
    Play(usize),
    /// Leave the video mode.
    LeaveVideoMode,
    /// Start loading the playlist at this URL.
    FetchPlaylist(String),
}

pub enum ActionModel {
    Nothing,
    Play(usize),
    LeaveVideoMode,
    FetchPlaylist(Seq<char>),
}

impl View for BrowserAction {
    type V = ActionModel;

    open spec fn view(&self) -> ActionModel {
        match self {
            BrowserAction::Nothing => ActionModel::Nothing,
            BrowserAction::Play(i) => ActionModel::Play(*i),
            BrowserAction::LeaveVideoMode => ActionModel::LeaveVideoMode,
            BrowserAction::FetchPlaylist(u) => ActionModel::FetchPlaylist(u@),
        }
    }
}

// ---------------------------------------------------------------------------
// Filtering
// ---------------------------------------------------------------------------

/// The channel's name or group matches the filter (case-insensitively);
/// an empty filter matches every channel.
pub open spec fn listed_hit(c: ChannelModel, filter: Seq<char>) -> bool {
    ||| filter.len() == 0
    ||| contains(lowercase(c.name), lowercase(filter))
    ||| (c.group matches Some(g) && contains(lowercase(g), lowercase(filter)))
}

/// The positions, in order, of the channels that `hit` selects.
pub open spec fn indices_where(chs: Seq<ChannelModel>, hit: spec_fn(ChannelModel) -> bool) -> Seq<
    usize,
>
    decreases chs.len(),
{
    if chs.len() == 0 {
        Seq::empty()
    } else {
        let rest = indices_where(chs.drop_last(), hit);
        if hit(chs.last()) {
            rest.push((chs.len() - 1) as usize)
        } else {
            rest
        }
    }
}

/// The test that selects channels for `filter`.
pub open spec fn filter_hit(filter: Seq<char>) -> spec_fn(ChannelModel) -> bool {
    |c: ChannelModel| listed_hit(c, filter)
}

/// The channels that the panel lists, and that the selection, Down and
/// Enter go through: those whose name or group matches the filter.
pub open spec fn listed(s: BrowserModel) -> Seq<usize> {
    indices_where(s.channels, filter_hit(s.filter))
}

/// `p` occurs somewhere in `s`.
pub open spec fn occurs_in(s: Seq<char>, p: Seq<char>) -> bool {
    exists|i: int| matches_at(s, p, i)
}

proof fn lemma_contains_occurs(s: Seq<char>, p: Seq<char>)
    ensures
        contains(s, p) <==> occurs_in(s, p),
{
    lemma_find_from_found(s, p, 0);
    if occurs_in(s, p) {
        let i = choose|i: int| matches_at(s, p, i);
        lemma_find_from_occurrence(s, p, i, 0);
    }
}

/// A channel is listed for a filter exactly when the filter is empty, or
/// the lower-cased filter occurs anywhere in the lower-cased name, or
/// anywhere in the lower-cased group.
pub proof fn law_filter_matches_substrings(c: ChannelModel, filter: Seq<char>)
    ensures
        listed_hit(c, filter) <==> {
            ||| filter.len() == 0
            ||| occurs_in(lowercase(c.name), lowercase(filter))
            ||| (c.group matches Some(g) && occurs_in(lowercase(g), lowercase(filter)))
        },
{
    lemma_contains_occurs(lowercase(c.name), lowercase(filter));
    match c.group {
        Some(g) => lemma_contains_occurs(lowercase(g), lowercase(filter)),
        None => {},
    }
}

/// Every position that `indices_where` returns is in range, selects a
/// channel that `hit` accepts, and the positions are increasing.
pub proof fn lemma_indices_where(chs: Seq<ChannelModel>, hit: spec_fn(ChannelModel) -> bool)
    requires
        chs.len() <= usize::MAX,
    ensures
        indices_where(chs, hit).len() <= chs.len(),
        forall|k: int|
            0 <= k < indices_where(chs, hit).len() ==> (#[trigger] indices_where(chs, hit)[k]) < chs.len()
                && hit(chs[indices_where(chs, hit)[k] as int]),
        forall|k: int, l: int|
            0 <= k < l < indices_where(chs, hit).len() ==> #[trigger] indices_where(chs, hit)[k]
                < #[trigger] indices_where(chs, hit)[l],
    decreases chs.len(),
{
    if chs.len() > 0 {
        let init = chs.drop_last();
        lemma_indices_where(init, hit);
        let rest = indices_where(init, hit);
        let full = indices_where(chs, hit);
        assert forall|k: int| 0 <= k < rest.len() implies #[trigger] rest[k] < chs.len() && hit(
            chs[rest[k] as int],
        ) by {
            assert(chs[rest[k] as int] == init[rest[k] as int]);
        }
        if hit(chs.last()) {
            assert(full == rest.push((chs.len() - 1) as usize));
            assert forall|k: int| 0 <= k < full.len() implies #[trigger] full[k] < chs.len() && hit(
                chs[full[k] as int],
            ) by {
                if k < rest.len() {
                    assert(full[k] == rest[k]);
                } else {
                    assert(full[k] == chs.len() - 1);
                }
            }
            assert forall|k: int, l: int| 0 <= k < l < full.len() implies #[trigger] full[k]
                < #[trigger] full[l] by {
                assert(full[k] == rest[k]);
                if l < rest.len() {
                    assert(full[l] == rest[l]);
                } else {
                    assert(full[l] == chs.len() - 1);
                }
            }
        }
    }
}


/// Every channel that `hit` accepts has its position in
/// `indices_where(chs, hit)`.
pub proof fn lemma_indices_where_complete(
    chs: Seq<ChannelModel>,
    hit: spec_fn(ChannelModel) -> bool,
    i: int,
)
    requires
        chs.len() <= usize::MAX,
        0 <= i < chs.len(),
        hit(chs[i]),
    ensures
        indices_where(chs, hit).contains(i as usize),
    decreases chs.len(),
{
    let init = chs.drop_last();
    if i < chs.len() - 1 {
        assert(init[i] == chs[i]);
        lemma_indices_where_complete(init, hit, i);
        let rest = indices_where(init, hit);
        let k = choose|k: int| 0 <= k < rest.len() && rest[k] == i as usize;
        if hit(chs.last()) {
            assert(indices_where(chs, hit)[k] == i as usize);
        }
    } else {
        let rest = indices_where(init, hit);
        assert(indices_where(chs, hit)[rest.len() as int] == i as usize);
    }
}

/// With an empty filter, every channel is listed.
pub proof fn law_empty_filter_shows_all(s: BrowserModel)
    requires
        s.channels.len() <= usize::MAX,
        s.filter.len() == 0,
    ensures
        forall|i: int| 0 <= i < s.channels.len() ==> #[trigger] listed(s).contains(i as usize),
{
    assert forall|i: int| 0 <= i < s.channels.len() implies #[trigger] listed(s).contains(
        i as usize,
    ) by {
        lemma_indices_where_complete(s.channels, filter_hit(s.filter), i);
    }
}

/// Whether a channel matches, given the lowercased name, the lowercased
/// group (if any) and the lowercased filter, all as characters.
pub fn hit_lowered(
    name_lower: &Vec<char>,
    group_lower: &Option<Vec<char>>,
    filter_lower: &Vec<char>,
) -> (r: bool)
    ensures
        r == (contains(name_lower@, filter_lower@) || match group_lower {
            Some(g) => contains(g@, filter_lower@),
            None => false,
        }),
{
    if chars_contain(name_lower, filter_lower) {
        return true;
    }
    match group_lower {
        Some(g) => chars_contain(g, filter_lower),
        None => false,
    }
}

/// Whether `c` matches the lowercased filter `filter_lower`, by its name or
/// by its group.
fn channel_hits(c: &Channel, filter_lower: &Vec<char>) -> (r: bool)
    ensures
        r == (contains(lowercase(c@.name), filter_lower@) || (c@.group matches Some(g) && contains(
            lowercase(g),
            filter_lower@,
        ))),
{
    let name_lower = chars_of(to_lowercase(c.name.as_str()).as_str());
    let group_lower = match &c.group {
        Some(g) => Some(chars_of(to_lowercase(g.as_str()).as_str())),
        None => None,
    };
    hit_lowered(&name_lower, &group_lower, filter_lower)
}

/// The positions of the channels that match `filter`, in order.
fn filter_positions(channels: &Vec<Channel>, filter: &String) -> (r: Vec<usize>)
    ensures
        r@ == indices_where(channels@.map_values(|c: Channel| c@), filter_hit(filter@)),
{
    let ghost models = channels@.map_values(|c: Channel| c@);
    let ghost hit = filter_hit(filter@);
    let empty = filter.as_str().is_empty();
    let filter_lower = chars_of(to_lowercase(filter.as_str()).as_str());
    let mut r: Vec<usize> = Vec::new();
    let mut i: usize = 0;
    while i < channels.len()
        invariant
            i <= channels@.len(),
            models == channels@.map_values(|c: Channel| c@),
            hit == filter_hit(filter@),
            empty == (filter@.len() == 0),
            filter_lower@ == lowercase(filter@),
            r@ == indices_where(models.subrange(0, i as int), hit),
        decreases channels.len() - i,
    {
        let h = empty || channel_hits(&channels[i], &filter_lower);
        assert(models[i as int] == channels@[i as int]@);
        assert(h == listed_hit(models[i as int], filter@));
        assert(h == hit(models[i as int]));
        assert(models.subrange(0, i + 1).drop_last() == models.subrange(0, i as int));
        assert(models.subrange(0, i + 1).last() == channels@[i as int]@);
        if h {
            r.push(i);
        }
        i = i + 1;
    }
    assert(models.subrange(0, channels@.len() as int) == models);
    r
}

impl VideoBrowserState {
    /// The positions of the channels that the panel lists (name or group
    /// matches the filter), in order; the selection is a position in it.
    pub fn listed_positions(&self) -> (r: Vec<usize>)
        ensures
            r@ == listed(self@),
    {
        filter_positions(&self.channels, &self.filter)
    }
}


// ---------------------------------------------------------------------------
// Keys
// ---------------------------------------------------------------------------

/// The playlist that `L` starts loading.
pub open spec fn default_playlist_url() -> Seq<char> {
    "https://iptv-org.github.io/iptv/index.m3u"@
}

/// The status shown while that playlist loads.
pub open spec fn loading_message() -> Seq<char> {
    "Loading IPTV playlist..."@
}

/// The answer to `key` in state `s`: the next state, whether the key was
/// handled, and what the application is asked to do.
///
/// Up and Down move the selection within the listed channels (name or
/// group matches the filter); Enter plays the selected one, the entry the
/// panel marks; Backspace and typed
/// characters edit the filter and reset the selection; `L`/`l` starts
/// loading the default playlist; Esc leaves the video mode.
pub open spec fn key_step(s: BrowserModel, key: BrowserKey) -> (BrowserModel, bool, ActionModel) {
    match key {
        BrowserKey::Up => (
            BrowserModel {
                selected_index: if s.selected_index > 0 {
                    (s.selected_index - 1) as usize
                } else {
                    s.selected_index
                },
                ..s
            },
            true,
            ActionModel::Nothing,
        ),
        BrowserKey::Down => (
            BrowserModel {
                selected_index: if s.selected_index + 1 < listed(s).len() {
                    (s.selected_index + 1) as usize
                } else {
                    s.selected_index
                },
                ..s
            },
            true,
            ActionModel::Nothing,
        ),
        BrowserKey::Enter => (
            s,
            true,
            if s.selected_index < listed(s).len() {
                ActionModel::Play(listed(s)[s.selected_index as int])
            } else {
                ActionModel::Nothing
            },
        ),
        BrowserKey::Backspace => (
            BrowserModel {
                filter: if s.filter.len() > 0 {
                    s.filter.drop_last()
                } else {
                    s.filter
                },
                selected_index: 0,
                ..s
            },
            true,
            ActionModel::Nothing,
        ),
        BrowserKey::Esc => (s, true, ActionModel::LeaveVideoMode),
        BrowserKey::Char(c) => if c == 'L' || c == 'l' {
            (
                BrowserModel { loading: true, status_message: Some(loading_message()), ..s },
                true,
                ActionModel::FetchPlaylist(default_playlist_url()),
            )
        } else {
            (
                BrowserModel { filter: s.filter.push(c), selected_index: 0, ..s },
                true,
                ActionModel::Nothing,
            )
        },
        BrowserKey::Other => (s, false, ActionModel::Nothing),
    }
}

impl VideoBrowserState {
    /// `handle_input` without the application around it: answers `key`,
    /// updating the browser, and returns whether the key was handled and
    /// what the application is to do.
    pub fn handle_key(&mut self, key: BrowserKey) -> (r: (bool, BrowserAction))
        ensures
            final(self)@ == key_step(old(self)@, key).0,
            r.0 == key_step(old(self)@, key).1,
            r.1@ == key_step(old(self)@, key).2,
    {
        let ghost s = self@;
        match key {
            BrowserKey::Up => {
                if self.selected_index > 0 {
                    self.selected_index = self.selected_index - 1;
                }
                assert(self@ =~= key_step(s, key).0);
                (true, BrowserAction::Nothing)
            },
            BrowserKey::Down => {
                let nav = self.listed_positions();
                if nav.len() > 0 && self.selected_index < nav.len() - 1 {
                    self.selected_index = self.selected_index + 1;
                }
                assert(self@ =~= key_step(s, key).0);
                (true, BrowserAction::Nothing)
            },
            BrowserKey::Enter => {
                let nav = self.listed_positions();
                if self.selected_index < nav.len() {
                    (true, BrowserAction::Play(nav[self.selected_index]))
                } else {
                    (true, BrowserAction::Nothing)
                }
            },
            BrowserKey::Backspace => {
                let _ = pop_char(&mut self.filter);
                self.selected_index = 0;
                assert(self@ =~= key_step(s, key).0);
                (true, BrowserAction::Nothing)
            },
            BrowserKey::Esc => (true, BrowserAction::LeaveVideoMode),
            BrowserKey::Char(c) => {
                if c == 'L' || c == 'l' {
                    self.loading = true;
                    self.status_message = Some(owned("Loading IPTV playlist..."));
                    assert(self@ =~= key_step(s, key).0);
                    (true, BrowserAction::FetchPlaylist(owned("https://iptv-org.github.io/iptv/index.m3u")))
                } else {
                    push_char(&mut self.filter, c);
                    self.selected_index = 0;
                    assert(self@ =~= key_step(s, key).0);
                    (true, BrowserAction::Nothing)
                }
            },
            BrowserKey::Other => (false, BrowserAction::Nothing),
        }
    }
}

// ---------------------------------------------------------------------------
// Laws of the key handling
// ---------------------------------------------------------------------------

/// `L` and `l` alike start loading the default playlist: the browser shows
/// that it is loading, the filter and the selection stay as they were, and
/// the application is asked to fetch the default playlist.
pub proof fn law_load_key_fetches_playlist(s: BrowserModel, c: char)
    requires
        c == 'L' || c == 'l',
    ensures
        key_step(s, BrowserKey::Char(c)).0 == (BrowserModel {
            loading: true,
            status_message: Some("Loading IPTV playlist..."@),
            ..s
        }),
        key_step(s, BrowserKey::Char(c)).1,
        key_step(s, BrowserKey::Char(c)).2 == ActionModel::FetchPlaylist(
            "https://iptv-org.github.io/iptv/index.m3u"@,
        ),
        key_step(s, BrowserKey::Char('l')) == key_step(s, BrowserKey::Char('L')),
{
}

/// Any other typed character is added to the end of the filter and selects
/// the first entry; nothing is loaded.
pub proof fn law_typed_char_extends_filter(s: BrowserModel, c: char)
    requires
        c != 'L' && c != 'l',
    ensures
        key_step(s, BrowserKey::Char(c)).0.filter == s.filter.push(c),
        key_step(s, BrowserKey::Char(c)).0.selected_index == 0,
        key_step(s, BrowserKey::Char(c)).0.loading == s.loading,
        key_step(s, BrowserKey::Char(c)).0.status_message == s.status_message,
        key_step(s, BrowserKey::Char(c)).1,
        key_step(s, BrowserKey::Char(c)).2 == ActionModel::Nothing,
{
}

/// The selection is the first entry, or one of the channels that
/// navigation goes through.
pub open spec fn selection_valid(s: BrowserModel) -> bool {
    s.selected_index == 0 || s.selected_index < listed(s).len()
}

/// No key changes the channels, the groups or the selected group; a key
/// the browser does not handle changes nothing.
pub proof fn law_keys_keep_channels(s: BrowserModel, key: BrowserKey)
    ensures
        key_step(s, key).0.channels == s.channels,
        key_step(s, key).0.groups == s.groups,
        key_step(s, key).0.selected_group == s.selected_group,
        key == BrowserKey::Other ==> key_step(s, key).0 == s && !key_step(s, key).1,
{
}

/// Every key keeps the selection valid.
pub proof fn law_selection_stays_valid(s: BrowserModel, key: BrowserKey)
    requires
        selection_valid(s),
    ensures
        selection_valid(key_step(s, key).0),
{
    let t = key_step(s, key).0;
    if t.channels == s.channels && t.filter == s.filter {
        assert(listed(t) == listed(s));
    }
}

/// Backspace undoes a typed character (other than `L`/`l`), leaving the
/// first entry selected.
pub proof fn law_backspace_undoes_typing(s: BrowserModel, c: char)
    requires
        c != 'L' && c != 'l',
    ensures
        key_step(key_step(s, BrowserKey::Char(c)).0, BrowserKey::Backspace).0 == (BrowserModel {
            selected_index: 0,
            ..s
        }),
{
    assert(s.filter.push(c).drop_last() =~= s.filter);
    assert(key_step(key_step(s, BrowserKey::Char(c)).0, BrowserKey::Backspace).0 =~= (BrowserModel {
        selected_index: 0,
        ..s
    }));
}

/// Up undoes a Down that moved the selection.
pub proof fn law_up_undoes_down(s: BrowserModel)
    requires
        s.channels.len() <= usize::MAX,
        s.selected_index + 1 < listed(s).len(),
    ensures
        key_step(key_step(s, BrowserKey::Down).0, BrowserKey::Up).0 == s,
{
    lemma_indices_where(s.channels, filter_hit(s.filter));
    let t = key_step(s, BrowserKey::Down).0;
    assert(listed(t) == listed(s));
    assert(key_step(t, BrowserKey::Up).0 =~= s);
}

/// Enter plays the selected entry of the list, the one whose line
/// `listed_lines` marks; it keeps the browser as it was.
pub proof fn law_enter_plays_marked_entry(s: BrowserModel)
    requires
        s.selected_index < listed(s).len(),
    ensures
        key_step(s, BrowserKey::Enter).2 == ActionModel::Play(listed(s)[s.selected_index as int]),
        key_step(s, BrowserKey::Enter).0 == s,
        key_step(s, BrowserKey::Enter).1,
{
}

/// Enter only ever plays an existing channel that matches the filter.
pub proof fn law_enter_plays_matching_channel(s: BrowserModel)
    requires
        s.channels.len() <= usize::MAX,
    ensures
        key_step(s, BrowserKey::Enter).2 matches ActionModel::Play(i) ==> i < s.channels.len()
            && listed_hit(s.channels[i as int], s.filter),
{
    lemma_indices_where(s.channels, filter_hit(s.filter));
}


// ---------------------------------------------------------------------------
// What the panel shows
// ---------------------------------------------------------------------------

/// The video that starts when channel `ch` is played: identified by its
/// `tvg-id` (or its name), described by its group, pictured by its logo.
pub fn video_item_for_channel(ch: &Channel) -> (v: VideoItem)
    ensures
        v.id@ == match ch.tvg_id {
            Some(t) => t@,
            None => ch.name@,
        },
        v.title@ == ch.name@,
        v.url@ == ch.url@,
        opt_view(v.description) == opt_view(ch.group),
        opt_view(v.thumbnail) == opt_view(ch.logo),
        v.duration is None,
        v.source == VideoSource::IPTV,
{
    let id = match &ch.tvg_id {
        Some(t) => t.clone(),
        None => ch.name.clone(),
    };
    VideoItem {
        id,
        title: ch.name.clone(),
        url: ch.url.clone(),
        description: clone_opt(&ch.group),
        thumbnail: clone_opt(&ch.logo),
        duration: None,
        source: VideoSource::IPTV,
    }
}

/// The line that lists channel `c`: a marker when it is selected, its
/// group in brackets, a picture sign when it has a logo, and its name.
pub open spec fn channel_line(c: ChannelModel, selected: bool) -> Seq<char> {
    (if selected {
        "▶ "@
    } else {
        "  "@
    }) + "["@ + (match c.group {
        Some(g) => g,
        None => Seq::empty(),
    }) + "] "@ + (if c.logo is Some {
        "🖼 "@
    } else {
        Seq::empty()
    }) + c.name
}

/// `channel_line` for `ch`.
pub fn format_channel_line(ch: &Channel, selected: bool) -> (r: String)
    ensures
        r@ == channel_line(ch@, selected),
{
    let mut r = String::new();
    if selected {
        push_str(&mut r, "▶ ");
    } else {
        push_str(&mut r, "  ");
    }
    push_str(&mut r, "[");
    match &ch.group {
        Some(g) => push_str(&mut r, g.as_str()),
        None => {},
    }
    push_str(&mut r, "] ");
    if ch.logo.is_some() {
        push_str(&mut r, "🖼 ");
    }
    push_str(&mut r, ch.name.as_str());
    r
}

impl VideoBrowserState {
    /// The panel's title, naming the selected group if there is one.
    pub fn title_text(&self) -> (r: String)
        ensures
            r@ == match self.selected_group {
                Some(g) => " 📺 Video Channels ["@ + g@ + "] "@,
                None => " 📺 Video Channels "@,
            },
    {
        match &self.selected_group {
            Some(g) => {
                let mut r = owned(" 📺 Video Channels [");
                push_str(&mut r, g.as_str());
                push_str(&mut r, "] ");
                r
            },
            None => owned(" 📺 Video Channels "),
        }
    }

    /// The line under the title: the filter, or a hint when it is empty.
    pub fn filter_text(&self) -> (r: String)
        ensures
            r@ == if self.filter@.len() == 0 {
                "Type to filter..."@
            } else {
                "Filter: "@ + self.filter@
            },
    {
        if self.filter.as_str().is_empty() {
            owned("Type to filter...")
        } else {
            let mut r = owned("Filter: ");
            push_str(&mut r, self.filter.as_str());
            r
        }
    }

    /// The status line, given how many channels are listed.
    pub fn status_text(&self, listed_count: usize) -> (r: String)
        ensures
            r@ == if self.loading {
                "Loading channels..."@
            } else {
                match self.status_message {
                    Some(m) => m@,
                    None => decimal(listed_count as nat) + " channels loaded"@,
                }
            },
    {
        if self.loading {
            owned("Loading channels...")
        } else {
            match &self.status_message {
                Some(m) => m.clone(),
                None => {
                    let mut r = String::new();
                    push_decimal(&mut r, listed_count as u64);
                    push_str(&mut r, " channels loaded");
                    r
                },
            }
        }
    }

    /// The lines of the listed channels, in order; the one at position
    /// `selected_index` of the list is marked as selected.
    pub fn listed_lines(&self) -> (r: Vec<String>)
        ensures
            r@.len() == listed(self@).len(),
            forall|i: int|
                0 <= i < r@.len() ==> #[trigger] r@[i]@ == channel_line(
                    self@.channels[listed(self@)[i] as int],
                    i == self.selected_index,
                ),
    {
        let shown = self.listed_positions();
        let _n = self.channels.len();
        proof {
            assert(self@.channels.len() == self.channels@.len());
            lemma_indices_where(self@.channels, filter_hit(self@.filter));
        }
        let mut r: Vec<String> = Vec::new();
        let mut i: usize = 0;
        while i < shown.len()
            invariant
                i <= shown@.len(),
                shown@ == listed(self@),
                self@.channels.len() == self.channels@.len(),
                forall|k: int| 0 <= k < shown@.len() ==> #[trigger] shown@[k] < self@.channels.len(),
                r@.len() == i,
                forall|k: int|
                    0 <= k < i ==> #[trigger] r@[k]@ == channel_line(
                        self@.channels[shown@[k] as int],
                        k == self.selected_index,
                    ),
            decreases shown.len() - i,
        {
            let line = format_channel_line(&self.channels[shown[i]], i == self.selected_index);
            r.push(line);
            i = i + 1;
        }
        r
    }
}

} // verus!
