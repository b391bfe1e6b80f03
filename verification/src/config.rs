//! The configuration-derived data model: tracked channels, the shared
//! state record, and the player selection enum with its parser.

use vstd::prelude::*;

use crate::json::{
    config_fields, config_fields_of, opt_strs_model, ConfigFieldsModel, JsonStrings,
    JsonStringsModel,
};
use crate::text::{all_ascii, lowercase, str_eq};

verus! {

/// The last known status of one tracked stream.
#[derive(Debug, PartialEq, Eq)]
pub struct Channel {
    pub name: String,
    pub is_online: bool,
    pub title: Option<String>,
    pub viewers: Option<u64>,
}

/// Mathematical model of a [`Channel`]: every string as a sequence of
/// characters.
#[verifier::ext_equal]
pub struct ChannelModel {
    pub name: Seq<char>,
    pub is_online: bool,
    pub title: Option<Seq<char>>,
    pub viewers: Option<u64>,
}

impl View for Channel {
    type V = ChannelModel;

    open spec fn view(&self) -> ChannelModel {
        ChannelModel {
            name: self.name@,
            is_online: self.is_online,
            title: match self.title {
                Some(t) => Some(t@),
                None => None,
            },
            viewers: self.viewers,
        }
    }
}

impl Channel {
    /// A brand-new channel starts with no volatile data: offline, no
    /// title, no viewer count.
    pub fn from(name: String) -> (c: Channel)
        ensures
            c@ == (ChannelModel {
                name: name@,
                is_online: false,
                title: None,
                viewers: None,
            }),
    {
        Channel { name, is_online: false, title: None, viewers: None }
    }
}

impl Default for Channel {
    /// An unnamed channel with no volatile data.
    fn default() -> (c: Channel)
        ensures
            c@.name.len() == 0,
            c@.is_online == false,
            c@.title is None,
            c@.viewers is None,
    {
        Channel { name: String::new(), is_online: false, title: None, viewers: None }
    }
}

impl Clone for Channel {
    fn clone(&self) -> (res: Self)
        ensures
            res@ == self@,
    {
        Channel {
            name: self.name.clone(),
            is_online: self.is_online,
            title: match &self.title {
                Some(t) => Some(t.clone()),
                None => None,
            },
            viewers: self.viewers,
        }
    }
}

/// The characters of each channel's name, in list order.
pub open spec fn channel_names(chs: Seq<ChannelModel>) -> Seq<Seq<char>> {
    chs.map_values(|c: ChannelModel| c.name)
}

/// Channel names are unique within a channel list.
pub open spec fn unique_names(chs: Seq<ChannelModel>) -> bool {
    forall|i: int, j: int| 0 <= i < j < chs.len() ==> chs[i].name != chs[j].name
}

/// Some channel in `chs` carries exactly this name.
pub open spec fn has_name(chs: Seq<ChannelModel>, name: Seq<char>) -> bool {
    exists|i: int| 0 <= i < chs.len() && chs[i].name == name
}

/// The model of a channel list.
pub open spec fn chs_model(chs: Seq<Channel>) -> Seq<ChannelModel> {
    chs.map_values(|c: Channel| c@)
}

/// The model of a list of strings.
pub open spec fn strs_model(ss: Seq<String>) -> Seq<Seq<char>> {
    ss.map_values(|s: String| s@)
}

/// How a stream is opened by the presentation layer; passed through by
/// the concurrency core, never inspected by it.
#[derive(Copy, Clone, Debug, PartialEq, Eq, Structural)]
pub enum OpenStreamUsing {
    Browser,
    Mpv,
    Streamlink,
}

/// The player selection that a configuration spelling denotes, if any.
pub open spec fn player_from_chars(s: Seq<char>) -> Option<OpenStreamUsing> {
    if s == "browser"@ {
        Some(OpenStreamUsing::Browser)
    } else if s == "mpv"@ {
        Some(OpenStreamUsing::Mpv)
    } else if s == "streamlink"@ {
        Some(OpenStreamUsing::Streamlink)
    } else {
        None
    }
}

impl OpenStreamUsing {
    /// Parses a player selection from its configuration spelling;
    /// rejects anything but the three known spellings.
    pub fn parse(player: &str) -> (r: Option<OpenStreamUsing>)
        ensures
            r == player_from_chars(player@),
    {
        if str_eq(player, "browser") {
            Some(OpenStreamUsing::Browser)
        } else if str_eq(player, "mpv") {
            Some(OpenStreamUsing::Mpv)
        } else if str_eq(player, "streamlink") {
            Some(OpenStreamUsing::Streamlink)
        } else {
            None
        }
    }

    /// The label shown for this player in the presentation layer.
    pub fn label(&self) -> (r: String)
        ensures
            *self == OpenStreamUsing::Browser ==> r@ == "Browser"@,
            *self == OpenStreamUsing::Mpv ==> r@ == "Mpv"@,
            *self == OpenStreamUsing::Streamlink ==> r@ == "Streamlink"@,
    {
        match *self {
            OpenStreamUsing::Browser => "Browser".to_owned(),
            OpenStreamUsing::Mpv => "Mpv".to_owned(),
            OpenStreamUsing::Streamlink => "Streamlink".to_owned(),
        }
    }
}

/// Law: a player's label, case-folded, parses back to the same
/// player — for every variant, the parser applied to the fold of the
/// label yields that variant again.
pub fn label_parse_round_trip(p: OpenStreamUsing) -> (r: Option<OpenStreamUsing>)
    ensures
        r == Some(p),
{
    let label = p.label();
    let folded = lowercase(label.as_str());
    proof {
        reveal_strlit("Browser");
        reveal_strlit("browser");
        reveal_strlit("Mpv");
        reveal_strlit("mpv");
        reveal_strlit("Streamlink");
        reveal_strlit("streamlink");
        match p {
            OpenStreamUsing::Browser => {
                assert(all_ascii("Browser"@));
                assert(folded@ =~= "browser"@);
            },
            OpenStreamUsing::Mpv => {
                assert(all_ascii("Mpv"@));
                assert(folded@ =~= "mpv"@);
            },
            OpenStreamUsing::Streamlink => {
                assert(all_ascii("Streamlink"@));
                assert(folded@ =~= "streamlink"@);
            },
        }
    }
    OpenStreamUsing::parse(folded.as_str())
}

/// The single shared record of channels and settings. Mutated by the
/// status poller (volatile per-channel fields) and by the config
/// watcher (structural fields and the channel list); read by the
/// presentation layer through cloned snapshots.
#[derive(Debug)]
pub struct State {
    pub client: String,
    pub secret: String,
    pub player: OpenStreamUsing,
    /// Session-scoped player selection; never persisted and never
    /// touched by a configuration reload.
    pub session_player: Option<OpenStreamUsing>,
    pub config_file: String,
    /// Order is configuration order, significant for presentation.
    pub channels: Vec<Channel>,
    /// Channel names opting into title-change alerts.
    pub notify_title_changed: Vec<String>,
}

/// Mathematical model of a [`State`].
#[verifier::ext_equal]
pub struct StateModel {
    pub client: Seq<char>,
    pub secret: Seq<char>,
    pub player: OpenStreamUsing,
    pub session_player: Option<OpenStreamUsing>,
    pub config_file: Seq<char>,
    pub channels: Seq<ChannelModel>,
    pub notify_title_changed: Seq<Seq<char>>,
}

impl View for State {
    type V = StateModel;

    open spec fn view(&self) -> StateModel {
        StateModel {
            client: self.client@,
            secret: self.secret@,
            player: self.player,
            session_player: self.session_player,
            config_file: self.config_file@,
            channels: chs_model(self.channels@),
            notify_title_changed: strs_model(self.notify_title_changed@),
        }
    }
}

impl StateModel {
    /// Well-formedness: channel names are unique at any instant.
    pub open spec fn wf(self) -> bool {
        unique_names(self.channels)
    }
}

impl Clone for State {
    /// A consistent copy of the whole record: the snapshot operation.
    fn clone(&self) -> (res: Self)
        ensures
            res@ == self@,
    {
        let mut channels: Vec<Channel> = Vec::new();
        let mut i: usize = 0;
        while i < self.channels.len()
            invariant
                i <= self.channels.len(),
                channels@.len() == i,
                chs_model(channels@) =~= chs_model(self.channels@).take(i as int),
            decreases self.channels.len() - i,
        {
            channels.push(self.channels[i].clone());
            proof {
                assert(chs_model(channels@) =~= chs_model(self.channels@).take(i as int + 1));
            }
            i += 1;
        }
        let mut notify: Vec<String> = Vec::new();
        let mut j: usize = 0;
        while j < self.notify_title_changed.len()
            invariant
                j <= self.notify_title_changed.len(),
                notify@.len() == j,
                strs_model(notify@) =~= strs_model(self.notify_title_changed@).take(j as int),
            decreases self.notify_title_changed.len() - j,
        {
            notify.push(self.notify_title_changed[j].clone());
            proof {
                assert(strs_model(notify@) =~= strs_model(self.notify_title_changed@).take(
                    j as int + 1,
                ));
            }
            j += 1;
        }
        proof {
            assert(chs_model(channels@) =~= chs_model(self.channels@));
            assert(strs_model(notify@) =~= strs_model(self.notify_title_changed@));
        }
        State {
            client: self.client.clone(),
            secret: self.secret.clone(),
            player: self.player,
            session_player: self.session_player,
            config_file: self.config_file.clone(),
            channels,
            notify_title_changed: notify,
        }
    }
}

/// Structural equality between two states: credentials, selected
/// player, channel-name sequence (order-sensitive) and the
/// title-notification list are compared; volatile per-channel fields,
/// the session-only player override and the source path are excluded.
/// The notification list is compared as the ordered list it is
/// configured as, so a pure reordering of it counts as a change and
/// triggers a merge — a harmless one, since merging preserves all
/// live data.
pub open spec fn structurally_equal(a: StateModel, b: StateModel) -> bool {
    &&& a.client == b.client
    &&& a.secret == b.secret
    &&& a.player == b.player
    &&& channel_names(a.channels) == channel_names(b.channels)
    &&& a.notify_title_changed == b.notify_title_changed
}

/// Decides whether two states are structurally equal: a reload is
/// meaningful exactly when this returns false.
pub fn equal(a: &State, b: &State) -> (r: bool)
    ensures
        r == structurally_equal(a@, b@),
{
    if !(a.client == b.client) {
        return false;
    }
    if !(a.secret == b.secret) {
        return false;
    }
    if !(a.player == b.player) {
        return false;
    }
    if a.channels.len() != b.channels.len() {
        proof {
            assert(channel_names(a@.channels).len() != channel_names(b@.channels).len());
        }
        return false;
    }
    let mut i: usize = 0;
    while i < a.channels.len()
        invariant
            i <= a.channels.len(),
            a.channels.len() == b.channels.len(),
            forall|k: int|
                0 <= k < i ==> channel_names(a@.channels)[k] == channel_names(b@.channels)[k],
        decreases a.channels.len() - i,
    {
        if !(a.channels[i].name == b.channels[i].name) {
            proof {
                assert(channel_names(a@.channels)[i as int] != channel_names(b@.channels)[i as int]);
            }
            return false;
        }
        i += 1;
    }
    proof {
        assert(channel_names(a@.channels) =~= channel_names(b@.channels));
    }
    if a.notify_title_changed.len() != b.notify_title_changed.len() {
        proof {
            assert(a@.notify_title_changed.len() != b@.notify_title_changed.len());
        }
        return false;
    }
    let mut j: usize = 0;
    while j < a.notify_title_changed.len()
        invariant
            j <= a.notify_title_changed.len(),
            a.notify_title_changed.len() == b.notify_title_changed.len(),
            channel_names(a@.channels) == channel_names(b@.channels),
            forall|k: int|
                0 <= k < j ==> a@.notify_title_changed[k] == b@.notify_title_changed[k],
        decreases a.notify_title_changed.len() - j,
    {
        if !(a.notify_title_changed[j] == b.notify_title_changed[j]) {
            proof {
                assert(a@.notify_title_changed[j as int] != b@.notify_title_changed[j as int]);
            }
            return false;
        }
        j += 1;
    }
    proof {
        assert(a@.notify_title_changed =~= b@.notify_title_changed);
    }
    true
}

/// The first channel in `chs` carrying exactly this name, if any.
pub open spec fn find_by_name(chs: Seq<ChannelModel>, name: Seq<char>) -> Option<ChannelModel>
    decreases chs.len(),
{
    if chs.len() == 0 {
        None
    } else if chs[0].name == name {
        Some(chs[0])
    } else {
        find_by_name(chs.subrange(1, chs.len() as int), name)
    }
}

/// What `find_by_name` returns: a channel of the list with the asked
/// name when one is present, and nothing exactly when none carries it.
pub proof fn lemma_find_by_name_characterizes(chs: Seq<ChannelModel>, name: Seq<char>)
    ensures
        match find_by_name(chs, name) {
            Some(c) => c.name == name && chs.contains(c),
            None => forall|j: int| 0 <= j < chs.len() ==> chs[j].name != name,
        },
    decreases chs.len(),
{
    if chs.len() == 0 {
    } else if chs[0].name == name {
        assert(chs.contains(chs[0]));
    } else {
        let rest = chs.subrange(1, chs.len() as int);
        lemma_find_by_name_characterizes(rest, name);
        match find_by_name(chs, name) {
            Some(c) => {
                let i = choose|i: int| 0 <= i < rest.len() && rest[i] == c;
                assert(chs[i + 1] == c);
                assert(chs.contains(c));
            },
            None => {
                assert forall|j: int| 0 <= j < chs.len() implies chs[j].name != name by {
                    if j > 0 {
                        assert(rest[j - 1] == chs[j]);
                    }
                }
            },
        }
    }
}

/// Looks up a channel by exact name; returns the first hit.
fn find_channel<'a>(chs: &'a Vec<Channel>, name: &String) -> (r: Option<&'a Channel>)
    ensures
        match r {
            Some(c) => find_by_name(chs_model(chs@), name@) == Some(c@),
            None => find_by_name(chs_model(chs@), name@) is None,
        },
{
    let ghost m = chs_model(chs@);
    proof {
        assert(m.subrange(0, m.len() as int) =~= m);
    }
    let mut i: usize = 0;
    while i < chs.len()
        invariant
            i <= chs.len(),
            m == chs_model(chs@),
            m.len() == chs@.len(),
            find_by_name(m, name@) == find_by_name(m.subrange(i as int, m.len() as int), name@),
        decreases chs.len() - i,
    {
        let hit = chs[i].name == *name;
        proof {
            let suf = m.subrange(i as int, m.len() as int);
            assert(suf[0] == m[i as int]);
        }
        if hit {
            return Some(&chs[i]);
        }
        proof {
            let suf = m.subrange(i as int, m.len() as int);
            assert(suf.subrange(1, suf.len() as int) =~= m.subrange(
                i as int + 1,
                m.len() as int,
            ));
        }
        i += 1;
    }
    proof {
        assert(m.subrange(i as int, m.len() as int).len() == 0);
    }
    None
}

/// The result of merging one freshly configured channel against the
/// old channel list: a surviving name keeps the old entry wholesale, a
/// brand-new name starts with no volatile data.
pub open spec fn merged_channel(old_chs: Seq<ChannelModel>, c: ChannelModel) -> ChannelModel {
    match find_by_name(old_chs, c.name) {
        Some(o) => o,
        None => ChannelModel { name: c.name, is_online: false, title: None, viewers: None },
    }
}

/// The merged channel list: the new configuration's names in the new
/// order, each carrying the old volatile data where the name survives.
pub open spec fn merged_channels(
    old_chs: Seq<ChannelModel>,
    new_chs: Seq<ChannelModel>,
) -> Seq<ChannelModel> {
    new_chs.map_values(|c: ChannelModel| merged_channel(old_chs, c))
}

/// The state after a configuration reload: every structural field is
/// the candidate's, the session-only player override survives, and the
/// channel lists are merged.
pub open spec fn merged(old_state: StateModel, new_state: StateModel) -> StateModel {
    StateModel {
        client: new_state.client,
        secret: new_state.secret,
        player: new_state.player,
        session_player: old_state.session_player,
        config_file: new_state.config_file,
        channels: merged_channels(old_state.channels, new_state.channels),
        notify_title_changed: new_state.notify_title_changed,
    }
}

/// Merges a freshly loaded configuration into the live state without
/// discarding volatile per-channel data: structural fields are
/// replaced wholesale, the channel list becomes the candidate's, and
/// every channel whose name exactly matches an old channel keeps the
/// old entry's volatile fields. Deterministic and total.
pub fn migrate(state: &mut State, new_config: State)
    ensures
        final(state)@ == merged(old(state)@, new_config@),
{
    let State {
        client,
        secret,
        player,
        session_player: _,
        config_file,
        channels: new_channels,
        notify_title_changed,
    } = new_config;
    state.client = client;
    state.secret = secret;
    state.player = player;
    state.config_file = config_file;
    state.notify_title_changed = notify_title_changed;

    let ghost old_m = chs_model(state.channels@);
    let ghost new_m = chs_model(new_channels@);
    let mut merged_list: Vec<Channel> = Vec::new();
    let mut i: usize = 0;
    while i < new_channels.len()
        invariant
            i <= new_channels.len(),
            merged_list@.len() == i,
            old_m == chs_model(state.channels@),
            new_m == chs_model(new_channels@),
            new_m.len() == new_channels@.len(),
            chs_model(merged_list@) =~= merged_channels(old_m, new_m.take(i as int)),
        decreases new_channels.len() - i,
    {
        let ghost prev = merged_list@;
        match find_channel(&state.channels, &new_channels[i].name) {
            Some(o) => {
                proof {
                    assert(new_m[i as int] == new_channels@[i as int]@);
                    assert(merged_channel(old_m, new_m[i as int]) == o@);
                }
                merged_list.push(o.clone());
            },
            None => {
                proof {
                    assert(new_m[i as int] == new_channels@[i as int]@);
                }
                merged_list.push(Channel::from(new_channels[i].name.clone()));
            },
        }
        proof {
            assert(chs_model(merged_list@)[i as int] == merged_channel(old_m, new_m[i as int]));
            assert forall|k: int|
                0 <= k < i implies chs_model(merged_list@)[k] == merged_channels(
                old_m,
                new_m.take(i as int),
            )[k] by {
                assert(merged_list@[k] == prev[k]);
                assert(chs_model(prev)[k] == merged_channels(old_m, new_m.take(i as int))[k]);
            }
            assert(chs_model(merged_list@) =~= merged_channels(old_m, new_m.take(i as int + 1)));
        }
        i += 1;
    }
    state.channels = merged_list;
    proof {
        assert(new_m.take(new_m.len() as int) =~= new_m);
        assert(final(state)@ =~~= merged(old(state)@, new_config@));
    }
}

/// Law: a merge never loses volatile data. For a channel name present
/// in both the old and the new channel list, the merged entry is the
/// old entry: `is_online`, `title` and `viewer_count` survive.
pub proof fn lemma_merge_keeps_live_data(old_state: StateModel, new_state: StateModel, i: int, j: int)
    requires
        unique_names(old_state.channels),
        0 <= i < new_state.channels.len(),
        0 <= j < old_state.channels.len(),
        old_state.channels[j].name == new_state.channels[i].name,
    ensures
        merged(old_state, new_state).channels[i] == old_state.channels[j],
{
    let chs = old_state.channels;
    let name = new_state.channels[i].name;
    lemma_find_by_name_characterizes(chs, name);
    match find_by_name(chs, name) {
        Some(c) => {
            let k = choose|k: int| 0 <= k < chs.len() && chs[k] == c;
            if k != j {
                assert(chs[k].name == chs[j].name);
                assert(false);
            }
        },
        None => {
            assert(chs[j].name != name);
            assert(false);
        },
    }
}

/// Law: a merge never fabricates volatile data. A channel name new to
/// the configuration starts offline, with no title and no viewer
/// count.
pub proof fn lemma_merge_fresh_channel(old_state: StateModel, new_state: StateModel, i: int)
    requires
        0 <= i < new_state.channels.len(),
        forall|j: int|
            0 <= j < old_state.channels.len()
                ==> old_state.channels[j].name != new_state.channels[i].name,
    ensures
        merged(old_state, new_state).channels[i] == (ChannelModel {
            name: new_state.channels[i].name,
            is_online: false,
            title: None,
            viewers: None,
        }),
{
    let chs = old_state.channels;
    let name = new_state.channels[i].name;
    lemma_find_by_name_characterizes(chs, name);
    match find_by_name(chs, name) {
        Some(c) => {
            let k = choose|k: int| 0 <= k < chs.len() && chs[k] == c;
            assert(chs[k].name == name);
            assert(false);
        },
        None => {},
    }
}

/// Law: the merged list carries exactly the new configuration's names,
/// in the new order; a name only in the old state does not appear, and
/// name uniqueness survives the merge.
pub proof fn lemma_merge_names(old_state: StateModel, new_state: StateModel)
    ensures
        merged(old_state, new_state).channels.len() == new_state.channels.len(),
        forall|i: int|
            0 <= i < new_state.channels.len()
                ==> (#[trigger] merged(old_state, new_state).channels[i]).name
                == new_state.channels[i].name,
        forall|name: Seq<char>|
            has_name(merged(old_state, new_state).channels, name) ==> has_name(
                new_state.channels,
                name,
            ),
        unique_names(new_state.channels) ==> unique_names(merged(old_state, new_state).channels),
{
    let m = merged(old_state, new_state).channels;
    assert forall|i: int| 0 <= i < new_state.channels.len() implies (#[trigger] m[i]).name
        == new_state.channels[i].name by {
        lemma_find_by_name_characterizes(old_state.channels, new_state.channels[i].name);
    }
    assert forall|name: Seq<char>| has_name(m, name) implies has_name(
        new_state.channels,
        name,
    ) by {
        let i = choose|i: int| 0 <= i < m.len() && m[i].name == name;
        assert(new_state.channels[i].name == name);
    }
}

/// A name list with every repeated name dropped: the first occurrence
/// wins, later occurrences are ignored.
pub open spec fn keep_first(names: Seq<Seq<char>>) -> Seq<Seq<char>>
    decreases names.len(),
{
    if names.len() == 0 {
        Seq::empty()
    } else if names.drop_last().contains(names.last()) {
        keep_first(names.drop_last())
    } else {
        keep_first(names.drop_last()).push(names.last())
    }
}

/// Dropping repeated names changes no membership.
pub proof fn lemma_keep_first_member(names: Seq<Seq<char>>, n: Seq<char>)
    ensures
        keep_first(names).contains(n) <==> names.contains(n),
    decreases names.len(),
{
    if names.len() == 0 {
    } else {
        let prefix = names.drop_last();
        lemma_keep_first_member(prefix, n);
        if names.contains(n) {
            let i = choose|i: int| 0 <= i < names.len() && names[i] == n;
            if i < prefix.len() {
                assert(prefix[i] == n);
                assert(prefix.contains(n));
            } else {
                assert(names.last() == n);
            }
            if prefix.contains(names.last()) {
                if i >= prefix.len() {
                    assert(prefix.contains(n));
                }
                assert(keep_first(prefix).contains(n));
            } else {
                if prefix.contains(n) {
                    let j = choose|j: int|
                        0 <= j < keep_first(prefix).len() && keep_first(prefix)[j] == n;
                    assert(keep_first(names)[j] == n);
                } else {
                    assert(keep_first(names).last() == n);
                    assert(keep_first(names)[keep_first(names).len() - 1] == n);
                }
                assert(keep_first(names).contains(n));
            }
        }
        if keep_first(names).contains(n) {
            if prefix.contains(names.last()) {
                assert(keep_first(prefix).contains(n));
                assert(prefix.contains(n));
                let i = choose|i: int| 0 <= i < prefix.len() && prefix[i] == n;
                assert(names[i] == n);
                assert(names.contains(n));
            } else {
                let j = choose|j: int|
                    0 <= j < keep_first(names).len() && keep_first(names)[j] == n;
                if j < keep_first(prefix).len() {
                    assert(keep_first(prefix)[j] == n);
                    assert(keep_first(prefix).contains(n));
                    assert(prefix.contains(n));
                    let i = choose|i: int| 0 <= i < prefix.len() && prefix[i] == n;
                    assert(names[i] == n);
                } else {
                    assert(keep_first(names)[j] == names.last());
                    assert(names[names.len() - 1] == n);
                }
                assert(names.contains(n));
            }
        }
    }
}

/// After dropping repeated names, no name occurs twice.
pub proof fn lemma_keep_first_unique(names: Seq<Seq<char>>)
    ensures
        keep_first(names).no_duplicates(),
    decreases names.len(),
{
    if names.len() == 0 {
    } else {
        let prefix = names.drop_last();
        lemma_keep_first_unique(prefix);
        if prefix.contains(names.last()) {
        } else {
            let kf = keep_first(names);
            assert forall|i: int, j: int| 0 <= i < j < kf.len() implies kf[i] != kf[j] by {
                if j < kf.len() - 1 {
                    assert(keep_first(prefix)[i] == kf[i]);
                    assert(keep_first(prefix)[j] == kf[j]);
                } else {
                    assert(kf[j] == names.last());
                    assert(keep_first(prefix)[i] == kf[i]);
                    assert(keep_first(prefix).contains(kf[i]));
                    lemma_keep_first_member(prefix, kf[i]);
                    if kf[i] == names.last() {
                        assert(prefix.contains(names.last()));
                        assert(false);
                    }
                }
            }
        }
    }
}

/// Fresh channels for a list of configured names: each starts with no
/// volatile data.
pub open spec fn fresh_channels(names: Seq<Seq<char>>) -> Seq<ChannelModel> {
    names.map_values(
        |n: Seq<char>| ChannelModel { name: n, is_online: false, title: None, viewers: None },
    )
}

/// Builds the tracked channel list from configured names: every
/// channel starts with no volatile data, and a name that occurs twice
/// is kept at its first occurrence only.
pub fn channels_from_names(names: &Vec<String>) -> (chs: Vec<Channel>)
    ensures
        chs_model(chs@) == fresh_channels(keep_first(strs_model(names@))),
        channel_names(chs_model(chs@)) == keep_first(strs_model(names@)),
        forall|k: int|
            0 <= k < chs@.len() ==> {
                &&& (#[trigger] chs_model(chs@)[k]).is_online == false
                &&& chs_model(chs@)[k].title is None
                &&& chs_model(chs@)[k].viewers is None
            },
        unique_names(chs_model(chs@)),
{
    let ghost all = strs_model(names@);
    let mut chs: Vec<Channel> = Vec::new();
    let mut i: usize = 0;
    while i < names.len()
        invariant
            i <= names.len(),
            all == strs_model(names@),
            all.len() == names@.len(),
            channel_names(chs_model(chs@)) =~= keep_first(all.take(i as int)),
            forall|k: int|
                0 <= k < chs@.len() ==> {
                    &&& (#[trigger] chs_model(chs@)[k]).is_online == false
                    &&& chs_model(chs@)[k].title is None
                    &&& chs_model(chs@)[k].viewers is None
                },
        decreases names.len() - i,
    {
        let ghost taken = all.take(i as int);
        proof {
            assert(all.take(i as int + 1).drop_last() =~= taken);
            assert(all.take(i as int + 1).last() == all[i as int]);
            lemma_keep_first_member(taken, all[i as int]);
            lemma_find_by_name_characterizes(chs_model(chs@), names@[i as int]@);
        }
        let present = match find_channel(&chs, &names[i]) {
            Some(_) => true,
            None => false,
        };
        proof {
            if present {
                let c = find_by_name(chs_model(chs@), names@[i as int]@).unwrap();
                let k = choose|k: int|
                    0 <= k < chs_model(chs@).len() && chs_model(chs@)[k] == c;
                assert(channel_names(chs_model(chs@))[k] == all[i as int]);
                assert(channel_names(chs_model(chs@)).contains(all[i as int]));
                assert(taken.contains(all[i as int]));
            } else {
                if taken.contains(all[i as int]) {
                    assert(keep_first(taken).contains(all[i as int]));
                    let k = choose|k: int|
                        0 <= k < keep_first(taken).len() && keep_first(taken)[k] == all[i as int];
                    assert(channel_names(chs_model(chs@))[k] == all[i as int]);
                    assert(chs_model(chs@)[k].name == all[i as int]);
                    assert(false);
                }
            }
        }
        if !present {
            let ghost prev_chs = chs@;
            chs.push(Channel::from(names[i].clone()));
            proof {
                assert forall|k: int|
                    0 <= k < chs@.len() implies {
                    &&& (#[trigger] chs_model(chs@)[k]).is_online == false
                    &&& chs_model(chs@)[k].title is None
                    &&& chs_model(chs@)[k].viewers is None
                } by {
                    if k < prev_chs.len() {
                        assert(chs@[k] == prev_chs[k]);
                        assert(chs_model(prev_chs)[k] == chs_model(chs@)[k]);
                    }
                }
                assert(channel_names(chs_model(chs@)) =~= keep_first(all.take(i as int + 1)));
            }
        } else {
            proof {
                assert(channel_names(chs_model(chs@)) =~= keep_first(all.take(i as int + 1)));
            }
        }
        i += 1;
    }
    proof {
        assert(all.take(all.len() as int) =~= all);
        lemma_keep_first_unique(all);
        let m = chs_model(chs@);
        assert forall|a: int, b: int| 0 <= a < b < m.len() implies m[a].name != m[b].name by {
            assert(channel_names(m)[a] == m[a].name);
            assert(channel_names(m)[b] == m[b].name);
        }
        assert forall|k: int| 0 <= k < m.len() implies m[k] == fresh_channels(keep_first(all))[k] by {
            assert(channel_names(m)[k] == m[k].name);
        }
        assert(m =~= fresh_channels(keep_first(all)));
    }
    chs
}

/// Field-by-field command-line overrides: a present field wins over
/// the loaded configuration document wholesale; channel and
/// notification lists are replaced, not merged.
pub struct Overrides {
    pub client: Option<String>,
    pub secret: Option<String>,
    pub player: Option<OpenStreamUsing>,
    pub config_file: Option<String>,
    pub channels: Option<Vec<String>>,
    pub notify_title_changed: Option<Vec<String>>,
}

/// Applies command-line overrides to a loaded configuration: each
/// present override field replaces the document's value wholesale; the
/// session player always starts unset.
pub fn apply_overrides(config: State, args: Overrides) -> (r: State)
    ensures
        r@.client == (match args.client {
            Some(c) => c@,
            None => config@.client,
        }),
        r@.secret == (match args.secret {
            Some(s) => s@,
            None => config@.secret,
        }),
        r@.player == (match args.player {
            Some(p) => p,
            None => config@.player,
        }),
        r@.session_player is None,
        r@.config_file == (match args.config_file {
            Some(f) => f@,
            None => config@.config_file,
        }),
        (match args.channels {
            Some(ns) => {
                &&& channel_names(r@.channels) == keep_first(strs_model(ns@))
                &&& unique_names(r@.channels)
                &&& forall|k: int|
                    0 <= k < r@.channels.len() ==> {
                        &&& (#[trigger] r@.channels[k]).is_online == false
                        &&& r@.channels[k].title is None
                        &&& r@.channels[k].viewers is None
                    }
            },
            None => r@.channels == config@.channels,
        }),
        r@.notify_title_changed == (match args.notify_title_changed {
            Some(ns) => strs_model(ns@),
            None => config@.notify_title_changed,
        }),
{
    let Overrides { client, secret, player, config_file, channels, notify_title_changed } = args;
    let State {
        client: base_client,
        secret: base_secret,
        player: base_player,
        session_player: _,
        config_file: base_config_file,
        channels: base_channels,
        notify_title_changed: base_notify,
    } = config;
    let new_channels: Vec<Channel> = match channels {
        Some(ns) => channels_from_names(&ns),
        None => base_channels,
    };
    State {
        client: match client {
            Some(c) => c,
            None => base_client,
        },
        secret: match secret {
            Some(s) => s,
            None => base_secret,
        },
        player: match player {
            Some(p) => p,
            None => base_player,
        },
        session_player: None,
        config_file: match config_file {
            Some(f) => f,
            None => base_config_file,
        },
        channels: new_channels,
        notify_title_changed: match notify_title_changed {
            Some(ns) => ns,
            None => base_notify,
        },
    }
}

/// Why a configuration document was rejected. On the first load this
/// is fatal; on a periodic re-check the cycle is skipped and the
/// existing state stands.
#[derive(Clone, Copy, Debug, PartialEq, Eq, Structural)]
pub enum ConfigError {
    /// The document is not valid JSON, or not a JSON object.
    NotAnObject,
    /// The `client` field is missing or not a string.
    MissingClient,
    /// The `secret` field is missing or not a string.
    MissingSecret,
    /// The `player` field is missing or not a string.
    MissingPlayer,
    /// The `player` field names no known player.
    UnknownPlayer,
    /// The `channels` field is missing or not an array.
    MissingChannels,
    /// A `channels` element is not a string.
    BadChannelName,
    /// The `notify_title_changed` field is present but not an array of
    /// strings.
    BadNotifyList,
}

impl ConfigError {
    /// A description of the rejection for logs and reports.
    pub fn message(&self) -> (r: String)
        ensures
            *self == ConfigError::NotAnObject ==> r@ == "config is not a JSON object"@,
            *self == ConfigError::MissingClient ==> r@ == "config lacks a client string"@,
            *self == ConfigError::MissingSecret ==> r@ == "config lacks a secret string"@,
            *self == ConfigError::MissingPlayer ==> r@ == "config lacks a player string"@,
            *self == ConfigError::UnknownPlayer ==> r@ == "config names an unknown player"@,
            *self == ConfigError::MissingChannels ==> r@ == "config lacks a channels array"@,
            *self == ConfigError::BadChannelName ==> r@ == "config channel name is not a string"@,
            *self == ConfigError::BadNotifyList ==> r@
                == "config notify_title_changed is not an array of strings"@,
    {
        match *self {
            ConfigError::NotAnObject => "config is not a JSON object".to_owned(),
            ConfigError::MissingClient => "config lacks a client string".to_owned(),
            ConfigError::MissingSecret => "config lacks a secret string".to_owned(),
            ConfigError::MissingPlayer => "config lacks a player string".to_owned(),
            ConfigError::UnknownPlayer => "config names an unknown player".to_owned(),
            ConfigError::MissingChannels => "config lacks a channels array".to_owned(),
            ConfigError::BadChannelName => "config channel name is not a string".to_owned(),
            ConfigError::BadNotifyList => "config notify_title_changed is not an array of strings"
                .to_owned(),
        }
    }
}

/// Every element of an expected string array is in fact a string.
pub open spec fn all_strings(elems: Seq<Option<Seq<char>>>) -> bool {
    forall|i: int| 0 <= i < elems.len() ==> elems[i] is Some
}

/// The strings of such an array, once all elements are known to be
/// strings.
pub open spec fn string_items(elems: Seq<Option<Seq<char>>>) -> Seq<Seq<char>> {
    elems.map_values(
        |e: Option<Seq<char>>|
            match e {
                Some(s) => s,
                None => Seq::empty(),
            },
    )
}

/// The state that accepted configuration fields denote: a fresh,
/// deduplicated channel list, the notification list as configured
/// (empty when the field is absent), the session player unset, and
/// the source path recorded.
pub open spec fn config_state(
    client: Seq<char>,
    secret: Seq<char>,
    player: OpenStreamUsing,
    channel_elems: Seq<Option<Seq<char>>>,
    notify_elems: Seq<Option<Seq<char>>>,
    source_path: Seq<char>,
) -> StateModel {
    StateModel {
        client,
        secret,
        player,
        session_player: None,
        config_file: source_path,
        channels: fresh_channels(keep_first(string_items(channel_elems))),
        notify_title_changed: string_items(notify_elems),
    }
}

/// The state a configuration document denotes, or why it is rejected:
/// the body must be a JSON object with `client` and `secret` strings,
/// a `player` naming a known player, and a `channels` array of
/// strings; `notify_title_changed` may be absent (empty) but must be
/// an array of strings when present.
pub open spec fn state_of_config(f: ConfigFieldsModel, source_path: Seq<char>) -> Result<
    StateModel,
    ConfigError,
> {
    if !f.is_object {
        Err(ConfigError::NotAnObject)
    } else {
        match f.client {
            None => Err(ConfigError::MissingClient),
            Some(client) => match f.secret {
                None => Err(ConfigError::MissingSecret),
                Some(secret) => match f.player {
                    None => Err(ConfigError::MissingPlayer),
                    Some(player_str) => match player_from_chars(player_str) {
                        None => Err(ConfigError::UnknownPlayer),
                        Some(player) => match f.channels {
                            JsonStringsModel::Absent => Err(ConfigError::MissingChannels),
                            JsonStringsModel::NotArray => Err(ConfigError::MissingChannels),
                            JsonStringsModel::Items(elems) => if !all_strings(elems) {
                                Err(ConfigError::BadChannelName)
                            } else {
                                match f.notify_title_changed {
                                    JsonStringsModel::NotArray => Err(ConfigError::BadNotifyList),
                                    JsonStringsModel::Items(nelems) => if !all_strings(nelems) {
                                        Err(ConfigError::BadNotifyList)
                                    } else {
                                        Ok(
                                            config_state(
                                                client,
                                                secret,
                                                player,
                                                elems,
                                                nelems,
                                                source_path,
                                            ),
                                        )
                                    },
                                    JsonStringsModel::Absent => Ok(
                                        config_state(
                                            client,
                                            secret,
                                            player,
                                            elems,
                                            Seq::empty(),
                                            source_path,
                                        ),
                                    ),
                                }
                            },
                        },
                    },
                },
            },
        }
    }
}

/// Unwraps an expected string array; nothing when some element was not
/// a string.
fn unwrap_strings(elems: Vec<Option<String>>) -> (r: Option<Vec<String>>)
    ensures
        (match r {
            Some(ss) => all_strings(opt_strs_model(elems@)) && strs_model(ss@) == string_items(
                opt_strs_model(elems@),
            ),
            None => !all_strings(opt_strs_model(elems@)),
        }),
{
    let ghost m = opt_strs_model(elems@);
    let mut out: Vec<String> = Vec::new();
    let mut i: usize = 0;
    while i < elems.len()
        invariant
            i <= elems.len(),
            m == opt_strs_model(elems@),
            m.len() == elems@.len(),
            out@.len() == i,
            forall|k: int| 0 <= k < i ==> m[k] is Some,
            strs_model(out@) =~= string_items(m.take(i as int)),
        decreases elems.len() - i,
    {
        match &elems[i] {
            Some(s) => {
                let ghost prev = out@;
                out.push(s.clone());
                proof {
                    assert(m.take(i as int + 1)[i as int] == m[i as int]);
                    assert(m[i as int] == Some(s@));
                    assert(string_items(m.take(i as int + 1))[i as int] == s@);
                    assert(strs_model(out@)[i as int] == s@);
                    assert forall|k: int| 0 <= k < prev.len() implies strs_model(out@)[k]
                        == string_items(m.take(i as int + 1))[k] by {
                        assert(out@[k] == prev[k]);
                        assert(strs_model(prev)[k] == string_items(m.take(i as int))[k]);
                        assert(m.take(i as int)[k] == m[k]);
                        assert(m.take(i as int + 1)[k] == m[k]);
                    }
                    assert(strs_model(out@) =~= string_items(m.take(i as int + 1)));
                }
            },
            None => {
                proof {
                    assert(m[i as int] is None);
                }
                return None;
            },
        }
        i += 1;
    }
    proof {
        assert(m.take(m.len() as int) =~= m);
    }
    Some(out)
}

/// Reads a configuration document: a JSON object with `client` and
/// `secret` strings, a `player` naming one of the known players, a
/// `channels` array of name strings (a repeated name is kept at its
/// first occurrence only), and an optional `notify_title_changed`
/// array of name strings. A well-formed state comes back: channel
/// names unique, every channel starting with no volatile data, the
/// session player unset, and the source path recorded.
pub fn parse_state_body(body: &str, source_path: &str) -> (r: Result<State, ConfigError>)
    ensures
        (match r {
            Ok(s) => state_of_config(config_fields_of(body@), source_path@) == Ok::<
                StateModel,
                ConfigError,
            >(s@) && s@.wf(),
            Err(e) => state_of_config(config_fields_of(body@), source_path@) == Err::<
                StateModel,
                ConfigError,
            >(e),
        }),
{
    let f = config_fields(body);
    if !f.is_object {
        return Err(ConfigError::NotAnObject);
    }
    let client = match f.client {
        Some(c) => c,
        None => {
            return Err(ConfigError::MissingClient);
        },
    };
    let secret = match f.secret {
        Some(s) => s,
        None => {
            return Err(ConfigError::MissingSecret);
        },
    };
    let player_str = match f.player {
        Some(p) => p,
        None => {
            return Err(ConfigError::MissingPlayer);
        },
    };
    let player = match OpenStreamUsing::parse(player_str.as_str()) {
        Some(p) => p,
        None => {
            return Err(ConfigError::UnknownPlayer);
        },
    };
    let names = match f.channels {
        JsonStrings::Items(elems) => match unwrap_strings(elems) {
            Some(ns) => ns,
            None => {
                return Err(ConfigError::BadChannelName);
            },
        },
        JsonStrings::Absent => {
            return Err(ConfigError::MissingChannels);
        },
        JsonStrings::NotArray => {
            return Err(ConfigError::MissingChannels);
        },
    };
    let channels = channels_from_names(&names);
    let notify = match f.notify_title_changed {
        JsonStrings::Items(elems) => match unwrap_strings(elems) {
            Some(ns) => ns,
            None => {
                return Err(ConfigError::BadNotifyList);
            },
        },
        JsonStrings::NotArray => {
            return Err(ConfigError::BadNotifyList);
        },
        JsonStrings::Absent => Vec::new(),
    };
    let result = State {
        client,
        secret,
        player,
        session_player: None,
        config_file: source_path.to_owned(),
        channels,
        notify_title_changed: notify,
    };
    proof {
        assert(string_items(Seq::<Option<Seq<char>>>::empty()) =~= Seq::<Seq<char>>::empty());
        assert(strs_model(Seq::<String>::empty()) =~= Seq::<Seq<char>>::empty());
        match state_of_config(config_fields_of(body@), source_path@) {
            Ok(m) => {
                assert(result@ =~~= m);
            },
            Err(_) => {
                assert(false);
            },
        }
    }
    Ok(result)
}

} // verus!
