//! The status poller's engine: reconciling a status-API payload into
//! the tracked channel list, the bounded retry policy, and the
//! interruptible idle wait.

use vstd::prelude::*;
use vstd::string::StringExecFns;

use crate::config::{
    channel_names, chs_model, equal, merged, migrate, strs_model, structurally_equal,
    unique_names, Channel, ChannelModel, State, StateModel,
};
use crate::json::{
    auth_fields, auth_fields_of, status_body, status_body_of, AuthFieldsModel, StatusBodyModel,
};
use crate::text::{lower_of, lowercase, trim, trim_of};

verus! {

/// Fixed poll interval, in seconds: the idle wait's fallback trigger.
pub const UPDATE_CHANNELS_TIME: u64 = 60;

/// Fixed interval, in seconds, between configuration re-reads.
pub const READ_CONFIG_FILE_TIME: u64 = 3;

/// How many times a failed status query is retried within one cycle.
pub const MAX_RETRIES: u32 = 3;

/// Fixed delay, in seconds, between retries of a failed status query.
pub const RETRY_DELAY_TIME: u64 = 1;

/// How often, in milliseconds, the idle wait checks for a wake signal.
pub const IDLE_CHECK_TIME: u64 = 500;

/// One raw entry of the status response's `data` array; any field may
/// be missing from the response.
#[derive(Debug)]
pub struct StreamEntry {
    pub user_login: Option<String>,
    pub title: Option<String>,
    pub viewer_count: Option<u64>,
}

/// Mathematical model of a [`StreamEntry`].
#[verifier::ext_equal]
pub struct StreamEntryModel {
    pub user_login: Option<Seq<char>>,
    pub title: Option<Seq<char>>,
    pub viewer_count: Option<u64>,
}

impl View for StreamEntry {
    type V = StreamEntryModel;

    open spec fn view(&self) -> StreamEntryModel {
        StreamEntryModel {
            user_login: match self.user_login {
                Some(n) => Some(n@),
                None => None,
            },
            title: match self.title {
                Some(t) => Some(t@),
                None => None,
            },
            viewer_count: self.viewer_count,
        }
    }
}

/// A normalized live entry: a stream that the response reports as
/// live, with its title cleaned up and its viewer count present.
#[derive(Debug, PartialEq, Eq)]
pub struct LiveEntry {
    pub name: String,
    pub title: String,
    pub viewers: u64,
}

/// Mathematical model of a [`LiveEntry`].
#[verifier::ext_equal]
pub struct LiveEntryModel {
    pub name: Seq<char>,
    pub title: Seq<char>,
    pub viewers: u64,
}

impl View for LiveEntry {
    type V = LiveEntryModel;

    open spec fn view(&self) -> LiveEntryModel {
        LiveEntryModel { name: self.name@, title: self.title@, viewers: self.viewers }
    }
}

/// The model of a raw entry list.
pub open spec fn entries_model(es: Seq<StreamEntry>) -> Seq<StreamEntryModel> {
    es.map_values(|e: StreamEntry| e@)
}

/// The model of a normalized entry list.
pub open spec fn live_model(es: Seq<LiveEntry>) -> Seq<LiveEntryModel> {
    es.map_values(|e: LiveEntry| e@)
}

/// The normalized form of one raw entry: dropped when the login or the
/// viewer count is missing; the title is trimmed, and an empty or
/// missing title is replaced by the standard placeholder.
pub open spec fn normalize_entry(e: StreamEntryModel) -> Option<LiveEntryModel> {
    match e.user_login {
        Some(name) => match e.viewer_count {
            Some(v) => Some(
                LiveEntryModel {
                    name,
                    title: match e.title {
                        Some(t) => if trim_of(t).len() == 0 {
                            "Unknown title"@
                        } else {
                            trim_of(t)
                        },
                        None => "Unknown title"@,
                    },
                    viewers: v,
                },
            ),
            None => None,
        },
        None => None,
    }
}

/// The normalized form of a raw entry list, in response order.
pub open spec fn normalized(es: Seq<StreamEntryModel>) -> Seq<LiveEntryModel>
    decreases es.len(),
{
    if es.len() == 0 {
        Seq::empty()
    } else {
        let rest = normalized(es.drop_last());
        match normalize_entry(es.last()) {
            Some(e) => rest.push(e),
            None => rest,
        }
    }
}

/// Normalizes a raw status payload: entries without a login or a
/// viewer count are dropped, titles are trimmed, and an empty or
/// missing title becomes the standard placeholder.
pub fn normalize_entries(entries: &Vec<StreamEntry>) -> (r: Vec<LiveEntry>)
    ensures
        live_model(r@) == normalized(entries_model(entries@)),
{
    let ghost raw = entries_model(entries@);
    let mut out: Vec<LiveEntry> = Vec::new();
    let mut i: usize = 0;
    while i < entries.len()
        invariant
            i <= entries.len(),
            raw == entries_model(entries@),
            raw.len() == entries@.len(),
            live_model(out@) =~= normalized(raw.take(i as int)),
        decreases entries.len() - i,
    {
        proof {
            assert(raw.take(i as int + 1).drop_last() =~= raw.take(i as int));
            assert(raw.take(i as int + 1).last() == raw[i as int]);
            assert(raw[i as int] == entries@[i as int]@);
        }
        let ghost prev = out@;
        match &entries[i].user_login {
            Some(name) => match entries[i].viewer_count {
                Some(v) => {
                    let title = match &entries[i].title {
                        Some(t) => {
                            let trimmed = trim(t.as_str());
                            if trimmed.as_str().is_empty() {
                                "Unknown title".to_owned()
                            } else {
                                trimmed
                            }
                        },
                        None => "Unknown title".to_owned(),
                    };
                    out.push(LiveEntry { name: name.clone(), title, viewers: v });
                    proof {
                        assert(out@[out@.len() - 1]@ == normalize_entry(raw[i as int]).unwrap());
                        assert forall|k: int| 0 <= k < prev.len() implies live_model(out@)[k]
                            == live_model(prev)[k] by {
                            assert(out@[k] == prev[k]);
                        }
                    }
                },
                None => {},
            },
            None => {},
        }
        proof {
            assert(live_model(out@) =~= normalized(raw.take(i as int + 1)));
        }
        i += 1;
    }
    proof {
        assert(raw.take(raw.len() as int) =~= raw);
    }
    out
}

/// Case-insensitive reconciliation match between a response entry and
/// a tracked channel name.
pub open spec fn entry_matches(e: LiveEntryModel, name: Seq<char>) -> bool {
    lower_of(e.name) == lower_of(name)
}

/// The first response entry matching this channel name
/// case-insensitively, if any.
pub open spec fn find_entry(
    entries: Seq<LiveEntryModel>,
    name: Seq<char>,
) -> Option<LiveEntryModel>
    decreases entries.len(),
{
    if entries.len() == 0 {
        None
    } else if entry_matches(entries[0], name) {
        Some(entries[0])
    } else {
        find_entry(entries.subrange(1, entries.len() as int), name)
    }
}

/// A channel after one reconciliation: a matched channel goes online
/// and takes the entry's title and viewer count; an unmatched channel
/// goes offline and keeps its last observed title and viewer count.
pub open spec fn reconciled_channel(c: ChannelModel, entries: Seq<LiveEntryModel>) -> ChannelModel {
    match find_entry(entries, c.name) {
        Some(e) => ChannelModel {
            name: c.name,
            is_online: true,
            title: Some(e.title),
            viewers: Some(e.viewers),
        },
        None => ChannelModel {
            name: c.name,
            is_online: false,
            title: c.title,
            viewers: c.viewers,
        },
    }
}

/// The channel list after one reconciliation, in list order.
pub open spec fn reconciled_channels(
    chs: Seq<ChannelModel>,
    entries: Seq<LiveEntryModel>,
) -> Seq<ChannelModel> {
    chs.map_values(|c: ChannelModel| reconciled_channel(c, entries))
}

/// What one reconciliation reports to the presentation layer.
#[derive(Debug, PartialEq, Eq)]
pub enum StreamEvent {
    /// Some reconciliation or merge completed; shown state may be stale.
    StateChanged,
    /// The named channel went from offline to online.
    WentLive(String),
    /// The named channel changed its title while online, and opted into
    /// title-change alerts.
    TitleChanged(String),
}

/// Mathematical model of a [`StreamEvent`].
#[verifier::ext_equal]
pub enum StreamEventModel {
    StateChanged,
    WentLive(Seq<char>),
    TitleChanged(Seq<char>),
}

impl View for StreamEvent {
    type V = StreamEventModel;

    open spec fn view(&self) -> StreamEventModel {
        match self {
            StreamEvent::StateChanged => StreamEventModel::StateChanged,
            StreamEvent::WentLive(n) => StreamEventModel::WentLive(n@),
            StreamEvent::TitleChanged(n) => StreamEventModel::TitleChanged(n@),
        }
    }
}

/// The model of an event list.
pub open spec fn events_model(es: Seq<StreamEvent>) -> Seq<StreamEventModel> {
    es.map_values(|e: StreamEvent| e@)
}

/// The notification-worthy events that one channel contributes to a
/// reconciliation: a title change while online (for channels opted
/// into title alerts), or an offline-to-online transition.
pub open spec fn channel_events(
    c: ChannelModel,
    entries: Seq<LiveEntryModel>,
    notify: Seq<Seq<char>>,
) -> Seq<StreamEventModel> {
    match find_entry(entries, c.name) {
        Some(e) => if c.is_online {
            if c.title != Some(e.title) && notify.contains(c.name) {
                seq![StreamEventModel::TitleChanged(c.name)]
            } else {
                Seq::empty()
            }
        } else {
            seq![StreamEventModel::WentLive(c.name)]
        },
        None => Seq::empty(),
    }
}

/// The notification-worthy events of one reconciliation, in channel
/// order.
pub open spec fn reconcile_events(
    chs: Seq<ChannelModel>,
    entries: Seq<LiveEntryModel>,
    notify: Seq<Seq<char>>,
) -> Seq<StreamEventModel>
    decreases chs.len(),
{
    if chs.len() == 0 {
        Seq::empty()
    } else {
        reconcile_events(chs.drop_last(), entries, notify) + channel_events(
            chs.last(),
            entries,
            notify,
        )
    }
}

/// Looks up the first response entry matching this channel name
/// case-insensitively.
fn find_live_entry<'a>(entries: &'a Vec<LiveEntry>, name: &String) -> (r: Option<&'a LiveEntry>)
    ensures
        match r {
            Some(e) => find_entry(live_model(entries@), name@) == Some(e@),
            None => find_entry(live_model(entries@), name@) is None,
        },
{
    let ghost m = live_model(entries@);
    proof {
        assert(m.subrange(0, m.len() as int) =~= m);
    }
    let lower_name = lowercase(name.as_str());
    let mut i: usize = 0;
    while i < entries.len()
        invariant
            i <= entries.len(),
            m == live_model(entries@),
            m.len() == entries@.len(),
            lower_name@ == lower_of(name@),
            find_entry(m, name@) == find_entry(m.subrange(i as int, m.len() as int), name@),
        decreases entries.len() - i,
    {
        let hit = lowercase(entries[i].name.as_str()) == lower_name;
        proof {
            let suf = m.subrange(i as int, m.len() as int);
            assert(suf[0] == m[i as int]);
        }
        if hit {
            return Some(&entries[i]);
        }
        proof {
            let suf = m.subrange(i as int, m.len() as int);
            assert(suf.subrange(1, suf.len() as int) =~= m.subrange(
                i as int + 1,
                m.len() as int,
            ));
        }
        i += 1;
    }
    proof {
        assert(m.subrange(i as int, m.len() as int).len() == 0);
    }
    None
}

/// Decides whether a tracked title differs from a freshly reported one.
fn title_differs(title: &Option<String>, new_title: &String) -> (r: bool)
    ensures
        r == (match title {
            Some(t) => t@ != new_title@,
            None => true,
        }),
{
    match title {
        Some(t) => !(*t == *new_title),
        None => true,
    }
}

/// Decides whether a string list contains exactly this string.
fn contains_string(list: &Vec<String>, s: &String) -> (r: bool)
    ensures
        r == strs_model(list@).contains(s@),
{
    let mut i: usize = 0;
    while i < list.len()
        invariant
            i <= list.len(),
            forall|k: int| 0 <= k < i ==> strs_model(list@)[k] != s@,
        decreases list.len() - i,
    {
        if list[i] == *s {
            proof {
                assert(strs_model(list@)[i as int] == s@);
            }
            return true;
        }
        i += 1;
    }
    proof {
        if strs_model(list@).contains(s@) {
            let k = choose|k: int| 0 <= k < strs_model(list@).len() && strs_model(list@)[k] == s@;
            assert(false);
        }
    }
    false
}

/// Reconciles one successful status payload into the tracked channel
/// list: every channel is matched case-insensitively against the
/// response; matched channels go online with the reported title and
/// viewer count, unmatched channels go offline keeping their last
/// observed values. Returns the notification-worthy events, ending
/// with the unconditional state-change notification.
pub fn reconcile(state: &mut State, entries: &Vec<LiveEntry>) -> (events: Vec<StreamEvent>)
    ensures
        final(state)@ == (StateModel {
            channels: reconciled_channels(old(state)@.channels, live_model(entries@)),
            ..old(state)@
        }),
        events_model(events@) == reconcile_events(
            old(state)@.channels,
            live_model(entries@),
            old(state)@.notify_title_changed,
        ).push(StreamEventModel::StateChanged),
{
    let ghost old_chs = chs_model(state.channels@);
    let ghost ent = live_model(entries@);
    let ghost notify = strs_model(state.notify_title_changed@);
    let mut new_list: Vec<Channel> = Vec::new();
    let mut events: Vec<StreamEvent> = Vec::new();
    let mut i: usize = 0;
    while i < state.channels.len()
        invariant
            i <= state.channels.len(),
            new_list@.len() == i,
            old_chs == chs_model(state.channels@),
            ent == live_model(entries@),
            notify == strs_model(state.notify_title_changed@),
            old_chs.len() == state.channels@.len(),
            chs_model(new_list@) =~= reconciled_channels(old_chs.take(i as int), ent),
            events_model(events@) =~= reconcile_events(old_chs.take(i as int), ent, notify),
        decreases state.channels.len() - i,
    {
        proof {
            assert(old_chs.take(i as int + 1).drop_last() =~= old_chs.take(i as int));
            assert(old_chs.take(i as int + 1).last() == old_chs[i as int]);
            assert(old_chs[i as int] == state.channels@[i as int]@);
        }
        let ghost prev_list = new_list@;
        let ghost prev_events = events@;
        let c = &state.channels[i];
        match find_live_entry(entries, &c.name) {
            Some(e) => {
                if c.is_online {
                    if title_differs(&c.title, &e.title) && contains_string(
                        &state.notify_title_changed,
                        &c.name,
                    ) {
                        events.push(StreamEvent::TitleChanged(c.name.clone()));
                    }
                } else {
                    events.push(StreamEvent::WentLive(c.name.clone()));
                }
                new_list.push(
                    Channel {
                        name: c.name.clone(),
                        is_online: true,
                        title: Some(e.title.clone()),
                        viewers: Some(e.viewers),
                    },
                );
            },
            None => {
                new_list.push(
                    Channel {
                        name: c.name.clone(),
                        is_online: false,
                        title: match &c.title {
                            Some(t) => Some(t.clone()),
                            None => None,
                        },
                        viewers: c.viewers,
                    },
                );
            },
        }
        proof {
            assert(new_list@[new_list@.len() - 1]@ == reconciled_channel(old_chs[i as int], ent));
            assert forall|k: int| 0 <= k < prev_list.len() implies chs_model(new_list@)[k]
                == reconciled_channels(old_chs.take(i as int + 1), ent)[k] by {
                assert(new_list@[k] == prev_list[k]);
                assert(chs_model(prev_list)[k] == reconciled_channels(
                    old_chs.take(i as int),
                    ent,
                )[k]);
                assert(old_chs.take(i as int)[k] == old_chs[k]);
                assert(old_chs.take(i as int + 1)[k] == old_chs[k]);
            }
            assert(chs_model(new_list@) =~= reconciled_channels(old_chs.take(i as int + 1), ent));
            assert forall|k: int| 0 <= k < prev_events.len() implies events_model(events@)[k]
                == events_model(prev_events)[k] by {
                assert(events@[k] == prev_events[k]);
            }
            assert(events_model(events@) =~= reconcile_events(
                old_chs.take(i as int + 1),
                ent,
                notify,
            ));
        }
        i += 1;
    }
    state.channels = new_list;
    events.push(StreamEvent::StateChanged);
    proof {
        assert(old_chs.take(old_chs.len() as int) =~= old_chs);
        assert(final(state)@ =~~= (StateModel {
            channels: reconciled_channels(old(state)@.channels, live_model(entries@)),
            ..old(state)@
        }));
        assert(events_model(events@) =~~= reconcile_events(
            old(state)@.channels,
            live_model(entries@),
            old(state)@.notify_title_changed,
        ).push(StreamEventModel::StateChanged));
    }
    events
}

/// Law: reconciliation is idempotent under an unchanged payload.
/// Reconciling a second time with the same entries leaves every
/// channel as it was, and contributes no notification-worthy event at
/// all — in particular, an offline-to-online transition fires on the
/// first reconciliation only.
pub proof fn lemma_reconcile_idempotent(
    chs: Seq<ChannelModel>,
    entries: Seq<LiveEntryModel>,
    notify: Seq<Seq<char>>,
)
    ensures
        reconciled_channels(reconciled_channels(chs, entries), entries) == reconciled_channels(
            chs,
            entries,
        ),
        reconcile_events(reconciled_channels(chs, entries), entries, notify)
            == Seq::<StreamEventModel>::empty(),
    decreases chs.len(),
{
    let first = reconciled_channels(chs, entries);
    assert forall|i: int| 0 <= i < first.len() implies #[trigger] reconciled_channel(
        first[i],
        entries,
    ) == first[i] by {
        assert(first[i] == reconciled_channel(chs[i], entries));
    }
    assert(reconciled_channels(first, entries) =~= first);
    if chs.len() == 0 {
        assert(first =~= Seq::<ChannelModel>::empty());
    } else {
        lemma_reconcile_idempotent(chs.drop_last(), entries, notify);
        let sub = reconciled_channels(chs.drop_last(), entries);
        assert(first.drop_last() =~= sub);
        assert(first.last() == reconciled_channel(chs.last(), entries));
        assert(channel_events(first.last(), entries, notify) =~= Seq::<StreamEventModel>::empty());
        assert(reconcile_events(first, entries, notify) =~= Seq::<StreamEventModel>::empty());
    }
}

/// Why a status response could not be used this cycle; reported to the
/// caller and recovered from on the next cycle, never fatal.
#[derive(Clone, Copy, Debug, PartialEq, Eq, Structural)]
pub enum ApiError {
    /// The response is not valid JSON, or not a JSON object.
    NotAnObject,
    /// The response object carries an `error` key.
    ErrorField,
    /// The response object lacks a `data` array.
    MissingData,
}

impl ApiError {
    /// A description of the failure for logs and reports.
    pub fn message(&self) -> (r: String)
        ensures
            *self == ApiError::NotAnObject ==> r@ == "unknown response: not an object"@,
            *self == ApiError::ErrorField ==> r@ == "invalid API response: error reported"@,
            *self == ApiError::MissingData ==> r@ == "invalid API response: no data array"@,
    {
        match *self {
            ApiError::NotAnObject => "unknown response: not an object".to_owned(),
            ApiError::ErrorField => "invalid API response: error reported".to_owned(),
            ApiError::MissingData => "invalid API response: no data array".to_owned(),
        }
    }
}

/// What a status response body yields, per spec of the consumed API: a
/// body that is not a JSON object, an object carrying an `error` key,
/// or one lacking a `data` array is an invalid response with the
/// corresponding error; otherwise the `data` entries come back as they
/// are.
pub open spec fn status_result_of(b: StatusBodyModel) -> Result<Seq<StreamEntryModel>, ApiError> {
    if !b.is_object {
        Err(ApiError::NotAnObject)
    } else if b.has_error {
        Err(ApiError::ErrorField)
    } else {
        match b.data {
            Some(d) => Ok(d),
            None => Err(ApiError::MissingData),
        }
    }
}

/// Reads a status response body into raw entries: the body must be a
/// JSON object without an `error` key and with a `data` array; each
/// element's `user_login`, `title` and `viewer_count` fields are taken
/// as they are, present or not. A malformed body is a reported,
/// recoverable error. Everything downstream is decided by
/// [`normalize_entries`] and [`reconcile`].
pub fn parse_status_body(body: &str) -> (r: Result<Vec<StreamEntry>, ApiError>)
    ensures
        (match r {
            Ok(es) => status_result_of(status_body_of(body@)) == Ok::<
                Seq<StreamEntryModel>,
                ApiError,
            >(entries_model(es@)),
            Err(e) => status_result_of(status_body_of(body@)) == Err::<
                Seq<StreamEntryModel>,
                ApiError,
            >(e),
        }),
{
    let b = status_body(body);
    if !b.is_object {
        return Err(ApiError::NotAnObject);
    }
    if b.has_error {
        return Err(ApiError::ErrorField);
    }
    match b.data {
        Some(entries) => Ok(entries),
        None => Err(ApiError::MissingData),
    }
}

/// The outcome of the startup bearer-token exchange.
#[derive(Debug, PartialEq, Eq)]
pub enum AuthOutcome {
    /// Success: the complete authorization header value.
    Token(String),
    /// The credentials were rejected; fatal, never retried.
    Rejected,
    /// The response carries neither a token nor a rejection message:
    /// an unknown-response failure.
    Unknown,
}

/// Mathematical model of an [`AuthOutcome`].
#[verifier::ext_equal]
pub enum AuthOutcomeModel {
    Token(Seq<char>),
    Rejected,
    Unknown,
}

impl View for AuthOutcome {
    type V = AuthOutcomeModel;

    open spec fn view(&self) -> AuthOutcomeModel {
        match self {
            AuthOutcome::Token(t) => AuthOutcomeModel::Token(t@),
            AuthOutcome::Rejected => AuthOutcomeModel::Rejected,
            AuthOutcome::Unknown => AuthOutcomeModel::Unknown,
        }
    }
}

/// The authorization header value carrying a bearer token.
pub fn auth_header(token: &str) -> (r: String)
    ensures
        r@ == "Bearer "@ + token@,
{
    let mut header = "Bearer ".to_owned();
    header.append(token);
    header
}

/// The outcome that an auth response's fields denote, per spec of the
/// consumed API: a string `access_token` t yields the full header
/// "Bearer " followed by t; otherwise a string `message` means the
/// credentials were rejected; neither is an unknown-response failure.
pub open spec fn auth_outcome_of(fields: AuthFieldsModel) -> AuthOutcomeModel {
    match fields.access_token {
        Some(t) => AuthOutcomeModel::Token("Bearer "@ + t),
        None => match fields.message {
            Some(_) => AuthOutcomeModel::Rejected,
            None => AuthOutcomeModel::Unknown,
        },
    }
}

/// Reads an auth response body: an object with a string
/// `access_token` yields the authorization header value; otherwise a
/// string `message` means the credentials were rejected, and anything
/// else is an unknown response.
pub fn interpret_auth_body(body: &str) -> (r: AuthOutcome)
    ensures
        r@ == auth_outcome_of(auth_fields_of(body@)),
{
    let fields = auth_fields(body);
    match fields.access_token {
        Some(token) => AuthOutcome::Token(auth_header(token.as_str())),
        None => match fields.message {
            Some(_) => AuthOutcome::Rejected,
            None => AuthOutcome::Unknown,
        },
    }
}

/// The token-exchange URL built from the configured credentials.
pub fn token_url(client: &str, secret: &str) -> (r: String)
    ensures
        r@ == "https://id.twitch.tv/oauth2/token?client_id="@ + client@ + "&client_secret="@
            + secret@ + "&grant_type=client_credentials"@,
{
    let mut url = "https://id.twitch.tv/oauth2/token?client_id=".to_owned();
    url.append(client);
    url.append("&client_secret=");
    url.append(secret);
    url.append("&grant_type=client_credentials");
    url
}

/// The query-string filters of a status query: one `user_login`
/// filter per tracked channel name, in list order.
pub open spec fn user_login_query(names: Seq<Seq<char>>) -> Seq<char>
    decreases names.len(),
{
    if names.len() == 0 {
        Seq::empty()
    } else {
        user_login_query(names.drop_last()) + "user_login="@ + names.last() + "&"@
    }
}

/// The status-query URL for the whole tracked channel set.
pub fn streams_url(channels: &Vec<Channel>) -> (r: String)
    ensures
        r@ == "https://api.twitch.tv/helix/streams?"@ + user_login_query(
            channel_names(chs_model(channels@)),
        ),
{
    let ghost names = channel_names(chs_model(channels@));
    let mut url = "https://api.twitch.tv/helix/streams?".to_owned();
    proof {
        assert(names.take(0) =~= Seq::<Seq<char>>::empty());
        assert(url@ =~= "https://api.twitch.tv/helix/streams?"@ + user_login_query(names.take(0)));
    }
    let mut i: usize = 0;
    while i < channels.len()
        invariant
            i <= channels.len(),
            names == channel_names(chs_model(channels@)),
            names.len() == channels@.len(),
            url@ == "https://api.twitch.tv/helix/streams?"@ + user_login_query(
                names.take(i as int),
            ),
        decreases channels.len() - i,
    {
        url.append("user_login=");
        url.append(channels[i].name.as_str());
        url.append("&");
        proof {
            assert(names.take(i as int + 1).drop_last() =~= names.take(i as int));
            assert(names.take(i as int + 1).last() == names[i as int]);
            assert(names[i as int] == channels@[i as int].name@);
            assert(url@ =~= "https://api.twitch.tv/helix/streams?"@ + user_login_query(
                names.take(i as int + 1),
            ));
        }
        i += 1;
    }
    proof {
        assert(names.take(names.len() as int) =~= names);
    }
    url
}

/// Law: reconciliation never touches the channel-name sequence — the
/// list keeps its length, every channel its name and its position, and
/// name uniqueness survives. Stale entries for untracked names are
/// simply not matched by any channel and so are discarded.
pub proof fn lemma_reconcile_preserves_names(chs: Seq<ChannelModel>, entries: Seq<LiveEntryModel>)
    ensures
        reconciled_channels(chs, entries).len() == chs.len(),
        forall|i: int|
            0 <= i < chs.len() ==> (#[trigger] reconciled_channels(chs, entries)[i]).name
                == chs[i].name,
        unique_names(chs) ==> unique_names(reconciled_channels(chs, entries)),
{
}

/// The status poller's retry bookkeeping: how many retries are left in
/// the current poll cycle.
pub struct PollerState {
    pub retries_left: u32,
}

impl PollerState {
    /// The retry budget never exceeds the fixed bound.
    pub open spec fn inv(self) -> bool {
        self.retries_left <= MAX_RETRIES
    }

    /// A fresh poll cycle with the full retry budget.
    pub fn new() -> (s: PollerState)
        ensures
            s.inv(),
            s.retries_left == MAX_RETRIES,
    {
        PollerState { retries_left: MAX_RETRIES }
    }
}

/// What the poller's loop does next after one status query.
#[derive(Clone, Copy, Debug, PartialEq, Eq, Structural)]
pub enum PollAction {
    /// The query succeeded: reconcile its payload, then idle.
    Proceed,
    /// The query failed and retries are left: wait the fixed retry
    /// delay, then query again within the same cycle.
    RetryAfterDelay,
    /// The query failed and the retry bound is exhausted: report the
    /// failure, skip reconciliation this cycle, and idle. The loop
    /// continues; a transient failure never terminates the process.
    SkipCycle,
}

/// Advances the retry bookkeeping by one query outcome and decides
/// what the poller does next. Success restores the full retry budget;
/// a failure consumes one retry, and an exhausted budget skips the
/// cycle and restores the budget for the next one.
pub fn on_poll_result(st: &mut PollerState, success: bool) -> (a: PollAction)
    requires
        old(st).inv(),
    ensures
        final(st).inv(),
        success ==> a == PollAction::Proceed && final(st).retries_left == MAX_RETRIES,
        !success && old(st).retries_left > 0 ==> a == PollAction::RetryAfterDelay
            && final(st).retries_left == old(st).retries_left - 1,
        !success && old(st).retries_left == 0 ==> a == PollAction::SkipCycle
            && final(st).retries_left == MAX_RETRIES,
{
    if success {
        st.retries_left = MAX_RETRIES;
        PollAction::Proceed
    } else if st.retries_left > 0 {
        st.retries_left = st.retries_left - 1;
        PollAction::RetryAfterDelay
    } else {
        st.retries_left = MAX_RETRIES;
        PollAction::SkipCycle
    }
}

/// The retry budget after `n` consecutive transport failures, starting
/// from a budget of `r`: each failure consumes one retry until the
/// budget is exhausted, and the budget is restored when the cycle is
/// skipped.
pub open spec fn retries_after_failures(r: u32, n: nat) -> u32
    decreases n,
{
    if n == 0 {
        r
    } else {
        let prev = retries_after_failures(r, (n - 1) as nat);
        if prev > 0 {
            (prev - 1) as u32
        } else {
            MAX_RETRIES
        }
    }
}

/// Law: consecutive transport failures never crash the poller and
/// never grow its state. However many failures arrive in a row, the
/// retry budget stays within the fixed bound; the first `r` failures
/// merely count the budget down, and a failure on an exhausted budget
/// skips the cycle and restores it.
pub proof fn lemma_poller_survives_failures(r: u32, n: nat)
    requires
        r <= MAX_RETRIES,
    ensures
        retries_after_failures(r, n) <= MAX_RETRIES,
        n <= r ==> retries_after_failures(r, n) == r - n,
    decreases n,
{
    if n > 0 {
        lemma_poller_survives_failures(r, (n - 1) as nat);
    }
}

/// Decides whether the poller's idle wait is over: at a wake signal,
/// or once the fixed poll interval has elapsed, whichever comes first.
pub fn idle_wait_over(elapsed_secs: u64, woke: bool) -> (r: bool)
    ensures
        r == (woke || elapsed_secs >= UPDATE_CHANNELS_TIME),
{
    woke || elapsed_secs >= UPDATE_CHANNELS_TIME
}

/// One cycle of the config watcher, once the candidate configuration
/// has been loaded (`None` when the source could not be read or parsed
/// this cycle, which must not disturb the existing state): a
/// structurally changed candidate is merged into the live state, and
/// the result says whether the poller must be woken and a state-change
/// notification emitted.
pub fn refresh_step(state: &mut State, loaded: Option<State>) -> (changed: bool)
    ensures
        match loaded {
            None => final(state)@ == old(state)@ && !changed,
            Some(candidate) => {
                if structurally_equal(old(state)@, candidate@) {
                    final(state)@ == old(state)@ && !changed
                } else {
                    final(state)@ == merged(old(state)@, candidate@) && changed
                }
            },
        },
{
    match loaded {
        None => false,
        Some(candidate) => {
            if equal(state, &candidate) {
                false
            } else {
                migrate(state, candidate);
                true
            }
        },
    }
}

} // verus!
