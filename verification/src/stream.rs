//! Finding a station's live stream: the station must be listed, a token
//! must be obtained for its area, and the stream description must name a
//! playlist. Each fetch is the caller's; these state machines decide.
use vstd::prelude::*;
use vstd::string::StringExecFns;
use crate::auth::{Auth1Reply, Auth2Reply, AuthError, AuthFlow, SpecAuth1Reply, SpecAuthFlow, auth1_outcome, auth1_panics, auth2_outcome, auth_start, get_auth_token, serves_area};
use crate::record::StationRecord;
use crate::stations::{fetched_view, get_area_id_4_station_id, is_available_station_id, station_area, station_ids};
use crate::station_list::Fields;

verus! {

/// Where the lookup of a station's token stands.
pub enum TokenLookup {
    /// The station list is to be fetched, to check that the station is listed.
    CheckStation { station_id: String },
    /// The station list is to be fetched, to find the station's area.
    FindArea { station_id: String },
    /// The handshake for the area is under way.
    Authorize(AuthFlow),
    /// The lookup is over: the token, if one was obtained.
    Finished(Option<String>),
}

pub enum SpecTokenLookup {
    CheckStation { station_id: Seq<char> },
    FindArea { station_id: Seq<char> },
    Authorize(SpecAuthFlow),
    Finished(Option<Seq<char>>),
}

impl View for TokenLookup {
    type V = SpecTokenLookup;

    open spec fn view(&self) -> SpecTokenLookup {
        match self {
            TokenLookup::CheckStation { station_id } => SpecTokenLookup::CheckStation { station_id: station_id@ },
            TokenLookup::FindArea { station_id } => SpecTokenLookup::FindArea { station_id: station_id@ },
            TokenLookup::Authorize(flow) => SpecTokenLookup::Authorize(flow@),
            TokenLookup::Finished(token) => SpecTokenLookup::Finished(token.deep_view()),
        }
    }
}

/// A handshake seen from the token lookup: once it is over, the lookup is.
pub open spec fn token_from_auth(flow: SpecAuthFlow) -> SpecTokenLookup {
    match flow {
        SpecAuthFlow::Finished(Ok(token)) => SpecTokenLookup::Finished(Some(token)),
        SpecAuthFlow::Finished(Err(_)) => SpecTokenLookup::Finished(None),
        _ => SpecTokenLookup::Authorize(flow),
    }
}

/// The token lookup after a fetch of the station list.
pub open spec fn token_on_station_list(lookup: SpecTokenLookup, fetched: Option<Seq<Fields>>) -> SpecTokenLookup {
    match lookup {
        SpecTokenLookup::CheckStation { station_id } => {
            if fetched matches Some(stations) && station_ids(stations).contains(station_id) {
                SpecTokenLookup::FindArea { station_id }
            } else {
                SpecTokenLookup::Finished(None)
            }
        },
        SpecTokenLookup::FindArea { station_id } => match fetched {
            Some(stations) => match station_area(stations, station_id) {
                Some(area) => token_from_auth(auth_start(area)),
                None => SpecTokenLookup::Finished(None),
            },
            None => SpecTokenLookup::Finished(None),
        },
        _ => lookup,
    }
}

pub open spec fn token_on_auth1(lookup: SpecTokenLookup, reply: crate::auth::SpecAuth1Reply) -> SpecTokenLookup {
    match lookup {
        SpecTokenLookup::Authorize(SpecAuthFlow::SendAuth1 { area_id }) => token_from_auth(auth1_outcome(area_id, reply)),
        _ => lookup,
    }
}

pub open spec fn token_on_auth2(lookup: SpecTokenLookup, reply: Auth2Reply) -> SpecTokenLookup {
    match lookup {
        SpecTokenLookup::Authorize(SpecAuthFlow::SendAuth2 { auth_token, .. }) => token_from_auth(auth2_outcome(auth_token, reply)),
        _ => lookup,
    }
}

/// What the handshake for `area` gives when its first request is answered
/// `reply1` and its second, if it is sent, `reply2`.
pub open spec fn handshake_outcome(area: Seq<char>, reply1: SpecAuth1Reply, reply2: Auth2Reply) -> Result<Seq<char>, AuthError> {
    if !serves_area(area) {
        Err(AuthError::AreaNotServed)
    } else {
        match auth1_outcome(area, reply1) {
            SpecAuthFlow::SendAuth2 { auth_token, .. } => match reply2 {
                Auth2Reply::Failed => Err(AuthError::Transport),
                Auth2Reply::Rejected => Err(AuthError::Rejected),
                Auth2Reply::Accepted => Ok(auth_token),
            },
            SpecAuthFlow::Finished(result) => result,
            SpecAuthFlow::SendAuth1 { .. } => Err(AuthError::Transport),
        }
    }
}

/// The token that looking up `station_id` is to give: none where the station
/// is not in the list `fetched` (or the list could not be fetched) or has no
/// area, else what the handshake for its area gives.
pub open spec fn expected_token(station_id: Seq<char>, fetched: Option<Seq<Fields>>, reply1: SpecAuth1Reply, reply2: Auth2Reply) -> Option<Seq<char>> {
    match fetched {
        Some(stations) => {
            if !station_ids(stations).contains(station_id) {
                None
            } else {
                match station_area(stations, station_id) {
                    Some(area) => match handshake_outcome(area, reply1, reply2) {
                        Ok(token) => Some(token),
                        Err(_) => None,
                    },
                    None => None,
                }
            }
        },
        None => None,
    }
}

/// The token lookup after `steps` steps, where every fetch of the station
/// list gives `fetched` and the handshake's requests are answered `reply1`
/// and `reply2`: each step takes the answer that the stage asks for.
pub open spec fn token_drive(lookup: SpecTokenLookup, fetched: Option<Seq<Fields>>, reply1: SpecAuth1Reply, reply2: Auth2Reply, steps: nat) -> SpecTokenLookup
    decreases steps,
{
    if steps == 0 {
        lookup
    } else {
        let next = match lookup {
            SpecTokenLookup::CheckStation { .. } => token_on_station_list(lookup, fetched),
            SpecTokenLookup::FindArea { .. } => token_on_station_list(lookup, fetched),
            SpecTokenLookup::Authorize(SpecAuthFlow::SendAuth1 { .. }) => token_on_auth1(lookup, reply1),
            SpecTokenLookup::Authorize(SpecAuthFlow::SendAuth2 { .. }) => token_on_auth2(lookup, reply2),
            _ => lookup,
        };
        token_drive(next, fetched, reply1, reply2, (steps - 1) as nat)
    }
}

/// A token lookup started by [`get_auth_token_4_station_id`] and driven with
/// the same station list at each fetch is over after at most four steps, and
/// gives the token of [`expected_token`]: none unless the station is listed,
/// has an area, and the handshake for that area succeeds.
pub proof fn lemma_token_lookup_outcome(station_id: Seq<char>, fetched: Option<Seq<Fields>>, reply1: SpecAuth1Reply, reply2: Auth2Reply)
    requires
        !auth1_panics(reply1),
    ensures
        token_drive(SpecTokenLookup::CheckStation { station_id }, fetched, reply1, reply2, 4)
            == SpecTokenLookup::Finished(expected_token(station_id, fetched, reply1, reply2)),
{
    reveal_with_fuel(token_drive, 5);
}

fn token_settle(flow: AuthFlow) -> (lookup: TokenLookup)
    ensures
        lookup@ == token_from_auth(flow@),
{
    match flow {
        AuthFlow::Finished(Ok(token)) => TokenLookup::Finished(Some(token)),
        AuthFlow::Finished(Err(_)) => TokenLookup::Finished(None),
        _ => TokenLookup::Authorize(flow),
    }
}

/// Starts looking up a token for the station `station_id`.
pub fn get_auth_token_4_station_id(station_id: &String) -> (lookup: TokenLookup)
    ensures
        lookup@ == (SpecTokenLookup::CheckStation { station_id: station_id@ }),
{
    TokenLookup::CheckStation { station_id: station_id.clone() }
}

impl TokenLookup {
    /// Takes a fetch of the station list (`None` where it failed).
    pub fn on_station_list(self, fetched: &Option<Vec<StationRecord>>) -> (next: TokenLookup)
        requires
            self is CheckStation || self is FindArea,
        ensures
            next@ == token_on_station_list(self@, fetched_view(*fetched)),
    {
        match self {
            TokenLookup::CheckStation { station_id } => {
                if is_available_station_id(fetched, &station_id) {
                    TokenLookup::FindArea { station_id }
                } else {
                    TokenLookup::Finished(None)
                }
            },
            TokenLookup::FindArea { station_id } => match get_area_id_4_station_id(fetched, &station_id) {
                Some(area_id) => token_settle(get_auth_token(&area_id)),
                None => TokenLookup::Finished(None),
            },
            _ => self,
        }
    }

    /// Takes the answer to the handshake's first request.
    pub fn on_auth1(self, reply: Auth1Reply) -> (next: TokenLookup)
        requires
            self matches TokenLookup::Authorize(flow) && flow is SendAuth1,
            !auth1_panics(reply@),
        ensures
            next@ == token_on_auth1(self@, reply@),
    {
        match self {
            TokenLookup::Authorize(flow) => token_settle(flow.on_auth1(reply)),
            _ => self,
        }
    }

    /// Takes the answer to the handshake's second request.
    pub fn on_auth2(self, reply: Auth2Reply) -> (next: TokenLookup)
        requires
            self matches TokenLookup::Authorize(flow) && flow is SendAuth2,
        ensures
            next@ == token_on_auth2(self@, reply),
    {
        match self {
            TokenLookup::Authorize(flow) => token_settle(flow.on_auth2(reply)),
            _ => self,
        }
    }
}

/// The URL of the list of all stations.
pub fn station_list_url() -> (url: String)
    ensures
        url@ == "https://radiko.jp/v3/station/region/full.xml"@,
{
    "https://radiko.jp/v3/station/region/full.xml".to_owned()
}

pub open spec fn stream_description_spec_url(station_id: Seq<char>) -> Seq<char> {
    "https://radiko.jp/v3/station/stream/aSmartPhone7o/"@ + station_id + ".xml"@
}

/// The URL of the description of a station's streams.
pub fn stream_description_url(station_id: &String) -> (url: String)
    ensures
        url@ == stream_description_spec_url(station_id@),
{
    let url = "https://radiko.jp/v3/station/stream/aSmartPhone7o/".to_owned();
    let url = url.concat(station_id.as_str());
    url.concat(".xml")
}

pub open spec fn live_stream_spec_url(base_url: Seq<char>, station_id: Seq<char>) -> Seq<char> {
    base_url + "?station_id="@ + station_id + "&l=15&lsid=&type=b"@
}

/// The live URL carries the base URL and the whole station id, each in its
/// place: the base URL, `?station_id=`, the station id, then
/// `&l=15&lsid=&type=b`; so two stations never share a live URL built on
/// the same base.
pub proof fn lemma_live_url_carries_station(base_url: Seq<char>, station_id: Seq<char>, other_id: Seq<char>)
    ensures
        ({
            let url = live_stream_spec_url(base_url, station_id);
            let at: int = base_url.len() + 12int;
            &&& url.len() == base_url.len() + station_id.len() + 30
            &&& url.subrange(0, base_url.len() as int) == base_url
            &&& url.subrange(base_url.len() as int, at) == "?station_id="@
            &&& url.subrange(at, at + station_id.len() as int) == station_id
            &&& url.subrange(at + station_id.len() as int, url.len() as int) == "&l=15&lsid=&type=b"@
        }),
        live_stream_spec_url(base_url, station_id) == live_stream_spec_url(base_url, other_id) ==> station_id == other_id,
{
    reveal_strlit("?station_id=");
    reveal_strlit("&l=15&lsid=&type=b");
    let url = live_stream_spec_url(base_url, station_id);
    let at: int = base_url.len() + 12int;
    assert(url.subrange(0, base_url.len() as int) =~= base_url);
    assert(url.subrange(base_url.len() as int, at) =~= "?station_id="@);
    assert(url.subrange(at, at + station_id.len() as int) =~= station_id);
    assert(url.subrange(at + station_id.len() as int, url.len() as int) =~= "&l=15&lsid=&type=b"@);
    let other = live_stream_spec_url(base_url, other_id);
    if url == other {
        assert(station_id.len() == other_id.len());
        assert(other.subrange(at, at + other_id.len() as int) =~= other_id);
    }
}

/// The URL of a station's live playlist, built on a base URL from the
/// stream description.
pub fn live_stream_url(base_url: &String, station_id: &String) -> (url: String)
    ensures
        url@ == live_stream_spec_url(base_url@, station_id@),
{
    let url = base_url.clone().concat("?station_id=");
    let url = url.concat(station_id.as_str());
    url.concat("&l=15&lsid=&type=b")
}

/// Where the lookup of a live stream stands.
pub enum StreamStage {
    /// The station list is to be fetched, to check that the station is listed.
    CheckStation,
    /// The token for the station is being looked up.
    Token(TokenLookup),
    /// The stream description is to be fetched (see [`stream_description_url`]).
    FetchUrls { auth_token: String },
    /// The lookup is over: the token and the live playlist URL, if found.
    Finished(Option<(String, String)>),
}

pub enum SpecStreamStage {
    CheckStation,
    Token(SpecTokenLookup),
    FetchUrls { auth_token: Seq<char> },
    Finished(Option<(Seq<char>, Seq<char>)>),
}

impl View for StreamStage {
    type V = SpecStreamStage;

    open spec fn view(&self) -> SpecStreamStage {
        match self {
            StreamStage::CheckStation => SpecStreamStage::CheckStation,
            StreamStage::Token(lookup) => SpecStreamStage::Token(lookup@),
            StreamStage::FetchUrls { auth_token } => SpecStreamStage::FetchUrls { auth_token: auth_token@ },
            StreamStage::Finished(Some((token, url))) => SpecStreamStage::Finished(Some((token@, url@))),
            StreamStage::Finished(None) => SpecStreamStage::Finished(None),
        }
    }
}

/// The lookup of a station's live stream, for the time-free and area-free flags.
pub struct StreamLookup {
    pub station_id: String,
    pub timefree: bool,
    pub areafree: bool,
    pub stage: StreamStage,
}

/// The token lookup seen from the stream lookup: once it has a token, the
/// stream description is to be fetched.
pub open spec fn stage_from_token(lookup: SpecTokenLookup) -> SpecStreamStage {
    match lookup {
        SpecTokenLookup::Finished(Some(token)) => SpecStreamStage::FetchUrls { auth_token: token },
        SpecTokenLookup::Finished(None) => SpecStreamStage::Finished(None),
        _ => SpecStreamStage::Token(lookup),
    }
}

pub open spec fn stream_on_station_list(station_id: Seq<char>, stage: SpecStreamStage, fetched: Option<Seq<Fields>>) -> SpecStreamStage {
    match stage {
        SpecStreamStage::CheckStation => {
            if fetched matches Some(stations) && station_ids(stations).contains(station_id) {
                SpecStreamStage::Token(SpecTokenLookup::CheckStation { station_id })
            } else {
                SpecStreamStage::Finished(None)
            }
        },
        SpecStreamStage::Token(lookup) => stage_from_token(token_on_station_list(lookup, fetched)),
        _ => stage,
    }
}

/// The stream lookup after the stream description was read into its
/// playlist URLs (`None` where the fetch failed).
pub open spec fn stream_on_urls(station_id: Seq<char>, stage: SpecStreamStage, base_urls: Option<Seq<Seq<char>>>) -> SpecStreamStage {
    match stage {
        SpecStreamStage::FetchUrls { auth_token } => match base_urls {
            Some(urls) => SpecStreamStage::Finished(Some((auth_token, live_stream_spec_url(urls[0], station_id)))),
            None => SpecStreamStage::Finished(None),
        },
        _ => stage,
    }
}

/// What looking up the live stream of `station_id` is to give, where every
/// fetch of the station list gives `fetched`, the handshake's requests are
/// answered `reply1` and `reply2`, and the stream description gives the
/// playlist URLs `base_urls` (`None` where that fetch failed): the token and
/// the live URL built on the first playlist URL, once a token is had and the
/// description is read.
pub open spec fn expected_stream(station_id: Seq<char>, fetched: Option<Seq<Fields>>, reply1: SpecAuth1Reply, reply2: Auth2Reply, base_urls: Option<Seq<Seq<char>>>) -> Option<(Seq<char>, Seq<char>)> {
    match expected_token(station_id, fetched, reply1, reply2) {
        Some(token) => match base_urls {
            Some(urls) => Some((token, live_stream_spec_url(urls[0], station_id))),
            None => None,
        },
        None => None,
    }
}

/// The stream lookup's stage after `steps` steps, each taking the answer
/// that the stage asks for, from the same answers as [`expected_stream`].
pub open spec fn stream_drive(station_id: Seq<char>, stage: SpecStreamStage, fetched: Option<Seq<Fields>>, reply1: SpecAuth1Reply, reply2: Auth2Reply, base_urls: Option<Seq<Seq<char>>>, steps: nat) -> SpecStreamStage
    decreases steps,
{
    if steps == 0 {
        stage
    } else {
        let next = match stage {
            SpecStreamStage::CheckStation => stream_on_station_list(station_id, stage, fetched),
            SpecStreamStage::Token(lookup) => match lookup {
                SpecTokenLookup::CheckStation { .. } => stream_on_station_list(station_id, stage, fetched),
                SpecTokenLookup::FindArea { .. } => stream_on_station_list(station_id, stage, fetched),
                SpecTokenLookup::Authorize(SpecAuthFlow::SendAuth1 { .. }) => stage_from_token(token_on_auth1(lookup, reply1)),
                SpecTokenLookup::Authorize(SpecAuthFlow::SendAuth2 { .. }) => stage_from_token(token_on_auth2(lookup, reply2)),
                _ => stage,
            },
            SpecStreamStage::FetchUrls { .. } => stream_on_urls(station_id, stage, base_urls),
            SpecStreamStage::Finished(_) => stage,
        };
        stream_drive(station_id, next, fetched, reply1, reply2, base_urls, (steps - 1) as nat)
    }
}

/// A stream lookup started by [`get_live_stream_info`] and driven with the
/// same answers throughout is over after at most six steps and gives
/// [`expected_stream`]; so it gives nothing exactly where the station is not
/// listed, no token is had for it, or the stream description cannot be read.
pub proof fn lemma_stream_lookup_outcome(station_id: Seq<char>, fetched: Option<Seq<Fields>>, reply1: SpecAuth1Reply, reply2: Auth2Reply, base_urls: Option<Seq<Seq<char>>>)
    requires
        !auth1_panics(reply1),
        base_urls matches Some(urls) ==> urls.len() > 0,
    ensures
        stream_drive(station_id, SpecStreamStage::CheckStation, fetched, reply1, reply2, base_urls, 6)
            == SpecStreamStage::Finished(expected_stream(station_id, fetched, reply1, reply2, base_urls)),
        expected_stream(station_id, fetched, reply1, reply2, base_urls) is None <==> (
            !(fetched matches Some(stations) && station_ids(stations).contains(station_id))
            || expected_token(station_id, fetched, reply1, reply2) is None
            || base_urls is None),
{
    reveal_with_fuel(stream_drive, 7);
}

fn stage_settle(lookup: TokenLookup) -> (stage: StreamStage)
    ensures
        stage@ == stage_from_token(lookup@),
{
    match lookup {
        TokenLookup::Finished(Some(token)) => StreamStage::FetchUrls { auth_token: token },
        TokenLookup::Finished(None) => StreamStage::Finished(None),
        _ => StreamStage::Token(lookup),
    }
}

/// Starts looking up the live stream of `station_id` for the flags.
pub fn get_live_stream_info(station_id: &String, timefree: bool, areafree: bool) -> (lookup: StreamLookup)
    ensures
        lookup.station_id@ == station_id@,
        lookup.timefree == timefree,
        lookup.areafree == areafree,
        lookup.stage@ == SpecStreamStage::CheckStation,
{
    StreamLookup { station_id: station_id.clone(), timefree, areafree, stage: StreamStage::CheckStation }
}

impl StreamLookup {
    /// Takes a fetch of the station list (`None` where it failed).
    pub fn on_station_list(self, fetched: &Option<Vec<StationRecord>>) -> (next: StreamLookup)
        requires
            self.stage is CheckStation
                || (self.stage matches StreamStage::Token(lookup) && (lookup is CheckStation || lookup is FindArea)),
        ensures
            next.station_id == self.station_id,
            next.timefree == self.timefree,
            next.areafree == self.areafree,
            next.stage@ == stream_on_station_list(self.station_id@, self.stage@, fetched_view(*fetched)),
    {
        let StreamLookup { station_id, timefree, areafree, stage } = self;
        let stage = match stage {
            StreamStage::CheckStation => {
                if is_available_station_id(fetched, &station_id) {
                    StreamStage::Token(get_auth_token_4_station_id(&station_id))
                } else {
                    StreamStage::Finished(None)
                }
            },
            StreamStage::Token(lookup) => stage_settle(lookup.on_station_list(fetched)),
            _ => stage,
        };
        StreamLookup { station_id, timefree, areafree, stage }
    }

    /// Takes the answer to the handshake's first request.
    pub fn on_auth1(self, reply: Auth1Reply) -> (next: StreamLookup)
        requires
            self.stage matches StreamStage::Token(lookup) && (lookup matches TokenLookup::Authorize(flow) && flow is SendAuth1),
            !auth1_panics(reply@),
        ensures
            next.station_id == self.station_id,
            next.timefree == self.timefree,
            next.areafree == self.areafree,
            self.stage@ matches SpecStreamStage::Token(lookup) && next.stage@ == stage_from_token(token_on_auth1(lookup, reply@)),
    {
        let StreamLookup { station_id, timefree, areafree, stage } = self;
        let stage = match stage {
            StreamStage::Token(lookup) => stage_settle(lookup.on_auth1(reply)),
            _ => stage,
        };
        StreamLookup { station_id, timefree, areafree, stage }
    }

    /// Takes the answer to the handshake's second request.
    pub fn on_auth2(self, reply: Auth2Reply) -> (next: StreamLookup)
        requires
            self.stage matches StreamStage::Token(lookup) && (lookup matches TokenLookup::Authorize(flow) && flow is SendAuth2),
        ensures
            next.station_id == self.station_id,
            next.timefree == self.timefree,
            next.areafree == self.areafree,
            self.stage@ matches SpecStreamStage::Token(lookup) && next.stage@ == stage_from_token(token_on_auth2(lookup, reply)),
    {
        let StreamLookup { station_id, timefree, areafree, stage } = self;
        let stage = match stage {
            StreamStage::Token(lookup) => stage_settle(lookup.on_auth2(reply)),
            _ => stage,
        };
        StreamLookup { station_id, timefree, areafree, stage }
    }

    /// Takes the playlist URLs read from the stream description for the
    /// lookup's flags (`None` where the fetch failed). The live URL is built
    /// on the first of them, so an empty list is refused by `requires`.
    pub fn on_stream_urls(self, base_urls: Option<Vec<String>>) -> (next: StreamLookup)
        requires
            self.stage is FetchUrls,
            base_urls matches Some(urls) ==> urls.len() > 0,
        ensures
            next.station_id == self.station_id,
            next.timefree == self.timefree,
            next.areafree == self.areafree,
            next.stage@ == stream_on_urls(self.station_id@, self.stage@, base_urls.deep_view()),
    {
        let StreamLookup { station_id, timefree, areafree, stage } = self;
        let stage = match stage {
            StreamStage::FetchUrls { auth_token } => match base_urls {
                Some(urls) => {
                    let url = live_stream_url(&urls[0], &station_id);
                    StreamStage::Finished(Some((auth_token, url)))
                },
                None => StreamStage::Finished(None),
            },
            _ => stage,
        };
        StreamLookup { station_id, timefree, areafree, stage }
    }
}

} // verus!
