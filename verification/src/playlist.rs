//! Resolving an HLS stream: the master playlist names variant streams; the
//! first variant's media playlist lists the segment URLs.
use vstd::prelude::*;
use m3u8_rs::playlist::Playlist;
use crate::http::{HttpRequest, SpecHttpRequest, push_header};

verus! {

/// What the logic reads of an M3U8 playlist.
pub enum PlaylistInfo {
    /// A master playlist: the URIs of its variant streams, in order.
    Master { variant_uris: Vec<String> },
    /// A media playlist: the URIs of its segments, in order.
    Media { segment_uris: Vec<String> },
    /// Not a playlist that `m3u8_rs` can read.
    Invalid,
}

pub enum SpecPlaylistInfo {
    Master { variant_uris: Seq<Seq<char>> },
    Media { segment_uris: Seq<Seq<char>> },
    Invalid,
}

impl View for PlaylistInfo {
    type V = SpecPlaylistInfo;

    open spec fn view(&self) -> SpecPlaylistInfo {
        match self {
            PlaylistInfo::Master { variant_uris } => SpecPlaylistInfo::Master { variant_uris: variant_uris.deep_view() },
            PlaylistInfo::Media { segment_uris } => SpecPlaylistInfo::Media { segment_uris: segment_uris.deep_view() },
            PlaylistInfo::Invalid => SpecPlaylistInfo::Invalid,
        }
    }
}

/// What `m3u8_rs::parse_playlist_res` reads from the bytes of `text`.
pub uninterp spec fn playlist_of(text: Seq<char>) -> SpecPlaylistInfo;

/// `m3u8_rs::parse_playlist_res` on the bytes of `text`, its playlist
/// turned into a [`PlaylistInfo`] (the URI of each variant or segment, in
/// order). Claimed: the result is [`playlist_of`] of `text`.
#[verifier::external_body]
fn parse_m3u8(text: &str) -> (info: PlaylistInfo)
    ensures
        info@ == playlist_of(text@),
{
    match m3u8_rs::parse_playlist_res(text.as_bytes()) {
        Ok(Playlist::MasterPlaylist(m)) => PlaylistInfo::Master { variant_uris: m.variants.into_iter().map(|v| v.uri).collect() },
        Ok(Playlist::MediaPlaylist(m)) => PlaylistInfo::Media { segment_uris: m.segments.into_iter().map(|s| s.uri).collect() },
        Err(_) => PlaylistInfo::Invalid,
    }
}

/// Reads the playlist that the body `text` holds.
pub fn read_playlist(text: &String) -> (info: PlaylistInfo)
    ensures
        info@ == playlist_of(text@),
{
    parse_m3u8(text.as_str())
}

/// Why no segment list came out.
#[derive(Clone, Copy, PartialEq, Eq, Structural, Debug)]
pub enum PlaylistError {
    /// A request could not be sent or its body not read.
    Transport,
    /// No media playlist was reached ("Cannot get playlists !").
    NotFound,
}

/// The answer to a playlist request.
pub enum PlaylistReply {
    /// The request could not be sent or its body not read.
    Failed,
    /// The status was not a success.
    Rejected,
    /// The body, read as a playlist (see [`read_playlist`]).
    Received(PlaylistInfo),
}

pub enum SpecPlaylistReply {
    Failed,
    Rejected,
    Received(SpecPlaylistInfo),
}

impl View for PlaylistReply {
    type V = SpecPlaylistReply;

    open spec fn view(&self) -> SpecPlaylistReply {
        match self {
            PlaylistReply::Failed => SpecPlaylistReply::Failed,
            PlaylistReply::Rejected => SpecPlaylistReply::Rejected,
            PlaylistReply::Received(info) => SpecPlaylistReply::Received(info@),
        }
    }
}

/// Where the resolution of a stream stands.
pub enum PlaylistFetch {
    /// The master playlist at `url` is to be fetched.
    FetchMaster { url: String, auth_token: String },
    /// The media playlist at `uri` is to be fetched.
    FetchMedia { uri: String, auth_token: String },
    /// The resolution is over: the segment URIs, or why there are none.
    Finished(Result<Vec<String>, PlaylistError>),
}

pub enum SpecPlaylistFetch {
    FetchMaster { url: Seq<char>, auth_token: Seq<char> },
    FetchMedia { uri: Seq<char>, auth_token: Seq<char> },
    Finished(Result<Seq<Seq<char>>, PlaylistError>),
}

impl View for PlaylistFetch {
    type V = SpecPlaylistFetch;

    open spec fn view(&self) -> SpecPlaylistFetch {
        match self {
            PlaylistFetch::FetchMaster { url, auth_token } => SpecPlaylistFetch::FetchMaster { url: url@, auth_token: auth_token@ },
            PlaylistFetch::FetchMedia { uri, auth_token } => SpecPlaylistFetch::FetchMedia { uri: uri@, auth_token: auth_token@ },
            PlaylistFetch::Finished(Ok(uris)) => SpecPlaylistFetch::Finished(Ok(uris.deep_view())),
            PlaylistFetch::Finished(Err(e)) => SpecPlaylistFetch::Finished(Err(*e)),
        }
    }
}

/// Whether the answer cannot be taken: a master playlist without variants,
/// which leaves no variant to follow.
pub open spec fn playlist_reply_panics(fetch: SpecPlaylistFetch, reply: SpecPlaylistReply) -> bool {
    &&& fetch is FetchMaster
    &&& reply matches SpecPlaylistReply::Received(SpecPlaylistInfo::Master { variant_uris })
    &&& variant_uris.len() == 0
}

/// The resolution after an answer.
pub open spec fn playlist_step(fetch: SpecPlaylistFetch, reply: SpecPlaylistReply) -> SpecPlaylistFetch {
    match reply {
        SpecPlaylistReply::Failed => SpecPlaylistFetch::Finished(Err(PlaylistError::Transport)),
        SpecPlaylistReply::Rejected => SpecPlaylistFetch::Finished(Err(PlaylistError::NotFound)),
        SpecPlaylistReply::Received(info) => match fetch {
            SpecPlaylistFetch::FetchMaster { auth_token, .. } => match info {
                SpecPlaylistInfo::Master { variant_uris } => SpecPlaylistFetch::FetchMedia { uri: variant_uris[0], auth_token },
                _ => SpecPlaylistFetch::Finished(Err(PlaylistError::NotFound)),
            },
            SpecPlaylistFetch::FetchMedia { .. } => match info {
                SpecPlaylistInfo::Media { segment_uris } => SpecPlaylistFetch::Finished(Ok(segment_uris)),
                _ => SpecPlaylistFetch::Finished(Err(PlaylistError::NotFound)),
            },
            _ => fetch,
        },
    }
}

/// A master playlist received while the master is fetched leads to its
/// first variant, whatever variants follow it: the next request is for
/// `first`, with the same token.
pub proof fn lemma_master_follows_first_variant(url: Seq<char>, auth_token: Seq<char>, first: Seq<char>, later: Seq<Seq<char>>)
    ensures
        ({
            let next = playlist_step(
                SpecPlaylistFetch::FetchMaster { url, auth_token },
                SpecPlaylistReply::Received(SpecPlaylistInfo::Master { variant_uris: seq![first] + later }),
            );
            &&& next == (SpecPlaylistFetch::FetchMedia { uri: first, auth_token })
            &&& playlist_spec_request(next).url == first
            &&& playlist_spec_request(next).headers == seq![("X-Radiko-AuthToken"@, auth_token)]
        }),
{
    assert((seq![first] + later)[0] == first);
}

/// The request to send while resolving: the playlist's URL, with the token.
pub open spec fn playlist_spec_request(fetch: SpecPlaylistFetch) -> SpecHttpRequest {
    match fetch {
        SpecPlaylistFetch::FetchMaster { url, auth_token } => SpecHttpRequest {
            url,
            headers: seq![("X-Radiko-AuthToken"@, auth_token)],
        },
        SpecPlaylistFetch::FetchMedia { uri, auth_token } => SpecHttpRequest {
            url: uri,
            headers: seq![("X-Radiko-AuthToken"@, auth_token)],
        },
        _ => SpecHttpRequest { url: Seq::empty(), headers: Seq::empty() },
    }
}

/// Starts resolving the stream whose master playlist is at `url`.
pub fn _get_playlists(url: &String, auth_token: &String) -> (fetch: PlaylistFetch)
    ensures
        fetch@ == (SpecPlaylistFetch::FetchMaster { url: url@, auth_token: auth_token@ }),
{
    PlaylistFetch::FetchMaster { url: url.clone(), auth_token: auth_token.clone() }
}

impl PlaylistFetch {
    /// Whether the answer cannot be taken (see [`playlist_reply_panics`]); the
    /// caller tests this before [`PlaylistFetch::on_reply`].
    pub fn reply_panics(&self, reply: &PlaylistReply) -> (panics: bool)
        ensures
            panics == playlist_reply_panics(self@, reply@),
    {
        match (self, reply) {
            (PlaylistFetch::FetchMaster { .. }, PlaylistReply::Received(PlaylistInfo::Master { variant_uris })) => variant_uris.len() == 0,
            _ => false,
        }
    }

    /// The request to send next.
    pub fn request(&self) -> (request: HttpRequest)
        requires
            !(self is Finished),
        ensures
            request@ == playlist_spec_request(self@),
    {
        let (url, auth_token) = match self {
            PlaylistFetch::FetchMaster { url, auth_token } => (url, auth_token),
            PlaylistFetch::FetchMedia { uri, auth_token } => (uri, auth_token),
            PlaylistFetch::Finished(_) => {
                proof { assert(false); }
                return HttpRequest { url: String::new(), headers: Vec::new() };
            },
        };
        let mut headers: Vec<(String, String)> = Vec::new();
        push_header(&mut headers, "X-Radiko-AuthToken", auth_token.as_str());
        let request = HttpRequest { url: url.clone(), headers };
        assert(request@.headers =~= playlist_spec_request(self@).headers);
        request
    }

    /// Takes the answer to the request. An answer that cannot be taken
    /// (see [`playlist_reply_panics`]) is refused by `requires`.
    pub fn on_reply(self, reply: PlaylistReply) -> (next: PlaylistFetch)
        requires
            !(self is Finished),
            !playlist_reply_panics(self@, reply@),
        ensures
            next@ == playlist_step(self@, reply@),
    {
        match reply {
            PlaylistReply::Failed => PlaylistFetch::Finished(Err(PlaylistError::Transport)),
            PlaylistReply::Rejected => PlaylistFetch::Finished(Err(PlaylistError::NotFound)),
            PlaylistReply::Received(info) => match self {
                PlaylistFetch::FetchMaster { auth_token, .. } => match info {
                    PlaylistInfo::Master { mut variant_uris } => {
                        let uri = variant_uris.remove(0);
                        PlaylistFetch::FetchMedia { uri, auth_token }
                    },
                    _ => PlaylistFetch::Finished(Err(PlaylistError::NotFound)),
                },
                PlaylistFetch::FetchMedia { .. } => match info {
                    PlaylistInfo::Media { segment_uris } => PlaylistFetch::Finished(Ok(segment_uris)),
                    _ => PlaylistFetch::Finished(Err(PlaylistError::NotFound)),
                },
                PlaylistFetch::Finished(_) => self,
            },
        }
    }
}

} // verus!
