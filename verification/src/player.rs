//! The player: which station plays, with which flags, in which process.
//! Starting and killing the process is the caller's; the player decides.
use vstd::prelude::*;
use vstd::string::StringExecFns;
use crate::stream::{SpecStreamStage, StreamLookup, StreamStage, get_live_stream_info};

verus! {

/// What a player holds.
pub struct PlayerState {
    pub station_id: Option<Seq<char>>,
    pub option_af: bool,
    pub option_tf: bool,
    /// The id of the player process, while one runs.
    pub child_id: Option<u32>,
}

pub open spec fn stopped() -> PlayerState {
    PlayerState { station_id: None, option_af: false, option_tf: false, child_id: None }
}

/// The player after a successful start: the station, its flags and its process.
pub open spec fn playing(station_id: Seq<char>, option_af: bool, option_tf: bool, child_id: u32) -> PlayerState {
    PlayerState { station_id: Some(station_id), option_af, option_tf, child_id: Some(child_id) }
}

/// A player either plays nothing, with its flags cleared, or plays a
/// station in a process.
pub open spec fn consistent(state: PlayerState) -> bool {
    ||| state == stopped()
    ||| state.station_id is Some && state.child_id is Some
}

/// The states that the player's operations leave are consistent: the
/// stopped state, and a started one.
pub proof fn lemma_player_states_consistent(station_id: Seq<char>, option_af: bool, option_tf: bool, child_id: u32)
    ensures
        consistent(stopped()),
        consistent(playing(station_id, option_af, option_tf, child_id)),
{
}

/// What [`Player::stop`] leaves and returns: the stopped state, and the
/// process that ran, to be killed.
pub open spec fn after_stop(state: PlayerState) -> (PlayerState, Option<u32>) {
    (stopped(), state.child_id)
}

/// Stopping twice: the second stop has nothing to kill and changes nothing.
pub proof fn lemma_stop_twice(state: PlayerState)
    ensures
        after_stop(after_stop(state).0) == (stopped(), None::<u32>),
        after_stop(after_stop(state).0).0 == after_stop(state).0,
{
}

pub struct Player {
    station_id: Option<String>,
    option_af: bool,
    option_tf: bool,
    child_id: Option<u32>,
}

impl View for Player {
    type V = PlayerState;

    closed spec fn view(&self) -> PlayerState {
        PlayerState {
            station_id: self.station_id.deep_view(),
            option_af: self.option_af,
            option_tf: self.option_tf,
            child_id: self.child_id,
        }
    }
}

/// The arguments of the player process for a live playlist URL and its token.
pub open spec fn spec_play_args(url: Seq<char>, auth_token: Seq<char>) -> Seq<Seq<char>> {
    seq!["-headers"@, "X-Radiko-AuthToken:"@ + auth_token, "-i"@, url, "-nodisp"@]
}

/// The arguments of the player process (`ffplay`) for a live playlist URL
/// and its token.
pub fn play_args(url: &String, auth_token: &String) -> (args: Vec<String>)
    ensures
        args.deep_view() == spec_play_args(url@, auth_token@),
{
    let mut args: Vec<String> = Vec::new();
    args.push("-headers".to_owned());
    args.push("X-Radiko-AuthToken:".to_owned().concat(auth_token.as_str()));
    args.push("-i".to_owned());
    args.push(url.clone());
    args.push("-nodisp".to_owned());
    assert(args.deep_view() =~= spec_play_args(url@, auth_token@));
    args
}

impl Player {
    /// Every player, whatever calls reached it, is consistent.
    #[verifier::type_invariant]
    spec fn well_formed(self) -> bool {
        consistent(self@)
    }

    /// A player that plays nothing.
    pub fn new() -> (player: Player)
        ensures
            player@ == stopped(),
            consistent(player@),
    {
        Player { station_id: None, option_af: false, option_tf: false, child_id: None }
    }

    /// Stops playing. Returns the id of the process to kill, if one runs.
    pub fn stop(&mut self) -> (kill: Option<u32>)
        ensures
            kill == old(self)@.child_id,
            final(self)@ == stopped(),
            (final(self)@, kill) == after_stop(old(self)@),
            consistent(final(self)@),
    {
        let kill = self.child_id;
        *self = Player { station_id: None, option_af: false, option_tf: false, child_id: None };
        kill
    }

    /// Starts playing `station_id`: stops first (returning the process to
    /// kill), then hands back the lookup of the station's live stream for
    /// the flags, to be driven by the caller.
    pub fn play(&mut self, station_id: &String, option_af: bool, option_tf: bool) -> (started: (Option<u32>, StreamLookup))
        ensures
            started.0 == old(self)@.child_id,
            final(self)@ == stopped(),
            started.1.station_id@ == station_id@,
            started.1.timefree == option_tf,
            started.1.areafree == option_af,
            started.1.stage@ == SpecStreamStage::CheckStation,
            consistent(final(self)@),
    {
        let kill = self.stop();
        (kill, get_live_stream_info(station_id, option_tf, option_af))
    }

    /// The process arguments for a finished lookup that found a stream;
    /// `None` where it found none (nothing is to be started).
    pub fn player_args(lookup: &StreamLookup) -> (args: Option<Vec<String>>)
        requires
            lookup.stage is Finished,
        ensures
            match lookup.stage@ {
                SpecStreamStage::Finished(Some((token, url))) => args matches Some(a) && a.deep_view() == spec_play_args(url, token),
                _ => args is None,
            },
    {
        match &lookup.stage {
            StreamStage::Finished(Some((auth, url))) => Some(play_args(url, auth)),
            _ => None,
        }
    }

    /// Takes the outcome of starting the process for a finished lookup that
    /// found a stream: the process id, or `None` where it could not start.
    pub fn on_started(&mut self, lookup: &StreamLookup, child_id: Option<u32>)
        ensures
            final(self)@ == match child_id {
                Some(id) => playing(lookup.station_id@, lookup.areafree, lookup.timefree, id),
                None => old(self)@,
            },
            consistent(final(self)@),
    {
        proof {
            use_type_invariant(&*self);
        }
        if let Some(id) = child_id {
            *self = Player {
                station_id: Some(lookup.station_id.clone()),
                option_af: lookup.areafree,
                option_tf: lookup.timefree,
                child_id: Some(id),
            };
        }
    }

    /// The station being played.
    /// Whatever calls reached the player, a station plays exactly while a
    /// process runs, and the flags are cleared while none plays.
    pub fn get_station_id(&self) -> (station_id: Option<String>)
        ensures
            station_id.deep_view() == self@.station_id,
            consistent(self@),
            self@.station_id is Some <==> self@.child_id is Some,
            self@.station_id is None ==> !self@.option_af && !self@.option_tf,
    {
        proof {
            use_type_invariant(self);
        }
        match &self.station_id {
            Some(id) => Some(id.clone()),
            None => None,
        }
    }

    pub fn get_option_af(&self) -> (af: bool)
        ensures
            af == self@.option_af,
    {
        self.option_af
    }

    pub fn get_option_tf(&self) -> (tf: bool)
        ensures
            tf == self@.option_tf,
    {
        self.option_tf
    }

    /// The id of the player process, while one runs.
    pub fn get_child_id(&self) -> (child_id: Option<u32>)
        ensures
            child_id == self@.child_id,
            consistent(self@),
    {
        proof {
            use_type_invariant(self);
        }
        self.child_id
    }
}

} // verus!
