//! The HTTP interface's decisions: the status it reports and the commands
//! it accepts (`play` and `stop`).
use vstd::prelude::*;
use vstd::string::StringExecFns;
use crate::player::Player;
use crate::record::same_text;

verus! {

/// The station status exchanged with clients: the station id and its
/// area-free and time-free flags.
pub struct Station {
    pub id: Option<String>,
    pub af: bool,
    pub tf: bool,
}

/// The status that `GET /radrad` reports: what the player plays.
pub fn station_status(player: &Player) -> (station: Station)
    ensures
        station.id.deep_view() == player@.station_id,
        station.af == player@.option_af,
        station.tf == player@.option_tf,
{
    Station { id: player.get_station_id(), af: player.get_option_af(), tf: player.get_option_tf() }
}

/// What a `POST /radrad/{cmd}` request asks for.
pub enum RadradAction {
    /// Play the station with the flags, then answer "ok".
    Play { station_id: String, af: bool, tf: bool },
    /// Stop playing, then answer "ok".
    Stop,
    /// Answer "not found" with this body.
    NotFound(String),
}

pub open spec fn run_error_spec_body(cmd: Seq<char>) -> Seq<char> {
    "An error occurred while running '"@ + cmd + "'"@
}

pub open spec fn unknown_command_spec_body(cmd: Seq<char>) -> Seq<char> {
    "'"@ + cmd + "' is not found."@
}

/// The body of the answer when running `cmd` failed.
pub fn run_error_body(cmd: &str) -> (body: String)
    ensures
        body@ == run_error_spec_body(cmd@),
{
    "An error occurred while running '".to_owned().concat(cmd).concat("'")
}

/// The body of the answer to an unknown command.
pub fn unknown_command_body(cmd: &str) -> (body: String)
    ensures
        body@ == unknown_command_spec_body(cmd@),
{
    "'".to_owned().concat(cmd).concat("' is not found.")
}

/// Decides the command `cmd` with the posted station: `play` needs a
/// station id, `stop` needs nothing, anything else is unknown.
pub fn radrad(cmd: &str, station: &Station) -> (action: RadradAction)
    ensures
        cmd@ == "play"@ ==> match station.id {
            Some(id) => (action matches RadradAction::Play { station_id, af, tf }
                && station_id@ == id@ && af == station.af && tf == station.tf),
            None => (action matches RadradAction::NotFound(body) && body@ == run_error_spec_body(cmd@)),
        },
        cmd@ == "stop"@ ==> action is Stop,
        cmd@ != "play"@ && cmd@ != "stop"@ ==> (action matches RadradAction::NotFound(body)
            && body@ == unknown_command_spec_body(cmd@)),
{
    proof {
        reveal_strlit("play");
        reveal_strlit("stop");
        assert("play"@[1] != "stop"@[1]);
    }
    if same_text(cmd, "play") {
        match &station.id {
            Some(id) => RadradAction::Play { station_id: id.clone(), af: station.af, tf: station.tf },
            None => RadradAction::NotFound(run_error_body(cmd)),
        }
    } else if same_text(cmd, "stop") {
        RadradAction::Stop
    } else {
        RadradAction::NotFound(unknown_command_body(cmd))
    }
}

} // verus!
