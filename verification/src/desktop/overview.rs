//! The dashboard overview: the player count and the verified server
//! settings that `GetServerSetting` exposes.
use vstd::prelude::*;
use vstd::string::*;

use crate::desktop::app_error::AppError;
use crate::desktop::players::unparsable_reply;
use crate::parsers::{
    listplayers_result, parse_error_text, parse_get_server_setting, parse_listplayers,
    player_views, server_setting_result, Player,
};
use crate::text::views;

verus! {

/// One setting shown on the dashboard.
#[derive(Clone, Debug)]
pub struct ServerSetting {
    pub key: String,
    pub value: String,
}

/// The figures shown above the player table.
#[derive(Clone, Debug)]
pub struct ServerOverview {
    /// Number of players connected, from `listplayers`.
    pub player_count: u32,
    /// The settings that have a value; absent or unreadable ones are left out.
    pub settings: Vec<ServerSetting>,
}

/// The settings the dashboard reads, in order. Others are either unknown to
/// `GetServerSetting` or live in other ini files.
pub open spec fn overview_key_list() -> Seq<Seq<char>> {
    seq![
        "PVPEnabled"@,
        "ServerRegion"@,
        "HarvestAmountMultiplier"@,
        "ItemSpoilRateScale"@,
        "ResourceRespawnSpeedMultiplier"@,
        "StaminaCostMultiplier"@,
        "ClanMaxSize"@,
        "ChatMaxMessageLength"@,
        "IsBattlEyeEnabled"@,
    ]
}

/// The settings the dashboard reads, in order.
pub fn overview_keys() -> (keys: Vec<&'static str>)
    ensures
        views(keys@) == overview_key_list(),
{
    let keys = vec![
        "PVPEnabled",
        "ServerRegion",
        "HarvestAmountMultiplier",
        "ItemSpoilRateScale",
        "ResourceRespawnSpeedMultiplier",
        "StaminaCostMultiplier",
        "ClanMaxSize",
        "ChatMaxMessageLength",
        "IsBattlEyeEnabled",
    ];
    assert(views(keys@) =~= overview_key_list());
    keys
}

/// The dashboard entry for `key` given the server's reply `body`: shown
/// only when the reply parses to a non-empty value; a missing key or an
/// unreadable reply leaves the key out rather than failing the overview.
pub fn overview_setting(key: &str, body: &str) -> (r: Option<ServerSetting>)
    ensures
        match server_setting_result(body@, key@) {
            Ok(Some(v)) => if v.len() > 0 {
                r matches Some(s) && s.key@ == key@ && s.value@ == v
            } else {
                r is None
            },
            _ => r is None,
        },
{
    match parse_get_server_setting(body, key) {
        Ok(Some(value)) => if value.as_str().is_empty() {
            None
        } else {
            Some(ServerSetting { key: key.to_owned(), value })
        },
        _ => None,
    }
}

/// The players in the `listplayers` reply that the overview counts, or the
/// error the overview reports when the reply does not parse.
pub fn overview_players(body: &str) -> (r: Result<Vec<Player>, AppError>)
    ensures
        match listplayers_result(body@) {
            Ok(ps) => r matches Ok(v) && player_views(v@) == ps,
            Err(e) => r matches Err(AppError::Rcon { message }) && message@
                == "could not parse listplayers: "@ + parse_error_text(e),
        },
{
    match parse_listplayers(body) {
        Ok(players) => Ok(players),
        Err(e) => Err(unparsable_reply("could not parse listplayers: ", e)),
    }
}

impl ServerOverview {
    /// The overview of a server with `players` online and `settings` shown;
    /// the count is that of the list, as a `u32`.
    pub fn new(players: &Vec<Player>, settings: Vec<ServerSetting>) -> (o: ServerOverview)
        ensures
            o.player_count == players@.len() as u32,
            o.settings == settings,
    {
        ServerOverview { player_count: players.len() as u32, settings }
    }
}

} // verus!
