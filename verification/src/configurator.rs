use vstd::prelude::*;

verus! {

/// The match settings file up to the settings of the game mode.
pub const PLAYLIST_HEAD: &'static str = "<?xml version=\"1.0\" encoding=\"utf-8\" ?>
<playlist>
\t<gameinfos>
\t\t<game_mode>0</game_mode>
\t\t<script_name>Trackmania/TM_Rounds_Online</script_name>
\t</gameinfos>

  \t<script_settings>
    \t<setting name=\"S_UseTieBreak\" value=\"\" type=\"boolean\"/>
    \t<setting name=\"S_WarmUpNb\" value=\"0\" type=\"integer\"/>
    \t<setting name=\"S_WarmUpDuration\" value=\"60\" type=\"integer\"/>
    \t<setting name=\"S_ChatTime\" value=\"10\" type=\"integer\"/>
    \t<setting name=\"S_UseClublinks\" value=\"\" type=\"boolean\"/>
    \t<setting name=\"S_UseClublinksSponsors\" value=\"\" type=\"boolean\"/>
    \t<setting name=\"S_NeutralEmblemUrl\" value=\"\" type=\"text\"/>
    \t<setting name=\"S_ScriptEnvironment\" value=\"production\" type=\"text\"/>
    \t<setting name=\"S_IsChannelServer\" value=\"\" type=\"boolean\"/>
    \t<setting name=\"S_RespawnBehaviour\" value=\"-1\" type=\"integer\"/>
    \t<setting name=\"S_HideOpponents\" value=\"\" type=\"boolean\"/>
    \t<setting name=\"S_UseLegacyXmlRpcCallbacks\" value=\"1\" type=\"boolean\"/>
    \t<setting name=\"S_UseAlternateRules\" value=\"\" type=\"boolean\"/>
    \t<setting name=\"S_ForceLapsNb\" value=\"-1\" type=\"integer\"/>
    \t<setting name=\"S_DisplayTimeDiff\" value=\"\" type=\"boolean\"/>
\t\t";

/// The match settings file after the settings of the game mode: the two maps of the playlist.
pub const PLAYLIST_TAIL: &'static str = "
\t</script_settings>

\t<startindex>0</startindex>
\t<map><file>Campaigns/Training/Training - 09.Map.Gbx</file></map>
    <map><file>Campaigns/Training/Training - 10.Map.Gbx</file></map>
</playlist>";

/// The match settings file that a server loads for a tournament: the fixed playlist with the
/// settings of the game mode (`<setting .../>` lines) in its script settings.
pub fn match_settings(mode_settings: &str) -> (r: String)
    ensures
        r@ == PLAYLIST_HEAD@ + mode_settings@ + PLAYLIST_TAIL@,
{
    String::from_str(PLAYLIST_HEAD).concat(mode_settings).concat(PLAYLIST_TAIL)
}

/// The number of maps of the playlist.
pub const PLAYLIST_MAPS: i32 = 2;

/// Whether the server loaded the settings as they are meant: the load must report the maps of
/// the playlist. Only then is the tournament mode announced and the map restarted.
pub fn settings_loaded(loaded_maps: Option<i32>) -> (r: bool)
    ensures
        r == (loaded_maps == Some(PLAYLIST_MAPS)),
{
    match loaded_maps {
        Some(n) => n == PLAYLIST_MAPS,
        None => false,
    }
}

} // verus!
