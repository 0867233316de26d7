//! The configuration document: the API token, the cloud credentials, the
//! download directory and the saved-games list, as one JSON object.  The
//! saved games carry the user-attached launch configuration and icon, so the
//! document must read back exactly as written; serializer and parser are
//! proved mutually inverse, like the registry document's.

use vstd::prelude::*;

use crate::codec::lemma_opt_string_roundtrip;
use crate::codec::parse_opt_string_at;
use crate::codec::ser_opt_string;
use crate::codec::spec_parse_opt_string;
use crate::codec::spec_ser_opt_string;
use crate::json::chars_to_string;
use crate::json::lemma_bool_roundtrip;
use crate::json::lemma_parse_lit_self;
use crate::json::lemma_string_roundtrip;
use crate::json::parse_bool_at;
use crate::json::parse_lit_at;
use crate::json::parse_string_at;
use crate::json::push_str_chars;
use crate::json::ser_bool;
use crate::json::ser_string;
use crate::json::spec_parse_bool;
use crate::json::spec_parse_lit;
use crate::json::spec_parse_string;
use crate::json::spec_ser_bool;
use crate::json::spec_ser_string;
use crate::json::str_to_chars;
use crate::settings::opt_launch_view;
use crate::settings::AppState;
use crate::settings::AppStateView;
use crate::settings::CloudinaryConfig;
use crate::settings::CloudinaryConfigView;
use crate::settings::DownloadedGameInfo;
use crate::settings::DownloadedGameInfoView;
use crate::settings::LaunchConfig;
use crate::settings::LaunchConfigView;

verus! {

// ---------------------------------------------------------------------------
// Launch configuration.
// ---------------------------------------------------------------------------

/// A launch configuration in its stored form.
pub open spec fn spec_ser_launch(c: LaunchConfigView) -> Seq<char> {
    "{\"executablePath\":"@ + spec_ser_string(c.executable_path) + ",\"launchMethod\":"@
        + spec_ser_string(c.launch_method) + ",\"customCommand\":"@ + spec_ser_opt_string(
        c.custom_command,
    ) + "}"@
}

/// Parse a stored launch configuration.
pub open spec fn spec_parse_launch(s: Seq<char>) -> Option<(LaunchConfigView, Seq<char>)> {
    match spec_parse_lit(s, "{\"executablePath\":"@) {
        None => None,
        Some(s1) => match spec_parse_string(s1) {
            None => None,
            Some((executable_path, s2)) => match spec_parse_lit(s2, ",\"launchMethod\":"@) {
                None => None,
                Some(s3) => match spec_parse_string(s3) {
                    None => None,
                    Some((launch_method, s4)) => match spec_parse_lit(s4, ",\"customCommand\":"@) {
                        None => None,
                        Some(s5) => match spec_parse_opt_string(s5) {
                            None => None,
                            Some((custom_command, s6)) => match spec_parse_lit(s6, "}"@) {
                                None => None,
                                Some(s7) => Some(
                                    (
                                        LaunchConfigView {
                                            executable_path,
                                            launch_method,
                                            custom_command,
                                        },
                                        s7,
                                    ),
                                ),
                            },
                        },
                    },
                },
            },
        },
    }
}

/// The launch-configuration parser inverts its serializer.
pub proof fn lemma_launch_roundtrip(c: LaunchConfigView, rest: Seq<char>)
    ensures
        spec_parse_launch(spec_ser_launch(c) + rest) == Some((c, rest)),
{
    reveal_strlit("{\"executablePath\":");
    reveal_strlit(",\"launchMethod\":");
    reveal_strlit(",\"customCommand\":");
    reveal_strlit("}");
    let t7 = rest;
    let t6 = "}"@ + t7;
    let t5 = spec_ser_opt_string(c.custom_command) + t6;
    let t4 = ",\"customCommand\":"@ + t5;
    let t3 = spec_ser_string(c.launch_method) + t4;
    let t2 = ",\"launchMethod\":"@ + t3;
    let t1 = spec_ser_string(c.executable_path) + t2;
    let t0 = "{\"executablePath\":"@ + t1;
    assert(spec_ser_launch(c) + rest =~= t0);
    lemma_parse_lit_self("{\"executablePath\":"@, t1);
    lemma_string_roundtrip(c.executable_path, t2);
    lemma_parse_lit_self(",\"launchMethod\":"@, t3);
    lemma_string_roundtrip(c.launch_method, t4);
    lemma_parse_lit_self(",\"customCommand\":"@, t5);
    lemma_opt_string_roundtrip(c.custom_command, t6);
    lemma_parse_lit_self("}"@, t7);
}

/// An optional launch configuration: `null` or the object.
pub open spec fn spec_ser_opt_launch(o: Option<LaunchConfigView>) -> Seq<char> {
    match o {
        None => "null"@,
        Some(c) => spec_ser_launch(c),
    }
}

/// Parse `null` or a stored launch configuration.
pub open spec fn spec_parse_opt_launch(s: Seq<char>) -> Option<
    (Option<LaunchConfigView>, Seq<char>),
> {
    match spec_parse_lit(s, "null"@) {
        Some(rest) => Some((None, rest)),
        None => match spec_parse_launch(s) {
            Some((c, rest)) => Some((Some(c), rest)),
            None => None,
        },
    }
}

/// The optional form round-trips.
pub proof fn lemma_opt_launch_roundtrip(o: Option<LaunchConfigView>, rest: Seq<char>)
    ensures
        spec_parse_opt_launch(spec_ser_opt_launch(o) + rest) == Some((o, rest)),
{
    reveal_strlit("null");
    reveal_strlit("{\"executablePath\":");
    match o {
        None => {
            lemma_parse_lit_self("null"@, rest);
        },
        Some(c) => {
            let t = spec_ser_launch(c) + rest;
            assert(t[0] == '{');
            if t.len() >= 4 && t.take(4) == "null"@ {
                assert(t.take(4)[0] == 'n');
            }
            lemma_launch_roundtrip(c, rest);
        },
    }
}

// ---------------------------------------------------------------------------
// One saved game, and the list of them.
// ---------------------------------------------------------------------------

/// The stored form's opening segment: id, filename and path.
pub open spec fn spec_ser_game_head(g: DownloadedGameInfoView) -> Seq<char> {
    "{\"id\":"@ + spec_ser_string(g.id) + ",\"filename\":"@ + spec_ser_string(g.filename)
        + ",\"path\":"@ + spec_ser_string(g.path)
}

/// The stored form's closing segment: the extraction fields, the launch
/// configuration and the icon.
pub open spec fn spec_ser_game_close(g: DownloadedGameInfoView) -> Seq<char> {
    ",\"extracted\":"@ + spec_ser_bool(g.extracted) + ",\"extracted_path\":"@
        + spec_ser_opt_string(g.extracted_path) + ",\"downloaded_at\":"@ + spec_ser_opt_string(
        g.downloaded_at,
    ) + ",\"launch_config\":"@ + spec_ser_opt_launch(g.launch_config) + ",\"icon_path\":"@
        + spec_ser_opt_string(g.icon_path) + "}"@
}

/// A saved game in its stored form.
pub open spec fn spec_ser_game(g: DownloadedGameInfoView) -> Seq<char> {
    spec_ser_game_head(g) + spec_ser_game_close(g)
}

/// Parse a stored saved game.
pub open spec fn spec_parse_game(s: Seq<char>) -> Option<(DownloadedGameInfoView, Seq<char>)> {
    match spec_parse_lit(s, "{\"id\":"@) {
        None => None,
        Some(s1) => match spec_parse_string(s1) {
            None => None,
            Some((id, s2)) => match spec_parse_lit(s2, ",\"filename\":"@) {
                None => None,
                Some(s3) => match spec_parse_string(s3) {
                    None => None,
                    Some((filename, s4)) => match spec_parse_lit(s4, ",\"path\":"@) {
                        None => None,
                        Some(s5) => match spec_parse_string(s5) {
                            None => None,
                            Some((path, s6)) => spec_parse_game_tail(s6, id, filename, path),
                        },
                    },
                },
            },
        },
    }
}

/// Parse a stored saved game from its `extracted` field on.
pub open spec fn spec_parse_game_tail(
    s: Seq<char>,
    id: Seq<char>,
    filename: Seq<char>,
    path: Seq<char>,
) -> Option<(DownloadedGameInfoView, Seq<char>)> {
    match spec_parse_lit(s, ",\"extracted\":"@) {
        None => None,
        Some(s7) => match spec_parse_bool(s7) {
            None => None,
            Some((extracted, s8)) => match spec_parse_lit(s8, ",\"extracted_path\":"@) {
                None => None,
                Some(s9) => match spec_parse_opt_string(s9) {
                    None => None,
                    Some((extracted_path, s10)) => match spec_parse_lit(
                        s10,
                        ",\"downloaded_at\":"@,
                    ) {
                        None => None,
                        Some(s11) => match spec_parse_opt_string(s11) {
                            None => None,
                            Some((downloaded_at, s12)) => match spec_parse_lit(
                                s12,
                                ",\"launch_config\":"@,
                            ) {
                                None => None,
                                Some(s13) => match spec_parse_opt_launch(s13) {
                                    None => None,
                                    Some((launch_config, s14)) => match spec_parse_lit(
                                        s14,
                                        ",\"icon_path\":"@,
                                    ) {
                                        None => None,
                                        Some(s15) => match spec_parse_opt_string(s15) {
                                            None => None,
                                            Some((icon_path, s16)) => match spec_parse_lit(
                                                s16,
                                                "}"@,
                                            ) {
                                                None => None,
                                                Some(s17) => Some(
                                                    (
                                                        DownloadedGameInfoView {
                                                            id,
                                                            filename,
                                                            path,
                                                            extracted,
                                                            extracted_path,
                                                            downloaded_at,
                                                            launch_config,
                                                            icon_path,
                                                        },
                                                        s17,
                                                    ),
                                                ),
                                            },
                                        },
                                    },
                                },
                            },
                        },
                    },
                },
            },
        },
    }
}

/// The closing-segment parser inverts its serializer.
#[verifier::rlimit(100)]
pub proof fn lemma_game_close_roundtrip(g: DownloadedGameInfoView, rest: Seq<char>)
    ensures
        spec_parse_game_tail(spec_ser_game_close(g) + rest, g.id, g.filename, g.path) == Some(
            (g, rest),
        ),
{
    reveal_strlit(",\"extracted\":");
    reveal_strlit(",\"extracted_path\":");
    reveal_strlit(",\"downloaded_at\":");
    reveal_strlit(",\"launch_config\":");
    reveal_strlit(",\"icon_path\":");
    reveal_strlit("}");
    let t17 = rest;
    let t16 = "}"@ + t17;
    let t15 = spec_ser_opt_string(g.icon_path) + t16;
    let t14 = ",\"icon_path\":"@ + t15;
    let t13 = spec_ser_opt_launch(g.launch_config) + t14;
    let t12 = ",\"launch_config\":"@ + t13;
    let t11 = spec_ser_opt_string(g.downloaded_at) + t12;
    let t10 = ",\"downloaded_at\":"@ + t11;
    let t9 = spec_ser_opt_string(g.extracted_path) + t10;
    let t8 = ",\"extracted_path\":"@ + t9;
    let t7 = spec_ser_bool(g.extracted) + t8;
    let t6 = ",\"extracted\":"@ + t7;
    assert(spec_ser_game_close(g) + rest =~= t6);
    lemma_parse_lit_self(",\"extracted\":"@, t7);
    lemma_bool_roundtrip(g.extracted, t8);
    lemma_parse_lit_self(",\"extracted_path\":"@, t9);
    lemma_opt_string_roundtrip(g.extracted_path, t10);
    lemma_parse_lit_self(",\"downloaded_at\":"@, t11);
    lemma_opt_string_roundtrip(g.downloaded_at, t12);
    lemma_parse_lit_self(",\"launch_config\":"@, t13);
    lemma_opt_launch_roundtrip(g.launch_config, t14);
    lemma_parse_lit_self(",\"icon_path\":"@, t15);
    lemma_opt_string_roundtrip(g.icon_path, t16);
    lemma_parse_lit_self("}"@, t17);
}

/// The saved-game parser inverts its serializer.
#[verifier::rlimit(100)]
pub proof fn lemma_game_roundtrip(g: DownloadedGameInfoView, rest: Seq<char>)
    ensures
        spec_parse_game(spec_ser_game(g) + rest) == Some((g, rest)),
{
    reveal_strlit("{\"id\":");
    reveal_strlit(",\"filename\":");
    reveal_strlit(",\"path\":");
    let t6 = spec_ser_game_close(g) + rest;
    let t5 = spec_ser_string(g.path) + t6;
    let t4 = ",\"path\":"@ + t5;
    let t3 = spec_ser_string(g.filename) + t4;
    let t2 = ",\"filename\":"@ + t3;
    let t1 = spec_ser_string(g.id) + t2;
    let t0 = "{\"id\":"@ + t1;
    assert(spec_ser_game(g) + rest =~= t0);
    lemma_parse_lit_self("{\"id\":"@, t1);
    lemma_string_roundtrip(g.id, t2);
    lemma_parse_lit_self(",\"filename\":"@, t3);
    lemma_string_roundtrip(g.filename, t4);
    lemma_parse_lit_self(",\"path\":"@, t5);
    lemma_string_roundtrip(g.path, t6);
    lemma_game_close_roundtrip(g, rest);
}

/// The saved games as a stored array's inside, comma separated.
pub open spec fn spec_ser_games(gs: Seq<DownloadedGameInfoView>) -> Seq<char>
    decreases gs.len(),
{
    if gs.len() == 0 {
        Seq::<char>::empty()
    } else if gs.len() == 1 {
        spec_ser_game(gs[0])
    } else {
        spec_ser_game(gs[0]) + ","@ + spec_ser_games(gs.drop_first())
    }
}

/// Parse one or more comma-separated saved games, stopping before a `]`.
pub open spec fn spec_parse_games_ne(s: Seq<char>) -> Option<
    (Seq<DownloadedGameInfoView>, Seq<char>),
>
    decreases s.len(),
{
    match spec_parse_game(s) {
        None => None,
        Some((g, rest)) => {
            if rest.len() > 0 && rest[0] == ',' {
                if rest.skip(1).len() < s.len() {
                    match spec_parse_games_ne(rest.skip(1)) {
                        Some((gs, rest2)) => Some((seq![g] + gs, rest2)),
                        None => None,
                    }
                } else {
                    None
                }
            } else {
                Some((seq![g], rest))
            }
        },
    }
}

/// Parse a stored array of saved games, brackets included.
pub open spec fn spec_parse_games(s: Seq<char>) -> Option<
    (Seq<DownloadedGameInfoView>, Seq<char>),
> {
    match spec_parse_lit(s, "["@) {
        None => None,
        Some(s1) => {
            if s1.len() > 0 && s1[0] == ']' {
                Some((Seq::<DownloadedGameInfoView>::empty(), s1.drop_first()))
            } else {
                match spec_parse_games_ne(s1) {
                    None => None,
                    Some((gs, rest)) => {
                        if rest.len() > 0 && rest[0] == ']' {
                            Some((gs, rest.drop_first()))
                        } else {
                            None
                        }
                    },
                }
            }
        },
    }
}

/// The stored array of saved games, brackets included.
pub open spec fn spec_ser_games_array(gs: Seq<DownloadedGameInfoView>) -> Seq<char> {
    "["@ + spec_ser_games(gs) + "]"@
}

/// The non-empty games parser inverts its serializer whenever a `]` follows.
#[verifier::rlimit(100)]
pub proof fn lemma_games_ne_roundtrip(gs: Seq<DownloadedGameInfoView>, rest: Seq<char>)
    requires
        gs.len() >= 1,
        rest.len() > 0,
        rest[0] == ']',
    ensures
        spec_parse_games_ne(spec_ser_games(gs) + rest) == Some((gs, rest)),
    decreases gs.len(),
{
    reveal_strlit(",");
    reveal_strlit("{\"id\":");
    if gs.len() == 1 {
        let t = spec_ser_game(gs[0]) + rest;
        assert(spec_ser_games(gs) + rest =~= t);
        lemma_game_roundtrip(gs[0], rest);
        assert(seq![gs[0]] =~= gs);
    } else {
        lemma_games_ne_roundtrip(gs.drop_first(), rest);
        let t2 = spec_ser_games(gs.drop_first()) + rest;
        let t1 = ","@ + t2;
        let t0 = spec_ser_game(gs[0]) + t1;
        assert(spec_ser_games(gs) + rest =~= t0);
        lemma_game_roundtrip(gs[0], t1);
        assert(t1[0] == ',');
        assert(t1.skip(1) =~= t2);
        assert(t0.len() >= t1.len() + 2);
        assert(seq![gs[0]] + gs.drop_first() =~= gs);
    }
}

/// The bracketed array round-trips.
pub proof fn lemma_games_array_roundtrip(gs: Seq<DownloadedGameInfoView>, rest: Seq<char>)
    ensures
        spec_parse_games(spec_ser_games_array(gs) + rest) == Some((gs, rest)),
{
    reveal_strlit("[");
    reveal_strlit("]");
    reveal_strlit("{\"id\":");
    let t2 = "]"@ + rest;
    let t1 = spec_ser_games(gs) + t2;
    let t0 = "["@ + t1;
    assert(spec_ser_games_array(gs) + rest =~= t0);
    lemma_parse_lit_self("["@, t1);
    if gs.len() == 0 {
        assert(t1 =~= t2);
        assert(t1[0] == ']');
        assert(t1.drop_first() =~= rest);
    } else {
        assert(spec_ser_game(gs[0])[0] == '{');
        assert(t1[0] == '{');
        lemma_games_ne_roundtrip(gs, t2);
        assert(t2.drop_first() =~= rest);
    }
}

/// The optional games list: `null` or the array.
pub open spec fn spec_ser_opt_games(o: Option<Seq<DownloadedGameInfoView>>) -> Seq<char> {
    match o {
        None => "null"@,
        Some(gs) => spec_ser_games_array(gs),
    }
}

/// Parse `null` or a stored array of saved games.
pub open spec fn spec_parse_opt_games(s: Seq<char>) -> Option<
    (Option<Seq<DownloadedGameInfoView>>, Seq<char>),
> {
    match spec_parse_lit(s, "null"@) {
        Some(rest) => Some((None, rest)),
        None => match spec_parse_games(s) {
            Some((gs, rest)) => Some((Some(gs), rest)),
            None => None,
        },
    }
}

/// The optional form round-trips.
pub proof fn lemma_opt_games_roundtrip(o: Option<Seq<DownloadedGameInfoView>>, rest: Seq<char>)
    ensures
        spec_parse_opt_games(spec_ser_opt_games(o) + rest) == Some((o, rest)),
{
    reveal_strlit("null");
    reveal_strlit("[");
    match o {
        None => {
            lemma_parse_lit_self("null"@, rest);
        },
        Some(gs) => {
            let t = spec_ser_games_array(gs) + rest;
            assert(t[0] == '[');
            if t.len() >= 4 && t.take(4) == "null"@ {
                assert(t.take(4)[0] == 'n');
            }
            lemma_games_array_roundtrip(gs, rest);
        },
    }
}

// ---------------------------------------------------------------------------
// Cloud credentials and the whole document.
// ---------------------------------------------------------------------------

/// The cloud credentials in their stored form.
pub open spec fn spec_ser_cloudinary(c: CloudinaryConfigView) -> Seq<char> {
    "{\"cloud_name\":"@ + spec_ser_string(c.cloud_name) + ",\"api_key\":"@ + spec_ser_string(
        c.api_key,
    ) + ",\"api_secret\":"@ + spec_ser_string(c.api_secret) + "}"@
}

/// Parse stored cloud credentials.
pub open spec fn spec_parse_cloudinary(s: Seq<char>) -> Option<(CloudinaryConfigView, Seq<char>)> {
    match spec_parse_lit(s, "{\"cloud_name\":"@) {
        None => None,
        Some(s1) => match spec_parse_string(s1) {
            None => None,
            Some((cloud_name, s2)) => match spec_parse_lit(s2, ",\"api_key\":"@) {
                None => None,
                Some(s3) => match spec_parse_string(s3) {
                    None => None,
                    Some((api_key, s4)) => match spec_parse_lit(s4, ",\"api_secret\":"@) {
                        None => None,
                        Some(s5) => match spec_parse_string(s5) {
                            None => None,
                            Some((api_secret, s6)) => match spec_parse_lit(s6, "}"@) {
                                None => None,
                                Some(s7) => Some(
                                    (CloudinaryConfigView { cloud_name, api_key, api_secret }, s7),
                                ),
                            },
                        },
                    },
                },
            },
        },
    }
}

/// The credentials parser inverts its serializer.
pub proof fn lemma_cloudinary_roundtrip(c: CloudinaryConfigView, rest: Seq<char>)
    ensures
        spec_parse_cloudinary(spec_ser_cloudinary(c) + rest) == Some((c, rest)),
{
    reveal_strlit("{\"cloud_name\":");
    reveal_strlit(",\"api_key\":");
    reveal_strlit(",\"api_secret\":");
    reveal_strlit("}");
    let t7 = rest;
    let t6 = "}"@ + t7;
    let t5 = spec_ser_string(c.api_secret) + t6;
    let t4 = ",\"api_secret\":"@ + t5;
    let t3 = spec_ser_string(c.api_key) + t4;
    let t2 = ",\"api_key\":"@ + t3;
    let t1 = spec_ser_string(c.cloud_name) + t2;
    let t0 = "{\"cloud_name\":"@ + t1;
    assert(spec_ser_cloudinary(c) + rest =~= t0);
    lemma_parse_lit_self("{\"cloud_name\":"@, t1);
    lemma_string_roundtrip(c.cloud_name, t2);
    lemma_parse_lit_self(",\"api_key\":"@, t3);
    lemma_string_roundtrip(c.api_key, t4);
    lemma_parse_lit_self(",\"api_secret\":"@, t5);
    lemma_string_roundtrip(c.api_secret, t6);
    lemma_parse_lit_self("}"@, t7);
}

/// Optional cloud credentials: `null` or the object.
pub open spec fn spec_ser_opt_cloudinary(o: Option<CloudinaryConfigView>) -> Seq<char> {
    match o {
        None => "null"@,
        Some(c) => spec_ser_cloudinary(c),
    }
}

/// Parse `null` or stored cloud credentials.
pub open spec fn spec_parse_opt_cloudinary(s: Seq<char>) -> Option<
    (Option<CloudinaryConfigView>, Seq<char>),
> {
    match spec_parse_lit(s, "null"@) {
        Some(rest) => Some((None, rest)),
        None => match spec_parse_cloudinary(s) {
            Some((c, rest)) => Some((Some(c), rest)),
            None => None,
        },
    }
}

/// The optional form round-trips.
pub proof fn lemma_opt_cloudinary_roundtrip(o: Option<CloudinaryConfigView>, rest: Seq<char>)
    ensures
        spec_parse_opt_cloudinary(spec_ser_opt_cloudinary(o) + rest) == Some((o, rest)),
{
    reveal_strlit("null");
    reveal_strlit("{\"cloud_name\":");
    match o {
        None => {
            lemma_parse_lit_self("null"@, rest);
        },
        Some(c) => {
            let t = spec_ser_cloudinary(c) + rest;
            assert(t[0] == '{');
            if t.len() >= 4 && t.take(4) == "null"@ {
                assert(t.take(4)[0] == 'n');
            }
            lemma_cloudinary_roundtrip(c, rest);
        },
    }
}

/// The whole configuration document.
pub open spec fn spec_ser_state(v: AppStateView) -> Seq<char> {
    "{\"token\":"@ + spec_ser_opt_string(v.token) + ",\"cloudinary\":"@ + spec_ser_opt_cloudinary(
        v.cloudinary,
    ) + ",\"download_dir\":"@ + spec_ser_opt_string(v.download_dir) + ",\"games\":"@
        + spec_ser_opt_games(v.games) + "}"@
}

/// Parse the whole configuration document; nothing may follow it.
pub open spec fn spec_parse_state(s: Seq<char>) -> Option<AppStateView> {
    match spec_parse_lit(s, "{\"token\":"@) {
        None => None,
        Some(s1) => match spec_parse_opt_string(s1) {
            None => None,
            Some((token, s2)) => match spec_parse_lit(s2, ",\"cloudinary\":"@) {
                None => None,
                Some(s3) => match spec_parse_opt_cloudinary(s3) {
                    None => None,
                    Some((cloudinary, s4)) => match spec_parse_lit(s4, ",\"download_dir\":"@) {
                        None => None,
                        Some(s5) => match spec_parse_opt_string(s5) {
                            None => None,
                            Some((download_dir, s6)) => match spec_parse_lit(s6, ",\"games\":"@) {
                                None => None,
                                Some(s7) => match spec_parse_opt_games(s7) {
                                    None => None,
                                    Some((games, s8)) => match spec_parse_lit(s8, "}"@) {
                                        None => None,
                                        Some(s9) => if s9.len() == 0 {
                                            Some(
                                                AppStateView {
                                                    token,
                                                    cloudinary,
                                                    download_dir,
                                                    games,
                                                },
                                            )
                                        } else {
                                            None
                                        },
                                    },
                                },
                            },
                        },
                    },
                },
            },
        },
    }
}

/// Law: the configuration document round-trips — persisting the settings and
/// the saved games, launch configurations and icons included, and loading
/// the text back yields the very same state.
#[verifier::rlimit(100)]
pub proof fn lemma_state_roundtrip(v: AppStateView)
    ensures
        spec_parse_state(spec_ser_state(v)) == Some(v),
{
    reveal_strlit("{\"token\":");
    reveal_strlit(",\"cloudinary\":");
    reveal_strlit(",\"download_dir\":");
    reveal_strlit(",\"games\":");
    reveal_strlit("}");
    let t9 = Seq::<char>::empty();
    let t8 = "}"@ + t9;
    let t7 = spec_ser_opt_games(v.games) + t8;
    let t6 = ",\"games\":"@ + t7;
    let t5 = spec_ser_opt_string(v.download_dir) + t6;
    let t4 = ",\"download_dir\":"@ + t5;
    let t3 = spec_ser_opt_cloudinary(v.cloudinary) + t4;
    let t2 = ",\"cloudinary\":"@ + t3;
    let t1 = spec_ser_opt_string(v.token) + t2;
    let t0 = "{\"token\":"@ + t1;
    assert(spec_ser_state(v) =~= t0);
    lemma_parse_lit_self("{\"token\":"@, t1);
    lemma_opt_string_roundtrip(v.token, t2);
    lemma_parse_lit_self(",\"cloudinary\":"@, t3);
    lemma_opt_cloudinary_roundtrip(v.cloudinary, t4);
    lemma_parse_lit_self(",\"download_dir\":"@, t5);
    lemma_opt_string_roundtrip(v.download_dir, t6);
    lemma_parse_lit_self(",\"games\":"@, t7);
    lemma_opt_games_roundtrip(v.games, t8);
    lemma_parse_lit_self("}"@, t9);
}

// ---------------------------------------------------------------------------
// Exec serialization and parsing.
// ---------------------------------------------------------------------------

/// Write a stored launch configuration.
fn ser_launch(out: &mut Vec<char>, c: &LaunchConfig)
    ensures
        final(out)@ == old(out)@ + spec_ser_launch(c@),
{
    push_str_chars(out, "{\"executablePath\":");
    ser_string(out, c.executable_path.as_str());
    push_str_chars(out, ",\"launchMethod\":");
    ser_string(out, c.launch_method.as_str());
    push_str_chars(out, ",\"customCommand\":");
    ser_opt_string(out, &c.custom_command);
    push_str_chars(out, "}");
    proof {
        assert(final(out)@ =~= old(out)@ + spec_ser_launch(c@));
    }
}

/// Write `null` or a stored launch configuration.
fn ser_opt_launch(out: &mut Vec<char>, o: &Option<LaunchConfig>)
    ensures
        final(out)@ == old(out)@ + spec_ser_opt_launch(opt_launch_view(*o)),
{
    match o {
        None => push_str_chars(out, "null"),
        Some(c) => ser_launch(out, c),
    }
}

/// Write a stored saved game.
#[verifier::rlimit(60)]
fn ser_game(out: &mut Vec<char>, g: &DownloadedGameInfo)
    ensures
        final(out)@ == old(out)@ + spec_ser_game(g@),
{
    push_str_chars(out, "{\"id\":");
    ser_string(out, g.id.as_str());
    push_str_chars(out, ",\"filename\":");
    ser_string(out, g.filename.as_str());
    push_str_chars(out, ",\"path\":");
    ser_string(out, g.path.as_str());
    push_str_chars(out, ",\"extracted\":");
    ser_bool(out, g.extracted);
    push_str_chars(out, ",\"extracted_path\":");
    ser_opt_string(out, &g.extracted_path);
    push_str_chars(out, ",\"downloaded_at\":");
    ser_opt_string(out, &g.downloaded_at);
    push_str_chars(out, ",\"launch_config\":");
    ser_opt_launch(out, &g.launch_config);
    push_str_chars(out, ",\"icon_path\":");
    ser_opt_string(out, &g.icon_path);
    push_str_chars(out, "}");
    proof {
        assert(final(out)@ =~= old(out)@ + spec_ser_game(g@));
    }
}

/// Appending one more game to a non-empty sequence appends a comma and its
/// stored form.
proof fn lemma_ser_games_snoc(gs: Seq<DownloadedGameInfoView>, g: DownloadedGameInfoView)
    requires
        gs.len() >= 1,
    ensures
        spec_ser_games(gs.push(g)) == spec_ser_games(gs) + ","@ + spec_ser_game(g),
    decreases gs.len(),
{
    if gs.len() == 1 {
        assert(gs.push(g).drop_first() =~= seq![g]);
        assert(gs.push(g)[0] == gs[0]);
        assert(spec_ser_games(seq![g]) == spec_ser_game(g));
        assert(spec_ser_games(gs.push(g)) =~= spec_ser_games(gs) + ","@ + spec_ser_game(g));
    } else {
        lemma_ser_games_snoc(gs.drop_first(), g);
        assert(gs.push(g).drop_first() =~= gs.drop_first().push(g));
        assert(gs.push(g)[0] == gs[0]);
        assert(spec_ser_games(gs.push(g)) =~= spec_ser_games(gs) + ","@ + spec_ser_game(g));
    }
}

/// Write `null` or the stored array of saved games.
fn ser_opt_games(out: &mut Vec<char>, o: &Option<Vec<DownloadedGameInfo>>)
    ensures
        final(out)@ == old(out)@ + spec_ser_opt_games(
            match *o {
                Some(gs) => Some(gs@.map_values(|g: DownloadedGameInfo| g@)),
                None => None,
            },
        ),
{
    match o {
        None => push_str_chars(out, "null"),
        Some(gs) => {
            push_str_chars(out, "[");
            let ghost gsv = gs@.map_values(|g: DownloadedGameInfo| g@);
            let n = gs.len();
            let mut i: usize = 0;
            while i < n
                invariant
                    n == gsv.len(),
                    gsv == gs@.map_values(|g: DownloadedGameInfo| g@),
                    i <= n,
                    out@ =~= old(out)@ + "["@ + spec_ser_games(gsv.take(i as int)),
                decreases n - i,
            {
                let ghost prefix = gsv.take(i as int);
                if i > 0 {
                    push_str_chars(out, ",");
                }
                ser_game(out, &gs[i]);
                proof {
                    reveal_strlit(",");
                    let next = gsv.take(i + 1 as int);
                    assert(next =~= prefix.push(gsv[i as int]));
                    if i > 0 {
                        lemma_ser_games_snoc(prefix, gsv[i as int]);
                        assert(out@ =~= old(out)@ + "["@ + spec_ser_games(next));
                    } else {
                        assert(prefix.len() == 0);
                        assert(next =~= seq![gsv[0]]);
                        assert(spec_ser_games(next) == spec_ser_game(gsv[0]));
                        assert(out@ =~= old(out)@ + "["@ + spec_ser_games(next));
                    }
                }
                i = i + 1;
            }
            push_str_chars(out, "]");
            proof {
                assert(gsv.take(n as int) =~= gsv);
                assert(final(out)@ =~= old(out)@ + spec_ser_games_array(gsv));
            }
        },
    }
}

/// Write stored cloud credentials.
fn ser_cloudinary(out: &mut Vec<char>, c: &CloudinaryConfig)
    ensures
        final(out)@ == old(out)@ + spec_ser_cloudinary(c@),
{
    push_str_chars(out, "{\"cloud_name\":");
    ser_string(out, c.cloud_name.as_str());
    push_str_chars(out, ",\"api_key\":");
    ser_string(out, c.api_key.as_str());
    push_str_chars(out, ",\"api_secret\":");
    ser_string(out, c.api_secret.as_str());
    push_str_chars(out, "}");
    proof {
        assert(final(out)@ =~= old(out)@ + spec_ser_cloudinary(c@));
    }
}

/// The configuration document rendered from the state.
pub fn state_to_json(state: &AppState) -> (r: String)
    ensures
        r@ == spec_ser_state(state@),
{
    let mut out: Vec<char> = Vec::new();
    push_str_chars(&mut out, "{\"token\":");
    ser_opt_string(&mut out, &state.token);
    push_str_chars(&mut out, ",\"cloudinary\":");
    match &state.cloudinary {
        None => push_str_chars(&mut out, "null"),
        Some(c) => ser_cloudinary(&mut out, c),
    }
    push_str_chars(&mut out, ",\"download_dir\":");
    ser_opt_string(&mut out, &state.download_dir);
    push_str_chars(&mut out, ",\"games\":");
    ser_opt_games(&mut out, &state.games);
    push_str_chars(&mut out, "}");
    proof {
        assert(out@ =~= spec_ser_state(state@));
    }
    chars_to_string(&out)
}

/// Parse a stored launch configuration at `i`.
fn parse_launch_at(v: &Vec<char>, i: usize) -> (r: Option<(LaunchConfig, usize)>)
    requires
        i <= v@.len(),
    ensures
        match r {
            Some((c, j)) => {
                &&& i <= j <= v@.len()
                &&& spec_parse_launch(v@.skip(i as int)) == Some((c@, v@.skip(j as int)))
            },
            None => spec_parse_launch(v@.skip(i as int)) is None,
        },
{
    let s1 = match parse_lit_at(v, i, "{\"executablePath\":") {
        Some(j) => j,
        None => {
            return None;
        },
    };
    let (executable_path, s2) = match parse_string_at(v, s1) {
        Some(x) => x,
        None => {
            return None;
        },
    };
    let s3 = match parse_lit_at(v, s2, ",\"launchMethod\":") {
        Some(j) => j,
        None => {
            return None;
        },
    };
    let (launch_method, s4) = match parse_string_at(v, s3) {
        Some(x) => x,
        None => {
            return None;
        },
    };
    let s5 = match parse_lit_at(v, s4, ",\"customCommand\":") {
        Some(j) => j,
        None => {
            return None;
        },
    };
    let (custom_command, s6) = match parse_opt_string_at(v, s5) {
        Some(x) => x,
        None => {
            return None;
        },
    };
    let s7 = match parse_lit_at(v, s6, "}") {
        Some(j) => j,
        None => {
            return None;
        },
    };
    Some((LaunchConfig { executable_path, launch_method, custom_command }, s7))
}

/// Parse `null` or a stored launch configuration at `i`.
fn parse_opt_launch_at(v: &Vec<char>, i: usize) -> (r: Option<(Option<LaunchConfig>, usize)>)
    requires
        i <= v@.len(),
    ensures
        match r {
            Some((o, j)) => {
                &&& i <= j <= v@.len()
                &&& spec_parse_opt_launch(v@.skip(i as int)) == Some(
                    (opt_launch_view(o), v@.skip(j as int)),
                )
            },
            None => spec_parse_opt_launch(v@.skip(i as int)) is None,
        },
{
    match parse_lit_at(v, i, "null") {
        Some(j) => Some((None, j)),
        None => match parse_launch_at(v, i) {
            Some((c, j)) => Some((Some(c), j)),
            None => None,
        },
    }
}

/// Parse a stored saved game at `i`.
#[verifier::rlimit(100)]
fn parse_game_at(v: &Vec<char>, i: usize) -> (r: Option<(DownloadedGameInfo, usize)>)
    requires
        i <= v@.len(),
    ensures
        match r {
            Some((g, j)) => {
                &&& i < j <= v@.len()
                &&& spec_parse_game(v@.skip(i as int)) == Some((g@, v@.skip(j as int)))
            },
            None => spec_parse_game(v@.skip(i as int)) is None,
        },
{
    let s1 = match parse_lit_at(v, i, "{\"id\":") {
        Some(j) => j,
        None => {
            return None;
        },
    };
    let (id, s2) = match parse_string_at(v, s1) {
        Some(x) => x,
        None => {
            return None;
        },
    };
    let s3 = match parse_lit_at(v, s2, ",\"filename\":") {
        Some(j) => j,
        None => {
            return None;
        },
    };
    let (filename, s4) = match parse_string_at(v, s3) {
        Some(x) => x,
        None => {
            return None;
        },
    };
    let s5 = match parse_lit_at(v, s4, ",\"path\":") {
        Some(j) => j,
        None => {
            return None;
        },
    };
    let (path, s6) = match parse_string_at(v, s5) {
        Some(x) => x,
        None => {
            return None;
        },
    };
    let s7 = match parse_lit_at(v, s6, ",\"extracted\":") {
        Some(j) => j,
        None => {
            return None;
        },
    };
    let (extracted, s8) = match parse_bool_at(v, s7) {
        Some(x) => x,
        None => {
            return None;
        },
    };
    let s9 = match parse_lit_at(v, s8, ",\"extracted_path\":") {
        Some(j) => j,
        None => {
            return None;
        },
    };
    let (extracted_path, s10) = match parse_opt_string_at(v, s9) {
        Some(x) => x,
        None => {
            return None;
        },
    };
    let s11 = match parse_lit_at(v, s10, ",\"downloaded_at\":") {
        Some(j) => j,
        None => {
            return None;
        },
    };
    let (downloaded_at, s12) = match parse_opt_string_at(v, s11) {
        Some(x) => x,
        None => {
            return None;
        },
    };
    let s13 = match parse_lit_at(v, s12, ",\"launch_config\":") {
        Some(j) => j,
        None => {
            return None;
        },
    };
    let (launch_config, s14) = match parse_opt_launch_at(v, s13) {
        Some(x) => x,
        None => {
            return None;
        },
    };
    let s15 = match parse_lit_at(v, s14, ",\"icon_path\":") {
        Some(j) => j,
        None => {
            return None;
        },
    };
    let (icon_path, s16) = match parse_opt_string_at(v, s15) {
        Some(x) => x,
        None => {
            return None;
        },
    };
    let s17 = match parse_lit_at(v, s16, "}") {
        Some(j) => j,
        None => {
            return None;
        },
    };
    let g = DownloadedGameInfo {
        id,
        filename,
        path,
        extracted,
        extracted_path,
        downloaded_at,
        launch_config,
        icon_path,
    };
    proof {
        reveal_strlit("}");
        assert(v@.skip(s17 as int).len() < v@.skip(s16 as int).len());
        assert(v@.skip(i as int).len() > v@.skip(s17 as int).len());
    }
    Some((g, s17))
}

/// Parse one or more comma-separated saved games at `i`.
fn parse_games_ne_at(v: &Vec<char>, i: usize) -> (r: Option<(Vec<DownloadedGameInfo>, usize)>)
    requires
        i <= v@.len(),
    ensures
        match r {
            Some((gs, j)) => {
                &&& i <= j <= v@.len()
                &&& spec_parse_games_ne(v@.skip(i as int)) == Some(
                    (gs@.map_values(|g: DownloadedGameInfo| g@), v@.skip(j as int)),
                )
            },
            None => spec_parse_games_ne(v@.skip(i as int)) is None,
        },
    decreases v@.len() - i,
{
    let n = v.len();
    let (g, j) = match parse_game_at(v, i) {
        Some(x) => x,
        None => {
            return None;
        },
    };
    if j < n && v[j] == ',' {
        proof {
            let rest = v@.skip(j as int);
            assert(rest[0] == ',');
            assert(rest.skip(1) =~= v@.skip(j + 1 as int));
            assert(rest.skip(1).len() < v@.skip(i as int).len());
        }
        match parse_games_ne_at(v, j + 1) {
            Some((mut gs, j2)) => {
                let ghost tailviews = gs@.map_values(|g: DownloadedGameInfo| g@);
                gs.insert(0, g);
                proof {
                    assert(gs@.map_values(|g: DownloadedGameInfo| g@) =~= seq![gs@[0]@]
                        + tailviews);
                }
                Some((gs, j2))
            },
            None => None,
        }
    } else {
        proof {
            let rest = v@.skip(j as int);
            if j < n {
                assert(rest[0] == v@[j as int]);
            } else {
                assert(rest.len() == 0);
            }
        }
        let mut gs: Vec<DownloadedGameInfo> = Vec::new();
        gs.push(g);
        proof {
            assert(gs@.map_values(|g: DownloadedGameInfo| g@) =~= seq![gs@[0]@]);
        }
        Some((gs, j))
    }
}

/// Parse `null` or a stored array of saved games at `i`.
fn parse_opt_games_at(v: &Vec<char>, i: usize) -> (r: Option<
    (Option<Vec<DownloadedGameInfo>>, usize),
>)
    requires
        i <= v@.len(),
    ensures
        match r {
            Some((o, j)) => {
                &&& i <= j <= v@.len()
                &&& spec_parse_opt_games(v@.skip(i as int)) == Some(
                    (
                        match o {
                            Some(gs) => Some(gs@.map_values(|g: DownloadedGameInfo| g@)),
                            None => None,
                        },
                        v@.skip(j as int),
                    ),
                )
            },
            None => spec_parse_opt_games(v@.skip(i as int)) is None,
        },
{
    let n = v.len();
    if let Some(j) = parse_lit_at(v, i, "null") {
        return Some((None, j));
    }
    let s1 = match parse_lit_at(v, i, "[") {
        Some(j) => j,
        None => {
            return None;
        },
    };
    if s1 < n && v[s1] == ']' {
        proof {
            assert(v@.skip(s1 as int)[0] == ']');
            assert(v@.skip(s1 as int).drop_first() =~= v@.skip(s1 + 1 as int));
        }
        let empty_games: Vec<DownloadedGameInfo> = Vec::new();
        proof {
            assert(empty_games@.map_values(|g: DownloadedGameInfo| g@)
                =~= Seq::<DownloadedGameInfoView>::empty());
        }
        return Some((Some(empty_games), s1 + 1));
    }
    proof {
        if s1 < n {
            assert(v@.skip(s1 as int)[0] == v@[s1 as int]);
        } else {
            assert(v@.skip(s1 as int).len() == 0);
        }
    }
    let (gs, j) = match parse_games_ne_at(v, s1) {
        Some(x) => x,
        None => {
            return None;
        },
    };
    if j < n && v[j] == ']' {
        proof {
            assert(v@.skip(j as int)[0] == ']');
            assert(v@.skip(j as int).drop_first() =~= v@.skip(j + 1 as int));
        }
        Some((Some(gs), j + 1))
    } else {
        proof {
            if j < n {
                assert(v@.skip(j as int)[0] == v@[j as int]);
            } else {
                assert(v@.skip(j as int).len() == 0);
            }
        }
        None
    }
}

/// Parse stored cloud credentials at `i`.
fn parse_cloudinary_at(v: &Vec<char>, i: usize) -> (r: Option<(CloudinaryConfig, usize)>)
    requires
        i <= v@.len(),
    ensures
        match r {
            Some((c, j)) => {
                &&& i <= j <= v@.len()
                &&& spec_parse_cloudinary(v@.skip(i as int)) == Some((c@, v@.skip(j as int)))
            },
            None => spec_parse_cloudinary(v@.skip(i as int)) is None,
        },
{
    let s1 = match parse_lit_at(v, i, "{\"cloud_name\":") {
        Some(j) => j,
        None => {
            return None;
        },
    };
    let (cloud_name, s2) = match parse_string_at(v, s1) {
        Some(x) => x,
        None => {
            return None;
        },
    };
    let s3 = match parse_lit_at(v, s2, ",\"api_key\":") {
        Some(j) => j,
        None => {
            return None;
        },
    };
    let (api_key, s4) = match parse_string_at(v, s3) {
        Some(x) => x,
        None => {
            return None;
        },
    };
    let s5 = match parse_lit_at(v, s4, ",\"api_secret\":") {
        Some(j) => j,
        None => {
            return None;
        },
    };
    let (api_secret, s6) = match parse_string_at(v, s5) {
        Some(x) => x,
        None => {
            return None;
        },
    };
    let s7 = match parse_lit_at(v, s6, "}") {
        Some(j) => j,
        None => {
            return None;
        },
    };
    Some((CloudinaryConfig { cloud_name, api_key, api_secret }, s7))
}

/// Load the state from its configuration document; `None` when the text is
/// not exactly one well-formed document.
pub fn state_from_json(text: &str) -> (r: Option<AppState>)
    ensures
        match r {
            Some(state) => spec_parse_state(text@) == Some(state@),
            None => spec_parse_state(text@) is None,
        },
{
    let v = str_to_chars(text);
    proof {
        assert(v@.skip(0) =~= text@);
    }
    let n = v.len();
    let s1 = match parse_lit_at(&v, 0, "{\"token\":") {
        Some(j) => j,
        None => {
            return None;
        },
    };
    let (token, s2) = match parse_opt_string_at(&v, s1) {
        Some(x) => x,
        None => {
            return None;
        },
    };
    let s3 = match parse_lit_at(&v, s2, ",\"cloudinary\":") {
        Some(j) => j,
        None => {
            return None;
        },
    };
    let (cloudinary, s4): (Option<CloudinaryConfig>, usize) = match parse_lit_at(&v, s3, "null") {
        Some(j) => (None, j),
        None => match parse_cloudinary_at(&v, s3) {
            Some((c, j)) => (Some(c), j),
            None => {
                return None;
            },
        },
    };
    let s5 = match parse_lit_at(&v, s4, ",\"download_dir\":") {
        Some(j) => j,
        None => {
            return None;
        },
    };
    let (download_dir, s6) = match parse_opt_string_at(&v, s5) {
        Some(x) => x,
        None => {
            return None;
        },
    };
    let s7 = match parse_lit_at(&v, s6, ",\"games\":") {
        Some(j) => j,
        None => {
            return None;
        },
    };
    let (games, s8) = match parse_opt_games_at(&v, s7) {
        Some(x) => x,
        None => {
            return None;
        },
    };
    let s9 = match parse_lit_at(&v, s8, "}") {
        Some(j) => j,
        None => {
            return None;
        },
    };
    if s9 == n {
        proof {
            assert(v@.skip(s9 as int).len() == 0);
        }
        Some(AppState { token, cloudinary, download_dir, games })
    } else {
        proof {
            assert(v@.skip(s9 as int).len() > 0);
        }
        None
    }
}

} // verus!
