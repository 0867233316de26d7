//! Application state beside the registry: the API token, the cloud upload
//! credentials, the download directory, and the list of saved games with
//! their user-attached launch configuration and icon.  The merge and
//! filter rules over that list live here; reading and writing the file it
//! is stored in is the caller's concern.

use vstd::prelude::*;
use vstd::string::StringExecFns;

use crate::events::CoreError;
use crate::record::clone_opt;
use crate::record::DownloadInfo;
use crate::record::opt_view;

verus! {

/// Credentials of the cloud upload collaborator.
pub struct CloudinaryConfig {
    pub cloud_name: String,
    pub api_key: String,
    pub api_secret: String,
}

/// The mathematical value of a `CloudinaryConfig`.
pub ghost struct CloudinaryConfigView {
    pub cloud_name: Seq<char>,
    pub api_key: Seq<char>,
    pub api_secret: Seq<char>,
}

impl View for CloudinaryConfig {
    type V = CloudinaryConfigView;

    open spec fn view(&self) -> CloudinaryConfigView {
        CloudinaryConfigView {
            cloud_name: self.cloud_name@,
            api_key: self.api_key@,
            api_secret: self.api_secret@,
        }
    }
}

impl Clone for CloudinaryConfig {
    fn clone(&self) -> (r: Self)
        ensures
            r@ == self@,
    {
        CloudinaryConfig {
            cloud_name: self.cloud_name.clone(),
            api_key: self.api_key.clone(),
            api_secret: self.api_secret.clone(),
        }
    }
}

/// How a saved game is launched; attached by the user, preserved across
/// re-saves.
pub struct LaunchConfig {
    pub executable_path: String,
    pub launch_method: String,
    pub custom_command: Option<String>,
}

/// The mathematical value of a `LaunchConfig`.
pub ghost struct LaunchConfigView {
    pub executable_path: Seq<char>,
    pub launch_method: Seq<char>,
    pub custom_command: Option<Seq<char>>,
}

impl View for LaunchConfig {
    type V = LaunchConfigView;

    open spec fn view(&self) -> LaunchConfigView {
        LaunchConfigView {
            executable_path: self.executable_path@,
            launch_method: self.launch_method@,
            custom_command: opt_view(self.custom_command),
        }
    }
}

impl Clone for LaunchConfig {
    fn clone(&self) -> (r: Self)
        ensures
            r@ == self@,
    {
        LaunchConfig {
            executable_path: self.executable_path.clone(),
            launch_method: self.launch_method.clone(),
            custom_command: clone_opt(&self.custom_command),
        }
    }
}

/// One saved game: a completed download promoted into the long-lived list.
pub struct DownloadedGameInfo {
    pub id: String,
    pub filename: String,
    pub path: String,
    pub extracted: bool,
    pub extracted_path: Option<String>,
    pub downloaded_at: Option<String>,
    pub launch_config: Option<LaunchConfig>,
    pub icon_path: Option<String>,
}

/// The mathematical value of a `DownloadedGameInfo`.
pub ghost struct DownloadedGameInfoView {
    pub id: Seq<char>,
    pub filename: Seq<char>,
    pub path: Seq<char>,
    pub extracted: bool,
    pub extracted_path: Option<Seq<char>>,
    pub downloaded_at: Option<Seq<char>>,
    pub launch_config: Option<LaunchConfigView>,
    pub icon_path: Option<Seq<char>>,
}

/// The view of an optional launch configuration.
pub open spec fn opt_launch_view(o: Option<LaunchConfig>) -> Option<LaunchConfigView> {
    match o {
        Some(c) => Some(c@),
        None => None,
    }
}

impl View for DownloadedGameInfo {
    type V = DownloadedGameInfoView;

    open spec fn view(&self) -> DownloadedGameInfoView {
        DownloadedGameInfoView {
            id: self.id@,
            filename: self.filename@,
            path: self.path@,
            extracted: self.extracted,
            extracted_path: opt_view(self.extracted_path),
            downloaded_at: opt_view(self.downloaded_at),
            launch_config: opt_launch_view(self.launch_config),
            icon_path: opt_view(self.icon_path),
        }
    }
}

impl Clone for DownloadedGameInfo {
    fn clone(&self) -> (r: Self)
        ensures
            r@ == self@,
    {
        DownloadedGameInfo {
            id: self.id.clone(),
            filename: self.filename.clone(),
            path: self.path.clone(),
            extracted: self.extracted,
            extracted_path: clone_opt(&self.extracted_path),
            downloaded_at: clone_opt(&self.downloaded_at),
            launch_config: match &self.launch_config {
                Some(c) => Some(c.clone()),
                None => None,
            },
            icon_path: clone_opt(&self.icon_path),
        }
    }
}

/// An article fetched from the content service.
pub struct ArticleResponse {
    pub slug: String,
    pub title: String,
    pub content: String,
}

/// The mathematical value of an `ArticleResponse`.
pub ghost struct ArticleResponseView {
    pub slug: Seq<char>,
    pub title: Seq<char>,
    pub content: Seq<char>,
}

impl View for ArticleResponse {
    type V = ArticleResponseView;

    open spec fn view(&self) -> ArticleResponseView {
        ArticleResponseView { slug: self.slug@, title: self.title@, content: self.content@ }
    }
}

/// The application state stored in the configuration file.
pub struct AppState {
    pub token: Option<String>,
    pub cloudinary: Option<CloudinaryConfig>,
    pub download_dir: Option<String>,
    pub games: Option<Vec<DownloadedGameInfo>>,
}

/// The mathematical value of an `AppState`.
pub ghost struct AppStateView {
    pub token: Option<Seq<char>>,
    pub cloudinary: Option<CloudinaryConfigView>,
    pub download_dir: Option<Seq<char>>,
    pub games: Option<Seq<DownloadedGameInfoView>>,
}

impl View for AppState {
    type V = AppStateView;

    open spec fn view(&self) -> AppStateView {
        AppStateView {
            token: opt_view(self.token),
            cloudinary: match self.cloudinary {
                Some(c) => Some(c@),
                None => None,
            },
            download_dir: opt_view(self.download_dir),
            games: match self.games {
                Some(gs) => Some(gs@.map_values(|g: DownloadedGameInfo| g@)),
                None => None,
            },
        }
    }
}

impl Default for AppState {
    /// A fresh state: nothing set.
    fn default() -> (r: Self)
        ensures
            r@.token is None,
            r@.cloudinary is None,
            r@.download_dir is None,
            r@.games is None,
    {
        AppState { token: None, cloudinary: None, download_dir: None, games: None }
    }
}

impl AppState {
    /// Store the API token.
    pub fn set_token(&mut self, token: String)
        ensures
            final(self)@ == (AppStateView { token: Some(token@), ..old(self)@ }),
    {
        self.token = Some(token);
    }

    /// The stored API token.
    pub fn get_token(&self) -> (r: Option<String>)
        ensures
            opt_view(r) == self@.token,
    {
        clone_opt(&self.token)
    }

    /// Store the cloud upload credentials.
    pub fn set_cloudinary_config(&mut self, cloud_name: String, api_key: String, api_secret: String)
        ensures
            final(self)@ == (AppStateView {
                cloudinary: Some(
                    CloudinaryConfigView {
                        cloud_name: cloud_name@,
                        api_key: api_key@,
                        api_secret: api_secret@,
                    },
                ),
                ..old(self)@
            }),
    {
        self.cloudinary = Some(CloudinaryConfig { cloud_name, api_key, api_secret });
    }

    /// The stored cloud upload credentials.
    pub fn get_cloudinary_config(&self) -> (r: Option<CloudinaryConfig>)
        ensures
            match r {
                Some(c) => self@.cloudinary == Some(c@),
                None => self@.cloudinary is None,
            },
    {
        match &self.cloudinary {
            Some(c) => Some(c.clone()),
            None => None,
        }
    }

    /// Store the token and the cloud credentials in one stroke.
    pub fn save_all_settings(&mut self, token: String, cloudinary_config: CloudinaryConfig)
        ensures
            final(self)@ == (AppStateView {
                token: Some(token@),
                cloudinary: Some(cloudinary_config@),
                ..old(self)@
            }),
    {
        self.token = Some(token);
        self.cloudinary = Some(cloudinary_config);
    }

    /// The directory downloads are saved into, if set.
    pub fn get_download_dir(&self) -> (r: Option<String>)
        ensures
            opt_view(r) == self@.download_dir,
    {
        clone_opt(&self.download_dir)
    }

    /// Store the download directory.
    pub fn set_download_dir(&mut self, dir: String)
        ensures
            final(self)@ == (AppStateView { download_dir: Some(dir@), ..old(self)@ }),
    {
        self.download_dir = Some(dir);
    }
}

/// A freshly loaded state normalized: a missing games list becomes an empty
/// one, and a missing download directory takes the given default.
pub fn normalize_loaded_state(state: &mut AppState, default_download_dir: Option<String>)
    ensures
        final(state)@.games == if old(state)@.games is Some {
            old(state)@.games
        } else {
            Some(Seq::<DownloadedGameInfoView>::empty())
        },
        final(state)@.download_dir == if old(state)@.download_dir is Some {
            old(state)@.download_dir
        } else {
            opt_view(default_download_dir)
        },
        final(state)@.token == old(state)@.token,
        final(state)@.cloudinary == old(state)@.cloudinary,
{
    if state.games.is_none() {
        let empty: Vec<DownloadedGameInfo> = Vec::new();
        proof {
            assert(empty@.map_values(|g: DownloadedGameInfo| g@)
                =~= Seq::<DownloadedGameInfoView>::empty());
        }
        state.games = Some(empty);
    }
    if state.download_dir.is_none() {
        state.download_dir = default_download_dir;
    }
}

/// The first index holding a game with the given id.
pub open spec fn spec_first_game(gs: Seq<DownloadedGameInfoView>, id: Seq<char>) -> Option<int>
    decreases gs.len(),
{
    if gs.len() == 0 {
        None
    } else if gs[0].id == id {
        Some(0int)
    } else {
        match spec_first_game(gs.drop_first(), id) {
            Some(i) => Some(i + 1),
            None => None,
        }
    }
}

/// What `spec_first_game` finds is the first match.
pub proof fn lemma_first_game(gs: Seq<DownloadedGameInfoView>, id: Seq<char>)
    ensures
        match spec_first_game(gs, id) {
            Some(i) => 0 <= i < gs.len() && gs[i].id == id && forall|j: int|
                0 <= j < i ==> gs[j].id != id,
            None => forall|j: int| 0 <= j < gs.len() ==> gs[j].id != id,
        },
    decreases gs.len(),
{
    if gs.len() > 0 && gs[0].id != id {
        lemma_first_game(gs.drop_first(), id);
        let tail = gs.drop_first();
        match spec_first_game(tail, id) {
            Some(i) => {
                assert(tail[i] == gs[i + 1]);
                assert forall|j: int| 0 <= j < i + 1 implies gs[j].id != id by {
                    if j > 0 {
                        assert(tail[j - 1].id != id);
                    }
                }
            },
            None => {
                assert forall|j: int| 0 <= j < gs.len() implies gs[j].id != id by {
                    if j > 0 {
                        assert(tail[j - 1].id != id);
                    }
                }
            },
        }
    }
}

impl AppState {
    /// Attach a launch configuration and icon to the saved game with the
    /// given id; NotFound, and no change to the list, when no saved game has
    /// it (a missing list is materialized empty either way).
    #[verifier::loop_isolation(false)]
    pub fn save_launch_config(
        &mut self,
        game_id: &String,
        launch_config: LaunchConfig,
        icon_path: Option<String>,
    ) -> (r: Result<(), CoreError>)
        ensures
            match old(self)@.games {
                Some(gs) => match spec_first_game(gs, game_id@) {
                    Some(i) => {
                        &&& r is Ok
                        &&& final(self)@ == (AppStateView {
                            games: Some(
                                gs.update(
                                    i,
                                    DownloadedGameInfoView {
                                        launch_config: Some(launch_config@),
                                        icon_path: opt_view(icon_path),
                                        ..gs[i]
                                    },
                                ),
                            ),
                            ..old(self)@
                        })
                    },
                    None => r == Err::<(), CoreError>(CoreError::NotFound) && final(self)@ == old(
                        self,
                    )@,
                },
                None => r == Err::<(), CoreError>(CoreError::NotFound) && final(self)@ == (
                AppStateView { games: Some(Seq::<DownloadedGameInfoView>::empty()), ..old(self)@ }),
            },
    {
        let mut games_opt: Option<Vec<DownloadedGameInfo>> = None;
        core::mem::swap(&mut games_opt, &mut self.games);
        let mut games = match games_opt {
            Some(gs) => gs,
            None => {
                let empty: Vec<DownloadedGameInfo> = Vec::new();
                proof {
                    assert(empty@.map_values(|g: DownloadedGameInfo| g@)
                        =~= Seq::<DownloadedGameInfoView>::empty());
                }
                self.games = Some(empty);
                return Err(CoreError::NotFound);
            },
        };
        let ghost gs = games@.map_values(|g: DownloadedGameInfo| g@);
        let n = games.len();
        let mut i: usize = 0;
        while i < n
            invariant
                n == games@.len(),
                gs == games@.map_values(|g: DownloadedGameInfo| g@),
                i <= n,
                forall|j: int| 0 <= j < i ==> gs[j].id != game_id@,
                self.token == old(self).token,
                self.cloudinary == old(self).cloudinary,
                self.download_dir == old(self).download_dir,
            decreases n - i,
        {
            if games[i].id.eq(game_id) {
                proof {
                    assert(gs[i as int] == games@[i as int]@);
                    assert(gs[i as int].id == game_id@);
                    lemma_first_game(gs, game_id@);
                    if spec_first_game(gs, game_id@) != Some(i as int) {
                        assert(false);
                    }
                }
                let updated = DownloadedGameInfo {
                    launch_config: Some(launch_config),
                    icon_path: icon_path,
                    ..games[i].clone()
                };
                games[i] = updated;
                proof {
                    assert(games@.map_values(|g: DownloadedGameInfo| g@) =~= gs.update(
                        i as int,
                        DownloadedGameInfoView {
                            launch_config: Some(launch_config@),
                            icon_path: opt_view(icon_path),
                            ..gs[i as int]
                        },
                    ));
                }
                self.games = Some(games);
                return Ok(());
            }
            i = i + 1;
        }
        proof {
            lemma_first_game(gs, game_id@);
            if spec_first_game(gs, game_id@) is Some {
                let k = spec_first_game(gs, game_id@)->Some_0;
                assert(gs[k].id != game_id@);
                assert(false);
            }
        }
        self.games = Some(games);
        Err(CoreError::NotFound)
    }
}

/// One saved game merged from a finished download: the durable fields come
/// from the download, the user-attached launch configuration and icon are
/// preserved from the existing entry with the same id, never dropped.
pub open spec fn spec_merged_game(
    existing: Seq<DownloadedGameInfoView>,
    d: crate::record::DownloadInfoView,
) -> DownloadedGameInfoView {
    let kept = match spec_first_game(existing, d.id) {
        Some(i) => existing[i],
        None => DownloadedGameInfoView {
            id: d.id,
            filename: d.filename,
            path: Seq::<char>::empty(),
            extracted: false,
            extracted_path: None,
            downloaded_at: None,
            launch_config: None,
            icon_path: None,
        },
    };
    DownloadedGameInfoView {
        id: d.id,
        filename: d.filename,
        path: match d.path {
            Some(p) => p,
            None => Seq::<char>::empty(),
        },
        extracted: d.extracted,
        extracted_path: d.extracted_path,
        downloaded_at: d.downloaded_at,
        launch_config: kept.launch_config,
        icon_path: kept.icon_path,
    }
}

/// The whole merged list, element by element.
pub open spec fn spec_merge_games(
    existing: Seq<DownloadedGameInfoView>,
    ds: Seq<crate::record::DownloadInfoView>,
) -> Seq<DownloadedGameInfoView> {
    Seq::new(ds.len(), |i: int| spec_merged_game(existing, ds[i]))
}

/// The game an existing entry with this id carries, if any.
fn find_existing(existing: &Vec<DownloadedGameInfo>, id: &String) -> (r: Option<
    DownloadedGameInfo,
>)
    ensures
        match spec_first_game(existing@.map_values(|g: DownloadedGameInfo| g@), id@) {
            Some(i) => r is Some && r->Some_0@ == existing@.map_values(
                |g: DownloadedGameInfo| g@,
            )[i],
            None => r is None,
        },
{
    let ghost gs = existing@.map_values(|g: DownloadedGameInfo| g@);
    proof {
        lemma_first_game(gs, id@);
    }
    let n = existing.len();
    let mut i: usize = 0;
    while i < n
        invariant
            n == existing@.len(),
            gs == existing@.map_values(|g: DownloadedGameInfo| g@),
            i <= n,
            forall|j: int| 0 <= j < i ==> gs[j].id != id@,
        decreases n - i,
    {
        if existing[i].id.eq(id) {
            proof {
                assert(gs[i as int] == existing@[i as int]@);
                assert(gs[i as int].id == id@);
                lemma_first_game(gs, id@);
                if spec_first_game(gs, id@) != Some(i as int) {
                    assert(false);
                }
            }
            return Some(existing[i].clone());
        }
        i = i + 1;
    }
    None
}

impl AppState {
    /// Replace the saved-games list with the given downloads, merging by id:
    /// the launch configuration and icon a saved game already carries are
    /// preserved, never silently dropped.
    pub fn save_games(&mut self, games: Vec<DownloadInfo>)
        ensures
            final(self)@ == (AppStateView {
                games: Some(
                    spec_merge_games(
                        match old(self)@.games {
                            Some(gs) => gs,
                            None => Seq::<DownloadedGameInfoView>::empty(),
                        },
                        games@.map_values(|d: DownloadInfo| d@),
                    ),
                ),
                ..old(self)@
            }),
    {
        let existing: Vec<DownloadedGameInfo> = match &self.games {
            Some(gs) => clone_games(gs),
            None => Vec::new(),
        };
        let ghost gsv = match old(self)@.games {
            Some(gs) => gs,
            None => Seq::<DownloadedGameInfoView>::empty(),
        };
        proof {
            if old(self)@.games is None {
                assert(existing@.map_values(|g: DownloadedGameInfo| g@) =~= gsv);
            }
        }
        let ghost dv = games@.map_values(|d: DownloadInfo| d@);
        let n = games.len();
        let mut out: Vec<DownloadedGameInfo> = Vec::new();
        let mut i: usize = 0;
        while i < n
            invariant
                n == games@.len(),
                dv == games@.map_values(|d: DownloadInfo| d@),
                gsv == existing@.map_values(|g: DownloadedGameInfo| g@),
                i <= n,
                out@.map_values(|g: DownloadedGameInfo| g@) =~= Seq::new(
                    i as nat,
                    |j: int| spec_merged_game(gsv, dv[j]),
                ),
            decreases n - i,
        {
            let d = &games[i];
            let kept = find_existing(&existing, &d.id);
            let (launch_config, icon_path) = match kept {
                Some(g) => (g.launch_config, g.icon_path),
                None => (None, None),
            };
            let merged = DownloadedGameInfo {
                id: d.id.clone(),
                filename: d.filename.clone(),
                path: match &d.path {
                    Some(p) => p.clone(),
                    None => String::new(),
                },
                extracted: d.extracted,
                extracted_path: clone_opt(&d.extracted_path),
                downloaded_at: clone_opt(&d.downloaded_at),
                launch_config,
                icon_path,
            };
            let ghost prev = out@;
            out.push(merged);
            proof {
                assert(out@ =~= prev.push(out@.last()));
                assert(out@.map_values(|g: DownloadedGameInfo| g@) =~= prev.map_values(
                    |g: DownloadedGameInfo| g@,
                ).push(out@.last()@));
                assert(out@.last()@ == spec_merged_game(gsv, dv[i as int]));
                assert(out@.map_values(|g: DownloadedGameInfo| g@) =~= Seq::new(
                    (i + 1) as nat,
                    |j: int| spec_merged_game(gsv, dv[j]),
                ));
            }
            i = i + 1;
        }
        self.games = Some(out);
        proof {
            assert(self@.games->Some_0 =~= spec_merge_games(gsv, dv));
        }
    }
}

/// A clone of a game list, equal in value.
fn clone_games(gs: &Vec<DownloadedGameInfo>) -> (r: Vec<DownloadedGameInfo>)
    ensures
        r@.map_values(|g: DownloadedGameInfo| g@) == gs@.map_values(|g: DownloadedGameInfo| g@),
{
    let n = gs.len();
    let mut out: Vec<DownloadedGameInfo> = Vec::new();
    let mut i: usize = 0;
    while i < n
        invariant
            n == gs@.len(),
            i <= n,
            out@.map_values(|g: DownloadedGameInfo| g@) =~= gs@.map_values(
                |g: DownloadedGameInfo| g@,
            ).take(i as int),
        decreases n - i,
    {
        let ghost prev = out@;
        out.push(gs[i].clone());
        proof {
            assert(out@ =~= prev.push(out@.last()));
            assert(out@.map_values(|g: DownloadedGameInfo| g@) =~= prev.map_values(
                |g: DownloadedGameInfo| g@,
            ).push(out@.last()@));
            assert(out@.map_values(|g: DownloadedGameInfo| g@) =~= gs@.map_values(
                |g: DownloadedGameInfo| g@,
            ).take(i + 1 as int));
        }
        i = i + 1;
    }
    proof {
        assert(gs@.map_values(|g: DownloadedGameInfo| g@).take(n as int) =~= gs@.map_values(
            |g: DownloadedGameInfo| g@,
        ));
    }
    out
}

/// Whether one saved game is kept: its file still exists (an empty path
/// counts as present), or its extracted directory does.
pub open spec fn spec_game_kept(
    g: DownloadedGameInfoView,
    path_exists: bool,
    extracted_exists: bool,
) -> bool {
    (g.path.len() == 0 || path_exists) || (match g.extracted_path {
        None => true,
        Some(p) => p.len() == 0 || extracted_exists,
    })
}

/// The games kept after probing the disk, in order.
pub open spec fn spec_retain_games(
    gs: Seq<DownloadedGameInfoView>,
    path_exists: Seq<bool>,
    extracted_exists: Seq<bool>,
) -> Seq<DownloadedGameInfoView>
    decreases gs.len(),
{
    if gs.len() == 0 {
        Seq::<DownloadedGameInfoView>::empty()
    } else {
        let head = spec_retain_games(
            gs.drop_last(),
            path_exists.drop_last(),
            extracted_exists.drop_last(),
        );
        if spec_game_kept(gs.last(), path_exists.last(), extracted_exists.last()) {
            head.push(gs.last())
        } else {
            head
        }
    }
}

/// The saved games whose files still exist.  `path_exists[i]` and
/// `extracted_exists[i]` report the disk probes for `games[i]`'s path and
/// extracted path; the caller performs them.
pub fn retain_existing_games(
    games: &Vec<DownloadedGameInfo>,
    path_exists: &Vec<bool>,
    extracted_exists: &Vec<bool>,
) -> (r: Vec<DownloadedGameInfo>)
    requires
        games@.len() == path_exists@.len(),
        games@.len() == extracted_exists@.len(),
    ensures
        r@.map_values(|g: DownloadedGameInfo| g@) == spec_retain_games(
            games@.map_values(|g: DownloadedGameInfo| g@),
            path_exists@,
            extracted_exists@,
        ),
{
    let ghost gsv = games@.map_values(|g: DownloadedGameInfo| g@);
    let n = games.len();
    let mut out: Vec<DownloadedGameInfo> = Vec::new();
    let mut i: usize = 0;
    while i < n
        invariant
            n == games@.len(),
            n == path_exists@.len(),
            n == extracted_exists@.len(),
            gsv == games@.map_values(|g: DownloadedGameInfo| g@),
            i <= n,
            out@.map_values(|g: DownloadedGameInfo| g@) =~= spec_retain_games(
                gsv.take(i as int),
                path_exists@.take(i as int),
                extracted_exists@.take(i as int),
            ),
        decreases n - i,
    {
        let g = &games[i];
        let path_ok = g.path.as_str().is_empty() || path_exists[i];
        let extracted_ok = match &g.extracted_path {
            None => true,
            Some(p) => p.as_str().is_empty() || extracted_exists[i],
        };
        let keep = path_ok || extracted_ok;
        proof {
            assert(keep == spec_game_kept(gsv[i as int], path_exists@[i as int], extracted_exists@[i as int]));
            assert(gsv.take(i + 1 as int).drop_last() =~= gsv.take(i as int));
            assert(path_exists@.take(i + 1 as int).drop_last() =~= path_exists@.take(i as int));
            assert(extracted_exists@.take(i + 1 as int).drop_last() =~= extracted_exists@.take(
                i as int,
            ));
            assert(gsv.take(i + 1 as int).last() == gsv[i as int]);
        }
        if keep {
            let ghost prev = out@;
            out.push(g.clone());
            proof {
                assert(out@ =~= prev.push(out@.last()));
                assert(out@.map_values(|g: DownloadedGameInfo| g@) =~= prev.map_values(
                    |g: DownloadedGameInfo| g@,
                ).push(out@.last()@));
            }
        }
        i = i + 1;
    }
    proof {
        assert(gsv.take(n as int) =~= gsv);
        assert(path_exists@.take(n as int) =~= path_exists@);
        assert(extracted_exists@.take(n as int) =~= extracted_exists@);
    }
    out
}

/// Where an article is fetched from, given its slug.
pub fn article_url(slug: &String) -> (r: String)
    ensures
        r@ == "https://api.chanomhub.online/articles/"@ + slug@,
{
    String::from_str("https://api.chanomhub.online/articles/").concat(slug.as_str())
}

/// The echo probe: the message handed back with a fixed prefix.
pub fn echo_test(message: &String) -> (r: String)
    ensures
        r@ == "Echo reply: "@ + message@,
{
    String::from_str("Echo reply: ").concat(message.as_str())
}

/// How a saved game is to be started: the program to run and what to hand
/// it; which methods an operating system allows is the caller's concern.
pub enum LaunchPlan {
    /// Run the executable itself.
    Direct(String),
    /// Run it through the Python interpreter.
    Python(String),
    /// Run it through the Wine compatibility layer.
    Wine(String),
    /// Run a shell command the user wrote.
    Custom(String),
}

/// The mathematical value of a `LaunchPlan`.
pub ghost enum LaunchPlanView {
    Direct(Seq<char>),
    Python(Seq<char>),
    Wine(Seq<char>),
    Custom(Seq<char>),
}

impl View for LaunchPlan {
    type V = LaunchPlanView;

    open spec fn view(&self) -> LaunchPlanView {
        match self {
            LaunchPlan::Direct(s) => LaunchPlanView::Direct(s@),
            LaunchPlan::Python(s) => LaunchPlanView::Python(s@),
            LaunchPlan::Wine(s) => LaunchPlanView::Wine(s@),
            LaunchPlan::Custom(s) => LaunchPlanView::Custom(s@),
        }
    }
}

/// The launch configuration that governs a game: the one stored for it
/// wins; the one handed in is the fallback.
pub fn resolve_launch_config(
    games: &Option<Vec<DownloadedGameInfo>>,
    game_id: &String,
    provided: Option<LaunchConfig>,
) -> (r: Option<LaunchConfig>)
    ensures
        match r {
            Some(c) => {
                let stored = match *games {
                    Some(gs) => match spec_first_game(
                        gs@.map_values(|g: DownloadedGameInfo| g@),
                        game_id@,
                    ) {
                        Some(i) => gs@.map_values(|g: DownloadedGameInfo| g@)[i].launch_config,
                        None => None,
                    },
                    None => None,
                };
                match stored {
                    Some(sc) => c@ == sc,
                    None => opt_launch_view(provided) == Some(c@),
                }
            },
            None => {
                &&& provided is None
                &&& match *games {
                    Some(gs) => match spec_first_game(
                        gs@.map_values(|g: DownloadedGameInfo| g@),
                        game_id@,
                    ) {
                        Some(i) => gs@.map_values(
                            |g: DownloadedGameInfo| g@,
                        )[i].launch_config is None,
                        None => true,
                    },
                    None => true,
                }
            },
        },
{
    let stored = match games {
        Some(gs) => match find_existing(gs, game_id) {
            Some(g) => g.launch_config,
            None => None,
        },
        None => None,
    };
    match stored {
        Some(c) => Some(c),
        None => provided,
    }
}

/// The plan a launch configuration prescribes: NotFound never comes out of
/// this; a method word outside the four known ones is invalid, and a custom
/// launch without a command is missing it.
pub fn launch_plan(config: &LaunchConfig) -> (r: Result<LaunchPlan, CoreError>)
    ensures
        config@.launch_method == "direct"@ ==> r == Ok::<LaunchPlan, CoreError>(
            LaunchPlan::Direct(config.executable_path),
        ),
        config@.launch_method == "python"@ ==> r == Ok::<LaunchPlan, CoreError>(
            LaunchPlan::Python(config.executable_path),
        ),
        config@.launch_method == "wine"@ ==> r == Ok::<LaunchPlan, CoreError>(
            LaunchPlan::Wine(config.executable_path),
        ),
        config@.launch_method == "custom"@ ==> (match config@.custom_command {
            Some(cmd) => r is Ok && r->Ok_0@ == LaunchPlanView::Custom(cmd),
            None => r == Err::<LaunchPlan, CoreError>(CoreError::MissingCustomCommand),
        }),
        (config@.launch_method != "direct"@ && config@.launch_method != "python"@
            && config@.launch_method != "wine"@ && config@.launch_method != "custom"@) ==> r
            == Err::<LaunchPlan, CoreError>(CoreError::InvalidLaunchMethod),
{
    proof {
        reveal_strlit("direct");
        reveal_strlit("python");
        reveal_strlit("wine");
        reveal_strlit("custom");
        assert("direct"@[0] == 'd' && "python"@[0] == 'p' && "wine"@[0] == 'w' && "custom"@[0]
            == 'c');
        assert("direct"@ != "python"@ && "direct"@ != "wine"@ && "direct"@ != "custom"@);
        assert("python"@ != "wine"@ && "python"@ != "custom"@);
        assert("wine"@ != "custom"@);
    }
    if crate::codec::string_eq_lit(&config.launch_method, "direct") {
        Ok(LaunchPlan::Direct(config.executable_path.clone()))
    } else if crate::codec::string_eq_lit(&config.launch_method, "python") {
        Ok(LaunchPlan::Python(config.executable_path.clone()))
    } else if crate::codec::string_eq_lit(&config.launch_method, "wine") {
        Ok(LaunchPlan::Wine(config.executable_path.clone()))
    } else if crate::codec::string_eq_lit(&config.launch_method, "custom") {
        match &config.custom_command {
            Some(cmd) => Ok(LaunchPlan::Custom(cmd.clone())),
            None => Err(CoreError::MissingCustomCommand),
        }
    } else {
        Err(CoreError::InvalidLaunchMethod)
    }
}

} // verus!
