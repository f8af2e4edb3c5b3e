//! The game record and the operations on an in-memory game list. Callers
//! load the list from disk, apply these operations, and write the whole list
//! back, so every mutation here is a pure transformation of the list.

use vstd::prelude::*;

use crate::text::dec_str;
use crate::LauncherError;

verus! {

/// One game entry of the launcher.
#[derive(Debug)]
pub struct Game {
    /// Unique identifier; never changes after creation.
    pub gameid: String,
    /// Display title.
    pub title: String,
    /// Path of the game executable.
    pub path: String,
    /// Wine prefix directory.
    pub prefix: String,
    /// Extra launcher arguments, whitespace-separated.
    pub launch_arguments: String,
    /// Game-specific arguments, whitespace-separated.
    pub game_arguments: String,
    /// Enable the performance overlay.
    pub mangohud: bool,
    /// Enable the scheduler-priority wrapper.
    pub gamemode: bool,
    /// Disable raw-input passthrough.
    pub disable_hidraw: bool,
    /// Compatibility-fix tag; empty when unused.
    pub protonfix: String,
    /// Runner identifier.
    pub runner: String,
    /// Additional-application checkbox state.
    pub addapp_checkbox: bool,
    /// Additional-application path.
    pub addapp: String,
    /// Additional-application batch file.
    pub addapp_bat: String,
    /// Banner image path.
    pub banner: Option<String>,
    /// Lossless-Scaling master toggle.
    pub lossless_enabled: bool,
    /// Lossless-Scaling frame multiplier.
    pub lossless_multiplier: u32,
    /// Lossless-Scaling flow-scale toggle.
    pub lossless_flow: bool,
    /// Lossless-Scaling performance-mode toggle.
    pub lossless_performance: bool,
    /// Lossless-Scaling HDR toggle.
    pub lossless_hdr: bool,
    /// Total playtime in seconds.
    pub playtime: u64,
    /// Hidden from the library view.
    pub hidden: bool,
}

/// Relies on `uuid::Uuid::new_v4` and its `Display` form: a fresh random
/// version-4 UUID rendered in the documented 36-character hyphenated form.
#[verifier::external_body]
fn new_gameid() -> (r: String)
    ensures
        r@.len() == 36,
{
    uuid::Uuid::new_v4().to_string()
}

/// Index of the first entry with the given identifier, or `-1`.
pub open spec fn find_gameid(games: Seq<Game>, id: Seq<char>) -> int
    decreases games.len(),
{
    if games.len() == 0 {
        -1
    } else if games[0].gameid@ == id {
        0
    } else {
        let r = find_gameid(games.drop_first(), id);
        if r < 0 {
            -1
        } else {
            r + 1
        }
    }
}

pub proof fn lemma_find_gameid_characterization(games: Seq<Game>, id: Seq<char>)
    ensures
        find_gameid(games, id) == -1 ==> forall|i: int|
            0 <= i < games.len() ==> games[i].gameid@ != id,
        find_gameid(games, id) != -1 ==> {
            let f = find_gameid(games, id);
            &&& 0 <= f < games.len()
            &&& games[f].gameid@ == id
            &&& forall|i: int| 0 <= i < f ==> games[i].gameid@ != id
        },
    decreases games.len(),
{
    if games.len() > 0 && games[0].gameid@ != id {
        lemma_find_gameid_characterization(games.drop_first(), id);
        assert(forall|i: int| 1 <= i < games.len() ==> games[i] == games.drop_first()[i - 1]);
    }
}

/// The list without any entry carrying the given identifier.
pub open spec fn without_gameid(games: Seq<Game>, id: Seq<char>) -> Seq<Game> {
    games.filter(|g: Game| g.gameid@ != id)
}

/// Converse: a first match at `f` pins down `find_gameid`.
pub proof fn lemma_find_gameid_from_witness(games: Seq<Game>, id: Seq<char>, f: int)
    requires
        0 <= f < games.len(),
        games[f].gameid@ == id,
        forall|i: int| 0 <= i < f ==> games[i].gameid@ != id,
    ensures
        find_gameid(games, id) == f,
{
    lemma_find_gameid_characterization(games, id);
}

impl Game {
    /// A field-for-field copy.
    pub fn duplicate_exact(&self) -> (r: Game)
        ensures
            r == *self,
    {
        Game {
            gameid: self.gameid.clone(),
            title: self.title.clone(),
            path: self.path.clone(),
            prefix: self.prefix.clone(),
            launch_arguments: self.launch_arguments.clone(),
            game_arguments: self.game_arguments.clone(),
            mangohud: self.mangohud,
            gamemode: self.gamemode,
            disable_hidraw: self.disable_hidraw,
            protonfix: self.protonfix.clone(),
            runner: self.runner.clone(),
            addapp_checkbox: self.addapp_checkbox,
            addapp: self.addapp.clone(),
            addapp_bat: self.addapp_bat.clone(),
            banner: match &self.banner {
                Some(b) => Some(b.clone()),
                None => None,
            },
            lossless_enabled: self.lossless_enabled,
            lossless_multiplier: self.lossless_multiplier,
            lossless_flow: self.lossless_flow,
            lossless_performance: self.lossless_performance,
            lossless_hdr: self.lossless_hdr,
            playtime: self.playtime,
            hidden: self.hidden,
        }
    }

    /// Store this game in the list: replace the first entry with the same
    /// identifier, or append when none exists.
    pub fn save(&self, games: &mut Vec<Game>)
        ensures
            ({
                let f = find_gameid(old(games)@, self.gameid@);
                if f >= 0 {
                    final(games)@ == old(games)@.update(f, *self)
                } else {
                    final(games)@ == old(games)@.push(*self)
                }
            }),
    {
        proof {
            lemma_find_gameid_characterization(games@, self.gameid@);
        }
        let n = games.len();
        let mut i: usize = 0;
        while i < n
            invariant
                n == games@.len(),
                games@ == old(games)@,
                forall|j: int| 0 <= j < i ==> games@[j].gameid@ != self.gameid@,
            decreases n - i,
        {
            if crate::text::str_eq(games[i].gameid.as_str(), self.gameid.as_str()) {
                proof {
                    lemma_find_gameid_characterization(games@, self.gameid@);
                    lemma_find_gameid_from_witness(games@, self.gameid@, i as int);
                }
                games[i] = self.duplicate_exact();
                return;
            }
            i = i + 1;
        }
        proof {
            lemma_find_gameid_characterization(games@, self.gameid@);
        }
        games.push(self.duplicate_exact());
    }

    /// Remove every entry with this game's identifier from the list.
    pub fn delete(&self, games: &mut Vec<Game>)
        ensures
            final(games)@ == without_gameid(old(games)@, self.gameid@),
    {
        let n = games.len();
        let mut kept: Vec<Game> = Vec::new();
        let mut i: usize = 0;
        while i < n
            invariant
                n == games@.len(),
                games@ == old(games)@,
                i <= n,
                kept@ == without_gameid(games@.subrange(0, i as int), self.gameid@),
            decreases n - i,
        {
            let ghost prefix = games@.subrange(0, i as int);
            if !crate::text::str_eq(games[i].gameid.as_str(), self.gameid.as_str()) {
                kept.push(games[i].duplicate_exact());
            }
            proof {
                reveal_with_fuel(Seq::filter, 2);
                assert(games@.subrange(0, i + 1).drop_last() =~= prefix);
                assert(games@.subrange(0, i + 1).last() == games@[i as int]);
            }
            i = i + 1;
        }
        proof {
            assert(games@.subrange(0, n as int) =~= games@);
        }
        *games = kept;
    }

    /// Render the playtime as hours and minutes.
    pub fn format_playtime(&self) -> (r: String)
        ensures
            r@ == spec_format_playtime(self.playtime as nat),
    {
        let hours = self.playtime / 3600;
        let minutes = (self.playtime % 3600) / 60;
        proof {
            reveal_strlit("h ");
            reveal_strlit("m");
        }
        if hours > 0 {
            let mut s = crate::text::u64_to_string(hours);
            s.append("h ");
            s.append(crate::text::u64_to_string(minutes).as_str());
            s.append("m");
            s
        } else {
            let mut s = crate::text::u64_to_string(minutes);
            s.append("m");
            s
        }
    }

    /// Add to the playtime counter.
    pub fn add_playtime(&mut self, seconds: u64)
        requires
            old(self).playtime + seconds <= u64::MAX,
        ensures
            final(self).playtime == old(self).playtime + seconds,
            *final(self) == (Game { playtime: final(self).playtime, ..*old(self) }),
    {
        self.playtime = self.playtime + seconds;
    }

    /// Set the hidden flag on the first list entry with this game's
    /// identifier; a list without one is left unchanged.
    pub fn update_hidden(&self, hidden: bool, games: &mut Vec<Game>)
        ensures
            ({
                let f = find_gameid(old(games)@, self.gameid@);
                if f >= 0 {
                    final(games)@ == old(games)@.update(
                        f,
                        (Game { hidden, ..old(games)@[f] }),
                    )
                } else {
                    final(games)@ == old(games)@
                }
            }),
    {
        proof {
            lemma_find_gameid_characterization(games@, self.gameid@);
        }
        let n = games.len();
        let mut i: usize = 0;
        while i < n
            invariant
                n == games@.len(),
                games@ == old(games)@,
                forall|j: int| 0 <= j < i ==> games@[j].gameid@ != self.gameid@,
            decreases n - i,
        {
            if crate::text::str_eq(games[i].gameid.as_str(), self.gameid.as_str()) {
                proof {
                    lemma_find_gameid_characterization(games@, self.gameid@);
                    lemma_find_gameid_from_witness(games@, self.gameid@, i as int);
                }
                let mut g = games[i].duplicate_exact();
                g.hidden = hidden;
                games[i] = g;
                return;
            }
            i = i + 1;
        }
        proof {
            lemma_find_gameid_characterization(games@, self.gameid@);
        }
    }

    /// A copy under a fresh identifier, marked as a copy, with its own
    /// playtime counter.
    pub fn duplicate(&self) -> (r: Game)
        ensures
            r.gameid@.len() == 36,
            r.title@ == self.title@ + " (Copy)"@,
            r.playtime == 0,
            !r.hidden,
            r.path == self.path,
            r.prefix == self.prefix,
            r.launch_arguments == self.launch_arguments,
            r.game_arguments == self.game_arguments,
            r.mangohud == self.mangohud,
            r.gamemode == self.gamemode,
            r.disable_hidraw == self.disable_hidraw,
            r.protonfix == self.protonfix,
            r.runner == self.runner,
            r.addapp_checkbox == self.addapp_checkbox,
            r.addapp == self.addapp,
            r.addapp_bat == self.addapp_bat,
            r.banner == self.banner,
            r.lossless_enabled == self.lossless_enabled,
            r.lossless_multiplier == self.lossless_multiplier,
            r.lossless_flow == self.lossless_flow,
            r.lossless_performance == self.lossless_performance,
            r.lossless_hdr == self.lossless_hdr,
    {
        let mut copy = self.duplicate_exact();
        copy.gameid = new_gameid();
        let mut title = self.title.clone();
        title.append(" (Copy)");
        copy.title = title;
        copy.playtime = 0;
        copy.hidden = false;
        copy
    }
}

/// The playtime rendering: `<hours>h <minutes>m`, or `<minutes>m` under an
/// hour.
pub open spec fn spec_format_playtime(playtime: nat) -> Seq<char> {
    let hours = playtime / 3600;
    let minutes = (playtime % 3600) / 60;
    if hours > 0 {
        dec_str(hours) + "h "@ + dec_str(minutes) + "m"@
    } else {
        dec_str(minutes) + "m"@
    }
}

impl Default for Game {
    /// A blank game: fresh identifier, the default runner family, the default
    /// Lossless-Scaling multiplier, everything else empty or off. The caller
    /// fills in host-dependent paths such as the default prefix.
    fn default() -> (r: Game)
        ensures
            r.gameid@.len() == 36,
            r.title@ == Seq::<char>::empty(),
            r.path@ == Seq::<char>::empty(),
            r.prefix@ == Seq::<char>::empty(),
            r.launch_arguments@ == Seq::<char>::empty(),
            r.game_arguments@ == Seq::<char>::empty(),
            !r.mangohud && !r.gamemode && !r.disable_hidraw,
            r.protonfix@ == Seq::<char>::empty(),
            r.runner@ == "GE-Proton"@,
            !r.addapp_checkbox,
            r.addapp@ == Seq::<char>::empty(),
            r.addapp_bat@ == Seq::<char>::empty(),
            r.banner == Option::<String>::None,
            !r.lossless_enabled,
            r.lossless_multiplier == 2,
            !r.lossless_flow && !r.lossless_performance && !r.lossless_hdr,
            r.playtime == 0,
            !r.hidden,
    {
        Game {
            gameid: new_gameid(),
            title: String::new(),
            path: String::new(),
            prefix: String::new(),
            launch_arguments: String::new(),
            game_arguments: String::new(),
            mangohud: false,
            gamemode: false,
            disable_hidraw: false,
            protonfix: String::new(),
            runner: String::from_str("GE-Proton"),
            addapp_checkbox: false,
            addapp: String::new(),
            addapp_bat: String::new(),
            banner: None,
            lossless_enabled: false,
            lossless_multiplier: 2,
            lossless_flow: false,
            lossless_performance: false,
            lossless_hdr: false,
            playtime: 0,
            hidden: false,
        }
    }
}

/// The editable subset of a game record, as dialogs hand it around.
#[derive(Debug)]
pub struct GameConfig {
    pub gameid: Option<String>,
    pub title: String,
    pub path: String,
    pub prefix: String,
    pub launch_arguments: String,
    pub game_arguments: String,
    pub mangohud: bool,
    pub gamemode: bool,
    pub disable_hidraw: bool,
    pub protonfix: String,
    pub runner: String,
    pub addapp_checkbox: bool,
    pub addapp: String,
    pub addapp_bat: String,
    pub banner: Option<String>,
    pub lossless_enabled: bool,
    pub lossless_multiplier: u32,
    pub lossless_flow: bool,
    pub lossless_performance: bool,
    pub lossless_hdr: bool,
}

impl Game {
    /// Build a game from an edited configuration; a configuration without an
    /// identifier receives a fresh one.
    pub fn from_config(config: GameConfig) -> (r: Game)
        ensures
            match config.gameid {
                Some(id) => r.gameid == id,
                None => r.gameid@.len() == 36,
            },
            r.title == config.title,
            r.path == config.path,
            r.prefix == config.prefix,
            r.launch_arguments == config.launch_arguments,
            r.game_arguments == config.game_arguments,
            r.mangohud == config.mangohud,
            r.gamemode == config.gamemode,
            r.disable_hidraw == config.disable_hidraw,
            r.protonfix == config.protonfix,
            r.runner == config.runner,
            r.addapp_checkbox == config.addapp_checkbox,
            r.addapp == config.addapp,
            r.addapp_bat == config.addapp_bat,
            r.banner == config.banner,
            r.lossless_enabled == config.lossless_enabled,
            r.lossless_multiplier == config.lossless_multiplier,
            r.lossless_flow == config.lossless_flow,
            r.lossless_performance == config.lossless_performance,
            r.lossless_hdr == config.lossless_hdr,
            r.playtime == 0,
            !r.hidden,
    {
        let gameid = match config.gameid {
            Some(id) => id,
            None => new_gameid(),
        };
        Game {
            gameid,
            title: config.title,
            path: config.path,
            prefix: config.prefix,
            launch_arguments: config.launch_arguments,
            game_arguments: config.game_arguments,
            mangohud: config.mangohud,
            gamemode: config.gamemode,
            disable_hidraw: config.disable_hidraw,
            protonfix: config.protonfix,
            runner: config.runner,
            addapp_checkbox: config.addapp_checkbox,
            addapp: config.addapp,
            addapp_bat: config.addapp_bat,
            banner: config.banner,
            lossless_enabled: config.lossless_enabled,
            lossless_multiplier: config.lossless_multiplier,
            lossless_flow: config.lossless_flow,
            lossless_performance: config.lossless_performance,
            lossless_hdr: config.lossless_hdr,
            playtime: 0,
            hidden: false,
        }
    }

    /// The editable configuration of this game.
    pub fn to_config(self) -> (r: GameConfig)
        ensures
            r.gameid == Some(self.gameid),
            r.title == self.title,
            r.path == self.path,
            r.prefix == self.prefix,
            r.launch_arguments == self.launch_arguments,
            r.game_arguments == self.game_arguments,
            r.mangohud == self.mangohud,
            r.gamemode == self.gamemode,
            r.disable_hidraw == self.disable_hidraw,
            r.protonfix == self.protonfix,
            r.runner == self.runner,
            r.addapp_checkbox == self.addapp_checkbox,
            r.addapp == self.addapp,
            r.addapp_bat == self.addapp_bat,
            r.banner == self.banner,
            r.lossless_enabled == self.lossless_enabled,
            r.lossless_multiplier == self.lossless_multiplier,
            r.lossless_flow == self.lossless_flow,
            r.lossless_performance == self.lossless_performance,
            r.lossless_hdr == self.lossless_hdr,
    {
        GameConfig {
            gameid: Some(self.gameid),
            title: self.title,
            path: self.path,
            prefix: self.prefix,
            launch_arguments: self.launch_arguments,
            game_arguments: self.game_arguments,
            mangohud: self.mangohud,
            gamemode: self.gamemode,
            disable_hidraw: self.disable_hidraw,
            protonfix: self.protonfix,
            runner: self.runner,
            addapp_checkbox: self.addapp_checkbox,
            addapp: self.addapp,
            addapp_bat: self.addapp_bat,
            banner: self.banner,
            lossless_enabled: self.lossless_enabled,
            lossless_multiplier: self.lossless_multiplier,
            lossless_flow: self.lossless_flow,
            lossless_performance: self.lossless_performance,
            lossless_hdr: self.lossless_hdr,
        }
    }
}

/// First game with the given identifier.
pub fn find_game_by_id(games: &Vec<Game>, game_id: &str) -> (r: Result<
    Game,
    LauncherError,
>)
    ensures
        ({
            let f = find_gameid(games@, game_id@);
            match r {
                Ok(g) => f >= 0 && g == games@[f],
                Err(e) => f == -1 && e == LauncherError::GameNotFound,
            }
        }),
{
    proof {
        lemma_find_gameid_characterization(games@, game_id@);
    }
    let n = games.len();
    let mut i: usize = 0;
    while i < n
        invariant
            n == games@.len(),
            forall|j: int| 0 <= j < i ==> games@[j].gameid@ != game_id@,
        decreases n - i,
    {
        if crate::text::str_eq(games[i].gameid.as_str(), game_id) {
            proof {
                lemma_find_gameid_characterization(games@, game_id@);
                lemma_find_gameid_from_witness(games@, game_id@, i as int);
            }
            return Ok(games[i].duplicate_exact());
        }
        i = i + 1;
    }
    proof {
        lemma_find_gameid_characterization(games@, game_id@);
    }
    Err(LauncherError::GameNotFound)
}

} // verus!
