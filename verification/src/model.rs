//! The data the sync engine works on: games, per-user play-state records,
//! fetched library entries, and the keys by which games are identified.
use vstd::prelude::*;

verus! {

/// How far a user has come with a game. The sync engine derives `Unplayed`
/// and `Unfinished` from observed playtime; `Beaten` is only ever set by a
/// collaborator outside this engine and is never produced here.
#[derive(Clone, Copy, Debug, PartialEq, Eq, Structural)]
pub enum PlayState {
    Unplayed,
    Unfinished,
    Beaten,
}

impl PlayState {
    /// The state's name in the persisted schema.
    pub open spec fn spec_label(&self) -> Seq<char> {
        match self {
            PlayState::Unplayed => "unplayed"@,
            PlayState::Unfinished => "unfinished"@,
            PlayState::Beaten => "beaten"@,
        }
    }

    /// The state as the string the persisted schema stores.
    pub fn label(&self) -> (r: String)
        ensures
            r@ == self.spec_label(),
    {
        match self {
            PlayState::Unplayed => "unplayed".to_owned(),
            PlayState::Unfinished => "unfinished".to_owned(),
            PlayState::Beaten => "beaten".to_owned(),
        }
    }
}

/// A game known to the local catalog. At most one game exists per distinct
/// external id; a game without an external id is identified by exact name.
#[derive(Clone, Debug, PartialEq)]
pub struct Game {
    /// Catalog-assigned identifier.
    pub id: i64,
    pub name: String,
    /// The remote service's stable identifier, if known.
    pub external_id: Option<u64>,
}

/// Mathematical image of a [`Game`].
pub ghost struct GameV {
    pub id: i64,
    pub name: Seq<char>,
    pub external_id: Option<u64>,
}

impl View for Game {
    type V = GameV;

    open spec fn view(&self) -> GameV {
        GameV { id: self.id, name: self.name@, external_id: self.external_id }
    }
}

/// The identity of a game when the catalog is consulted: by the remote
/// service's id where one is known, else by exact name.
#[derive(Clone, Debug, PartialEq)]
pub enum GameKey {
    ByExternalId(u64),
    ByName(String),
}

/// Mathematical image of a [`GameKey`].
pub ghost enum GameKeyV {
    ByExternalId(u64),
    ByName(Seq<char>),
}

impl View for GameKey {
    type V = GameKeyV;

    open spec fn view(&self) -> GameKeyV {
        match self {
            GameKey::ByExternalId(e) => GameKeyV::ByExternalId(*e),
            GameKey::ByName(n) => GameKeyV::ByName(n@),
        }
    }
}

/// One entry of a user's remote library, as the fetch hands it to the
/// engine: the remote id, the current name, and total playtime in minutes.
#[derive(Clone, Debug, PartialEq)]
pub struct GameEntry {
    pub external_id: u64,
    pub name: String,
    pub playtime_minutes: u64,
}

/// Mathematical image of a [`GameEntry`].
pub ghost struct GameEntryV {
    pub external_id: u64,
    pub name: Seq<char>,
    pub playtime_minutes: u64,
}

impl View for GameEntry {
    type V = GameEntryV;

    open spec fn view(&self) -> GameEntryV {
        GameEntryV {
            external_id: self.external_id,
            name: self.name@,
            playtime_minutes: self.playtime_minutes,
        }
    }
}

/// The play state of one user for one game, unique per `(user_id, game_id)`.
/// `beat_date` is owned by a collaborator outside this engine: the engine
/// preserves it on every update and never sets it.
#[derive(Clone, Debug, PartialEq)]
pub struct UserGameRecord {
    pub user_id: i64,
    pub game_id: i64,
    pub play_state: PlayState,
    pub platform: String,
    /// Seconds since the Unix epoch.
    pub acquisition_date: i64,
    pub start_date: Option<i64>,
    pub beat_date: Option<i64>,
}

/// Mathematical image of a [`UserGameRecord`].
pub ghost struct UserGameRecordV {
    pub user_id: i64,
    pub game_id: i64,
    pub play_state: PlayState,
    pub platform: Seq<char>,
    pub acquisition_date: i64,
    pub start_date: Option<i64>,
    pub beat_date: Option<i64>,
}

impl View for UserGameRecord {
    type V = UserGameRecordV;

    open spec fn view(&self) -> UserGameRecordV {
        UserGameRecordV {
            user_id: self.user_id,
            game_id: self.game_id,
            play_state: self.play_state,
            platform: self.platform@,
            acquisition_date: self.acquisition_date,
            start_date: self.start_date,
            beat_date: self.beat_date,
        }
    }
}

} // verus!
