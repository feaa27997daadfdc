//! Player identity: profiles with unique usernames and a credentials hash,
//! achievements and access levels granted by the admin.
use vstd::prelude::*;
use crate::common::{Principal, bytes_eq, copy_bytes};
use crate::store::KeyedStore;

verus! {

/// What a player may do.
#[derive(Clone, Copy, PartialEq, Eq, Structural, Debug)]
pub enum AccessLevel {
    Player,
    Moderator,
    Admin,
}

/// Errors of the identity contract.
#[derive(Clone, Copy, PartialEq, Eq, Structural, Debug)]
pub enum Error {
    NotInitialized,
    PlayerNotFound,
    InvalidUsername,
    UsernameTaken,
    InvalidAchievement,
    Unauthorized,
}

/// Longest username, in bytes.
pub const MAX_USERNAME_LENGTH: usize = 50;

/// Longest achievement title, in bytes.
pub const MAX_TITLE_LENGTH: usize = 100;

/// Longest achievement description, in bytes.
pub const MAX_DESCRIPTION_LENGTH: usize = 500;

/// Longest game id of an achievement, in bytes.
pub const MAX_GAME_ID_LENGTH: usize = 50;

/// The length of a text in bytes, as stored.
pub open spec fn byte_len(s: Seq<char>) -> nat {
    vstd::utf8::encode_utf8(s).len()
}

fn text_len(s: &String) -> (r: usize)
    ensures
        r == byte_len(s@),
{
    s.as_str().as_bytes().len()
}

/// An achievement earned by a player.
pub struct Achievement {
    pub title: String,
    pub description: String,
    pub timestamp: u64,
    pub game_id: String,
}

pub struct AchievementModel {
    pub title: Seq<char>,
    pub description: Seq<char>,
    pub timestamp: u64,
    pub game_id: Seq<char>,
}

impl View for Achievement {
    type V = AchievementModel;

    open spec fn view(&self) -> AchievementModel {
        AchievementModel {
            title: self.title@,
            description: self.description@,
            timestamp: self.timestamp,
            game_id: self.game_id@,
        }
    }
}

impl Achievement {
    pub fn copy(&self) -> (r: Achievement)
        ensures
            r@ == self@,
    {
        Achievement {
            title: self.title.clone(),
            description: self.description.clone(),
            timestamp: self.timestamp,
            game_id: self.game_id.clone(),
        }
    }
}

pub open spec fn achievements_view(s: Seq<Achievement>) -> Seq<AchievementModel> {
    s.map_values(|a: Achievement| a@)
}

/// A player's profile.
pub struct PlayerProfile {
    pub player_id: Principal,
    pub username: String,
    pub credentials_hash: Vec<u8>,
    pub achievements: Vec<Achievement>,
    pub access_level: AccessLevel,
}

pub struct PlayerProfileModel {
    pub player_id: Principal,
    pub username: Seq<char>,
    pub credentials_hash: Seq<u8>,
    pub achievements: Seq<AchievementModel>,
    pub access_level: AccessLevel,
}

impl View for PlayerProfile {
    type V = PlayerProfileModel;

    open spec fn view(&self) -> PlayerProfileModel {
        PlayerProfileModel {
            player_id: self.player_id,
            username: self.username@,
            credentials_hash: self.credentials_hash@,
            achievements: achievements_view(self.achievements@),
            access_level: self.access_level,
        }
    }
}

impl PlayerProfile {
    pub fn copy(&self) -> (r: PlayerProfile)
        ensures
            r@ == self@,
    {
        let mut achievements: Vec<Achievement> = Vec::new();
        let mut i: usize = 0;
        while i < self.achievements.len()
            invariant
                0 <= i <= self.achievements@.len(),
                achievements_view(achievements@) == achievements_view(self.achievements@).subrange(
                    0,
                    i as int,
                ),
            decreases self.achievements@.len() - i,
        {
            let a = self.achievements[i].copy();
            let ghost before = achievements@;
            achievements.push(a);
            assert(achievements_view(achievements@) =~= achievements_view(before).push(a@));
            assert(achievements_view(achievements@) =~= achievements_view(
                self.achievements@,
            ).subrange(0, i + 1));
            i = i + 1;
        }
        assert(achievements_view(achievements@) =~= achievements_view(self.achievements@));
        PlayerProfile {
            player_id: self.player_id,
            username: self.username.clone(),
            credentials_hash: copy_bytes(&self.credentials_hash),
            achievements,
            access_level: self.access_level,
        }
    }
}

/// The identity contract's state: the admin, the last profile number
/// handed out, and the profiles by number.
pub struct PlayerIdentityAuth {
    pub admin: Option<Principal>,
    pub player_counter: u32,
    pub profiles: KeyedStore<u32, PlayerProfile>,
}

/// Whether some profile numbered `1..=counter` has this username.
pub open spec fn username_taken(
    profiles: Map<u32, PlayerProfileModel>,
    counter: u32,
    username: Seq<char>,
) -> bool {
    exists|id: u32|
        1 <= id <= counter && #[trigger] profiles.contains_key(id) && profiles[id].username
            == username
}

/// Profile creation and lookup.
pub struct IdentityManager;

impl IdentityManager {
    /// Creates a profile for `player_id` under the next profile number,
    /// with the Player access level and one starting achievement.
    pub fn create_profile(
        state: &mut PlayerIdentityAuth,
        player_id: Principal,
        username: String,
        credentials_hash: Vec<u8>,
        now: u64,
    ) -> (r: Result<u32, Error>)
        requires
            old(state).profiles.wf(),
            old(state).player_counter < u32::MAX,
        ensures
            final(state).profiles.wf(),
            r is Err ==> *final(state) == *old(state),
            r == Err::<u32, _>(Error::NotInitialized) <==> old(state).admin is None,
            r == Err::<u32, _>(Error::InvalidUsername) <==> old(state).admin is Some && byte_len(
                username@,
            ) > MAX_USERNAME_LENGTH,
            r == Err::<u32, _>(Error::UsernameTaken) <==> old(state).admin is Some && byte_len(
                username@,
            ) <= MAX_USERNAME_LENGTH && username_taken(
                old(state).profiles@,
                old(state).player_counter,
                username@,
            ),
            r is Ok <==> old(state).admin is Some && byte_len(username@) <= MAX_USERNAME_LENGTH
                && !username_taken(old(state).profiles@, old(state).player_counter, username@),
            r is Ok ==> {
                let id = (old(state).player_counter + 1) as u32;
                &&& r == Ok::<u32, Error>(id)
                &&& final(state).player_counter == id
                &&& final(state).admin == old(state).admin
                &&& final(state).profiles@ == old(state).profiles@.insert(
                    id,
                    PlayerProfileModel {
                        player_id,
                        username: username@,
                        credentials_hash: credentials_hash@,
                        achievements: seq![
                            AchievementModel {
                                title: "First Achievement"@,
                                description: "Created your first profile!"@,
                                timestamp: now,
                                game_id: "N/A"@,
                            },
                        ],
                        access_level: AccessLevel::Player,
                    },
                )
            },
    {
        if state.admin.is_none() {
            return Err(Error::NotInitialized);
        }
        if text_len(&username) > MAX_USERNAME_LENGTH {
            return Err(Error::InvalidUsername);
        }
        let ids = Self::get_all_profiles(state);
        let mut k: usize = 0;
        while k < ids.len()
            invariant
                *state == *old(state),
                state.profiles.wf(),
                state.admin is Some,
                byte_len(username@) <= MAX_USERNAME_LENGTH,
                0 <= k <= ids@.len(),
                forall|id: u32|
                    #![trigger state.profiles@.contains_key(id)]
                    #![trigger ids@.contains(id)]
                    1 <= id <= state.player_counter && state.profiles@.contains_key(id)
                        <==> ids@.contains(id),
                forall|j: int|
                    0 <= j < k ==> state.profiles@[#[trigger] ids@[j]].username != username@,
            decreases ids@.len() - k,
        {
            match state.profiles.get(&ids[k]) {
                Some(p) => {
                    if p.username == username {
                        proof {
                            assert(ids@.contains(ids@[k as int]));
                        }
                        return Err(Error::UsernameTaken);
                    }
                },
                None => {
                    proof {
                        assert(ids@.contains(ids@[k as int]));
                    }
                },
            }
            k = k + 1;
        }
        proof {
            assert forall|id: u32|
                1 <= id <= state.player_counter && #[trigger] state.profiles@.contains_key(id)
                    implies state.profiles@[id].username != username@ by {
                assert(ids@.contains(id));
                let j = choose|j: int| 0 <= j < ids@.len() && ids@[j] == id;
            }
        }
        let player_counter = state.player_counter + 1;
        let achievement = Achievement {
            title: String::from_str("First Achievement"),
            description: String::from_str("Created your first profile!"),
            timestamp: now,
            game_id: String::from_str("N/A"),
        };
        let mut achievements: Vec<Achievement> = Vec::new();
        achievements.push(achievement);
        let profile = PlayerProfile {
            player_id,
            username,
            credentials_hash,
            achievements,
            access_level: AccessLevel::Player,
        };
        assert(achievements_view(profile.achievements@) =~= seq![
            AchievementModel {
                title: "First Achievement"@,
                description: "Created your first profile!"@,
                timestamp: now,
                game_id: "N/A"@,
            },
        ]);
        state.profiles.set(player_counter, profile);
        state.player_counter = player_counter;
        Ok(player_counter)
    }

    /// The profile numbered `player_id`.
    pub fn get_player_profile(state: &PlayerIdentityAuth, player_id: u32) -> (r: Result<
        PlayerProfile,
        Error,
    >)
        requires
            state.profiles.wf(),
        ensures
            match r {
                Ok(p) => state.profiles@.contains_key(player_id) && p@ == state.profiles@[player_id],
                Err(e) => e == Error::PlayerNotFound && !state.profiles@.contains_key(player_id),
            },
    {
        match state.profiles.get(&player_id) {
            Some(p) => Ok(p.copy()),
            None => Err(Error::PlayerNotFound),
        }
    }

    /// Whether `credentials_hash` is the one stored for `player_id`.
    pub fn verify_credentials(
        state: &PlayerIdentityAuth,
        player_id: u32,
        credentials_hash: &Vec<u8>,
    ) -> (r: Result<bool, Error>)
        requires
            state.profiles.wf(),
        ensures
            match r {
                Ok(b) => state.profiles@.contains_key(player_id) && b == (
                state.profiles@[player_id].credentials_hash == credentials_hash@),
                Err(e) => e == Error::PlayerNotFound && !state.profiles@.contains_key(player_id),
            },
    {
        match state.profiles.get(&player_id) {
            Some(p) => Ok(bytes_eq(&p.credentials_hash, credentials_hash)),
            None => Err(Error::PlayerNotFound),
        }
    }

    /// The numbers `1..=player_counter` that hold a profile, in order.
    pub fn get_all_profiles(state: &PlayerIdentityAuth) -> (r: Vec<u32>)
        requires
            state.profiles.wf(),
        ensures
            forall|id: u32|
                #![trigger state.profiles@.contains_key(id)]
                #![trigger r@.contains(id)]
                1 <= id <= state.player_counter && state.profiles@.contains_key(id)
                    <==> r@.contains(id),
            forall|j: int, k: int| 0 <= j < k < r@.len() ==> r@[j] < r@[k],
    {
        let mut r: Vec<u32> = Vec::new();
        let counter = state.player_counter as u64;
        let mut id: u64 = 1;
        while id <= counter
            invariant
                state.profiles.wf(),
                counter == state.player_counter,
                1 <= id <= counter + 1,
                forall|x: u32|
                    #![trigger state.profiles@.contains_key(x)]
                    #![trigger r@.contains(x)]
                    1 <= x < id && state.profiles@.contains_key(x) <==> r@.contains(x),
                forall|x: int| 0 <= x < r@.len() ==> 1 <= #[trigger] r@[x] < id,
                forall|j: int, k: int| 0 <= j < k < r@.len() ==> r@[j] < r@[k],
            decreases counter + 1 - id,
        {
            let key = id as u32;
            let ghost before = r@;
            if state.profiles.contains(&key) {
                r.push(key);
                assert(r@[r@.len() - 1] == key);
            }
            assert forall|x: u32|
                #![trigger state.profiles@.contains_key(x)]
                #![trigger r@.contains(x)]
                1 <= x < id + 1 && state.profiles@.contains_key(x) <==> r@.contains(x) by {
                if r@.contains(x) && x != key {
                    let j = choose|j: int| 0 <= j < r@.len() && r@[j] == x;
                    assert(before[j] == x);
                    assert(before.contains(x));
                }
                if 1 <= x < id && state.profiles@.contains_key(x) {
                    assert(before.contains(x));
                    let j = choose|j: int| 0 <= j < before.len() && before[j] == x;
                    assert(r@[j] == x);
                }
            }
            id = id + 1;
        }
        r
    }
}

/// Achievements, granted by the admin.
pub struct AchievementManager;

impl AchievementManager {
    /// Appends an achievement to a player's profile; only the admin may.
    pub fn add_achievement(
        state: &mut PlayerIdentityAuth,
        caller: Principal,
        player_id: u32,
        title: String,
        description: String,
        game_id: String,
        now: u64,
    ) -> (r: Result<(), Error>)
        requires
            old(state).profiles.wf(),
        ensures
            final(state).profiles.wf(),
            r is Err ==> *final(state) == *old(state),
            r == Err::<(), _>(Error::NotInitialized) <==> old(state).admin is None,
            r == Err::<(), _>(Error::Unauthorized) <==> old(state).admin is Some && old(state).admin
                != Some(caller),
            r == Err::<(), _>(Error::InvalidAchievement) <==> old(state).admin == Some(caller) && (
            byte_len(title@) > MAX_TITLE_LENGTH || byte_len(description@) > MAX_DESCRIPTION_LENGTH
                || byte_len(game_id@) > MAX_GAME_ID_LENGTH),
            r == Err::<(), _>(Error::PlayerNotFound) <==> old(state).admin == Some(caller)
                && byte_len(title@) <= MAX_TITLE_LENGTH && byte_len(description@)
                <= MAX_DESCRIPTION_LENGTH && byte_len(game_id@) <= MAX_GAME_ID_LENGTH && !old(
                state,
            ).profiles@.contains_key(player_id),
            r is Ok <==> old(state).admin == Some(caller) && byte_len(title@) <= MAX_TITLE_LENGTH
                && byte_len(description@) <= MAX_DESCRIPTION_LENGTH && byte_len(game_id@)
                <= MAX_GAME_ID_LENGTH && old(state).profiles@.contains_key(player_id),
            r is Ok ==> {
                let p = old(state).profiles@[player_id];
                &&& final(state).profiles@ == old(state).profiles@.insert(
                    player_id,
                    PlayerProfileModel {
                        achievements: p.achievements.push(
                            AchievementModel {
                                title: title@,
                                description: description@,
                                timestamp: now,
                                game_id: game_id@,
                            },
                        ),
                        ..p
                    },
                )
                &&& final(state).admin == old(state).admin
                &&& final(state).player_counter == old(state).player_counter
            },
    {
        match state.admin {
            None => {
                return Err(Error::NotInitialized);
            },
            Some(admin) => {
                if admin != caller {
                    return Err(Error::Unauthorized);
                }
            },
        }
        if text_len(&title) > MAX_TITLE_LENGTH || text_len(&description) > MAX_DESCRIPTION_LENGTH
            || text_len(&game_id) > MAX_GAME_ID_LENGTH {
            return Err(Error::InvalidAchievement);
        }
        if !state.profiles.contains(&player_id) {
            return Err(Error::PlayerNotFound);
        }
        let ghost old_state = *state;
        let mut profile = match state.profiles.take(&player_id) {
            Some(p) => p,
            None => {
                return Err(Error::PlayerNotFound);
            },
        };
        let ghost before = profile@;
        let achievement = Achievement { title, description, timestamp: now, game_id };
        let ghost a = achievement@;
        profile.achievements.push(achievement);
        assert(achievements_view(profile.achievements@) =~= before.achievements.push(a));
        state.profiles.set(player_id, profile);
        assert(state.profiles@ =~= old_state.profiles@.insert(
            player_id,
            PlayerProfileModel { achievements: before.achievements.push(a), ..before },
        ));
        Ok(())
    }
}

/// Access levels, set by the admin.
pub struct PermissionManager;

impl PermissionManager {
    /// Sets a player's access level; only the admin may.
    pub fn set_access_level(
        state: &mut PlayerIdentityAuth,
        caller: Principal,
        player_id: u32,
        access_level: AccessLevel,
    ) -> (r: Result<(), Error>)
        requires
            old(state).profiles.wf(),
        ensures
            final(state).profiles.wf(),
            r is Err ==> *final(state) == *old(state),
            r == Err::<(), _>(Error::NotInitialized) <==> old(state).admin is None,
            r == Err::<(), _>(Error::Unauthorized) <==> old(state).admin is Some && old(state).admin
                != Some(caller),
            r == Err::<(), _>(Error::PlayerNotFound) <==> old(state).admin == Some(caller) && !old(
                state,
            ).profiles@.contains_key(player_id),
            r is Ok <==> old(state).admin == Some(caller) && old(state).profiles@.contains_key(
                player_id,
            ),
            r is Ok ==> {
                let p = old(state).profiles@[player_id];
                &&& final(state).profiles@ == old(state).profiles@.insert(
                    player_id,
                    PlayerProfileModel { access_level, ..p },
                )
                &&& final(state).admin == old(state).admin
                &&& final(state).player_counter == old(state).player_counter
            },
    {
        match state.admin {
            None => {
                return Err(Error::NotInitialized);
            },
            Some(admin) => {
                if admin != caller {
                    return Err(Error::Unauthorized);
                }
            },
        }
        if !state.profiles.contains(&player_id) {
            return Err(Error::PlayerNotFound);
        }
        let ghost old_state = *state;
        let mut profile = match state.profiles.take(&player_id) {
            Some(p) => p,
            None => {
                return Err(Error::PlayerNotFound);
            },
        };
        let ghost before = profile@;
        profile.access_level = access_level;
        state.profiles.set(player_id, profile);
        assert(state.profiles@ =~= old_state.profiles@.insert(
            player_id,
            PlayerProfileModel { access_level, ..before },
        ));
        Ok(())
    }
}

impl PlayerIdentityAuth {
    pub open spec fn wf(&self) -> bool {
        self.profiles.wf()
    }

    /// A contract with no admin and no profiles.
    pub fn new() -> (r: PlayerIdentityAuth)
        ensures
            r.wf(),
            r.admin is None,
            r.player_counter == 0,
            r.profiles@ == Map::<u32, PlayerProfileModel>::empty(),
    {
        PlayerIdentityAuth { admin: None, player_counter: 0, profiles: KeyedStore::new() }
    }

    /// Sets the admin and resets the profile counter.
    pub fn initialize(&mut self, admin: Principal)
        ensures
            final(self).admin == Some(admin),
            final(self).player_counter == 0,
            final(self).profiles == old(self).profiles,
    {
        self.admin = Some(admin);
        self.player_counter = 0;
    }

    pub fn create_profile(
        &mut self,
        player_id: Principal,
        username: String,
        credentials_hash: Vec<u8>,
        now: u64,
    ) -> (r: Result<u32, Error>)
        requires
            old(self).wf(),
            old(self).player_counter < u32::MAX,
        ensures
            final(self).wf(),
            r is Err ==> *final(self) == *old(self),
            r == Err::<u32, _>(Error::NotInitialized) <==> old(self).admin is None,
            r == Err::<u32, _>(Error::InvalidUsername) <==> old(self).admin is Some && byte_len(
                username@,
            ) > MAX_USERNAME_LENGTH,
            r == Err::<u32, _>(Error::UsernameTaken) <==> old(self).admin is Some && byte_len(
                username@,
            ) <= MAX_USERNAME_LENGTH && username_taken(
                old(self).profiles@,
                old(self).player_counter,
                username@,
            ),
            r is Ok <==> old(self).admin is Some && byte_len(username@) <= MAX_USERNAME_LENGTH
                && !username_taken(old(self).profiles@, old(self).player_counter, username@),
            r is Ok ==> {
                let id = (old(self).player_counter + 1) as u32;
                &&& r == Ok::<u32, Error>(id)
                &&& final(self).player_counter == id
                &&& final(self).admin == old(self).admin
                &&& final(self).profiles@ == old(self).profiles@.insert(
                    id,
                    PlayerProfileModel {
                        player_id,
                        username: username@,
                        credentials_hash: credentials_hash@,
                        achievements: seq![
                            AchievementModel {
                                title: "First Achievement"@,
                                description: "Created your first profile!"@,
                                timestamp: now,
                                game_id: "N/A"@,
                            },
                        ],
                        access_level: AccessLevel::Player,
                    },
                )
            },
    {
        IdentityManager::create_profile(self, player_id, username, credentials_hash, now)
    }

    pub fn add_achievement(
        &mut self,
        caller: Principal,
        player_id: u32,
        title: String,
        description: String,
        game_id: String,
        now: u64,
    ) -> (r: Result<(), Error>)
        requires
            old(self).wf(),
        ensures
            final(self).wf(),
            r is Err ==> *final(self) == *old(self),
            r == Err::<(), _>(Error::NotInitialized) <==> old(self).admin is None,
            r == Err::<(), _>(Error::Unauthorized) <==> old(self).admin is Some && old(self).admin
                != Some(caller),
            r == Err::<(), _>(Error::InvalidAchievement) <==> old(self).admin == Some(caller) && (
            byte_len(title@) > MAX_TITLE_LENGTH || byte_len(description@) > MAX_DESCRIPTION_LENGTH
                || byte_len(game_id@) > MAX_GAME_ID_LENGTH),
            r == Err::<(), _>(Error::PlayerNotFound) <==> old(self).admin == Some(caller)
                && byte_len(title@) <= MAX_TITLE_LENGTH && byte_len(description@)
                <= MAX_DESCRIPTION_LENGTH && byte_len(game_id@) <= MAX_GAME_ID_LENGTH && !old(
                self,
            ).profiles@.contains_key(player_id),
            r is Ok <==> old(self).admin == Some(caller) && byte_len(title@) <= MAX_TITLE_LENGTH
                && byte_len(description@) <= MAX_DESCRIPTION_LENGTH && byte_len(game_id@)
                <= MAX_GAME_ID_LENGTH && old(self).profiles@.contains_key(player_id),
            r is Ok ==> {
                let p = old(self).profiles@[player_id];
                &&& final(self).profiles@ == old(self).profiles@.insert(
                    player_id,
                    PlayerProfileModel {
                        achievements: p.achievements.push(
                            AchievementModel {
                                title: title@,
                                description: description@,
                                timestamp: now,
                                game_id: game_id@,
                            },
                        ),
                        ..p
                    },
                )
                &&& final(self).admin == old(self).admin
                &&& final(self).player_counter == old(self).player_counter
            },
    {
        AchievementManager::add_achievement(self, caller, player_id, title, description, game_id, now)
    }

    pub fn set_access_level(&mut self, caller: Principal, player_id: u32, access_level: AccessLevel) -> (r: Result<(), Error>)
        requires
            old(self).wf(),
        ensures
            final(self).wf(),
            r is Err ==> *final(self) == *old(self),
            r == Err::<(), _>(Error::NotInitialized) <==> old(self).admin is None,
            r == Err::<(), _>(Error::Unauthorized) <==> old(self).admin is Some && old(self).admin
                != Some(caller),
            r == Err::<(), _>(Error::PlayerNotFound) <==> old(self).admin == Some(caller) && !old(
                self,
            ).profiles@.contains_key(player_id),
            r is Ok <==> old(self).admin == Some(caller) && old(self).profiles@.contains_key(
                player_id,
            ),
            r is Ok ==> {
                let p = old(self).profiles@[player_id];
                &&& final(self).profiles@ == old(self).profiles@.insert(
                    player_id,
                    PlayerProfileModel { access_level, ..p },
                )
                &&& final(self).admin == old(self).admin
                &&& final(self).player_counter == old(self).player_counter
            },
    {
        PermissionManager::set_access_level(self, caller, player_id, access_level)
    }

    /// The profile numbered `player_id`.
    pub fn get_player_info(&self, player_id: u32) -> (r: Result<PlayerProfile, Error>)
        requires
            self.wf(),
        ensures
            match r {
                Ok(p) => self.profiles@.contains_key(player_id) && p@ == self.profiles@[player_id],
                Err(e) => e == Error::PlayerNotFound && !self.profiles@.contains_key(player_id),
            },
    {
        IdentityManager::get_player_profile(self, player_id)
    }

    /// Whether `credentials_hash` is the one stored for `player_id`.
    pub fn verify_credentials(&self, player_id: u32, credentials_hash: &Vec<u8>) -> (r: Result<bool, Error>)
        requires
            self.wf(),
        ensures
            match r {
                Ok(b) => self.profiles@.contains_key(player_id) && b == (
                self.profiles@[player_id].credentials_hash == credentials_hash@),
                Err(e) => e == Error::PlayerNotFound && !self.profiles@.contains_key(player_id),
            },
    {
        IdentityManager::verify_credentials(self, player_id, credentials_hash)
    }
}

} // verus!
