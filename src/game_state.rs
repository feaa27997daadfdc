//! Game state: content-addressed save points, per-region world state and an
//! append-only event log with filtered queries.
use vstd::prelude::*;
use crate::common::{Principal, copy_bytes};

verus! {

/// The SHA-256 digest of a byte string.
pub uninterp spec fn sha256_digest(data: Seq<u8>) -> Seq<u8>;

/// Relies on soroban_sdk's `Crypto::sha256`, run on a fresh host: the
/// SHA-256 digest of `data`, 32 bytes long. The bound on the input keeps the
/// call far inside the host's default resource budget.
#[verifier::external_body]
fn sha256(data: &Vec<u8>) -> (r: Vec<u8>)
    requires
        data@.len() <= 64,
    ensures
        r@ == sha256_digest(data@),
        r@.len() == 32,
{
    let env = soroban_sdk::Env::new_with_config(
        soroban_sdk::testutils::EnvTestConfig { capture_snapshot_at_drop: false },
    );
    let bytes = soroban_sdk::Bytes::from_slice(&env, data.as_slice());
    env.crypto().sha256(&bytes).to_array().to_vec()
}

/// A saved point of a player's progress.
pub struct SavePoint {
    pub player: Principal,
    pub data_hash: Vec<u8>,
    pub timestamp: u64,
}

pub struct SavePointModel {
    pub player: Principal,
    pub data_hash: Seq<u8>,
    pub timestamp: u64,
}

impl View for SavePoint {
    type V = SavePointModel;

    open spec fn view(&self) -> SavePointModel {
        SavePointModel { player: self.player, data_hash: self.data_hash@, timestamp: self.timestamp }
    }
}

impl SavePoint {
    pub fn copy(&self) -> (r: SavePoint)
        ensures
            r@ == self@,
    {
        SavePoint {
            player: self.player,
            data_hash: copy_bytes(&self.data_hash),
            timestamp: self.timestamp,
        }
    }
}

/// The state of one region of the game world.
pub struct WorldState {
    pub region_id: String,
    pub state_data: Vec<u8>,
    pub last_updated: u64,
}

pub struct WorldStateModel {
    pub region_id: Seq<char>,
    pub state_data: Seq<u8>,
    pub last_updated: u64,
}

impl View for WorldState {
    type V = WorldStateModel;

    open spec fn view(&self) -> WorldStateModel {
        WorldStateModel {
            region_id: self.region_id@,
            state_data: self.state_data@,
            last_updated: self.last_updated,
        }
    }
}

/// One logged game event.
pub struct GameEvent {
    pub event_id: Vec<u8>,
    pub player: Principal,
    pub event_type: String,
    pub metadata: Vec<u8>,
    pub timestamp: u64,
}

pub struct GameEventModel {
    pub event_id: Seq<u8>,
    pub player: Principal,
    pub event_type: Seq<char>,
    pub metadata: Seq<u8>,
    pub timestamp: u64,
}

impl View for GameEvent {
    type V = GameEventModel;

    open spec fn view(&self) -> GameEventModel {
        GameEventModel {
            event_id: self.event_id@,
            player: self.player,
            event_type: self.event_type@,
            metadata: self.metadata@,
            timestamp: self.timestamp,
        }
    }
}

impl GameEvent {
    pub fn copy(&self) -> (r: GameEvent)
        ensures
            r@ == self@,
    {
        GameEvent {
            event_id: copy_bytes(&self.event_id),
            player: self.player,
            event_type: self.event_type.clone(),
            metadata: copy_bytes(&self.metadata),
            timestamp: self.timestamp,
        }
    }
}

/// The ASCII lowercase hex digit of a value below 16.
pub open spec fn hex_char(d: nat) -> u8 {
    if d < 10 {
        (48 + d) as u8
    } else {
        (87 + d) as u8
    }
}

/// The lowest `n` hex digits of `v`, most significant first.
pub open spec fn hex_digits(v: nat, n: nat) -> Seq<u8>
    decreases n,
{
    if n == 0 {
        Seq::empty()
    } else {
        hex_digits(v / 16, (n - 1) as nat).push(hex_char(v % 16))
    }
}

/// The ASCII decimal digits of `v`, most significant first.
pub open spec fn decimal_digits(v: nat) -> Seq<u8>
    decreases v,
{
    if v < 10 {
        seq![(48 + v) as u8]
    } else {
        decimal_digits(v / 10).push((48 + v % 10) as u8)
    }
}

/// Lowercase hex of a byte string, two digits per byte.
pub open spec fn hex_of_bytes(s: Seq<u8>) -> Seq<u8>
    decreases s.len(),
{
    if s.len() == 0 {
        Seq::empty()
    } else {
        hex_of_bytes(s.drop_last()) + hex_digits(s.last() as nat, 2)
    }
}

/// An event's id: the bytes of the player's address in hex, `_`, and the
/// time in decimal.
pub open spec fn event_id_of(player_key: Seq<u8>, timestamp: u64) -> Seq<u8> {
    hex_of_bytes(player_key) + seq![95u8] + decimal_digits(timestamp as nat)
}

fn hex_char_exec(d: u8) -> (c: u8)
    requires
        d < 16,
    ensures
        c == hex_char(d as nat),
{
    if d < 10 {
        48 + d
    } else {
        87 + d
    }
}

fn hex_bytes(bytes: &Vec<u8>) -> (r: Vec<u8>)
    ensures
        r@ == hex_of_bytes(bytes@),
{
    let mut out: Vec<u8> = Vec::new();
    let mut i: usize = 0;
    while i < bytes.len()
        invariant
            0 <= i <= bytes@.len(),
            out@ == hex_of_bytes(bytes@.subrange(0, i as int)),
        decreases bytes@.len() - i,
    {
        let b = bytes[i];
        let hi = hex_char_exec(b / 16);
        let lo = hex_char_exec(b % 16);
        let ghost before = out@;
        out.push(hi);
        out.push(lo);
        proof {
            let sub = bytes@.subrange(0, i + 1);
            assert(sub.drop_last() =~= bytes@.subrange(0, i as int));
            assert(sub.last() == b);
            let v = b as nat;
            assert(hex_digits(v / 16 / 16, 0) =~= Seq::<u8>::empty());
            assert(hex_digits(v / 16, 1) == hex_digits(v / 16 / 16, 0).push(hex_char(v / 16 % 16)));
            assert(v / 16 % 16 == v / 16);
            assert(hex_digits(v, 2) == hex_digits(v / 16, 1).push(hex_char(v % 16)));
            assert(hex_digits(v, 2) =~= seq![hi, lo]);
            assert(out@ =~= before + seq![hi, lo]);
        }
        i = i + 1;
    }
    assert(bytes@.subrange(0, bytes@.len() as int) =~= bytes@);
    out
}

fn decimal_u64(v: u64) -> (r: Vec<u8>)
    ensures
        r@ == decimal_digits(v as nat),
{
    let mut acc: Vec<u8> = Vec::new();
    let mut x: u64 = v;
    while x >= 10
        invariant
            decimal_digits(v as nat) == decimal_digits(x as nat) + acc@,
        decreases x,
    {
        let d = (x % 10) as u8;
        let ghost before = acc@;
        acc.insert(0, 48 + d);
        assert(decimal_digits(v as nat) =~= decimal_digits((x / 10) as nat) + acc@);
        x = x / 10;
    }
    let ghost before = acc@;
    acc.insert(0, 48 + x as u8);
    assert(acc@ =~= decimal_digits(x as nat) + before);
    assert(decimal_digits(v as nat) =~= acc@);
    acc
}

/// Whether `needle` is non-empty and occurs as a contiguous run in
/// `haystack`.
pub open spec fn contains_run(haystack: Seq<u8>, needle: Seq<u8>) -> bool {
    needle.len() > 0 && exists|i: int|
        0 <= i <= haystack.len() - needle.len() && #[trigger] haystack.subrange(
            i,
            i + needle.len(),
        ) == needle
}

/// Byte-run search: whether `needle` is non-empty and occurs in `haystack`.
pub fn contains_bytes(haystack: &[u8], needle: &[u8]) -> (r: bool)
    ensures
        r == contains_run(haystack@, needle@),
{
    let hlen = haystack.len();
    let nlen = needle.len();
    if nlen == 0 || hlen < nlen {
        return false;
    }
    let mut i: usize = 0;
    while i <= hlen - nlen
        invariant
            hlen == haystack@.len(),
            nlen == needle@.len(),
            0 < nlen <= hlen,
            0 <= i <= hlen - nlen + 1,
            forall|k: int| 0 <= k < i ==> #[trigger] haystack@.subrange(k, k + nlen) != needle@,
        decreases hlen - nlen + 1 - i,
    {
        let mut j: usize = 0;
        let mut found = true;
        while j < nlen
            invariant
                hlen == haystack@.len(),
                nlen == needle@.len(),
                0 <= i <= hlen - nlen,
                0 <= j <= nlen,
                found ==> forall|m: int| 0 <= m < j ==> haystack@[i + m] == needle@[m],
                !found ==> haystack@.subrange(i as int, i + nlen) != needle@,
            decreases nlen - j,
        {
            if haystack[i + j] != needle[j] {
                found = false;
                assert(haystack@.subrange(i as int, i + nlen)[j as int] != needle@[j as int]);
            }
            j = j + 1;
        }
        if found {
            assert(haystack@.subrange(i as int, i + nlen) =~= needle@);
            return true;
        }
        i = i + 1;
    }
    false
}

/// Whether an event passes the optional player and region filters.
pub open spec fn event_matches(
    e: GameEventModel,
    player: Option<Principal>,
    region: Option<Seq<u8>>,
) -> bool {
    &&& match player {
        Some(p) => e.player == p,
        None => true,
    }
    &&& match region {
        Some(r) => contains_run(e.metadata, r),
        None => true,
    }
}

/// The bytes of a region filter.
pub open spec fn region_bytes(region: Option<String>) -> Option<Seq<u8>> {
    match region {
        Some(s) => Some(vstd::utf8::encode_utf8(s@)),
        None => None,
    }
}

/// The events that pass the filters, in log order.
pub open spec fn matching_events(
    s: Seq<GameEventModel>,
    player: Option<Principal>,
    region: Option<Seq<u8>>,
) -> Seq<GameEventModel>
    decreases s.len(),
{
    if s.len() == 0 {
        Seq::empty()
    } else {
        let prev = matching_events(s.drop_last(), player, region);
        if event_matches(s.last(), player, region) {
            prev.push(s.last())
        } else {
            prev
        }
    }
}

/// Save `i` is `player`'s first one made at `ts`.
pub open spec fn first_save_at(s: Seq<SavePoint>, player: Principal, ts: u64, i: int) -> bool {
    &&& 0 <= i < s.len()
    &&& s[i].player == player
    &&& s[i].timestamp == ts
    &&& forall|j: int| 0 <= j < i ==> !(s[j].player == player && s[j].timestamp == ts)
}

/// Save `i` is `player`'s latest one, and the last of equally late ones.
pub open spec fn latest_save(s: Seq<SavePoint>, player: Principal, i: int) -> bool {
    &&& 0 <= i < s.len()
    &&& s[i].player == player
    &&& forall|j: int|
        0 <= j < s.len() && s[j].player == player ==> s[j].timestamp <= s[i].timestamp
    &&& forall|j: int| i < j < s.len() && s[j].player == player ==> s[j].timestamp < s[i].timestamp
}

pub open spec fn saves_view(s: Seq<SavePoint>) -> Seq<SavePointModel> {
    s.map_values(|p: SavePoint| p@)
}

pub open spec fn worlds_view(s: Seq<WorldState>) -> Seq<WorldStateModel> {
    s.map_values(|w: WorldState| w@)
}

pub open spec fn events_view(s: Seq<GameEvent>) -> Seq<GameEventModel> {
    s.map_values(|e: GameEvent| e@)
}

/// The game state contract.
pub struct GameStateContract {
    pub saves: Vec<SavePoint>,
    pub world_states: Vec<WorldState>,
    pub events: Vec<GameEvent>,
}

impl GameStateContract {
    pub fn new() -> (r: GameStateContract)
        ensures
            r.saves@.len() == 0,
            r.world_states@.len() == 0,
            r.events@.len() == 0,
    {
        GameStateContract { saves: Vec::new(), world_states: Vec::new(), events: Vec::new() }
    }

    /// Appends a save point for `player` holding `data_hash`.
    pub fn record_save(&mut self, player: Principal, data_hash: Vec<u8>, now: u64)
        ensures
            saves_view(final(self).saves@) == saves_view(old(self).saves@).push(
                SavePointModel { player, data_hash: data_hash@, timestamp: now },
            ),
            final(self).world_states == old(self).world_states,
            final(self).events == old(self).events,
    {
        let point = SavePoint { player, data_hash, timestamp: now };
        let ghost m = point@;
        self.saves.push(point);
        assert(saves_view(self.saves@) =~= saves_view(old(self).saves@).push(m));
    }

    /// Saves `player`'s progress by the SHA-256 digest of `data`, and
    /// returns the digest.
    pub fn save_progress(&mut self, player: Principal, data: &Vec<u8>, now: u64) -> (r: Vec<u8>)
        requires
            data@.len() == 64,
        ensures
            r@ == sha256_digest(data@),
            r@.len() == 32,
            saves_view(final(self).saves@) == saves_view(old(self).saves@).push(
                SavePointModel { player, data_hash: sha256_digest(data@), timestamp: now },
            ),
            final(self).world_states == old(self).world_states,
            final(self).events == old(self).events,
    {
        let digest = sha256(data);
        self.record_save(player, copy_bytes(&digest), now);
        digest
    }

    /// `player`'s save point: the first one made at `timestamp` if given,
    /// else the latest one (the last saved among equally late ones).
    pub fn load_progress(&self, player: Principal, timestamp: Option<u64>) -> (r: Option<SavePoint>)
        ensures
            timestamp is Some && r is Some ==> exists|i: int|
                #[trigger] first_save_at(self.saves@, player, timestamp->Some_0, i)
                    && r->Some_0@ == self.saves@[i]@,
            timestamp is Some && r is None ==> forall|j: int|
                0 <= j < self.saves@.len() ==> !(self.saves@[j].player == player
                    && self.saves@[j].timestamp == timestamp->Some_0),
            timestamp is None && r is Some ==> exists|i: int|
                #[trigger] latest_save(self.saves@, player, i) && r->Some_0@ == self.saves@[i]@,
            timestamp is None && r is None ==> forall|j: int|
                0 <= j < self.saves@.len() ==> self.saves@[j].player != player,
    {
        match timestamp {
            Some(ts) => {
                let mut i: usize = 0;
                while i < self.saves.len()
                    invariant
                        timestamp == Some(ts),
                        0 <= i <= self.saves@.len(),
                        forall|j: int|
                            0 <= j < i ==> !(self.saves@[j].player == player
                                && self.saves@[j].timestamp == ts),
                    decreases self.saves@.len() - i,
                {
                    if self.saves[i].player == player && self.saves[i].timestamp == ts {
                        let c = self.saves[i].copy();
                        assert(first_save_at(self.saves@, player, timestamp->Some_0, i as int));
                        assert(c@ == self.saves@[i as int]@);
                        return Some(c);
                    }
                    i = i + 1;
                }
                None
            },
            None => {
                let mut best: Option<usize> = None;
                let mut i: usize = 0;
                while i < self.saves.len()
                    invariant
                        timestamp is None,
                        0 <= i <= self.saves@.len(),
                        match best {
                            Some(b) => {
                                &&& b < i
                                &&& self.saves@[b as int].player == player
                                &&& forall|j: int|
                                    0 <= j < i && self.saves@[j].player == player
                                        ==> self.saves@[j].timestamp
                                        <= self.saves@[b as int].timestamp
                                &&& forall|j: int|
                                    b < j < i && self.saves@[j].player == player
                                        ==> self.saves@[j].timestamp
                                        < self.saves@[b as int].timestamp
                            },
                            None => forall|j: int|
                                0 <= j < i ==> self.saves@[j].player != player,
                        },
                    decreases self.saves@.len() - i,
                {
                    if self.saves[i].player == player {
                        match best {
                            Some(b) => {
                                if self.saves[i].timestamp >= self.saves[b].timestamp {
                                    best = Some(i);
                                }
                            },
                            None => {
                                best = Some(i);
                            },
                        }
                    }
                    i = i + 1;
                }
                match best {
                    Some(b) => {
                        assert(latest_save(self.saves@, player, b as int));
                        Some(self.saves[b].copy())
                    },
                    None => None,
                }
            },
        }
    }

    /// Stores a region's state, replacing the first entry for that region
    /// or appending a new one.
    pub fn update_world_state(&mut self, region_id: String, state_data: Vec<u8>, now: u64)
        ensures
            final(self).saves == old(self).saves,
            final(self).events == old(self).events,
            ({
                let w = WorldStateModel {
                    region_id: region_id@,
                    state_data: state_data@,
                    last_updated: now,
                };
                let old_w = worlds_view(old(self).world_states@);
                let new_w = worlds_view(final(self).world_states@);
                ||| exists|i: int|
                    {
                        &&& 0 <= i < old_w.len()
                        &&& old_w[i].region_id == region_id@
                        &&& forall|j: int| 0 <= j < i ==> old_w[j].region_id != region_id@
                        &&& new_w == old_w.update(i, w)
                    }
                ||| (forall|j: int| 0 <= j < old_w.len() ==> old_w[j].region_id != region_id@)
                    && new_w == old_w.push(w)
            }),
    {
        let mut i: usize = 0;
        while i < self.world_states.len()
            invariant
                *self == *old(self),
                0 <= i <= self.world_states@.len(),
                forall|j: int| 0 <= j < i ==> self.world_states@[j].region_id@ != region_id@,
            decreases self.world_states@.len() - i,
        {
            if self.world_states[i].region_id == region_id {
                let state = WorldState { region_id, state_data, last_updated: now };
                let ghost w = state@;
                self.world_states.set(i, state);
                assert(worlds_view(self.world_states@) =~= worlds_view(
                    old(self).world_states@,
                ).update(i as int, w));
                return;
            }
            i = i + 1;
        }
        let state = WorldState { region_id, state_data, last_updated: now };
        let ghost w = state@;
        self.world_states.push(state);
        assert(worlds_view(self.world_states@) =~= worlds_view(old(self).world_states@).push(w));
    }

    /// Logs an event for `player`, whose ledger address has the bytes
    /// `player_key`, and returns its id.
    pub fn log_event(
        &mut self,
        player: Principal,
        player_key: &Vec<u8>,
        event_type: String,
        metadata: Vec<u8>,
        now: u64,
    ) -> (r: Vec<u8>)
        ensures
            r@ == event_id_of(player_key@, now),
            events_view(final(self).events@) == events_view(old(self).events@).push(
                GameEventModel {
                    event_id: event_id_of(player_key@, now),
                    player,
                    event_type: event_type@,
                    metadata: metadata@,
                    timestamp: now,
                },
            ),
            final(self).saves == old(self).saves,
            final(self).world_states == old(self).world_states,
    {
        let mut id = hex_bytes(player_key);
        id.push(95u8);
        let mut decimal = decimal_u64(now);
        let ghost head = id@;
        let ghost tail = decimal@;
        id.append(&mut decimal);
        assert(id@ =~= event_id_of(player_key@, now));
        let event = GameEvent {
            event_id: copy_bytes(&id),
            player,
            event_type,
            metadata,
            timestamp: now,
        };
        let ghost m = event@;
        self.events.push(event);
        assert(events_view(self.events@) =~= events_view(old(self).events@).push(m));
        id
    }

    /// The logged events of `player` (if given) whose metadata holds the
    /// bytes of `region_id` (if given), in log order.
    pub fn get_event_log(&self, player: Option<Principal>, region_id: Option<String>) -> (r: Vec<
        GameEvent,
    >)
        ensures
            events_view(r@) == matching_events(
                events_view(self.events@),
                player,
                region_bytes(region_id),
            ),
    {
        let ghost region = region_bytes(region_id);
        let ghost all = events_view(self.events@);
        let mut r: Vec<GameEvent> = Vec::new();
        let mut i: usize = 0;
        while i < self.events.len()
            invariant
                all == events_view(self.events@),
                region == region_bytes(region_id),
                0 <= i <= self.events@.len(),
                events_view(r@) == matching_events(all.subrange(0, i as int), player, region),
            decreases self.events@.len() - i,
        {
            let e = &self.events[i];
            let player_match = match player {
                Some(p) => e.player == p,
                None => true,
            };
            let region_match = match &region_id {
                Some(name) => contains_bytes(e.metadata.as_slice(), name.as_str().as_bytes()),
                None => true,
            };
            let ghost before = r@;
            proof {
                assert(all.subrange(0, i + 1).drop_last() =~= all.subrange(0, i as int));
                assert(all.subrange(0, i + 1).last() == e@);
            }
            if player_match && region_match {
                let c = e.copy();
                r.push(c);
                assert(events_view(r@) =~= events_view(before).push(c@));
            }
            i = i + 1;
        }
        assert(all.subrange(0, self.events@.len() as int) =~= all);
        r
    }
}

} // verus!
