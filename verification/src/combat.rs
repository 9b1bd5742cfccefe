//! Combat: the zones of a map, which character stands in which zone, and
//! where each character's icon is drawn within its zone.

use crate::characters::Initiative;
use crate::combat_map::{CombatMap, MapZone, StartPosition, ZoneMove};
use crate::error::GameError;
use crate::initiative::{are_rolls, initiative_from_roll, roll_many, with_roll};
use crate::roster::{carries_tag, first_with_tag, placed, Character, Identity, Roster};
use crate::seqs::{
    first_where, last_where, lemma_first_where, lemma_last_where, lemma_last_where_is,
    lemma_where_none,
};
use bevy::utils::HashMap;
use vstd::prelude::*;

verus! {

/// The key and the display name of a zone.
#[derive(Debug)]
pub struct ZoneName {
    pub tag: String,
    pub name: String,
}

impl ZoneName {
    pub fn new(tag: &str, name: &str) -> (zone_name: Self)
        ensures
            zone_name.tag@ == tag@,
            zone_name.name@ == name@,
    {
        ZoneName { tag: tag.to_owned(), name: name.to_owned() }
    }
}

/// A zone of the current map: its name, and the moves that lead out of it.
#[derive(Debug)]
pub struct Zone {
    pub name: ZoneName,
    pub adjacent: Vec<ZoneMove>,
}

/// A character's membership in a zone: the tag of the zone, and, once
/// resolved against the current map, the place of that zone on the map.
#[derive(Debug)]
pub struct InZone {
    pub name: String,
    pub area: Option<usize>,
}

impl InZone {
    pub fn new(name: &str) -> (in_zone: Self)
        ensures
            in_zone.name@ == name@,
            in_zone.area is None,
    {
        InZone { name: name.to_owned(), area: None }
    }
}

impl Clone for InZone {
    fn clone(&self) -> (copy: Self)
        ensures
            copy == *self,
    {
        InZone { name: self.name.clone(), area: self.area }
    }
}

/// The zone that a zone of a loaded map becomes.
pub open spec fn is_zone_of(zone: Zone, loaded: MapZone) -> bool {
    &&& zone.name.tag == loaded.tag
    &&& zone.name.name == loaded.name
    &&& zone.adjacent@ == loaded.adjacent@
}

/// The place of the zone that a tag resolves to: that of the last zone
/// with the tag. On a map whose tags are distinct it is the only one.
pub open spec fn resolved(zones: Seq<Zone>, tag: Seq<char>) -> Option<int> {
    last_where(zones, has_zone_tag(tag))
}

/// The test whether a zone has the given tag.
pub open spec fn has_zone_tag(tag: Seq<char>) -> spec_fn(Zone) -> bool {
    |zone: Zone| zone.name.tag@ == tag
}

/// No two zones share a tag.
pub open spec fn tags_distinct(zones: Seq<Zone>) -> bool {
    forall|i: int, j: int|
        0 <= i < j < zones.len() ==> (#[trigger] zones[i]).name.tag@ != (#[trigger] zones[j]).name.tag@
}

/// The place of the zone in which a character stands, once its membership
/// is resolved.
pub open spec fn area_of(character: Character) -> Option<usize> {
    match character.zone {
        Some(zone) => zone.area,
        None => None,
    }
}

/// A character after its membership was held against the zones of a map:
/// it is bound to the zone that its tag resolves to, and unbound where no
/// zone has the tag. A character that is in no zone is as it was.
pub open spec fn resolved_character(character: Character, zones: Seq<Zone>) -> Character {
    match character.zone {
        Some(zone) => Character {
            zone: Some(
                InZone {
                    name: zone.name,
                    area: match resolved(zones, zone.name@) {
                        Some(at) => Some(at as usize),
                        None => None,
                    },
                },
            ),
            ..character
        },
        None => character,
    }
}

/// The zones of the current map, in the order of the map. A zone's place
/// in this order is what a resolved membership refers to; it holds until
/// the map is loaded anew.
#[derive(Debug)]
pub struct ZoneMap {
    pub zones: Vec<Zone>,
}

impl View for ZoneMap {
    type V = Seq<Zone>;

    open spec fn view(&self) -> Seq<Zone> {
        self.zones@
    }
}

impl ZoneMap {
    /// The zones of a loaded map.
    pub fn from_map(map: &CombatMap) -> (zones: Self)
        ensures
            zones@.len() == map.zones@.len(),
            forall|i: int| 0 <= i < map.zones@.len() ==> is_zone_of(#[trigger] zones@[i], map.zones@[i]),
    {
        let mut zones: Vec<Zone> = Vec::new();
        let mut i: usize = 0;
        while i < map.zones.len()
            invariant
                i <= map.zones@.len(),
                zones@.len() == i,
                forall|j: int| 0 <= j < i ==> is_zone_of(#[trigger] zones@[j], map.zones@[j]),
            decreases map.zones@.len() - i,
        {
            let loaded = &map.zones[i];
            let mut adjacent: Vec<ZoneMove> = Vec::new();
            let mut k: usize = 0;
            while k < loaded.adjacent.len()
                invariant
                    k <= loaded.adjacent@.len(),
                    adjacent@ == loaded.adjacent@.take(k as int),
                decreases loaded.adjacent@.len() - k,
            {
                adjacent.push(loaded.adjacent[k].clone());
                k += 1;
                assert(adjacent@ =~= loaded.adjacent@.take(k as int));
            }
            assert(loaded.adjacent@.take(k as int) =~= loaded.adjacent@);
            zones.push(
                Zone {
                    name: ZoneName { tag: loaded.tag.clone(), name: loaded.name.clone() },
                    adjacent,
                },
            );
            i += 1;
        }
        ZoneMap { zones }
    }

    pub fn len(&self) -> (len: usize)
        ensures
            len == self@.len(),
    {
        self.zones.len()
    }

    fn resolve(&self, tag: &String) -> (found: Option<usize>)
        ensures
            match found {
                Some(at) => resolved(self@, tag@) == Some(at as int),
                None => resolved(self@, tag@) is None,
            },
    {
        let ghost tagged = has_zone_tag(tag@);
        let mut i: usize = self.zones.len();
        while i > 0
            invariant
                i <= self@.len(),
                tagged == has_zone_tag(tag@),
                forall|j: int| i <= j < self@.len() ==> !tagged(#[trigger] self@[j]),
            decreases i,
        {
            i -= 1;
            if self.zones[i].name.tag == *tag {
                proof {
                    lemma_last_where_is(self@, tagged, i as int);
                }
                return Some(i);
            }
        }
        proof {
            lemma_where_none(self@, tagged);
        }
        None
    }

    /// The place of the zone that a tag resolves to.
    pub fn find(&self, tag: &str) -> (found: Result<usize, GameError>)
        ensures
            match found {
                Ok(at) => resolved(self@, tag@) == Some(at as int),
                Err(error) => error == GameError::NotFound && resolved(self@, tag@) is None,
            },
    {
        let wanted = tag.to_owned();
        match self.resolve(&wanted) {
            Some(at) => Ok(at),
            None => Err(GameError::NotFound),
        }
    }
}

/// `at` is the place, among the moves out of the zone `from`, of the first
/// move that leads to the zone `to`.
pub open spec fn is_move_between(zones: Seq<Zone>, from: int, to: int, at: int) -> bool {
    &&& 0 <= from < zones.len()
    &&& 0 <= at < zones[from].adjacent@.len()
    &&& resolved(zones, zones[from].adjacent@[at].tag@) == Some(to)
    &&& forall|m: int|
        0 <= m < at ==> resolved(zones, (#[trigger] zones[from].adjacent@[m]).tag@) != Some(to)
}

/// Whether some move leads out of the zone `from` into the zone `to`.
pub open spec fn are_adjacent(zones: Seq<Zone>, from: int, to: int) -> bool {
    &&& 0 <= from < zones.len()
    &&& exists|m: int|
        0 <= m < zones[from].adjacent@.len() && resolved(
            zones,
            (#[trigger] zones[from].adjacent@[m]).tag@,
        ) == Some(to)
}

impl ZoneMap {
    /// The move that leads from one zone to another: the first of the
    /// moves out of `from` whose tag resolves to `to`. None where the map
    /// has no such move.
    pub fn move_between(&self, from: usize, to: usize) -> (found: Option<&ZoneMove>)
        ensures
            match found {
                Some(zone_move) => exists|at: int|
                    is_move_between(self@, from as int, to as int, at) && *zone_move
                        == self@[from as int].adjacent@[at],
                None => !are_adjacent(self@, from as int, to as int),
            },
    {
        if from >= self.zones.len() {
            return None;
        }
        let moves = &self.zones[from].adjacent;
        let mut m: usize = 0;
        while m < moves.len()
            invariant
                m <= moves@.len(),
                from < self@.len(),
                moves == &self@[from as int].adjacent,
                forall|k: int|
                    0 <= k < m ==> resolved(self@, (#[trigger] moves@[k]).tag@) != Some(to as int),
            decreases moves@.len() - m,
        {
            match self.resolve(&moves[m].tag) {
                Some(at) => {
                    if at == to {
                        assert(is_move_between(self@, from as int, to as int, m as int));
                        return Some(&moves[m]);
                    }
                },
                None => {},
            }
            m += 1;
        }
        None
    }
}

/// Holds every character's zone membership against the zones of the map.
/// To be called again whenever the map or a membership changes: what was
/// resolved before is not kept.
pub fn resolve_all(roster: &mut Roster, zones: &ZoneMap)
    ensures
        final(roster)@.len() == old(roster)@.len(),
        forall|i: int|
            0 <= i < old(roster)@.len() ==> #[trigger] final(roster)@[i] == resolved_character(
                old(roster)@[i],
                zones@,
            ),
{
    let mut i: usize = 0;
    while i < roster.characters.len()
        invariant
            i <= roster@.len(),
            roster@.len() == old(roster)@.len(),
            forall|j: int|
                0 <= j < i ==> #[trigger] roster@[j] == resolved_character(old(roster)@[j], zones@),
            forall|j: int| i <= j < roster@.len() ==> #[trigger] roster@[j] == old(roster)@[j],
        decreases roster@.len() - i,
    {
        let found = match &roster.characters[i].zone {
            Some(zone) => Some(zones.resolve(&zone.name)),
            None => None,
        };
        if let Some(area) = found {
            let name = match &roster.characters[i].zone {
                Some(zone) => zone.name.clone(),
                None => String::new(),
            };
            roster.characters[i].zone = Some(InZone { name, area });
        }
        i += 1;
    }
}

/// The zone in which a character stands.
pub fn zone_of(roster: &Roster, who: usize) -> (zone: Result<usize, GameError>)
    ensures
        match zone {
            Ok(at) => who < roster@.len() && area_of(roster@[who as int]) == Some(at),
            Err(error) => if who >= roster@.len() {
                error == GameError::NotFound
            } else {
                error == GameError::Unresolved && area_of(roster@[who as int]) is None
            },
        },
{
    if who >= roster.characters.len() {
        return Err(GameError::NotFound);
    }
    match &roster.characters[who].zone {
        Some(zone) => match zone.area {
            Some(at) => Ok(at),
            None => Err(GameError::Unresolved),
        },
        None => Err(GameError::Unresolved),
    }
}

/// After a resolve pass every bound membership refers to a zone of the map,
/// and that zone has the membership's tag.
pub proof fn lemma_resolved_is_on_map(character: Character, zones: Seq<Zone>)
    requires
        zones.len() <= usize::MAX,
    ensures
        match area_of(resolved_character(character, zones)) {
            Some(at) => {
                &&& at < zones.len()
                &&& character.zone is Some
                &&& zones[at as int].name.tag@ == character.zone->0.name@
            },
            None => character.zone is Some ==> forall|j: int|
                0 <= j < zones.len() ==> (#[trigger] zones[j]).name.tag@ != character.zone->0.name@,
        },
{
    if character.zone is Some {
        let tag = character.zone->0.name@;
        lemma_last_where(zones, has_zone_tag(tag));
    }
}

/// Resolving changes nothing of a character but the zone it is bound to:
/// not the tag of the membership, and nothing outside the membership.
pub proof fn lemma_resolving_binds_only(character: Character, zones: Seq<Zone>)
    ensures
        resolved_character(character, zones) == (Character {
            zone: resolved_character(character, zones).zone,
            ..character
        }),
        character.zone is Some <==> resolved_character(character, zones).zone is Some,
        character.zone matches Some(before) ==> resolved_character(character, zones).zone->0.name
            == before.name,
{
}

/// To resolve twice against the same map is to resolve once.
pub proof fn lemma_resolving_twice(character: Character, zones: Seq<Zone>)
    ensures
        resolved_character(resolved_character(character, zones), zones) == resolved_character(
            character,
            zones,
        ),
{
}

/// On a map whose tags are distinct, a tag resolves to the one zone that
/// has it.
pub proof fn lemma_resolved_unique(zones: Seq<Zone>, tag: Seq<char>, at: int)
    requires
        tags_distinct(zones),
        0 <= at < zones.len(),
        zones[at].name.tag@ == tag,
    ensures
        resolved(zones, tag) == Some(at),
{
    lemma_last_where(zones, has_zone_tag(tag));
    match resolved(zones, tag) {
        Some(other) => {
            if other != at {
                assert(zones[at].name.tag@ != zones[other].name.tag@);
            }
        },
        None => {
            assert(zones[at].name.tag@ == tag);
        },
    }
}

/// The characters that stand in a zone, by their places in the roster and
/// in the order of the roster.
pub open spec fn occupants(characters: Seq<Character>, zone: usize) -> Seq<usize>
    decreases characters.len(),
{
    if characters.len() == 0 {
        Seq::empty()
    } else {
        let before = occupants(characters.drop_last(), zone);
        if area_of(characters.last()) == Some(zone) {
            before.push((characters.len() - 1) as usize)
        } else {
            before
        }
    }
}

/// For every zone in which somebody stands, its occupants, in the order in
/// which they were put down. The zones are kept in a hash map of the game
/// engine's utilities, which this library does not look into: what the
/// table holds is known by the contracts of the few operations below.
#[verifier::external_body]
pub struct ZoneOccupants {
    by_zone: HashMap<usize, Vec<usize>>,
}

/// What a table holds: the zones that have an entry, each with its list of
/// occupants.
pub uninterp spec fn occupancy(table: ZoneOccupants) -> Map<usize, Seq<usize>>;

impl ZoneOccupants {
    /// An empty table. Calls `HashMap::new` of `hashbrown`, by way of
    /// `bevy::utils::HashMap`, which makes a map without entries.
    #[verifier::external_body]
    fn new() -> (made: ZoneOccupants)
        ensures
            forall|zone: usize| !occupancy(made).contains_key(zone),
    {
        ZoneOccupants { by_zone: HashMap::new() }
    }

    /// Takes the list of a zone out of the table. Calls `HashMap::remove`,
    /// which removes the entry of the key, if there is one, and hands back
    /// the value that it held; the other entries stay.
    #[verifier::external_body]
    fn take(&mut self, zone: usize) -> (list: Option<Vec<usize>>)
        ensures
            occupancy(*final(self)) == occupancy(*old(self)).remove(zone),
            match list {
                Some(held) => occupancy(*old(self)).contains_key(zone) && held@ == occupancy(
                    *old(self),
                )[zone],
                None => !occupancy(*old(self)).contains_key(zone),
            },
    {
        self.by_zone.remove(&zone)
    }

    /// Puts the list of a zone into the table. Calls `HashMap::insert`,
    /// which sets the value of the key, whether or not the key had one;
    /// the other entries stay.
    #[verifier::external_body]
    fn put(&mut self, zone: usize, list: Vec<usize>)
        ensures
            occupancy(*final(self)) == occupancy(*old(self)).insert(zone, list@),
    {
        self.by_zone.insert(zone, list);
    }

    /// A copy of the list of a zone. Calls `HashMap::get`, which finds the
    /// value of the key, if the key has one, and clones the list found.
    #[verifier::external_body]
    fn copy_of(&self, zone: usize) -> (list: Option<Vec<usize>>)
        ensures
            match list {
                Some(held) => occupancy(*self).contains_key(zone) && held@ == occupancy(
                    *self,
                )[zone],
                None => !occupancy(*self).contains_key(zone),
            },
    {
        self.by_zone.get(&zone).cloned()
    }

    /// The occupants of a zone, in the order in which they were put down:
    /// none for a zone that has no entry.
    pub fn in_zone(&self, zone: usize) -> (list: Vec<usize>)
        ensures
            list@ == if occupancy(*self).contains_key(zone) {
                occupancy(*self)[zone]
            } else {
                Seq::<usize>::empty()
            },
    {
        match self.copy_of(zone) {
            Some(list) => list,
            None => Vec::new(),
        }
    }

    /// Whether anybody stands in a zone.
    pub fn is_occupied(&self, zone: usize) -> (occupied: bool)
        ensures
            occupied == occupancy(*self).contains_key(zone),
    {
        self.copy_of(zone).is_some()
    }

    /// Puts one more occupant down in a zone, after those that are there,
    /// and returns how many there are now.
    fn put_down(&mut self, zone: usize, who: usize) -> (count: usize)
        requires
            occupancy(*old(self)).contains_key(zone) ==> occupancy(*old(self))[zone].len()
                < usize::MAX,
        ensures
            occupancy(*final(self)) == occupancy(*old(self)).insert(
                zone,
                (if occupancy(*old(self)).contains_key(zone) {
                    occupancy(*old(self))[zone]
                } else {
                    Seq::<usize>::empty()
                }).push(who),
            ),
            count == occupancy(*final(self))[zone].len(),
    {
        let mut list = match self.take(zone) {
            Some(list) => list,
            None => Vec::new(),
        };
        list.push(who);
        let count = list.len();
        self.put(zone, list);
        assert(occupancy(*self) =~= occupancy(*old(self)).insert(zone, list@));
        count
    }
}

/// The distance, along the x axis, between the centre of a zone and the
/// icon of the occupant at the given position. Positions count from 1.
pub open spec fn offset_at(position: int) -> int {
    -60 + 20 * position
}

/// Where a character's icon is drawn within its zone.
#[derive(Debug, Clone, Copy, PartialEq, Eq, Structural)]
pub struct IconSlot {
    /// The place of the zone on the map.
    pub zone: usize,
    /// The character's position among the occupants of the zone, from 1.
    pub position: usize,
    /// The distance of the icon from the zone's centre along the x axis.
    pub x_offset: i128,
    /// How far the icon is raised above the zone. It is the position.
    pub z_bump: usize,
}

/// The slot of the character at a place of the roster: none while the
/// character stands in no zone.
pub open spec fn slot_of(characters: Seq<Character>, who: int) -> Option<IconSlot> {
    match area_of(characters[who]) {
        Some(zone) => {
            let position = occupants(characters.take(who + 1), zone).len();
            Some(
                IconSlot {
                    zone,
                    position: position as usize,
                    x_offset: offset_at(position as int) as i128,
                    z_bump: position as usize,
                },
            )
        },
        None => None,
    }
}

/// One more character changes the occupants of its own zone only, and
/// comes last among them.
proof fn lemma_occupants_step(characters: Seq<Character>, upto: int, zone: usize)
    requires
        0 <= upto < characters.len(),
        characters.len() <= usize::MAX,
    ensures
        occupants(characters.take(upto + 1), zone) == if area_of(characters[upto]) == Some(zone) {
            occupants(characters.take(upto), zone).push(upto as usize)
        } else {
            occupants(characters.take(upto), zone)
        },
{
    let longer = characters.take(upto + 1);
    assert(longer.drop_last() =~= characters.take(upto));
    assert(longer.last() == characters[upto]);
}

/// The occupants of a zone are at most as many as the characters.
proof fn lemma_occupants_len(characters: Seq<Character>, zone: usize)
    ensures
        occupants(characters, zone).len() <= characters.len(),
    decreases characters.len(),
{
    if characters.len() > 0 {
        lemma_occupants_len(characters.drop_last(), zone);
    }
}

/// The offset of the icon at a position. It is exact for every position
/// that a roster can give.
pub fn occupant_offset(position: usize) -> (offset: i128)
    ensures
        offset == offset_at(position as int),
{
    -60 + 20 * (position as i128)
}

/// The table that holds, for every zone, the occupants among the given
/// characters, and no entry for a zone in which none of them stands.
pub open spec fn is_occupancy_of(characters: Seq<Character>, table: ZoneOccupants) -> bool {
    &&& forall|zone: usize|
        occupancy(table).contains_key(zone) <==> occupants(characters, zone).len() > 0
    &&& forall|zone: usize|
        occupancy(table).contains_key(zone) ==> #[trigger] occupancy(table)[zone] == occupants(
            characters,
            zone,
        )
}

/// Who stands where: for every zone in which somebody stands, its
/// occupants in the order of the roster. A zone in which nobody stands has
/// no entry.
pub fn occupants_by_zone(roster: &Roster) -> (by_zone: ZoneOccupants)
    ensures
        is_occupancy_of(roster@, by_zone),
{
    let mut by_zone = ZoneOccupants::new();
    let mut i: usize = 0;
    assert(roster@.take(0) =~= Seq::<Character>::empty());
    while i < roster.characters.len()
        invariant
            i <= roster@.len(),
            forall|zone: usize|
                occupancy(by_zone).contains_key(zone) <==> occupants(
                    roster@.take(i as int),
                    zone,
                ).len() > 0,
            forall|zone: usize|
                occupancy(by_zone).contains_key(zone) ==> #[trigger] occupancy(by_zone)[zone]
                    == occupants(roster@.take(i as int), zone),
        decreases roster@.len() - i,
    {
        let area = match &roster.characters[i].zone {
            Some(zone) => zone.area,
            None => None,
        };
        proof {
            assert forall|zone: usize| true implies occupants(
                roster@.take(i + 1),
                zone,
            ) == if area_of(roster@[i as int]) == Some(zone) {
                occupants(roster@.take(i as int), zone).push(i)
            } else {
                occupants(roster@.take(i as int), zone)
            } by {
                lemma_occupants_step(roster@, i as int, zone);
            }
        }
        if let Some(zone) = area {
            proof {
                lemma_occupants_len(roster@.take(i as int), zone);
            }
            by_zone.put_down(zone, i);
        }
        i += 1;
    }
    assert(roster@.take(roster@.len() as int) =~= roster@);
    by_zone
}

/// Where each character's icon is drawn: for every character that stands
/// in a zone, its zone, its position among those who came before it into
/// the zone, and the offset that the position gives. The positions are
/// counted anew on every call.
pub fn draw_icons_in_zone(roster: &Roster) -> (slots: Vec<Option<IconSlot>>)
    ensures
        slots@.len() == roster@.len(),
        forall|who: int| 0 <= who < roster@.len() ==> #[trigger] slots@[who] == slot_of(roster@, who),
{
    let mut by_zone = ZoneOccupants::new();
    let mut slots: Vec<Option<IconSlot>> = Vec::new();
    let mut i: usize = 0;
    assert(roster@.take(0) =~= Seq::<Character>::empty());
    while i < roster.characters.len()
        invariant
            i <= roster@.len(),
            slots@.len() == i,
            forall|who: int| 0 <= who < i ==> #[trigger] slots@[who] == slot_of(roster@, who),
            forall|zone: usize|
                occupancy(by_zone).contains_key(zone) <==> occupants(
                    roster@.take(i as int),
                    zone,
                ).len() > 0,
            forall|zone: usize|
                occupancy(by_zone).contains_key(zone) ==> #[trigger] occupancy(by_zone)[zone]
                    == occupants(roster@.take(i as int), zone),
        decreases roster@.len() - i,
    {
        let area = match &roster.characters[i].zone {
            Some(zone) => zone.area,
            None => None,
        };
        proof {
            assert forall|zone: usize| true implies occupants(
                roster@.take(i + 1),
                zone,
            ) == if area_of(roster@[i as int]) == Some(zone) {
                occupants(roster@.take(i as int), zone).push(i)
            } else {
                occupants(roster@.take(i as int), zone)
            } by {
                lemma_occupants_step(roster@, i as int, zone);
            }
        }
        match area {
            Some(zone) => {
                proof {
                    lemma_occupants_len(roster@.take(i as int), zone);
                }
                let position = by_zone.put_down(zone, i);
                slots.push(
                    Some(
                        IconSlot {
                            zone,
                            position,
                            x_offset: occupant_offset(position),
                            z_bump: position,
                        },
                    ),
                );
            },
            None => {
                slots.push(None);
            },
        }
        i += 1;
    }
    slots
}

/// The initiative by which a character is ranked: none counts as zero.
pub open spec fn initiative_of(character: Character) -> u8 {
    match character.initiative {
        Some(initiative) => initiative.value,
        None => 0,
    }
}

/// `who` is the character that acts first: its initiative is above zero,
/// nobody's is higher, and nobody before it in the roster has as much.
pub open spec fn acts_first(characters: Seq<Character>, who: int) -> bool {
    &&& 0 <= who < characters.len()
    &&& initiative_of(characters[who]) > 0
    &&& forall|j: int|
        0 <= j < characters.len() ==> initiative_of(#[trigger] characters[j]) <= initiative_of(
            characters[who],
        )
    &&& forall|j: int|
        0 <= j < who ==> initiative_of(#[trigger] characters[j]) < initiative_of(characters[who])
}

/// Nobody has an initiative above zero.
pub open spec fn nobody_acts(characters: Seq<Character>) -> bool {
    forall|j: int| 0 <= j < characters.len() ==> initiative_of(#[trigger] characters[j]) == 0
}

/// The character that takes the first turn: the first in the roster among
/// those with the highest initiative. Nobody takes it while no initiative
/// is above zero.
pub fn set_starting_initiative(roster: &Roster) -> (starter: Option<usize>)
    ensures
        match starter {
            Some(who) => acts_first(roster@, who as int),
            None => nobody_acts(roster@),
        },
{
    let mut starter: Option<usize> = None;
    let mut highest: u8 = 0;
    let mut i: usize = 0;
    while i < roster.characters.len()
        invariant
            i <= roster@.len(),
            forall|j: int| 0 <= j < i ==> initiative_of(#[trigger] roster@[j]) <= highest,
            match starter {
                Some(who) => {
                    &&& who < i
                    &&& highest > 0
                    &&& initiative_of(roster@[who as int]) == highest
                    &&& forall|j: int|
                        0 <= j < who ==> initiative_of(#[trigger] roster@[j]) < highest
                },
                None => highest == 0,
            },
        decreases roster@.len() - i,
    {
        let value = match &roster.characters[i].initiative {
            Some(initiative) => initiative.value,
            None => 0,
        };
        if value > highest {
            starter = Some(i);
            highest = value;
        }
        i += 1;
    }
    starter
}

/// The character that acts first is the only one that does.
pub proof fn lemma_acts_first_unique(characters: Seq<Character>, one: int, other: int)
    requires
        acts_first(characters, one),
        acts_first(characters, other),
    ensures
        one == other,
{
}

/// The k-th character to enter a zone, counting from 1, is drawn at an
/// offset of exactly -60 + 20k.
pub proof fn lemma_kth_occupant_offset(characters: Seq<Character>, zone: usize, k: int)
    requires
        characters.len() <= usize::MAX,
        1 <= k <= occupants(characters, zone).len(),
    ensures
        ({
            let who = occupants(characters, zone)[k - 1] as int;
            &&& 0 <= who < characters.len()
            &&& slot_of(characters, who) matches Some(slot)
            &&& slot.zone == zone
            &&& slot.position == k
            &&& slot.x_offset == -60 + 20 * k
        }),
    decreases characters.len(),
{
    lemma_occupants_len(characters, zone);
    let before = characters.drop_last();
    let last = characters.len() - 1;
    lemma_occupants_len(before, zone);
    if area_of(characters.last()) == Some(zone) && k == occupants(characters, zone).len() {
        assert(characters.take(last + 1) =~= characters);
    } else {
        lemma_kth_occupant_offset(before, zone, k);
        let who = occupants(before, zone)[k - 1] as int;
        assert(before.take(who + 1) =~= characters.take(who + 1));
    }
}

/// A character who joins at the end of the roster changes nobody else's
/// slot: not the zone, and not the offset.
pub proof fn lemma_newcomer_keeps_slots(characters: Seq<Character>, newcomer: Character, who: int)
    requires
        0 <= who < characters.len(),
    ensures
        slot_of(characters.push(newcomer), who) == slot_of(characters, who),
{
    let longer = characters.push(newcomer);
    assert(longer.take(who + 1) =~= characters.take(who + 1));
}

/// The test whether a start position names the character at a place of the
/// roster: whether that character is the first with the position's tag.
pub open spec fn names_character(characters: Seq<Character>, who: int) -> spec_fn(
    StartPosition,
) -> bool {
    |position: StartPosition| first_with_tag(characters, position.entity_tag@) == Some(who)
}

/// A character after it took up a start position: it is in the position's
/// zone, unresolved, and, if it has skills, its initiative is that of the
/// roll.
pub open spec fn stationed_character(character: Character, zone_tag: String, roll: u8) -> Character {
    Character { zone: Some(InZone { name: zone_tag, area: None }), ..with_roll(character, roll) }
}

/// The start positions that are taken up: those for which there is a roll.
pub open spec fn taken_up(positions: Seq<StartPosition>, rolls: Seq<u8>) -> Seq<StartPosition> {
    if rolls.len() < positions.len() {
        positions.take(rolls.len() as int)
    } else {
        positions
    }
}

/// The character at a place of the roster after the start positions were
/// taken up: the last position that names it decides, and a character that
/// none names is as it was.
pub open spec fn stationed(
    characters: Seq<Character>,
    who: int,
    positions: Seq<StartPosition>,
    rolls: Seq<u8>,
) -> Character {
    match last_where(taken_up(positions, rolls), names_character(characters, who)) {
        Some(at) => stationed_character(characters[who], positions[at].zone_tag, rolls[at]),
        None => characters[who],
    }
}

/// Whom a start position names, if anybody.
pub open spec fn named_by(characters: Seq<Character>, position: StartPosition) -> Option<usize> {
    match first_with_tag(characters, position.entity_tag@) {
        Some(who) => Some(who as usize),
        None => None,
    }
}

/// Two rosters whose characters have the same tags, place by place, find
/// the same character for a tag.
pub proof fn lemma_same_tags_same_find(a: Seq<Character>, b: Seq<Character>, tag: Seq<char>)
    requires
        a.len() == b.len(),
        forall|i: int| 0 <= i < a.len() ==> (#[trigger] a[i]).slug_text() == b[i].slug_text(),
    ensures
        first_with_tag(a, tag) == first_with_tag(b, tag),
{
    let carries = carries_tag(tag);
    lemma_first_where(a, carries);
    lemma_first_where(b, carries);
    assert forall|i: int| 0 <= i < a.len() implies carries(a[i]) == carries(#[trigger] b[i]) by {
        assert(a[i].slug_text() == b[i].slug_text());
    }
    match first_where(a, carries) {
        Some(x) => {
            assert(carries(b[x]));
            match first_where(b, carries) {
                Some(y) => {
                    if y < x {
                        assert(carries(a[y]));
                    }
                },
                None => {},
            }
        },
        None => {
            match first_where(b, carries) {
                Some(y) => {
                    assert(carries(a[y]));
                },
                None => {},
            }
        },
    }
}

/// Takes up the start positions with rolls that were already made, one roll
/// for each position: the character that a position names is put into the
/// position's zone and, if it has skills, takes its initiative from the
/// position's roll. A position that names nobody is passed over, and so is
/// one for which there is no roll. Returns, for each position taken up,
/// the place of the character it names.
pub fn station_with(roster: &mut Roster, positions: &Vec<StartPosition>, rolls: &Vec<u8>) -> (found:
    Vec<Option<usize>>)
    ensures
        final(roster)@.len() == old(roster)@.len(),
        forall|who: int|
            0 <= who < old(roster)@.len() ==> #[trigger] final(roster)@[who] == stationed(
                old(roster)@,
                who,
                positions@,
                rolls@,
            ),
        found@.len() == taken_up(positions@, rolls@).len(),
        forall|at: int|
            0 <= at < found@.len() ==> #[trigger] found@[at] == named_by(
                old(roster)@,
                positions@[at],
            ),
{
    let count = if rolls.len() < positions.len() {
        rolls.len()
    } else {
        positions.len()
    };
    let ghost taken = taken_up(positions@, rolls@);
    let mut found: Vec<Option<usize>> = Vec::new();
    let mut k: usize = 0;
    while k < count
        invariant
            k <= count,
            count == taken.len(),
            taken == taken_up(positions@, rolls@),
            count <= positions@.len(),
            count <= rolls@.len(),
            roster@.len() == old(roster)@.len(),
            found@.len() == k,
            forall|at: int|
                0 <= at < k ==> #[trigger] found@[at] == named_by(old(roster)@, positions@[at]),
            forall|who: int|
                0 <= who < roster@.len() ==> (#[trigger] roster@[who]).slug_text() == old(
                    roster,
                )@[who].slug_text(),
            forall|who: int|
                0 <= who < roster@.len() ==> #[trigger] roster@[who] == match last_where(
                    taken.take(k as int),
                    names_character(old(roster)@, who),
                ) {
                    Some(at) => stationed_character(
                        old(roster)@[who],
                        positions@[at].zone_tag,
                        rolls@[at],
                    ),
                    None => old(roster)@[who],
                },
        decreases count - k,
    {
        let position = &positions[k];
        let ghost before = roster@;
        proof {
            lemma_same_tags_same_find(before, old(roster)@, position.entity_tag@);
            let longer = taken.take(k + 1);
            assert(longer.drop_last() =~= taken.take(k as int));
            assert(longer.last() == positions@[k as int]);
        }
        match roster.find(position.entity_tag.as_str()) {
            Ok(who) => {
                let alertness = match &roster.characters[who].skills {
                    Some(skills) => Some(skills.alertness.value),
                    None => None,
                };
                if let Some(alertness) = alertness {
                    let value = initiative_from_roll(alertness, rolls[k]);
                    roster.characters[who].initiative = Some(Initiative { value });
                }
                roster.characters[who].zone = Some(
                    InZone { name: position.zone_tag.clone(), area: None },
                );
                found.push(Some(who));
                proof {
                    assert(roster@[who as int] == stationed_character(
                        old(roster)@[who as int],
                        positions@[k as int].zone_tag,
                        rolls@[k as int],
                    ));
                }
            },
            Err(_) => {
                found.push(None);
            },
        }
        k += 1;
    }
    assert(taken.take(count as int) =~= taken);
    found
}

/// Takes up the start positions of a map: rolls the die once for each
/// position and stations the characters with those rolls.
pub fn station(roster: &mut Roster, positions: &Vec<StartPosition>) -> (found: Vec<Option<usize>>)
    ensures
        final(roster)@.len() == old(roster)@.len(),
        found@.len() == positions@.len(),
        forall|at: int|
            0 <= at < found@.len() ==> #[trigger] found@[at] == named_by(
                old(roster)@,
                positions@[at],
            ),
        exists|rolls: Seq<u8>|
            rolls.len() == positions@.len() && are_rolls(rolls) && forall|who: int|
                0 <= who < old(roster)@.len() ==> #[trigger] final(roster)@[who] == stationed(
                    old(roster)@,
                    who,
                    positions@,
                    rolls,
                ),
{
    let rolls = roll_many(positions.len());
    let found = station_with(roster, positions, &rolls);
    found
}

/// Whether a character is a player character: it goes by its own names and
/// has skills.
pub open spec fn is_player(character: Character) -> bool {
    character.identity is Named && character.skills is Some
}

/// Whether a character is a director character: it goes by a generic name.
pub open spec fn is_director(character: Character) -> bool {
    character.identity is Generic
}

/// Puts every player character into one zone and every director character
/// into another. Nobody else is moved, and no membership is resolved.
pub fn gather(roster: &mut Roster, players_zone: &str, directors_zone: &str)
    ensures
        final(roster)@.len() == old(roster)@.len(),
        forall|who: int|
            0 <= who < old(roster)@.len() ==> {
                let before = old(roster)@[who];
                let after = #[trigger] final(roster)@[who];
                if is_player(before) {
                    placed(before, players_zone@, after)
                } else if is_director(before) {
                    placed(before, directors_zone@, after)
                } else {
                    after == before
                }
            },
{
    let mut i: usize = 0;
    while i < roster.characters.len()
        invariant
            i <= roster@.len(),
            roster@.len() == old(roster)@.len(),
            forall|who: int| i <= who < roster@.len() ==> #[trigger] roster@[who] == old(roster)@[who],
            forall|who: int|
                0 <= who < i ==> {
                    let before = old(roster)@[who];
                    let after = #[trigger] roster@[who];
                    if is_player(before) {
                        placed(before, players_zone@, after)
                    } else if is_director(before) {
                        placed(before, directors_zone@, after)
                    } else {
                        after == before
                    }
                },
        decreases roster@.len() - i,
    {
        let named = match &roster.characters[i].identity {
            Identity::Named(_) => true,
            Identity::Generic(_) => false,
        };
        let skilled = match &roster.characters[i].skills {
            Some(_) => true,
            None => false,
        };
        if named && skilled {
            roster.characters[i].zone = Some(InZone::new(players_zone));
        } else if !named {
            roster.characters[i].zone = Some(InZone::new(directors_zone));
        }
        i += 1;
    }
}

} // verus!
