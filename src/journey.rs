use vstd::prelude::*;
use crate::calendar::{advance, advance_days, valid_date, DateTriple};
use crate::inventory::{Inventory, Item};
use crate::party::{HealthStatus, PartyMember};

verus! {

/// Money a new journey starts with, in dollars.
pub const DEFAULT_STARTING_MONEY: u32 = 1600;

/// Food eaten per person per day, in tenths of a pound.
pub const FOOD_CONSUMPTION_PER_DAY: u32 = 20;

/// Miles covered per day at a steady pace.
pub const MILES_PER_DAY_NORMAL: u32 = 20;

/// Wagon capacity, in tenths of a pound.
pub const WAGON_CAPACITY: u64 = 20000;

/// Age given to the party leader.
pub const LEADER_AGE: u8 = 30;

/// Age given to each companion.
pub const COMPANION_AGE: u8 = 25;

/// How hard the party travels.
#[derive(Debug, Clone, Copy, PartialEq, Eq, Structural)]
pub enum Pace {
    Steady,
    Strenuous,
    Grueling,
    Resting,
}

/// How much the party eats.
#[derive(Debug, Clone, Copy, PartialEq, Eq, Structural)]
pub enum Rations {
    Filling,
    Meager,
    BareBones,
}

/// Whether `m` is a newly made member with the given name, age and leader flag.
pub open spec fn is_fresh_member(m: PartyMember, name: Seq<char>, age: u8, is_leader: bool) -> bool {
    &&& m.name@ == name
    &&& m.health == HealthStatus::Good
    &&& m.diseases@.len() == 0
    &&& m.age == age
    &&& m.is_leader == is_leader
}

/// Members of `s` who are not deceased.
pub open spec fn living_count(s: Seq<PartyMember>) -> nat
    decreases s.len(),
{
    if s.len() == 0 {
        0
    } else {
        living_count(s.drop_last()) + if s.last().health != HealthStatus::Deceased {
            1nat
        } else {
            0nat
        }
    }
}

/// The whole state of a journey: the roster, the wagon's goods, money,
/// travel settings, distance, place and date.
pub struct PlayerState {
    /// Every member ever in the party; the deceased stay on the roster.
    pub party: Vec<PartyMember>,
    pub inventory: Inventory,
    /// Money, in dollars.
    pub money: u32,
    pub pace: Pace,
    pub rations: Rations,
    /// Whole miles covered so far.
    pub miles_traveled: u32,
    pub location: String,
    pub day: u32,
    /// Month, 1 to 12.
    pub month: u8,
    pub year: u16,
}

impl PlayerState {
    /// The current date as (day, month, year).
    pub open spec fn date(&self) -> DateTriple {
        (self.day as int, self.month as int, self.year as int)
    }

    /// A new journey: no party yet, an empty wagon, $1600, steady pace,
    /// filling rations, at Independence, Missouri on March 1, 1848.
    pub fn new() -> (r: PlayerState)
        ensures
            r.party@.len() == 0,
            r.inventory.wf(),
            r.inventory.stock() == Seq::<Item>::empty(),
            r.inventory.capacity() == WAGON_CAPACITY,
            r.money == DEFAULT_STARTING_MONEY,
            r.pace == Pace::Steady,
            r.rations == Rations::Filling,
            r.miles_traveled == 0,
            r.location@ == "Independence, Missouri"@,
            r.day == 1,
            r.month == 3,
            r.year == 1848,
    {
        PlayerState {
            party: Vec::new(),
            inventory: Inventory::new(WAGON_CAPACITY),
            money: DEFAULT_STARTING_MONEY,
            pace: Pace::Steady,
            rations: Rations::Filling,
            miles_traveled: 0,
            location: String::from_str("Independence, Missouri"),
            day: 1,
            month: 3,
            year: 1848,
        }
    }

    /// Appends the leader (age 30) and then one companion (age 25) per name,
    /// in order, all in good health.
    pub fn setup_party(&mut self, leader_name: &str, party_names: &[&str])
        ensures
            final(self).party@.len() == old(self).party@.len() + 1 + party_names@.len(),
            final(self).party@.subrange(0, old(self).party@.len() as int) == old(self).party@,
            is_fresh_member(final(self).party@[old(self).party@.len() as int], leader_name@, LEADER_AGE, true),
            forall|i: int|
                0 <= i < party_names@.len() ==> is_fresh_member(
                    #[trigger] final(self).party@[old(self).party@.len() + 1 + i],
                    party_names@[i]@,
                    COMPANION_AGE,
                    false,
                ),
            final(self).inventory == old(self).inventory,
            final(self).money == old(self).money,
            final(self).pace == old(self).pace,
            final(self).rations == old(self).rations,
            final(self).miles_traveled == old(self).miles_traveled,
            final(self).location == old(self).location,
            final(self).date() == old(self).date(),
    {
        let ghost n0 = self.party@.len();
        let leader = PartyMember::new(leader_name, LEADER_AGE, true);
        self.party.push(leader);
        let mut i: usize = 0;
        while i < party_names.len()
            invariant
                i <= party_names@.len(),
                self.party@.len() == n0 + 1 + i,
                self.party@.subrange(0, n0 as int) == old(self).party@,
                is_fresh_member(self.party@[n0 as int], leader_name@, LEADER_AGE, true),
                forall|j: int|
                    0 <= j < i ==> is_fresh_member(
                        #[trigger] self.party@[n0 + 1 + j],
                        party_names@[j]@,
                        COMPANION_AGE,
                        false,
                    ),
                self.inventory == old(self).inventory,
                self.money == old(self).money,
                self.pace == old(self).pace,
                self.rations == old(self).rations,
                self.miles_traveled == old(self).miles_traveled,
                self.location == old(self).location,
                self.date() == old(self).date(),
            decreases party_names@.len() - i,
        {
            let member = PartyMember::new(party_names[i], COMPANION_AGE, false);
            self.party.push(member);
            proof {
                assert(self.party@.subrange(0, n0 as int) =~= old(self).party@);
            }
            i = i + 1;
        }
    }

    /// Number of members who are not deceased.
    pub fn living_party_members(&self) -> (r: usize)
        ensures
            r == living_count(self.party@),
    {
        let ghost s = self.party@;
        let mut count: usize = 0;
        let mut i: usize = 0;
        while i < self.party.len()
            invariant
                s == self.party@,
                i <= s.len(),
                count == living_count(s.subrange(0, i as int)),
                count <= i,
            decreases s.len() - i,
        {
            proof {
                assert(s.subrange(0, i + 1).drop_last() == s.subrange(0, i as int));
            }
            if self.party[i].is_alive() {
                count = count + 1;
            }
            i = i + 1;
        }
        proof {
            assert(s.subrange(0, s.len() as int) == s);
        }
        count
    }

    /// Moves the date forward by `days` calendar days.
    pub fn advance_date(&mut self, days: u32)
        requires
            valid_date(old(self).date()),
            advance(old(self).date(), days as nat).2 <= u16::MAX,
        ensures
            final(self).date() == advance(old(self).date(), days as nat),
            final(self).party == old(self).party,
            final(self).inventory == old(self).inventory,
            final(self).money == old(self).money,
            final(self).pace == old(self).pace,
            final(self).rations == old(self).rations,
            final(self).miles_traveled == old(self).miles_traveled,
            final(self).location == old(self).location,
    {
        let (d, m, y) = advance_days(self.day, self.month, self.year, days);
        self.day = d;
        self.month = m;
        self.year = y;
    }
}

/// The living count never exceeds the roster, and equals it exactly when no
/// member is deceased.
pub proof fn lemma_living_count(s: Seq<PartyMember>)
    ensures
        living_count(s) <= s.len(),
        living_count(s) == s.len() <==> (forall|i: int|
            0 <= i < s.len() ==> #[trigger] s[i].health != HealthStatus::Deceased),
    decreases s.len(),
{
    if s.len() > 0 {
        let rest = s.drop_last();
        lemma_living_count(rest);
        assert forall|i: int| 0 <= i < rest.len() implies rest[i] == s[i] by {}
        if living_count(s) == s.len() {
            assert forall|i: int| 0 <= i < s.len() implies #[trigger] s[i].health
                != HealthStatus::Deceased by {
                if i < rest.len() {
                    assert(rest[i] == s[i]);
                }
            }
        }
    }
}

} // verus!
