use vstd::prelude::*;

verus! {

/// Health of a party member, from best to worst.
#[derive(Debug, Clone, Copy, PartialEq, Eq, Structural)]
pub enum HealthStatus {
    Good,
    Fair,
    Poor,
    VeryPoor,
    Deceased,
}

/// One step down the health ladder; `Deceased` is absorbing.
pub open spec fn degraded(h: HealthStatus) -> HealthStatus {
    match h {
        HealthStatus::Good => HealthStatus::Fair,
        HealthStatus::Fair => HealthStatus::Poor,
        HealthStatus::Poor => HealthStatus::VeryPoor,
        HealthStatus::VeryPoor => HealthStatus::Deceased,
        HealthStatus::Deceased => HealthStatus::Deceased,
    }
}

/// One step up the health ladder; `Good` stays `Good` and `Deceased` is never left.
pub open spec fn improved(h: HealthStatus) -> HealthStatus {
    match h {
        HealthStatus::Good => HealthStatus::Good,
        HealthStatus::Fair => HealthStatus::Good,
        HealthStatus::Poor => HealthStatus::Fair,
        HealthStatus::VeryPoor => HealthStatus::Poor,
        HealthStatus::Deceased => HealthStatus::Deceased,
    }
}

/// `improved` applied `n` times.
pub open spec fn improved_times(h: HealthStatus, n: nat) -> HealthStatus
    decreases n,
{
    if n == 0 {
        h
    } else {
        improved(improved_times(h, (n - 1) as nat))
    }
}

/// A disease or injury that a party member can suffer.
#[derive(Debug, Clone, Copy, PartialEq, Eq, Structural)]
pub enum Disease {
    Cholera,
    Dysentery,
    Measles,
    Typhoid,
    Fever,
    BrokenLeg,
    BrokenArm,
    Exhaustion,
    SnakeBite,
}

/// The disease set after contracting `d`: unchanged if `d` is already active.
pub open spec fn contracted(ds: Seq<Disease>, d: Disease) -> Seq<Disease> {
    if ds.contains(d) {
        ds
    } else {
        ds.push(d)
    }
}

/// The health after contracting `d`: one step worse, unless `d` was already active.
pub open spec fn health_after_contract(ds: Seq<Disease>, h: HealthStatus, d: Disease) -> HealthStatus {
    if ds.contains(d) {
        h
    } else {
        degraded(h)
    }
}

/// The disease set with every occurrence of `d` removed, order kept.
pub open spec fn without(ds: Seq<Disease>, d: Disease) -> Seq<Disease>
    decreases ds.len(),
{
    if ds.len() == 0 {
        ds
    } else if ds.last() == d {
        without(ds.drop_last(), d)
    } else {
        without(ds.drop_last(), d).push(ds.last())
    }
}

/// A single traveller.
pub struct PartyMember {
    pub name: String,
    pub health: HealthStatus,
    /// Active diseases, each at most once.
    pub diseases: Vec<Disease>,
    pub is_leader: bool,
    pub age: u8,
}

impl PartyMember {
    /// A new member in good health with no disease.
    pub fn new(name: &str, age: u8, is_leader: bool) -> (r: PartyMember)
        ensures
            r.name@ == name@,
            r.health == HealthStatus::Good,
            r.diseases@ == Seq::<Disease>::empty(),
            r.is_leader == is_leader,
            r.age == age,
    {
        PartyMember {
            name: String::from_str(name),
            health: HealthStatus::Good,
            diseases: Vec::new(),
            is_leader,
            age,
        }
    }

    /// True unless the member is `Deceased`.
    pub fn is_alive(&self) -> (r: bool)
        ensures
            r == (self.health != HealthStatus::Deceased),
    {
        self.health != HealthStatus::Deceased
    }

    /// True iff `d` is among the active diseases.
    fn has_disease(&self, d: Disease) -> (r: bool)
        ensures
            r == self.diseases@.contains(d),
    {
        let mut i: usize = 0;
        while i < self.diseases.len()
            invariant
                i <= self.diseases@.len(),
                forall|j: int| 0 <= j < i ==> self.diseases@[j] != d,
            decreases self.diseases@.len() - i,
        {
            if self.diseases[i] == d {
                return true;
            }
            i = i + 1;
        }
        false
    }

    /// Adds `d` to the active diseases and worsens health by one step; does
    /// nothing if `d` is already active.
    pub fn contract_disease(&mut self, d: Disease)
        ensures
            final(self).diseases@ == contracted(old(self).diseases@, d),
            final(self).health == health_after_contract(old(self).diseases@, old(self).health, d),
            old(self).diseases@.no_duplicates() ==> final(self).diseases@.no_duplicates(),
            final(self).name == old(self).name,
            final(self).is_leader == old(self).is_leader,
            final(self).age == old(self).age,
    {
        if !self.has_disease(d) {
            self.diseases.push(d);
            self.degrade_health();
        }
    }

    /// Removes `d` from the active diseases; health is left as it is.
    pub fn recover_from_disease(&mut self, d: Disease)
        ensures
            final(self).diseases@ == without(old(self).diseases@, d),
            !final(self).diseases@.contains(d),
            final(self).health == old(self).health,
            final(self).name == old(self).name,
            final(self).is_leader == old(self).is_leader,
            final(self).age == old(self).age,
    {
        let ghost ds = self.diseases@;
        let mut kept: Vec<Disease> = Vec::new();
        let mut i: usize = 0;
        while i < self.diseases.len()
            invariant
                ds == self.diseases@,
                i <= ds.len(),
                kept@ == without(ds.subrange(0, i as int), d),
            decreases ds.len() - i,
        {
            let e = self.diseases[i];
            proof {
                assert(ds.subrange(0, i + 1).drop_last() == ds.subrange(0, i as int));
            }
            if e != d {
                kept.push(e);
            }
            i = i + 1;
        }
        proof {
            assert(ds.subrange(0, ds.len() as int) == ds);
            lemma_without_excludes(ds, d);
        }
        self.diseases = kept;
    }

    /// Moves health one step down the ladder.
    pub fn degrade_health(&mut self)
        ensures
            final(self).health == degraded(old(self).health),
            final(self).name == old(self).name,
            final(self).diseases == old(self).diseases,
            final(self).is_leader == old(self).is_leader,
            final(self).age == old(self).age,
    {
        self.health = match self.health {
            HealthStatus::Good => HealthStatus::Fair,
            HealthStatus::Fair => HealthStatus::Poor,
            HealthStatus::Poor => HealthStatus::VeryPoor,
            HealthStatus::VeryPoor => HealthStatus::Deceased,
            HealthStatus::Deceased => HealthStatus::Deceased,
        };
    }

    /// Moves health one step up the ladder; a deceased member stays deceased.
    pub fn improve_health(&mut self)
        ensures
            final(self).health == improved(old(self).health),
            final(self).name == old(self).name,
            final(self).diseases == old(self).diseases,
            final(self).is_leader == old(self).is_leader,
            final(self).age == old(self).age,
    {
        self.health = match self.health {
            HealthStatus::Good => HealthStatus::Good,
            HealthStatus::Fair => HealthStatus::Good,
            HealthStatus::Poor => HealthStatus::Fair,
            HealthStatus::VeryPoor => HealthStatus::Poor,
            HealthStatus::Deceased => HealthStatus::Deceased,
        };
    }
}

/// `without(ds, d)` never holds `d`.
pub proof fn lemma_without_excludes(ds: Seq<Disease>, d: Disease)
    ensures
        !without(ds, d).contains(d),
    decreases ds.len(),
{
    if ds.len() > 0 {
        lemma_without_excludes(ds.drop_last(), d);
        let r = without(ds.drop_last(), d);
        if ds.last() != d {
            assert(forall|j: int| 0 <= j < r.len() ==> r.push(ds.last())[j] == r[j]);
        }
    }
}

/// Starting in good health, four steps down reach `Deceased`, a fifth step
/// leaves the member there, and any number of steps up never leaves it.
pub proof fn lemma_health_ladder(h: HealthStatus, n: nat)
    requires
        h == HealthStatus::Good,
    ensures
        degraded(degraded(degraded(degraded(h)))) == HealthStatus::Deceased,
        degraded(degraded(degraded(degraded(degraded(h))))) == HealthStatus::Deceased,
        improved_times(HealthStatus::Deceased, n) == HealthStatus::Deceased,
    decreases n,
{
    if n > 0 {
        lemma_health_ladder(h, (n - 1) as nat);
    }
}

/// Contracting the same disease twice on a fresh member leaves exactly one
/// entry for it and exactly one step of lost health.
pub proof fn lemma_contract_twice(m: PartyMember, d: Disease)
    requires
        m.health == HealthStatus::Good,
        m.diseases@.len() == 0,
    ensures
        ({
            let ds1 = contracted(m.diseases@, d);
            let h1 = health_after_contract(m.diseases@, m.health, d);
            &&& contracted(ds1, d) == seq![d]
            &&& health_after_contract(ds1, h1, d) == HealthStatus::Fair
        }),
{
    let ds1 = contracted(m.diseases@, d);
    assert(!m.diseases@.contains(d));
    assert(ds1 == seq![d]);
    assert(ds1[0] == d);
    assert(ds1.contains(d));
}

} // verus!
