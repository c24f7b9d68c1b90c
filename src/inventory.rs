use vstd::prelude::*;

verus! {

/// The kinds of goods a wagon can carry.
#[derive(Debug, Clone, Copy, PartialEq, Eq, Hash, Structural)]
pub enum ItemType {
    Food,
    Clothing,
    Ammunition,
    OxenPair,
    SpareWheel,
    SpareAxle,
    SpareTongue,
    MedicalSupply,
}

/// Catalog unit weight of a kind, in tenths of a pound.
pub open spec fn default_weight(k: ItemType) -> u32 {
    match k {
        ItemType::Food => 10,
        ItemType::Clothing => 20,
        ItemType::Ammunition => 1,
        ItemType::OxenPair => 5000,
        ItemType::SpareWheel => 150,
        ItemType::SpareAxle => 100,
        ItemType::SpareTongue => 80,
        ItemType::MedicalSupply => 5,
    }
}

/// Catalog unit cost of a kind, in dollars.
pub open spec fn default_cost(k: ItemType) -> u32 {
    match k {
        ItemType::Food => 2,
        ItemType::Clothing => 10,
        ItemType::Ammunition => 2,
        ItemType::OxenPair => 40,
        ItemType::SpareWheel => 10,
        ItemType::SpareAxle => 8,
        ItemType::SpareTongue => 6,
        ItemType::MedicalSupply => 15,
    }
}

/// The heaviest catalog unit weight, in tenths of a pound.
pub open spec fn max_unit_weight() -> nat {
    5000
}

/// Catalog unit weight of `k`, in tenths of a pound.
pub fn catalog_weight(k: ItemType) -> (r: u32)
    ensures
        r == default_weight(k),
{
    match k {
        ItemType::Food => 10,
        ItemType::Clothing => 20,
        ItemType::Ammunition => 1,
        ItemType::OxenPair => 5000,
        ItemType::SpareWheel => 150,
        ItemType::SpareAxle => 100,
        ItemType::SpareTongue => 80,
        ItemType::MedicalSupply => 5,
    }
}

/// Catalog unit cost of `k`, in dollars.
pub fn catalog_cost(k: ItemType) -> (r: u32)
    ensures
        r == default_cost(k),
{
    match k {
        ItemType::Food => 2,
        ItemType::Clothing => 10,
        ItemType::Ammunition => 2,
        ItemType::OxenPair => 40,
        ItemType::SpareWheel => 10,
        ItemType::SpareAxle => 8,
        ItemType::SpareTongue => 6,
        ItemType::MedicalSupply => 15,
    }
}

/// A stocked kind of goods. Weights are in tenths of a pound.
#[derive(Debug, Clone, Copy, PartialEq, Eq, Structural)]
pub struct Item {
    pub item_type: ItemType,
    pub quantity: u32,
    /// Weight of one unit, in tenths of a pound.
    pub weight_per_unit: u32,
    /// Cost of one unit, in dollars.
    pub cost_per_unit: u32,
}

/// Weight of a record: quantity times unit weight.
pub open spec fn item_weight(it: Item) -> nat {
    (it.quantity * it.weight_per_unit) as nat
}

impl Item {
    pub fn new(item_type: ItemType, quantity: u32, weight_per_unit: u32, cost_per_unit: u32) -> (r: Item)
        ensures
            r == (Item { item_type, quantity, weight_per_unit, cost_per_unit }),
    {
        Item { item_type, quantity, weight_per_unit, cost_per_unit }
    }

    /// Quantity times unit weight, in tenths of a pound.
    pub fn total_weight(&self) -> (r: u64)
        ensures
            r == item_weight(*self),
    {
        proof {
            vstd::arithmetic::mul::lemma_mul_upper_bound(
                self.quantity as int, u32::MAX as int, self.weight_per_unit as int, u32::MAX as int);
        }
        self.quantity as u64 * self.weight_per_unit as u64
    }

    /// Quantity times unit cost, in dollars.
    pub fn total_cost(&self) -> (r: u64)
        ensures
            r == self.quantity * self.cost_per_unit,
    {
        proof {
            vstd::arithmetic::mul::lemma_mul_upper_bound(
                self.quantity as int, u32::MAX as int, self.cost_per_unit as int, u32::MAX as int);
        }
        self.quantity as u64 * self.cost_per_unit as u64
    }
}

/// Index of the record for `k` in `s`, or -1 when there is none.
pub open spec fn find(s: Seq<Item>, k: ItemType) -> int
    decreases s.len(),
{
    if s.len() == 0 {
        -1
    } else if s.last().item_type == k {
        s.len() - 1
    } else {
        find(s.drop_last(), k)
    }
}

/// Units of `k` held; zero when `k` has no record.
pub open spec fn qty(s: Seq<Item>, k: ItemType) -> nat {
    let i = find(s, k);
    if i >= 0 {
        s[i].quantity as nat
    } else {
        0
    }
}

/// Sum over the records of quantity times unit weight.
pub open spec fn weight_sum(s: Seq<Item>) -> nat
    decreases s.len(),
{
    if s.len() == 0 {
        0
    } else {
        weight_sum(s.drop_last()) + item_weight(s.last())
    }
}

/// Unit weight used for `k`: the stocked one if `k` is held, else the catalog's.
pub open spec fn unit_weight(s: Seq<Item>, k: ItemType) -> nat {
    let i = find(s, k);
    if i >= 0 {
        s[i].weight_per_unit as nat
    } else {
        default_weight(k) as nat
    }
}

/// The record a new kind starts with.
pub open spec fn new_stock(k: ItemType, q: u32) -> Item {
    Item { item_type: k, quantity: q, weight_per_unit: default_weight(k), cost_per_unit: default_cost(k) }
}

/// Records after adding `q` units of `k`: the quantity grows in place, or a
/// catalog record is appended.
pub open spec fn added(s: Seq<Item>, k: ItemType, q: u32) -> Seq<Item> {
    let i = find(s, k);
    if i >= 0 {
        s.update(i, Item { quantity: (s[i].quantity + q) as u32, ..s[i] })
    } else {
        s.push(new_stock(k, q))
    }
}

/// Records after taking `q` units of `k` (when `q <= qty(s, k)`): the
/// quantity shrinks in place, and a record that reaches zero is dropped.
pub open spec fn removed(s: Seq<Item>, k: ItemType, q: u32) -> Seq<Item> {
    let i = find(s, k);
    if i < 0 {
        s
    } else if s[i].quantity == q {
        s.remove(i)
    } else {
        s.update(i, Item { quantity: (s[i].quantity - q) as u32, ..s[i] })
    }
}

/// Records are distinct by kind and carry the catalog's unit weight and cost.
pub open spec fn stock_wf(s: Seq<Item>) -> bool {
    &&& forall|i: int, j: int|
        0 <= i < s.len() && 0 <= j < s.len() && i != j ==> s[i].item_type != s[j].item_type
    &&& forall|i: int|
        0 <= i < s.len() ==> s[i].weight_per_unit == default_weight(#[trigger] s[i].item_type)
            && s[i].cost_per_unit == default_cost(s[i].item_type)
}

/// Every kind of goods.
pub open spec fn all_kinds() -> Set<ItemType> {
    set![
        ItemType::Food,
        ItemType::Clothing,
        ItemType::Ammunition,
        ItemType::OxenPair,
        ItemType::SpareWheel,
        ItemType::SpareAxle,
        ItemType::SpareTongue,
        ItemType::MedicalSupply,
    ]
}

proof fn lemma_all_kinds()
    ensures
        all_kinds().len() == 8,
        forall|k: ItemType| all_kinds().contains(k),
{
    let k = ItemType::Food;
    assert(all_kinds().contains(k));
}

/// A sequence of records with distinct kinds, all drawn from `avail`, is no
/// longer than `avail`.
proof fn lemma_distinct_bounded(s: Seq<Item>, avail: Set<ItemType>)
    requires
        avail.finite(),
        stock_wf(s),
        forall|i: int| 0 <= i < s.len() ==> avail.contains(#[trigger] s[i].item_type),
    ensures
        s.len() <= avail.len(),
    decreases s.len(),
{
    if s.len() > 0 {
        let k = s.last().item_type;
        let rest = s.drop_last();
        assert forall|i: int| 0 <= i < rest.len() implies avail.remove(k).contains(
            #[trigger] rest[i].item_type) by {
            assert(rest[i] == s[i]);
        }
        lemma_distinct_bounded(rest, avail.remove(k));
    }
}

/// `find` gives the record of `k` when there is one, and -1 exactly when no
/// record has kind `k`; with distinct kinds that record is the only one.
proof fn lemma_find(s: Seq<Item>, k: ItemType)
    ensures
        -1 <= find(s, k) < s.len(),
        find(s, k) >= 0 ==> s[find(s, k)].item_type == k,
        find(s, k) == -1 <==> (forall|i: int| 0 <= i < s.len() ==> s[i].item_type != k),
        stock_wf(s) ==> forall|i: int| 0 <= i < s.len() && s[i].item_type == k ==> find(s, k) == i,
    decreases s.len(),
{
    if s.len() > 0 {
        let rest = s.drop_last();
        lemma_find(rest, k);
        assert forall|i: int| 0 <= i < rest.len() implies rest[i] == s[i] by {}
        if stock_wf(s) {
            assert(stock_wf(rest));
        }
    }
}

/// The weights of all records, less than `len * max quantity * max unit weight`.
proof fn lemma_weight_sum_bound(s: Seq<Item>)
    requires
        stock_wf(s),
    ensures
        weight_sum(s) <= s.len() * (u32::MAX as nat) * max_unit_weight(),
    decreases s.len(),
{
    if s.len() > 0 {
        let rest = s.drop_last();
        assert(stock_wf(rest)) by {
            assert forall|i: int| 0 <= i < rest.len() implies rest[i] == s[i] by {}
        }
        lemma_weight_sum_bound(rest);
        let it = s.last();
        assert(s[s.len() - 1] == it);
        assert(it.weight_per_unit <= 5000);
        assert((it.quantity * it.weight_per_unit) as nat <= (u32::MAX as nat) * 5000) by (nonlinear_arith)
            requires
                it.quantity <= u32::MAX,
                it.weight_per_unit <= 5000,
        ;
        assert(s.len() * (u32::MAX as nat) * max_unit_weight() == (s.len() - 1) * (u32::MAX as nat)
            * max_unit_weight() + (u32::MAX as nat) * max_unit_weight()) by (nonlinear_arith);
    }
}

/// Replacing one record changes the total by the difference of their weights.
proof fn lemma_weight_sum_update(s: Seq<Item>, i: int, v: Item)
    requires
        0 <= i < s.len(),
    ensures
        weight_sum(s.update(i, v)) + item_weight(s[i]) == weight_sum(s) + item_weight(v),
    decreases s.len(),
{
    let t = s.update(i, v);
    if i == s.len() - 1 {
        assert(t.drop_last() == s.drop_last());
    } else {
        assert(t.drop_last() == s.drop_last().update(i, v));
        lemma_weight_sum_update(s.drop_last(), i, v);
    }
}

/// Dropping one record lowers the total by its weight.
proof fn lemma_weight_sum_remove(s: Seq<Item>, i: int)
    requires
        0 <= i < s.len(),
    ensures
        weight_sum(s.remove(i)) + item_weight(s[i]) == weight_sum(s),
    decreases s.len(),
{
    let t = s.remove(i);
    if i == s.len() - 1 {
        assert(t == s.drop_last());
    } else {
        assert(t.drop_last() == s.drop_last().remove(i));
        assert(t.last() == s.last());
        lemma_weight_sum_remove(s.drop_last(), i);
    }
}

/// A distinct-kind sequence lacking `k` has room for one more record.
proof fn lemma_room_for_new_kind(s: Seq<Item>, k: ItemType)
    requires
        stock_wf(s),
        forall|i: int| 0 <= i < s.len() ==> s[i].item_type != k,
    ensures
        s.len() < 8,
{
    lemma_all_kinds();
    lemma_distinct_bounded(s, all_kinds().remove(k));
}

/// Goods carried on the wagon, with a weight capacity in tenths of a pound.
/// Capacity is advisory: `add_item` does not consult it, `can_add` does.
pub struct Inventory {
    items: Vec<Item>,
    max_capacity: u64,
}

impl Inventory {
    /// The records, in the order their kinds were first stocked.
    pub closed spec fn stock(&self) -> Seq<Item> {
        self.items@
    }

    /// Capacity in tenths of a pound.
    pub closed spec fn capacity(&self) -> nat {
        self.max_capacity as nat
    }

    pub closed spec fn wf(&self) -> bool {
        &&& stock_wf(self.items@)
        &&& self.items@.len() <= 8
    }

    /// An empty inventory with the given capacity, in tenths of a pound.
    pub fn new(max_capacity: u64) -> (r: Inventory)
        ensures
            r.wf(),
            r.stock() == Seq::<Item>::empty(),
            r.capacity() == max_capacity,
    {
        Inventory { items: Vec::new(), max_capacity }
    }

    /// Position of the record for `k`, if any.
    fn index_of(&self, k: ItemType) -> (r: Option<usize>)
        requires
            self.wf(),
        ensures
            r is Some ==> r->0 == find(self.stock(), k),
            r is None ==> find(self.stock(), k) == -1,
    {
        proof {
            lemma_find(self.items@, k);
        }
        let mut i: usize = 0;
        while i < self.items.len()
            invariant
                self.wf(),
                i <= self.items@.len(),
                forall|j: int| 0 <= j < i ==> self.items@[j].item_type != k,
            decreases self.items@.len() - i,
        {
            if self.items[i].item_type == k {
                proof {
                    lemma_find(self.items@, k);
                }
                return Some(i);
            }
            i = i + 1;
        }
        None
    }

    /// Adds `quantity` units of `item_type`. A kind not yet held gets the
    /// catalog's unit weight and cost; a held kind keeps its own. Capacity is
    /// not checked here.
    pub fn add_item(&mut self, item_type: ItemType, quantity: u32)
        requires
            old(self).wf(),
            qty(old(self).stock(), item_type) + quantity <= u32::MAX,
        ensures
            final(self).wf(),
            final(self).capacity() == old(self).capacity(),
            final(self).stock() == added(old(self).stock(), item_type, quantity),
    {
        proof {
            lemma_find(self.items@, item_type);
        }
        match self.index_of(item_type) {
            Some(i) => {
                let mut it = self.items[i];
                it.quantity = it.quantity + quantity;
                self.items.set(i, it);
                proof {
                    let s = old(self).items@;
                    assert forall|a: int| 0 <= a < s.len() implies self.items@[a].item_type
                        == s[a].item_type && self.items@[a].weight_per_unit == s[a].weight_per_unit
                        && self.items@[a].cost_per_unit == s[a].cost_per_unit by {}
                }
            },
            None => {
                proof {
                    lemma_room_for_new_kind(self.items@, item_type);
                }
                let it = Item::new(item_type, quantity, catalog_weight(item_type), catalog_cost(item_type));
                self.items.push(it);
                proof {
                    let s = old(self).items@;
                    assert forall|a: int| 0 <= a < s.len() implies self.items@[a] == s[a] by {}
                }
            },
        }
    }

    /// Takes `quantity` units of `item_type`. Fails, changing nothing, when
    /// fewer are held; a record whose quantity reaches zero is dropped.
    pub fn remove_item(&mut self, item_type: ItemType, quantity: u32) -> (r: bool)
        requires
            old(self).wf(),
        ensures
            final(self).wf(),
            final(self).capacity() == old(self).capacity(),
            r == (quantity <= qty(old(self).stock(), item_type)),
            r ==> final(self).stock() == removed(old(self).stock(), item_type, quantity),
            !r ==> final(self).stock() == old(self).stock(),
    {
        proof {
            lemma_find(self.items@, item_type);
        }
        match self.index_of(item_type) {
            Some(i) => {
                let mut it = self.items[i];
                if it.quantity < quantity {
                    return false;
                }
                if it.quantity == quantity {
                    self.items.remove(i);
                    proof {
                        let s = old(self).items@;
                        assert forall|a: int, b: int|
                            0 <= a < self.items@.len() && 0 <= b < self.items@.len() && a != b
                            implies self.items@[a].item_type != self.items@[b].item_type by {
                            let a2 = if a < i { a } else { a + 1 };
                            let b2 = if b < i { b } else { b + 1 };
                            assert(self.items@[a] == s[a2]);
                            assert(self.items@[b] == s[b2]);
                        }
                        assert forall|a: int| 0 <= a < self.items@.len() implies
                            self.items@[a].weight_per_unit == default_weight(#[trigger] self.items@[a].item_type)
                            && self.items@[a].cost_per_unit == default_cost(self.items@[a].item_type) by {
                            let a2 = if a < i { a } else { a + 1 };
                            assert(self.items@[a] == s[a2]);
                        }
                    }
                } else {
                    it.quantity = it.quantity - quantity;
                    self.items.set(i, it);
                    proof {
                        let s = old(self).items@;
                        assert forall|a: int| 0 <= a < s.len() implies self.items@[a].item_type
                            == s[a].item_type && self.items@[a].weight_per_unit == s[a].weight_per_unit
                            && self.items@[a].cost_per_unit == s[a].cost_per_unit by {}
                    }
                }
                true
            },
            None => quantity == 0,
        }
    }

    /// Units of `item_type` held; zero for a kind never stocked.
    pub fn get_quantity(&self, item_type: ItemType) -> (r: u32)
        requires
            self.wf(),
        ensures
            r == qty(self.stock(), item_type),
    {
        proof {
            lemma_find(self.items@, item_type);
        }
        match self.index_of(item_type) {
            Some(i) => self.items[i].quantity,
            None => 0,
        }
    }

    /// Sum over the records of quantity times unit weight, in tenths of a pound.
    pub fn total_weight(&self) -> (r: u64)
        requires
            self.wf(),
        ensures
            r == weight_sum(self.stock()),
    {
        let ghost s = self.items@;
        let mut acc: u64 = 0;
        let mut i: usize = 0;
        while i < self.items.len()
            invariant
                s == self.items@,
                self.wf(),
                i <= s.len(),
                acc == weight_sum(s.subrange(0, i as int)),
            decreases s.len() - i,
        {
            proof {
                let p = s.subrange(0, i + 1);
                assert(p.drop_last() == s.subrange(0, i as int));
                assert(stock_wf(p)) by {
                    assert forall|a: int| 0 <= a < p.len() implies p[a] == s[a] by {}
                }
                lemma_weight_sum_bound(p);
                assert(p.last() == s[i as int]);
                assert((i + 1) * (u32::MAX as nat) * max_unit_weight() <= 8 * (u32::MAX as nat)
                    * max_unit_weight()) by (nonlinear_arith)
                    requires
                        i + 1 <= 8,
                ;
            }
            acc = acc + self.items[i].total_weight();
            i = i + 1;
        }
        proof {
            assert(s.subrange(0, s.len() as int) == s);
        }
        acc
    }

    /// True iff adding `quantity` units of `item_type` keeps the total weight
    /// within capacity, counting the held unit weight if the kind is stocked
    /// and the catalog's otherwise.
    pub fn can_add(&self, item_type: ItemType, quantity: u32) -> (r: bool)
        requires
            self.wf(),
        ensures
            r == (weight_sum(self.stock()) + quantity * unit_weight(self.stock(), item_type)
                <= self.capacity()),
    {
        proof {
            lemma_find(self.items@, item_type);
            lemma_weight_sum_bound(self.items@);
            assert(self.items@.len() * (u32::MAX as nat) * max_unit_weight() <= 8 * (u32::MAX as nat)
                * max_unit_weight()) by (nonlinear_arith)
                requires
                    self.items@.len() <= 8,
            ;
        }
        let w: u32 = match self.index_of(item_type) {
            Some(i) => self.items[i].weight_per_unit,
            None => catalog_weight(item_type),
        };
        proof {
            assert(w <= 5000);
            assert(quantity * w <= (u32::MAX as nat) * 5000) by (nonlinear_arith)
                requires
                    quantity <= u32::MAX,
                    w <= 5000,
            ;
        }
        let additional: u64 = quantity as u64 * w as u64;
        self.total_weight() + additional <= self.max_capacity
    }

    /// The records, in the order their kinds were first stocked.
    pub fn get_all_items(&self) -> (r: Vec<&Item>)
        ensures
            r@.len() == self.stock().len(),
            forall|i: int| 0 <= i < r@.len() ==> *r@[i] == self.stock()[i],
    {
        let mut out: Vec<&Item> = Vec::new();
        let mut i: usize = 0;
        while i < self.items.len()
            invariant
                i <= self.items@.len(),
                out@.len() == i,
                forall|j: int| 0 <= j < i ==> *out@[j] == self.items@[j],
            decreases self.items@.len() - i,
        {
            out.push(&self.items[i]);
            i = i + 1;
        }
        out
    }

    /// Eats food by weight: the amount, in tenths of a pound, is rounded up to
    /// whole pounds and that many food units are removed. Fails, changing
    /// nothing, when too little food is held.
    pub fn use_food(&mut self, pounds_tenths: u32) -> (r: bool)
        requires
            old(self).wf(),
        ensures
            final(self).wf(),
            final(self).capacity() == old(self).capacity(),
            r == (food_units(pounds_tenths) <= qty(old(self).stock(), ItemType::Food)),
            r ==> final(self).stock() == removed(
                old(self).stock(),
                ItemType::Food,
                food_units(pounds_tenths) as u32,
            ),
            !r ==> final(self).stock() == old(self).stock(),
    {
        let whole: u32 = pounds_tenths / 10;
        let units: u32 = if pounds_tenths % 10 == 0 { whole } else { whole + 1 };
        self.remove_item(ItemType::Food, units)
    }

    /// Spends `quantity` rounds of ammunition; fails, changing nothing, when
    /// fewer are held.
    pub fn use_ammunition(&mut self, quantity: u32) -> (r: bool)
        requires
            old(self).wf(),
        ensures
            final(self).wf(),
            final(self).capacity() == old(self).capacity(),
            r == (quantity <= qty(old(self).stock(), ItemType::Ammunition)),
            r ==> final(self).stock() == removed(old(self).stock(), ItemType::Ammunition, quantity),
            !r ==> final(self).stock() == old(self).stock(),
    {
        self.remove_item(ItemType::Ammunition, quantity)
    }

    /// Spends one medical supply; fails, changing nothing, when none is held.
    pub fn use_medical_supply(&mut self) -> (r: bool)
        requires
            old(self).wf(),
        ensures
            final(self).wf(),
            final(self).capacity() == old(self).capacity(),
            r == (1 <= qty(old(self).stock(), ItemType::MedicalSupply)),
            r ==> final(self).stock() == removed(old(self).stock(), ItemType::MedicalSupply, 1),
            !r ==> final(self).stock() == old(self).stock(),
    {
        self.remove_item(ItemType::MedicalSupply, 1)
    }

    /// (current weight, capacity, percent full), weights in tenths of a pound;
    /// the percentage is rounded down, and is 0 for a zero capacity.
    pub fn capacity_info(&self) -> (r: (u64, u64, u64))
        requires
            self.wf(),
        ensures
            r.0 == weight_sum(self.stock()),
            r.1 == self.capacity(),
            r.2 == percent_full(weight_sum(self.stock()), self.capacity()),
    {
        let current = self.total_weight();
        proof {
            lemma_weight_sum_bound(self.items@);
            assert(self.items@.len() * (u32::MAX as nat) * max_unit_weight() <= 8 * (u32::MAX as nat)
                * max_unit_weight()) by (nonlinear_arith)
                requires
                    self.items@.len() <= 8,
            ;
        }
        let percent: u64 = if self.max_capacity == 0 {
            0
        } else {
            current * 100 / self.max_capacity
        };
        (current, self.max_capacity, percent)
    }
}

/// Whole pounds of food eaten for an amount in tenths of a pound, rounded up.
pub open spec fn food_units(pounds_tenths: u32) -> nat {
    ((pounds_tenths + 9) / 10) as nat
}

/// `100 * current / max`, rounded down; 0 when `max` is 0.
pub open spec fn percent_full(current: nat, max: nat) -> nat {
    if max == 0 {
        0
    } else {
        (current * 100) / max
    }
}

/// Adding `q` units of any kind to an empty inventory and then removing `q`
/// units of it succeeds and leaves no record behind.
pub proof fn lemma_add_then_remove(k: ItemType, q: u32)
    ensures
        q <= qty(added(Seq::empty(), k, q), k),
        removed(added(Seq::empty(), k, q), k, q) == Seq::<Item>::empty(),
{
    let s1 = added(Seq::empty(), k, q);
    assert(s1 == seq![new_stock(k, q)]);
    assert(s1.drop_last() == Seq::<Item>::empty());
    assert(find(s1, k) == 0);
    assert(s1.remove(0) == Seq::<Item>::empty());
}

} // verus!
